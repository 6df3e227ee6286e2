//! Backend identities: a dotted-quad IPv4 host and a port, both kept as the text they
//! were given in, and the rules that decide which texts are accepted.

use regex::Regex;
use vstd::prelude::*;
use vstd::string::*;

verus! {

/// The shape of a dotted quad: four groups of one to three digits, separated by dots.
pub const IPV4_REGEX: &'static str = r"^(\d{1,3}\.){3}\d{1,3}$";

/// The error of a host that is no dotted-quad IPv4 address.
pub const IPV4_ERROR: &'static str = "Invalid IPv4 address";

/// The error of a port that is no integer in `0..=65535`.
pub const PORT_NUMBER_ERROR: &'static str = "Invalid Port Number";

/// The largest value of one group of an IPv4 address.
pub const MAX_OCTET: u32 = 255;

/// The largest port number.
pub const MAX_PORT: u32 = 65535;

/// `c` is one of the ten ASCII digits.
pub open spec fn is_ascii_digit(c: char) -> bool {
    '0' <= c && c <= '9'
}

/// The value of the ASCII digit `c`.
pub open spec fn digit_value(c: char) -> int {
    c as int - '0' as int
}

/// Every character of `s` is an ASCII digit.
pub open spec fn all_digits(s: Seq<char>) -> bool {
    forall|i: int| 0 <= i < s.len() ==> is_ascii_digit(#[trigger] s[i])
}

/// The number that `s` denotes when read as decimal digits, most significant first.
pub open spec fn decimal_value(s: Seq<char>) -> int
    decreases s.len(),
{
    if s.len() == 0 {
        0
    } else {
        decimal_value(s.drop_last()) * 10 + digit_value(s.last())
    }
}

/// The pieces that the dots of `s` cut it into, in order. A text without a dot is one
/// piece; a dot at either end, or two dots in a row, leave an empty piece.
pub open spec fn fields(s: Seq<char>) -> Seq<Seq<char>>
    decreases s.len(),
{
    if s.len() == 0 {
        seq![Seq::<char>::empty()]
    } else {
        let before = fields(s.drop_last());
        if s.last() == '.' {
            before.push(Seq::<char>::empty())
        } else {
            before.update(before.len() - 1, before.last().push(s.last()))
        }
    }
}

/// The pieces put together again, with a dot between each two of them.
pub open spec fn joined(pieces: Seq<Seq<char>>) -> Seq<char>
    decreases pieces.len(),
{
    if pieces.len() == 0 {
        Seq::<char>::empty()
    } else if pieces.len() == 1 {
        pieces[0]
    } else {
        joined(pieces.drop_last()) + seq!['.'] + pieces.last()
    }
}

/// `f` is a run of at least one ASCII digit whose value is at most 255.
pub open spec fn is_small_number(f: Seq<char>) -> bool {
    &&& f.len() >= 1
    &&& all_digits(f)
    &&& decimal_value(f) <= MAX_OCTET
}

/// `f` is one group of an IPv4 address: one to three ASCII digits, at most 255.
pub open spec fn is_octet(f: Seq<char>) -> bool {
    &&& f.len() <= 3
    &&& is_small_number(f)
}

/// Every piece of `s` is a run of ASCII digits with a value of at most 255.
pub open spec fn all_fields_small(s: Seq<char>) -> bool {
    forall|p: int| 0 <= p < fields(s).len() ==> is_small_number(#[trigger] fields(s)[p])
}

/// `s` is cut by exactly three dots into four pieces of one to three characters each.
pub open spec fn has_quad_layout(s: Seq<char>) -> bool {
    &&& fields(s).len() == 4
    &&& forall|p: int| 0 <= p < 4 ==> 1 <= (#[trigger] fields(s)[p]).len() <= 3
}

/// `s` has the layout of a dotted quad and holds nothing but ASCII digits and dots.
pub open spec fn is_decimal_quad(s: Seq<char>) -> bool {
    &&& has_quad_layout(s)
    &&& forall|p: int| 0 <= p < 4 ==> all_digits(#[trigger] fields(s)[p])
}

/// `s` is a dotted-quad IPv4 address: four dot-separated groups of one to three ASCII
/// digits, each at most 255, and nothing else.
pub open spec fn valid_ipv4(s: Seq<char>) -> bool {
    &&& fields(s).len() == 4
    &&& forall|p: int| 0 <= p < 4 ==> is_octet(#[trigger] fields(s)[p])
}

/// `s` without its sign, where it starts with one.
pub open spec fn unsigned_part(s: Seq<char>) -> Seq<char> {
    if s.len() > 0 && (s[0] == '+' || s[0] == '-') {
        s.subrange(1, s.len() as int)
    } else {
        s
    }
}

/// The integer that `s` denotes: an optional sign, then at least one ASCII digit.
/// `None` where `s` is no such text.
pub open spec fn integer_value(s: Seq<char>) -> Option<int> {
    let digits = unsigned_part(s);
    if digits.len() >= 1 && all_digits(digits) {
        if s[0] == '-' {
            Some(-decimal_value(digits))
        } else {
            Some(decimal_value(digits))
        }
    } else {
        None
    }
}

/// `s` denotes an integer in `0..=65535`.
pub open spec fn valid_port(s: Seq<char>) -> bool {
    match integer_value(s) {
        Some(v) => 0 <= v <= MAX_PORT,
        None => false,
    }
}

/// A text always has at least one piece.
proof fn lemma_fields_nonempty(s: Seq<char>)
    ensures
        fields(s).len() >= 1,
    decreases s.len(),
{
    if s.len() > 0 {
        lemma_fields_nonempty(s.drop_last());
    }
}

/// How one more character changes the pieces: a dot opens a new, empty piece; any
/// other character joins the last piece.
proof fn lemma_fields_push(s: Seq<char>, c: char)
    ensures
        fields(s).len() >= 1,
        c == '.' ==> fields(s.push(c)) == fields(s).push(Seq::<char>::empty()),
        c != '.' ==> fields(s.push(c)) == fields(s).update(
            fields(s).len() - 1,
            fields(s).last().push(c),
        ),
{
    lemma_fields_nonempty(s);
    assert(s.push(c).drop_last() =~= s);
}

/// Reading on never changes a piece that a dot has closed, and only lengthens the piece
/// that was open.
proof fn lemma_fields_extend(a: Seq<char>, b: Seq<char>)
    ensures
        fields(a).len() >= 1,
        fields(a + b).len() >= fields(a).len(),
        forall|p: int| 0 <= p < fields(a).len() - 1 ==> (#[trigger] fields(a + b)[p]) == fields(a)[p],
        fields(a).last().is_prefix_of(fields(a + b)[fields(a).len() - 1]),
    decreases b.len(),
{
    lemma_fields_nonempty(a);
    if b.len() == 0 {
        assert(a + b =~= a);
    } else {
        let shorter = a + b.drop_last();
        lemma_fields_extend(a, b.drop_last());
        lemma_fields_push(shorter, b.last());
        assert(shorter.push(b.last()) =~= a + b);
    }
}

/// More digits never make a number smaller.
proof fn lemma_decimal_value_grows(f: Seq<char>, g: Seq<char>)
    requires
        f.is_prefix_of(g),
        all_digits(g),
    ensures
        0 <= decimal_value(f) <= decimal_value(g),
    decreases g.len(),
{
    if g.len() == 0 {
        assert(f =~= g);
    } else if f.len() == g.len() {
        assert(f =~= g);
        lemma_decimal_value_grows(f.drop_last(), g.drop_last());
    } else {
        assert(f.is_prefix_of(g.drop_last()));
        lemma_decimal_value_grows(f, g.drop_last());
    }
}

/// A dotted-quad address is exactly a text with the layout of a quad whose pieces are
/// all numbers of at most 255; and every such address is made of digits and dots alone.
proof fn lemma_valid_ipv4_parts(s: Seq<char>)
    ensures
        valid_ipv4(s) <==> has_quad_layout(s) && all_fields_small(s),
        valid_ipv4(s) ==> is_decimal_quad(s),
{
}

/// Characters other than dots join the last piece.
proof fn lemma_fields_of_run(s: Seq<char>, run: Seq<char>)
    requires
        forall|i: int| 0 <= i < run.len() ==> run[i] != '.',
    ensures
        fields(s).len() >= 1,
        fields(s + run) == fields(s).update(fields(s).len() - 1, fields(s).last() + run),
    decreases run.len(),
{
    lemma_fields_nonempty(s);
    if run.len() == 0 {
        assert(s + run =~= s);
        assert(fields(s).last() + run =~= fields(s).last());
        assert(fields(s).update(fields(s).len() - 1, fields(s).last()) =~= fields(s));
    } else {
        let shorter = s + run.drop_last();
        lemma_fields_of_run(s, run.drop_last());
        lemma_fields_push(shorter, run.last());
        assert(shorter.push(run.last()) =~= s + run);
        assert((fields(s).last() + run.drop_last()).push(run.last()) =~= fields(s).last() + run);
        assert(fields(s + run) =~= fields(s).update(
            fields(s).len() - 1,
            fields(s).last() + run,
        ));
    }
}

/// A dot and a run of other characters after it add that run as one more piece.
proof fn lemma_fields_of_dot_and_run(s: Seq<char>, run: Seq<char>)
    requires
        forall|i: int| 0 <= i < run.len() ==> run[i] != '.',
    ensures
        fields(s + seq!['.'] + run) == fields(s).push(run),
{
    lemma_fields_push(s, '.');
    assert(s.push('.') =~= s + seq!['.']);
    lemma_fields_of_run(s + seq!['.'], run);
    assert(Seq::<char>::empty() + run =~= run);
    assert(fields(s + seq!['.'] + run) =~= fields(s).push(run));
}

/// Cutting a text at its dots loses nothing and adds nothing: the pieces, joined by
/// dots, are the text.
pub proof fn lemma_joined_fields(s: Seq<char>)
    ensures
        joined(fields(s)) == s,
    decreases s.len(),
{
    if s.len() == 0 {
        assert(fields(s)[0] =~= s);
    } else {
        let shorter = s.drop_last();
        let before = fields(shorter);
        let c = s.last();
        lemma_joined_fields(shorter);
        lemma_fields_nonempty(shorter);
        assert(shorter.push(c) =~= s);
        if c == '.' {
            let pieces = before.push(Seq::<char>::empty());
            assert(pieces.drop_last() =~= before);
            assert(shorter + seq!['.'] + Seq::<char>::empty() =~= s);
        } else {
            let grown = before.last().push(c);
            let pieces = before.update(before.len() - 1, grown);
            if before.len() == 1 {
                assert(before[0] == shorter);
            } else {
                assert(pieces.drop_last() =~= before.drop_last());
                assert(joined(before.drop_last()) + seq!['.'] + grown =~= (joined(
                    before.drop_last(),
                ) + seq!['.'] + before.last()).push(c));
            }
        }
    }
}

/// Pieces that hold no dot, joined by dots, are cut into the same pieces again.
pub proof fn lemma_fields_joined(pieces: Seq<Seq<char>>)
    requires
        pieces.len() >= 1,
        forall|p: int, i: int|
            0 <= p < pieces.len() && 0 <= i < pieces[p].len() ==> pieces[p][i] != '.',
    ensures
        fields(joined(pieces)) == pieces,
    decreases pieces.len(),
{
    let none = Seq::<char>::empty();
    if pieces.len() == 1 {
        lemma_fields_of_run(none, pieces[0]);
        assert(none + pieces[0] =~= pieces[0]);
        assert(fields(pieces[0]) =~= pieces);
    } else {
        lemma_fields_joined(pieces.drop_last());
        lemma_fields_of_dot_and_run(joined(pieces.drop_last()), pieces.last());
        assert(pieces.drop_last().push(pieces.last()) =~= pieces);
    }
}

/// Four groups of one to three digits, each at most 255, with a dot between each two
/// of them, are a dotted-quad address.
pub proof fn lemma_quad_is_valid(a: Seq<char>, b: Seq<char>, c: Seq<char>, d: Seq<char>)
    requires
        is_octet(a),
        is_octet(b),
        is_octet(c),
        is_octet(d),
    ensures
        joined(seq![a, b, c, d]) == a + seq!['.'] + b + seq!['.'] + c + seq!['.'] + d,
        valid_ipv4(joined(seq![a, b, c, d])),
{
    let pieces = seq![a, b, c, d];
    lemma_fields_joined(pieces);
    assert(pieces.drop_last() =~= seq![a, b, c]);
    assert(seq![a, b, c].drop_last() =~= seq![a, b]);
    assert(seq![a, b].drop_last() =~= seq![a]);
    reveal_with_fuel(joined, 4);
}

/// A dotted-quad address is made of its four groups and the three dots between them,
/// and of nothing else.
pub proof fn lemma_valid_is_quad(s: Seq<char>)
    requires
        valid_ipv4(s),
    ensures
        s == joined(fields(s)),
        fields(s).len() == 4,
        forall|p: int| 0 <= p < 4 ==> is_octet(#[trigger] fields(s)[p]),
{
    lemma_joined_fields(s);
}

/// What `regex::Regex::new` and `regex::Regex::is_match` make of a pattern and a text:
/// whether the text holds a match of the pattern, `None` where the pattern is refused.
pub uninterp spec fn pattern_found(pattern: Seq<char>, text: Seq<char>) -> Option<bool>;

/// Compiles `pattern` with `regex::Regex::new` and searches `text` with
/// `regex::Regex::is_match`; `None` where the pattern is refused.
///
/// The contract is not proved. It gives the result a name, and of one pattern,
/// `IPV4_REGEX`, it says more, reading it by the syntax that the regex crate documents:
/// `^` and `$` are the two ends of the text, `\d` is one Unicode decimal digit (each
/// ASCII digit is one, the dot is none), `{1,3}` is one to three repetitions, `\.` is
/// the dot itself and `(..){3}` three repetitions of the group. So the pattern
/// compiles; a text of four groups of one to three ASCII digits with a dot between
/// each two matches; and a text that matches is four groups of one to three characters
/// other than the dot, with a dot between each two. To be such groups joined by dots
/// is to be cut into them by `fields`: that is what `lemma_fields_joined` and
/// `lemma_joined_fields` prove.
#[verifier::external_body]
fn pattern_matches(pattern: &str, text: &str) -> (found: Option<bool>)
    ensures
        found == pattern_found(pattern@, text@),
        pattern@ == IPV4_REGEX@ ==> found is Some,
        pattern@ == IPV4_REGEX@ && is_decimal_quad(text@) ==> found == Some(true),
        pattern@ == IPV4_REGEX@ && found == Some(true) ==> has_quad_layout(text@),
{
    match Regex::new(pattern) {
        Ok(re) => Some(re.is_match(text)),
        Err(_) => None,
    }
}

/// Tells whether every dot-separated piece of `text` is a run of ASCII digits with a
/// value of at most 255.
pub fn octets_in_range(text: &str) -> (ok: bool)
    ensures
        ok == all_fields_small(text@),
{
    let mut value: u32 = 0;
    let mut empty = true;
    for c in it: text.chars()
        invariant
            it.seq() == text@,
            fields(text@.take(it.index())).len() >= 1,
            forall|p: int|
                0 <= p < fields(text@.take(it.index())).len() - 1 ==> is_small_number(
                    #[trigger] fields(text@.take(it.index()))[p],
                ),
            all_digits(fields(text@.take(it.index())).last()),
            decimal_value(fields(text@.take(it.index())).last()) == value,
            empty == (fields(text@.take(it.index())).last().len() == 0),
            value <= MAX_OCTET,
    {
        let ghost seen = text@.take(it.index());
        let ghost rest = text@.skip(it.index() + 1);
        let ghost next = seen.push(c);
        proof {
            assert(text@.take(it.index() + 1) =~= next);
            assert(next + rest =~= text@);
            lemma_fields_push(seen, c);
            lemma_fields_extend(next, rest);
        }
        let ghost open = fields(next).len() - 1;
        if c == '.' {
            if empty {
                assert(!is_small_number(fields(text@)[open - 1]));
                return false;
            }
            value = 0;
            empty = true;
        } else if c >= '0' && c <= '9' {
            value = value * 10 + (c as u32 - '0' as u32);
            empty = false;
            assert(fields(seen).last().push(c).drop_last() =~= fields(seen).last());
            if value > MAX_OCTET {
                proof {
                    if all_digits(fields(text@)[open]) {
                        lemma_decimal_value_grows(fields(next)[open], fields(text@)[open]);
                    }
                    assert(!is_small_number(fields(text@)[open]));
                }
                return false;
            }
        } else {
            proof {
                let grown = fields(next)[open];
                assert(grown[grown.len() - 1] == c);
                assert(fields(text@)[open][grown.len() - 1] == c);
                assert(!is_small_number(fields(text@)[open]));
            }
            return false;
        }
    }
    assert(text@.take(text@.len() as int) =~= text@);
    !empty
}

/// Tells whether `text` denotes an integer in `0..=65535`.
pub fn port_in_range(text: &str) -> (ok: bool)
    ensures
        ok == valid_port(text@),
{
    let mut value: u32 = 0;
    let mut digits: bool = false;
    let mut negative: bool = false;
    let mut first: bool = true;
    for c in it: text.chars()
        invariant
            it.seq() == text@,
            first == (it.index() == 0),
            value <= MAX_PORT,
            !first ==> negative == (text@[0] == '-'),
            !first ==> all_digits(unsigned_part(text@.take(it.index()))),
            !first ==> unsigned_part(text@.take(it.index())).is_prefix_of(unsigned_part(text@)),
            !first ==> digits == (unsigned_part(text@.take(it.index())).len() >= 1),
            !first ==> decimal_value(unsigned_part(text@.take(it.index()))) == value,
            first ==> value == 0 && !digits && !negative,
            negative ==> value == 0,
    {
        let ghost seen = text@.take(it.index());
        let ghost next = seen.push(c);
        proof {
            assert(text@.take(it.index() + 1) =~= next);
            assert(next.is_prefix_of(text@));
        }
        if first && (c == '+' || c == '-') {
            negative = c == '-';
            first = false;
            assert(unsigned_part(next) =~= Seq::<char>::empty());
        } else if c >= '0' && c <= '9' {
            let d: u32 = c as u32 - '0' as u32;
            proof {
                assert(unsigned_part(next) =~= unsigned_part(seen).push(c));
                assert(unsigned_part(next).drop_last() =~= unsigned_part(seen));
                assert(decimal_value(unsigned_part(seen)) == value);
                assert(decimal_value(unsigned_part(next)) == value * 10 + d);
                assert(unsigned_part(next).is_prefix_of(unsigned_part(text@)));
            }
            if negative && d != 0 || value * 10 + d > MAX_PORT {
                proof {
                    if all_digits(unsigned_part(text@)) {
                        lemma_decimal_value_grows(unsigned_part(next), unsigned_part(text@));
                    }
                }
                return false;
            }
            value = value * 10 + d;
            digits = true;
            first = false;
        } else {
            proof {
                let j = it.index() - (text@.len() - unsigned_part(text@).len());
                assert(unsigned_part(text@)[j] == c);
            }
            return false;
        }
    }
    assert(text@.take(text@.len() as int) =~= text@);
    digits
}

/// A backend's address: an IPv4 host and a port, both as text. A value of this type
/// always holds a valid host and a valid port.
#[derive(Debug)]
pub struct SocketAddress(String, String);

impl SocketAddress {
    /// The host, as the text it was given in.
    pub closed spec fn ipv4(&self) -> Seq<char> {
        self.0@
    }

    /// The port, as the text it was given in.
    pub closed spec fn port(&self) -> Seq<char> {
        self.1@
    }

    /// The address as `host:port`.
    pub open spec fn text(&self) -> Seq<char> {
        self.ipv4() + seq![':'] + self.port()
    }

    #[verifier::type_invariant]
    spec fn well_formed(&self) -> bool {
        valid_ipv4(self.0@) && valid_port(self.1@)
    }

    /// Makes an address of a host and a port. The host is refused first: with an
    /// invalid host the error is `IPV4_ERROR` whatever the port is.
    pub fn new(ipv4: String, port_number: String) -> (made: Result<Self, &'static str>)
        ensures
            made is Ok <==> valid_ipv4(ipv4@) && valid_port(port_number@),
            made matches Ok(address) ==> address.ipv4() == ipv4@ && address.port() == port_number@,
            !valid_ipv4(ipv4@) ==> made == Err::<Self, &'static str>(IPV4_ERROR),
            valid_ipv4(ipv4@) && !valid_port(port_number@) ==> made == Err::<Self, &'static str>(
                PORT_NUMBER_ERROR,
            ),
    {
        proof {
            lemma_valid_ipv4_parts(ipv4@);
        }
        match pattern_matches(IPV4_REGEX, ipv4.as_str()) {
            Some(true) => {},
            _ => {
                return Err(IPV4_ERROR);
            },
        }
        if !octets_in_range(ipv4.as_str()) {
            return Err(IPV4_ERROR);
        }
        if !port_in_range(port_number.as_str()) {
            return Err(PORT_NUMBER_ERROR);
        }
        Ok(SocketAddress(ipv4, port_number))
    }

    /// The port, as text.
    pub fn get_port_number(&self) -> (port: &String)
        ensures
            port@ == self.port(),
            valid_port(port@),
    {
        proof {
            use_type_invariant(self);
        }
        &self.1
    }

    /// The host, as text.
    pub fn get_ipv4(&self) -> (host: &String)
        ensures
            host@ == self.ipv4(),
            valid_ipv4(host@),
    {
        proof {
            use_type_invariant(self);
        }
        &self.0
    }

    /// The whole address in the form `host:port`.
    pub fn get(&self) -> (address: String)
        ensures
            address@ == self.text(),
    {
        let mut address = String::new();
        address.append(self.0.as_str());
        address.append(":");
        address.append(self.1.as_str());
        proof {
            reveal_strlit(":");
            assert(":"@ =~= seq![':']);
        }
        address
    }
}

impl Clone for SocketAddress {
    /// A second value with the same host and the same port.
    fn clone(&self) -> (copy: Self)
        ensures
            copy == *self,
    {
        proof {
            use_type_invariant(self);
        }
        SocketAddress(self.0.clone(), self.1.clone())
    }
}

} // verus!
