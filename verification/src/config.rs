//! The configuration of the proxy: a JSON document that names the address to listen on
//! and the backends with their weights. The document is taken as text; reading the file
//! is the caller's part.
//!
//! ```text
//! { "Listen_to": { "ipv4": "127.0.0.1", "port": "8080" },
//!   "Servers": [ { "ipv4": "10.0.0.1", "port": "80", "weight": 2 } ] }
//! ```

use crate::json::{items_of, json_of, member_of, number_of, parse, text_of, Json};
use crate::socket_address::{
    valid_ipv4, valid_port, SocketAddress, IPV4_ERROR, PORT_NUMBER_ERROR,
};
use vstd::prelude::*;

verus! {

/// The key of the backends.
pub const SERVERS_KEY: &'static str = "Servers";

/// The key of the address to listen on.
pub const SERVER_SOCADDR_KEY: &'static str = "Listen_to";

/// The key of a host.
pub const IPV4_KEY: &'static str = "ipv4";

/// The key of a port.
pub const PORT_KEY: &'static str = "port";

/// The key of a weight.
pub const WEIGHT_KEY: &'static str = "weight";

/// The error of a text that is no JSON document.
pub const INCORRECT_JSON_FORMAT: &'static str = "The json format isn't correct";

/// The error of a document without backends.
pub const NO_SERVERS_KEY: &'static str = "The is no \"Servers\" key in the json";

/// The error of a document without an address to listen on.
pub const NO_LISTEN_TO_KEY: &'static str = "The is no \"Listen_to\" key in the json";

/// The error of an address without a host.
pub const NO_IPV4_KEY: &'static str = "The is no \"ipv4\" key in the json";

/// The error of an address without a port.
pub const NO_PORT_KEY: &'static str = "The is no \"port\" key in the json";

/// The error of a backend without a weight.
pub const NO_WEIGHT_KEY: &'static str = "The is no \"weight\" key in the json";

/// The error of an empty list of backends.
pub const EMPTY_SERVERS_VEC: &'static str = "Empty Servers key";

/// An address as it stands in a document: host and port.
pub type AddressText = (Seq<char>, Seq<char>);

/// A backend as it stands in a document: host, port and weight.
pub type EntryText = (Seq<char>, Seq<char>, usize);

/// The text under `key` in `object`, or the error that says what is wrong: `absent`
/// where there is no such member, `not_text` where the member is no string.
pub open spec fn lookup(
    object: Json,
    key: Seq<char>,
    absent: &'static str,
    not_text: &'static str,
) -> Result<Seq<char>, &'static str> {
    match member_of(object, key) {
        None => Err(absent),
        Some(m) => match text_of(m) {
            None => Err(not_text),
            Some(t) => Ok(t),
        },
    }
}

/// The address that a host and a port make, each given as its text or as the error of
/// its lookup. A missing host is reported before a missing port, and both before a
/// host or a port that is not valid.
pub open spec fn checked_address(
    ipv4: Result<Seq<char>, &'static str>,
    port: Result<Seq<char>, &'static str>,
) -> Result<AddressText, &'static str> {
    match ipv4 {
        Err(e) => Err(e),
        Ok(host) => match port {
            Err(e) => Err(e),
            Ok(number) => if !valid_ipv4(host) {
                Err(IPV4_ERROR)
            } else if !valid_port(number) {
                Err(PORT_NUMBER_ERROR)
            } else {
                Ok((host, number))
            },
        },
    }
}

/// The backend that a host, a port and a weight make. What is wrong with the address
/// is reported before a missing weight.
pub open spec fn checked_entry(
    ipv4: Result<Seq<char>, &'static str>,
    port: Result<Seq<char>, &'static str>,
    weight: Option<u64>,
) -> Result<EntryText, &'static str> {
    match checked_address(ipv4, port) {
        Err(e) => Err(e),
        Ok(address) => match weight {
            None => Err(NO_WEIGHT_KEY),
            Some(w) => Ok((address.0, address.1, w as usize)),
        },
    }
}

/// The weight of a backend in a document: the member `weight`, where it is a number.
pub open spec fn weight_of(item: Json) -> Option<u64> {
    match member_of(item, WEIGHT_KEY@) {
        None => None,
        Some(m) => number_of(m),
    }
}

/// The backend that one item of `Servers` describes.
pub open spec fn entry_of(item: Json) -> Result<EntryText, &'static str> {
    checked_entry(
        lookup(item, IPV4_KEY@, NO_IPV4_KEY, NO_IPV4_KEY),
        lookup(item, PORT_KEY@, NO_PORT_KEY, NO_PORT_KEY),
        weight_of(item),
    )
}

/// The backends that `items` describe, in their order, or the error of the first item
/// that describes none.
pub open spec fn entries_of(items: Seq<Json>) -> Result<Seq<EntryText>, &'static str>
    decreases items.len(),
{
    if items.len() == 0 {
        Ok(Seq::empty())
    } else {
        match entries_of(items.drop_last()) {
            Err(e) => Err(e),
            Ok(before) => match entry_of(items.last()) {
                Err(e) => Err(e),
                Ok(entry) => Ok(before.push(entry)),
            },
        }
    }
}

/// The address to listen on that a document names. The member `Listen_to` has to be
/// an object. A port that is there but is no string is reported as `NO_IPV4_KEY`.
pub open spec fn listener_of(document: Json) -> Result<AddressText, &'static str> {
    match member_of(document, SERVER_SOCADDR_KEY@) {
        None => Err(NO_LISTEN_TO_KEY),
        Some(listen_to) => if listen_to is Object {
            checked_address(
                lookup(listen_to, IPV4_KEY@, NO_IPV4_KEY, NO_IPV4_KEY),
                lookup(listen_to, PORT_KEY@, NO_PORT_KEY, NO_IPV4_KEY),
            )
        } else {
            Err(NO_LISTEN_TO_KEY)
        },
    }
}

/// The backends that a document names: the member `Servers` has to be an array with
/// at least one item.
pub open spec fn servers_of(document: Json) -> Result<Seq<EntryText>, &'static str> {
    match member_of(document, SERVERS_KEY@) {
        None => Err(NO_SERVERS_KEY),
        Some(servers) => match items_of(servers) {
            None => Err(NO_SERVERS_KEY),
            Some(list) => if list.len() == 0 {
                Err(EMPTY_SERVERS_VEC)
            } else {
                entries_of(list)
            },
        },
    }
}

/// What a document says: the address to listen on and the backends, or the first
/// thing that is wrong with it. The address to listen on is looked at before the
/// backends.
pub open spec fn configuration_of_document(document: Json) -> Result<
    (AddressText, Seq<EntryText>),
    &'static str,
> {
    match listener_of(document) {
        Err(e) => Err(e),
        Ok(listener) => match servers_of(document) {
            Err(e) => Err(e),
            Ok(servers) => Ok((listener, servers)),
        },
    }
}

/// What a configuration text says: what the document says that it holds, or
/// `INCORRECT_JSON_FORMAT` where it holds none.
pub open spec fn configuration_of(text: Seq<char>) -> Result<
    (AddressText, Seq<EntryText>),
    &'static str,
> {
    match json_of(text) {
        None => Err(INCORRECT_JSON_FORMAT),
        Some(document) => configuration_of_document(document),
    }
}

/// The backends of `servers` as the texts and weights they were made of.
pub open spec fn entries_view(servers: Seq<(SocketAddress, usize)>) -> Seq<EntryText> {
    Seq::new(servers.len(), |i: int| (servers[i].0.ipv4(), servers[i].0.port(), servers[i].1))
}

/// A lookup seen as plain values.
pub open spec fn texts(found: Result<&str, &'static str>) -> Result<Seq<char>, &'static str> {
    match found {
        Ok(t) => Ok(t@),
        Err(e) => Err(e),
    }
}

/// Makes an address of a host and a port, each given as its text or as the error of
/// its lookup.
pub fn address_from(ipv4: Result<&str, &'static str>, port: Result<&str, &'static str>) -> (made:
    Result<SocketAddress, &'static str>)
    ensures
        made matches Ok(address) ==> checked_address(texts(ipv4), texts(port)) == Ok::<
            AddressText,
            &'static str,
        >((address.ipv4(), address.port())),
        made matches Err(e) ==> checked_address(texts(ipv4), texts(port)) == Err::<
            AddressText,
            &'static str,
        >(e),
{
    let host = match ipv4 {
        Ok(host) => host,
        Err(e) => {
            return Err(e);
        },
    };
    let number = match port {
        Ok(number) => number,
        Err(e) => {
            return Err(e);
        },
    };
    SocketAddress::new(host.to_owned(), number.to_owned())
}

/// Makes a backend of a host, a port and a weight, each given as it was found.
pub fn entry_from(
    ipv4: Result<&str, &'static str>,
    port: Result<&str, &'static str>,
    weight: Option<u64>,
) -> (made: Result<(SocketAddress, usize), &'static str>)
    ensures
        made matches Ok(entry) ==> checked_entry(texts(ipv4), texts(port), weight) == Ok::<
            EntryText,
            &'static str,
        >((entry.0.ipv4(), entry.0.port(), entry.1)),
        made matches Err(e) ==> checked_entry(texts(ipv4), texts(port), weight) == Err::<
            EntryText,
            &'static str,
        >(e),
{
    let address = match address_from(ipv4, port) {
        Ok(address) => address,
        Err(e) => {
            return Err(e);
        },
    };
    match weight {
        Some(w) => Ok((address, #[verifier::truncate] (w as usize))),
        None => Err(NO_WEIGHT_KEY),
    }
}

fn find<'a>(object: &'a Json, key: &str, absent: &'static str, not_text: &'static str) -> (found:
    Result<&'a str, &'static str>)
    ensures
        texts(found) == lookup(*object, key@, absent, not_text),
{
    match object.get(key) {
        None => Err(absent),
        Some(m) => match m.as_str() {
            None => Err(not_text),
            Some(t) => Ok(t),
        },
    }
}

fn entry(item: &Json) -> (made: Result<(SocketAddress, usize), &'static str>)
    ensures
        made matches Ok(entry) ==> entry_of(*item) == Ok::<EntryText, &'static str>(
            (entry.0.ipv4(), entry.0.port(), entry.1),
        ),
        made matches Err(e) ==> entry_of(*item) == Err::<EntryText, &'static str>(e),
{
    let ipv4 = find(item, IPV4_KEY, NO_IPV4_KEY, NO_IPV4_KEY);
    let port = find(item, PORT_KEY, NO_PORT_KEY, NO_PORT_KEY);
    let weight = match item.get(WEIGHT_KEY) {
        None => None,
        Some(m) => m.as_u64(),
    };
    entry_from(ipv4, port, weight)
}

fn listener(document: &Json) -> (made: Result<SocketAddress, &'static str>)
    ensures
        made matches Ok(address) ==> listener_of(*document) == Ok::<AddressText, &'static str>(
            (address.ipv4(), address.port()),
        ),
        made matches Err(e) ==> listener_of(*document) == Err::<AddressText, &'static str>(e),
{
    let listen_to = match document.get(SERVER_SOCADDR_KEY) {
        Some(listen_to) => listen_to,
        None => {
            return Err(NO_LISTEN_TO_KEY);
        },
    };
    if !listen_to.is_object() {
        return Err(NO_LISTEN_TO_KEY);
    }
    let ipv4 = find(listen_to, IPV4_KEY, NO_IPV4_KEY, NO_IPV4_KEY);
    let port = find(listen_to, PORT_KEY, NO_PORT_KEY, NO_IPV4_KEY);
    address_from(ipv4, port)
}

fn servers(document: &Json) -> (made: Result<Vec<(SocketAddress, usize)>, &'static str>)
    ensures
        made matches Ok(list) ==> list@.len() > 0 && servers_of(*document) == Ok::<
            Seq<EntryText>,
            &'static str,
        >(entries_view(list@)),
        made matches Err(e) ==> servers_of(*document) == Err::<Seq<EntryText>, &'static str>(e),
{
    let list = match document.get(SERVERS_KEY) {
        Some(servers) => match servers.as_array() {
            Some(list) => list,
            None => {
                return Err(NO_SERVERS_KEY);
            },
        },
        None => {
            return Err(NO_SERVERS_KEY);
        },
    };
    if list.len() == 0 {
        return Err(EMPTY_SERVERS_VEC);
    }
    let mut made: Vec<(SocketAddress, usize)> = Vec::new();
    let mut i: usize = 0;
    assert(entries_view(made@) =~= Seq::<EntryText>::empty());
    while i < list.len()
        invariant
            i <= list@.len(),
            made@.len() == i,
            servers_of(*document) == entries_of(list@),
            entries_of(list@.take(i as int)) == Ok::<Seq<EntryText>, &'static str>(
                entries_view(made@),
            ),
        decreases list@.len() - i,
    {
        proof {
            assert(list@.take(i + 1).drop_last() =~= list@.take(i as int));
            assert(list@.take(i + 1).last() == list@[i as int]);
        }
        match entry(&list[i]) {
            Ok(found) => {
                let ghost before = made@;
                made.push(found);
                assert(entries_view(made@) =~= entries_view(before).push(
                    (found.0.ipv4(), found.0.port(), found.1),
                ));
            },
            Err(e) => {
                proof {
                    lemma_first_error_stays(list@, i + 1, e);
                }
                return Err(e);
            },
        }
        i = i + 1;
    }
    assert(list@.take(list@.len() as int) =~= list@);
    Ok(made)
}

proof fn lemma_first_error_stays(items: Seq<Json>, n: int, e: &'static str)
    requires
        0 <= n <= items.len(),
        entries_of(items.take(n)) == Err::<Seq<EntryText>, &'static str>(e),
    ensures
        entries_of(items) == Err::<Seq<EntryText>, &'static str>(e),
    decreases items.len() - n,
{
    if n < items.len() {
        assert(items.take(n + 1).drop_last() =~= items.take(n));
        lemma_first_error_stays(items, n + 1, e);
    } else {
        assert(items.take(n) =~= items);
    }
}

/// Reads a configuration from a document: the address to listen on and the backends
/// with their weights, in the order of the document, or the first thing that is wrong
/// with it.
pub fn configure_document(document: &Json) -> (made: Result<
    (SocketAddress, Vec<(SocketAddress, usize)>),
    &'static str,
>)
    ensures
        made matches Ok(c) ==> c.1@.len() > 0 && configuration_of_document(*document) == Ok::<
            (AddressText, Seq<EntryText>),
            &'static str,
        >(((c.0.ipv4(), c.0.port()), entries_view(c.1@))),
        made matches Err(e) ==> configuration_of_document(*document) == Err::<
            (AddressText, Seq<EntryText>),
            &'static str,
        >(e),
{
    let listening = match listener(document) {
        Ok(address) => address,
        Err(e) => {
            return Err(e);
        },
    };
    let backends = match servers(document) {
        Ok(list) => list,
        Err(e) => {
            return Err(e);
        },
    };
    Ok((listening, backends))
}

/// Reads a configuration from the text of a JSON document.
pub fn configure(text: &str) -> (made: Result<
    (SocketAddress, Vec<(SocketAddress, usize)>),
    &'static str,
>)
    ensures
        made matches Ok(c) ==> c.1@.len() > 0 && configuration_of(text@) == Ok::<
            (AddressText, Seq<EntryText>),
            &'static str,
        >(((c.0.ipv4(), c.0.port()), entries_view(c.1@))),
        made matches Err(e) ==> configuration_of(text@) == Err::<
            (AddressText, Seq<EntryText>),
            &'static str,
        >(e),
{
    match parse(text) {
        Ok(document) => configure_document(&document),
        Err(_) => Err(INCORRECT_JSON_FORMAT),
    }
}

} // verus!
