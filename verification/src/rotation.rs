//! Weighted round robin as mathematics: the position of a rotation over a list of
//! weights, the step that one selection takes, and the laws of fairness that follow.

use vstd::arithmetic::div_mod::*;
use vstd::arithmetic::mul::*;
use vstd::prelude::*;

verus! {

/// Where a rotation stands: the slot under the cursor, and how many selections that
/// slot has had in its current turn. Every other slot has had none.
pub struct Rotation {
    /// The index of the slot under the cursor.
    pub cursor: nat,
    /// The selections that slot has had since the cursor came to it.
    pub served: nat,
}

/// The position of a rotation that has not selected anything yet.
pub open spec fn start() -> Rotation {
    Rotation { cursor: 0, served: 0 }
}

/// No weight is zero.
pub open spec fn all_positive(weights: Seq<nat>) -> bool {
    forall|i: int| 0 <= i < weights.len() ==> #[trigger] weights[i] > 0
}

/// The cursor is on a slot, and that slot has had no more selections than its weight.
pub open spec fn valid(weights: Seq<nat>, r: Rotation) -> bool {
    &&& r.cursor < weights.len()
    &&& r.served <= weights[r.cursor as int]
}

/// The slot that follows the one under the cursor, the first one after the last.
pub open spec fn following(weights: Seq<nat>, r: Rotation) -> nat {
    (r.cursor + 1) % weights.len()
}

/// A selection can be made: the slot under the cursor has a selection left, or the one
/// that follows it has a weight of at least one.
pub open spec fn can_select(weights: Seq<nat>, r: Rotation) -> bool {
    &&& valid(weights, r)
    &&& (r.served < weights[r.cursor as int] || weights[following(weights, r) as int] > 0)
}

/// The position after one selection. While the slot under the cursor has a selection
/// left it takes it; else the cursor moves on and the next slot takes its first.
pub open spec fn advance(weights: Seq<nat>, r: Rotation) -> Rotation {
    if r.served < weights[r.cursor as int] {
        Rotation { cursor: r.cursor, served: r.served + 1 }
    } else {
        Rotation { cursor: following(weights, r), served: 1 }
    }
}

/// The slot that the next selection chooses.
pub open spec fn selected(weights: Seq<nat>, r: Rotation) -> nat {
    advance(weights, r).cursor
}

/// The position after `n` selections.
pub open spec fn after(weights: Seq<nat>, r: Rotation, n: int) -> Rotation
    decreases n,
{
    if n <= 0 {
        r
    } else {
        advance(weights, after(weights, r, n - 1))
    }
}

/// The slot that the selection after `n` others chooses.
pub open spec fn nth_selected(weights: Seq<nat>, r: Rotation, n: int) -> nat {
    selected(weights, after(weights, r, n))
}

/// How many of the next `n` selections choose slot `i`.
pub open spec fn share(weights: Seq<nat>, r: Rotation, i: int, n: int) -> int
    decreases n,
{
    if n <= 0 {
        0
    } else {
        share(weights, r, i, n - 1) + if nth_selected(weights, r, n - 1) == i {
            1int
        } else {
            0int
        }
    }
}

/// The sum of the weights of the slots before slot `i`.
pub open spec fn weight_before(weights: Seq<nat>, i: int) -> int
    decreases i,
{
    if i <= 0 {
        0
    } else {
        weight_before(weights, i - 1) + weights[i - 1]
    }
}

/// The sum of all weights: the length of one cycle.
pub open spec fn total_weight(weights: Seq<nat>) -> int {
    weight_before(weights, weights.len() as int)
}

/// How far into the cycle a rotation is: the weights of the slots before the cursor
/// and the selections that the slot under it has had.
pub open spec fn position(weights: Seq<nat>, r: Rotation) -> int {
    weight_before(weights, r.cursor as int) + r.served
}

/// Place `p` of the cycle, counted from zero and taken round the cycle, belongs to
/// slot `i`: the places of a slot are as many as its weight, and follow those of the
/// slots before it.
pub open spec fn owns(weights: Seq<nat>, i: int, p: int) -> bool {
    weight_before(weights, i) <= p % total_weight(weights) < weight_before(weights, i + 1)
}

/// How many of the `n` places from `from` on belong to slot `i`.
pub open spec fn places(weights: Seq<nat>, i: int, from: int, n: int) -> int
    decreases n,
{
    if n <= 0 {
        0
    } else {
        places(weights, i, from, n - 1) + if owns(weights, i, from + n - 1) {
            1int
        } else {
            0int
        }
    }
}

proof fn lemma_weight_before_grows(weights: Seq<nat>, i: int, j: int)
    requires
        0 <= i <= j,
    ensures
        0 <= weight_before(weights, i) <= weight_before(weights, j),
    decreases j,
{
    if i < j {
        lemma_weight_before_grows(weights, i, j - 1);
    } else if i > 0 {
        lemma_weight_before_grows(weights, i - 1, i - 1);
    }
}

proof fn lemma_cycle_is_not_empty(weights: Seq<nat>)
    requires
        all_positive(weights),
        weights.len() > 0,
    ensures
        total_weight(weights) > 0,
{
    lemma_weight_before_grows(weights, 1, weights.len() as int);
    assert(weight_before(weights, 1) == weight_before(weights, 0) + weights[0]);
}

/// One selection keeps a rotation valid and moves it one place on in the cycle, and
/// it chooses the slot that owns the place where the rotation stood.
pub proof fn lemma_advance(weights: Seq<nat>, r: Rotation)
    requires
        all_positive(weights),
        valid(weights, r),
    ensures
        can_select(weights, r),
        valid(weights, advance(weights, r)),
        position(weights, advance(weights, r)) % total_weight(weights) == (position(weights, r)
            + 1) % total_weight(weights),
        forall|i: int|
            0 <= i < weights.len() ==> (selected(weights, r) == i) == #[trigger] owns(
                weights,
                i,
                position(weights, r),
            ),
{
    let len = weights.len() as int;
    let total = total_weight(weights);
    let c = r.cursor as int;
    let here = position(weights, r);
    lemma_cycle_is_not_empty(weights);
    lemma_weight_before_grows(weights, c, c);
    lemma_weight_before_grows(weights, c + 1, len);
    assert(weight_before(weights, c + 1) == weight_before(weights, c) + weights[c]);
    let next = advance(weights, r);
    let chosen = next.cursor as int;
    if r.served < weights[c] {
        lemma_small_mod(here as nat, total as nat);
    } else if c + 1 < len {
        lemma_small_mod((c + 1) as nat, len as nat);
        lemma_weight_before_grows(weights, c + 2, len);
        assert(weight_before(weights, c + 2) == weight_before(weights, c + 1) + weights[c + 1]);
        lemma_small_mod(here as nat, total as nat);
    } else {
        lemma_mod_self_0(len);
        lemma_mod_self_0(total);
        assert(weight_before(weights, 1) == weight_before(weights, 0) + weights[0]);
        lemma_mod_add_multiples_vanish(1, total);
    }
    assert(0 <= chosen < len);
    assert(weight_before(weights, chosen + 1) == weight_before(weights, chosen)
        + weights[chosen]);
    let place = here % total;
    assert(weight_before(weights, chosen) <= place < weight_before(weights, chosen + 1));
    assert forall|i: int| 0 <= i < len implies (selected(weights, r) == i) == #[trigger] owns(
        weights,
        i,
        here,
    ) by {
        if i < chosen {
            lemma_weight_before_grows(weights, i + 1, chosen);
        } else if i > chosen {
            lemma_weight_before_grows(weights, chosen + 1, i);
        }
    }
}

/// After `n` selections a rotation is valid and stands `n` places further in the cycle.
pub proof fn lemma_after(weights: Seq<nat>, r: Rotation, n: int)
    requires
        all_positive(weights),
        valid(weights, r),
        0 <= n,
    ensures
        valid(weights, after(weights, r, n)),
        position(weights, after(weights, r, n)) % total_weight(weights) == (position(weights, r)
            + n) % total_weight(weights),
    decreases n,
{
    if n > 0 {
        let total = total_weight(weights);
        let before = after(weights, r, n - 1);
        lemma_cycle_is_not_empty(weights);
        lemma_after(weights, r, n - 1);
        lemma_advance(weights, before);
        lemma_add_mod_noop(position(weights, before), 1, total);
        lemma_add_mod_noop(position(weights, r) + n - 1, 1, total);
    }
}

/// The rule of the rotation in closed form: the selection after `n` others chooses the
/// slot that owns the place `n` places further in the cycle. So the slots are chosen
/// in the order of their insertion, each as many times in a row as its weight.
pub proof fn lemma_nth_selected(weights: Seq<nat>, r: Rotation, i: int, n: int)
    requires
        all_positive(weights),
        valid(weights, r),
        0 <= i < weights.len(),
        0 <= n,
    ensures
        (nth_selected(weights, r, n) == i) == owns(weights, i, position(weights, r) + n),
{
    let there = after(weights, r, n);
    lemma_after(weights, r, n);
    lemma_advance(weights, there);
    assert((selected(weights, there) == i) == owns(weights, i, position(weights, there)));
}

proof fn lemma_share_counts_places(weights: Seq<nat>, r: Rotation, i: int, n: int)
    requires
        all_positive(weights),
        valid(weights, r),
        0 <= i < weights.len(),
    ensures
        share(weights, r, i, n) == places(weights, i, position(weights, r), n),
    decreases n,
{
    if n > 0 {
        lemma_share_counts_places(weights, r, i, n - 1);
        lemma_nth_selected(weights, r, i, n - 1);
    }
}

proof fn lemma_places_split(weights: Seq<nat>, i: int, from: int, n: int, m: int)
    requires
        0 <= n,
        0 <= m,
    ensures
        places(weights, i, from, n + m) == places(weights, i, from, n) + places(
            weights,
            i,
            from + n,
            m,
        ),
    decreases m,
{
    if m > 0 {
        lemma_places_split(weights, i, from, n, m - 1);
    }
}

proof fn lemma_places_at_start(weights: Seq<nat>, i: int, n: int)
    requires
        0 <= i < weights.len(),
        0 <= n <= total_weight(weights),
    ensures
        places(weights, i, 0, n) == if n <= weight_before(weights, i) {
            0
        } else if n <= weight_before(weights, i + 1) {
            n - weight_before(weights, i)
        } else {
            weights[i] as int
        },
    decreases n,
{
    lemma_weight_before_grows(weights, i, i);
    assert(weight_before(weights, i + 1) == weight_before(weights, i) + weights[i]);
    if n > 0 {
        lemma_places_at_start(weights, i, n - 1);
        lemma_small_mod((n - 1) as nat, total_weight(weights) as nat);
    }
}

proof fn lemma_places_of_a_cycle(weights: Seq<nat>, i: int, from: int)
    requires
        0 <= i < weights.len(),
        total_weight(weights) > 0,
        0 <= from,
    ensures
        places(weights, i, from, total_weight(weights)) == weights[i],
    decreases from,
{
    let total = total_weight(weights);
    if from == 0 {
        lemma_weight_before_grows(weights, i + 1, weights.len() as int);
        lemma_places_at_start(weights, i, total);
    } else {
        let f = from - 1;
        lemma_places_of_a_cycle(weights, i, f);
        lemma_places_split(weights, i, f, 1, total);
        lemma_places_split(weights, i, f, total, 1);
        assert(places(weights, i, f, 1) == if owns(weights, i, f) {
            1int
        } else {
            0int
        }) by {
            assert(places(weights, i, f, 0) == 0);
        }
        assert(places(weights, i, f + total, 1) == if owns(weights, i, f + total) {
            1int
        } else {
            0int
        }) by {
            assert(places(weights, i, f + total, 0) == 0);
        }
        lemma_mod_add_multiples_vanish(f, total);
    }
}

proof fn lemma_places_of_cycles(weights: Seq<nat>, i: int, from: int, cycles: int)
    requires
        0 <= i < weights.len(),
        total_weight(weights) > 0,
        0 <= from,
        0 <= cycles,
    ensures
        places(weights, i, from, cycles * total_weight(weights)) == cycles * weights[i],
    decreases cycles,
{
    let total = total_weight(weights);
    let weight = weights[i] as int;
    if cycles == 0 {
        lemma_mul_basics(total);
        lemma_mul_basics(weight);
    } else {
        let fewer = cycles - 1;
        lemma_places_of_cycles(weights, i, from, fewer);
        lemma_mul_nonnegative(fewer, total);
        lemma_places_of_a_cycle(weights, i, from + fewer * total);
        lemma_places_split(weights, i, from, fewer * total, total);
        assert(cycles * total == fewer * total + total) by (nonlinear_arith)
            requires
                cycles == fewer + 1,
        ;
        assert(cycles * weight == fewer * weight + weight) by (nonlinear_arith)
            requires
                cycles == fewer + 1,
        ;
    }
}

/// Fairness: wherever a rotation stands, over any whole number of cycles each slot is
/// chosen as many times as its weight says, once per cycle for each unit of weight.
pub proof fn lemma_fair_share(weights: Seq<nat>, r: Rotation, i: int, cycles: int)
    requires
        all_positive(weights),
        valid(weights, r),
        0 <= i < weights.len(),
        0 <= cycles,
    ensures
        share(weights, r, i, cycles * total_weight(weights)) == cycles * weights[i],
{
    lemma_cycle_is_not_empty(weights);
    lemma_weight_before_grows(weights, r.cursor as int, r.cursor as int);
    lemma_share_counts_places(weights, r, i, cycles * total_weight(weights));
    lemma_places_of_cycles(weights, i, position(weights, r), cycles);
}

} // verus!
