//! What a range-mean query means, stated over sequences of observations,
//! and the laws that follow from that meaning.

use vstd::prelude::*;

verus! {

/// One recorded price. Timestamps need not be unique or increasing.
#[derive(Debug, Clone, Copy, PartialEq, Eq, Structural)]
pub struct Observation {
    pub timestamp: i32,
    pub price: i32,
}

/// Whether `o` falls in the closed interval from `mintime` to `maxtime`.
pub open spec fn in_range(o: Observation, mintime: i32, maxtime: i32) -> bool {
    mintime <= o.timestamp <= maxtime
}

/// The observations of `log` that fall in the interval, in log order.
pub open spec fn selected(log: Seq<Observation>, mintime: i32, maxtime: i32) -> Seq<Observation> {
    log.filter(|o: Observation| in_range(o, mintime, maxtime))
}

/// Sum of the prices of `s`, as an unbounded integer.
pub open spec fn price_sum(s: Seq<Observation>) -> int
    decreases s.len(),
{
    if s.len() == 0 {
        0
    } else {
        price_sum(s.drop_last()) + s.last().price
    }
}

/// Quotient of `a` by a positive `b`, rounded toward zero.
pub open spec fn truncated_quotient(a: int, b: int) -> int
    recommends
        b > 0,
{
    if a >= 0 {
        a / b
    } else {
        -((-a) / b)
    }
}

/// Mean price of the observations in the interval: zero when there are
/// none, otherwise their sum divided by their count, rounded toward zero.
pub open spec fn range_mean(log: Seq<Observation>, mintime: i32, maxtime: i32) -> int {
    let s = selected(log, mintime, maxtime);
    if s.len() == 0 {
        0
    } else {
        truncated_quotient(price_sum(s), s.len() as int)
    }
}

/// Appending an observation appends it to the selection exactly when it is
/// in range.
pub proof fn lemma_selected_push(log: Seq<Observation>, o: Observation, mintime: i32, maxtime: i32)
    ensures
        selected(log.push(o), mintime, maxtime) == if in_range(o, mintime, maxtime) {
            selected(log, mintime, maxtime).push(o)
        } else {
            selected(log, mintime, maxtime)
        },
{
    log.lemma_filter_push(o, |x: Observation| in_range(x, mintime, maxtime));
}

/// The selection of the empty log is empty.
pub proof fn lemma_selected_empty(mintime: i32, maxtime: i32)
    ensures
        selected(Seq::<Observation>::empty(), mintime, maxtime).len() == 0,
{
    Seq::<Observation>::empty().lemma_filter_len(|x: Observation| in_range(x, mintime, maxtime));
}

/// Every selected observation is in range, and every in-range observation
/// of the log is selected.
pub proof fn lemma_selected_members(log: Seq<Observation>, mintime: i32, maxtime: i32)
    ensures
        selected(log, mintime, maxtime).len() <= log.len(),
        forall|k: int|
            0 <= k < selected(log, mintime, maxtime).len() ==> in_range(
                #[trigger] selected(log, mintime, maxtime)[k],
                mintime,
                maxtime,
            ),
        forall|i: int|
            0 <= i < log.len() && in_range(log[i], mintime, maxtime) ==> selected(
                log,
                mintime,
                maxtime,
            ).contains(#[trigger] log[i]),
{
    let pred = |x: Observation| in_range(x, mintime, maxtime);
    log.lemma_filter_len(pred);
    assert forall|k: int| 0 <= k < selected(log, mintime, maxtime).len() implies in_range(
        #[trigger] selected(log, mintime, maxtime)[k],
        mintime,
        maxtime,
    ) by {
        log.lemma_filter_pred(pred, k);
    }
    assert forall|i: int|
        0 <= i < log.len() && in_range(log[i], mintime, maxtime) implies selected(
        log,
        mintime,
        maxtime,
    ).contains(#[trigger] log[i]) by {
        log.lemma_filter_contains(pred, i);
    }
}

/// A sum of `n` 32-bit prices lies between `n` times the least and `n`
/// times the greatest 32-bit value.
pub proof fn lemma_price_sum_bounds(s: Seq<Observation>)
    ensures
        -0x8000_0000 * s.len() <= price_sum(s) <= 0x7fff_ffff * s.len(),
    decreases s.len(),
{
    if s.len() > 0 {
        lemma_price_sum_bounds(s.drop_last());
    }
}

/// The truncated quotient of a sum bounded as in `lemma_price_sum_bounds`
/// is itself a 32-bit value.
pub proof fn lemma_quotient_fits(sum: int, n: int)
    requires
        n > 0,
        -0x8000_0000 * n <= sum <= 0x7fff_ffff * n,
    ensures
        -0x8000_0000 <= truncated_quotient(sum, n) <= 0x7fff_ffff,
{
    if sum >= 0 {
        assert(0 <= sum / n <= 0x7fff_ffff) by (nonlinear_arith)
            requires
                n > 0,
                0 <= sum <= 0x7fff_ffff * n,
        ;
    } else {
        let m = -sum;
        assert(0 <= m / n <= 0x8000_0000) by (nonlinear_arith)
            requires
                n > 0,
                0 <= m <= 0x8000_0000 * n,
        ;
    }
}

/// The mean of 32-bit prices is a 32-bit value: narrowing it loses nothing.
pub proof fn lemma_range_mean_fits(log: Seq<Observation>, mintime: i32, maxtime: i32)
    ensures
        -0x8000_0000 <= range_mean(log, mintime, maxtime) <= 0x7fff_ffff,
{
    let s = selected(log, mintime, maxtime);
    if s.len() > 0 {
        lemma_price_sum_bounds(s);
        lemma_quotient_fits(price_sum(s), s.len() as int);
    }
}

/// Removing one element lowers the sum by that element's price.
pub proof fn lemma_price_sum_remove(s: Seq<Observation>, i: int)
    requires
        0 <= i < s.len(),
    ensures
        price_sum(s) == price_sum(s.remove(i)) + s[i].price,
    decreases s.len(),
{
    if i == s.len() - 1 {
        assert(s.remove(i) =~= s.drop_last());
    } else {
        lemma_price_sum_remove(s.drop_last(), i);
        assert(s.remove(i).drop_last() =~= s.drop_last().remove(i));
        assert(s.remove(i).last() == s.last());
    }
}

/// Two sequences with the same elements, each as often, have the same sum.
pub proof fn lemma_price_sum_permutation(a: Seq<Observation>, b: Seq<Observation>)
    requires
        a.to_multiset() == b.to_multiset(),
    ensures
        a.len() == b.len(),
        price_sum(a) == price_sum(b),
    decreases a.len(),
{
    a.to_multiset_ensures();
    b.to_multiset_ensures();
    if a.len() > 0 {
        let x = a.last();
        assert(a.contains(x));
        assert(a.to_multiset().count(x) > 0);
        assert(b.to_multiset().count(x) > 0);
        assert(b.contains(x));
        let i = choose|i: int| 0 <= i < b.len() && b[i] == x;
        assert(a.drop_last() =~= a.remove(a.len() - 1));
        assert(a.drop_last().to_multiset() =~= b.remove(i).to_multiset());
        lemma_price_sum_permutation(a.drop_last(), b.remove(i));
        lemma_price_sum_remove(b, i);
    }
}

/// Selecting commutes with forgetting the order: the selection of a
/// sequence, as a multiset, is the multiset of the sequence restricted to
/// the interval.
pub proof fn lemma_selected_multiset(log: Seq<Observation>, mintime: i32, maxtime: i32)
    ensures
        forall|o: Observation| #[trigger]
            selected(log, mintime, maxtime).to_multiset().count(o) == if in_range(
                o,
                mintime,
                maxtime,
            ) {
                log.to_multiset().count(o)
            } else {
                0
            },
    decreases log.len(),
{
    if log.len() == 0 {
        lemma_selected_empty(mintime, maxtime);
        assert(selected(log, mintime, maxtime) =~= Seq::<Observation>::empty());
        assert(log =~= Seq::<Observation>::empty());
        Seq::<Observation>::empty().to_multiset_ensures();
        assert forall|o: Observation| #[trigger]
            selected(log, mintime, maxtime).to_multiset().count(o) == if in_range(
                o,
                mintime,
                maxtime,
            ) {
                log.to_multiset().count(o)
            } else {
                0
            } by {
            assert(!Seq::<Observation>::empty().contains(o));
        }
    } else {
        let rest = log.drop_last();
        let x = log.last();
        lemma_selected_multiset(rest, mintime, maxtime);
        assert(log =~= rest.push(x));
        lemma_selected_push(rest, x, mintime, maxtime);
        rest.to_multiset_ensures();
        selected(rest, mintime, maxtime).to_multiset_ensures();
    }
}

/// A query over an empty interval answers zero, whatever was inserted.
pub proof fn law_empty_interval(log: Seq<Observation>, mintime: i32, maxtime: i32)
    requires
        mintime > maxtime,
    ensures
        range_mean(log, mintime, maxtime) == 0,
{
    let s = selected(log, mintime, maxtime);
    lemma_selected_members(log, mintime, maxtime);
    if s.len() > 0 {
        assert(in_range(s[0], mintime, maxtime));
    }
}

/// A query whose interval holds no observation answers zero.
pub proof fn law_no_match(log: Seq<Observation>, mintime: i32, maxtime: i32)
    requires
        forall|i: int| 0 <= i < log.len() ==> !in_range(#[trigger] log[i], mintime, maxtime),
    ensures
        selected(log, mintime, maxtime).len() == 0,
        range_mean(log, mintime, maxtime) == 0,
    decreases log.len(),
{
    if log.len() == 0 {
        lemma_selected_empty(mintime, maxtime);
        assert(log =~= Seq::<Observation>::empty());
    } else {
        let rest = log.drop_last();
        law_no_match(rest, mintime, maxtime);
        assert(log =~= rest.push(log.last()));
        lemma_selected_push(rest, log.last(), mintime, maxtime);
    }
}

/// A query whose interval holds exactly one observation answers that
/// observation's price, unchanged.
pub proof fn law_single_match(log: Seq<Observation>, i: int, mintime: i32, maxtime: i32)
    requires
        0 <= i < log.len(),
        in_range(log[i], mintime, maxtime),
        forall|j: int|
            0 <= j < log.len() && j != i ==> !in_range(#[trigger] log[j], mintime, maxtime),
    ensures
        selected(log, mintime, maxtime) == seq![log[i]],
        range_mean(log, mintime, maxtime) == log[i].price,
{
    let pred = |x: Observation| in_range(x, mintime, maxtime);
    let before = log.subrange(0, i);
    let after = log.subrange(i + 1, log.len() as int);
    let one = seq![log[i]];
    assert(log =~= before + one + after);
    Seq::filter_distributes_over_add(before + one, after, pred);
    Seq::filter_distributes_over_add(before, one, pred);
    law_no_match(before, mintime, maxtime);
    law_no_match(after, mintime, maxtime);
    assert(one =~= Seq::<Observation>::empty().push(log[i]));
    lemma_selected_empty(mintime, maxtime);
    lemma_selected_push(Seq::<Observation>::empty(), log[i], mintime, maxtime);
    assert(selected(one, mintime, maxtime) =~= one);
    assert(selected(log, mintime, maxtime) =~= one);
    assert(one.drop_last() =~= Seq::<Observation>::empty());
    assert(price_sum(one.drop_last()) == 0);
    assert(price_sum(one) == log[i].price);
}

/// The order of inserts does not matter: two logs that hold the same
/// observations, each as often, give the same mean over every interval.
pub proof fn law_order_independent(
    a: Seq<Observation>,
    b: Seq<Observation>,
    mintime: i32,
    maxtime: i32,
)
    requires
        a.to_multiset() == b.to_multiset(),
    ensures
        range_mean(a, mintime, maxtime) == range_mean(b, mintime, maxtime),
{
    lemma_selected_multiset(a, mintime, maxtime);
    lemma_selected_multiset(b, mintime, maxtime);
    assert(selected(a, mintime, maxtime).to_multiset() =~= selected(
        b,
        mintime,
        maxtime,
    ).to_multiset());
    law_selection_decides(a, b, mintime, maxtime);
}

/// Only the in-range observations matter, and not their order: two logs
/// whose selections hold the same observations, each as often, give the
/// same mean.
pub proof fn law_selection_decides(
    a: Seq<Observation>,
    b: Seq<Observation>,
    mintime: i32,
    maxtime: i32,
)
    requires
        selected(a, mintime, maxtime).to_multiset() == selected(b, mintime, maxtime).to_multiset(),
    ensures
        range_mean(a, mintime, maxtime) == range_mean(b, mintime, maxtime),
{
    lemma_price_sum_permutation(selected(a, mintime, maxtime), selected(b, mintime, maxtime));
}

/// Both ends of the interval are included: an observation stamped exactly
/// `mintime` or exactly `maxtime` is selected whenever the interval is not
/// empty.
pub proof fn law_bounds_inclusive(log: Seq<Observation>, i: int, mintime: i32, maxtime: i32)
    requires
        0 <= i < log.len(),
        mintime <= maxtime,
        log[i].timestamp == mintime || log[i].timestamp == maxtime,
    ensures
        in_range(log[i], mintime, maxtime),
        selected(log, mintime, maxtime).contains(log[i]),
{
    lemma_selected_members(log, mintime, maxtime);
}

} // verus!
