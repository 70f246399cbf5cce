//! The median of a list of whole numbers.

use vstd::prelude::*;
use vstd::relations::*;
use vstd::seq_lib::lemma_sorted_unique;

verus! {

/// The order by which values are ranked.
pub open spec fn at_most(a: i64, b: i64) -> bool {
    a <= b
}

/// The values in ascending order.
pub open spec fn ascending(values: Seq<i64>) -> Seq<i64> {
    values.sort_by(|a: i64, b: i64| at_most(a, b))
}

/// Half of `v`, rounded toward zero.
pub open spec fn half_toward_zero(v: int) -> int {
    if v >= 0 {
        v / 2
    } else {
        -((-v) / 2)
    }
}

/// The median: the middle value in ascending order for an odd count; for an
/// even count the mean of the two middle values, rounded toward zero to a
/// whole number. The median of no values is 0.
pub open spec fn median_value(values: Seq<i64>) -> int {
    let n = values.len() as int;
    let sorted = ascending(values);
    if n == 0 {
        0
    } else if n % 2 == 1 {
        sorted[n / 2] as int
    } else {
        half_toward_zero(sorted[n / 2 - 1] + sorted[n / 2])
    }
}

/// The sum of any two of the values fits an `i64`.
pub open spec fn pairs_fit(values: Seq<i64>) -> bool {
    forall|i: int, j: int|
        0 <= i < values.len() && 0 <= j < values.len() ==> i64::MIN <= #[trigger] values[i]
            + #[trigger] values[j] <= i64::MAX
}

/// Calls `sci_rs::stats::median` on the values.
///
/// Not proved, taken from that function's source: it returns the count of
/// the values beside their median. It selects by rank, so for an odd count
/// the median is the value that stands in the middle once the values are in
/// ascending order; for an even count it adds the two middle values and
/// divides the sum by two with the integer division of `i64`, which rounds
/// toward zero. For no values it returns `(0, 0)`. The addition must not
/// overflow, which `pairs_fit` asks.
#[verifier::external_body]
pub(crate) fn median_with_count(values: &Vec<i64>) -> (r: (i64, usize))
    requires
        pairs_fit(values@),
    ensures
        r.0 == median_value(values@),
        r.1 == values@.len(),
{
    sci_rs::stats::median(values.iter())
}

/// `at_most` is a total order.
pub proof fn lemma_at_most_total()
    ensures
        total_ordering(|a: i64, b: i64| at_most(a, b)),
{
    let leq = |a: i64, b: i64| at_most(a, b);
    assert(reflexive(leq));
    assert(antisymmetric(leq));
    assert(transitive(leq));
    assert(strongly_connected(leq));
}

/// The ascending arrangement has the length of the list, holds only values
/// of the list, and never descends.
pub proof fn lemma_ascending(values: Seq<i64>)
    ensures
        ascending(values).len() == values.len(),
        ascending(values).to_multiset() == values.to_multiset(),
        forall|k: int|
            0 <= k < values.len() ==> values.contains(#[trigger] ascending(values)[k]),
        forall|i: int, j: int|
            0 <= i <= j < values.len() ==> ascending(values)[i] <= ascending(values)[j],
{
    let leq = |a: i64, b: i64| at_most(a, b);
    let sorted = ascending(values);
    lemma_at_most_total();
    values.lemma_sort_by_ensures(leq);
    values.to_multiset_ensures();
    sorted.to_multiset_ensures();
    assert forall|k: int| 0 <= k < values.len() implies values.contains(#[trigger] sorted[k]) by {
        assert(sorted.contains(sorted[k]));
    }
    assert forall|i: int, j: int| 0 <= i <= j < values.len() implies sorted[i] <= sorted[j] by {
        if i < j {
            assert(leq(sorted[i], sorted[j]));
        }
    }
}

/// The median of a list that is not empty lies between any two bounds that
/// hold all its values.
pub proof fn lemma_median_within(values: Seq<i64>, lo: int, hi: int)
    requires
        values.len() > 0,
        forall|i: int| 0 <= i < values.len() ==> lo <= #[trigger] values[i] <= hi,
    ensures
        lo <= median_value(values) <= hi,
{
    let n = values.len() as int;
    let sorted = ascending(values);
    lemma_ascending(values);
    assert forall|k: int| 0 <= k < n implies lo <= #[trigger] sorted[k] <= hi by {
        assert(values.contains(sorted[k]));
        let i = choose|i: int| 0 <= i < values.len() && values[i] == sorted[k];
        assert(lo <= values[i] <= hi);
    }
    if n % 2 == 1 {
        assert(lo <= sorted[n / 2] <= hi);
    } else {
        assert(lo <= sorted[n / 2 - 1] <= hi);
        assert(lo <= sorted[n / 2] <= hi);
    }
}

/// The median does not depend on the order of the values: lists that
/// hold the same values equally often have the same ascending arrangement
/// and the same median.
pub proof fn lemma_median_ignores_order(a: Seq<i64>, b: Seq<i64>)
    requires
        a.to_multiset() == b.to_multiset(),
    ensures
        ascending(a) == ascending(b),
        median_value(a) == median_value(b),
{
    let leq = |x: i64, y: i64| at_most(x, y);
    lemma_at_most_total();
    a.lemma_sort_by_ensures(leq);
    b.lemma_sort_by_ensures(leq);
    lemma_sorted_unique(ascending(a), ascending(b), leq);
    a.to_multiset_ensures();
    b.to_multiset_ensures();
}

/// A list that never descends is its own ascending arrangement, so its
/// median is its middle value, or the mean of its two middle values.
pub proof fn lemma_ascending_of_ascending(values: Seq<i64>)
    requires
        forall|i: int, j: int| 0 <= i <= j < values.len() ==> values[i] <= values[j],
    ensures
        ascending(values) == values,
{
    let leq = |x: i64, y: i64| at_most(x, y);
    lemma_at_most_total();
    values.lemma_sort_by_ensures(leq);
    assert(sorted_by(values, leq));
    lemma_sorted_unique(ascending(values), values, leq);
}

} // verus!
