//! Numbers of tensors, given out in the order of their declaration.

use crate::weight_plan::TensorId;
use vstd::prelude::*;

verus! {

/// The number `k` behind `first`.
pub open spec fn nth(first: int, k: int) -> TensorId {
    (first + k) as usize
}

/// How many numbers are taken: `n` if `wanted`.
pub open spec fn taken(wanted: bool, n: int) -> int {
    if wanted {
        n
    } else {
        0
    }
}

/// The number of a tensor that is declared if `wanted`.
pub open spec fn one_number(wanted: bool, first: int) -> Option<TensorId> {
    if wanted {
        Some(nth(first, 0))
    } else {
        None
    }
}

/// The number, if there is one.
pub open spec fn one_listed(id: Option<TensorId>) -> Seq<TensorId> {
    match id {
        Some(id) => seq![id],
        None => Seq::empty(),
    }
}

/// The numbers ascend, and lie from `lo` to below `hi`; so none of them occurs twice.
pub open spec fn ascends(ids: Seq<TensorId>, lo: int, hi: int) -> bool {
    &&& forall|i: int| 0 <= i < ids.len() ==> lo <= #[trigger] ids[i] < hi
    &&& forall|i: int, j: int| 0 <= i < j < ids.len() ==> #[trigger] ids[i] < #[trigger] ids[j]
}

/// The numbers count up from `first`.
pub open spec fn counts_from(ids: Seq<TensorId>, first: int) -> bool {
    forall|i: int| 0 <= i < ids.len() ==> #[trigger] ids[i] == first + i
}

pub proof fn lemma_counts_ascend(ids: Seq<TensorId>, first: int, hi: int)
    requires
        counts_from(ids, first),
        first + ids.len() <= hi,
    ensures
        ascends(ids, first, hi),
{
}

pub proof fn lemma_ascends_join(a: Seq<TensorId>, b: Seq<TensorId>, lo: int, mid: int, hi: int)
    requires
        ascends(a, lo, mid),
        ascends(b, mid, hi),
        lo <= mid <= hi,
    ensures
        ascends(a + b, lo, hi),
{
    let all = a + b;
    assert forall|i: int| 0 <= i < all.len() implies lo <= #[trigger] all[i] < hi by {
        if i < a.len() {
            assert(all[i] == a[i]);
        } else {
            assert(all[i] == b[i - a.len()]);
        }
    }
    assert forall|i: int, j: int| 0 <= i < j < all.len() implies #[trigger] all[i]
        < #[trigger] all[j] by {
        if j < a.len() {
            assert(all[i] == a[i] && all[j] == a[j]);
        } else if i >= a.len() {
            assert(all[i] == b[i - a.len()] && all[j] == b[j - a.len()]);
        } else {
            assert(all[i] == a[i] && all[j] == b[j - a.len()]);
        }
    }
}

/// One more number, if there is one, goes on from where the others end.
pub proof fn lemma_one_joins(a: Seq<TensorId>, wanted: bool, lo: int, mid: int)
    requires
        ascends(a, lo, mid),
        0 <= lo <= mid,
        mid + taken(wanted, 1) <= usize::MAX,
    ensures
        ascends(a + one_listed(one_number(wanted, mid)), lo, mid + taken(wanted, 1)),
{
    lemma_ascends_join(a, one_listed(one_number(wanted, mid)), lo, mid, mid + taken(wanted, 1));
}

/// Numbers that ascend are all different.
pub proof fn lemma_ascending_numbers_differ(ids: Seq<TensorId>, lo: int, hi: int)
    requires
        ascends(ids, lo, hi),
    ensures
        ids.no_duplicates(),
{
    assert forall|i: int, j: int|
        0 <= i < ids.len() && 0 <= j < ids.len() && i != j implies ids[i] != ids[j] by {
        if i < j {
            assert(ids[i] < ids[j]);
        } else {
            assert(ids[j] < ids[i]);
        }
    }
}

} // verus!
