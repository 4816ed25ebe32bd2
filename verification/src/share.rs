//! Sharing one activation batch between lanes.

use crate::config::{ceil_div, div_ceil, lemma_ceil_div};
use vstd::arithmetic::div_mod::*;
use vstd::arithmetic::mul::*;
use vstd::prelude::*;

verus! {

/// The sum of a list.
pub open spec fn total(s: Seq<usize>) -> nat
    decreases s.len(),
{
    if s.len() == 0 {
        0
    } else {
        total(s.drop_last()) + s.last() as nat
    }
}

/// The lanes that can still take rows.
pub open spec fn hungry(available: Seq<usize>, used: Seq<usize>) -> nat
    decreases available.len(),
{
    if available.len() == 0 || used.len() == 0 {
        0
    } else {
        hungry(available.drop_last(), used.drop_last()) + (if available.last() > used.last() {
            1nat
        } else {
            0nat
        })
    }
}

/// What the last lane of a round takes when `granted` rows are already given out.
pub open spec fn take(available: usize, used: usize, share: nat, left: nat) -> nat {
    let room: nat = if available > used {
        (available - used) as nat
    } else {
        0
    };
    let capped = if room <= share {
        room
    } else {
        share
    };
    if capped <= left {
        capped
    } else {
        left
    }
}

/// One round: from the first lane to the last, each takes up to `share` rows, up to its own room,
/// and up to what is left of `budget`.
pub open spec fn round(
    available: Seq<usize>,
    used: Seq<usize>,
    share: nat,
    budget: nat,
) -> Seq<usize>
    decreases available.len(),
{
    if available.len() == 0 || used.len() == 0 {
        Seq::empty()
    } else {
        let before = round(available.drop_last(), used.drop_last(), share, budget);
        before.push(
            take(
                available.last(),
                used.last(),
                share,
                if total(before) <= budget {
                    (budget - total(before)) as nat
                } else {
                    0
                },
            ) as usize,
        )
    }
}

/// Two lists added lane by lane.
pub open spec fn plus(a: Seq<usize>, b: Seq<usize>) -> Seq<usize> {
    Seq::new(a.len(), |i: int| (a[i] + b[i]) as usize)
}

/// The rows of every lane once `budget` more rows are given out, round after round, each round
/// dividing what is left evenly (rounded up) between the lanes that still have room.
pub open spec fn shared(available: Seq<usize>, used: Seq<usize>, budget: nat) -> Seq<usize>
    decreases budget,
{
    let active = hungry(available, used);
    if budget == 0 || active == 0 {
        used
    } else {
        let grants = round(available, used, ceil_div(budget, active), budget);
        if 0 < total(grants) <= budget {
            shared(available, plus(used, grants), (budget - total(grants)) as nat)
        } else {
            used
        }
    }
}

/// No lane has taken anything.
pub open spec fn none_used(n: nat) -> Seq<usize> {
    Seq::new(n, |i: int| 0usize)
}

/// The smaller of two numbers.
pub open spec fn least(a: nat, b: nat) -> nat {
    if a <= b {
        a
    } else {
        b
    }
}

/// What [`allocate_parallel_prefill_rows`] returns.
pub open spec fn rows_of(available: Seq<usize>, ubatch: nat) -> Seq<usize> {
    shared(available, none_used(available.len()), least(ubatch, total(available)))
}

proof fn lemma_total_push(s: Seq<usize>, x: usize)
    ensures
        total(s.push(x)) == total(s) + x,
{
    assert(s.push(x).drop_last() =~= s);
}

proof fn lemma_total_take_le(s: Seq<usize>, n: int)
    requires
        0 <= n <= s.len(),
    ensures
        total(s.take(n)) <= total(s),
    decreases s.len() - n,
{
    if n < s.len() {
        lemma_total_take_le(s, n + 1);
        assert(s.take(n + 1).drop_last() =~= s.take(n));
    } else {
        assert(s.take(n) =~= s);
    }
}

/// A member is at most the sum.
pub proof fn lemma_member_le_total(s: Seq<usize>, i: int)
    requires
        0 <= i < s.len(),
    ensures
        s[i] <= total(s),
{
    lemma_total_take_le(s, i + 1);
    assert(s.take(i + 1).drop_last() =~= s.take(i));
}

/// Facts about one round.
proof fn lemma_round(available: Seq<usize>, used: Seq<usize>, share: nat, budget: nat)
    requires
        available.len() == used.len(),
    ensures
        round(available, used, share, budget).len() == available.len(),
        total(round(available, used, share, budget)) <= budget,
        forall|i: int|
            0 <= i < available.len() ==> (#[trigger] round(available, used, share, budget)[i]) <= (
            if available[i] > used[i] {
                available[i] - used[i]
            } else {
                0
            }),
        share > 0 && budget > 0 && hungry(available, used) > 0 ==> total(
            round(available, used, share, budget),
        ) > 0,
    decreases available.len(),
{
    if available.len() > 0 {
        let a = available.drop_last();
        let u = used.drop_last();
        lemma_round(a, u, share, budget);
        let before = round(a, u, share, budget);
        let all = round(available, used, share, budget);
        lemma_total_push(before, all.last());
        assert(all.drop_last() =~= before);
        assert forall|i: int| 0 <= i < available.len() implies (#[trigger] all[i]) <= (
        if available[i] > used[i] {
            available[i] - used[i]
        } else {
            0
        }) by {
            if i < available.len() - 1 {
                assert(all[i] == before[i]);
                assert(available[i] == a[i] && used[i] == u[i]);
            }
        }
    }
}

proof fn lemma_plus_total(a: Seq<usize>, b: Seq<usize>)
    requires
        a.len() == b.len(),
        forall|i: int| 0 <= i < a.len() ==> #[trigger] a[i] + b[i] <= usize::MAX,
    ensures
        total(plus(a, b)) == total(a) + total(b),
    decreases a.len(),
{
    if a.len() > 0 {
        assert forall|i: int| 0 <= i < a.drop_last().len() implies #[trigger] a.drop_last()[i]
            + b.drop_last()[i] <= usize::MAX by {
            assert(a.drop_last()[i] == a[i]);
        }
        lemma_plus_total(a.drop_last(), b.drop_last());
        assert(plus(a, b).drop_last() =~= plus(a.drop_last(), b.drop_last()));
        assert(a[a.len() - 1] + b[a.len() - 1] <= usize::MAX);
    }
}

proof fn lemma_not_hungry(available: Seq<usize>, used: Seq<usize>)
    requires
        available.len() == used.len(),
        forall|i: int| 0 <= i < used.len() ==> #[trigger] used[i] <= available[i],
        hungry(available, used) == 0,
    ensures
        used == available,
    decreases available.len(),
{
    if available.len() > 0 {
        let a = available.drop_last();
        let u = used.drop_last();
        assert forall|i: int| 0 <= i < u.len() implies #[trigger] u[i] <= a[i] by {
            assert(used[i] <= available[i]);
        }
        lemma_not_hungry(a, u);
        assert(used[used.len() - 1] <= available[used.len() - 1]);
        assert forall|i: int| 0 <= i < used.len() implies used[i] == available[i] by {
            if i < used.len() - 1 {
                assert(u[i] == a[i]);
            }
        }
    }
    assert(used =~= available);
}

proof fn lemma_shared(available: Seq<usize>, used: Seq<usize>, budget: nat)
    requires
        available.len() == used.len(),
        forall|i: int| 0 <= i < used.len() ==> #[trigger] used[i] <= available[i],
        total(used) + budget <= total(available),
    ensures
        shared(available, used, budget).len() == available.len(),
        forall|i: int|
            0 <= i < used.len() ==> used[i] <= (#[trigger] shared(available, used, budget)[i])
                <= available[i],
        total(shared(available, used, budget)) == total(used) + budget,
    decreases budget,
{
    let active = hungry(available, used);
    if budget == 0 {
    } else if active == 0 {
        lemma_not_hungry(available, used);
    } else {
        let share = ceil_div(budget, active);
        lemma_ceil_div(budget, active);
        lemma_fundamental_div_mod(budget as int, active as int);
        assert(share > 0) by (nonlinear_arith)
            requires
                budget as int == active as int * (budget as int / active as int) + budget as int
                    % active as int,
                budget > 0,
                active > 0,
                share == budget / active + (if budget % active == 0 {
                    0int
                } else {
                    1int
                }),
        ;
        lemma_round(available, used, share, budget);
        let grants = round(available, used, share, budget);
        let next = plus(used, grants);
        assert forall|i: int| 0 <= i < next.len() implies used[i] <= (#[trigger] next[i])
            <= available[i] by {
            assert(used[i] <= available[i]);
            assert(grants[i] <= (if available[i] > used[i] {
                available[i] - used[i]
            } else {
                0
            }));
        }
        assert forall|i: int| 0 <= i < used.len() implies #[trigger] used[i] + grants[i]
            <= usize::MAX by {
            assert(used[i] <= available[i]);
            assert(grants[i] <= (if available[i] > used[i] {
                available[i] - used[i]
            } else {
                0
            }));
        }
        lemma_plus_total(used, grants);
        lemma_shared(available, next, (budget - total(grants)) as nat);
        assert forall|i: int| 0 <= i < used.len() implies used[i] <= (#[trigger] shared(
            available,
            used,
            budget,
        )[i]) <= available[i] by {
            assert(used[i] <= next[i]);
        }
    }
}

proof fn lemma_none_used_total(n: nat)
    ensures
        total(none_used(n)) == 0,
    decreases n,
{
    if n > 0 {
        lemma_none_used_total((n - 1) as nat);
        assert(none_used(n).drop_last() =~= none_used((n - 1) as nat));
    }
}

/// The rows given out are as many as the batch holds or the lanes can use, whichever is less, and
/// no lane is given more than it can use.
pub proof fn law_rows_fill_the_batch(available: Seq<usize>, ubatch: nat)
    ensures
        rows_of(available, ubatch).len() == available.len(),
        total(rows_of(available, ubatch)) == least(ubatch, total(available)),
        forall|i: int|
            0 <= i < available.len() ==> (#[trigger] rows_of(available, ubatch)[i]) <= available[i],
{
    lemma_none_used_total(available.len());
    lemma_shared(available, none_used(available.len()), least(ubatch, total(available)));
}

/// A lane that can still take rows has no fewer than any later lane.
spec fn front_loaded(available: Seq<usize>, used: Seq<usize>) -> bool {
    forall|i: int, j: int|
        #![trigger used[i], used[j]]
        0 <= i < j < used.len() && used[i] < available[i] ==> used[i] >= used[j]
}

/// In one round, a lane that keeps room is granted no less than any later lane.
proof fn lemma_round_front_loaded(
    available: Seq<usize>,
    used: Seq<usize>,
    share: nat,
    budget: nat,
    i: int,
    j: int,
)
    requires
        available.len() == used.len(),
        0 <= i < j < available.len(),
        used[i] + round(available, used, share, budget)[i] < available[i],
    ensures
        round(available, used, share, budget)[i] >= round(available, used, share, budget)[j],
    decreases available.len(),
{
    let a = available.drop_last();
    let u = used.drop_last();
    let before = round(a, u, share, budget);
    lemma_round(a, u, share, budget);
    lemma_round(available, used, share, budget);
    if j < available.len() - 1 {
        lemma_round_front_loaded(a, u, share, budget, i, j);
    } else {
        lemma_grant(available, used, share, budget, i);
        lemma_total_take_le(before, i + 1);
        lemma_total_take_le(before, i);
        assert(before.take(i + 1).drop_last() =~= before.take(i));
        assert(round(available, used, share, budget).take(i) =~= before.take(i));
        assert(before[i] == round(available, used, share, budget)[i]);
    }
}

/// What lane `i` takes in a round, by what the lanes before it took.
proof fn lemma_grant(available: Seq<usize>, used: Seq<usize>, share: nat, budget: nat, i: int)
    requires
        available.len() == used.len(),
        0 <= i < available.len(),
    ensures
        total(round(available, used, share, budget).take(i)) <= budget,
        round(available, used, share, budget)[i] == take(
            available[i],
            used[i],
            share,
            (budget - total(round(available, used, share, budget).take(i))) as nat,
        ),
    decreases available.len(),
{
    let a = available.drop_last();
    let u = used.drop_last();
    let before = round(a, u, share, budget);
    let all = round(available, used, share, budget);
    lemma_round(a, u, share, budget);
    if i < available.len() - 1 {
        lemma_grant(a, u, share, budget, i);
        assert(all.take(i) =~= before.take(i));
    } else {
        assert(all.take(i) =~= before);
    }
}

proof fn lemma_shared_front_loaded(available: Seq<usize>, used: Seq<usize>, budget: nat)
    requires
        available.len() == used.len(),
        forall|i: int| 0 <= i < used.len() ==> #[trigger] used[i] <= available[i],
        front_loaded(available, used),
    ensures
        front_loaded(available, shared(available, used, budget)),
    decreases budget,
{
    let active = hungry(available, used);
    if budget > 0 && active > 0 {
        let share = ceil_div(budget, active);
        let grants = round(available, used, share, budget);
        lemma_round(available, used, share, budget);
        if 0 < total(grants) {
            let next = plus(used, grants);
            assert forall|i: int| 0 <= i < used.len() implies #[trigger] next[i] <= available[i]
                && next[i] == used[i] + grants[i] by {
                assert(used[i] <= available[i]);
                assert(grants[i] <= (if available[i] > used[i] {
                    available[i] - used[i]
                } else {
                    0
                }));
            }
            assert forall|i: int, j: int|
                #![trigger next[i], next[j]]
                0 <= i < j < next.len() && next[i] < available[i] implies next[i] >= next[j] by {
                assert(next[i] == used[i] + grants[i] && next[j] == used[j] + grants[j]);
                lemma_round_front_loaded(available, used, share, budget, i, j);
                assert(used[i] >= used[j]);
            }
            lemma_shared_front_loaded(available, next, (budget - total(grants)) as nat);
        }
    }
}

/// A lane that did not get all that it can use has at least as many rows as any later lane.
pub proof fn law_a_short_lane_has_no_fewer_rows_than_a_later_one(
    available: Seq<usize>,
    ubatch: nat,
    i: int,
    j: int,
)
    requires
        0 <= i < j < available.len(),
        rows_of(available, ubatch)[i] < available[i],
    ensures
        rows_of(available, ubatch)[i] >= rows_of(available, ubatch)[j],
{
    law_rows_fill_the_batch(available, ubatch);
    lemma_shared_front_loaded(
        available,
        none_used(available.len()),
        least(ubatch, total(available)),
    );
}

/// When the batch holds everything, every lane gets all that it can use.
pub proof fn law_a_large_batch_serves_every_lane(available: Seq<usize>, ubatch: nat)
    requires
        total(available) <= ubatch,
    ensures
        rows_of(available, ubatch) == available,
{
    law_rows_fill_the_batch(available, ubatch);
    lemma_equal_totals(available, rows_of(available, ubatch));
}

proof fn lemma_equal_totals(big: Seq<usize>, small: Seq<usize>)
    requires
        big.len() == small.len(),
        forall|i: int| 0 <= i < big.len() ==> (#[trigger] small[i]) <= big[i],
        total(small) >= total(big),
    ensures
        small == big,
        total(small) == total(big),
    decreases big.len(),
{
    if big.len() > 0 {
        let b = big.drop_last();
        let s = small.drop_last();
        assert(small[big.len() - 1] <= big[big.len() - 1]);
        assert forall|i: int| 0 <= i < b.len() implies (#[trigger] s[i]) <= b[i] by {
            assert(small[i] <= big[i]);
        }
        lemma_equal_totals(b, s);
        assert forall|i: int| 0 <= i < big.len() implies small[i] == big[i] by {
            if i < big.len() - 1 {
                assert(s[i] == b[i]);
            }
        }
    }
    assert(small =~= big);
}

proof fn lemma_all_hungry(available: Seq<usize>)
    requires
        forall|i: int| 0 <= i < available.len() ==> (#[trigger] available[i]) >= 1,
    ensures
        hungry(available, none_used(available.len())) == available.len(),
    decreases available.len(),
{
    if available.len() > 0 {
        let a = available.drop_last();
        assert forall|i: int| 0 <= i < a.len() implies (#[trigger] a[i]) >= 1 by {
            assert(available[i] >= 1);
        }
        lemma_all_hungry(a);
        assert(none_used(available.len()).drop_last() =~= none_used(a.len()));
        assert(available[available.len() - 1] >= 1);
    }
}

proof fn lemma_first_round_reaches(available: Seq<usize>, share: nat, budget: nat)
    requires
        forall|i: int| 0 <= i < available.len() ==> (#[trigger] available[i]) >= 1,
        share >= 1,
        available.len() >= 1 ==> (available.len() - 1) * share < budget,
    ensures
        total(round(available, none_used(available.len()), share, budget)) <= available.len()
            * share,
        forall|i: int|
            0 <= i < available.len() ==> (#[trigger] round(
                available,
                none_used(available.len()),
                share,
                budget,
            )[i]) >= 1,
    decreases available.len(),
{
    let none = none_used(available.len());
    lemma_round(available, none, share, budget);
    if available.len() > 0 {
        let a = available.drop_last();
        let n = a.len() as int;
        assert forall|i: int| 0 <= i < a.len() implies (#[trigger] a[i]) >= 1 by {
            assert(available[i] >= 1);
        }
        assert(none.drop_last() =~= none_used(a.len()));
        assert(n >= 1 ==> (n - 1) * share < budget) by (nonlinear_arith)
            requires
                n * share < budget,
                share >= 1,
        ;
        lemma_first_round_reaches(a, share, budget);
        let before = round(a, none_used(a.len()), share, budget);
        let all = round(available, none, share, budget);
        lemma_total_push(before, all.last());
        assert(all =~= before.push(all.last()));
        assert(available[n] >= 1);
        assert((n + 1) * share == n * share + share) by (nonlinear_arith);
        assert(none.last() == 0);
        assert forall|i: int| 0 <= i < available.len() implies (#[trigger] all[i]) >= 1 by {
            if i < n {
                assert(all[i] == before[i]);
            }
        }
    } else {
        assert(0 * share == 0) by (nonlinear_arith);
    }
}

/// Every lane that has something to feed gets at least one row, when the batch is larger than the
/// square of the number of other lanes.
pub proof fn law_every_lane_progresses(available: Seq<usize>, ubatch: nat)
    requires
        forall|i: int| 0 <= i < available.len() ==> (#[trigger] available[i]) >= 1,
        available.len() >= 1 ==> (available.len() - 1) * (available.len() - 1) < ubatch,
    ensures
        forall|i: int|
            0 <= i < available.len() ==> (#[trigger] rows_of(available, ubatch)[i]) >= 1,
{
    let n = available.len() as int;
    if total(available) <= ubatch {
        law_a_large_batch_serves_every_lane(available, ubatch);
    } else if n > 0 {
        let none = none_used(available.len());
        let share = ceil_div(ubatch, available.len());
        lemma_all_hungry(available);
        lemma_ceil_div(ubatch, available.len());
        lemma_fundamental_div_mod(ubatch as int, n);
        let q = ubatch as int / n;
        let r = ubatch as int % n;
        assert(share >= 1 && (n - 1) * share < ubatch) by (nonlinear_arith)
            requires
                n >= 1,
                ubatch as int == n * q + r,
                0 <= r < n,
                (n - 1) * (n - 1) < ubatch,
                share == q + (if r == 0 {
                    0int
                } else {
                    1int
                }),
        ;
        lemma_first_round_reaches(available, share, ubatch);
        lemma_round(available, none, share, ubatch);
        let grants = round(available, none, share, ubatch);
        lemma_none_used_total(available.len());
        let next = plus(none, grants);
        assert forall|i: int| 0 <= i < n implies 1 <= (#[trigger] next[i]) <= available[i] by {
            assert(grants[i] >= 1);
            assert(none[i] == 0);
            assert(grants[i] <= available[i]);
        }
        assert forall|i: int| 0 <= i < n implies #[trigger] none[i] + grants[i] <= usize::MAX by {
            assert(next[i] <= available[i]);
        }
        lemma_plus_total(none, grants);
        lemma_member_le_total(grants, 0);
        assert(grants[0] >= 1);
        lemma_shared(available, next, (ubatch - total(grants)) as nat);
        assert forall|i: int| 0 <= i < n implies (#[trigger] rows_of(available, ubatch)[i]) >= 1 by {
            assert(next[i] >= 1);
        }
    }
}

proof fn lemma_hungry_le(available: Seq<usize>, used: Seq<usize>)
    ensures
        hungry(available, used) <= available.len(),
    decreases available.len(),
{
    if available.len() > 0 && used.len() > 0 {
        lemma_hungry_le(available.drop_last(), used.drop_last());
    }
}

fn count_hungry(available: &[usize], used: &Vec<usize>) -> (active: usize)
    requires
        available@.len() == used@.len(),
    ensures
        active == hungry(available@, used@),
{
    let mut active: usize = 0;
    let mut i: usize = 0;
    assert(available@.take(0) =~= Seq::<usize>::empty());
    while i < available.len()
        invariant
            i <= available@.len() == used@.len(),
            active == hungry(available@.take(i as int), used@.take(i as int)),
            active <= i,
        decreases available@.len() - i,
    {
        proof {
            let a = available@.take(i + 1);
            let u = used@.take(i + 1);
            assert(a.drop_last() =~= available@.take(i as int));
            assert(u.drop_last() =~= used@.take(i as int));
        }
        if available[i] > used[i] {
            active = active + 1;
        }
        i = i + 1;
    }
    assert(available@.take(i as int) =~= available@);
    assert(used@.take(i as int) =~= used@);
    active
}

fn sum(values: &[usize]) -> (s: usize)
    requires
        total(values@) <= usize::MAX,
    ensures
        s == total(values@),
{
    let mut s: usize = 0;
    let mut i: usize = 0;
    assert(values@.take(0) =~= Seq::<usize>::empty());
    while i < values.len()
        invariant
            i <= values@.len(),
            total(values@) <= usize::MAX,
            s == total(values@.take(i as int)),
        decreases values@.len() - i,
    {
        proof {
            lemma_total_take_le(values@, i + 1);
            assert(values@.take(i + 1).drop_last() =~= values@.take(i as int));
        }
        s = s + values[i];
        i = i + 1;
    }
    assert(values@.take(i as int) =~= values@);
    s
}

/// Gives one round of rows out and returns how many that were.
fn grant_round(available: &[usize], used: &mut Vec<usize>, share: usize, budget: usize) -> (granted:
    usize)
    requires
        available@.len() == old(used)@.len(),
        forall|i: int| 0 <= i < available@.len() ==> #[trigger] old(used)@[i] <= available@[i],
    ensures
        granted == total(round(available@, old(used)@, share as nat, budget as nat)),
        granted <= budget,
        final(used)@ == plus(
            old(used)@,
            round(available@, old(used)@, share as nat, budget as nat),
        ),
{
    let ghost start = used@;
    let ghost grants = round(available@, start, share as nat, budget as nat);
    let mut granted: usize = 0;
    let mut i: usize = 0;
    proof {
        lemma_round(available@, start, share as nat, budget as nat);
        assert(available@.take(0) =~= Seq::<usize>::empty());
    }
    while i < available.len()
        invariant
            i <= available@.len() == start.len() == used@.len(),
            forall|j: int| 0 <= j < available@.len() ==> #[trigger] start[j] <= available@[j],
            forall|j: int| i <= j < available@.len() ==> #[trigger] used@[j] == start[j],
            granted == total(
                round(
                    available@.take(i as int),
                    start.take(i as int),
                    share as nat,
                    budget as nat,
                ),
            ),
            granted <= budget,
            forall|j: int|
                0 <= j < i ==> #[trigger] used@[j] == start[j] + round(
                    available@.take(i as int),
                    start.take(i as int),
                    share as nat,
                    budget as nat,
                )[j],
        decreases available@.len() - i,
    {
        let ghost a = available@.take(i + 1);
        let ghost u = start.take(i + 1);
        let ghost before = round(
            available@.take(i as int),
            start.take(i as int),
            share as nat,
            budget as nat,
        );
        let ghost all = round(a, u, share as nat, budget as nat);
        proof {
            assert(a.drop_last() =~= available@.take(i as int));
            assert(u.drop_last() =~= start.take(i as int));
            lemma_round(a.drop_last(), u.drop_last(), share as nat, budget as nat);
            lemma_round(a, u, share as nat, budget as nat);
            assert(start[i as int] <= available@[i as int]);
            assert(used@[i as int] == start[i as int]);
        }
        let room: usize = available[i] - used[i];
        let capped: usize = if room <= share {
            room
        } else {
            share
        };
        let left: usize = budget - granted;
        let take: usize = if capped <= left {
            capped
        } else {
            left
        };
        proof {
            assert(all =~= before.push(take));
            lemma_total_push(before, take);
        }
        let grown: usize = used[i] + take;
        used.set(i, grown);
        granted = granted + take;
        i = i + 1;
    }
    assert(available@.take(i as int) =~= available@);
    assert(start.take(i as int) =~= start);
    assert(used@ =~= plus(start, grants));
    granted
}

/// Shares a batch of at most `ubatch` rows between lanes that can use `available` rows each. What
/// one lane cannot use goes to the others.
pub fn allocate_parallel_prefill_rows(available: &[usize], ubatch: usize) -> (rows: Vec<usize>)
    requires
        total(available@) <= usize::MAX,
    ensures
        rows@ == rows_of(available@, ubatch as nat),
{
    let mut rows: Vec<usize> = Vec::new();
    let mut i: usize = 0;
    while i < available.len()
        invariant
            i <= available@.len(),
            rows@.len() == i,
            forall|j: int| 0 <= j < i ==> #[trigger] rows@[j] == 0,
        decreases available@.len() - i,
    {
        rows.push(0);
        i = i + 1;
    }
    let all: usize = sum(available);
    let mut budget: usize = if ubatch <= all {
        ubatch
    } else {
        all
    };
    proof {
        lemma_none_used_total(available@.len());
        assert(rows@ =~= none_used(available@.len()));
    }
    let ghost goal = rows_of(available@, ubatch as nat);
    while budget > 0
        invariant_except_break
            shared(available@, rows@, budget as nat) == goal,
        invariant
            rows@.len() == available@.len(),
            forall|j: int| 0 <= j < available@.len() ==> #[trigger] rows@[j] <= available@[j],
        ensures
            rows@ == goal,
        decreases budget,
    {
        let active: usize = count_hungry(available, &rows);
        if active == 0 {
            break;
        }
        let share: usize = div_ceil(budget, active);
        let ghost used = rows@;
        proof {
            lemma_ceil_div(budget as nat, active as nat);
            lemma_fundamental_div_mod(budget as int, active as int);
            assert(share > 0) by (nonlinear_arith)
                requires
                    budget as int == active as int * (budget as int / active as int) + budget as int
                        % active as int,
                    budget > 0,
                    active > 0,
                    share == budget / active + (if budget % active == 0 {
                        0int
                    } else {
                        1int
                    }),
            ;
            lemma_round(available@, used, share as nat, budget as nat);
        }
        let granted: usize = grant_round(available, &mut rows, share, budget);
        proof {
            let grants = round(available@, used, share as nat, budget as nat);
            assert forall|j: int| 0 <= j < available@.len() implies #[trigger] rows@[j]
                <= available@[j] by {
                assert(used[j] <= available@[j]);
                assert(grants[j] <= (if available@[j] > used[j] {
                    available@[j] - used[j]
                } else {
                    0
                }));
            }
        }
        budget = budget - granted;
    }
    rows
}

} // verus!
