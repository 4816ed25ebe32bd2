//! What the operations of a graph may read: inputs, and what an earlier operation wrote.

use crate::graph_ops::Op;
use crate::weight_plan::TensorId;
use vstd::prelude::*;

verus! {

/// Everything that the operation reads is known.
pub open spec fn covers(known: Set<TensorId>, op: Op) -> bool {
    forall|t: TensorId| op.reads(t) ==> #[trigger] known.contains(t)
}

/// What is known after the first `n` operations.
pub open spec fn known_by(known: Set<TensorId>, ops: Seq<Op>, n: nat) -> Set<TensorId>
    decreases n,
{
    if n == 0 {
        known
    } else {
        let before = known_by(known, ops, (n - 1) as nat);
        Set::new(|t: TensorId| before.contains(t) || ops[n - 1].writes(t))
    }
}

/// Each of the first `n` operations reads only what is known before it.
pub open spec fn flows(known: Set<TensorId>, ops: Seq<Op>, n: nat) -> bool
    decreases n,
{
    n == 0 || (flows(known, ops, (n - 1) as nat) && covers(
        known_by(known, ops, (n - 1) as nat),
        ops[n - 1],
    ))
}

/// What is known after all operations.
#[verifier::opaque]
pub open spec fn known_after(known: Set<TensorId>, ops: Seq<Op>) -> Set<TensorId> {
    known_by(known, ops, ops.len())
}

/// Every operation reads only inputs, and what an earlier operation wrote.
#[verifier::opaque]
pub open spec fn sound(known: Set<TensorId>, ops: Seq<Op>) -> bool {
    flows(known, ops, ops.len())
}

proof fn lemma_known_in_front(known: Set<TensorId>, a: Seq<Op>, b: Seq<Op>, n: nat)
    requires
        n <= a.len(),
    ensures
        known_by(known, a + b, n) == known_by(known, a, n),
        flows(known, a + b, n) == flows(known, a, n),
    decreases n,
{
    if n > 0 {
        lemma_known_in_front(known, a, b, (n - 1) as nat);
        assert((a + b)[n - 1] == a[n - 1]);
    }
}

proof fn lemma_known_behind(known: Set<TensorId>, a: Seq<Op>, b: Seq<Op>, n: nat)
    requires
        n <= b.len(),
    ensures
        known_by(known, a + b, a.len() + n) == known_by(known_after(known, a), b, n),
        sound(known, a) ==> flows(known, a + b, a.len() + n) == flows(
            known_after(known, a),
            b,
            n,
        ),
    decreases n,
{
    reveal(sound);
    reveal(known_after);
    lemma_known_in_front(known, a, b, a.len());
    if n > 0 {
        lemma_known_behind(known, a, b, (n - 1) as nat);
        assert((a + b)[a.len() + n - 1] == b[n - 1]);
    }
}

/// The tensor is known after the operations: an input, or written by one of them.
pub open spec fn has(known: Set<TensorId>, ops: Seq<Op>, t: TensorId) -> bool {
    known_after(known, ops).contains(t)
}

/// The tensor is known after the operations, where it is given.
pub open spec fn has_if(known: Set<TensorId>, ops: Seq<Op>, t: Option<TensorId>) -> bool {
    t is Some ==> has(known, ops, t->Some_0)
}

/// What is known after some operations is known after more.
pub open spec fn grows(known: Set<TensorId>, a: Seq<Op>, b: Seq<Op>) -> bool {
    forall|t: TensorId| has(known, a, t) ==> #[trigger] has(known, b, t)
}

/// Operations that read only what is known after others are sound behind them.
pub proof fn lemma_follows(known: Set<TensorId>, a: Seq<Op>, b: Seq<Op>)
    requires
        sound(known, a),
        flows(known_after(known, a), b, b.len()),
    ensures
        sound(known, a + b),
        grows(known, a, a + b),
        known_after(known, a + b) == known_by(known_after(known, a), b, b.len()),
{
    reveal(sound);
    reveal(known_after);
    lemma_known_behind(known, a, b, b.len());
    lemma_known_grows(known_after(known, a), b, b.len());
}

/// Inputs are known before anything was done.
pub proof fn lemma_nothing_done(known: Set<TensorId>)
    ensures
        sound(known, Seq::empty()),
        forall|t: TensorId| #[trigger] has(known, Seq::empty(), t) == known.contains(t),
{
    reveal(sound);
    reveal(known_after);
}

/// What was known stays known.
proof fn lemma_known_grows(known: Set<TensorId>, ops: Seq<Op>, n: nat)
    ensures
        known.subset_of(known_by(known, ops, n)),
    decreases n,
{
    if n > 0 {
        lemma_known_grows(known, ops, (n - 1) as nat);
    }
}

} // verus!
