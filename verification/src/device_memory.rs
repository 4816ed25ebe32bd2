//! What device operations do to memory.
//!
//! Memory is what each buffer holds, by the number under which the driver finds it. This is the
//! meaning of the lists of operations that slots and checkpoints hand out, and what laws about
//! those lists are stated over.

use crate::device::{DeviceBuffer, DeviceOp};
use vstd::prelude::*;

verus! {

/// What every buffer holds.
pub type Memory = Map<usize, Seq<u8>>;

/// Bytes that were written over the beginning of others.
pub open spec fn overwritten(old_bytes: Seq<u8>, new_bytes: Seq<u8>) -> Seq<u8> {
    if new_bytes.len() <= old_bytes.len() {
        new_bytes + old_bytes.skip(new_bytes.len() as int)
    } else {
        new_bytes.take(old_bytes.len() as int)
    }
}

pub open spec fn zero_bytes(n: nat) -> Seq<u8> {
    Seq::new(n, |i: int| 0u8)
}

/// The first bytes of a buffer.
pub open spec fn first_bytes(bytes: Seq<u8>, n: nat) -> Seq<u8> {
    if n <= bytes.len() {
        bytes.take(n as int)
    } else {
        bytes
    }
}

/// Memory after one operation.
pub open spec fn effect(mem: Memory, op: DeviceOp) -> Memory {
    match op {
        DeviceOp::Copy { src, dst, bytes } => mem.insert(
            dst.id,
            overwritten(mem[dst.id], first_bytes(mem[src.id], bytes as nat)),
        ),
        DeviceOp::Zero { buffer, bytes } => mem.insert(
            buffer.id,
            overwritten(mem[buffer.id], zero_bytes(bytes as nat)),
        ),
        DeviceOp::Clear { buffer } => mem.insert(buffer.id, zero_bytes(mem[buffer.id].len())),
        DeviceOp::Release { buffer } => mem.insert(buffer.id, Seq::empty()),
    }
}

/// Memory after a list of operations, carried out in order.
pub open spec fn carried_out(mem: Memory, ops: Seq<DeviceOp>) -> Memory
    decreases ops.len(),
{
    if ops.len() == 0 {
        mem
    } else {
        effect(carried_out(mem, ops.drop_last()), ops.last())
    }
}

pub proof fn lemma_carried_push(mem: Memory, ops: Seq<DeviceOp>, op: DeviceOp)
    ensures
        carried_out(mem, ops.push(op)) == effect(carried_out(mem, ops), op),
{
    assert(ops.push(op).drop_last() =~= ops);
}

pub proof fn lemma_carried_append(mem: Memory, a: Seq<DeviceOp>, b: Seq<DeviceOp>)
    ensures
        carried_out(mem, a + b) == carried_out(carried_out(mem, a), b),
    decreases b.len(),
{
    if b.len() == 0 {
        assert(a + b =~= a);
    } else {
        lemma_carried_append(mem, a, b.drop_last());
        assert((a + b).drop_last() =~= a + b.drop_last());
    }
}

pub proof fn lemma_carried_one(mem: Memory, op: DeviceOp)
    ensures
        carried_out(mem, seq![op]) == effect(mem, op),
{
    let none = Seq::<DeviceOp>::empty();
    lemma_carried_push(mem, none, op);
    assert(seq![op] =~= none.push(op));
    assert(carried_out(mem, none) == mem);
}

pub proof fn lemma_carried_two(mem: Memory, a: DeviceOp, b: DeviceOp)
    ensures
        carried_out(mem, seq![a, b]) == effect(effect(mem, a), b),
{
    lemma_carried_one(mem, a);
    lemma_carried_push(mem, seq![a], b);
    assert(seq![a, b] =~= seq![a].push(b));
}

/// The buffers hold as many bytes as their handles say.
pub open spec fn sized(mem: Memory, bufs: Seq<DeviceBuffer>) -> bool {
    forall|i: int|
        0 <= i < bufs.len() ==> mem[(#[trigger] bufs[i]).id].len() == bufs[i].len_bytes
}

/// No two of the buffers are one.
pub open spec fn distinct(bufs: Seq<DeviceBuffer>) -> bool {
    forall|i: int, j: int|
        0 <= i < bufs.len() && 0 <= j < bufs.len() && i != j ==> (#[trigger] bufs[i]).id != (
        #[trigger] bufs[j]).id
}

/// No buffer of the one list is one of the other.
pub open spec fn disjoint(a: Seq<DeviceBuffer>, b: Seq<DeviceBuffer>) -> bool {
    forall|i: int, j: int|
        0 <= i < a.len() && 0 <= j < b.len() ==> (#[trigger] a[i]).id != (#[trigger] b[j]).id
}

/// The number is that of a buffer in the list.
pub open spec fn among(id: usize, bufs: Seq<DeviceBuffer>) -> bool {
    exists|i: int| 0 <= i < bufs.len() && (#[trigger] bufs[i]).id == id
}

} // verus!
