//! What checkpoints, resets and releases do to device memory.

use crate::checkpoint::{SnapshotStep, TurnRecurrentCkpt};
use crate::config::Config;
use crate::device::{DeviceBuffer, DeviceOp};
use crate::device_memory::{
    among, carried_out, effect, lemma_carried_append, lemma_carried_one, sized, Memory,
};
use crate::seam_kv::{
    put_back, reset_ops, rollback_below, rollback_layers, state_zeros_below, SeamKv,
};
use crate::state_copies::{leaves, lemma_state_back, lemma_whole, snapshot_fits};
use vstd::prelude::*;

verus! {

/// A step of a checkpoint copies a layer's state into the checkpoint, and changes nothing else: the
/// conversation goes on undisturbed.
pub proof fn law_a_checkpoint_step_copies_a_layers_state(
    ck: TurnRecurrentCkpt,
    slot: SeamKv,
    mem: Memory,
    i: int,
)
    requires
        snapshot_fits(ck.layers@, ck.kbufs@, ck.vbufs@, slot.caches),
        sized(mem, ck.kbufs@),
        sized(mem, ck.vbufs@),
        sized(mem, slot.caches.k@),
        sized(mem, slot.caches.v@),
        0 <= i < ck.layers@.len() <= usize::MAX,
    ensures
        ck.layer_step_of(slot.caches.k@, slot.caches.v@, i) matches SnapshotStep::Layer {
            index,
            k,
            v,
        } && index == i && ({
            let after = effect(effect(mem, k), v);
            let l = ck.layers@[i] as int;
            &&& after[ck.kbufs@[i].id] == mem[slot.caches.k@[l].id]
            &&& after[ck.vbufs@[i].id] == mem[slot.caches.v@[l].id]
            &&& leaves(slot.caches.k@, mem, after)
            &&& leaves(slot.caches.v@, mem, after)
            &&& forall|id: usize|
                id != ck.kbufs@[i].id && id != ck.vbufs@[i].id ==> #[trigger] after[id] == mem[id]
        }),
{
    let l = ck.layers@[i] as int;
    let (k, v) = (slot.caches.k@, slot.caches.v@);
    assert(mem[k[l].id].len() == k[l].len_bytes && mem[v[l].id].len() == v[l].len_bytes);
    assert(mem[ck.kbufs@[i].id].len() == ck.kbufs@[i].len_bytes);
    assert(mem[ck.vbufs@[i].id].len() == ck.vbufs@[i].len_bytes);
    lemma_whole(mem[ck.kbufs@[i].id], mem[k[l].id]);
    lemma_whole(mem[ck.vbufs@[i].id], mem[v[l].id]);
    assert(ck.kbufs@[i].id != ck.vbufs@[i].id);
    assert(k[l].id != ck.kbufs@[i].id && v[l].id != ck.kbufs@[i].id);
    assert forall|j: int| 0 <= j < k.len() implies (#[trigger] k[j]).id != ck.kbufs@[i].id && k[j].id
        != ck.vbufs@[i].id by {}
    assert forall|j: int| 0 <= j < v.len() implies (#[trigger] v[j]).id != ck.kbufs@[i].id && v[j].id
        != ck.vbufs@[i].id by {}
}

/// Putting a checkpoint back gives every checkpointed layer, and the model-level history, what the
/// checkpoint holds of it; the checkpoint itself and all other layers stay as they are.
pub proof fn law_a_checkpoint_is_put_back_whole(
    slot: SeamKv,
    ck: TurnRecurrentCkpt,
    mem: Memory,
    i: int,
)
    requires
        slot.turn_recurrent_ckpt == Some(ck),
        snapshot_fits(ck.layers@, ck.kbufs@, ck.vbufs@, slot.caches),
        sized(mem, ck.kbufs@),
        sized(mem, ck.vbufs@),
        sized(mem, slot.caches.k@),
        sized(mem, slot.caches.v@),
        0 <= i < ck.layers@.len(),
        ck.ple_state matches Some(b) ==> mem[b.id].len() == b.len_bytes && !among(
            b.id,
            slot.caches.k@,
        ) && !among(b.id, slot.caches.v@),
        slot.ple_state_buf matches Some(b) ==> mem[b.id].len() == b.len_bytes && !among(
            b.id,
            slot.caches.k@,
        ) && !among(b.id, slot.caches.v@) && !among(b.id, ck.kbufs@) && !among(b.id, ck.vbufs@),
        (ck.ple_state matches Some(a) && slot.ple_state_buf matches Some(b)) ==> ((
        ck.ple_state->0).len_bytes == (slot.ple_state_buf->0).len_bytes && (ck.ple_state->0).id != (
        slot.ple_state_buf->0).id),
    ensures
        ({
            let back = carried_out(mem, slot.restore_copies());
            let l = ck.layers@[i] as int;
            &&& back[slot.caches.k@[l].id] == mem[ck.kbufs@[i].id]
            &&& back[slot.caches.v@[l].id] == mem[ck.vbufs@[i].id]
            &&& leaves(ck.kbufs@, mem, back)
            &&& leaves(ck.vbufs@, mem, back)
            &&& ck.ple_state is Some && slot.ple_state_buf is Some ==> back[(
            slot.ple_state_buf->0).id] == mem[(ck.ple_state->0).id]
            &&& forall|other: int|
                0 <= other < slot.caches.k@.len() && !ck.layers@.contains(other as usize)
                    ==> back[(#[trigger] slot.caches.k@[other]).id]
                    == mem[slot.caches.k@[other].id]
            &&& forall|other: int|
                0 <= other < slot.caches.v@.len() && !ck.layers@.contains(other as usize)
                    ==> back[(#[trigger] slot.caches.v@[other]).id]
                    == mem[slot.caches.v@[other].id]
        }),
{
    let (k, v) = (slot.caches.k@, slot.caches.v@);
    let layers = put_back(ck.layers@, ck.kbufs@, ck.vbufs@, k, v, ck.layers@.len());
    let mid = carried_out(mem, layers);
    lemma_state_back(ck.layers@, ck.kbufs@, ck.vbufs@, slot.caches, mem);
    let back = carried_out(mem, slot.restore_copies());
    if ck.ple_state is Some && slot.ple_state_buf is Some {
        let src = ck.ple_state->0;
        let dst = slot.ple_state_buf->0;
        let op = DeviceOp::Copy { src, dst, bytes: src.len_bytes };
        lemma_carried_append(mem, layers, seq![op]);
        lemma_carried_one(mid, op);
        assert(back == effect(mid, op));
        lemma_picked_not_among(k, ck.layers@, src.id);
        lemma_picked_not_among(v, ck.layers@, src.id);
        lemma_picked_not_among(k, ck.layers@, dst.id);
        lemma_picked_not_among(v, ck.layers@, dst.id);
        assert(mid[src.id] == mem[src.id] && mid[dst.id] == mem[dst.id]);
        lemma_whole(mem[dst.id], mem[src.id]);
        assert forall|j: int| 0 <= j < k.len() implies (#[trigger] k[j]).id != dst.id by {}
        assert forall|j: int| 0 <= j < v.len() implies (#[trigger] v[j]).id != dst.id by {}
        assert forall|j: int| 0 <= j < ck.kbufs@.len() implies (#[trigger] ck.kbufs@[j]).id
            != dst.id by {}
        assert forall|j: int| 0 <= j < ck.vbufs@.len() implies (#[trigger] ck.vbufs@[j]).id
            != dst.id by {}
        assert(ck.layers@[i] < k.len());
    } else {
        assert(slot.restore_copies() =~= layers);
    }
}

proof fn lemma_picked_not_among(bufs: Seq<DeviceBuffer>, layers: Seq<usize>, id: usize)
    requires
        !among(id, bufs),
        forall|i: int| 0 <= i < layers.len() ==> (#[trigger] layers[i]) < bufs.len(),
    ensures
        !among(id, crate::state_copies::picked(bufs, layers)),
{
    let p = crate::state_copies::picked(bufs, layers);
    if among(id, p) {
        let i = choose|i: int| 0 <= i < p.len() && (#[trigger] p[i]).id == id;
        assert(layers[i] < bufs.len());
        assert(bufs[layers[i] as int].id == id);
    }
}

/// The layers that speculative decoding rolls back are those whose state is a summary of everything
/// before: the ones without attention of the architecture that speculates.
pub proof fn law_rolled_back_layers_are_those_without_attention(cfg: Config, l: int)
    requires
        0 <= l < cfg.layers@.len() <= usize::MAX,
    ensures
        rollback_layers(cfg).contains(l as usize) <==> cfg.qwen35
            && !cfg.layers@[l].qwen35_attention,
        rollback_layers(cfg).no_duplicates(),
{
    lemma_rollback_exact(cfg, cfg.layers@.len());
    let all = rollback_layers(cfg);
    assert forall|i: int, j: int|
        0 <= i < all.len() && 0 <= j < all.len() && i != j implies all[i] != all[j] by {
        if i < j {
            assert(all[i] < all[j]);
        } else {
            assert(all[j] < all[i]);
        }
    }
}

proof fn lemma_rollback_exact(cfg: Config, n: nat)
    requires
        n <= cfg.layers@.len() <= usize::MAX,
    ensures
        forall|i: int|
            0 <= i < rollback_below(cfg, n).len() ==> (#[trigger] rollback_below(cfg, n)[i]) < n
                && cfg.qwen35 && !cfg.layers@[rollback_below(cfg, n)[i] as int].qwen35_attention,
        forall|i: int, j: int|
            #![trigger rollback_below(cfg, n)[i], rollback_below(cfg, n)[j]]
            0 <= i < j < rollback_below(cfg, n).len() ==> rollback_below(cfg, n)[i]
                < rollback_below(cfg, n)[j],
        forall|l: int|
            0 <= l < n && cfg.qwen35 && !(#[trigger] cfg.layers@[l]).qwen35_attention
                ==> rollback_below(cfg, n).contains(l as usize),
    decreases n,
{
    if n > 0 {
        lemma_rollback_exact(cfg, (n - 1) as nat);
        let before = rollback_below(cfg, (n - 1) as nat);
        let all = rollback_below(cfg, n);
        assert forall|l: int|
            0 <= l < n && cfg.qwen35 && !(#[trigger] cfg.layers@[l]).qwen35_attention implies
            all.contains(l as usize) by {
            if l < n - 1 {
                assert(before.contains(l as usize));
                let i = choose|i: int| 0 <= i < before.len() && before[i] == l as usize;
                assert(all[i] == l as usize);
            } else {
                assert(all[all.len() - 1] == l as usize);
            }
        }
    }
}

/// The operation only writes zeros.
pub open spec fn zeroes(op: DeviceOp) -> bool {
    op is Zero || op is Clear
}

/// The buffer that such an operation writes.
pub open spec fn zeroed(op: DeviceOp) -> DeviceBuffer {
    match op {
        DeviceOp::Zero { buffer, .. } => buffer,
        DeviceOp::Clear { buffer } => buffer,
        DeviceOp::Copy { dst, .. } => dst,
        DeviceOp::Release { buffer } => buffer,
    }
}

/// How many bytes at the beginning of a buffer of `len` bytes such an operation writes.
pub open spec fn zeroed_bytes(op: DeviceOp, len: nat) -> nat {
    match op {
        DeviceOp::Zero { bytes, .. } => if (bytes as nat) < len {
            bytes as nat
        } else {
            len
        },
        _ => len,
    }
}

/// The first `n` bytes are zero.
pub open spec fn blank(bytes: Seq<u8>, n: nat) -> bool {
    n <= bytes.len() && forall|i: int| 0 <= i < n ==> #[trigger] bytes[i] == 0
}

proof fn lemma_zero_effect(mem: Memory, op: DeviceOp)
    requires
        zeroes(op),
    ensures
        ({
            let after = effect(mem, op);
            let b = zeroed(op).id;
            &&& after[b].len() == mem[b].len()
            &&& blank(after[b], zeroed_bytes(op, mem[b].len()))
            &&& forall|i: int|
                zeroed_bytes(op, mem[b].len()) <= i < mem[b].len() ==> #[trigger] after[b][i]
                    == mem[b][i]
            &&& forall|id: usize| id != b ==> #[trigger] after[id] == mem[id]
        }),
{
}

/// A list of such operations blanks whatever one of them names, and leaves what none of them names.
proof fn lemma_zeroed(mem: Memory, ops: Seq<DeviceOp>)
    requires
        forall|i: int| 0 <= i < ops.len() ==> zeroes(#[trigger] ops[i]),
    ensures
        ({
            let after = carried_out(mem, ops);
            &&& forall|i: int|
                0 <= i < ops.len() ==> blank(
                    after[zeroed(#[trigger] ops[i]).id],
                    zeroed_bytes(ops[i], mem[zeroed(ops[i]).id].len()),
                )
            &&& forall|id: usize| (#[trigger] after[id]).len() == mem[id].len()
            &&& forall|id: usize|
                (forall|i: int| 0 <= i < ops.len() ==> zeroed(#[trigger] ops[i]).id != id)
                    ==> #[trigger] after[id] == mem[id]
        }),
    decreases ops.len(),
{
    if ops.len() > 0 {
        let before = ops.drop_last();
        let last = ops.last();
        assert forall|i: int| 0 <= i < before.len() implies zeroes(#[trigger] before[i]) by {
            assert(zeroes(ops[i]));
        }
        lemma_zeroed(mem, before);
        let mid = carried_out(mem, before);
        let after = carried_out(mem, ops);
        assert(zeroes(ops[ops.len() - 1]));
        lemma_zero_effect(mid, last);
        assert forall|i: int| 0 <= i < ops.len() implies blank(
            after[zeroed(#[trigger] ops[i]).id],
            zeroed_bytes(ops[i], mem[zeroed(ops[i]).id].len()),
        ) by {
            if i < ops.len() - 1 {
                assert(ops[i] == before[i]);
                assert(blank(
                    mid[zeroed(before[i]).id],
                    zeroed_bytes(before[i], mem[zeroed(before[i]).id].len()),
                ));
                let b = zeroed(ops[i]).id;
                let n = zeroed_bytes(ops[i], mem[b].len());
                if b == zeroed(last).id {
                    assert forall|j: int| 0 <= j < n implies #[trigger] after[b][j] == 0 by {
                        assert(mid[b][j] == 0);
                    }
                }
            }
        }
        assert forall|id: usize|
            (forall|i: int| 0 <= i < ops.len() ==> zeroed(#[trigger] ops[i]).id != id) implies
            #[trigger] after[id] == mem[id] by {
            assert forall|i: int| 0 <= i < before.len() implies zeroed(#[trigger] before[i]).id
                != id by {
                assert(zeroed(ops[i]).id != id);
            }
            assert(zeroed(ops[ops.len() - 1]).id != id);
            assert(mid[id] == mem[id]);
        }
    }
}

proof fn lemma_contains_left(a: Seq<DeviceOp>, b: Seq<DeviceOp>, x: DeviceOp)
    requires
        a.contains(x),
    ensures
        (a + b).contains(x),
{
    let i = choose|i: int| 0 <= i < a.len() && a[i] == x;
    assert((a + b)[i] == x);
}

proof fn lemma_contains_right(a: Seq<DeviceOp>, b: Seq<DeviceOp>, x: DeviceOp)
    requires
        b.contains(x),
    ensures
        (a + b).contains(x),
{
    let i = choose|i: int| 0 <= i < b.len() && b[i] == x;
    assert((a + b)[a.len() + i] == x);
}

/// The resets of the first `n` layers: all of them blank the state of a recurrent layer, and each
/// recurrent layer's state is blanked.
proof fn lemma_state_zeros(cfg: Config, slot: SeamKv, n: nat)
    requires
        n <= cfg.layers@.len(),
    ensures
        ({
            let ops = state_zeros_below(cfg, slot.caches, n);
            &&& forall|i: int|
                0 <= i < ops.len() ==> zeroes(#[trigger] ops[i]) && exists|l: int|
                    0 <= l < n && cfg.layers@[l].recurrent && (zeroed(ops[i])
                        == #[trigger] slot.caches.k@[l] || zeroed(ops[i]) == slot.caches.v@[l])
            &&& forall|l: int|
                0 <= l < n && (#[trigger] cfg.layers@[l]).recurrent ==> ops.contains(
                    DeviceOp::Zero {
                        buffer: slot.caches.k@[l],
                        bytes: cfg.conv_state_bytes() as usize,
                    },
                ) && ops.contains(
                    DeviceOp::Zero {
                        buffer: slot.caches.v@[l],
                        bytes: cfg.mixer_state_bytes() as usize,
                    },
                )
        }),
    decreases n,
{
    if n > 0 {
        let m = (n - 1) as nat;
        lemma_state_zeros(cfg, slot, m);
        let before = state_zeros_below(cfg, slot.caches, m);
        let ops = state_zeros_below(cfg, slot.caches, n);
        let k = DeviceOp::Zero {
            buffer: slot.caches.k@[n - 1],
            bytes: cfg.conv_state_bytes() as usize,
        };
        let v = DeviceOp::Zero {
            buffer: slot.caches.v@[n - 1],
            bytes: cfg.mixer_state_bytes() as usize,
        };
        let last = if cfg.layers@[n - 1].recurrent {
            seq![k, v]
        } else {
            Seq::empty()
        };
        assert(ops =~= before + last);
        assert forall|i: int| 0 <= i < ops.len() implies zeroes(#[trigger] ops[i]) && exists|l: int|
            0 <= l < n && cfg.layers@[l].recurrent && (zeroed(ops[i]) == #[trigger] slot.caches.k@[l]
                || zeroed(ops[i]) == slot.caches.v@[l]) by {
            if i < before.len() {
                assert(ops[i] == before[i]);
                let l = choose|l: int|
                    0 <= l < m && cfg.layers@[l].recurrent && (zeroed(before[i])
                        == #[trigger] slot.caches.k@[l] || zeroed(before[i]) == slot.caches.v@[l]);
                assert(zeroed(ops[i]) == slot.caches.k@[l] || zeroed(ops[i]) == slot.caches.v@[l]);
            } else {
                assert(ops[i] == last[i - before.len()]);
                assert(zeroed(ops[i]) == slot.caches.k@[n - 1] || zeroed(ops[i])
                    == slot.caches.v@[n - 1]);
            }
        }
        assert forall|l: int| 0 <= l < n && (#[trigger] cfg.layers@[l]).recurrent implies ops.contains(
            DeviceOp::Zero {
                buffer: slot.caches.k@[l],
                bytes: cfg.conv_state_bytes() as usize,
            },
        ) && ops.contains(
            DeviceOp::Zero {
                buffer: slot.caches.v@[l],
                bytes: cfg.mixer_state_bytes() as usize,
            },
        ) by {
            if l < n - 1 {
                lemma_contains_left(before, last, DeviceOp::Zero {
                    buffer: slot.caches.k@[l],
                    bytes: cfg.conv_state_bytes() as usize,
                });
                lemma_contains_left(before, last, DeviceOp::Zero {
                    buffer: slot.caches.v@[l],
                    bytes: cfg.mixer_state_bytes() as usize,
                });
            } else {
                assert(last[0] == k && last[1] == v);
                lemma_contains_right(before, last, k);
                lemma_contains_right(before, last, v);
            }
        }
    }
}

/// The state of a recurrent layer has the lengths that a reset writes.
pub open spec fn state_sized(cfg: Config, slot: SeamKv, mem: Memory) -> bool {
    forall|l: int|
        0 <= l < cfg.layers@.len() && (#[trigger] cfg.layers@[l]).recurrent ==> {
            &&& mem[slot.caches.k@[l].id].len() == cfg.conv_state_bytes()
            &&& mem[slot.caches.v@[l].id].len() == cfg.mixer_state_bytes()
        }
}

/// A reset leaves nothing of the state of any recurrent layer, nor of the model-level history, and
/// does not touch what attention layers hold.
pub proof fn law_a_reset_leaves_no_recurrent_state(cfg: Config, slot: SeamKv, mem: Memory)
    requires
        slot.caches.fits(cfg.layers@.len()),
        cfg.state_fits(),
        state_sized(cfg, slot, mem),
        crate::device_memory::distinct(slot.caches.k@),
        crate::device_memory::distinct(slot.caches.v@),
        crate::device_memory::disjoint(slot.caches.k@, slot.caches.v@),
        slot.ple_state_buf matches Some(b) ==> mem[b.id].len() == b.len_bytes && !among(
            b.id,
            slot.caches.k@,
        ) && !among(b.id, slot.caches.v@),
    ensures
        ({
            let after = carried_out(mem, reset_ops(cfg, slot));
            &&& forall|l: int|
                0 <= l < cfg.layers@.len() && (#[trigger] cfg.layers@[l]).recurrent ==> {
                    &&& blank(after[slot.caches.k@[l].id], mem[slot.caches.k@[l].id].len())
                    &&& blank(after[slot.caches.v@[l].id], mem[slot.caches.v@[l].id].len())
                }
            &&& slot.ple_state_buf matches Some(b) ==> blank(after[b.id], b.len_bytes as nat)
            &&& forall|l: int|
                0 <= l < cfg.layers@.len() && !(#[trigger] cfg.layers@[l]).recurrent ==> {
                    &&& after[slot.caches.k@[l].id] == mem[slot.caches.k@[l].id]
                    &&& after[slot.caches.v@[l].id] == mem[slot.caches.v@[l].id]
                }
        }),
{
    let n = cfg.layers@.len();
    let state = state_zeros_below(cfg, slot.caches, n);
    let ops = reset_ops(cfg, slot);
    lemma_state_zeros(cfg, slot, n);
    let tail = match slot.ple_state_buf {
        Some(b) => seq![DeviceOp::Zero { buffer: b, bytes: b.len_bytes }],
        None => Seq::empty(),
    };
    assert(ops =~= state + tail);
    assert forall|i: int| 0 <= i < ops.len() implies zeroes(#[trigger] ops[i]) by {
        if i < state.len() {
            assert(ops[i] == state[i]);
        } else {
            assert(ops[i] == tail[i - state.len()]);
        }
    }
    lemma_zeroed(mem, ops);
    let after = carried_out(mem, ops);
    assert forall|l: int| 0 <= l < n && (#[trigger] cfg.layers@[l]).recurrent implies {
        &&& blank(after[slot.caches.k@[l].id], mem[slot.caches.k@[l].id].len())
        &&& blank(after[slot.caches.v@[l].id], mem[slot.caches.v@[l].id].len())
    } by {
        let k = DeviceOp::Zero {
            buffer: slot.caches.k@[l],
            bytes: cfg.conv_state_bytes() as usize,
        };
        let v = DeviceOp::Zero {
            buffer: slot.caches.v@[l],
            bytes: cfg.mixer_state_bytes() as usize,
        };
        lemma_contains_left(state, tail, k);
        lemma_contains_left(state, tail, v);
        let i = choose|i: int| 0 <= i < ops.len() && ops[i] == k;
        let j = choose|j: int| 0 <= j < ops.len() && ops[j] == v;
        assert(zeroed(ops[i]) == slot.caches.k@[l] && zeroed(ops[j]) == slot.caches.v@[l]);
    }
    if let Some(b) = slot.ple_state_buf {
        assert(ops[state.len() as int] == tail[0]);
        assert(zeroed(ops[state.len() as int]) == b);
    }
    assert forall|l: int| 0 <= l < n && !(#[trigger] cfg.layers@[l]).recurrent implies {
        &&& after[slot.caches.k@[l].id] == mem[slot.caches.k@[l].id]
        &&& after[slot.caches.v@[l].id] == mem[slot.caches.v@[l].id]
    } by {
        assert forall|i: int| 0 <= i < ops.len() implies zeroed(#[trigger] ops[i]).id
            != slot.caches.k@[l].id && zeroed(ops[i]).id != slot.caches.v@[l].id by {
            if i < state.len() {
                assert(ops[i] == state[i]);
                let o = choose|o: int|
                    0 <= o < n && cfg.layers@[o].recurrent && (zeroed(state[i])
                        == #[trigger] slot.caches.k@[o] || zeroed(state[i]) == slot.caches.v@[o]);
                assert(o != l);
                assert(slot.caches.k@[o].id != slot.caches.k@[l].id);
                assert(slot.caches.v@[o].id != slot.caches.v@[l].id);
                assert(slot.caches.k@[o].id != slot.caches.v@[l].id);
                assert(slot.caches.k@[l].id != slot.caches.v@[o].id);
            } else {
                assert(ops[i] == tail[i - state.len()]);
                assert(slot.caches.k@[l].id != zeroed(ops[i]).id);
                assert(slot.caches.v@[l].id != zeroed(ops[i]).id);
            }
        }
    }
}

} // verus!
