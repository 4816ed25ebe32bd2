//! What growing, storing, releasing and restoring a conversation amount to.

use crate::checkpoint::TurnRecurrentCkpt;
use crate::config::{ceil_div, Config, DType, KvFormat};
use crate::device::{DeviceBuffer, DeviceOp};
use crate::seam_kv::SeamKv;
use crate::segmented_kv::{
    all_planes, k_plane, layer_planes, planes_below, qsa_planes, v_plane, PlaneKind, PlaneLayout,
    KV_GROW_ROWS,
};
use crate::session_state::{
    committed_below, named_block, named_caches, named_checkpoint, named_k, named_layers, named_one,
    named_raw, named_state, named_v, release_plan, restore_depth, restore_refused, NamedBuffer,
    ReleasePlan, SessionBuffer, SessionBufferKey, SessionStateMeta,
};
use crate::slot::{
    depth_plan, law_growth_covers_the_request, CacheBuffers, DepthPlan, SegmentedKvState,
};
use vstd::prelude::*;

verus! {

proof fn lemma_left<T>(a: Seq<T>, b: Seq<T>, x: T)
    requires
        a.contains(x),
    ensures
        (a + b).contains(x),
{
    let i = choose|i: int| 0 <= i < a.len() && a[i] == x;
    assert((a + b)[i] == x);
}

proof fn lemma_right<T>(a: Seq<T>, b: Seq<T>, x: T)
    requires
        b.contains(x),
    ensures
        (a + b).contains(x),
{
    let i = choose|i: int| 0 <= i < b.len() && b[i] == x;
    assert((a + b)[a.len() + i] == x);
}

/// A K or V plane of one row for each token.
pub open spec fn row_plane(l: int, kind: PlaneKind, format: KvFormat, row: usize) -> PlaneLayout {
    PlaneLayout { layer: l as usize, kind, format, row_elems: row, tokens_per_row: 1 }
}

/// Every attention layer of a model has its K and V rows in planes that grow, in the formats of the
/// session; a layer that selects blocks also has a raw index row for each token, in half precision,
/// and a block index row for each block, in single precision. Recurrent layers have none.
pub proof fn law_every_attention_layer_has_its_planes(
    cfg: Config,
    k_fmt: KvFormat,
    v_fmt: KvFormat,
    l: int,
)
    requires
        0 <= l < cfg.layers@.len() <= usize::MAX,
    ensures
        ({
            let planes = all_planes(cfg, k_fmt, v_fmt);
            let layer = cfg.layers@[l];
            &&& !layer.recurrent && layer.k_row > 0 ==> planes.contains(
                row_plane(l, PlaneKind::K, k_fmt, layer.k_row),
            )
            &&& !layer.recurrent && layer.v_row > 0 ==> planes.contains(
                row_plane(l, PlaneKind::V, v_fmt, layer.v_row),
            )
            &&& !layer.recurrent && cfg.qwen4exp && layer.hybrid_attention ==> planes.contains(
                row_plane(
                    l,
                    PlaneKind::QsaRaw,
                    KvFormat { dtype: DType::F16, block_elems: 1, block_bytes: 2 },
                    cfg.indexer_head_size,
                ),
            ) && planes.contains(
                PlaneLayout {
                    layer: l as usize,
                    kind: PlaneKind::QsaBlock,
                    format: KvFormat { dtype: DType::F32, block_elems: 1, block_bytes: 4 },
                    row_elems: cfg.indexer_head_size,
                    tokens_per_row: if layer.compress_ratio >= 1 {
                        layer.compress_ratio
                    } else {
                        1
                    },
                },
            )
        }),
{
    lemma_planes_of(cfg, k_fmt, v_fmt, l, cfg.layers@.len());
}

proof fn lemma_planes_of(cfg: Config, k_fmt: KvFormat, v_fmt: KvFormat, l: int, n: nat)
    requires
        0 <= l < n <= cfg.layers@.len() <= usize::MAX,
    ensures
        ({
            let planes = planes_below(cfg, n, k_fmt, v_fmt);
            let layer = cfg.layers@[l];
            &&& !layer.recurrent && layer.k_row > 0 ==> planes.contains(
                row_plane(l, PlaneKind::K, k_fmt, layer.k_row),
            )
            &&& !layer.recurrent && layer.v_row > 0 ==> planes.contains(
                row_plane(l, PlaneKind::V, v_fmt, layer.v_row),
            )
            &&& !layer.recurrent && cfg.qwen4exp && layer.hybrid_attention ==> planes.contains(
                row_plane(
                    l,
                    PlaneKind::QsaRaw,
                    KvFormat { dtype: DType::F16, block_elems: 1, block_bytes: 2 },
                    cfg.indexer_head_size,
                ),
            ) && planes.contains(
                PlaneLayout {
                    layer: l as usize,
                    kind: PlaneKind::QsaBlock,
                    format: KvFormat { dtype: DType::F32, block_elems: 1, block_bytes: 4 },
                    row_elems: cfg.indexer_head_size,
                    tokens_per_row: if layer.compress_ratio >= 1 {
                        layer.compress_ratio
                    } else {
                        1
                    },
                },
            )
        }),
    decreases n,
{
    let m = (n - 1) as nat;
    let before = planes_below(cfg, m, k_fmt, v_fmt);
    let own = layer_planes(cfg, n - 1, k_fmt, v_fmt);
    let layer = cfg.layers@[l];
    let k = row_plane(l, PlaneKind::K, k_fmt, layer.k_row);
    let v = row_plane(l, PlaneKind::V, v_fmt, layer.v_row);
    let raw = row_plane(
        l,
        PlaneKind::QsaRaw,
        KvFormat { dtype: DType::F16, block_elems: 1, block_bytes: 2 },
        cfg.indexer_head_size,
    );
    let block = PlaneLayout {
        layer: l as usize,
        kind: PlaneKind::QsaBlock,
        format: KvFormat { dtype: DType::F32, block_elems: 1, block_bytes: 4 },
        row_elems: cfg.indexer_head_size,
        tokens_per_row: if layer.compress_ratio >= 1 {
            layer.compress_ratio
        } else {
            1
        },
    };
    if l < n - 1 {
        lemma_planes_of(cfg, k_fmt, v_fmt, l, m);
        if !layer.recurrent && layer.k_row > 0 {
            lemma_left(before, own, k);
        }
        if !layer.recurrent && layer.v_row > 0 {
            lemma_left(before, own, v);
        }
        if !layer.recurrent && cfg.qwen4exp && layer.hybrid_attention {
            lemma_left(before, own, raw);
            lemma_left(before, own, block);
        }
    } else if !layer.recurrent {
        let a = k_plane(layer, l, k_fmt);
        let b = v_plane(layer, l, v_fmt);
        let c = qsa_planes(cfg, layer, l);
        if layer.k_row > 0 {
            assert(a[0] == k);
            lemma_left(a, b, k);
            lemma_left(a + b, c, k);
            lemma_right(before, own, k);
        }
        if layer.v_row > 0 {
            assert(b[0] == v);
            lemma_right(a, b, v);
            lemma_left(a + b, c, v);
            lemma_right(before, own, v);
        }
        if cfg.qwen4exp && layer.hybrid_attention {
            assert(c[0] == raw && c[1] == block);
            lemma_right(a + b, c, raw);
            lemma_right(a + b, c, block);
            lemma_right(before, own, raw);
            lemma_right(before, own, block);
        }
    }
}

/// A growth backs the caches of every attention layer, with room for every token that it is for.
pub proof fn law_a_growth_backs_every_attention_cache(
    cfg: Config,
    k_fmt: KvFormat,
    v_fmt: KvFormat,
    caches: CacheBuffers,
    plan: DepthPlan,
    tokens: usize,
    max_ctx: usize,
    l: int,
)
    requires
        depth_plan(plan, cfg, k_fmt, v_fmt, caches, tokens),
        tokens <= max_ctx,
        0 <= l < cfg.layers@.len() <= usize::MAX,
        !cfg.layers@[l].recurrent,
    ensures
        cfg.layers@[l].k_row > 0 ==> plan.buffers@.contains(caches.k@[l]),
        cfg.layers@[l].v_row > 0 ==> plan.buffers@.contains(caches.v@[l]),
        cfg.qwen4exp && cfg.layers@[l].hybrid_attention && caches.qsa_raw@[l] is Some
            ==> plan.buffers@.contains(caches.qsa_raw@[l]->0),
        cfg.qwen4exp && cfg.layers@[l].hybrid_attention && caches.qsa_block@[l] is Some
            ==> plan.buffers@.contains(caches.qsa_block@[l]->0),
        tokens <= SegmentedKvState::held_by(plan.segments as nat, max_ctx) <= max_ctx,
        tokens <= plan.segments * KV_GROW_ROWS,
        tokens > 0 ==> (plan.segments - 1) * KV_GROW_ROWS < tokens,
{
    law_every_attention_layer_has_its_planes(cfg, k_fmt, v_fmt, l);
    law_growth_covers_the_request(tokens, max_ctx);
    crate::config::lemma_ceil_div_is_least_cover(
        tokens as nat,
        KV_GROW_ROWS as nat,
        plan.segments as nat,
    );
    if plan.segments > 0 {
        crate::config::lemma_ceil_div_is_least_cover(
            tokens as nat,
            KV_GROW_ROWS as nat,
            (plan.segments - 1) as nat,
        );
    }
    let planes = all_planes(cfg, k_fmt, v_fmt);
    let layer = cfg.layers@[l];
    if layer.k_row > 0 {
        let i = choose|i: int|
            0 <= i < planes.len() && planes[i] == row_plane(l, PlaneKind::K, k_fmt, layer.k_row);
        assert(plan.buffers@[i] == caches.k@[l]);
    }
    if layer.v_row > 0 {
        let i = choose|i: int|
            0 <= i < planes.len() && planes[i] == row_plane(l, PlaneKind::V, v_fmt, layer.v_row);
        assert(plan.buffers@[i] == caches.v@[l]);
    }
    if cfg.qwen4exp && layer.hybrid_attention {
        let raw = row_plane(
            l,
            PlaneKind::QsaRaw,
            KvFormat { dtype: DType::F16, block_elems: 1, block_bytes: 2 },
            cfg.indexer_head_size,
        );
        let i = choose|i: int| 0 <= i < planes.len() && planes[i] == raw;
        let j = choose|j: int|
            0 <= j < planes.len() && planes[j] == (PlaneLayout {
                layer: l as usize,
                kind: PlaneKind::QsaBlock,
                format: KvFormat { dtype: DType::F32, block_elems: 1, block_bytes: 4 },
                row_elems: cfg.indexer_head_size,
                tokens_per_row: if layer.compress_ratio >= 1 {
                    layer.compress_ratio
                } else {
                    1
                },
            });
        if caches.qsa_raw@[l] is Some {
            assert(plan.buffers@[i] == caches.qsa_raw@[l]->0);
        }
        if caches.qsa_block@[l] is Some {
            assert(plan.buffers@[j] == caches.qsa_block@[l]->0);
        }
    }
}

/// The depth that a slot holds once a growth to `depth` tokens was carried out, or as it stands
/// where none is needed.
pub open spec fn depth_after(slot: SeamKv, depth: usize) -> int {
    if depth <= slot.segmented_kv.committed_tokens {
        slot.segmented_kv.committed_tokens as int
    } else {
        SegmentedKvState::held_by(ceil_div(depth as nat, KV_GROW_ROWS as nat), slot.max_ctx)
    }
}

/// A stored conversation that is not refused has room once its restore is prepared: for every token
/// that is resident, and for all that was committed. Only a slot of the same geometry takes it.
pub proof fn law_a_prepared_restore_has_room(slot: SeamKv, meta: SessionStateMeta)
    requires
        restore_refused(slot, meta) is None,
    ensures
        meta.cached@.len() <= depth_after(slot, restore_depth(meta)),
        meta.committed_tokens <= depth_after(slot, restore_depth(meta)),
        restore_depth(meta) <= slot.max_ctx,
        slot.segmented_kv.enabled,
        meta.max_ctx == slot.max_ctx,
        meta.k_fmt == slot.k_fmt,
        meta.v_fmt == slot.v_fmt,
{
    law_growth_covers_the_request(restore_depth(meta), slot.max_ctx);
}

/// A release gives back the memory of every attention layer's caches.
pub proof fn law_a_release_gives_every_attention_cache_back(
    cfg: Config,
    k_fmt: KvFormat,
    v_fmt: KvFormat,
    caches: CacheBuffers,
    plan: ReleasePlan,
    l: int,
)
    requires
        release_plan(plan, all_planes(cfg, k_fmt, v_fmt), caches),
        plan.outcome is Ok,
        0 <= l < cfg.layers@.len() <= usize::MAX,
        !cfg.layers@[l].recurrent,
    ensures
        cfg.layers@[l].k_row > 0 ==> plan.ops@.contains(DeviceOp::Release { buffer: caches.k@[l] }),
        cfg.layers@[l].v_row > 0 ==> plan.ops@.contains(DeviceOp::Release { buffer: caches.v@[l] }),
        cfg.qwen4exp && cfg.layers@[l].hybrid_attention ==> caches.qsa_raw@[l] is Some
            && plan.ops@.contains(DeviceOp::Release { buffer: caches.qsa_raw@[l]->0 })
            && caches.qsa_block@[l] is Some && plan.ops@.contains(
            DeviceOp::Release { buffer: caches.qsa_block@[l]->0 },
        ),
{
    law_every_attention_layer_has_its_planes(cfg, k_fmt, v_fmt, l);
    let planes = all_planes(cfg, k_fmt, v_fmt);
    let layer = cfg.layers@[l];
    if layer.k_row > 0 {
        let i = choose|i: int|
            0 <= i < planes.len() && planes[i] == row_plane(l, PlaneKind::K, k_fmt, layer.k_row);
        assert(plan.ops@[i] == DeviceOp::Release { buffer: caches.k@[l] });
    }
    if layer.v_row > 0 {
        let i = choose|i: int|
            0 <= i < planes.len() && planes[i] == row_plane(l, PlaneKind::V, v_fmt, layer.v_row);
        assert(plan.ops@[i] == DeviceOp::Release { buffer: caches.v@[l] });
    }
    if cfg.qwen4exp && layer.hybrid_attention {
        let i = choose|i: int|
            0 <= i < planes.len() && planes[i] == row_plane(
                l,
                PlaneKind::QsaRaw,
                KvFormat { dtype: DType::F16, block_elems: 1, block_bytes: 2 },
                cfg.indexer_head_size,
            );
        let j = choose|j: int|
            0 <= j < planes.len() && planes[j] == (PlaneLayout {
                layer: l as usize,
                kind: PlaneKind::QsaBlock,
                format: KvFormat { dtype: DType::F32, block_elems: 1, block_bytes: 4 },
                row_elems: cfg.indexer_head_size,
                tokens_per_row: if layer.compress_ratio >= 1 {
                    layer.compress_ratio
                } else {
                    1
                },
            });
        assert(plan.ops@[i] is Release && plan.ops@[j] is Release);
        assert(plan.ops@[i] == DeviceOp::Release { buffer: caches.qsa_raw@[l]->0 });
        assert(plan.ops@[j] == DeviceOp::Release { buffer: caches.qsa_block@[l]->0 });
    }
}

/// A release frees only per-token caches: never the state of a recurrent layer.
pub proof fn law_a_release_keeps_recurrent_state(
    cfg: Config,
    k_fmt: KvFormat,
    v_fmt: KvFormat,
    caches: CacheBuffers,
    plan: ReleasePlan,
    i: int,
)
    requires
        release_plan(plan, all_planes(cfg, k_fmt, v_fmt), caches),
        cfg.layers@.len() <= usize::MAX,
        0 <= i < plan.ops@.len(),
    ensures
        exists|l: int|
            0 <= l < cfg.layers@.len() && !(#[trigger] cfg.layers@[l]).recurrent && (plan.ops@[i]
                == (DeviceOp::Release { buffer: caches.k@[l] }) || plan.ops@[i]
                == (DeviceOp::Release { buffer: caches.v@[l] }) || (caches.qsa_raw@[l] is Some
                && plan.ops@[i] == (DeviceOp::Release { buffer: caches.qsa_raw@[l]->0 })) || (
            caches.qsa_block@[l] is Some && plan.ops@[i] == (DeviceOp::Release {
                buffer: caches.qsa_block@[l]->0,
            }))),
{
    crate::segmented_kv::law_planes_are_distinct(cfg, cfg.layers@.len(), k_fmt, v_fmt);
    let plane = all_planes(cfg, k_fmt, v_fmt)[i];
    let l = plane.layer as int;
    assert(!cfg.layers@[l].recurrent);
    assert(plan.ops@[i] is Release);
}

/// Each key names one buffer of a slot: K and V those of a layer's cache, the index keys those of
/// its index caches, and the checkpoint's keys the copies of the same.
pub proof fn law_keys_name_the_buffers_they_say(
    slot: SeamKv,
    ck: TurnRecurrentCkpt,
    l: u32,
    i: int,
)
    requires
        slot.caches.fits(slot.caches.k@.len()),
        l < slot.caches.k@.len(),
        slot.turn_recurrent_ckpt == Some(ck),
        ck.wf(),
        ck.layers@.no_duplicates(),
        0 <= i < ck.layers@.len(),
        ck.layers@[i] <= u32::MAX,
    ensures
        slot.buffer_named(SessionBufferKey::K(l)) == Some(slot.caches.k@[l as int]),
        slot.buffer_named(SessionBufferKey::V(l)) == Some(slot.caches.v@[l as int]),
        slot.buffer_named(SessionBufferKey::QsaRaw(l)) == slot.caches.qsa_raw@[l as int],
        slot.buffer_named(SessionBufferKey::QsaBlock(l)) == slot.caches.qsa_block@[l as int],
        slot.buffer_named(SessionBufferKey::PleState) == slot.ple_state_buf,
        slot.buffer_named(SessionBufferKey::CheckpointK(ck.layers@[i] as u32)) == Some(
            ck.kbufs@[i],
        ),
        slot.buffer_named(SessionBufferKey::CheckpointV(ck.layers@[i] as u32)) == Some(
            ck.vbufs@[i],
        ),
        slot.buffer_named(SessionBufferKey::CheckpointPle) == ck.ple_state,
{
    crate::checkpoint::lemma_first_index(ck.layers@, ck.layers@[i], i as nat);
}

/// Nothing that a conversation rests on is left out of what is stored: the caches of every layer,
/// the index caches, the model-level history, and every buffer of a published checkpoint.
pub proof fn law_everything_a_conversation_rests_on_is_stored(slot: SeamKv, l: int)
    requires
        slot.caches.fits(slot.caches.k@.len()),
        0 <= l < slot.caches.k@.len() <= u32::MAX,
    ensures
        named_state(slot).contains(
            NamedBuffer { key: SessionBufferKey::K(l as u32), buffer: slot.caches.k@[l] },
        ),
        named_state(slot).contains(
            NamedBuffer { key: SessionBufferKey::V(l as u32), buffer: slot.caches.v@[l] },
        ),
        slot.caches.qsa_raw@[l] matches Some(buffer) ==> named_state(slot).contains(
            NamedBuffer { key: SessionBufferKey::QsaRaw(l as u32), buffer },
        ),
        slot.caches.qsa_block@[l] matches Some(buffer) ==> named_state(slot).contains(
            NamedBuffer { key: SessionBufferKey::QsaBlock(l as u32), buffer },
        ),
        slot.ple_state_buf matches Some(buffer) ==> named_state(slot).contains(
            NamedBuffer { key: SessionBufferKey::PleState, buffer },
        ),
        slot.turn_recurrent_ckpt matches Some(ck) ==> ck.valid && ck.wf() ==> {
            &&& forall|i: int|
                0 <= i < ck.layers@.len() ==> named_state(slot).contains(
                    NamedBuffer {
                        key: SessionBufferKey::CheckpointK(#[trigger] ck.layers@[i] as u32),
                        buffer: ck.kbufs@[i],
                    },
                ) && named_state(slot).contains(
                    NamedBuffer {
                        key: SessionBufferKey::CheckpointV(ck.layers@[i] as u32),
                        buffer: ck.vbufs@[i],
                    },
                )
            &&& ck.ple_state matches Some(buffer) ==> named_state(slot).contains(
                NamedBuffer { key: SessionBufferKey::CheckpointPle, buffer },
            )
        },
{
    let n = slot.caches.k@.len();
    let a = named_k(slot.caches.k@);
    let b = named_v(slot.caches.v@);
    let c = named_raw(slot.caches.qsa_raw@, n);
    let d = named_block(slot.caches.qsa_block@, n);
    let e = named_one(SessionBufferKey::PleState, slot.ple_state_buf);
    let caches = named_caches(slot);
    assert(caches == a + b + c + d + e);
    let rest = match slot.turn_recurrent_ckpt {
        Some(ck) => if ck.valid {
            named_checkpoint(ck)
        } else {
            Seq::empty()
        },
        None => Seq::empty(),
    };
    assert(named_state(slot) == caches + rest);
    let k = NamedBuffer { key: SessionBufferKey::K(l as u32), buffer: slot.caches.k@[l] };
    assert(a[l] == k);
    lemma_left(a, b, k);
    lemma_left(a + b, c, k);
    lemma_left(a + b + c, d, k);
    lemma_left(a + b + c + d, e, k);
    lemma_left(caches, rest, k);
    let v = NamedBuffer { key: SessionBufferKey::V(l as u32), buffer: slot.caches.v@[l] };
    assert(b[l] == v);
    lemma_right(a, b, v);
    lemma_left(a + b, c, v);
    lemma_left(a + b + c, d, v);
    lemma_left(a + b + c + d, e, v);
    lemma_left(caches, rest, v);
    if let Some(buffer) = slot.caches.qsa_raw@[l] {
        let x = NamedBuffer { key: SessionBufferKey::QsaRaw(l as u32), buffer };
        lemma_raw_listed(slot.caches.qsa_raw@, n, l);
        lemma_right(a + b, c, x);
        lemma_left(a + b + c, d, x);
        lemma_left(a + b + c + d, e, x);
        lemma_left(caches, rest, x);
    }
    if let Some(buffer) = slot.caches.qsa_block@[l] {
        let x = NamedBuffer { key: SessionBufferKey::QsaBlock(l as u32), buffer };
        lemma_block_listed(slot.caches.qsa_block@, n, l);
        lemma_right(a + b + c, d, x);
        lemma_left(a + b + c + d, e, x);
        lemma_left(caches, rest, x);
    }
    if let Some(buffer) = slot.ple_state_buf {
        let x = NamedBuffer { key: SessionBufferKey::PleState, buffer };
        assert(e[0] == x);
        lemma_right(a + b + c + d, e, x);
        lemma_left(caches, rest, x);
    }
    if let Some(ck) = slot.turn_recurrent_ckpt {
        if ck.valid && ck.wf() {
            let layers = named_layers(ck, ck.layers@.len());
            let ple = named_one(SessionBufferKey::CheckpointPle, ck.ple_state);
            assert forall|i: int| 0 <= i < ck.layers@.len() implies named_state(slot).contains(
                NamedBuffer {
                    key: SessionBufferKey::CheckpointK(#[trigger] ck.layers@[i] as u32),
                    buffer: ck.kbufs@[i],
                },
            ) && named_state(slot).contains(
                NamedBuffer {
                    key: SessionBufferKey::CheckpointV(ck.layers@[i] as u32),
                    buffer: ck.vbufs@[i],
                },
            ) by {
                let x = NamedBuffer {
                    key: SessionBufferKey::CheckpointK(ck.layers@[i] as u32),
                    buffer: ck.kbufs@[i],
                };
                let y = NamedBuffer {
                    key: SessionBufferKey::CheckpointV(ck.layers@[i] as u32),
                    buffer: ck.vbufs@[i],
                };
                lemma_layers_listed(ck, ck.layers@.len(), i);
                lemma_left(layers, ple, x);
                lemma_left(layers, ple, y);
                lemma_right(caches, rest, x);
                lemma_right(caches, rest, y);
            }
            if let Some(buffer) = ck.ple_state {
                let x = NamedBuffer { key: SessionBufferKey::CheckpointPle, buffer };
                assert(ple[0] == x);
                lemma_right(layers, ple, x);
                lemma_right(caches, rest, x);
            }
        }
    }
}

proof fn lemma_raw_listed(bufs: Seq<Option<DeviceBuffer>>, n: nat, l: int)
    requires
        0 <= l < n <= bufs.len(),
        bufs[l] is Some,
    ensures
        named_raw(bufs, n).contains(
            NamedBuffer { key: SessionBufferKey::QsaRaw(l as u32), buffer: bufs[l]->0 },
        ),
    decreases n,
{
    let x = NamedBuffer { key: SessionBufferKey::QsaRaw(l as u32), buffer: bufs[l]->0 };
    let all = named_raw(bufs, n);
    if l < n - 1 {
        lemma_raw_listed(bufs, (n - 1) as nat, l);
        let before = named_raw(bufs, (n - 1) as nat);
        let i = choose|i: int| 0 <= i < before.len() && before[i] == x;
        assert(all[i] == x);
    } else {
        assert(all[all.len() - 1] == x);
    }
}

proof fn lemma_block_listed(bufs: Seq<Option<DeviceBuffer>>, n: nat, l: int)
    requires
        0 <= l < n <= bufs.len(),
        bufs[l] is Some,
    ensures
        named_block(bufs, n).contains(
            NamedBuffer { key: SessionBufferKey::QsaBlock(l as u32), buffer: bufs[l]->0 },
        ),
    decreases n,
{
    let x = NamedBuffer { key: SessionBufferKey::QsaBlock(l as u32), buffer: bufs[l]->0 };
    let all = named_block(bufs, n);
    if l < n - 1 {
        lemma_block_listed(bufs, (n - 1) as nat, l);
        let before = named_block(bufs, (n - 1) as nat);
        let i = choose|i: int| 0 <= i < before.len() && before[i] == x;
        assert(all[i] == x);
    } else {
        assert(all[all.len() - 1] == x);
    }
}

proof fn lemma_layers_listed(ck: TurnRecurrentCkpt, n: nat, i: int)
    requires
        0 <= i < n <= ck.layers@.len(),
    ensures
        named_layers(ck, n).contains(
            NamedBuffer {
                key: SessionBufferKey::CheckpointK(ck.layers@[i] as u32),
                buffer: ck.kbufs@[i],
            },
        ),
        named_layers(ck, n).contains(
            NamedBuffer {
                key: SessionBufferKey::CheckpointV(ck.layers@[i] as u32),
                buffer: ck.vbufs@[i],
            },
        ),
    decreases n,
{
    let x = NamedBuffer {
        key: SessionBufferKey::CheckpointK(ck.layers@[i] as u32),
        buffer: ck.kbufs@[i],
    };
    let y = NamedBuffer {
        key: SessionBufferKey::CheckpointV(ck.layers@[i] as u32),
        buffer: ck.vbufs@[i],
    };
    let before = named_layers(ck, (n - 1) as nat);
    let all = named_layers(ck, n);
    if i < n - 1 {
        lemma_layers_listed(ck, (n - 1) as nat, i);
        let j = choose|j: int| 0 <= j < before.len() && before[j] == x;
        let k = choose|k: int| 0 <= k < before.len() && before[k] == y;
        assert(all[j] == x && all[k] == y);
    } else {
        assert(all[before.len() as int] == x);
        assert(all[(before.len() + 1) as int] == y);
    }
}

/// Whatever has committed bytes is stored, with all of them.
pub proof fn law_committed_buffers_are_stored_whole(
    list: Seq<NamedBuffer>,
    committed: Seq<usize>,
    n: nat,
    k: int,
)
    requires
        n <= list.len(),
        list.len() == committed.len(),
        0 <= k < n,
        committed[k] > 0,
    ensures
        committed_below(list, committed, n).contains(
            SessionBuffer {
                key: list[k].key,
                buffer: list[k].buffer,
                committed_bytes: committed[k],
            },
        ),
    decreases n,
{
    let x = SessionBuffer {
        key: list[k].key,
        buffer: list[k].buffer,
        committed_bytes: committed[k],
    };
    let all = committed_below(list, committed, n);
    if k < n - 1 {
        law_committed_buffers_are_stored_whole(list, committed, (n - 1) as nat, k);
        let before = committed_below(list, committed, (n - 1) as nat);
        let i = choose|i: int| 0 <= i < before.len() && before[i] == x;
        assert(all[i] == x);
    } else {
        assert(all[all.len() - 1] == x);
    }
}

} // verus!
