//! Slots: what they continue, how they grow, and how they are allocated, forked and seeded.

use infr_llama::checkpoint::{SnapshotStep, TurnRecurrentCkpt};
use infr_llama::config::{Config, KvFormat, LayerConfig};
use infr_llama::device::{at_least_one, AllocRequest, BufferUsage, DeviceBuffer, DeviceOp};
use infr_llama::error::Error;
use infr_llama::prompt::{checkpoint_boundary, PreparedParallelPrompt, TurnCheckpoint, TurnMode, TurnRoute};
use infr_llama::seam_kv::SeamKv;
use infr_llama::segmented_kv::{PlaneKind, SegmentedKvLayout};
use infr_llama::slot::{CacheBuffers, SegmentedKvState};
use infr_llama::slot_alloc::{
    alloc_segmented_plane, allocate_pending_seam_slot, cache_requests, finish_pending_seam_slot,
    io_requests, pending_checkpoint_requests, pending_fills, IoBuffers, LayerBytes, PendingSeamSlot,
};

fn layer(attention: bool) -> LayerConfig {
    LayerConfig {
        recurrent: !attention,
        hybrid_attention: attention,
        qwen35_attention: attention,
        swa: false,
        ple: false,
        k_row: if attention { 64 } else { 0 },
        v_row: if attention { 64 } else { 0 },
        compress_ratio: if attention { 4 } else { 0 },
    }
}

/// Two recurrent layers around one of attention.
fn model() -> Config {
    Config {
        layers: vec![layer(false), layer(true), layer(false)],
        qwen35: true,
        qwen4exp: false,
        bailingmoe3: false,
        deepseek4: false,
        n_embd: 8,
        n_embd_per_layer: 0,
        vocab: 100,
        hc_mult: 4,
        swa_window: 4,
        indexer_head_size: 16,
        indexer_top_k: 8,
        ple_ngram_size: 3,
        ple_heads_per_ngram: 2,
        ple_head_dim: 5,
        ple_conv_kernel: 4,
        ssm_d_conv: 4,
        recurrent_conv_channels: 6,
        recurrent_state_elems: 10,
    }
}

/// A model of plain attention layers.
fn dense() -> Config {
    let mut cfg = model();
    cfg.qwen35 = false;
    cfg.layers = vec![layer(true), layer(true)];
    cfg
}

fn buf(id: usize, len_bytes: usize) -> DeviceBuffer {
    DeviceBuffer { id, len_bytes }
}

fn caches(n: usize) -> CacheBuffers {
    CacheBuffers {
        k: (0..n).map(|l| buf(100 + l, 72)).collect(),
        v: (0..n).map(|l| buf(200 + l, 40)).collect(),
        qsa_raw: vec![None; n],
        qsa_block: vec![None; n],
    }
}

fn slot(n: usize) -> SeamKv {
    SeamKv {
        caches: caches(n),
        segmented_kv: SegmentedKvState::default(),
        k_fmt: KvFormat::block8(),
        v_fmt: KvFormat::block8(),
        hidden_buf: buf(1, 32),
        pos_buf: buf(2, 4),
        ipl_buf: None,
        logits_buf: buf(3, 400),
        qwen_wide_buf: None,
        ple_embd_buf: None,
        ple_state_buf: None,
        max_ctx: 65_536,
        kv_ring: false,
        cached: Vec::new(),
        sc_ping_write: 0,
        mtp_delta_ckpt: None,
        turn_recurrent_ckpt: None,
    }
}

fn checkpoint(tokens: &[u32]) -> TurnRecurrentCkpt {
    TurnRecurrentCkpt {
        kbufs: vec![buf(300, 72), buf(302, 72)],
        vbufs: vec![buf(400, 40), buf(402, 40)],
        ple_state: None,
        layers: vec![0, 2],
        tokens: tokens.to_vec(),
        copied: vec![true, true],
        ple_copied: true,
        valid: true,
    }
}

fn whole(src: DeviceBuffer, dst: DeviceBuffer) -> DeviceOp {
    DeviceOp::Copy { src, dst, bytes: src.len_bytes }
}

#[test]
fn only_a_new_strict_prefix_becomes_a_checkpoint() {
    let cfg = model();
    let at = |n| Some(TurnCheckpoint::Boundary(n));
    assert_eq!(checkpoint_boundary(at(5), &cfg, 2, 10, 16), Some(5));
    assert_eq!(checkpoint_boundary(at(5), &dense(), 2, 10, 16), None);
    assert_eq!(checkpoint_boundary(at(2), &cfg, 2, 10, 16), None);
    assert_eq!(checkpoint_boundary(at(10), &cfg, 2, 10, 16), None);
    assert_eq!(checkpoint_boundary(at(9), &cfg, 2, 10, 8), None);
    assert_eq!(checkpoint_boundary(Some(TurnCheckpoint::Enable), &cfg, 2, 10, 16), None);
    assert_eq!(checkpoint_boundary(None, &cfg, 2, 10, 16), None);
}

#[test]
fn a_slot_reports_what_it_can_continue() {
    let mut kv = slot(3);
    kv.cached = vec![1, 2, 3];
    assert_eq!(kv.max_ctx(), 65_536);
    assert!(kv.kv_q8());
    assert_eq!(kv.cached_len(), 3);
    assert_eq!(kv.prefix_score(&[1, 2, 9]), 2);
    assert_eq!(kv.continuation_prefix_len(&[1, 2, 3, 4]), Some(3));
    assert_eq!(kv.continuation_prefix_len(&[9]), None);
    assert_eq!(kv.checkpoint_prefix(&[1, 2, 3, 4]), None);
    kv.turn_recurrent_ckpt = Some(checkpoint(&[1, 2]));
    assert_eq!(kv.checkpoint_prefix(&[1, 2, 7]), Some(2));
    assert_eq!(kv.continuation_prefix_len(&[1, 2, 7]), Some(2));
    kv.reset();
    assert!(kv.cached.is_empty());
    assert_eq!(kv.checkpoint_prefix(&[1, 2, 7]), None);
}

#[test]
fn mixed_formats_are_not_eight_bit() {
    let mut kv = slot(1);
    kv.v_fmt = KvFormat::half();
    assert!(!kv.kv_q8());
}

#[test]
fn dense_turns_keep_the_shared_prefix_and_leave_a_token() {
    let cfg = dense();
    let mut kv = slot(2);
    kv.cached = vec![1, 2, 3];
    match kv.route_turn(&cfg, &[1, 2, 9], TurnMode::Ordinary) {
        TurnRoute::Prefix(start) => assert_eq!(start, 2),
        _ => panic!("a dense turn keeps its prefix"),
    }
    match kv.route_turn(&cfg, &[1, 2, 3], TurnMode::Ordinary) {
        TurnRoute::Prefix(start) => assert_eq!(start, 2),
        _ => panic!("a resent prompt leaves a token"),
    }
    match kv.route_turn(&cfg, &[], TurnMode::Denoise) {
        TurnRoute::Denoise(start) => assert_eq!(start, 3),
        _ => panic!("a canvas turn keeps everything"),
    }
    match kv.route_turn(&cfg, &[1], TurnMode::Prepared(7)) {
        TurnRoute::Prepared(start) => assert_eq!(start, 7),
        _ => panic!("a prepared turn starts where it was prepared"),
    }
}

#[test]
fn recurrent_turns_extend_restore_or_reset() {
    let cfg = model();
    let mut kv = slot(3);
    kv.cached = vec![1, 2];
    match kv.route_turn(&cfg, &[1, 2, 3], TurnMode::Ordinary) {
        TurnRoute::Live(start) => assert_eq!(start, 2),
        _ => panic!("an extension goes on live"),
    }
    kv.turn_recurrent_ckpt = Some(checkpoint(&[1]));
    let prompt = [1, 9, 9];
    let route = kv.route_turn(&cfg, &prompt, TurnMode::Ordinary);
    match &route {
        TurnRoute::Checkpoint { ops, start } => {
            assert_eq!(*start, 1);
            assert_eq!(
                *ops,
                vec![
                    whole(buf(300, 72), buf(100, 72)),
                    whole(buf(400, 40), buf(200, 40)),
                    whole(buf(302, 72), buf(102, 72)),
                    whole(buf(402, 40), buf(202, 40)),
                ]
            );
        }
        _ => panic!("a checkpoint is restored"),
    }
    assert_eq!(kv.follow_route(&cfg, &prompt, TurnMode::Ordinary, &route).unwrap(), 1);
    assert_eq!(kv.cached, vec![1]);

    kv.cached = vec![5, 6];
    let other = [7, 8];
    let route = kv.route_turn(&cfg, &other, TurnMode::Ordinary);
    match &route {
        TurnRoute::Reset { ops } => assert_eq!(
            *ops,
            vec![
                DeviceOp::Zero { buffer: buf(100, 72), bytes: 72 },
                DeviceOp::Zero { buffer: buf(200, 40), bytes: 40 },
                DeviceOp::Zero { buffer: buf(102, 72), bytes: 72 },
                DeviceOp::Zero { buffer: buf(202, 40), bytes: 40 },
            ]
        ),
        _ => panic!("another stream starts over"),
    }
    assert_eq!(kv.follow_route(&cfg, &other, TurnMode::Ordinary, &route).unwrap(), 0);
    assert!(kv.cached.is_empty());
    assert!(!kv.turn_recurrent_ckpt.unwrap().valid);
}

#[test]
fn a_checkpoint_without_a_target_is_refused() {
    let cfg = model();
    let mut kv = slot(3);
    let mut ck = checkpoint(&[1]);
    ck.ple_state = Some(buf(500, 8));
    kv.turn_recurrent_ckpt = Some(ck);
    match kv.route_turn(&cfg, &[1, 2], TurnMode::Ordinary) {
        TurnRoute::CheckpointFailed { error, .. } => assert_eq!(
            error.message(),
            "stable recurrent checkpoint PLE target differs from its snapshot"
        ),
        _ => panic!("the history has no place"),
    }
    let plan = kv.restore_turn_recurrent(&cfg, &[1, 2]);
    assert_eq!(plan.outcome, Err(Error::CheckpointPleTargetDiffers));
}

#[test]
fn a_rewind_past_the_ring_starts_over() {
    let mut cfg = dense();
    cfg.layers[0].swa = true;
    cfg.swa_window = 4;
    let mut kv = slot(2);
    kv.kv_ring = true;
    kv.max_ctx = 100;
    kv.cached = (0..20).collect();
    let rows = vec![8, 100];
    // Rows for positions 12..20 are live; a start at 16 looks back to 12.
    assert_eq!(kv.ring_checked_start(&cfg, &rows, 16), 16);
    assert_eq!(kv.ring_checked_start(&cfg, &rows, 15), 0);
    assert_eq!(kv.ring_checked_start(&cfg, &rows, 20), 20);
    kv.kv_ring = false;
    assert_eq!(kv.ring_checked_start(&cfg, &rows, 15), 15);
}

#[test]
fn settling_a_turn_keeps_a_prepared_one() {
    let cfg = model();
    let mut kv = slot(3);
    kv.cached = vec![1, 2, 3];
    let rows = vec![1, 1, 1];
    let at = Some(TurnCheckpoint::Boundary(5));
    let settled = kv.settle_turn(&cfg, 9, 3, &rows, at, None);
    assert_eq!(settled, PreparedParallelPrompt { start: 3, checkpoint_boundary: Some(5) });
    let prepared = PreparedParallelPrompt { start: 1, checkpoint_boundary: None };
    assert_eq!(kv.settle_turn(&cfg, 9, 1, &rows, at, Some(prepared)), prepared);
    let lane = kv.prepare_parallel_prompt_state(&cfg, 9, 3, &rows, at);
    assert_eq!(lane, PreparedParallelPrompt { start: 3, checkpoint_boundary: Some(5) });
    kv.truncate_cached(1);
    assert_eq!(kv.cached, vec![1]);
}

#[test]
fn a_turn_checkpoint_is_allocated_once_and_filled_layer_by_layer() {
    let cfg = model();
    let mut kv = slot(3);
    let wanted = kv.turn_checkpoint_requests(&cfg).unwrap();
    let fixed = |bytes| AllocRequest::Fixed { bytes, usage: BufferUsage::KvCache };
    assert_eq!(wanted, vec![fixed(72), fixed(40), fixed(72), fixed(40)]);
    let made = vec![buf(10, 72), buf(11, 40), buf(12, 72), buf(13, 40)];
    kv.begin_turn_checkpoint(&cfg, &made, &[1, 2, 3], 2);
    assert!(kv.turn_checkpoint_requests(&cfg).unwrap().is_empty());
    let mut ck = kv.turn_recurrent_ckpt.take().unwrap();
    assert_eq!(ck.tokens, vec![1, 2]);
    assert_eq!(ck.layers, vec![0, 2]);
    assert!(!ck.valid);
    assert!(ck.snapshot_layer(&kv.caches.k, &kv.caches.v, 1).is_none());
    let mut steps = 0;
    loop {
        let step = ck.snapshot_all(&kv.caches.k, &kv.caches.v, None).unwrap();
        ck.record(step);
        if step == SnapshotStep::Publish {
            break;
        }
        steps += 1;
    }
    assert_eq!(steps, 2);
    assert!(ck.valid);
    assert_eq!(ck.snapshot_ple(Some(buf(1, 1))), Err(Error::CheckpointPleSourceDiffers));
}

#[test]
fn a_snapshot_copies_a_layer_into_its_place() {
    let mut ck = checkpoint(&[1]);
    ck.invalidate();
    ck.tokens = vec![1];
    let src = caches(3);
    assert_eq!(
        ck.snapshot_layer(&src.k, &src.v, 2),
        Some(SnapshotStep::Layer {
            index: 1,
            k: whole(buf(102, 72), buf(302, 72)),
            v: whole(buf(202, 40), buf(402, 40)),
        })
    );
}

#[test]
fn checkpoints_need_fixed_state() {
    let cfg = model();
    let k = vec![Some(buf(1, 72)), None, Some(buf(2, 72))];
    let v = vec![Some(buf(3, 40)), None, Some(buf(4, 40))];
    let none: Option<TurnRecurrentCkpt> = None;
    assert_eq!(
        TurnRecurrentCkpt::begin_before_dynamic_kv(&none, &cfg, &k, &v, None).unwrap().len(),
        4
    );
    let missing = vec![None, None, Some(buf(2, 72))];
    let err = TurnRecurrentCkpt::begin_before_dynamic_kv(&none, &cfg, &missing, &v, None);
    assert_eq!(err, Err(Error::CheckpointLayerWithoutK { layer: 0 }));
    let missing = vec![Some(buf(3, 40)), None, None];
    let err = TurnRecurrentCkpt::begin_before_dynamic_kv(&none, &cfg, &k, &missing, None);
    assert_eq!(err, Err(Error::CheckpointLayerWithoutV { layer: 2 }));
    let some = Some(checkpoint(&[1]));
    let src = caches(3);
    let changed = TurnRecurrentCkpt::begin(&some, &cfg, &src.k, &src.v, Some(buf(9, 8)));
    assert_eq!(changed, Err(Error::CheckpointPleShapeChanged));
}

#[test]
fn a_lazy_cache_commits_whole_segments() {
    let cfg = model();
    let state = SegmentedKvState::enabled();
    let mut c = caches(3);
    c.qsa_raw[1] = Some(buf(600, 8));
    c.qsa_block[1] = Some(buf(700, 8));
    let f = KvFormat::block8();
    let plan = state.ensure_depth(&cfg, 65_536, f, f, &c, 32_769).unwrap().unwrap();
    assert_eq!(plan.segments, 2);
    assert_eq!(plan.buffers, vec![buf(101, 72), buf(201, 40)]);
    let mut grown = state;
    grown.committed(plan.segments, 65_536);
    assert_eq!(grown.committed_tokens, 65_536);
    assert!(grown.ensure_depth(&cfg, 65_536, f, f, &c, 40_000).unwrap().is_none());
    assert!(SegmentedKvState::default().ensure_depth(&cfg, 65_536, f, f, &c, 1).unwrap().is_none());
    assert_eq!(
        state.ensure_depth(&cfg, 65_536, f, f, &c, 65_537).err().unwrap().message(),
        "KV depth 65537 exceeds the session capacity 65536"
    );
    assert_eq!(
        state.ensure_depth(&dense(), 65_536, f, f, &caches(2), 1).err(),
        Some(Error::SegmentedForOtherModel)
    );
    let mut sparse = model();
    sparse.qwen35 = false;
    sparse.qwen4exp = true;
    let bare = caches(3);
    assert_eq!(
        state.ensure_depth(&sparse, 65_536, f, f, &bare, 1).err(),
        Some(Error::MissingQsaRaw { layer: 1 })
    );
    let mut half = caches(3);
    half.qsa_raw[1] = Some(buf(600, 8));
    assert_eq!(
        state.ensure_depth(&sparse, 65_536, f, f, &half, 1).err(),
        Some(Error::MissingQsaBlock { layer: 1 })
    );
    assert_eq!(state.ensure_depth(&sparse, 65_536, f, f, &c, 1).unwrap().unwrap().buffers.len(), 4);
}

#[test]
fn synthetic_contexts_are_bounded_and_cleared() {
    let cfg = model();
    let mut kv = slot(3);
    kv.max_ctx = 10;
    assert_eq!(
        kv.synthetic_depth(&cfg, 11).err().unwrap().message(),
        "synthetic depth 11 exceeds the session KV capacity 10"
    );
    assert!(kv.synthetic_depth(&cfg, 10).unwrap().is_none());
    assert_eq!(kv.synthetic_ops(&cfg).len(), 4);
    kv.turn_recurrent_ckpt = Some(checkpoint(&[1]));
    assert!(kv.set_synthetic_cached(vec![4, 4, 4]).is_ok());
    assert_eq!(kv.cached, vec![4, 4, 4]);
    assert_eq!(
        kv.set_synthetic_cached(vec![4; 11]).err().unwrap().message(),
        "synthetic depth 11 exceeds the session KV capacity 10"
    );
    assert_eq!(kv.cached, vec![4, 4, 4]);
    assert!(kv.set_synthetic_cached(vec![5; 10]).is_ok());
    assert_eq!(kv.cached.len(), kv.max_ctx);
    assert!(!kv.turn_recurrent_ckpt.unwrap().valid);
}

#[test]
fn a_checkpoint_is_begun_before_the_planes_are_bound() {
    let cfg = model();
    let bound = vec![Some(buf(1, 72)), None, Some(buf(2, 72))];
    let fresh = TurnRecurrentCkpt::begin_before_dynamic_kv(&None, &cfg, &bound, &bound, None);
    assert_eq!(fresh.unwrap().len(), 4);
    let kept = Some(checkpoint(&[1]));
    let again = TurnRecurrentCkpt::begin_before_dynamic_kv(&kept, &cfg, &bound, &bound, None);
    assert_eq!(again.unwrap().len(), 0);
    let changed = TurnRecurrentCkpt::begin_before_dynamic_kv(
        &kept,
        &cfg,
        &bound,
        &bound,
        Some(buf(9, 8)),
    );
    assert_eq!(changed.err(), Some(Error::CheckpointPleShapeChanged));
}

#[test]
fn rolling_back_speculation_forgets_the_tokens_after_it() {
    let cfg = model();
    let mut kv = slot(3);
    kv.cached = vec![1, 2];
    let wanted = kv.mtp_snapshot_requests(&cfg);
    assert_eq!(wanted.len(), 4);
    let made = vec![buf(10, 72), buf(11, 40), buf(12, 72), buf(13, 40)];
    let ops = kv.mtp_snapshot_delta(&cfg, &made);
    assert_eq!(ops.len(), 4);
    kv.mtp_snapshot_done();
    kv.cached.extend_from_slice(&[3, 4]);
    let back = kv.mtp_restore_ops(&cfg);
    assert_eq!(back.len(), 4);
    kv.mtp_restore_delta();
    assert_eq!(kv.cached, vec![1, 2]);
    assert!(kv.mtp_snapshot_requests(&cfg).is_empty());
}

#[test]
fn a_slot_is_seeded_with_shared_rows() {
    let cfg = dense();
    let mut src = slot(2);
    src.cached = vec![1, 2, 3, 4];
    let mut dst = slot(2);
    let rows = vec![65_536, 65_536];
    let plan = dst.seed_plan(&cfg, &src, 3, &rows).unwrap();
    assert_eq!(plan.rows, 3);
    assert_eq!(plan.ops.len(), 4);
    dst.seed_from(&src, plan.rows);
    assert_eq!(dst.cached, vec![1, 2, 3]);
}

#[test]
fn allocations_follow_the_layout() {
    let mut cfg = model();
    cfg.qwen35 = false;
    cfg.qwen4exp = true;
    let f = KvFormat::block8();
    let layout = SegmentedKvLayout::for_qwen(&cfg, 65_536, f, f);
    let bytes: Vec<LayerBytes> = (0..3)
        .map(|l| LayerBytes {
            k: 72,
            v: 40,
            qsa_raw: if l == 1 { 32 } else { 0 },
            qsa_block: if l == 1 { 16 } else { 0 },
        })
        .collect();
    let flat = cache_requests(&None, &bytes).unwrap();
    assert_eq!(flat[0].k, AllocRequest::Fixed { bytes: 72, usage: BufferUsage::KvCache });
    assert_eq!(flat[0].qsa_raw, None);
    assert_eq!(
        flat[1].qsa_raw,
        Some(AllocRequest::Fixed { bytes: 32, usage: BufferUsage::KvCache })
    );
    let lazy = cache_requests(&layout, &bytes).unwrap();
    assert_eq!(lazy[0].k, AllocRequest::Fixed { bytes: 72, usage: BufferUsage::KvCache });
    let layout = layout.unwrap();
    let spec = alloc_segmented_plane(&layout, 1, PlaneKind::K).unwrap();
    assert_eq!(lazy[1].k, AllocRequest::Segmented { spec });
    assert_eq!(spec.segment_elements, 32_768 * 64);
    assert_eq!(
        alloc_segmented_plane(&layout, 0, PlaneKind::QsaRaw).unwrap_err().message(),
        "missing segmented KV geometry for layer 0 QsaRaw"
    );
    assert_eq!(at_least_one(0), 1);
    assert_eq!(at_least_one(7), 7);
}

fn io(cfg: &Config) -> IoBuffers {
    let r = io_requests(cfg, false);
    let size = |r: AllocRequest| match r {
        AllocRequest::Fixed { bytes, .. } => bytes,
        AllocRequest::Segmented { spec } => spec.logical_bytes,
    };
    IoBuffers {
        hidden: buf(1, size(r.hidden)),
        pos: buf(2, size(r.pos)),
        ipl: r.ipl.map(|x| buf(3, size(x))),
        logits: buf(4, size(r.logits)),
        wide: r.wide.map(|x| buf(5, size(x))),
        ple_embd: r.ple_embd.map(|x| buf(6, size(x))),
        ple_state: r.ple_state.map(|x| buf(7, size(x))),
    }
}

#[test]
fn a_slots_own_buffers_have_known_sizes() {
    let mut cfg = model();
    let plain = io(&cfg);
    assert_eq!(plain.hidden.len_bytes, 32);
    assert_eq!(plain.logits.len_bytes, 400);
    assert_eq!(plain.wide, None);
    cfg.qwen35 = false;
    cfg.qwen4exp = true;
    let wide = io(&cfg);
    assert_eq!(wide.wide.unwrap().len_bytes, 4 * 8 * 4);
    assert_eq!(wide.ple_embd.unwrap().len_bytes, 2 * 2 * 5 * 4);
    assert_eq!(wide.ple_state.unwrap().len_bytes, 3 * 3 * 4 * 8 * 4);
}

#[test]
fn a_pending_slot_is_finished_once_its_planes_are_there() {
    let mut cfg = model();
    cfg.qwen35 = false;
    cfg.qwen4exp = true;
    let f = KvFormat::block8();
    let bytes: Vec<LayerBytes> = (0..3)
        .map(|l| LayerBytes {
            k: 72,
            v: 40,
            qsa_raw: if l == 1 { 32 } else { 0 },
            qsa_block: if l == 1 { 16 } else { 0 },
        })
        .collect();
    let layout = SegmentedKvLayout::for_qwen(&cfg, 65_536, f, f);
    let wanted = allocate_pending_seam_slot(&cfg, &layout, &bytes, false, false).unwrap();
    assert_eq!(wanted.layers.len(), 3);
    let k = vec![Some(buf(10, 72)), None, Some(buf(12, 72))];
    let v = vec![Some(buf(20, 40)), None, Some(buf(22, 40))];
    let io = io(&cfg);
    assert_eq!(
        pending_checkpoint_requests(&cfg, true, &k, &v, io.ple_state).unwrap().len(),
        5
    );
    assert!(pending_checkpoint_requests(&cfg, false, &k, &v, io.ple_state).unwrap().is_empty());
    let pending = |k: Vec<Option<DeviceBuffer>>, v: Vec<Option<DeviceBuffer>>| PendingSeamSlot {
        kbufs: k,
        vbufs: v,
        qsa_kbufs: vec![None, None, None],
        qsa_cbufs: vec![None, None, None],
        io: IoBuffers {
            hidden: buf(1, 32),
            pos: buf(2, 4),
            ipl: None,
            logits: buf(4, 400),
            wide: None,
            ple_embd: None,
            ple_state: None,
        },
        turn_recurrent_ckpt: None,
    };
    let fills = pending_fills(&pending(k.clone(), v.clone()), &layout.unwrap(), &bytes).unwrap();
    assert!(fills[0].k.is_none());
    assert!(fills[1].k.is_some() && fills[1].v.is_some());
    assert!(fills[1].qsa_raw.is_some() && fills[1].qsa_block.is_some());
    let missing = finish_pending_seam_slot(pending(k.clone(), v.clone()), true, f, f, 64, false, None);
    assert_eq!(
        missing.err().unwrap().message(),
        "layer 1 K/state buffer was not allocated"
    );
    let full: Vec<Option<DeviceBuffer>> = (0..3).map(|l| Some(buf(l, 8))).collect();
    let missing = finish_pending_seam_slot(pending(full.clone(), v), true, f, f, 64, false, None);
    assert_eq!(
        missing.err().unwrap().message(),
        "layer 1 V/state buffer was not allocated"
    );
    let made = finish_pending_seam_slot(pending(full.clone(), full), true, f, f, 64, true, None);
    let made = made.ok().unwrap();
    assert!(made.segmented_kv.enabled);
    assert_eq!(made.max_ctx, 64);
    assert!(made.kv_ring);
    assert!(made.cached.is_empty());
}

#[test]
fn a_fork_has_the_geometry_of_its_source() {
    let cfg = model();
    let src = slot(3);
    let bytes: Vec<LayerBytes> =
        (0..3).map(|_| LayerBytes { k: 72, v: 40, qsa_raw: 0, qsa_block: 0 }).collect();
    assert_eq!(src.fork_requests(&cfg, &bytes).unwrap().len(), 3);
    assert!(src.fork_check(&cfg, &caches(3)).is_ok());
    let mut short = caches(3);
    short.k[1].len_bytes = 71;
    assert_eq!(
        src.fork_check(&cfg, &short).unwrap_err(),
        Error::ForkGeometryDiffersK { layer: 1, forked: 71, src: 72 }
    );
    let mut short = caches(3);
    short.v[2].len_bytes = 39;
    assert_eq!(
        src.fork_check(&cfg, &short).unwrap_err(),
        Error::ForkGeometryDiffersV { layer: 2, forked: 39, src: 40 }
    );
    let mut extra = caches(3);
    extra.qsa_raw[1] = Some(buf(1, 8));
    assert!(matches!(
        src.fork_check(&cfg, &extra).unwrap_err(),
        Error::ForkQsaGeometryDiffers { layer: 1, forked_len: Some(8), src_len: None }
    ));
    let mut extra = caches(3);
    extra.qsa_block[1] = Some(buf(1, 8));
    assert!(matches!(
        src.fork_check(&cfg, &extra).unwrap_err(),
        Error::ForkQsaBlockGeometryDiffers { layer: 1, .. }
    ));
    assert!(matches!(
        src.fork(&cfg, extra, io(&cfg)).err().unwrap(),
        Error::ForkQsaBlockGeometryDiffers { layer: 1, .. }
    ));
    let forked = src.fork(&cfg, caches(3), io(&cfg)).ok().unwrap();
    assert_eq!(forked.caches.k[1].len_bytes, src.caches.k[1].len_bytes);
    assert!(forked.cached.is_empty());
    assert_eq!(forked.max_ctx, src.max_ctx);
    assert!(forked.turn_recurrent_ckpt.is_none());
}

#[test]
fn a_fork_stages_rows_as_its_source_does() {
    let mut cfg = model();
    cfg.n_embd_per_layer = 2;
    let mut src = slot(3);
    assert_eq!(src.fork_io_requests(&cfg), io_requests(&cfg, false));
    src.ipl_buf = Some(buf(9, 24));
    assert_eq!(src.fork_io_requests(&cfg), io_requests(&cfg, true));
    assert_ne!(io_requests(&cfg, true), io_requests(&cfg, false));
}

#[test]
fn a_slot_records_no_more_than_its_context() {
    let mut kv = slot(3);
    kv.max_ctx = 3;
    kv.cached = vec![1, 2];
    kv.turn_recurrent_ckpt = Some(checkpoint(&[1, 2, 3]));
    kv.restored_turn_recurrent();
    assert_eq!(kv.cached, vec![1, 2, 3]);
    assert!(kv.set_synthetic_cached(vec![9; 4]).is_err());
    assert_eq!(kv.cached, vec![1, 2, 3]);
    kv.reset();
    assert!(kv.cached.is_empty());
}
