//! Stored conversations and rolling checkpoints.

use infr_llama::checkpoint::TurnRecurrentCkpt;
use infr_llama::config::{Config, KvFormat, LayerConfig};
use infr_llama::device::{AllocRequest, DeviceBuffer, DeviceOp};
use infr_llama::error::Error;
use infr_llama::seam_kv::SeamKv;
use infr_llama::session_state::{KeyedSize, SessionBufferKey, SessionStateMeta};
use infr_llama::slot::{CacheBuffers, SegmentedKvState};

fn meta(cached: &[u32], checkpoint: Option<&[u32]>) -> SessionStateMeta {
    SessionStateMeta {
        max_ctx: 1024,
        k_fmt: KvFormat::block8(),
        v_fmt: KvFormat::block8(),
        committed_tokens: 1024,
        cached: cached.to_vec(),
        checkpoint_tokens: checkpoint.map(<[u32]>::to_vec),
    }
}

#[test]
fn cold_metadata_uses_the_same_live_continuation_rule() {
    let state = meta(&[1, 2, 3], None);
    assert_eq!(state.continuation_prefix_len(&[1, 2, 3, 4]), Some(3));
    assert_eq!(state.continuation_prefix_len(&[1, 2, 9]), None);
    assert_eq!(state.continuation_prefix_len(&[1, 2]), Some(2));
}

#[test]
fn cold_metadata_can_resume_a_strict_checkpoint_extension() {
    let state = meta(&[1, 9, 9], Some(&[1, 2]));
    assert_eq!(state.continuation_prefix_len(&[1, 2, 3]), Some(2));
    assert_eq!(state.continuation_prefix_len(&[1, 2]), None);
}

#[test]
fn invalidating_recurrent_checkpoint_clears_all_publish_metadata() {
    let mut checkpoint = TurnRecurrentCkpt {
        kbufs: Vec::new(),
        vbufs: Vec::new(),
        ple_state: None,
        layers: Vec::new(),
        tokens: vec![10, 20, 30],
        copied: vec![true, true],
        ple_copied: true,
        valid: true,
    };

    checkpoint.invalidate();

    assert!(!checkpoint.valid);
    assert!(checkpoint.tokens.is_empty());
    assert_eq!(checkpoint.copied, [false, false]);
    assert!(!checkpoint.ple_copied);
}

fn buf(id: usize, len_bytes: usize) -> DeviceBuffer {
    DeviceBuffer { id, len_bytes }
}

fn layer(attention: bool) -> LayerConfig {
    LayerConfig {
        recurrent: !attention,
        hybrid_attention: attention,
        qwen35_attention: attention,
        swa: false,
        ple: false,
        k_row: if attention { 64 } else { 0 },
        v_row: if attention { 64 } else { 0 },
        compress_ratio: 0,
    }
}

/// A recurrent layer before one of attention.
fn model() -> Config {
    Config {
        layers: vec![layer(false), layer(true)],
        qwen35: true,
        qwen4exp: false,
        bailingmoe3: false,
        deepseek4: false,
        n_embd: 8,
        n_embd_per_layer: 0,
        vocab: 100,
        hc_mult: 0,
        swa_window: 0,
        indexer_head_size: 0,
        indexer_top_k: 0,
        ple_ngram_size: 0,
        ple_heads_per_ngram: 0,
        ple_head_dim: 0,
        ple_conv_kernel: 0,
        ssm_d_conv: 4,
        recurrent_conv_channels: 6,
        recurrent_state_elems: 10,
    }
}

fn slot() -> SeamKv {
    SeamKv {
        caches: CacheBuffers {
            k: vec![buf(10, 72), buf(11, 4_096)],
            v: vec![buf(20, 40), buf(21, 4_096)],
            qsa_raw: vec![None, None],
            qsa_block: vec![None, None],
        },
        segmented_kv: SegmentedKvState { enabled: true, committed_tokens: 1024 },
        k_fmt: KvFormat::block8(),
        v_fmt: KvFormat::block8(),
        hidden_buf: buf(1, 32),
        pos_buf: buf(2, 4),
        ipl_buf: None,
        logits_buf: buf(3, 400),
        qwen_wide_buf: None,
        ple_embd_buf: None,
        ple_state_buf: Some(buf(4, 16)),
        max_ctx: 1024,
        kv_ring: false,
        cached: vec![1, 2, 3],
        sc_ping_write: 0,
        mtp_delta_ckpt: None,
        turn_recurrent_ckpt: Some(TurnRecurrentCkpt {
            kbufs: vec![buf(30, 72)],
            vbufs: vec![buf(40, 40)],
            ple_state: Some(buf(50, 16)),
            layers: vec![0],
            tokens: vec![1, 2],
            copied: vec![true],
            ple_copied: true,
            valid: true,
        }),
    }
}

#[test]
fn a_session_is_described_by_what_is_resident() {
    let kv = slot();
    let meta = kv.session_state_meta();
    assert_eq!(meta.max_ctx, 1024);
    assert_eq!(meta.committed_tokens, 1024);
    assert_eq!(meta.cached, vec![1, 2, 3]);
    assert_eq!(meta.checkpoint_tokens, Some(vec![1, 2]));
    assert!(kv.can_release_session_state());
}

#[test]
fn an_unpublished_checkpoint_is_not_described() {
    let mut kv = slot();
    kv.invalidate_turn_checkpoint();
    assert_eq!(kv.session_state_meta().checkpoint_tokens, None);
    let unpublished: Vec<SessionBufferKey> =
        kv.unpublished_candidates(&model()).iter().map(|b| b.key).collect();
    assert_eq!(
        unpublished,
        vec![
            SessionBufferKey::CheckpointK(0),
            SessionBufferKey::CheckpointV(0),
            SessionBufferKey::CheckpointPle,
        ]
    );
}

#[test]
fn every_buffer_of_a_session_is_listed_under_its_name() {
    let cfg = model();
    let kv = slot();
    let keys: Vec<SessionBufferKey> =
        kv.session_state_candidates(&cfg).iter().map(|b| b.key).collect();
    assert_eq!(
        keys,
        vec![
            SessionBufferKey::K(0),
            SessionBufferKey::K(1),
            SessionBufferKey::V(0),
            SessionBufferKey::V(1),
            SessionBufferKey::PleState,
            SessionBufferKey::CheckpointK(0),
            SessionBufferKey::CheckpointV(0),
            SessionBufferKey::CheckpointPle,
        ]
    );
    let committed = vec![72, 0, 40, 2_048, 16, 72, 40, 16];
    let listed = kv.session_state_buffers(&cfg, &committed);
    assert_eq!(listed.len(), 7);
    assert_eq!(listed[2].key, SessionBufferKey::V(1));
    assert_eq!(listed[2].committed_bytes, 2_048);
    let specs = kv.session_restore_buffer_specs(&cfg, &committed, &Vec::new());
    assert_eq!(specs[0], KeyedSize { key: SessionBufferKey::K(0), bytes: 72 });
    assert_eq!(specs.last().unwrap().key, SessionBufferKey::CheckpointPle);
    assert_eq!(kv.session_state_buffer(SessionBufferKey::V(1)), Some(buf(21, 4_096)));
    assert_eq!(kv.session_state_buffer(SessionBufferKey::V(9)), None);
    assert_eq!(kv.session_state_buffer(SessionBufferKey::CheckpointK(0)), Some(buf(30, 72)));
    assert_eq!(kv.session_state_buffer(SessionBufferKey::QsaRaw(1)), None);
}

#[test]
fn a_restore_asks_for_each_buffer_once_and_in_order() {
    let cfg = model();
    let mut kv = slot();
    kv.invalidate_turn_checkpoint();
    let specs = kv.session_restore_buffer_specs(&cfg, &vec![72, 0, 40, 2_048, 16], &vec![72, 0, 16]);
    let listed: Vec<(SessionBufferKey, usize)> = specs.iter().map(|s| (s.key, s.bytes)).collect();
    assert_eq!(
        listed,
        vec![
            (SessionBufferKey::K(0), 72),
            (SessionBufferKey::V(0), 40),
            (SessionBufferKey::V(1), 2_048),
            (SessionBufferKey::PleState, 16),
            (SessionBufferKey::CheckpointK(0), 72),
            (SessionBufferKey::CheckpointV(0), 0),
            (SessionBufferKey::CheckpointPle, 16),
        ]
    );
    assert!(specs.iter().all(|s| kv.session_state_buffer(s.key).is_some()));
}

#[test]
fn a_stored_session_must_fit_the_slot() {
    let cfg = model();
    let mut kv = slot();
    let stored = kv.session_state_meta();
    assert!(kv.prepare_session_restore(&cfg, &stored).is_ok());
    let mut other = kv.session_state_meta();
    other.max_ctx = 2048;
    assert_eq!(
        kv.prepare_session_restore(&cfg, &other).err().unwrap().message(),
        "cold session geometry differs from the resident slot (ctx 2048 vs 1024, K Q8_0 vs Q8_0, \
         V Q8_0 vs Q8_0)"
    );
    let mut deep = kv.session_state_meta();
    deep.cached = vec![7; 1025];
    assert_eq!(
        kv.prepare_session_restore(&cfg, &deep).err(),
        Some(Error::RestoreDepthExceedsSlot)
    );
    kv.segmented_kv.enabled = false;
    assert_eq!(
        kv.prepare_session_restore(&cfg, &stored).err(),
        Some(Error::RestoreNeedsSegments)
    );
}

#[test]
fn a_restored_session_is_the_stored_one() {
    let mut kv = slot();
    let stored = kv.session_state_meta();
    kv.reset();
    assert!(kv.cached.is_empty());
    assert!(kv.finish_session_restore(stored).is_ok());
    assert_eq!(kv.cached, vec![1, 2, 3]);
    assert_eq!(kv.checkpoint_prefix(&[1, 2, 9]), Some(2));
    let mut without = slot();
    without.turn_recurrent_ckpt = None;
    let stored = slot().session_state_meta();
    assert_eq!(without.finish_session_restore(stored), Err(Error::RestoreCheckpointDiffers));
}

#[test]
fn releasing_a_session_gives_its_planes_back() {
    let cfg = model();
    let mut kv = slot();
    let plan = kv.release_session_state(&cfg).ok().unwrap();
    assert!(plan.outcome.is_ok());
    assert!(plan.ops.contains(&DeviceOp::Release { buffer: buf(11, 4_096) }));
    assert!(plan.ops.contains(&DeviceOp::Release { buffer: buf(21, 4_096) }));
    assert!(kv.cached.is_empty());
    assert_eq!(kv.segmented_kv.committed_tokens, 0);
    let mut flat = slot();
    flat.segmented_kv.enabled = false;
    assert_eq!(flat.release_session_state(&cfg).err(), Some(Error::ReleaseNeedsSegments));
    let mut sparse = model();
    sparse.qwen35 = false;
    sparse.qwen4exp = true;
    let mut kv = slot();
    let plan = kv.release_session_state(&sparse).ok().unwrap();
    assert_eq!(plan.outcome, Err(Error::ReleaseMissingQsaRaw { layer: 1 }));
    let mut kv = slot();
    kv.caches.qsa_raw[1] = Some(buf(60, 8));
    let plan = kv.release_session_state(&sparse).ok().unwrap();
    assert_eq!(plan.outcome, Err(Error::ReleaseMissingQsaBlock { layer: 1 }));
}

#[test]
fn a_cold_session_continues_like_a_live_one() {
    let kv = slot();
    let meta = kv.session_state_meta();
    for prompt in [&[1u32, 2, 3, 4][..], &[1, 2, 9], &[1, 2], &[5], &[]] {
        assert_eq!(meta.continuation_prefix_len(prompt), kv.continuation_prefix_len(prompt));
    }
}

#[test]
fn a_restore_begins_a_checkpoint_anew() {
    let cfg = model();
    let mut kv = slot();
    let stored = kv.session_state_meta();
    let requests = kv.restore_checkpoint_requests(&cfg, &stored);
    assert!(kv.turn_recurrent_ckpt.is_none());
    let bytes: Vec<usize> = requests
        .iter()
        .map(|r| match r {
            AllocRequest::Fixed { bytes, .. } => *bytes,
            AllocRequest::Segmented { spec } => spec.logical_bytes,
        })
        .collect();
    assert_eq!(bytes, vec![72, 40, 16]);
    let mut plain = kv.session_state_meta();
    plain.checkpoint_tokens = None;
    assert!(kv.restore_checkpoint_requests(&cfg, &plain).is_empty());
}

#[test]
fn verified_tokens_are_resident() {
    let mut kv = slot();
    kv.verified(&[1, 2, 3, 4, 5], 3);
    assert_eq!(kv.cached, vec![1, 2, 3, 4, 5]);
}
