//! The geometry of lazily grown caches.

use infr_llama::config::{kv_fmt_bytes, Config, DType, KvFormat, LayerConfig};
use infr_llama::segmented_kv::{PlaneKind, SegmentedKvLayout, KV_GROW_ROWS};
use infr_llama::slot::SegmentedKvState;

const N_KV: usize = 2;
const HEAD_DIM: usize = 256;

fn qwen38() -> Config {
    let layers = (0usize..48)
        .map(|layer| {
            let attention = (layer + 1).is_multiple_of(4);
            LayerConfig {
                recurrent: !attention,
                hybrid_attention: attention,
                qwen35_attention: false,
                swa: false,
                ple: false,
                k_row: if attention { N_KV * HEAD_DIM } else { 0 },
                v_row: if attention { N_KV * HEAD_DIM } else { 0 },
                compress_ratio: if attention { 4 } else { 0 },
            }
        })
        .collect();
    Config {
        layers,
        qwen35: false,
        qwen4exp: true,
        bailingmoe3: false,
        deepseek4: false,
        n_embd: 0,
        n_embd_per_layer: 0,
        vocab: 0,
        hc_mult: 0,
        swa_window: 0,
        indexer_head_size: 128,
        indexer_top_k: 0,
        ple_ngram_size: 0,
        ple_heads_per_ngram: 0,
        ple_head_dim: 0,
        ple_conv_kernel: 0,
        ssm_d_conv: 0,
        recurrent_conv_channels: 0,
        recurrent_state_elems: 0,
    }
}

fn layout() -> SegmentedKvLayout {
    SegmentedKvLayout::for_qwen(&qwen38(), 262_144, KvFormat::block8(), KvFormat::block8()).unwrap()
}

#[test]
fn depth_crosses_exactly_one_32k_boundary() {
    let layout = layout();
    assert_eq!(layout.max_segments(), 8);
    assert_eq!(layout.segments_for_tokens(0), 0);
    assert_eq!(layout.segments_for_tokens(KV_GROW_ROWS - 1), 1);
    assert_eq!(layout.segments_for_tokens(KV_GROW_ROWS), 1);
    assert_eq!(layout.segments_for_tokens(KV_GROW_ROWS + 1), 2);
    assert_eq!(layout.committed_bytes(KV_GROW_ROWS + 1), 2 * layout.committed_bytes(1));
}

#[test]
fn qwen38_layout_contains_only_twelve_attention_layers() {
    let layout = layout();
    assert_eq!(layout.planes.len(), 12 * 4);
    assert_eq!(
        layout.planes.iter().filter(|plane| plane.kind == PlaneKind::QsaBlock).count(),
        12
    );
    assert!(layout
        .planes
        .iter()
        .filter(|plane| plane.kind == PlaneKind::QsaBlock)
        .all(|plane| plane.rows_per_segment() == KV_GROW_ROWS / 4));
}

#[test]
fn q8_segment_bytes_use_a_local_quant_scale_plane() {
    let layout = layout();
    let k = layout.planes.iter().find(|plane| plane.kind == PlaneKind::K).copied().unwrap();
    assert_eq!(k.row_elems, N_KV * HEAD_DIM);
    assert_eq!(k.segment_bytes(), kv_fmt_bytes(KvFormat::block8(), KV_GROW_ROWS * k.row_elems));
}

#[test]
fn fully_committed_qwen38_planes_equal_the_existing_static_geometry() {
    let cfg = qwen38();
    let ctx = 262_144;
    let layout = layout();
    let static_bytes: u64 = cfg
        .layers
        .iter()
        .filter(|layer| !layer.recurrent)
        .map(|layer| {
            let k = kv_fmt_bytes(KvFormat::block8(), ctx * layer.k_row);
            let v = kv_fmt_bytes(KvFormat::block8(), ctx * layer.v_row);
            let raw = ctx * cfg.indexer_head_size * 2;
            let blocks = ctx / layer.compress_ratio * cfg.indexer_head_size * 4;
            (k + v + raw + blocks) as u64
        })
        .sum();
    assert_eq!(layout.committed_bytes(ctx), static_bytes);
}

#[test]
fn block_formats_round_up_to_whole_blocks() {
    assert_eq!(kv_fmt_bytes(KvFormat::block8(), 32), 34);
    assert_eq!(kv_fmt_bytes(KvFormat::block8(), 33), 68);
    assert_eq!(kv_fmt_bytes(KvFormat::block8(), 0), 0);
    assert_eq!(kv_fmt_bytes(KvFormat::half(), 5), 10);
    assert_eq!(kv_fmt_bytes(KvFormat::single(), 5), 20);
    assert_eq!(KvFormat::block8().dtype, DType::Q8_0);
}

#[test]
fn one_segment_of_each_plane_has_known_bytes() {
    let layout = layout();
    let k = layout.plane(3, PlaneKind::K).unwrap();
    assert_eq!(k.segment_elements(), 32_768 * 512);
    assert_eq!(k.segment_bytes(), 32_768 * 512 / 32 * 34);
    let raw = layout.plane(3, PlaneKind::QsaRaw).unwrap();
    assert_eq!(raw.segment_bytes(), 32_768 * 128 * 2);
    let block = layout.plane(3, PlaneKind::QsaBlock).unwrap();
    assert_eq!(block.rows_per_segment(), 8_192);
    assert_eq!(block.segment_bytes(), 8_192 * 128 * 4);
    let spec = block.spec(262_144);
    assert_eq!(spec.segment_elements, 8_192 * 128);
    assert_eq!(spec.segment_bytes, 8_192 * 128 * 4);
    assert_eq!(spec.logical_bytes, 65_536 * 128 * 4);
    assert!(layout.plane(0, PlaneKind::K).is_none());
    assert_eq!(
        layout.logical_bytes(),
        12 * (2 * 262_144 * 512 / 32 * 34 + 262_144 * 128 * 2 + 65_536 * 128 * 4)
    );
}

#[test]
fn other_models_have_no_lazy_layout() {
    let mut cfg = qwen38();
    cfg.qwen4exp = false;
    assert!(SegmentedKvLayout::for_qwen(&cfg, 1024, KvFormat::half(), KvFormat::half()).is_none());
    cfg.qwen35 = true;
    let layout =
        SegmentedKvLayout::for_qwen(&cfg, 1024, KvFormat::half(), KvFormat::half()).unwrap();
    assert_eq!(layout.planes.len(), 12 * 2);
}

#[test]
fn a_fresh_state_is_off_unless_it_is_enabled() {
    let off = SegmentedKvState::default();
    assert!(!off.enabled);
    assert_eq!(off.committed_tokens, 0);
    let on = SegmentedKvState::enabled();
    assert!(on.enabled);
    assert_eq!(on.committed_tokens, 0);
}
