//! Graphs: their tensors, their operations, and what is bound to them.

use infr_llama::attention_plan::{
    attn_mask, compressed_step, default_spans, sparse_step, spans_reach, AttnMask, Reach, SparseStep,
};
use infr_llama::bindings::{
    bind_decode_step, bind_parallel_layer_io, BatchIo, Binding, Bound, SharedIo, StepIo,
};
use infr_llama::config::{Config, DType, KvFormat, LayerConfig};
use infr_llama::device::DeviceBuffer;
use infr_llama::graph::{ones_elems, Graph, GraphModel, GraphStep, LayerTraits};
use infr_llama::graph_build::prefetch_hints;
use infr_llama::graph_dims::{GraphSizes, LayerSizes};
use infr_llama::graph_inputs::{
    declare_cache, CacheDecl, CacheExtent, DeclKind, LayerSpan, SideDecl, TensorDecl, WeightSpec,
};
use infr_llama::graph_mixers::CompressedLayout;
use infr_llama::graph_ops::{Activation, MoeRule, Op, Scalar, Sections, Theta, WeightRef};
use infr_llama::graph_scratch::{declare_scratch, Scratch, ScratchDecl, ScratchFlags};
use infr_llama::parallel_prefill::SequenceSpan;
use infr_llama::seam_kv::SeamKv;
use infr_llama::slot::{CacheBuffers, SegmentedKvState};
use infr_llama::step_bindings::{bind_chunk, ChunkIo};
use infr_llama::weight_handles::{declare_weights, FfnW, MixerW};
use infr_llama::weight_names::{LayerWeight, ModelWeight, WeightSlot};
use infr_llama::weight_plan::{upload_order, LayerShape, ModelShape};

fn buf(id: usize) -> DeviceBuffer {
    DeviceBuffer { id, len_bytes: 64 }
}

fn config(layers: usize) -> Config {
    Config {
        layers: vec![
            LayerConfig {
                recurrent: false,
                hybrid_attention: false,
                qwen35_attention: false,
                swa: false,
                ple: false,
                k_row: 4,
                v_row: 4,
                compress_ratio: 0,
            };
            layers
        ],
        qwen35: false,
        qwen4exp: false,
        bailingmoe3: false,
        deepseek4: false,
        n_embd: 8,
        n_embd_per_layer: 0,
        vocab: 10,
        hc_mult: 0,
        swa_window: 0,
        indexer_head_size: 0,
        indexer_top_k: 0,
        ple_ngram_size: 0,
        ple_heads_per_ngram: 0,
        ple_head_dim: 0,
        ple_conv_kernel: 0,
        ssm_d_conv: 1,
        recurrent_conv_channels: 0,
        recurrent_state_elems: 0,
    }
}

fn shape(layers: usize) -> ModelShape {
    ModelShape {
        layers: vec![
            LayerShape {
                hybrid_attention: false,
                mla: false,
                ple: false,
                moe: false,
                hash_moe: false,
                has_wv: true,
                fused_experts: false,
                has_probs_bias: false,
                compress_ratio: 0,
            };
            layers
        ],
        qwen35: false,
        qwen4exp: false,
        bailingmoe3: false,
        deepseek2: false,
        deepseek32: false,
        deepseek4: false,
        is_lite: false,
        gemma: false,
        gemma4: false,
        diffusion_gemma: false,
        qkv_bias: false,
        qk_norm: false,
        sub_norm: false,
        dual_moe: false,
        moe: false,
        shared_expert: false,
        shared_expert_gated: false,
        kq_l2norm: false,
        e2b: false,
        gpu_embed: true,
        gpu_ple: false,
        untied_lm: false,
        fuse_gu: false,
        fuse_qkv: false,
    }
}

fn sizes(layers: usize) -> GraphSizes {
    GraphSizes {
        batch: 1,
        start_pos: 0,
        logits_rows: 1,
        n_layer: layers,
        n_embd: 8,
        vocab: 10,
        n_head: 2,
        n_ff: 16,
        n_embd_per_layer: 0,
        max_head_dim: 4,
        max_n_kv: 1,
        head_dim: 4,
        rope_dim: 4,
        hc_mult: 0,
        hc_low_rank: 0,
        ple_ngram_size: 0,
        ple_heads_per_ngram: 0,
        ple_head_dim: 0,
        ple_conv_kernel: 0,
        conv_channels: 0,
        d_inner: 0,
        n_khead: 0,
        head_k: 0,
        n_vhead: 0,
        head_v: 0,
        d_conv: 0,
        kda_head_dim: 0,
        q_lora_rank: 0,
        o_lora_rank: 0,
        o_group_count: 0,
        indexer_n_head: 0,
        indexer_head_size: 0,
        indexer_top_k: 0,
        swa_window: 0,
        kv_lora_rank: 0,
        qk_rope_dim: 0,
        head_k_mla: 0,
        v_head_dim: 0,
        shexp_ff: 0,
        n_expert: 0,
        n_used: 0,
        n_ff_exp: 0,
        qsa_ratio: 1,
        index_row_bytes: 0,
        sample_top_k: 0,
        hc_iters: 0,
        moe: MoeRule {
            gating: 0,
            norm_w: false,
            weight_before: false,
            n_groups: 0,
            n_groups_used: 0,
        },
        sections: Sections { time: 0, height: 0, width: 0, last: 0 },
    }
}

fn cache() -> CacheDecl {
    CacheDecl {
        k: SideDecl { elems: 256, dtype: DType::F16 },
        v: SideDecl { elems: 256, dtype: DType::F16 },
        qsa_raw: None,
        qsa_block: None,
    }
}

/// A plain attention model with a feed-forward block in each layer.
fn model(layers: usize) -> GraphModel {
    let shape = shape(layers);
    let weights = upload_order(&shape).len();
    GraphModel {
        cfg: config(layers),
        shape,
        sizes: sizes(layers),
        layers: (0..layers)
            .map(|l| LayerTraits {
                sizes: LayerSizes { layer: l, head_dim: 4, n_kv: 1, n_ff: 16, rope_dim: 4 },
                swa: false,
                nope: false,
                kv_layer: l,
                layout: CompressedLayout {
                    raw_rows: 1,
                    comp_off: 0,
                    values_off: 0,
                    scores_off: 0,
                    index_off: 0,
                    index_values_off: 0,
                    index_scores_off: 0,
                },
                prompt_scale: false,
                canvas_scale: false,
            })
            .collect(),
        caches: vec![cache(); layers],
        weights: vec![WeightSpec { dtype: DType::F16, elems: 64 }; weights],
        rope_sections: [0, 0, 0, 0],
        softcap: false,
        attn_out_gate: false,
        delta_strided: false,
        delta_joined: false,
        expert_prefetch: false,
        max_ctx: 64,
        rope_freqs: None,
        yarn_ff: None,
        segmented: false,
    }
}

fn step(batch: usize, start_pos: usize, logits_rows: usize) -> GraphStep<'static> {
    GraphStep {
        batch,
        start_pos,
        logits_rows,
        canvas: false,
        device_canvas: None,
        scaled: false,
        h_tap: false,
        argmax: false,
        draw: false,
        use_ids: true,
        independent: false,
        spans: None,
        span: None,
        mrope: None,
        verify: false,
    }
}

/// Each operation reads only what is bound, or what an earlier one wrote.
fn flows(g: &Graph) -> bool {
    let inputs: Vec<usize> = (0..g.tensors.decls.len())
        .filter(|&t| g.tensors.decls[t].kind == DeclKind::Input)
        .chain(g.tensors.results.uniform)
        .collect();
    let mut known = inputs;
    for op in &g.ops {
        let (reads, writes) = operands(op);
        if !reads.iter().all(|t| known.contains(t)) {
            return false;
        }
        known.extend(writes);
    }
    [g.tensors.results.logits, g.tensors.results.token, g.tensors.results.rows]
        .iter()
        .flatten()
        .all(|t| known.contains(t))
}

/// What the operations of a plain attention model read and write.
fn operands(op: &Op) -> (Vec<usize>, Vec<usize>) {
    match *op {
        Op::EmbedGather { ids, dst, .. } => (vec![ids], vec![dst]),
        Op::RmsNorm { x, dst, .. } => (vec![x], vec![dst]),
        Op::Linear { x, dst, .. } => (vec![x], vec![dst]),
        Op::Rope { x, positions, dst, .. } => (vec![x, positions], vec![dst]),
        Op::WriteKv { src, cache, .. } => (vec![src], vec![cache]),
        Op::Attention { q, k_cache, v_cache, dst, .. } => (vec![q, k_cache, v_cache], vec![dst]),
        Op::Add { a, b, dst, .. } => (vec![a, b], vec![dst]),
        Op::GatedAct { gate, up, dst, .. } => (vec![gate, up], vec![dst]),
        Op::Copy { src, dst, .. } => (vec![src], vec![dst]),
        Op::Argmax { x, dst, .. } => (vec![x], vec![dst]),
        Op::Sample { x, u, dst, .. } => (vec![x, u], vec![dst]),
        _ => panic!("unexpected operation {op:?}"),
    }
}

#[test]
fn a_plain_layer_is_built_in_order() {
    let m = model(1);
    let mut s = step(1, 5, 1);
    s.argmax = true;
    let g = m.build(&s);
    let t = &g.tensors;
    assert_eq!(t.rows.tok_ids, Some(0));
    assert_eq!(t.rows.hidden, 1);
    assert_eq!(t.rows.positions, 2);
    assert_eq!(t.decls[1], TensorDecl { kind: DeclKind::Internal, elems: 8, dtype: DType::F32 });
    assert_eq!(t.handles.k_cache, vec![3]);
    assert_eq!(t.handles.v_cache, vec![4]);
    assert_eq!(t.handles.weights.len(), 11);
    assert_eq!(t.handles.weights[0], 5);
    assert_eq!(t.results.logits, Some(16));
    assert_eq!(t.base, 17);
    assert_eq!(t.handles.tok_id, t.results.token);
    let w = |slot| upload_order(&m.shape).iter().position(|s| *s == slot).unwrap();
    let layer = |weight| w(WeightSlot::Layer(0, weight));
    let c = &t.ids.core;
    let linear = |x, weight, dst, in_f, out_f| Op::Linear {
        x,
        weight: WeightRef::Uploaded(weight),
        dst,
        m: 1,
        in_f,
        out_f,
        w_off: 0,
    };
    let norm = |x, weight, dst| Op::RmsNorm { x, weight, dst, rows: 1, dim: 8 };
    assert_eq!(
        g.ops[0],
        Op::EmbedGather {
            ids: 0,
            table: w(WeightSlot::Model(ModelWeight::TiedLmHead)),
            dst: 1,
            rows: 1,
            ne: 8,
            scale: Scalar::One,
        }
    );
    assert_eq!(g.ops[1], norm(1, layer(LayerWeight::AttnNorm), c.hn));
    assert_eq!(g.ops[2], linear(c.hn, layer(LayerWeight::Q), c.q, 8, 8));
    assert_eq!(g.ops[3], linear(c.hn, layer(LayerWeight::K), c.k, 8, 4));
    let attention = g.ops.iter().position(|op| matches!(op, Op::Attention { .. })).unwrap();
    assert_eq!(
        g.ops[attention],
        Op::Attention {
            q: c.q_half,
            k_cache: 3,
            v_cache: 4,
            dst: c.attn,
            rows: 1,
            kv_len: 6,
            n_head: 2,
            n_kv: 1,
            head_dim: 4,
            scale: Scalar::InvSqrt(4),
            mask: AttnMask::Causal,
            pos: 5,
            sinks: None,
        }
    );
    assert_eq!(g.ops[attention + 1], linear(c.attn, layer(LayerWeight::AttnOutput), c.sub, 8, 8));
    let last = g.ops.len() - 1;
    assert!(matches!(g.ops[last], Op::Argmax { x: 16, rows: 1, .. }));
    assert_eq!(
        g.ops[last - 1],
        linear(c.hn, w(WeightSlot::Model(ModelWeight::TiedLmHead)), 16, 8, 10)
    );
    assert_eq!(
        g.ops[last - 2],
        norm(1, w(WeightSlot::Model(ModelWeight::OutputNorm)), c.hn)
    );
    assert!(g.ops.iter().any(|op| matches!(op, Op::GatedAct { act: Activation::Silu, .. })));
    let turned = g.ops.iter().filter(|op| matches!(op, Op::Rope { theta: Theta::Layer(0), .. }));
    assert_eq!(turned.count(), 2);
    assert_eq!(g.sources, vec![None]);
    assert!(!g.no_replay);
}

#[test]
fn graphs_read_only_what_is_there() {
    let m = model(3);
    let mut drawn = step(1, 0, 1);
    drawn.draw = true;
    drawn.h_tap = true;
    let g = m.build(&drawn);
    assert!(g.tensors.results.uniform.is_some());
    assert!(flows(&g));
    let g = m.build(&step(4, 8, 1));
    assert!(g.ops.iter().any(|op| matches!(op, Op::Copy { src_off: 24, .. })));
    assert!(flows(&g));
    let mut headless = step(4, 8, 0);
    headless.span = Some(LayerSpan { first: 1, end: 2 });
    let g = m.build(&headless);
    assert_eq!(g.layers.len(), 1);
    assert_eq!(g.tensors.handles.logits, None);
    assert_eq!(g.tensors.decls[1].kind, DeclKind::Input);
    assert!(!g.ops.iter().any(|op| matches!(op, Op::EmbedGather { .. })));
    assert!(flows(&g));
}

#[test]
fn independent_rows_reach_their_own_positions() {
    let m = model(1);
    let mut s = step(3, 7, 3);
    s.independent = true;
    let g = m.build(&s);
    assert_eq!(g.tensors.spans.len(), 3);
    assert_eq!(g.tensors.reach, Reach { visible: 8, start: 7 });
    let spans = vec![
        SequenceSpan { row_start: 0, rows: 2, start_pos: 7 },
        SequenceSpan { row_start: 2, rows: 1, start_pos: 40 },
    ];
    s.spans = Some(&spans);
    let g = m.build(&s);
    assert_eq!(g.tensors.reach, Reach { visible: 41, start: 7 });
}

#[test]
fn weights_are_declared_in_the_order_of_their_upload() {
    let mut m = shape(2);
    m.qk_norm = true;
    m.fuse_qkv = true;
    m.moe = true;
    m.layers[1].moe = true;
    m.layers[1].fused_experts = true;
    m.untied_lm = true;
    let w = declare_weights(&m);
    assert_eq!(w.declared, upload_order(&m));
    let MixerW::Attn(a) = w.layers[0].mixer else { panic!("an attention mixer") };
    assert_eq!(a.wk, a.wq);
    assert_eq!(w.declared[a.wq], WeightSlot::Layer(0, LayerWeight::QkvFused));
    assert_eq!(w.declared[a.q_norm.unwrap()], WeightSlot::Layer(0, LayerWeight::QNorm));
    let FfnW::Moe(bank) = w.layers[1].ffn else { panic!("a routed bank") };
    assert_eq!(bank.up_exps, bank.gate_exps);
    assert_eq!(w.declared[bank.gate_exps], WeightSlot::Layer(1, LayerWeight::GateUpExps));
    assert_eq!(w.declared[w.head.embd.unwrap()], WeightSlot::Model(ModelWeight::TokenEmbd));
    assert_eq!(
        LayerWeight::QkvFused.names(),
        vec!["attn_q.weight", "attn_k.weight", "attn_v.weight"]
    );
    assert_eq!(ModelWeight::TiedLmHead.names(), vec!["token_embd.weight"]);
    let mut d = sizes(2);
    d.start_pos = 9;
    d.n_expert = 6;
    let mut dims = d.dims();
    let sources = vec![Some(4), None];
    m.layers[1].hybrid_attention = true;
    let hints = prefetch_hints(true, &dims, &w.layers, &m.layers, 0, &sources);
    assert_eq!(hints.len(), 1);
    assert_eq!((hints[0].source_op, hints[0].target_layer, hints[0].context_tokens), (4, 1, 10));
    assert!(hints[0].fused_gate_up && hints[0].target_attention);
    assert_eq!(hints[0].n_expert, 6);
    assert!(prefetch_hints(false, &dims, &w.layers, &m.layers, 0, &sources).is_empty());
    dims.b.batch = 2;
    assert!(prefetch_hints(true, &dims, &w.layers, &m.layers, 0, &sources).is_empty());
}

#[test]
fn caches_are_declared_as_they_are_allocated() {
    let mut cfg = config(2);
    cfg.ssm_d_conv = 4;
    cfg.recurrent_conv_channels = 6;
    cfg.recurrent_state_elems = 10;
    cfg.indexer_head_size = 16;
    cfg.layers[0].recurrent = true;
    cfg.layers[1].compress_ratio = 4;
    let extent = CacheExtent {
        k_elems: 100,
        v_elems: 200,
        raw_bytes: 10,
        state_bytes: 12,
        keeps_raw: true,
        keeps_blocks: true,
    };
    let decl = |l| declare_cache(&cfg, l, extent, DType::Q8_0, DType::F16, 64);
    assert_eq!(decl(0).k, SideDecl { elems: 18, dtype: DType::F32 });
    assert_eq!(decl(0).v, SideDecl { elems: 10, dtype: DType::F32 });
    assert_eq!(decl(0).qsa_raw, None);
    assert_eq!(decl(1).k, SideDecl { elems: 100, dtype: DType::Q8_0 });
    assert_eq!(decl(1).qsa_raw, Some(1_024));
    assert_eq!(decl(1).qsa_block, Some(256));
    let mut packed = config(1);
    packed.deepseek4 = true;
    let decl = declare_cache(&packed, 0, extent, DType::F16, DType::F16, 64);
    assert_eq!(decl.k, SideDecl { elems: 3, dtype: DType::U32 });
    assert_eq!(decl.v, SideDecl { elems: 3, dtype: DType::U32 });
}

fn caches(k: &[usize], v: &[usize]) -> CacheBuffers {
    CacheBuffers {
        k: k.iter().map(|&id| buf(id)).collect(),
        v: v.iter().map(|&id| buf(id)).collect(),
        qsa_raw: vec![None; k.len()],
        qsa_block: vec![None; k.len()],
    }
}

fn bound_to(list: &[Binding], id: usize) -> Vec<usize> {
    match list.iter().rev().find(|b| b.id == id).map(|b| &b.to) {
        Some(Bound::One(buffer)) => vec![buffer.id],
        Some(Bound::Rows(rows)) => rows.iter().map(|b| b.id).collect(),
        None => Vec::new(),
    }
}

fn shared_io(weights: usize) -> SharedIo {
    SharedIo {
        rope_freqs: None,
        yarn_ff: None,
        mrope_history: None,
        weights: (0..weights).map(|i| buf(1_000 + i)).collect(),
        qwen_wide: None,
        ple_embd: None,
        ple_state: None,
    }
}

#[test]
fn a_decode_step_is_bound_whole() {
    let m = model(2);
    let mut s = step(1, 0, 1);
    s.argmax = true;
    let g = m.build(&s);
    let h = &g.tensors.handles;
    let io = StepIo {
        ids: buf(1),
        hidden: buf(2),
        positions: buf(3),
        ipl: None,
        logits: buf(4),
        token: buf(5),
        uniform: buf(6),
        h_tap: None,
    };
    let list = bind_decode_step(
        h,
        2,
        &io,
        &shared_io(h.weights.len()),
        &caches(&[10, 11], &[20, 21]),
        true,
    );
    assert_eq!(bound_to(&list, h.tok_ids.unwrap()), vec![1]);
    assert_eq!(bound_to(&list, h.hidden), Vec::<usize>::new());
    assert_eq!(bound_to(&list, h.positions), vec![3]);
    assert_eq!(bound_to(&list, h.logits.unwrap()), vec![4]);
    assert_eq!(bound_to(&list, h.tok_id.unwrap()), vec![5]);
    assert_eq!(bound_to(&list, h.k_cache[1]), vec![11]);
    assert_eq!(bound_to(&list, h.v_cache[0]), vec![20]);
    for (i, &weight) in h.weights.iter().enumerate() {
        assert_eq!(bound_to(&list, weight), vec![1_000 + i]);
    }
}

fn lane(k: &[usize], v: &[usize]) -> SeamKv {
    let half = KvFormat { dtype: DType::F16, block_elems: 1, block_bytes: 2 };
    SeamKv {
        caches: caches(k, v),
        segmented_kv: SegmentedKvState { enabled: false, committed_tokens: 0 },
        k_fmt: half,
        v_fmt: half,
        hidden_buf: buf(90),
        pos_buf: buf(91),
        ipl_buf: None,
        logits_buf: buf(92),
        qwen_wide_buf: None,
        ple_embd_buf: None,
        ple_state_buf: None,
        max_ctx: 64,
        kv_ring: false,
        cached: Vec::new(),
        sc_ping_write: 0,
        mtp_delta_ckpt: None,
        turn_recurrent_ckpt: None,
    }
}

#[test]
fn lanes_are_bound_to_their_own_caches() {
    let m = model(2);
    let mut s = step(3, 0, 3);
    s.independent = true;
    let g = m.build(&s);
    let h = &g.tensors.handles;
    let io = shared_io(h.weights.len());
    let own = caches(&[10, 11], &[20, 21]);
    let peers = vec![lane(&[30, 31], &[40, 41]), lane(&[50, 51], &[60, 61])];
    let batch = BatchIo { wide: buf(7), ple_embd: None };
    let mut list = Vec::new();
    bind_parallel_layer_io(&mut list, h, 2, &io, &own, &batch, &peers, None, true);
    assert_eq!(bound_to(&list, h.k_cache[0]), vec![10, 30, 50]);
    assert_eq!(bound_to(&list, h.v_cache[1]), vec![21, 41, 61]);
    let mut list = Vec::new();
    let some = vec![2];
    bind_parallel_layer_io(&mut list, h, 2, &io, &own, &batch, &peers, Some(&some), false);
    assert_eq!(bound_to(&list, h.k_cache[0]), vec![50]);
    let mut list = Vec::new();
    let some = vec![0, 2];
    bind_parallel_layer_io(&mut list, h, 2, &io, &own, &batch, &peers, Some(&some), true);
    assert_eq!(bound_to(&list, h.v_cache[0]), vec![20, 60]);
}

#[test]
fn masks_follow_the_layer() {
    assert_eq!(attn_mask(false, false, 4, 9), AttnMask::Causal);
    assert_eq!(attn_mask(false, true, 4, 9), AttnMask::SlidingWindow(4));
    assert_eq!(attn_mask(true, false, 4, 9), AttnMask::Canvas { lo: 0 });
    assert_eq!(attn_mask(true, true, 4, 9), AttnMask::Canvas { lo: 6 });
    assert_eq!(attn_mask(true, true, 20, 9), AttnMask::Canvas { lo: 0 });
}

#[test]
fn a_batch_reaches_from_its_first_to_its_last_position() {
    let spans = default_spans(2, 5);
    assert_eq!(spans[1], SequenceSpan { row_start: 1, rows: 1, start_pos: 5 });
    assert_eq!(spans_reach(&spans, 2, 5), Reach { visible: 6, start: 5 });
    assert_eq!(spans_reach(&Vec::new(), 2, 5), Reach { visible: 7, start: 5 });
}

#[test]
fn blocks_are_compressed_and_selected() {
    let step = compressed_step(7, 4, 1, 16);
    assert_eq!(step.raw_row, 7);
    assert_eq!(step.block_row, Some(1));
    assert_eq!((step.visible, step.selected, step.scored), (2, 1, true));
    assert_eq!(step.gathered, 9);
    let step = compressed_step(18, 0, 8, 16);
    assert_eq!((step.raw_row, step.block_row, step.visible), (2, None, 19));
    assert_eq!(step.selected, 0);
    assert_eq!(step.gathered, 16);
}

#[test]
fn short_contexts_are_attended_densely() {
    let reach = |visible, start| Reach { visible, start };
    assert_eq!(
        sparse_step(false, 1, reach(100, 99), 99, 8, 4),
        SparseStep::Dense { len: 100, pos: 99 }
    );
    assert_eq!(
        sparse_step(true, 1, reach(11, 10), 10, 8, 4),
        SparseStep::Dense { len: 11, pos: 10 }
    );
    assert!(matches!(
        sparse_step(true, 4, reach(100, 96), 96, 8, 4),
        SparseStep::Batched { selected: 2, .. }
    ));
    assert!(!matches!(
        sparse_step(true, 1, reach(12, 11), 11, 8, 4),
        SparseStep::Dense { .. } | SparseStep::Batched { .. }
    ));
}

#[test]
fn logits_are_made_of_the_last_rows() {
    let m = model(1);
    let g = m.build(&step(5, 0, 2));
    let last = g.tensors.ids.last.unwrap();
    assert!(g.ops.iter().any(|op| matches!(
        *op,
        Op::Copy { src_off: 24, dst, rows: 2, n: 8, .. } if dst == last
    )));
    assert!(matches!(g.ops[g.ops.len() - 1], Op::Linear { x, m: 2, .. } if x == last));
    assert!(flows(&g));
    assert_eq!(m.build(&step(5, 0, 5)).tensors.ids.last, None);
}

#[test]
fn vectors_of_ones_are_as_wide_as_what_they_norm() {
    let mut s = sizes(1);
    s.hc_mult = 3;
    assert_eq!(ones_elems(ModelWeight::VOnes, &s), Some(4));
    assert_eq!(ones_elems(ModelWeight::HcOnes, &s), Some(24));
    assert_eq!(ones_elems(ModelWeight::RouterOnes, &s), Some(8));
    assert_eq!(ones_elems(ModelWeight::LmHead, &s), None);
}

#[test]
fn every_input_of_a_graph_is_bound() {
    let m = model(2);
    let own = caches(&[10, 11], &[20, 21]);
    let mut s = step(1, 3, 1);
    s.draw = true;
    let g = m.build(&s);
    let h = &g.tensors.handles;
    let io = StepIo {
        ids: buf(1),
        hidden: buf(2),
        positions: buf(3),
        ipl: None,
        logits: buf(4),
        token: buf(5),
        uniform: buf(6),
        h_tap: None,
    };
    let list = bind_decode_step(h, 2, &io, &shared_io(h.weights.len()), &own, true);
    let inputs = |g: &Graph| -> Vec<usize> {
        (0..g.tensors.decls.len())
            .filter(|&t| g.tensors.decls[t].kind == DeclKind::Input)
            .chain(g.tensors.results.uniform)
            .collect()
    };
    assert!(inputs(&g).iter().all(|&t| !bound_to(&list, t).is_empty()));
    let mut s = step(4, 0, 0);
    s.span = Some(LayerSpan { first: 0, end: 1 });
    let g = m.build(&s);
    let h = &g.tensors.handles;
    let chunk = ChunkIo {
        input: buf(1),
        resid: Some(buf(2)),
        pos: buf(3),
        pos4: None,
        ipl: None,
        wide: None,
        ple_embd: None,
    };
    let list = bind_chunk(h, 2, &chunk, &shared_io(h.weights.len()), &own);
    assert!(inputs(&g).iter().all(|&t| !bound_to(&list, t).is_empty()));
    assert_eq!(bound_to(&list, h.hidden), vec![2]);
}

#[test]
fn rotation_is_split_as_the_model_says() {
    let mut m = model(1);
    m.shape.qk_norm = true;
    m.weights = vec![WeightSpec { dtype: DType::F16, elems: 64 }; upload_order(&m.shape).len()];
    m.rope_sections = [1, 1, 0, 0];
    let table: Vec<i32> = (0..256).map(|i| if i % 4 == 0 { i / 4 } else { 0 }).collect();
    let mut s = step(1, 5, 1);
    s.mrope = Some(&table);
    let g = m.build(&s);
    let sections: Vec<Sections> = g
        .ops
        .iter()
        .filter_map(|op| match op {
            Op::QkNormMrope { sections, .. } => Some(*sections),
            _ => None,
        })
        .collect();
    assert_eq!(sections, vec![Sections { time: 1, height: 1, width: 0, last: 0 }; 2]);
}

#[test]
fn a_bank_is_routed_by_the_models_rule() {
    let mut m = model(2);
    m.shape.moe = true;
    m.shape.layers[1].moe = true;
    m.weights = vec![WeightSpec { dtype: DType::F16, elems: 64 }; upload_order(&m.shape).len()];
    m.sizes.n_expert = 4;
    m.sizes.n_used = 2;
    m.sizes.n_ff_exp = 8;
    m.sizes.moe = MoeRule {
        gating: 2,
        norm_w: true,
        weight_before: false,
        n_groups: 2,
        n_groups_used: 1,
    };
    let g = m.build(&step(1, 0, 1));
    let banks: Vec<(MoeRule, usize, usize, Option<usize>)> = g
        .ops
        .iter()
        .filter_map(|op| match op {
            Op::MoeFfn { rule, n_expert, n_used, expert_ids, .. } => {
                Some((*rule, *n_expert, *n_used, *expert_ids))
            }
            _ => None,
        })
        .collect();
    assert_eq!(banks, vec![(m.sizes.moe, 4, 2, None)]);
    let bare = m.sizes.moe.without_groups();
    assert_eq!((bare.n_groups, bare.n_groups_used), (0, 0));
    assert_eq!((bare.gating, bare.norm_w), (2, true));
}

/// Every named scratch tensor, with its number.
fn numbers(s: &Scratch) -> Vec<(&'static str, usize)> {
    let c = &s.core;
    let x = &s.compressed;
    let h = &s.streams;
    let e = &s.experts;
    let d = &s.delta;
    let w = &s.qwen;
    let mut all = vec![
        ("hn", c.hn),
        ("q", c.q),
        ("k", c.k),
        ("v", c.v),
        ("q_half", c.q_half),
        ("k_half", c.k_half),
        ("attn", c.attn),
        ("act", c.act),
        ("sub", c.sub),
        ("gated", c.gated),
        ("picked", c.picked),
        ("projected", c.projected),
        ("low", x.low),
        ("kv", x.kv),
        ("rope_q", x.rope_q),
        ("rope_kv", x.rope_kv),
        ("group_in", x.group_in),
        ("group_out", x.group_out),
        ("groups", x.groups),
        ("values", x.values),
        ("scores", x.scores),
        ("row", x.row),
        ("index_values", x.index_values),
        ("index_scores", x.index_scores),
        ("index_key", x.index_key),
        ("index_q", x.index_q),
        ("index_packed", x.index_packed),
        ("index_weights", x.index_weights),
        ("index_top", x.index_top),
        ("gather", x.gather),
        ("streams even", h.even),
        ("streams odd", h.odd),
        ("streams normed", h.normed),
        ("streams mixes", h.mixes),
        ("streams head_mixes", h.head_mixes),
        ("streams pre", h.pre),
        ("streams post", h.post),
        ("streams comb", h.comb),
        ("dense_out", e.dense_out),
        ("router_in", e.router_in),
        ("bank_in", e.bank_in),
        ("bank_out", e.bank_out),
        ("shared_gate", e.shared_gate),
        ("delta qkv", d.qkv),
        ("delta z", d.z),
        ("delta conv", d.conv),
        ("delta q", d.q),
        ("delta k", d.k),
        ("delta v", d.v),
        ("delta beta", d.beta),
        ("delta alpha", d.alpha),
        ("delta out", d.out),
        ("delta forget", d.forget),
        ("delta head_gate", d.head_gate),
        ("qwen alt", w.alt),
        ("qwen normed", w.normed),
        ("qwen low", w.low),
        ("qwen mix", w.mix),
        ("qwen inject", w.inject),
        ("qwen key", w.key),
        ("qwen query", w.query),
        ("qwen value", w.value),
        ("qwen conv", w.conv),
        ("gate left", s.gates.left),
    ];
    if s.gates.right != s.gates.joined {
        all.push(("gate right", s.gates.right));
    }
    if let Some(p) = &s.sparse {
        all.extend([("sparse raw_k", p.raw_k), ("sparse q", p.q), ("sparse q_half", p.q_half)]);
        all.extend([("indices", p.indices), ("gather_k", p.gather_k), ("gather_v", p.gather_v)]);
    }
    if let Some(p) = &s.latent {
        all.extend([("latent q", p.q), ("latent key", p.key)]);
        all.extend([("latent cmpr", p.cmpr), ("latent rope", p.rope)]);
    }
    if let Some(p) = &s.token_index {
        all.extend([("index q", p.q), ("index k", p.k), ("index weights", p.weights)]);
        all.extend([("index top", p.top), ("index mask", p.mask)]);
    }
    if let Some(p) = &s.per_layer {
        all.extend([("acc", p.acc), ("layer normed", p.normed), ("layer inputs", p.inputs)]);
    }
    if let Some(p) = &s.condition {
        all.extend([("probs", p.probs), ("soft", p.soft), ("canvas normed", p.normed)]);
        all.extend([("canvas left", p.left), ("canvas right", p.right)]);
        all.extend([("canvas act", p.act), ("signal", p.signal)]);
    }
    all.extend(s.qkv.map(|id| ("qkv", id)));
    all.extend(s.last.map(|id| ("last", id)));
    all.extend(s.selected.iter().flatten().map(|&id| ("selected", id)));
    all
}

#[test]
fn every_scratch_tensor_has_a_number_of_its_own() {
    let mut g = sizes(3);
    g.batch = 4;
    let d = g.dims();
    for bits in 0..256u32 {
        let on = |bit: u32| bits & (1 << bit) != 0;
        let flags = ScratchFlags {
            qwen4exp: on(0),
            latent: on(1),
            deepseek32: on(2),
            e2b: on(3),
            conditioned: on(4),
            fuse_qkv: on(5),
            fuse_gu: on(6),
            tail_only: on(7),
        };
        let (decls, made) = declare_scratch(20, &d, &flags, &vec![true, false, true]);
        let mut ids: Vec<usize> = numbers(&made).iter().map(|&(_, id)| id).collect();
        // One more is declared and never named: the room for gates by themselves.
        assert_eq!(ids.len() + 1, decls.len());
        ids.sort_unstable();
        ids.dedup();
        assert_eq!(ids.len() + 1, decls.len());
        assert!(ids.iter().all(|&id| 20 <= id && id < 20 + decls.len()));
        assert_eq!(made.gates.joined, made.gates.left);
        assert_eq!(made.gates.right == made.gates.left, flags.fuse_gu);
        let c = &made.core;
        assert_eq!(
            (c.hn, c.q, c.k, c.v, c.q_half, c.k_half, c.attn),
            (20, 21, 22, 23, 24, 25, 26)
        );
    }
}

#[test]
fn queries_keys_values_and_outputs_stand_apart() {
    let g = model(1).build(&step(2, 0, 1));
    let c = &g.tensors.ids.core;
    let ids = [c.hn, c.q, c.k, c.v, c.q_half, c.k_half, c.attn];
    assert!((1..ids.len()).all(|i| ids[i] == ids[0] + i));
    assert_eq!(c.hn, g.tensors.base);
    let inputs = g.tensors.decls.len();
    assert_eq!(g.tensors.results.logits, Some(inputs));
    assert_eq!(g.tensors.base, inputs + 1);
    let rows = &g.tensors.rows;
    assert_eq!((rows.tok_ids, rows.hidden, rows.positions), (Some(0), 1, 2));
    assert_eq!((rows.positions4, rows.qwen_wide, rows.ple_state), (None, None, None));
}

#[test]
fn scratch_is_as_large_as_its_batch() {
    let mut g = sizes(3);
    g.batch = 4;
    g.n_used = 2;
    let flags = ScratchFlags {
        qwen4exp: false,
        latent: false,
        deepseek32: false,
        e2b: false,
        conditioned: false,
        fuse_qkv: true,
        fuse_gu: false,
        tail_only: true,
    };
    let (plain, made) = declare_scratch(10, &g.dims(), &flags, &vec![false; 3]);
    let f32_of = |rows: usize, width: usize| ScratchDecl { rows, width, dtype: DType::F32 };
    assert_eq!(plain[made.core.hn - 10], f32_of(4, 8));
    assert_eq!(plain[made.core.q - 10], f32_of(4, 8));
    assert_eq!(plain[made.core.k - 10], f32_of(4, 4));
    assert_eq!(made.selected, vec![None; 3]);
    let (routed, picked) = declare_scratch(10, &g.dims(), &flags, &vec![false, true, false]);
    assert_eq!(routed.len(), plain.len() + 1);
    assert_eq!(picked.selected[0], None);
    assert_eq!(picked.selected[2], None);
    let at = picked.selected[1].unwrap();
    assert_eq!(routed[at - 10], ScratchDecl { rows: 4, width: 2, dtype: DType::I32 });
    assert_eq!(picked.last, Some(at + 1));
}
