//! Which of several ways a session or a step takes.

use infr_llama::batch_io::ple_values;
use infr_llama::canvas::{check_draws, row_positions, CanvasKey, CanvasRequest, CanvasState};
use infr_llama::config::{Config, DType};
use infr_llama::device::{AllocRequest, BufferUsage};
use infr_llama::error::Error;
use infr_llama::gates::{
    batch_sample_path, can_chain, place_session, verify_ids_on_device, BackendKind,
    BatchSampleRequest, Dsv4Shape, KvFormats, KvRequest, LaneSampling, PlacementRequest,
    ReplayRequest, SamplePath, SampleRequest,
};
use infr_llama::speculative::{
    check_batched_ple, check_parallel_ple, check_step_ple, VerifyRequest,
};
use infr_llama::tensor_scan::TensorInfo;

fn kv(backend: BackendKind) -> KvRequest {
    KvRequest {
        backend,
        type_k: None,
        type_v: None,
        force_q8: false,
        auto_q8: false,
        rows_aligned: true,
        head_dims: vec![128, 256],
    }
}

#[test]
fn cache_formats_fall_back_to_what_is_possible() {
    let cpu = kv(BackendKind::Cpu);
    assert_eq!(cpu.parse_kv_fmt(None), DType::F16);
    assert_eq!(cpu.parse_kv_fmt(Some(DType::Turbo3)), DType::Turbo3);
    assert_eq!(cpu.parse_kv_fmt(Some(DType::Q4_0)), DType::Q4_0);
    assert_eq!(cpu.parse_kv_fmt(Some(DType::I32)), DType::F16);
    let mut odd = kv(BackendKind::Vulkan);
    odd.head_dims = vec![96];
    odd.rows_aligned = false;
    assert_eq!(odd.parse_kv_fmt(Some(DType::Turbo2)), DType::F16);
    assert_eq!(odd.parse_kv_fmt(Some(DType::Q8_0)), DType::F16);
    assert_eq!(odd.parse_kv_fmt(Some(DType::Bf16)), DType::Bf16);
    let mut auto = kv(BackendKind::Vulkan);
    auto.auto_q8 = true;
    assert_eq!(auto.parse_kv_fmt(None), DType::Q8_0);
    assert_eq!(auto.parse_kv_fmt(Some(DType::F16)), DType::F16);
    auto.backend = BackendKind::Cpu;
    assert_eq!(auto.parse_kv_fmt(None), DType::F16);
    auto.force_q8 = true;
    assert_eq!(auto.parse_kv_fmt(None), DType::Q8_0);
    auto.backend = BackendKind::Other;
    assert_eq!(auto.kv_formats(), KvFormats { k: DType::F16, v: DType::F16 });
}

#[test]
fn native_formats_are_coupled_on_one_backend() {
    let mut mixed = kv(BackendKind::Metal);
    mixed.type_k = Some(DType::Q8_0);
    assert_eq!(mixed.kv_formats(), KvFormats { k: DType::F16, v: DType::F16 });
    mixed.type_v = Some(DType::Q8_0);
    assert_eq!(mixed.kv_formats(), KvFormats { k: DType::Q8_0, v: DType::Q8_0 });
    mixed.type_k = Some(DType::Bf16);
    mixed.type_v = Some(DType::Q4_0);
    assert_eq!(mixed.kv_formats(), KvFormats { k: DType::Bf16, v: DType::Q4_0 });
    mixed.backend = BackendKind::Vulkan;
    mixed.type_k = Some(DType::Q8_0);
    assert_eq!(mixed.kv_formats(), KvFormats { k: DType::Q8_0, v: DType::Q4_0 });
}

#[test]
fn some_kernels_read_two_formats_only() {
    let odd = KvFormats { k: DType::Bf16, v: DType::Q8_0 };
    assert!(odd.check(false).is_ok());
    assert_eq!(
        odd.check(true).unwrap_err().message(),
        "qwen4exp supports F16 and Q8_0 KV; got k=Bf16, v=Q8_0"
    );
    assert!(!odd.ring(true, true));
    let fine = KvFormats { k: DType::F16, v: DType::Q8_0 };
    assert!(fine.check(true).is_ok());
    assert!(fine.ring(true, true));
    assert!(!fine.ring(false, true));
    assert!(!fine.ring(true, false));
}

#[test]
fn a_deferred_session_keeps_its_context_and_brings_its_siblings() {
    let r = PlacementRequest {
        deferred: true,
        segments_available: false,
        segments_wanted: true,
        slots: 4,
        checkpoint: true,
        recurrent: true,
    };
    let p = place_session(&r);
    assert!(p.segmented && p.keep_context && p.checkpoint);
    assert_eq!(p.siblings, 3);
    let p = place_session(&PlacementRequest { deferred: false, slots: 4, ..r });
    assert!(!p.segmented && !p.keep_context);
    assert_eq!(p.siblings, 0);
    let p = place_session(&PlacementRequest { slots: 0, recurrent: false, ..r });
    assert_eq!(p.siblings, 0);
    assert!(!p.checkpoint);
}

const GREEDY: SampleRequest = SampleRequest {
    warm: false,
    top_k: 40,
    constrained: false,
    penalized: false,
    argmax_option: true,
    draw_option: true,
    device_draws: true,
    max_candidates: 64,
};

#[test]
fn tokens_are_chosen_on_the_device_where_nothing_masks_them() {
    assert_eq!(GREEDY.path(), SamplePath::DeviceArgmax);
    let warm = SampleRequest { warm: true, ..GREEDY };
    assert_eq!(warm.path(), SamplePath::DeviceDraw);
    assert_eq!(SampleRequest { top_k: 1, ..warm }.path(), SamplePath::DeviceArgmax);
    assert_eq!(SampleRequest { top_k: 0, ..warm }.path(), SamplePath::Host);
    assert_eq!(SampleRequest { top_k: 65, ..warm }.path(), SamplePath::Host);
    assert_eq!(SampleRequest { constrained: true, ..GREEDY }.path(), SamplePath::Host);
    assert_eq!(SampleRequest { penalized: true, ..warm }.path(), SamplePath::Host);
    assert_eq!(SampleRequest { argmax_option: false, ..GREEDY }.path(), SamplePath::Host);
    assert_eq!(SampleRequest { device_draws: false, ..warm }.path(), SamplePath::Host);
}

#[test]
fn a_cohort_samples_on_the_device_only_together() {
    let lane = |argmax, draw| LaneSampling { argmax, draw };
    let request = |lanes: Vec<LaneSampling>| BatchSampleRequest {
        lanes,
        device_argmax_rows: true,
        device_draw_rows: false,
        device_draws: true,
        argmax_option: true,
        draw_option: true,
        top_k: 40,
        max_candidates: 64,
    };
    let p = batch_sample_path(&request(vec![lane(true, false), lane(true, true)]));
    assert!(p.argmax && !p.draw);
    let p = batch_sample_path(&request(vec![lane(false, true)]));
    assert!(!p.argmax && p.draw);
    let p = batch_sample_path(&request(vec![lane(false, true), lane(false, true)]));
    assert!(!p.draw);
    let p = batch_sample_path(&request(vec![]));
    assert!(!p.argmax && !p.draw);
    assert!(verify_ids_on_device(true, false, true, true, true));
    assert!(!verify_ids_on_device(true, true, true, true, true));
}

fn replay() -> ReplayRequest {
    ReplayRequest {
        backend_replays: true,
        experts_paged: false,
        layers_streamed: false,
        segmented: false,
        replay_disabled: false,
        diffusion_gemma: false,
        deepseek2: false,
        bailingmoe3: false,
        deepseek4: false,
        qwen4exp: false,
        qk_norm: false,
        rope_freqs: false,
        formats: KvFormats { k: DType::F16, v: DType::F16 },
        k_static: false,
        v_static: false,
        head_dims: vec![64, 128],
        h_tap: false,
    }
}

#[test]
fn a_step_is_replayed_only_where_the_backend_will() {
    assert!(replay().replays());
    let with = |f: &dyn Fn(&mut ReplayRequest)| {
        let mut r = replay();
        f(&mut r);
        r.replays()
    };
    assert!(!with(&|r| r.deepseek2 = true));
    assert!(!with(&|r| r.deepseek4 = true));
    assert!(!with(&|r| r.segmented = true));
    assert!(!with(&|r| r.h_tap = true));
    assert!(!with(&|r| r.rope_freqs = true));
    assert!(with(&|r| {
        r.rope_freqs = true;
        r.qk_norm = true;
    }));
    assert!(!with(&|r| r.k_static = true));
    assert!(with(&|r| {
        r.k_static = true;
        r.v_static = true;
        r.formats = KvFormats { k: DType::Q8_0, v: DType::Q8_0 };
    }));
    assert!(!with(&|r| r.head_dims = vec![64, 516]));
    assert!(!with(&|r| r.head_dims = vec![66]));
}

#[test]
fn tokens_are_chained_only_without_host_work() {
    assert!(can_chain(true, SamplePath::DeviceDraw, true, 8, false, true));
    assert!(!can_chain(true, SamplePath::Host, true, 8, false, true));
    assert!(!can_chain(true, SamplePath::DeviceArgmax, true, 1, false, true));
    assert!(!can_chain(true, SamplePath::DeviceArgmax, true, 8, true, true));
}

fn dsv4() -> Dsv4Shape {
    Dsv4Shape {
        head_dim: 512,
        indexer_head_size: 128,
        n_head: 4,
        n_used: 2,
        vocab: 10,
        hc_mult: 4,
        hc_sinkhorn_iters: 3,
        rope_dim: 64,
        o_group_count: 2,
        max_streams: 8,
        hash_moe: vec![true, false],
        moe: vec![true, true],
    }
}

#[test]
fn a_shape_is_checked_before_its_graph_is_built() {
    let table = |numel| {
        vec![TensorInfo {
            name: "blk.0.ffn_gate_tid2eid.weight".to_string(),
            dtype: DType::I32,
            numel,
        }]
    };
    assert!(dsv4().check(&table(20)).is_ok());
    let with = |f: &dyn Fn(&mut Dsv4Shape)| {
        let mut s = dsv4();
        f(&mut s);
        s.check(&table(20)).unwrap_err()
    };
    assert_eq!(
        with(&|s| s.head_dim = 256).message(),
        "arch=deepseek4 cache kernels require key_length=512 and attention.indexer.key_length=128; \
         got 256 and 128"
    );
    assert_eq!(
        with(&|s| s.moe[0] = false).message(),
        "arch=deepseek4 (DeepSeek V4) layer 0 is hash-routed but is not a MoE layer, so its \
         `blk.0.ffn_gate_tid2eid` selection has no expert bank to select from"
    );
    assert_eq!(
        dsv4().check(&table(19)).unwrap_err(),
        Error::Dsv4HashTable { layer: 0, got: 19, n_used: 2, vocab: 10, want: 20 }
    );
    assert_eq!(
        dsv4().check(&Vec::new()).unwrap_err(),
        Error::Dsv4HashTable { layer: 0, got: 0, n_used: 2, vocab: 10, want: 20 }
    );
    assert_eq!(with(&|s| s.hc_mult = 9), Error::Dsv4Streams { count: 9, max: 8 });
    assert_eq!(with(&|s| s.hc_mult = 0), Error::Dsv4Streams { count: 0, max: 8 });
    assert_eq!(with(&|s| s.hc_sinkhorn_iters = 0), Error::Dsv4Sinkhorn);
    assert_eq!(
        with(&|s| s.rope_dim = 513),
        Error::Dsv4RopeDim { rope_dim: 513, head_dim: 512 }
    );
    assert_eq!(
        with(&|s| s.o_group_count = 3).message(),
        "arch=deepseek4: attention.output_group_count 3 must divide n_head*key_length 2048"
    );
}

fn canvas(backend: BackendKind, tokens: &[u32], last_logits: Option<usize>) -> CanvasRequest<'_> {
    CanvasRequest {
        diffusion_gemma: true,
        backend,
        canvas: tokens,
        vocab: 100,
        n_embd: 8,
        prompt: 5,
        max_ctx: 16,
        last_logits,
    }
}

fn staging(bytes: usize) -> AllocRequest {
    AllocRequest::Fixed { bytes, usage: BufferUsage::Staging }
}

#[test]
fn canvas_steps_read_what_the_last_one_wrote() {
    let tokens = [1, 2, 3];
    let mut state = CanvasState::new();
    let first = canvas(BackendKind::Vulkan, &tokens, None).plan(&state).ok().unwrap();
    assert_eq!(first.new_pair, vec![staging(1200), staging(1200), staging(4)]);
    assert_eq!(first.new_graph, vec![staging(96), staging(12)]);
    assert_eq!(first.write, Some(0));
    assert_eq!(first.seed, None);
    state.finish(&first);
    let second = canvas(BackendKind::Vulkan, &tokens, Some(1)).plan(&state).ok().unwrap();
    assert!(second.from_pair && second.on_device);
    assert!(second.new_pair.is_empty());
    assert_eq!(second.write, Some(1));
    assert_eq!(second.new_graph.len(), 2);
    state.finish(&second);
    let third = canvas(BackendKind::Vulkan, &tokens, Some(1)).plan(&state).ok().unwrap();
    assert!(third.new_graph.is_empty());
    assert_eq!(third.write, Some(0));
    assert_eq!(third.key, CanvasKey { rows: 3, prompt: 5, conditioned: true });
}

#[test]
fn a_first_conditioned_step_is_seeded() {
    let tokens = [1];
    let state = CanvasState::new();
    let plan = canvas(BackendKind::Vulkan, &tokens, Some(7)).plan(&state).ok().unwrap();
    assert_eq!(plan.seed, Some(1));
    let plan = canvas(BackendKind::Metal, &tokens, Some(100)).plan(&state).ok().unwrap();
    assert_eq!(plan.seed, None);
    assert_eq!(plan.write, None);
    assert_eq!(plan.new_graph, vec![staging(32), staging(4), staging(400), staging(400)]);
    let plan = canvas(BackendKind::Cpu, &tokens, Some(100)).plan(&state).ok().unwrap();
    assert!(!plan.on_device && !plan.key.conditioned);
    assert_eq!(plan.new_graph.len(), 3);
}

#[test]
fn canvas_steps_are_refused_with_their_reason() {
    let state = CanvasState::new();
    let refuse = |r: CanvasRequest<'_>| r.plan(&state).err().unwrap().message();
    let tokens = [1, 2];
    let mut other = canvas(BackendKind::Cpu, &tokens, None);
    other.diffusion_gemma = false;
    assert_eq!(refuse(other), "canvas denoise forward: diffusion-gemma models only");
    assert_eq!(
        refuse(canvas(BackendKind::Cpu, &[100], None)),
        "token id 100 out of range for vocab size 100"
    );
    assert_eq!(
        refuse(canvas(BackendKind::Cpu, &[0; 12], None)),
        "denoise: prompt 5 + canvas 12 exceeds the session KV capacity 16"
    );
    assert_eq!(
        refuse(canvas(BackendKind::Metal, &tokens, Some(7))),
        "denoise: sc_logits length 7 != 2*100 (canvas rows * vocab)"
    );
    assert_eq!(
        check_draws(3, 2).unwrap_err().message(),
        "denoise: u length 3 != 2 (canvas rows)"
    );
    assert!(check_draws(2, 2).is_ok());
    assert_eq!(row_positions(5, 3), vec![5, 6, 7]);
}

fn ngram_model() -> Config {
    Config {
        layers: Vec::new(),
        qwen35: false,
        qwen4exp: true,
        bailingmoe3: false,
        deepseek4: false,
        n_embd: 8,
        n_embd_per_layer: 0,
        vocab: 10,
        hc_mult: 4,
        swa_window: 0,
        indexer_head_size: 0,
        indexer_top_k: 0,
        ple_ngram_size: 3,
        ple_heads_per_ngram: 2,
        ple_head_dim: 5,
        ple_conv_kernel: 4,
        ssm_d_conv: 1,
        recurrent_conv_channels: 0,
        recurrent_state_elems: 0,
    }
}

#[test]
fn embedding_rows_are_counted() {
    let cfg = ngram_model();
    assert_eq!(ple_values(&cfg, 3), 60);
    assert!(check_parallel_ple(&cfg, 60, 3).is_ok());
    assert_eq!(
        check_parallel_ple(&cfg, 59, 3).unwrap_err().message(),
        "parallel PLE produced 59 values, expected 60"
    );
    assert!(check_batched_ple(&cfg, Some(20), 1).is_ok());
    assert_eq!(
        check_batched_ple(&cfg, None, 1).unwrap_err().message(),
        "qwen4exp prefill chunk has no prefetched PLE rows"
    );
    assert_eq!(
        check_batched_ple(&cfg, Some(21), 1).unwrap_err().message(),
        "qwen4exp batched PLE produced 21 values, expected 20"
    );
    assert!(check_step_ple(20, Some(80)).is_ok());
    assert_eq!(
        check_step_ple(20, None).unwrap_err().message(),
        "qwen4exp session has no PLE staging buffer"
    );
    assert_eq!(
        check_step_ple(20, Some(84)).unwrap_err().message(),
        "qwen4exp PLE worker produced 80 bytes, staging buffer has 84"
    );
    assert_eq!(Error::NoPleWorker.message(), "qwen4exp session has no PLE worker");
}

#[test]
fn speculated_tokens_are_verified_in_one_batch() {
    let request = VerifyRequest {
        moe: false,
        per_layer: false,
        prompt_len: 9,
        start: 6,
        n_embd: 8,
        vocab: 100,
        wants_rows: true,
        device_ids: true,
    };
    let plan = request.plan().ok().unwrap();
    assert_eq!(plan.rows, 3);
    assert_eq!(
        plan.buffers,
        vec![
            staging(96),
            staging(12),
            staging(1200),
            staging(96),
            AllocRequest::Fixed { bytes: 12, usage: BufferUsage::Readback },
        ]
    );
    let refused = VerifyRequest { moe: true, ..request }.plan().err().unwrap();
    assert_eq!(refused.message(), "speculative verify: dense non-E2B models only");
}
