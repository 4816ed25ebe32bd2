//! What a model file holds, and how its tensors are uploaded.

use infr_llama::config::DType;
use infr_llama::tensor_scan::{
    embed_gates, find_dtype, find_tensor, fuse_gu_decision, fuse_qkv_decision, layer_banks,
    layer_tensor_name, moe_batched_ok, session_stable, LayerDims, ScanConfig, ScanSupport, TensorInfo,
};
use infr_llama::weight_load::{
    contains, ends_with, expand_taps, load_plan, permute_rows, qk_perm_heads, row_bytes, LoadFault,
    LoadForm, LoadPart, LoadRules, TapMismatch,
};

fn tensor(name: &str, dtype: DType) -> TensorInfo {
    TensorInfo { name: name.to_string(), dtype, numel: 64 }
}

fn text(s: &str) -> String {
    s.to_string()
}

fn dims() -> LayerDims {
    LayerDims { head_dim: 64, n_kv: 2, own_kv: true, moe: false, hash_moe: false }
}

fn config(layers: usize) -> ScanConfig {
    ScanConfig {
        layers: vec![dims(); layers],
        head_dim: 64,
        n_kv: 2,
        n_embd: 64,
        n_embd_per_layer: 0,
        moe: false,
        dual_moe: false,
        gemma4: false,
        diffusion_gemma: false,
        deepseek4: false,
        rope_scaling_yarn: false,
        rope_dim: 32,
        qk_rope_dim: 16,
    }
}

fn support() -> ScanSupport {
    ScanSupport {
        combined_gu: true,
        qkv_fuse: true,
        embed_gather: true,
        gpu_embed: true,
        native_dense: vec![DType::Q8_0, DType::F16],
        moe_mmq: vec![DType::Q8_0],
        gathers: vec![DType::Q8_0],
    }
}

#[test]
fn tensors_are_found_by_name() {
    let file = vec![tensor("a", DType::F16), tensor("b", DType::F32), tensor("a", DType::I32)];
    assert_eq!(find_tensor(&file, &text("a")), Some(0));
    assert_eq!(find_dtype(&file, &text("b")), Some(DType::F32));
    assert_eq!(find_tensor(&file, &text("c")), None);
    assert_eq!(layer_tensor_name(12, "attn_v.weight"), "blk.12.attn_v.weight");
}

#[test]
fn halves_are_joined_only_in_one_type() {
    let file = vec![
        tensor("blk.0.ffn_gate.weight", DType::Q8_0),
        tensor("blk.0.ffn_up.weight", DType::Q8_0),
        tensor("blk.1.ffn_gate.weight", DType::Q8_0),
        tensor("blk.1.ffn_up.weight", DType::F16),
    ];
    assert!(fuse_gu_decision(true, &file, 1));
    assert!(!fuse_gu_decision(true, &file, 2));
    assert!(!fuse_gu_decision(false, &file, 1));
    assert!(!fuse_gu_decision(true, &Vec::new(), 1));
    assert!(fuse_gu_decision(true, &Vec::new(), 0));
}

fn qkv(dtype: DType, v: DType) -> Vec<TensorInfo> {
    vec![
        tensor("blk.0.attn_q.weight", dtype),
        tensor("blk.0.attn_k.weight", dtype),
        tensor("blk.0.attn_v.weight", v),
    ]
}

#[test]
fn projections_are_joined_only_where_all_agree() {
    let c = config(1);
    let s = support();
    assert!(fuse_qkv_decision(&qkv(DType::Q8_0, DType::Q8_0), &c, &s));
    assert!(!fuse_qkv_decision(&qkv(DType::Q8_0, DType::Q4_0), &c, &s));
    assert!(!fuse_qkv_decision(&qkv(DType::F16, DType::F16), &c, &s));
    assert!(!fuse_qkv_decision(&qkv(DType::Q4_0, DType::Q4_0), &c, &s));
    let mut off = support();
    off.qkv_fuse = false;
    assert!(!fuse_qkv_decision(&qkv(DType::Q8_0, DType::Q8_0), &c, &off));
    let mut shared = config(1);
    shared.layers[0].own_kv = false;
    assert!(!fuse_qkv_decision(&qkv(DType::Q8_0, DType::Q8_0), &shared, &s));
    let mut wide = config(1);
    wide.layers[0].head_dim = 128;
    assert!(!fuse_qkv_decision(&qkv(DType::Q8_0, DType::Q8_0), &wide, &s));
}

#[test]
fn experts_are_batched_only_with_a_bank() {
    let mut c = config(2);
    c.moe = true;
    let file = vec![
        tensor("blk.1.ffn_gate_exps.weight", DType::Q8_0),
        tensor("blk.1.ffn_up_exps.weight", DType::Q8_0),
        tensor("blk.1.ffn_down_exps.weight", DType::Q8_0),
    ];
    let kernels = vec![DType::Q8_0];
    assert!(!moe_batched_ok(&file, &c, &kernels));
    c.layers[1].moe = true;
    assert!(moe_batched_ok(&file, &c, &kernels));
    assert!(!moe_batched_ok(&file, &c, &vec![DType::Q4_0]));
    c.layers[0].moe = true;
    assert!(!moe_batched_ok(&file, &c, &kernels));
    c.layers[0].moe = false;
    c.dual_moe = true;
    assert!(!moe_batched_ok(&file, &c, &kernels));
    c.moe = false;
    assert!(!moe_batched_ok(&file, &c, &kernels));
}

#[test]
fn a_session_scans_its_file_once() {
    let mut c = config(2);
    c.gemma4 = true;
    c.rope_scaling_yarn = true;
    let file = vec![
        tensor("blk.1.attn_v.weight", DType::Q8_0),
        tensor("blk.0.layer_output_scale.weight", DType::F32),
        tensor("blk.1.enc_layer_output_scale.weight", DType::F32),
        tensor("rope_freqs.weight", DType::F32),
    ];
    let stable = session_stable(&file, &c, &support());
    assert_eq!(stable.has_wv, vec![false, true]);
    assert_eq!(stable.out_scale, vec![Some(text("blk.0.layer_output_scale.weight")), None]);
    assert_eq!(stable.dec_out_scale, stable.out_scale);
    assert!(stable.rope_freqs);
    assert_eq!(stable.yarn_pairs, Some(8));
    c.diffusion_gemma = true;
    c.deepseek4 = true;
    c.gemma4 = false;
    let stable = session_stable(&file, &c, &support());
    assert_eq!(stable.out_scale, vec![None, Some(text("blk.1.enc_layer_output_scale.weight"))]);
    assert_eq!(stable.yarn_pairs, Some(16));
    assert!(!stable.rope_freqs);
}

#[test]
fn embeddings_are_gathered_where_the_table_allows() {
    let mut c = config(4);
    let tied = vec![tensor("token_embd.weight", DType::Q8_0)];
    let gates = embed_gates(&tied, &c, &support());
    assert!(gates.gpu_embed && !gates.untied_lm && !gates.gpu_ple && !gates.hash_ids);
    let untied = vec![tensor("token_embd.weight", DType::F32), tensor("output.weight", DType::F32)];
    let gates = embed_gates(&untied, &c, &support());
    assert!(!gates.gpu_embed && gates.untied_lm);
    c.n_embd = 40;
    assert!(!embed_gates(&tied, &c, &support()).gpu_embed);
    c.n_embd = 64;
    c.n_embd_per_layer = 8;
    let both = vec![
        tensor("token_embd.weight", DType::Q8_0),
        tensor("per_layer_token_embd.weight", DType::Q8_0),
    ];
    assert!(embed_gates(&both, &c, &support()).gpu_ple);
    c.n_embd_per_layer = 9;
    assert!(!embed_gates(&both, &c, &support()).gpu_ple);
    c.deepseek4 = true;
    c.layers[2].hash_moe = true;
    assert!(embed_gates(&tied, &c, &support()).hash_ids);
}

fn rules() -> LoadRules {
    LoadRules {
        permute_qk_neox: true,
        n_head: 4,
        n_kv: 2,
        qwen4exp: false,
        deepseek2: false,
        bailingmoe3: false,
        deepseek4: false,
    }
}

#[test]
fn names_decide_what_is_reordered() {
    assert!(ends_with(&text("blk.0.attn_q.weight"), "attn_q.weight"));
    assert!(!ends_with(&text("q"), "attn_q.weight"));
    assert!(contains(&text("blk.0.attn_compressor_ape.weight"), "_compressor_ape.weight"));
    assert!(!contains(&text("blk.0.attn_ape.weight"), "_compressor_ape.weight"));
    assert!(contains(&text("abc"), ""));
    let r = rules();
    assert_eq!(qk_perm_heads(&r, &text("blk.3.attn_q.weight")), Some(4));
    assert_eq!(qk_perm_heads(&r, &text("blk.3.attn_k.bias")), Some(2));
    assert_eq!(qk_perm_heads(&r, &text("blk.3.attn_v.weight")), None);
    let mut plain = rules();
    plain.permute_qk_neox = false;
    assert_eq!(qk_perm_heads(&plain, &text("blk.3.attn_q.weight")), None);
    assert_eq!(row_bytes(&text("blk.3.attn_q.bias"), 34), 4);
    assert_eq!(row_bytes(&text("blk.3.attn_q.weight"), 34), 34);
}

#[test]
fn rows_are_reordered_within_each_head() {
    // Two heads of six rows, four of them rotated; two bytes a row.
    let src: Vec<u8> = (0..24).collect();
    let out = permute_rows(&src, 2, 6, 4, 2);
    assert_eq!(
        out,
        vec![0, 1, 4, 5, 2, 3, 6, 7, 8, 9, 10, 11, 12, 13, 16, 17, 14, 15, 18, 19, 20, 21, 22, 23]
    );
    let longer: Vec<u8> = (0..26).collect();
    assert_eq!(permute_rows(&longer, 2, 6, 4, 2)[24..], [0, 0]);
    let once = permute_rows(&vec![7, 8, 9, 10], 1, 4, 4, 1);
    assert_eq!(once, vec![7, 9, 8, 10]);
}

#[test]
fn taps_are_spread() {
    let out = expand_taps(&vec![1, 2, 3, 4], 2, 2, 3).unwrap();
    assert_eq!(out, vec![1, 0, 0, 2, 3, 0, 0, 4]);
    let err = expand_taps(&vec![1, 2, 3], 2, 2, 3).unwrap_err();
    assert_eq!(err, TapMismatch { values: 3, channels: 2, taps: 2 });
    assert_eq!(
        err.message(&text("blk.1.ple_conv1d.weight")),
        "blk.1.ple_conv1d.weight: 3 values do not match 2 channels x 2 taps"
    );
}

#[test]
fn uploads_take_the_form_their_tensors_need() {
    let file = vec![
        tensor("blk.0.attn_q.weight", DType::Q8_0),
        tensor("blk.0.attn_k.weight", DType::Q8_0),
        tensor("blk.0.attn_v.weight", DType::Q8_0),
        tensor("blk.0.attn_k_b.weight", DType::Q4_0),
        tensor("blk.0.ple_conv1d.weight", DType::F16),
        tensor("blk.0.attn_output.weight", DType::I2S),
        tensor("blk.0.attn_compressor_ape.weight", DType::F16),
        tensor("blk.0.ffn_up.weight", DType::F16),
    ];
    let r = rules();
    let plan = |r: &LoadRules, names: &[&str]| {
        load_plan(&file, r, &names.iter().map(|n| text(n)).collect())
    };
    let joined = plan(&r, &["blk.0.attn_q.weight", "blk.0.attn_k.weight", "blk.0.attn_v.weight"])
        .ok()
        .unwrap();
    assert_eq!(joined.form, LoadForm::Rewritten);
    assert_eq!(joined.numel, 192);
    assert_eq!(joined.parts[1], LoadPart { tensor: 1, heads: Some(2) });
    assert_eq!(joined.parts[2], LoadPart { tensor: 2, heads: None });
    let mut plain = rules();
    plain.permute_qk_neox = false;
    let views = plan(&plain, &["blk.0.attn_q.weight", "blk.0.attn_k.weight"]).ok().unwrap();
    assert_eq!(views.form, LoadForm::Views);
    assert_eq!(plan(&plain, &["blk.0.attn_q.weight"]).ok().unwrap().form, LoadForm::Mapped);
    let half = plan(&r, &["blk.0.attn_output.weight"]).ok().unwrap();
    assert_eq!((half.form, half.dtype), (LoadForm::HalfPrecision, DType::F16));
    let mut latent = plain;
    latent.deepseek2 = true;
    let single = plan(&latent, &["blk.0.attn_k_b.weight"]).ok().unwrap();
    assert_eq!((single.form, single.dtype), (LoadForm::SinglePrecision, DType::F32));
    let mut v4 = plain;
    v4.deepseek4 = true;
    let ape = plan(&v4, &["blk.0.attn_compressor_ape.weight"]).ok().unwrap();
    assert_eq!(ape.form, LoadForm::SinglePrecision);
    let mut ple = plain;
    ple.qwen4exp = true;
    let taps = plan(&ple, &["blk.0.ple_conv1d.weight"]).ok().unwrap();
    assert_eq!((taps.form, taps.dtype), (LoadForm::DilatedTaps, DType::F32));
}

#[test]
fn uploads_are_refused_with_their_names() {
    let file = vec![tensor("a", DType::F16), tensor("b", DType::F32)];
    let names = vec![text("a"), text("b")];
    let fault = load_plan(&file, &rules(), &names).err().unwrap();
    assert_eq!(fault, LoadFault::DtypeMismatch);
    assert_eq!(fault.message(&names), "wload concat dtype mismatch: [\"a\", \"b\"]");
    let names = vec![text("a"), text("c")];
    let fault = load_plan(&file, &rules(), &names).err().unwrap();
    assert_eq!(fault, LoadFault::NotFound { index: 1 });
    assert_eq!(fault.message(&names), "tensor not found: c");
}

#[test]
fn banks_and_biases_are_found_layer_by_layer() {
    let file = vec![
        tensor("blk.0.ffn_gate_up_exps.weight", DType::F16),
        tensor("blk.1.exp_probs_b.bias", DType::F32),
        tensor("blk.2.ffn_gate_exps.weight", DType::F16),
    ];
    assert_eq!(layer_banks(&file, 0), (true, false));
    assert_eq!(layer_banks(&file, 1), (false, true));
    assert_eq!(layer_banks(&file, 2), (false, false));
}
