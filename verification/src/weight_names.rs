//! The tensors that a model's weights are uploaded from.

use vstd::prelude::*;

verus! {

/// A weight of one layer. Some are several tensors of the file, joined.
#[derive(Clone, Copy, Debug, PartialEq, Eq, Structural)]
pub enum LayerWeight {
    HcAttnNorm,
    HcAttnDown,
    HcAttnUp,
    HcAttnInject,
    HcFfnNorm,
    HcFfnDown,
    HcFfnUp,
    HcFfnInject,
    AttnNorm,
    QA,
    QANorm,
    QB,
    Q,
    K,
    V,
    QkvFused,
    KvAMqa,
    KvANorm,
    KB,
    VB,
    AttnGate,
    AttnOutput,
    IndexerKNorm,
    IndexerKNormBias,
    IndexerProj,
    IndexerAttnK,
    IndexerAttnQB,
    Sinks,
    Kv,
    OutputA,
    OutputB,
    HcAttnFn,
    HcAttnBase,
    HcAttnScale,
    HcFfnFn,
    HcFfnBase,
    HcFfnScale,
    CompressorKv,
    CompressorGate,
    CompressorApe,
    CompressorNorm,
    IndexerCompressorKv,
    IndexerCompressorGate,
    IndexerCompressorApe,
    IndexerCompressorNorm,
    ConvQkv,
    SsmF,
    SsmBeta,
    SsmA,
    SsmDt,
    SsmNorm,
    SsmG,
    DeltaQkv,
    Conv1d,
    SsmAlpha,
    SsmOut,
    QBias,
    KBias,
    VBias,
    QNorm,
    KNorm,
    QsaKNorm,
    QsaKProj,
    QsaQNorm,
    QsaQProj,
    PleKey,
    PleValue,
    PleNormKey,
    PleNormQuery,
    PleNormConv,
    PleConv,
    AttnSubNorm,
    PostAttnNorm,
    FfnNorm,
    GateUpFused,
    Gate,
    Up,
    Down,
    PostFfwNorm1,
    PreFfwNorm2,
    Router,
    RouterScale,
    GateUpExps,
    GateExps,
    UpExps,
    DownExps,
    DownExpsScale,
    PostFfwNorm2,
    ExpProbsB,
    Tid2Eid,
    SharedGateInp,
    SharedGate,
    SharedUp,
    SharedDown,
    FfnSubNorm,
    PostFfwNorm,
    InpGate,
    Proj,
    PostNorm,
}

/// A weight of the model as a whole, or a vector of ones that stands in for a weight.
#[derive(Clone, Copy, Debug, PartialEq, Eq, Structural)]
pub enum ModelWeight {
    OutputHcNorm,
    OutputHcDown,
    OutputHcUp,
    OutputNorm,
    LmHead,
    TiedLmHead,
    OutputHcFn,
    OutputHcBase,
    OutputHcScale,
    TokenEmbd,
    PerLayerTokenEmbd,
    SelfCondPreNorm,
    SelfCondGate,
    SelfCondUp,
    SelfCondDown,
    PerLayerModelProj,
    PerLayerProjNorm,
    VOnes,
    RouterOnes,
    QkOnes,
    HcOnes,
    QwenHcOnes,
}

/// One uploaded weight.
#[derive(Clone, Copy, Debug, PartialEq, Eq, Structural)]
pub enum WeightSlot {
    /// A weight of the layer with this number.
    Layer(usize, LayerWeight),
    Model(ModelWeight),
}

/// The tensors of a list of names.
pub open spec fn texts(names: Seq<&'static str>) -> Seq<Seq<char>> {
    Seq::new(names.len(), |i: int| names[i]@)
}

impl LayerWeight {
    /// The tensors of this weight, behind the layer's prefix.
    pub open spec fn tensors(self) -> Seq<Seq<char>> {
        match self {
            LayerWeight::HcAttnNorm => seq!["hc_attn_norm.weight"@],
            LayerWeight::HcAttnDown => seq!["hc_attn_down.weight"@],
            LayerWeight::HcAttnUp => seq!["hc_attn_up.weight"@],
            LayerWeight::HcAttnInject => seq!["hc_attn_inject.weight"@],
            LayerWeight::HcFfnNorm => seq!["hc_ffn_norm.weight"@],
            LayerWeight::HcFfnDown => seq!["hc_ffn_down.weight"@],
            LayerWeight::HcFfnUp => seq!["hc_ffn_up.weight"@],
            LayerWeight::HcFfnInject => seq!["hc_ffn_inject.weight"@],
            LayerWeight::AttnNorm => seq!["attn_norm.weight"@],
            LayerWeight::QA => seq!["attn_q_a.weight"@],
            LayerWeight::QANorm => seq!["attn_q_a_norm.weight"@],
            LayerWeight::QB => seq!["attn_q_b.weight"@],
            LayerWeight::Q => seq!["attn_q.weight"@],
            LayerWeight::K => seq!["attn_k.weight"@],
            LayerWeight::V => seq!["attn_v.weight"@],
            LayerWeight::QkvFused => seq!["attn_q.weight"@, "attn_k.weight"@, "attn_v.weight"@],
            LayerWeight::KvAMqa => seq!["attn_kv_a_mqa.weight"@],
            LayerWeight::KvANorm => seq!["attn_kv_a_norm.weight"@],
            LayerWeight::KB => seq!["attn_k_b.weight"@],
            LayerWeight::VB => seq!["attn_v_b.weight"@],
            LayerWeight::AttnGate => seq!["attn_gate.weight"@],
            LayerWeight::AttnOutput => seq!["attn_output.weight"@],
            LayerWeight::IndexerKNorm => seq!["indexer.k_norm.weight"@],
            LayerWeight::IndexerKNormBias => seq!["indexer.k_norm.bias"@],
            LayerWeight::IndexerProj => seq!["indexer.proj.weight"@],
            LayerWeight::IndexerAttnK => seq!["indexer.attn_k.weight"@],
            LayerWeight::IndexerAttnQB => seq!["indexer.attn_q_b.weight"@],
            LayerWeight::Sinks => seq!["attn_sinks.weight"@],
            LayerWeight::Kv => seq!["attn_kv.weight"@],
            LayerWeight::OutputA => seq!["attn_output_a.weight"@],
            LayerWeight::OutputB => seq!["attn_output_b.weight"@],
            LayerWeight::HcAttnFn => seq!["hc_attn_fn.weight"@],
            LayerWeight::HcAttnBase => seq!["hc_attn_base.weight"@],
            LayerWeight::HcAttnScale => seq!["hc_attn_scale.weight"@],
            LayerWeight::HcFfnFn => seq!["hc_ffn_fn.weight"@],
            LayerWeight::HcFfnBase => seq!["hc_ffn_base.weight"@],
            LayerWeight::HcFfnScale => seq!["hc_ffn_scale.weight"@],
            LayerWeight::CompressorKv => seq!["attn_compressor_kv.weight"@],
            LayerWeight::CompressorGate => seq!["attn_compressor_gate.weight"@],
            LayerWeight::CompressorApe => seq!["attn_compressor_ape.weight"@],
            LayerWeight::CompressorNorm => seq!["attn_compressor_norm.weight"@],
            LayerWeight::IndexerCompressorKv => seq!["indexer_compressor_kv.weight"@],
            LayerWeight::IndexerCompressorGate => seq!["indexer_compressor_gate.weight"@],
            LayerWeight::IndexerCompressorApe => seq!["indexer_compressor_ape.weight"@],
            LayerWeight::IndexerCompressorNorm => seq!["indexer_compressor_norm.weight"@],
            LayerWeight::ConvQkv => seq![
                "ssm_conv1d_q.weight"@,
                "ssm_conv1d_k.weight"@,
                "ssm_conv1d_v.weight"@,
            ],
            LayerWeight::SsmF => seq!["ssm_f.weight"@],
            LayerWeight::SsmBeta => seq!["ssm_beta.weight"@],
            LayerWeight::SsmA => seq!["ssm_a"@],
            LayerWeight::SsmDt => seq!["ssm_dt.bias"@],
            LayerWeight::SsmNorm => seq!["ssm_norm.weight"@],
            LayerWeight::SsmG => seq!["ssm_g.weight"@],
            LayerWeight::DeltaQkv => seq!["attn_qkv.weight"@],
            LayerWeight::Conv1d => seq!["ssm_conv1d.weight"@],
            LayerWeight::SsmAlpha => seq!["ssm_alpha.weight"@],
            LayerWeight::SsmOut => seq!["ssm_out.weight"@],
            LayerWeight::QBias => seq!["attn_q.bias"@],
            LayerWeight::KBias => seq!["attn_k.bias"@],
            LayerWeight::VBias => seq!["attn_v.bias"@],
            LayerWeight::QNorm => seq!["attn_q_norm.weight"@],
            LayerWeight::KNorm => seq!["attn_k_norm.weight"@],
            LayerWeight::QsaKNorm => seq!["indexer.k_norm.weight"@],
            LayerWeight::QsaKProj => seq!["indexer.k_proj.weight"@],
            LayerWeight::QsaQNorm => seq!["indexer.q_norm.weight"@],
            LayerWeight::QsaQProj => seq!["indexer.q_proj.weight"@],
            LayerWeight::PleKey => seq!["ple_key.weight"@],
            LayerWeight::PleValue => seq!["ple_value.weight"@],
            LayerWeight::PleNormKey => seq!["ple_norm_key.weight"@],
            LayerWeight::PleNormQuery => seq!["ple_norm_query.weight"@],
            LayerWeight::PleNormConv => seq!["ple_norm_conv.weight"@],
            LayerWeight::PleConv => seq!["ple_conv1d.weight"@],
            LayerWeight::AttnSubNorm => seq!["attn_sub_norm.weight"@],
            LayerWeight::PostAttnNorm => seq!["post_attention_norm.weight"@],
            LayerWeight::FfnNorm => seq!["ffn_norm.weight"@],
            LayerWeight::GateUpFused => seq!["ffn_gate.weight"@, "ffn_up.weight"@],
            LayerWeight::Gate => seq!["ffn_gate.weight"@],
            LayerWeight::Up => seq!["ffn_up.weight"@],
            LayerWeight::Down => seq!["ffn_down.weight"@],
            LayerWeight::PostFfwNorm1 => seq!["post_ffw_norm_1.weight"@],
            LayerWeight::PreFfwNorm2 => seq!["pre_ffw_norm_2.weight"@],
            LayerWeight::Router => seq!["ffn_gate_inp.weight"@],
            LayerWeight::RouterScale => seq!["ffn_gate_inp.scale"@],
            LayerWeight::GateUpExps => seq!["ffn_gate_up_exps.weight"@],
            LayerWeight::GateExps => seq!["ffn_gate_exps.weight"@],
            LayerWeight::UpExps => seq!["ffn_up_exps.weight"@],
            LayerWeight::DownExps => seq!["ffn_down_exps.weight"@],
            LayerWeight::DownExpsScale => seq!["ffn_down_exps.scale"@],
            LayerWeight::PostFfwNorm2 => seq!["post_ffw_norm_2.weight"@],
            LayerWeight::ExpProbsB => seq!["exp_probs_b.bias"@],
            LayerWeight::Tid2Eid => seq!["ffn_gate_tid2eid.weight"@],
            LayerWeight::SharedGateInp => seq!["ffn_gate_inp_shexp.weight"@],
            LayerWeight::SharedGate => seq!["ffn_gate_shexp.weight"@],
            LayerWeight::SharedUp => seq!["ffn_up_shexp.weight"@],
            LayerWeight::SharedDown => seq!["ffn_down_shexp.weight"@],
            LayerWeight::FfnSubNorm => seq!["ffn_sub_norm.weight"@],
            LayerWeight::PostFfwNorm => seq!["post_ffw_norm.weight"@],
            LayerWeight::InpGate => seq!["inp_gate.weight"@],
            LayerWeight::Proj => seq!["proj.weight"@],
            LayerWeight::PostNorm => seq!["post_norm.weight"@],
        }
    }

    /// See [`LayerWeight::tensors`].
    pub fn names(self) -> (names: Vec<&'static str>)
        ensures
            texts(names@) == self.tensors(),
    {
        let names: Vec<&'static str> = match self {
            LayerWeight::HcAttnNorm => vec!["hc_attn_norm.weight"],
            LayerWeight::HcAttnDown => vec!["hc_attn_down.weight"],
            LayerWeight::HcAttnUp => vec!["hc_attn_up.weight"],
            LayerWeight::HcAttnInject => vec!["hc_attn_inject.weight"],
            LayerWeight::HcFfnNorm => vec!["hc_ffn_norm.weight"],
            LayerWeight::HcFfnDown => vec!["hc_ffn_down.weight"],
            LayerWeight::HcFfnUp => vec!["hc_ffn_up.weight"],
            LayerWeight::HcFfnInject => vec!["hc_ffn_inject.weight"],
            LayerWeight::AttnNorm => vec!["attn_norm.weight"],
            LayerWeight::QA => vec!["attn_q_a.weight"],
            LayerWeight::QANorm => vec!["attn_q_a_norm.weight"],
            LayerWeight::QB => vec!["attn_q_b.weight"],
            LayerWeight::Q => vec!["attn_q.weight"],
            LayerWeight::K => vec!["attn_k.weight"],
            LayerWeight::V => vec!["attn_v.weight"],
            LayerWeight::QkvFused => vec!["attn_q.weight", "attn_k.weight", "attn_v.weight"],
            LayerWeight::KvAMqa => vec!["attn_kv_a_mqa.weight"],
            LayerWeight::KvANorm => vec!["attn_kv_a_norm.weight"],
            LayerWeight::KB => vec!["attn_k_b.weight"],
            LayerWeight::VB => vec!["attn_v_b.weight"],
            LayerWeight::AttnGate => vec!["attn_gate.weight"],
            LayerWeight::AttnOutput => vec!["attn_output.weight"],
            LayerWeight::IndexerKNorm => vec!["indexer.k_norm.weight"],
            LayerWeight::IndexerKNormBias => vec!["indexer.k_norm.bias"],
            LayerWeight::IndexerProj => vec!["indexer.proj.weight"],
            LayerWeight::IndexerAttnK => vec!["indexer.attn_k.weight"],
            LayerWeight::IndexerAttnQB => vec!["indexer.attn_q_b.weight"],
            LayerWeight::Sinks => vec!["attn_sinks.weight"],
            LayerWeight::Kv => vec!["attn_kv.weight"],
            LayerWeight::OutputA => vec!["attn_output_a.weight"],
            LayerWeight::OutputB => vec!["attn_output_b.weight"],
            LayerWeight::HcAttnFn => vec!["hc_attn_fn.weight"],
            LayerWeight::HcAttnBase => vec!["hc_attn_base.weight"],
            LayerWeight::HcAttnScale => vec!["hc_attn_scale.weight"],
            LayerWeight::HcFfnFn => vec!["hc_ffn_fn.weight"],
            LayerWeight::HcFfnBase => vec!["hc_ffn_base.weight"],
            LayerWeight::HcFfnScale => vec!["hc_ffn_scale.weight"],
            LayerWeight::CompressorKv => vec!["attn_compressor_kv.weight"],
            LayerWeight::CompressorGate => vec!["attn_compressor_gate.weight"],
            LayerWeight::CompressorApe => vec!["attn_compressor_ape.weight"],
            LayerWeight::CompressorNorm => vec!["attn_compressor_norm.weight"],
            LayerWeight::IndexerCompressorKv => vec!["indexer_compressor_kv.weight"],
            LayerWeight::IndexerCompressorGate => vec!["indexer_compressor_gate.weight"],
            LayerWeight::IndexerCompressorApe => vec!["indexer_compressor_ape.weight"],
            LayerWeight::IndexerCompressorNorm => vec!["indexer_compressor_norm.weight"],
            LayerWeight::ConvQkv => vec!["ssm_conv1d_q.weight", "ssm_conv1d_k.weight", "ssm_conv1d_v.weight"],
            LayerWeight::SsmF => vec!["ssm_f.weight"],
            LayerWeight::SsmBeta => vec!["ssm_beta.weight"],
            LayerWeight::SsmA => vec!["ssm_a"],
            LayerWeight::SsmDt => vec!["ssm_dt.bias"],
            LayerWeight::SsmNorm => vec!["ssm_norm.weight"],
            LayerWeight::SsmG => vec!["ssm_g.weight"],
            LayerWeight::DeltaQkv => vec!["attn_qkv.weight"],
            LayerWeight::Conv1d => vec!["ssm_conv1d.weight"],
            LayerWeight::SsmAlpha => vec!["ssm_alpha.weight"],
            LayerWeight::SsmOut => vec!["ssm_out.weight"],
            LayerWeight::QBias => vec!["attn_q.bias"],
            LayerWeight::KBias => vec!["attn_k.bias"],
            LayerWeight::VBias => vec!["attn_v.bias"],
            LayerWeight::QNorm => vec!["attn_q_norm.weight"],
            LayerWeight::KNorm => vec!["attn_k_norm.weight"],
            LayerWeight::QsaKNorm => vec!["indexer.k_norm.weight"],
            LayerWeight::QsaKProj => vec!["indexer.k_proj.weight"],
            LayerWeight::QsaQNorm => vec!["indexer.q_norm.weight"],
            LayerWeight::QsaQProj => vec!["indexer.q_proj.weight"],
            LayerWeight::PleKey => vec!["ple_key.weight"],
            LayerWeight::PleValue => vec!["ple_value.weight"],
            LayerWeight::PleNormKey => vec!["ple_norm_key.weight"],
            LayerWeight::PleNormQuery => vec!["ple_norm_query.weight"],
            LayerWeight::PleNormConv => vec!["ple_norm_conv.weight"],
            LayerWeight::PleConv => vec!["ple_conv1d.weight"],
            LayerWeight::AttnSubNorm => vec!["attn_sub_norm.weight"],
            LayerWeight::PostAttnNorm => vec!["post_attention_norm.weight"],
            LayerWeight::FfnNorm => vec!["ffn_norm.weight"],
            LayerWeight::GateUpFused => vec!["ffn_gate.weight", "ffn_up.weight"],
            LayerWeight::Gate => vec!["ffn_gate.weight"],
            LayerWeight::Up => vec!["ffn_up.weight"],
            LayerWeight::Down => vec!["ffn_down.weight"],
            LayerWeight::PostFfwNorm1 => vec!["post_ffw_norm_1.weight"],
            LayerWeight::PreFfwNorm2 => vec!["pre_ffw_norm_2.weight"],
            LayerWeight::Router => vec!["ffn_gate_inp.weight"],
            LayerWeight::RouterScale => vec!["ffn_gate_inp.scale"],
            LayerWeight::GateUpExps => vec!["ffn_gate_up_exps.weight"],
            LayerWeight::GateExps => vec!["ffn_gate_exps.weight"],
            LayerWeight::UpExps => vec!["ffn_up_exps.weight"],
            LayerWeight::DownExps => vec!["ffn_down_exps.weight"],
            LayerWeight::DownExpsScale => vec!["ffn_down_exps.scale"],
            LayerWeight::PostFfwNorm2 => vec!["post_ffw_norm_2.weight"],
            LayerWeight::ExpProbsB => vec!["exp_probs_b.bias"],
            LayerWeight::Tid2Eid => vec!["ffn_gate_tid2eid.weight"],
            LayerWeight::SharedGateInp => vec!["ffn_gate_inp_shexp.weight"],
            LayerWeight::SharedGate => vec!["ffn_gate_shexp.weight"],
            LayerWeight::SharedUp => vec!["ffn_up_shexp.weight"],
            LayerWeight::SharedDown => vec!["ffn_down_shexp.weight"],
            LayerWeight::FfnSubNorm => vec!["ffn_sub_norm.weight"],
            LayerWeight::PostFfwNorm => vec!["post_ffw_norm.weight"],
            LayerWeight::InpGate => vec!["inp_gate.weight"],
            LayerWeight::Proj => vec!["proj.weight"],
            LayerWeight::PostNorm => vec!["post_norm.weight"],
        };
        assert(texts(names@) =~= self.tensors());
        names
    }
}

impl ModelWeight {
    /// The tensors of this weight; a vector of ones has none.
    pub open spec fn tensors(self) -> Seq<Seq<char>> {
        match self {
            ModelWeight::OutputHcNorm => seq!["output_hc_norm.weight"@],
            ModelWeight::OutputHcDown => seq!["output_hc_down.weight"@],
            ModelWeight::OutputHcUp => seq!["output_hc_up.weight"@],
            ModelWeight::OutputNorm => seq!["output_norm.weight"@],
            ModelWeight::LmHead => seq!["output.weight"@],
            ModelWeight::TiedLmHead => seq!["token_embd.weight"@],
            ModelWeight::OutputHcFn => seq!["output_hc_fn.weight"@],
            ModelWeight::OutputHcBase => seq!["output_hc_base.weight"@],
            ModelWeight::OutputHcScale => seq!["output_hc_scale.weight"@],
            ModelWeight::TokenEmbd => seq!["token_embd.weight"@],
            ModelWeight::PerLayerTokenEmbd => seq!["per_layer_token_embd.weight"@],
            ModelWeight::SelfCondPreNorm => seq!["self_cond_pre_norm.weight"@],
            ModelWeight::SelfCondGate => seq!["self_cond_gate.weight"@],
            ModelWeight::SelfCondUp => seq!["self_cond_up.weight"@],
            ModelWeight::SelfCondDown => seq!["self_cond_down.weight"@],
            ModelWeight::PerLayerModelProj => seq!["per_layer_model_proj.weight"@],
            ModelWeight::PerLayerProjNorm => seq!["per_layer_proj_norm.weight"@],
            _ => Seq::empty(),
        }
    }

    /// See [`ModelWeight::tensors`].
    pub fn names(self) -> (names: Vec<&'static str>)
        ensures
            texts(names@) == self.tensors(),
    {
        let names: Vec<&'static str> = match self {
            ModelWeight::OutputHcNorm => vec!["output_hc_norm.weight"],
            ModelWeight::OutputHcDown => vec!["output_hc_down.weight"],
            ModelWeight::OutputHcUp => vec!["output_hc_up.weight"],
            ModelWeight::OutputNorm => vec!["output_norm.weight"],
            ModelWeight::LmHead => vec!["output.weight"],
            ModelWeight::TiedLmHead => vec!["token_embd.weight"],
            ModelWeight::OutputHcFn => vec!["output_hc_fn.weight"],
            ModelWeight::OutputHcBase => vec!["output_hc_base.weight"],
            ModelWeight::OutputHcScale => vec!["output_hc_scale.weight"],
            ModelWeight::TokenEmbd => vec!["token_embd.weight"],
            ModelWeight::PerLayerTokenEmbd => vec!["per_layer_token_embd.weight"],
            ModelWeight::SelfCondPreNorm => vec!["self_cond_pre_norm.weight"],
            ModelWeight::SelfCondGate => vec!["self_cond_gate.weight"],
            ModelWeight::SelfCondUp => vec!["self_cond_up.weight"],
            ModelWeight::SelfCondDown => vec!["self_cond_down.weight"],
            ModelWeight::PerLayerModelProj => vec!["per_layer_model_proj.weight"],
            ModelWeight::PerLayerProjNorm => vec!["per_layer_proj_norm.weight"],
            _ => Vec::new(),
        };
        assert(texts(names@) =~= self.tensors());
        names
    }
}

} // verus!
