//! The order of a model's weights.
//!
//! Weights are uploaded in one order and declared in every graph in another place of the code. A
//! graph's handles are bound to the uploaded buffers by their number, so the two orders must be the
//! same: one handle out of place binds every later weight one buffer off. Both orders are written
//! down here, each from its own side, and proved equal.

use crate::weight_names::{LayerWeight, ModelWeight, WeightSlot};
use vstd::prelude::*;

verus! {

/// The number of a declared weight.
pub type TensorId = usize;

/// What decides the weights of one layer.
#[derive(Clone, Copy, Debug, PartialEq, Eq, Structural)]
pub struct LayerShape {
    /// A full-attention layer of a hybrid model.
    pub hybrid_attention: bool,
    /// A latent-attention layer.
    pub mla: bool,
    /// The layer that carries the n-gram embedding.
    pub ple: bool,
    pub moe: bool,
    /// Experts are chosen by token id.
    pub hash_moe: bool,
    /// The file has a V projection, a joined expert bank, a router bias for the layer.
    pub has_wv: bool,
    pub fused_experts: bool,
    pub has_probs_bias: bool,
    pub compress_ratio: usize,
}

/// What decides the weights of a model.
pub struct ModelShape {
    pub layers: Vec<LayerShape>,
    pub qwen35: bool,
    pub qwen4exp: bool,
    pub bailingmoe3: bool,
    pub deepseek2: bool,
    pub deepseek32: bool,
    pub deepseek4: bool,
    pub is_lite: bool,
    pub gemma: bool,
    pub gemma4: bool,
    pub diffusion_gemma: bool,
    pub qkv_bias: bool,
    pub qk_norm: bool,
    pub sub_norm: bool,
    pub dual_moe: bool,
    pub moe: bool,
    pub shared_expert: bool,
    pub shared_expert_gated: bool,
    pub kq_l2norm: bool,
    /// Per-layer input embeddings.
    pub e2b: bool,
    pub gpu_embed: bool,
    pub gpu_ple: bool,
    pub untied_lm: bool,
    pub fuse_gu: bool,
    pub fuse_qkv: bool,
}

pub open spec fn slot(l: int, weight: LayerWeight) -> WeightSlot {
    WeightSlot::Layer(l as usize, weight)
}

/// A list of weights of one layer.
pub open spec fn slots(l: int, weights: Seq<LayerWeight>) -> Seq<WeightSlot> {
    Seq::new(weights.len(), |i: int| slot(l, weights[i]))
}

/// A list of weights of one layer, if `wanted`.
pub open spec fn slots_if(l: int, wanted: bool, weights: Seq<LayerWeight>) -> Seq<WeightSlot> {
    if wanted {
        slots(l, weights)
    } else {
        Seq::empty()
    }
}

/// A list of weights of the model as a whole, if `wanted`.
pub open spec fn model_slots_if(wanted: bool, weights: Seq<ModelWeight>) -> Seq<WeightSlot> {
    if wanted {
        model_slots(weights)
    } else {
        Seq::empty()
    }
}

/// A list of weights of the model as a whole.
pub open spec fn model_slots(weights: Seq<ModelWeight>) -> Seq<WeightSlot> {
    Seq::new(weights.len(), |i: int| model_slot(weights[i]))
}

pub open spec fn model_slot(weight: ModelWeight) -> WeightSlot {
    WeightSlot::Model(weight)
}

impl ModelShape {
    /// A layer with a gated linear-attention mixer.
    pub open spec fn delta(&self, l: int) -> bool {
        (self.qwen35 || self.qwen4exp) && !self.layers@[l].hybrid_attention
    }

    /// A layer with a joined linear-attention mixer.
    pub open spec fn kda(&self, l: int) -> bool {
        self.bailingmoe3 && !self.layers@[l].mla
    }

    /// A layer with a routed expert bank.
    pub open spec fn routed(&self, l: int) -> bool {
        self.moe && self.layers@[l].moe
    }

    /// A layer whose router bias is uploaded.
    pub open spec fn probs_bias(&self, l: int) -> bool {
        self.routed(l) && !self.dual_moe && (((self.deepseek2 || self.bailingmoe3)
            && self.layers@[l].has_probs_bias) || (self.deepseek4 && !self.layers@[l].hash_moe))
    }

    /// The flags of a layer do not contradict each other: each architecture has one mixer, and only
    /// plain attention has projection biases and head norms.
    pub open spec fn layer_consistent(&self, l: int) -> bool {
        let layer = self.layers@[l];
        &&& self.deepseek4 ==> !layer.mla && !self.qk_norm && !self.qkv_bias && !self.deepseek2
            && !self.bailingmoe3
        &&& self.qkv_bias ==> !layer.mla && !self.kda(l) && !self.delta(l)
        &&& self.qwen4exp && layer.hybrid_attention ==> !layer.mla && !self.bailingmoe3
            && !self.deepseek4
        &&& layer.hash_moe ==> self.deepseek4
    }

    /// The flags of a model do not contradict each other.
    pub open spec fn consistent(&self) -> bool {
        forall|l: int| 0 <= l < self.layers@.len() ==> #[trigger] self.layer_consistent(l)
    }
}

/// The weights that a layer begins with.
pub open spec fn norm_weights(m: ModelShape, l: int) -> Seq<WeightSlot> {
    if m.qwen4exp {
        slots(l, seq![
            LayerWeight::HcAttnNorm,
            LayerWeight::HcAttnDown,
            LayerWeight::HcAttnUp,
            LayerWeight::HcAttnInject,
            LayerWeight::HcFfnNorm,
            LayerWeight::HcFfnDown,
            LayerWeight::HcFfnUp,
            LayerWeight::HcFfnInject,
        ])
    } else {
        slots(l, seq![LayerWeight::AttnNorm])
    }
}

/// The weights of a latent-attention mixer.
pub open spec fn mla_weights(m: ModelShape, l: int) -> Seq<WeightSlot> {
    (if m.is_lite {
        slots(l, seq![LayerWeight::Q])
    } else {
        slots(l, seq![LayerWeight::QA, LayerWeight::QANorm, LayerWeight::QB])
    }) + slots(l, seq![
        LayerWeight::KvAMqa,
        LayerWeight::KvANorm,
        LayerWeight::KB,
        LayerWeight::VB,
    ]) + slots_if(l, m.bailingmoe3, seq![
        LayerWeight::AttnGate,
    ]) + slots(l, seq![
        LayerWeight::AttnOutput,
    ]) + slots_if(l, m.deepseek32, seq![
        LayerWeight::IndexerKNorm,
        LayerWeight::IndexerKNormBias,
        LayerWeight::IndexerProj,
        LayerWeight::IndexerAttnK,
        LayerWeight::IndexerAttnQB,
    ])
}

/// The weights of a compressed-attention mixer.
pub open spec fn dsv4_weights(l: int) -> Seq<WeightSlot> {
    slots(l, seq![
        LayerWeight::Sinks,
        LayerWeight::QA,
        LayerWeight::QANorm,
        LayerWeight::QB,
        LayerWeight::Kv,
        LayerWeight::KvANorm,
        LayerWeight::OutputA,
        LayerWeight::OutputB,
    ])
}

/// The weights of the residual streams of a compressed-attention layer.
pub open spec fn dsv4_hc_weights(l: int) -> Seq<WeightSlot> {
    slots(l, seq![
        LayerWeight::HcAttnFn,
        LayerWeight::HcAttnBase,
        LayerWeight::HcAttnScale,
        LayerWeight::HcFfnFn,
        LayerWeight::HcFfnBase,
        LayerWeight::HcFfnScale,
    ])
}

/// The weights of a compressed-attention layer's compressors.
pub open spec fn dsv4_compressor_weights(m: ModelShape, l: int) -> Seq<WeightSlot> {
    slots_if(l, m.layers@[l].compress_ratio != 0, seq![
        LayerWeight::CompressorKv,
        LayerWeight::CompressorGate,
        LayerWeight::CompressorApe,
        LayerWeight::CompressorNorm,
    ]) + slots_if(l, m.layers@[l].compress_ratio == 4, seq![
        LayerWeight::IndexerProj,
        LayerWeight::IndexerAttnQB,
        LayerWeight::IndexerCompressorKv,
        LayerWeight::IndexerCompressorGate,
        LayerWeight::IndexerCompressorApe,
        LayerWeight::IndexerCompressorNorm,
    ])
}

pub open spec fn kda_weights(l: int) -> Seq<WeightSlot> {
    slots(l, seq![
        LayerWeight::QkvFused,
        LayerWeight::ConvQkv,
        LayerWeight::SsmF,
        LayerWeight::SsmBeta,
        LayerWeight::SsmA,
        LayerWeight::SsmDt,
        LayerWeight::SsmNorm,
        LayerWeight::SsmG,
        LayerWeight::AttnOutput,
    ])
}

pub open spec fn delta_weights(l: int) -> Seq<WeightSlot> {
    slots(l, seq![
        LayerWeight::DeltaQkv,
        LayerWeight::AttnGate,
        LayerWeight::Conv1d,
        LayerWeight::SsmAlpha,
        LayerWeight::SsmBeta,
        LayerWeight::SsmA,
        LayerWeight::SsmDt,
        LayerWeight::SsmNorm,
        LayerWeight::SsmOut,
    ])
}

/// The projections of a plain attention mixer.
pub open spec fn qkv_weights(m: ModelShape, l: int) -> Seq<WeightSlot> {
    if m.fuse_qkv {
        slots(l, seq![LayerWeight::QkvFused])
    } else {
        slots(l, seq![
            LayerWeight::Q,
            LayerWeight::K,
        ]) + slots_if(l, m.layers@[l].has_wv, seq![LayerWeight::V])
    }
}

/// The mixer's weights, in the order of their upload.
pub open spec fn uploaded_mixer(m: ModelShape, l: int) -> Seq<WeightSlot> {
    if m.layers@[l].mla {
        mla_weights(m, l)
    } else if m.deepseek4 {
        dsv4_weights(l) + dsv4_hc_weights(l) + dsv4_compressor_weights(m, l)
    } else if m.kda(l) {
        kda_weights(l)
    } else if m.delta(l) {
        delta_weights(l)
    } else {
        qkv_weights(m, l)
    }
}

pub open spec fn bias_weights(l: int) -> Seq<WeightSlot> {
    slots(l, seq![LayerWeight::QBias, LayerWeight::KBias, LayerWeight::VBias])
}

pub open spec fn qk_norm_weights(l: int) -> Seq<WeightSlot> {
    slots(l, seq![LayerWeight::QNorm, LayerWeight::KNorm])
}

pub open spec fn qsa_weights(l: int) -> Seq<WeightSlot> {
    slots(l, seq![
        LayerWeight::QsaKNorm,
        LayerWeight::QsaKProj,
        LayerWeight::QsaQNorm,
        LayerWeight::QsaQProj,
    ])
}

pub open spec fn ple_weights(m: ModelShape, l: int) -> Seq<WeightSlot> {
    slots_if(l, m.layers@[l].ple, seq![
        LayerWeight::PleKey,
        LayerWeight::PleValue,
        LayerWeight::PleNormKey,
        LayerWeight::PleNormQuery,
        LayerWeight::PleNormConv,
        LayerWeight::PleConv,
    ])
}

/// What is uploaded between the mixer and the layer's last norms.
pub open spec fn uploaded_after_mixer(m: ModelShape, l: int) -> Seq<WeightSlot> {
    (if m.qkv_bias {
        bias_weights(l)
    } else {
        Seq::empty()
    }) + (if m.qk_norm && !m.delta(l) && !m.layers@[l].mla && !m.kda(l) {
        qk_norm_weights(l)
    } else {
        Seq::empty()
    }) + slots_if(l, !m.delta(l) && !m.layers@[l].mla && !m.kda(l) && !m.deepseek4, seq![
        LayerWeight::AttnOutput,
    ]) + (if m.qwen4exp && m.layers@[l].hybrid_attention {
        qsa_weights(l)
    } else {
        Seq::empty()
    }) + ple_weights(m, l)
}

/// The norms between the mixer and the feed-forward block.
pub open spec fn middle_norms(m: ModelShape, l: int) -> Seq<WeightSlot> {
    slots_if(l, m.sub_norm && !m.delta(l), seq![
        LayerWeight::AttnSubNorm,
    ]) + slots_if(l, m.gemma, seq![LayerWeight::PostAttnNorm]) + (if !m.qwen4exp {
        slots(l, seq![if m.qwen35 { LayerWeight::PostAttnNorm } else { LayerWeight::FfnNorm }])
    } else {
        Seq::empty()
    })
}

/// The weights of a dense branch beside an expert bank.
pub open spec fn dual_weights(m: ModelShape, l: int) -> Seq<WeightSlot> {
    (if m.fuse_gu {
        slots(l, seq![LayerWeight::GateUpFused])
    } else {
        slots(l, seq![LayerWeight::Gate, LayerWeight::Up])
    }) + slots(l, seq![
        LayerWeight::Down,
        LayerWeight::PostFfwNorm1,
        LayerWeight::PreFfwNorm2,
        LayerWeight::Router,
        LayerWeight::RouterScale,
        LayerWeight::GateUpExps,
        LayerWeight::DownExps,
        LayerWeight::DownExpsScale,
        LayerWeight::PostFfwNorm2,
    ])
}

/// The weights of a shared expert.
pub open spec fn shared_weights(m: ModelShape, l: int) -> Seq<WeightSlot> {
    (if m.shared_expert {
        slots_if(l, m.shared_expert_gated, seq![
            LayerWeight::SharedGateInp,
        ]) + slots(l, seq![LayerWeight::SharedGate, LayerWeight::SharedUp, LayerWeight::SharedDown])
    } else {
        Seq::empty()
    })
}

/// The weights of a routed expert bank, without what its routing adds.
pub open spec fn bank_weights(m: ModelShape, l: int) -> Seq<WeightSlot> {
    slots(l, seq![LayerWeight::Router]) + (if m.layers@[l].fused_experts {
        slots(l, seq![LayerWeight::GateUpExps])
    } else {
        slots(l, seq![LayerWeight::GateExps, LayerWeight::UpExps])
    }) + slots(l, seq![LayerWeight::DownExps])
}

/// The routing tensors of an expert bank, in the order of their upload.
pub open spec fn uploaded_routing(m: ModelShape, l: int) -> Seq<WeightSlot> {
    slots_if(l, (m.deepseek2 || m.bailingmoe3) && m.layers@[l].has_probs_bias, seq![
        LayerWeight::ExpProbsB,
    ]) + (if m.deepseek4 {
        if m.layers@[l].hash_moe {
            slots(l, seq![LayerWeight::Tid2Eid])
        } else {
            slots(l, seq![LayerWeight::ExpProbsB])
        }
    } else {
        Seq::empty()
    })
}

pub open spec fn dense_weights(m: ModelShape, l: int) -> Seq<WeightSlot> {
    if m.fuse_gu {
        slots(l, seq![LayerWeight::GateUpFused, LayerWeight::Down])
    } else {
        slots(l, seq![LayerWeight::Gate, LayerWeight::Up, LayerWeight::Down])
    }
}

/// The feed-forward block's weights, in the order of their upload.
pub open spec fn uploaded_ffn(m: ModelShape, l: int) -> Seq<WeightSlot> {
    if m.dual_moe {
        dual_weights(m, l)
    } else if m.routed(l) {
        bank_weights(m, l) + uploaded_routing(m, l) + shared_weights(m, l)
    } else {
        dense_weights(m, l)
    }
}

/// The weights that a layer ends with.
pub open spec fn last_weights(m: ModelShape, l: int) -> Seq<WeightSlot> {
    slots_if(l, m.sub_norm, seq![
        LayerWeight::FfnSubNorm,
    ]) + slots_if(l, m.gemma, seq![
        LayerWeight::PostFfwNorm,
    ]) + slots_if(l, m.e2b, seq![LayerWeight::InpGate, LayerWeight::Proj, LayerWeight::PostNorm])
}

/// The weights of one layer, in the order of their upload.
pub open spec fn uploaded_layer(m: ModelShape, l: int) -> Seq<WeightSlot> {
    norm_weights(m, l) + uploaded_mixer(m, l) + uploaded_after_mixer(m, l) + middle_norms(m, l)
        + uploaded_ffn(m, l) + last_weights(m, l)
}

/// The weights of the first `n` layers, in the order of their upload.
pub open spec fn uploaded_below(m: ModelShape, n: nat) -> Seq<WeightSlot>
    decreases n,
{
    if n == 0 {
        Seq::empty()
    } else {
        uploaded_below(m, (n - 1) as nat) + uploaded_layer(m, n - 1)
    }
}

/// The weights of the model as a whole, up to the language-model head's extras.
pub open spec fn head_weights(m: ModelShape) -> Seq<WeightSlot> {
    (if m.qwen4exp {
        model_slots(seq![
            ModelWeight::OutputHcNorm,
            ModelWeight::OutputHcDown,
            ModelWeight::OutputHcUp,
        ])
    } else {
        model_slots(seq![ModelWeight::OutputNorm])
    }) + (if m.untied_lm {
        model_slots(seq![ModelWeight::LmHead])
    } else {
        model_slots(seq![ModelWeight::TiedLmHead])
    }) + model_slots_if(m.deepseek4, seq![
        ModelWeight::OutputHcFn,
        ModelWeight::OutputHcBase,
        ModelWeight::OutputHcScale,
    ]) + model_slots_if(m.gpu_embed && m.untied_lm, seq![
        ModelWeight::TokenEmbd,
    ]) + model_slots_if(m.gpu_ple, seq![ModelWeight::PerLayerTokenEmbd])
}

/// The remaining weights of the model as a whole, and the vectors of ones.
pub open spec fn extra_weights(m: ModelShape) -> Seq<WeightSlot> {
    model_slots_if(m.diffusion_gemma, seq![
        ModelWeight::SelfCondPreNorm,
        ModelWeight::SelfCondGate,
        ModelWeight::SelfCondUp,
        ModelWeight::SelfCondDown,
    ]) + model_slots_if(m.e2b, seq![
        ModelWeight::PerLayerModelProj,
        ModelWeight::PerLayerProjNorm,
    ]) + model_slots_if(m.gemma4, seq![
        ModelWeight::VOnes,
    ]) + model_slots_if(m.dual_moe, seq![
        ModelWeight::RouterOnes,
    ]) + model_slots_if(m.kq_l2norm, seq![
        ModelWeight::QkOnes,
    ]) + model_slots_if(m.deepseek4, seq![
        ModelWeight::HcOnes,
    ]) + model_slots_if(m.qwen4exp, seq![ModelWeight::QwenHcOnes])
}

/// All weights of a model, in the order of their upload.
pub open spec fn uploaded(m: ModelShape) -> Seq<WeightSlot> {
    uploaded_below(m, m.layers@.len()) + head_weights(m) + extra_weights(m)
}

/// Appends weights of one layer, if `wanted`.
fn put(out: &mut Vec<WeightSlot>, l: usize, wanted: bool, weights: &[LayerWeight])
    ensures
        final(out)@ == old(out)@ + slots_if(l as int, wanted, weights@),
{
    if !wanted {
        assert(out@ =~= old(out)@ + Seq::<WeightSlot>::empty());
        return ;
    }
    let ghost start = out@;
    let mut i: usize = 0;
    while i < weights.len()
        invariant
            i <= weights@.len(),
            out@ == start + slots(l as int, weights@.take(i as int)),
        decreases weights@.len() - i,
    {
        out.push(WeightSlot::Layer(l, weights[i]));
        i = i + 1;
        assert(out@ =~= start + slots(l as int, weights@.take(i as int)));
    }
    assert(weights@.take(i as int) =~= weights@);
}

/// Appends weights of the model as a whole, if `wanted`.
fn put_model(out: &mut Vec<WeightSlot>, wanted: bool, weights: &[ModelWeight])
    ensures
        final(out)@ == old(out)@ + model_slots_if(wanted, weights@),
{
    if !wanted {
        assert(out@ =~= old(out)@ + Seq::<WeightSlot>::empty());
        return ;
    }
    let ghost start = out@;
    let mut i: usize = 0;
    while i < weights.len()
        invariant
            i <= weights@.len(),
            out@ == start + model_slots(weights@.take(i as int)),
        decreases weights@.len() - i,
    {
        out.push(WeightSlot::Model(weights[i]));
        i = i + 1;
        assert(out@ =~= start + model_slots(weights@.take(i as int)));
    }
    assert(weights@.take(i as int) =~= weights@);
}

fn upload_norm(m: &ModelShape, l: usize) -> (out: Vec<WeightSlot>)
    requires
        l < m.layers@.len(),
    ensures
        out@ == norm_weights(*m, l as int),
{
    let mut out: Vec<WeightSlot> = Vec::new();
    if m.qwen4exp {
        put(&mut out, l, true, &[
            LayerWeight::HcAttnNorm,
            LayerWeight::HcAttnDown,
            LayerWeight::HcAttnUp,
            LayerWeight::HcAttnInject,
            LayerWeight::HcFfnNorm,
            LayerWeight::HcFfnDown,
            LayerWeight::HcFfnUp,
            LayerWeight::HcFfnInject,
        ]);
        assert([
            LayerWeight::HcAttnNorm,
            LayerWeight::HcAttnDown,
            LayerWeight::HcAttnUp,
            LayerWeight::HcAttnInject,
            LayerWeight::HcFfnNorm,
            LayerWeight::HcFfnDown,
            LayerWeight::HcFfnUp,
            LayerWeight::HcFfnInject,
        ]@ =~= seq![
            LayerWeight::HcAttnNorm,
            LayerWeight::HcAttnDown,
            LayerWeight::HcAttnUp,
            LayerWeight::HcAttnInject,
            LayerWeight::HcFfnNorm,
            LayerWeight::HcFfnDown,
            LayerWeight::HcFfnUp,
            LayerWeight::HcFfnInject,
        ]);
    } else {
        put(&mut out, l, true, &[LayerWeight::AttnNorm]);
        assert([LayerWeight::AttnNorm]@ =~= seq![LayerWeight::AttnNorm]);
    }
    assert(out@ =~= norm_weights(*m, l as int));
    out
}

fn upload_mla(m: &ModelShape, l: usize) -> (out: Vec<WeightSlot>)
    requires
        l < m.layers@.len(),
    ensures
        out@ == mla_weights(*m, l as int),
{
    let mut out: Vec<WeightSlot> = Vec::new();
    if m.is_lite {
        put(&mut out, l, true, &[LayerWeight::Q]);
        assert([LayerWeight::Q]@ =~= seq![LayerWeight::Q]);
    } else {
        put(&mut out, l, true, &[LayerWeight::QA, LayerWeight::QANorm, LayerWeight::QB]);
        assert([LayerWeight::QA, LayerWeight::QANorm, LayerWeight::QB]@ =~= seq![
            LayerWeight::QA,
            LayerWeight::QANorm,
            LayerWeight::QB,
        ]);
    }
    assert(out@ =~= (if m.is_lite {
        slots(l as int, seq![LayerWeight::Q])
    } else {
        slots(l as int, seq![LayerWeight::QA, LayerWeight::QANorm, LayerWeight::QB])
    }));
    put(&mut out, l, true, &[
        LayerWeight::KvAMqa,
        LayerWeight::KvANorm,
        LayerWeight::KB,
        LayerWeight::VB,
    ]);
    assert([LayerWeight::KvAMqa, LayerWeight::KvANorm, LayerWeight::KB, LayerWeight::VB]@ =~= seq![
        LayerWeight::KvAMqa,
        LayerWeight::KvANorm,
        LayerWeight::KB,
        LayerWeight::VB,
    ]);
    put(&mut out, l, m.bailingmoe3, &[LayerWeight::AttnGate]);
    assert([LayerWeight::AttnGate]@ =~= seq![LayerWeight::AttnGate]);
    put(&mut out, l, true, &[LayerWeight::AttnOutput]);
    assert([LayerWeight::AttnOutput]@ =~= seq![LayerWeight::AttnOutput]);
    put(&mut out, l, m.deepseek32, &[
        LayerWeight::IndexerKNorm,
        LayerWeight::IndexerKNormBias,
        LayerWeight::IndexerProj,
        LayerWeight::IndexerAttnK,
        LayerWeight::IndexerAttnQB,
    ]);
    assert([
        LayerWeight::IndexerKNorm,
        LayerWeight::IndexerKNormBias,
        LayerWeight::IndexerProj,
        LayerWeight::IndexerAttnK,
        LayerWeight::IndexerAttnQB,
    ]@ =~= seq![
        LayerWeight::IndexerKNorm,
        LayerWeight::IndexerKNormBias,
        LayerWeight::IndexerProj,
        LayerWeight::IndexerAttnK,
        LayerWeight::IndexerAttnQB,
    ]);
    out
}

fn upload_dsv4(m: &ModelShape, l: usize) -> (out: Vec<WeightSlot>)
    requires
        l < m.layers@.len(),
    ensures
        out@ == dsv4_weights(l as int) + dsv4_hc_weights(l as int) + dsv4_compressor_weights(*m, l as int),
{
    let mut out: Vec<WeightSlot> = Vec::new();
    put(&mut out, l, true, &[
        LayerWeight::Sinks,
        LayerWeight::QA,
        LayerWeight::QANorm,
        LayerWeight::QB,
        LayerWeight::Kv,
        LayerWeight::KvANorm,
        LayerWeight::OutputA,
        LayerWeight::OutputB,
    ]);
    assert([
        LayerWeight::Sinks,
        LayerWeight::QA,
        LayerWeight::QANorm,
        LayerWeight::QB,
        LayerWeight::Kv,
        LayerWeight::KvANorm,
        LayerWeight::OutputA,
        LayerWeight::OutputB,
    ]@ =~= seq![
        LayerWeight::Sinks,
        LayerWeight::QA,
        LayerWeight::QANorm,
        LayerWeight::QB,
        LayerWeight::Kv,
        LayerWeight::KvANorm,
        LayerWeight::OutputA,
        LayerWeight::OutputB,
    ]);
    assert(out@ =~= dsv4_weights(l as int));
    put(&mut out, l, true, &[
        LayerWeight::HcAttnFn,
        LayerWeight::HcAttnBase,
        LayerWeight::HcAttnScale,
        LayerWeight::HcFfnFn,
        LayerWeight::HcFfnBase,
        LayerWeight::HcFfnScale,
    ]);
    assert([
        LayerWeight::HcAttnFn,
        LayerWeight::HcAttnBase,
        LayerWeight::HcAttnScale,
        LayerWeight::HcFfnFn,
        LayerWeight::HcFfnBase,
        LayerWeight::HcFfnScale,
    ]@ =~= seq![
        LayerWeight::HcAttnFn,
        LayerWeight::HcAttnBase,
        LayerWeight::HcAttnScale,
        LayerWeight::HcFfnFn,
        LayerWeight::HcFfnBase,
        LayerWeight::HcFfnScale,
    ]);
    let mut compressors: Vec<WeightSlot> = upload_compressors(m, l);
    out.append(&mut compressors);
    out
}

fn upload_compressors(m: &ModelShape, l: usize) -> (out: Vec<WeightSlot>)
    requires
        l < m.layers@.len(),
    ensures
        out@ == dsv4_compressor_weights(*m, l as int),
{
    let mut out: Vec<WeightSlot> = Vec::new();
    let ratio: usize = m.layers[l].compress_ratio;
    put(&mut out, l, ratio != 0, &[
        LayerWeight::CompressorKv,
        LayerWeight::CompressorGate,
        LayerWeight::CompressorApe,
        LayerWeight::CompressorNorm,
    ]);
    assert([
        LayerWeight::CompressorKv,
        LayerWeight::CompressorGate,
        LayerWeight::CompressorApe,
        LayerWeight::CompressorNorm,
    ]@ =~= seq![
        LayerWeight::CompressorKv,
        LayerWeight::CompressorGate,
        LayerWeight::CompressorApe,
        LayerWeight::CompressorNorm,
    ]);
    assert(out@ =~= (if m.layers@[l as int].compress_ratio != 0 {
        slots(l as int, seq![
            LayerWeight::CompressorKv,
            LayerWeight::CompressorGate,
            LayerWeight::CompressorApe,
            LayerWeight::CompressorNorm,
        ])
    } else {
        Seq::empty()
    }));
    put(&mut out, l, ratio == 4, &[
        LayerWeight::IndexerProj,
        LayerWeight::IndexerAttnQB,
        LayerWeight::IndexerCompressorKv,
        LayerWeight::IndexerCompressorGate,
        LayerWeight::IndexerCompressorApe,
        LayerWeight::IndexerCompressorNorm,
    ]);
    assert([
        LayerWeight::IndexerProj,
        LayerWeight::IndexerAttnQB,
        LayerWeight::IndexerCompressorKv,
        LayerWeight::IndexerCompressorGate,
        LayerWeight::IndexerCompressorApe,
        LayerWeight::IndexerCompressorNorm,
    ]@ =~= seq![
        LayerWeight::IndexerProj,
        LayerWeight::IndexerAttnQB,
        LayerWeight::IndexerCompressorKv,
        LayerWeight::IndexerCompressorGate,
        LayerWeight::IndexerCompressorApe,
        LayerWeight::IndexerCompressorNorm,
    ]);
    out
}

fn upload_kda(l: usize) -> (out: Vec<WeightSlot>)
    ensures
        out@ == kda_weights(l as int),
{
    let mut out: Vec<WeightSlot> = Vec::new();
    put(&mut out, l, true, &[
        LayerWeight::QkvFused,
        LayerWeight::ConvQkv,
        LayerWeight::SsmF,
        LayerWeight::SsmBeta,
        LayerWeight::SsmA,
        LayerWeight::SsmDt,
        LayerWeight::SsmNorm,
        LayerWeight::SsmG,
        LayerWeight::AttnOutput,
    ]);
    assert([
        LayerWeight::QkvFused,
        LayerWeight::ConvQkv,
        LayerWeight::SsmF,
        LayerWeight::SsmBeta,
        LayerWeight::SsmA,
        LayerWeight::SsmDt,
        LayerWeight::SsmNorm,
        LayerWeight::SsmG,
        LayerWeight::AttnOutput,
    ]@ =~= seq![
        LayerWeight::QkvFused,
        LayerWeight::ConvQkv,
        LayerWeight::SsmF,
        LayerWeight::SsmBeta,
        LayerWeight::SsmA,
        LayerWeight::SsmDt,
        LayerWeight::SsmNorm,
        LayerWeight::SsmG,
        LayerWeight::AttnOutput,
    ]);
    assert(out@ =~= kda_weights(l as int));
    out
}

fn upload_delta(l: usize) -> (out: Vec<WeightSlot>)
    ensures
        out@ == delta_weights(l as int),
{
    let mut out: Vec<WeightSlot> = Vec::new();
    put(&mut out, l, true, &[
        LayerWeight::DeltaQkv,
        LayerWeight::AttnGate,
        LayerWeight::Conv1d,
        LayerWeight::SsmAlpha,
        LayerWeight::SsmBeta,
        LayerWeight::SsmA,
        LayerWeight::SsmDt,
        LayerWeight::SsmNorm,
        LayerWeight::SsmOut,
    ]);
    assert([
        LayerWeight::DeltaQkv,
        LayerWeight::AttnGate,
        LayerWeight::Conv1d,
        LayerWeight::SsmAlpha,
        LayerWeight::SsmBeta,
        LayerWeight::SsmA,
        LayerWeight::SsmDt,
        LayerWeight::SsmNorm,
        LayerWeight::SsmOut,
    ]@ =~= seq![
        LayerWeight::DeltaQkv,
        LayerWeight::AttnGate,
        LayerWeight::Conv1d,
        LayerWeight::SsmAlpha,
        LayerWeight::SsmBeta,
        LayerWeight::SsmA,
        LayerWeight::SsmDt,
        LayerWeight::SsmNorm,
        LayerWeight::SsmOut,
    ]);
    assert(out@ =~= delta_weights(l as int));
    out
}

fn upload_qkv(m: &ModelShape, l: usize) -> (out: Vec<WeightSlot>)
    requires
        l < m.layers@.len(),
    ensures
        out@ == qkv_weights(*m, l as int),
{
    let mut out: Vec<WeightSlot> = Vec::new();
    if m.fuse_qkv {
        put(&mut out, l, true, &[LayerWeight::QkvFused]);
        assert([LayerWeight::QkvFused]@ =~= seq![LayerWeight::QkvFused]);
        assert(out@ =~= qkv_weights(*m, l as int));
    } else {
        put(&mut out, l, true, &[LayerWeight::Q, LayerWeight::K]);
        assert([LayerWeight::Q, LayerWeight::K]@ =~= seq![LayerWeight::Q, LayerWeight::K]);
        assert(out@ =~= slots(l as int, seq![LayerWeight::Q, LayerWeight::K]));
        put(&mut out, l, m.layers[l].has_wv, &[LayerWeight::V]);
        assert([LayerWeight::V]@ =~= seq![LayerWeight::V]);
    }
    out
}

/// Whether a layer has a gated linear-attention mixer.
fn is_delta(m: &ModelShape, l: usize) -> (delta: bool)
    requires
        l < m.layers@.len(),
    ensures
        delta == m.delta(l as int),
{
    (m.qwen35 || m.qwen4exp) && !m.layers[l].hybrid_attention
}

fn upload_mixer(m: &ModelShape, l: usize) -> (out: Vec<WeightSlot>)
    requires
        l < m.layers@.len(),
    ensures
        out@ == uploaded_mixer(*m, l as int),
{
    if m.layers[l].mla {
        upload_mla(m, l)
    } else if m.deepseek4 {
        upload_dsv4(m, l)
    } else if m.bailingmoe3 {
        upload_kda(l)
    } else if is_delta(m, l) {
        upload_delta(l)
    } else {
        upload_qkv(m, l)
    }
}

fn upload_after_mixer(m: &ModelShape, l: usize) -> (out: Vec<WeightSlot>)
    requires
        l < m.layers@.len(),
    ensures
        out@ == uploaded_after_mixer(*m, l as int),
{
    let mut out: Vec<WeightSlot> = Vec::new();
    let layer: LayerShape = m.layers[l];
    let delta: bool = is_delta(m, l);
    let kda: bool = m.bailingmoe3 && !layer.mla;
    put(&mut out, l, m.qkv_bias, &[LayerWeight::QBias, LayerWeight::KBias, LayerWeight::VBias]);
    assert([LayerWeight::QBias, LayerWeight::KBias, LayerWeight::VBias]@ =~= seq![
        LayerWeight::QBias,
        LayerWeight::KBias,
        LayerWeight::VBias,
    ]);
    assert(out@ =~= (if m.qkv_bias {
        bias_weights(l as int)
    } else {
        Seq::empty()
    }));
    put(&mut out, l, m.qk_norm && !delta && !layer.mla && !kda, &[
        LayerWeight::QNorm,
        LayerWeight::KNorm,
    ]);
    assert([LayerWeight::QNorm, LayerWeight::KNorm]@ =~= seq![
        LayerWeight::QNorm,
        LayerWeight::KNorm,
    ]);
    put(&mut out, l, !delta && !layer.mla && !kda && !m.deepseek4, &[LayerWeight::AttnOutput]);
    assert([LayerWeight::AttnOutput]@ =~= seq![LayerWeight::AttnOutput]);
    put(&mut out, l, m.qwen4exp && layer.hybrid_attention, &[
        LayerWeight::QsaKNorm,
        LayerWeight::QsaKProj,
        LayerWeight::QsaQNorm,
        LayerWeight::QsaQProj,
    ]);
    assert([
        LayerWeight::QsaKNorm,
        LayerWeight::QsaKProj,
        LayerWeight::QsaQNorm,
        LayerWeight::QsaQProj,
    ]@ =~= seq![
        LayerWeight::QsaKNorm,
        LayerWeight::QsaKProj,
        LayerWeight::QsaQNorm,
        LayerWeight::QsaQProj,
    ]);
    put(&mut out, l, layer.ple, &[
        LayerWeight::PleKey,
        LayerWeight::PleValue,
        LayerWeight::PleNormKey,
        LayerWeight::PleNormQuery,
        LayerWeight::PleNormConv,
        LayerWeight::PleConv,
    ]);
    assert([
        LayerWeight::PleKey,
        LayerWeight::PleValue,
        LayerWeight::PleNormKey,
        LayerWeight::PleNormQuery,
        LayerWeight::PleNormConv,
        LayerWeight::PleConv,
    ]@ =~= seq![
        LayerWeight::PleKey,
        LayerWeight::PleValue,
        LayerWeight::PleNormKey,
        LayerWeight::PleNormQuery,
        LayerWeight::PleNormConv,
        LayerWeight::PleConv,
    ]);
    out
}

fn upload_middle_norms(m: &ModelShape, l: usize) -> (out: Vec<WeightSlot>)
    requires
        l < m.layers@.len(),
    ensures
        out@ == middle_norms(*m, l as int),
{
    let mut out: Vec<WeightSlot> = Vec::new();
    let delta: bool = is_delta(m, l);
    put(&mut out, l, m.sub_norm && !delta, &[LayerWeight::AttnSubNorm]);
    assert([LayerWeight::AttnSubNorm]@ =~= seq![LayerWeight::AttnSubNorm]);
    assert(out@ =~= (if m.sub_norm && !m.delta(l as int) {
        slots(l as int, seq![LayerWeight::AttnSubNorm])
    } else {
        Seq::empty()
    }));
    put(&mut out, l, m.gemma, &[LayerWeight::PostAttnNorm]);
    assert([LayerWeight::PostAttnNorm]@ =~= seq![LayerWeight::PostAttnNorm]);
    if m.qwen35 {
        put(&mut out, l, !m.qwen4exp, &[LayerWeight::PostAttnNorm]);
        assert([LayerWeight::PostAttnNorm]@ =~= seq![LayerWeight::PostAttnNorm]);
    } else {
        put(&mut out, l, !m.qwen4exp, &[LayerWeight::FfnNorm]);
        assert([LayerWeight::FfnNorm]@ =~= seq![LayerWeight::FfnNorm]);
    }
    out
}

fn upload_dual(m: &ModelShape, l: usize) -> (out: Vec<WeightSlot>)
    requires
        l < m.layers@.len(),
    ensures
        out@ == dual_weights(*m, l as int),
{
    let mut out: Vec<WeightSlot> = Vec::new();
    if m.fuse_gu {
        put(&mut out, l, true, &[LayerWeight::GateUpFused]);
        assert([LayerWeight::GateUpFused]@ =~= seq![LayerWeight::GateUpFused]);
    } else {
        put(&mut out, l, true, &[LayerWeight::Gate, LayerWeight::Up]);
        assert([LayerWeight::Gate, LayerWeight::Up]@ =~= seq![LayerWeight::Gate, LayerWeight::Up]);
    }
    assert(out@ =~= (if m.fuse_gu {
        slots(l as int, seq![LayerWeight::GateUpFused])
    } else {
        slots(l as int, seq![LayerWeight::Gate, LayerWeight::Up])
    }));
    put(&mut out, l, true, &[
        LayerWeight::Down,
        LayerWeight::PostFfwNorm1,
        LayerWeight::PreFfwNorm2,
        LayerWeight::Router,
        LayerWeight::RouterScale,
        LayerWeight::GateUpExps,
        LayerWeight::DownExps,
        LayerWeight::DownExpsScale,
        LayerWeight::PostFfwNorm2,
    ]);
    assert([
        LayerWeight::Down,
        LayerWeight::PostFfwNorm1,
        LayerWeight::PreFfwNorm2,
        LayerWeight::Router,
        LayerWeight::RouterScale,
        LayerWeight::GateUpExps,
        LayerWeight::DownExps,
        LayerWeight::DownExpsScale,
        LayerWeight::PostFfwNorm2,
    ]@ =~= seq![
        LayerWeight::Down,
        LayerWeight::PostFfwNorm1,
        LayerWeight::PreFfwNorm2,
        LayerWeight::Router,
        LayerWeight::RouterScale,
        LayerWeight::GateUpExps,
        LayerWeight::DownExps,
        LayerWeight::DownExpsScale,
        LayerWeight::PostFfwNorm2,
    ]);
    out
}

fn upload_shared(m: &ModelShape, l: usize) -> (out: Vec<WeightSlot>)
    requires
        l < m.layers@.len(),
    ensures
        out@ == shared_weights(*m, l as int),
{
    let mut out: Vec<WeightSlot> = Vec::new();
    if m.shared_expert {
        put(&mut out, l, m.shared_expert_gated, &[LayerWeight::SharedGateInp]);
        assert([LayerWeight::SharedGateInp]@ =~= seq![LayerWeight::SharedGateInp]);
        assert(out@ =~= (if m.shared_expert_gated {
        slots(l as int, seq![LayerWeight::SharedGateInp])
    } else {
        Seq::empty()
    }));
        put(&mut out, l, true, &[
            LayerWeight::SharedGate,
            LayerWeight::SharedUp,
            LayerWeight::SharedDown,
        ]);
        assert([LayerWeight::SharedGate, LayerWeight::SharedUp, LayerWeight::SharedDown]@ =~= seq![
            LayerWeight::SharedGate,
            LayerWeight::SharedUp,
            LayerWeight::SharedDown,
        ]);
    } else {
        assert(out@ =~= shared_weights(*m, l as int));
    }
    out
}

fn upload_routing(m: &ModelShape, l: usize) -> (out: Vec<WeightSlot>)
    requires
        l < m.layers@.len(),
    ensures
        out@ == uploaded_routing(*m, l as int),
{
    let mut out: Vec<WeightSlot> = Vec::new();
    let layer: LayerShape = m.layers[l];
    put(&mut out, l, (m.deepseek2 || m.bailingmoe3) && layer.has_probs_bias, &[
        LayerWeight::ExpProbsB,
    ]);
    assert([LayerWeight::ExpProbsB]@ =~= seq![LayerWeight::ExpProbsB]);
    assert(out@ =~= (if (m.deepseek2 || m.bailingmoe3) && m.layers@[l as int].has_probs_bias {
        slots(l as int, seq![LayerWeight::ExpProbsB])
    } else {
        Seq::empty()
    }));
    if layer.hash_moe {
        put(&mut out, l, m.deepseek4, &[LayerWeight::Tid2Eid]);
        assert([LayerWeight::Tid2Eid]@ =~= seq![LayerWeight::Tid2Eid]);
    } else {
        put(&mut out, l, m.deepseek4, &[LayerWeight::ExpProbsB]);
        assert([LayerWeight::ExpProbsB]@ =~= seq![LayerWeight::ExpProbsB]);
    }
    out
}

fn upload_bank(m: &ModelShape, l: usize) -> (out: Vec<WeightSlot>)
    requires
        l < m.layers@.len(),
    ensures
        out@ == bank_weights(*m, l as int),
{
    let mut out: Vec<WeightSlot> = Vec::new();
    put(&mut out, l, true, &[LayerWeight::Router]);
    assert([LayerWeight::Router]@ =~= seq![LayerWeight::Router]);
    assert(out@ =~= slots(l as int, seq![LayerWeight::Router]));
    if m.layers[l].fused_experts {
        put(&mut out, l, true, &[LayerWeight::GateUpExps]);
        assert([LayerWeight::GateUpExps]@ =~= seq![LayerWeight::GateUpExps]);
    } else {
        put(&mut out, l, true, &[LayerWeight::GateExps, LayerWeight::UpExps]);
        assert([LayerWeight::GateExps, LayerWeight::UpExps]@ =~= seq![
            LayerWeight::GateExps,
            LayerWeight::UpExps,
        ]);
    }
    put(&mut out, l, true, &[LayerWeight::DownExps]);
    assert([LayerWeight::DownExps]@ =~= seq![LayerWeight::DownExps]);
    out
}

fn upload_ffn(m: &ModelShape, l: usize) -> (out: Vec<WeightSlot>)
    requires
        l < m.layers@.len(),
    ensures
        out@ == uploaded_ffn(*m, l as int),
{
    if m.dual_moe {
        return upload_dual(m, l);
    }
    if m.moe && m.layers[l].moe {
        let mut out: Vec<WeightSlot> = upload_bank(m, l);
        let mut routing: Vec<WeightSlot> = upload_routing(m, l);
        out.append(&mut routing);
        let mut shared: Vec<WeightSlot> = upload_shared(m, l);
        out.append(&mut shared);
        return out;
    }
    let mut out: Vec<WeightSlot> = Vec::new();
    if m.fuse_gu {
        put(&mut out, l, true, &[LayerWeight::GateUpFused, LayerWeight::Down]);
        assert([LayerWeight::GateUpFused, LayerWeight::Down]@ =~= seq![
            LayerWeight::GateUpFused,
            LayerWeight::Down,
        ]);
    } else {
        put(&mut out, l, true, &[LayerWeight::Gate, LayerWeight::Up, LayerWeight::Down]);
        assert([LayerWeight::Gate, LayerWeight::Up, LayerWeight::Down]@ =~= seq![
            LayerWeight::Gate,
            LayerWeight::Up,
            LayerWeight::Down,
        ]);
    }
    assert(out@ =~= dense_weights(*m, l as int));
    out
}

fn upload_last(m: &ModelShape, l: usize) -> (out: Vec<WeightSlot>)
    requires
        l < m.layers@.len(),
    ensures
        out@ == last_weights(*m, l as int),
{
    let mut out: Vec<WeightSlot> = Vec::new();
    put(&mut out, l, m.sub_norm, &[LayerWeight::FfnSubNorm]);
    assert([LayerWeight::FfnSubNorm]@ =~= seq![LayerWeight::FfnSubNorm]);
    assert(out@ =~= (if m.sub_norm {
        slots(l as int, seq![LayerWeight::FfnSubNorm])
    } else {
        Seq::empty()
    }));
    put(&mut out, l, m.gemma, &[LayerWeight::PostFfwNorm]);
    assert([LayerWeight::PostFfwNorm]@ =~= seq![LayerWeight::PostFfwNorm]);
    put(&mut out, l, m.e2b, &[LayerWeight::InpGate, LayerWeight::Proj, LayerWeight::PostNorm]);
    assert([LayerWeight::InpGate, LayerWeight::Proj, LayerWeight::PostNorm]@ =~= seq![
        LayerWeight::InpGate,
        LayerWeight::Proj,
        LayerWeight::PostNorm,
    ]);
    out
}

fn upload_head(m: &ModelShape) -> (out: Vec<WeightSlot>)
    ensures
        out@ == head_weights(*m),
{
    let mut out: Vec<WeightSlot> = Vec::new();
    if m.qwen4exp {
        put_model(&mut out, true, &[
            ModelWeight::OutputHcNorm,
            ModelWeight::OutputHcDown,
            ModelWeight::OutputHcUp,
        ]);
        assert([
            ModelWeight::OutputHcNorm,
            ModelWeight::OutputHcDown,
            ModelWeight::OutputHcUp,
        ]@ =~= seq![
            ModelWeight::OutputHcNorm,
            ModelWeight::OutputHcDown,
            ModelWeight::OutputHcUp,
        ]);
    } else {
        put_model(&mut out, true, &[ModelWeight::OutputNorm]);
        assert([ModelWeight::OutputNorm]@ =~= seq![ModelWeight::OutputNorm]);
    }
    assert(out@ =~= (if m.qwen4exp {
        model_slots(seq![
            ModelWeight::OutputHcNorm,
            ModelWeight::OutputHcDown,
            ModelWeight::OutputHcUp,
        ])
    } else {
        model_slots(seq![ModelWeight::OutputNorm])
    }));
    if m.untied_lm {
        put_model(&mut out, true, &[ModelWeight::LmHead]);
        assert([ModelWeight::LmHead]@ =~= seq![ModelWeight::LmHead]);
    } else {
        put_model(&mut out, true, &[ModelWeight::TiedLmHead]);
        assert([ModelWeight::TiedLmHead]@ =~= seq![ModelWeight::TiedLmHead]);
    }
    put_model(&mut out, m.deepseek4, &[
        ModelWeight::OutputHcFn,
        ModelWeight::OutputHcBase,
        ModelWeight::OutputHcScale,
    ]);
    assert([
        ModelWeight::OutputHcFn,
        ModelWeight::OutputHcBase,
        ModelWeight::OutputHcScale,
    ]@ =~= seq![
        ModelWeight::OutputHcFn,
        ModelWeight::OutputHcBase,
        ModelWeight::OutputHcScale,
    ]);
    put_model(&mut out, m.gpu_embed && m.untied_lm, &[ModelWeight::TokenEmbd]);
    assert([ModelWeight::TokenEmbd]@ =~= seq![ModelWeight::TokenEmbd]);
    put_model(&mut out, m.gpu_ple, &[ModelWeight::PerLayerTokenEmbd]);
    assert([ModelWeight::PerLayerTokenEmbd]@ =~= seq![ModelWeight::PerLayerTokenEmbd]);
    out
}

fn upload_extra(m: &ModelShape) -> (out: Vec<WeightSlot>)
    ensures
        out@ == extra_weights(*m),
{
    let mut out: Vec<WeightSlot> = Vec::new();
    put_model(&mut out, m.diffusion_gemma, &[
        ModelWeight::SelfCondPreNorm,
        ModelWeight::SelfCondGate,
        ModelWeight::SelfCondUp,
        ModelWeight::SelfCondDown,
    ]);
    assert([
        ModelWeight::SelfCondPreNorm,
        ModelWeight::SelfCondGate,
        ModelWeight::SelfCondUp,
        ModelWeight::SelfCondDown,
    ]@ =~= seq![
        ModelWeight::SelfCondPreNorm,
        ModelWeight::SelfCondGate,
        ModelWeight::SelfCondUp,
        ModelWeight::SelfCondDown,
    ]);
    assert(out@ =~= model_slots_if(m.diffusion_gemma, seq![
        ModelWeight::SelfCondPreNorm,
        ModelWeight::SelfCondGate,
        ModelWeight::SelfCondUp,
        ModelWeight::SelfCondDown,
    ]));
    put_model(&mut out, m.e2b, &[ModelWeight::PerLayerModelProj, ModelWeight::PerLayerProjNorm]);
    assert([ModelWeight::PerLayerModelProj, ModelWeight::PerLayerProjNorm]@ =~= seq![
        ModelWeight::PerLayerModelProj,
        ModelWeight::PerLayerProjNorm,
    ]);
    put_model(&mut out, m.gemma4, &[ModelWeight::VOnes]);
    assert([ModelWeight::VOnes]@ =~= seq![ModelWeight::VOnes]);
    put_model(&mut out, m.dual_moe, &[ModelWeight::RouterOnes]);
    assert([ModelWeight::RouterOnes]@ =~= seq![ModelWeight::RouterOnes]);
    put_model(&mut out, m.kq_l2norm, &[ModelWeight::QkOnes]);
    assert([ModelWeight::QkOnes]@ =~= seq![ModelWeight::QkOnes]);
    put_model(&mut out, m.deepseek4, &[ModelWeight::HcOnes]);
    assert([ModelWeight::HcOnes]@ =~= seq![ModelWeight::HcOnes]);
    put_model(&mut out, m.qwen4exp, &[ModelWeight::QwenHcOnes]);
    assert([ModelWeight::QwenHcOnes]@ =~= seq![ModelWeight::QwenHcOnes]);
    out
}

/// The weights of one layer, in the order of their upload.
fn upload_layer(m: &ModelShape, l: usize) -> (out: Vec<WeightSlot>)
    requires
        l < m.layers@.len(),
    ensures
        out@ == uploaded_layer(*m, l as int),
{
    let mut out: Vec<WeightSlot> = upload_norm(m, l);
    let mut mixer: Vec<WeightSlot> = upload_mixer(m, l);
    out.append(&mut mixer);
    let mut after: Vec<WeightSlot> = upload_after_mixer(m, l);
    out.append(&mut after);
    let mut norms: Vec<WeightSlot> = upload_middle_norms(m, l);
    out.append(&mut norms);
    let mut ffn: Vec<WeightSlot> = upload_ffn(m, l);
    out.append(&mut ffn);
    let mut last: Vec<WeightSlot> = upload_last(m, l);
    out.append(&mut last);
    out
}

/// The order in which a model's weights are uploaded.
pub fn upload_order(m: &ModelShape) -> (order: Vec<WeightSlot>)
    ensures
        order@ == uploaded(*m),
{
    let mut order: Vec<WeightSlot> = Vec::new();
    let n: usize = m.layers.len();
    let mut l: usize = 0;
    while l < n
        invariant
            l <= n == m.layers@.len(),
            order@ == uploaded_below(*m, l as nat),
        decreases n - l,
    {
        let mut layer: Vec<WeightSlot> = upload_layer(m, l);
        order.append(&mut layer);
        l = l + 1;
    }
    let mut head: Vec<WeightSlot> = upload_head(m);
    order.append(&mut head);
    let mut extra: Vec<WeightSlot> = upload_extra(m);
    order.append(&mut extra);
    order
}

} // verus!
