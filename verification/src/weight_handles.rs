//! The weight handles of a graph.
//!
//! A graph declares its weights one after the other and keeps each one's number in the place where
//! the layer reads it. Every declaration names the weight it stands for, so that what a handle reads
//! can be held against what was uploaded under its number.

use crate::weight_names::{LayerWeight, ModelWeight, WeightSlot};
use crate::weight_plan::{
    bank_weights, bias_weights, delta_weights, dense_weights, dsv4_compressor_weights,
    dsv4_hc_weights, dsv4_weights, dual_weights, extra_weights, head_weights, kda_weights,
    last_weights, middle_norms, mla_weights, model_slot, model_slots, model_slots_if, norm_weights, ple_weights,
    qk_norm_weights, qkv_weights, qsa_weights, shared_weights, slot, slots, slots_if, uploaded,
    uploaded_after_mixer, uploaded_below, uploaded_ffn, uploaded_layer, uploaded_mixer,
    uploaded_routing, LayerShape, ModelShape, TensorId,
};
use vstd::prelude::*;

verus! {

/// The handle was declared for the weight.
#[verifier::opaque]
pub open spec fn at(declared: Seq<WeightSlot>, id: TensorId, l: int, weight: LayerWeight) -> bool {
    id < declared.len() && declared[id as int] == slot(l, weight)
}

/// The handle is there exactly if `wanted`, and was declared for the weight.
pub open spec fn at_if(
    declared: Seq<WeightSlot>,
    id: Option<TensorId>,
    wanted: bool,
    l: int,
    weight: LayerWeight,
) -> bool {
    match id {
        Some(id) => wanted && at(declared, id, l, weight),
        None => !wanted,
    }
}

/// The handle was declared for the weight of the model as a whole.
#[verifier::opaque]
pub open spec fn model_at(declared: Seq<WeightSlot>, id: TensorId, weight: ModelWeight) -> bool {
    id < declared.len() && declared[id as int] == model_slot(weight)
}

/// The handle is there exactly if `wanted`, and was declared for the weight of the model.
pub open spec fn model_at_if(
    declared: Seq<WeightSlot>,
    id: Option<TensorId>,
    wanted: bool,
    weight: ModelWeight,
) -> bool {
    match id {
        Some(id) => wanted && model_at(declared, id, weight),
        None => !wanted,
    }
}

/// Every handle that read a weight `before` reads it still.
pub open spec fn stays(before: Seq<WeightSlot>, after: Seq<WeightSlot>) -> bool {
    &&& forall|id: TensorId, l: int, weight: LayerWeight|
        at(before, id, l, weight) ==> #[trigger] at(after, id, l, weight)
    &&& forall|id: TensorId, weight: ModelWeight|
        model_at(before, id, weight) ==> #[trigger] model_at(after, id, weight)
}

fn declare(declared: &mut Vec<WeightSlot>, l: usize, weight: LayerWeight) -> (id: TensorId)
    ensures
        final(declared)@ == old(declared)@.push(slot(l as int, weight)),
        at(final(declared)@, id, l as int, weight),
        stays(old(declared)@, final(declared)@),
{
    reveal(at);
    reveal(model_at);
    let id: TensorId = declared.len();
    declared.push(WeightSlot::Layer(l, weight));
    id
}

fn declare_if(declared: &mut Vec<WeightSlot>, wanted: bool, l: usize, weight: LayerWeight) -> (id:
    Option<TensorId>)
    ensures
        final(declared)@ == old(declared)@ + slots_if(l as int, wanted, seq![weight]),
        at_if(final(declared)@, id, wanted, l as int, weight),
        stays(old(declared)@, final(declared)@),
{
    let id: Option<TensorId> = if wanted {
        Some(declare(declared, l, weight))
    } else {
        None
    };
    assert(declared@ =~= old(declared)@ + slots_if(l as int, wanted, seq![weight]));
    id
}

fn declare_model(declared: &mut Vec<WeightSlot>, weight: ModelWeight) -> (id: TensorId)
    ensures
        final(declared)@ == old(declared)@.push(model_slot(weight)),
        model_at(final(declared)@, id, weight),
        stays(old(declared)@, final(declared)@),
{
    reveal(at);
    reveal(model_at);
    let id: TensorId = declared.len();
    declared.push(WeightSlot::Model(weight));
    id
}

fn declare_model_if(declared: &mut Vec<WeightSlot>, wanted: bool, weight: ModelWeight) -> (id: Option<
    TensorId,
>)
    ensures
        final(declared)@ == old(declared)@ + model_slots_if(wanted, seq![weight]),
        model_at_if(final(declared)@, id, wanted, weight),
        stays(old(declared)@, final(declared)@),
{
    let id: Option<TensorId> = if wanted {
        Some(declare_model(declared, weight))
    } else {
        None
    };
    assert(declared@ =~= old(declared)@ + model_slots_if(wanted, seq![weight]));
    id
}

/// A gated linear-attention mixer.
#[derive(Clone, Copy, Debug, PartialEq, Eq, Structural)]
pub struct DeltaW {
    pub qkv: TensorId,
    pub gate: TensorId,
    pub conv1d: TensorId,
    pub alpha: TensorId,
    pub beta: TensorId,
    pub ssm_a: TensorId,
    pub dt_bias: TensorId,
    pub ssm_norm: TensorId,
    pub out: TensorId,
}

impl DeltaW {
    /// Each handle reads the weight that it is named for.
    pub open spec fn reads(self, declared: Seq<WeightSlot>, l: int) -> bool {
        &&& at(declared, self.qkv, l, LayerWeight::DeltaQkv)
        &&& at(declared, self.gate, l, LayerWeight::AttnGate)
        &&& at(declared, self.conv1d, l, LayerWeight::Conv1d)
        &&& at(declared, self.alpha, l, LayerWeight::SsmAlpha)
        &&& at(declared, self.beta, l, LayerWeight::SsmBeta)
        &&& at(declared, self.ssm_a, l, LayerWeight::SsmA)
        &&& at(declared, self.dt_bias, l, LayerWeight::SsmDt)
        &&& at(declared, self.ssm_norm, l, LayerWeight::SsmNorm)
        &&& at(declared, self.out, l, LayerWeight::SsmOut)
    }
}

fn declare_delta(declared: &mut Vec<WeightSlot>, l: usize) -> (w: DeltaW)
    ensures
        final(declared)@ == old(declared)@ + delta_weights(l as int),
        w.reads(final(declared)@, l as int),
        stays(old(declared)@, final(declared)@),
{
    let qkv: TensorId = declare(declared, l, LayerWeight::DeltaQkv);
    let gate: TensorId = declare(declared, l, LayerWeight::AttnGate);
    let conv1d: TensorId = declare(declared, l, LayerWeight::Conv1d);
    let alpha: TensorId = declare(declared, l, LayerWeight::SsmAlpha);
    let beta: TensorId = declare(declared, l, LayerWeight::SsmBeta);
    let ssm_a: TensorId = declare(declared, l, LayerWeight::SsmA);
    let dt_bias: TensorId = declare(declared, l, LayerWeight::SsmDt);
    let ssm_norm: TensorId = declare(declared, l, LayerWeight::SsmNorm);
    let out: TensorId = declare(declared, l, LayerWeight::SsmOut);
    assert(declared@ =~= old(declared)@ + delta_weights(l as int));
    DeltaW { qkv, gate, conv1d, alpha, beta, ssm_a, dt_bias, ssm_norm, out }
}

/// A linear-attention mixer whose projections and convolutions are joined.
#[derive(Clone, Copy, Debug, PartialEq, Eq, Structural)]
pub struct KdaW {
    pub qkv: TensorId,
    pub conv: TensorId,
    pub forget: TensorId,
    pub beta: TensorId,
    pub a: TensorId,
    pub dt_bias: TensorId,
    pub norm: TensorId,
    pub gate: TensorId,
    pub out: TensorId,
}

impl KdaW {
    /// Each handle reads the weight that it is named for.
    pub open spec fn reads(self, declared: Seq<WeightSlot>, l: int) -> bool {
        &&& at(declared, self.qkv, l, LayerWeight::QkvFused)
        &&& at(declared, self.conv, l, LayerWeight::ConvQkv)
        &&& at(declared, self.forget, l, LayerWeight::SsmF)
        &&& at(declared, self.beta, l, LayerWeight::SsmBeta)
        &&& at(declared, self.a, l, LayerWeight::SsmA)
        &&& at(declared, self.dt_bias, l, LayerWeight::SsmDt)
        &&& at(declared, self.norm, l, LayerWeight::SsmNorm)
        &&& at(declared, self.gate, l, LayerWeight::SsmG)
        &&& at(declared, self.out, l, LayerWeight::AttnOutput)
    }
}

fn declare_kda(declared: &mut Vec<WeightSlot>, l: usize) -> (w: KdaW)
    ensures
        final(declared)@ == old(declared)@ + kda_weights(l as int),
        w.reads(final(declared)@, l as int),
        stays(old(declared)@, final(declared)@),
{
    let qkv: TensorId = declare(declared, l, LayerWeight::QkvFused);
    let conv: TensorId = declare(declared, l, LayerWeight::ConvQkv);
    let forget: TensorId = declare(declared, l, LayerWeight::SsmF);
    let beta: TensorId = declare(declared, l, LayerWeight::SsmBeta);
    let a: TensorId = declare(declared, l, LayerWeight::SsmA);
    let dt_bias: TensorId = declare(declared, l, LayerWeight::SsmDt);
    let norm: TensorId = declare(declared, l, LayerWeight::SsmNorm);
    let gate: TensorId = declare(declared, l, LayerWeight::SsmG);
    let out: TensorId = declare(declared, l, LayerWeight::AttnOutput);
    assert(declared@ =~= old(declared)@ + kda_weights(l as int));
    KdaW { qkv, conv, forget, beta, a, dt_bias, norm, gate, out }
}

/// A compressed-attention mixer.
#[derive(Clone, Copy, Debug, PartialEq, Eq, Structural)]
pub struct Dsv4W {
    pub sinks: TensorId,
    pub wq_a: TensorId,
    pub q_a_norm: TensorId,
    pub wq_b: TensorId,
    pub wkv: TensorId,
    pub wkv_norm: TensorId,
    pub wo_a: TensorId,
    pub wo_b: TensorId,
}

impl Dsv4W {
    /// Each handle reads the weight that it is named for.
    pub open spec fn reads(self, declared: Seq<WeightSlot>, l: int) -> bool {
        &&& at(declared, self.sinks, l, LayerWeight::Sinks)
        &&& at(declared, self.wq_a, l, LayerWeight::QA)
        &&& at(declared, self.q_a_norm, l, LayerWeight::QANorm)
        &&& at(declared, self.wq_b, l, LayerWeight::QB)
        &&& at(declared, self.wkv, l, LayerWeight::Kv)
        &&& at(declared, self.wkv_norm, l, LayerWeight::KvANorm)
        &&& at(declared, self.wo_a, l, LayerWeight::OutputA)
        &&& at(declared, self.wo_b, l, LayerWeight::OutputB)
    }
}

fn declare_dsv4(declared: &mut Vec<WeightSlot>, l: usize) -> (w: Dsv4W)
    ensures
        final(declared)@ == old(declared)@ + dsv4_weights(l as int),
        w.reads(final(declared)@, l as int),
        stays(old(declared)@, final(declared)@),
{
    let sinks: TensorId = declare(declared, l, LayerWeight::Sinks);
    let wq_a: TensorId = declare(declared, l, LayerWeight::QA);
    let q_a_norm: TensorId = declare(declared, l, LayerWeight::QANorm);
    let wq_b: TensorId = declare(declared, l, LayerWeight::QB);
    let wkv: TensorId = declare(declared, l, LayerWeight::Kv);
    let wkv_norm: TensorId = declare(declared, l, LayerWeight::KvANorm);
    let wo_a: TensorId = declare(declared, l, LayerWeight::OutputA);
    let wo_b: TensorId = declare(declared, l, LayerWeight::OutputB);
    assert(declared@ =~= old(declared)@ + dsv4_weights(l as int));
    Dsv4W { sinks, wq_a, q_a_norm, wq_b, wkv, wkv_norm, wo_a, wo_b }
}

/// The block indexer of a full-attention layer.
#[derive(Clone, Copy, Debug, PartialEq, Eq, Structural)]
pub struct QsaW {
    pub k_norm: TensorId,
    pub k_proj: TensorId,
    pub q_norm: TensorId,
    pub q_proj: TensorId,
}

impl QsaW {
    /// Each handle reads the weight that it is named for.
    pub open spec fn reads(self, declared: Seq<WeightSlot>, l: int) -> bool {
        &&& at(declared, self.k_norm, l, LayerWeight::QsaKNorm)
        &&& at(declared, self.k_proj, l, LayerWeight::QsaKProj)
        &&& at(declared, self.q_norm, l, LayerWeight::QsaQNorm)
        &&& at(declared, self.q_proj, l, LayerWeight::QsaQProj)
    }
}

fn declare_qsa(declared: &mut Vec<WeightSlot>, l: usize) -> (w: QsaW)
    ensures
        final(declared)@ == old(declared)@ + qsa_weights(l as int),
        w.reads(final(declared)@, l as int),
        stays(old(declared)@, final(declared)@),
{
    let k_norm: TensorId = declare(declared, l, LayerWeight::QsaKNorm);
    let k_proj: TensorId = declare(declared, l, LayerWeight::QsaKProj);
    let q_norm: TensorId = declare(declared, l, LayerWeight::QsaQNorm);
    let q_proj: TensorId = declare(declared, l, LayerWeight::QsaQProj);
    assert(declared@ =~= old(declared)@ + qsa_weights(l as int));
    QsaW { k_norm, k_proj, q_norm, q_proj }
}

/// The n-gram embedding of a layer.
#[derive(Clone, Copy, Debug, PartialEq, Eq, Structural)]
pub struct QwenPleW {
    pub key: TensorId,
    pub value: TensorId,
    pub norm_key: TensorId,
    pub norm_query: TensorId,
    pub norm_conv: TensorId,
    pub conv: TensorId,
}

impl QwenPleW {
    /// Each handle reads the weight that it is named for.
    pub open spec fn reads(self, declared: Seq<WeightSlot>, l: int) -> bool {
        &&& at(declared, self.key, l, LayerWeight::PleKey)
        &&& at(declared, self.value, l, LayerWeight::PleValue)
        &&& at(declared, self.norm_key, l, LayerWeight::PleNormKey)
        &&& at(declared, self.norm_query, l, LayerWeight::PleNormQuery)
        &&& at(declared, self.norm_conv, l, LayerWeight::PleNormConv)
        &&& at(declared, self.conv, l, LayerWeight::PleConv)
    }
}

fn declare_ple(declared: &mut Vec<WeightSlot>, l: usize) -> (w: QwenPleW)
    ensures
        final(declared)@ == old(declared)@ + slots(l as int, seq![
            LayerWeight::PleKey,
            LayerWeight::PleValue,
            LayerWeight::PleNormKey,
            LayerWeight::PleNormQuery,
            LayerWeight::PleNormConv,
            LayerWeight::PleConv,
        ]),
        w.reads(final(declared)@, l as int),
        stays(old(declared)@, final(declared)@),
{
    let key: TensorId = declare(declared, l, LayerWeight::PleKey);
    let value: TensorId = declare(declared, l, LayerWeight::PleValue);
    let norm_key: TensorId = declare(declared, l, LayerWeight::PleNormKey);
    let norm_query: TensorId = declare(declared, l, LayerWeight::PleNormQuery);
    let norm_conv: TensorId = declare(declared, l, LayerWeight::PleNormConv);
    let conv: TensorId = declare(declared, l, LayerWeight::PleConv);
    assert(declared@ =~= old(declared)@ + slots(l as int, seq![
        LayerWeight::PleKey,
        LayerWeight::PleValue,
        LayerWeight::PleNormKey,
        LayerWeight::PleNormQuery,
        LayerWeight::PleNormConv,
        LayerWeight::PleConv,
    ]));
    QwenPleW { key, value, norm_key, norm_query, norm_conv, conv }
}

/// The token indexer of a latent-attention layer.
#[derive(Clone, Copy, Debug, PartialEq, Eq, Structural)]
pub struct IndexerW {
    pub k_norm: TensorId,
    pub k_norm_b: TensorId,
    pub proj: TensorId,
    pub attn_k: TensorId,
    pub attn_q_b: TensorId,
}

impl IndexerW {
    /// Each handle reads the weight that it is named for.
    pub open spec fn reads(self, declared: Seq<WeightSlot>, l: int) -> bool {
        &&& at(declared, self.k_norm, l, LayerWeight::IndexerKNorm)
        &&& at(declared, self.k_norm_b, l, LayerWeight::IndexerKNormBias)
        &&& at(declared, self.proj, l, LayerWeight::IndexerProj)
        &&& at(declared, self.attn_k, l, LayerWeight::IndexerAttnK)
        &&& at(declared, self.attn_q_b, l, LayerWeight::IndexerAttnQB)
    }
}

fn declare_indexer(declared: &mut Vec<WeightSlot>, l: usize) -> (w: IndexerW)
    ensures
        final(declared)@ == old(declared)@ + slots(l as int, seq![
            LayerWeight::IndexerKNorm,
            LayerWeight::IndexerKNormBias,
            LayerWeight::IndexerProj,
            LayerWeight::IndexerAttnK,
            LayerWeight::IndexerAttnQB,
        ]),
        w.reads(final(declared)@, l as int),
        stays(old(declared)@, final(declared)@),
{
    let k_norm: TensorId = declare(declared, l, LayerWeight::IndexerKNorm);
    let k_norm_b: TensorId = declare(declared, l, LayerWeight::IndexerKNormBias);
    let proj: TensorId = declare(declared, l, LayerWeight::IndexerProj);
    let attn_k: TensorId = declare(declared, l, LayerWeight::IndexerAttnK);
    let attn_q_b: TensorId = declare(declared, l, LayerWeight::IndexerAttnQB);
    assert(declared@ =~= old(declared)@ + slots(l as int, seq![
        LayerWeight::IndexerKNorm,
        LayerWeight::IndexerKNormBias,
        LayerWeight::IndexerProj,
        LayerWeight::IndexerAttnK,
        LayerWeight::IndexerAttnQB,
    ]));
    IndexerW { k_norm, k_norm_b, proj, attn_k, attn_q_b }
}

/// The mixing of a compressed-attention layer's residual streams, around its mixer and around its
/// feed-forward block.
#[derive(Clone, Copy, Debug, PartialEq, Eq, Structural)]
pub struct LayerHcW {
    pub attn_fn: TensorId,
    pub attn_base: TensorId,
    pub attn_scale: TensorId,
    pub ffn_fn: TensorId,
    pub ffn_base: TensorId,
    pub ffn_scale: TensorId,
}

impl LayerHcW {
    /// Each handle reads the weight that it is named for.
    pub open spec fn reads(self, declared: Seq<WeightSlot>, l: int) -> bool {
        &&& at(declared, self.attn_fn, l, LayerWeight::HcAttnFn)
        &&& at(declared, self.attn_base, l, LayerWeight::HcAttnBase)
        &&& at(declared, self.attn_scale, l, LayerWeight::HcAttnScale)
        &&& at(declared, self.ffn_fn, l, LayerWeight::HcFfnFn)
        &&& at(declared, self.ffn_base, l, LayerWeight::HcFfnBase)
        &&& at(declared, self.ffn_scale, l, LayerWeight::HcFfnScale)
    }
}

fn declare_hc(declared: &mut Vec<WeightSlot>, l: usize) -> (w: LayerHcW)
    ensures
        final(declared)@ == old(declared)@ + dsv4_hc_weights(l as int),
        w.reads(final(declared)@, l as int),
        stays(old(declared)@, final(declared)@),
{
    let attn_fn: TensorId = declare(declared, l, LayerWeight::HcAttnFn);
    let attn_base: TensorId = declare(declared, l, LayerWeight::HcAttnBase);
    let attn_scale: TensorId = declare(declared, l, LayerWeight::HcAttnScale);
    let ffn_fn: TensorId = declare(declared, l, LayerWeight::HcFfnFn);
    let ffn_base: TensorId = declare(declared, l, LayerWeight::HcFfnBase);
    let ffn_scale: TensorId = declare(declared, l, LayerWeight::HcFfnScale);
    assert(declared@ =~= old(declared)@ + dsv4_hc_weights(l as int));
    LayerHcW { attn_fn, attn_base, attn_scale, ffn_fn, ffn_base, ffn_scale }
}

/// The gated residual modules of a layer, around its mixer and around its feed-forward block.
#[derive(Clone, Copy, Debug, PartialEq, Eq, Structural)]
pub struct QwenLayerHcW {
    pub attn_norm: TensorId,
    pub attn_down: TensorId,
    pub attn_up: TensorId,
    pub attn_inject: TensorId,
    pub ffn_norm: TensorId,
    pub ffn_down: TensorId,
    pub ffn_up: TensorId,
    pub ffn_inject: TensorId,
}

impl QwenLayerHcW {
    /// Each handle reads the weight that it is named for.
    pub open spec fn reads(self, declared: Seq<WeightSlot>, l: int) -> bool {
        &&& at(declared, self.attn_norm, l, LayerWeight::HcAttnNorm)
        &&& at(declared, self.attn_down, l, LayerWeight::HcAttnDown)
        &&& at(declared, self.attn_up, l, LayerWeight::HcAttnUp)
        &&& at(declared, self.attn_inject, l, LayerWeight::HcAttnInject)
        &&& at(declared, self.ffn_norm, l, LayerWeight::HcFfnNorm)
        &&& at(declared, self.ffn_down, l, LayerWeight::HcFfnDown)
        &&& at(declared, self.ffn_up, l, LayerWeight::HcFfnUp)
        &&& at(declared, self.ffn_inject, l, LayerWeight::HcFfnInject)
    }
}

fn declare_qwen_hc(declared: &mut Vec<WeightSlot>, l: usize) -> (w: QwenLayerHcW)
    ensures
        final(declared)@ == old(declared)@ + slots(l as int, seq![
            LayerWeight::HcAttnNorm,
            LayerWeight::HcAttnDown,
            LayerWeight::HcAttnUp,
            LayerWeight::HcAttnInject,
            LayerWeight::HcFfnNorm,
            LayerWeight::HcFfnDown,
            LayerWeight::HcFfnUp,
            LayerWeight::HcFfnInject,
        ]),
        w.reads(final(declared)@, l as int),
        stays(old(declared)@, final(declared)@),
{
    let attn_norm: TensorId = declare(declared, l, LayerWeight::HcAttnNorm);
    let attn_down: TensorId = declare(declared, l, LayerWeight::HcAttnDown);
    let attn_up: TensorId = declare(declared, l, LayerWeight::HcAttnUp);
    let attn_inject: TensorId = declare(declared, l, LayerWeight::HcAttnInject);
    let ffn_norm: TensorId = declare(declared, l, LayerWeight::HcFfnNorm);
    let ffn_down: TensorId = declare(declared, l, LayerWeight::HcFfnDown);
    let ffn_up: TensorId = declare(declared, l, LayerWeight::HcFfnUp);
    let ffn_inject: TensorId = declare(declared, l, LayerWeight::HcFfnInject);
    assert(declared@ =~= old(declared)@ + slots(l as int, seq![
        LayerWeight::HcAttnNorm,
        LayerWeight::HcAttnDown,
        LayerWeight::HcAttnUp,
        LayerWeight::HcAttnInject,
        LayerWeight::HcFfnNorm,
        LayerWeight::HcFfnDown,
        LayerWeight::HcFfnUp,
        LayerWeight::HcFfnInject,
    ]));
    QwenLayerHcW { attn_norm, attn_down, attn_up, attn_inject, ffn_norm, ffn_down, ffn_up, ffn_inject }
}

/// The compressor of a layer's keys and values.
#[derive(Clone, Copy, Debug, PartialEq, Eq, Structural)]
pub struct Dsv4CompressorW {
    pub wkv: TensorId,
    pub wgate: TensorId,
    pub ape: TensorId,
    pub norm: TensorId,
}

impl Dsv4CompressorW {
    /// Each handle reads the weight that it is named for.
    pub open spec fn reads(self, declared: Seq<WeightSlot>, l: int) -> bool {
        &&& at(declared, self.wkv, l, LayerWeight::CompressorKv)
        &&& at(declared, self.wgate, l, LayerWeight::CompressorGate)
        &&& at(declared, self.ape, l, LayerWeight::CompressorApe)
        &&& at(declared, self.norm, l, LayerWeight::CompressorNorm)
    }
}

fn declare_compressor(declared: &mut Vec<WeightSlot>, l: usize) -> (w: Dsv4CompressorW)
    ensures
        final(declared)@ == old(declared)@ + slots(l as int, seq![
            LayerWeight::CompressorKv,
            LayerWeight::CompressorGate,
            LayerWeight::CompressorApe,
            LayerWeight::CompressorNorm,
        ]),
        w.reads(final(declared)@, l as int),
        stays(old(declared)@, final(declared)@),
{
    let wkv: TensorId = declare(declared, l, LayerWeight::CompressorKv);
    let wgate: TensorId = declare(declared, l, LayerWeight::CompressorGate);
    let ape: TensorId = declare(declared, l, LayerWeight::CompressorApe);
    let norm: TensorId = declare(declared, l, LayerWeight::CompressorNorm);
    assert(declared@ =~= old(declared)@ + slots(l as int, seq![
        LayerWeight::CompressorKv,
        LayerWeight::CompressorGate,
        LayerWeight::CompressorApe,
        LayerWeight::CompressorNorm,
    ]));
    Dsv4CompressorW { wkv, wgate, ape, norm }
}

/// The block indexer of a compressed-attention layer, with the compressor of its own keys.
#[derive(Clone, Copy, Debug, PartialEq, Eq, Structural)]
pub struct Dsv4IndexerW {
    pub proj: TensorId,
    pub q_b: TensorId,
    pub wkv: TensorId,
    pub wgate: TensorId,
    pub ape: TensorId,
    pub norm: TensorId,
}

impl Dsv4IndexerW {
    /// Each handle reads the weight that it is named for.
    pub open spec fn reads(self, declared: Seq<WeightSlot>, l: int) -> bool {
        &&& at(declared, self.proj, l, LayerWeight::IndexerProj)
        &&& at(declared, self.q_b, l, LayerWeight::IndexerAttnQB)
        &&& at(declared, self.wkv, l, LayerWeight::IndexerCompressorKv)
        &&& at(declared, self.wgate, l, LayerWeight::IndexerCompressorGate)
        &&& at(declared, self.ape, l, LayerWeight::IndexerCompressorApe)
        &&& at(declared, self.norm, l, LayerWeight::IndexerCompressorNorm)
    }
}

fn declare_dsv4_indexer(declared: &mut Vec<WeightSlot>, l: usize) -> (w: Dsv4IndexerW)
    ensures
        final(declared)@ == old(declared)@ + slots(l as int, seq![
            LayerWeight::IndexerProj,
            LayerWeight::IndexerAttnQB,
            LayerWeight::IndexerCompressorKv,
            LayerWeight::IndexerCompressorGate,
            LayerWeight::IndexerCompressorApe,
            LayerWeight::IndexerCompressorNorm,
        ]),
        w.reads(final(declared)@, l as int),
        stays(old(declared)@, final(declared)@),
{
    let proj: TensorId = declare(declared, l, LayerWeight::IndexerProj);
    let q_b: TensorId = declare(declared, l, LayerWeight::IndexerAttnQB);
    let wkv: TensorId = declare(declared, l, LayerWeight::IndexerCompressorKv);
    let wgate: TensorId = declare(declared, l, LayerWeight::IndexerCompressorGate);
    let ape: TensorId = declare(declared, l, LayerWeight::IndexerCompressorApe);
    let norm: TensorId = declare(declared, l, LayerWeight::IndexerCompressorNorm);
    assert(declared@ =~= old(declared)@ + slots(l as int, seq![
        LayerWeight::IndexerProj,
        LayerWeight::IndexerAttnQB,
        LayerWeight::IndexerCompressorKv,
        LayerWeight::IndexerCompressorGate,
        LayerWeight::IndexerCompressorApe,
        LayerWeight::IndexerCompressorNorm,
    ]));
    Dsv4IndexerW { proj, q_b, wkv, wgate, ape, norm }
}

/// The compressors of a compressed-attention layer.
#[derive(Clone, Copy, Debug, PartialEq, Eq, Structural)]
pub struct Dsv4CompressedW {
    pub attention: Dsv4CompressorW,
    pub indexer: Option<Dsv4IndexerW>,
}

impl Dsv4CompressedW {
    pub open spec fn reads(self, declared: Seq<WeightSlot>, m: ModelShape, l: int) -> bool {
        &&& self.attention.reads(declared, l)
        &&& self.indexer is Some == (m.layers@[l].compress_ratio == 4)
        &&& self.indexer matches Some(indexer) ==> indexer.reads(declared, l)
    }
}

fn declare_compressed(declared: &mut Vec<WeightSlot>, m: &ModelShape, l: usize) -> (w:
    Dsv4CompressedW)
    requires
        l < m.layers@.len(),
        m.layers@[l as int].compress_ratio != 0,
    ensures
        final(declared)@ == old(declared)@ + dsv4_compressor_weights(*m, l as int),
        w.reads(final(declared)@, *m, l as int),
        stays(old(declared)@, final(declared)@),
{
    let attention: Dsv4CompressorW = declare_compressor(declared, l);
    let indexer: Option<Dsv4IndexerW> = if m.layers[l].compress_ratio == 4 {
        Some(declare_dsv4_indexer(declared, l))
    } else {
        None
    };
    assert(declared@ =~= old(declared)@ + dsv4_compressor_weights(*m, l as int));
    Dsv4CompressedW { attention, indexer }
}

/// A latent-attention mixer.
#[derive(Clone, Copy, Debug, PartialEq, Eq, Structural)]
pub struct MlaW {
    pub wq_a: Option<TensorId>,
    pub q_a_norm: Option<TensorId>,
    pub wq_b: TensorId,
    pub wkv_a_mqa: TensorId,
    pub kv_a_norm: TensorId,
    pub wk_b: TensorId,
    pub wv_b: TensorId,
    pub wo: TensorId,
    pub gate: Option<TensorId>,
    pub indexer: Option<IndexerW>,
}

impl MlaW {
    pub open spec fn reads(self, declared: Seq<WeightSlot>, m: ModelShape, l: int) -> bool {
        &&& at_if(declared, self.wq_a, !m.is_lite, l, LayerWeight::QA)
        &&& at_if(declared, self.q_a_norm, !m.is_lite, l, LayerWeight::QANorm)
        &&& at(
            declared,
            self.wq_b,
            l,
            if m.is_lite {
                LayerWeight::Q
            } else {
                LayerWeight::QB
            },
        )
        &&& at(declared, self.wkv_a_mqa, l, LayerWeight::KvAMqa)
        &&& at(declared, self.kv_a_norm, l, LayerWeight::KvANorm)
        &&& at(declared, self.wk_b, l, LayerWeight::KB)
        &&& at(declared, self.wv_b, l, LayerWeight::VB)
        &&& at(declared, self.wo, l, LayerWeight::AttnOutput)
        &&& at_if(declared, self.gate, m.bailingmoe3, l, LayerWeight::AttnGate)
        &&& self.indexer is Some == m.deepseek32
        &&& self.indexer matches Some(indexer) ==> indexer.reads(declared, l)
    }
}

fn declare_mla(declared: &mut Vec<WeightSlot>, m: &ModelShape, l: usize) -> (w: MlaW)
    ensures
        final(declared)@ == old(declared)@ + mla_weights(*m, l as int),
        w.reads(final(declared)@, *m, l as int),
        stays(old(declared)@, final(declared)@),
{
    let wq_a: Option<TensorId> = declare_if(declared, !m.is_lite, l, LayerWeight::QA);
    let q_a_norm: Option<TensorId> = declare_if(declared, !m.is_lite, l, LayerWeight::QANorm);
    let wq_b: TensorId = if m.is_lite {
        declare(declared, l, LayerWeight::Q)
    } else {
        declare(declared, l, LayerWeight::QB)
    };
    let wkv_a_mqa: TensorId = declare(declared, l, LayerWeight::KvAMqa);
    let kv_a_norm: TensorId = declare(declared, l, LayerWeight::KvANorm);
    let wk_b: TensorId = declare(declared, l, LayerWeight::KB);
    let wv_b: TensorId = declare(declared, l, LayerWeight::VB);
    let gate: Option<TensorId> = declare_if(declared, m.bailingmoe3, l, LayerWeight::AttnGate);
    let wo: TensorId = declare(declared, l, LayerWeight::AttnOutput);
    let indexer: Option<IndexerW> = if m.deepseek32 {
        Some(declare_indexer(declared, l))
    } else {
        None
    };
    assert(declared@ =~= old(declared)@ + mla_weights(*m, l as int));
    MlaW { wq_a, q_a_norm, wq_b, wkv_a_mqa, kv_a_norm, wk_b, wv_b, wo, gate, indexer }
}

/// A plain attention mixer.
#[derive(Clone, Copy, Debug, PartialEq, Eq, Structural)]
pub struct AttnW {
    pub wq: TensorId,
    pub wk: TensorId,
    pub wv: Option<TensorId>,
    pub qb: Option<TensorId>,
    pub kb: Option<TensorId>,
    pub vb: Option<TensorId>,
    pub q_norm: Option<TensorId>,
    pub k_norm: Option<TensorId>,
    pub wo: TensorId,
    pub qsa: Option<QsaW>,
}

impl AttnW {
    pub open spec fn reads(self, declared: Seq<WeightSlot>, m: ModelShape, l: int) -> bool {
        &&& m.fuse_qkv ==> at(declared, self.wq, l, LayerWeight::QkvFused) && self.wk == self.wq
            && self.wv == Some(self.wq)
        &&& !m.fuse_qkv ==> at(declared, self.wq, l, LayerWeight::Q) && at(
            declared,
            self.wk,
            l,
            LayerWeight::K,
        ) && at_if(declared, self.wv, m.layers@[l].has_wv, l, LayerWeight::V)
        &&& at_if(declared, self.qb, m.qkv_bias, l, LayerWeight::QBias)
        &&& at_if(declared, self.kb, m.qkv_bias, l, LayerWeight::KBias)
        &&& at_if(declared, self.vb, m.qkv_bias, l, LayerWeight::VBias)
        &&& at_if(declared, self.q_norm, m.qk_norm, l, LayerWeight::QNorm)
        &&& at_if(declared, self.k_norm, m.qk_norm, l, LayerWeight::KNorm)
        &&& at(declared, self.wo, l, LayerWeight::AttnOutput)
        &&& self.qsa is Some == (m.qwen4exp && m.layers@[l].hybrid_attention)
        &&& self.qsa matches Some(qsa) ==> qsa.reads(declared, l)
    }
}

/// The weights of a plain attention mixer, in the order of their declaration.
pub open spec fn attn_weights(m: ModelShape, l: int) -> Seq<WeightSlot> {
    qkv_weights(m, l) + (if m.qkv_bias {
        bias_weights(l)
    } else {
        Seq::empty()
    }) + (if m.qk_norm {
        qk_norm_weights(l)
    } else {
        Seq::empty()
    }) + slots(l, seq![LayerWeight::AttnOutput]) + (if m.qwen4exp
        && m.layers@[l].hybrid_attention {
        qsa_weights(l)
    } else {
        Seq::empty()
    })
}

fn declare_qkv(declared: &mut Vec<WeightSlot>, m: &ModelShape, l: usize) -> (w: (
    TensorId,
    TensorId,
    Option<TensorId>,
))
    requires
        l < m.layers@.len(),
    ensures
        final(declared)@ == old(declared)@ + qkv_weights(*m, l as int),
        m.fuse_qkv ==> at(final(declared)@, w.0, l as int, LayerWeight::QkvFused) && w.1 == w.0
            && w.2 == Some(w.0),
        !m.fuse_qkv ==> at(final(declared)@, w.0, l as int, LayerWeight::Q) && at(
            final(declared)@,
            w.1,
            l as int,
            LayerWeight::K,
        ) && at_if(final(declared)@, w.2, m.layers@[l as int].has_wv, l as int, LayerWeight::V),
        stays(old(declared)@, final(declared)@),
{
    if m.fuse_qkv {
        let wqkv: TensorId = declare(declared, l, LayerWeight::QkvFused);
        assert(declared@ =~= old(declared)@ + qkv_weights(*m, l as int));
        (wqkv, wqkv, Some(wqkv))
    } else {
        let wq: TensorId = declare(declared, l, LayerWeight::Q);
        let wk: TensorId = declare(declared, l, LayerWeight::K);
        let wv: Option<TensorId> = declare_if(declared, m.layers[l].has_wv, l, LayerWeight::V);
        assert(declared@ =~= old(declared)@ + qkv_weights(*m, l as int));
        (wq, wk, wv)
    }
}

/// The biases of the three projections.
struct BiasW {
    qb: Option<TensorId>,
    kb: Option<TensorId>,
    vb: Option<TensorId>,
}

fn declare_biases(declared: &mut Vec<WeightSlot>, wanted: bool, l: usize) -> (w: BiasW)
    ensures
        final(declared)@ == old(declared)@ + (if wanted {
            bias_weights(l as int)
        } else {
            Seq::empty()
        }),
        at_if(final(declared)@, w.qb, wanted, l as int, LayerWeight::QBias),
        at_if(final(declared)@, w.kb, wanted, l as int, LayerWeight::KBias),
        at_if(final(declared)@, w.vb, wanted, l as int, LayerWeight::VBias),
        stays(old(declared)@, final(declared)@),
{
    if !wanted {
        assert(declared@ =~= old(declared)@ + Seq::<WeightSlot>::empty());
        return BiasW { qb: None, kb: None, vb: None };
    }
    let qb: TensorId = declare(declared, l, LayerWeight::QBias);
    let kb: TensorId = declare(declared, l, LayerWeight::KBias);
    let vb: TensorId = declare(declared, l, LayerWeight::VBias);
    assert(declared@ =~= old(declared)@ + bias_weights(l as int));
    BiasW { qb: Some(qb), kb: Some(kb), vb: Some(vb) }
}

/// The norms of the queries' and the keys' heads.
struct QkNormW {
    q_norm: Option<TensorId>,
    k_norm: Option<TensorId>,
}

fn declare_qk_norms(declared: &mut Vec<WeightSlot>, wanted: bool, l: usize) -> (w: QkNormW)
    ensures
        final(declared)@ == old(declared)@ + (if wanted {
            qk_norm_weights(l as int)
        } else {
            Seq::empty()
        }),
        at_if(final(declared)@, w.q_norm, wanted, l as int, LayerWeight::QNorm),
        at_if(final(declared)@, w.k_norm, wanted, l as int, LayerWeight::KNorm),
        stays(old(declared)@, final(declared)@),
{
    if !wanted {
        assert(declared@ =~= old(declared)@ + Seq::<WeightSlot>::empty());
        return QkNormW { q_norm: None, k_norm: None };
    }
    let q_norm: TensorId = declare(declared, l, LayerWeight::QNorm);
    let k_norm: TensorId = declare(declared, l, LayerWeight::KNorm);
    assert(declared@ =~= old(declared)@ + qk_norm_weights(l as int));
    QkNormW { q_norm: Some(q_norm), k_norm: Some(k_norm) }
}

fn declare_output(declared: &mut Vec<WeightSlot>, l: usize) -> (id: TensorId)
    ensures
        final(declared)@ == old(declared)@ + slots(l as int, seq![LayerWeight::AttnOutput]),
        at(final(declared)@, id, l as int, LayerWeight::AttnOutput),
        stays(old(declared)@, final(declared)@),
{
    let id: TensorId = declare(declared, l, LayerWeight::AttnOutput);
    assert(declared@ =~= old(declared)@ + slots(l as int, seq![LayerWeight::AttnOutput]));
    id
}

fn declare_qsa_if(declared: &mut Vec<WeightSlot>, wanted: bool, l: usize) -> (w: Option<QsaW>)
    ensures
        final(declared)@ == old(declared)@ + (if wanted {
            qsa_weights(l as int)
        } else {
            Seq::empty()
        }),
        w is Some == wanted,
        w matches Some(qsa) ==> qsa.reads(final(declared)@, l as int),
        stays(old(declared)@, final(declared)@),
{
    if wanted {
        Some(declare_qsa(declared, l))
    } else {
        assert(declared@ =~= old(declared)@ + Seq::<WeightSlot>::empty());
        None
    }
}

proof fn lemma_five(
    base: Seq<WeightSlot>,
    a: Seq<WeightSlot>,
    b: Seq<WeightSlot>,
    c: Seq<WeightSlot>,
    d: Seq<WeightSlot>,
    e: Seq<WeightSlot>,
)
    ensures
        base + a + b + c + d + e == base + (a + b + c + d + e),
{
    assert(base + a + b + c + d + e =~= base + (a + b + c + d + e));
}

fn declare_attn(declared: &mut Vec<WeightSlot>, m: &ModelShape, l: usize) -> (w: AttnW)
    requires
        l < m.layers@.len(),
    ensures
        final(declared)@ == old(declared)@ + attn_weights(*m, l as int),
        w.reads(final(declared)@, *m, l as int),
        stays(old(declared)@, final(declared)@),
{
    let wants_qsa: bool = m.qwen4exp && m.layers[l].hybrid_attention;
    let (wq, wk, wv) = declare_qkv(declared, m, l);
    let biases: BiasW = declare_biases(declared, m.qkv_bias, l);
    let norms: QkNormW = declare_qk_norms(declared, m.qk_norm, l);
    let wo: TensorId = declare_output(declared, l);
    let qsa: Option<QsaW> = declare_qsa_if(declared, wants_qsa, l);
    proof {
        lemma_five(
            old(declared)@,
            qkv_weights(*m, l as int),
            if m.qkv_bias {
                bias_weights(l as int)
            } else {
                Seq::empty()
            },
            if m.qk_norm {
                qk_norm_weights(l as int)
            } else {
                Seq::empty()
            },
            slots(l as int, seq![LayerWeight::AttnOutput]),
            if wants_qsa {
                qsa_weights(l as int)
            } else {
                Seq::empty()
            },
        );
    }
    AttnW {
        wq,
        wk,
        wv,
        qb: biases.qb,
        kb: biases.kb,
        vb: biases.vb,
        q_norm: norms.q_norm,
        k_norm: norms.k_norm,
        wo,
        qsa,
    }
}

/// The token mixer of a layer.
#[derive(Clone, Copy, Debug, PartialEq, Eq, Structural)]
pub enum MixerW {
    Attn(AttnW),
    DeltaNet(DeltaW),
    Kda(KdaW),
    Mla(MlaW),
    Dsv4(Dsv4W),
}

impl MixerW {
    /// The mixer is of the kind that the layer has, and reads its weights.
    pub open spec fn reads(self, declared: Seq<WeightSlot>, m: ModelShape, l: int) -> bool {
        if m.deepseek4 {
            self matches MixerW::Dsv4(w) && w.reads(declared, l)
        } else if m.layers@[l].mla {
            self matches MixerW::Mla(w) && w.reads(declared, m, l)
        } else if m.kda(l) {
            self matches MixerW::Kda(w) && w.reads(declared, l)
        } else if m.delta(l) {
            self matches MixerW::DeltaNet(w) && w.reads(declared, l)
        } else {
            self matches MixerW::Attn(w) && w.reads(declared, m, l)
        }
    }
}

/// The mixer's weights, in the order of their declaration.
pub open spec fn declared_mixer(m: ModelShape, l: int) -> Seq<WeightSlot> {
    if m.deepseek4 {
        dsv4_weights(l)
    } else if m.layers@[l].mla {
        mla_weights(m, l)
    } else if m.kda(l) {
        kda_weights(l)
    } else if m.delta(l) {
        delta_weights(l)
    } else {
        attn_weights(m, l)
    }
}

fn declare_mixer(declared: &mut Vec<WeightSlot>, m: &ModelShape, l: usize) -> (w: MixerW)
    requires
        l < m.layers@.len(),
    ensures
        final(declared)@ == old(declared)@ + declared_mixer(*m, l as int),
        w.reads(final(declared)@, *m, l as int),
        stays(old(declared)@, final(declared)@),
{
    if m.deepseek4 {
        MixerW::Dsv4(declare_dsv4(declared, l))
    } else if m.layers[l].mla {
        MixerW::Mla(declare_mla(declared, m, l))
    } else if m.bailingmoe3 {
        MixerW::Kda(declare_kda(declared, l))
    } else if (m.qwen35 || m.qwen4exp) && !m.layers[l].hybrid_attention {
        MixerW::DeltaNet(declare_delta(declared, l))
    } else {
        MixerW::Attn(declare_attn(declared, m, l))
    }
}

/// A shared expert beside a routed bank.
#[derive(Clone, Copy, Debug, PartialEq, Eq, Structural)]
pub struct MoeSharedW {
    pub gate_inp: Option<TensorId>,
    pub wgate: TensorId,
    pub wup: TensorId,
    pub wdown: TensorId,
}

impl MoeSharedW {
    pub open spec fn reads(self, declared: Seq<WeightSlot>, m: ModelShape, l: int) -> bool {
        &&& at_if(declared, self.gate_inp, m.shared_expert_gated, l, LayerWeight::SharedGateInp)
        &&& at(declared, self.wgate, l, LayerWeight::SharedGate)
        &&& at(declared, self.wup, l, LayerWeight::SharedUp)
        &&& at(declared, self.wdown, l, LayerWeight::SharedDown)
    }
}

fn declare_shared(declared: &mut Vec<WeightSlot>, m: &ModelShape, l: usize) -> (w: Option<MoeSharedW>)
    ensures
        final(declared)@ == old(declared)@ + shared_weights(*m, l as int),
        w is Some == m.shared_expert,
        w matches Some(shared) ==> shared.reads(final(declared)@, *m, l as int),
        stays(old(declared)@, final(declared)@),
{
    if !m.shared_expert {
        assert(declared@ =~= old(declared)@ + shared_weights(*m, l as int));
        return None;
    }
    let gate_inp: Option<TensorId> = declare_if(
        declared,
        m.shared_expert_gated,
        l,
        LayerWeight::SharedGateInp,
    );
    let wgate: TensorId = declare(declared, l, LayerWeight::SharedGate);
    let wup: TensorId = declare(declared, l, LayerWeight::SharedUp);
    let wdown: TensorId = declare(declared, l, LayerWeight::SharedDown);
    assert(declared@ =~= old(declared)@ + shared_weights(*m, l as int));
    Some(MoeSharedW { gate_inp, wgate, wup, wdown })
}

/// A routed expert bank.
#[derive(Clone, Copy, Debug, PartialEq, Eq, Structural)]
pub struct MoeW {
    pub router: TensorId,
    pub gate_exps: TensorId,
    /// The same handle as `gate_exps` where the two are joined.
    pub up_exps: TensorId,
    pub down_exps: TensorId,
    pub fused_gate_up: bool,
    pub exp_probs_b: Option<TensorId>,
    pub tid2eid: Option<TensorId>,
    pub shexp: Option<MoeSharedW>,
}

impl MoeW {
    pub open spec fn reads(self, declared: Seq<WeightSlot>, m: ModelShape, l: int) -> bool {
        let fused = m.layers@[l].fused_experts;
        &&& self.fused_gate_up == fused
        &&& at(declared, self.router, l, LayerWeight::Router)
        &&& fused ==> at(declared, self.gate_exps, l, LayerWeight::GateUpExps) && self.up_exps
            == self.gate_exps
        &&& !fused ==> at(declared, self.gate_exps, l, LayerWeight::GateExps) && at(
            declared,
            self.up_exps,
            l,
            LayerWeight::UpExps,
        )
        &&& at(declared, self.down_exps, l, LayerWeight::DownExps)
        &&& at_if(declared, self.exp_probs_b, m.probs_bias(l), l, LayerWeight::ExpProbsB)
        &&& at_if(declared, self.tid2eid, m.layers@[l].hash_moe, l, LayerWeight::Tid2Eid)
        &&& self.shexp is Some == m.shared_expert
        &&& self.shexp matches Some(shared) ==> shared.reads(declared, m, l)
    }
}

/// The routing tensors of an expert bank, in the order of their declaration.
pub open spec fn declared_routing(m: ModelShape, l: int) -> Seq<WeightSlot> {
    slots_if(l, m.probs_bias(l), seq![
        LayerWeight::ExpProbsB,
    ]) + slots_if(l, m.layers@[l].hash_moe, seq![LayerWeight::Tid2Eid])
}

fn declare_moe(declared: &mut Vec<WeightSlot>, m: &ModelShape, l: usize) -> (w: MoeW)
    requires
        l < m.layers@.len(),
        m.routed(l as int),
        !m.dual_moe,
    ensures
        final(declared)@ == old(declared)@ + (bank_weights(*m, l as int) + declared_routing(
            *m,
            l as int,
        ) + shared_weights(*m, l as int)),
        w.reads(final(declared)@, *m, l as int),
        stays(old(declared)@, final(declared)@),
{
    let layer: LayerShape = m.layers[l];
    let router: TensorId = declare(declared, l, LayerWeight::Router);
    let fused_gate_up: bool = layer.fused_experts;
    let gate_exps: TensorId = if fused_gate_up {
        declare(declared, l, LayerWeight::GateUpExps)
    } else {
        declare(declared, l, LayerWeight::GateExps)
    };
    let up_exps: TensorId = if fused_gate_up {
        gate_exps
    } else {
        declare(declared, l, LayerWeight::UpExps)
    };
    let down_exps: TensorId = declare(declared, l, LayerWeight::DownExps);
    assert(declared@ =~= old(declared)@ + bank_weights(*m, l as int));
    let ghost s1 = declared@;
    let has_probs_bias: bool = ((m.deepseek2 || m.bailingmoe3) && layer.has_probs_bias) || (
    m.deepseek4 && !layer.hash_moe);
    let exp_probs_b: Option<TensorId> = declare_if(
        declared,
        has_probs_bias,
        l,
        LayerWeight::ExpProbsB,
    );
    let tid2eid: Option<TensorId> = declare_if(declared, layer.hash_moe, l, LayerWeight::Tid2Eid);
    assert(declared@ =~= s1 + declared_routing(*m, l as int));
    let ghost s2 = declared@;
    let shexp: Option<MoeSharedW> = declare_shared(declared, m, l);
    assert(declared@ =~= old(declared)@ + (bank_weights(*m, l as int) + declared_routing(
        *m,
        l as int,
    ) + shared_weights(*m, l as int)));
    MoeW {
        router,
        gate_exps,
        up_exps,
        down_exps,
        fused_gate_up,
        exp_probs_b,
        tid2eid,
        shexp,
    }
}

/// A dense branch beside an expert bank, summed.
#[derive(Clone, Copy, Debug, PartialEq, Eq, Structural)]
pub struct DualMoeW {
    pub d_gate: TensorId,
    /// The same handle as `d_gate` where the two are joined.
    pub d_up: TensorId,
    pub fused_gu: bool,
    pub d_down: TensorId,
    pub d_post_norm: TensorId,
    pub m_pre_norm: TensorId,
    pub router: TensorId,
    pub router_scale: TensorId,
    pub gate_up_exps: TensorId,
    pub down_exps: TensorId,
    pub down_scale: TensorId,
    pub m_post_norm: TensorId,
}

impl DualMoeW {
    pub open spec fn reads(self, declared: Seq<WeightSlot>, m: ModelShape, l: int) -> bool {
        &&& self.fused_gu == m.fuse_gu
        &&& m.fuse_gu ==> at(declared, self.d_gate, l, LayerWeight::GateUpFused) && self.d_up
            == self.d_gate
        &&& !m.fuse_gu ==> at(declared, self.d_gate, l, LayerWeight::Gate) && at(
            declared,
            self.d_up,
            l,
            LayerWeight::Up,
        )
        &&& at(declared, self.d_down, l, LayerWeight::Down)
        &&& at(declared, self.d_post_norm, l, LayerWeight::PostFfwNorm1)
        &&& at(declared, self.m_pre_norm, l, LayerWeight::PreFfwNorm2)
        &&& at(declared, self.router, l, LayerWeight::Router)
        &&& at(declared, self.router_scale, l, LayerWeight::RouterScale)
        &&& at(declared, self.gate_up_exps, l, LayerWeight::GateUpExps)
        &&& at(declared, self.down_exps, l, LayerWeight::DownExps)
        &&& at(declared, self.down_scale, l, LayerWeight::DownExpsScale)
        &&& at(declared, self.m_post_norm, l, LayerWeight::PostFfwNorm2)
    }
}

fn declare_dual(declared: &mut Vec<WeightSlot>, m: &ModelShape, l: usize) -> (w: DualMoeW)
    ensures
        final(declared)@ == old(declared)@ + dual_weights(*m, l as int),
        w.reads(final(declared)@, *m, l as int),
        stays(old(declared)@, final(declared)@),
{
    let d_gate: TensorId = if m.fuse_gu {
        declare(declared, l, LayerWeight::GateUpFused)
    } else {
        declare(declared, l, LayerWeight::Gate)
    };
    let d_up: TensorId = if m.fuse_gu {
        d_gate
    } else {
        declare(declared, l, LayerWeight::Up)
    };
    let d_down: TensorId = declare(declared, l, LayerWeight::Down);
    let d_post_norm: TensorId = declare(declared, l, LayerWeight::PostFfwNorm1);
    let m_pre_norm: TensorId = declare(declared, l, LayerWeight::PreFfwNorm2);
    let router: TensorId = declare(declared, l, LayerWeight::Router);
    let router_scale: TensorId = declare(declared, l, LayerWeight::RouterScale);
    let gate_up_exps: TensorId = declare(declared, l, LayerWeight::GateUpExps);
    let down_exps: TensorId = declare(declared, l, LayerWeight::DownExps);
    let down_scale: TensorId = declare(declared, l, LayerWeight::DownExpsScale);
    let m_post_norm: TensorId = declare(declared, l, LayerWeight::PostFfwNorm2);
    assert(declared@ =~= old(declared)@ + dual_weights(*m, l as int));
    DualMoeW {
        d_gate,
        d_up,
        fused_gu: m.fuse_gu,
        d_down,
        d_post_norm,
        m_pre_norm,
        router,
        router_scale,
        gate_up_exps,
        down_exps,
        down_scale,
        m_post_norm,
    }
}

/// The feed-forward block of a layer.
#[derive(Clone, Copy, Debug, PartialEq, Eq, Structural)]
pub enum FfnW {
    Dense { wgate: TensorId, wup: TensorId, wdown: TensorId },
    DenseFused { wgu: TensorId, wdown: TensorId },
    Moe(MoeW),
    DiffusionMoe(DualMoeW),
}

impl FfnW {
    /// The block is of the kind that the layer has, and reads its weights.
    pub open spec fn reads(self, declared: Seq<WeightSlot>, m: ModelShape, l: int) -> bool {
        if m.dual_moe {
            self matches FfnW::DiffusionMoe(w) && w.reads(declared, m, l)
        } else if m.routed(l) {
            self matches FfnW::Moe(w) && w.reads(declared, m, l)
        } else if m.fuse_gu {
            self matches FfnW::DenseFused { wgu, wdown } && at(
                declared,
                wgu,
                l,
                LayerWeight::GateUpFused,
            ) && at(declared, wdown, l, LayerWeight::Down)
        } else {
            self matches FfnW::Dense { wgate, wup, wdown } && at(
                declared,
                wgate,
                l,
                LayerWeight::Gate,
            ) && at(declared, wup, l, LayerWeight::Up) && at(
                declared,
                wdown,
                l,
                LayerWeight::Down,
            )
        }
    }
}

/// The feed-forward block's weights, in the order of their declaration.
pub open spec fn declared_ffn(m: ModelShape, l: int) -> Seq<WeightSlot> {
    if m.dual_moe {
        dual_weights(m, l)
    } else if m.routed(l) {
        bank_weights(m, l) + declared_routing(m, l) + shared_weights(m, l)
    } else {
        dense_weights(m, l)
    }
}

fn declare_ffn(declared: &mut Vec<WeightSlot>, m: &ModelShape, l: usize) -> (w: FfnW)
    requires
        l < m.layers@.len(),
    ensures
        final(declared)@ == old(declared)@ + declared_ffn(*m, l as int),
        w.reads(final(declared)@, *m, l as int),
        stays(old(declared)@, final(declared)@),
{
    if m.dual_moe {
        FfnW::DiffusionMoe(declare_dual(declared, m, l))
    } else if m.moe && m.layers[l].moe {
        FfnW::Moe(declare_moe(declared, m, l))
    } else if m.fuse_gu {
        let wgu: TensorId = declare(declared, l, LayerWeight::GateUpFused);
        let wdown: TensorId = declare(declared, l, LayerWeight::Down);
        assert(declared@ =~= old(declared)@ + declared_ffn(*m, l as int));
        FfnW::DenseFused { wgu, wdown }
    } else {
        let wgate: TensorId = declare(declared, l, LayerWeight::Gate);
        let wup: TensorId = declare(declared, l, LayerWeight::Up);
        let wdown: TensorId = declare(declared, l, LayerWeight::Down);
        assert(declared@ =~= old(declared)@ + declared_ffn(*m, l as int));
        FfnW::Dense { wgate, wup, wdown }
    }
}

/// All handles of one layer.
#[derive(Clone, Copy, Debug, PartialEq, Eq, Structural)]
pub struct LayerW {
    pub attn_norm: TensorId,
    pub mixer: MixerW,
    pub hc: Option<LayerHcW>,
    pub qwen_hc: Option<QwenLayerHcW>,
    pub ple: Option<QwenPleW>,
    pub dsv4_compressed: Option<Dsv4CompressedW>,
    pub attn_sub_norm: Option<TensorId>,
    pub post_attn: Option<TensorId>,
    pub ffn_norm: TensorId,
    pub ffn: FfnW,
    pub ffn_sub_norm: Option<TensorId>,
    pub post_ffw: Option<TensorId>,
    pub pl_inp_gate: Option<TensorId>,
    pub pl_proj: Option<TensorId>,
    pub pl_post_norm: Option<TensorId>,
}

impl LayerW {
    /// The handles around the mixer read their weights.
    pub open spec fn reads_upper(self, declared: Seq<WeightSlot>, m: ModelShape, l: int) -> bool {
        &&& self.qwen_hc is Some == m.qwen4exp
        &&& self.qwen_hc matches Some(hc) ==> hc.reads(declared, l) && self.attn_norm
            == hc.attn_norm
        &&& self.qwen_hc is None ==> at(declared, self.attn_norm, l, LayerWeight::AttnNorm)
        &&& self.mixer.reads(declared, m, l)
        &&& self.hc is Some == m.deepseek4
        &&& self.hc matches Some(hc) ==> hc.reads(declared, l)
        &&& self.dsv4_compressed is Some == (m.deepseek4 && m.layers@[l].compress_ratio != 0)
        &&& self.dsv4_compressed matches Some(w) ==> w.reads(declared, m, l)
        &&& self.ple is Some == m.layers@[l].ple
        &&& self.ple matches Some(w) ==> w.reads(declared, l)
    }

    /// The handles of the norms and of the feed-forward block read their weights.
    pub open spec fn reads_lower(self, declared: Seq<WeightSlot>, m: ModelShape, l: int) -> bool {
        &&& at_if(
            declared,
            self.attn_sub_norm,
            m.sub_norm && !m.delta(l),
            l,
            LayerWeight::AttnSubNorm,
        )
        &&& at_if(declared, self.post_attn, m.gemma, l, LayerWeight::PostAttnNorm)
        &&& self.qwen_hc matches Some(hc) ==> self.ffn_norm == hc.ffn_norm
        &&& self.qwen_hc is None ==> at(
            declared,
            self.ffn_norm,
            l,
            if m.qwen35 {
                LayerWeight::PostAttnNorm
            } else {
                LayerWeight::FfnNorm
            },
        )
        &&& self.ffn.reads(declared, m, l)
        &&& at_if(declared, self.ffn_sub_norm, m.sub_norm, l, LayerWeight::FfnSubNorm)
        &&& at_if(declared, self.post_ffw, m.gemma, l, LayerWeight::PostFfwNorm)
        &&& at_if(declared, self.pl_inp_gate, m.e2b, l, LayerWeight::InpGate)
        &&& at_if(declared, self.pl_proj, m.e2b, l, LayerWeight::Proj)
        &&& at_if(declared, self.pl_post_norm, m.e2b, l, LayerWeight::PostNorm)
    }

    /// Every handle reads the weight that it is named for.
    pub open spec fn reads(self, declared: Seq<WeightSlot>, m: ModelShape, l: int) -> bool {
        self.reads_upper(declared, m, l) && self.reads_lower(declared, m, l)
    }
}

/// The residual streams' weights of a layer, in the order of their declaration.
pub open spec fn declared_streams(m: ModelShape, l: int) -> Seq<WeightSlot> {
    (if m.deepseek4 {
        dsv4_hc_weights(l)
    } else {
        Seq::empty()
    }) + (if m.deepseek4 && m.layers@[l].compress_ratio != 0 {
        dsv4_compressor_weights(m, l)
    } else {
        Seq::empty()
    })
}

/// The weights of one layer, in the order of their declaration.
pub open spec fn declared_layer(m: ModelShape, l: int) -> Seq<WeightSlot> {
    norm_weights(m, l) + declared_mixer(m, l) + declared_streams(m, l) + ple_weights(m, l)
        + middle_norms(m, l) + declared_ffn(m, l) + last_weights(m, l)
}

/// The handles of the first half of a layer.
struct UpperW {
    attn_norm: TensorId,
    qwen_hc: Option<QwenLayerHcW>,
    mixer: MixerW,
    hc: Option<LayerHcW>,
    dsv4_compressed: Option<Dsv4CompressedW>,
    ple: Option<QwenPleW>,
}
/// What was declared `before` is still in its place.
pub open spec fn extends(before: Seq<WeightSlot>, after: Seq<WeightSlot>) -> bool {
    &&& before.len() <= after.len()
    &&& forall|i: int| 0 <= i < before.len() ==> after[i] == #[trigger] before[i]
}

/// More declarations leave what was declared before in its place.
pub proof fn lemma_declared_stays(before: Seq<WeightSlot>, after: Seq<WeightSlot>)
    requires
        extends(before, after),
    ensures
        forall|id: TensorId, l: int, weight: LayerWeight|
            at(before, id, l, weight) ==> #[trigger] at(after, id, l, weight),
        forall|id: TensorId, weight: ModelWeight|
            model_at(before, id, weight) ==> #[trigger] model_at(after, id, weight),
{
    reveal(at);
    reveal(model_at);
}

proof fn lemma_two(base: Seq<WeightSlot>, a: Seq<WeightSlot>, b: Seq<WeightSlot>)
    ensures
        base + a + b == base + (a + b),
        extends(base + a, base + a + b),
{
    assert(base + a + b =~= base + (a + b));
}

proof fn lemma_three(
    base: Seq<WeightSlot>,
    a: Seq<WeightSlot>,
    b: Seq<WeightSlot>,
    c: Seq<WeightSlot>,
)
    ensures
        base + a + b + c == base + (a + b + c),
        extends(base + a, base + a + b + c),
        extends(base + a + b, base + a + b + c),
{
    assert(base + a + b + c =~= base + (a + b + c));
}

proof fn lemma_four(
    base: Seq<WeightSlot>,
    a: Seq<WeightSlot>,
    b: Seq<WeightSlot>,
    c: Seq<WeightSlot>,
    d: Seq<WeightSlot>,
)
    ensures
        base + a + b + c + d == base + (a + b + c + d),
        extends(base + a, base + a + b + c + d),
        extends(base + a + b, base + a + b + c + d),
        extends(base + a + b + c, base + a + b + c + d),
{
    assert(base + a + b + c + d =~= base + (a + b + c + d));
}

fn declare_norm(declared: &mut Vec<WeightSlot>, m: &ModelShape, l: usize) -> (w: (
    TensorId,
    Option<QwenLayerHcW>,
))
    ensures
        final(declared)@ == old(declared)@ + norm_weights(*m, l as int),
        w.1 is Some == m.qwen4exp,
        w.1 matches Some(hc) ==> hc.reads(final(declared)@, l as int) && w.0 == hc.attn_norm,
        w.1 is None ==> at(final(declared)@, w.0, l as int, LayerWeight::AttnNorm),
{
    if m.qwen4exp {
        let hc: QwenLayerHcW = declare_qwen_hc(declared, l);
        (hc.attn_norm, Some(hc))
    } else {
        let attn_norm: TensorId = declare(declared, l, LayerWeight::AttnNorm);
        assert(declared@ =~= old(declared)@ + norm_weights(*m, l as int));
        (attn_norm, None)
    }
}

fn declare_streams(declared: &mut Vec<WeightSlot>, m: &ModelShape, l: usize) -> (w: (
    Option<LayerHcW>,
    Option<Dsv4CompressedW>,
))
    requires
        l < m.layers@.len(),
    ensures
        final(declared)@ == old(declared)@ + declared_streams(*m, l as int),
        w.0 is Some == m.deepseek4,
        w.0 matches Some(hc) ==> hc.reads(final(declared)@, l as int),
        w.1 is Some == (m.deepseek4 && m.layers@[l as int].compress_ratio != 0),
        w.1 matches Some(c) ==> c.reads(final(declared)@, *m, l as int),
{
    if !m.deepseek4 {
        assert(declared@ =~= old(declared)@ + declared_streams(*m, l as int));
        return (None, None);
    }
    let hc: LayerHcW = declare_hc(declared, l);
    if m.layers[l].compress_ratio == 0 {
        assert(declared@ =~= old(declared)@ + declared_streams(*m, l as int));
        return (Some(hc), None);
    }
    let ghost before = declared@;
    let compressed: Dsv4CompressedW = declare_compressed(declared, m, l);
    proof {
        lemma_two(
            old(declared)@,
            dsv4_hc_weights(l as int),
            dsv4_compressor_weights(*m, l as int),
        );
        lemma_declared_stays(before, declared@);
    }
    (Some(hc), Some(compressed))
}

fn declare_upper(declared: &mut Vec<WeightSlot>, m: &ModelShape, l: usize) -> (w: UpperW)
    requires
        l < m.layers@.len(),
    ensures
        final(declared)@ == old(declared)@ + (norm_weights(*m, l as int) + declared_mixer(
            *m,
            l as int,
        ) + declared_streams(*m, l as int) + ple_weights(*m, l as int)),
        w.qwen_hc is Some == m.qwen4exp,
        w.qwen_hc matches Some(hc) ==> hc.reads(final(declared)@, l as int) && w.attn_norm
            == hc.attn_norm,
        w.qwen_hc is None ==> at(final(declared)@, w.attn_norm, l as int, LayerWeight::AttnNorm),
        w.mixer.reads(final(declared)@, *m, l as int),
        w.hc is Some == m.deepseek4,
        w.hc matches Some(hc) ==> hc.reads(final(declared)@, l as int),
        w.dsv4_compressed is Some == (m.deepseek4 && m.layers@[l as int].compress_ratio != 0),
        w.dsv4_compressed matches Some(c) ==> c.reads(final(declared)@, *m, l as int),
        w.ple is Some == m.layers@[l as int].ple,
        w.ple matches Some(p) ==> p.reads(final(declared)@, l as int),
{
    let (attn_norm, qwen_hc) = declare_norm(declared, m, l);
    let ghost s1 = declared@;
    let mixer: MixerW = declare_mixer(declared, m, l);
    let ghost s2 = declared@;
    let (hc, dsv4_compressed) = declare_streams(declared, m, l);
    let ghost s3 = declared@;
    let ple: Option<QwenPleW> = if m.layers[l].ple {
        Some(declare_ple(declared, l))
    } else {
        None
    };
    proof {
        let s4 = declared@;
        if !m.layers@[l as int].ple {
            assert(s3 =~= s3 + ple_weights(*m, l as int));
        }
        lemma_four(
            old(declared)@,
            norm_weights(*m, l as int),
            declared_mixer(*m, l as int),
            declared_streams(*m, l as int),
            ple_weights(*m, l as int),
        );
        lemma_declared_stays(s1, s4);
        lemma_declared_stays(s3, s4);
        lemma_mixer_stays(mixer, s2, s4, *m, l as int);
    }
    UpperW { attn_norm, qwen_hc, mixer, hc, dsv4_compressed, ple }
}

proof fn lemma_mixer_stays(
    mixer: MixerW,
    before: Seq<WeightSlot>,
    after: Seq<WeightSlot>,
    m: ModelShape,
    l: int,
)
    requires
        extends(before, after),
        mixer.reads(before, m, l),
    ensures
        mixer.reads(after, m, l),
{
    lemma_declared_stays(before, after);
}

proof fn lemma_ffn_stays(
    ffn: FfnW,
    before: Seq<WeightSlot>,
    after: Seq<WeightSlot>,
    m: ModelShape,
    l: int,
)
    requires
        extends(before, after),
        ffn.reads(before, m, l),
    ensures
        ffn.reads(after, m, l),
{
    lemma_declared_stays(before, after);
}

proof fn lemma_layer_stays(
    layer: LayerW,
    before: Seq<WeightSlot>,
    after: Seq<WeightSlot>,
    m: ModelShape,
    l: int,
)
    requires
        extends(before, after),
        layer.reads(before, m, l),
    ensures
        layer.reads(after, m, l),
{
    lemma_declared_stays(before, after);
    lemma_mixer_stays(layer.mixer, before, after, m, l);
    lemma_ffn_stays(layer.ffn, before, after, m, l);
}

/// The norms between the mixer and the feed-forward block.
struct NormsW {
    attn_sub_norm: Option<TensorId>,
    post_attn: Option<TensorId>,
    ffn_norm: TensorId,
}

fn declare_middle_norms(
    declared: &mut Vec<WeightSlot>,
    m: &ModelShape,
    l: usize,
    qwen_hc: Option<QwenLayerHcW>,
) -> (w: NormsW)
    requires
        l < m.layers@.len(),
        qwen_hc is Some == m.qwen4exp,
    ensures
        final(declared)@ == old(declared)@ + middle_norms(*m, l as int),
        at_if(
            final(declared)@,
            w.attn_sub_norm,
            m.sub_norm && !m.delta(l as int),
            l as int,
            LayerWeight::AttnSubNorm,
        ),
        at_if(final(declared)@, w.post_attn, m.gemma, l as int, LayerWeight::PostAttnNorm),
        qwen_hc matches Some(hc) ==> w.ffn_norm == hc.ffn_norm,
        qwen_hc is None ==> at(
            final(declared)@,
            w.ffn_norm,
            l as int,
            if m.qwen35 {
                LayerWeight::PostAttnNorm
            } else {
                LayerWeight::FfnNorm
            },
        ),
{
    let delta: bool = (m.qwen35 || m.qwen4exp) && !m.layers[l].hybrid_attention;
    let attn_sub_norm: Option<TensorId> = declare_if(
        declared,
        m.sub_norm && !delta,
        l,
        LayerWeight::AttnSubNorm,
    );
    let post_attn: Option<TensorId> = declare_if(
        declared,
        m.gemma,
        l,
        LayerWeight::PostAttnNorm,
    );
    let ffn_norm: TensorId = match qwen_hc {
        Some(hc) => hc.ffn_norm,
        None => {
            let weight: LayerWeight = if m.qwen35 {
                LayerWeight::PostAttnNorm
            } else {
                LayerWeight::FfnNorm
            };
            declare(declared, l, weight)
        },
    };
    assert(declared@ =~= old(declared)@ + middle_norms(*m, l as int));
    NormsW { attn_sub_norm, post_attn, ffn_norm }
}

/// The handles that a layer ends with.
struct LastW {
    ffn_sub_norm: Option<TensorId>,
    post_ffw: Option<TensorId>,
    pl_inp_gate: Option<TensorId>,
    pl_proj: Option<TensorId>,
    pl_post_norm: Option<TensorId>,
}

fn declare_last(declared: &mut Vec<WeightSlot>, m: &ModelShape, l: usize) -> (w: LastW)
    ensures
        final(declared)@ == old(declared)@ + last_weights(*m, l as int),
        at_if(final(declared)@, w.ffn_sub_norm, m.sub_norm, l as int, LayerWeight::FfnSubNorm),
        at_if(final(declared)@, w.post_ffw, m.gemma, l as int, LayerWeight::PostFfwNorm),
        at_if(final(declared)@, w.pl_inp_gate, m.e2b, l as int, LayerWeight::InpGate),
        at_if(final(declared)@, w.pl_proj, m.e2b, l as int, LayerWeight::Proj),
        at_if(final(declared)@, w.pl_post_norm, m.e2b, l as int, LayerWeight::PostNorm),
{
    let ffn_sub_norm: Option<TensorId> = declare_if(
        declared,
        m.sub_norm,
        l,
        LayerWeight::FfnSubNorm,
    );
    let post_ffw: Option<TensorId> = declare_if(declared, m.gemma, l, LayerWeight::PostFfwNorm);
    let pl_inp_gate: Option<TensorId> = declare_if(declared, m.e2b, l, LayerWeight::InpGate);
    let pl_proj: Option<TensorId> = declare_if(declared, m.e2b, l, LayerWeight::Proj);
    let pl_post_norm: Option<TensorId> = declare_if(declared, m.e2b, l, LayerWeight::PostNorm);
    assert(declared@ =~= old(declared)@ + last_weights(*m, l as int));
    LastW { ffn_sub_norm, post_ffw, pl_inp_gate, pl_proj, pl_post_norm }
}

/// Declares the weights of layer `l`.
pub fn declare_layer(declared: &mut Vec<WeightSlot>, m: &ModelShape, l: usize) -> (w: LayerW)
    requires
        l < m.layers@.len(),
    ensures
        final(declared)@ == old(declared)@ + declared_layer(*m, l as int),
        w.reads(final(declared)@, *m, l as int),
{
    let upper: UpperW = declare_upper(declared, m, l);
    let ghost s1 = declared@;
    let norms: NormsW = declare_middle_norms(declared, m, l, upper.qwen_hc);
    let ghost s2 = declared@;
    let ffn: FfnW = declare_ffn(declared, m, l);
    let ghost s3 = declared@;
    let last: LastW = declare_last(declared, m, l);
    proof {
        let s4 = declared@;
        let upper_weights = norm_weights(*m, l as int) + declared_mixer(*m, l as int)
            + declared_streams(*m, l as int) + ple_weights(*m, l as int);
        lemma_four(
            old(declared)@,
            upper_weights,
            middle_norms(*m, l as int),
            declared_ffn(*m, l as int),
            last_weights(*m, l as int),
        );
        lemma_declared_stays(s1, s4);
        lemma_declared_stays(s2, s4);
        lemma_mixer_stays(upper.mixer, s1, s4, *m, l as int);
        lemma_ffn_stays(ffn, s3, s4, *m, l as int);
    }
    LayerW {
        attn_norm: upper.attn_norm,
        mixer: upper.mixer,
        hc: upper.hc,
        qwen_hc: upper.qwen_hc,
        ple: upper.ple,
        dsv4_compressed: upper.dsv4_compressed,
        attn_sub_norm: norms.attn_sub_norm,
        post_attn: norms.post_attn,
        ffn_norm: norms.ffn_norm,
        ffn,
        ffn_sub_norm: last.ffn_sub_norm,
        post_ffw: last.post_ffw,
        pl_inp_gate: last.pl_inp_gate,
        pl_proj: last.pl_proj,
        pl_post_norm: last.pl_post_norm,
    }
}

/// The weights of the first `n` layers, in the order of their declaration.
pub open spec fn declared_below(m: ModelShape, n: nat) -> Seq<WeightSlot>
    decreases n,
{
    if n == 0 {
        Seq::empty()
    } else {
        declared_below(m, (n - 1) as nat) + declared_layer(m, n - 1)
    }
}

/// The handles of the model as a whole.
#[derive(Clone, Copy, Debug, PartialEq, Eq, Structural)]
pub struct HeadW {
    pub out_norm: TensorId,
    pub hc_down: Option<TensorId>,
    pub hc_up: Option<TensorId>,
    pub lm: TensorId,
    pub hc_fn: Option<TensorId>,
    pub hc_base: Option<TensorId>,
    pub hc_scale: Option<TensorId>,
    /// The embedding table: its own upload, or the head's where the two are tied.
    pub embd: Option<TensorId>,
    pub ple: Option<TensorId>,
    pub sc_pre_norm: Option<TensorId>,
    pub sc_gate: Option<TensorId>,
    pub sc_up: Option<TensorId>,
    pub sc_down: Option<TensorId>,
    pub model_proj: Option<TensorId>,
    pub proj_norm: Option<TensorId>,
    pub v_ones: Option<TensorId>,
    pub router_ones: Option<TensorId>,
    pub qk_ones: Option<TensorId>,
    pub hc_ones: Option<TensorId>,
    pub qwen_hc_ones: Option<TensorId>,
}

impl HeadW {
    /// Every handle reads the weight that it is named for.
    pub open spec fn reads(self, declared: Seq<WeightSlot>, m: ModelShape) -> bool {
        &&& model_at(
            declared,
            self.out_norm,
            if m.qwen4exp {
                ModelWeight::OutputHcNorm
            } else {
                ModelWeight::OutputNorm
            },
        )
        &&& model_at_if(declared, self.hc_down, m.qwen4exp, ModelWeight::OutputHcDown)
        &&& model_at_if(declared, self.hc_up, m.qwen4exp, ModelWeight::OutputHcUp)
        &&& model_at(
            declared,
            self.lm,
            if m.untied_lm {
                ModelWeight::LmHead
            } else {
                ModelWeight::TiedLmHead
            },
        )
        &&& model_at_if(declared, self.hc_fn, m.deepseek4, ModelWeight::OutputHcFn)
        &&& model_at_if(declared, self.hc_base, m.deepseek4, ModelWeight::OutputHcBase)
        &&& model_at_if(declared, self.hc_scale, m.deepseek4, ModelWeight::OutputHcScale)
        &&& m.gpu_embed && m.untied_lm ==> (self.embd matches Some(id) && model_at(
            declared,
            id,
            ModelWeight::TokenEmbd,
        ))
        &&& m.gpu_embed && !m.untied_lm ==> self.embd == Some(self.lm)
        &&& !m.gpu_embed ==> self.embd is None
        &&& model_at_if(declared, self.ple, m.gpu_ple, ModelWeight::PerLayerTokenEmbd)
        &&& self.reads_extra(declared, m)
    }

    /// The handles of the optional blocks and of the vectors of ones read their weights.
    pub open spec fn reads_extra(self, declared: Seq<WeightSlot>, m: ModelShape) -> bool {
        &&& model_at_if(
            declared,
            self.sc_pre_norm,
            m.diffusion_gemma,
            ModelWeight::SelfCondPreNorm,
        )
        &&& model_at_if(declared, self.sc_gate, m.diffusion_gemma, ModelWeight::SelfCondGate)
        &&& model_at_if(declared, self.sc_up, m.diffusion_gemma, ModelWeight::SelfCondUp)
        &&& model_at_if(declared, self.sc_down, m.diffusion_gemma, ModelWeight::SelfCondDown)
        &&& model_at_if(declared, self.model_proj, m.e2b, ModelWeight::PerLayerModelProj)
        &&& model_at_if(declared, self.proj_norm, m.e2b, ModelWeight::PerLayerProjNorm)
        &&& model_at_if(declared, self.v_ones, m.gemma4, ModelWeight::VOnes)
        &&& model_at_if(declared, self.router_ones, m.dual_moe, ModelWeight::RouterOnes)
        &&& model_at_if(declared, self.qk_ones, m.kq_l2norm, ModelWeight::QkOnes)
        &&& model_at_if(declared, self.hc_ones, m.deepseek4, ModelWeight::HcOnes)
        &&& model_at_if(declared, self.qwen_hc_ones, m.qwen4exp, ModelWeight::QwenHcOnes)
    }
}

/// The handles of the language-model head.
struct LmW {
    out_norm: TensorId,
    hc_down: Option<TensorId>,
    hc_up: Option<TensorId>,
    lm: TensorId,
    hc_fn: Option<TensorId>,
    hc_base: Option<TensorId>,
    hc_scale: Option<TensorId>,
    embd: Option<TensorId>,
    ple: Option<TensorId>,
}

fn declare_lm(declared: &mut Vec<WeightSlot>, m: &ModelShape) -> (w: LmW)
    ensures
        final(declared)@ == old(declared)@ + head_weights(*m),
        model_at(
            final(declared)@,
            w.out_norm,
            if m.qwen4exp {
                ModelWeight::OutputHcNorm
            } else {
                ModelWeight::OutputNorm
            },
        ),
        model_at_if(final(declared)@, w.hc_down, m.qwen4exp, ModelWeight::OutputHcDown),
        model_at_if(final(declared)@, w.hc_up, m.qwen4exp, ModelWeight::OutputHcUp),
        model_at(
            final(declared)@,
            w.lm,
            if m.untied_lm {
                ModelWeight::LmHead
            } else {
                ModelWeight::TiedLmHead
            },
        ),
        model_at_if(final(declared)@, w.hc_fn, m.deepseek4, ModelWeight::OutputHcFn),
        model_at_if(final(declared)@, w.hc_base, m.deepseek4, ModelWeight::OutputHcBase),
        model_at_if(final(declared)@, w.hc_scale, m.deepseek4, ModelWeight::OutputHcScale),
        m.gpu_embed && m.untied_lm ==> (w.embd matches Some(id) && model_at(
            final(declared)@,
            id,
            ModelWeight::TokenEmbd,
        )),
        m.gpu_embed && !m.untied_lm ==> w.embd == Some(w.lm),
        !m.gpu_embed ==> w.embd is None,
        model_at_if(final(declared)@, w.ple, m.gpu_ple, ModelWeight::PerLayerTokenEmbd),
{
    let out_norm: TensorId = if m.qwen4exp {
        declare_model(declared, ModelWeight::OutputHcNorm)
    } else {
        declare_model(declared, ModelWeight::OutputNorm)
    };
    let hc_down: Option<TensorId> = declare_model_if(
        declared,
        m.qwen4exp,
        ModelWeight::OutputHcDown,
    );
    let hc_up: Option<TensorId> = declare_model_if(declared, m.qwen4exp, ModelWeight::OutputHcUp);
    let lm: TensorId = if m.untied_lm {
        declare_model(declared, ModelWeight::LmHead)
    } else {
        declare_model(declared, ModelWeight::TiedLmHead)
    };
    let hc_fn: Option<TensorId> = declare_model_if(
        declared,
        m.deepseek4,
        ModelWeight::OutputHcFn,
    );
    let hc_base: Option<TensorId> = declare_model_if(
        declared,
        m.deepseek4,
        ModelWeight::OutputHcBase,
    );
    let hc_scale: Option<TensorId> = declare_model_if(
        declared,
        m.deepseek4,
        ModelWeight::OutputHcScale,
    );
    let own: Option<TensorId> = declare_model_if(
        declared,
        m.gpu_embed && m.untied_lm,
        ModelWeight::TokenEmbd,
    );
    let embd: Option<TensorId> = if m.gpu_embed && !m.untied_lm {
        Some(lm)
    } else {
        own
    };
    let ple: Option<TensorId> = declare_model_if(
        declared,
        m.gpu_ple,
        ModelWeight::PerLayerTokenEmbd,
    );
    assert(declared@ =~= old(declared)@ + head_weights(*m));
    LmW { out_norm, hc_down, hc_up, lm, hc_fn, hc_base, hc_scale, embd, ple }
}

/// The handles of the optional blocks and of the vectors of ones.
struct ExtraW {
    sc_pre_norm: Option<TensorId>,
    sc_gate: Option<TensorId>,
    sc_up: Option<TensorId>,
    sc_down: Option<TensorId>,
    model_proj: Option<TensorId>,
    proj_norm: Option<TensorId>,
    v_ones: Option<TensorId>,
    router_ones: Option<TensorId>,
    qk_ones: Option<TensorId>,
    hc_ones: Option<TensorId>,
    qwen_hc_ones: Option<TensorId>,
}

/// The handles of the self-conditioning block.
struct SelfCondW {
    pre_norm: Option<TensorId>,
    gate: Option<TensorId>,
    up: Option<TensorId>,
    down: Option<TensorId>,
}

fn declare_self_cond(declared: &mut Vec<WeightSlot>, wanted: bool) -> (w: SelfCondW)
    ensures
        final(declared)@ == old(declared)@ + model_slots_if(
            wanted,
            seq![
                ModelWeight::SelfCondPreNorm,
                ModelWeight::SelfCondGate,
                ModelWeight::SelfCondUp,
                ModelWeight::SelfCondDown,
            ],
        ),
        model_at_if(final(declared)@, w.pre_norm, wanted, ModelWeight::SelfCondPreNorm),
        model_at_if(final(declared)@, w.gate, wanted, ModelWeight::SelfCondGate),
        model_at_if(final(declared)@, w.up, wanted, ModelWeight::SelfCondUp),
        model_at_if(final(declared)@, w.down, wanted, ModelWeight::SelfCondDown),
        stays(old(declared)@, final(declared)@),
{
    if !wanted {
        assert(declared@ =~= old(declared)@ + Seq::<WeightSlot>::empty());
        return SelfCondW { pre_norm: None, gate: None, up: None, down: None };
    }
    let pre_norm: TensorId = declare_model(declared, ModelWeight::SelfCondPreNorm);
    let gate: TensorId = declare_model(declared, ModelWeight::SelfCondGate);
    let up: TensorId = declare_model(declared, ModelWeight::SelfCondUp);
    let down: TensorId = declare_model(declared, ModelWeight::SelfCondDown);
    assert(declared@ =~= old(declared)@ + model_slots(
        seq![
            ModelWeight::SelfCondPreNorm,
            ModelWeight::SelfCondGate,
            ModelWeight::SelfCondUp,
            ModelWeight::SelfCondDown,
        ],
    ));
    SelfCondW { pre_norm: Some(pre_norm), gate: Some(gate), up: Some(up), down: Some(down) }
}

/// The handles of the per-layer input projection.
struct PerLayerW {
    model_proj: Option<TensorId>,
    proj_norm: Option<TensorId>,
}

fn declare_per_layer(declared: &mut Vec<WeightSlot>, wanted: bool) -> (w: PerLayerW)
    ensures
        final(declared)@ == old(declared)@ + model_slots_if(
            wanted,
            seq![ModelWeight::PerLayerModelProj, ModelWeight::PerLayerProjNorm],
        ),
        model_at_if(final(declared)@, w.model_proj, wanted, ModelWeight::PerLayerModelProj),
        model_at_if(final(declared)@, w.proj_norm, wanted, ModelWeight::PerLayerProjNorm),
        stays(old(declared)@, final(declared)@),
{
    if !wanted {
        assert(declared@ =~= old(declared)@ + Seq::<WeightSlot>::empty());
        return PerLayerW { model_proj: None, proj_norm: None };
    }
    let model_proj: TensorId = declare_model(declared, ModelWeight::PerLayerModelProj);
    let proj_norm: TensorId = declare_model(declared, ModelWeight::PerLayerProjNorm);
    assert(declared@ =~= old(declared)@ + model_slots(
        seq![ModelWeight::PerLayerModelProj, ModelWeight::PerLayerProjNorm],
    ));
    PerLayerW { model_proj: Some(model_proj), proj_norm: Some(proj_norm) }
}

fn declare_extra(declared: &mut Vec<WeightSlot>, m: &ModelShape) -> (w: ExtraW)
    ensures
        final(declared)@ == old(declared)@ + extra_weights(*m),
        model_at_if(
            final(declared)@,
            w.sc_pre_norm,
            m.diffusion_gemma,
            ModelWeight::SelfCondPreNorm,
        ),
        model_at_if(
            final(declared)@,
            w.sc_gate,
            m.diffusion_gemma,
            ModelWeight::SelfCondGate,
        ),
        model_at_if(
            final(declared)@,
            w.sc_up,
            m.diffusion_gemma,
            ModelWeight::SelfCondUp,
        ),
        model_at_if(
            final(declared)@,
            w.sc_down,
            m.diffusion_gemma,
            ModelWeight::SelfCondDown,
        ),
        model_at_if(
            final(declared)@,
            w.model_proj,
            m.e2b,
            ModelWeight::PerLayerModelProj,
        ),
        model_at_if(
            final(declared)@,
            w.proj_norm,
            m.e2b,
            ModelWeight::PerLayerProjNorm,
        ),
        model_at_if(
            final(declared)@,
            w.v_ones,
            m.gemma4,
            ModelWeight::VOnes,
        ),
        model_at_if(
            final(declared)@,
            w.router_ones,
            m.dual_moe,
            ModelWeight::RouterOnes,
        ),
        model_at_if(
            final(declared)@,
            w.qk_ones,
            m.kq_l2norm,
            ModelWeight::QkOnes,
        ),
        model_at_if(
            final(declared)@,
            w.hc_ones,
            m.deepseek4,
            ModelWeight::HcOnes,
        ),
        model_at_if(
            final(declared)@,
            w.qwen_hc_ones,
            m.qwen4exp,
            ModelWeight::QwenHcOnes,
        ),
{
    let self_cond: SelfCondW = declare_self_cond(declared, m.diffusion_gemma);
    let per_layer: PerLayerW = declare_per_layer(declared, m.e2b);
    let v_ones: Option<TensorId> = declare_model_if(declared, m.gemma4, ModelWeight::VOnes);
    let router_ones: Option<TensorId> = declare_model_if(
        declared,
        m.dual_moe,
        ModelWeight::RouterOnes,
    );
    let qk_ones: Option<TensorId> = declare_model_if(declared, m.kq_l2norm, ModelWeight::QkOnes);
    let hc_ones: Option<TensorId> = declare_model_if(declared, m.deepseek4, ModelWeight::HcOnes);
    let qwen_hc_ones: Option<TensorId> = declare_model_if(
        declared,
        m.qwen4exp,
        ModelWeight::QwenHcOnes,
    );
    proof {
        let a = model_slots_if(
            m.diffusion_gemma,
            seq![
                ModelWeight::SelfCondPreNorm,
                ModelWeight::SelfCondGate,
                ModelWeight::SelfCondUp,
                ModelWeight::SelfCondDown,
            ],
        );
        let b = model_slots_if(
            m.e2b,
            seq![ModelWeight::PerLayerModelProj, ModelWeight::PerLayerProjNorm],
        );
        let c = model_slots_if(m.gemma4, seq![ModelWeight::VOnes]);
        let d = model_slots_if(m.dual_moe, seq![ModelWeight::RouterOnes]);
        let e = model_slots_if(m.kq_l2norm, seq![ModelWeight::QkOnes]);
        let f = model_slots_if(m.deepseek4, seq![ModelWeight::HcOnes]);
        let g = model_slots_if(m.qwen4exp, seq![ModelWeight::QwenHcOnes]);
        lemma_five(old(declared)@, a, b, c, d, e);
        lemma_three(old(declared)@, a + b + c + d + e, f, g);
    }
    ExtraW {
        sc_pre_norm: self_cond.pre_norm,
        sc_gate: self_cond.gate,
        sc_up: self_cond.up,
        sc_down: self_cond.down,
        model_proj: per_layer.model_proj,
        proj_norm: per_layer.proj_norm,
        v_ones,
        router_ones,
        qk_ones,
        hc_ones,
        qwen_hc_ones,
    }
}

/// Declares the weights of the model as a whole.
pub fn declare_head(declared: &mut Vec<WeightSlot>, m: &ModelShape) -> (w: HeadW)
    ensures
        final(declared)@ == old(declared)@ + head_weights(*m) + extra_weights(*m),
        w.reads(final(declared)@, *m),
{
    let lm: LmW = declare_lm(declared, m);
    let ghost before = declared@;
    let extra: ExtraW = declare_extra(declared, m);
    proof {
        lemma_two(old(declared)@, head_weights(*m), extra_weights(*m));
        lemma_declared_stays(before, declared@);
    }
    HeadW {
        out_norm: lm.out_norm,
        hc_down: lm.hc_down,
        hc_up: lm.hc_up,
        lm: lm.lm,
        hc_fn: lm.hc_fn,
        hc_base: lm.hc_base,
        hc_scale: lm.hc_scale,
        embd: lm.embd,
        ple: lm.ple,
        sc_pre_norm: extra.sc_pre_norm,
        sc_gate: extra.sc_gate,
        sc_up: extra.sc_up,
        sc_down: extra.sc_down,
        model_proj: extra.model_proj,
        proj_norm: extra.proj_norm,
        v_ones: extra.v_ones,
        router_ones: extra.router_ones,
        qk_ones: extra.qk_ones,
        hc_ones: extra.hc_ones,
        qwen_hc_ones: extra.qwen_hc_ones,
    }
}

/// All handles of a graph, and the weights they were declared for, by number.
pub struct GraphWeights {
    pub layers: Vec<LayerW>,
    pub head: HeadW,
    pub declared: Vec<WeightSlot>,
}

/// All weights of a model, in the order of their declaration.
pub open spec fn declared_order(m: ModelShape) -> Seq<WeightSlot> {
    declared_below(m, m.layers@.len()) + head_weights(m) + extra_weights(m)
}

/// Declares all weights of a graph.
pub fn declare_weights(m: &ModelShape) -> (w: GraphWeights)
    ensures
        w.declared@ == declared_order(*m),
        w.layers@.len() == m.layers@.len(),
        forall|l: int|
            0 <= l < m.layers@.len() ==> (#[trigger] w.layers@[l]).reads(w.declared@, *m, l),
        w.head.reads(w.declared@, *m),
{
    let mut declared: Vec<WeightSlot> = Vec::new();
    let mut layers: Vec<LayerW> = Vec::new();
    let n: usize = m.layers.len();
    let mut l: usize = 0;
    while l < n
        invariant
            l <= n == m.layers@.len(),
            declared@ == declared_below(*m, l as nat),
            layers@.len() == l,
            forall|k: int|
                0 <= k < l ==> (#[trigger] layers@[k]).reads(declared@, *m, k),
        decreases n - l,
    {
        let ghost before = declared@;
        let w: LayerW = declare_layer(&mut declared, m, l);
        proof {
            assert(extends(before, declared@));
            assert forall|k: int| 0 <= k < l implies (#[trigger] layers@[k]).reads(
                declared@,
                *m,
                k,
            ) by {
                lemma_layer_stays(layers@[k], before, declared@, *m, k);
            }
        }
        layers.push(w);
        l = l + 1;
    }
    let ghost before = declared@;
    let head: HeadW = declare_head(&mut declared, m);
    proof {
        assert(extends(before, declared@));
        assert forall|k: int| 0 <= k < n implies (#[trigger] layers@[k]).reads(
            declared@,
            *m,
            k,
        ) by {
            lemma_layer_stays(layers@[k], before, declared@, *m, k);
        }
    }
    GraphWeights { layers, head, declared }
}

proof fn lemma_regroup(
    a: Seq<WeightSlot>,
    b: Seq<WeightSlot>,
    c: Seq<WeightSlot>,
    d: Seq<WeightSlot>,
    e: Seq<WeightSlot>,
    f: Seq<WeightSlot>,
)
    ensures
        a + b + c + d + e + Seq::empty() + f == a + (b + c + d + e + f),
{
    assert(a + b + c + d + e + Seq::empty() + f =~= a + (b + c + d + e + f));
}

proof fn lemma_only_last(f: Seq<WeightSlot>)
    ensures
        Seq::<WeightSlot>::empty() + Seq::empty() + Seq::empty() + Seq::empty() + f == f,
{
    assert(Seq::<WeightSlot>::empty() + Seq::empty() + Seq::empty() + Seq::empty() + f =~= f);
}

proof fn lemma_streams_regroup(
    a: Seq<WeightSlot>,
    b: Seq<WeightSlot>,
    c: Seq<WeightSlot>,
    f: Seq<WeightSlot>,
)
    ensures
        a + (b + c) + f == a + b + c + f,
        a + Seq::empty() + f == a + f,
{
    assert(a + (b + c) + f =~= a + b + c + f);
    assert(a + Seq::empty() + f =~= a + f);
}

proof fn lemma_upper_orders_agree(m: ModelShape, l: int)
    requires
        m.layer_consistent(l),
    ensures
        declared_mixer(m, l) + declared_streams(m, l) + ple_weights(m, l) == uploaded_mixer(m, l)
            + uploaded_after_mixer(m, l),
{
    let none = Seq::<WeightSlot>::empty();
    let ple = ple_weights(m, l);
    if m.deepseek4 {
        if m.layers@[l].compress_ratio == 0 {
            assert(dsv4_compressor_weights(m, l) =~= none);
        }
        lemma_only_last(ple);
        lemma_streams_regroup(
            dsv4_weights(l),
            dsv4_hc_weights(l),
            dsv4_compressor_weights(m, l),
            ple,
        );
    } else {
        assert(declared_streams(m, l) =~= none);
        if m.layers@[l].mla || m.kda(l) || m.delta(l) {
            lemma_only_last(ple);
            lemma_streams_regroup(declared_mixer(m, l), none, none, ple);
        } else {
            lemma_regroup(
                qkv_weights(m, l),
                if m.qkv_bias {
                    bias_weights(l)
                } else {
                    none
                },
                if m.qk_norm {
                    qk_norm_weights(l)
                } else {
                    none
                },
                slots(l, seq![LayerWeight::AttnOutput]),
                if m.qwen4exp && m.layers@[l].hybrid_attention {
                    qsa_weights(l)
                } else {
                    none
                },
                ple,
            );
        }
    }
}

proof fn lemma_ffn_orders_agree(m: ModelShape, l: int)
    requires
        m.layer_consistent(l),
    ensures
        declared_ffn(m, l) == uploaded_ffn(m, l),
{
    if !m.dual_moe && m.routed(l) {
        assert(declared_routing(m, l) =~= uploaded_routing(m, l));
    }
}

proof fn lemma_layer_orders_agree(m: ModelShape, l: int)
    requires
        m.layer_consistent(l),
    ensures
        declared_layer(m, l) == uploaded_layer(m, l),
{
    lemma_upper_orders_agree(m, l);
    lemma_ffn_orders_agree(m, l);
    let upper_d = declared_mixer(m, l) + declared_streams(m, l) + ple_weights(m, l);
    let upper_u = uploaded_mixer(m, l) + uploaded_after_mixer(m, l);
    assert(norm_weights(m, l) + declared_mixer(m, l) + declared_streams(m, l) + ple_weights(m, l)
        =~= norm_weights(m, l) + upper_d);
    assert(norm_weights(m, l) + uploaded_mixer(m, l) + uploaded_after_mixer(m, l)
        =~= norm_weights(m, l) + upper_u);
}

proof fn lemma_orders_agree_below(m: ModelShape, n: nat)
    requires
        m.consistent(),
        n <= m.layers@.len(),
    ensures
        declared_below(m, n) == uploaded_below(m, n),
    decreases n,
{
    if n > 0 {
        lemma_orders_agree_below(m, (n - 1) as nat);
        assert(m.layer_consistent(n - 1));
        lemma_layer_orders_agree(m, n - 1);
    }
}

/// A graph declares its weights in exactly the order in which they are uploaded, for every model
/// whose flags do not contradict each other. So the handle with a number is bound to the buffer that
/// was uploaded under that number for the very same weight.
pub proof fn law_declaration_order_is_upload_order(m: ModelShape)
    requires
        m.consistent(),
    ensures
        declared_order(m) == uploaded(m),
{
    lemma_orders_agree_below(m, m.layers@.len());
}

} // verus!
