//! From which tensors of the file the weights of a graph come: what a handle is called is what it
//! reads.

use crate::weight_handles::{
    at, model_at, AttnW, DeltaW, Dsv4CompressorW, Dsv4IndexerW, Dsv4W, DualMoeW, FfnW, HeadW,
    IndexerW, KdaW, LayerHcW, LayerW, MlaW, MoeSharedW, MoeW, QsaW, QwenLayerHcW, QwenPleW,
};
use crate::weight_names::WeightSlot;
use crate::weight_plan::{ModelShape, TensorId};
use vstd::prelude::*;

verus! {

/// The weight with this number is read from the layer's tensor of this name.
pub open spec fn holds(declared: Seq<WeightSlot>, id: TensorId, l: int, name: Seq<char>) -> bool {
    id < declared.len() && (declared[id as int] matches WeightSlot::Layer(k, w) && k == l as usize
        && w.tensors() == seq![name])
}

/// The weight, where there is one, is read from the layer's tensor of this name.
pub open spec fn holds_if(
    declared: Seq<WeightSlot>,
    id: Option<TensorId>,
    l: int,
    name: Seq<char>,
) -> bool {
    id matches Some(id) ==> holds(declared, id, l, name)
}

/// The weight with this number is read from the layer's tensors of these names, joined.
pub open spec fn joins(
    declared: Seq<WeightSlot>,
    id: TensorId,
    l: int,
    names: Seq<Seq<char>>,
) -> bool {
    id < declared.len() && (declared[id as int] matches WeightSlot::Layer(k, w) && k == l as usize
        && w.tensors() == names)
}

/// The weight with this number is read from the model's tensor of this name.
pub open spec fn model_holds(declared: Seq<WeightSlot>, id: TensorId, name: Seq<char>) -> bool {
    id < declared.len() && (declared[id as int] matches WeightSlot::Model(w) && w.tensors()
        == seq![name])
}

/// The weight, where there is one, is read from the model's tensor of this name.
pub open spec fn model_holds_if(
    declared: Seq<WeightSlot>,
    id: Option<TensorId>,
    name: Seq<char>,
) -> bool {
    id matches Some(id) ==> model_holds(declared, id, name)
}

/// The weights of the delta rule come from the tensors of their names.
pub proof fn law_delta_weights_are_read_from_their_tensors(
    declared: Seq<WeightSlot>,
    w: DeltaW,
    l: int,
)
    requires
        w.reads(declared, l),
    ensures
        holds(declared, w.qkv, l, "attn_qkv.weight"@),
        holds(declared, w.gate, l, "attn_gate.weight"@),
        holds(declared, w.conv1d, l, "ssm_conv1d.weight"@),
        holds(declared, w.alpha, l, "ssm_alpha.weight"@),
        holds(declared, w.beta, l, "ssm_beta.weight"@),
        holds(declared, w.ssm_a, l, "ssm_a"@),
        holds(declared, w.dt_bias, l, "ssm_dt.bias"@),
        holds(declared, w.ssm_norm, l, "ssm_norm.weight"@),
        holds(declared, w.out, l, "ssm_out.weight"@),
{
    reveal(at);
}

/// The weights of linear attention with forget rates come from the tensors of their names.
pub proof fn law_kda_weights_are_read_from_their_tensors(
    declared: Seq<WeightSlot>,
    w: KdaW,
    l: int,
)
    requires
        w.reads(declared, l),
    ensures
        joins(declared, w.qkv, l, seq!["attn_q.weight"@, "attn_k.weight"@, "attn_v.weight"@]),
        joins(
            declared,
            w.conv,
            l,
            seq!["ssm_conv1d_q.weight"@, "ssm_conv1d_k.weight"@, "ssm_conv1d_v.weight"@],
        ),
        holds(declared, w.forget, l, "ssm_f.weight"@),
        holds(declared, w.beta, l, "ssm_beta.weight"@),
        holds(declared, w.a, l, "ssm_a"@),
        holds(declared, w.dt_bias, l, "ssm_dt.bias"@),
        holds(declared, w.norm, l, "ssm_norm.weight"@),
        holds(declared, w.gate, l, "ssm_g.weight"@),
        holds(declared, w.out, l, "attn_output.weight"@),
{
    reveal(at);
}

/// The weights of compressed attention come from the tensors of their names.
pub proof fn law_compressed_attention_weights_are_read_from_their_tensors(
    declared: Seq<WeightSlot>,
    w: Dsv4W,
    l: int,
)
    requires
        w.reads(declared, l),
    ensures
        holds(declared, w.sinks, l, "attn_sinks.weight"@),
        holds(declared, w.wq_a, l, "attn_q_a.weight"@),
        holds(declared, w.q_a_norm, l, "attn_q_a_norm.weight"@),
        holds(declared, w.wq_b, l, "attn_q_b.weight"@),
        holds(declared, w.wkv, l, "attn_kv.weight"@),
        holds(declared, w.wkv_norm, l, "attn_kv_a_norm.weight"@),
        holds(declared, w.wo_a, l, "attn_output_a.weight"@),
        holds(declared, w.wo_b, l, "attn_output_b.weight"@),
{
    reveal(at);
}

/// The weights of a block index come from the tensors of their names.
pub proof fn law_block_index_weights_are_read_from_their_tensors(
    declared: Seq<WeightSlot>,
    w: QsaW,
    l: int,
)
    requires
        w.reads(declared, l),
    ensures
        holds(declared, w.k_norm, l, "indexer.k_norm.weight"@),
        holds(declared, w.k_proj, l, "indexer.k_proj.weight"@),
        holds(declared, w.q_norm, l, "indexer.q_norm.weight"@),
        holds(declared, w.q_proj, l, "indexer.q_proj.weight"@),
{
    reveal(at);
}

/// The weights of n-gram rows come from the tensors of their names.
pub proof fn law_n_gram_weights_are_read_from_their_tensors(
    declared: Seq<WeightSlot>,
    w: QwenPleW,
    l: int,
)
    requires
        w.reads(declared, l),
    ensures
        holds(declared, w.key, l, "ple_key.weight"@),
        holds(declared, w.value, l, "ple_value.weight"@),
        holds(declared, w.norm_key, l, "ple_norm_key.weight"@),
        holds(declared, w.norm_query, l, "ple_norm_query.weight"@),
        holds(declared, w.norm_conv, l, "ple_norm_conv.weight"@),
        holds(declared, w.conv, l, "ple_conv1d.weight"@),
{
    reveal(at);
}

/// The weights of a token index come from the tensors of their names.
pub proof fn law_token_index_weights_are_read_from_their_tensors(
    declared: Seq<WeightSlot>,
    w: IndexerW,
    l: int,
)
    requires
        w.reads(declared, l),
    ensures
        holds(declared, w.k_norm, l, "indexer.k_norm.weight"@),
        holds(declared, w.k_norm_b, l, "indexer.k_norm.bias"@),
        holds(declared, w.proj, l, "indexer.proj.weight"@),
        holds(declared, w.attn_k, l, "indexer.attn_k.weight"@),
        holds(declared, w.attn_q_b, l, "indexer.attn_q_b.weight"@),
{
    reveal(at);
}

/// The weights of a layer's residual streams come from the tensors of their names.
pub proof fn law_stream_weights_are_read_from_their_tensors(
    declared: Seq<WeightSlot>,
    w: LayerHcW,
    l: int,
)
    requires
        w.reads(declared, l),
    ensures
        holds(declared, w.attn_fn, l, "hc_attn_fn.weight"@),
        holds(declared, w.attn_base, l, "hc_attn_base.weight"@),
        holds(declared, w.attn_scale, l, "hc_attn_scale.weight"@),
        holds(declared, w.ffn_fn, l, "hc_ffn_fn.weight"@),
        holds(declared, w.ffn_base, l, "hc_ffn_base.weight"@),
        holds(declared, w.ffn_scale, l, "hc_ffn_scale.weight"@),
{
    reveal(at);
}

/// The weights of a layer's gated residual streams come from the tensors of their names.
pub proof fn law_gated_stream_weights_are_read_from_their_tensors(
    declared: Seq<WeightSlot>,
    w: QwenLayerHcW,
    l: int,
)
    requires
        w.reads(declared, l),
    ensures
        holds(declared, w.attn_norm, l, "hc_attn_norm.weight"@),
        holds(declared, w.attn_down, l, "hc_attn_down.weight"@),
        holds(declared, w.attn_up, l, "hc_attn_up.weight"@),
        holds(declared, w.attn_inject, l, "hc_attn_inject.weight"@),
        holds(declared, w.ffn_norm, l, "hc_ffn_norm.weight"@),
        holds(declared, w.ffn_down, l, "hc_ffn_down.weight"@),
        holds(declared, w.ffn_up, l, "hc_ffn_up.weight"@),
        holds(declared, w.ffn_inject, l, "hc_ffn_inject.weight"@),
{
    reveal(at);
}

/// The weights of a compressor come from the tensors of their names.
pub proof fn law_compressor_weights_are_read_from_their_tensors(
    declared: Seq<WeightSlot>,
    w: Dsv4CompressorW,
    l: int,
)
    requires
        w.reads(declared, l),
    ensures
        holds(declared, w.wkv, l, "attn_compressor_kv.weight"@),
        holds(declared, w.wgate, l, "attn_compressor_gate.weight"@),
        holds(declared, w.ape, l, "attn_compressor_ape.weight"@),
        holds(declared, w.norm, l, "attn_compressor_norm.weight"@),
{
    reveal(at);
}

/// The weights of an index compressor come from the tensors of their names.
pub proof fn law_index_compressor_weights_are_read_from_their_tensors(
    declared: Seq<WeightSlot>,
    w: Dsv4IndexerW,
    l: int,
)
    requires
        w.reads(declared, l),
    ensures
        holds(declared, w.proj, l, "indexer.proj.weight"@),
        holds(declared, w.q_b, l, "indexer.attn_q_b.weight"@),
        holds(declared, w.wkv, l, "indexer_compressor_kv.weight"@),
        holds(declared, w.wgate, l, "indexer_compressor_gate.weight"@),
        holds(declared, w.ape, l, "indexer_compressor_ape.weight"@),
        holds(declared, w.norm, l, "indexer_compressor_norm.weight"@),
{
    reveal(at);
}

/// The weights of latent attention come from the tensors of their names.
pub proof fn law_latent_weights_are_read_from_their_tensors(
    declared: Seq<WeightSlot>,
    w: MlaW,
    m: ModelShape,
    l: int,
)
    requires
        w.reads(declared, m, l),
    ensures
        holds_if(declared, w.wq_a, l, "attn_q_a.weight"@),
        holds_if(declared, w.q_a_norm, l, "attn_q_a_norm.weight"@),
        w.wq_a is None <==> m.is_lite,
        holds(
            declared,
            w.wq_b,
            l,
            if w.wq_a is None {
                "attn_q.weight"@
            } else {
                "attn_q_b.weight"@
            },
        ),
        holds(declared, w.wkv_a_mqa, l, "attn_kv_a_mqa.weight"@),
        holds(declared, w.kv_a_norm, l, "attn_kv_a_norm.weight"@),
        holds(declared, w.wk_b, l, "attn_k_b.weight"@),
        holds(declared, w.wv_b, l, "attn_v_b.weight"@),
        holds(declared, w.wo, l, "attn_output.weight"@),
        holds_if(declared, w.gate, l, "attn_gate.weight"@),
{
    reveal(at);
}

/// The weights of attention come from the tensors of their names. A joined weight holds the
/// queries, the keys and the values, in this order.
pub proof fn law_attention_weights_are_read_from_their_tensors(
    declared: Seq<WeightSlot>,
    w: AttnW,
    m: ModelShape,
    l: int,
)
    requires
        w.reads(declared, m, l),
    ensures
        !m.fuse_qkv ==> holds(declared, w.wq, l, "attn_q.weight"@),
        !m.fuse_qkv ==> holds(declared, w.wk, l, "attn_k.weight"@),
        !m.fuse_qkv ==> holds_if(declared, w.wv, l, "attn_v.weight"@),
        m.fuse_qkv ==> joins(
            declared,
            w.wq,
            l,
            seq!["attn_q.weight"@, "attn_k.weight"@, "attn_v.weight"@],
        ),
        holds_if(declared, w.qb, l, "attn_q.bias"@),
        holds_if(declared, w.kb, l, "attn_k.bias"@),
        holds_if(declared, w.vb, l, "attn_v.bias"@),
        holds_if(declared, w.q_norm, l, "attn_q_norm.weight"@),
        holds_if(declared, w.k_norm, l, "attn_k_norm.weight"@),
        holds(declared, w.wo, l, "attn_output.weight"@),
        w.qb is Some <==> m.qkv_bias,
        w.kb is Some <==> m.qkv_bias,
        w.vb is Some <==> m.qkv_bias,
        w.q_norm is Some <==> m.qk_norm,
        w.k_norm is Some <==> m.qk_norm,
{
    reveal(at);
}

/// The weights of an expert bank come from the tensors of their names.
pub proof fn law_bank_weights_are_read_from_their_tensors(
    declared: Seq<WeightSlot>,
    w: MoeW,
    m: ModelShape,
    l: int,
)
    requires
        w.reads(declared, m, l),
    ensures
        holds(declared, w.router, l, "ffn_gate_inp.weight"@),
        w.fused_gate_up ==> holds(declared, w.gate_exps, l, "ffn_gate_up_exps.weight"@) && w.up_exps
            == w.gate_exps,
        !w.fused_gate_up ==> holds(declared, w.gate_exps, l, "ffn_gate_exps.weight"@),
        !w.fused_gate_up ==> holds(declared, w.up_exps, l, "ffn_up_exps.weight"@),
        holds(declared, w.down_exps, l, "ffn_down_exps.weight"@),
        holds_if(declared, w.exp_probs_b, l, "exp_probs_b.bias"@),
        holds_if(declared, w.tid2eid, l, "ffn_gate_tid2eid.weight"@),
        w.shexp matches Some(s) ==> shared_holds(declared, s, l),
{
    reveal(at);
}

/// The weights of a shared expert come from the tensors of their names.
pub open spec fn shared_holds(declared: Seq<WeightSlot>, s: MoeSharedW, l: int) -> bool {
    &&& holds_if(declared, s.gate_inp, l, "ffn_gate_inp_shexp.weight"@)
    &&& holds(declared, s.wgate, l, "ffn_gate_shexp.weight"@)
    &&& holds(declared, s.wup, l, "ffn_up_shexp.weight"@)
    &&& holds(declared, s.wdown, l, "ffn_down_shexp.weight"@)
}

/// The weights of a dual block come from the tensors of their names.
pub proof fn law_dual_weights_are_read_from_their_tensors(
    declared: Seq<WeightSlot>,
    w: DualMoeW,
    m: ModelShape,
    l: int,
)
    requires
        w.reads(declared, m, l),
    ensures
        w.fused_gu ==> joins(
            declared,
            w.d_gate,
            l,
            seq!["ffn_gate.weight"@, "ffn_up.weight"@],
        ),
        !w.fused_gu ==> holds(declared, w.d_gate, l, "ffn_gate.weight"@),
        !w.fused_gu ==> holds(declared, w.d_up, l, "ffn_up.weight"@),
        holds(declared, w.d_down, l, "ffn_down.weight"@),
        holds(declared, w.d_post_norm, l, "post_ffw_norm_1.weight"@),
        holds(declared, w.m_pre_norm, l, "pre_ffw_norm_2.weight"@),
        holds(declared, w.router, l, "ffn_gate_inp.weight"@),
        holds(declared, w.router_scale, l, "ffn_gate_inp.scale"@),
        holds(declared, w.gate_up_exps, l, "ffn_gate_up_exps.weight"@),
        holds(declared, w.down_exps, l, "ffn_down_exps.weight"@),
        holds(declared, w.down_scale, l, "ffn_down_exps.scale"@),
        holds(declared, w.m_post_norm, l, "post_ffw_norm_2.weight"@),
{
    reveal(at);
}

/// The norms of a layer and the weights of a dense block come from the tensors of their names. A
/// joined weight holds the rows that are activated, and behind them those that they weigh.
pub proof fn law_a_layers_weights_are_read_from_their_tensors(
    declared: Seq<WeightSlot>,
    w: LayerW,
    m: ModelShape,
    l: int,
)
    requires
        w.reads(declared, m, l),
        !m.qwen4exp,
    ensures
        holds(declared, w.attn_norm, l, "attn_norm.weight"@),
        holds_if(declared, w.attn_sub_norm, l, "attn_sub_norm.weight"@),
        holds_if(declared, w.post_attn, l, "post_attention_norm.weight"@),
        w.post_attn is Some <==> m.gemma,
        holds(
            declared,
            w.ffn_norm,
            l,
            if m.qwen35 {
                "post_attention_norm.weight"@
            } else {
                "ffn_norm.weight"@
            },
        ),
        holds_if(declared, w.ffn_sub_norm, l, "ffn_sub_norm.weight"@),
        holds_if(declared, w.post_ffw, l, "post_ffw_norm.weight"@),
        w.post_ffw is Some <==> m.gemma,
        holds_if(declared, w.pl_inp_gate, l, "inp_gate.weight"@),
        holds_if(declared, w.pl_proj, l, "proj.weight"@),
        holds_if(declared, w.pl_post_norm, l, "post_norm.weight"@),
        w.ffn matches FfnW::Dense { wgate, wup, wdown } ==> {
            &&& holds(declared, wgate, l, "ffn_gate.weight"@)
            &&& holds(declared, wup, l, "ffn_up.weight"@)
            &&& holds(declared, wdown, l, "ffn_down.weight"@)
        },
        w.ffn matches FfnW::DenseFused { wgu, wdown } ==> {
            &&& joins(declared, wgu, l, seq!["ffn_gate.weight"@, "ffn_up.weight"@])
            &&& holds(declared, wdown, l, "ffn_down.weight"@)
        },
{
    reveal(at);
}

/// The weights of the head and of the model as a whole come from the tensors of their names. A
/// model without an output tensor of its own reads its logits and its rows from the same table.
pub proof fn law_a_heads_weights_are_read_from_their_tensors(
    declared: Seq<WeightSlot>,
    w: HeadW,
    m: ModelShape,
)
    requires
        w.reads(declared, m),
    ensures
        model_holds(
            declared,
            w.out_norm,
            if m.qwen4exp {
                "output_hc_norm.weight"@
            } else {
                "output_norm.weight"@
            },
        ),
        model_holds(
            declared,
            w.lm,
            if m.untied_lm {
                "output.weight"@
            } else {
                "token_embd.weight"@
            },
        ),
        model_holds_if(declared, w.embd, "token_embd.weight"@),
        w.embd is Some <==> m.gpu_embed,
        model_holds_if(declared, w.hc_down, "output_hc_down.weight"@),
        model_holds_if(declared, w.hc_up, "output_hc_up.weight"@),
        model_holds_if(declared, w.hc_fn, "output_hc_fn.weight"@),
        model_holds_if(declared, w.hc_base, "output_hc_base.weight"@),
        model_holds_if(declared, w.hc_scale, "output_hc_scale.weight"@),
        model_holds_if(declared, w.ple, "per_layer_token_embd.weight"@),
        model_holds_if(declared, w.sc_pre_norm, "self_cond_pre_norm.weight"@),
        model_holds_if(declared, w.sc_gate, "self_cond_gate.weight"@),
        model_holds_if(declared, w.sc_up, "self_cond_up.weight"@),
        model_holds_if(declared, w.sc_down, "self_cond_down.weight"@),
        model_holds_if(declared, w.model_proj, "per_layer_model_proj.weight"@),
        model_holds_if(declared, w.proj_norm, "per_layer_proj_norm.weight"@),
{
    reveal(model_at);
}

} // verus!
