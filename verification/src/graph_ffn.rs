//! The operations of a layer's feed-forward block, and those before the first layer and behind the last.

use crate::graph_dims::{GraphDims, LayerWidths};
use crate::graph_ops::{
    gated, linear, rms_norm, scaled, sum, times_vec, copied, copy_part, Activation, Clamp, Op, Scalar,
    WeightRef,
};
use crate::graph_scratch::{
    ConditionScratch, CoreScratch, ExpertScratch, GateScratch, PerLayerScratch, StreamScratch,
};
use crate::weight_handles::{DualMoeW, MoeW};
use crate::weight_plan::TensorId;
use vstd::prelude::*;

verus! {

/// Both halves from one weight.
pub open spec fn ffn_joined(
    d: GraphDims,
    l: LayerWidths,
    c: CoreScratch,
    g: GateScratch,
    weight: usize,
    act: Activation,
) -> Seq<Op> {
    seq![
        linear(c.hn, weight, g.joined, d.b.batch, d.b.n_embd, l.n_ff2),
        Op::GatedActFused { gu: g.joined, dst: c.act, rows: d.b.batch, nff: l.b.n_ff, act },
    ]
}

pub(crate) fn push_ffn_joined(
    ops: &mut Vec<Op>,
    d: &GraphDims,
    l: &LayerWidths,
    c: &CoreScratch,
    g: &GateScratch,
    weight: usize,
    act: Activation,
)
    ensures
        final(ops)@ == old(ops)@ + ffn_joined(*d, *l, *c, *g, weight, act),
{
    ops.push(linear(c.hn, weight, g.joined, d.b.batch, d.b.n_embd, l.n_ff2));
    ops.push(
        Op::GatedActFused { gu: g.joined, dst: c.act, rows: d.b.batch, nff: l.b.n_ff, act },
    );
    assert(ops@ =~= old(ops)@ + ffn_joined(*d, *l, *c, *g, weight, act));
}

/// Each half from a weight of its own.
pub open spec fn ffn_split(
    d: GraphDims,
    c: CoreScratch,
    g: GateScratch,
    left: usize,
    right: usize,
    width: usize,
    act: Activation,
    clamp: Clamp,
) -> Seq<Op> {
    seq![
        linear(c.hn, left, g.left, d.b.batch, d.b.n_embd, width),
        linear(c.hn, right, g.right, d.b.batch, d.b.n_embd, width),
        gated(g.left, g.right, c.act, d.b.batch, width, act, clamp),
    ]
}

pub(crate) fn push_ffn_split(
    ops: &mut Vec<Op>,
    d: &GraphDims,
    c: &CoreScratch,
    g: &GateScratch,
    left: usize,
    right: usize,
    width: usize,
    act: Activation,
    clamp: Clamp,
)
    ensures
        final(ops)@ == old(ops)@ + ffn_split(*d, *c, *g, left, right, width, act, clamp),
{
    ops.push(linear(c.hn, left, g.left, d.b.batch, d.b.n_embd, width));
    ops.push(linear(c.hn, right, g.right, d.b.batch, d.b.n_embd, width));
    ops.push(gated(g.left, g.right, c.act, d.b.batch, width, act, clamp));
    assert(ops@ =~= old(ops)@ + ffn_split(*d, *c, *g, left, right, width, act, clamp));
}

pub open spec fn ffn_sub_norm(
    d: GraphDims,
    l: LayerWidths,
    c: CoreScratch,
    weight: usize,
) -> Seq<Op> {
    seq![
        rms_norm(c.act, weight, c.act, d.b.batch, l.b.n_ff),
    ]
}

pub(crate) fn push_ffn_sub_norm(
    ops: &mut Vec<Op>,
    d: &GraphDims,
    l: &LayerWidths,
    c: &CoreScratch,
    weight: usize,
)
    ensures
        final(ops)@ == old(ops)@ + ffn_sub_norm(*d, *l, *c, weight),
{
    ops.push(rms_norm(c.act, weight, c.act, d.b.batch, l.b.n_ff));
    assert(ops@ =~= old(ops)@ + ffn_sub_norm(*d, *l, *c, weight));
}

pub open spec fn ffn_down(
    d: GraphDims,
    c: CoreScratch,
    weight: usize,
    width: usize,
    dst: TensorId,
) -> Seq<Op> {
    seq![
        linear(c.act, weight, dst, d.b.batch, width, d.b.n_embd),
    ]
}

pub(crate) fn push_ffn_down(
    ops: &mut Vec<Op>,
    d: &GraphDims,
    c: &CoreScratch,
    weight: usize,
    width: usize,
    dst: TensorId,
)
    ensures
        final(ops)@ == old(ops)@ + ffn_down(*d, *c, weight, width, dst),
{
    ops.push(linear(c.act, weight, dst, d.b.batch, width, d.b.n_embd));
    assert(ops@ =~= old(ops)@ + ffn_down(*d, *c, weight, width, dst));
}

/// The experts of each token, by its id.
pub open spec fn select_by_id(
    d: GraphDims,
    ids: TensorId,
    table: usize,
    dst: TensorId,
) -> Seq<Op> {
    seq![
        Op::GatherI32 { ids, table, dst, rows: d.b.batch, ne: d.b.n_used },
    ]
}

pub(crate) fn push_select_by_id(
    ops: &mut Vec<Op>,
    d: &GraphDims,
    ids: TensorId,
    table: usize,
    dst: TensorId,
)
    ensures
        final(ops)@ == old(ops)@ + select_by_id(*d, ids, table, dst),
{
    ops.push(Op::GatherI32 { ids, table, dst, rows: d.b.batch, ne: d.b.n_used });
    assert(ops@ =~= old(ops)@ + select_by_id(*d, ids, table, dst));
}

/// A routed expert bank.
pub open spec fn bank(
    d: GraphDims,
    c: CoreScratch,
    w: MoeW,
    dst: TensorId,
    act: Activation,
    clamp: Clamp,
    selected: Option<TensorId>,
) -> Seq<Op> {
    seq![
        Op::MoeFfn {
            x: c.hn,
            router_x: c.hn,
            router: w.router,
            gate_exps: w.gate_exps,
            up_exps: w.up_exps,
            down_exps: w.down_exps,
            down_scale: None,
            fused_gate_up: w.fused_gate_up,
            dst,
            ne: d.b.n_embd,
            n_expert: d.b.n_expert,
            n_used: d.b.n_used,
            n_ff_exp: d.b.n_ff_exp,
            act,
            rule: d.b.moe,
            exp_probs_b: w.exp_probs_b,
            clamp,
            expert_ids: selected,
        },
    ]
}

pub(crate) fn push_bank(
    ops: &mut Vec<Op>,
    d: &GraphDims,
    c: &CoreScratch,
    w: &MoeW,
    dst: TensorId,
    act: Activation,
    clamp: Clamp,
    selected: Option<TensorId>,
)
    ensures
        final(ops)@ == old(ops)@ + bank(*d, *c, *w, dst, act, clamp, selected),
{
    ops.push(
        Op::MoeFfn {
            x: c.hn,
            router_x: c.hn,
            router: w.router,
            gate_exps: w.gate_exps,
            up_exps: w.up_exps,
            down_exps: w.down_exps,
            down_scale: None,
            fused_gate_up: w.fused_gate_up,
            dst,
            ne: d.b.n_embd,
            n_expert: d.b.n_expert,
            n_used: d.b.n_used,
            n_ff_exp: d.b.n_ff_exp,
            act,
            rule: d.b.moe,
            exp_probs_b: w.exp_probs_b,
            clamp,
            expert_ids: selected,
        },
    );
    assert(ops@ =~= old(ops)@ + bank(*d, *c, *w, dst, act, clamp, selected));
}

pub open spec fn shared_gate(
    d: GraphDims,
    c: CoreScratch,
    e: ExpertScratch,
    weight: usize,
) -> Seq<Op> {
    seq![
        linear(c.hn, weight, e.shared_gate, d.b.batch, d.b.n_embd, 1),
    ]
}

pub(crate) fn push_shared_gate(
    ops: &mut Vec<Op>,
    d: &GraphDims,
    c: &CoreScratch,
    e: &ExpertScratch,
    weight: usize,
)
    ensures
        final(ops)@ == old(ops)@ + shared_gate(*d, *c, *e, weight),
{
    ops.push(linear(c.hn, weight, e.shared_gate, d.b.batch, d.b.n_embd, 1));
    assert(ops@ =~= old(ops)@ + shared_gate(*d, *c, *e, weight));
}

pub open spec fn add_shared_gated(d: GraphDims, c: CoreScratch, e: ExpertScratch) -> Seq<Op> {
    seq![
        Op::MoeSharedExpertAdd {
            moe: e.bank_out,
            shexp: e.dense_out,
            gate: e.shared_gate,
            dst: c.sub,
            rows: d.b.batch,
            n: d.b.n_embd,
        },
    ]
}

pub(crate) fn push_add_shared_gated(
    ops: &mut Vec<Op>,
    d: &GraphDims,
    c: &CoreScratch,
    e: &ExpertScratch,
)
    ensures
        final(ops)@ == old(ops)@ + add_shared_gated(*d, *c, *e),
{
    ops.push(
        Op::MoeSharedExpertAdd {
            moe: e.bank_out,
            shexp: e.dense_out,
            gate: e.shared_gate,
            dst: c.sub,
            rows: d.b.batch,
            n: d.b.n_embd,
        },
    );
    assert(ops@ =~= old(ops)@ + add_shared_gated(*d, *c, *e));
}

pub open spec fn add_shared(d: GraphDims, c: CoreScratch, e: ExpertScratch) -> Seq<Op> {
    seq![
        sum(e.bank_out, e.dense_out, c.sub, d.b.batch, d.b.n_embd),
    ]
}

pub(crate) fn push_add_shared(
    ops: &mut Vec<Op>,
    d: &GraphDims,
    c: &CoreScratch,
    e: &ExpertScratch,
)
    ensures
        final(ops)@ == old(ops)@ + add_shared(*d, *c, *e),
{
    ops.push(sum(e.bank_out, e.dense_out, c.sub, d.b.batch, d.b.n_embd));
    assert(ops@ =~= old(ops)@ + add_shared(*d, *c, *e));
}

/// The expert branch beside a dense one: router and experts each norm the residual for themselves.
pub open spec fn dual_bank(
    d: GraphDims,
    c: CoreScratch,
    e: ExpertScratch,
    w: DualMoeW,
    hidden: TensorId,
    ones: usize,
    act: Activation,
) -> Seq<Op> {
    seq![
        rms_norm(e.dense_out, w.d_post_norm, e.dense_out, d.b.batch, d.b.n_embd),
        rms_norm(hidden, ones, e.router_in, d.b.batch, d.b.n_embd),
        scaled(e.router_in, Scalar::InvSqrt(d.b.n_embd), d.b.batch, d.b.n_embd),
        times_vec(e.router_in, w.router_scale, d.b.batch, d.b.n_embd),
        rms_norm(hidden, w.m_pre_norm, e.bank_in, d.b.batch, d.b.n_embd),
        Op::MoeFfn {
            x: e.bank_in,
            router_x: e.router_in,
            router: w.router,
            gate_exps: w.gate_up_exps,
            up_exps: w.gate_up_exps,
            down_exps: w.down_exps,
            down_scale: Some(w.down_scale),
            fused_gate_up: true,
            dst: e.bank_out,
            ne: d.b.n_embd,
            n_expert: d.b.n_expert,
            n_used: d.b.n_used,
            n_ff_exp: d.b.n_ff_exp,
            act,
            rule: d.moe_ungrouped,
            exp_probs_b: None,
            clamp: Clamp::Off,
            expert_ids: None,
        },
        rms_norm(e.bank_out, w.m_post_norm, e.bank_out, d.b.batch, d.b.n_embd),
        sum(e.dense_out, e.bank_out, c.sub, d.b.batch, d.b.n_embd),
    ]
}

pub(crate) fn push_dual_bank(
    ops: &mut Vec<Op>,
    d: &GraphDims,
    c: &CoreScratch,
    e: &ExpertScratch,
    w: &DualMoeW,
    hidden: TensorId,
    ones: usize,
    act: Activation,
)
    ensures
        final(ops)@ == old(ops)@ + dual_bank(*d, *c, *e, *w, hidden, ones, act),
{
    ops.push(rms_norm(e.dense_out, w.d_post_norm, e.dense_out, d.b.batch, d.b.n_embd));
    ops.push(rms_norm(hidden, ones, e.router_in, d.b.batch, d.b.n_embd));
    ops.push(scaled(e.router_in, Scalar::InvSqrt(d.b.n_embd), d.b.batch, d.b.n_embd));
    ops.push(times_vec(e.router_in, w.router_scale, d.b.batch, d.b.n_embd));
    ops.push(rms_norm(hidden, w.m_pre_norm, e.bank_in, d.b.batch, d.b.n_embd));
    ops.push(
        Op::MoeFfn {
            x: e.bank_in,
            router_x: e.router_in,
            router: w.router,
            gate_exps: w.gate_up_exps,
            up_exps: w.gate_up_exps,
            down_exps: w.down_exps,
            down_scale: Some(w.down_scale),
            fused_gate_up: true,
            dst: e.bank_out,
            ne: d.b.n_embd,
            n_expert: d.b.n_expert,
            n_used: d.b.n_used,
            n_ff_exp: d.b.n_ff_exp,
            act,
            rule: d.moe_ungrouped,
            exp_probs_b: None,
            clamp: Clamp::Off,
            expert_ids: None,
        },
    );
    ops.push(rms_norm(e.bank_out, w.m_post_norm, e.bank_out, d.b.batch, d.b.n_embd));
    ops.push(sum(e.dense_out, e.bank_out, c.sub, d.b.batch, d.b.n_embd));
    assert(ops@ =~= old(ops)@ + dual_bank(*d, *c, *e, *w, hidden, ones, act));
}

/// The embedding rows of the tokens.
pub open spec fn embed_rows(
    d: GraphDims,
    ids: TensorId,
    table: usize,
    dst: TensorId,
    width: usize,
    scale: Scalar,
) -> Seq<Op> {
    seq![
        Op::EmbedGather { ids, table, dst, rows: d.b.batch, ne: width, scale },
    ]
}

pub(crate) fn push_embed_rows(
    ops: &mut Vec<Op>,
    d: &GraphDims,
    ids: TensorId,
    table: usize,
    dst: TensorId,
    width: usize,
    scale: Scalar,
)
    ensures
        final(ops)@ == old(ops)@ + embed_rows(*d, ids, table, dst, width, scale),
{
    ops.push(Op::EmbedGather { ids, table, dst, rows: d.b.batch, ne: width, scale });
    assert(ops@ =~= old(ops)@ + embed_rows(*d, ids, table, dst, width, scale));
}

/// The per-layer inputs of every token.
pub open spec fn per_layer_inputs(
    d: GraphDims,
    hidden: TensorId,
    t: PerLayerScratch,
    proj: usize,
    norm: usize,
    rows_in: TensorId,
) -> Seq<Op> {
    seq![
        linear(hidden, proj, t.acc, d.b.batch, d.b.n_embd, d.per_layer),
        scaled(t.acc, Scalar::InvSqrt(d.b.n_embd), d.b.batch, d.per_layer),
        rms_norm(t.acc, norm, t.normed, d.layer_rows, d.b.n_embd_per_layer),
        sum(t.normed, rows_in, t.inputs, d.b.batch, d.per_layer),
        scaled(t.inputs, Scalar::InvSqrt(2), d.b.batch, d.per_layer),
    ]
}

pub(crate) fn push_per_layer_inputs(
    ops: &mut Vec<Op>,
    d: &GraphDims,
    hidden: TensorId,
    t: &PerLayerScratch,
    proj: usize,
    norm: usize,
    rows_in: TensorId,
)
    ensures
        final(ops)@ == old(ops)@ + per_layer_inputs(*d, hidden, *t, proj, norm, rows_in),
{
    ops.push(linear(hidden, proj, t.acc, d.b.batch, d.b.n_embd, d.per_layer));
    ops.push(scaled(t.acc, Scalar::InvSqrt(d.b.n_embd), d.b.batch, d.per_layer));
    ops.push(rms_norm(t.acc, norm, t.normed, d.layer_rows, d.b.n_embd_per_layer));
    ops.push(sum(t.normed, rows_in, t.inputs, d.b.batch, d.per_layer));
    ops.push(scaled(t.inputs, Scalar::InvSqrt(2), d.b.batch, d.per_layer));
    assert(ops@ =~= old(ops)@ + per_layer_inputs(*d, hidden, *t, proj, norm, rows_in));
}

/// The weights that condition a canvas.
#[derive(Clone, Copy, Debug, PartialEq, Eq, Structural)]
pub struct ConditionW {
    pub pre_norm: usize,
    pub left: usize,
    pub right: usize,
    pub down: usize,
}

/// The canvas, conditioned on the last step's logits.
pub open spec fn condition_canvas(
    d: GraphDims,
    hidden: TensorId,
    t: ConditionScratch,
    w: ConditionW,
    logits: TensorId,
    temperature: Option<TensorId>,
) -> Seq<Op> {
    seq![
        Op::Softmax {
            x: logits,
            dst: t.probs,
            rows: d.b.batch,
            dim: d.b.vocab,
            scale: Scalar::One,
            scale_buf: temperature,
        },
        Op::Linear {
            x: t.probs,
            weight: WeightRef::SoftEmbedding,
            dst: t.soft,
            m: d.b.batch,
            in_f: d.b.vocab,
            out_f: d.b.n_embd,
            w_off: 0,
        },
        scaled(t.soft, Scalar::Sqrt(d.b.n_embd), d.b.batch, d.b.n_embd),
        rms_norm(t.soft, w.pre_norm, t.normed, d.b.batch, d.b.n_embd),
        linear(t.normed, w.left, t.left, d.b.batch, d.b.n_embd, d.b.n_ff),
        linear(t.normed, w.right, t.right, d.b.batch, d.b.n_embd, d.b.n_ff),
        gated(t.left, t.right, t.act, d.b.batch, d.b.n_ff, Activation::Gelu, Clamp::Off),
        linear(t.act, w.down, t.signal, d.b.batch, d.b.n_ff, d.b.n_embd),
        sum(hidden, t.signal, hidden, d.b.batch, d.b.n_embd),
    ]
}

pub(crate) fn push_condition_canvas(
    ops: &mut Vec<Op>,
    d: &GraphDims,
    hidden: TensorId,
    t: &ConditionScratch,
    w: &ConditionW,
    logits: TensorId,
    temperature: Option<TensorId>,
)
    ensures
        final(ops)@ == old(ops)@ + condition_canvas(*d, hidden, *t, *w, logits, temperature),
{
    ops.push(
        Op::Softmax {
            x: logits,
            dst: t.probs,
            rows: d.b.batch,
            dim: d.b.vocab,
            scale: Scalar::One,
            scale_buf: temperature,
        },
    );
    ops.push(
        Op::Linear {
            x: t.probs,
            weight: WeightRef::SoftEmbedding,
            dst: t.soft,
            m: d.b.batch,
            in_f: d.b.vocab,
            out_f: d.b.n_embd,
            w_off: 0,
        },
    );
    ops.push(scaled(t.soft, Scalar::Sqrt(d.b.n_embd), d.b.batch, d.b.n_embd));
    ops.push(rms_norm(t.soft, w.pre_norm, t.normed, d.b.batch, d.b.n_embd));
    ops.push(linear(t.normed, w.left, t.left, d.b.batch, d.b.n_embd, d.b.n_ff));
    ops.push(linear(t.normed, w.right, t.right, d.b.batch, d.b.n_embd, d.b.n_ff));
    ops.push(
        gated(t.left, t.right, t.act, d.b.batch, d.b.n_ff, Activation::Gelu, Clamp::Off),
    );
    ops.push(linear(t.act, w.down, t.signal, d.b.batch, d.b.n_ff, d.b.n_embd));
    ops.push(sum(hidden, t.signal, hidden, d.b.batch, d.b.n_embd));
    assert(ops@ =~= old(ops)@ + condition_canvas(*d, hidden, *t, *w, logits, temperature));
}

pub open spec fn norm_in_place(d: GraphDims, x: TensorId, weight: usize) -> Seq<Op> {
    seq![
        rms_norm(x, weight, x, d.b.batch, d.b.n_embd),
    ]
}

pub(crate) fn push_norm_in_place(ops: &mut Vec<Op>, d: &GraphDims, x: TensorId, weight: usize)
    ensures
        final(ops)@ == old(ops)@ + norm_in_place(*d, x, weight),
{
    ops.push(rms_norm(x, weight, x, d.b.batch, d.b.n_embd));
    assert(ops@ =~= old(ops)@ + norm_in_place(*d, x, weight));
}

pub open spec fn norm_into(d: GraphDims, x: TensorId, weight: usize, dst: TensorId) -> Seq<Op> {
    seq![
        rms_norm(x, weight, dst, d.b.batch, d.b.n_embd),
    ]
}

pub(crate) fn push_norm_into(
    ops: &mut Vec<Op>,
    d: &GraphDims,
    x: TensorId,
    weight: usize,
    dst: TensorId,
)
    ensures
        final(ops)@ == old(ops)@ + norm_into(*d, x, weight, dst),
{
    ops.push(rms_norm(x, weight, dst, d.b.batch, d.b.n_embd));
    assert(ops@ =~= old(ops)@ + norm_into(*d, x, weight, dst));
}

/// A block's output, added to the residual.
pub open spec fn add_block(d: GraphDims, c: CoreScratch, hidden: TensorId) -> Seq<Op> {
    seq![
        sum(hidden, c.sub, hidden, d.b.batch, d.b.n_embd),
    ]
}

pub(crate) fn push_add_block(ops: &mut Vec<Op>, d: &GraphDims, c: &CoreScratch, hidden: TensorId)
    ensures
        final(ops)@ == old(ops)@ + add_block(*d, *c, hidden),
{
    ops.push(sum(hidden, c.sub, hidden, d.b.batch, d.b.n_embd));
    assert(ops@ =~= old(ops)@ + add_block(*d, *c, hidden));
}

/// One residual stream, begun as a copy.
pub open spec fn one_stream(
    d: GraphDims,
    hidden: TensorId,
    dst: TensorId,
    from: usize,
) -> Seq<Op> {
    seq![
        copy_part(hidden, 0, d.b.n_embd, dst, from, d.wide, d.b.batch, d.b.n_embd),
    ]
}

pub(crate) fn push_one_stream(
    ops: &mut Vec<Op>,
    d: &GraphDims,
    hidden: TensorId,
    dst: TensorId,
    from: usize,
)
    ensures
        final(ops)@ == old(ops)@ + one_stream(*d, hidden, dst, from),
{
    ops.push(copy_part(hidden, 0, d.b.n_embd, dst, from, d.wide, d.b.batch, d.b.n_embd));
    assert(ops@ =~= old(ops)@ + one_stream(*d, hidden, dst, from));
}

/// A layer's own input, mixed into the residual.
pub open spec fn mix_layer_input(
    d: GraphDims,
    l: LayerWidths,
    c: CoreScratch,
    t: PerLayerScratch,
    hidden: TensorId,
    pick: usize,
    project: usize,
    norm: usize,
) -> Seq<Op> {
    seq![
        linear(hidden, pick, c.picked, d.b.batch, d.b.n_embd, d.b.n_embd_per_layer),
        Op::GatedAct {
            gate: c.picked,
            up: t.inputs,
            dst: c.picked,
            rows: d.b.batch,
            nff: d.b.n_embd_per_layer,
            act: Activation::Gelu,
            up_off: l.per_layer_off,
            up_stride: d.per_layer,
            gate_stride: 0,
            gate_block: 0,
            clamp: Clamp::Off,
        },
        linear(c.picked, project, c.projected, d.b.batch, d.b.n_embd_per_layer, d.b.n_embd),
        Op::RmsNormAdd {
            x: c.projected,
            weight: norm,
            dst: hidden,
            rows: d.b.batch,
            dim: d.b.n_embd,
        },
    ]
}

pub(crate) fn push_mix_layer_input(
    ops: &mut Vec<Op>,
    d: &GraphDims,
    l: &LayerWidths,
    c: &CoreScratch,
    t: &PerLayerScratch,
    hidden: TensorId,
    pick: usize,
    project: usize,
    norm: usize,
)
    ensures
        final(ops)@ == old(ops)@ + mix_layer_input(*d, *l, *c, *t, hidden, pick, project, norm),
{
    ops.push(linear(hidden, pick, c.picked, d.b.batch, d.b.n_embd, d.b.n_embd_per_layer));
    ops.push(
        Op::GatedAct {
            gate: c.picked,
            up: t.inputs,
            dst: c.picked,
            rows: d.b.batch,
            nff: d.b.n_embd_per_layer,
            act: Activation::Gelu,
            up_off: l.per_layer_off,
            up_stride: d.per_layer,
            gate_stride: 0,
            gate_block: 0,
            clamp: Clamp::Off,
        },
    );
    ops.push(
        linear(c.picked, project, c.projected, d.b.batch, d.b.n_embd_per_layer, d.b.n_embd),
    );
    ops.push(
        Op::RmsNormAdd {
            x: c.projected,
            weight: norm,
            dst: hidden,
            rows: d.b.batch,
            dim: d.b.n_embd,
        },
    );
    assert(ops@ =~= old(ops)@ + mix_layer_input(*d, *l, *c, *t, hidden, pick, project, norm));
}

pub open spec fn scale_layer(d: GraphDims, hidden: TensorId, scale: Scalar) -> Seq<Op> {
    seq![
        scaled(hidden, scale, d.b.batch, d.b.n_embd),
    ]
}

pub(crate) fn push_scale_layer(ops: &mut Vec<Op>, d: &GraphDims, hidden: TensorId, scale: Scalar)
    ensures
        final(ops)@ == old(ops)@ + scale_layer(*d, hidden, scale),
{
    ops.push(scaled(hidden, scale, d.b.batch, d.b.n_embd));
    assert(ops@ =~= old(ops)@ + scale_layer(*d, hidden, scale));
}

/// The residual streams, collapsed behind the last layer.
pub open spec fn collapse_head(
    d: GraphDims,
    s: StreamScratch,
    func: usize,
    base: usize,
    scale: usize,
    ones: usize,
    hidden: TensorId,
) -> Seq<Op> {
    seq![
        rms_norm(s.even, ones, s.normed, d.b.batch, d.wide),
        linear(s.normed, func, s.head_mixes, d.b.batch, d.wide, d.b.hc_mult),
        Op::HyperConnectMix {
            mixes: s.head_mixes,
            scale,
            base,
            pre: s.pre,
            post: None,
            comb: None,
            rows: d.b.batch,
            hc: d.b.hc_mult,
            n_iter: d.b.hc_iters,
        },
        Op::HyperConnectPre {
            x: s.even,
            weights: s.pre,
            dst: hidden,
            rows: d.b.batch,
            hc: d.b.hc_mult,
            n_embd: d.b.n_embd,
        },
    ]
}

pub(crate) fn push_collapse_head(
    ops: &mut Vec<Op>,
    d: &GraphDims,
    s: &StreamScratch,
    func: usize,
    base: usize,
    scale: usize,
    ones: usize,
    hidden: TensorId,
)
    ensures
        final(ops)@ == old(ops)@ + collapse_head(*d, *s, func, base, scale, ones, hidden),
{
    ops.push(rms_norm(s.even, ones, s.normed, d.b.batch, d.wide));
    ops.push(linear(s.normed, func, s.head_mixes, d.b.batch, d.wide, d.b.hc_mult));
    ops.push(
        Op::HyperConnectMix {
            mixes: s.head_mixes,
            scale,
            base,
            pre: s.pre,
            post: None,
            comb: None,
            rows: d.b.batch,
            hc: d.b.hc_mult,
            n_iter: d.b.hc_iters,
        },
    );
    ops.push(
        Op::HyperConnectPre {
            x: s.even,
            weights: s.pre,
            dst: hidden,
            rows: d.b.batch,
            hc: d.b.hc_mult,
            n_embd: d.b.n_embd,
        },
    );
    assert(ops@ =~= old(ops)@ + collapse_head(*d, *s, func, base, scale, ones, hidden));
}

pub open spec fn last_rows(d: GraphDims, c: CoreScratch, dst: TensorId) -> Seq<Op> {
    seq![
        Op::Copy {
            src: c.hn,
            src_off: d.tail,
            dst,
            dst_off: 0,
            rows: d.b.logits_rows,
            n: d.b.n_embd,
        },
    ]
}

pub(crate) fn push_last_rows(ops: &mut Vec<Op>, d: &GraphDims, c: &CoreScratch, dst: TensorId)
    ensures
        final(ops)@ == old(ops)@ + last_rows(*d, *c, dst),
{
    ops.push(
        Op::Copy {
            src: c.hn,
            src_off: d.tail,
            dst,
            dst_off: 0,
            rows: d.b.logits_rows,
            n: d.b.n_embd,
        },
    );
    assert(ops@ =~= old(ops)@ + last_rows(*d, *c, dst));
}

pub open spec fn tap_rows(d: GraphDims, src: TensorId, dst: TensorId) -> Seq<Op> {
    seq![
        copied(src, dst, d.b.logits_rows, d.b.n_embd),
    ]
}

pub(crate) fn push_tap_rows(ops: &mut Vec<Op>, d: &GraphDims, src: TensorId, dst: TensorId)
    ensures
        final(ops)@ == old(ops)@ + tap_rows(*d, src, dst),
{
    ops.push(copied(src, dst, d.b.logits_rows, d.b.n_embd));
    assert(ops@ =~= old(ops)@ + tap_rows(*d, src, dst));
}

pub open spec fn make_logits(
    d: GraphDims,
    x: TensorId,
    weight: usize,
    logits: TensorId,
) -> Seq<Op> {
    seq![
        linear(x, weight, logits, d.b.logits_rows, d.b.n_embd, d.b.vocab),
    ]
}

pub(crate) fn push_make_logits(
    ops: &mut Vec<Op>,
    d: &GraphDims,
    x: TensorId,
    weight: usize,
    logits: TensorId,
)
    ensures
        final(ops)@ == old(ops)@ + make_logits(*d, x, weight, logits),
{
    ops.push(linear(x, weight, logits, d.b.logits_rows, d.b.n_embd, d.b.vocab));
    assert(ops@ =~= old(ops)@ + make_logits(*d, x, weight, logits));
}

pub open spec fn cap_logits(d: GraphDims, logits: TensorId) -> Seq<Op> {
    seq![
        Op::Softcap { x: logits, dst: logits, rows: d.b.logits_rows, n: d.b.vocab },
    ]
}

pub(crate) fn push_cap_logits(ops: &mut Vec<Op>, d: &GraphDims, logits: TensorId)
    ensures
        final(ops)@ == old(ops)@ + cap_logits(*d, logits),
{
    ops.push(Op::Softcap { x: logits, dst: logits, rows: d.b.logits_rows, n: d.b.vocab });
    assert(ops@ =~= old(ops)@ + cap_logits(*d, logits));
}

pub open spec fn take_largest(d: GraphDims, logits: TensorId, token: TensorId) -> Seq<Op> {
    seq![
        Op::Argmax { x: logits, dst: token, n: d.b.vocab, rows: d.b.logits_rows },
    ]
}

pub(crate) fn push_take_largest(
    ops: &mut Vec<Op>,
    d: &GraphDims,
    logits: TensorId,
    token: TensorId,
)
    ensures
        final(ops)@ == old(ops)@ + take_largest(*d, logits, token),
{
    ops.push(Op::Argmax { x: logits, dst: token, n: d.b.vocab, rows: d.b.logits_rows });
    assert(ops@ =~= old(ops)@ + take_largest(*d, logits, token));
}

pub open spec fn draw_token(
    d: GraphDims,
    logits: TensorId,
    uniform: TensorId,
    token: TensorId,
) -> Seq<Op> {
    seq![
        Op::Sample {
            x: logits,
            u: uniform,
            dst: token,
            n: d.b.vocab,
            rows: d.b.logits_rows,
            top_k: d.b.sample_top_k,
        },
    ]
}

pub(crate) fn push_draw_token(
    ops: &mut Vec<Op>,
    d: &GraphDims,
    logits: TensorId,
    uniform: TensorId,
    token: TensorId,
)
    ensures
        final(ops)@ == old(ops)@ + draw_token(*d, logits, uniform, token),
{
    ops.push(
        Op::Sample {
            x: logits,
            u: uniform,
            dst: token,
            n: d.b.vocab,
            rows: d.b.logits_rows,
            top_k: d.b.sample_top_k,
        },
    );
    assert(ops@ =~= old(ops)@ + draw_token(*d, logits, uniform, token));
}

} // verus!
