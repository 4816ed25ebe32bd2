//! That the operations of a layer's feed-forward block and of the rest of a graph read only what is there.

use crate::graph_dims::{GraphDims, LayerWidths};
use crate::graph_ffn::{
    add_block, add_shared, add_shared_gated, bank, cap_logits, collapse_head, condition_canvas,
    draw_token, dual_bank, embed_rows, ffn_down, ffn_joined, ffn_split, ffn_sub_norm, last_rows,
    make_logits, mix_layer_input, norm_in_place, norm_into, one_stream, per_layer_inputs,
    scale_layer, select_by_id, shared_gate, take_largest, tap_rows, ConditionW,
};
use crate::graph_flow::{flows, grows, has, has_if, known_by, lemma_follows, sound};
use crate::graph_ops::{Activation, Clamp, Op, Scalar};
use crate::graph_scratch::{
    ConditionScratch, CoreScratch, ExpertScratch, GateScratch, PerLayerScratch, StreamScratch,
};
use crate::weight_handles::{DualMoeW, MoeW};
use crate::weight_plan::TensorId;
use vstd::prelude::*;

verus! {

pub(crate) proof fn flow_ffn_joined(
    known: Set<TensorId>,
    before: Seq<Op>,
    d: GraphDims,
    l: LayerWidths,
    c: CoreScratch,
    g: GateScratch,
    weight: usize,
    act: Activation,
)
    requires
        sound(known, before),
        has(known, before, c.hn),
    ensures
        sound(known, before + ffn_joined(d, l, c, g, weight, act)),
        grows(known, before, before + ffn_joined(d, l, c, g, weight, act)),
        has(known, before + ffn_joined(d, l, c, g, weight, act), g.joined),
        has(known, before + ffn_joined(d, l, c, g, weight, act), c.act),
{
    reveal_with_fuel(flows, 3);
    reveal_with_fuel(known_by, 3);
    lemma_follows(known, before, ffn_joined(d, l, c, g, weight, act));
}

pub(crate) proof fn flow_ffn_split(
    known: Set<TensorId>,
    before: Seq<Op>,
    d: GraphDims,
    c: CoreScratch,
    g: GateScratch,
    left: usize,
    right: usize,
    width: usize,
    act: Activation,
    clamp: Clamp,
)
    requires
        sound(known, before),
        has(known, before, c.hn),
    ensures
        sound(known, before + ffn_split(d, c, g, left, right, width, act, clamp)),
        grows(known, before, before + ffn_split(d, c, g, left, right, width, act, clamp)),
        has(known, before + ffn_split(d, c, g, left, right, width, act, clamp), g.left),
        has(known, before + ffn_split(d, c, g, left, right, width, act, clamp), g.right),
        has(known, before + ffn_split(d, c, g, left, right, width, act, clamp), c.act),
{
    reveal_with_fuel(flows, 4);
    reveal_with_fuel(known_by, 4);
    lemma_follows(known, before, ffn_split(d, c, g, left, right, width, act, clamp));
}

pub(crate) proof fn flow_ffn_sub_norm(
    known: Set<TensorId>,
    before: Seq<Op>,
    d: GraphDims,
    l: LayerWidths,
    c: CoreScratch,
    weight: usize,
)
    requires
        sound(known, before),
        has(known, before, c.act),
    ensures
        sound(known, before + ffn_sub_norm(d, l, c, weight)),
        grows(known, before, before + ffn_sub_norm(d, l, c, weight)),
        has(known, before + ffn_sub_norm(d, l, c, weight), c.act),
{
    reveal_with_fuel(flows, 2);
    reveal_with_fuel(known_by, 2);
    lemma_follows(known, before, ffn_sub_norm(d, l, c, weight));
}

pub(crate) proof fn flow_ffn_down(
    known: Set<TensorId>,
    before: Seq<Op>,
    d: GraphDims,
    c: CoreScratch,
    weight: usize,
    width: usize,
    dst: TensorId,
)
    requires
        sound(known, before),
        has(known, before, c.act),
    ensures
        sound(known, before + ffn_down(d, c, weight, width, dst)),
        grows(known, before, before + ffn_down(d, c, weight, width, dst)),
        has(known, before + ffn_down(d, c, weight, width, dst), dst),
{
    reveal_with_fuel(flows, 2);
    reveal_with_fuel(known_by, 2);
    lemma_follows(known, before, ffn_down(d, c, weight, width, dst));
}

pub(crate) proof fn flow_select_by_id(
    known: Set<TensorId>,
    before: Seq<Op>,
    d: GraphDims,
    ids: TensorId,
    table: usize,
    dst: TensorId,
)
    requires
        sound(known, before),
        has(known, before, ids),
    ensures
        sound(known, before + select_by_id(d, ids, table, dst)),
        grows(known, before, before + select_by_id(d, ids, table, dst)),
        has(known, before + select_by_id(d, ids, table, dst), dst),
{
    reveal_with_fuel(flows, 2);
    reveal_with_fuel(known_by, 2);
    lemma_follows(known, before, select_by_id(d, ids, table, dst));
}

pub(crate) proof fn flow_bank(
    known: Set<TensorId>,
    before: Seq<Op>,
    d: GraphDims,
    c: CoreScratch,
    w: MoeW,
    dst: TensorId,
    act: Activation,
    clamp: Clamp,
    selected: Option<TensorId>,
)
    requires
        sound(known, before),
        has(known, before, c.hn),
        has_if(known, before, selected),
    ensures
        sound(known, before + bank(d, c, w, dst, act, clamp, selected)),
        grows(known, before, before + bank(d, c, w, dst, act, clamp, selected)),
        has(known, before + bank(d, c, w, dst, act, clamp, selected), dst),
{
    reveal_with_fuel(flows, 2);
    reveal_with_fuel(known_by, 2);
    lemma_follows(known, before, bank(d, c, w, dst, act, clamp, selected));
}

pub(crate) proof fn flow_shared_gate(
    known: Set<TensorId>,
    before: Seq<Op>,
    d: GraphDims,
    c: CoreScratch,
    e: ExpertScratch,
    weight: usize,
)
    requires
        sound(known, before),
        has(known, before, c.hn),
    ensures
        sound(known, before + shared_gate(d, c, e, weight)),
        grows(known, before, before + shared_gate(d, c, e, weight)),
        has(known, before + shared_gate(d, c, e, weight), e.shared_gate),
{
    reveal_with_fuel(flows, 2);
    reveal_with_fuel(known_by, 2);
    lemma_follows(known, before, shared_gate(d, c, e, weight));
}

pub(crate) proof fn flow_add_shared_gated(
    known: Set<TensorId>,
    before: Seq<Op>,
    d: GraphDims,
    c: CoreScratch,
    e: ExpertScratch,
)
    requires
        sound(known, before),
        has(known, before, e.bank_out),
        has(known, before, e.dense_out),
        has(known, before, e.shared_gate),
    ensures
        sound(known, before + add_shared_gated(d, c, e)),
        grows(known, before, before + add_shared_gated(d, c, e)),
        has(known, before + add_shared_gated(d, c, e), c.sub),
{
    reveal_with_fuel(flows, 2);
    reveal_with_fuel(known_by, 2);
    lemma_follows(known, before, add_shared_gated(d, c, e));
}

pub(crate) proof fn flow_add_shared(
    known: Set<TensorId>,
    before: Seq<Op>,
    d: GraphDims,
    c: CoreScratch,
    e: ExpertScratch,
)
    requires
        sound(known, before),
        has(known, before, e.bank_out),
        has(known, before, e.dense_out),
    ensures
        sound(known, before + add_shared(d, c, e)),
        grows(known, before, before + add_shared(d, c, e)),
        has(known, before + add_shared(d, c, e), c.sub),
{
    reveal_with_fuel(flows, 2);
    reveal_with_fuel(known_by, 2);
    lemma_follows(known, before, add_shared(d, c, e));
}

pub(crate) proof fn flow_dual_bank(
    known: Set<TensorId>,
    before: Seq<Op>,
    d: GraphDims,
    c: CoreScratch,
    e: ExpertScratch,
    w: DualMoeW,
    hidden: TensorId,
    ones: usize,
    act: Activation,
)
    requires
        sound(known, before),
        has(known, before, e.dense_out),
        has(known, before, hidden),
    ensures
        sound(known, before + dual_bank(d, c, e, w, hidden, ones, act)),
        grows(known, before, before + dual_bank(d, c, e, w, hidden, ones, act)),
        has(known, before + dual_bank(d, c, e, w, hidden, ones, act), e.dense_out),
        has(known, before + dual_bank(d, c, e, w, hidden, ones, act), e.router_in),
        has(known, before + dual_bank(d, c, e, w, hidden, ones, act), e.bank_in),
        has(known, before + dual_bank(d, c, e, w, hidden, ones, act), e.bank_out),
        has(known, before + dual_bank(d, c, e, w, hidden, ones, act), c.sub),
{
    reveal_with_fuel(flows, 9);
    reveal_with_fuel(known_by, 9);
    lemma_follows(known, before, dual_bank(d, c, e, w, hidden, ones, act));
}

pub(crate) proof fn flow_embed_rows(
    known: Set<TensorId>,
    before: Seq<Op>,
    d: GraphDims,
    ids: TensorId,
    table: usize,
    dst: TensorId,
    width: usize,
    scale: Scalar,
)
    requires
        sound(known, before),
        has(known, before, ids),
    ensures
        sound(known, before + embed_rows(d, ids, table, dst, width, scale)),
        grows(known, before, before + embed_rows(d, ids, table, dst, width, scale)),
        has(known, before + embed_rows(d, ids, table, dst, width, scale), dst),
{
    reveal_with_fuel(flows, 2);
    reveal_with_fuel(known_by, 2);
    lemma_follows(known, before, embed_rows(d, ids, table, dst, width, scale));
}

pub(crate) proof fn flow_per_layer_inputs(
    known: Set<TensorId>,
    before: Seq<Op>,
    d: GraphDims,
    hidden: TensorId,
    t: PerLayerScratch,
    proj: usize,
    norm: usize,
    rows_in: TensorId,
)
    requires
        sound(known, before),
        has(known, before, hidden),
        has(known, before, rows_in),
    ensures
        sound(known, before + per_layer_inputs(d, hidden, t, proj, norm, rows_in)),
        grows(known, before, before + per_layer_inputs(d, hidden, t, proj, norm, rows_in)),
        has(known, before + per_layer_inputs(d, hidden, t, proj, norm, rows_in), t.acc),
        has(known, before + per_layer_inputs(d, hidden, t, proj, norm, rows_in), t.normed),
        has(known, before + per_layer_inputs(d, hidden, t, proj, norm, rows_in), t.inputs),
{
    reveal_with_fuel(flows, 6);
    reveal_with_fuel(known_by, 6);
    lemma_follows(known, before, per_layer_inputs(d, hidden, t, proj, norm, rows_in));
}

pub(crate) proof fn flow_condition_canvas(
    known: Set<TensorId>,
    before: Seq<Op>,
    d: GraphDims,
    hidden: TensorId,
    t: ConditionScratch,
    w: ConditionW,
    logits: TensorId,
    temperature: Option<TensorId>,
)
    requires
        sound(known, before),
        has(known, before, logits),
        has(known, before, hidden),
        has_if(known, before, temperature),
    ensures
        sound(known, before + condition_canvas(d, hidden, t, w, logits, temperature)),
        grows(known, before, before + condition_canvas(d, hidden, t, w, logits, temperature)),
        has(known, before + condition_canvas(d, hidden, t, w, logits, temperature), t.probs),
        has(known, before + condition_canvas(d, hidden, t, w, logits, temperature), t.soft),
        has(known, before + condition_canvas(d, hidden, t, w, logits, temperature), t.normed),
        has(known, before + condition_canvas(d, hidden, t, w, logits, temperature), t.left),
        has(known, before + condition_canvas(d, hidden, t, w, logits, temperature), t.right),
        has(known, before + condition_canvas(d, hidden, t, w, logits, temperature), t.act),
        has(known, before + condition_canvas(d, hidden, t, w, logits, temperature), t.signal),
        has(known, before + condition_canvas(d, hidden, t, w, logits, temperature), hidden),
{
    reveal_with_fuel(flows, 10);
    reveal_with_fuel(known_by, 10);
    lemma_follows(known, before, condition_canvas(d, hidden, t, w, logits, temperature));
}

pub(crate) proof fn flow_norm_in_place(
    known: Set<TensorId>,
    before: Seq<Op>,
    d: GraphDims,
    x: TensorId,
    weight: usize,
)
    requires
        sound(known, before),
        has(known, before, x),
    ensures
        sound(known, before + norm_in_place(d, x, weight)),
        grows(known, before, before + norm_in_place(d, x, weight)),
        has(known, before + norm_in_place(d, x, weight), x),
{
    reveal_with_fuel(flows, 2);
    reveal_with_fuel(known_by, 2);
    lemma_follows(known, before, norm_in_place(d, x, weight));
}

pub(crate) proof fn flow_norm_into(
    known: Set<TensorId>,
    before: Seq<Op>,
    d: GraphDims,
    x: TensorId,
    weight: usize,
    dst: TensorId,
)
    requires
        sound(known, before),
        has(known, before, x),
    ensures
        sound(known, before + norm_into(d, x, weight, dst)),
        grows(known, before, before + norm_into(d, x, weight, dst)),
        has(known, before + norm_into(d, x, weight, dst), dst),
{
    reveal_with_fuel(flows, 2);
    reveal_with_fuel(known_by, 2);
    lemma_follows(known, before, norm_into(d, x, weight, dst));
}

pub(crate) proof fn flow_add_block(
    known: Set<TensorId>,
    before: Seq<Op>,
    d: GraphDims,
    c: CoreScratch,
    hidden: TensorId,
)
    requires
        sound(known, before),
        has(known, before, hidden),
        has(known, before, c.sub),
    ensures
        sound(known, before + add_block(d, c, hidden)),
        grows(known, before, before + add_block(d, c, hidden)),
        has(known, before + add_block(d, c, hidden), hidden),
{
    reveal_with_fuel(flows, 2);
    reveal_with_fuel(known_by, 2);
    lemma_follows(known, before, add_block(d, c, hidden));
}

pub(crate) proof fn flow_one_stream(
    known: Set<TensorId>,
    before: Seq<Op>,
    d: GraphDims,
    hidden: TensorId,
    dst: TensorId,
    from: usize,
)
    requires
        sound(known, before),
        has(known, before, hidden),
    ensures
        sound(known, before + one_stream(d, hidden, dst, from)),
        grows(known, before, before + one_stream(d, hidden, dst, from)),
        has(known, before + one_stream(d, hidden, dst, from), dst),
{
    reveal_with_fuel(flows, 2);
    reveal_with_fuel(known_by, 2);
    lemma_follows(known, before, one_stream(d, hidden, dst, from));
}

pub(crate) proof fn flow_mix_layer_input(
    known: Set<TensorId>,
    before: Seq<Op>,
    d: GraphDims,
    l: LayerWidths,
    c: CoreScratch,
    t: PerLayerScratch,
    hidden: TensorId,
    pick: usize,
    project: usize,
    norm: usize,
)
    requires
        sound(known, before),
        has(known, before, hidden),
        has(known, before, t.inputs),
    ensures
        sound(known, before + mix_layer_input(d, l, c, t, hidden, pick, project, norm)),
        grows(known, before, before + mix_layer_input(d, l, c, t, hidden, pick, project, norm)),
        has(known, before + mix_layer_input(d, l, c, t, hidden, pick, project, norm), c.picked),
        has(known, before + mix_layer_input(d, l, c, t, hidden, pick, project, norm), c.projected),
        has(known, before + mix_layer_input(d, l, c, t, hidden, pick, project, norm), hidden),
{
    reveal_with_fuel(flows, 5);
    reveal_with_fuel(known_by, 5);
    lemma_follows(known, before, mix_layer_input(d, l, c, t, hidden, pick, project, norm));
}

pub(crate) proof fn flow_scale_layer(
    known: Set<TensorId>,
    before: Seq<Op>,
    d: GraphDims,
    hidden: TensorId,
    scale: Scalar,
)
    requires
        sound(known, before),
        has(known, before, hidden),
    ensures
        sound(known, before + scale_layer(d, hidden, scale)),
        grows(known, before, before + scale_layer(d, hidden, scale)),
        has(known, before + scale_layer(d, hidden, scale), hidden),
{
    reveal_with_fuel(flows, 2);
    reveal_with_fuel(known_by, 2);
    lemma_follows(known, before, scale_layer(d, hidden, scale));
}

pub(crate) proof fn flow_collapse_head(
    known: Set<TensorId>,
    before: Seq<Op>,
    d: GraphDims,
    s: StreamScratch,
    func: usize,
    base: usize,
    scale: usize,
    ones: usize,
    hidden: TensorId,
)
    requires
        sound(known, before),
        has(known, before, s.even),
    ensures
        sound(known, before + collapse_head(d, s, func, base, scale, ones, hidden)),
        grows(known, before, before + collapse_head(d, s, func, base, scale, ones, hidden)),
        has(known, before + collapse_head(d, s, func, base, scale, ones, hidden), s.normed),
        has(known, before + collapse_head(d, s, func, base, scale, ones, hidden), s.head_mixes),
        has(known, before + collapse_head(d, s, func, base, scale, ones, hidden), s.pre),
        has(known, before + collapse_head(d, s, func, base, scale, ones, hidden), hidden),
{
    reveal_with_fuel(flows, 5);
    reveal_with_fuel(known_by, 5);
    lemma_follows(known, before, collapse_head(d, s, func, base, scale, ones, hidden));
}

pub(crate) proof fn flow_last_rows(
    known: Set<TensorId>,
    before: Seq<Op>,
    d: GraphDims,
    c: CoreScratch,
    dst: TensorId,
)
    requires
        sound(known, before),
        has(known, before, c.hn),
    ensures
        sound(known, before + last_rows(d, c, dst)),
        grows(known, before, before + last_rows(d, c, dst)),
        has(known, before + last_rows(d, c, dst), dst),
{
    reveal_with_fuel(flows, 2);
    reveal_with_fuel(known_by, 2);
    lemma_follows(known, before, last_rows(d, c, dst));
}

pub(crate) proof fn flow_tap_rows(
    known: Set<TensorId>,
    before: Seq<Op>,
    d: GraphDims,
    src: TensorId,
    dst: TensorId,
)
    requires
        sound(known, before),
        has(known, before, src),
    ensures
        sound(known, before + tap_rows(d, src, dst)),
        grows(known, before, before + tap_rows(d, src, dst)),
        has(known, before + tap_rows(d, src, dst), dst),
{
    reveal_with_fuel(flows, 2);
    reveal_with_fuel(known_by, 2);
    lemma_follows(known, before, tap_rows(d, src, dst));
}

pub(crate) proof fn flow_make_logits(
    known: Set<TensorId>,
    before: Seq<Op>,
    d: GraphDims,
    x: TensorId,
    weight: usize,
    logits: TensorId,
)
    requires
        sound(known, before),
        has(known, before, x),
    ensures
        sound(known, before + make_logits(d, x, weight, logits)),
        grows(known, before, before + make_logits(d, x, weight, logits)),
        has(known, before + make_logits(d, x, weight, logits), logits),
{
    reveal_with_fuel(flows, 2);
    reveal_with_fuel(known_by, 2);
    lemma_follows(known, before, make_logits(d, x, weight, logits));
}

pub(crate) proof fn flow_cap_logits(
    known: Set<TensorId>,
    before: Seq<Op>,
    d: GraphDims,
    logits: TensorId,
)
    requires
        sound(known, before),
        has(known, before, logits),
    ensures
        sound(known, before + cap_logits(d, logits)),
        grows(known, before, before + cap_logits(d, logits)),
        has(known, before + cap_logits(d, logits), logits),
{
    reveal_with_fuel(flows, 2);
    reveal_with_fuel(known_by, 2);
    lemma_follows(known, before, cap_logits(d, logits));
}

pub(crate) proof fn flow_take_largest(
    known: Set<TensorId>,
    before: Seq<Op>,
    d: GraphDims,
    logits: TensorId,
    token: TensorId,
)
    requires
        sound(known, before),
        has(known, before, logits),
    ensures
        sound(known, before + take_largest(d, logits, token)),
        grows(known, before, before + take_largest(d, logits, token)),
        has(known, before + take_largest(d, logits, token), token),
{
    reveal_with_fuel(flows, 2);
    reveal_with_fuel(known_by, 2);
    lemma_follows(known, before, take_largest(d, logits, token));
}

pub(crate) proof fn flow_draw_token(
    known: Set<TensorId>,
    before: Seq<Op>,
    d: GraphDims,
    logits: TensorId,
    uniform: TensorId,
    token: TensorId,
)
    requires
        sound(known, before),
        has(known, before, logits),
        has(known, before, uniform),
    ensures
        sound(known, before + draw_token(d, logits, uniform, token)),
        grows(known, before, before + draw_token(d, logits, uniform, token)),
        has(known, before + draw_token(d, logits, uniform, token), token),
{
    reveal_with_fuel(flows, 2);
    reveal_with_fuel(known_by, 2);
    lemma_follows(known, before, draw_token(d, logits, uniform, token));
}

} // verus!
