//! That the operations of a whole graph read only what is there.

use crate::flow_attention::{
    attention_fits, compressed_fits, flow_attention_ops, flow_compressed_ops, flow_delta_ops,
    flow_gated_streams, flow_latent_ops, latent_fits,
};
use crate::flow_ffn::{
    flow_add_block, flow_add_shared, flow_add_shared_gated, flow_bank, flow_cap_logits,
    flow_collapse_head, flow_condition_canvas, flow_draw_token, flow_dual_bank, flow_embed_rows,
    flow_ffn_down, flow_ffn_joined, flow_ffn_split, flow_ffn_sub_norm, flow_last_rows,
    flow_make_logits, flow_mix_layer_input, flow_norm_in_place, flow_norm_into, flow_one_stream,
    flow_per_layer_inputs, flow_scale_layer, flow_select_by_id, flow_shared_gate,
    flow_take_largest, flow_tap_rows,
};
use crate::flow_mixers::{
    flow_collapse_streams, flow_inject_block, flow_kda_ops, flow_ngram_ops, flow_spread_streams,
};
use crate::graph_build::{
    bank_ops, canvas_ops, close_ops, dense_ops, embed_ops, epilogue_ops, ffn_input_ops, ffn_module,
    ffn_ops, ffn_streams, graph_ops, head_module, head_ops, layer_ops, layers_ops, mixer_input_ops,
    mixer_module, mixer_ops, mixer_streams, prologue_ops, selection, selection_ops, shared_ops,
    streams_below, upper_ops, Frame, LayerGraph, Results,
};
use crate::graph_dims::GraphDims;
use crate::graph_ffn::{
    add_block, bank, cap_logits, collapse_head, condition_canvas, embed_rows, ffn_down, ffn_joined,
    ffn_split, last_rows, make_logits, mix_layer_input, norm_in_place, norm_into, per_layer_inputs,
    shared_gate, tap_rows, ConditionW,
};
use crate::graph_flow::{grows, has, has_if, lemma_nothing_done, sound};
use crate::graph_mixers::{
    collapse_streams, gated_streams, inject_block, ngram_ops, spread_streams,
};
use crate::graph_ops::{Activation, Clamp, Op, Scalar};
use crate::weight_handles::{FfnW, MixerW, MoeSharedW, MoeW};
use crate::weight_plan::TensorId;
use vstd::prelude::*;

verus! {

/// The tensor is among the inputs, where it is given.
pub open spec fn input_if(inputs: Set<TensorId>, t: Option<TensorId>) -> bool {
    t is Some ==> inputs.contains(t->Some_0)
}

/// The device embeds the rows of a graph that begins with the first layer.
pub open spec fn embeds(x: Frame) -> bool {
    x.f.first && x.i.tok_ids is Some && x.head.embd is Some
}

/// The device gathers the per-layer rows of a graph that begins with the first layer.
pub open spec fn gathers(x: Frame) -> bool {
    x.f.first && x.f.pl_gathered && x.i.tok_ids is Some && x.head.ple is Some
}

/// The inputs that a graph's blocks share are bound; rows that the device makes need not be.
pub open spec fn bound(inputs: Set<TensorId>, x: Frame) -> bool {
    &&& inputs.contains(x.i.positions)
    &&& input_if(inputs, x.i.tok_ids)
    &&& input_if(inputs, x.i.positions4)
    &&& input_if(inputs, x.i.mrope_history)
    &&& input_if(inputs, x.i.qwen_wide)
    &&& input_if(inputs, x.i.ple_embd)
    &&& input_if(inputs, x.i.ple_state)
    &&& input_if(inputs, x.h.yarn_ff)
    &&& input_if(inputs, x.h.sc_logits)
    &&& input_if(inputs, x.h.temp_inv)
    &&& embeds(x) || inputs.contains(x.i.hidden)
    &&& gathers(x) || input_if(inputs, x.h.per_layer)
}

/// The inputs of one layer are bound.
pub open spec fn layer_bound(inputs: Set<TensorId>, g: LayerGraph) -> bool {
    &&& inputs.contains(g.caches.k)
    &&& inputs.contains(g.caches.v)
    &&& inputs.contains(g.plan.own.k)
    &&& inputs.contains(g.plan.own.v)
    &&& inputs.contains(g.plan.src.k)
    &&& inputs.contains(g.plan.src.v)
    &&& input_if(inputs, g.plan.freq_factors)
    &&& g.sparse matches Some(s) ==> inputs.contains(s.raw) && inputs.contains(s.block)
}

/// The parts of a graph fit together: streams are not empty, and per-layer inputs are made where they
/// are read.
pub open spec fn frame_fits(x: Frame) -> bool {
    &&& x.complete()
    &&& x.f.deepseek4 ==> x.d.b.hc_mult > 0
    &&& x.s.per_layer is Some ==> x.head.model_proj is Some && x.head.proj_norm is Some
        && x.h.per_layer is Some
}

/// The parts of a layer fit together.
pub open spec fn layer_fits(x: Frame, g: LayerGraph) -> bool {
    &&& x.serves(g)
    &&& g.w.mixer matches MixerW::Attn(w) ==> attention_fits(w, g.plan)
    &&& g.w.mixer matches MixerW::Mla(w) ==> latent_fits(w)
    &&& g.w.mixer matches MixerW::Dsv4(_) ==> compressed_fits(
        x.d,
        g.w.dsv4_compressed,
        g.ratio,
        g.compressed,
    )
}

/// What is known between two layers.
pub open spec fn between(inputs: Set<TensorId>, ops: Seq<Op>, x: Frame) -> bool {
    &&& sound(inputs, ops)
    &&& has(inputs, ops, x.i.hidden)
    &&& x.f.deepseek4 ==> has(inputs, ops, x.s.streams.even)
    &&& x.s.per_layer matches Some(t) ==> has(inputs, ops, t.inputs)
    &&& forall|t: TensorId| inputs.contains(t) ==> #[trigger] has(inputs, ops, t)
}

proof fn flow_streams(
    known: Set<TensorId>,
    before: Seq<Op>,
    d: GraphDims,
    hidden: TensorId,
    dst: TensorId,
    n: nat,
)
    requires
        sound(known, before),
        has(known, before, hidden),
    ensures
        sound(known, streams_below(before, d, hidden, dst, n)),
        grows(known, before, streams_below(before, d, hidden, dst, n)),
        n > 0 ==> has(known, streams_below(before, d, hidden, dst, n), dst),
    decreases n,
{
    if n > 0 {
        flow_streams(known, before, d, hidden, dst, (n - 1) as nat);
        let g = streams_below(before, d, hidden, dst, (n - 1) as nat);
        flow_one_stream(known, g, d, hidden, dst, ((n - 1) * d.b.n_embd) as usize);
    }
}

proof fn flow_embed(known: Set<TensorId>, before: Seq<Op>, x: Frame)
    requires
        sound(known, before),
        has_if(known, before, x.i.tok_ids),
    ensures
        sound(known, embed_ops(before, x)),
        grows(known, before, embed_ops(before, x)),
        x.i.tok_ids is Some && x.head.embd is Some ==> has(
            known,
            embed_ops(before, x),
            x.i.hidden,
        ),
        x.f.pl_gathered && x.i.tok_ids is Some && x.head.ple is Some ==> has_if(
            known,
            embed_ops(before, x),
            x.h.per_layer,
        ),
{
    let d = x.d;
    let scale = if x.f.gemma {
        Scalar::Sqrt(d.b.n_embd)
    } else {
        Scalar::One
    };
    let g = match (x.i.tok_ids, x.head.embd) {
        (Some(ids), Some(table)) => {
            flow_embed_rows(known, before, d, ids, table, x.i.hidden, d.b.n_embd, scale);
            before + embed_rows(d, ids, table, x.i.hidden, d.b.n_embd, scale)
        },
        _ => before,
    };
    if x.f.pl_gathered {
        match (x.i.tok_ids, x.head.ple, x.h.per_layer) {
            (Some(ids), Some(table), Some(dst)) => flow_embed_rows(
                known,
                g,
                d,
                ids,
                table,
                dst,
                d.per_layer,
                Scalar::Sqrt(d.b.n_embd_per_layer),
            ),
            _ => {},
        }
    }
}

proof fn flow_canvas(known: Set<TensorId>, before: Seq<Op>, x: Frame)
    requires
        sound(known, before),
        x.complete(),
        has(known, before, x.i.hidden),
        has_if(known, before, x.h.sc_logits),
        has_if(known, before, x.h.temp_inv),
    ensures
        sound(known, canvas_ops(before, x)),
        grows(known, before, canvas_ops(before, x)),
{
    let hidden = x.i.hidden;
    if let Some(conditioned) = x.f.canvas {
        let w = ConditionW {
            pre_norm: x.head.sc_pre_norm->Some_0,
            left: x.head.sc_gate->Some_0,
            right: x.head.sc_up->Some_0,
            down: x.head.sc_down->Some_0,
        };
        let g = if conditioned {
            flow_condition_canvas(
                known,
                before,
                x.d,
                hidden,
                x.s.condition->Some_0,
                w,
                x.h.sc_logits->Some_0,
                x.h.temp_inv,
            );
            before + condition_canvas(
                x.d,
                hidden,
                x.s.condition->Some_0,
                w,
                x.h.sc_logits->Some_0,
                x.h.temp_inv,
            )
        } else {
            before
        };
        flow_norm_in_place(known, g, x.d, hidden, x.head.router_ones->Some_0);
    }
}

proof fn flow_prologue(inputs: Set<TensorId>, x: Frame)
    requires
        frame_fits(x),
        bound(inputs, x),
    ensures
        between(inputs, prologue_ops(Seq::empty(), x), x),
{
    let none = Seq::<Op>::empty();
    let d = x.d;
    lemma_nothing_done(inputs);
    let g = if x.f.first {
        flow_embed(inputs, none, x);
        embed_ops(none, x)
    } else {
        none
    };
    assert(grows(inputs, none, g));
    assert(has(inputs, g, x.i.hidden)) by {
        if !embeds(x) {
            assert(has(inputs, none, x.i.hidden));
        }
    }
    assert(has_if(inputs, g, x.h.per_layer)) by {
        if !gathers(x) && x.h.per_layer is Some {
            assert(has(inputs, none, x.h.per_layer->Some_0));
        }
    }
    let g2 = match (x.head.model_proj, x.head.proj_norm, x.h.per_layer, x.s.per_layer) {
        (Some(proj), Some(norm), Some(rows), Some(t)) => {
            flow_per_layer_inputs(inputs, g, d, x.i.hidden, t, proj, norm, rows);
            g + per_layer_inputs(d, x.i.hidden, t, proj, norm, rows)
        },
        _ => g,
    };
    let g3 = if x.f.first {
        assert(has_if(inputs, none, x.h.sc_logits));
        assert(has_if(inputs, none, x.h.temp_inv));
        flow_canvas(inputs, g2, x);
        canvas_ops(g2, x)
    } else {
        g2
    };
    let g4 = if x.f.deepseek4 {
        flow_streams(inputs, g3, d, x.i.hidden, x.s.streams.even, d.b.hc_mult as nat);
        streams_below(g3, d, x.i.hidden, x.s.streams.even, d.b.hc_mult as nat)
    } else {
        g3
    };
    if x.f.qwen4exp && x.f.first {
        flow_streams(inputs, g4, d, x.i.hidden, x.i.qwen_wide->Some_0, d.b.hc_mult as nat);
    }
    let end = prologue_ops(none, x);
    assert(grows(inputs, none, end));
    assert forall|t: TensorId| inputs.contains(t) implies #[trigger] has(inputs, end, t) by {
        assert(has(inputs, none, t));
    }
}

proof fn flow_mixer_input(inputs: Set<TensorId>, before: Seq<Op>, x: Frame, g: LayerGraph)
    requires
        frame_fits(x),
        bound(inputs, x),
        layer_fits(x, g),
        between(inputs, before, x),
    ensures
        sound(inputs, mixer_input_ops(before, x, g)),
        grows(inputs, before, mixer_input_ops(before, x, g)),
        has(inputs, mixer_input_ops(before, x, g), x.s.core.hn),
        g.w.qwen_hc is Some ==> has(inputs, mixer_input_ops(before, x, g), x.s.qwen.inject),
        g.w.qwen_hc is None && g.w.hc is Some ==> has(
            inputs,
            mixer_input_ops(before, x, g),
            x.s.streams.post,
        ) && has(inputs, mixer_input_ops(before, x, g), x.s.streams.comb),
{
    let d = x.d;
    let hn = x.s.core.hn;
    if let Some(hc) = g.w.qwen_hc {
        flow_gated_streams(
            inputs,
            before,
            d,
            x.s.qwen,
            mixer_module(hc),
            x.i.qwen_wide->Some_0,
            hn,
            x.head.qwen_hc_ones->Some_0,
        );
    } else if let Some(hc) = g.w.hc {
        let s = x.s.streams;
        let ones = x.head.hc_ones->Some_0;
        flow_collapse_streams(inputs, before, d, s, mixer_streams(hc), s.even, hn, ones);
        let g2 = before + collapse_streams(d, s, mixer_streams(hc), s.even, hn, ones);
        flow_norm_into(inputs, g2, d, hn, g.w.attn_norm, hn);
    } else {
        flow_norm_into(inputs, before, d, x.i.hidden, g.w.attn_norm, hn);
    }
}

proof fn flow_mixer(inputs: Set<TensorId>, before: Seq<Op>, x: Frame, g: LayerGraph)
    requires
        frame_fits(x),
        bound(inputs, x),
        layer_fits(x, g),
        layer_bound(inputs, g),
        sound(inputs, before),
        has(inputs, before, x.s.core.hn),
        forall|t: TensorId| inputs.contains(t) ==> #[trigger] has(inputs, before, t),
    ensures
        sound(inputs, mixer_ops(before, x, g)),
        grows(inputs, before, mixer_ops(before, x, g)),
        has(inputs, mixer_ops(before, x, g), x.s.core.sub),
{
    let d = x.d;
    let c = x.s.core;
    match g.w.mixer {
        MixerW::DeltaNet(w) => flow_delta_ops(
            inputs,
            before,
            d,
            c,
            x.s.delta,
            w,
            g.caches.k,
            g.caches.v,
            x.f.delta_strided,
            x.f.delta_joined && !x.f.qwen4exp,
            if x.f.qwen4exp {
                Activation::Sigmoid
            } else {
                Activation::Silu
            },
        ),
        MixerW::Kda(w) => flow_kda_ops(
            inputs,
            before,
            d,
            c,
            x.s.delta,
            w,
            g.caches.k,
            g.caches.v,
        ),
        MixerW::Dsv4(w) => flow_compressed_ops(
            inputs,
            before,
            d,
            c,
            x.s.compressed,
            x.i,
            w,
            g.w.dsv4_compressed,
            g.layout,
            g.caches,
            x.h.yarn_ff,
            g.ratio,
            g.compressed,
        ),
        MixerW::Mla(w) => flow_latent_ops(
            inputs,
            before,
            d,
            c,
            x.s.latent->Some_0,
            x.s.delta,
            x.s.token_index,
            x.i,
            w,
            g.caches,
            g.plan.attend,
            x.h.yarn_ff,
        ),
        MixerW::Attn(w) => flow_attention_ops(
            inputs,
            before,
            d,
            g.widths,
            c,
            x.i,
            w,
            g.sparse,
            g.plan,
            g.w.attn_sub_norm,
        ),
    }
}

proof fn flow_ffn_input(inputs: Set<TensorId>, before: Seq<Op>, x: Frame, g: LayerGraph)
    requires
        frame_fits(x),
        bound(inputs, x),
        layer_fits(x, g),
        between(inputs, before, x),
        has(inputs, before, x.s.core.sub),
        g.w.qwen_hc is Some ==> has(inputs, before, x.s.qwen.inject),
        g.w.qwen_hc is None && g.w.hc is Some ==> has(inputs, before, x.s.streams.post) && has(
            inputs,
            before,
            x.s.streams.comb,
        ),
    ensures
        sound(inputs, ffn_input_ops(before, x, g)),
        grows(inputs, before, ffn_input_ops(before, x, g)),
        has(inputs, ffn_input_ops(before, x, g), x.s.core.hn),
        g.w.qwen_hc is Some ==> has(inputs, ffn_input_ops(before, x, g), x.s.qwen.alt),
        g.w.qwen_hc is None && g.w.hc is Some ==> has(
            inputs,
            ffn_input_ops(before, x, g),
            x.s.streams.odd,
        ),
{
    let d = x.d;
    let c = x.s.core;
    let t = match g.w.post_attn {
        Some(weight) => {
            flow_norm_in_place(inputs, before, d, c.sub, weight);
            before + norm_in_place(d, c.sub, weight)
        },
        None => before,
    };
    if let Some(hc) = g.w.qwen_hc {
        let wide = x.i.qwen_wide->Some_0;
        let alt = x.s.qwen.alt;
        flow_inject_block(inputs, t, d, c, x.s.qwen, wide, alt);
        let t2 = t + inject_block(d, c, x.s.qwen, wide, alt);
        flow_gated_streams(
            inputs,
            t2,
            d,
            x.s.qwen,
            ffn_module(hc),
            alt,
            c.hn,
            x.head.qwen_hc_ones->Some_0,
        );
    } else if let Some(hc) = g.w.hc {
        let s = x.s.streams;
        let ones = x.head.hc_ones->Some_0;
        flow_spread_streams(inputs, t, d, c, s, s.even, s.odd);
        let t2 = t + spread_streams(d, c, s, s.even, s.odd);
        flow_collapse_streams(inputs, t2, d, s, ffn_streams(hc), s.odd, c.hn, ones);
        let t3 = t2 + collapse_streams(d, s, ffn_streams(hc), s.odd, c.hn, ones);
        flow_norm_into(inputs, t3, d, c.hn, g.w.ffn_norm, c.hn);
    } else {
        flow_add_block(inputs, t, d, c, x.i.hidden);
        let t2 = t + add_block(d, c, x.i.hidden);
        flow_norm_into(inputs, t2, d, x.i.hidden, g.w.ffn_norm, c.hn);
    }
}

proof fn flow_shared(
    inputs: Set<TensorId>,
    before: Seq<Op>,
    x: Frame,
    g: LayerGraph,
    w: MoeSharedW,
)
    requires
        sound(inputs, before),
        has(inputs, before, x.s.core.hn),
        has(inputs, before, x.s.experts.bank_out),
    ensures
        sound(inputs, shared_ops(before, x, g, w)),
        grows(inputs, before, shared_ops(before, x, g, w)),
        has(inputs, shared_ops(before, x, g, w), x.s.core.sub),
{
    let d = x.d;
    let c = x.s.core;
    let e = x.s.experts;
    let width = d.b.shexp_ff;
    let act = x.f.act();
    let t = match w.gate_inp {
        Some(weight) => {
            flow_shared_gate(inputs, before, d, c, e, weight);
            before + shared_gate(d, c, e, weight)
        },
        None => before,
    };
    flow_ffn_split(inputs, t, d, c, x.s.gates, w.wgate, w.wup, width, act, g.clamp_shared);
    let t2 = t + ffn_split(d, c, x.s.gates, w.wgate, w.wup, width, act, g.clamp_shared);
    flow_ffn_down(inputs, t2, d, c, w.wdown, width, e.dense_out);
    let t3 = t2 + ffn_down(d, c, w.wdown, width, e.dense_out);
    if w.gate_inp is Some {
        flow_add_shared_gated(inputs, t3, d, c, e);
    } else {
        flow_add_shared(inputs, t3, d, c, e);
    }
}

proof fn flow_banks(inputs: Set<TensorId>, before: Seq<Op>, x: Frame, g: LayerGraph, w: MoeW)
    requires
        sound(inputs, before),
        has(inputs, before, x.s.core.hn),
        has_if(inputs, before, x.i.tok_ids),
        w.tid2eid is Some ==> x.i.tok_ids is Some && g.selected is Some,
    ensures
        sound(inputs, bank_ops(before, x, g, w)),
        grows(inputs, before, bank_ops(before, x, g, w)),
        has(inputs, bank_ops(before, x, g, w), x.s.core.sub),
{
    let dst = if w.shexp is Some {
        x.s.experts.bank_out
    } else {
        x.s.core.sub
    };
    if let Some(table) = w.tid2eid {
        flow_select_by_id(
            inputs,
            before,
            x.d,
            x.i.tok_ids->Some_0,
            table,
            g.selected->Some_0,
        );
    }
    let t = selection_ops(before, x, g, w);
    let ids = selection(g, w);
    let act = x.f.act();
    flow_bank(inputs, t, x.d, x.s.core, w, dst, act, g.clamp_routed, ids);
    let t2 = t + bank(x.d, x.s.core, w, dst, act, g.clamp_routed, ids);
    if let Some(shared) = w.shexp {
        flow_shared(inputs, t2, x, g, shared);
    }
}

proof fn flow_ffn(inputs: Set<TensorId>, before: Seq<Op>, x: Frame, g: LayerGraph)
    requires
        frame_fits(x),
        bound(inputs, x),
        layer_fits(x, g),
        between(inputs, before, x),
        has(inputs, before, x.s.core.hn),
    ensures
        sound(inputs, ffn_ops(before, x, g)),
        grows(inputs, before, ffn_ops(before, x, g)),
        has(inputs, ffn_ops(before, x, g), x.s.core.sub),
{
    let d = x.d;
    let c = x.s.core;
    let l = g.widths;
    let act = x.f.act();
    let gates = x.s.gates;
    match g.w.ffn {
        FfnW::DenseFused { wgu, wdown } => {
            flow_ffn_joined(inputs, before, d, l, c, gates, wgu, act);
            let t = before + ffn_joined(d, l, c, gates, wgu, act);
            if let Some(weight) = g.w.ffn_sub_norm {
                flow_ffn_sub_norm(inputs, t, d, l, c, weight);
            }
            flow_ffn_down(inputs, dense_ops(before, x, g), d, c, wdown, l.b.n_ff, c.sub);
        },
        FfnW::Dense { wgate, wup, wdown } => {
            let n = l.b.n_ff;
            flow_ffn_split(inputs, before, d, c, gates, wgate, wup, n, act, Clamp::Off);
            let t = before + ffn_split(d, c, gates, wgate, wup, n, act, Clamp::Off);
            if let Some(weight) = g.w.ffn_sub_norm {
                flow_ffn_sub_norm(inputs, t, d, l, c, weight);
            }
            flow_ffn_down(inputs, dense_ops(before, x, g), d, c, wdown, n, c.sub);
        },
        FfnW::Moe(w) => {
            assert(has_if(inputs, before, x.i.tok_ids));
            flow_banks(inputs, before, x, g, w);
        },
        FfnW::DiffusionMoe(w) => {
            let n = l.b.n_ff;
            let t = if w.fused_gu {
                flow_ffn_joined(inputs, before, d, l, c, gates, w.d_gate, act);
                before + ffn_joined(d, l, c, gates, w.d_gate, act)
            } else {
                flow_ffn_split(inputs, before, d, c, gates, w.d_gate, w.d_up, n, act, Clamp::Off);
                before + ffn_split(d, c, gates, w.d_gate, w.d_up, n, act, Clamp::Off)
            };
            flow_ffn_down(inputs, t, d, c, w.d_down, n, x.s.experts.dense_out);
            let t2 = t + ffn_down(d, c, w.d_down, n, x.s.experts.dense_out);
            flow_dual_bank(
                inputs,
                t2,
                d,
                c,
                x.s.experts,
                w,
                x.i.hidden,
                x.head.router_ones->Some_0,
                act,
            );
        },
    }
}

proof fn flow_close(inputs: Set<TensorId>, before: Seq<Op>, x: Frame, g: LayerGraph)
    requires
        frame_fits(x),
        bound(inputs, x),
        layer_fits(x, g),
        between(inputs, before, x),
        has(inputs, before, x.s.core.sub),
        g.w.qwen_hc is Some ==> has(inputs, before, x.s.qwen.inject) && has(
            inputs,
            before,
            x.s.qwen.alt,
        ),
        g.w.qwen_hc is None && g.w.hc is Some ==> has(inputs, before, x.s.streams.post) && has(
            inputs,
            before,
            x.s.streams.comb,
        ) && has(inputs, before, x.s.streams.odd),
    ensures
        sound(inputs, close_ops(before, x, g)),
        grows(inputs, before, close_ops(before, x, g)),
{
    let d = x.d;
    let c = x.s.core;
    let t = match g.w.post_ffw {
        Some(weight) => {
            flow_norm_in_place(inputs, before, d, c.sub, weight);
            before + norm_in_place(d, c.sub, weight)
        },
        None => before,
    };
    let t2 = if g.w.qwen_hc is Some {
        let wide = x.i.qwen_wide->Some_0;
        flow_inject_block(inputs, t, d, c, x.s.qwen, x.s.qwen.alt, wide);
        t + inject_block(d, c, x.s.qwen, x.s.qwen.alt, wide)
    } else if g.w.hc is Some {
        let s = x.s.streams;
        flow_spread_streams(inputs, t, d, c, s, s.odd, s.even);
        t + spread_streams(d, c, s, s.odd, s.even)
    } else {
        flow_add_block(inputs, t, d, c, x.i.hidden);
        t + add_block(d, c, x.i.hidden)
    };
    let t3 = match (g.w.pl_inp_gate, g.w.pl_proj, g.w.pl_post_norm, x.s.per_layer) {
        (Some(pick), Some(project), Some(norm), Some(p)) => {
            let l = g.widths;
            let hidden = x.i.hidden;
            flow_mix_layer_input(inputs, t2, d, l, c, p, hidden, pick, project, norm);
            t2 + mix_layer_input(d, l, c, p, hidden, pick, project, norm)
        },
        _ => t2,
    };
    if let Some(scale) = g.scale {
        flow_scale_layer(inputs, t3, d, x.i.hidden, scale);
    }
}

proof fn lemma_between_grows(inputs: Set<TensorId>, a: Seq<Op>, b: Seq<Op>, x: Frame)
    requires
        between(inputs, a, x),
        sound(inputs, b),
        grows(inputs, a, b),
    ensures
        between(inputs, b, x),
{
}

proof fn flow_layer(inputs: Set<TensorId>, before: Seq<Op>, x: Frame, g: LayerGraph)
    requires
        frame_fits(x),
        bound(inputs, x),
        layer_fits(x, g),
        layer_bound(inputs, g),
        between(inputs, before, x),
    ensures
        between(inputs, layer_ops(before, x, g), x),
{
    let t = match g.w.ple {
        Some(w) => {
            let wide = x.i.qwen_wide->Some_0;
            let embd = x.i.ple_embd->Some_0;
            let state = x.i.ple_state->Some_0;
            let ones = x.head.qwen_hc_ones->Some_0;
            flow_ngram_ops(inputs, before, x.d, x.s.core, x.s.qwen, w, wide, embd, state, ones);
            before + ngram_ops(x.d, x.s.core, x.s.qwen, w, wide, embd, state, ones)
        },
        None => before,
    };
    lemma_between_grows(inputs, before, t, x);
    flow_mixer_input(inputs, t, x, g);
    let t2 = mixer_input_ops(t, x, g);
    lemma_between_grows(inputs, t, t2, x);
    flow_mixer(inputs, t2, x, g);
    let t3 = mixer_ops(t2, x, g);
    lemma_between_grows(inputs, t2, t3, x);
    flow_ffn_input(inputs, t3, x, g);
    let t4 = ffn_input_ops(t3, x, g);
    lemma_between_grows(inputs, t3, t4, x);
    flow_ffn(inputs, t4, x, g);
    let t5 = ffn_ops(t4, x, g);
    lemma_between_grows(inputs, t4, t5, x);
    flow_close(inputs, t5, x, g);
    lemma_between_grows(inputs, t5, close_ops(t5, x, g), x);
    assert(t4 == upper_ops(before, x, g));
}

proof fn flow_layers(
    inputs: Set<TensorId>,
    before: Seq<Op>,
    x: Frame,
    layers: Seq<LayerGraph>,
    n: nat,
)
    requires
        frame_fits(x),
        bound(inputs, x),
        n <= layers.len(),
        forall|l: int| 0 <= l < layers.len() ==> layer_fits(x, #[trigger] layers[l]),
        forall|l: int| 0 <= l < layers.len() ==> layer_bound(inputs, #[trigger] layers[l]),
        between(inputs, before, x),
    ensures
        between(inputs, layers_ops(before, x, layers, n), x),
    decreases n,
{
    if n > 0 {
        flow_layers(inputs, before, x, layers, (n - 1) as nat);
        flow_layer(inputs, layers_ops(before, x, layers, (n - 1) as nat), x, layers[n - 1]);
    }
}

proof fn flow_head(
    inputs: Set<TensorId>,
    before: Seq<Op>,
    x: Frame,
    r: Results,
    logits: TensorId,
)
    requires
        sound(inputs, before),
        has(inputs, before, x.i.hidden),
        x.f.qwen4exp ==> has(inputs, before, x.s.core.hn),
        has_if(inputs, before, r.uniform),
    ensures
        sound(inputs, head_ops(before, x, r, logits)),
        has(inputs, head_ops(before, x, r, logits), logits),
        r.rows is Some ==> has(inputs, head_ops(before, x, r, logits), r.rows->Some_0),
        r.token is Some ==> has(inputs, head_ops(before, x, r, logits), r.token->Some_0),
{
    let d = x.d;
    let c = x.s.core;
    let t = if x.f.qwen4exp {
        before
    } else {
        flow_norm_into(inputs, before, d, x.i.hidden, x.head.out_norm, c.hn);
        before + norm_into(d, x.i.hidden, x.head.out_norm, c.hn)
    };
    let t2 = match x.s.last {
        Some(last) => {
            flow_last_rows(inputs, t, d, c, last);
            t + last_rows(d, c, last)
        },
        None => t,
    };
    let rows = match x.s.last {
        Some(last) => last,
        None => c.hn,
    };
    let t3 = match r.rows {
        Some(dst) => {
            flow_tap_rows(inputs, t2, d, rows, dst);
            t2 + tap_rows(d, rows, dst)
        },
        None => t2,
    };
    flow_make_logits(inputs, t3, d, rows, x.head.lm, logits);
    let t4 = t3 + make_logits(d, rows, x.head.lm, logits);
    let t5 = if x.f.softcap {
        flow_cap_logits(inputs, t4, d, logits);
        t4 + cap_logits(d, logits)
    } else {
        t4
    };
    match (r.token, r.uniform) {
        (Some(token), None) => flow_take_largest(inputs, t5, d, logits, token),
        (Some(token), Some(uniform)) => flow_draw_token(inputs, t5, d, logits, uniform, token),
        _ => {},
    }
}

proof fn flow_epilogue(inputs: Set<TensorId>, before: Seq<Op>, x: Frame, r: Results)
    requires
        frame_fits(x),
        bound(inputs, x),
        between(inputs, before, x),
        r.logits is Some ==> x.f.last,
        input_if(inputs, r.uniform),
    ensures
        sound(inputs, epilogue_ops(before, x, r)),
        r.logits is Some ==> has(inputs, epilogue_ops(before, x, r), r.logits->Some_0),
        r.logits is Some && r.rows is Some ==> has(
            inputs,
            epilogue_ops(before, x, r),
            r.rows->Some_0,
        ),
        r.logits is Some && r.token is Some ==> has(
            inputs,
            epilogue_ops(before, x, r),
            r.token->Some_0,
        ),
{
    let d = x.d;
    let t = if x.f.deepseek4 {
        let func = x.head.hc_fn->Some_0;
        let base = x.head.hc_base->Some_0;
        let scale = x.head.hc_scale->Some_0;
        let ones = x.head.hc_ones->Some_0;
        flow_collapse_head(inputs, before, d, x.s.streams, func, base, scale, ones, x.i.hidden);
        before + collapse_head(d, x.s.streams, func, base, scale, ones, x.i.hidden)
    } else {
        before
    };
    let t2 = if x.f.last && x.f.qwen4exp {
        let wide = x.i.qwen_wide->Some_0;
        let ones = x.head.qwen_hc_ones->Some_0;
        let module = head_module(x.head);
        flow_gated_streams(inputs, t, d, x.s.qwen, module, wide, x.s.core.hn, ones);
        gated_streams(t, d, x.s.qwen, module, wide, x.s.core.hn, ones)
    } else {
        t
    };
    if let Some(logits) = r.logits {
        assert(has_if(inputs, t2, r.uniform));
        flow_head(inputs, t2, x, r, logits);
    }
}

/// No operation of a graph reads a tensor that is neither bound nor written by an operation before it,
/// whatever the architecture; and where results are asked for, they are written.
pub proof fn law_a_graph_reads_only_what_is_there(
    inputs: Set<TensorId>,
    x: Frame,
    layers: Seq<LayerGraph>,
    r: Results,
)
    requires
        frame_fits(x),
        bound(inputs, x),
        forall|l: int| 0 <= l < layers.len() ==> layer_fits(x, #[trigger] layers[l]),
        forall|l: int| 0 <= l < layers.len() ==> layer_bound(inputs, #[trigger] layers[l]),
        r.logits is Some ==> x.f.last,
        input_if(inputs, r.uniform),
    ensures
        sound(inputs, graph_ops(x, layers, r)),
        r.logits is Some ==> has(inputs, graph_ops(x, layers, r), r.logits->Some_0),
        r.logits is Some && r.rows is Some ==> has(
            inputs,
            graph_ops(x, layers, r),
            r.rows->Some_0,
        ),
        r.logits is Some && r.token is Some ==> has(
            inputs,
            graph_ops(x, layers, r),
            r.token->Some_0,
        ),
{
    flow_prologue(inputs, x);
    let start = prologue_ops(Seq::empty(), x);
    flow_layers(inputs, start, x, layers, layers.len());
    flow_epilogue(inputs, layers_ops(start, x, layers, layers.len()), x, r);
}

} // verus!
