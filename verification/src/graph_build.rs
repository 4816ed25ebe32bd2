//! A whole graph: what comes before the first layer, the layers, and what comes behind the last.

use crate::attention_plan::CompressedStep;
use crate::graph_attention::{
    attention_ops, compressed_ops, emit_attention, emit_compressed, emit_latent, latent_ops,
    LayerPlan, SparseLayer,
};
use crate::graph_dims::{GraphDims, LayerWidths};
use crate::graph_ffn::{
    add_block, add_shared, add_shared_gated, bank, cap_logits, collapse_head, condition_canvas,
    draw_token, dual_bank, embed_rows, ffn_down, ffn_joined, ffn_split, ffn_sub_norm, last_rows,
    make_logits, mix_layer_input, norm_in_place, norm_into, one_stream, per_layer_inputs,
    push_add_block, push_add_shared, push_add_shared_gated, push_bank, push_cap_logits,
    push_collapse_head, push_condition_canvas, push_draw_token, push_dual_bank, push_embed_rows,
    push_ffn_down, push_ffn_joined, push_ffn_split, push_ffn_sub_norm, push_last_rows,
    push_make_logits, push_mix_layer_input, push_norm_in_place, push_norm_into, push_one_stream,
    push_per_layer_inputs, push_scale_layer, push_select_by_id, push_shared_gate, push_take_largest,
    push_tap_rows, scale_layer, select_by_id, shared_gate, take_largest, tap_rows, ConditionW,
};
use crate::graph_inputs::{RowIds, SharedIds};
use crate::graph_mixers::{
    collapse_streams, delta_ops, emit_delta_ops, emit_gated_streams, gated_streams, inject_block,
    kda_ops, ngram_ops, push_collapse_streams, push_inject_block, push_kda_ops, push_ngram_ops,
    push_spread_streams, spread_streams, Caches, CompressedLayout, QwenStreamW, StreamW,
};
use crate::graph_ops::{Activation, Clamp, Op, Scalar};
use crate::graph_scratch::Scratch;
use crate::prompt::min;
use crate::weight_handles::{FfnW, HeadW, LayerHcW, LayerW, MixerW, MoeSharedW, MoeW, QwenLayerHcW};
use crate::weight_plan::{LayerShape, TensorId};
use vstd::prelude::*;

verus! {

/// What decides between the ways a graph can be built.
#[derive(Clone, Copy, Debug, PartialEq, Eq, Structural)]
pub struct GraphFlags {
    pub gemma: bool,
    pub qwen4exp: bool,
    pub deepseek4: bool,
    /// The state of linear attention is read from its convolution as it is.
    pub delta_strided: bool,
    /// Norm and gates of linear attention are one operation.
    pub delta_joined: bool,
    /// The graph begins with the first layer, and ends with the last.
    pub first: bool,
    pub last: bool,
    /// The device norms a canvas, and conditions it if `Some(true)`.
    pub canvas: Option<bool>,
    /// The device gathers the per-layer embedding rows.
    pub pl_gathered: bool,
    pub softcap: bool,
}

impl GraphFlags {
    /// The activation of feed-forward blocks.
    pub open spec fn act(self) -> Activation {
        if self.gemma {
            Activation::Gelu
        } else {
            Activation::Silu
        }
    }

    fn activation(&self) -> (a: Activation)
        ensures
            a == self.act(),
    {
        if self.gemma {
            Activation::Gelu
        } else {
            Activation::Silu
        }
    }
}

/// One layer of a graph.
#[derive(Clone, Copy, Debug, PartialEq, Eq, Structural)]
pub struct LayerGraph {
    pub w: LayerW,
    pub widths: LayerWidths,
    pub plan: LayerPlan,
    pub sparse: Option<SparseLayer>,
    /// The layer's own caches.
    pub caches: Caches,
    pub ratio: usize,
    pub layout: CompressedLayout,
    pub compressed: CompressedStep,
    pub clamp_routed: Clamp,
    pub clamp_shared: Clamp,
    /// Where the experts selected by token id are put.
    pub selected: Option<TensorId>,
    pub scale: Option<Scalar>,
}

/// What a graph's layers share.
pub struct Frame<'a> {
    pub d: GraphDims,
    pub s: &'a Scratch,
    pub i: RowIds,
    pub h: SharedIds,
    pub head: HeadW,
    pub f: GraphFlags,
}

impl<'a> Frame<'a> {
    /// Whatever the graph's flags call for is there.
    pub open spec fn complete(&self) -> bool {
        let d = self.d;
        &&& self.f.qwen4exp ==> self.i.qwen_wide is Some && self.head.qwen_hc_ones is Some
            && self.head.hc_down is Some && self.head.hc_up is Some
        &&& self.f.deepseek4 ==> self.head.hc_ones is Some && self.head.hc_fn is Some
            && self.head.hc_base is Some && self.head.hc_scale is Some && d.b.batch == 1
        &&& self.f.canvas is Some ==> self.head.router_ones is Some
        &&& self.f.canvas == Some(true) ==> {
            &&& self.s.condition is Some
            &&& self.h.sc_logits is Some
            &&& self.head.sc_pre_norm is Some
            &&& self.head.sc_gate is Some
            &&& self.head.sc_up is Some
            &&& self.head.sc_down is Some
        }
        &&& d.b.hc_mult * d.b.n_embd <= usize::MAX
        &&& d.b.o_group_count * d.group_row <= usize::MAX
        &&& d.b.o_group_count * d.b.o_lora_rank <= usize::MAX
        &&& d.b.o_group_count * d.b.o_lora_rank * d.group_row <= usize::MAX
    }

    /// Whatever the layer calls for is there.
    pub open spec fn serves(&self, g: LayerGraph) -> bool {
        &&& g.w.qwen_hc is Some ==> self.f.qwen4exp
        &&& g.w.hc is Some ==> self.f.deepseek4
        &&& g.w.ple is Some ==> self.f.qwen4exp && self.i.ple_embd is Some && self.i.ple_state is Some
        &&& g.w.mixer matches MixerW::Mla(w) ==> self.s.latent is Some && (w.indexer is Some
            ==> self.s.token_index is Some)
        &&& g.w.mixer matches MixerW::Dsv4(_) ==> self.d.b.batch == 1 && (g.ratio != 0
            ==> g.w.dsv4_compressed is Some) && (g.ratio == 4 ==> (g.w.dsv4_compressed matches Some(b)
            && b.indexer is Some))
        &&& g.w.ffn matches FfnW::Moe(w) ==> (w.tid2eid is Some ==> self.i.tok_ids is Some
            && g.selected is Some)
        &&& g.w.ffn matches FfnW::DiffusionMoe(_) ==> self.head.router_ones is Some
        &&& g.w.pl_inp_gate is Some ==> self.s.per_layer is Some
    }
}

/// The first `n` residual streams, begun as copies of the rows.
pub open spec fn streams_below(before: Seq<Op>, d: GraphDims, hidden: TensorId, dst: TensorId, n: nat) -> Seq<
    Op,
>
    decreases n,
{
    if n == 0 {
        before
    } else {
        streams_below(before, d, hidden, dst, (n - 1) as nat) + one_stream(
            d,
            hidden,
            dst,
            ((n - 1) * d.b.n_embd) as usize,
        )
    }
}

fn emit_streams(ops: &mut Vec<Op>, d: &GraphDims, hidden: TensorId, dst: TensorId)
    requires
        d.b.hc_mult * d.b.n_embd <= usize::MAX,
    ensures
        final(ops)@ == streams_below(old(ops)@, *d, hidden, dst, d.b.hc_mult as nat),
{
    let ghost before = ops@;
    let n: usize = d.b.hc_mult;
    let mut k: usize = 0;
    while k < n
        invariant
            k <= n == d.b.hc_mult,
            n * d.b.n_embd <= usize::MAX,
            ops@ == streams_below(before, *d, hidden, dst, k as nat),
        decreases n - k,
    {
        proof {
            assert(k * d.b.n_embd <= n * d.b.n_embd) by (nonlinear_arith)
                requires
                    k <= n,
                    d.b.n_embd >= 0,
            ;
        }
        let from: usize = k * d.b.n_embd;
        push_one_stream(ops, d, hidden, dst, from);
        k = k + 1;
    }
}

/// The embedding, where the device gathers it.
pub open spec fn embed_ops(before: Seq<Op>, x: Frame) -> Seq<Op> {
    let d = x.d;
    let g = match (x.i.tok_ids, x.head.embd) {
        (Some(ids), Some(table)) => before + embed_rows(
            d,
            ids,
            table,
            x.i.hidden,
            d.b.n_embd,
            if x.f.gemma {
                Scalar::Sqrt(d.b.n_embd)
            } else {
                Scalar::One
            },
        ),
        _ => before,
    };
    if x.f.pl_gathered {
        match (x.i.tok_ids, x.head.ple, x.h.per_layer) {
            (Some(ids), Some(table), Some(dst)) => g + embed_rows(
                d,
                ids,
                table,
                dst,
                d.per_layer,
                Scalar::Sqrt(d.b.n_embd_per_layer),
            ),
            _ => g,
        }
    } else {
        g
    }
}

fn emit_embed(ops: &mut Vec<Op>, x: &Frame)
    ensures
        final(ops)@ == embed_ops(old(ops)@, *x),
{
    let d: &GraphDims = &x.d;
    match (x.i.tok_ids, x.head.embd) {
        (Some(ids), Some(table)) => {
            let scale: Scalar = if x.f.gemma {
                Scalar::Sqrt(d.b.n_embd)
            } else {
                Scalar::One
            };
            push_embed_rows(ops, d, ids, table, x.i.hidden, d.b.n_embd, scale);
        },
        _ => {},
    }
    if x.f.pl_gathered {
        match (x.i.tok_ids, x.head.ple, x.h.per_layer) {
            (Some(ids), Some(table), Some(dst)) => push_embed_rows(
                ops,
                d,
                ids,
                table,
                dst,
                d.per_layer,
                Scalar::Sqrt(d.b.n_embd_per_layer),
            ),
            _ => {},
        }
    }
}

/// The canvas, conditioned and normed where the device does that.
pub open spec fn canvas_ops(before: Seq<Op>, x: Frame) -> Seq<Op> {
    let hidden = x.i.hidden;
    match x.f.canvas {
        Some(conditioned) => {
            let g = if conditioned {
                before + condition_canvas(
                    x.d,
                    hidden,
                    x.s.condition->Some_0,
                    ConditionW {
                        pre_norm: x.head.sc_pre_norm->Some_0,
                        left: x.head.sc_gate->Some_0,
                        right: x.head.sc_up->Some_0,
                        down: x.head.sc_down->Some_0,
                    },
                    x.h.sc_logits->Some_0,
                    x.h.temp_inv,
                )
            } else {
                before
            };
            g + norm_in_place(x.d, hidden, x.head.router_ones->Some_0)
        },
        None => before,
    }
}

fn emit_canvas(ops: &mut Vec<Op>, x: &Frame)
    requires
        x.complete(),
    ensures
        final(ops)@ == canvas_ops(old(ops)@, *x),
{
    if let Some(conditioned) = x.f.canvas {
        if conditioned {
            let w: ConditionW = ConditionW {
                pre_norm: x.head.sc_pre_norm.unwrap(),
                left: x.head.sc_gate.unwrap(),
                right: x.head.sc_up.unwrap(),
                down: x.head.sc_down.unwrap(),
            };
            push_condition_canvas(
                ops,
                &x.d,
                x.i.hidden,
                &x.s.condition.unwrap(),
                &w,
                x.h.sc_logits.unwrap(),
                x.h.temp_inv,
            );
        }
        push_norm_in_place(ops, &x.d, x.i.hidden, x.head.router_ones.unwrap());
    }
}

/// What comes before the layers. The per-layer inputs and the streams of compressed attention are made
/// in every graph; the rest only in one that begins with the first layer.
pub open spec fn prologue_ops(before: Seq<Op>, x: Frame) -> Seq<Op> {
    let d = x.d;
    let g = if x.f.first {
        embed_ops(before, x)
    } else {
        before
    };
    let g = match (x.head.model_proj, x.head.proj_norm, x.h.per_layer, x.s.per_layer) {
        (Some(proj), Some(norm), Some(rows), Some(t)) => g + per_layer_inputs(
            d,
            x.i.hidden,
            t,
            proj,
            norm,
            rows,
        ),
        _ => g,
    };
    let g = if x.f.first {
        canvas_ops(g, x)
    } else {
        g
    };
    let g = if x.f.deepseek4 {
        streams_below(g, d, x.i.hidden, x.s.streams.even, d.b.hc_mult as nat)
    } else {
        g
    };
    if x.f.qwen4exp && x.f.first {
        streams_below(g, d, x.i.hidden, x.i.qwen_wide->Some_0, d.b.hc_mult as nat)
    } else {
        g
    }
}

/// See [`prologue_ops`].
pub fn emit_prologue(ops: &mut Vec<Op>, x: &Frame)
    requires
        x.complete(),
    ensures
        final(ops)@ == prologue_ops(old(ops)@, *x),
{
    if x.f.first {
        emit_embed(ops, x);
    }
    match (x.head.model_proj, x.head.proj_norm, x.h.per_layer, x.s.per_layer) {
        (Some(proj), Some(norm), Some(rows), Some(t)) => push_per_layer_inputs(
            ops,
            &x.d,
            x.i.hidden,
            &t,
            proj,
            norm,
            rows,
        ),
        _ => {},
    }
    if x.f.first {
        emit_canvas(ops, x);
    }
    if x.f.deepseek4 {
        emit_streams(ops, &x.d, x.i.hidden, x.s.streams.even);
    }
    if x.f.qwen4exp && x.f.first {
        emit_streams(ops, &x.d, x.i.hidden, x.i.qwen_wide.unwrap());
    }
}

/// The gated residual module around a layer's mixer.
pub open spec fn mixer_module(w: QwenLayerHcW) -> QwenStreamW {
    QwenStreamW {
        norm: w.attn_norm,
        down: w.attn_down,
        up: w.attn_up,
        inject: Some(w.attn_inject),
    }
}

/// The gated residual module around a layer's feed-forward block.
pub open spec fn ffn_module(w: QwenLayerHcW) -> QwenStreamW {
    QwenStreamW { norm: w.ffn_norm, down: w.ffn_down, up: w.ffn_up, inject: Some(w.ffn_inject) }
}

/// The stream weights around a layer's mixer.
pub open spec fn mixer_streams(w: LayerHcW) -> StreamW {
    StreamW { func: w.attn_fn, base: w.attn_base, scale: w.attn_scale }
}

/// The stream weights around a layer's feed-forward block.
pub open spec fn ffn_streams(w: LayerHcW) -> StreamW {
    StreamW { func: w.ffn_fn, base: w.ffn_base, scale: w.ffn_scale }
}

/// The rows that a layer's mixer reads.
pub open spec fn mixer_input_ops(before: Seq<Op>, x: Frame, g: LayerGraph) -> Seq<Op> {
    let d = x.d;
    let hn = x.s.core.hn;
    if let Some(hc) = g.w.qwen_hc {
        gated_streams(
            before,
            d,
            x.s.qwen,
            mixer_module(hc),
            x.i.qwen_wide->Some_0,
            hn,
            x.head.qwen_hc_ones->Some_0,
        )
    } else if let Some(hc) = g.w.hc {
        before + collapse_streams(
            d,
            x.s.streams,
            mixer_streams(hc),
            x.s.streams.even,
            hn,
            x.head.hc_ones->Some_0,
        ) + norm_into(d, hn, g.w.attn_norm, hn)
    } else {
        before + norm_into(d, x.i.hidden, g.w.attn_norm, hn)
    }
}

fn emit_mixer_input(ops: &mut Vec<Op>, x: &Frame, g: &LayerGraph)
    requires
        x.complete(),
        x.serves(*g),
    ensures
        final(ops)@ == mixer_input_ops(old(ops)@, *x, *g),
{
    let d: &GraphDims = &x.d;
    let hn: TensorId = x.s.core.hn;
    if let Some(hc) = g.w.qwen_hc {
        let module: QwenStreamW = QwenStreamW {
            norm: hc.attn_norm,
            down: hc.attn_down,
            up: hc.attn_up,
            inject: Some(hc.attn_inject),
        };
        emit_gated_streams(
            ops,
            d,
            &x.s.qwen,
            &module,
            x.i.qwen_wide.unwrap(),
            hn,
            x.head.qwen_hc_ones.unwrap(),
        );
    } else if let Some(hc) = g.w.hc {
        let w: StreamW = StreamW { func: hc.attn_fn, base: hc.attn_base, scale: hc.attn_scale };
        push_collapse_streams(
            ops,
            d,
            &x.s.streams,
            &w,
            x.s.streams.even,
            hn,
            x.head.hc_ones.unwrap(),
        );
        push_norm_into(ops, d, hn, g.w.attn_norm, hn);
    } else {
        push_norm_into(ops, d, x.i.hidden, g.w.attn_norm, hn);
    }
}

/// A layer's mixer.
pub open spec fn mixer_ops(before: Seq<Op>, x: Frame, g: LayerGraph) -> Seq<Op> {
    let d = x.d;
    let c = x.s.core;
    match g.w.mixer {
        MixerW::DeltaNet(w) => delta_ops(
            before,
            d,
            c,
            x.s.delta,
            w,
            g.caches.k,
            g.caches.v,
            x.f.delta_strided,
            x.f.delta_joined && !x.f.qwen4exp,
            if x.f.qwen4exp {
                Activation::Sigmoid
            } else {
                Activation::Silu
            },
        ),
        MixerW::Kda(w) => before + kda_ops(d, c, x.s.delta, w, g.caches.k, g.caches.v),
        MixerW::Dsv4(w) => compressed_ops(
            before,
            d,
            c,
            x.s.compressed,
            x.i,
            w,
            g.w.dsv4_compressed,
            g.layout,
            g.caches,
            x.h.yarn_ff,
            g.ratio,
            g.compressed,
        ),
        MixerW::Mla(w) => latent_ops(
            before,
            d,
            c,
            x.s.latent->Some_0,
            x.s.delta,
            x.s.token_index,
            x.i,
            w,
            g.caches,
            g.plan.attend,
            x.h.yarn_ff,
        ),
        MixerW::Attn(w) => attention_ops(
            before,
            d,
            g.widths,
            c,
            x.i,
            w,
            g.sparse,
            g.plan,
            g.w.attn_sub_norm,
        ),
    }
}

fn emit_mixer(ops: &mut Vec<Op>, x: &Frame, g: &LayerGraph)
    requires
        x.complete(),
        x.serves(*g),
    ensures
        final(ops)@ == mixer_ops(old(ops)@, *x, *g),
{
    let d: &GraphDims = &x.d;
    match &g.w.mixer {
        MixerW::DeltaNet(w) => {
            let act: Activation = if x.f.qwen4exp {
                Activation::Sigmoid
            } else {
                Activation::Silu
            };
            emit_delta_ops(
                ops,
                d,
                &x.s.core,
                &x.s.delta,
                w,
                g.caches.k,
                g.caches.v,
                x.f.delta_strided,
                x.f.delta_joined && !x.f.qwen4exp,
                act,
            )
        },
        MixerW::Kda(w) => push_kda_ops(
            ops,
            d,
            &x.s.core,
            &x.s.delta,
            w,
            g.caches.k,
            g.caches.v,
        ),
        MixerW::Dsv4(w) => emit_compressed(
            ops,
            d,
            &x.s.core,
            &x.s.compressed,
            &x.i,
            w,
            &g.w.dsv4_compressed,
            &g.layout,
            &g.caches,
            x.h.yarn_ff,
            g.ratio,
            &g.compressed,
        ),
        MixerW::Mla(w) => emit_latent(
            ops,
            d,
            &x.s.core,
            &x.s.latent.unwrap(),
            &x.s.delta,
            &x.s.token_index,
            &x.i,
            w,
            &g.caches,
            &g.plan.attend,
            x.h.yarn_ff,
        ),
        MixerW::Attn(w) => emit_attention(
            ops,
            d,
            &g.widths,
            &x.s.core,
            &x.i,
            w,
            &g.sparse,
            &g.plan,
            g.w.attn_sub_norm,
        ),
    }
}

/// The mixer's output joins the residual, and the rows that the feed-forward block reads are made.
pub open spec fn ffn_input_ops(before: Seq<Op>, x: Frame, g: LayerGraph) -> Seq<Op> {
    let d = x.d;
    let c = x.s.core;
    let t = match g.w.post_attn {
        Some(weight) => before + norm_in_place(d, c.sub, weight),
        None => before,
    };
    if let Some(hc) = g.w.qwen_hc {
        gated_streams(
            t + inject_block(d, c, x.s.qwen, x.i.qwen_wide->Some_0, x.s.qwen.alt),
            d,
            x.s.qwen,
            ffn_module(hc),
            x.s.qwen.alt,
            c.hn,
            x.head.qwen_hc_ones->Some_0,
        )
    } else if let Some(hc) = g.w.hc {
        let s = x.s.streams;
        t + spread_streams(d, c, s, s.even, s.odd) + collapse_streams(
            d,
            s,
            ffn_streams(hc),
            s.odd,
            c.hn,
            x.head.hc_ones->Some_0,
        ) + norm_into(d, c.hn, g.w.ffn_norm, c.hn)
    } else {
        t + add_block(d, c, x.i.hidden) + norm_into(d, x.i.hidden, g.w.ffn_norm, c.hn)
    }
}

fn emit_ffn_input(ops: &mut Vec<Op>, x: &Frame, g: &LayerGraph)
    requires
        x.complete(),
        x.serves(*g),
    ensures
        final(ops)@ == ffn_input_ops(old(ops)@, *x, *g),
{
    let d: &GraphDims = &x.d;
    let hn: TensorId = x.s.core.hn;
    if let Some(weight) = g.w.post_attn {
        push_norm_in_place(ops, d, x.s.core.sub, weight);
    }
    if let Some(hc) = g.w.qwen_hc {
        let alt: TensorId = x.s.qwen.alt;
        push_inject_block(ops, d, &x.s.core, &x.s.qwen, x.i.qwen_wide.unwrap(), alt);
        let module: QwenStreamW = QwenStreamW {
            norm: hc.ffn_norm,
            down: hc.ffn_down,
            up: hc.ffn_up,
            inject: Some(hc.ffn_inject),
        };
        emit_gated_streams(
            ops,
            d,
            &x.s.qwen,
            &module,
            alt,
            hn,
            x.head.qwen_hc_ones.unwrap(),
        );
    } else if let Some(hc) = g.w.hc {
        let even: TensorId = x.s.streams.even;
        let odd: TensorId = x.s.streams.odd;
        push_spread_streams(ops, d, &x.s.core, &x.s.streams, even, odd);
        let w: StreamW = StreamW { func: hc.ffn_fn, base: hc.ffn_base, scale: hc.ffn_scale };
        push_collapse_streams(ops, d, &x.s.streams, &w, odd, hn, x.head.hc_ones.unwrap());
        push_norm_into(ops, d, hn, g.w.ffn_norm, hn);
    } else {
        push_add_block(ops, d, &x.s.core, x.i.hidden);
        push_norm_into(ops, d, x.i.hidden, g.w.ffn_norm, hn);
    }
}

/// A shared expert beside a routed bank, and their sum.
pub open spec fn shared_ops(before: Seq<Op>, x: Frame, g: LayerGraph, w: MoeSharedW) -> Seq<Op> {
    let d = x.d;
    let c = x.s.core;
    let e = x.s.experts;
    let width = d.b.shexp_ff;
    let t = match w.gate_inp {
        Some(weight) => before + shared_gate(d, c, e, weight),
        None => before,
    };
    let t = t + ffn_split(
        d,
        c,
        x.s.gates,
        w.wgate,
        w.wup,
        width,
        x.f.act(),
        g.clamp_shared,
    ) + ffn_down(d, c, w.wdown, width, e.dense_out);
    if w.gate_inp is Some {
        t + add_shared_gated(d, c, e)
    } else {
        t + add_shared(d, c, e)
    }
}

fn emit_shared(ops: &mut Vec<Op>, x: &Frame, g: &LayerGraph, w: &MoeSharedW)
    ensures
        final(ops)@ == shared_ops(old(ops)@, *x, *g, *w),
{
    let d: &GraphDims = &x.d;
    let width: usize = d.b.shexp_ff;
    if let Some(weight) = w.gate_inp {
        push_shared_gate(ops, d, &x.s.core, &x.s.experts, weight);
    }
    push_ffn_split(
        ops,
        d,
        &x.s.core,
        &x.s.gates,
        w.wgate,
        w.wup,
        width,
        x.f.activation(),
        g.clamp_shared,
    );
    push_ffn_down(ops, d, &x.s.core, w.wdown, width, x.s.experts.dense_out);
    if w.gate_inp.is_some() {
        push_add_shared_gated(ops, d, &x.s.core, &x.s.experts);
    } else {
        push_add_shared(ops, d, &x.s.core, &x.s.experts);
    }
}

/// The tensor that holds the experts selected by token id, where the layer selects them so.
pub open spec fn selection(g: LayerGraph, w: MoeW) -> Option<TensorId> {
    if w.tid2eid is Some {
        g.selected
    } else {
        None
    }
}

/// The selection of experts by token id.
pub open spec fn selection_ops(before: Seq<Op>, x: Frame, g: LayerGraph, w: MoeW) -> Seq<Op> {
    match w.tid2eid {
        Some(table) => before + select_by_id(
            x.d,
            x.i.tok_ids->Some_0,
            table,
            g.selected->Some_0,
        ),
        None => before,
    }
}

/// A routed expert bank, with a shared expert where the model has one.
pub open spec fn bank_ops(before: Seq<Op>, x: Frame, g: LayerGraph, w: MoeW) -> Seq<Op> {
    let dst = if w.shexp is Some {
        x.s.experts.bank_out
    } else {
        x.s.core.sub
    };
    let t = selection_ops(before, x, g, w) + bank(
        x.d,
        x.s.core,
        w,
        dst,
        x.f.act(),
        g.clamp_routed,
        selection(g, w),
    );
    match w.shexp {
        Some(shared) => shared_ops(t, x, g, shared),
        None => t,
    }
}

fn emit_bank(ops: &mut Vec<Op>, x: &Frame, g: &LayerGraph, w: &MoeW) -> (source: usize)
    requires
        w.tid2eid is Some ==> x.i.tok_ids is Some && g.selected is Some,
    ensures
        final(ops)@ == bank_ops(old(ops)@, *x, *g, *w),
        source == selection_ops(old(ops)@, *x, *g, *w).len(),
{
    let d: &GraphDims = &x.d;
    let selected: Option<TensorId> = if w.tid2eid.is_some() {
        g.selected
    } else {
        None
    };
    if let Some(table) = w.tid2eid {
        push_select_by_id(ops, d, x.i.tok_ids.unwrap(), table, g.selected.unwrap());
    }
    let source: usize = ops.len();
    let dst: TensorId = if w.shexp.is_some() {
        x.s.experts.bank_out
    } else {
        x.s.core.sub
    };
    push_bank(ops, d, &x.s.core, w, dst, x.f.activation(), g.clamp_routed, selected);
    if let Some(shared) = &w.shexp {
        emit_shared(ops, x, g, shared);
    }
    source
}

/// The two halves of a dense block, and its norm where the model has one.
pub open spec fn dense_ops(before: Seq<Op>, x: Frame, g: LayerGraph) -> Seq<Op> {
    let d = x.d;
    let c = x.s.core;
    let l = g.widths;
    let act = x.f.act();
    let t = match g.w.ffn {
        FfnW::DenseFused { wgu, .. } => before + ffn_joined(d, l, c, x.s.gates, wgu, act),
        FfnW::Dense { wgate, wup, .. } => before + ffn_split(
            d,
            c,
            x.s.gates,
            wgate,
            wup,
            l.b.n_ff,
            act,
            Clamp::Off,
        ),
        _ => before,
    };
    match g.w.ffn_sub_norm {
        Some(weight) => t + ffn_sub_norm(d, l, c, weight),
        None => t,
    }
}

fn emit_dense(ops: &mut Vec<Op>, x: &Frame, g: &LayerGraph)
    ensures
        final(ops)@ == dense_ops(old(ops)@, *x, *g),
{
    let d: &GraphDims = &x.d;
    match g.w.ffn {
        FfnW::DenseFused { wgu, wdown: _ } => push_ffn_joined(
            ops,
            d,
            &g.widths,
            &x.s.core,
            &x.s.gates,
            wgu,
            x.f.activation(),
        ),
        FfnW::Dense { wgate, wup, wdown: _ } => push_ffn_split(
            ops,
            d,
            &x.s.core,
            &x.s.gates,
            wgate,
            wup,
            g.widths.b.n_ff,
            x.f.activation(),
            Clamp::Off,
        ),
        _ => {},
    }
    if let Some(weight) = g.w.ffn_sub_norm {
        push_ffn_sub_norm(ops, d, &g.widths, &x.s.core, weight);
    }
}

/// A layer's feed-forward block.
pub open spec fn ffn_ops(before: Seq<Op>, x: Frame, g: LayerGraph) -> Seq<Op> {
    let d = x.d;
    let c = x.s.core;
    let l = g.widths;
    let act = x.f.act();
    match g.w.ffn {
        FfnW::DenseFused { wdown, .. } => dense_ops(before, x, g) + ffn_down(
            d,
            c,
            wdown,
            l.b.n_ff,
            c.sub,
        ),
        FfnW::Dense { wdown, .. } => dense_ops(before, x, g) + ffn_down(
            d,
            c,
            wdown,
            l.b.n_ff,
            c.sub,
        ),
        FfnW::Moe(w) => bank_ops(before, x, g, w),
        FfnW::DiffusionMoe(w) => (if w.fused_gu {
            before + ffn_joined(d, l, c, x.s.gates, w.d_gate, act)
        } else {
            before + ffn_split(
                d,
                c,
                x.s.gates,
                w.d_gate,
                w.d_up,
                l.b.n_ff,
                act,
                Clamp::Off,
            )
        }) + ffn_down(d, c, w.d_down, l.b.n_ff, x.s.experts.dense_out) + dual_bank(
            d,
            c,
            x.s.experts,
            w,
            x.i.hidden,
            x.head.router_ones->Some_0,
            act,
        ),
    }
}

/// The number of the operation that runs a layer's routed bank, where it has one.
pub open spec fn bank_source(before: Seq<Op>, x: Frame, g: LayerGraph) -> Option<int> {
    match g.w.ffn {
        FfnW::Moe(w) => Some(selection_ops(before, x, g, w).len() as int),
        _ => None,
    }
}

fn emit_ffn(ops: &mut Vec<Op>, x: &Frame, g: &LayerGraph) -> (source: Option<usize>)
    requires
        x.serves(*g),
    ensures
        final(ops)@ == ffn_ops(old(ops)@, *x, *g),
        source is Some == bank_source(old(ops)@, *x, *g) is Some,
        source matches Some(n) ==> bank_source(old(ops)@, *x, *g) == Some(n as int),
{
    let d: &GraphDims = &x.d;
    match &g.w.ffn {
        FfnW::DenseFused { wgu: _, wdown } => {
            emit_dense(ops, x, g);
            push_ffn_down(ops, d, &x.s.core, *wdown, g.widths.b.n_ff, x.s.core.sub);
            None
        },
        FfnW::Dense { wgate: _, wup: _, wdown } => {
            emit_dense(ops, x, g);
            push_ffn_down(ops, d, &x.s.core, *wdown, g.widths.b.n_ff, x.s.core.sub);
            None
        },
        FfnW::Moe(w) => Some(emit_bank(ops, x, g, w)),
        FfnW::DiffusionMoe(w) => {
            let act: Activation = x.f.activation();
            if w.fused_gu {
                push_ffn_joined(ops, d, &g.widths, &x.s.core, &x.s.gates, w.d_gate, act);
            } else {
                push_ffn_split(
                    ops,
                    d,
                    &x.s.core,
                    &x.s.gates,
                    w.d_gate,
                    w.d_up,
                    g.widths.b.n_ff,
                    act,
                    Clamp::Off,
                );
            }
            push_ffn_down(ops, d, &x.s.core, w.d_down, g.widths.b.n_ff, x.s.experts.dense_out);
            push_dual_bank(
                ops,
                d,
                &x.s.core,
                &x.s.experts,
                w,
                x.i.hidden,
                x.head.router_ones.unwrap(),
                act,
            );
            None
        },
    }
}

/// The feed-forward block's output joins the residual, and the layer's own input and scale follow.
pub open spec fn close_ops(before: Seq<Op>, x: Frame, g: LayerGraph) -> Seq<Op> {
    let d = x.d;
    let c = x.s.core;
    let t = match g.w.post_ffw {
        Some(weight) => before + norm_in_place(d, c.sub, weight),
        None => before,
    };
    let t = if g.w.qwen_hc is Some {
        t + inject_block(d, c, x.s.qwen, x.s.qwen.alt, x.i.qwen_wide->Some_0)
    } else if g.w.hc is Some {
        t + spread_streams(d, c, x.s.streams, x.s.streams.odd, x.s.streams.even)
    } else {
        t + add_block(d, c, x.i.hidden)
    };
    let t = match (g.w.pl_inp_gate, g.w.pl_proj, g.w.pl_post_norm, x.s.per_layer) {
        (Some(pick), Some(project), Some(norm), Some(p)) => t + mix_layer_input(
            d,
            g.widths,
            c,
            p,
            x.i.hidden,
            pick,
            project,
            norm,
        ),
        _ => t,
    };
    match g.scale {
        Some(scale) => t + scale_layer(d, x.i.hidden, scale),
        None => t,
    }
}

fn emit_close(ops: &mut Vec<Op>, x: &Frame, g: &LayerGraph)
    requires
        x.complete(),
        x.serves(*g),
    ensures
        final(ops)@ == close_ops(old(ops)@, *x, *g),
{
    let d: &GraphDims = &x.d;
    if let Some(weight) = g.w.post_ffw {
        push_norm_in_place(ops, d, x.s.core.sub, weight);
    }
    if g.w.qwen_hc.is_some() {
        let alt: TensorId = x.s.qwen.alt;
        push_inject_block(ops, d, &x.s.core, &x.s.qwen, alt, x.i.qwen_wide.unwrap());
    } else if g.w.hc.is_some() {
        let even: TensorId = x.s.streams.even;
        let odd: TensorId = x.s.streams.odd;
        push_spread_streams(ops, d, &x.s.core, &x.s.streams, odd, even);
    } else {
        push_add_block(ops, d, &x.s.core, x.i.hidden);
    }
    match (g.w.pl_inp_gate, g.w.pl_proj, g.w.pl_post_norm, x.s.per_layer) {
        (Some(pick), Some(project), Some(norm), Some(p)) => push_mix_layer_input(
            ops,
            d,
            &g.widths,
            &x.s.core,
            &p,
            x.i.hidden,
            pick,
            project,
            norm,
        ),
        _ => {},
    }
    if let Some(scale) = g.scale {
        push_scale_layer(ops, d, x.i.hidden, scale);
    }
}

/// What comes before a layer's feed-forward block.
pub open spec fn upper_ops(before: Seq<Op>, x: Frame, g: LayerGraph) -> Seq<Op> {
    let t = match g.w.ple {
        Some(w) => before + ngram_ops(
            x.d,
            x.s.core,
            x.s.qwen,
            w,
            x.i.qwen_wide->Some_0,
            x.i.ple_embd->Some_0,
            x.i.ple_state->Some_0,
            x.head.qwen_hc_ones->Some_0,
        ),
        None => before,
    };
    ffn_input_ops(mixer_ops(mixer_input_ops(t, x, g), x, g), x, g)
}

/// One layer.
pub open spec fn layer_ops(before: Seq<Op>, x: Frame, g: LayerGraph) -> Seq<Op> {
    close_ops(ffn_ops(upper_ops(before, x, g), x, g), x, g)
}

/// Emits one layer, and says which operation runs its routed bank, where it has one.
pub fn emit_layer(ops: &mut Vec<Op>, x: &Frame, g: &LayerGraph) -> (source: Option<usize>)
    requires
        x.complete(),
        x.serves(*g),
    ensures
        final(ops)@ == layer_ops(old(ops)@, *x, *g),
        source is Some == bank_source(upper_ops(old(ops)@, *x, *g), *x, *g) is Some,
        source matches Some(n) ==> bank_source(upper_ops(old(ops)@, *x, *g), *x, *g) == Some(
            n as int,
        ),
{
    if let Some(w) = &g.w.ple {
        push_ngram_ops(
            ops,
            &x.d,
            &x.s.core,
            &x.s.qwen,
            w,
            x.i.qwen_wide.unwrap(),
            x.i.ple_embd.unwrap(),
            x.i.ple_state.unwrap(),
            x.head.qwen_hc_ones.unwrap(),
        );
    }
    emit_mixer_input(ops, x, g);
    emit_mixer(ops, x, g);
    emit_ffn_input(ops, x, g);
    let source: Option<usize> = emit_ffn(ops, x, g);
    emit_close(ops, x, g);
    source
}

/// Where a graph's results go.
#[derive(Clone, Copy, Debug, PartialEq, Eq, Structural)]
pub struct Results {
    /// Absent in a graph whose logits nothing reads.
    pub logits: Option<TensorId>,
    /// The rows that the head is applied to.
    pub rows: Option<TensorId>,
    /// The token that the device chose.
    pub token: Option<TensorId>,
    /// The uniform draw it is chosen with; without one it is the likeliest.
    pub uniform: Option<TensorId>,
}

/// The head, on the last rows of a batch or on all of them.
pub open spec fn head_ops(before: Seq<Op>, x: Frame, r: Results, logits: TensorId) -> Seq<Op> {
    let d = x.d;
    let c = x.s.core;
    let t = if x.f.qwen4exp {
        before
    } else {
        before + norm_into(d, x.i.hidden, x.head.out_norm, c.hn)
    };
    let t = match x.s.last {
        Some(last) => t + last_rows(d, c, last),
        None => t,
    };
    let rows = match x.s.last {
        Some(last) => last,
        None => c.hn,
    };
    let t = match r.rows {
        Some(dst) => t + tap_rows(d, rows, dst),
        None => t,
    };
    let t = t + make_logits(d, rows, x.head.lm, logits);
    let t = if x.f.softcap {
        t + cap_logits(d, logits)
    } else {
        t
    };
    match (r.token, r.uniform) {
        (Some(token), None) => t + take_largest(d, logits, token),
        (Some(token), Some(uniform)) => t + draw_token(d, logits, uniform, token),
        _ => t,
    }
}

fn emit_head(ops: &mut Vec<Op>, x: &Frame, r: &Results, logits: TensorId)
    ensures
        final(ops)@ == head_ops(old(ops)@, *x, *r, logits),
{
    let d: &GraphDims = &x.d;
    if !x.f.qwen4exp {
        push_norm_into(ops, d, x.i.hidden, x.head.out_norm, x.s.core.hn);
    }
    let rows: TensorId = match x.s.last {
        Some(last) => {
            push_last_rows(ops, d, &x.s.core, last);
            last
        },
        None => x.s.core.hn,
    };
    if let Some(dst) = r.rows {
        push_tap_rows(ops, d, rows, dst);
    }
    push_make_logits(ops, d, rows, x.head.lm, logits);
    if x.f.softcap {
        push_cap_logits(ops, d, logits);
    }
    match (r.token, r.uniform) {
        (Some(token), None) => push_take_largest(ops, d, logits, token),
        (Some(token), Some(uniform)) => push_draw_token(ops, d, logits, uniform, token),
        _ => {},
    }
}

/// The gated residual module behind the last layer.
pub open spec fn head_module(w: HeadW) -> QwenStreamW {
    QwenStreamW {
        norm: w.out_norm,
        down: w.hc_down->Some_0,
        up: w.hc_up->Some_0,
        inject: None,
    }
}

/// What comes behind the layers: the residual streams are collapsed, and the head is applied where
/// logits are wanted.
pub open spec fn epilogue_ops(before: Seq<Op>, x: Frame, r: Results) -> Seq<Op> {
    let d = x.d;
    let t = if x.f.deepseek4 {
        before + collapse_head(
            d,
            x.s.streams,
            x.head.hc_fn->Some_0,
            x.head.hc_base->Some_0,
            x.head.hc_scale->Some_0,
            x.head.hc_ones->Some_0,
            x.i.hidden,
        )
    } else {
        before
    };
    let t = if x.f.last && x.f.qwen4exp {
        gated_streams(
            t,
            d,
            x.s.qwen,
            head_module(x.head),
            x.i.qwen_wide->Some_0,
            x.s.core.hn,
            x.head.qwen_hc_ones->Some_0,
        )
    } else {
        t
    };
    match r.logits {
        Some(logits) => head_ops(t, x, r, logits),
        None => t,
    }
}

/// See [`epilogue_ops`].
pub fn emit_epilogue(ops: &mut Vec<Op>, x: &Frame, r: &Results)
    requires
        x.complete(),
    ensures
        final(ops)@ == epilogue_ops(old(ops)@, *x, *r),
{
    let d: &GraphDims = &x.d;
    if x.f.deepseek4 {
        push_collapse_head(
            ops,
            d,
            &x.s.streams,
            x.head.hc_fn.unwrap(),
            x.head.hc_base.unwrap(),
            x.head.hc_scale.unwrap(),
            x.head.hc_ones.unwrap(),
            x.i.hidden,
        );
    }
    if x.f.last && x.f.qwen4exp {
        let module: QwenStreamW = QwenStreamW {
            norm: x.head.out_norm,
            down: x.head.hc_down.unwrap(),
            up: x.head.hc_up.unwrap(),
            inject: None,
        };
        emit_gated_streams(
            ops,
            d,
            &x.s.qwen,
            &module,
            x.i.qwen_wide.unwrap(),
            x.s.core.hn,
            x.head.qwen_hc_ones.unwrap(),
        );
    }
    if let Some(logits) = r.logits {
        emit_head(ops, x, r, logits);
    }
}

/// The first `n` layers of a span.
pub open spec fn layers_ops(before: Seq<Op>, x: Frame, layers: Seq<LayerGraph>, n: nat) -> Seq<Op>
    decreases n,
{
    if n == 0 {
        before
    } else {
        layer_ops(layers_ops(before, x, layers, (n - 1) as nat), x, layers[n - 1])
    }
}

/// All operations of a graph.
pub open spec fn graph_ops(x: Frame, layers: Seq<LayerGraph>, r: Results) -> Seq<Op> {
    epilogue_ops(
        layers_ops(prologue_ops(Seq::empty(), x), x, layers, layers.len()),
        x,
        r,
    )
}

/// A graph's operations, and the one that runs each layer's routed bank.
pub struct Emitted {
    pub ops: Vec<Op>,
    pub sources: Vec<Option<usize>>,
}

/// The operation with this number runs the routed bank of layer `l`; the layer has none without one.
pub open spec fn runs_bank(
    x: Frame,
    layers: Seq<LayerGraph>,
    l: int,
    source: Option<usize>,
) -> bool {
    let start = layers_ops(prologue_ops(Seq::empty(), x), x, layers, l as nat);
    let bank = bank_source(upper_ops(start, x, layers[l]), x, layers[l]);
    &&& source is Some == bank is Some
    &&& source matches Some(n) ==> bank == Some(n as int)
}

/// Emits all operations of a graph.
pub fn emit_graph(x: &Frame, layers: &Vec<LayerGraph>, r: &Results) -> (g: Emitted)
    requires
        x.complete(),
        forall|l: int| 0 <= l < layers@.len() ==> x.serves(#[trigger] layers@[l]),
    ensures
        g.ops@ == graph_ops(*x, layers@, *r),
        g.sources@.len() == layers@.len(),
        forall|l: int|
            0 <= l < layers@.len() ==> runs_bank(*x, layers@, l, #[trigger] g.sources@[l]),
{
    let mut ops: Vec<Op> = Vec::new();
    let mut sources: Vec<Option<usize>> = Vec::new();
    assert(ops@ =~= Seq::<Op>::empty());
    emit_prologue(&mut ops, x);
    let ghost start = prologue_ops(Seq::empty(), *x);
    let n: usize = layers.len();
    let mut l: usize = 0;
    while l < n
        invariant
            l <= n == layers@.len(),
            x.complete(),
            start == prologue_ops(Seq::empty(), *x),
            forall|k: int| 0 <= k < layers@.len() ==> x.serves(#[trigger] layers@[k]),
            ops@ == layers_ops(start, *x, layers@, l as nat),
            sources@.len() == l,
            forall|k: int|
                0 <= k < l ==> runs_bank(*x, layers@, k, #[trigger] sources@[k]),
        decreases n - l,
    {
        assert(x.serves(layers@[l as int]));
        let source: Option<usize> = emit_layer(&mut ops, x, &layers[l]);
        sources.push(source);
        l = l + 1;
    }
    emit_epilogue(&mut ops, x, r);
    Emitted { ops, sources }
}

/// A hint that the experts of the next layer may be fetched while this one runs.
#[derive(Clone, Copy, Debug, PartialEq, Eq, Structural)]
pub struct PrefetchHint {
    /// The operation that runs this layer's routed bank.
    pub source_op: usize,
    pub source_layer: usize,
    pub target_layer: usize,
    pub router: usize,
    pub gate_exps: usize,
    pub up_exps: usize,
    pub down_exps: usize,
    pub fused_gate_up: bool,
    pub n_expert: usize,
    /// The next layer is a full-attention layer of a hybrid model.
    pub target_attention: bool,
    /// The positions that are visible then, as far as 32 bits count them.
    pub context_tokens: usize,
}

/// The hint of layer `l`, if it and the next layer have a routed bank.
pub open spec fn hint_of(
    all: Seq<LayerW>,
    shapes: Seq<LayerShape>,
    l: int,
    source: Option<usize>,
    n_expert: usize,
    context_tokens: usize,
) -> Option<PrefetchHint> {
    if l + 1 < all.len() {
        match (source, all[l + 1].ffn) {
            (Some(source_op), FfnW::Moe(w)) => Some(
                PrefetchHint {
                    source_op,
                    source_layer: l as usize,
                    target_layer: (l + 1) as usize,
                    router: w.router,
                    gate_exps: w.gate_exps,
                    up_exps: w.up_exps,
                    down_exps: w.down_exps,
                    fused_gate_up: w.fused_gate_up,
                    n_expert,
                    target_attention: shapes[l + 1].hybrid_attention,
                    context_tokens,
                },
            ),
            _ => None,
        }
    } else {
        None
    }
}

/// The hints of the first `n` layers of a span that begins with layer `first`.
pub open spec fn hints_below(
    all: Seq<LayerW>,
    shapes: Seq<LayerShape>,
    first: int,
    sources: Seq<Option<usize>>,
    n_expert: usize,
    context_tokens: usize,
    n: nat,
) -> Seq<PrefetchHint>
    decreases n,
{
    if n == 0 {
        Seq::empty()
    } else {
        let rest = hints_below(
            all,
            shapes,
            first,
            sources,
            n_expert,
            context_tokens,
            (n - 1) as nat,
        );
        match hint_of(all, shapes, first + n - 1, sources[n - 1], n_expert, context_tokens) {
            Some(hint) => rest.push(hint),
            None => rest,
        }
    }
}

/// The hints of a span of layers. The weights are those of the whole model, so that the last layer of
/// a span can name the first one behind it. There are none unless they are enabled, and none for more
/// than one row.
pub open spec fn span_hints(
    enabled: bool,
    d: GraphDims,
    all: Seq<LayerW>,
    shapes: Seq<LayerShape>,
    first: int,
    sources: Seq<Option<usize>>,
) -> Seq<PrefetchHint> {
    if enabled && d.b.batch == 1 {
        hints_below(
            all,
            shapes,
            first,
            sources,
            d.b.n_expert,
            min(d.b.start_pos + 1, u32::MAX as int) as usize,
            sources.len(),
        )
    } else {
        Seq::empty()
    }
}

/// See [`span_hints`].
pub fn prefetch_hints(
    enabled: bool,
    d: &GraphDims,
    all: &Vec<LayerW>,
    shapes: &Vec<LayerShape>,
    first: usize,
    sources: &Vec<Option<usize>>,
) -> (hints: Vec<PrefetchHint>)
    requires
        first + sources@.len() <= all@.len(),
        shapes@.len() == all@.len(),
    ensures
        hints@ == span_hints(enabled, *d, all@, shapes@, first as int, sources@),
{
    let mut hints: Vec<PrefetchHint> = Vec::new();
    if !enabled || d.b.batch != 1 {
        return hints;
    }
    let most: usize = u32::MAX as usize;
    let context_tokens: usize = if d.b.start_pos < most {
        d.b.start_pos + 1
    } else {
        most
    };
    let n_expert: usize = d.b.n_expert;
    let total: usize = all.len();
    let n: usize = sources.len();
    let mut k: usize = 0;
    while k < n
        invariant
            k <= n == sources@.len(),
            first + n <= total == all@.len(),
            shapes@.len() == total,
            hints@ == hints_below(
                all@,
                shapes@,
                first as int,
                sources@,
                n_expert,
                context_tokens,
                k as nat,
            ),
        decreases n - k,
    {
        let l: usize = first + k;
        if l + 1 < total {
            match (sources[k], &all[l + 1].ffn) {
                (Some(source_op), FfnW::Moe(w)) => hints.push(
                    PrefetchHint {
                        source_op,
                        source_layer: l,
                        target_layer: l + 1,
                        router: w.router,
                        gate_exps: w.gate_exps,
                        up_exps: w.up_exps,
                        down_exps: w.down_exps,
                        fused_gate_up: w.fused_gate_up,
                        n_expert,
                        target_attention: shapes[l + 1].hybrid_attention,
                        context_tokens,
                    },
                ),
                _ => {},
            }
        }
        k = k + 1;
    }
    hints
}

} // verus!
