//! What a whole layer makes of its rows, and in which order a graph runs its layers.

use crate::attention_laws::{
    attended_to, attention_apart, attention_output, beside, cached, gated_rows,
    law_attention_reads_what_the_layer_cached, turned_queries,
};
use crate::compressed_laws::{
    compressed_apart, end_turned_key, law_compressed_attention_reads_the_ring_and_the_state,
    row_written, state_behind,
};
use crate::graph_attention::{attention_ops, compressed_ops, latent_ops};
use crate::graph_block_laws::{
    ffn_apart, joined, law_a_dense_block_is_gated, law_a_feed_forward_output_is_added_to_the_residual,
    law_a_mixer_reads_the_normed_residual, law_a_mixers_output_is_added_to_the_residual,
    streamless, through_gated, through_joined, with_layer_input,
};
use crate::graph_build::{
    canvas_ops, close_ops, embed_ops, epilogue_ops, ffn_input_ops, ffn_ops, graph_ops, head_ops,
    layer_ops, layers_ops, mixer_input_ops, mixer_ops, prologue_ops, streams_below, Frame,
    GraphFlags, LayerGraph, Results,
};
use crate::graph_ffn::{collapse_head, per_layer_inputs};
use crate::graph_mixers::{
    delta_ops, gated_streams, kda_ops, latent_key, ngram_ops, QwenStreamW,
};
use crate::graph_ops::{Activation, CacheForm, Clamp, Op};
use crate::graph_values::{after, held, normed, times, Part, Value, Values};
use crate::head_laws::{head_apart, head_logits, law_the_token_is_chosen_from_the_logits};
use crate::mixer_laws::{
    delta_apart, delta_convolved, delta_mixed, latent_apart,
    law_gated_linear_attention_is_projected_and_convolved,
    law_latent_attention_reads_what_the_layer_cached, law_the_delta_rule_updates_its_state,
};
use crate::weight_handles::{FfnW, MixerW};
use crate::weight_plan::TensorId;
use vstd::prelude::*;

verus! {

/// A layer of attention over its visible rows and a dense feed-forward block, on one row of each
/// token.
pub open spec fn plain_layer(g: LayerGraph) -> bool {
    &&& streamless(g)
    &&& g.w.ple is None
    &&& g.w.mixer is Attn
    &&& g.sparse is None
    &&& g.w.ffn is Dense || g.w.ffn is DenseFused
}

/// The tensor is none of the feed-forward block's own.
pub open spec fn beside_gates(x: Frame, t: TensorId) -> bool {
    t != x.s.gates.left && t != x.s.gates.right && t != x.s.gates.joined
}

/// The tensors that a plain layer works on are apart.
pub open spec fn layer_apart(x: Frame, g: LayerGraph) -> bool {
    let c = x.s.core;
    let p = g.plan;
    let h = x.i.hidden;
    &&& attention_apart(c, x.i, p)
    &&& ffn_apart(x)
    &&& beside(c, h) && beside_gates(x, h)
    &&& h != p.own.k && h != p.own.v && h != p.src.k && h != p.src.v && p.qkv != Some(h)
    &&& beside_gates(x, p.src.k) && beside_gates(x, p.src.v)
    &&& beside_gates(x, p.own.k) && beside_gates(x, p.own.v)
    &&& x.s.per_layer matches Some(t) ==> beside(c, t.inputs) && beside_gates(x, t.inputs) && t.inputs
        != h && t.inputs != p.own.k && t.inputs != p.own.v && p.qkv != Some(t.inputs)
}

/// What the feed-forward block of a plain layer makes of its rows.
pub open spec fn dense_output(x: Frame, g: LayerGraph, rows: Value) -> Value {
    let l = g.widths;
    match g.w.ffn {
        FfnW::Dense { wgate, wup, wdown } => through_gated(
            x,
            rows,
            wgate,
            wup,
            g.w.ffn_sub_norm,
            wdown,
            l.b.n_ff,
            Clamp::Off,
        ),
        FfnW::DenseFused { wgu, wdown } => through_joined(
            x,
            rows,
            wgu,
            g.w.ffn_sub_norm,
            wdown,
            l.b.n_ff,
            l.n_ff2,
        ),
        _ => rows,
    }
}

/// A plain layer adds two things to its rows, one after the other: the attention of the normed
/// rows, and the gated block of the sum, normed again. The layer's own input and its scale come
/// behind them.
#[verifier::rlimit(40)]
pub proof fn law_a_layer_adds_its_attention_and_its_feed_forward_block(
    env: Values,
    before: Seq<Op>,
    x: Frame,
    g: LayerGraph,
)
    requires
        plain_layer(g),
        layer_apart(x, g),
    ensures
        ({
            let e = after(env, before);
            let f = after(env, layer_ops(before, x, g));
            let w = g.w.mixer->Attn_0;
            let c = x.s.core;
            let p = g.plan;
            let b = x.d.b;
            let read = e.insert(
                c.hn,
                normed(e[x.i.hidden], g.w.attn_norm, b.batch, b.n_embd),
            );
            let attended = attended_to(
                x.d,
                g.widths,
                p,
                turned_queries(x.d, g.widths, c, x.i, w, p, read),
                f[p.src.k],
                f[p.src.v],
                p.visible,
                b.start_pos,
            );
            let mixed = attention_output(
                x.d,
                g.widths,
                w,
                p,
                g.w.attn_sub_norm,
                attended,
                gated_rows(x.d, g.widths, c, w, p, read),
            );
            let middle = joined(x, e[x.i.hidden], mixed, g.w.post_attn);
            let block = dense_output(
                x,
                g,
                normed(middle, g.w.ffn_norm, b.batch, b.n_embd),
            );
            let last = with_layer_input(x, g, joined(x, middle, block, g.w.post_ffw), e);
            &&& f[x.i.hidden] == (match g.scale {
                Some(scale) => times(last, scale, b.batch, b.n_embd),
                None => last,
            })
            &&& cached(x.d, g.widths, c, x.i, w, p, read, f)
        }),
{
    let e = after(env, before);
    let w = g.w.mixer->Attn_0;
    let c = x.s.core;
    let p = g.plan;
    let a = mixer_input_ops(before, x, g);
    law_a_mixer_reads_the_normed_residual(env, before, x, g);
    let m = mixer_ops(a, x, g);
    law_attention_reads_what_the_layer_cached(
        env,
        a,
        x.d,
        g.widths,
        c,
        x.i,
        w,
        p,
        g.w.attn_sub_norm,
    );
    let n = ffn_input_ops(m, x, g);
    law_a_mixers_output_is_added_to_the_residual(env, m, x, g);
    let k = ffn_ops(n, x, g);
    law_a_dense_block_is_gated(env, n, x, g);
    law_a_feed_forward_output_is_added_to_the_residual(env, k, x, g);
    let f = after(env, layer_ops(before, x, g));
    assert(after(env, m)[x.i.hidden] == e[x.i.hidden]);
    assert(after(env, k)[x.i.hidden] == after(env, n)[x.i.hidden]);
    assert(f[p.src.k] == after(env, m)[p.src.k]);
    assert(f[p.src.v] == after(env, m)[p.src.v]);
    assert(f[p.own.k] == after(env, m)[p.own.k]);
    assert(f[p.own.v] == after(env, m)[p.own.v]);
    if let Some(t) = x.s.per_layer {
        assert(after(env, k)[t.inputs] == e[t.inputs]);
    }
}

/// A span of layers is run in the order of the layers: first those in front, then those behind.
pub proof fn law_layers_are_run_in_order(
    before: Seq<Op>,
    x: Frame,
    front: Seq<LayerGraph>,
    behind: Seq<LayerGraph>,
    n: nat,
)
    requires
        n <= behind.len(),
    ensures
        layers_ops(before, x, front + behind, front.len() + n) == layers_ops(
            layers_ops(before, x, front, front.len()),
            x,
            behind,
            n,
        ),
        behind.len() > 0 ==> layers_ops(before, x, behind, 1) == layer_ops(before, x, behind[0]),
    decreases n,
{
    reveal_with_fuel(layers_ops, 2);
    if n > 0 {
        law_layers_are_run_in_order(before, x, front, behind, (n - 1) as nat);
        assert((front + behind)[front.len() + n - 1] == behind[n - 1]);
    } else {
        lemma_layers_in_front(before, x, front, behind, front.len());
    }
}

proof fn lemma_layers_in_front(
    before: Seq<Op>,
    x: Frame,
    front: Seq<LayerGraph>,
    behind: Seq<LayerGraph>,
    n: nat,
)
    requires
        n <= front.len(),
    ensures
        layers_ops(before, x, front + behind, n) == layers_ops(before, x, front, n),
    decreases n,
{
    if n > 0 {
        lemma_layers_in_front(before, x, front, behind, (n - 1) as nat);
        assert((front + behind)[n - 1] == front[n - 1]);
    }
}

/// The logits of a graph are those of the head on what the last of its layers leaves, and the
/// layers begin with what the embedding leaves.
pub proof fn law_logits_are_read_from_the_last_layer(
    env: Values,
    x: Frame,
    layers: Seq<LayerGraph>,
    r: Results,
)
    requires
        !x.f.qwen4exp,
        !x.f.deepseek4,
        r.logits is Some,
        head_apart(x, r, r.logits->Some_0),
    ensures
        ({
            let begun = after(env, prologue_ops(Seq::empty(), x));
            let run = layers_ops(prologue_ops(Seq::empty(), x), x, layers, layers.len());
            let f = after(env, graph_ops(x, layers, r));
            &&& f[r.logits->Some_0] == head_logits(x, after(env, run))
            &&& layers.len() == 0 ==> f[r.logits->Some_0] == head_logits(x, begun)
        }),
{
    let run = layers_ops(prologue_ops(Seq::empty(), x), x, layers, layers.len());
    law_the_token_is_chosen_from_the_logits(env, run, x, r, r.logits->Some_0);
}

/// The tensors that a layer's mixer works on are apart, and those that it calls for are there.
pub open spec fn mixer_apart(x: Frame, g: LayerGraph) -> bool {
    let c = x.s.core;
    let t = x.s.delta;
    match g.w.mixer {
        MixerW::DeltaNet(_) => delta_apart(c, t, g.caches.k, g.caches.v),
        MixerW::Kda(_) => delta_apart(c, t, g.caches.k, g.caches.v) && kda_apart(x, g),
        MixerW::Dsv4(_) => compressed_apart(c, x.s.compressed, x.i, g.caches, x.h.yarn_ff),
        MixerW::Mla(_) => latent_apart(
            c,
            x.s.latent->Some_0,
            t,
            x.s.token_index,
            x.i,
            g.caches,
            x.h.yarn_ff,
        ),
        MixerW::Attn(_) => false,
    }
}

/// The forget rates stand apart from everything else.
pub open spec fn kda_apart(x: Frame, g: LayerGraph) -> bool {
    let t = x.s.delta;
    &&& t.forget != x.s.core.hn && t.forget != g.caches.k && t.forget != g.caches.v
    &&& t.forget != t.beta && t.forget != t.conv
}

/// A mixer other than attention keeps what it carries on in its layer's own caches: the history of
/// a convolution and the recurrent state of linear attention, the keys of latent attention, and the
/// ring and the state of compressed attention. Each is carried on from what it was.
pub proof fn law_a_mixer_carries_its_layers_own_state_on(
    env: Values,
    before: Seq<Op>,
    x: Frame,
    g: LayerGraph,
)
    requires
        mixer_apart(x, g),
    ensures
        ({
            let e = after(env, before);
            let f = after(env, mixer_ops(before, x, g));
            let d = x.d;
            let c = x.s.core;
            let t = x.s.delta;
            let rows = e[c.hn];
            let k = g.caches.k;
            let v = g.caches.v;
            match g.w.mixer {
                MixerW::DeltaNet(w) => {
                    let convolved = delta_convolved(d, w, rows, e[k], Part::Rows);
                    &&& f[k] == delta_convolved(d, w, rows, e[k], Part::State)
                    &&& f[v] == delta_mixed(
                        d,
                        t,
                        w,
                        rows,
                        convolved,
                        e[v],
                        x.f.delta_strided,
                        e,
                        Part::State,
                    )
                },
                MixerW::Kda(w) => {
                    &&& f[k] matches Value::Conv1dSilu { state, weight, part, .. } && *state == e[k]
                        && weight == w.conv && part is State
                    &&& f[v] matches Value::Kda { state, a, part, .. } && *state == e[v] && a == w.a
                        && part is State
                },
                MixerW::Dsv4(w) => {
                    let key = end_turned_key(
                        d,
                        c,
                        x.s.compressed,
                        x.i,
                        w,
                        g.ratio,
                        x.h.yarn_ff,
                        e,
                    );
                    &&& f[k] == row_written(key, e[k], g.compressed.raw_row, 0, CacheForm::Fp8Kv)
                    &&& g.w.dsv4_compressed is Some && g.ratio != 0 ==> f[v] == state_behind(
                        d,
                        g.w.dsv4_compressed->Some_0,
                        g.layout,
                        g.compressed,
                        g.ratio,
                        rows,
                        e[v],
                        held(e, x.h.yarn_ff),
                    )
                },
                MixerW::Mla(w) => f[k] == after(
                    env,
                    before + latent_key(
                        d,
                        c,
                        x.i,
                        x.s.latent->Some_0,
                        w,
                        k,
                        g.plan.attend.theta,
                        x.h.yarn_ff,
                    ),
                )[k],
                MixerW::Attn(_) => true,
            }
        }),
{
    let d = x.d;
    let c = x.s.core;
    match g.w.mixer {
        MixerW::DeltaNet(w) => law_the_delta_rule_updates_its_state(
            env,
            before,
            d,
            c,
            x.s.delta,
            w,
            g.caches.k,
            g.caches.v,
            x.f.delta_strided,
            x.f.delta_joined && !x.f.qwen4exp,
            if x.f.qwen4exp {
                Activation::Sigmoid
            } else {
                Activation::Silu
            },
        ),
        MixerW::Kda(w) => law_gated_linear_attention_is_projected_and_convolved(
            env,
            before,
            d,
            c,
            x.s.delta,
            w,
            g.caches.k,
            g.caches.v,
        ),
        MixerW::Dsv4(w) => law_compressed_attention_reads_the_ring_and_the_state(
            env,
            before,
            d,
            c,
            x.s.compressed,
            x.i,
            w,
            g.w.dsv4_compressed,
            g.layout,
            g.caches,
            x.h.yarn_ff,
            g.ratio,
            g.compressed,
        ),
        MixerW::Mla(w) => law_latent_attention_reads_what_the_layer_cached(
            env,
            before,
            d,
            c,
            x.s.latent->Some_0,
            x.s.delta,
            x.s.token_index,
            x.i,
            w,
            g.caches,
            g.plan.attend,
            x.h.yarn_ff,
        ),
        MixerW::Attn(_) => {},
    }
}

/// The same frame, of a model without residual streams.
pub open spec fn without_streams(x: Frame) -> Frame {
    Frame { f: GraphFlags { deepseek4: false, qwen4exp: false, ..x.f }, ..x }
}

/// A graph that begins with the first layer embeds its rows, where the device does that; one that
/// begins behind it takes them as they are. Residual streams begin as copies of these rows, one for
/// each stream: the streams of compressed attention in every graph, the gated ones in the graph of
/// the first layer.
pub proof fn law_a_graph_begins_with_its_rows(before: Seq<Op>, x: Frame)
    requires
        x.head.model_proj is None,
    ensures
        ({
            let plain = without_streams(x);
            let n = x.d.b.hc_mult as nat;
            let rows = prologue_ops(before, plain);
            &&& !x.f.first ==> rows == before
            &&& x.f.first && x.f.canvas is None ==> rows == embed_ops(before, x)
            &&& x.f.first && x.f.canvas is Some ==> rows == canvas_ops(embed_ops(before, x), x)
            &&& x.f.deepseek4 && !x.f.qwen4exp ==> prologue_ops(before, x) == streams_below(
                rows,
                x.d,
                x.i.hidden,
                x.s.streams.even,
                n,
            )
            &&& x.f.qwen4exp && !x.f.deepseek4 && x.f.first ==> prologue_ops(before, x)
                == streams_below(rows, x.d, x.i.hidden, x.i.qwen_wide->Some_0, n)
            &&& x.f.qwen4exp && !x.f.deepseek4 && !x.f.first ==> prologue_ops(before, x) == rows
            &&& !x.f.qwen4exp && !x.f.deepseek4 ==> prologue_ops(before, x) == rows
        }),
{
}

/// The input that each layer has of its own is made behind the embedding, where the model has one.
pub proof fn law_layer_inputs_are_made_of_the_embedded_rows(before: Seq<Op>, x: Frame)
    requires
        x.f.first,
        x.f.canvas is None,
        !x.f.deepseek4,
        !x.f.qwen4exp,
        x.head.model_proj is Some,
        x.head.proj_norm is Some,
        x.h.per_layer is Some,
        x.s.per_layer is Some,
    ensures
        prologue_ops(before, x) == embed_ops(before, x) + per_layer_inputs(
            x.d,
            x.i.hidden,
            x.s.per_layer->Some_0,
            x.head.model_proj->Some_0,
            x.head.proj_norm->Some_0,
            x.h.per_layer->Some_0,
        ),
{
}

/// Behind the last layer residual streams are collapsed into the rows that the head reads, by the
/// weights of the head; a graph without logits ends there.
pub proof fn law_a_graph_ends_with_its_head(before: Seq<Op>, x: Frame, r: Results)
    ensures
        ({
            let h = x.head;
            let collapsed = before + collapse_head(
                x.d,
                x.s.streams,
                h.hc_fn->Some_0,
                h.hc_base->Some_0,
                h.hc_scale->Some_0,
                h.hc_ones->Some_0,
                x.i.hidden,
            );
            let mixed = gated_streams(
                before,
                x.d,
                x.s.qwen,
                QwenStreamW {
                    norm: h.out_norm,
                    down: h.hc_down->Some_0,
                    up: h.hc_up->Some_0,
                    inject: None,
                },
                x.i.qwen_wide->Some_0,
                x.s.core.hn,
                h.qwen_hc_ones->Some_0,
            );
            let rows = if x.f.deepseek4 {
                collapsed
            } else if x.f.qwen4exp && x.f.last {
                mixed
            } else {
                before
            };
            x.f.deepseek4 && x.f.qwen4exp || epilogue_ops(before, x, r) == (match r.logits {
                Some(logits) => head_ops(rows, x, r, logits),
                None => rows,
            })
        }),
{
}

/// The rows of n-grams join the streams before the layer's mixer reads them, and the mixer's output
/// before the feed-forward block does.
pub proof fn law_a_layers_parts_follow_each_other(before: Seq<Op>, x: Frame, g: LayerGraph)
    ensures
        ({
            let joined = match g.w.ple {
                Some(w) => before + ngram_ops(
                    x.d,
                    x.s.core,
                    x.s.qwen,
                    w,
                    x.i.qwen_wide->Some_0,
                    x.i.ple_embd->Some_0,
                    x.i.ple_state->Some_0,
                    x.head.qwen_hc_ones->Some_0,
                ),
                None => before,
            };
            let mixed = mixer_ops(mixer_input_ops(joined, x, g), x, g);
            layer_ops(before, x, g) == close_ops(ffn_ops(ffn_input_ops(mixed, x, g), x, g), x, g)
        }),
{
}

/// A layer's mixer is the one that its weights are for, on the layer's own caches. The delta rule
/// weighs its output by a sigmoid in the architecture with gated residual streams, which norms and
/// weighs apart.
pub proof fn law_a_mixer_is_that_of_its_weights(before: Seq<Op>, x: Frame, g: LayerGraph)
    ensures
        ({
            let ops = mixer_ops(before, x, g);
            let (d, c, t) = (x.d, x.s.core, x.s.delta);
            let (k, v) = (g.caches.k, g.caches.v);
            match g.w.mixer {
                MixerW::DeltaNet(w) => {
                    let apart = x.f.qwen4exp || !x.f.delta_joined;
                    let act = if x.f.qwen4exp {
                        Activation::Sigmoid
                    } else {
                        Activation::Silu
                    };
                    ops == delta_ops(before, d, c, t, w, k, v, x.f.delta_strided, !apart, act)
                },
                MixerW::Kda(w) => ops == before + kda_ops(d, c, t, w, k, v),
                MixerW::Dsv4(w) => ops == compressed_ops(
                    before,
                    d,
                    c,
                    x.s.compressed,
                    x.i,
                    w,
                    g.w.dsv4_compressed,
                    g.layout,
                    g.caches,
                    x.h.yarn_ff,
                    g.ratio,
                    g.compressed,
                ),
                MixerW::Mla(w) => ops == latent_ops(
                    before,
                    d,
                    c,
                    x.s.latent->Some_0,
                    t,
                    x.s.token_index,
                    x.i,
                    w,
                    g.caches,
                    g.plan.attend,
                    x.h.yarn_ff,
                ),
                MixerW::Attn(w) => ops == attention_ops(
                    before,
                    d,
                    g.widths,
                    c,
                    x.i,
                    w,
                    g.sparse,
                    g.plan,
                    g.w.attn_sub_norm,
                ),
            }
        }),
{
}

} // verus!
