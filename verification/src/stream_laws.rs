//! What residual streams hold: how a block reads them, and how its output is written back over
//! them.

use crate::graph_block_laws::lemma_then_one;
use crate::graph_build::{
    close_ops, ffn_input_ops, ffn_module, ffn_streams, mixer_input_ops, mixer_module,
    mixer_streams, streams_below, Frame, LayerGraph,
};
use crate::graph_dims::GraphDims;
use crate::graph_ffn::{collapse_head, norm_in_place, norm_into};
use crate::graph_mixers::{
    collapse_streams, gated_streams, inject_block, inject_gates, mix_gated, ngram_ops,
    spread_streams, QwenStreamW, StreamW,
};
use crate::graph_ops::{Op, Scalar};
use crate::graph_scratch::{CoreScratch, QwenScratch, StreamScratch};
use crate::graph_values::{
    added, after, after_first, lemma_after_join, normed, normed_if, projected, step, weighted, Part,
    Value, Values,
};
use crate::weight_handles::QwenPleW;
use crate::weight_plan::TensorId;
use vstd::prelude::*;

verus! {

/// Rows of n-grams join the residual streams: projected keys and the streams, both normed and
/// weighed, pick from the projected values; what they pick is added to the streams, and so is its
/// convolution with the history.
pub proof fn law_n_gram_rows_are_weighed_and_convolved_into_the_streams(
    env: Values,
    before: Seq<Op>,
    d: GraphDims,
    c: CoreScratch,
    q: QwenScratch,
    w: QwenPleW,
    wide: TensorId,
    embd: TensorId,
    state: TensorId,
    ones: usize,
)
    requires
        c.hn != q.key,
        c.hn != q.query,
        c.hn != state,
        c.hn != wide,
        embd != q.key,
        q.alt != q.conv,
        q.alt != state,
        q.conv != q.value,
        q.conv != state,
        q.conv != wide,
        q.key != q.query,
        q.key != q.value,
        q.key != state,
        q.key != wide,
        q.query != state,
        q.query != wide,
        q.value != state,
        q.value != wide,
        state != wide,
    ensures
        ({
            let e = after(env, before);
            let f = after(env, before + ngram_ops(d, c, q, w, wide, embd, state, ones));
            let keys = weighted(
                normed(
                    projected(e[embd], w.key, d.b.batch, d.ple_in, d.wide),
                    ones,
                    d.stream_rows,
                    d.b.n_embd,
                ),
                w.norm_key,
                d.b.batch,
                d.wide,
            );
            let queries = weighted(
                normed(e[wide], ones, d.stream_rows, d.b.n_embd),
                w.norm_query,
                d.b.batch,
                d.wide,
            );
            let picked = Value::QwenPleGate {
                key: Box::new(keys),
                query: Box::new(queries),
                value: Box::new(projected(e[embd], w.value, d.b.batch, d.ple_in, d.b.n_embd)),
                rows: d.b.batch,
                hc: d.b.hc_mult,
                n_embd: d.b.n_embd,
            };
            let prepared = weighted(
                normed(picked, ones, d.stream_rows, d.b.n_embd),
                w.norm_conv,
                d.b.batch,
                d.wide,
            );
            &&& f[wide] == added(
                added(e[wide], picked, d.b.batch, d.wide),
                Value::Conv1dSilu {
                    x: Box::new(prepared),
                    weight: w.conv,
                    state: Box::new(e[state]),
                    rows: d.b.batch,
                    channels: d.wide,
                    kernel: d.ple_kernel,
                    part: Part::Rows,
                },
                d.b.batch,
                d.wide,
            )
            &&& f[state] == (Value::Conv1dSilu {
                x: Box::new(prepared),
                weight: w.conv,
                state: Box::new(e[state]),
                rows: d.b.batch,
                channels: d.wide,
                kernel: d.ple_kernel,
                part: Part::State,
            })
            &&& forall|t0: TensorId|
                t0 != q.key && t0 != c.hn && t0 != q.query && t0 != q.value && t0 != state
                    && t0 != q.conv && t0 != q.alt && t0 != wide ==> #[trigger] f[t0] == e[t0]
        }),
{
    let ops = ngram_ops(d, c, q, w, wide, embd, state, ones);
    lemma_after_join(env, before, ops);
    let e0 = after(env, before);
    let e1 = e0.insert(q.key, projected(e0[embd], w.key, d.b.batch, d.ple_in, d.wide));
    assert(step(e0, ops[0]) == e1) by {
        reveal(step);
    }
    let e2 = e1.insert(c.hn, projected(e1[embd], w.value, d.b.batch, d.ple_in, d.b.n_embd));
    assert(step(e1, ops[1]) == e2) by {
        reveal(step);
    }
    let e3 = e2.insert(q.key, normed(e2[q.key], ones, d.stream_rows, d.b.n_embd));
    assert(step(e2, ops[2]) == e3) by {
        reveal(step);
    }
    let e4 = e3.insert(q.key, weighted(e3[q.key], w.norm_key, d.b.batch, d.wide));
    assert(step(e3, ops[3]) == e4) by {
        reveal(step);
    }
    let e5 = e4.insert(q.query, normed(e4[wide], ones, d.stream_rows, d.b.n_embd));
    assert(step(e4, ops[4]) == e5) by {
        reveal(step);
    }
    let e6 = e5.insert(q.query, weighted(e5[q.query], w.norm_query, d.b.batch, d.wide));
    assert(step(e5, ops[5]) == e6) by {
        reveal(step);
    }
    let e7 = e6.insert(
        q.value,
        Value::QwenPleGate {
            key: Box::new(e6[q.key]),
            query: Box::new(e6[q.query]),
            value: Box::new(e6[c.hn]),
            rows: d.b.batch,
            hc: d.b.hc_mult,
            n_embd: d.b.n_embd,
        },
    );
    assert(step(e6, ops[6]) == e7) by {
        reveal(step);
    }
    let e8 = e7.insert(q.key, normed(e7[q.value], ones, d.stream_rows, d.b.n_embd));
    assert(step(e7, ops[7]) == e8) by {
        reveal(step);
    }
    let e9 = e8.insert(q.key, weighted(e8[q.key], w.norm_conv, d.b.batch, d.wide));
    assert(step(e8, ops[8]) == e9) by {
        reveal(step);
    }
    let e10a = e9.insert(
        state,
        Value::Conv1dSilu {
            x: Box::new(e9[q.key]),
            weight: w.conv,
            state: Box::new(e9[state]),
            rows: d.b.batch,
            channels: d.wide,
            kernel: d.ple_kernel,
            part: Part::State,
        },
    );
    let e10 = e10a.insert(
        q.conv,
        Value::Conv1dSilu {
            x: Box::new(e9[q.key]),
            weight: w.conv,
            state: Box::new(e9[state]),
            rows: d.b.batch,
            channels: d.wide,
            kernel: d.ple_kernel,
            part: Part::Rows,
        },
    );
    assert(step(e9, ops[9]) == e10) by {
        reveal(step);
    }
    let e11 = e10.insert(q.alt, added(e10[wide], e10[q.value], d.b.batch, d.wide));
    assert(step(e10, ops[10]) == e11) by {
        reveal(step);
    }
    let e12 = e11.insert(wide, added(e11[q.alt], e11[q.conv], d.b.batch, d.wide));
    assert(step(e11, ops[11]) == e12) by {
        reveal(step);
    }
    assert(after(e0, ops) == e12) by {
        reveal(after);
        reveal_with_fuel(after_first, 13);
    }
}

proof fn lemma_collapse(
    env: Values,
    before: Seq<Op>,
    d: GraphDims,
    s: StreamScratch,
    w: StreamW,
    residual: TensorId,
    dst: TensorId,
    ones: usize,
)
    requires
        dst != s.comb,
        dst != s.post,
        residual != s.comb,
        residual != s.mixes,
        residual != s.normed,
        residual != s.post,
        residual != s.pre,
        s.comb != s.post,
        s.comb != s.pre,
        s.post != s.pre,
    ensures
        ({
            let e = after(env, before);
            let f = after(env, before + collapse_streams(d, s, w, residual, dst, ones));
            &&& f[dst] == (Value::HyperConnectPre {
                x: Box::new(e[residual]),
                weights: Box::new(
                    Value::HyperConnectMix {
                        mixes: Box::new(
                            projected(
                                normed(e[residual], ones, d.b.batch, d.wide),
                                w.func,
                                d.b.batch,
                                d.wide,
                                d.hc_gates,
                            ),
                        ),
                        scale: w.scale,
                        base: w.base,
                        rows: d.b.batch,
                        hc: d.b.hc_mult,
                        n_iter: d.b.hc_iters,
                        part: Part::Pre,
                    },
                ),
                rows: d.b.batch,
                hc: d.b.hc_mult,
                n_embd: d.b.n_embd,
            })
            &&& f[s.post] == (Value::HyperConnectMix {
                mixes: Box::new(
                    projected(
                        normed(e[residual], ones, d.b.batch, d.wide),
                        w.func,
                        d.b.batch,
                        d.wide,
                        d.hc_gates,
                    ),
                ),
                scale: w.scale,
                base: w.base,
                rows: d.b.batch,
                hc: d.b.hc_mult,
                n_iter: d.b.hc_iters,
                part: Part::Post,
            })
            &&& f[s.comb] == (Value::HyperConnectMix {
                mixes: Box::new(
                    projected(
                        normed(e[residual], ones, d.b.batch, d.wide),
                        w.func,
                        d.b.batch,
                        d.wide,
                        d.hc_gates,
                    ),
                ),
                scale: w.scale,
                base: w.base,
                rows: d.b.batch,
                hc: d.b.hc_mult,
                n_iter: d.b.hc_iters,
                part: Part::Comb,
            })
            &&& forall|t0: TensorId|
                t0 != s.normed && t0 != s.mixes && t0 != s.pre && t0 != s.post && t0 != s.comb
                    && t0 != dst ==> #[trigger] f[t0] == e[t0]
        }),
{
    let ops = collapse_streams(d, s, w, residual, dst, ones);
    lemma_after_join(env, before, ops);
    let e0 = after(env, before);
    let e1 = e0.insert(s.normed, normed(e0[residual], ones, d.b.batch, d.wide));
    assert(step(e0, ops[0]) == e1) by {
        reveal(step);
    }
    let e2 = e1.insert(s.mixes, projected(e1[s.normed], w.func, d.b.batch, d.wide, d.hc_gates));
    assert(step(e1, ops[1]) == e2) by {
        reveal(step);
    }
    let e3a = e2.insert(
        s.pre,
        Value::HyperConnectMix {
            mixes: Box::new(e2[s.mixes]),
            scale: w.scale,
            base: w.base,
            rows: d.b.batch,
            hc: d.b.hc_mult,
            n_iter: d.b.hc_iters,
            part: Part::Pre,
        },
    );
    let e3b = e3a.insert(
        s.post,
        Value::HyperConnectMix {
            mixes: Box::new(e2[s.mixes]),
            scale: w.scale,
            base: w.base,
            rows: d.b.batch,
            hc: d.b.hc_mult,
            n_iter: d.b.hc_iters,
            part: Part::Post,
        },
    );
    let e3 = e3b.insert(
        s.comb,
        Value::HyperConnectMix {
            mixes: Box::new(e2[s.mixes]),
            scale: w.scale,
            base: w.base,
            rows: d.b.batch,
            hc: d.b.hc_mult,
            n_iter: d.b.hc_iters,
            part: Part::Comb,
        },
    );
    assert(step(e2, ops[2]) == e3) by {
        reveal(step);
    }
    let e4 = e3.insert(
        dst,
        Value::HyperConnectPre {
            x: Box::new(e3[residual]),
            weights: Box::new(e3[s.pre]),
            rows: d.b.batch,
            hc: d.b.hc_mult,
            n_embd: d.b.n_embd,
        },
    );
    assert(step(e3, ops[3]) == e4) by {
        reveal(step);
    }
    assert(after(e0, ops) == e4) by {
        reveal(after);
        reveal_with_fuel(after_first, 5);
    }
}

/// How the residual streams are weighed, by a projection of the normed streams themselves.
pub open spec fn stream_weights(
    d: GraphDims,
    w: StreamW,
    streams: Value,
    ones: usize,
    part: Part,
) -> Value {
    Value::HyperConnectMix {
        mixes: Box::new(
            projected(
                normed(streams, ones, d.b.batch, d.wide),
                w.func,
                d.b.batch,
                d.wide,
                d.hc_gates,
            ),
        ),
        scale: w.scale,
        base: w.base,
        rows: d.b.batch,
        hc: d.b.hc_mult,
        n_iter: d.b.hc_iters,
        part,
    }
}

/// The residual streams, collapsed by their weights into one row of each token.
pub open spec fn collapsed(d: GraphDims, w: StreamW, streams: Value, ones: usize) -> Value {
    Value::HyperConnectPre {
        x: Box::new(streams),
        weights: Box::new(stream_weights(d, w, streams, ones, Part::Pre)),
        rows: d.b.batch,
        hc: d.b.hc_mult,
        n_embd: d.b.n_embd,
    }
}

/// The residual streams with a block's output written back over them.
pub open spec fn spread_over(
    d: GraphDims,
    streams: Value,
    block: Value,
    post: Value,
    comb: Value,
) -> Value {
    Value::HyperConnectPost {
        x: Box::new(block),
        residual: Box::new(streams),
        post: Box::new(post),
        comb: Box::new(comb),
        rows: d.b.batch,
        hc: d.b.hc_mult,
        n_embd: d.b.n_embd,
    }
}

/// The tensors of the residual streams are apart.
pub open spec fn streams_apart(c: CoreScratch, s: StreamScratch) -> bool {
    &&& c.hn != c.sub && c.hn != s.even && c.hn != s.odd && c.hn != s.normed && c.hn != s.mixes
        && c.hn != s.pre && c.hn != s.post && c.hn != s.comb
    &&& c.sub != s.even && c.sub != s.odd && c.sub != s.normed && c.sub != s.mixes
        && c.sub != s.pre && c.sub != s.post && c.sub != s.comb
    &&& s.even != s.odd && s.even != s.normed && s.even != s.mixes && s.even != s.pre
        && s.even != s.post && s.even != s.comb
    &&& s.odd != s.normed && s.odd != s.mixes && s.odd != s.pre && s.odd != s.post
        && s.odd != s.comb
    &&& s.normed != s.mixes && s.normed != s.pre && s.normed != s.post && s.normed != s.comb
    &&& s.mixes != s.pre && s.mixes != s.post && s.mixes != s.comb
    &&& s.pre != s.post && s.pre != s.comb
    &&& s.post != s.comb
}

/// A mixer under residual streams reads the collapsed and normed streams, and the weights by which
/// its output is to be written back are those of the same streams.
pub proof fn law_a_mixer_reads_the_collapsed_streams(
    env: Values,
    before: Seq<Op>,
    x: Frame,
    g: LayerGraph,
)
    requires
        g.w.qwen_hc is None,
        g.w.hc is Some,
        streams_apart(x.s.core, x.s.streams),
    ensures
        ({
            let e = after(env, before);
            let f = after(env, mixer_input_ops(before, x, g));
            let hc = g.w.hc->Some_0;
            let w = StreamW { func: hc.attn_fn, base: hc.attn_base, scale: hc.attn_scale };
            let s = x.s.streams;
            let ones = x.head.hc_ones->Some_0;
            &&& f[x.s.core.hn] == normed(
                collapsed(x.d, w, e[s.even], ones),
                g.w.attn_norm,
                x.d.b.batch,
                x.d.b.n_embd,
            )
            &&& f[s.post] == stream_weights(x.d, w, e[s.even], ones, Part::Post)
            &&& f[s.comb] == stream_weights(x.d, w, e[s.even], ones, Part::Comb)
            &&& f[s.even] == e[s.even]
        }),
{
    let d = x.d;
    let s = x.s.streams;
    let hn = x.s.core.hn;
    let w = mixer_streams(g.w.hc->Some_0);
    let ones = x.head.hc_ones->Some_0;
    lemma_collapse(env, before, d, s, w, s.even, hn, ones);
    reveal(step);
    lemma_then_one(
        env,
        before + collapse_streams(d, s, w, s.even, hn, ones),
        norm_into(d, hn, g.w.attn_norm, hn),
    );
}

/// A mixer's output is written back over the streams that it was read from, by their weights, and
/// the feed-forward block reads the new streams, collapsed and normed.
pub proof fn law_a_mixers_output_is_spread_over_the_streams(
    env: Values,
    before: Seq<Op>,
    x: Frame,
    g: LayerGraph,
)
    requires
        g.w.qwen_hc is None,
        g.w.hc is Some,
        streams_apart(x.s.core, x.s.streams),
    ensures
        ({
            let e = after(env, before);
            let f = after(env, ffn_input_ops(before, x, g));
            let hc = g.w.hc->Some_0;
            let w = StreamW { func: hc.ffn_fn, base: hc.ffn_base, scale: hc.ffn_scale };
            let s = x.s.streams;
            let b = x.d.b;
            let ones = x.head.hc_ones->Some_0;
            &&& f[s.odd] == spread_over(
                x.d,
                e[s.even],
                normed_if(e[x.s.core.sub], g.w.post_attn, b.batch, b.n_embd),
                e[s.post],
                e[s.comb],
            )
            &&& f[x.s.core.hn] == normed(
                collapsed(x.d, w, f[s.odd], ones),
                g.w.ffn_norm,
                b.batch,
                b.n_embd,
            )
            &&& f[s.post] == stream_weights(x.d, w, f[s.odd], ones, Part::Post)
            &&& f[s.comb] == stream_weights(x.d, w, f[s.odd], ones, Part::Comb)
        }),
{
    let d = x.d;
    let c = x.s.core;
    let s = x.s.streams;
    let w = ffn_streams(g.w.hc->Some_0);
    let ones = x.head.hc_ones->Some_0;
    let a = match g.w.post_attn {
        Some(weight) => before + norm_in_place(d, c.sub, weight),
        None => before,
    };
    reveal(step);
    if let Some(weight) = g.w.post_attn {
        lemma_then_one(env, before, norm_in_place(d, c.sub, weight));
    }
    let p = a + spread_streams(d, c, s, s.even, s.odd);
    lemma_then_one(env, a, spread_streams(d, c, s, s.even, s.odd));
    lemma_collapse(env, p, d, s, w, s.odd, c.hn, ones);
    lemma_then_one(
        env,
        p + collapse_streams(d, s, w, s.odd, c.hn, ones),
        norm_into(d, c.hn, g.w.ffn_norm, c.hn),
    );
}

/// A feed-forward block's output is written back over the streams that it was read from, by their
/// weights.
pub proof fn law_a_feed_forward_output_is_spread_over_the_streams(
    env: Values,
    before: Seq<Op>,
    x: Frame,
    g: LayerGraph,
)
    requires
        g.w.qwen_hc is None,
        g.w.hc is Some,
        g.w.pl_inp_gate is None,
        g.scale is None,
        streams_apart(x.s.core, x.s.streams),
    ensures
        ({
            let e = after(env, before);
            let f = after(env, close_ops(before, x, g));
            let s = x.s.streams;
            let b = x.d.b;
            f[s.even] == spread_over(
                x.d,
                e[s.odd],
                normed_if(e[x.s.core.sub], g.w.post_ffw, b.batch, b.n_embd),
                e[s.post],
                e[s.comb],
            )
        }),
{
    let d = x.d;
    let c = x.s.core;
    let s = x.s.streams;
    let a = match g.w.post_ffw {
        Some(weight) => before + norm_in_place(d, c.sub, weight),
        None => before,
    };
    reveal(step);
    if let Some(weight) = g.w.post_ffw {
        lemma_then_one(env, before, norm_in_place(d, c.sub, weight));
    }
    lemma_then_one(env, a, spread_streams(d, c, s, s.odd, s.even));
}

/// Behind the last layer the residual streams are collapsed by weights of their own into the rows
/// that the head reads.
pub proof fn law_the_head_reads_the_collapsed_streams(
    env: Values,
    before: Seq<Op>,
    d: GraphDims,
    s: StreamScratch,
    func: usize,
    base: usize,
    scale: usize,
    ones: usize,
    hidden: TensorId,
)
    requires
        s.even != s.head_mixes,
        s.even != s.normed,
        s.even != s.pre,
    ensures
        ({
            let e = after(env, before);
            let f = after(env, before + collapse_head(d, s, func, base, scale, ones, hidden));
            &&& f[hidden] == (Value::HyperConnectPre {
                x: Box::new(e[s.even]),
                weights: Box::new(
                    Value::HyperConnectMix {
                        mixes: Box::new(
                            projected(
                                normed(e[s.even], ones, d.b.batch, d.wide),
                                func,
                                d.b.batch,
                                d.wide,
                                d.b.hc_mult,
                            ),
                        ),
                        scale,
                        base,
                        rows: d.b.batch,
                        hc: d.b.hc_mult,
                        n_iter: d.b.hc_iters,
                        part: Part::Pre,
                    },
                ),
                rows: d.b.batch,
                hc: d.b.hc_mult,
                n_embd: d.b.n_embd,
            })
            &&& forall|t0: TensorId|
                t0 != s.normed && t0 != s.head_mixes && t0 != s.pre && t0 != hidden
                    ==> #[trigger] f[t0] == e[t0]
        }),
{
    let ops = collapse_head(d, s, func, base, scale, ones, hidden);
    lemma_after_join(env, before, ops);
    let e0 = after(env, before);
    let e1 = e0.insert(s.normed, normed(e0[s.even], ones, d.b.batch, d.wide));
    assert(step(e0, ops[0]) == e1) by {
        reveal(step);
    }
    let e2 = e1.insert(s.head_mixes, projected(e1[s.normed], func, d.b.batch, d.wide, d.b.hc_mult));
    assert(step(e1, ops[1]) == e2) by {
        reveal(step);
    }
    let e3 = e2.insert(
        s.pre,
        Value::HyperConnectMix {
            mixes: Box::new(e2[s.head_mixes]),
            scale,
            base,
            rows: d.b.batch,
            hc: d.b.hc_mult,
            n_iter: d.b.hc_iters,
            part: Part::Pre,
        },
    );
    assert(step(e2, ops[2]) == e3) by {
        reveal(step);
    }
    let e4 = e3.insert(
        hidden,
        Value::HyperConnectPre {
            x: Box::new(e3[s.even]),
            weights: Box::new(e3[s.pre]),
            rows: d.b.batch,
            hc: d.b.hc_mult,
            n_embd: d.b.n_embd,
        },
    );
    assert(step(e3, ops[3]) == e4) by {
        reveal(step);
    }
    assert(after(e0, ops) == e4) by {
        reveal(after);
        reveal_with_fuel(after_first, 5);
    }
}

proof fn lemma_mix_gated(
    env: Values,
    before: Seq<Op>,
    d: GraphDims,
    q: QwenScratch,
    w: QwenStreamW,
    residual: TensorId,
    dst: TensorId,
    ones: usize,
)
    requires
        dst != q.normed,
        q.low != q.normed,
        q.mix != q.normed,
    ensures
        ({
            let e = after(env, before);
            let f = after(env, before + mix_gated(d, q, w, residual, dst, ones));
            &&& f[dst] == (Value::QwenHcMix {
                x: Box::new(
                    weighted(
                        normed(e[residual], ones, d.stream_rows, d.b.n_embd),
                        w.norm,
                        d.b.batch,
                        d.wide,
                    ),
                ),
                gate: Box::new(
                    projected(
                        Value::Silu {
                            x: Box::new(
                                projected(
                                    weighted(
                                        normed(e[residual], ones, d.stream_rows, d.b.n_embd),
                                        w.norm,
                                        d.b.batch,
                                        d.wide,
                                    ),
                                    w.down,
                                    d.b.batch,
                                    d.wide,
                                    d.b.hc_low_rank,
                                ),
                            ),
                            rows: d.b.batch,
                            n: d.b.hc_low_rank,
                            scale: Scalar::Inverse(d.b.hc_mult),
                        },
                        w.up,
                        d.b.batch,
                        d.b.hc_low_rank,
                        d.wide,
                    ),
                ),
                rows: d.b.batch,
                hc: d.b.hc_mult,
                n_embd: d.b.n_embd,
            })
            &&& f[q.normed] == weighted(
                normed(e[residual], ones, d.stream_rows, d.b.n_embd),
                w.norm,
                d.b.batch,
                d.wide,
            )
            &&& forall|t0: TensorId|
                t0 != q.normed && t0 != q.low && t0 != q.mix && t0 != dst
                    ==> #[trigger] f[t0] == e[t0]
        }),
{
    let ops = mix_gated(d, q, w, residual, dst, ones);
    lemma_after_join(env, before, ops);
    let e0 = after(env, before);
    let e1 = e0.insert(q.normed, normed(e0[residual], ones, d.stream_rows, d.b.n_embd));
    assert(step(e0, ops[0]) == e1) by {
        reveal(step);
    }
    let e2 = e1.insert(q.normed, weighted(e1[q.normed], w.norm, d.b.batch, d.wide));
    assert(step(e1, ops[1]) == e2) by {
        reveal(step);
    }
    let e3 = e2.insert(q.low, projected(e2[q.normed], w.down, d.b.batch, d.wide, d.b.hc_low_rank));
    assert(step(e2, ops[2]) == e3) by {
        reveal(step);
    }
    let e4 = e3.insert(
        q.low,
        Value::Silu {
            x: Box::new(e3[q.low]),
            rows: d.b.batch,
            n: d.b.hc_low_rank,
            scale: Scalar::Inverse(d.b.hc_mult),
        },
    );
    assert(step(e3, ops[3]) == e4) by {
        reveal(step);
    }
    let e5 = e4.insert(q.mix, projected(e4[q.low], w.up, d.b.batch, d.b.hc_low_rank, d.wide));
    assert(step(e4, ops[4]) == e5) by {
        reveal(step);
    }
    let e6 = e5.insert(
        dst,
        Value::QwenHcMix {
            x: Box::new(e5[q.normed]),
            gate: Box::new(e5[q.mix]),
            rows: d.b.batch,
            hc: d.b.hc_mult,
            n_embd: d.b.n_embd,
        },
    );
    assert(step(e5, ops[5]) == e6) by {
        reveal(step);
    }
    assert(after(e0, ops) == e6) by {
        reveal(after);
        reveal_with_fuel(after_first, 7);
    }
}

/// The residual streams, each normed, and weighed.
pub open spec fn normed_streams(d: GraphDims, norm: usize, streams: Value, ones: usize) -> Value {
    weighted(normed(streams, ones, d.stream_rows, d.b.n_embd), norm, d.b.batch, d.wide)
}

/// The residual streams, mixed into one row of each token by gates that a low-rank projection of
/// the normed streams gives.
pub open spec fn mixed_streams(d: GraphDims, w: QwenStreamW, streams: Value, ones: usize) -> Value {
    let rows = normed_streams(d, w.norm, streams, ones);
    let low = Value::Silu {
        x: Box::new(projected(rows, w.down, d.b.batch, d.wide, d.b.hc_low_rank)),
        rows: d.b.batch,
        n: d.b.hc_low_rank,
        scale: Scalar::Inverse(d.b.hc_mult),
    };
    Value::QwenHcMix {
        x: Box::new(rows),
        gate: Box::new(projected(low, w.up, d.b.batch, d.b.hc_low_rank, d.wide)),
        rows: d.b.batch,
        hc: d.b.hc_mult,
        n_embd: d.b.n_embd,
    }
}

/// The residual streams with a block's output injected by its gates.
pub open spec fn injected(d: GraphDims, streams: Value, block: Value, gates: Value) -> Value {
    Value::QwenHcInject {
        residual: Box::new(streams),
        block: Box::new(block),
        gate: Box::new(gates),
        rows: d.b.batch,
        hc: d.b.hc_mult,
        n_embd: d.b.n_embd,
    }
}

/// The tensors of gated residual streams are apart.
pub open spec fn gated_apart(c: CoreScratch, q: QwenScratch, wide: TensorId) -> bool {
    &&& wide != c.hn && wide != c.sub && wide != q.alt && wide != q.normed && wide != q.low
        && wide != q.mix && wide != q.inject
    &&& c.hn != c.sub && c.hn != q.alt && c.hn != q.normed && c.hn != q.low && c.hn != q.mix
        && c.hn != q.inject
    &&& c.sub != q.alt && c.sub != q.normed && c.sub != q.low && c.sub != q.mix
        && c.sub != q.inject
    &&& q.alt != q.normed && q.alt != q.low && q.alt != q.mix && q.alt != q.inject
    &&& q.normed != q.low && q.normed != q.mix && q.normed != q.inject
    &&& q.low != q.mix && q.low != q.inject
    &&& q.mix != q.inject
}

/// A block under gated residual streams reads their mix, and the gates by which its output is to be
/// injected are projected from the same normed streams.
proof fn lemma_gated(
    env: Values,
    before: Seq<Op>,
    d: GraphDims,
    c: CoreScratch,
    q: QwenScratch,
    w: QwenStreamW,
    wide: TensorId,
    residual: TensorId,
    ones: usize,
)
    requires
        gated_apart(c, q, wide),
        residual == wide || residual == q.alt,
    ensures
        ({
            let e = after(env, before);
            let f = after(env, gated_streams(before, d, q, w, residual, c.hn, ones));
            &&& f[c.hn] == mixed_streams(d, w, e[residual], ones)
            &&& w.inject matches Some(weight) ==> f[q.inject] == projected(
                normed_streams(d, w.norm, e[residual], ones),
                weight,
                d.b.batch,
                d.wide,
                d.b.hc_mult,
            )
            &&& w.inject is None ==> f[q.inject] == e[q.inject]
            &&& f[wide] == e[wide]
            &&& f[q.alt] == e[q.alt]
        }),
{
    lemma_mix_gated(env, before, d, q, w, residual, c.hn, ones);
    reveal(step);
    if let Some(weight) = w.inject {
        lemma_then_one(
            env,
            before + mix_gated(d, q, w, residual, c.hn, ones),
            inject_gates(d, q, weight),
        );
    }
}

/// A mixer under gated residual streams reads their mix.
pub proof fn law_a_mixer_reads_the_mixed_streams(
    env: Values,
    before: Seq<Op>,
    x: Frame,
    g: LayerGraph,
)
    requires
        g.w.qwen_hc is Some,
        gated_apart(x.s.core, x.s.qwen, x.i.qwen_wide->Some_0),
    ensures
        ({
            let e = after(env, before);
            let f = after(env, mixer_input_ops(before, x, g));
            let hc = g.w.qwen_hc->Some_0;
            let wide = x.i.qwen_wide->Some_0;
            let ones = x.head.qwen_hc_ones->Some_0;
            let w = QwenStreamW {
                norm: hc.attn_norm,
                down: hc.attn_down,
                up: hc.attn_up,
                inject: Some(hc.attn_inject),
            };
            &&& f[x.s.core.hn] == mixed_streams(x.d, w, e[wide], ones)
            &&& f[x.s.qwen.inject] == projected(
                normed_streams(x.d, hc.attn_norm, e[wide], ones),
                hc.attn_inject,
                x.d.b.batch,
                x.d.wide,
                x.d.b.hc_mult,
            )
            &&& f[wide] == e[wide]
        }),
{
    lemma_gated(
        env,
        before,
        x.d,
        x.s.core,
        x.s.qwen,
        mixer_module(g.w.qwen_hc->Some_0),
        x.i.qwen_wide->Some_0,
        x.i.qwen_wide->Some_0,
        x.head.qwen_hc_ones->Some_0,
    );
}

/// A mixer's output is injected into the streams that it was read from, and the feed-forward block
/// reads the mix of the new streams.
pub proof fn law_a_mixers_output_is_injected_into_the_streams(
    env: Values,
    before: Seq<Op>,
    x: Frame,
    g: LayerGraph,
)
    requires
        g.w.qwen_hc is Some,
        gated_apart(x.s.core, x.s.qwen, x.i.qwen_wide->Some_0),
    ensures
        ({
            let e = after(env, before);
            let f = after(env, ffn_input_ops(before, x, g));
            let hc = g.w.qwen_hc->Some_0;
            let b = x.d.b;
            let wide = x.i.qwen_wide->Some_0;
            let ones = x.head.qwen_hc_ones->Some_0;
            let w = QwenStreamW {
                norm: hc.ffn_norm,
                down: hc.ffn_down,
                up: hc.ffn_up,
                inject: Some(hc.ffn_inject),
            };
            &&& f[x.s.qwen.alt] == injected(
                x.d,
                e[wide],
                normed_if(e[x.s.core.sub], g.w.post_attn, b.batch, b.n_embd),
                e[x.s.qwen.inject],
            )
            &&& f[x.s.core.hn] == mixed_streams(x.d, w, f[x.s.qwen.alt], ones)
            &&& f[x.s.qwen.inject] == projected(
                normed_streams(x.d, hc.ffn_norm, f[x.s.qwen.alt], ones),
                hc.ffn_inject,
                b.batch,
                x.d.wide,
                b.hc_mult,
            )
        }),
{
    let d = x.d;
    let c = x.s.core;
    let q = x.s.qwen;
    let wide = x.i.qwen_wide->Some_0;
    let a = match g.w.post_attn {
        Some(weight) => before + norm_in_place(d, c.sub, weight),
        None => before,
    };
    reveal(step);
    if let Some(weight) = g.w.post_attn {
        lemma_then_one(env, before, norm_in_place(d, c.sub, weight));
    }
    let p = a + inject_block(d, c, q, wide, q.alt);
    lemma_then_one(env, a, inject_block(d, c, q, wide, q.alt));
    lemma_gated(
        env,
        p,
        d,
        c,
        q,
        ffn_module(g.w.qwen_hc->Some_0),
        wide,
        q.alt,
        x.head.qwen_hc_ones->Some_0,
    );
}

/// A feed-forward block's output is injected into the streams that it was read from.
pub proof fn law_a_feed_forward_output_is_injected_into_the_streams(
    env: Values,
    before: Seq<Op>,
    x: Frame,
    g: LayerGraph,
)
    requires
        g.w.qwen_hc is Some,
        g.w.pl_inp_gate is None,
        g.scale is None,
        gated_apart(x.s.core, x.s.qwen, x.i.qwen_wide->Some_0),
    ensures
        ({
            let e = after(env, before);
            let f = after(env, close_ops(before, x, g));
            let b = x.d.b;
            f[x.i.qwen_wide->Some_0] == injected(
                x.d,
                e[x.s.qwen.alt],
                normed_if(e[x.s.core.sub], g.w.post_ffw, b.batch, b.n_embd),
                e[x.s.qwen.inject],
            )
        }),
{
    let d = x.d;
    let c = x.s.core;
    let q = x.s.qwen;
    let a = match g.w.post_ffw {
        Some(weight) => before + norm_in_place(d, c.sub, weight),
        None => before,
    };
    reveal(step);
    if let Some(weight) = g.w.post_ffw {
        lemma_then_one(env, before, norm_in_place(d, c.sub, weight));
    }
    lemma_then_one(env, a, inject_block(d, c, q, q.alt, x.i.qwen_wide->Some_0));
}

/// Residual streams begin as copies of the rows, side by side: stream `k` of each row begins `k`
/// rows' width in.
pub proof fn law_every_stream_begins_as_the_rows(
    before: Seq<Op>,
    d: GraphDims,
    hidden: TensorId,
    dst: TensorId,
    n: nat,
    k: int,
)
    requires
        0 <= k < n,
        n * d.b.n_embd <= usize::MAX,
    ensures
        ({
            let ops = streams_below(before, d, hidden, dst, n);
            &&& ops.len() == before.len() + n
            &&& ops.take(before.len() as int) == before
            &&& ops[before.len() + k] == (Op::CopyStrided {
                src: hidden,
                src_off: 0,
                src_stride: d.b.n_embd,
                dst,
                dst_off: (k * d.b.n_embd) as usize,
                dst_stride: d.wide,
                rows: d.b.batch,
                n: d.b.n_embd,
            })
        }),
    decreases n,
{
    let m = (n - 1) as nat;
    let ops = streams_below(before, d, hidden, dst, n);
    assert(m * d.b.n_embd <= n * d.b.n_embd) by (nonlinear_arith)
        requires
            m <= n,
            d.b.n_embd >= 0,
    ;
    if m > 0 {
        law_every_stream_begins_as_the_rows(
            before,
            d,
            hidden,
            dst,
            m,
            if k < m {
                k
            } else {
                0
            },
        );
    } else {
        assert(streams_below(before, d, hidden, dst, 0) == before);
    }
    let rest = streams_below(before, d, hidden, dst, m);
    assert(rest.take(before.len() as int) =~= before);
    assert(ops.take(before.len() as int) =~= before);
}

} // verus!
