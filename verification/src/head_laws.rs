//! What a graph's rows begin as, and what its logits and its token are made of.

use crate::graph_block_laws::lemma_then_one;
use crate::graph_build::{canvas_ops, embed_ops, head_ops, Frame, Results};
use crate::graph_dims::GraphDims;
use crate::graph_ffn::{
    cap_logits, condition_canvas, draw_token, embed_rows, last_rows, make_logits, norm_in_place,
    norm_into, per_layer_inputs, take_largest, tap_rows, ConditionW,
};
use crate::graph_ops::{Activation, Clamp, Op, Scalar, WeightRef};
use crate::graph_scratch::{ConditionScratch, PerLayerScratch};
use crate::graph_values::{
    activated, added, after, after_first, held, lemma_after_join, normed, projected, replaced, step,
    times, Value, Values,
};
use crate::weight_plan::TensorId;
use vstd::prelude::*;

verus! {

/// Rows of an embedding table, one for each token.
pub open spec fn embedded(
    d: GraphDims,
    ids: Value,
    table: usize,
    width: usize,
    scale: Scalar,
) -> Value {
    Value::EmbedGather { ids: Box::new(ids), table, rows: d.b.batch, ne: width, scale }
}

/// Where the device gathers embeddings, the rows are those of the batch's tokens in the embedding
/// table, scaled by the root of their width in the models that ask for it; and so are the rows of
/// the per-layer table, by the root of theirs.
#[verifier::rlimit(40)]
pub proof fn law_rows_begin_as_the_tokens_embeddings(env: Values, before: Seq<Op>, x: Frame)
    requires
        x.i.tok_ids matches Some(ids) ==> ids != x.i.hidden,
        x.h.per_layer != Some(x.i.hidden),
    ensures
        ({
            let e = after(env, before);
            let f = after(env, embed_ops(before, x));
            let b = x.d.b;
            &&& f[x.i.hidden] == (match (x.i.tok_ids, x.head.embd) {
                (Some(ids), Some(table)) => embedded(
                    x.d,
                    e[ids],
                    table,
                    b.n_embd,
                    if x.f.gemma {
                        Scalar::Sqrt(b.n_embd)
                    } else {
                        Scalar::One
                    },
                ),
                _ => e[x.i.hidden],
            })
            &&& x.f.pl_gathered ==> (match (x.i.tok_ids, x.head.ple, x.h.per_layer) {
                (Some(ids), Some(table), Some(dst)) => f[dst] == embedded(
                    x.d,
                    e[ids],
                    table,
                    x.d.per_layer,
                    Scalar::Sqrt(b.n_embd_per_layer),
                ),
                _ => true,
            })
            &&& forall|t: TensorId|
                t != x.i.hidden && x.h.per_layer != Some(t) ==> #[trigger] f[t] == e[t]
        }),
{
    let d = x.d;
    reveal(step);
    let g = match (x.i.tok_ids, x.head.embd) {
        (Some(ids), Some(table)) => before + embed_rows(
            d,
            ids,
            table,
            x.i.hidden,
            d.b.n_embd,
            if x.f.gemma {
                Scalar::Sqrt(d.b.n_embd)
            } else {
                Scalar::One
            },
        ),
        _ => before,
    };
    match (x.i.tok_ids, x.head.embd) {
        (Some(ids), Some(table)) => {
            let scale = if x.f.gemma {
                Scalar::Sqrt(d.b.n_embd)
            } else {
                Scalar::One
            };
            lemma_then_one(
                env,
                before,
                embed_rows(d, ids, table, x.i.hidden, d.b.n_embd, scale),
            );
        },
        _ => {},
    }
    if x.f.pl_gathered {
        match (x.i.tok_ids, x.head.ple, x.h.per_layer) {
            (Some(ids), Some(table), Some(dst)) => {
                lemma_then_one(
                    env,
                    g,
                    embed_rows(
                        d,
                        ids,
                        table,
                        dst,
                        d.per_layer,
                        Scalar::Sqrt(d.b.n_embd_per_layer),
                    ),
                );
            },
            _ => {},
        }
    }
}

/// The input that each layer has of its own is the mean of two: the rows, projected, scaled by the
/// root of their width and normed layer by layer; and what was gathered for the tokens.
pub proof fn law_a_layers_input_is_projected_and_gathered(
    env: Values,
    before: Seq<Op>,
    d: GraphDims,
    hidden: TensorId,
    t: PerLayerScratch,
    proj: usize,
    norm: usize,
    rows_in: TensorId,
)
    requires
        rows_in != t.acc,
        rows_in != t.normed,
    ensures
        ({
            let e = after(env, before);
            let f = after(env, before + per_layer_inputs(d, hidden, t, proj, norm, rows_in));
            &&& f[t.inputs] == times(
                added(
                    normed(
                        times(
                            projected(e[hidden], proj, d.b.batch, d.b.n_embd, d.per_layer),
                            Scalar::InvSqrt(d.b.n_embd),
                            d.b.batch,
                            d.per_layer,
                        ),
                        norm,
                        d.layer_rows,
                        d.b.n_embd_per_layer,
                    ),
                    e[rows_in],
                    d.b.batch,
                    d.per_layer,
                ),
                Scalar::InvSqrt(2),
                d.b.batch,
                d.per_layer,
            )
            &&& forall|t0: TensorId|
                t0 != t.acc && t0 != t.normed && t0 != t.inputs ==> #[trigger] f[t0] == e[t0]
        }),
{
    let ops = per_layer_inputs(d, hidden, t, proj, norm, rows_in);
    lemma_after_join(env, before, ops);
    let e0 = after(env, before);
    let e1 = e0.insert(t.acc, projected(e0[hidden], proj, d.b.batch, d.b.n_embd, d.per_layer));
    assert(step(e0, ops[0]) == e1) by {
        reveal(step);
    }
    let e2 = e1.insert(
        t.acc,
        times(e1[t.acc], Scalar::InvSqrt(d.b.n_embd), d.b.batch, d.per_layer),
    );
    assert(step(e1, ops[1]) == e2) by {
        reveal(step);
    }
    let e3 = e2.insert(t.normed, normed(e2[t.acc], norm, d.layer_rows, d.b.n_embd_per_layer));
    assert(step(e2, ops[2]) == e3) by {
        reveal(step);
    }
    let e4 = e3.insert(t.inputs, added(e3[t.normed], e3[rows_in], d.b.batch, d.per_layer));
    assert(step(e3, ops[3]) == e4) by {
        reveal(step);
    }
    let e5 = e4.insert(t.inputs, times(e4[t.inputs], Scalar::InvSqrt(2), d.b.batch, d.per_layer));
    assert(step(e4, ops[4]) == e5) by {
        reveal(step);
    }
    assert(after(e0, ops) == e5) by {
        reveal(after);
        reveal_with_fuel(after_first, 6);
    }
}

/// A canvas is conditioned by what the last step expected: the rows of the embedding, weighed by
/// the softened probabilities of its logits, go through a gated block and are added to the canvas
/// rows.
pub proof fn law_a_canvas_is_conditioned_on_the_last_logits(
    env: Values,
    before: Seq<Op>,
    d: GraphDims,
    hidden: TensorId,
    t: ConditionScratch,
    w: ConditionW,
    logits: TensorId,
    temperature: Option<TensorId>,
)
    requires
        hidden != t.act,
        hidden != t.left,
        hidden != t.normed,
        hidden != t.probs,
        hidden != t.right,
        hidden != t.signal,
        hidden != t.soft,
        t.left != t.normed,
        t.left != t.right,
    ensures
        ({
            let e = after(env, before);
            let f = after(env, before + condition_canvas(d, hidden, t, w, logits, temperature));
            let expected = normed(
                times(
                    Value::Linear {
                        x: Box::new(
                            Value::Softmax {
                                x: Box::new(e[logits]),
                                rows: d.b.batch,
                                dim: d.b.vocab,
                                scale: Scalar::One,
                                scale_buf: held(e, temperature),
                            },
                        ),
                        weight: WeightRef::SoftEmbedding,
                        m: d.b.batch,
                        in_f: d.b.vocab,
                        out_f: d.b.n_embd,
                        w_off: 0,
                    },
                    Scalar::Sqrt(d.b.n_embd),
                    d.b.batch,
                    d.b.n_embd,
                ),
                w.pre_norm,
                d.b.batch,
                d.b.n_embd,
            );
            &&& f[hidden] == added(
                e[hidden],
                projected(
                    activated(
                        projected(expected, w.left, d.b.batch, d.b.n_embd, d.b.n_ff),
                        projected(expected, w.right, d.b.batch, d.b.n_embd, d.b.n_ff),
                        d.b.batch,
                        d.b.n_ff,
                        Activation::Gelu,
                        Clamp::Off,
                    ),
                    w.down,
                    d.b.batch,
                    d.b.n_ff,
                    d.b.n_embd,
                ),
                d.b.batch,
                d.b.n_embd,
            )
            &&& forall|t0: TensorId|
                t0 != t.probs && t0 != t.soft && t0 != t.normed && t0 != t.left && t0 != t.right
                    && t0 != t.act && t0 != t.signal && t0 != hidden
                    ==> #[trigger] f[t0] == e[t0]
        }),
{
    let ops = condition_canvas(d, hidden, t, w, logits, temperature);
    lemma_after_join(env, before, ops);
    let e0 = after(env, before);
    let e1 = e0.insert(
        t.probs,
        Value::Softmax {
            x: Box::new(e0[logits]),
            rows: d.b.batch,
            dim: d.b.vocab,
            scale: Scalar::One,
            scale_buf: held(e0, temperature),
        },
    );
    assert(step(e0, ops[0]) == e1) by {
        reveal(step);
    }
    let e2 = e1.insert(
        t.soft,
        Value::Linear {
            x: Box::new(e1[t.probs]),
            weight: WeightRef::SoftEmbedding,
            m: d.b.batch,
            in_f: d.b.vocab,
            out_f: d.b.n_embd,
            w_off: 0,
        },
    );
    assert(step(e1, ops[1]) == e2) by {
        reveal(step);
    }
    let e3 = e2.insert(t.soft, times(e2[t.soft], Scalar::Sqrt(d.b.n_embd), d.b.batch, d.b.n_embd));
    assert(step(e2, ops[2]) == e3) by {
        reveal(step);
    }
    let e4 = e3.insert(t.normed, normed(e3[t.soft], w.pre_norm, d.b.batch, d.b.n_embd));
    assert(step(e3, ops[3]) == e4) by {
        reveal(step);
    }
    let e5 = e4.insert(t.left, projected(e4[t.normed], w.left, d.b.batch, d.b.n_embd, d.b.n_ff));
    assert(step(e4, ops[4]) == e5) by {
        reveal(step);
    }
    let e6 = e5.insert(t.right, projected(e5[t.normed], w.right, d.b.batch, d.b.n_embd, d.b.n_ff));
    assert(step(e5, ops[5]) == e6) by {
        reveal(step);
    }
    let e7 = e6.insert(
        t.act,
        activated(e6[t.left], e6[t.right], d.b.batch, d.b.n_ff, Activation::Gelu, Clamp::Off),
    );
    assert(step(e6, ops[6]) == e7) by {
        reveal(step);
    }
    let e8 = e7.insert(t.signal, projected(e7[t.act], w.down, d.b.batch, d.b.n_ff, d.b.n_embd));
    assert(step(e7, ops[7]) == e8) by {
        reveal(step);
    }
    let e9 = e8.insert(hidden, added(e8[hidden], e8[t.signal], d.b.batch, d.b.n_embd));
    assert(step(e8, ops[8]) == e9) by {
        reveal(step);
    }
    assert(after(e0, ops) == e9) by {
        reveal(after);
        reveal_with_fuel(after_first, 10);
    }
}

/// The rows that the head is applied to: the normed rows, or the last of them where only those are
/// wanted.
pub open spec fn head_rows(x: Frame, e: Values) -> Value {
    let b = x.d.b;
    let rows = if x.f.qwen4exp {
        e[x.s.core.hn]
    } else {
        normed(e[x.i.hidden], x.head.out_norm, b.batch, b.n_embd)
    };
    match x.s.last {
        Some(last) => Value::Copy {
            src: Box::new(rows),
            src_off: x.d.tail,
            onto: Box::new(e[last]),
            dst_off: 0,
            rows: b.logits_rows,
            n: b.n_embd,
        },
        None => rows,
    }
}

/// The logits of the head's rows, capped where the model does that.
pub open spec fn head_logits(x: Frame, e: Values) -> Value {
    let b = x.d.b;
    let raw = projected(head_rows(x, e), x.head.lm, b.logits_rows, b.n_embd, b.vocab);
    if x.f.softcap {
        Value::Softcap { x: Box::new(raw), rows: b.logits_rows, n: b.vocab }
    } else {
        raw
    }
}

/// The tensors of the head are apart.
pub open spec fn head_apart(x: Frame, r: Results, logits: TensorId) -> bool {
    let hn = x.s.core.hn;
    &&& x.i.hidden != hn
    &&& logits != hn
    &&& x.s.last matches Some(last) ==> last != hn && last != logits
    &&& r.rows matches Some(rows) ==> rows != hn && rows != logits && x.s.last != Some(rows)
    &&& r.token matches Some(token) ==> token != logits && token != hn && r.rows != Some(token)
        && r.uniform != Some(token)
    &&& r.uniform matches Some(u) ==> u != logits && u != hn && x.s.last != Some(u) && r.rows
        != Some(u)
}

/// The logits are those of the output weight on the normed rows, or on the last of them; the rows
/// that are handed out are those that the logits are made of; and the token is the likeliest by the
/// logits, or the one that the uniform draw picks from them.
#[verifier::rlimit(40)]
pub proof fn law_the_token_is_chosen_from_the_logits(
    env: Values,
    before: Seq<Op>,
    x: Frame,
    r: Results,
    logits: TensorId,
)
    requires
        head_apart(x, r, logits),
    ensures
        ({
            let e = after(env, before);
            let f = after(env, head_ops(before, x, r, logits));
            let b = x.d.b;
            &&& f[logits] == head_logits(x, e)
            &&& r.rows matches Some(dst) ==> f[dst] == replaced(
                head_rows(x, e),
                e[dst],
                b.logits_rows,
                b.n_embd,
            )
            &&& r.token matches Some(token) ==> f[token] == (match r.uniform {
                None => Value::Argmax {
                    x: Box::new(head_logits(x, e)),
                    n: b.vocab,
                    rows: b.logits_rows,
                },
                Some(u) => Value::Sample {
                    x: Box::new(head_logits(x, e)),
                    u: Box::new(e[u]),
                    n: b.vocab,
                    rows: b.logits_rows,
                    top_k: b.sample_top_k,
                },
            })
        }),
{
    let d = x.d;
    let c = x.s.core;
    let e = after(env, before);
    reveal(step);
    let t0 = if x.f.qwen4exp {
        before
    } else {
        before + norm_into(d, x.i.hidden, x.head.out_norm, c.hn)
    };
    lemma_then_one(env, before, norm_into(d, x.i.hidden, x.head.out_norm, c.hn));
    let t1 = match x.s.last {
        Some(last) => t0 + last_rows(d, c, last),
        None => t0,
    };
    if let Some(last) = x.s.last {
        lemma_then_one(env, t0, last_rows(d, c, last));
    }
    let rows = match x.s.last {
        Some(last) => last,
        None => c.hn,
    };
    assert(after(env, t1)[rows] == head_rows(x, e));
    let t2 = match r.rows {
        Some(dst) => t1 + tap_rows(d, rows, dst),
        None => t1,
    };
    if let Some(dst) = r.rows {
        lemma_then_one(env, t1, tap_rows(d, rows, dst));
    }
    let t3 = t2 + make_logits(d, rows, x.head.lm, logits);
    lemma_then_one(env, t2, make_logits(d, rows, x.head.lm, logits));
    let t4 = if x.f.softcap {
        t3 + cap_logits(d, logits)
    } else {
        t3
    };
    if x.f.softcap {
        lemma_then_one(env, t3, cap_logits(d, logits));
    }
    assert(after(env, t4)[logits] == head_logits(x, e));
    match (r.token, r.uniform) {
        (Some(token), None) => lemma_then_one(env, t4, take_largest(d, logits, token)),
        (Some(token), Some(u)) => lemma_then_one(env, t4, draw_token(d, logits, u, token)),
        _ => {},
    }
}

/// A canvas is normed without a weight before the first layer, behind its conditioning.
pub proof fn law_a_canvas_is_normed_behind_its_conditioning(env: Values, before: Seq<Op>, x: Frame)
    requires
        x.f.canvas is Some,
    ensures
        ({
            let b = x.d.b;
            let ones = x.head.router_ones->Some_0;
            let conditioned = before + condition_canvas(
                x.d,
                x.i.hidden,
                x.s.condition->Some_0,
                ConditionW {
                    pre_norm: x.head.sc_pre_norm->Some_0,
                    left: x.head.sc_gate->Some_0,
                    right: x.head.sc_up->Some_0,
                    down: x.head.sc_down->Some_0,
                },
                x.h.sc_logits->Some_0,
                x.h.temp_inv,
            );
            let rows = after(
                env,
                if x.f.canvas == Some(true) {
                    conditioned
                } else {
                    before
                },
            )[x.i.hidden];
            after(env, canvas_ops(before, x))[x.i.hidden] == normed(rows, ones, b.batch, b.n_embd)
        }),
{
    reveal(step);
    let g = if x.f.canvas->Some_0 {
        before + condition_canvas(
            x.d,
            x.i.hidden,
            x.s.condition->Some_0,
            ConditionW {
                pre_norm: x.head.sc_pre_norm->Some_0,
                left: x.head.sc_gate->Some_0,
                right: x.head.sc_up->Some_0,
                down: x.head.sc_down->Some_0,
            },
            x.h.sc_logits->Some_0,
            x.h.temp_inv,
        )
    } else {
        before
    };
    lemma_then_one(env, g, norm_in_place(x.d, x.i.hidden, x.head.router_ones->Some_0));
}

} // verus!
