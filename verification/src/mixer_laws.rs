//! What the mixers without a key and value cache of their own kind compute: linear attention with
//! its recurrent state, and latent attention.

use crate::graph_attention::latent_ops;
use crate::graph_block_laws::lemma_then_one;
use crate::graph_dims::GraphDims;
use crate::graph_inputs::RowIds;
use crate::graph_mixers::{
    delta_inputs, delta_norm_joined, delta_norm_split, delta_ops, delta_output, delta_parts,
    delta_rates, delta_rule, kda_ops, latent_attend, latent_gate, latent_key, latent_out,
    latent_query, latent_query_low, token_index, Attend, Caches,
};
use crate::graph_ops::{Activation, Clamp, Op, Scalar, Theta};
use crate::graph_scratch::{CoreScratch, DeltaScratch, LatentScratch, TokenIndexScratch};
use crate::graph_values::{
    activated, after, after_first, heads_normed, held, lemma_after_join, normed, placed, projected,
    step, stored, Part, Value, Values,
};
use crate::weight_handles::{DeltaW, IndexerW, KdaW, MlaW};
use crate::weight_plan::TensorId;
use vstd::prelude::*;

verus! {


/// Linear attention with forget rates: queries, keys and values are projected together and
/// convolved with the history; they update the state, with a forget projection and a beta
/// projection of the same rows; what comes out is normed by head, weighed by the activated
/// projection of the rows and projected back. History and state carry on.
pub proof fn law_gated_linear_attention_is_projected_and_convolved(
    env: Values,
    before: Seq<Op>,
    d: GraphDims,
    c: CoreScratch,
    t: DeltaScratch,
    w: KdaW,
    history: TensorId,
    state: TensorId,
)
    requires
        c.hn != history,
        c.hn != state,
        c.hn != t.beta,
        c.hn != t.conv,
        c.hn != t.forget,
        c.hn != t.out,
        c.hn != t.qkv,
        c.sub != history,
        c.sub != state,
        history != state,
        history != t.beta,
        history != t.conv,
        history != t.forget,
        history != t.out,
        history != t.qkv,
        history != t.z,
        state != t.beta,
        state != t.conv,
        state != t.forget,
        state != t.out,
        state != t.qkv,
        state != t.z,
        t.beta != t.conv,
        t.beta != t.forget,
        t.conv != t.forget,
        t.out != t.z,
    ensures
        ({
            let e = after(env, before);
            let f = after(env, before + kda_ops(d, c, t, w, history, state));
            let convolved = Value::Conv1dSilu {
                x: Box::new(projected(e[c.hn], w.qkv, d.b.batch, d.b.n_embd, d.kda_packed)),
                weight: w.conv,
                state: Box::new(e[history]),
                rows: d.b.batch,
                channels: d.kda_packed,
                kernel: d.b.d_conv,
                part: Part::Rows,
            };
            let mixed = Value::Kda {
                qkv: Box::new(convolved),
                forget: Box::new(projected(e[c.hn], w.forget, d.b.batch, d.b.n_embd, d.kda_dim)),
                beta: Box::new(projected(e[c.hn], w.beta, d.b.batch, d.b.n_embd, d.b.n_head)),
                a: w.a,
                dt_bias: w.dt_bias,
                state: Box::new(e[state]),
                rows: d.b.batch,
                n_head: d.b.n_head,
                head_dim: d.b.kda_head_dim,
                part: Part::Rows,
            };
            &&& f[history] == (Value::Conv1dSilu {
                x: Box::new(projected(e[c.hn], w.qkv, d.b.batch, d.b.n_embd, d.kda_packed)),
                weight: w.conv,
                state: Box::new(e[history]),
                rows: d.b.batch,
                channels: d.kda_packed,
                kernel: d.b.d_conv,
                part: Part::State,
            })
            &&& f[state] == (Value::Kda {
                qkv: Box::new(convolved),
                forget: Box::new(projected(e[c.hn], w.forget, d.b.batch, d.b.n_embd, d.kda_dim)),
                beta: Box::new(projected(e[c.hn], w.beta, d.b.batch, d.b.n_embd, d.b.n_head)),
                a: w.a,
                dt_bias: w.dt_bias,
                state: Box::new(e[state]),
                rows: d.b.batch,
                n_head: d.b.n_head,
                head_dim: d.b.kda_head_dim,
                part: Part::State,
            })
            &&& f[c.sub] == projected(
                activated(
                    projected(e[c.hn], w.gate, d.b.batch, d.b.n_embd, d.kda_dim),
                    heads_normed(mixed, Some(w.norm), d.b.batch, d.b.n_head, d.b.kda_head_dim),
                    d.b.batch,
                    d.kda_dim,
                    Activation::Sigmoid,
                    Clamp::Off,
                ),
                w.out,
                d.b.batch,
                d.kda_dim,
                d.b.n_embd,
            )
            &&& forall|t0: TensorId|
                t0 != t.qkv && t0 != history && t0 != t.conv && t0 != t.forget && t0 != t.beta
                    && t0 != state && t0 != t.out && t0 != t.z && t0 != c.sub
                    ==> #[trigger] f[t0] == e[t0]
        }),
{
    let ops = kda_ops(d, c, t, w, history, state);
    lemma_after_join(env, before, ops);
    let e0 = after(env, before);
    let e1 = e0.insert(t.qkv, projected(e0[c.hn], w.qkv, d.b.batch, d.b.n_embd, d.kda_packed));
    assert(step(e0, ops[0]) == e1) by {
        reveal(step);
    }
    let e2a = e1.insert(
        history,
        Value::Conv1dSilu {
            x: Box::new(e1[t.qkv]),
            weight: w.conv,
            state: Box::new(e1[history]),
            rows: d.b.batch,
            channels: d.kda_packed,
            kernel: d.b.d_conv,
            part: Part::State,
        },
    );
    let e2 = e2a.insert(
        t.conv,
        Value::Conv1dSilu {
            x: Box::new(e1[t.qkv]),
            weight: w.conv,
            state: Box::new(e1[history]),
            rows: d.b.batch,
            channels: d.kda_packed,
            kernel: d.b.d_conv,
            part: Part::Rows,
        },
    );
    assert(step(e1, ops[1]) == e2) by {
        reveal(step);
    }
    let e3 = e2.insert(t.forget, projected(e2[c.hn], w.forget, d.b.batch, d.b.n_embd, d.kda_dim));
    assert(step(e2, ops[2]) == e3) by {
        reveal(step);
    }
    let e4 = e3.insert(t.beta, projected(e3[c.hn], w.beta, d.b.batch, d.b.n_embd, d.b.n_head));
    assert(step(e3, ops[3]) == e4) by {
        reveal(step);
    }
    let e5a = e4.insert(
        state,
        Value::Kda {
            qkv: Box::new(e4[t.conv]),
            forget: Box::new(e4[t.forget]),
            beta: Box::new(e4[t.beta]),
            a: w.a,
            dt_bias: w.dt_bias,
            state: Box::new(e4[state]),
            rows: d.b.batch,
            n_head: d.b.n_head,
            head_dim: d.b.kda_head_dim,
            part: Part::State,
        },
    );
    let e5 = e5a.insert(
        t.out,
        Value::Kda {
            qkv: Box::new(e4[t.conv]),
            forget: Box::new(e4[t.forget]),
            beta: Box::new(e4[t.beta]),
            a: w.a,
            dt_bias: w.dt_bias,
            state: Box::new(e4[state]),
            rows: d.b.batch,
            n_head: d.b.n_head,
            head_dim: d.b.kda_head_dim,
            part: Part::Rows,
        },
    );
    assert(step(e4, ops[4]) == e5) by {
        reveal(step);
    }
    let e6 = e5.insert(t.z, projected(e5[c.hn], w.gate, d.b.batch, d.b.n_embd, d.kda_dim));
    assert(step(e5, ops[5]) == e6) by {
        reveal(step);
    }
    let e7 = e6.insert(
        t.out,
        heads_normed(e6[t.out], Some(w.norm), d.b.batch, d.b.n_head, d.b.kda_head_dim),
    );
    assert(step(e6, ops[6]) == e7) by {
        reveal(step);
    }
    let e8 = e7.insert(
        t.out,
        activated(e7[t.z], e7[t.out], d.b.batch, d.kda_dim, Activation::Sigmoid, Clamp::Off),
    );
    assert(step(e7, ops[7]) == e8) by {
        reveal(step);
    }
    let e9 = e8.insert(c.sub, projected(e8[t.out], w.out, d.b.batch, d.kda_dim, d.b.n_embd));
    assert(step(e8, ops[8]) == e9) by {
        reveal(step);
    }
    assert(after(e0, ops) == e9) by {
        reveal(after);
        reveal_with_fuel(after_first, 10);
    }
}

proof fn lemma_delta_inputs(
    env: Values,
    before: Seq<Op>,
    d: GraphDims,
    c: CoreScratch,
    t: DeltaScratch,
    w: DeltaW,
    history: TensorId,
)
    requires
        c.hn != t.qkv,
        history != t.conv,
        history != t.qkv,
        history != t.z,
        t.conv != t.z,
        t.qkv != t.z,
    ensures
        ({
            let e = after(env, before);
            let f = after(env, before + delta_inputs(d, c, t, w, history));
            &&& f[t.conv] == (Value::Conv1dSilu {
                x: Box::new(projected(e[c.hn], w.qkv, d.b.batch, d.b.n_embd, d.b.conv_channels)),
                weight: w.conv1d,
                state: Box::new(e[history]),
                rows: d.b.batch,
                channels: d.b.conv_channels,
                kernel: d.b.d_conv,
                part: Part::Rows,
            })
            &&& f[t.z] == projected(e[c.hn], w.gate, d.b.batch, d.b.n_embd, d.b.d_inner)
            &&& f[history] == (Value::Conv1dSilu {
                x: Box::new(projected(e[c.hn], w.qkv, d.b.batch, d.b.n_embd, d.b.conv_channels)),
                weight: w.conv1d,
                state: Box::new(e[history]),
                rows: d.b.batch,
                channels: d.b.conv_channels,
                kernel: d.b.d_conv,
                part: Part::State,
            })
            &&& forall|t0: TensorId|
                t0 != t.qkv && t0 != t.z && t0 != history && t0 != t.conv
                    ==> #[trigger] f[t0] == e[t0]
        }),
{
    let ops = delta_inputs(d, c, t, w, history);
    lemma_after_join(env, before, ops);
    let e0 = after(env, before);
    let e1 = e0.insert(t.qkv, projected(e0[c.hn], w.qkv, d.b.batch, d.b.n_embd, d.b.conv_channels));
    assert(step(e0, ops[0]) == e1) by {
        reveal(step);
    }
    let e2 = e1.insert(t.z, projected(e1[c.hn], w.gate, d.b.batch, d.b.n_embd, d.b.d_inner));
    assert(step(e1, ops[1]) == e2) by {
        reveal(step);
    }
    let e3a = e2.insert(
        history,
        Value::Conv1dSilu {
            x: Box::new(e2[t.qkv]),
            weight: w.conv1d,
            state: Box::new(e2[history]),
            rows: d.b.batch,
            channels: d.b.conv_channels,
            kernel: d.b.d_conv,
            part: Part::State,
        },
    );
    let e3 = e3a.insert(
        t.conv,
        Value::Conv1dSilu {
            x: Box::new(e2[t.qkv]),
            weight: w.conv1d,
            state: Box::new(e2[history]),
            rows: d.b.batch,
            channels: d.b.conv_channels,
            kernel: d.b.d_conv,
            part: Part::Rows,
        },
    );
    assert(step(e2, ops[2]) == e3) by {
        reveal(step);
    }
    assert(after(e0, ops) == e3) by {
        reveal(after);
        reveal_with_fuel(after_first, 4);
    }
}

proof fn lemma_delta_parts(
    env: Values,
    before: Seq<Op>,
    d: GraphDims,
    t: DeltaScratch,
)
    requires
        t.conv != t.k,
        t.conv != t.q,
        t.k != t.q,
        t.k != t.v,
        t.q != t.v,
    ensures
        ({
            let e = after(env, before);
            let f = after(env, before + delta_parts(d, t));
            &&& f[t.q] == placed(
                e[t.conv],
                0,
                d.b.conv_channels,
                e[t.q],
                0,
                d.key_dim,
                d.b.batch,
                d.key_dim,
            )
            &&& f[t.k] == placed(
                e[t.conv],
                d.key_dim,
                d.b.conv_channels,
                e[t.k],
                0,
                d.key_dim,
                d.b.batch,
                d.key_dim,
            )
            &&& f[t.v] == placed(
                e[t.conv],
                d.key_dim2,
                d.b.conv_channels,
                e[t.v],
                0,
                d.value_dim,
                d.b.batch,
                d.value_dim,
            )
            &&& forall|t0: TensorId|
                t0 != t.q && t0 != t.k && t0 != t.v ==> #[trigger] f[t0] == e[t0]
        }),
{
    let ops = delta_parts(d, t);
    lemma_after_join(env, before, ops);
    let e0 = after(env, before);
    let e1 = e0.insert(
        t.q,
        placed(e0[t.conv], 0, d.b.conv_channels, e0[t.q], 0, d.key_dim, d.b.batch, d.key_dim),
    );
    assert(step(e0, ops[0]) == e1) by {
        reveal(step);
    }
    let e2 = e1.insert(
        t.k,
        placed(
            e1[t.conv],
            d.key_dim,
            d.b.conv_channels,
            e1[t.k],
            0,
            d.key_dim,
            d.b.batch,
            d.key_dim,
        ),
    );
    assert(step(e1, ops[1]) == e2) by {
        reveal(step);
    }
    let e3 = e2.insert(
        t.v,
        placed(
            e2[t.conv],
            d.key_dim2,
            d.b.conv_channels,
            e2[t.v],
            0,
            d.value_dim,
            d.b.batch,
            d.value_dim,
        ),
    );
    assert(step(e2, ops[2]) == e3) by {
        reveal(step);
    }
    assert(after(e0, ops) == e3) by {
        reveal(after);
        reveal_with_fuel(after_first, 4);
    }
}

proof fn lemma_delta_rates(
    env: Values,
    before: Seq<Op>,
    d: GraphDims,
    c: CoreScratch,
    t: DeltaScratch,
    w: DeltaW,
)
    requires
        c.hn != t.beta,
        t.alpha != t.beta,
    ensures
        ({
            let e = after(env, before);
            let f = after(env, before + delta_rates(d, c, t, w));
            &&& f[t.beta] == projected(e[c.hn], w.beta, d.b.batch, d.b.n_embd, d.b.n_vhead)
            &&& f[t.alpha] == projected(e[c.hn], w.alpha, d.b.batch, d.b.n_embd, d.b.n_vhead)
            &&& forall|t0: TensorId| t0 != t.beta && t0 != t.alpha ==> #[trigger] f[t0] == e[t0]
        }),
{
    let ops = delta_rates(d, c, t, w);
    lemma_after_join(env, before, ops);
    let e0 = after(env, before);
    let e1 = e0.insert(t.beta, projected(e0[c.hn], w.beta, d.b.batch, d.b.n_embd, d.b.n_vhead));
    assert(step(e0, ops[0]) == e1) by {
        reveal(step);
    }
    let e2 = e1.insert(t.alpha, projected(e1[c.hn], w.alpha, d.b.batch, d.b.n_embd, d.b.n_vhead));
    assert(step(e1, ops[1]) == e2) by {
        reveal(step);
    }
    assert(after(e0, ops) == e2) by {
        reveal(after);
        reveal_with_fuel(after_first, 3);
    }
}

/// The tensors that the delta rule works on are apart.
pub open spec fn delta_apart(c: CoreScratch, t: DeltaScratch, history: TensorId, state: TensorId) -> bool {
    &&& c.hn != c.sub && c.hn != history && c.hn != state && c.hn != t.qkv && c.hn != t.z
        && c.hn != t.conv && c.hn != t.q && c.hn != t.k && c.hn != t.v && c.hn != t.beta
        && c.hn != t.alpha && c.hn != t.out
    &&& c.sub != history && c.sub != state && c.sub != t.qkv && c.sub != t.z && c.sub != t.conv
        && c.sub != t.q && c.sub != t.k && c.sub != t.v && c.sub != t.beta && c.sub != t.alpha
        && c.sub != t.out
    &&& history != state && history != t.qkv && history != t.z && history != t.conv
        && history != t.q && history != t.k && history != t.v && history != t.beta
        && history != t.alpha && history != t.out
    &&& state != t.qkv && state != t.z && state != t.conv && state != t.q && state != t.k
        && state != t.v && state != t.beta && state != t.alpha && state != t.out
    &&& t.qkv != t.z && t.qkv != t.conv && t.qkv != t.q && t.qkv != t.k && t.qkv != t.v
        && t.qkv != t.beta && t.qkv != t.alpha && t.qkv != t.out
    &&& t.z != t.conv && t.z != t.q && t.z != t.k && t.z != t.v && t.z != t.beta && t.z != t.alpha
        && t.z != t.out
    &&& t.conv != t.q && t.conv != t.k && t.conv != t.v && t.conv != t.beta && t.conv != t.alpha
        && t.conv != t.out
    &&& t.q != t.k && t.q != t.v && t.q != t.beta && t.q != t.alpha && t.q != t.out
    &&& t.k != t.v && t.k != t.beta && t.k != t.alpha && t.k != t.out
    &&& t.v != t.beta && t.v != t.alpha && t.v != t.out
    &&& t.beta != t.alpha && t.beta != t.out
    &&& t.alpha != t.out
}

/// The rows, convolved with the history, or the history that is left behind.
pub open spec fn delta_convolved(
    d: GraphDims,
    w: DeltaW,
    rows: Value,
    history: Value,
    part: Part,
) -> Value {
    Value::Conv1dSilu {
        x: Box::new(projected(rows, w.qkv, d.b.batch, d.b.n_embd, d.b.conv_channels)),
        weight: w.conv1d,
        state: Box::new(history),
        rows: d.b.batch,
        channels: d.b.conv_channels,
        kernel: d.b.d_conv,
        part,
    }
}

/// What the delta rule makes of the convolved queries, keys and values, or the state that it leaves
/// behind. They stand side by side in a row: `key_dim` of queries, as many of keys, and the values.
pub open spec fn delta_mixed(
    d: GraphDims,
    t: DeltaScratch,
    w: DeltaW,
    rows: Value,
    convolved: Value,
    state: Value,
    strided: bool,
    e: Values,
    part: Part,
) -> Value {
    let b = d.b.batch;
    let all = d.b.conv_channels;
    Value::DeltaNet {
        q: Box::new(
            if strided {
                convolved
            } else {
                placed(convolved, 0, all, e[t.q], 0, d.key_dim, b, d.key_dim)
            },
        ),
        k: Box::new(
            if strided {
                convolved
            } else {
                placed(convolved, d.key_dim, all, e[t.k], 0, d.key_dim, b, d.key_dim)
            },
        ),
        v: Box::new(
            if strided {
                convolved
            } else {
                placed(convolved, d.key_dim2, all, e[t.v], 0, d.value_dim, b, d.value_dim)
            },
        ),
        b: Box::new(projected(rows, w.beta, b, d.b.n_embd, d.b.n_vhead)),
        a: Box::new(projected(rows, w.alpha, b, d.b.n_embd, d.b.n_vhead)),
        a_coef: w.ssm_a,
        dt_bias: w.dt_bias,
        state: Box::new(state),
        rows: b,
        n_vhead: d.b.n_vhead,
        n_khead: d.b.n_khead,
        head_k: d.b.head_k,
        head_v: d.b.head_v,
        src_stride: 0,
        part,
    }
}

/// Linear attention by the delta rule: queries, keys and values are projected together, convolved
/// with the history and told apart; they update the state, with the rates that are projected from
/// the same rows; what comes out is normed by head, weighed by an activated projection of the rows
/// and projected back. History and state carry on, and nothing but scratch is written beside them.
#[verifier::rlimit(40)]
pub proof fn law_the_delta_rule_updates_its_state(
    env: Values,
    before: Seq<Op>,
    d: GraphDims,
    c: CoreScratch,
    t: DeltaScratch,
    w: DeltaW,
    history: TensorId,
    state: TensorId,
    strided: bool,
    joined: bool,
    act: Activation,
)
    requires
        delta_apart(c, t, history, state),
    ensures
        ({
            let e = after(env, before);
            let f = after(
                env,
                delta_ops(before, d, c, t, w, history, state, strided, joined, act),
            );
            let rows = e[c.hn];
            let convolved = delta_convolved(d, w, rows, e[history], Part::Rows);
            let gates = projected(rows, w.gate, d.b.batch, d.b.n_embd, d.b.d_inner);
            let mixed = delta_mixed(
                d,
                t,
                w,
                rows,
                convolved,
                e[state],
                strided,
                e,
                Part::Rows,
            );
            let weighed = if joined {
                Value::GatedRmsNorm {
                    x: Box::new(mixed),
                    weight: w.ssm_norm,
                    gate: Box::new(gates),
                    rows: d.b.batch,
                    n_head: d.b.n_vhead,
                    head_dim: d.b.head_v,
                }
            } else {
                activated(
                    gates,
                    heads_normed(mixed, Some(w.ssm_norm), d.b.batch, d.b.n_vhead, d.b.head_v),
                    d.b.batch,
                    d.value_dim,
                    act,
                    Clamp::Off,
                )
            };
            &&& f[c.sub] == projected(weighed, w.out, d.b.batch, d.b.d_inner, d.b.n_embd)
            &&& f[history] == delta_convolved(d, w, rows, e[history], Part::State)
            &&& f[state] == delta_mixed(
                d,
                t,
                w,
                rows,
                convolved,
                e[state],
                strided,
                e,
                Part::State,
            )
            &&& forall|t0: TensorId|
                t0 != t.qkv && t0 != t.z && t0 != t.conv && t0 != t.q && t0 != t.k && t0 != t.v && t0
                    != t.beta && t0 != t.alpha && t0 != t.out && t0 != c.sub && t0 != history && t0
                    != state ==> #[trigger] f[t0] == e[t0]
        }),
{
    let e = after(env, before);
    let g0 = before + delta_inputs(d, c, t, w, history);
    lemma_delta_inputs(env, before, d, c, t, w, history);
    let g1 = if strided {
        g0
    } else {
        g0 + delta_parts(d, t)
    };
    if !strided {
        lemma_delta_parts(env, g0, d, t);
    }
    let g2 = g1 + delta_rates(d, c, t, w);
    lemma_delta_rates(env, g1, d, c, t, w);
    let rule = if strided {
        delta_rule(d, t, w, state, t.conv, t.conv, t.conv)
    } else {
        delta_rule(d, t, w, state, t.q, t.k, t.v)
    };
    reveal(step);
    lemma_then_one(env, g2, rule);
    let g3 = g2 + rule;
    let m = after(env, g3);
    let convolved = delta_convolved(d, w, e[c.hn], e[history], Part::Rows);
    assert(m[t.out] == delta_mixed(
        d,
        t,
        w,
        e[c.hn],
        convolved,
        e[state],
        strided,
        e,
        Part::Rows,
    ));
    assert(m[state] == delta_mixed(
        d,
        t,
        w,
        e[c.hn],
        convolved,
        e[state],
        strided,
        e,
        Part::State,
    ));
    if joined {
        lemma_then_one(env, g3, delta_norm_joined(d, t, w));
        lemma_then_one(env, g3 + delta_norm_joined(d, t, w), delta_output(d, c, t, w));
    } else {
        lemma_delta_norm_split(env, g3, d, t, w, act);
        lemma_then_one(env, g3 + delta_norm_split(d, t, w, act), delta_output(d, c, t, w));
    }
}

proof fn lemma_delta_norm_split(
    env: Values,
    before: Seq<Op>,
    d: GraphDims,
    t: DeltaScratch,
    w: DeltaW,
    act: Activation,
)
    requires
        t.out != t.z,
    ensures
        ({
            let e = after(env, before);
            let f = after(env, before + delta_norm_split(d, t, w, act));
            &&& f[t.out] == activated(
                e[t.z],
                heads_normed(e[t.out], Some(w.ssm_norm), d.b.batch, d.b.n_vhead, d.b.head_v),
                d.b.batch,
                d.value_dim,
                act,
                Clamp::Off,
            )
            &&& forall|t0: TensorId| t0 != t.out ==> #[trigger] f[t0] == e[t0]
        }),
{
    let ops = delta_norm_split(d, t, w, act);
    lemma_after_join(env, before, ops);
    let e0 = after(env, before);
    let e1 = e0.insert(
        t.out,
        heads_normed(e0[t.out], Some(w.ssm_norm), d.b.batch, d.b.n_vhead, d.b.head_v),
    );
    assert(step(e0, ops[0]) == e1) by {
        reveal(step);
    }
    let e2 = e1.insert(
        t.out,
        activated(e1[t.z], e1[t.out], d.b.batch, d.value_dim, act, Clamp::Off),
    );
    assert(step(e1, ops[1]) == e2) by {
        reveal(step);
    }
    assert(after(e0, ops) == e2) by {
        reveal(after);
        reveal_with_fuel(after_first, 3);
    }
}

proof fn lemma_latent_query_low(
    env: Values,
    before: Seq<Op>,
    d: GraphDims,
    c: CoreScratch,
    s: LatentScratch,
    wq_a: usize,
    q_a_norm: usize,
    wq_b: usize,
)
    requires
        c.attn != s.q,
    ensures
        ({
            let e = after(env, before);
            let f = after(env, before + latent_query_low(d, c, s, wq_a, q_a_norm, wq_b));
            &&& f[c.attn] == normed(
                projected(e[c.hn], wq_a, d.b.batch, d.b.n_embd, d.b.q_lora_rank),
                q_a_norm,
                d.b.batch,
                d.b.q_lora_rank,
            )
            &&& f[s.q] == projected(
                normed(
                    projected(e[c.hn], wq_a, d.b.batch, d.b.n_embd, d.b.q_lora_rank),
                    q_a_norm,
                    d.b.batch,
                    d.b.q_lora_rank,
                ),
                wq_b,
                d.b.batch,
                d.b.q_lora_rank,
                d.latent_query_row,
            )
            &&& forall|t0: TensorId| t0 != c.attn && t0 != s.q ==> #[trigger] f[t0] == e[t0]
        }),
{
    let ops = latent_query_low(d, c, s, wq_a, q_a_norm, wq_b);
    lemma_after_join(env, before, ops);
    let e0 = after(env, before);
    let e1 = e0.insert(c.attn, projected(e0[c.hn], wq_a, d.b.batch, d.b.n_embd, d.b.q_lora_rank));
    assert(step(e0, ops[0]) == e1) by {
        reveal(step);
    }
    let e2 = e1.insert(c.attn, normed(e1[c.attn], q_a_norm, d.b.batch, d.b.q_lora_rank));
    assert(step(e1, ops[1]) == e2) by {
        reveal(step);
    }
    let e3 = e2.insert(
        s.q,
        projected(e2[c.attn], wq_b, d.b.batch, d.b.q_lora_rank, d.latent_query_row),
    );
    assert(step(e2, ops[2]) == e3) by {
        reveal(step);
    }
    assert(after(e0, ops) == e3) by {
        reveal(after);
        reveal_with_fuel(after_first, 4);
    }
}

/// A token index rotates a normed key and a query of each row, caches the keys, and masks every key
/// but those that score highest for the row, by weights projected from the row itself.
pub proof fn law_a_token_index_masks_all_but_the_top_keys(
    env: Values,
    before: Seq<Op>,
    d: GraphDims,
    c: CoreScratch,
    i: RowIds,
    t: TokenIndexScratch,
    w: IndexerW,
    cache: TensorId,
    theta: Theta,
    freq_factors: Option<TensorId>,
)
    requires
        c.attn != cache,
        c.attn != t.k,
        c.hn != cache,
        c.hn != t.k,
        c.hn != t.q,
        cache != i.positions,
        cache != t.k,
        cache != t.mask,
        cache != t.q,
        cache != t.top,
        cache != t.weights,
        i.positions != t.k,
        i.positions != t.q,
        t.q != t.weights,
        freq_factors != Some(cache),
        freq_factors != Some(t.k),
        freq_factors != Some(t.q),
    ensures
        ({
            let e = after(env, before);
            let f = after(env, before + token_index(d, c, i, t, w, cache, theta, freq_factors));
            let keys = stored(
                Value::Rope {
                    x: Box::new(
                        Value::LayerNorm {
                            x: Box::new(
                                projected(
                                    e[c.hn],
                                    w.attn_k,
                                    d.b.batch,
                                    d.b.n_embd,
                                    d.b.indexer_head_size,
                                ),
                            ),
                            weight: w.k_norm,
                            bias: w.k_norm_b,
                            rows: d.b.batch,
                            dim: d.b.indexer_head_size,
                        },
                    ),
                    positions: Box::new(e[i.positions]),
                    rows: d.b.batch,
                    n_head: 1,
                    head_dim: d.b.indexer_head_size,
                    rope_dim: d.b.qk_rope_dim,
                    theta,
                    freq_factors: held(e, freq_factors),
                    x_stride: 0,
                    neox: true,
                    backward: false,
                },
                e[cache],
                d.b.batch,
                d.b.indexer_head_size,
                d.b.start_pos,
            );
            &&& f[cache] == keys
            &&& f[t.mask] == (Value::TopkMask {
                idx: Box::new(
                    Value::LightningIndexer {
                        q: Box::new(
                            Value::Rope {
                                x: Box::new(
                                    projected(
                                        e[c.attn],
                                        w.attn_q_b,
                                        d.b.batch,
                                        d.b.q_lora_rank,
                                        d.index_row,
                                    ),
                                ),
                                positions: Box::new(e[i.positions]),
                                rows: d.b.batch,
                                n_head: d.b.indexer_n_head,
                                head_dim: d.b.indexer_head_size,
                                rope_dim: d.b.qk_rope_dim,
                                theta,
                                freq_factors: held(e, freq_factors),
                                x_stride: 0,
                                neox: true,
                                backward: false,
                            },
                        ),
                        k_cache: Box::new(keys),
                        weights: Box::new(
                            projected(e[c.hn], w.proj, d.b.batch, d.b.n_embd, d.b.indexer_n_head),
                        ),
                        rows: d.b.batch,
                        kv_len: d.visible,
                        n_head: d.b.indexer_n_head,
                        head_dim: d.b.indexer_head_size,
                        top_k: d.index_top_k,
                        scale: Scalar::InvSqrt(d.index_row),
                        pos: d.b.start_pos,
                    },
                ),
                rows: d.b.batch,
                kv_len: d.visible,
                top_k: d.index_top_k,
            })
            &&& forall|t0: TensorId|
                t0 != t.k && t0 != cache && t0 != t.q && t0 != t.weights && t0 != t.top
                    && t0 != t.mask ==> #[trigger] f[t0] == e[t0]
        }),
{
    let ops = token_index(d, c, i, t, w, cache, theta, freq_factors);
    lemma_after_join(env, before, ops);
    let e0 = after(env, before);
    let e1 = e0.insert(
        t.k,
        projected(e0[c.hn], w.attn_k, d.b.batch, d.b.n_embd, d.b.indexer_head_size),
    );
    assert(step(e0, ops[0]) == e1) by {
        reveal(step);
    }
    let e2 = e1.insert(
        t.k,
        Value::LayerNorm {
            x: Box::new(e1[t.k]),
            weight: w.k_norm,
            bias: w.k_norm_b,
            rows: d.b.batch,
            dim: d.b.indexer_head_size,
        },
    );
    assert(step(e1, ops[1]) == e2) by {
        reveal(step);
    }
    let e3 = e2.insert(
        t.k,
        Value::Rope {
            x: Box::new(e2[t.k]),
            positions: Box::new(e2[i.positions]),
            rows: d.b.batch,
            n_head: 1,
            head_dim: d.b.indexer_head_size,
            rope_dim: d.b.qk_rope_dim,
            theta,
            freq_factors: held(e2, freq_factors),
            x_stride: 0,
            neox: true,
            backward: false,
        },
    );
    assert(step(e2, ops[2]) == e3) by {
        reveal(step);
    }
    let e4 = e3.insert(
        cache,
        stored(e3[t.k], e3[cache], d.b.batch, d.b.indexer_head_size, d.b.start_pos),
    );
    assert(step(e3, ops[3]) == e4) by {
        reveal(step);
    }
    let e5 = e4.insert(
        t.q,
        projected(e4[c.attn], w.attn_q_b, d.b.batch, d.b.q_lora_rank, d.index_row),
    );
    assert(step(e4, ops[4]) == e5) by {
        reveal(step);
    }
    let e6 = e5.insert(
        t.q,
        Value::Rope {
            x: Box::new(e5[t.q]),
            positions: Box::new(e5[i.positions]),
            rows: d.b.batch,
            n_head: d.b.indexer_n_head,
            head_dim: d.b.indexer_head_size,
            rope_dim: d.b.qk_rope_dim,
            theta,
            freq_factors: held(e5, freq_factors),
            x_stride: 0,
            neox: true,
            backward: false,
        },
    );
    assert(step(e5, ops[5]) == e6) by {
        reveal(step);
    }
    let e7 = e6.insert(
        t.weights,
        projected(e6[c.hn], w.proj, d.b.batch, d.b.n_embd, d.b.indexer_n_head),
    );
    assert(step(e6, ops[6]) == e7) by {
        reveal(step);
    }
    let e8 = e7.insert(
        t.top,
        Value::LightningIndexer {
            q: Box::new(e7[t.q]),
            k_cache: Box::new(e7[cache]),
            weights: Box::new(e7[t.weights]),
            rows: d.b.batch,
            kv_len: d.visible,
            n_head: d.b.indexer_n_head,
            head_dim: d.b.indexer_head_size,
            top_k: d.index_top_k,
            scale: Scalar::InvSqrt(d.index_row),
            pos: d.b.start_pos,
        },
    );
    assert(step(e7, ops[7]) == e8) by {
        reveal(step);
    }
    let e9 = e8.insert(
        t.mask,
        Value::TopkMask {
            idx: Box::new(e8[t.top]),
            rows: d.b.batch,
            kv_len: d.visible,
            top_k: d.index_top_k,
        },
    );
    assert(step(e8, ops[8]) == e9) by {
        reveal(step);
    }
    assert(after(e0, ops) == e9) by {
        reveal(after);
        reveal_with_fuel(after_first, 10);
    }
}

/// The latent key of a row is one projection: its first part is normed, its last part is rotated by
/// the row's position, and both stand side by side in the row that the cache holds.
pub proof fn law_a_latent_key_is_normed_and_rotated_in_parts(
    env: Values,
    before: Seq<Op>,
    d: GraphDims,
    c: CoreScratch,
    i: RowIds,
    s: LatentScratch,
    w: MlaW,
    cache: TensorId,
    theta: Theta,
    freq_factors: Option<TensorId>,
)
    requires
        cache != s.cmpr,
        cache != s.key,
        cache != s.rope,
        i.positions != s.cmpr,
        i.positions != s.key,
        i.positions != s.rope,
        s.cmpr != s.key,
        s.cmpr != s.rope,
        s.key != s.rope,
        freq_factors != Some(s.cmpr),
        freq_factors != Some(s.key),
        freq_factors != Some(s.rope),
    ensures
        ({
            let e = after(env, before);
            let f = after(env, before + latent_key(d, c, i, s, w, cache, theta, freq_factors));
            let whole = projected(e[c.hn], w.wkv_a_mqa, d.b.batch, d.b.n_embd, d.latent_key);
            let with_normed = placed(
                normed(
                    placed(
                        whole,
                        0,
                        d.latent_key,
                        e[s.cmpr],
                        0,
                        d.b.kv_lora_rank,
                        d.b.batch,
                        d.b.kv_lora_rank,
                    ),
                    w.kv_a_norm,
                    d.b.batch,
                    d.b.kv_lora_rank,
                ),
                0,
                d.b.kv_lora_rank,
                whole,
                0,
                d.latent_key,
                d.b.batch,
                d.b.kv_lora_rank,
            );
            let turned = Value::Rope {
                x: Box::new(
                    placed(
                        with_normed,
                        d.b.kv_lora_rank,
                        d.latent_key,
                        e[s.rope],
                        0,
                        d.b.qk_rope_dim,
                        d.b.batch,
                        d.b.qk_rope_dim,
                    ),
                ),
                positions: Box::new(e[i.positions]),
                rows: d.b.batch,
                n_head: 1,
                head_dim: d.b.qk_rope_dim,
                rope_dim: d.b.qk_rope_dim,
                theta,
                freq_factors: held(e, freq_factors),
                x_stride: 0,
                neox: false,
                backward: false,
            };
            &&& f[cache] == stored(
                placed(
                    turned,
                    0,
                    d.b.qk_rope_dim,
                    with_normed,
                    d.b.kv_lora_rank,
                    d.latent_key,
                    d.b.batch,
                    d.b.qk_rope_dim,
                ),
                e[cache],
                d.b.batch,
                d.latent_key,
                d.b.start_pos,
            )
            &&& forall|t0: TensorId|
                t0 != s.key && t0 != s.cmpr && t0 != s.rope && t0 != cache
                    ==> #[trigger] f[t0] == e[t0]
        }),
{
    let ops = latent_key(d, c, i, s, w, cache, theta, freq_factors);
    lemma_after_join(env, before, ops);
    let e0 = after(env, before);
    let e1 = e0.insert(
        s.key,
        projected(e0[c.hn], w.wkv_a_mqa, d.b.batch, d.b.n_embd, d.latent_key),
    );
    assert(step(e0, ops[0]) == e1) by {
        reveal(step);
    }
    let e2 = e1.insert(
        s.cmpr,
        placed(
            e1[s.key],
            0,
            d.latent_key,
            e1[s.cmpr],
            0,
            d.b.kv_lora_rank,
            d.b.batch,
            d.b.kv_lora_rank,
        ),
    );
    assert(step(e1, ops[1]) == e2) by {
        reveal(step);
    }
    let e3 = e2.insert(s.cmpr, normed(e2[s.cmpr], w.kv_a_norm, d.b.batch, d.b.kv_lora_rank));
    assert(step(e2, ops[2]) == e3) by {
        reveal(step);
    }
    let e4 = e3.insert(
        s.key,
        placed(
            e3[s.cmpr],
            0,
            d.b.kv_lora_rank,
            e3[s.key],
            0,
            d.latent_key,
            d.b.batch,
            d.b.kv_lora_rank,
        ),
    );
    assert(step(e3, ops[3]) == e4) by {
        reveal(step);
    }
    let e5 = e4.insert(
        s.rope,
        placed(
            e4[s.key],
            d.b.kv_lora_rank,
            d.latent_key,
            e4[s.rope],
            0,
            d.b.qk_rope_dim,
            d.b.batch,
            d.b.qk_rope_dim,
        ),
    );
    assert(step(e4, ops[4]) == e5) by {
        reveal(step);
    }
    let e6 = e5.insert(
        s.rope,
        Value::Rope {
            x: Box::new(e5[s.rope]),
            positions: Box::new(e5[i.positions]),
            rows: d.b.batch,
            n_head: 1,
            head_dim: d.b.qk_rope_dim,
            rope_dim: d.b.qk_rope_dim,
            theta,
            freq_factors: held(e5, freq_factors),
            x_stride: 0,
            neox: false,
            backward: false,
        },
    );
    assert(step(e5, ops[5]) == e6) by {
        reveal(step);
    }
    let e7 = e6.insert(
        s.key,
        placed(
            e6[s.rope],
            0,
            d.b.qk_rope_dim,
            e6[s.key],
            d.b.kv_lora_rank,
            d.latent_key,
            d.b.batch,
            d.b.qk_rope_dim,
        ),
    );
    assert(step(e6, ops[6]) == e7) by {
        reveal(step);
    }
    let e8 = e7.insert(cache, stored(e7[s.key], e7[cache], d.b.batch, d.latent_key, d.b.start_pos));
    assert(step(e7, ops[7]) == e8) by {
        reveal(step);
    }
    assert(after(e0, ops) == e8) by {
        reveal(after);
        reveal_with_fuel(after_first, 9);
    }
}

/// The tensors that latent attention works on are apart.
pub open spec fn latent_apart(
    c: CoreScratch,
    s: LatentScratch,
    t: DeltaScratch,
    x: Option<TokenIndexScratch>,
    i: RowIds,
    caches: Caches,
    yarn: Option<TensorId>,
) -> bool {
    &&& c.hn != c.attn && c.hn != c.sub && c.hn != s.q && c.hn != s.key && c.hn != s.cmpr
        && c.hn != s.rope && c.hn != caches.k && c.hn != caches.v && c.hn != t.head_gate
        && c.hn != i.positions
    &&& c.attn != c.sub && c.attn != s.q && c.attn != s.key && c.attn != s.cmpr
        && c.attn != s.rope && c.attn != caches.k && c.attn != caches.v && c.attn != t.head_gate
        && c.attn != i.positions
    &&& c.sub != s.q && c.sub != s.key && c.sub != s.cmpr && c.sub != s.rope && c.sub != caches.k
        && c.sub != caches.v && c.sub != t.head_gate && c.sub != i.positions
    &&& s.q != s.key && s.q != s.cmpr && s.q != s.rope && s.q != caches.k && s.q != caches.v
        && s.q != t.head_gate && s.q != i.positions
    &&& s.key != s.cmpr && s.key != s.rope && s.key != caches.k && s.key != caches.v
        && s.key != t.head_gate && s.key != i.positions
    &&& s.cmpr != s.rope && s.cmpr != caches.k && s.cmpr != caches.v && s.cmpr != t.head_gate
        && s.cmpr != i.positions
    &&& s.rope != caches.k && s.rope != caches.v && s.rope != t.head_gate && s.rope != i.positions
    &&& caches.k != caches.v && caches.k != t.head_gate && caches.k != i.positions
    &&& caches.v != t.head_gate && caches.v != i.positions
    &&& t.head_gate != i.positions
    &&& x matches Some(x) ==> x.q != c.hn && x.q != c.attn && x.q != c.sub && x.q != s.q
        && x.q != s.key && x.q != s.cmpr && x.q != s.rope && x.q != caches.k
        && x.q != caches.v && x.q != t.head_gate && x.q != i.positions
    &&& x matches Some(x) ==> x.k != c.hn && x.k != c.attn && x.k != c.sub && x.k != s.q
        && x.k != s.key && x.k != s.cmpr && x.k != s.rope && x.k != caches.k
        && x.k != caches.v && x.k != t.head_gate && x.k != i.positions
    &&& x matches Some(x) ==> x.weights != c.hn && x.weights != c.attn && x.weights != c.sub && x.weights != s.q
        && x.weights != s.key && x.weights != s.cmpr && x.weights != s.rope && x.weights != caches.k
        && x.weights != caches.v && x.weights != t.head_gate && x.weights != i.positions
    &&& x matches Some(x) ==> x.top != c.hn && x.top != c.attn && x.top != c.sub && x.top != s.q
        && x.top != s.key && x.top != s.cmpr && x.top != s.rope && x.top != caches.k
        && x.top != caches.v && x.top != t.head_gate && x.top != i.positions
    &&& x matches Some(x) ==> x.mask != c.hn && x.mask != c.attn && x.mask != c.sub && x.mask != s.q
        && x.mask != s.key && x.mask != s.cmpr && x.mask != s.rope && x.mask != caches.k
        && x.mask != caches.v && x.mask != t.head_gate && x.mask != i.positions
    &&& x matches Some(x) ==> x.q != x.k && x.q != x.weights && x.q != x.top && x.q != x.mask
    &&& x matches Some(x) ==> x.k != x.weights && x.k != x.top && x.k != x.mask
    &&& x matches Some(x) ==> x.weights != x.top && x.weights != x.mask
    &&& x matches Some(x) ==> x.top != x.mask
    &&& yarn != Some(c.hn)
    &&& yarn != Some(c.attn)
    &&& yarn != Some(c.sub)
    &&& yarn != Some(s.q)
    &&& yarn != Some(s.key)
    &&& yarn != Some(s.cmpr)
    &&& yarn != Some(s.rope)
    &&& yarn != Some(caches.k)
    &&& yarn != Some(caches.v)
    &&& yarn != Some(t.head_gate)
    &&& x matches Some(x) ==> yarn != Some(x.q)
    &&& x matches Some(x) ==> yarn != Some(x.k)
    &&& x matches Some(x) ==> yarn != Some(x.weights)
    &&& x matches Some(x) ==> yarn != Some(x.top)
    &&& x matches Some(x) ==> yarn != Some(x.mask)
}

/// The latent queries: projected from the rows, by way of a normed low-rank row where the layer has
/// weights for one.
pub open spec fn latent_queries(d: GraphDims, w: MlaW, rows: Value) -> Value {
    let b = d.b;
    match (w.wq_a, w.q_a_norm) {
        (Some(wq_a), Some(q_a_norm)) => projected(
            normed(
                projected(rows, wq_a, b.batch, b.n_embd, b.q_lora_rank),
                q_a_norm,
                b.batch,
                b.q_lora_rank,
            ),
            w.wq_b,
            b.batch,
            b.q_lora_rank,
            d.latent_query_row,
        ),
        _ => projected(rows, w.wq_b, b.batch, b.n_embd, d.latent_query_row),
    }
}

/// Latent attention: the queries of the rows attend to every visible latent key of the layer's
/// cache, the rows' own among them, as far as a token index leaves them unmasked; what comes out is
/// weighed by head where the layer has a weight for that, and projected back.
#[verifier::rlimit(40)]
pub proof fn law_latent_attention_reads_what_the_layer_cached(
    env: Values,
    before: Seq<Op>,
    d: GraphDims,
    c: CoreScratch,
    s: LatentScratch,
    t: DeltaScratch,
    x: Option<TokenIndexScratch>,
    i: RowIds,
    w: MlaW,
    caches: Caches,
    a: Attend,
    yarn: Option<TensorId>,
)
    requires
        latent_apart(c, s, t, x, i, caches, yarn),
    ensures
        ({
            let e = after(env, before);
            let f = after(env, latent_ops(before, d, c, s, t, x, i, w, caches, a, yarn));
            let rows = e[c.hn];
            let b = d.b;
            let masked = match (w.indexer, x) {
                (Some(_), Some(x)) => Some(Box::new(f[x.mask])),
                _ => None,
            };
            let attended = Value::Mla {
                q: Box::new(latent_queries(d, w, rows)),
                k_cache: Box::new(f[caches.k]),
                wk_b: w.wk_b,
                wv_b: w.wv_b,
                rows: b.batch,
                kv_len: d.visible,
                n_head: b.n_head,
                q_head_dim: d.latent_head,
                kv_lora_rank: b.kv_lora_rank,
                qk_nope_dim: b.head_k_mla,
                qk_rope_dim: b.qk_rope_dim,
                v_head_dim: b.v_head_dim,
                scale: Scalar::Latent(d.latent_head),
                mask: a.mask,
                pos: b.start_pos,
                theta: a.theta,
                freq_factors: held(e, yarn),
                key_bias: masked,
            };
            let weighed = match w.gate {
                Some(weight) => Value::HeadwiseSigmoidMul {
                    x: Box::new(attended),
                    gate: Box::new(projected(rows, weight, b.batch, b.n_embd, b.n_head)),
                    rows: b.batch,
                    n_head: b.n_head,
                    head_dim: b.v_head_dim,
                },
                None => attended,
            };
            &&& f[c.sub] == projected(weighed, w.wo, b.batch, d.latent_out, b.n_embd)
            &&& f[caches.k] == after(
                env,
                before + latent_key(d, c, i, s, w, caches.k, a.theta, yarn),
            )[caches.k]
        }),
{
    let e = after(env, before);
    let g0 = match (w.wq_a, w.q_a_norm) {
        (Some(wq_a), Some(q_a_norm)) => before + latent_query_low(
            d,
            c,
            s,
            wq_a,
            q_a_norm,
            w.wq_b,
        ),
        _ => before + latent_query(d, c, s, w.wq_b),
    };
    match (w.wq_a, w.q_a_norm) {
        (Some(wq_a), Some(q_a_norm)) => {
            lemma_latent_query_low(env, before, d, c, s, wq_a, q_a_norm, w.wq_b);
        },
        _ => {
            reveal(step);
            lemma_then_one(env, before, latent_query(d, c, s, w.wq_b));
        },
    }
    let e0 = after(env, g0);
    assert(e0[s.q] == latent_queries(d, w, e[c.hn]));
    let g1 = match (w.indexer, x) {
        (Some(indexer), Some(x)) => g0 + token_index(
            d,
            c,
            i,
            x,
            indexer,
            caches.v,
            a.theta,
            yarn,
        ),
        _ => g0,
    };
    match (w.indexer, x) {
        (Some(indexer), Some(x)) => {
            law_a_token_index_masks_all_but_the_top_keys(
                env,
                g0,
                d,
                c,
                i,
                x,
                indexer,
                caches.v,
                a.theta,
                yarn,
            );
        },
        _ => {},
    }
    let e1 = after(env, g1);
    assert(e1[c.hn] == e[c.hn]);
    assert(e1[s.q] == e0[s.q]);
    assert(e1[caches.k] == e[caches.k]);
    assert(e1[s.cmpr] == e[s.cmpr]);
    assert(e1[s.rope] == e[s.rope]);
    assert(e1[i.positions] == e[i.positions]);
    assert(held(e1, yarn) == held(e, yarn));
    let g2 = g1 + latent_key(d, c, i, s, w, caches.k, a.theta, yarn);
    law_a_latent_key_is_normed_and_rotated_in_parts(
        env,
        g1,
        d,
        c,
        i,
        s,
        w,
        caches.k,
        a.theta,
        yarn,
    );
    law_a_latent_key_is_normed_and_rotated_in_parts(
        env,
        before,
        d,
        c,
        i,
        s,
        w,
        caches.k,
        a.theta,
        yarn,
    );
    let e2 = after(env, g2);
    assert(held(e2, yarn) == held(e, yarn));
    let mask = match (w.indexer, x) {
        (Some(_), Some(x)) => Some(x.mask),
        _ => None,
    };
    reveal(step);
    let seen = latent_attend(d, c, s, w, caches.k, a.mask, a.theta, yarn, mask);
    lemma_then_one(env, g2, seen);
    let g3 = g2 + seen;
    if let Some(weight) = w.gate {
        lemma_latent_gate(env, g3, d, c, t, weight);
        lemma_then_one(env, g3 + latent_gate(d, c, t, weight), latent_out(d, c, w));
    } else {
        lemma_then_one(env, g3, latent_out(d, c, w));
    }
}

proof fn lemma_latent_gate(
    env: Values,
    before: Seq<Op>,
    d: GraphDims,
    c: CoreScratch,
    t: DeltaScratch,
    weight: usize,
)
    requires
        c.attn != t.head_gate,
    ensures
        ({
            let e = after(env, before);
            let f = after(env, before + latent_gate(d, c, t, weight));
            &&& f[c.attn] == (Value::HeadwiseSigmoidMul {
                x: Box::new(e[c.attn]),
                gate: Box::new(projected(e[c.hn], weight, d.b.batch, d.b.n_embd, d.b.n_head)),
                rows: d.b.batch,
                n_head: d.b.n_head,
                head_dim: d.b.v_head_dim,
            })
            &&& forall|t0: TensorId| t0 != t.head_gate && t0 != c.attn ==> #[trigger] f[t0] == e[t0]
        }),
{
    let ops = latent_gate(d, c, t, weight);
    lemma_after_join(env, before, ops);
    let e0 = after(env, before);
    let e1 = e0.insert(t.head_gate, projected(e0[c.hn], weight, d.b.batch, d.b.n_embd, d.b.n_head));
    assert(step(e0, ops[0]) == e1) by {
        reveal(step);
    }
    let e2 = e1.insert(
        c.attn,
        Value::HeadwiseSigmoidMul {
            x: Box::new(e1[c.attn]),
            gate: Box::new(e1[t.head_gate]),
            rows: d.b.batch,
            n_head: d.b.n_head,
            head_dim: d.b.v_head_dim,
        },
    );
    assert(step(e1, ops[1]) == e2) by {
        reveal(step);
    }
    assert(after(e0, ops) == e2) by {
        reveal(after);
        reveal_with_fuel(after_first, 3);
    }
}

} // verus!
