//! What a layer's attention computes: which rows become queries, keys and values, what is cached,
//! and what attends to it.

use crate::attention_plan::SparseStep;
use crate::graph_attention::{
    attention_ops, index_heads, index_ops, key_heads, key_ops, project_ops, query_heads, query_ops,
    selected_ops, turn_normed, turn_plain, LayerPlan, SparseLayer,
};
use crate::graph_block_laws::lemma_then_one;
use crate::graph_dims::{GraphDims, LayerWidths};
use crate::graph_inputs::RowIds;
use crate::graph_mixers::{
    attend, attend_blocks, attention_out, biased, cache_rows, cast_heads, choose_blocks,
    gate_heads, gather_blocks, gated_query, head_norm, joined_row, joined_rows, norm_heads,
    norm_rotate, norm_rotate4, plain_key, plain_query, plain_value, rotate, sparse_keys,
    value_from_key, Caches, Heads,
};
use crate::graph_ops::{Activation, Clamp, Op, Scalar};
use crate::graph_scratch::CoreScratch;
use crate::graph_values::{
    after, after_first, heads_normed, held, lemma_after_join, normed_if, placed, projected,
    projected_from, replaced, shifted_if, step, stored, Part, Value, Values,
};
use crate::weight_handles::AttnW;
use crate::weight_plan::TensorId;
use vstd::prelude::*;

verus! {

/// No two scratch tensors that every layer works in are the same.
pub open spec fn core_apart(c: CoreScratch) -> bool {
    &&& c.hn != c.q && c.hn != c.k && c.hn != c.v && c.hn != c.q_half && c.hn != c.k_half
        && c.hn != c.attn && c.hn != c.act && c.hn != c.sub && c.hn != c.gated && c.hn != c.picked
        && c.hn != c.projected
    &&& c.q != c.k && c.q != c.v && c.q != c.q_half && c.q != c.k_half && c.q != c.attn
        && c.q != c.act && c.q != c.sub && c.q != c.gated && c.q != c.picked && c.q != c.projected
    &&& c.k != c.v && c.k != c.q_half && c.k != c.k_half && c.k != c.attn && c.k != c.act
        && c.k != c.sub && c.k != c.gated && c.k != c.picked && c.k != c.projected
    &&& c.v != c.q_half && c.v != c.k_half && c.v != c.attn && c.v != c.act && c.v != c.sub
        && c.v != c.gated && c.v != c.picked && c.v != c.projected
    &&& c.q_half != c.k_half && c.q_half != c.attn && c.q_half != c.act && c.q_half != c.sub
        && c.q_half != c.gated && c.q_half != c.picked && c.q_half != c.projected
    &&& c.k_half != c.attn && c.k_half != c.act && c.k_half != c.sub && c.k_half != c.gated
        && c.k_half != c.picked && c.k_half != c.projected
    &&& c.attn != c.act && c.attn != c.sub && c.attn != c.gated && c.attn != c.picked
        && c.attn != c.projected
    &&& c.act != c.sub && c.act != c.gated && c.act != c.picked && c.act != c.projected
    &&& c.sub != c.gated && c.sub != c.picked && c.sub != c.projected
    &&& c.gated != c.picked && c.gated != c.projected
    &&& c.picked != c.projected
}

/// The tensor is none of those.
pub open spec fn beside(c: CoreScratch, t: TensorId) -> bool {
    &&& t != c.hn && t != c.q && t != c.k && t != c.v
    &&& t != c.q_half && t != c.k_half && t != c.attn && t != c.act
    &&& t != c.sub && t != c.gated && t != c.picked && t != c.projected
}

/// The tensors that attention works on are apart.
pub open spec fn attention_apart(c: CoreScratch, i: RowIds, p: LayerPlan) -> bool {
    &&& core_apart(c)
    &&& beside(c, i.positions)
    &&& i.positions4 matches Some(t) ==> beside(c, t) && t != p.own.k && t != p.own.v && p.qkv
        != Some(t)
    &&& p.freq_factors matches Some(t) ==> beside(c, t) && t != p.own.k && t != p.own.v && p.qkv
        != Some(t)
    &&& p.qkv matches Some(t) ==> beside(c, t) && t != p.own.k && t != p.own.v && t != p.src.k && t
        != p.src.v && p.fused
    &&& beside(c, p.own.k)
    &&& beside(c, p.own.v)
    &&& p.own.k != p.own.v
    &&& p.own.k != i.positions
    &&& p.own.v != i.positions
    &&& p.qkv != Some(i.positions)
    &&& beside(c, p.src.k)
    &&& beside(c, p.src.v)
}

/// All queries, keys and values of a row side by side, by one joined weight.
pub open spec fn joined_qkv(d: GraphDims, l: LayerWidths, w: AttnW, rows: Value) -> Value {
    projected(rows, w.wq, d.b.batch, d.b.n_embd, l.qkv_row)
}

/// The query rows: a projection of the rows, with a bias where the layer has one. A joined weight
/// holds the queries first.
pub open spec fn query_rows(
    d: GraphDims,
    l: LayerWidths,
    c: CoreScratch,
    w: AttnW,
    p: LayerPlan,
    e: Values,
) -> Value {
    let raw = if p.qkv is Some {
        placed(
            joined_qkv(d, l, w, e[c.hn]),
            0,
            l.qkv_row,
            e[c.q],
            0,
            l.query_row,
            d.b.batch,
            l.query_row,
        )
    } else if p.gated && !p.fused {
        e[c.q]
    } else {
        projected(e[c.hn], w.wq, d.b.batch, d.b.n_embd, l.query_row)
    };
    shifted_if(raw, w.qb, d.b.batch, l.query_row)
}

/// The rows of queries that stand before their gates.
pub open spec fn gated_rows(
    d: GraphDims,
    l: LayerWidths,
    c: CoreScratch,
    w: AttnW,
    p: LayerPlan,
    e: Values,
) -> Value {
    if p.gated && !p.fused && p.qkv is None {
        projected(e[c.hn], w.wq, d.b.batch, d.b.n_embd, l.gated_row)
    } else {
        e[c.gated]
    }
}

/// The key rows before their bias: a projection of the rows. A joined weight holds the keys behind
/// the queries.
pub open spec fn raw_keys(
    d: GraphDims,
    l: LayerWidths,
    c: CoreScratch,
    w: AttnW,
    p: LayerPlan,
    e: Values,
) -> Value {
    if p.qkv is Some {
        placed(
            joined_qkv(d, l, w, e[c.hn]),
            l.query_row,
            l.qkv_row,
            e[c.k],
            0,
            l.kv_row,
            d.b.batch,
            l.kv_row,
        )
    } else if p.fused {
        projected_from(e[c.hn], w.wq, l.k_off, d.b.batch, d.b.n_embd, l.kv_row)
    } else {
        projected(e[c.hn], w.wk, d.b.batch, d.b.n_embd, l.kv_row)
    }
}

/// The value rows before their bias: a projection of the rows, or the keys of a layer that has no
/// weight for values. A joined weight holds the values behind the keys.
pub open spec fn raw_values(
    d: GraphDims,
    l: LayerWidths,
    c: CoreScratch,
    w: AttnW,
    p: LayerPlan,
    e: Values,
) -> Value {
    if p.qkv is Some {
        placed(
            joined_qkv(d, l, w, e[c.hn]),
            l.qk_row,
            l.qkv_row,
            e[c.v],
            0,
            l.kv_row,
            d.b.batch,
            l.kv_row,
        )
    } else if p.fused {
        projected_from(e[c.hn], w.wq, l.v_off, d.b.batch, d.b.n_embd, l.kv_row)
    } else {
        match w.wv {
            Some(wv) => projected(e[c.hn], wv, d.b.batch, d.b.n_embd, l.kv_row),
            None => replaced(raw_keys(d, l, c, w, p, e), e[c.v], d.b.batch, l.kv_row),
        }
    }
}

/// The key rows, with their bias.
pub open spec fn key_rows(
    d: GraphDims,
    l: LayerWidths,
    c: CoreScratch,
    w: AttnW,
    p: LayerPlan,
    e: Values,
) -> Value {
    shifted_if(raw_keys(d, l, c, w, p, e), w.kb, d.b.batch, l.kv_row)
}

/// The value rows, with their bias, and normed without a weight where the model does that. Values
/// are never rotated.
pub open spec fn value_rows(
    d: GraphDims,
    l: LayerWidths,
    c: CoreScratch,
    w: AttnW,
    p: LayerPlan,
    e: Values,
) -> Value {
    let v = shifted_if(raw_values(d, l, c, w, p, e), w.vb, d.b.batch, l.kv_row);
    match p.v_ones {
        Some(ones) => heads_normed(v, Some(ones), d.b.batch, l.b.n_kv, l.b.head_dim),
        None => v,
    }
}

/// Heads, normed by a weight of their own and rotated by the rows' positions.
pub open spec fn normed_turned(
    d: GraphDims,
    i: RowIds,
    h: Heads,
    weight: usize,
    rows: Value,
    e: Values,
) -> Value {
    match i.positions4 {
        Some(positions4) => Value::QkNormMrope {
            x: Box::new(rows),
            weight,
            positions4: Box::new(e[positions4]),
            rows: d.b.batch,
            n_head: h.heads,
            head_dim: h.head_dim,
            rope_dim: h.rope_dim,
            theta: h.theta,
            sections: d.b.sections,
            x_stride: h.x_stride,
        },
        None => Value::QkNormRope {
            x: Box::new(rows),
            weight,
            positions: Box::new(e[i.positions]),
            rows: d.b.batch,
            n_head: h.heads,
            head_dim: h.head_dim,
            rope_dim: h.rope_dim,
            theta: h.theta,
            freq_factors: held(e, h.freq_factors),
            x_stride: h.x_stride,
        },
    }
}

/// Heads without a norm of their own: rotated by the rows' positions, and normed without a weight
/// where the model does that; or taken as they are in a layer that rotates nothing.
pub open spec fn plain_turned(
    d: GraphDims,
    l: LayerWidths,
    i: RowIds,
    h: Heads,
    width: usize,
    p: LayerPlan,
    rows: Value,
    e: Values,
) -> Value {
    if p.nope {
        replaced(rows, e[h.dst], d.b.batch, width)
    } else {
        let turned = Value::Rope {
            x: Box::new(rows),
            positions: Box::new(e[i.positions]),
            rows: d.b.batch,
            n_head: h.heads,
            head_dim: h.head_dim,
            rope_dim: h.rope_dim,
            theta: h.theta,
            freq_factors: held(e, h.freq_factors),
            x_stride: 0,
            neox: false,
            backward: false,
        };
        match p.l2norm {
            Some(ones) => heads_normed(turned, Some(ones), d.b.batch, h.heads, l.b.head_dim),
            None => turned,
        }
    }
}

/// The keys that go to the cache.
pub open spec fn turned_keys(
    d: GraphDims,
    l: LayerWidths,
    c: CoreScratch,
    i: RowIds,
    w: AttnW,
    p: LayerPlan,
    e: Values,
) -> Value {
    let rows = key_rows(d, l, c, w, p, e);
    let h = Heads {
        x: c.k,
        dst: c.k_half,
        heads: l.b.n_kv,
        head_dim: l.b.head_dim,
        rope_dim: l.b.rope_dim,
        theta: p.attend.theta,
        freq_factors: p.freq_factors,
        x_stride: 0,
    };
    match w.k_norm {
        Some(weight) => normed_turned(d, i, h, weight, rows, e),
        None => plain_turned(d, l, i, h, l.kv_row, p, rows, e),
    }
}

/// The queries that attend.
pub open spec fn turned_queries(
    d: GraphDims,
    l: LayerWidths,
    c: CoreScratch,
    i: RowIds,
    w: AttnW,
    p: LayerPlan,
    e: Values,
) -> Value {
    let among = p.gated && w.q_norm is Some;
    let h = Heads {
        x: c.q,
        dst: c.q_half,
        heads: d.b.n_head,
        head_dim: l.b.head_dim,
        rope_dim: l.b.rope_dim,
        theta: p.attend.theta,
        freq_factors: p.freq_factors,
        x_stride: if among {
            l.gated_row
        } else {
            0
        },
    };
    let rows = if among {
        gated_rows(d, l, c, w, p, e)
    } else {
        query_rows(d, l, c, w, p, e)
    };
    match w.q_norm {
        Some(weight) => normed_turned(d, i, h, weight, rows, e),
        None => plain_turned(d, l, i, h, l.query_row, p, rows, e),
    }
}

#[verifier::rlimit(40)]
proof fn lemma_project(
    env: Values,
    before: Seq<Op>,
    d: GraphDims,
    l: LayerWidths,
    c: CoreScratch,
    w: AttnW,
    p: LayerPlan,
)
    requires
        core_apart(c),
        p.qkv matches Some(t) ==> beside(c, t) && p.fused,
    ensures
        ({
            let e = after(env, before);
            let f = after(env, project_ops(before, d, l, c, w, p));
            &&& f[c.q] == query_rows(d, l, c, w, p, e)
            &&& f[c.gated] == gated_rows(d, l, c, w, p, e)
            &&& p.fused ==> f[c.k] == raw_keys(d, l, c, w, p, e)
            &&& p.fused ==> f[c.v] == raw_values(d, l, c, w, p, e)
            &&& !p.fused ==> f[c.k] == e[c.k] && f[c.v] == e[c.v]
            &&& forall|t: TensorId|
                t != c.q && t != c.gated && t != c.k && t != c.v && p.qkv != Some(t)
                    ==> #[trigger] f[t] == e[t]
        }),
{
    let e = after(env, before);
    let g = match p.qkv {
        Some(qkv) => before + joined_rows(d, l, c, w.wq, qkv),
        None => if p.fused {
            before + joined_row(d, l, c, w.wq)
        } else if p.gated {
            before + gated_query(d, l, c, w.wq)
        } else {
            before + plain_query(d, l, c, w.wq)
        },
    };
    match p.qkv {
        Some(qkv) => lemma_joined_rows(env, before, d, l, c, w.wq, qkv),
        None => if p.fused {
            lemma_joined_row(env, before, d, l, c, w.wq);
        } else if p.gated {
            reveal(step);
            lemma_then_one(env, before, gated_query(d, l, c, w.wq));
        } else {
            reveal(step);
            lemma_then_one(env, before, plain_query(d, l, c, w.wq));
        },
    }
    if let Some(qb) = w.qb {
        reveal(step);
        lemma_then_one(env, g, biased(d, c.q, qb, l.query_row));
    }
}

proof fn lemma_joined_rows(
    env: Values,
    before: Seq<Op>,
    d: GraphDims,
    l: LayerWidths,
    c: CoreScratch,
    weight: usize,
    qkv: TensorId,
)
    requires
        core_apart(c),
        beside(c, qkv),
    ensures
        ({
            let e = after(env, before);
            let f = after(env, before + joined_rows(d, l, c, weight, qkv));
            let all = projected(e[c.hn], weight, d.b.batch, d.b.n_embd, l.qkv_row);
            let b = d.b.batch;
            &&& f[c.q] == placed(all, 0, l.qkv_row, e[c.q], 0, l.query_row, b, l.query_row)
            &&& f[c.k] == placed(all, l.query_row, l.qkv_row, e[c.k], 0, l.kv_row, b, l.kv_row)
            &&& f[c.v] == placed(all, l.qk_row, l.qkv_row, e[c.v], 0, l.kv_row, b, l.kv_row)
            &&& forall|t: TensorId|
                t != c.q && t != c.k && t != c.v && t != qkv ==> #[trigger] f[t] == e[t]
        }),
{
    let ops = joined_rows(d, l, c, weight, qkv);
    lemma_after_join(env, before, ops);
    let e0 = after(env, before);
    let e1 = e0.insert(qkv, projected(e0[c.hn], weight, d.b.batch, d.b.n_embd, l.qkv_row));
    assert(step(e0, ops[0]) == e1) by {
        reveal(step);
    }
    let e2 = e1.insert(
        c.q,
        placed(e1[qkv], 0, l.qkv_row, e1[c.q], 0, l.query_row, d.b.batch, l.query_row),
    );
    assert(step(e1, ops[1]) == e2) by {
        reveal(step);
    }
    let e3 = e2.insert(
        c.k,
        placed(e2[qkv], l.query_row, l.qkv_row, e2[c.k], 0, l.kv_row, d.b.batch, l.kv_row),
    );
    assert(step(e2, ops[2]) == e3) by {
        reveal(step);
    }
    let e4 = e3.insert(
        c.v,
        placed(e3[qkv], l.qk_row, l.qkv_row, e3[c.v], 0, l.kv_row, d.b.batch, l.kv_row),
    );
    assert(step(e3, ops[3]) == e4) by {
        reveal(step);
    }
    assert(after(e0, ops) == e4) by {
        reveal(after);
        reveal_with_fuel(after_first, 5);
    }
}

proof fn lemma_joined_row(
    env: Values,
    before: Seq<Op>,
    d: GraphDims,
    l: LayerWidths,
    c: CoreScratch,
    weight: usize,
)
    requires
        core_apart(c),
    ensures
        ({
            let e = after(env, before);
            let f = after(env, before + joined_row(d, l, c, weight));
            let rows = e[c.hn];
            let b = d.b.batch;
            &&& f[c.q] == projected(rows, weight, b, d.b.n_embd, l.query_row)
            &&& f[c.k] == projected_from(rows, weight, l.k_off, b, d.b.n_embd, l.kv_row)
            &&& f[c.v] == projected_from(rows, weight, l.v_off, b, d.b.n_embd, l.kv_row)
            &&& forall|t: TensorId| t != c.q && t != c.k && t != c.v ==> #[trigger] f[t] == e[t]
        }),
{
    let ops = joined_row(d, l, c, weight);
    lemma_after_join(env, before, ops);
    let e0 = after(env, before);
    let e1 = e0.insert(c.q, projected(e0[c.hn], weight, d.b.batch, d.b.n_embd, l.query_row));
    assert(step(e0, ops[0]) == e1) by {
        reveal(step);
    }
    let e2 = e1.insert(
        c.k,
        projected_from(e1[c.hn], weight, l.k_off, d.b.batch, d.b.n_embd, l.kv_row),
    );
    assert(step(e1, ops[1]) == e2) by {
        reveal(step);
    }
    let e3 = e2.insert(
        c.v,
        projected_from(e2[c.hn], weight, l.v_off, d.b.batch, d.b.n_embd, l.kv_row),
    );
    assert(step(e2, ops[2]) == e3) by {
        reveal(step);
    }
    assert(after(e0, ops) == e3) by {
        reveal(after);
        reveal_with_fuel(after_first, 4);
    }
}

proof fn lemma_turn_normed(
    env: Values,
    before: Seq<Op>,
    d: GraphDims,
    i: RowIds,
    h: Heads,
    weight: usize,
)
    ensures
        ({
            let e = after(env, before);
            let f = after(env, turn_normed(before, d, i, h, weight));
            f == e.insert(h.dst, normed_turned(d, i, h, weight, e[h.x], e))
        }),
{
    reveal(step);
    match i.positions4 {
        Some(positions4) => lemma_then_one(env, before, norm_rotate4(d, h, weight, positions4)),
        None => lemma_then_one(env, before, norm_rotate(d, i, h, weight)),
    }
}

proof fn lemma_turn_plain(
    env: Values,
    before: Seq<Op>,
    d: GraphDims,
    l: LayerWidths,
    i: RowIds,
    h: Heads,
    width: usize,
    p: LayerPlan,
)
    ensures
        ({
            let e = after(env, before);
            let f = after(env, turn_plain(before, d, l, i, h, width, p));
            &&& f[h.dst] == plain_turned(d, l, i, h, width, p, e[h.x], e)
            &&& forall|t: TensorId| t != h.dst ==> #[trigger] f[t] == e[t]
        }),
{
    reveal(step);
    if p.nope {
        lemma_then_one(env, before, cast_heads(d, h, width));
    } else {
        lemma_then_one(env, before, rotate(d, i, h));
        let g = before + rotate(d, i, h);
        if let Some(ones) = p.l2norm {
            lemma_then_one(env, g, head_norm(d, l, h.dst, ones, h.heads));
        }
    }
}

proof fn lemma_cache_rows(
    env: Values,
    before: Seq<Op>,
    d: GraphDims,
    l: LayerWidths,
    c: CoreScratch,
    own: Caches,
)
    requires
        beside(c, own.k),
        beside(c, own.v),
        own.k != own.v,
    ensures
        ({
            let e = after(env, before);
            let f = after(env, before + cache_rows(d, l, c, own.k, own.v));
            let b = d.b;
            &&& f[own.k] == stored(e[c.k_half], e[own.k], b.batch, l.kv_row, b.start_pos)
            &&& f[own.v] == stored(e[c.v], e[own.v], b.batch, l.kv_row, b.start_pos)
            &&& forall|t: TensorId| t != own.k && t != own.v ==> #[trigger] f[t] == e[t]
        }),
{
    let ops = cache_rows(d, l, c, own.k, own.v);
    lemma_after_join(env, before, ops);
    let e0 = after(env, before);
    let e1 = e0.insert(own.k, stored(e0[c.k_half], e0[own.k], d.b.batch, l.kv_row, d.b.start_pos));
    assert(step(e0, ops[0]) == e1) by {
        reveal(step);
    }
    let e2 = e1.insert(own.v, stored(e1[c.v], e1[own.v], d.b.batch, l.kv_row, d.b.start_pos));
    assert(step(e1, ops[1]) == e2) by {
        reveal(step);
    }
    assert(after(e0, ops) == e2) by {
        reveal(after);
        reveal_with_fuel(after_first, 3);
    }
}

/// What the key and value rows of a layer are, once projected, biased and normed.
#[verifier::rlimit(40)]
proof fn lemma_rows(
    env: Values,
    before: Seq<Op>,
    d: GraphDims,
    l: LayerWidths,
    c: CoreScratch,
    w: AttnW,
    p: LayerPlan,
    e: Values,
) -> (g: Seq<Op>)
    requires
        core_apart(c),
        ({
            let a = after(env, before);
            &&& a[c.hn] == e[c.hn]
            &&& p.fused ==> a[c.k] == raw_keys(d, l, c, w, p, e) && a[c.v] == raw_values(
                d,
                l,
                c,
                w,
                p,
                e,
            )
            &&& !p.fused ==> p.qkv is None && a[c.k] == e[c.k] && a[c.v] == e[c.v]
        }),
    ensures
        ({
            let a = after(env, before);
            let f = after(env, g);
            &&& f[c.k] == key_rows(d, l, c, w, p, e)
            &&& f[c.v] == value_rows(d, l, c, w, p, e)
            &&& forall|t: TensorId| t != c.k && t != c.v ==> #[trigger] f[t] == a[t]
        }),
        forall|i: RowIds|
            #[trigger] key_ops(before, d, l, c, i, w, p) == (match w.k_norm {
                Some(weight) => turn_normed(g, d, i, key_heads(d, l, c, p), weight),
                None => turn_plain(g, d, l, i, key_heads(d, l, c, p), l.kv_row, p),
            }) + cache_rows(d, l, c, p.own.k, p.own.v),
{
    reveal(step);
    let g0 = if p.fused {
        before
    } else {
        let k = before + plain_key(d, l, c, w.wk);
        match w.wv {
            Some(wv) => k + plain_value(d, l, c, wv),
            None => k + value_from_key(d, l, c),
        }
    };
    if !p.fused {
        let k = before + plain_key(d, l, c, w.wk);
        lemma_then_one(env, before, plain_key(d, l, c, w.wk));
        match w.wv {
            Some(wv) => lemma_then_one(env, k, plain_value(d, l, c, wv)),
            None => lemma_then_one(env, k, value_from_key(d, l, c)),
        }
    }
    assert(after(env, g0)[c.k] == raw_keys(d, l, c, w, p, e));
    assert(after(env, g0)[c.v] == raw_values(d, l, c, w, p, e));
    let g1 = match w.kb {
        Some(kb) => g0 + biased(d, c.k, kb, l.kv_row),
        None => g0,
    };
    if let Some(kb) = w.kb {
        lemma_then_one(env, g0, biased(d, c.k, kb, l.kv_row));
    }
    let g2 = match w.vb {
        Some(vb) => g1 + biased(d, c.v, vb, l.kv_row),
        None => g1,
    };
    if let Some(vb) = w.vb {
        lemma_then_one(env, g1, biased(d, c.v, vb, l.kv_row));
    }
    let g3 = match p.v_ones {
        Some(ones) => g2 + head_norm(d, l, c.v, ones, l.b.n_kv),
        None => g2,
    };
    if let Some(ones) = p.v_ones {
        lemma_then_one(env, g2, head_norm(d, l, c.v, ones, l.b.n_kv));
    }
    g3
}

/// What a layer writes to its caches.
#[verifier::rlimit(40)]
proof fn lemma_keys(
    env: Values,
    before: Seq<Op>,
    d: GraphDims,
    l: LayerWidths,
    c: CoreScratch,
    i: RowIds,
    w: AttnW,
    p: LayerPlan,
    e: Values,
)
    requires
        attention_apart(c, i, p),
        ({
            let a = after(env, before);
            &&& p.fused ==> a[c.k] == raw_keys(d, l, c, w, p, e) && a[c.v] == raw_values(
                d,
                l,
                c,
                w,
                p,
                e,
            )
            &&& !p.fused ==> a[c.k] == e[c.k] && a[c.v] == e[c.v]
            &&& forall|t: TensorId|
                t != c.q && t != c.gated && t != c.k && t != c.v && p.qkv != Some(t)
                    ==> #[trigger] a[t] == e[t]
        }),
    ensures
        ({
            let a = after(env, before);
            let f = after(env, key_ops(before, d, l, c, i, w, p));
            let b = d.b;
            &&& f[p.own.k] == stored(
                turned_keys(d, l, c, i, w, p, e),
                e[p.own.k],
                b.batch,
                l.kv_row,
                b.start_pos,
            )
            &&& f[p.own.v] == stored(
                value_rows(d, l, c, w, p, e),
                e[p.own.v],
                b.batch,
                l.kv_row,
                b.start_pos,
            )
            &&& forall|t: TensorId|
                t != c.k && t != c.v && t != c.k_half && t != p.own.k && t != p.own.v
                    ==> #[trigger] f[t] == a[t]
        }),
{
    let g = lemma_rows(env, before, d, l, c, w, p, e);
    let h = key_heads(d, l, c, p);
    let t = match w.k_norm {
        Some(weight) => turn_normed(g, d, i, h, weight),
        None => turn_plain(g, d, l, i, h, l.kv_row, p),
    };
    match w.k_norm {
        Some(weight) => lemma_turn_normed(env, g, d, i, h, weight),
        None => lemma_turn_plain(env, g, d, l, i, h, l.kv_row, p),
    }
    let f = after(env, g);
    assert(f[i.positions] == e[i.positions]);
    assert(i.positions4 matches Some(t4) ==> f[t4] == e[t4]);
    assert(held(f, p.freq_factors) == held(e, p.freq_factors));
    assert(after(env, t)[c.k_half] == turned_keys(d, l, c, i, w, p, e));
    lemma_cache_rows(env, t, d, l, c, p.own);
}

/// What attends, before anything is selected.
#[verifier::rlimit(40)]
proof fn lemma_upto_queries(
    env: Values,
    before: Seq<Op>,
    d: GraphDims,
    l: LayerWidths,
    c: CoreScratch,
    i: RowIds,
    w: AttnW,
    p: LayerPlan,
) -> (g: Seq<Op>)
    requires
        attention_apart(c, i, p),
    ensures
        ({
            let k = project_ops(before, d, l, c, w, p);
            g == query_ops(
                if p.own_kv {
                    key_ops(k, d, l, c, i, w, p)
                } else {
                    k
                },
                d,
                l,
                c,
                i,
                w,
                p,
            )
        }),
        ({
            let e = after(env, before);
            let f = after(env, g);
            &&& f[c.q_half] == turned_queries(d, l, c, i, w, p, e)
            &&& f[c.gated] == gated_rows(d, l, c, w, p, e)
            &&& cached(d, l, c, i, w, p, e, f)
            &&& forall|t: TensorId|
                beside(c, t) && t != p.own.k && t != p.own.v && p.qkv != Some(t)
                    ==> #[trigger] f[t] == e[t]
            &&& f[c.hn] == e[c.hn]
        }),
{
    let e = after(env, before);
    let k = project_ops(before, d, l, c, w, p);
    lemma_project(env, before, d, l, c, w, p);
    let q = if p.own_kv {
        key_ops(k, d, l, c, i, w, p)
    } else {
        k
    };
    if p.own_kv {
        lemma_keys(env, k, d, l, c, i, w, p, e);
    }
    let f = after(env, q);
    assert(f[c.q] == query_rows(d, l, c, w, p, e));
    assert(f[c.gated] == gated_rows(d, l, c, w, p, e));
    assert(f[i.positions] == e[i.positions]);
    assert(i.positions4 matches Some(t4) ==> f[t4] == e[t4]);
    assert(held(f, p.freq_factors) == held(e, p.freq_factors));
    assert(f[c.q_half] == e[c.q_half]);
    match w.q_norm {
        Some(weight) => {
            lemma_turn_normed(env, q, d, i, query_heads(d, l, c, p, p.gated), weight);
        },
        None => {
            lemma_turn_plain(
                env,
                q,
                d,
                l,
                i,
                query_heads(d, l, c, p, false),
                l.query_row,
                p,
            );
        },
    }
    query_ops(q, d, l, c, i, w, p)
}

/// The layer's caches hold the batch's keys and values from its first position on, behind what they
/// held before; a layer that shares another's caches writes nothing.
pub open spec fn cached(
    d: GraphDims,
    l: LayerWidths,
    c: CoreScratch,
    i: RowIds,
    w: AttnW,
    p: LayerPlan,
    e: Values,
    f: Values,
) -> bool {
    let b = d.b;
    &&& p.own_kv ==> f[p.own.k] == stored(
        turned_keys(d, l, c, i, w, p, e),
        e[p.own.k],
        b.batch,
        l.kv_row,
        b.start_pos,
    )
    &&& p.own_kv ==> f[p.own.v] == stored(
        value_rows(d, l, c, w, p, e),
        e[p.own.v],
        b.batch,
        l.kv_row,
        b.start_pos,
    )
    &&& !p.own_kv ==> f[p.own.k] == e[p.own.k] && f[p.own.v] == e[p.own.v]
}

/// What comes out of attention: weighed by the gates that stand behind the queries, normed and
/// projected, as far as the layer has these.
pub open spec fn attention_output(
    d: GraphDims,
    l: LayerWidths,
    w: AttnW,
    p: LayerPlan,
    sub_norm: Option<usize>,
    attended: Value,
    gates: Value,
) -> Value {
    let weighed = if p.gated {
        Value::GatedAct {
            gate: Box::new(gates),
            up: Box::new(attended),
            rows: d.b.batch,
            nff: l.query_row,
            act: Activation::Sigmoid,
            up_off: 0,
            up_stride: 0,
            gate_stride: l.gated_row,
            gate_block: l.gated_head,
            clamp: Clamp::Off,
        }
    } else {
        attended
    };
    projected(
        normed_if(weighed, sub_norm, d.b.batch, l.query_row),
        w.wo,
        d.b.batch,
        l.query_row,
        d.b.n_embd,
    )
}

proof fn lemma_output(
    env: Values,
    g: Seq<Op>,
    d: GraphDims,
    l: LayerWidths,
    c: CoreScratch,
    w: AttnW,
    p: LayerPlan,
    sub_norm: Option<usize>,
) -> (all: Seq<Op>)
    requires
        core_apart(c),
    ensures
        ({
            let a = if p.gated {
                g + gate_heads(d, l, c)
            } else {
                g
            };
            let b = match sub_norm {
                Some(weight) => a + norm_heads(d, l, c, weight),
                None => a,
            };
            all == b + attention_out(d, l, c, w.wo)
        }),
        ({
            let e = after(env, g);
            let f = after(env, all);
            &&& f[c.sub] == attention_output(d, l, w, p, sub_norm, e[c.attn], e[c.gated])
            &&& forall|t: TensorId| t != c.attn && t != c.sub ==> #[trigger] f[t] == e[t]
        }),
{
    reveal(step);
    let a = if p.gated {
        g + gate_heads(d, l, c)
    } else {
        g
    };
    if p.gated {
        lemma_then_one(env, g, gate_heads(d, l, c));
    }
    let b = match sub_norm {
        Some(weight) => a + norm_heads(d, l, c, weight),
        None => a,
    };
    if let Some(weight) = sub_norm {
        lemma_then_one(env, a, norm_heads(d, l, c, weight));
    }
    lemma_then_one(env, b, attention_out(d, l, c, w.wo));
    b + attention_out(d, l, c, w.wo)
}

/// Attention is what its weights say: the rows are projected to queries, keys and values; keys and
/// queries are normed and rotated, values are not; keys and values go to the layer's caches, behind
/// what is there; the queries attend to every visible row of the caches that the layer reads, as
/// they are then; and what comes out is projected back. Nothing but the layer's scratch and its own
/// caches is written.
pub proof fn law_attention_reads_what_the_layer_cached(
    env: Values,
    before: Seq<Op>,
    d: GraphDims,
    l: LayerWidths,
    c: CoreScratch,
    i: RowIds,
    w: AttnW,
    p: LayerPlan,
    sub_norm: Option<usize>,
)
    requires
        attention_apart(c, i, p),
    ensures
        ({
            let e = after(env, before);
            let f = after(env, attention_ops(before, d, l, c, i, w, None, p, sub_norm));
            let attended = Value::Attention {
                q: Box::new(turned_queries(d, l, c, i, w, p, e)),
                k_cache: Box::new(f[p.src.k]),
                v_cache: Box::new(f[p.src.v]),
                rows: d.b.batch,
                kv_len: p.visible,
                n_head: d.b.n_head,
                n_kv: l.b.n_kv,
                head_dim: l.b.head_dim,
                scale: p.attend.scale,
                mask: p.attend.mask,
                pos: d.b.start_pos,
                sinks: None,
            };
            &&& f[c.sub] == attention_output(
                d,
                l,
                w,
                p,
                sub_norm,
                attended,
                gated_rows(d, l, c, w, p, e),
            )
            &&& cached(d, l, c, i, w, p, e, f)
            &&& forall|t: TensorId|
                beside(c, t) && t != p.own.k && t != p.own.v && p.qkv != Some(t)
                    ==> #[trigger] f[t] == e[t]
        }),
{
    let g = lemma_upto_queries(env, before, d, l, c, i, w, p);
    let seen = attend(d, l, c, p.attend, p.src, p.visible, d.b.start_pos);
    assert(after(env, g + seen) == after(env, g).insert(
        c.attn,
        Value::Attention {
            q: Box::new(after(env, g)[c.q_half]),
            k_cache: Box::new(after(env, g)[p.src.k]),
            v_cache: Box::new(after(env, g)[p.src.v]),
            rows: d.b.batch,
            kv_len: p.visible,
            n_head: d.b.n_head,
            n_kv: l.b.n_kv,
            head_dim: l.b.head_dim,
            scale: p.attend.scale,
            mask: p.attend.mask,
            pos: d.b.start_pos,
            sinks: None,
        },
    )) by {
        reveal(step);
        lemma_then_one(env, g, seen);
    }
    let all = lemma_output(env, g + seen, d, l, c, w, p, sub_norm);
    assert(all == attention_ops(before, d, l, c, i, w, None, p, sub_norm));
}

/// The tensor is none that attention reads beside its scratch.
pub open spec fn spared(i: RowIds, p: LayerPlan, t: TensorId) -> bool {
    &&& t != p.own.k && t != p.own.v && t != p.src.k && t != p.src.v
    &&& t != i.positions && i.positions4 != Some(t) && i.mrope_history != Some(t)
    &&& p.freq_factors != Some(t) && p.qkv != Some(t)
}

/// The tensors that block-sparse attention works on are apart.
pub open spec fn sparse_apart(c: CoreScratch, i: RowIds, p: LayerPlan, x: SparseLayer) -> bool {
    let s = x.s;
    &&& attention_apart(c, i, p)
    &&& beside(c, x.raw) && spared(i, p, x.raw)
    &&& beside(c, x.block) && spared(i, p, x.block)
    &&& x.raw != x.block
    &&& i.mrope_history matches Some(t) ==> beside(c, t) && t != p.own.k && t != p.own.v && p.qkv
        != Some(t)
    &&& beside(c, s.raw_k) && spared(i, p, s.raw_k) && s.raw_k != x.raw && s.raw_k != x.block
    &&& beside(c, s.q) && spared(i, p, s.q) && s.q != x.raw && s.q != x.block
    &&& beside(c, s.q_half) && spared(i, p, s.q_half) && s.q_half != x.raw && s.q_half != x.block
    &&& beside(c, s.indices) && spared(i, p, s.indices) && s.indices != x.raw && s.indices != x.block
    &&& beside(c, s.gather_k) && spared(i, p, s.gather_k) && s.gather_k != x.raw && s.gather_k != x.block
    &&& beside(c, s.gather_v) && spared(i, p, s.gather_v) && s.gather_v != x.raw && s.gather_v != x.block
    &&& s.raw_k != s.q && s.raw_k != s.q_half && s.raw_k != s.indices 
        && s.raw_k != s.gather_k && s.raw_k != s.gather_v
    &&& s.q != s.q_half && s.q != s.indices && s.q != s.gather_k 
        && s.q != s.gather_v
    &&& s.q_half != s.indices && s.q_half != s.gather_k && s.q_half != s.gather_v
    &&& s.indices != s.gather_k && s.indices != s.gather_v
    &&& s.gather_k != s.gather_v
}

/// The index key of each row, as it is cached.
pub open spec fn index_keys(d: GraphDims, c: CoreScratch, x: SparseLayer, e: Values) -> Value {
    stored(
        projected(e[c.hn], x.w.k_proj, d.b.batch, d.b.n_embd, d.b.indexer_head_size),
        e[x.raw],
        d.b.batch,
        d.b.indexer_head_size,
        d.b.start_pos,
    )
}

/// The index queries, normed and rotated.
pub open spec fn index_queries(
    d: GraphDims,
    c: CoreScratch,
    i: RowIds,
    p: LayerPlan,
    x: SparseLayer,
    e: Values,
) -> Value {
    let h = Heads {
        x: x.s.q,
        dst: x.s.q_half,
        heads: d.b.indexer_n_head,
        head_dim: d.b.indexer_head_size,
        rope_dim: d.b.rope_dim,
        theta: p.attend.theta,
        freq_factors: p.freq_factors,
        x_stride: 0,
    };
    normed_turned(
        d,
        i,
        h,
        x.w.q_norm,
        projected(e[c.hn], x.w.q_proj, d.b.batch, d.b.n_embd, d.index_row),
        e,
    )
}

/// What the index queries select among the index keys, or the compressed blocks that are left
/// behind.
pub open spec fn selected_blocks(
    d: GraphDims,
    c: CoreScratch,
    i: RowIds,
    p: LayerPlan,
    x: SparseLayer,
    e: Values,
    rows: usize,
    compress_from: usize,
    selected: usize,
    part: Part,
) -> Value {
    Value::QsaIndexer {
        q: Box::new(index_queries(d, c, i, p, x, e)),
        k_cache: Box::new(index_keys(d, c, x, e)),
        block_cache: Box::new(e[x.block]),
        k_norm: x.w.k_norm,
        positions4: held(e, i.mrope_history),
        rows,
        kv_len: p.visible,
        compress_from,
        n_head: d.b.indexer_n_head,
        head_dim: d.b.indexer_head_size,
        top_blocks: selected,
        ratio: d.b.qsa_ratio,
        scale: Scalar::InvSqrt(d.b.indexer_head_size),
        rope_dim: d.b.rope_dim,
        theta: p.attend.theta,
        sections: d.b.sections,
        part,
    }
}

/// The attention of the queries to the rows of two caches.
pub open spec fn attended_to(
    d: GraphDims,
    l: LayerWidths,
    p: LayerPlan,
    q: Value,
    keys: Value,
    values: Value,
    len: usize,
    pos: usize,
) -> Value {
    Value::Attention {
        q: Box::new(q),
        k_cache: Box::new(keys),
        v_cache: Box::new(values),
        rows: d.b.batch,
        kv_len: len,
        n_head: d.b.n_head,
        n_kv: l.b.n_kv,
        head_dim: l.b.head_dim,
        scale: p.attend.scale,
        mask: p.attend.mask,
        pos,
        sinks: None,
    }
}

/// The rows that one query row gathers from the caches: the selected blocks and the tail behind
/// them.
pub open spec fn gathered_rows(
    d: GraphDims,
    l: LayerWidths,
    keys: Value,
    values: Value,
    indices: Value,
    selected: usize,
    complete: usize,
    tail: usize,
    part: Part,
) -> Value {
    Value::QsaGather {
        k_cache: Box::new(keys),
        v_cache: Box::new(values),
        indices: Box::new(indices),
        selected_blocks: selected,
        complete_blocks: complete,
        tail,
        ratio: d.b.qsa_ratio,
        row_elems: l.kv_row,
        part,
    }
}

/// What block-sparse attention attends to: all rows that are visible; or the blocks that each row's
/// index query selects, of the layer's keys and of its values.
pub open spec fn sparsely_attended(
    d: GraphDims,
    l: LayerWidths,
    c: CoreScratch,
    i: RowIds,
    p: LayerPlan,
    x: SparseLayer,
    e: Values,
    q: Value,
    keys: Value,
    values: Value,
) -> Value {
    match p.step {
        SparseStep::Dense { len, pos } => attended_to(d, l, p, q, keys, values, len, pos),
        SparseStep::Batched { selected, compress_from } => Value::QsaBatchAttention {
            q: Box::new(q),
            k_cache: Box::new(keys),
            v_cache: Box::new(values),
            indices: Box::new(
                selected_blocks(
                    d,
                    c,
                    i,
                    p,
                    x,
                    e,
                    d.b.batch,
                    compress_from,
                    selected,
                    Part::Rows,
                ),
            ),
            rows: d.b.batch,
            kv_len: p.visible,
            n_head: d.b.n_head,
            n_kv: l.b.n_kv,
            head_dim: l.b.head_dim,
            top_blocks: selected,
            ratio: d.b.qsa_ratio,
            scale: p.attend.scale,
        },
        SparseStep::Gathered { complete, tail, selected, compress_from, len, pos } => {
            let at = selected_blocks(d, c, i, p, x, e, 1, compress_from, selected, Part::Rows);
            attended_to(
                d,
                l,
                p,
                q,
                gathered_rows(d, l, keys, values, at, selected, complete, tail, Part::Keys),
                gathered_rows(d, l, keys, values, at, selected, complete, tail, Part::Values),
                len,
                pos,
            )
        },
    }
}

proof fn lemma_sparse_keys(
    env: Values,
    before: Seq<Op>,
    d: GraphDims,
    c: CoreScratch,
    i: RowIds,
    p: LayerPlan,
    x: SparseLayer,
)
    requires
        sparse_apart(c, i, p, x),
    ensures
        ({
            let e = after(env, before);
            let f = after(env, before + sparse_keys(d, c, x.s, x.w, x.raw));
            &&& f[x.raw] == index_keys(d, c, x, e)
            &&& f[x.s.q] == projected(
                e[c.hn],
                x.w.q_proj,
                d.b.batch,
                d.b.n_embd,
                d.index_row,
            )
            &&& forall|t: TensorId|
                t != x.raw && t != x.s.raw_k && t != x.s.q ==> #[trigger] f[t] == e[t]
        }),
{
    let ops = sparse_keys(d, c, x.s, x.w, x.raw);
    lemma_after_join(env, before, ops);
    let e0 = after(env, before);
    let e1 = e0.insert(
        x.s.raw_k,
        projected(e0[c.hn], x.w.k_proj, d.b.batch, d.b.n_embd, d.b.indexer_head_size),
    );
    assert(step(e0, ops[0]) == e1) by {
        reveal(step);
    }
    let e2 = e1.insert(
        x.raw,
        stored(e1[x.s.raw_k], e1[x.raw], d.b.batch, d.b.indexer_head_size, d.b.start_pos),
    );
    assert(step(e1, ops[1]) == e2) by {
        reveal(step);
    }
    let e3 = e2.insert(x.s.q, projected(e2[c.hn], x.w.q_proj, d.b.batch, d.b.n_embd, d.index_row));
    assert(step(e2, ops[2]) == e3) by {
        reveal(step);
    }
    assert(after(e0, ops) == e3) by {
        reveal(after);
        reveal_with_fuel(after_first, 4);
    }
}

proof fn lemma_choose(
    env: Values,
    before: Seq<Op>,
    d: GraphDims,
    i: RowIds,
    p: LayerPlan,
    x: SparseLayer,
    rows: usize,
    compress_from: usize,
    selected: usize,
) -> (ops: Seq<Op>)
    requires
        x.block != x.s.indices,
    ensures
        ops == choose_blocks(
            d,
            x.s,
            x.w,
            x.raw,
            x.block,
            i.mrope_history,
            p.attend.theta,
            rows,
            p.visible,
            compress_from,
            selected,
        ),
        ({
            let e = after(env, before);
            let f = after(env, before + ops);
            &&& f[x.s.indices] == (Value::QsaIndexer {
                q: Box::new(e[x.s.q_half]),
                k_cache: Box::new(e[x.raw]),
                block_cache: Box::new(e[x.block]),
                k_norm: x.w.k_norm,
                positions4: held(e, i.mrope_history),
                rows,
                kv_len: p.visible,
                compress_from,
                n_head: d.b.indexer_n_head,
                head_dim: d.b.indexer_head_size,
                top_blocks: selected,
                ratio: d.b.qsa_ratio,
                scale: Scalar::InvSqrt(d.b.indexer_head_size),
                rope_dim: d.b.rope_dim,
                theta: p.attend.theta,
                sections: d.b.sections,
                part: Part::Rows,
            })
            &&& forall|t: TensorId|
                t != x.s.indices && t != x.block ==> #[trigger] f[t] == e[t]
        }),
{
    let ops = choose_blocks(
        d,
        x.s,
        x.w,
        x.raw,
        x.block,
        i.mrope_history,
        p.attend.theta,
        rows,
        p.visible,
        compress_from,
        selected,
    );
    reveal(step);
    lemma_then_one(env, before, ops);
    ops
}

/// Block-sparse attention projects an index key and an index query from the same rows, caches the
/// keys, and attends to the blocks that the queries select, of the caches that the layer reads.
#[verifier::rlimit(40)]
pub proof fn law_sparse_attention_reads_what_its_index_selects(
    env: Values,
    before: Seq<Op>,
    d: GraphDims,
    l: LayerWidths,
    c: CoreScratch,
    i: RowIds,
    w: AttnW,
    x: SparseLayer,
    p: LayerPlan,
    sub_norm: Option<usize>,
)
    requires
        sparse_apart(c, i, p, x),
    ensures
        ({
            let e = after(env, before);
            let f = after(env, attention_ops(before, d, l, c, i, w, Some(x), p, sub_norm));
            &&& f[c.sub] == attention_output(
                d,
                l,
                w,
                p,
                sub_norm,
                sparsely_attended(
                    d,
                    l,
                    c,
                    i,
                    p,
                    x,
                    e,
                    turned_queries(d, l, c, i, w, p, e),
                    f[p.src.k],
                    f[p.src.v],
                ),
                gated_rows(d, l, c, w, p, e),
            )
            &&& cached(d, l, c, i, w, p, e, f)
            &&& f[x.raw] == index_keys(d, c, x, e)
        }),
{
    let e = after(env, before);
    let g = lemma_upto_queries(env, before, d, l, c, i, w, p);
    let a = after(env, g);
    assert(a[x.raw] == e[x.raw]);
    assert(a[x.block] == e[x.block]);
    let k = g + sparse_keys(d, c, x.s, x.w, x.raw);
    lemma_sparse_keys(env, g, d, c, i, p, x);
    let b = after(env, k);
    let n = index_ops(g, d, c, x.s, i, x.w, x.raw, p);
    lemma_turn_normed(env, k, d, i, index_heads(d, x.s, p), x.w.q_norm);
    let f = after(env, n);
    assert(b[i.positions] == e[i.positions]);
    assert(i.positions4 matches Some(t) ==> b[t] == e[t]);
    assert(held(b, p.freq_factors) == held(e, p.freq_factors));
    assert(f[x.s.q_half] == index_queries(d, c, i, p, x, e));
    assert(f[x.raw] == index_keys(d, c, x, e));
    assert(f[x.block] == e[x.block]);
    assert(held(f, i.mrope_history) == held(e, i.mrope_history));
    assert(f[c.q_half] == turned_queries(d, l, c, i, w, p, e));
    let seen = selected_ops(n, d, l, c, i, x, p);
    lemma_selected(env, n, d, l, c, i, x, p);
    let all = lemma_output(env, seen, d, l, c, w, p, sub_norm);
    assert(all == attention_ops(before, d, l, c, i, w, Some(x), p, sub_norm));
}

#[verifier::rlimit(40)]
proof fn lemma_selected(
    env: Values,
    n: Seq<Op>,
    d: GraphDims,
    l: LayerWidths,
    c: CoreScratch,
    i: RowIds,
    x: SparseLayer,
    p: LayerPlan,
)
    requires
        sparse_apart(c, i, p, x),
    ensures
        ({
            let f = after(env, n);
            let h = after(env, selected_ops(n, d, l, c, i, x, p));
            let at = |rows: usize, compress_from: usize, selected: usize|
                Value::QsaIndexer {
                    q: Box::new(f[x.s.q_half]),
                    k_cache: Box::new(f[x.raw]),
                    block_cache: Box::new(f[x.block]),
                    k_norm: x.w.k_norm,
                    positions4: held(f, i.mrope_history),
                    rows,
                    kv_len: p.visible,
                    compress_from,
                    n_head: d.b.indexer_n_head,
                    head_dim: d.b.indexer_head_size,
                    top_blocks: selected,
                    ratio: d.b.qsa_ratio,
                    scale: Scalar::InvSqrt(d.b.indexer_head_size),
                    rope_dim: d.b.rope_dim,
                    theta: p.attend.theta,
                    sections: d.b.sections,
                    part: Part::Rows,
                };
            let keys = f[p.src.k];
            let values = f[p.src.v];
            &&& h[c.attn] == (match p.step {
                SparseStep::Dense { len, pos } => attended_to(
                    d,
                    l,
                    p,
                    f[c.q_half],
                    keys,
                    values,
                    len,
                    pos,
                ),
                SparseStep::Batched { selected, compress_from } => Value::QsaBatchAttention {
                    q: Box::new(f[c.q_half]),
                    k_cache: Box::new(keys),
                    v_cache: Box::new(values),
                    indices: Box::new(at(d.b.batch, compress_from, selected)),
                    rows: d.b.batch,
                    kv_len: p.visible,
                    n_head: d.b.n_head,
                    n_kv: l.b.n_kv,
                    head_dim: l.b.head_dim,
                    top_blocks: selected,
                    ratio: d.b.qsa_ratio,
                    scale: p.attend.scale,
                },
                SparseStep::Gathered { complete, tail, selected, compress_from, len, pos } => {
                    let blocks = at(1, compress_from, selected);
                    attended_to(
                        d,
                        l,
                        p,
                        f[c.q_half],
                        gathered_rows(
                            d,
                            l,
                            keys,
                            values,
                            blocks,
                            selected,
                            complete,
                            tail,
                            Part::Keys,
                        ),
                        gathered_rows(
                            d,
                            l,
                            keys,
                            values,
                            blocks,
                            selected,
                            complete,
                            tail,
                            Part::Values,
                        ),
                        len,
                        pos,
                    )
                },
            })
            &&& forall|t: TensorId|
                t != c.attn && t != x.block && t != x.s.indices && t != x.s.gather_k && t
                    != x.s.gather_v ==> #[trigger] h[t] == f[t]
        }),
{
    match p.step {
        SparseStep::Dense { len, pos } => {
            reveal(step);
            lemma_then_one(env, n, attend(d, l, c, p.attend, p.src, len, pos));
        },
        SparseStep::Batched { selected, compress_from } => {
            let chosen = lemma_choose(env, n, d, i, p, x, d.b.batch, compress_from, selected);
            reveal(step);
            lemma_then_one(
                env,
                n + chosen,
                attend_blocks(d, l, c, x.s, p.attend, p.src, p.visible, selected),
            );
        },
        SparseStep::Gathered { complete, tail, selected, compress_from, len, pos } => {
            let chosen = lemma_choose(env, n, d, i, p, x, 1, compress_from, selected);
            let gathered = gather_blocks(d, l, x.s, p.src, selected, complete, tail);
            reveal(step);
            lemma_then_one(env, n + chosen, gathered);
            lemma_then_one(
                env,
                n + chosen + gathered,
                attend(
                    d,
                    l,
                    c,
                    p.attend,
                    Caches { k: x.s.gather_k, v: x.s.gather_v },
                    len,
                    pos,
                ),
            );
        },
    }
}

} // verus!
