//! That the operations of the attention mixers read only what is there.

use crate::attention_plan::{CompressedStep, SparseStep};
use crate::flow_mixers::{
    flow_attend, flow_attend_blocks, flow_attention_out, flow_biased, flow_cache_row,
    flow_cache_rows, flow_cast_heads, flow_choose_blocks, flow_compress, flow_compress_index,
    flow_compressed_attend, flow_compressed_key, flow_compressed_out, flow_compressed_query,
    flow_delta_inputs, flow_delta_norm_joined, flow_delta_norm_split, flow_delta_output,
    flow_delta_parts, flow_delta_rates, flow_delta_rule, flow_gate_heads, flow_gated_query,
    flow_gather_blocks, flow_group_out, flow_head_norm, flow_index_query, flow_index_score,
    flow_inject_gates, flow_joined_row, flow_joined_rows, flow_latent_attend, flow_latent_gate,
    flow_latent_key, flow_latent_out, flow_latent_query, flow_latent_query_low, flow_mix_gated,
    flow_norm_heads, flow_norm_rotate, flow_norm_rotate4, flow_plain_key, flow_plain_query,
    flow_plain_value, flow_rope_tail, flow_rotate, flow_sparse_keys, flow_token_index,
    flow_value_from_key,
};
use crate::graph_attention::{
    attention_ops, block_ops, compressed_ops, compressed_tail, groups_below, index_heads, index_ops,
    key_heads, key_ops, latent_ops, project_ops, query_heads, query_ops, selected_ops, turn_normed,
    turn_plain, turn_tail, write_block, LayerPlan, SparseLayer,
};
use crate::graph_dims::{GraphDims, LayerWidths};
use crate::graph_flow::{grows, has, has_if, sound};
use crate::graph_inputs::RowIds;
use crate::graph_mixers::{
    attend, biased, cache_row, choose_blocks, compress, compress_index,
    compressed_attend, compressed_key, compressed_query, delta_inputs, delta_norm_joined,
    delta_norm_split, delta_ops, delta_parts, delta_rates, delta_rule, gate_heads, gated_query,
    gated_streams, gather_blocks, head_norm, index_query, joined_row, joined_rows,
    latent_attend, latent_gate, latent_key, latent_query, latent_query_low, mix_gated, norm_heads,
    plain_key, plain_query, plain_value, rotate, sparse_keys, token_index, value_from_key, Attend,
    Caches, CompressedLayout, Heads, QwenStreamW, TailRope,
};
use crate::graph_ops::{Activation, Op, Theta};
use crate::graph_scratch::{
    CompressedScratch, CoreScratch, DeltaScratch, LatentScratch, QwenScratch, SparseScratch,
    TokenIndexScratch,
};
use crate::weight_handles::{AttnW, DeltaW, Dsv4CompressedW, Dsv4W, MlaW, QsaW};
use crate::weight_plan::TensorId;
use vstd::prelude::*;

verus! {

pub(crate) proof fn flow_delta_ops(
    known: Set<TensorId>,
    before: Seq<Op>,
    d: GraphDims,
    c: CoreScratch,
    t: DeltaScratch,
    w: DeltaW,
    history: TensorId,
    state: TensorId,
    strided: bool,
    joined: bool,
    act: Activation,
)
    requires
        sound(known, before),
        has(known, before, c.hn),
        has(known, before, history),
        has(known, before, state),
    ensures
        sound(known, delta_ops(before, d, c, t, w, history, state, strided, joined, act)),
        grows(
            known,
            before,
            delta_ops(before, d, c, t, w, history, state, strided, joined, act),
        ),
        has(
            known,
            delta_ops(before, d, c, t, w, history, state, strided, joined, act),
            c.sub,
        ),
{
    flow_delta_inputs(known, before, d, c, t, w, history);
    let g = before + delta_inputs(d, c, t, w, history);
    let g2 = if strided {
        flow_delta_rates(known, g, d, c, t, w);
        let r = g + delta_rates(d, c, t, w);
        flow_delta_rule(known, r, d, t, w, state, t.conv, t.conv, t.conv);
        r + delta_rule(d, t, w, state, t.conv, t.conv, t.conv)
    } else {
        flow_delta_parts(known, g, d, t);
        let p = g + delta_parts(d, t);
        flow_delta_rates(known, p, d, c, t, w);
        let r = p + delta_rates(d, c, t, w);
        flow_delta_rule(known, r, d, t, w, state, t.q, t.k, t.v);
        r + delta_rule(d, t, w, state, t.q, t.k, t.v)
    };
    let g3 = if joined {
        flow_delta_norm_joined(known, g2, d, t, w);
        g2 + delta_norm_joined(d, t, w)
    } else {
        flow_delta_norm_split(known, g2, d, t, w, act);
        g2 + delta_norm_split(d, t, w, act)
    };
    flow_delta_output(known, g3, d, c, t, w);
}

pub(crate) proof fn flow_gated_streams(
    known: Set<TensorId>,
    before: Seq<Op>,
    d: GraphDims,
    q: QwenScratch,
    w: QwenStreamW,
    residual: TensorId,
    dst: TensorId,
    ones: usize,
)
    requires
        sound(known, before),
        has(known, before, residual),
    ensures
        sound(known, gated_streams(before, d, q, w, residual, dst, ones)),
        grows(known, before, gated_streams(before, d, q, w, residual, dst, ones)),
        has(known, gated_streams(before, d, q, w, residual, dst, ones), dst),
        w.inject is Some ==> has(
            known,
            gated_streams(before, d, q, w, residual, dst, ones),
            q.inject,
        ),
{
    flow_mix_gated(known, before, d, q, w, residual, dst, ones);
    if let Some(weight) = w.inject {
        flow_inject_gates(known, before + mix_gated(d, q, w, residual, dst, ones), d, q, weight);
    }
}

/// What the parts of a plain attention layer are used together with: queries that stand before their
/// gates have a norm, no bias and a weight of their own, and only a joined projection is split.
pub open spec fn attention_fits(w: AttnW, p: LayerPlan) -> bool {
    &&& p.gated ==> !p.fused && p.qkv is None && w.qb is None && w.q_norm is Some
    &&& p.qkv is Some ==> p.fused
}

proof fn flow_project(
    known: Set<TensorId>,
    before: Seq<Op>,
    d: GraphDims,
    l: LayerWidths,
    c: CoreScratch,
    w: AttnW,
    p: LayerPlan,
)
    requires
        sound(known, before),
        has(known, before, c.hn),
        attention_fits(w, p),
    ensures
        sound(known, project_ops(before, d, l, c, w, p)),
        grows(known, before, project_ops(before, d, l, c, w, p)),
        p.gated ==> has(known, project_ops(before, d, l, c, w, p), c.gated),
        !p.gated ==> has(known, project_ops(before, d, l, c, w, p), c.q),
        p.fused ==> has(known, project_ops(before, d, l, c, w, p), c.k),
        p.fused ==> has(known, project_ops(before, d, l, c, w, p), c.v),
{
    let g = match p.qkv {
        Some(qkv) => {
            flow_joined_rows(known, before, d, l, c, w.wq, qkv);
            before + joined_rows(d, l, c, w.wq, qkv)
        },
        None => if p.fused {
            flow_joined_row(known, before, d, l, c, w.wq);
            before + joined_row(d, l, c, w.wq)
        } else if p.gated {
            flow_gated_query(known, before, d, l, c, w.wq);
            before + gated_query(d, l, c, w.wq)
        } else {
            flow_plain_query(known, before, d, l, c, w.wq);
            before + plain_query(d, l, c, w.wq)
        },
    };
    if let Some(qb) = w.qb {
        flow_biased(known, g, d, c.q, qb, l.query_row);
    }
}

proof fn flow_turn_normed(
    known: Set<TensorId>,
    before: Seq<Op>,
    d: GraphDims,
    i: RowIds,
    h: Heads,
    weight: usize,
)
    requires
        sound(known, before),
        has(known, before, h.x),
        has(known, before, i.positions),
        has_if(known, before, i.positions4),
        has_if(known, before, h.freq_factors),
    ensures
        sound(known, turn_normed(before, d, i, h, weight)),
        grows(known, before, turn_normed(before, d, i, h, weight)),
        has(known, turn_normed(before, d, i, h, weight), h.dst),
{
    match i.positions4 {
        Some(positions4) => flow_norm_rotate4(known, before, d, h, weight, positions4),
        None => flow_norm_rotate(known, before, d, i, h, weight),
    }
}

proof fn flow_turn_plain(
    known: Set<TensorId>,
    before: Seq<Op>,
    d: GraphDims,
    l: LayerWidths,
    i: RowIds,
    h: Heads,
    width: usize,
    p: LayerPlan,
)
    requires
        sound(known, before),
        has(known, before, h.x),
        has(known, before, i.positions),
        has_if(known, before, h.freq_factors),
    ensures
        sound(known, turn_plain(before, d, l, i, h, width, p)),
        grows(known, before, turn_plain(before, d, l, i, h, width, p)),
        has(known, turn_plain(before, d, l, i, h, width, p), h.dst),
{
    if p.nope {
        flow_cast_heads(known, before, d, h, width);
    } else {
        flow_rotate(known, before, d, i, h);
        if let Some(ones) = p.l2norm {
            flow_head_norm(known, before + rotate(d, i, h), d, l, h.dst, ones, h.heads);
        }
    }
}

proof fn flow_keys(
    known: Set<TensorId>,
    before: Seq<Op>,
    d: GraphDims,
    l: LayerWidths,
    c: CoreScratch,
    i: RowIds,
    w: AttnW,
    p: LayerPlan,
)
    requires
        sound(known, before),
        has(known, before, c.hn),
        p.fused ==> has(known, before, c.k) && has(known, before, c.v),
        has(known, before, i.positions),
        has_if(known, before, i.positions4),
        has_if(known, before, p.freq_factors),
        has(known, before, p.own.k),
        has(known, before, p.own.v),
    ensures
        sound(known, key_ops(before, d, l, c, i, w, p)),
        grows(known, before, key_ops(before, d, l, c, i, w, p)),
{
    let g = if p.fused {
        before
    } else {
        flow_plain_key(known, before, d, l, c, w.wk);
        let k = before + plain_key(d, l, c, w.wk);
        match w.wv {
            Some(wv) => {
                flow_plain_value(known, k, d, l, c, wv);
                k + plain_value(d, l, c, wv)
            },
            None => {
                flow_value_from_key(known, k, d, l, c);
                k + value_from_key(d, l, c)
            },
        }
    };
    let g2 = match w.kb {
        Some(kb) => {
            flow_biased(known, g, d, c.k, kb, l.kv_row);
            g + biased(d, c.k, kb, l.kv_row)
        },
        None => g,
    };
    let g3 = match w.vb {
        Some(vb) => {
            flow_biased(known, g2, d, c.v, vb, l.kv_row);
            g2 + biased(d, c.v, vb, l.kv_row)
        },
        None => g2,
    };
    let g4 = match p.v_ones {
        Some(ones) => {
            flow_head_norm(known, g3, d, l, c.v, ones, l.b.n_kv);
            g3 + head_norm(d, l, c.v, ones, l.b.n_kv)
        },
        None => g3,
    };
    let h = key_heads(d, l, c, p);
    let g5 = match w.k_norm {
        Some(weight) => {
            flow_turn_normed(known, g4, d, i, h, weight);
            turn_normed(g4, d, i, h, weight)
        },
        None => {
            flow_turn_plain(known, g4, d, l, i, h, l.kv_row, p);
            turn_plain(g4, d, l, i, h, l.kv_row, p)
        },
    };
    flow_cache_rows(known, g5, d, l, c, p.own.k, p.own.v);
}

proof fn flow_queries(
    known: Set<TensorId>,
    before: Seq<Op>,
    d: GraphDims,
    l: LayerWidths,
    c: CoreScratch,
    i: RowIds,
    w: AttnW,
    p: LayerPlan,
)
    requires
        sound(known, before),
        attention_fits(w, p),
        p.gated ==> has(known, before, c.gated),
        !p.gated ==> has(known, before, c.q),
        has(known, before, i.positions),
        has_if(known, before, i.positions4),
        has_if(known, before, p.freq_factors),
    ensures
        sound(known, query_ops(before, d, l, c, i, w, p)),
        grows(known, before, query_ops(before, d, l, c, i, w, p)),
        has(known, query_ops(before, d, l, c, i, w, p), c.q_half),
{
    match w.q_norm {
        Some(weight) => flow_turn_normed(
            known,
            before,
            d,
            i,
            query_heads(d, l, c, p, p.gated),
            weight,
        ),
        None => flow_turn_plain(
            known,
            before,
            d,
            l,
            i,
            query_heads(d, l, c, p, false),
            l.query_row,
            p,
        ),
    }
}

proof fn flow_index(
    known: Set<TensorId>,
    before: Seq<Op>,
    d: GraphDims,
    c: CoreScratch,
    s: SparseScratch,
    i: RowIds,
    w: QsaW,
    raw: TensorId,
    p: LayerPlan,
)
    requires
        sound(known, before),
        has(known, before, c.hn),
        has(known, before, raw),
        has(known, before, i.positions),
        has_if(known, before, i.positions4),
        has_if(known, before, p.freq_factors),
    ensures
        sound(known, index_ops(before, d, c, s, i, w, raw, p)),
        grows(known, before, index_ops(before, d, c, s, i, w, raw, p)),
        has(known, index_ops(before, d, c, s, i, w, raw, p), s.q_half),
{
    flow_sparse_keys(known, before, d, c, s, w, raw);
    let g = before + sparse_keys(d, c, s, w, raw);
    flow_turn_normed(known, g, d, i, index_heads(d, s, p), w.q_norm);
}

proof fn flow_selected(
    known: Set<TensorId>,
    before: Seq<Op>,
    d: GraphDims,
    l: LayerWidths,
    c: CoreScratch,
    i: RowIds,
    x: SparseLayer,
    p: LayerPlan,
)
    requires
        sound(known, before),
        has(known, before, c.q_half),
        has(known, before, x.s.q_half),
        has(known, before, x.raw),
        has(known, before, x.block),
        has_if(known, before, i.mrope_history),
        has(known, before, p.src.k),
        has(known, before, p.src.v),
    ensures
        sound(known, selected_ops(before, d, l, c, i, x, p)),
        grows(known, before, selected_ops(before, d, l, c, i, x, p)),
        has(known, selected_ops(before, d, l, c, i, x, p), c.attn),
{
    let theta = p.attend.theta;
    let history = i.mrope_history;
    match p.step {
        SparseStep::Dense { len, pos } => flow_attend(
            known,
            before,
            d,
            l,
            c,
            p.attend,
            p.src,
            len,
            pos,
        ),
        SparseStep::Batched { selected, compress_from } => {
            let rows = d.b.batch;
            flow_choose_blocks(
                known,
                before,
                d,
                x.s,
                x.w,
                x.raw,
                x.block,
                history,
                theta,
                rows,
                p.visible,
                compress_from,
                selected,
            );
            let g = before + choose_blocks(
                d,
                x.s,
                x.w,
                x.raw,
                x.block,
                history,
                theta,
                rows,
                p.visible,
                compress_from,
                selected,
            );
            flow_attend_blocks(known, g, d, l, c, x.s, p.attend, p.src, p.visible, selected);
        },
        SparseStep::Gathered { complete, tail, selected, compress_from, len, pos } => {
            flow_choose_blocks(
                known,
                before,
                d,
                x.s,
                x.w,
                x.raw,
                x.block,
                history,
                theta,
                1,
                p.visible,
                compress_from,
                selected,
            );
            let g = before + choose_blocks(
                d,
                x.s,
                x.w,
                x.raw,
                x.block,
                history,
                theta,
                1,
                p.visible,
                compress_from,
                selected,
            );
            flow_gather_blocks(known, g, d, l, x.s, p.src, selected, complete, tail);
            let g2 = g + gather_blocks(d, l, x.s, p.src, selected, complete, tail);
            let gathered = Caches { k: x.s.gather_k, v: x.s.gather_v };
            flow_attend(known, g2, d, l, c, p.attend, gathered, len, pos);
        },
    }
}

pub(crate) proof fn flow_attention_ops(
    known: Set<TensorId>,
    before: Seq<Op>,
    d: GraphDims,
    l: LayerWidths,
    c: CoreScratch,
    i: RowIds,
    w: AttnW,
    x: Option<SparseLayer>,
    p: LayerPlan,
    sub_norm: Option<usize>,
)
    requires
        sound(known, before),
        attention_fits(w, p),
        has(known, before, c.hn),
        has(known, before, i.positions),
        has_if(known, before, i.positions4),
        has_if(known, before, i.mrope_history),
        has_if(known, before, p.freq_factors),
        has(known, before, p.own.k),
        has(known, before, p.own.v),
        has(known, before, p.src.k),
        has(known, before, p.src.v),
        x matches Some(s) ==> has(known, before, s.raw) && has(known, before, s.block),
    ensures
        sound(known, attention_ops(before, d, l, c, i, w, x, p, sub_norm)),
        grows(known, before, attention_ops(before, d, l, c, i, w, x, p, sub_norm)),
        has(known, attention_ops(before, d, l, c, i, w, x, p, sub_norm), c.sub),
{
    flow_project(known, before, d, l, c, w, p);
    let g = project_ops(before, d, l, c, w, p);
    let g2 = if p.own_kv {
        flow_keys(known, g, d, l, c, i, w, p);
        key_ops(g, d, l, c, i, w, p)
    } else {
        g
    };
    flow_queries(known, g2, d, l, c, i, w, p);
    let g3 = query_ops(g2, d, l, c, i, w, p);
    let g4 = match x {
        Some(s) => {
            flow_index(known, g3, d, c, s.s, i, s.w, s.raw, p);
            let n = index_ops(g3, d, c, s.s, i, s.w, s.raw, p);
            flow_selected(known, n, d, l, c, i, s, p);
            selected_ops(n, d, l, c, i, s, p)
        },
        None => {
            flow_attend(known, g3, d, l, c, p.attend, p.src, p.visible, d.b.start_pos);
            g3 + attend(d, l, c, p.attend, p.src, p.visible, d.b.start_pos)
        },
    };
    let g5 = if p.gated {
        flow_gate_heads(known, g4, d, l, c);
        g4 + gate_heads(d, l, c)
    } else {
        g4
    };
    let g6 = match sub_norm {
        Some(weight) => {
            flow_norm_heads(known, g5, d, l, c, weight);
            g5 + norm_heads(d, l, c, weight)
        },
        None => g5,
    };
    flow_attention_out(known, g6, d, l, c, w.wo);
}

/// A token indexer reads the low-rank queries, so that a layer with one has them.
pub open spec fn latent_fits(w: MlaW) -> bool {
    w.indexer is Some ==> w.wq_a is Some && w.q_a_norm is Some
}

pub(crate) proof fn flow_latent_ops(
    known: Set<TensorId>,
    before: Seq<Op>,
    d: GraphDims,
    c: CoreScratch,
    s: LatentScratch,
    t: DeltaScratch,
    x: Option<TokenIndexScratch>,
    i: RowIds,
    w: MlaW,
    caches: Caches,
    a: Attend,
    yarn: Option<TensorId>,
)
    requires
        sound(known, before),
        latent_fits(w),
        has(known, before, c.hn),
        has(known, before, i.positions),
        has_if(known, before, yarn),
        has(known, before, caches.k),
        has(known, before, caches.v),
    ensures
        sound(known, latent_ops(before, d, c, s, t, x, i, w, caches, a, yarn)),
        grows(known, before, latent_ops(before, d, c, s, t, x, i, w, caches, a, yarn)),
        has(known, latent_ops(before, d, c, s, t, x, i, w, caches, a, yarn), c.sub),
{
    let g = match (w.wq_a, w.q_a_norm) {
        (Some(wq_a), Some(q_a_norm)) => {
            flow_latent_query_low(known, before, d, c, s, wq_a, q_a_norm, w.wq_b);
            before + latent_query_low(d, c, s, wq_a, q_a_norm, w.wq_b)
        },
        _ => {
            flow_latent_query(known, before, d, c, s, w.wq_b);
            before + latent_query(d, c, s, w.wq_b)
        },
    };
    let g2 = match (w.indexer, x) {
        (Some(indexer), Some(x)) => {
            flow_token_index(known, g, d, c, i, x, indexer, caches.v, a.theta, yarn);
            g + token_index(d, c, i, x, indexer, caches.v, a.theta, yarn)
        },
        _ => g,
    };
    let mask = match (w.indexer, x) {
        (Some(_), Some(x)) => Some(x.mask),
        _ => None,
    };
    flow_latent_key(known, g2, d, c, i, s, w, caches.k, a.theta, yarn);
    let g3 = g2 + latent_key(d, c, i, s, w, caches.k, a.theta, yarn);
    flow_latent_attend(known, g3, d, c, s, w, caches.k, a.mask, a.theta, yarn, mask);
    let g4 = g3 + latent_attend(d, c, s, w, caches.k, a.mask, a.theta, yarn, mask);
    let g5 = match w.gate {
        Some(weight) => {
            flow_latent_gate(known, g4, d, c, t, weight);
            g4 + latent_gate(d, c, t, weight)
        },
        None => g4,
    };
    flow_latent_out(known, g5, d, c, w);
}

proof fn flow_turn_tail(
    known: Set<TensorId>,
    before: Seq<Op>,
    d: GraphDims,
    i: RowIds,
    r: TailRope,
)
    requires
        sound(known, before),
        has(known, before, r.x),
        has(known, before, i.positions),
        has_if(known, before, r.freq_factors),
    ensures
        sound(known, turn_tail(before, d, i, r)),
        grows(known, before, turn_tail(before, d, i, r)),
{
    if r.rope_dim > 0 {
        flow_rope_tail(known, before, d, i.positions, r);
    }
}

proof fn flow_write_block(
    known: Set<TensorId>,
    before: Seq<Op>,
    src: TensorId,
    cache: TensorId,
    row: Option<usize>,
    cache_off: usize,
    packed: bool,
)
    requires
        sound(known, before),
        has(known, before, src),
        has(known, before, cache),
    ensures
        sound(known, write_block(before, src, cache, row, cache_off, packed)),
        grows(known, before, write_block(before, src, cache, row, cache_off, packed)),
{
    if let Some(at) = row {
        flow_cache_row(known, before, src, cache, at, cache_off, 1, packed);
    }
}

proof fn flow_blocks(
    known: Set<TensorId>,
    before: Seq<Op>,
    d: GraphDims,
    c: CoreScratch,
    x: CompressedScratch,
    i: RowIds,
    w: Dsv4CompressedW,
    y: CompressedLayout,
    state: TensorId,
    yarn: Option<TensorId>,
    ratio: usize,
    n: CompressedStep,
)
    requires
        sound(known, before),
        ratio == 4 ==> w.indexer is Some,
        has(known, before, c.hn),
        has(known, before, x.low),
        has(known, before, i.positions),
        has(known, before, state),
        has_if(known, before, yarn),
        n.scored ==> ratio == 4,
    ensures
        sound(known, block_ops(before, d, c, x, i, w, y, state, yarn, ratio, n)),
        grows(known, before, block_ops(before, d, c, x, i, w, y, state, yarn, ratio, n)),
        n.scored ==> has(
            known,
            block_ops(before, d, c, x, i, w, y, state, yarn, ratio, n),
            x.index_top,
        ),
{
    let width = if ratio == 4 {
        d.head_dim2
    } else {
        d.b.head_dim
    };
    flow_compress(known, before, d, c, x, w.attention, y, state, yarn, ratio, width);
    let g = before + compress(d, c, x, w.attention, y, state, yarn, ratio, width);
    flow_write_block(known, g, x.row, state, n.block_row, y.comp_off, false);
    let g2 = write_block(g, x.row, state, n.block_row, y.comp_off, false);
    if let Some(indexer) = w.indexer {
        if ratio == 4 {
            flow_compress_index(known, g2, d, c, x, indexer, y, state, yarn, ratio);
            let g3 = g2 + compress_index(d, c, x, indexer, y, state, yarn, ratio);
            flow_write_block(known, g3, x.index_key, state, n.block_row, y.index_off, true);
            let g4 = write_block(g3, x.index_key, state, n.block_row, y.index_off, true);
            if n.scored {
                flow_index_query(known, g4, d, x, indexer);
                let g5 = g4 + index_query(d, x, indexer);
                let tail = TailRope {
                    x: x.index_q,
                    pack: x.rope_q,
                    heads: d.b.indexer_n_head,
                    head_rows: d.index_head_rows,
                    head_dim: d.b.indexer_head_size,
                    nope_dim: d.index_nope_dim,
                    rope_dim: d.b.rope_dim,
                    theta: Theta::Compressed,
                    freq_factors: yarn,
                    backward: false,
                };
                flow_turn_tail(known, g5, d, i, tail);
                let g6 = turn_tail(g5, d, i, tail);
                flow_index_score(known, g6, d, c, x, indexer, y, state, n);
            }
        }
    }
}

proof fn flow_groups(
    known: Set<TensorId>,
    before: Seq<Op>,
    d: GraphDims,
    c: CoreScratch,
    x: CompressedScratch,
    w: Dsv4W,
    n: nat,
)
    requires
        sound(known, before),
        has(known, before, c.attn),
    ensures
        sound(known, groups_below(before, d, c, x, w, n)),
        grows(known, before, groups_below(before, d, c, x, w, n)),
        n > 0 ==> has(known, groups_below(before, d, c, x, w, n), x.groups),
    decreases n,
{
    if n > 0 {
        let k = n - 1;
        flow_groups(known, before, d, c, x, w, (n - 1) as nat);
        let g = groups_below(before, d, c, x, w, (n - 1) as nat);
        flow_group_out(
            known,
            g,
            d,
            c,
            x,
            w,
            (k * d.group_row) as usize,
            (k * d.b.o_lora_rank * d.group_row) as usize,
            (k * d.b.o_lora_rank) as usize,
        );
    }
}

/// The parts of a compressed-attention layer fit together: a compressed layer has its compressors,
/// only the smallest ratio has an indexer and chooses by score, and there is an output group.
pub open spec fn compressed_fits(
    d: GraphDims,
    blocks: Option<Dsv4CompressedW>,
    ratio: usize,
    n: CompressedStep,
) -> bool {
    &&& ratio != 0 ==> blocks is Some
    &&& ratio == 4 ==> (blocks matches Some(b) && b.indexer is Some)
    &&& n.scored ==> ratio == 4
    &&& d.b.o_group_count > 0
}

pub(crate) proof fn flow_compressed_ops(
    known: Set<TensorId>,
    before: Seq<Op>,
    d: GraphDims,
    c: CoreScratch,
    x: CompressedScratch,
    i: RowIds,
    w: Dsv4W,
    blocks: Option<Dsv4CompressedW>,
    y: CompressedLayout,
    caches: Caches,
    yarn: Option<TensorId>,
    ratio: usize,
    n: CompressedStep,
)
    requires
        sound(known, before),
        compressed_fits(d, blocks, ratio, n),
        has(known, before, c.hn),
        has(known, before, i.positions),
        has(known, before, caches.k),
        has(known, before, caches.v),
        has_if(known, before, yarn),
    ensures
        sound(known, compressed_ops(before, d, c, x, i, w, blocks, y, caches, yarn, ratio, n)),
        grows(
            known,
            before,
            compressed_ops(before, d, c, x, i, w, blocks, y, caches, yarn, ratio, n),
        ),
        has(
            known,
            compressed_ops(before, d, c, x, i, w, blocks, y, caches, yarn, ratio, n),
            c.sub,
        ),
{
    let theta = if ratio == 0 {
        Theta::Model
    } else {
        Theta::Compressed
    };
    let factors = if ratio == 0 {
        None
    } else {
        yarn
    };
    let heads = d.b.n_head;
    flow_compressed_query(known, before, d, c, x, w);
    let g = before + compressed_query(d, c, x, w);
    let q = compressed_tail(d, c.q, x.rope_q, heads, d.head_rows, theta, factors, false);
    flow_turn_tail(known, g, d, i, q);
    let g2 = turn_tail(g, d, i, q);
    flow_compressed_key(known, g2, d, c, x, w);
    let g3 = g2 + compressed_key(d, c, x, w);
    let k = compressed_tail(d, x.kv, x.rope_kv, 1, d.b.batch, theta, factors, false);
    flow_turn_tail(known, g3, d, i, k);
    let g4 = turn_tail(g3, d, i, k);
    flow_cache_row(known, g4, x.kv, caches.k, n.raw_row, 0, 1, false);
    let g5 = g4 + cache_row(x.kv, caches.k, n.raw_row, 0, 1, false);
    let g6 = match blocks {
        Some(b) => if ratio != 0 {
            flow_blocks(known, g5, d, c, x, i, b, y, caches.v, yarn, ratio, n);
            block_ops(g5, d, c, x, i, b, y, caches.v, yarn, ratio, n)
        } else {
            g5
        },
        None => g5,
    };
    flow_compressed_attend(known, g6, d, c, x, w, y, caches.k, caches.v, n);
    let g7 = g6 + compressed_attend(d, c, x, w, y, caches.k, caches.v, n);
    let back = compressed_tail(d, c.attn, x.rope_q, heads, d.head_rows, theta, factors, true);
    flow_turn_tail(known, g7, d, i, back);
    let g8 = turn_tail(g7, d, i, back);
    flow_groups(known, g8, d, c, x, w, d.b.o_group_count as nat);
    let g9 = groups_below(g8, d, c, x, w, d.b.o_group_count as nat);
    flow_compressed_out(known, g9, d, c, x, w);
}

} // verus!
