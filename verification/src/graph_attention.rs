//! The attention mixers of a layer: plain, block-sparse, latent and compressed.

use crate::attention_plan::{CompressedStep, SparseStep};
use crate::graph_dims::{GraphDims, LayerWidths};
use crate::graph_inputs::RowIds;
use crate::graph_mixers::{
    attend, attend_blocks, attention_out, biased, cache_row, cache_rows, cast_heads, choose_blocks,
    compress, compress_index, compressed_attend, compressed_key, compressed_out, compressed_query,
    gate_heads, gated_query, gather_blocks, group_out, head_norm, index_query, index_score,
    joined_row, joined_rows, latent_attend, latent_gate, latent_key, latent_out, latent_query,
    latent_query_low, norm_heads, norm_rotate, norm_rotate4, plain_key, plain_query, plain_value,
    push_attend, push_attend_blocks, push_attention_out, push_biased, push_cache_row,
    push_cache_rows, push_cast_heads, push_choose_blocks, push_compress, push_compress_index,
    push_compressed_attend, push_compressed_key, push_compressed_out, push_compressed_query,
    push_gate_heads, push_gated_query, push_gather_blocks, push_group_out, push_head_norm,
    push_index_query, push_index_score, push_joined_row, push_joined_rows, push_latent_attend,
    push_latent_gate, push_latent_key, push_latent_out, push_latent_query, push_latent_query_low,
    push_norm_heads, push_norm_rotate, push_norm_rotate4, push_plain_key, push_plain_query,
    push_plain_value, push_rope_tail, push_rotate, push_sparse_keys, push_token_index,
    push_value_from_key, rope_tail, rotate, sparse_keys, token_index, value_from_key, Attend,
    Caches, CompressedLayout, Heads, TailRope,
};
use crate::graph_ops::{Op, Theta};
use crate::graph_scratch::{
    CompressedScratch, CoreScratch, DeltaScratch, LatentScratch, SparseScratch, TokenIndexScratch,
};
use crate::weight_handles::{AttnW, Dsv4CompressedW, Dsv4W, MlaW, QsaW};
use crate::weight_plan::TensorId;
use vstd::prelude::*;

verus! {

/// How one layer attends.
#[derive(Clone, Copy, Debug, PartialEq, Eq, Structural)]
pub struct LayerPlan {
    /// Nothing is rotated.
    pub nope: bool,
    /// The layer writes its own caches.
    pub own_kv: bool,
    pub own: Caches,
    /// The caches that are read: the layer's own, or an earlier layer's.
    pub src: Caches,
    pub attend: Attend,
    pub freq_factors: Option<TensorId>,
    /// The ones of a weightless norm on rotated heads, and on values.
    pub l2norm: Option<usize>,
    pub v_ones: Option<usize>,
    /// Queries, keys and values are one weight.
    pub fused: bool,
    /// Queries stand before their gates.
    pub gated: bool,
    /// The joined projection of several rows.
    pub qkv: Option<TensorId>,
    /// One more than the last position of the batch.
    pub visible: usize,
    pub step: SparseStep,
}

/// The projections of queries, and of keys and values where they are one weight.
pub open spec fn project_ops(
    before: Seq<Op>,
    d: GraphDims,
    l: LayerWidths,
    c: CoreScratch,
    w: AttnW,
    p: LayerPlan,
) -> Seq<Op> {
    let g = match p.qkv {
        Some(qkv) => before + joined_rows(d, l, c, w.wq, qkv),
        None => if p.fused {
            before + joined_row(d, l, c, w.wq)
        } else if p.gated {
            before + gated_query(d, l, c, w.wq)
        } else {
            before + plain_query(d, l, c, w.wq)
        },
    };
    match w.qb {
        Some(qb) => g + biased(d, c.q, qb, l.query_row),
        None => g,
    }
}

fn emit_project(
    ops: &mut Vec<Op>,
    d: &GraphDims,
    l: &LayerWidths,
    c: &CoreScratch,
    w: &AttnW,
    p: &LayerPlan,
)
    ensures
        final(ops)@ == project_ops(old(ops)@, *d, *l, *c, *w, *p),
{
    match p.qkv {
        Some(qkv) => push_joined_rows(ops, d, l, c, w.wq, qkv),
        None => if p.fused {
            push_joined_row(ops, d, l, c, w.wq)
        } else if p.gated {
            push_gated_query(ops, d, l, c, w.wq)
        } else {
            push_plain_query(ops, d, l, c, w.wq)
        },
    }
    if let Some(qb) = w.qb {
        push_biased(ops, d, c.q, qb, l.query_row);
    }
}

/// The key heads.
pub open spec fn key_heads(d: GraphDims, l: LayerWidths, c: CoreScratch, p: LayerPlan) -> Heads {
    Heads {
        x: c.k,
        dst: c.k_half,
        heads: l.b.n_kv,
        head_dim: l.b.head_dim,
        rope_dim: l.b.rope_dim,
        theta: p.attend.theta,
        freq_factors: p.freq_factors,
        x_stride: 0,
    }
}

/// The query heads; where queries stand before their gates, they are read from among them.
pub open spec fn query_heads(
    d: GraphDims,
    l: LayerWidths,
    c: CoreScratch,
    p: LayerPlan,
    among: bool,
) -> Heads {
    Heads {
        x: if among {
            c.gated
        } else {
            c.q
        },
        dst: c.q_half,
        heads: d.b.n_head,
        head_dim: l.b.head_dim,
        rope_dim: l.b.rope_dim,
        theta: p.attend.theta,
        freq_factors: p.freq_factors,
        x_stride: if among {
            l.gated_row
        } else {
            0
        },
    }
}

/// Heads that are normed and rotated, by four-component positions where the batch has them.
pub open spec fn turn_normed(before: Seq<Op>, d: GraphDims, i: RowIds, h: Heads, weight: usize) -> Seq<
    Op,
> {
    match i.positions4 {
        Some(positions4) => before + norm_rotate4(d, h, weight, positions4),
        None => before + norm_rotate(d, i, h, weight),
    }
}

fn emit_turn_normed(ops: &mut Vec<Op>, d: &GraphDims, i: &RowIds, h: &Heads, weight: usize)
    ensures
        final(ops)@ == turn_normed(old(ops)@, *d, *i, *h, weight),
{
    match i.positions4 {
        Some(positions4) => push_norm_rotate4(ops, d, h, weight, positions4),
        None => push_norm_rotate(ops, d, i, h, weight),
    }
}

/// Heads without a norm of their own: only cast where nothing is rotated, or else rotated and, where
/// the model has it, normed without a weight.
pub open spec fn turn_plain(
    before: Seq<Op>,
    d: GraphDims,
    l: LayerWidths,
    i: RowIds,
    h: Heads,
    width: usize,
    p: LayerPlan,
) -> Seq<Op> {
    if p.nope {
        before + cast_heads(d, h, width)
    } else {
        let g = before + rotate(d, i, h);
        match p.l2norm {
            Some(ones) => g + head_norm(d, l, h.dst, ones, h.heads),
            None => g,
        }
    }
}

fn emit_turn_plain(
    ops: &mut Vec<Op>,
    d: &GraphDims,
    l: &LayerWidths,
    i: &RowIds,
    h: &Heads,
    width: usize,
    p: &LayerPlan,
)
    ensures
        final(ops)@ == turn_plain(old(ops)@, *d, *l, *i, *h, width, *p),
{
    if p.nope {
        push_cast_heads(ops, d, h, width);
    } else {
        push_rotate(ops, d, i, h);
        if let Some(ones) = p.l2norm {
            push_head_norm(ops, d, l, h.dst, ones, h.heads);
        }
    }
}

/// Keys and values: projected unless they already are, biased, normed, rotated and cached. The last
/// operation on the keys stands directly before they are cached.
pub open spec fn key_ops(
    before: Seq<Op>,
    d: GraphDims,
    l: LayerWidths,
    c: CoreScratch,
    i: RowIds,
    w: AttnW,
    p: LayerPlan,
) -> Seq<Op> {
    let g = if p.fused {
        before
    } else {
        let k = before + plain_key(d, l, c, w.wk);
        match w.wv {
            Some(wv) => k + plain_value(d, l, c, wv),
            None => k + value_from_key(d, l, c),
        }
    };
    let g = match w.kb {
        Some(kb) => g + biased(d, c.k, kb, l.kv_row),
        None => g,
    };
    let g = match w.vb {
        Some(vb) => g + biased(d, c.v, vb, l.kv_row),
        None => g,
    };
    let g = match p.v_ones {
        Some(ones) => g + head_norm(d, l, c.v, ones, l.b.n_kv),
        None => g,
    };
    let h = key_heads(d, l, c, p);
    let g = match w.k_norm {
        Some(weight) => turn_normed(g, d, i, h, weight),
        None => turn_plain(g, d, l, i, h, l.kv_row, p),
    };
    g + cache_rows(d, l, c, p.own.k, p.own.v)
}

fn emit_keys(
    ops: &mut Vec<Op>,
    d: &GraphDims,
    l: &LayerWidths,
    c: &CoreScratch,
    i: &RowIds,
    w: &AttnW,
    p: &LayerPlan,
)
    ensures
        final(ops)@ == key_ops(old(ops)@, *d, *l, *c, *i, *w, *p),
{
    if !p.fused {
        push_plain_key(ops, d, l, c, w.wk);
        match w.wv {
            Some(wv) => push_plain_value(ops, d, l, c, wv),
            None => push_value_from_key(ops, d, l, c),
        }
    }
    if let Some(kb) = w.kb {
        push_biased(ops, d, c.k, kb, l.kv_row);
    }
    if let Some(vb) = w.vb {
        push_biased(ops, d, c.v, vb, l.kv_row);
    }
    if let Some(ones) = p.v_ones {
        push_head_norm(ops, d, l, c.v, ones, l.b.n_kv);
    }
    let h: Heads = Heads {
        x: c.k,
        dst: c.k_half,
        heads: l.b.n_kv,
        head_dim: l.b.head_dim,
        rope_dim: l.b.rope_dim,
        theta: p.attend.theta,
        freq_factors: p.freq_factors,
        x_stride: 0,
    };
    match w.k_norm {
        Some(weight) => emit_turn_normed(ops, d, i, &h, weight),
        None => emit_turn_plain(ops, d, l, i, &h, l.kv_row, p),
    }
    push_cache_rows(ops, d, l, c, p.own.k, p.own.v);
}

/// Queries: normed and rotated.
pub open spec fn query_ops(
    before: Seq<Op>,
    d: GraphDims,
    l: LayerWidths,
    c: CoreScratch,
    i: RowIds,
    w: AttnW,
    p: LayerPlan,
) -> Seq<Op> {
    match w.q_norm {
        Some(weight) => turn_normed(before, d, i, query_heads(d, l, c, p, p.gated), weight),
        None => turn_plain(before, d, l, i, query_heads(d, l, c, p, false), l.query_row, p),
    }
}

fn emit_queries(
    ops: &mut Vec<Op>,
    d: &GraphDims,
    l: &LayerWidths,
    c: &CoreScratch,
    i: &RowIds,
    w: &AttnW,
    p: &LayerPlan,
)
    ensures
        final(ops)@ == query_ops(old(ops)@, *d, *l, *c, *i, *w, *p),
{
    let among: bool = p.gated && w.q_norm.is_some();
    let h: Heads = Heads {
        x: if among {
            c.gated
        } else {
            c.q
        },
        dst: c.q_half,
        heads: d.b.n_head,
        head_dim: l.b.head_dim,
        rope_dim: l.b.rope_dim,
        theta: p.attend.theta,
        freq_factors: p.freq_factors,
        x_stride: if among {
            l.gated_row
        } else {
            0
        },
    };
    match w.q_norm {
        Some(weight) => emit_turn_normed(ops, d, i, &h, weight),
        None => emit_turn_plain(ops, d, l, i, &h, l.query_row, p),
    }
}

/// The index heads of a sparse layer.
pub open spec fn index_heads(d: GraphDims, s: SparseScratch, p: LayerPlan) -> Heads {
    Heads {
        x: s.q,
        dst: s.q_half,
        heads: d.b.indexer_n_head,
        head_dim: d.b.indexer_head_size,
        rope_dim: d.b.rope_dim,
        theta: p.attend.theta,
        freq_factors: p.freq_factors,
        x_stride: 0,
    }
}

/// The index keys and queries of a sparse layer.
pub open spec fn index_ops(
    before: Seq<Op>,
    d: GraphDims,
    c: CoreScratch,
    s: SparseScratch,
    i: RowIds,
    w: QsaW,
    raw: TensorId,
    p: LayerPlan,
) -> Seq<Op> {
    turn_normed(
        before + sparse_keys(d, c, s, w, raw),
        d,
        i,
        index_heads(d, s, p),
        w.q_norm,
    )
}

fn emit_index(
    ops: &mut Vec<Op>,
    d: &GraphDims,
    c: &CoreScratch,
    s: &SparseScratch,
    i: &RowIds,
    w: &QsaW,
    raw: TensorId,
    p: &LayerPlan,
)
    ensures
        final(ops)@ == index_ops(old(ops)@, *d, *c, *s, *i, *w, raw, *p),
{
    push_sparse_keys(ops, d, c, s, w, raw);
    let h: Heads = Heads {
        x: s.q,
        dst: s.q_half,
        heads: d.b.indexer_n_head,
        head_dim: d.b.indexer_head_size,
        rope_dim: d.b.rope_dim,
        theta: p.attend.theta,
        freq_factors: p.freq_factors,
        x_stride: 0,
    };
    emit_turn_normed(ops, d, i, &h, w.q_norm);
}

/// What a sparse layer needs besides: its scratch, its weights and its index caches.
#[derive(Clone, Copy, Debug, PartialEq, Eq, Structural)]
pub struct SparseLayer {
    pub s: SparseScratch,
    pub w: QsaW,
    pub raw: TensorId,
    pub block: TensorId,
}

/// Attention over a selection of blocks.
pub open spec fn selected_ops(
    before: Seq<Op>,
    d: GraphDims,
    l: LayerWidths,
    c: CoreScratch,
    i: RowIds,
    x: SparseLayer,
    p: LayerPlan,
) -> Seq<Op> {
    match p.step {
        SparseStep::Dense { len, pos } => before + attend(d, l, c, p.attend, p.src, len, pos),
        SparseStep::Batched { selected, compress_from } => before + choose_blocks(
            d,
            x.s,
            x.w,
            x.raw,
            x.block,
            i.mrope_history,
            p.attend.theta,
            d.b.batch,
            p.visible,
            compress_from,
            selected,
        ) + attend_blocks(d, l, c, x.s, p.attend, p.src, p.visible, selected),
        SparseStep::Gathered { complete, tail, selected, compress_from, len, pos } => before
            + choose_blocks(
            d,
            x.s,
            x.w,
            x.raw,
            x.block,
            i.mrope_history,
            p.attend.theta,
            1,
            p.visible,
            compress_from,
            selected,
        ) + gather_blocks(d, l, x.s, p.src, selected, complete, tail) + attend(
            d,
            l,
            c,
            p.attend,
            Caches { k: x.s.gather_k, v: x.s.gather_v },
            len,
            pos,
        ),
    }
}

fn emit_selected(
    ops: &mut Vec<Op>,
    d: &GraphDims,
    l: &LayerWidths,
    c: &CoreScratch,
    i: &RowIds,
    x: &SparseLayer,
    p: &LayerPlan,
)
    ensures
        final(ops)@ == selected_ops(old(ops)@, *d, *l, *c, *i, *x, *p),
{
    match p.step {
        SparseStep::Dense { len, pos } => push_attend(ops, d, l, c, &p.attend, &p.src, len, pos),
        SparseStep::Batched { selected, compress_from } => {
            push_choose_blocks(
                ops,
                d,
                &x.s,
                &x.w,
                x.raw,
                x.block,
                i.mrope_history,
                p.attend.theta,
                d.b.batch,
                p.visible,
                compress_from,
                selected,
            );
            push_attend_blocks(ops, d, l, c, &x.s, &p.attend, &p.src, p.visible, selected);
        },
        SparseStep::Gathered { complete, tail, selected, compress_from, len, pos } => {
            push_choose_blocks(
                ops,
                d,
                &x.s,
                &x.w,
                x.raw,
                x.block,
                i.mrope_history,
                p.attend.theta,
                1,
                p.visible,
                compress_from,
                selected,
            );
            push_gather_blocks(ops, d, l, &x.s, &p.src, selected, complete, tail);
            let gathered: Caches = Caches { k: x.s.gather_k, v: x.s.gather_v };
            push_attend(ops, d, l, c, &p.attend, &gathered, len, pos);
        },
    }
}

/// A plain attention mixer, sparse where `x` is given.
pub open spec fn attention_ops(
    before: Seq<Op>,
    d: GraphDims,
    l: LayerWidths,
    c: CoreScratch,
    i: RowIds,
    w: AttnW,
    x: Option<SparseLayer>,
    p: LayerPlan,
    sub_norm: Option<usize>,
) -> Seq<Op> {
    let g = project_ops(before, d, l, c, w, p);
    let g = if p.own_kv {
        key_ops(g, d, l, c, i, w, p)
    } else {
        g
    };
    let g = query_ops(g, d, l, c, i, w, p);
    let g = match x {
        Some(x) => selected_ops(index_ops(g, d, c, x.s, i, x.w, x.raw, p), d, l, c, i, x, p),
        None => g + attend(d, l, c, p.attend, p.src, p.visible, d.b.start_pos),
    };
    let g = if p.gated {
        g + gate_heads(d, l, c)
    } else {
        g
    };
    let g = match sub_norm {
        Some(weight) => g + norm_heads(d, l, c, weight),
        None => g,
    };
    g + attention_out(d, l, c, w.wo)
}

/// See [`attention_ops`].
pub fn emit_attention(
    ops: &mut Vec<Op>,
    d: &GraphDims,
    l: &LayerWidths,
    c: &CoreScratch,
    i: &RowIds,
    w: &AttnW,
    x: &Option<SparseLayer>,
    p: &LayerPlan,
    sub_norm: Option<usize>,
)
    ensures
        final(ops)@ == attention_ops(old(ops)@, *d, *l, *c, *i, *w, *x, *p, sub_norm),
{
    emit_project(ops, d, l, c, w, p);
    if p.own_kv {
        emit_keys(ops, d, l, c, i, w, p);
    }
    emit_queries(ops, d, l, c, i, w, p);
    match x {
        Some(x) => {
            emit_index(ops, d, c, &x.s, i, &x.w, x.raw, p);
            emit_selected(ops, d, l, c, i, x, p);
        },
        None => push_attend(ops, d, l, c, &p.attend, &p.src, p.visible, d.b.start_pos),
    }
    if p.gated {
        push_gate_heads(ops, d, l, c);
    }
    if let Some(weight) = sub_norm {
        push_norm_heads(ops, d, l, c, weight);
    }
    push_attention_out(ops, d, l, c, w.wo);
}

/// A latent-attention mixer. Where the layer has a token indexer, its mask decides which keys are
/// attended.
pub open spec fn latent_ops(
    before: Seq<Op>,
    d: GraphDims,
    c: CoreScratch,
    s: LatentScratch,
    t: DeltaScratch,
    x: Option<TokenIndexScratch>,
    i: RowIds,
    w: MlaW,
    caches: Caches,
    a: Attend,
    yarn: Option<TensorId>,
) -> Seq<Op> {
    let g = match (w.wq_a, w.q_a_norm) {
        (Some(wq_a), Some(q_a_norm)) => before + latent_query_low(
            d,
            c,
            s,
            wq_a,
            q_a_norm,
            w.wq_b,
        ),
        _ => before + latent_query(d, c, s, w.wq_b),
    };
    let g = match (w.indexer, x) {
        (Some(indexer), Some(x)) => g + token_index(d, c, i, x, indexer, caches.v, a.theta, yarn),
        _ => g,
    };
    let mask = match (w.indexer, x) {
        (Some(_), Some(x)) => Some(x.mask),
        _ => None,
    };
    let g = g + latent_key(d, c, i, s, w, caches.k, a.theta, yarn);
    let g = g + latent_attend(d, c, s, w, caches.k, a.mask, a.theta, yarn, mask);
    let g = match w.gate {
        Some(weight) => g + latent_gate(d, c, t, weight),
        None => g,
    };
    g + latent_out(d, c, w)
}

/// See [`latent_ops`].
pub fn emit_latent(
    ops: &mut Vec<Op>,
    d: &GraphDims,
    c: &CoreScratch,
    s: &LatentScratch,
    t: &DeltaScratch,
    x: &Option<TokenIndexScratch>,
    i: &RowIds,
    w: &MlaW,
    caches: &Caches,
    a: &Attend,
    yarn: Option<TensorId>,
)
    requires
        w.indexer is Some ==> x is Some,
    ensures
        final(ops)@ == latent_ops(
            old(ops)@,
            *d,
            *c,
            *s,
            *t,
            *x,
            *i,
            *w,
            *caches,
            *a,
            yarn,
        ),
{
    match (w.wq_a, w.q_a_norm) {
        (Some(wq_a), Some(q_a_norm)) => push_latent_query_low(
            ops,
            d,
            c,
            s,
            wq_a,
            q_a_norm,
            w.wq_b,
        ),
        _ => push_latent_query(ops, d, c, s, w.wq_b),
    }
    let mut mask: Option<TensorId> = None;
    match (w.indexer, x) {
        (Some(indexer), Some(x)) => {
            push_token_index(ops, d, c, i, x, &indexer, caches.v, a.theta, yarn);
            mask = Some(x.mask);
        },
        _ => {},
    }
    push_latent_key(ops, d, c, i, s, w, caches.k, a.theta, yarn);
    push_latent_attend(ops, d, c, s, w, caches.k, a.mask, a.theta, yarn, mask);
    if let Some(weight) = w.gate {
        push_latent_gate(ops, d, c, t, weight);
    }
    push_latent_out(ops, d, c, w);
}

/// The rotation of heads in compressed attention.
pub open spec fn compressed_tail(
    d: GraphDims,
    x: TensorId,
    pack: TensorId,
    heads: usize,
    head_rows: usize,
    theta: Theta,
    freq_factors: Option<TensorId>,
    backward: bool,
) -> TailRope {
    TailRope {
        x,
        pack,
        heads,
        head_rows,
        head_dim: d.b.head_dim,
        nope_dim: d.nope_dim,
        rope_dim: d.b.rope_dim,
        theta,
        freq_factors,
        backward,
    }
}

/// A rotation, if anything is rotated.
pub open spec fn turn_tail(before: Seq<Op>, d: GraphDims, i: RowIds, r: TailRope) -> Seq<Op> {
    if r.rope_dim > 0 {
        before + rope_tail(d, i.positions, r)
    } else {
        before
    }
}

fn emit_turn_tail(ops: &mut Vec<Op>, d: &GraphDims, i: &RowIds, r: &TailRope)
    ensures
        final(ops)@ == turn_tail(old(ops)@, *d, *i, *r),
{
    if r.rope_dim > 0 {
        push_rope_tail(ops, d, i.positions, r);
    }
}

/// A row, written to a packed cache where one is complete.
pub open spec fn write_block(
    before: Seq<Op>,
    src: TensorId,
    cache: TensorId,
    row: Option<usize>,
    cache_off: usize,
    packed: bool,
) -> Seq<Op> {
    match row {
        Some(row) => before + cache_row(src, cache, row, cache_off, 1, packed),
        None => before,
    }
}

fn emit_write_block(
    ops: &mut Vec<Op>,
    src: TensorId,
    cache: TensorId,
    row: Option<usize>,
    cache_off: usize,
    packed: bool,
)
    ensures
        final(ops)@ == write_block(old(ops)@, src, cache, row, cache_off, packed),
{
    if let Some(row) = row {
        push_cache_row(ops, src, cache, row, cache_off, 1, packed);
    }
}

/// What one token adds to the compressed rows, and the choice among them.
pub open spec fn block_ops(
    before: Seq<Op>,
    d: GraphDims,
    c: CoreScratch,
    x: CompressedScratch,
    i: RowIds,
    w: Dsv4CompressedW,
    y: CompressedLayout,
    state: TensorId,
    yarn: Option<TensorId>,
    ratio: usize,
    n: CompressedStep,
) -> Seq<Op> {
    let width = if ratio == 4 {
        d.head_dim2
    } else {
        d.b.head_dim
    };
    let g = before + compress(d, c, x, w.attention, y, state, yarn, ratio, width);
    let g = write_block(g, x.row, state, n.block_row, y.comp_off, false);
    match w.indexer {
        Some(indexer) => if ratio == 4 {
            let g = g + compress_index(d, c, x, indexer, y, state, yarn, ratio);
            let g = write_block(g, x.index_key, state, n.block_row, y.index_off, true);
            if n.scored {
                let g = g + index_query(d, x, indexer);
                let tail = TailRope {
                    x: x.index_q,
                    pack: x.rope_q,
                    heads: d.b.indexer_n_head,
                    head_rows: d.index_head_rows,
                    head_dim: d.b.indexer_head_size,
                    nope_dim: d.index_nope_dim,
                    rope_dim: d.b.rope_dim,
                    theta: Theta::Compressed,
                    freq_factors: yarn,
                    backward: false,
                };
                let g = turn_tail(g, d, i, tail);
                g + index_score(d, c, x, indexer, y, state, n)
            } else {
                g
            }
        } else {
            g
        },
        None => g,
    }
}

fn emit_blocks(
    ops: &mut Vec<Op>,
    d: &GraphDims,
    c: &CoreScratch,
    x: &CompressedScratch,
    i: &RowIds,
    w: &Dsv4CompressedW,
    y: &CompressedLayout,
    state: TensorId,
    yarn: Option<TensorId>,
    ratio: usize,
    n: &CompressedStep,
)
    ensures
        final(ops)@ == block_ops(
            old(ops)@,
            *d,
            *c,
            *x,
            *i,
            *w,
            *y,
            state,
            yarn,
            ratio,
            *n,
        ),
{
    let width: usize = if ratio == 4 {
        d.head_dim2
    } else {
        d.b.head_dim
    };
    push_compress(ops, d, c, x, &w.attention, y, state, yarn, ratio, width);
    emit_write_block(ops, x.row, state, n.block_row, y.comp_off, false);
    if let Some(indexer) = w.indexer {
        if ratio == 4 {
            push_compress_index(ops, d, c, x, &indexer, y, state, yarn, ratio);
            emit_write_block(ops, x.index_key, state, n.block_row, y.index_off, true);
            if n.scored {
                push_index_query(ops, d, x, &indexer);
                let tail: TailRope = TailRope {
                    x: x.index_q,
                    pack: x.rope_q,
                    heads: d.b.indexer_n_head,
                    head_rows: d.index_head_rows,
                    head_dim: d.b.indexer_head_size,
                    nope_dim: d.index_nope_dim,
                    rope_dim: d.b.rope_dim,
                    theta: Theta::Compressed,
                    freq_factors: yarn,
                    backward: false,
                };
                emit_turn_tail(ops, d, i, &tail);
                push_index_score(ops, d, c, x, &indexer, y, state, n);
            }
        }
    }
}

/// The first `n` output groups.
pub open spec fn groups_below(
    before: Seq<Op>,
    d: GraphDims,
    c: CoreScratch,
    x: CompressedScratch,
    w: Dsv4W,
    n: nat,
) -> Seq<Op>
    decreases n,
{
    if n == 0 {
        before
    } else {
        let k = n - 1;
        groups_below(before, d, c, x, w, (n - 1) as nat) + group_out(
            d,
            c,
            x,
            w,
            (k * d.group_row) as usize,
            (k * d.b.o_lora_rank * d.group_row) as usize,
            (k * d.b.o_lora_rank) as usize,
        )
    }
}

fn emit_groups(ops: &mut Vec<Op>, d: &GraphDims, c: &CoreScratch, x: &CompressedScratch, w: &Dsv4W)
    requires
        d.b.o_group_count * d.group_row <= usize::MAX,
        d.b.o_group_count * d.b.o_lora_rank <= usize::MAX,
        d.b.o_group_count * d.b.o_lora_rank * d.group_row <= usize::MAX,
    ensures
        final(ops)@ == groups_below(old(ops)@, *d, *c, *x, *w, d.b.o_group_count as nat),
{
    let ghost before = ops@;
    let n: usize = d.b.o_group_count;
    let mut k: usize = 0;
    while k < n
        invariant
            k <= n == d.b.o_group_count,
            n * d.group_row <= usize::MAX,
            n * d.b.o_lora_rank <= usize::MAX,
            n * d.b.o_lora_rank * d.group_row <= usize::MAX,
            ops@ == groups_below(before, *d, *c, *x, *w, k as nat),
        decreases n - k,
    {
        proof {
            assert(k * d.group_row <= n * d.group_row) by (nonlinear_arith)
                requires
                    k <= n,
                    d.group_row >= 0,
            ;
            assert(k * d.b.o_lora_rank <= n * d.b.o_lora_rank) by (nonlinear_arith)
                requires
                    k <= n,
                    d.b.o_lora_rank >= 0,
            ;
            assert(k * d.b.o_lora_rank * d.group_row <= n * d.b.o_lora_rank * d.group_row)
                by (nonlinear_arith)
                requires
                    k * d.b.o_lora_rank <= n * d.b.o_lora_rank,
                    d.group_row >= 0,
            ;
        }
        let from: usize = k * d.group_row;
        let to: usize = k * d.b.o_lora_rank;
        let w_off: usize = to * d.group_row;
        push_group_out(ops, d, c, x, w, from, w_off, to);
        k = k + 1;
    }
}

/// A compressed-attention mixer for one token. The output of attention is rotated back before it is
/// projected.
pub open spec fn compressed_ops(
    before: Seq<Op>,
    d: GraphDims,
    c: CoreScratch,
    x: CompressedScratch,
    i: RowIds,
    w: Dsv4W,
    blocks: Option<Dsv4CompressedW>,
    y: CompressedLayout,
    caches: Caches,
    yarn: Option<TensorId>,
    ratio: usize,
    n: CompressedStep,
) -> Seq<Op> {
    let theta = if ratio == 0 {
        Theta::Model
    } else {
        Theta::Compressed
    };
    let factors = if ratio == 0 {
        None
    } else {
        yarn
    };
    let heads = d.b.n_head;
    let g = before + compressed_query(d, c, x, w);
    let g = turn_tail(
        g,
        d,
        i,
        compressed_tail(d, c.q, x.rope_q, heads, d.head_rows, theta, factors, false),
    );
    let g = g + compressed_key(d, c, x, w);
    let g = turn_tail(
        g,
        d,
        i,
        compressed_tail(d, x.kv, x.rope_kv, 1, d.b.batch, theta, factors, false),
    );
    let g = g + cache_row(x.kv, caches.k, n.raw_row, 0, 1, false);
    let g = match blocks {
        Some(b) => if ratio != 0 {
            block_ops(g, d, c, x, i, b, y, caches.v, yarn, ratio, n)
        } else {
            g
        },
        None => g,
    };
    let g = g + compressed_attend(d, c, x, w, y, caches.k, caches.v, n);
    let g = turn_tail(
        g,
        d,
        i,
        compressed_tail(d, c.attn, x.rope_q, heads, d.head_rows, theta, factors, true),
    );
    let g = groups_below(g, d, c, x, w, d.b.o_group_count as nat);
    g + compressed_out(d, c, x, w)
}

fn tail(
    d: &GraphDims,
    x: TensorId,
    pack: TensorId,
    heads: usize,
    head_rows: usize,
    theta: Theta,
    freq_factors: Option<TensorId>,
    backward: bool,
) -> (r: TailRope)
    ensures
        r == compressed_tail(*d, x, pack, heads, head_rows, theta, freq_factors, backward),
{
    TailRope {
        x,
        pack,
        heads,
        head_rows,
        head_dim: d.b.head_dim,
        nope_dim: d.nope_dim,
        rope_dim: d.b.rope_dim,
        theta,
        freq_factors,
        backward,
    }
}

/// See [`compressed_ops`].
pub fn emit_compressed(
    ops: &mut Vec<Op>,
    d: &GraphDims,
    c: &CoreScratch,
    x: &CompressedScratch,
    i: &RowIds,
    w: &Dsv4W,
    blocks: &Option<Dsv4CompressedW>,
    y: &CompressedLayout,
    caches: &Caches,
    yarn: Option<TensorId>,
    ratio: usize,
    n: &CompressedStep,
)
    requires
        d.b.batch == 1,
        ratio != 0 ==> blocks is Some,
        ratio == 4 ==> (blocks matches Some(b) && b.indexer is Some),
        d.b.o_group_count * d.group_row <= usize::MAX,
        d.b.o_group_count * d.b.o_lora_rank <= usize::MAX,
        d.b.o_group_count * d.b.o_lora_rank * d.group_row <= usize::MAX,
    ensures
        final(ops)@ == compressed_ops(
            old(ops)@,
            *d,
            *c,
            *x,
            *i,
            *w,
            *blocks,
            *y,
            *caches,
            yarn,
            ratio,
            *n,
        ),
{
    let theta: Theta = if ratio == 0 {
        Theta::Model
    } else {
        Theta::Compressed
    };
    let factors: Option<TensorId> = if ratio == 0 {
        None
    } else {
        yarn
    };
    let heads: usize = d.b.n_head;
    push_compressed_query(ops, d, c, x, w);
    let q: TailRope = tail(d, c.q, x.rope_q, heads, d.head_rows, theta, factors, false);
    emit_turn_tail(ops, d, i, &q);
    push_compressed_key(ops, d, c, x, w);
    let k: TailRope = tail(d, x.kv, x.rope_kv, 1, d.b.batch, theta, factors, false);
    emit_turn_tail(ops, d, i, &k);
    push_cache_row(ops, x.kv, caches.k, n.raw_row, 0, 1, false);
    if let Some(b) = blocks {
        if ratio != 0 {
            emit_blocks(ops, d, c, x, i, b, y, caches.v, yarn, ratio, n);
        }
    }
    push_compressed_attend(ops, d, c, x, w, y, caches.k, caches.v, n);
    let back: TailRope = tail(d, c.attn, x.rope_q, heads, d.head_rows, theta, factors, true);
    emit_turn_tail(ops, d, i, &back);
    emit_groups(ops, d, c, x, w);
    push_compressed_out(ops, d, c, x, w);
}

} // verus!
