//! The operations of a layer's token mixer.
//!
//! Every mixer reads the normed rows and leaves its output in the same scratch tensor, so that one tail
//! closes the residual for all of them.

use crate::attention_plan::{AttnMask, CompressedStep};
use crate::graph_dims::{GraphDims, LayerWidths};
use crate::graph_inputs::RowIds;
use crate::graph_ops::{
    convolve, copied, copy_part, gated, head_norms, linear, linear_from, rms_norm, sum, times_vec,
    write_kv, Activation, CacheForm, Clamp, Op, Scalar, Theta,
};
use crate::graph_scratch::{
    CompressedScratch, CoreScratch, DeltaScratch, LatentScratch, QwenScratch, SparseScratch,
    StreamScratch, TokenIndexScratch,
};
use crate::weight_handles::{
    DeltaW, Dsv4CompressorW, Dsv4IndexerW, Dsv4W, IndexerW, KdaW, MlaW, QsaW, QwenPleW,
};
use crate::weight_plan::TensorId;
use vstd::prelude::*;

verus! {

/// What a linear-attention mixer projects and convolves.
pub open spec fn delta_inputs(
    d: GraphDims,
    c: CoreScratch,
    t: DeltaScratch,
    w: DeltaW,
    history: TensorId,
) -> Seq<Op> {
    seq![
        linear(c.hn, w.qkv, t.qkv, d.b.batch, d.b.n_embd, d.b.conv_channels),
        linear(c.hn, w.gate, t.z, d.b.batch, d.b.n_embd, d.b.d_inner),
        convolve(t.qkv, w.conv1d, history, t.conv, d.b.batch, d.b.conv_channels, d.b.d_conv),
    ]
}

pub(crate) fn push_delta_inputs(
    ops: &mut Vec<Op>,
    d: &GraphDims,
    c: &CoreScratch,
    t: &DeltaScratch,
    w: &DeltaW,
    history: TensorId,
)
    ensures
        final(ops)@ == old(ops)@ + delta_inputs(*d, *c, *t, *w, history),
{
    ops.push(linear(c.hn, w.qkv, t.qkv, d.b.batch, d.b.n_embd, d.b.conv_channels));
    ops.push(linear(c.hn, w.gate, t.z, d.b.batch, d.b.n_embd, d.b.d_inner));
    ops.push(
        convolve(t.qkv, w.conv1d, history, t.conv, d.b.batch, d.b.conv_channels, d.b.d_conv),
    );
    assert(ops@ =~= old(ops)@ + delta_inputs(*d, *c, *t, *w, history));
}

/// Queries, keys and values, each packed.
pub open spec fn delta_parts(d: GraphDims, t: DeltaScratch) -> Seq<Op> {
    seq![
        copy_part(t.conv, 0, d.b.conv_channels, t.q, 0, d.key_dim, d.b.batch, d.key_dim),
        copy_part(t.conv, d.key_dim, d.b.conv_channels, t.k, 0, d.key_dim, d.b.batch, d.key_dim),
        copy_part(
            t.conv,
            d.key_dim2,
            d.b.conv_channels,
            t.v,
            0,
            d.value_dim,
            d.b.batch,
            d.value_dim,
        ),
    ]
}

pub(crate) fn push_delta_parts(ops: &mut Vec<Op>, d: &GraphDims, t: &DeltaScratch)
    ensures
        final(ops)@ == old(ops)@ + delta_parts(*d, *t),
{
    ops.push(
        copy_part(t.conv, 0, d.b.conv_channels, t.q, 0, d.key_dim, d.b.batch, d.key_dim),
    );
    ops.push(
        copy_part(t.conv, d.key_dim, d.b.conv_channels, t.k, 0, d.key_dim, d.b.batch, d.key_dim),
    );
    ops.push(
        copy_part(
            t.conv,
            d.key_dim2,
            d.b.conv_channels,
            t.v,
            0,
            d.value_dim,
            d.b.batch,
            d.value_dim,
        ),
    );
    assert(ops@ =~= old(ops)@ + delta_parts(*d, *t));
}

/// The rates at which the state is written and forgotten.
pub open spec fn delta_rates(
    d: GraphDims,
    c: CoreScratch,
    t: DeltaScratch,
    w: DeltaW,
) -> Seq<Op> {
    seq![
        linear(c.hn, w.beta, t.beta, d.b.batch, d.b.n_embd, d.b.n_vhead),
        linear(c.hn, w.alpha, t.alpha, d.b.batch, d.b.n_embd, d.b.n_vhead),
    ]
}

pub(crate) fn push_delta_rates(
    ops: &mut Vec<Op>,
    d: &GraphDims,
    c: &CoreScratch,
    t: &DeltaScratch,
    w: &DeltaW,
)
    ensures
        final(ops)@ == old(ops)@ + delta_rates(*d, *c, *t, *w),
{
    ops.push(linear(c.hn, w.beta, t.beta, d.b.batch, d.b.n_embd, d.b.n_vhead));
    ops.push(linear(c.hn, w.alpha, t.alpha, d.b.batch, d.b.n_embd, d.b.n_vhead));
    assert(ops@ =~= old(ops)@ + delta_rates(*d, *c, *t, *w));
}

/// One pass over the state.
pub open spec fn delta_rule(
    d: GraphDims,
    t: DeltaScratch,
    w: DeltaW,
    state: TensorId,
    q: TensorId,
    k: TensorId,
    v: TensorId,
) -> Seq<Op> {
    seq![
        Op::DeltaNet {
            q,
            k,
            v,
            b: t.beta,
            a: t.alpha,
            a_coef: w.ssm_a,
            dt_bias: w.dt_bias,
            state,
            dst: t.out,
            rows: d.b.batch,
            n_vhead: d.b.n_vhead,
            n_khead: d.b.n_khead,
            head_k: d.b.head_k,
            head_v: d.b.head_v,
            src_stride: 0,
        },
    ]
}

pub(crate) fn push_delta_rule(
    ops: &mut Vec<Op>,
    d: &GraphDims,
    t: &DeltaScratch,
    w: &DeltaW,
    state: TensorId,
    q: TensorId,
    k: TensorId,
    v: TensorId,
)
    ensures
        final(ops)@ == old(ops)@ + delta_rule(*d, *t, *w, state, q, k, v),
{
    ops.push(
        Op::DeltaNet {
            q,
            k,
            v,
            b: t.beta,
            a: t.alpha,
            a_coef: w.ssm_a,
            dt_bias: w.dt_bias,
            state,
            dst: t.out,
            rows: d.b.batch,
            n_vhead: d.b.n_vhead,
            n_khead: d.b.n_khead,
            head_k: d.b.head_k,
            head_v: d.b.head_v,
            src_stride: 0,
        },
    );
    assert(ops@ =~= old(ops)@ + delta_rule(*d, *t, *w, state, q, k, v));
}

pub open spec fn delta_norm_joined(d: GraphDims, t: DeltaScratch, w: DeltaW) -> Seq<Op> {
    seq![
        Op::GatedRmsNorm {
            x: t.out,
            weight: w.ssm_norm,
            gate: t.z,
            dst: t.out,
            rows: d.b.batch,
            n_head: d.b.n_vhead,
            head_dim: d.b.head_v,
        },
    ]
}

pub(crate) fn push_delta_norm_joined(
    ops: &mut Vec<Op>,
    d: &GraphDims,
    t: &DeltaScratch,
    w: &DeltaW,
)
    ensures
        final(ops)@ == old(ops)@ + delta_norm_joined(*d, *t, *w),
{
    ops.push(
        Op::GatedRmsNorm {
            x: t.out,
            weight: w.ssm_norm,
            gate: t.z,
            dst: t.out,
            rows: d.b.batch,
            n_head: d.b.n_vhead,
            head_dim: d.b.head_v,
        },
    );
    assert(ops@ =~= old(ops)@ + delta_norm_joined(*d, *t, *w));
}

pub open spec fn delta_norm_split(
    d: GraphDims,
    t: DeltaScratch,
    w: DeltaW,
    act: Activation,
) -> Seq<Op> {
    seq![
        head_norms(t.out, Some(w.ssm_norm), d.b.batch, d.b.n_vhead, d.b.head_v),
        gated(t.z, t.out, t.out, d.b.batch, d.value_dim, act, Clamp::Off),
    ]
}

pub(crate) fn push_delta_norm_split(
    ops: &mut Vec<Op>,
    d: &GraphDims,
    t: &DeltaScratch,
    w: &DeltaW,
    act: Activation,
)
    ensures
        final(ops)@ == old(ops)@ + delta_norm_split(*d, *t, *w, act),
{
    ops.push(head_norms(t.out, Some(w.ssm_norm), d.b.batch, d.b.n_vhead, d.b.head_v));
    ops.push(gated(t.z, t.out, t.out, d.b.batch, d.value_dim, act, Clamp::Off));
    assert(ops@ =~= old(ops)@ + delta_norm_split(*d, *t, *w, act));
}

pub open spec fn delta_output(
    d: GraphDims,
    c: CoreScratch,
    t: DeltaScratch,
    w: DeltaW,
) -> Seq<Op> {
    seq![
        linear(t.out, w.out, c.sub, d.b.batch, d.b.d_inner, d.b.n_embd),
    ]
}

pub(crate) fn push_delta_output(
    ops: &mut Vec<Op>,
    d: &GraphDims,
    c: &CoreScratch,
    t: &DeltaScratch,
    w: &DeltaW,
)
    ensures
        final(ops)@ == old(ops)@ + delta_output(*d, *c, *t, *w),
{
    ops.push(linear(t.out, w.out, c.sub, d.b.batch, d.b.d_inner, d.b.n_embd));
    assert(ops@ =~= old(ops)@ + delta_output(*d, *c, *t, *w));
}

/// A linear-attention mixer. Where `strided`, the state is read from the convolution as it is; where
/// `joined`, norm and gates are one operation.
pub open spec fn delta_ops(
    before: Seq<Op>,
    d: GraphDims,
    c: CoreScratch,
    t: DeltaScratch,
    w: DeltaW,
    history: TensorId,
    state: TensorId,
    strided: bool,
    joined: bool,
    act: Activation,
) -> Seq<Op> {
    let g = before + delta_inputs(d, c, t, w, history);
    let g = if strided {
        let g = g + delta_rates(d, c, t, w);
        g + delta_rule(d, t, w, state, t.conv, t.conv, t.conv)
    } else {
        let g = g + delta_parts(d, t);
        let g = g + delta_rates(d, c, t, w);
        g + delta_rule(d, t, w, state, t.q, t.k, t.v)
    };
    let g = if joined {
        g + delta_norm_joined(d, t, w)
    } else {
        g + delta_norm_split(d, t, w, act)
    };
    g + delta_output(d, c, t, w)
}

pub(crate) fn emit_delta_ops(
    ops: &mut Vec<Op>,
    d: &GraphDims,
    c: &CoreScratch,
    t: &DeltaScratch,
    w: &DeltaW,
    history: TensorId,
    state: TensorId,
    strided: bool,
    joined: bool,
    act: Activation,
)
    ensures
        final(ops)@ == delta_ops(old(ops)@, *d, *c, *t, *w, history, state, strided, joined, act),
{
    push_delta_inputs(ops, d, c, t, w, history);
    if strided {
        push_delta_rates(ops, d, c, t, w);
        push_delta_rule(ops, d, t, w, state, t.conv, t.conv, t.conv);
    } else {
        push_delta_parts(ops, d, t);
        push_delta_rates(ops, d, c, t, w);
        push_delta_rule(ops, d, t, w, state, t.q, t.k, t.v);
    }
    if joined {
        push_delta_norm_joined(ops, d, t, w);
    } else {
        push_delta_norm_split(ops, d, t, w, act);
    }
    push_delta_output(ops, d, c, t, w);
}

/// A linear-attention mixer whose projections and convolutions are joined.
pub open spec fn kda_ops(
    d: GraphDims,
    c: CoreScratch,
    t: DeltaScratch,
    w: KdaW,
    history: TensorId,
    state: TensorId,
) -> Seq<Op> {
    seq![
        linear(c.hn, w.qkv, t.qkv, d.b.batch, d.b.n_embd, d.kda_packed),
        convolve(t.qkv, w.conv, history, t.conv, d.b.batch, d.kda_packed, d.b.d_conv),
        linear(c.hn, w.forget, t.forget, d.b.batch, d.b.n_embd, d.kda_dim),
        linear(c.hn, w.beta, t.beta, d.b.batch, d.b.n_embd, d.b.n_head),
        Op::Kda {
            qkv: t.conv,
            forget: t.forget,
            beta: t.beta,
            a: w.a,
            dt_bias: w.dt_bias,
            state,
            dst: t.out,
            rows: d.b.batch,
            n_head: d.b.n_head,
            head_dim: d.b.kda_head_dim,
        },
        linear(c.hn, w.gate, t.z, d.b.batch, d.b.n_embd, d.kda_dim),
        head_norms(t.out, Some(w.norm), d.b.batch, d.b.n_head, d.b.kda_head_dim),
        gated(t.z, t.out, t.out, d.b.batch, d.kda_dim, Activation::Sigmoid, Clamp::Off),
        linear(t.out, w.out, c.sub, d.b.batch, d.kda_dim, d.b.n_embd),
    ]
}

pub(crate) fn push_kda_ops(
    ops: &mut Vec<Op>,
    d: &GraphDims,
    c: &CoreScratch,
    t: &DeltaScratch,
    w: &KdaW,
    history: TensorId,
    state: TensorId,
)
    ensures
        final(ops)@ == old(ops)@ + kda_ops(*d, *c, *t, *w, history, state),
{
    ops.push(linear(c.hn, w.qkv, t.qkv, d.b.batch, d.b.n_embd, d.kda_packed));
    ops.push(convolve(t.qkv, w.conv, history, t.conv, d.b.batch, d.kda_packed, d.b.d_conv));
    ops.push(linear(c.hn, w.forget, t.forget, d.b.batch, d.b.n_embd, d.kda_dim));
    ops.push(linear(c.hn, w.beta, t.beta, d.b.batch, d.b.n_embd, d.b.n_head));
    ops.push(
        Op::Kda {
            qkv: t.conv,
            forget: t.forget,
            beta: t.beta,
            a: w.a,
            dt_bias: w.dt_bias,
            state,
            dst: t.out,
            rows: d.b.batch,
            n_head: d.b.n_head,
            head_dim: d.b.kda_head_dim,
        },
    );
    ops.push(linear(c.hn, w.gate, t.z, d.b.batch, d.b.n_embd, d.kda_dim));
    ops.push(head_norms(t.out, Some(w.norm), d.b.batch, d.b.n_head, d.b.kda_head_dim));
    ops.push(gated(t.z, t.out, t.out, d.b.batch, d.kda_dim, Activation::Sigmoid, Clamp::Off));
    ops.push(linear(t.out, w.out, c.sub, d.b.batch, d.kda_dim, d.b.n_embd));
    assert(ops@ =~= old(ops)@ + kda_ops(*d, *c, *t, *w, history, state));
}

/// The rotation of the end of each head: copied out, rotated and copied back.
#[derive(Clone, Copy, Debug, PartialEq, Eq, Structural)]
pub struct TailRope {
    pub x: TensorId,
    pub pack: TensorId,
    pub heads: usize,
    /// The heads of all rows.
    pub head_rows: usize,
    pub head_dim: usize,
    pub nope_dim: usize,
    pub rope_dim: usize,
    pub theta: Theta,
    pub freq_factors: Option<TensorId>,
    pub backward: bool,
}

/// The rotation of the end of each head.
pub open spec fn rope_tail(d: GraphDims, positions: TensorId, r: TailRope) -> Seq<Op> {
    seq![
        copy_part(r.x, r.nope_dim, r.head_dim, r.pack, 0, r.rope_dim, r.head_rows, r.rope_dim),
        Op::Rope {
            x: r.pack,
            positions,
            dst: r.pack,
            rows: d.b.batch,
            n_head: r.heads,
            head_dim: r.rope_dim,
            rope_dim: r.rope_dim,
            theta: r.theta,
            freq_factors: r.freq_factors,
            x_stride: 0,
            neox: false,
            backward: r.backward,
        },
        copy_part(r.pack, 0, r.rope_dim, r.x, r.nope_dim, r.head_dim, r.head_rows, r.rope_dim),
    ]
}

pub(crate) fn push_rope_tail(ops: &mut Vec<Op>, d: &GraphDims, positions: TensorId, r: &TailRope)
    ensures
        final(ops)@ == old(ops)@ + rope_tail(*d, positions, *r),
{
    ops.push(
        copy_part(r.x, r.nope_dim, r.head_dim, r.pack, 0, r.rope_dim, r.head_rows, r.rope_dim),
    );
    ops.push(
        Op::Rope {
            x: r.pack,
            positions,
            dst: r.pack,
            rows: d.b.batch,
            n_head: r.heads,
            head_dim: r.rope_dim,
            rope_dim: r.rope_dim,
            theta: r.theta,
            freq_factors: r.freq_factors,
            x_stride: 0,
            neox: false,
            backward: r.backward,
        },
    );
    ops.push(
        copy_part(r.pack, 0, r.rope_dim, r.x, r.nope_dim, r.head_dim, r.head_rows, r.rope_dim),
    );
    assert(ops@ =~= old(ops)@ + rope_tail(*d, positions, *r));
}

pub open spec fn compressed_query(
    d: GraphDims,
    c: CoreScratch,
    x: CompressedScratch,
    w: Dsv4W,
) -> Seq<Op> {
    seq![
        linear(c.hn, w.wq_a, x.low, d.b.batch, d.b.n_embd, d.b.q_lora_rank),
        rms_norm(x.low, w.q_a_norm, x.low, d.b.batch, d.b.q_lora_rank),
        linear(x.low, w.wq_b, c.q, d.b.batch, d.b.q_lora_rank, d.query_row),
        head_norms(c.q, None, d.b.batch, d.b.n_head, d.b.head_dim),
    ]
}

pub(crate) fn push_compressed_query(
    ops: &mut Vec<Op>,
    d: &GraphDims,
    c: &CoreScratch,
    x: &CompressedScratch,
    w: &Dsv4W,
)
    ensures
        final(ops)@ == old(ops)@ + compressed_query(*d, *c, *x, *w),
{
    ops.push(linear(c.hn, w.wq_a, x.low, d.b.batch, d.b.n_embd, d.b.q_lora_rank));
    ops.push(rms_norm(x.low, w.q_a_norm, x.low, d.b.batch, d.b.q_lora_rank));
    ops.push(linear(x.low, w.wq_b, c.q, d.b.batch, d.b.q_lora_rank, d.query_row));
    ops.push(head_norms(c.q, None, d.b.batch, d.b.n_head, d.b.head_dim));
    assert(ops@ =~= old(ops)@ + compressed_query(*d, *c, *x, *w));
}

pub open spec fn compressed_key(
    d: GraphDims,
    c: CoreScratch,
    x: CompressedScratch,
    w: Dsv4W,
) -> Seq<Op> {
    seq![
        linear(c.hn, w.wkv, x.kv, d.b.batch, d.b.n_embd, d.b.head_dim),
        rms_norm(x.kv, w.wkv_norm, x.kv, d.b.batch, d.b.head_dim),
    ]
}

pub(crate) fn push_compressed_key(
    ops: &mut Vec<Op>,
    d: &GraphDims,
    c: &CoreScratch,
    x: &CompressedScratch,
    w: &Dsv4W,
)
    ensures
        final(ops)@ == old(ops)@ + compressed_key(*d, *c, *x, *w),
{
    ops.push(linear(c.hn, w.wkv, x.kv, d.b.batch, d.b.n_embd, d.b.head_dim));
    ops.push(rms_norm(x.kv, w.wkv_norm, x.kv, d.b.batch, d.b.head_dim));
    assert(ops@ =~= old(ops)@ + compressed_key(*d, *c, *x, *w));
}

/// One row written to a packed cache.
pub open spec fn cache_row(
    src: TensorId,
    cache: TensorId,
    row: usize,
    cache_off: usize,
    rows: usize,
    packed: bool,
) -> Seq<Op> {
    seq![
        Op::Dsv4CacheWrite {
            src,
            cache,
            rows,
            row,
            cache_off,
            format: if packed { CacheForm::Mxfp4 } else { CacheForm::Fp8Kv },
        },
    ]
}

pub(crate) fn push_cache_row(
    ops: &mut Vec<Op>,
    src: TensorId,
    cache: TensorId,
    row: usize,
    cache_off: usize,
    rows: usize,
    packed: bool,
)
    ensures
        final(ops)@ == old(ops)@ + cache_row(src, cache, row, cache_off, rows, packed),
{
    ops.push(
        Op::Dsv4CacheWrite {
            src,
            cache,
            rows,
            row,
            cache_off,
            format: if packed { CacheForm::Mxfp4 } else { CacheForm::Fp8Kv },
        },
    );
    assert(ops@ =~= old(ops)@ + cache_row(src, cache, row, cache_off, rows, packed));
}

/// Where the parts of a compressed layer's state begin.
#[derive(Clone, Copy, Debug, PartialEq, Eq, Structural)]
pub struct CompressedLayout {
    pub raw_rows: usize,
    pub comp_off: usize,
    pub values_off: usize,
    pub scores_off: usize,
    pub index_off: usize,
    pub index_values_off: usize,
    pub index_scores_off: usize,
}

/// The compressor of a layer, for one token.
pub open spec fn compress(
    d: GraphDims,
    c: CoreScratch,
    x: CompressedScratch,
    w: Dsv4CompressorW,
    y: CompressedLayout,
    state: TensorId,
    freq_factors: Option<TensorId>,
    ratio: usize,
    width: usize,
) -> Seq<Op> {
    seq![
        linear(c.hn, w.wkv, x.values, 1, d.b.n_embd, width),
        linear(c.hn, w.wgate, x.scores, 1, d.b.n_embd, width),
        Op::Dsv4Compress {
            values: x.values,
            scores: x.scores,
            ape: w.ape,
            norm: w.norm,
            freq_factors,
            state,
            dst: x.row,
            values_off: y.values_off,
            scores_off: y.scores_off,
            pos: d.b.start_pos,
            ratio,
            dim: d.b.head_dim,
            rope_dim: d.b.rope_dim,
            theta: Theta::Compressed,
            overlap: ratio == 4,
        },
    ]
}

pub(crate) fn push_compress(
    ops: &mut Vec<Op>,
    d: &GraphDims,
    c: &CoreScratch,
    x: &CompressedScratch,
    w: &Dsv4CompressorW,
    y: &CompressedLayout,
    state: TensorId,
    freq_factors: Option<TensorId>,
    ratio: usize,
    width: usize,
)
    ensures
        final(ops)@ == old(ops)@ + compress(*d, *c, *x, *w, *y, state, freq_factors, ratio, width),
{
    ops.push(linear(c.hn, w.wkv, x.values, 1, d.b.n_embd, width));
    ops.push(linear(c.hn, w.wgate, x.scores, 1, d.b.n_embd, width));
    ops.push(
        Op::Dsv4Compress {
            values: x.values,
            scores: x.scores,
            ape: w.ape,
            norm: w.norm,
            freq_factors,
            state,
            dst: x.row,
            values_off: y.values_off,
            scores_off: y.scores_off,
            pos: d.b.start_pos,
            ratio,
            dim: d.b.head_dim,
            rope_dim: d.b.rope_dim,
            theta: Theta::Compressed,
            overlap: ratio == 4,
        },
    );
    assert(ops@ =~= old(ops)@ + compress(*d, *c, *x, *w, *y, state, freq_factors, ratio, width));
}

/// The compressor of a layer's index keys, for one token.
pub open spec fn compress_index(
    d: GraphDims,
    c: CoreScratch,
    x: CompressedScratch,
    w: Dsv4IndexerW,
    y: CompressedLayout,
    state: TensorId,
    freq_factors: Option<TensorId>,
    ratio: usize,
) -> Seq<Op> {
    seq![
        linear(c.hn, w.wkv, x.index_values, 1, d.b.n_embd, d.index_head2),
        linear(c.hn, w.wgate, x.index_scores, 1, d.b.n_embd, d.index_head2),
        Op::Dsv4Compress {
            values: x.index_values,
            scores: x.index_scores,
            ape: w.ape,
            norm: w.norm,
            freq_factors,
            state,
            dst: x.index_key,
            values_off: y.index_values_off,
            scores_off: y.index_scores_off,
            pos: d.b.start_pos,
            ratio,
            dim: d.b.indexer_head_size,
            rope_dim: d.b.rope_dim,
            theta: Theta::Compressed,
            overlap: true,
        },
    ]
}

pub(crate) fn push_compress_index(
    ops: &mut Vec<Op>,
    d: &GraphDims,
    c: &CoreScratch,
    x: &CompressedScratch,
    w: &Dsv4IndexerW,
    y: &CompressedLayout,
    state: TensorId,
    freq_factors: Option<TensorId>,
    ratio: usize,
)
    ensures
        final(ops)@ == old(ops)@ + compress_index(*d, *c, *x, *w, *y, state, freq_factors, ratio),
{
    ops.push(linear(c.hn, w.wkv, x.index_values, 1, d.b.n_embd, d.index_head2));
    ops.push(linear(c.hn, w.wgate, x.index_scores, 1, d.b.n_embd, d.index_head2));
    ops.push(
        Op::Dsv4Compress {
            values: x.index_values,
            scores: x.index_scores,
            ape: w.ape,
            norm: w.norm,
            freq_factors,
            state,
            dst: x.index_key,
            values_off: y.index_values_off,
            scores_off: y.index_scores_off,
            pos: d.b.start_pos,
            ratio,
            dim: d.b.indexer_head_size,
            rope_dim: d.b.rope_dim,
            theta: Theta::Compressed,
            overlap: true,
        },
    );
    assert(ops@ =~= old(ops)@ + compress_index(*d, *c, *x, *w, *y, state, freq_factors, ratio));
}

pub open spec fn index_query(d: GraphDims, x: CompressedScratch, w: Dsv4IndexerW) -> Seq<Op> {
    seq![
        linear(x.low, w.q_b, x.index_q, 1, d.b.q_lora_rank, d.index_row),
    ]
}

pub(crate) fn push_index_query(
    ops: &mut Vec<Op>,
    d: &GraphDims,
    x: &CompressedScratch,
    w: &Dsv4IndexerW,
)
    ensures
        final(ops)@ == old(ops)@ + index_query(*d, *x, *w),
{
    ops.push(linear(x.low, w.q_b, x.index_q, 1, d.b.q_lora_rank, d.index_row));
    assert(ops@ =~= old(ops)@ + index_query(*d, *x, *w));
}

/// The choice of compressed rows by score.
pub open spec fn index_score(
    d: GraphDims,
    c: CoreScratch,
    x: CompressedScratch,
    w: Dsv4IndexerW,
    y: CompressedLayout,
    state: TensorId,
    n: CompressedStep,
) -> Seq<Op> {
    seq![
        Op::Dsv4CacheWrite {
            src: x.index_q,
            cache: x.index_packed,
            rows: d.b.indexer_n_head,
            row: 0,
            cache_off: 0,
            format: CacheForm::Mxfp4,
        },
        linear(c.hn, w.proj, x.index_weights, 1, d.b.n_embd, d.b.indexer_n_head),
        Op::Dsv4Indexer {
            q: x.index_packed,
            k_cache: state,
            weights: x.index_weights,
            dst: x.index_top,
            cache_off: y.index_off,
            kv_len: n.visible,
            n_head: d.b.indexer_n_head,
            head_dim: d.b.indexer_head_size,
            top_k: n.selected,
            scale: Scalar::InvSqrt(d.index_row),
        },
    ]
}

pub(crate) fn push_index_score(
    ops: &mut Vec<Op>,
    d: &GraphDims,
    c: &CoreScratch,
    x: &CompressedScratch,
    w: &Dsv4IndexerW,
    y: &CompressedLayout,
    state: TensorId,
    n: &CompressedStep,
)
    ensures
        final(ops)@ == old(ops)@ + index_score(*d, *c, *x, *w, *y, state, *n),
{
    ops.push(
        Op::Dsv4CacheWrite {
            src: x.index_q,
            cache: x.index_packed,
            rows: d.b.indexer_n_head,
            row: 0,
            cache_off: 0,
            format: CacheForm::Mxfp4,
        },
    );
    ops.push(linear(c.hn, w.proj, x.index_weights, 1, d.b.n_embd, d.b.indexer_n_head));
    ops.push(
        Op::Dsv4Indexer {
            q: x.index_packed,
            k_cache: state,
            weights: x.index_weights,
            dst: x.index_top,
            cache_off: y.index_off,
            kv_len: n.visible,
            n_head: d.b.indexer_n_head,
            head_dim: d.b.indexer_head_size,
            top_k: n.selected,
            scale: Scalar::InvSqrt(d.index_row),
        },
    );
    assert(ops@ =~= old(ops)@ + index_score(*d, *c, *x, *w, *y, state, *n));
}

/// Raw and compressed rows in one list, and attention over it.
pub open spec fn compressed_attend(
    d: GraphDims,
    c: CoreScratch,
    x: CompressedScratch,
    w: Dsv4W,
    y: CompressedLayout,
    raw: TensorId,
    state: TensorId,
    n: CompressedStep,
) -> Seq<Op> {
    seq![
        Op::Dsv4Gather {
            raw_cache: raw,
            comp_cache: state,
            indices: if n.scored { Some(x.index_top) } else { None },
            dst: x.gather,
            comp_off: y.comp_off,
            pos: d.b.start_pos,
            visible: n.visible,
            selected: n.selected,
            head_dim: d.b.head_dim,
            raw_window: y.raw_rows,
        },
        copied(c.q, c.q_half, d.b.batch, d.query_row),
        Op::Attention {
            q: c.q_half,
            k_cache: x.gather,
            v_cache: x.gather,
            dst: c.attn,
            rows: d.b.batch,
            kv_len: n.gathered,
            n_head: d.b.n_head,
            n_kv: 1,
            head_dim: d.b.head_dim,
            scale: Scalar::InvSqrt(d.b.head_dim),
            mask: AttnMask::Causal,
            pos: if n.gathered >= 1 { (n.gathered - 1) as usize } else { 0 },
            sinks: Some(w.sinks),
        },
    ]
}

pub(crate) fn push_compressed_attend(
    ops: &mut Vec<Op>,
    d: &GraphDims,
    c: &CoreScratch,
    x: &CompressedScratch,
    w: &Dsv4W,
    y: &CompressedLayout,
    raw: TensorId,
    state: TensorId,
    n: &CompressedStep,
)
    ensures
        final(ops)@ == old(ops)@ + compressed_attend(*d, *c, *x, *w, *y, raw, state, *n),
{
    ops.push(
        Op::Dsv4Gather {
            raw_cache: raw,
            comp_cache: state,
            indices: if n.scored { Some(x.index_top) } else { None },
            dst: x.gather,
            comp_off: y.comp_off,
            pos: d.b.start_pos,
            visible: n.visible,
            selected: n.selected,
            head_dim: d.b.head_dim,
            raw_window: y.raw_rows,
        },
    );
    ops.push(copied(c.q, c.q_half, d.b.batch, d.query_row));
    ops.push(
        Op::Attention {
            q: c.q_half,
            k_cache: x.gather,
            v_cache: x.gather,
            dst: c.attn,
            rows: d.b.batch,
            kv_len: n.gathered,
            n_head: d.b.n_head,
            n_kv: 1,
            head_dim: d.b.head_dim,
            scale: Scalar::InvSqrt(d.b.head_dim),
            mask: AttnMask::Causal,
            pos: if n.gathered >= 1 { (n.gathered - 1) as usize } else { 0 },
            sinks: Some(w.sinks),
        },
    );
    assert(ops@ =~= old(ops)@ + compressed_attend(*d, *c, *x, *w, *y, raw, state, *n));
}

/// One output group: its heads, projected and put into its place.
pub open spec fn group_out(
    d: GraphDims,
    c: CoreScratch,
    x: CompressedScratch,
    w: Dsv4W,
    from: usize,
    w_off: usize,
    to: usize,
) -> Seq<Op> {
    seq![
        copy_part(c.attn, from, d.query_row, x.group_in, 0, d.group_row, d.b.batch, d.group_row),
        linear_from(
            x.group_in,
            w.wo_a,
            w_off,
            x.group_out,
            d.b.batch,
            d.group_row,
            d.b.o_lora_rank,
        ),
        copy_part(
            x.group_out,
            0,
            d.b.o_lora_rank,
            x.groups,
            to,
            d.o_row,
            d.b.batch,
            d.b.o_lora_rank,
        ),
    ]
}

pub(crate) fn push_group_out(
    ops: &mut Vec<Op>,
    d: &GraphDims,
    c: &CoreScratch,
    x: &CompressedScratch,
    w: &Dsv4W,
    from: usize,
    w_off: usize,
    to: usize,
)
    ensures
        final(ops)@ == old(ops)@ + group_out(*d, *c, *x, *w, from, w_off, to),
{
    ops.push(
        copy_part(c.attn, from, d.query_row, x.group_in, 0, d.group_row, d.b.batch, d.group_row),
    );
    ops.push(
        linear_from(
            x.group_in,
            w.wo_a,
            w_off,
            x.group_out,
            d.b.batch,
            d.group_row,
            d.b.o_lora_rank,
        ),
    );
    ops.push(
        copy_part(
            x.group_out,
            0,
            d.b.o_lora_rank,
            x.groups,
            to,
            d.o_row,
            d.b.batch,
            d.b.o_lora_rank,
        ),
    );
    assert(ops@ =~= old(ops)@ + group_out(*d, *c, *x, *w, from, w_off, to));
}

pub open spec fn compressed_out(
    d: GraphDims,
    c: CoreScratch,
    x: CompressedScratch,
    w: Dsv4W,
) -> Seq<Op> {
    seq![
        linear(x.groups, w.wo_b, c.sub, d.b.batch, d.o_row, d.b.n_embd),
    ]
}

pub(crate) fn push_compressed_out(
    ops: &mut Vec<Op>,
    d: &GraphDims,
    c: &CoreScratch,
    x: &CompressedScratch,
    w: &Dsv4W,
)
    ensures
        final(ops)@ == old(ops)@ + compressed_out(*d, *c, *x, *w),
{
    ops.push(linear(x.groups, w.wo_b, c.sub, d.b.batch, d.o_row, d.b.n_embd));
    assert(ops@ =~= old(ops)@ + compressed_out(*d, *c, *x, *w));
}

pub open spec fn latent_query_low(
    d: GraphDims,
    c: CoreScratch,
    s: LatentScratch,
    wq_a: usize,
    q_a_norm: usize,
    wq_b: usize,
) -> Seq<Op> {
    seq![
        linear(c.hn, wq_a, c.attn, d.b.batch, d.b.n_embd, d.b.q_lora_rank),
        rms_norm(c.attn, q_a_norm, c.attn, d.b.batch, d.b.q_lora_rank),
        linear(c.attn, wq_b, s.q, d.b.batch, d.b.q_lora_rank, d.latent_query_row),
    ]
}

pub(crate) fn push_latent_query_low(
    ops: &mut Vec<Op>,
    d: &GraphDims,
    c: &CoreScratch,
    s: &LatentScratch,
    wq_a: usize,
    q_a_norm: usize,
    wq_b: usize,
)
    ensures
        final(ops)@ == old(ops)@ + latent_query_low(*d, *c, *s, wq_a, q_a_norm, wq_b),
{
    ops.push(linear(c.hn, wq_a, c.attn, d.b.batch, d.b.n_embd, d.b.q_lora_rank));
    ops.push(rms_norm(c.attn, q_a_norm, c.attn, d.b.batch, d.b.q_lora_rank));
    ops.push(linear(c.attn, wq_b, s.q, d.b.batch, d.b.q_lora_rank, d.latent_query_row));
    assert(ops@ =~= old(ops)@ + latent_query_low(*d, *c, *s, wq_a, q_a_norm, wq_b));
}

pub open spec fn latent_query(
    d: GraphDims,
    c: CoreScratch,
    s: LatentScratch,
    wq_b: usize,
) -> Seq<Op> {
    seq![
        linear(c.hn, wq_b, s.q, d.b.batch, d.b.n_embd, d.latent_query_row),
    ]
}

pub(crate) fn push_latent_query(
    ops: &mut Vec<Op>,
    d: &GraphDims,
    c: &CoreScratch,
    s: &LatentScratch,
    wq_b: usize,
)
    ensures
        final(ops)@ == old(ops)@ + latent_query(*d, *c, *s, wq_b),
{
    ops.push(linear(c.hn, wq_b, s.q, d.b.batch, d.b.n_embd, d.latent_query_row));
    assert(ops@ =~= old(ops)@ + latent_query(*d, *c, *s, wq_b));
}

/// The token indexer: its keys are cached, and the best ones become a mask.
pub open spec fn token_index(
    d: GraphDims,
    c: CoreScratch,
    i: RowIds,
    t: TokenIndexScratch,
    w: IndexerW,
    cache: TensorId,
    theta: Theta,
    freq_factors: Option<TensorId>,
) -> Seq<Op> {
    seq![
        linear(c.hn, w.attn_k, t.k, d.b.batch, d.b.n_embd, d.b.indexer_head_size),
        Op::LayerNorm {
            x: t.k,
            weight: w.k_norm,
            bias: w.k_norm_b,
            dst: t.k,
            rows: d.b.batch,
            dim: d.b.indexer_head_size,
        },
        Op::Rope {
            x: t.k,
            positions: i.positions,
            dst: t.k,
            rows: d.b.batch,
            n_head: 1,
            head_dim: d.b.indexer_head_size,
            rope_dim: d.b.qk_rope_dim,
            theta,
            freq_factors,
            x_stride: 0,
            neox: true,
            backward: false,
        },
        write_kv(t.k, cache, d.b.batch, d.b.indexer_head_size, d.b.start_pos),
        linear(c.attn, w.attn_q_b, t.q, d.b.batch, d.b.q_lora_rank, d.index_row),
        Op::Rope {
            x: t.q,
            positions: i.positions,
            dst: t.q,
            rows: d.b.batch,
            n_head: d.b.indexer_n_head,
            head_dim: d.b.indexer_head_size,
            rope_dim: d.b.qk_rope_dim,
            theta,
            freq_factors,
            x_stride: 0,
            neox: true,
            backward: false,
        },
        linear(c.hn, w.proj, t.weights, d.b.batch, d.b.n_embd, d.b.indexer_n_head),
        Op::LightningIndexer {
            q: t.q,
            k_cache: cache,
            weights: t.weights,
            dst: t.top,
            rows: d.b.batch,
            kv_len: d.visible,
            n_head: d.b.indexer_n_head,
            head_dim: d.b.indexer_head_size,
            top_k: d.index_top_k,
            scale: Scalar::InvSqrt(d.index_row),
            pos: d.b.start_pos,
        },
        Op::TopkMask {
            idx: t.top,
            dst: t.mask,
            rows: d.b.batch,
            kv_len: d.visible,
            top_k: d.index_top_k,
        },
    ]
}

pub(crate) fn push_token_index(
    ops: &mut Vec<Op>,
    d: &GraphDims,
    c: &CoreScratch,
    i: &RowIds,
    t: &TokenIndexScratch,
    w: &IndexerW,
    cache: TensorId,
    theta: Theta,
    freq_factors: Option<TensorId>,
)
    ensures
        final(ops)@ == old(ops)@ + token_index(*d, *c, *i, *t, *w, cache, theta, freq_factors),
{
    ops.push(linear(c.hn, w.attn_k, t.k, d.b.batch, d.b.n_embd, d.b.indexer_head_size));
    ops.push(
        Op::LayerNorm {
            x: t.k,
            weight: w.k_norm,
            bias: w.k_norm_b,
            dst: t.k,
            rows: d.b.batch,
            dim: d.b.indexer_head_size,
        },
    );
    ops.push(
        Op::Rope {
            x: t.k,
            positions: i.positions,
            dst: t.k,
            rows: d.b.batch,
            n_head: 1,
            head_dim: d.b.indexer_head_size,
            rope_dim: d.b.qk_rope_dim,
            theta,
            freq_factors,
            x_stride: 0,
            neox: true,
            backward: false,
        },
    );
    ops.push(write_kv(t.k, cache, d.b.batch, d.b.indexer_head_size, d.b.start_pos));
    ops.push(linear(c.attn, w.attn_q_b, t.q, d.b.batch, d.b.q_lora_rank, d.index_row));
    ops.push(
        Op::Rope {
            x: t.q,
            positions: i.positions,
            dst: t.q,
            rows: d.b.batch,
            n_head: d.b.indexer_n_head,
            head_dim: d.b.indexer_head_size,
            rope_dim: d.b.qk_rope_dim,
            theta,
            freq_factors,
            x_stride: 0,
            neox: true,
            backward: false,
        },
    );
    ops.push(linear(c.hn, w.proj, t.weights, d.b.batch, d.b.n_embd, d.b.indexer_n_head));
    ops.push(
        Op::LightningIndexer {
            q: t.q,
            k_cache: cache,
            weights: t.weights,
            dst: t.top,
            rows: d.b.batch,
            kv_len: d.visible,
            n_head: d.b.indexer_n_head,
            head_dim: d.b.indexer_head_size,
            top_k: d.index_top_k,
            scale: Scalar::InvSqrt(d.index_row),
            pos: d.b.start_pos,
        },
    );
    ops.push(
        Op::TopkMask {
            idx: t.top,
            dst: t.mask,
            rows: d.b.batch,
            kv_len: d.visible,
            top_k: d.index_top_k,
        },
    );
    assert(ops@ =~= old(ops)@ + token_index(*d, *c, *i, *t, *w, cache, theta, freq_factors));
}

/// The compressed key row: its latent part is normed, its end rotated, and it is cached.
pub open spec fn latent_key(
    d: GraphDims,
    c: CoreScratch,
    i: RowIds,
    s: LatentScratch,
    w: MlaW,
    cache: TensorId,
    theta: Theta,
    freq_factors: Option<TensorId>,
) -> Seq<Op> {
    seq![
        linear(c.hn, w.wkv_a_mqa, s.key, d.b.batch, d.b.n_embd, d.latent_key),
        copy_part(s.key, 0, d.latent_key, s.cmpr, 0, d.b.kv_lora_rank, d.b.batch, d.b.kv_lora_rank),
        rms_norm(s.cmpr, w.kv_a_norm, s.cmpr, d.b.batch, d.b.kv_lora_rank),
        copy_part(s.cmpr, 0, d.b.kv_lora_rank, s.key, 0, d.latent_key, d.b.batch, d.b.kv_lora_rank),
        copy_part(
            s.key,
            d.b.kv_lora_rank,
            d.latent_key,
            s.rope,
            0,
            d.b.qk_rope_dim,
            d.b.batch,
            d.b.qk_rope_dim,
        ),
        Op::Rope {
            x: s.rope,
            positions: i.positions,
            dst: s.rope,
            rows: d.b.batch,
            n_head: 1,
            head_dim: d.b.qk_rope_dim,
            rope_dim: d.b.qk_rope_dim,
            theta,
            freq_factors,
            x_stride: 0,
            neox: false,
            backward: false,
        },
        copy_part(
            s.rope,
            0,
            d.b.qk_rope_dim,
            s.key,
            d.b.kv_lora_rank,
            d.latent_key,
            d.b.batch,
            d.b.qk_rope_dim,
        ),
        write_kv(s.key, cache, d.b.batch, d.latent_key, d.b.start_pos),
    ]
}

pub(crate) fn push_latent_key(
    ops: &mut Vec<Op>,
    d: &GraphDims,
    c: &CoreScratch,
    i: &RowIds,
    s: &LatentScratch,
    w: &MlaW,
    cache: TensorId,
    theta: Theta,
    freq_factors: Option<TensorId>,
)
    ensures
        final(ops)@ == old(ops)@ + latent_key(*d, *c, *i, *s, *w, cache, theta, freq_factors),
{
    ops.push(linear(c.hn, w.wkv_a_mqa, s.key, d.b.batch, d.b.n_embd, d.latent_key));
    ops.push(
        copy_part(s.key, 0, d.latent_key, s.cmpr, 0, d.b.kv_lora_rank, d.b.batch, d.b.kv_lora_rank),
    );
    ops.push(rms_norm(s.cmpr, w.kv_a_norm, s.cmpr, d.b.batch, d.b.kv_lora_rank));
    ops.push(
        copy_part(s.cmpr, 0, d.b.kv_lora_rank, s.key, 0, d.latent_key, d.b.batch, d.b.kv_lora_rank),
    );
    ops.push(
        copy_part(
            s.key,
            d.b.kv_lora_rank,
            d.latent_key,
            s.rope,
            0,
            d.b.qk_rope_dim,
            d.b.batch,
            d.b.qk_rope_dim,
        ),
    );
    ops.push(
        Op::Rope {
            x: s.rope,
            positions: i.positions,
            dst: s.rope,
            rows: d.b.batch,
            n_head: 1,
            head_dim: d.b.qk_rope_dim,
            rope_dim: d.b.qk_rope_dim,
            theta,
            freq_factors,
            x_stride: 0,
            neox: false,
            backward: false,
        },
    );
    ops.push(
        copy_part(
            s.rope,
            0,
            d.b.qk_rope_dim,
            s.key,
            d.b.kv_lora_rank,
            d.latent_key,
            d.b.batch,
            d.b.qk_rope_dim,
        ),
    );
    ops.push(write_kv(s.key, cache, d.b.batch, d.latent_key, d.b.start_pos));
    assert(ops@ =~= old(ops)@ + latent_key(*d, *c, *i, *s, *w, cache, theta, freq_factors));
}

pub open spec fn latent_attend(
    d: GraphDims,
    c: CoreScratch,
    s: LatentScratch,
    w: MlaW,
    cache: TensorId,
    mask: AttnMask,
    theta: Theta,
    freq_factors: Option<TensorId>,
    key_bias: Option<TensorId>,
) -> Seq<Op> {
    seq![
        Op::Mla {
            q: s.q,
            k_cache: cache,
            wk_b: w.wk_b,
            wv_b: w.wv_b,
            dst: c.attn,
            rows: d.b.batch,
            kv_len: d.visible,
            n_head: d.b.n_head,
            q_head_dim: d.latent_head,
            kv_lora_rank: d.b.kv_lora_rank,
            qk_nope_dim: d.b.head_k_mla,
            qk_rope_dim: d.b.qk_rope_dim,
            v_head_dim: d.b.v_head_dim,
            scale: Scalar::Latent(d.latent_head),
            mask,
            pos: d.b.start_pos,
            theta,
            freq_factors,
            key_bias,
        },
    ]
}

pub(crate) fn push_latent_attend(
    ops: &mut Vec<Op>,
    d: &GraphDims,
    c: &CoreScratch,
    s: &LatentScratch,
    w: &MlaW,
    cache: TensorId,
    mask: AttnMask,
    theta: Theta,
    freq_factors: Option<TensorId>,
    key_bias: Option<TensorId>,
)
    ensures
        final(ops)@ == old(ops)@ + latent_attend(*d, *c, *s, *w, cache, mask, theta, freq_factors, key_bias),
{
    ops.push(
        Op::Mla {
            q: s.q,
            k_cache: cache,
            wk_b: w.wk_b,
            wv_b: w.wv_b,
            dst: c.attn,
            rows: d.b.batch,
            kv_len: d.visible,
            n_head: d.b.n_head,
            q_head_dim: d.latent_head,
            kv_lora_rank: d.b.kv_lora_rank,
            qk_nope_dim: d.b.head_k_mla,
            qk_rope_dim: d.b.qk_rope_dim,
            v_head_dim: d.b.v_head_dim,
            scale: Scalar::Latent(d.latent_head),
            mask,
            pos: d.b.start_pos,
            theta,
            freq_factors,
            key_bias,
        },
    );
    assert(ops@ =~= old(ops)@ + latent_attend(*d, *c, *s, *w, cache, mask, theta, freq_factors, key_bias));
}

pub open spec fn latent_gate(
    d: GraphDims,
    c: CoreScratch,
    t: DeltaScratch,
    weight: usize,
) -> Seq<Op> {
    seq![
        linear(c.hn, weight, t.head_gate, d.b.batch, d.b.n_embd, d.b.n_head),
        Op::HeadwiseSigmoidMul {
            x: c.attn,
            gate: t.head_gate,
            dst: c.attn,
            rows: d.b.batch,
            n_head: d.b.n_head,
            head_dim: d.b.v_head_dim,
        },
    ]
}

pub(crate) fn push_latent_gate(
    ops: &mut Vec<Op>,
    d: &GraphDims,
    c: &CoreScratch,
    t: &DeltaScratch,
    weight: usize,
)
    ensures
        final(ops)@ == old(ops)@ + latent_gate(*d, *c, *t, weight),
{
    ops.push(linear(c.hn, weight, t.head_gate, d.b.batch, d.b.n_embd, d.b.n_head));
    ops.push(
        Op::HeadwiseSigmoidMul {
            x: c.attn,
            gate: t.head_gate,
            dst: c.attn,
            rows: d.b.batch,
            n_head: d.b.n_head,
            head_dim: d.b.v_head_dim,
        },
    );
    assert(ops@ =~= old(ops)@ + latent_gate(*d, *c, *t, weight));
}

pub open spec fn latent_out(d: GraphDims, c: CoreScratch, w: MlaW) -> Seq<Op> {
    seq![
        linear(c.attn, w.wo, c.sub, d.b.batch, d.latent_out, d.b.n_embd),
    ]
}

pub(crate) fn push_latent_out(ops: &mut Vec<Op>, d: &GraphDims, c: &CoreScratch, w: &MlaW)
    ensures
        final(ops)@ == old(ops)@ + latent_out(*d, *c, *w),
{
    ops.push(linear(c.attn, w.wo, c.sub, d.b.batch, d.latent_out, d.b.n_embd));
    assert(ops@ =~= old(ops)@ + latent_out(*d, *c, *w));
}

/// One wide projection of several rows, split.
pub open spec fn joined_rows(
    d: GraphDims,
    l: LayerWidths,
    c: CoreScratch,
    weight: usize,
    qkv: TensorId,
) -> Seq<Op> {
    seq![
        linear(c.hn, weight, qkv, d.b.batch, d.b.n_embd, l.qkv_row),
        copy_part(qkv, 0, l.qkv_row, c.q, 0, l.query_row, d.b.batch, l.query_row),
        copy_part(qkv, l.query_row, l.qkv_row, c.k, 0, l.kv_row, d.b.batch, l.kv_row),
        copy_part(qkv, l.qk_row, l.qkv_row, c.v, 0, l.kv_row, d.b.batch, l.kv_row),
    ]
}

pub(crate) fn push_joined_rows(
    ops: &mut Vec<Op>,
    d: &GraphDims,
    l: &LayerWidths,
    c: &CoreScratch,
    weight: usize,
    qkv: TensorId,
)
    ensures
        final(ops)@ == old(ops)@ + joined_rows(*d, *l, *c, weight, qkv),
{
    ops.push(linear(c.hn, weight, qkv, d.b.batch, d.b.n_embd, l.qkv_row));
    ops.push(copy_part(qkv, 0, l.qkv_row, c.q, 0, l.query_row, d.b.batch, l.query_row));
    ops.push(copy_part(qkv, l.query_row, l.qkv_row, c.k, 0, l.kv_row, d.b.batch, l.kv_row));
    ops.push(copy_part(qkv, l.qk_row, l.qkv_row, c.v, 0, l.kv_row, d.b.batch, l.kv_row));
    assert(ops@ =~= old(ops)@ + joined_rows(*d, *l, *c, weight, qkv));
}

/// One row: three projections from one weight.
pub open spec fn joined_row(
    d: GraphDims,
    l: LayerWidths,
    c: CoreScratch,
    weight: usize,
) -> Seq<Op> {
    seq![
        linear(c.hn, weight, c.q, d.b.batch, d.b.n_embd, l.query_row),
        linear_from(c.hn, weight, l.k_off, c.k, d.b.batch, d.b.n_embd, l.kv_row),
        linear_from(c.hn, weight, l.v_off, c.v, d.b.batch, d.b.n_embd, l.kv_row),
    ]
}

pub(crate) fn push_joined_row(
    ops: &mut Vec<Op>,
    d: &GraphDims,
    l: &LayerWidths,
    c: &CoreScratch,
    weight: usize,
)
    ensures
        final(ops)@ == old(ops)@ + joined_row(*d, *l, *c, weight),
{
    ops.push(linear(c.hn, weight, c.q, d.b.batch, d.b.n_embd, l.query_row));
    ops.push(linear_from(c.hn, weight, l.k_off, c.k, d.b.batch, d.b.n_embd, l.kv_row));
    ops.push(linear_from(c.hn, weight, l.v_off, c.v, d.b.batch, d.b.n_embd, l.kv_row));
    assert(ops@ =~= old(ops)@ + joined_row(*d, *l, *c, weight));
}

/// Queries that each stand before their gates.
pub open spec fn gated_query(
    d: GraphDims,
    l: LayerWidths,
    c: CoreScratch,
    weight: usize,
) -> Seq<Op> {
    seq![
        linear(c.hn, weight, c.gated, d.b.batch, d.b.n_embd, l.gated_row),
    ]
}

pub(crate) fn push_gated_query(
    ops: &mut Vec<Op>,
    d: &GraphDims,
    l: &LayerWidths,
    c: &CoreScratch,
    weight: usize,
)
    ensures
        final(ops)@ == old(ops)@ + gated_query(*d, *l, *c, weight),
{
    ops.push(linear(c.hn, weight, c.gated, d.b.batch, d.b.n_embd, l.gated_row));
    assert(ops@ =~= old(ops)@ + gated_query(*d, *l, *c, weight));
}

pub open spec fn plain_query(
    d: GraphDims,
    l: LayerWidths,
    c: CoreScratch,
    weight: usize,
) -> Seq<Op> {
    seq![
        linear(c.hn, weight, c.q, d.b.batch, d.b.n_embd, l.query_row),
    ]
}

pub(crate) fn push_plain_query(
    ops: &mut Vec<Op>,
    d: &GraphDims,
    l: &LayerWidths,
    c: &CoreScratch,
    weight: usize,
)
    ensures
        final(ops)@ == old(ops)@ + plain_query(*d, *l, *c, weight),
{
    ops.push(linear(c.hn, weight, c.q, d.b.batch, d.b.n_embd, l.query_row));
    assert(ops@ =~= old(ops)@ + plain_query(*d, *l, *c, weight));
}

pub open spec fn biased(d: GraphDims, x: TensorId, bias: usize, n: usize) -> Seq<Op> {
    seq![
        Op::AddBias { x, bias, dst: x, rows: d.b.batch, n },
    ]
}

pub(crate) fn push_biased(ops: &mut Vec<Op>, d: &GraphDims, x: TensorId, bias: usize, n: usize)
    ensures
        final(ops)@ == old(ops)@ + biased(*d, x, bias, n),
{
    ops.push(Op::AddBias { x, bias, dst: x, rows: d.b.batch, n });
    assert(ops@ =~= old(ops)@ + biased(*d, x, bias, n));
}

pub open spec fn plain_key(
    d: GraphDims,
    l: LayerWidths,
    c: CoreScratch,
    weight: usize,
) -> Seq<Op> {
    seq![
        linear(c.hn, weight, c.k, d.b.batch, d.b.n_embd, l.kv_row),
    ]
}

pub(crate) fn push_plain_key(
    ops: &mut Vec<Op>,
    d: &GraphDims,
    l: &LayerWidths,
    c: &CoreScratch,
    weight: usize,
)
    ensures
        final(ops)@ == old(ops)@ + plain_key(*d, *l, *c, weight),
{
    ops.push(linear(c.hn, weight, c.k, d.b.batch, d.b.n_embd, l.kv_row));
    assert(ops@ =~= old(ops)@ + plain_key(*d, *l, *c, weight));
}

pub open spec fn plain_value(
    d: GraphDims,
    l: LayerWidths,
    c: CoreScratch,
    weight: usize,
) -> Seq<Op> {
    seq![
        linear(c.hn, weight, c.v, d.b.batch, d.b.n_embd, l.kv_row),
    ]
}

pub(crate) fn push_plain_value(
    ops: &mut Vec<Op>,
    d: &GraphDims,
    l: &LayerWidths,
    c: &CoreScratch,
    weight: usize,
)
    ensures
        final(ops)@ == old(ops)@ + plain_value(*d, *l, *c, weight),
{
    ops.push(linear(c.hn, weight, c.v, d.b.batch, d.b.n_embd, l.kv_row));
    assert(ops@ =~= old(ops)@ + plain_value(*d, *l, *c, weight));
}

pub open spec fn value_from_key(d: GraphDims, l: LayerWidths, c: CoreScratch) -> Seq<Op> {
    seq![
        copied(c.k, c.v, d.b.batch, l.kv_row),
    ]
}

pub(crate) fn push_value_from_key(
    ops: &mut Vec<Op>,
    d: &GraphDims,
    l: &LayerWidths,
    c: &CoreScratch,
)
    ensures
        final(ops)@ == old(ops)@ + value_from_key(*d, *l, *c),
{
    ops.push(copied(c.k, c.v, d.b.batch, l.kv_row));
    assert(ops@ =~= old(ops)@ + value_from_key(*d, *l, *c));
}

pub open spec fn head_norm(
    d: GraphDims,
    l: LayerWidths,
    x: TensorId,
    weight: usize,
    heads: usize,
) -> Seq<Op> {
    seq![
        head_norms(x, Some(weight), d.b.batch, heads, l.b.head_dim),
    ]
}

pub(crate) fn push_head_norm(
    ops: &mut Vec<Op>,
    d: &GraphDims,
    l: &LayerWidths,
    x: TensorId,
    weight: usize,
    heads: usize,
)
    ensures
        final(ops)@ == old(ops)@ + head_norm(*d, *l, x, weight, heads),
{
    ops.push(head_norms(x, Some(weight), d.b.batch, heads, l.b.head_dim));
    assert(ops@ =~= old(ops)@ + head_norm(*d, *l, x, weight, heads));
}

/// Heads to be rotated.
#[derive(Clone, Copy, Debug, PartialEq, Eq, Structural)]
pub struct Heads {
    pub x: TensorId,
    pub dst: TensorId,
    pub heads: usize,
    pub head_dim: usize,
    pub rope_dim: usize,
    pub theta: Theta,
    pub freq_factors: Option<TensorId>,
    pub x_stride: usize,
}

pub open spec fn norm_rotate4(
    d: GraphDims,
    h: Heads,
    weight: usize,
    positions4: TensorId,
) -> Seq<Op> {
    seq![
        Op::QkNormMrope {
            x: h.x,
            weight,
            positions4,
            dst: h.dst,
            rows: d.b.batch,
            n_head: h.heads,
            head_dim: h.head_dim,
            rope_dim: h.rope_dim,
            theta: h.theta,
            sections: d.b.sections,
            x_stride: h.x_stride,
        },
    ]
}

pub(crate) fn push_norm_rotate4(
    ops: &mut Vec<Op>,
    d: &GraphDims,
    h: &Heads,
    weight: usize,
    positions4: TensorId,
)
    ensures
        final(ops)@ == old(ops)@ + norm_rotate4(*d, *h, weight, positions4),
{
    ops.push(
        Op::QkNormMrope {
            x: h.x,
            weight,
            positions4,
            dst: h.dst,
            rows: d.b.batch,
            n_head: h.heads,
            head_dim: h.head_dim,
            rope_dim: h.rope_dim,
            theta: h.theta,
            sections: d.b.sections,
            x_stride: h.x_stride,
        },
    );
    assert(ops@ =~= old(ops)@ + norm_rotate4(*d, *h, weight, positions4));
}

pub open spec fn norm_rotate(d: GraphDims, i: RowIds, h: Heads, weight: usize) -> Seq<Op> {
    seq![
        Op::QkNormRope {
            x: h.x,
            weight,
            positions: i.positions,
            dst: h.dst,
            rows: d.b.batch,
            n_head: h.heads,
            head_dim: h.head_dim,
            rope_dim: h.rope_dim,
            theta: h.theta,
            freq_factors: h.freq_factors,
            x_stride: h.x_stride,
        },
    ]
}

pub(crate) fn push_norm_rotate(
    ops: &mut Vec<Op>,
    d: &GraphDims,
    i: &RowIds,
    h: &Heads,
    weight: usize,
)
    ensures
        final(ops)@ == old(ops)@ + norm_rotate(*d, *i, *h, weight),
{
    ops.push(
        Op::QkNormRope {
            x: h.x,
            weight,
            positions: i.positions,
            dst: h.dst,
            rows: d.b.batch,
            n_head: h.heads,
            head_dim: h.head_dim,
            rope_dim: h.rope_dim,
            theta: h.theta,
            freq_factors: h.freq_factors,
            x_stride: h.x_stride,
        },
    );
    assert(ops@ =~= old(ops)@ + norm_rotate(*d, *i, *h, weight));
}

pub open spec fn rotate(d: GraphDims, i: RowIds, h: Heads) -> Seq<Op> {
    seq![
        Op::Rope {
            x: h.x,
            positions: i.positions,
            dst: h.dst,
            rows: d.b.batch,
            n_head: h.heads,
            head_dim: h.head_dim,
            rope_dim: h.rope_dim,
            theta: h.theta,
            freq_factors: h.freq_factors,
            x_stride: 0,
            neox: false,
            backward: false,
        },
    ]
}

pub(crate) fn push_rotate(ops: &mut Vec<Op>, d: &GraphDims, i: &RowIds, h: &Heads)
    ensures
        final(ops)@ == old(ops)@ + rotate(*d, *i, *h),
{
    ops.push(
        Op::Rope {
            x: h.x,
            positions: i.positions,
            dst: h.dst,
            rows: d.b.batch,
            n_head: h.heads,
            head_dim: h.head_dim,
            rope_dim: h.rope_dim,
            theta: h.theta,
            freq_factors: h.freq_factors,
            x_stride: 0,
            neox: false,
            backward: false,
        },
    );
    assert(ops@ =~= old(ops)@ + rotate(*d, *i, *h));
}

/// Heads that are not rotated.
pub open spec fn cast_heads(d: GraphDims, h: Heads, width: usize) -> Seq<Op> {
    seq![
        copied(h.x, h.dst, d.b.batch, width),
    ]
}

pub(crate) fn push_cast_heads(ops: &mut Vec<Op>, d: &GraphDims, h: &Heads, width: usize)
    ensures
        final(ops)@ == old(ops)@ + cast_heads(*d, *h, width),
{
    ops.push(copied(h.x, h.dst, d.b.batch, width));
    assert(ops@ =~= old(ops)@ + cast_heads(*d, *h, width));
}

/// The new rows, written to the layer's caches.
pub open spec fn cache_rows(
    d: GraphDims,
    l: LayerWidths,
    c: CoreScratch,
    k_cache: TensorId,
    v_cache: TensorId,
) -> Seq<Op> {
    seq![
        write_kv(c.k_half, k_cache, d.b.batch, l.kv_row, d.b.start_pos),
        write_kv(c.v, v_cache, d.b.batch, l.kv_row, d.b.start_pos),
    ]
}

pub(crate) fn push_cache_rows(
    ops: &mut Vec<Op>,
    d: &GraphDims,
    l: &LayerWidths,
    c: &CoreScratch,
    k_cache: TensorId,
    v_cache: TensorId,
)
    ensures
        final(ops)@ == old(ops)@ + cache_rows(*d, *l, *c, k_cache, v_cache),
{
    ops.push(write_kv(c.k_half, k_cache, d.b.batch, l.kv_row, d.b.start_pos));
    ops.push(write_kv(c.v, v_cache, d.b.batch, l.kv_row, d.b.start_pos));
    assert(ops@ =~= old(ops)@ + cache_rows(*d, *l, *c, k_cache, v_cache));
}

/// The index keys and queries of a sparse layer.
pub open spec fn sparse_keys(
    d: GraphDims,
    c: CoreScratch,
    s: SparseScratch,
    w: QsaW,
    raw: TensorId,
) -> Seq<Op> {
    seq![
        linear(c.hn, w.k_proj, s.raw_k, d.b.batch, d.b.n_embd, d.b.indexer_head_size),
        write_kv(s.raw_k, raw, d.b.batch, d.b.indexer_head_size, d.b.start_pos),
        linear(c.hn, w.q_proj, s.q, d.b.batch, d.b.n_embd, d.index_row),
    ]
}

pub(crate) fn push_sparse_keys(
    ops: &mut Vec<Op>,
    d: &GraphDims,
    c: &CoreScratch,
    s: &SparseScratch,
    w: &QsaW,
    raw: TensorId,
)
    ensures
        final(ops)@ == old(ops)@ + sparse_keys(*d, *c, *s, *w, raw),
{
    ops.push(linear(c.hn, w.k_proj, s.raw_k, d.b.batch, d.b.n_embd, d.b.indexer_head_size));
    ops.push(write_kv(s.raw_k, raw, d.b.batch, d.b.indexer_head_size, d.b.start_pos));
    ops.push(linear(c.hn, w.q_proj, s.q, d.b.batch, d.b.n_embd, d.index_row));
    assert(ops@ =~= old(ops)@ + sparse_keys(*d, *c, *s, *w, raw));
}

/// The caches that a layer's attention reads.
#[derive(Clone, Copy, Debug, PartialEq, Eq, Structural)]
pub struct Caches {
    pub k: TensorId,
    pub v: TensorId,
}

/// How a layer attends.
#[derive(Clone, Copy, Debug, PartialEq, Eq, Structural)]
pub struct Attend {
    pub mask: AttnMask,
    pub scale: Scalar,
    pub theta: Theta,
}

/// Attention over `len` rows of two caches.
pub open spec fn attend(
    d: GraphDims,
    l: LayerWidths,
    c: CoreScratch,
    a: Attend,
    k: Caches,
    len: usize,
    pos: usize,
) -> Seq<Op> {
    seq![
        Op::Attention {
            q: c.q_half,
            k_cache: k.k,
            v_cache: k.v,
            dst: c.attn,
            rows: d.b.batch,
            kv_len: len,
            n_head: d.b.n_head,
            n_kv: l.b.n_kv,
            head_dim: l.b.head_dim,
            scale: a.scale,
            mask: a.mask,
            pos,
            sinks: None,
        },
    ]
}

pub(crate) fn push_attend(
    ops: &mut Vec<Op>,
    d: &GraphDims,
    l: &LayerWidths,
    c: &CoreScratch,
    a: &Attend,
    k: &Caches,
    len: usize,
    pos: usize,
)
    ensures
        final(ops)@ == old(ops)@ + attend(*d, *l, *c, *a, *k, len, pos),
{
    ops.push(
        Op::Attention {
            q: c.q_half,
            k_cache: k.k,
            v_cache: k.v,
            dst: c.attn,
            rows: d.b.batch,
            kv_len: len,
            n_head: d.b.n_head,
            n_kv: l.b.n_kv,
            head_dim: l.b.head_dim,
            scale: a.scale,
            mask: a.mask,
            pos,
            sinks: None,
        },
    );
    assert(ops@ =~= old(ops)@ + attend(*d, *l, *c, *a, *k, len, pos));
}

/// The choice of blocks by score.
pub open spec fn choose_blocks(
    d: GraphDims,
    s: SparseScratch,
    w: QsaW,
    raw: TensorId,
    block: TensorId,
    history: Option<TensorId>,
    theta: Theta,
    rows: usize,
    visible: usize,
    compress_from: usize,
    selected: usize,
) -> Seq<Op> {
    seq![
        Op::QsaIndexer {
            q: s.q_half,
            k_cache: raw,
            block_cache: block,
            k_norm: w.k_norm,
            positions4: history,
            dst: s.indices,
            rows,
            kv_len: visible,
            compress_from,
            n_head: d.b.indexer_n_head,
            head_dim: d.b.indexer_head_size,
            top_blocks: selected,
            ratio: d.b.qsa_ratio,
            scale: Scalar::InvSqrt(d.b.indexer_head_size),
            rope_dim: d.b.rope_dim,
            theta,
            sections: d.b.sections,
        },
    ]
}

pub(crate) fn push_choose_blocks(
    ops: &mut Vec<Op>,
    d: &GraphDims,
    s: &SparseScratch,
    w: &QsaW,
    raw: TensorId,
    block: TensorId,
    history: Option<TensorId>,
    theta: Theta,
    rows: usize,
    visible: usize,
    compress_from: usize,
    selected: usize,
)
    ensures
        final(ops)@ == old(ops)@ + choose_blocks(
            *d,
            *s,
            *w,
            raw,
            block,
            history,
            theta,
            rows,
            visible,
            compress_from,
            selected,
        ),
{
    ops.push(
        Op::QsaIndexer {
            q: s.q_half,
            k_cache: raw,
            block_cache: block,
            k_norm: w.k_norm,
            positions4: history,
            dst: s.indices,
            rows,
            kv_len: visible,
            compress_from,
            n_head: d.b.indexer_n_head,
            head_dim: d.b.indexer_head_size,
            top_blocks: selected,
            ratio: d.b.qsa_ratio,
            scale: Scalar::InvSqrt(d.b.indexer_head_size),
            rope_dim: d.b.rope_dim,
            theta,
            sections: d.b.sections,
        },
    );
    assert(ops@ =~= old(ops)@ + choose_blocks(
        *d,
        *s,
        *w,
        raw,
        block,
        history,
        theta,
        rows,
        visible,
        compress_from,
        selected,
    ));
}

/// Attention of several rows, each over its own blocks.
pub open spec fn attend_blocks(
    d: GraphDims,
    l: LayerWidths,
    c: CoreScratch,
    s: SparseScratch,
    a: Attend,
    k: Caches,
    visible: usize,
    selected: usize,
) -> Seq<Op> {
    seq![
        Op::QsaBatchAttention {
            q: c.q_half,
            k_cache: k.k,
            v_cache: k.v,
            indices: s.indices,
            dst: c.attn,
            rows: d.b.batch,
            kv_len: visible,
            n_head: d.b.n_head,
            n_kv: l.b.n_kv,
            head_dim: l.b.head_dim,
            top_blocks: selected,
            ratio: d.b.qsa_ratio,
            scale: a.scale,
        },
    ]
}

pub(crate) fn push_attend_blocks(
    ops: &mut Vec<Op>,
    d: &GraphDims,
    l: &LayerWidths,
    c: &CoreScratch,
    s: &SparseScratch,
    a: &Attend,
    k: &Caches,
    visible: usize,
    selected: usize,
)
    ensures
        final(ops)@ == old(ops)@ + attend_blocks(*d, *l, *c, *s, *a, *k, visible, selected),
{
    ops.push(
        Op::QsaBatchAttention {
            q: c.q_half,
            k_cache: k.k,
            v_cache: k.v,
            indices: s.indices,
            dst: c.attn,
            rows: d.b.batch,
            kv_len: visible,
            n_head: d.b.n_head,
            n_kv: l.b.n_kv,
            head_dim: l.b.head_dim,
            top_blocks: selected,
            ratio: d.b.qsa_ratio,
            scale: a.scale,
        },
    );
    assert(ops@ =~= old(ops)@ + attend_blocks(*d, *l, *c, *s, *a, *k, visible, selected));
}

/// The chosen blocks and the unfinished one, copied together.
pub open spec fn gather_blocks(
    d: GraphDims,
    l: LayerWidths,
    s: SparseScratch,
    k: Caches,
    selected: usize,
    complete: usize,
    tail: usize,
) -> Seq<Op> {
    seq![
        Op::QsaGather {
            k_cache: k.k,
            v_cache: k.v,
            indices: s.indices,
            k_dst: s.gather_k,
            v_dst: s.gather_v,
            selected_blocks: selected,
            complete_blocks: complete,
            tail,
            ratio: d.b.qsa_ratio,
            row_elems: l.kv_row,
        },
    ]
}

pub(crate) fn push_gather_blocks(
    ops: &mut Vec<Op>,
    d: &GraphDims,
    l: &LayerWidths,
    s: &SparseScratch,
    k: &Caches,
    selected: usize,
    complete: usize,
    tail: usize,
)
    ensures
        final(ops)@ == old(ops)@ + gather_blocks(*d, *l, *s, *k, selected, complete, tail),
{
    ops.push(
        Op::QsaGather {
            k_cache: k.k,
            v_cache: k.v,
            indices: s.indices,
            k_dst: s.gather_k,
            v_dst: s.gather_v,
            selected_blocks: selected,
            complete_blocks: complete,
            tail,
            ratio: d.b.qsa_ratio,
            row_elems: l.kv_row,
        },
    );
    assert(ops@ =~= old(ops)@ + gather_blocks(*d, *l, *s, *k, selected, complete, tail));
}

/// The gates that stand behind each head's queries.
pub open spec fn gate_heads(d: GraphDims, l: LayerWidths, c: CoreScratch) -> Seq<Op> {
    seq![
        Op::GatedAct {
            gate: c.gated,
            up: c.attn,
            dst: c.attn,
            rows: d.b.batch,
            nff: l.query_row,
            act: Activation::Sigmoid,
            up_off: 0,
            up_stride: 0,
            gate_stride: l.gated_row,
            gate_block: l.gated_head,
            clamp: Clamp::Off,
        },
    ]
}

pub(crate) fn push_gate_heads(ops: &mut Vec<Op>, d: &GraphDims, l: &LayerWidths, c: &CoreScratch)
    ensures
        final(ops)@ == old(ops)@ + gate_heads(*d, *l, *c),
{
    ops.push(
        Op::GatedAct {
            gate: c.gated,
            up: c.attn,
            dst: c.attn,
            rows: d.b.batch,
            nff: l.query_row,
            act: Activation::Sigmoid,
            up_off: 0,
            up_stride: 0,
            gate_stride: l.gated_row,
            gate_block: l.gated_head,
            clamp: Clamp::Off,
        },
    );
    assert(ops@ =~= old(ops)@ + gate_heads(*d, *l, *c));
}

pub open spec fn norm_heads(
    d: GraphDims,
    l: LayerWidths,
    c: CoreScratch,
    weight: usize,
) -> Seq<Op> {
    seq![
        rms_norm(c.attn, weight, c.attn, d.b.batch, l.query_row),
    ]
}

pub(crate) fn push_norm_heads(
    ops: &mut Vec<Op>,
    d: &GraphDims,
    l: &LayerWidths,
    c: &CoreScratch,
    weight: usize,
)
    ensures
        final(ops)@ == old(ops)@ + norm_heads(*d, *l, *c, weight),
{
    ops.push(rms_norm(c.attn, weight, c.attn, d.b.batch, l.query_row));
    assert(ops@ =~= old(ops)@ + norm_heads(*d, *l, *c, weight));
}

pub open spec fn attention_out(
    d: GraphDims,
    l: LayerWidths,
    c: CoreScratch,
    weight: usize,
) -> Seq<Op> {
    seq![
        linear(c.attn, weight, c.sub, d.b.batch, l.query_row, d.b.n_embd),
    ]
}

pub(crate) fn push_attention_out(
    ops: &mut Vec<Op>,
    d: &GraphDims,
    l: &LayerWidths,
    c: &CoreScratch,
    weight: usize,
)
    ensures
        final(ops)@ == old(ops)@ + attention_out(*d, *l, *c, weight),
{
    ops.push(linear(c.attn, weight, c.sub, d.b.batch, l.query_row, d.b.n_embd));
    assert(ops@ =~= old(ops)@ + attention_out(*d, *l, *c, weight));
}

/// The n-gram embedding of a layer, added to the residual streams.
pub open spec fn ngram_ops(
    d: GraphDims,
    c: CoreScratch,
    q: QwenScratch,
    w: QwenPleW,
    wide: TensorId,
    embd: TensorId,
    state: TensorId,
    ones: usize,
) -> Seq<Op> {
    seq![
        linear(embd, w.key, q.key, d.b.batch, d.ple_in, d.wide),
        linear(embd, w.value, c.hn, d.b.batch, d.ple_in, d.b.n_embd),
        rms_norm(q.key, ones, q.key, d.stream_rows, d.b.n_embd),
        times_vec(q.key, w.norm_key, d.b.batch, d.wide),
        rms_norm(wide, ones, q.query, d.stream_rows, d.b.n_embd),
        times_vec(q.query, w.norm_query, d.b.batch, d.wide),
        Op::QwenPleGate {
            key: q.key,
            query: q.query,
            value: c.hn,
            dst: q.value,
            rows: d.b.batch,
            hc: d.b.hc_mult,
            n_embd: d.b.n_embd,
        },
        rms_norm(q.value, ones, q.key, d.stream_rows, d.b.n_embd),
        times_vec(q.key, w.norm_conv, d.b.batch, d.wide),
        convolve(q.key, w.conv, state, q.conv, d.b.batch, d.wide, d.ple_kernel),
        sum(wide, q.value, q.alt, d.b.batch, d.wide),
        sum(q.alt, q.conv, wide, d.b.batch, d.wide),
    ]
}

pub(crate) fn push_ngram_ops(
    ops: &mut Vec<Op>,
    d: &GraphDims,
    c: &CoreScratch,
    q: &QwenScratch,
    w: &QwenPleW,
    wide: TensorId,
    embd: TensorId,
    state: TensorId,
    ones: usize,
)
    ensures
        final(ops)@ == old(ops)@ + ngram_ops(*d, *c, *q, *w, wide, embd, state, ones),
{
    ops.push(linear(embd, w.key, q.key, d.b.batch, d.ple_in, d.wide));
    ops.push(linear(embd, w.value, c.hn, d.b.batch, d.ple_in, d.b.n_embd));
    ops.push(rms_norm(q.key, ones, q.key, d.stream_rows, d.b.n_embd));
    ops.push(times_vec(q.key, w.norm_key, d.b.batch, d.wide));
    ops.push(rms_norm(wide, ones, q.query, d.stream_rows, d.b.n_embd));
    ops.push(times_vec(q.query, w.norm_query, d.b.batch, d.wide));
    ops.push(
        Op::QwenPleGate {
            key: q.key,
            query: q.query,
            value: c.hn,
            dst: q.value,
            rows: d.b.batch,
            hc: d.b.hc_mult,
            n_embd: d.b.n_embd,
        },
    );
    ops.push(rms_norm(q.value, ones, q.key, d.stream_rows, d.b.n_embd));
    ops.push(times_vec(q.key, w.norm_conv, d.b.batch, d.wide));
    ops.push(convolve(q.key, w.conv, state, q.conv, d.b.batch, d.wide, d.ple_kernel));
    ops.push(sum(wide, q.value, q.alt, d.b.batch, d.wide));
    ops.push(sum(q.alt, q.conv, wide, d.b.batch, d.wide));
    assert(ops@ =~= old(ops)@ + ngram_ops(*d, *c, *q, *w, wide, embd, state, ones));
}

/// The weights that mix the residual streams of compressed attention.
#[derive(Clone, Copy, Debug, PartialEq, Eq, Structural)]
pub struct StreamW {
    pub func: usize,
    pub base: usize,
    pub scale: usize,
}

/// The weights of a gated residual module; the model's last one injects nothing.
#[derive(Clone, Copy, Debug, PartialEq, Eq, Structural)]
pub struct QwenStreamW {
    pub norm: usize,
    pub down: usize,
    pub up: usize,
    pub inject: Option<usize>,
}

/// The residual streams, collapsed into the rows that a block reads.
pub open spec fn collapse_streams(
    d: GraphDims,
    s: StreamScratch,
    w: StreamW,
    residual: TensorId,
    dst: TensorId,
    ones: usize,
) -> Seq<Op> {
    seq![
        rms_norm(residual, ones, s.normed, d.b.batch, d.wide),
        linear(s.normed, w.func, s.mixes, d.b.batch, d.wide, d.hc_gates),
        Op::HyperConnectMix {
            mixes: s.mixes,
            scale: w.scale,
            base: w.base,
            pre: s.pre,
            post: Some(s.post),
            comb: Some(s.comb),
            rows: d.b.batch,
            hc: d.b.hc_mult,
            n_iter: d.b.hc_iters,
        },
        Op::HyperConnectPre {
            x: residual,
            weights: s.pre,
            dst,
            rows: d.b.batch,
            hc: d.b.hc_mult,
            n_embd: d.b.n_embd,
        },
    ]
}

pub(crate) fn push_collapse_streams(
    ops: &mut Vec<Op>,
    d: &GraphDims,
    s: &StreamScratch,
    w: &StreamW,
    residual: TensorId,
    dst: TensorId,
    ones: usize,
)
    ensures
        final(ops)@ == old(ops)@ + collapse_streams(*d, *s, *w, residual, dst, ones),
{
    ops.push(rms_norm(residual, ones, s.normed, d.b.batch, d.wide));
    ops.push(linear(s.normed, w.func, s.mixes, d.b.batch, d.wide, d.hc_gates));
    ops.push(
        Op::HyperConnectMix {
            mixes: s.mixes,
            scale: w.scale,
            base: w.base,
            pre: s.pre,
            post: Some(s.post),
            comb: Some(s.comb),
            rows: d.b.batch,
            hc: d.b.hc_mult,
            n_iter: d.b.hc_iters,
        },
    );
    ops.push(
        Op::HyperConnectPre {
            x: residual,
            weights: s.pre,
            dst,
            rows: d.b.batch,
            hc: d.b.hc_mult,
            n_embd: d.b.n_embd,
        },
    );
    assert(ops@ =~= old(ops)@ + collapse_streams(*d, *s, *w, residual, dst, ones));
}

/// A block's output, written back over the residual streams.
pub open spec fn spread_streams(
    d: GraphDims,
    c: CoreScratch,
    s: StreamScratch,
    residual: TensorId,
    dst: TensorId,
) -> Seq<Op> {
    seq![
        Op::HyperConnectPost {
            x: c.sub,
            residual,
            post: s.post,
            comb: s.comb,
            dst,
            rows: d.b.batch,
            hc: d.b.hc_mult,
            n_embd: d.b.n_embd,
        },
    ]
}

pub(crate) fn push_spread_streams(
    ops: &mut Vec<Op>,
    d: &GraphDims,
    c: &CoreScratch,
    s: &StreamScratch,
    residual: TensorId,
    dst: TensorId,
)
    ensures
        final(ops)@ == old(ops)@ + spread_streams(*d, *c, *s, residual, dst),
{
    ops.push(
        Op::HyperConnectPost {
            x: c.sub,
            residual,
            post: s.post,
            comb: s.comb,
            dst,
            rows: d.b.batch,
            hc: d.b.hc_mult,
            n_embd: d.b.n_embd,
        },
    );
    assert(ops@ =~= old(ops)@ + spread_streams(*d, *c, *s, residual, dst));
}

pub open spec fn mix_gated(
    d: GraphDims,
    q: QwenScratch,
    w: QwenStreamW,
    residual: TensorId,
    dst: TensorId,
    ones: usize,
) -> Seq<Op> {
    seq![
        rms_norm(residual, ones, q.normed, d.stream_rows, d.b.n_embd),
        times_vec(q.normed, w.norm, d.b.batch, d.wide),
        linear(q.normed, w.down, q.low, d.b.batch, d.wide, d.b.hc_low_rank),
        Op::Silu {
            x: q.low,
            dst: q.low,
            rows: d.b.batch,
            n: d.b.hc_low_rank,
            scale: Scalar::Inverse(d.b.hc_mult),
        },
        linear(q.low, w.up, q.mix, d.b.batch, d.b.hc_low_rank, d.wide),
        Op::QwenHcMix {
            x: q.normed,
            gate: q.mix,
            dst,
            rows: d.b.batch,
            hc: d.b.hc_mult,
            n_embd: d.b.n_embd,
        },
    ]
}

pub(crate) fn push_mix_gated(
    ops: &mut Vec<Op>,
    d: &GraphDims,
    q: &QwenScratch,
    w: &QwenStreamW,
    residual: TensorId,
    dst: TensorId,
    ones: usize,
)
    ensures
        final(ops)@ == old(ops)@ + mix_gated(*d, *q, *w, residual, dst, ones),
{
    ops.push(rms_norm(residual, ones, q.normed, d.stream_rows, d.b.n_embd));
    ops.push(times_vec(q.normed, w.norm, d.b.batch, d.wide));
    ops.push(linear(q.normed, w.down, q.low, d.b.batch, d.wide, d.b.hc_low_rank));
    ops.push(
        Op::Silu {
            x: q.low,
            dst: q.low,
            rows: d.b.batch,
            n: d.b.hc_low_rank,
            scale: Scalar::Inverse(d.b.hc_mult),
        },
    );
    ops.push(linear(q.low, w.up, q.mix, d.b.batch, d.b.hc_low_rank, d.wide));
    ops.push(
        Op::QwenHcMix {
            x: q.normed,
            gate: q.mix,
            dst,
            rows: d.b.batch,
            hc: d.b.hc_mult,
            n_embd: d.b.n_embd,
        },
    );
    assert(ops@ =~= old(ops)@ + mix_gated(*d, *q, *w, residual, dst, ones));
}

pub open spec fn inject_gates(d: GraphDims, q: QwenScratch, weight: usize) -> Seq<Op> {
    seq![
        linear(q.normed, weight, q.inject, d.b.batch, d.wide, d.b.hc_mult),
    ]
}

pub(crate) fn push_inject_gates(ops: &mut Vec<Op>, d: &GraphDims, q: &QwenScratch, weight: usize)
    ensures
        final(ops)@ == old(ops)@ + inject_gates(*d, *q, weight),
{
    ops.push(linear(q.normed, weight, q.inject, d.b.batch, d.wide, d.b.hc_mult));
    assert(ops@ =~= old(ops)@ + inject_gates(*d, *q, weight));
}

/// The gated residual streams, mixed into the rows that a block reads.
pub open spec fn gated_streams(
    before: Seq<Op>,
    d: GraphDims,
    q: QwenScratch,
    w: QwenStreamW,
    residual: TensorId,
    dst: TensorId,
    ones: usize,
) -> Seq<Op> {
    let g = before + mix_gated(d, q, w, residual, dst, ones);
    match w.inject {
        Some(weight) => {
            g + inject_gates(d, q, weight)
        },
        None => {
            g
        },
    }
}

pub(crate) fn emit_gated_streams(
    ops: &mut Vec<Op>,
    d: &GraphDims,
    q: &QwenScratch,
    w: &QwenStreamW,
    residual: TensorId,
    dst: TensorId,
    ones: usize,
)
    ensures
        final(ops)@ == gated_streams(old(ops)@, *d, *q, *w, residual, dst, ones),
{
    push_mix_gated(ops, d, q, w, residual, dst, ones);
    match w.inject {
        Some(weight) => {
            push_inject_gates(ops, d, q, weight);
        },
        None => {

        },
    }
}

/// A block's output, injected into the gated residual streams.
pub open spec fn inject_block(
    d: GraphDims,
    c: CoreScratch,
    q: QwenScratch,
    residual: TensorId,
    dst: TensorId,
) -> Seq<Op> {
    seq![
        Op::QwenHcInject {
            residual,
            block: c.sub,
            gate: q.inject,
            dst,
            rows: d.b.batch,
            hc: d.b.hc_mult,
            n_embd: d.b.n_embd,
        },
    ]
}

pub(crate) fn push_inject_block(
    ops: &mut Vec<Op>,
    d: &GraphDims,
    c: &CoreScratch,
    q: &QwenScratch,
    residual: TensorId,
    dst: TensorId,
)
    ensures
        final(ops)@ == old(ops)@ + inject_block(*d, *c, *q, residual, dst),
{
    ops.push(
        Op::QwenHcInject {
            residual,
            block: c.sub,
            gate: q.inject,
            dst,
            rows: d.b.batch,
            hc: d.b.hc_mult,
            n_embd: d.b.n_embd,
        },
    );
    assert(ops@ =~= old(ops)@ + inject_block(*d, *c, *q, residual, dst));
}

} // verus!
