//! That the operations of a layer's token mixer read only what is there.

use crate::attention_plan::{AttnMask, CompressedStep};
use crate::graph_dims::{GraphDims, LayerWidths};
use crate::graph_flow::{flows, grows, has, has_if, known_by, lemma_follows, sound};
use crate::graph_inputs::RowIds;
use crate::graph_mixers::{
    attend, attend_blocks, attention_out, biased, cache_row, cache_rows, cast_heads,
    choose_blocks, collapse_streams, compress, compress_index, compressed_attend, compressed_key,
    compressed_out, compressed_query, delta_inputs, delta_norm_joined, delta_norm_split,
    delta_output, delta_parts, delta_rates, delta_rule, gate_heads, gated_query, gather_blocks,
    group_out, head_norm, index_query, index_score, inject_block, inject_gates, joined_row,
    joined_rows, kda_ops, latent_attend, latent_gate, latent_key, latent_out, latent_query,
    latent_query_low, mix_gated, ngram_ops, norm_heads, norm_rotate, norm_rotate4, plain_key,
    plain_query, plain_value, rope_tail, rotate, sparse_keys, spread_streams, token_index,
    value_from_key, Attend, Caches, CompressedLayout, Heads, QwenStreamW, StreamW, TailRope,
};
use crate::graph_ops::{Activation, Op, Theta};
use crate::graph_scratch::{
    CompressedScratch, CoreScratch, DeltaScratch, LatentScratch, QwenScratch, SparseScratch,
    StreamScratch, TokenIndexScratch,
};
use crate::weight_handles::{
    DeltaW, Dsv4CompressorW, Dsv4IndexerW, Dsv4W, IndexerW, KdaW, MlaW, QsaW, QwenPleW,
};
use crate::weight_plan::TensorId;
use vstd::prelude::*;

verus! {

pub(crate) proof fn flow_delta_inputs(
    known: Set<TensorId>,
    before: Seq<Op>,
    d: GraphDims,
    c: CoreScratch,
    t: DeltaScratch,
    w: DeltaW,
    history: TensorId,
)
    requires
        sound(known, before),
        has(known, before, c.hn),
        has(known, before, history),
    ensures
        sound(known, before + delta_inputs(d, c, t, w, history)),
        grows(known, before, before + delta_inputs(d, c, t, w, history)),
        has(known, before + delta_inputs(d, c, t, w, history), t.qkv),
        has(known, before + delta_inputs(d, c, t, w, history), t.z),
        has(known, before + delta_inputs(d, c, t, w, history), history),
        has(known, before + delta_inputs(d, c, t, w, history), t.conv),
{
    reveal_with_fuel(flows, 4);
    reveal_with_fuel(known_by, 4);
    lemma_follows(known, before, delta_inputs(d, c, t, w, history));
}

pub(crate) proof fn flow_delta_parts(
    known: Set<TensorId>,
    before: Seq<Op>,
    d: GraphDims,
    t: DeltaScratch,
)
    requires
        sound(known, before),
        has(known, before, t.conv),
    ensures
        sound(known, before + delta_parts(d, t)),
        grows(known, before, before + delta_parts(d, t)),
        has(known, before + delta_parts(d, t), t.q),
        has(known, before + delta_parts(d, t), t.k),
        has(known, before + delta_parts(d, t), t.v),
{
    reveal_with_fuel(flows, 4);
    reveal_with_fuel(known_by, 4);
    lemma_follows(known, before, delta_parts(d, t));
}

pub(crate) proof fn flow_delta_rates(
    known: Set<TensorId>,
    before: Seq<Op>,
    d: GraphDims,
    c: CoreScratch,
    t: DeltaScratch,
    w: DeltaW,
)
    requires
        sound(known, before),
        has(known, before, c.hn),
    ensures
        sound(known, before + delta_rates(d, c, t, w)),
        grows(known, before, before + delta_rates(d, c, t, w)),
        has(known, before + delta_rates(d, c, t, w), t.beta),
        has(known, before + delta_rates(d, c, t, w), t.alpha),
{
    reveal_with_fuel(flows, 3);
    reveal_with_fuel(known_by, 3);
    lemma_follows(known, before, delta_rates(d, c, t, w));
}

pub(crate) proof fn flow_delta_rule(
    known: Set<TensorId>,
    before: Seq<Op>,
    d: GraphDims,
    t: DeltaScratch,
    w: DeltaW,
    state: TensorId,
    q: TensorId,
    k: TensorId,
    v: TensorId,
)
    requires
        sound(known, before),
        has(known, before, q),
        has(known, before, k),
        has(known, before, v),
        has(known, before, t.beta),
        has(known, before, t.alpha),
        has(known, before, state),
    ensures
        sound(known, before + delta_rule(d, t, w, state, q, k, v)),
        grows(known, before, before + delta_rule(d, t, w, state, q, k, v)),
        has(known, before + delta_rule(d, t, w, state, q, k, v), state),
        has(known, before + delta_rule(d, t, w, state, q, k, v), t.out),
{
    reveal_with_fuel(flows, 2);
    reveal_with_fuel(known_by, 2);
    lemma_follows(known, before, delta_rule(d, t, w, state, q, k, v));
}

pub(crate) proof fn flow_delta_norm_joined(
    known: Set<TensorId>,
    before: Seq<Op>,
    d: GraphDims,
    t: DeltaScratch,
    w: DeltaW,
)
    requires
        sound(known, before),
        has(known, before, t.out),
        has(known, before, t.z),
    ensures
        sound(known, before + delta_norm_joined(d, t, w)),
        grows(known, before, before + delta_norm_joined(d, t, w)),
        has(known, before + delta_norm_joined(d, t, w), t.out),
{
    reveal_with_fuel(flows, 2);
    reveal_with_fuel(known_by, 2);
    lemma_follows(known, before, delta_norm_joined(d, t, w));
}

pub(crate) proof fn flow_delta_norm_split(
    known: Set<TensorId>,
    before: Seq<Op>,
    d: GraphDims,
    t: DeltaScratch,
    w: DeltaW,
    act: Activation,
)
    requires
        sound(known, before),
        has(known, before, t.out),
        has(known, before, t.z),
    ensures
        sound(known, before + delta_norm_split(d, t, w, act)),
        grows(known, before, before + delta_norm_split(d, t, w, act)),
        has(known, before + delta_norm_split(d, t, w, act), t.out),
{
    reveal_with_fuel(flows, 3);
    reveal_with_fuel(known_by, 3);
    lemma_follows(known, before, delta_norm_split(d, t, w, act));
}

pub(crate) proof fn flow_delta_output(
    known: Set<TensorId>,
    before: Seq<Op>,
    d: GraphDims,
    c: CoreScratch,
    t: DeltaScratch,
    w: DeltaW,
)
    requires
        sound(known, before),
        has(known, before, t.out),
    ensures
        sound(known, before + delta_output(d, c, t, w)),
        grows(known, before, before + delta_output(d, c, t, w)),
        has(known, before + delta_output(d, c, t, w), c.sub),
{
    reveal_with_fuel(flows, 2);
    reveal_with_fuel(known_by, 2);
    lemma_follows(known, before, delta_output(d, c, t, w));
}

pub(crate) proof fn flow_kda_ops(
    known: Set<TensorId>,
    before: Seq<Op>,
    d: GraphDims,
    c: CoreScratch,
    t: DeltaScratch,
    w: KdaW,
    history: TensorId,
    state: TensorId,
)
    requires
        sound(known, before),
        has(known, before, c.hn),
        has(known, before, history),
        has(known, before, state),
    ensures
        sound(known, before + kda_ops(d, c, t, w, history, state)),
        grows(known, before, before + kda_ops(d, c, t, w, history, state)),
        has(known, before + kda_ops(d, c, t, w, history, state), t.qkv),
        has(known, before + kda_ops(d, c, t, w, history, state), history),
        has(known, before + kda_ops(d, c, t, w, history, state), t.conv),
        has(known, before + kda_ops(d, c, t, w, history, state), t.forget),
        has(known, before + kda_ops(d, c, t, w, history, state), t.beta),
        has(known, before + kda_ops(d, c, t, w, history, state), state),
        has(known, before + kda_ops(d, c, t, w, history, state), t.out),
        has(known, before + kda_ops(d, c, t, w, history, state), t.z),
        has(known, before + kda_ops(d, c, t, w, history, state), c.sub),
{
    reveal_with_fuel(flows, 10);
    reveal_with_fuel(known_by, 10);
    lemma_follows(known, before, kda_ops(d, c, t, w, history, state));
}

pub(crate) proof fn flow_rope_tail(
    known: Set<TensorId>,
    before: Seq<Op>,
    d: GraphDims,
    positions: TensorId,
    r: TailRope,
)
    requires
        sound(known, before),
        has(known, before, r.x),
        has(known, before, positions),
        has_if(known, before, r.freq_factors),
    ensures
        sound(known, before + rope_tail(d, positions, r)),
        grows(known, before, before + rope_tail(d, positions, r)),
        has(known, before + rope_tail(d, positions, r), r.pack),
        has(known, before + rope_tail(d, positions, r), r.x),
{
    reveal_with_fuel(flows, 4);
    reveal_with_fuel(known_by, 4);
    lemma_follows(known, before, rope_tail(d, positions, r));
}

pub(crate) proof fn flow_compressed_query(
    known: Set<TensorId>,
    before: Seq<Op>,
    d: GraphDims,
    c: CoreScratch,
    x: CompressedScratch,
    w: Dsv4W,
)
    requires
        sound(known, before),
        has(known, before, c.hn),
    ensures
        sound(known, before + compressed_query(d, c, x, w)),
        grows(known, before, before + compressed_query(d, c, x, w)),
        has(known, before + compressed_query(d, c, x, w), x.low),
        has(known, before + compressed_query(d, c, x, w), c.q),
{
    reveal_with_fuel(flows, 5);
    reveal_with_fuel(known_by, 5);
    lemma_follows(known, before, compressed_query(d, c, x, w));
}

pub(crate) proof fn flow_compressed_key(
    known: Set<TensorId>,
    before: Seq<Op>,
    d: GraphDims,
    c: CoreScratch,
    x: CompressedScratch,
    w: Dsv4W,
)
    requires
        sound(known, before),
        has(known, before, c.hn),
    ensures
        sound(known, before + compressed_key(d, c, x, w)),
        grows(known, before, before + compressed_key(d, c, x, w)),
        has(known, before + compressed_key(d, c, x, w), x.kv),
{
    reveal_with_fuel(flows, 3);
    reveal_with_fuel(known_by, 3);
    lemma_follows(known, before, compressed_key(d, c, x, w));
}

pub(crate) proof fn flow_cache_row(
    known: Set<TensorId>,
    before: Seq<Op>,
    src: TensorId,
    cache: TensorId,
    row: usize,
    cache_off: usize,
    rows: usize,
    packed: bool,
)
    requires
        sound(known, before),
        has(known, before, src),
    ensures
        sound(known, before + cache_row(src, cache, row, cache_off, rows, packed)),
        grows(known, before, before + cache_row(src, cache, row, cache_off, rows, packed)),
        has(known, before + cache_row(src, cache, row, cache_off, rows, packed), cache),
{
    reveal_with_fuel(flows, 2);
    reveal_with_fuel(known_by, 2);
    lemma_follows(known, before, cache_row(src, cache, row, cache_off, rows, packed));
}

pub(crate) proof fn flow_compress(
    known: Set<TensorId>,
    before: Seq<Op>,
    d: GraphDims,
    c: CoreScratch,
    x: CompressedScratch,
    w: Dsv4CompressorW,
    y: CompressedLayout,
    state: TensorId,
    freq_factors: Option<TensorId>,
    ratio: usize,
    width: usize,
)
    requires
        sound(known, before),
        has(known, before, c.hn),
        has(known, before, state),
        has_if(known, before, freq_factors),
    ensures
        sound(known, before + compress(d, c, x, w, y, state, freq_factors, ratio, width)),
        grows(known, before, before + compress(d, c, x, w, y, state, freq_factors, ratio, width)),
        has(known, before + compress(d, c, x, w, y, state, freq_factors, ratio, width), x.values),
        has(known, before + compress(d, c, x, w, y, state, freq_factors, ratio, width), x.scores),
        has(known, before + compress(d, c, x, w, y, state, freq_factors, ratio, width), state),
        has(known, before + compress(d, c, x, w, y, state, freq_factors, ratio, width), x.row),
{
    reveal_with_fuel(flows, 4);
    reveal_with_fuel(known_by, 4);
    lemma_follows(known, before, compress(d, c, x, w, y, state, freq_factors, ratio, width));
}

pub(crate) proof fn flow_compress_index(
    known: Set<TensorId>,
    before: Seq<Op>,
    d: GraphDims,
    c: CoreScratch,
    x: CompressedScratch,
    w: Dsv4IndexerW,
    y: CompressedLayout,
    state: TensorId,
    freq_factors: Option<TensorId>,
    ratio: usize,
)
    requires
        sound(known, before),
        has(known, before, c.hn),
        has(known, before, state),
        has_if(known, before, freq_factors),
    ensures
        sound(known, before + compress_index(d, c, x, w, y, state, freq_factors, ratio)),
        grows(known, before, before + compress_index(d, c, x, w, y, state, freq_factors, ratio)),
        has(known, before + compress_index(d, c, x, w, y, state, freq_factors, ratio), x.index_values),
        has(known, before + compress_index(d, c, x, w, y, state, freq_factors, ratio), x.index_scores),
        has(known, before + compress_index(d, c, x, w, y, state, freq_factors, ratio), state),
        has(known, before + compress_index(d, c, x, w, y, state, freq_factors, ratio), x.index_key),
{
    reveal_with_fuel(flows, 4);
    reveal_with_fuel(known_by, 4);
    lemma_follows(known, before, compress_index(d, c, x, w, y, state, freq_factors, ratio));
}

pub(crate) proof fn flow_index_query(
    known: Set<TensorId>,
    before: Seq<Op>,
    d: GraphDims,
    x: CompressedScratch,
    w: Dsv4IndexerW,
)
    requires
        sound(known, before),
        has(known, before, x.low),
    ensures
        sound(known, before + index_query(d, x, w)),
        grows(known, before, before + index_query(d, x, w)),
        has(known, before + index_query(d, x, w), x.index_q),
{
    reveal_with_fuel(flows, 2);
    reveal_with_fuel(known_by, 2);
    lemma_follows(known, before, index_query(d, x, w));
}

pub(crate) proof fn flow_index_score(
    known: Set<TensorId>,
    before: Seq<Op>,
    d: GraphDims,
    c: CoreScratch,
    x: CompressedScratch,
    w: Dsv4IndexerW,
    y: CompressedLayout,
    state: TensorId,
    n: CompressedStep,
)
    requires
        sound(known, before),
        has(known, before, x.index_q),
        has(known, before, c.hn),
        has(known, before, state),
    ensures
        sound(known, before + index_score(d, c, x, w, y, state, n)),
        grows(known, before, before + index_score(d, c, x, w, y, state, n)),
        has(known, before + index_score(d, c, x, w, y, state, n), x.index_packed),
        has(known, before + index_score(d, c, x, w, y, state, n), x.index_weights),
        has(known, before + index_score(d, c, x, w, y, state, n), x.index_top),
{
    reveal_with_fuel(flows, 4);
    reveal_with_fuel(known_by, 4);
    lemma_follows(known, before, index_score(d, c, x, w, y, state, n));
}

pub(crate) proof fn flow_compressed_attend(
    known: Set<TensorId>,
    before: Seq<Op>,
    d: GraphDims,
    c: CoreScratch,
    x: CompressedScratch,
    w: Dsv4W,
    y: CompressedLayout,
    raw: TensorId,
    state: TensorId,
    n: CompressedStep,
)
    requires
        sound(known, before),
        has(known, before, raw),
        has(known, before, state),
        has(known, before, c.q),
        n.scored ==> has(known, before, x.index_top),
    ensures
        sound(known, before + compressed_attend(d, c, x, w, y, raw, state, n)),
        grows(known, before, before + compressed_attend(d, c, x, w, y, raw, state, n)),
        has(known, before + compressed_attend(d, c, x, w, y, raw, state, n), x.gather),
        has(known, before + compressed_attend(d, c, x, w, y, raw, state, n), c.q_half),
        has(known, before + compressed_attend(d, c, x, w, y, raw, state, n), c.attn),
{
    reveal_with_fuel(flows, 4);
    reveal_with_fuel(known_by, 4);
    lemma_follows(known, before, compressed_attend(d, c, x, w, y, raw, state, n));
}

pub(crate) proof fn flow_group_out(
    known: Set<TensorId>,
    before: Seq<Op>,
    d: GraphDims,
    c: CoreScratch,
    x: CompressedScratch,
    w: Dsv4W,
    from: usize,
    w_off: usize,
    to: usize,
)
    requires
        sound(known, before),
        has(known, before, c.attn),
    ensures
        sound(known, before + group_out(d, c, x, w, from, w_off, to)),
        grows(known, before, before + group_out(d, c, x, w, from, w_off, to)),
        has(known, before + group_out(d, c, x, w, from, w_off, to), x.group_in),
        has(known, before + group_out(d, c, x, w, from, w_off, to), x.group_out),
        has(known, before + group_out(d, c, x, w, from, w_off, to), x.groups),
{
    reveal_with_fuel(flows, 4);
    reveal_with_fuel(known_by, 4);
    lemma_follows(known, before, group_out(d, c, x, w, from, w_off, to));
}

pub(crate) proof fn flow_compressed_out(
    known: Set<TensorId>,
    before: Seq<Op>,
    d: GraphDims,
    c: CoreScratch,
    x: CompressedScratch,
    w: Dsv4W,
)
    requires
        sound(known, before),
        has(known, before, x.groups),
    ensures
        sound(known, before + compressed_out(d, c, x, w)),
        grows(known, before, before + compressed_out(d, c, x, w)),
        has(known, before + compressed_out(d, c, x, w), c.sub),
{
    reveal_with_fuel(flows, 2);
    reveal_with_fuel(known_by, 2);
    lemma_follows(known, before, compressed_out(d, c, x, w));
}

pub(crate) proof fn flow_latent_query_low(
    known: Set<TensorId>,
    before: Seq<Op>,
    d: GraphDims,
    c: CoreScratch,
    s: LatentScratch,
    wq_a: usize,
    q_a_norm: usize,
    wq_b: usize,
)
    requires
        sound(known, before),
        has(known, before, c.hn),
    ensures
        sound(known, before + latent_query_low(d, c, s, wq_a, q_a_norm, wq_b)),
        grows(known, before, before + latent_query_low(d, c, s, wq_a, q_a_norm, wq_b)),
        has(known, before + latent_query_low(d, c, s, wq_a, q_a_norm, wq_b), c.attn),
        has(known, before + latent_query_low(d, c, s, wq_a, q_a_norm, wq_b), s.q),
{
    reveal_with_fuel(flows, 4);
    reveal_with_fuel(known_by, 4);
    lemma_follows(known, before, latent_query_low(d, c, s, wq_a, q_a_norm, wq_b));
}

pub(crate) proof fn flow_latent_query(
    known: Set<TensorId>,
    before: Seq<Op>,
    d: GraphDims,
    c: CoreScratch,
    s: LatentScratch,
    wq_b: usize,
)
    requires
        sound(known, before),
        has(known, before, c.hn),
    ensures
        sound(known, before + latent_query(d, c, s, wq_b)),
        grows(known, before, before + latent_query(d, c, s, wq_b)),
        has(known, before + latent_query(d, c, s, wq_b), s.q),
{
    reveal_with_fuel(flows, 2);
    reveal_with_fuel(known_by, 2);
    lemma_follows(known, before, latent_query(d, c, s, wq_b));
}

pub(crate) proof fn flow_token_index(
    known: Set<TensorId>,
    before: Seq<Op>,
    d: GraphDims,
    c: CoreScratch,
    i: RowIds,
    t: TokenIndexScratch,
    w: IndexerW,
    cache: TensorId,
    theta: Theta,
    freq_factors: Option<TensorId>,
)
    requires
        sound(known, before),
        has(known, before, c.hn),
        has(known, before, i.positions),
        has(known, before, cache),
        has(known, before, c.attn),
        has_if(known, before, freq_factors),
    ensures
        sound(known, before + token_index(d, c, i, t, w, cache, theta, freq_factors)),
        grows(known, before, before + token_index(d, c, i, t, w, cache, theta, freq_factors)),
        has(known, before + token_index(d, c, i, t, w, cache, theta, freq_factors), t.k),
        has(known, before + token_index(d, c, i, t, w, cache, theta, freq_factors), cache),
        has(known, before + token_index(d, c, i, t, w, cache, theta, freq_factors), t.q),
        has(known, before + token_index(d, c, i, t, w, cache, theta, freq_factors), t.weights),
        has(known, before + token_index(d, c, i, t, w, cache, theta, freq_factors), t.top),
        has(known, before + token_index(d, c, i, t, w, cache, theta, freq_factors), t.mask),
{
    reveal_with_fuel(flows, 10);
    reveal_with_fuel(known_by, 10);
    lemma_follows(known, before, token_index(d, c, i, t, w, cache, theta, freq_factors));
}

pub(crate) proof fn flow_latent_key(
    known: Set<TensorId>,
    before: Seq<Op>,
    d: GraphDims,
    c: CoreScratch,
    i: RowIds,
    s: LatentScratch,
    w: MlaW,
    cache: TensorId,
    theta: Theta,
    freq_factors: Option<TensorId>,
)
    requires
        sound(known, before),
        has(known, before, c.hn),
        has(known, before, i.positions),
        has(known, before, cache),
        has_if(known, before, freq_factors),
    ensures
        sound(known, before + latent_key(d, c, i, s, w, cache, theta, freq_factors)),
        grows(known, before, before + latent_key(d, c, i, s, w, cache, theta, freq_factors)),
        has(known, before + latent_key(d, c, i, s, w, cache, theta, freq_factors), s.key),
        has(known, before + latent_key(d, c, i, s, w, cache, theta, freq_factors), s.cmpr),
        has(known, before + latent_key(d, c, i, s, w, cache, theta, freq_factors), s.rope),
        has(known, before + latent_key(d, c, i, s, w, cache, theta, freq_factors), cache),
{
    reveal_with_fuel(flows, 9);
    reveal_with_fuel(known_by, 9);
    lemma_follows(known, before, latent_key(d, c, i, s, w, cache, theta, freq_factors));
}

pub(crate) proof fn flow_latent_attend(
    known: Set<TensorId>,
    before: Seq<Op>,
    d: GraphDims,
    c: CoreScratch,
    s: LatentScratch,
    w: MlaW,
    cache: TensorId,
    mask: AttnMask,
    theta: Theta,
    freq_factors: Option<TensorId>,
    key_bias: Option<TensorId>,
)
    requires
        sound(known, before),
        has(known, before, s.q),
        has(known, before, cache),
        has_if(known, before, freq_factors),
        has_if(known, before, key_bias),
    ensures
        sound(known, before + latent_attend(d, c, s, w, cache, mask, theta, freq_factors, key_bias)),
        grows(known, before, before + latent_attend(d, c, s, w, cache, mask, theta, freq_factors, key_bias)),
        has(known, before + latent_attend(d, c, s, w, cache, mask, theta, freq_factors, key_bias), c.attn),
{
    reveal_with_fuel(flows, 2);
    reveal_with_fuel(known_by, 2);
    lemma_follows(known, before, latent_attend(d, c, s, w, cache, mask, theta, freq_factors, key_bias));
}

pub(crate) proof fn flow_latent_gate(
    known: Set<TensorId>,
    before: Seq<Op>,
    d: GraphDims,
    c: CoreScratch,
    t: DeltaScratch,
    weight: usize,
)
    requires
        sound(known, before),
        has(known, before, c.hn),
        has(known, before, c.attn),
    ensures
        sound(known, before + latent_gate(d, c, t, weight)),
        grows(known, before, before + latent_gate(d, c, t, weight)),
        has(known, before + latent_gate(d, c, t, weight), t.head_gate),
        has(known, before + latent_gate(d, c, t, weight), c.attn),
{
    reveal_with_fuel(flows, 3);
    reveal_with_fuel(known_by, 3);
    lemma_follows(known, before, latent_gate(d, c, t, weight));
}

pub(crate) proof fn flow_latent_out(
    known: Set<TensorId>,
    before: Seq<Op>,
    d: GraphDims,
    c: CoreScratch,
    w: MlaW,
)
    requires
        sound(known, before),
        has(known, before, c.attn),
    ensures
        sound(known, before + latent_out(d, c, w)),
        grows(known, before, before + latent_out(d, c, w)),
        has(known, before + latent_out(d, c, w), c.sub),
{
    reveal_with_fuel(flows, 2);
    reveal_with_fuel(known_by, 2);
    lemma_follows(known, before, latent_out(d, c, w));
}

pub(crate) proof fn flow_joined_rows(
    known: Set<TensorId>,
    before: Seq<Op>,
    d: GraphDims,
    l: LayerWidths,
    c: CoreScratch,
    weight: usize,
    qkv: TensorId,
)
    requires
        sound(known, before),
        has(known, before, c.hn),
    ensures
        sound(known, before + joined_rows(d, l, c, weight, qkv)),
        grows(known, before, before + joined_rows(d, l, c, weight, qkv)),
        has(known, before + joined_rows(d, l, c, weight, qkv), qkv),
        has(known, before + joined_rows(d, l, c, weight, qkv), c.q),
        has(known, before + joined_rows(d, l, c, weight, qkv), c.k),
        has(known, before + joined_rows(d, l, c, weight, qkv), c.v),
{
    reveal_with_fuel(flows, 5);
    reveal_with_fuel(known_by, 5);
    lemma_follows(known, before, joined_rows(d, l, c, weight, qkv));
}

pub(crate) proof fn flow_joined_row(
    known: Set<TensorId>,
    before: Seq<Op>,
    d: GraphDims,
    l: LayerWidths,
    c: CoreScratch,
    weight: usize,
)
    requires
        sound(known, before),
        has(known, before, c.hn),
    ensures
        sound(known, before + joined_row(d, l, c, weight)),
        grows(known, before, before + joined_row(d, l, c, weight)),
        has(known, before + joined_row(d, l, c, weight), c.q),
        has(known, before + joined_row(d, l, c, weight), c.k),
        has(known, before + joined_row(d, l, c, weight), c.v),
{
    reveal_with_fuel(flows, 4);
    reveal_with_fuel(known_by, 4);
    lemma_follows(known, before, joined_row(d, l, c, weight));
}

pub(crate) proof fn flow_gated_query(
    known: Set<TensorId>,
    before: Seq<Op>,
    d: GraphDims,
    l: LayerWidths,
    c: CoreScratch,
    weight: usize,
)
    requires
        sound(known, before),
        has(known, before, c.hn),
    ensures
        sound(known, before + gated_query(d, l, c, weight)),
        grows(known, before, before + gated_query(d, l, c, weight)),
        has(known, before + gated_query(d, l, c, weight), c.gated),
{
    reveal_with_fuel(flows, 2);
    reveal_with_fuel(known_by, 2);
    lemma_follows(known, before, gated_query(d, l, c, weight));
}

pub(crate) proof fn flow_plain_query(
    known: Set<TensorId>,
    before: Seq<Op>,
    d: GraphDims,
    l: LayerWidths,
    c: CoreScratch,
    weight: usize,
)
    requires
        sound(known, before),
        has(known, before, c.hn),
    ensures
        sound(known, before + plain_query(d, l, c, weight)),
        grows(known, before, before + plain_query(d, l, c, weight)),
        has(known, before + plain_query(d, l, c, weight), c.q),
{
    reveal_with_fuel(flows, 2);
    reveal_with_fuel(known_by, 2);
    lemma_follows(known, before, plain_query(d, l, c, weight));
}

pub(crate) proof fn flow_biased(
    known: Set<TensorId>,
    before: Seq<Op>,
    d: GraphDims,
    x: TensorId,
    bias: usize,
    n: usize,
)
    requires
        sound(known, before),
        has(known, before, x),
    ensures
        sound(known, before + biased(d, x, bias, n)),
        grows(known, before, before + biased(d, x, bias, n)),
        has(known, before + biased(d, x, bias, n), x),
{
    reveal_with_fuel(flows, 2);
    reveal_with_fuel(known_by, 2);
    lemma_follows(known, before, biased(d, x, bias, n));
}

pub(crate) proof fn flow_plain_key(
    known: Set<TensorId>,
    before: Seq<Op>,
    d: GraphDims,
    l: LayerWidths,
    c: CoreScratch,
    weight: usize,
)
    requires
        sound(known, before),
        has(known, before, c.hn),
    ensures
        sound(known, before + plain_key(d, l, c, weight)),
        grows(known, before, before + plain_key(d, l, c, weight)),
        has(known, before + plain_key(d, l, c, weight), c.k),
{
    reveal_with_fuel(flows, 2);
    reveal_with_fuel(known_by, 2);
    lemma_follows(known, before, plain_key(d, l, c, weight));
}

pub(crate) proof fn flow_plain_value(
    known: Set<TensorId>,
    before: Seq<Op>,
    d: GraphDims,
    l: LayerWidths,
    c: CoreScratch,
    weight: usize,
)
    requires
        sound(known, before),
        has(known, before, c.hn),
    ensures
        sound(known, before + plain_value(d, l, c, weight)),
        grows(known, before, before + plain_value(d, l, c, weight)),
        has(known, before + plain_value(d, l, c, weight), c.v),
{
    reveal_with_fuel(flows, 2);
    reveal_with_fuel(known_by, 2);
    lemma_follows(known, before, plain_value(d, l, c, weight));
}

pub(crate) proof fn flow_value_from_key(
    known: Set<TensorId>,
    before: Seq<Op>,
    d: GraphDims,
    l: LayerWidths,
    c: CoreScratch,
)
    requires
        sound(known, before),
        has(known, before, c.k),
    ensures
        sound(known, before + value_from_key(d, l, c)),
        grows(known, before, before + value_from_key(d, l, c)),
        has(known, before + value_from_key(d, l, c), c.v),
{
    reveal_with_fuel(flows, 2);
    reveal_with_fuel(known_by, 2);
    lemma_follows(known, before, value_from_key(d, l, c));
}

pub(crate) proof fn flow_head_norm(
    known: Set<TensorId>,
    before: Seq<Op>,
    d: GraphDims,
    l: LayerWidths,
    x: TensorId,
    weight: usize,
    heads: usize,
)
    requires
        sound(known, before),
        has(known, before, x),
    ensures
        sound(known, before + head_norm(d, l, x, weight, heads)),
        grows(known, before, before + head_norm(d, l, x, weight, heads)),
        has(known, before + head_norm(d, l, x, weight, heads), x),
{
    reveal_with_fuel(flows, 2);
    reveal_with_fuel(known_by, 2);
    lemma_follows(known, before, head_norm(d, l, x, weight, heads));
}

pub(crate) proof fn flow_norm_rotate4(
    known: Set<TensorId>,
    before: Seq<Op>,
    d: GraphDims,
    h: Heads,
    weight: usize,
    positions4: TensorId,
)
    requires
        sound(known, before),
        has(known, before, h.x),
        has(known, before, positions4),
    ensures
        sound(known, before + norm_rotate4(d, h, weight, positions4)),
        grows(known, before, before + norm_rotate4(d, h, weight, positions4)),
        has(known, before + norm_rotate4(d, h, weight, positions4), h.dst),
{
    reveal_with_fuel(flows, 2);
    reveal_with_fuel(known_by, 2);
    lemma_follows(known, before, norm_rotate4(d, h, weight, positions4));
}

pub(crate) proof fn flow_norm_rotate(
    known: Set<TensorId>,
    before: Seq<Op>,
    d: GraphDims,
    i: RowIds,
    h: Heads,
    weight: usize,
)
    requires
        sound(known, before),
        has(known, before, h.x),
        has(known, before, i.positions),
        has_if(known, before, h.freq_factors),
    ensures
        sound(known, before + norm_rotate(d, i, h, weight)),
        grows(known, before, before + norm_rotate(d, i, h, weight)),
        has(known, before + norm_rotate(d, i, h, weight), h.dst),
{
    reveal_with_fuel(flows, 2);
    reveal_with_fuel(known_by, 2);
    lemma_follows(known, before, norm_rotate(d, i, h, weight));
}

pub(crate) proof fn flow_rotate(
    known: Set<TensorId>,
    before: Seq<Op>,
    d: GraphDims,
    i: RowIds,
    h: Heads,
)
    requires
        sound(known, before),
        has(known, before, h.x),
        has(known, before, i.positions),
        has_if(known, before, h.freq_factors),
    ensures
        sound(known, before + rotate(d, i, h)),
        grows(known, before, before + rotate(d, i, h)),
        has(known, before + rotate(d, i, h), h.dst),
{
    reveal_with_fuel(flows, 2);
    reveal_with_fuel(known_by, 2);
    lemma_follows(known, before, rotate(d, i, h));
}

pub(crate) proof fn flow_cast_heads(
    known: Set<TensorId>,
    before: Seq<Op>,
    d: GraphDims,
    h: Heads,
    width: usize,
)
    requires
        sound(known, before),
        has(known, before, h.x),
    ensures
        sound(known, before + cast_heads(d, h, width)),
        grows(known, before, before + cast_heads(d, h, width)),
        has(known, before + cast_heads(d, h, width), h.dst),
{
    reveal_with_fuel(flows, 2);
    reveal_with_fuel(known_by, 2);
    lemma_follows(known, before, cast_heads(d, h, width));
}

pub(crate) proof fn flow_cache_rows(
    known: Set<TensorId>,
    before: Seq<Op>,
    d: GraphDims,
    l: LayerWidths,
    c: CoreScratch,
    k_cache: TensorId,
    v_cache: TensorId,
)
    requires
        sound(known, before),
        has(known, before, c.k_half),
        has(known, before, k_cache),
        has(known, before, c.v),
        has(known, before, v_cache),
    ensures
        sound(known, before + cache_rows(d, l, c, k_cache, v_cache)),
        grows(known, before, before + cache_rows(d, l, c, k_cache, v_cache)),
        has(known, before + cache_rows(d, l, c, k_cache, v_cache), k_cache),
        has(known, before + cache_rows(d, l, c, k_cache, v_cache), v_cache),
{
    reveal_with_fuel(flows, 3);
    reveal_with_fuel(known_by, 3);
    lemma_follows(known, before, cache_rows(d, l, c, k_cache, v_cache));
}

pub(crate) proof fn flow_sparse_keys(
    known: Set<TensorId>,
    before: Seq<Op>,
    d: GraphDims,
    c: CoreScratch,
    s: SparseScratch,
    w: QsaW,
    raw: TensorId,
)
    requires
        sound(known, before),
        has(known, before, c.hn),
        has(known, before, raw),
    ensures
        sound(known, before + sparse_keys(d, c, s, w, raw)),
        grows(known, before, before + sparse_keys(d, c, s, w, raw)),
        has(known, before + sparse_keys(d, c, s, w, raw), s.raw_k),
        has(known, before + sparse_keys(d, c, s, w, raw), raw),
        has(known, before + sparse_keys(d, c, s, w, raw), s.q),
{
    reveal_with_fuel(flows, 4);
    reveal_with_fuel(known_by, 4);
    lemma_follows(known, before, sparse_keys(d, c, s, w, raw));
}

pub(crate) proof fn flow_attend(
    known: Set<TensorId>,
    before: Seq<Op>,
    d: GraphDims,
    l: LayerWidths,
    c: CoreScratch,
    a: Attend,
    k: Caches,
    len: usize,
    pos: usize,
)
    requires
        sound(known, before),
        has(known, before, c.q_half),
        has(known, before, k.k),
        has(known, before, k.v),
    ensures
        sound(known, before + attend(d, l, c, a, k, len, pos)),
        grows(known, before, before + attend(d, l, c, a, k, len, pos)),
        has(known, before + attend(d, l, c, a, k, len, pos), c.attn),
{
    reveal_with_fuel(flows, 2);
    reveal_with_fuel(known_by, 2);
    lemma_follows(known, before, attend(d, l, c, a, k, len, pos));
}

pub(crate) proof fn flow_choose_blocks(
    known: Set<TensorId>,
    before: Seq<Op>,
    d: GraphDims,
    s: SparseScratch,
    w: QsaW,
    raw: TensorId,
    block: TensorId,
    history: Option<TensorId>,
    theta: Theta,
    rows: usize,
    visible: usize,
    compress_from: usize,
    selected: usize,
)
    requires
        sound(known, before),
        has(known, before, s.q_half),
        has(known, before, raw),
        has(known, before, block),
        has_if(known, before, history),
    ensures
        ({
            let after = before + choose_blocks(
                d,
                s,
                w,
                raw,
                block,
                history,
                theta,
                rows,
                visible,
                compress_from,
                selected,
            );
            &&& sound(known, after)
            &&& grows(known, before, after)
            &&& has(known, after, block)
            &&& has(known, after, s.indices)
        }),
{
    reveal_with_fuel(flows, 2);
    reveal_with_fuel(known_by, 2);
    lemma_follows(
        known,
        before,
        choose_blocks(
            d,
            s,
            w,
            raw,
            block,
            history,
            theta,
            rows,
            visible,
            compress_from,
            selected,
        ),
    );
}

pub(crate) proof fn flow_attend_blocks(
    known: Set<TensorId>,
    before: Seq<Op>,
    d: GraphDims,
    l: LayerWidths,
    c: CoreScratch,
    s: SparseScratch,
    a: Attend,
    k: Caches,
    visible: usize,
    selected: usize,
)
    requires
        sound(known, before),
        has(known, before, c.q_half),
        has(known, before, k.k),
        has(known, before, k.v),
        has(known, before, s.indices),
    ensures
        sound(known, before + attend_blocks(d, l, c, s, a, k, visible, selected)),
        grows(known, before, before + attend_blocks(d, l, c, s, a, k, visible, selected)),
        has(known, before + attend_blocks(d, l, c, s, a, k, visible, selected), c.attn),
{
    reveal_with_fuel(flows, 2);
    reveal_with_fuel(known_by, 2);
    lemma_follows(known, before, attend_blocks(d, l, c, s, a, k, visible, selected));
}

pub(crate) proof fn flow_gather_blocks(
    known: Set<TensorId>,
    before: Seq<Op>,
    d: GraphDims,
    l: LayerWidths,
    s: SparseScratch,
    k: Caches,
    selected: usize,
    complete: usize,
    tail: usize,
)
    requires
        sound(known, before),
        has(known, before, k.k),
        has(known, before, k.v),
        has(known, before, s.indices),
    ensures
        sound(known, before + gather_blocks(d, l, s, k, selected, complete, tail)),
        grows(known, before, before + gather_blocks(d, l, s, k, selected, complete, tail)),
        has(known, before + gather_blocks(d, l, s, k, selected, complete, tail), s.gather_k),
        has(known, before + gather_blocks(d, l, s, k, selected, complete, tail), s.gather_v),
{
    reveal_with_fuel(flows, 2);
    reveal_with_fuel(known_by, 2);
    lemma_follows(known, before, gather_blocks(d, l, s, k, selected, complete, tail));
}

pub(crate) proof fn flow_gate_heads(
    known: Set<TensorId>,
    before: Seq<Op>,
    d: GraphDims,
    l: LayerWidths,
    c: CoreScratch,
)
    requires
        sound(known, before),
        has(known, before, c.gated),
        has(known, before, c.attn),
    ensures
        sound(known, before + gate_heads(d, l, c)),
        grows(known, before, before + gate_heads(d, l, c)),
        has(known, before + gate_heads(d, l, c), c.attn),
{
    reveal_with_fuel(flows, 2);
    reveal_with_fuel(known_by, 2);
    lemma_follows(known, before, gate_heads(d, l, c));
}

pub(crate) proof fn flow_norm_heads(
    known: Set<TensorId>,
    before: Seq<Op>,
    d: GraphDims,
    l: LayerWidths,
    c: CoreScratch,
    weight: usize,
)
    requires
        sound(known, before),
        has(known, before, c.attn),
    ensures
        sound(known, before + norm_heads(d, l, c, weight)),
        grows(known, before, before + norm_heads(d, l, c, weight)),
        has(known, before + norm_heads(d, l, c, weight), c.attn),
{
    reveal_with_fuel(flows, 2);
    reveal_with_fuel(known_by, 2);
    lemma_follows(known, before, norm_heads(d, l, c, weight));
}

pub(crate) proof fn flow_attention_out(
    known: Set<TensorId>,
    before: Seq<Op>,
    d: GraphDims,
    l: LayerWidths,
    c: CoreScratch,
    weight: usize,
)
    requires
        sound(known, before),
        has(known, before, c.attn),
    ensures
        sound(known, before + attention_out(d, l, c, weight)),
        grows(known, before, before + attention_out(d, l, c, weight)),
        has(known, before + attention_out(d, l, c, weight), c.sub),
{
    reveal_with_fuel(flows, 2);
    reveal_with_fuel(known_by, 2);
    lemma_follows(known, before, attention_out(d, l, c, weight));
}

pub(crate) proof fn flow_ngram_ops(
    known: Set<TensorId>,
    before: Seq<Op>,
    d: GraphDims,
    c: CoreScratch,
    q: QwenScratch,
    w: QwenPleW,
    wide: TensorId,
    embd: TensorId,
    state: TensorId,
    ones: usize,
)
    requires
        sound(known, before),
        has(known, before, embd),
        has(known, before, wide),
        has(known, before, state),
    ensures
        sound(known, before + ngram_ops(d, c, q, w, wide, embd, state, ones)),
        grows(known, before, before + ngram_ops(d, c, q, w, wide, embd, state, ones)),
        has(known, before + ngram_ops(d, c, q, w, wide, embd, state, ones), q.key),
        has(known, before + ngram_ops(d, c, q, w, wide, embd, state, ones), c.hn),
        has(known, before + ngram_ops(d, c, q, w, wide, embd, state, ones), q.query),
        has(known, before + ngram_ops(d, c, q, w, wide, embd, state, ones), q.value),
        has(known, before + ngram_ops(d, c, q, w, wide, embd, state, ones), state),
        has(known, before + ngram_ops(d, c, q, w, wide, embd, state, ones), q.conv),
        has(known, before + ngram_ops(d, c, q, w, wide, embd, state, ones), q.alt),
        has(known, before + ngram_ops(d, c, q, w, wide, embd, state, ones), wide),
{
    reveal_with_fuel(flows, 13);
    reveal_with_fuel(known_by, 13);
    lemma_follows(known, before, ngram_ops(d, c, q, w, wide, embd, state, ones));
}

pub(crate) proof fn flow_collapse_streams(
    known: Set<TensorId>,
    before: Seq<Op>,
    d: GraphDims,
    s: StreamScratch,
    w: StreamW,
    residual: TensorId,
    dst: TensorId,
    ones: usize,
)
    requires
        sound(known, before),
        has(known, before, residual),
    ensures
        sound(known, before + collapse_streams(d, s, w, residual, dst, ones)),
        grows(known, before, before + collapse_streams(d, s, w, residual, dst, ones)),
        has(known, before + collapse_streams(d, s, w, residual, dst, ones), s.normed),
        has(known, before + collapse_streams(d, s, w, residual, dst, ones), s.mixes),
        has(known, before + collapse_streams(d, s, w, residual, dst, ones), s.pre),
        has(known, before + collapse_streams(d, s, w, residual, dst, ones), s.post),
        has(known, before + collapse_streams(d, s, w, residual, dst, ones), s.comb),
        has(known, before + collapse_streams(d, s, w, residual, dst, ones), dst),
{
    reveal_with_fuel(flows, 5);
    reveal_with_fuel(known_by, 5);
    lemma_follows(known, before, collapse_streams(d, s, w, residual, dst, ones));
}

pub(crate) proof fn flow_spread_streams(
    known: Set<TensorId>,
    before: Seq<Op>,
    d: GraphDims,
    c: CoreScratch,
    s: StreamScratch,
    residual: TensorId,
    dst: TensorId,
)
    requires
        sound(known, before),
        has(known, before, c.sub),
        has(known, before, residual),
        has(known, before, s.post),
        has(known, before, s.comb),
    ensures
        sound(known, before + spread_streams(d, c, s, residual, dst)),
        grows(known, before, before + spread_streams(d, c, s, residual, dst)),
        has(known, before + spread_streams(d, c, s, residual, dst), dst),
{
    reveal_with_fuel(flows, 2);
    reveal_with_fuel(known_by, 2);
    lemma_follows(known, before, spread_streams(d, c, s, residual, dst));
}

pub(crate) proof fn flow_mix_gated(
    known: Set<TensorId>,
    before: Seq<Op>,
    d: GraphDims,
    q: QwenScratch,
    w: QwenStreamW,
    residual: TensorId,
    dst: TensorId,
    ones: usize,
)
    requires
        sound(known, before),
        has(known, before, residual),
    ensures
        sound(known, before + mix_gated(d, q, w, residual, dst, ones)),
        grows(known, before, before + mix_gated(d, q, w, residual, dst, ones)),
        has(known, before + mix_gated(d, q, w, residual, dst, ones), q.normed),
        has(known, before + mix_gated(d, q, w, residual, dst, ones), q.low),
        has(known, before + mix_gated(d, q, w, residual, dst, ones), q.mix),
        has(known, before + mix_gated(d, q, w, residual, dst, ones), dst),
{
    reveal_with_fuel(flows, 7);
    reveal_with_fuel(known_by, 7);
    lemma_follows(known, before, mix_gated(d, q, w, residual, dst, ones));
}

pub(crate) proof fn flow_inject_gates(
    known: Set<TensorId>,
    before: Seq<Op>,
    d: GraphDims,
    q: QwenScratch,
    weight: usize,
)
    requires
        sound(known, before),
        has(known, before, q.normed),
    ensures
        sound(known, before + inject_gates(d, q, weight)),
        grows(known, before, before + inject_gates(d, q, weight)),
        has(known, before + inject_gates(d, q, weight), q.inject),
{
    reveal_with_fuel(flows, 2);
    reveal_with_fuel(known_by, 2);
    lemma_follows(known, before, inject_gates(d, q, weight));
}

pub(crate) proof fn flow_inject_block(
    known: Set<TensorId>,
    before: Seq<Op>,
    d: GraphDims,
    c: CoreScratch,
    q: QwenScratch,
    residual: TensorId,
    dst: TensorId,
)
    requires
        sound(known, before),
        has(known, before, residual),
        has(known, before, c.sub),
        has(known, before, q.inject),
    ensures
        sound(known, before + inject_block(d, c, q, residual, dst)),
        grows(known, before, before + inject_block(d, c, q, residual, dst)),
        has(known, before + inject_block(d, c, q, residual, dst), dst),
{
    reveal_with_fuel(flows, 2);
    reveal_with_fuel(known_by, 2);
    lemma_follows(known, before, inject_block(d, c, q, residual, dst));
}

} // verus!
