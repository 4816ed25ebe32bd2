//! What compressed attention computes: its queries and keys, the blocks that it compresses, and
//! what it attends to.

use crate::attention_plan::{AttnMask, CompressedStep};
use crate::graph_attention::{
    block_ops, compressed_ops, compressed_tail, groups_below, turn_tail, write_block,
};
use crate::graph_block_laws::lemma_then_one;
use crate::graph_dims::GraphDims;
use crate::graph_inputs::RowIds;
use crate::graph_mixers::{
    cache_row, compress, compress_index, compressed_attend, compressed_key, compressed_out,
    compressed_query, group_out, index_query, index_score, rope_tail, Caches,
    CompressedLayout, TailRope,
};
use crate::graph_ops::{CacheForm, Op, Scalar, Theta, WeightRef};
use crate::graph_scratch::{CompressedScratch, CoreScratch};
use crate::graph_values::{
    after, after_first, heads_normed, held, lemma_after_join, normed, placed, projected,
    projected_from, replaced, step, Part, Value, Values,
};
use crate::weight_handles::{Dsv4CompressedW, Dsv4CompressorW, Dsv4IndexerW, Dsv4W};
use crate::weight_plan::TensorId;
use vstd::prelude::*;

verus! {

proof fn lemma_query(
    env: Values,
    before: Seq<Op>,
    d: GraphDims,
    c: CoreScratch,
    x: CompressedScratch,
    w: Dsv4W,
)
    requires
        c.q != x.low,
    ensures
        ({
            let e = after(env, before);
            let f = after(env, before + compressed_query(d, c, x, w));
            &&& f[x.low] == normed(
                projected(e[c.hn], w.wq_a, d.b.batch, d.b.n_embd, d.b.q_lora_rank),
                w.q_a_norm,
                d.b.batch,
                d.b.q_lora_rank,
            )
            &&& f[c.q] == heads_normed(
                projected(
                    normed(
                        projected(e[c.hn], w.wq_a, d.b.batch, d.b.n_embd, d.b.q_lora_rank),
                        w.q_a_norm,
                        d.b.batch,
                        d.b.q_lora_rank,
                    ),
                    w.wq_b,
                    d.b.batch,
                    d.b.q_lora_rank,
                    d.query_row,
                ),
                None,
                d.b.batch,
                d.b.n_head,
                d.b.head_dim,
            )
            &&& forall|t0: TensorId| t0 != x.low && t0 != c.q ==> #[trigger] f[t0] == e[t0]
        }),
{
    let ops = compressed_query(d, c, x, w);
    lemma_after_join(env, before, ops);
    let e0 = after(env, before);
    let e1 = e0.insert(x.low, projected(e0[c.hn], w.wq_a, d.b.batch, d.b.n_embd, d.b.q_lora_rank));
    assert(step(e0, ops[0]) == e1) by {
        reveal(step);
    }
    let e2 = e1.insert(x.low, normed(e1[x.low], w.q_a_norm, d.b.batch, d.b.q_lora_rank));
    assert(step(e1, ops[1]) == e2) by {
        reveal(step);
    }
    let e3 = e2.insert(c.q, projected(e2[x.low], w.wq_b, d.b.batch, d.b.q_lora_rank, d.query_row));
    assert(step(e2, ops[2]) == e3) by {
        reveal(step);
    }
    let e4 = e3.insert(c.q, heads_normed(e3[c.q], None, d.b.batch, d.b.n_head, d.b.head_dim));
    assert(step(e3, ops[3]) == e4) by {
        reveal(step);
    }
    assert(after(e0, ops) == e4) by {
        reveal(after);
        reveal_with_fuel(after_first, 5);
    }
}

proof fn lemma_key(
    env: Values,
    before: Seq<Op>,
    d: GraphDims,
    c: CoreScratch,
    x: CompressedScratch,
    w: Dsv4W,
)
    ensures
        ({
            let e = after(env, before);
            let f = after(env, before + compressed_key(d, c, x, w));
            &&& f[x.kv] == normed(
                projected(e[c.hn], w.wkv, d.b.batch, d.b.n_embd, d.b.head_dim),
                w.wkv_norm,
                d.b.batch,
                d.b.head_dim,
            )
            &&& forall|t0: TensorId| t0 != x.kv ==> #[trigger] f[t0] == e[t0]
        }),
{
    let ops = compressed_key(d, c, x, w);
    lemma_after_join(env, before, ops);
    let e0 = after(env, before);
    let e1 = e0.insert(x.kv, projected(e0[c.hn], w.wkv, d.b.batch, d.b.n_embd, d.b.head_dim));
    assert(step(e0, ops[0]) == e1) by {
        reveal(step);
    }
    let e2 = e1.insert(x.kv, normed(e1[x.kv], w.wkv_norm, d.b.batch, d.b.head_dim));
    assert(step(e1, ops[1]) == e2) by {
        reveal(step);
    }
    assert(after(e0, ops) == e2) by {
        reveal(after);
        reveal_with_fuel(after_first, 3);
    }
}

/// Only the end of each head is rotated, by the row's position, and put back where it stood.
pub proof fn law_only_the_end_of_a_head_is_rotated(
    env: Values,
    before: Seq<Op>,
    d: GraphDims,
    positions: TensorId,
    r: TailRope,
)
    requires
        positions != r.pack,
        r.pack != r.x,
        r.freq_factors != Some(r.pack),
    ensures
        ({
            let e = after(env, before);
            let f = after(env, before + rope_tail(d, positions, r));
            &&& f[r.x] == placed(
                Value::Rope {
                    x: Box::new(
                        placed(
                            e[r.x],
                            r.nope_dim,
                            r.head_dim,
                            e[r.pack],
                            0,
                            r.rope_dim,
                            r.head_rows,
                            r.rope_dim,
                        ),
                    ),
                    positions: Box::new(e[positions]),
                    rows: d.b.batch,
                    n_head: r.heads,
                    head_dim: r.rope_dim,
                    rope_dim: r.rope_dim,
                    theta: r.theta,
                    freq_factors: held(e, r.freq_factors),
                    x_stride: 0,
                    neox: false,
                    backward: r.backward,
                },
                0,
                r.rope_dim,
                e[r.x],
                r.nope_dim,
                r.head_dim,
                r.head_rows,
                r.rope_dim,
            )
            &&& forall|t0: TensorId| t0 != r.pack && t0 != r.x ==> #[trigger] f[t0] == e[t0]
        }),
{
    let ops = rope_tail(d, positions, r);
    lemma_after_join(env, before, ops);
    let e0 = after(env, before);
    let e1 = e0.insert(
        r.pack,
        placed(e0[r.x], r.nope_dim, r.head_dim, e0[r.pack], 0, r.rope_dim, r.head_rows, r.rope_dim),
    );
    assert(step(e0, ops[0]) == e1) by {
        reveal(step);
    }
    let e2 = e1.insert(
        r.pack,
        Value::Rope {
            x: Box::new(e1[r.pack]),
            positions: Box::new(e1[positions]),
            rows: d.b.batch,
            n_head: r.heads,
            head_dim: r.rope_dim,
            rope_dim: r.rope_dim,
            theta: r.theta,
            freq_factors: held(e1, r.freq_factors),
            x_stride: 0,
            neox: false,
            backward: r.backward,
        },
    );
    assert(step(e1, ops[1]) == e2) by {
        reveal(step);
    }
    let e3 = e2.insert(
        r.x,
        placed(e2[r.pack], 0, r.rope_dim, e2[r.x], r.nope_dim, r.head_dim, r.head_rows, r.rope_dim),
    );
    assert(step(e2, ops[2]) == e3) by {
        reveal(step);
    }
    assert(after(e0, ops) == e3) by {
        reveal(after);
        reveal_with_fuel(after_first, 4);
    }
}

/// A compressed row is made of the values and scores that are projected from the rows, and of what
/// the layer's state has gathered of the block; the state carries on.
pub proof fn law_a_block_is_compressed_from_the_rows(
    env: Values,
    before: Seq<Op>,
    d: GraphDims,
    c: CoreScratch,
    x: CompressedScratch,
    w: Dsv4CompressorW,
    y: CompressedLayout,
    state: TensorId,
    freq_factors: Option<TensorId>,
    ratio: usize,
    width: usize,
)
    requires
        c.hn != x.values,
        state != x.row,
        state != x.scores,
        state != x.values,
        x.scores != x.values,
        freq_factors != Some(x.scores),
        freq_factors != Some(x.values),
    ensures
        ({
            let e = after(env, before);
            let f = after(env, before + compress(d, c, x, w, y, state, freq_factors, ratio, width));
            &&& f[x.row] == (Value::Dsv4Compress {
                values: Box::new(projected(e[c.hn], w.wkv, 1, d.b.n_embd, width)),
                scores: Box::new(projected(e[c.hn], w.wgate, 1, d.b.n_embd, width)),
                ape: w.ape,
                norm: w.norm,
                freq_factors: held(e, freq_factors),
                state: Box::new(e[state]),
                values_off: y.values_off,
                scores_off: y.scores_off,
                pos: d.b.start_pos,
                ratio,
                dim: d.b.head_dim,
                rope_dim: d.b.rope_dim,
                theta: Theta::Compressed,
                overlap: ratio == 4,
                part: Part::Rows,
            })
            &&& f[state] == (Value::Dsv4Compress {
                values: Box::new(projected(e[c.hn], w.wkv, 1, d.b.n_embd, width)),
                scores: Box::new(projected(e[c.hn], w.wgate, 1, d.b.n_embd, width)),
                ape: w.ape,
                norm: w.norm,
                freq_factors: held(e, freq_factors),
                state: Box::new(e[state]),
                values_off: y.values_off,
                scores_off: y.scores_off,
                pos: d.b.start_pos,
                ratio,
                dim: d.b.head_dim,
                rope_dim: d.b.rope_dim,
                theta: Theta::Compressed,
                overlap: ratio == 4,
                part: Part::State,
            })
            &&& forall|t0: TensorId|
                t0 != x.values && t0 != x.scores && t0 != state && t0 != x.row
                    ==> #[trigger] f[t0] == e[t0]
        }),
{
    let ops = compress(d, c, x, w, y, state, freq_factors, ratio, width);
    lemma_after_join(env, before, ops);
    let e0 = after(env, before);
    let e1 = e0.insert(x.values, projected(e0[c.hn], w.wkv, 1, d.b.n_embd, width));
    assert(step(e0, ops[0]) == e1) by {
        reveal(step);
    }
    let e2 = e1.insert(x.scores, projected(e1[c.hn], w.wgate, 1, d.b.n_embd, width));
    assert(step(e1, ops[1]) == e2) by {
        reveal(step);
    }
    let e3a = e2.insert(
        state,
        Value::Dsv4Compress {
            values: Box::new(e2[x.values]),
            scores: Box::new(e2[x.scores]),
            ape: w.ape,
            norm: w.norm,
            freq_factors: held(e2, freq_factors),
            state: Box::new(e2[state]),
            values_off: y.values_off,
            scores_off: y.scores_off,
            pos: d.b.start_pos,
            ratio,
            dim: d.b.head_dim,
            rope_dim: d.b.rope_dim,
            theta: Theta::Compressed,
            overlap: ratio == 4,
            part: Part::State,
        },
    );
    let e3 = e3a.insert(
        x.row,
        Value::Dsv4Compress {
            values: Box::new(e2[x.values]),
            scores: Box::new(e2[x.scores]),
            ape: w.ape,
            norm: w.norm,
            freq_factors: held(e2, freq_factors),
            state: Box::new(e2[state]),
            values_off: y.values_off,
            scores_off: y.scores_off,
            pos: d.b.start_pos,
            ratio,
            dim: d.b.head_dim,
            rope_dim: d.b.rope_dim,
            theta: Theta::Compressed,
            overlap: ratio == 4,
            part: Part::Rows,
        },
    );
    assert(step(e2, ops[2]) == e3) by {
        reveal(step);
    }
    assert(after(e0, ops) == e3) by {
        reveal(after);
        reveal_with_fuel(after_first, 4);
    }
}

/// An index key is compressed in the same way, in its own part of the state.
pub proof fn law_an_index_key_is_compressed_from_the_rows(
    env: Values,
    before: Seq<Op>,
    d: GraphDims,
    c: CoreScratch,
    x: CompressedScratch,
    w: Dsv4IndexerW,
    y: CompressedLayout,
    state: TensorId,
    freq_factors: Option<TensorId>,
    ratio: usize,
)
    requires
        c.hn != x.index_values,
        state != x.index_key,
        state != x.index_scores,
        state != x.index_values,
        x.index_scores != x.index_values,
        freq_factors != Some(x.index_scores),
        freq_factors != Some(x.index_values),
    ensures
        ({
            let e = after(env, before);
            let f = after(env, before + compress_index(d, c, x, w, y, state, freq_factors, ratio));
            &&& f[x.index_key] == (Value::Dsv4Compress {
                values: Box::new(projected(e[c.hn], w.wkv, 1, d.b.n_embd, d.index_head2)),
                scores: Box::new(projected(e[c.hn], w.wgate, 1, d.b.n_embd, d.index_head2)),
                ape: w.ape,
                norm: w.norm,
                freq_factors: held(e, freq_factors),
                state: Box::new(e[state]),
                values_off: y.index_values_off,
                scores_off: y.index_scores_off,
                pos: d.b.start_pos,
                ratio,
                dim: d.b.indexer_head_size,
                rope_dim: d.b.rope_dim,
                theta: Theta::Compressed,
                overlap: true,
                part: Part::Rows,
            })
            &&& f[state] == (Value::Dsv4Compress {
                values: Box::new(projected(e[c.hn], w.wkv, 1, d.b.n_embd, d.index_head2)),
                scores: Box::new(projected(e[c.hn], w.wgate, 1, d.b.n_embd, d.index_head2)),
                ape: w.ape,
                norm: w.norm,
                freq_factors: held(e, freq_factors),
                state: Box::new(e[state]),
                values_off: y.index_values_off,
                scores_off: y.index_scores_off,
                pos: d.b.start_pos,
                ratio,
                dim: d.b.indexer_head_size,
                rope_dim: d.b.rope_dim,
                theta: Theta::Compressed,
                overlap: true,
                part: Part::State,
            })
            &&& forall|t0: TensorId|
                t0 != x.index_values && t0 != x.index_scores && t0 != state && t0 != x.index_key
                    ==> #[trigger] f[t0] == e[t0]
        }),
{
    let ops = compress_index(d, c, x, w, y, state, freq_factors, ratio);
    lemma_after_join(env, before, ops);
    let e0 = after(env, before);
    let e1 = e0.insert(x.index_values, projected(e0[c.hn], w.wkv, 1, d.b.n_embd, d.index_head2));
    assert(step(e0, ops[0]) == e1) by {
        reveal(step);
    }
    let e2 = e1.insert(x.index_scores, projected(e1[c.hn], w.wgate, 1, d.b.n_embd, d.index_head2));
    assert(step(e1, ops[1]) == e2) by {
        reveal(step);
    }
    let e3a = e2.insert(
        state,
        Value::Dsv4Compress {
            values: Box::new(e2[x.index_values]),
            scores: Box::new(e2[x.index_scores]),
            ape: w.ape,
            norm: w.norm,
            freq_factors: held(e2, freq_factors),
            state: Box::new(e2[state]),
            values_off: y.index_values_off,
            scores_off: y.index_scores_off,
            pos: d.b.start_pos,
            ratio,
            dim: d.b.indexer_head_size,
            rope_dim: d.b.rope_dim,
            theta: Theta::Compressed,
            overlap: true,
            part: Part::State,
        },
    );
    let e3 = e3a.insert(
        x.index_key,
        Value::Dsv4Compress {
            values: Box::new(e2[x.index_values]),
            scores: Box::new(e2[x.index_scores]),
            ape: w.ape,
            norm: w.norm,
            freq_factors: held(e2, freq_factors),
            state: Box::new(e2[state]),
            values_off: y.index_values_off,
            scores_off: y.index_scores_off,
            pos: d.b.start_pos,
            ratio,
            dim: d.b.indexer_head_size,
            rope_dim: d.b.rope_dim,
            theta: Theta::Compressed,
            overlap: true,
            part: Part::Rows,
        },
    );
    assert(step(e2, ops[2]) == e3) by {
        reveal(step);
    }
    assert(after(e0, ops) == e3) by {
        reveal(after);
        reveal_with_fuel(after_first, 4);
    }
}

/// Compressed rows are chosen by the score of the packed index queries with the index keys of the
/// state, by weights projected from the rows.
pub proof fn law_blocks_are_scored_by_their_index_keys(
    env: Values,
    before: Seq<Op>,
    d: GraphDims,
    c: CoreScratch,
    x: CompressedScratch,
    w: Dsv4IndexerW,
    y: CompressedLayout,
    state: TensorId,
    n: CompressedStep,
)
    requires
        c.hn != x.index_packed,
        state != x.index_packed,
        state != x.index_weights,
        x.index_packed != x.index_weights,
    ensures
        ({
            let e = after(env, before);
            let f = after(env, before + index_score(d, c, x, w, y, state, n));
            &&& f[x.index_top] == (Value::Dsv4Indexer {
                q: Box::new(
                    Value::Dsv4CacheWrite {
                        src: Box::new(e[x.index_q]),
                        onto: Box::new(e[x.index_packed]),
                        rows: d.b.indexer_n_head,
                        row: 0,
                        cache_off: 0,
                        format: CacheForm::Mxfp4,
                    },
                ),
                k_cache: Box::new(e[state]),
                weights: Box::new(projected(e[c.hn], w.proj, 1, d.b.n_embd, d.b.indexer_n_head)),
                cache_off: y.index_off,
                kv_len: n.visible,
                n_head: d.b.indexer_n_head,
                head_dim: d.b.indexer_head_size,
                top_k: n.selected,
                scale: Scalar::InvSqrt(d.index_row),
            })
            &&& forall|t0: TensorId|
                t0 != x.index_packed && t0 != x.index_weights && t0 != x.index_top
                    ==> #[trigger] f[t0] == e[t0]
        }),
{
    let ops = index_score(d, c, x, w, y, state, n);
    lemma_after_join(env, before, ops);
    let e0 = after(env, before);
    let e1 = e0.insert(
        x.index_packed,
        Value::Dsv4CacheWrite {
            src: Box::new(e0[x.index_q]),
            onto: Box::new(e0[x.index_packed]),
            rows: d.b.indexer_n_head,
            row: 0,
            cache_off: 0,
            format: CacheForm::Mxfp4,
        },
    );
    assert(step(e0, ops[0]) == e1) by {
        reveal(step);
    }
    let e2 = e1.insert(
        x.index_weights,
        projected(e1[c.hn], w.proj, 1, d.b.n_embd, d.b.indexer_n_head),
    );
    assert(step(e1, ops[1]) == e2) by {
        reveal(step);
    }
    let e3 = e2.insert(
        x.index_top,
        Value::Dsv4Indexer {
            q: Box::new(e2[x.index_packed]),
            k_cache: Box::new(e2[state]),
            weights: Box::new(e2[x.index_weights]),
            cache_off: y.index_off,
            kv_len: n.visible,
            n_head: d.b.indexer_n_head,
            head_dim: d.b.indexer_head_size,
            top_k: n.selected,
            scale: Scalar::InvSqrt(d.index_row),
        },
    );
    assert(step(e2, ops[2]) == e3) by {
        reveal(step);
    }
    assert(after(e0, ops) == e3) by {
        reveal(after);
        reveal_with_fuel(after_first, 4);
    }
}

proof fn lemma_attend(
    env: Values,
    before: Seq<Op>,
    d: GraphDims,
    c: CoreScratch,
    x: CompressedScratch,
    w: Dsv4W,
    y: CompressedLayout,
    raw: TensorId,
    state: TensorId,
    n: CompressedStep,
)
    requires
        c.q != x.gather,
        c.q_half != x.gather,
    ensures
        ({
            let e = after(env, before);
            let f = after(env, before + compressed_attend(d, c, x, w, y, raw, state, n));
            &&& f[c.attn] == (Value::Attention {
                q: Box::new(replaced(e[c.q], e[c.q_half], d.b.batch, d.query_row)),
                k_cache: Box::new(
                    Value::Dsv4Gather {
                        raw_cache: Box::new(e[raw]),
                        comp_cache: Box::new(e[state]),
                        indices: held(e, if n.scored { Some(x.index_top) } else { None }),
                        comp_off: y.comp_off,
                        pos: d.b.start_pos,
                        visible: n.visible,
                        selected: n.selected,
                        head_dim: d.b.head_dim,
                        raw_window: y.raw_rows,
                    },
                ),
                v_cache: Box::new(
                    Value::Dsv4Gather {
                        raw_cache: Box::new(e[raw]),
                        comp_cache: Box::new(e[state]),
                        indices: held(e, if n.scored { Some(x.index_top) } else { None }),
                        comp_off: y.comp_off,
                        pos: d.b.start_pos,
                        visible: n.visible,
                        selected: n.selected,
                        head_dim: d.b.head_dim,
                        raw_window: y.raw_rows,
                    },
                ),
                rows: d.b.batch,
                kv_len: n.gathered,
                n_head: d.b.n_head,
                n_kv: 1,
                head_dim: d.b.head_dim,
                scale: Scalar::InvSqrt(d.b.head_dim),
                mask: AttnMask::Causal,
                pos: if n.gathered >= 1 { (n.gathered - 1) as usize } else { 0 },
                sinks: Some(w.sinks),
            })
            &&& forall|t0: TensorId|
                t0 != x.gather && t0 != c.q_half && t0 != c.attn ==> #[trigger] f[t0] == e[t0]
        }),
{
    let ops = compressed_attend(d, c, x, w, y, raw, state, n);
    lemma_after_join(env, before, ops);
    let e0 = after(env, before);
    let e1 = e0.insert(
        x.gather,
        Value::Dsv4Gather {
            raw_cache: Box::new(e0[raw]),
            comp_cache: Box::new(e0[state]),
            indices: held(e0, if n.scored { Some(x.index_top) } else { None }),
            comp_off: y.comp_off,
            pos: d.b.start_pos,
            visible: n.visible,
            selected: n.selected,
            head_dim: d.b.head_dim,
            raw_window: y.raw_rows,
        },
    );
    assert(step(e0, ops[0]) == e1) by {
        reveal(step);
    }
    let e2 = e1.insert(c.q_half, replaced(e1[c.q], e1[c.q_half], d.b.batch, d.query_row));
    assert(step(e1, ops[1]) == e2) by {
        reveal(step);
    }
    let e3 = e2.insert(
        c.attn,
        Value::Attention {
            q: Box::new(e2[c.q_half]),
            k_cache: Box::new(e2[x.gather]),
            v_cache: Box::new(e2[x.gather]),
            rows: d.b.batch,
            kv_len: n.gathered,
            n_head: d.b.n_head,
            n_kv: 1,
            head_dim: d.b.head_dim,
            scale: Scalar::InvSqrt(d.b.head_dim),
            mask: AttnMask::Causal,
            pos: if n.gathered >= 1 { (n.gathered - 1) as usize } else { 0 },
            sinks: Some(w.sinks),
        },
    );
    assert(step(e2, ops[2]) == e3) by {
        reveal(step);
    }
    assert(after(e0, ops) == e3) by {
        reveal(after);
        reveal_with_fuel(after_first, 4);
    }
}

/// The heads, with the end of each rotated by the rows' positions; nothing is rotated where nothing
/// is asked for. `pack` is what the tensor held that the ends are packed in.
pub open spec fn tail_turned(
    d: GraphDims,
    r: TailRope,
    heads: Value,
    pack: Value,
    positions: Value,
    factors: Option<Box<Value>>,
) -> Value {
    if r.rope_dim > 0 {
        let ends = placed(
            heads,
            r.nope_dim,
            r.head_dim,
            pack,
            0,
            r.rope_dim,
            r.head_rows,
            r.rope_dim,
        );
        let turned = Value::Rope {
            x: Box::new(ends),
            positions: Box::new(positions),
            rows: d.b.batch,
            n_head: r.heads,
            head_dim: r.rope_dim,
            rope_dim: r.rope_dim,
            theta: r.theta,
            freq_factors: factors,
            x_stride: 0,
            neox: false,
            backward: r.backward,
        };
        placed(
            turned,
            0,
            r.rope_dim,
            heads,
            r.nope_dim,
            r.head_dim,
            r.head_rows,
            r.rope_dim,
        )
    } else {
        heads
    }
}

proof fn lemma_turn_tail(env: Values, before: Seq<Op>, d: GraphDims, i: RowIds, r: TailRope)
    requires
        i.positions != r.pack,
        i.positions != r.x,
        r.pack != r.x,
        r.freq_factors != Some(r.pack),
        r.freq_factors != Some(r.x),
    ensures
        ({
            let e = after(env, before);
            let f = after(env, turn_tail(before, d, i, r));
            &&& f[r.x] == tail_turned(
                d,
                r,
                e[r.x],
                e[r.pack],
                e[i.positions],
                held(e, r.freq_factors),
            )
            &&& forall|t: TensorId| t != r.x && t != r.pack ==> #[trigger] f[t] == e[t]
        }),
{
    if r.rope_dim > 0 {
        law_only_the_end_of_a_head_is_rotated(env, before, d, i.positions, r);
    }
}

/// The tensors that compressed attention works on are apart.
pub open spec fn compressed_apart(
    c: CoreScratch,
    x: CompressedScratch,
    i: RowIds,
    caches: Caches,
    yarn: Option<TensorId>,
) -> bool {
    &&& c.hn != c.q && c.hn != c.q_half && c.hn != c.attn && c.hn != c.sub && c.hn != caches.k
        && c.hn != caches.v && c.hn != i.positions && c.hn != x.low && c.hn != x.kv
        && c.hn != x.rope_q && c.hn != x.rope_kv && c.hn != x.group_in && c.hn != x.group_out
        && c.hn != x.groups && c.hn != x.values && c.hn != x.scores && c.hn != x.row
        && c.hn != x.index_values && c.hn != x.index_scores && c.hn != x.index_key
        && c.hn != x.index_q && c.hn != x.index_packed && c.hn != x.index_weights
        && c.hn != x.index_top && c.hn != x.gather
    &&& c.q != c.q_half && c.q != c.attn && c.q != c.sub && c.q != caches.k && c.q != caches.v
        && c.q != i.positions && c.q != x.low && c.q != x.kv && c.q != x.rope_q
        && c.q != x.rope_kv && c.q != x.group_in && c.q != x.group_out && c.q != x.groups
        && c.q != x.values && c.q != x.scores && c.q != x.row && c.q != x.index_values
        && c.q != x.index_scores && c.q != x.index_key && c.q != x.index_q
        && c.q != x.index_packed && c.q != x.index_weights && c.q != x.index_top
        && c.q != x.gather
    &&& c.q_half != c.attn && c.q_half != c.sub && c.q_half != caches.k && c.q_half != caches.v
        && c.q_half != i.positions && c.q_half != x.low && c.q_half != x.kv
        && c.q_half != x.rope_q && c.q_half != x.rope_kv && c.q_half != x.group_in
        && c.q_half != x.group_out && c.q_half != x.groups && c.q_half != x.values
        && c.q_half != x.scores && c.q_half != x.row && c.q_half != x.index_values
        && c.q_half != x.index_scores && c.q_half != x.index_key && c.q_half != x.index_q
        && c.q_half != x.index_packed && c.q_half != x.index_weights && c.q_half != x.index_top
        && c.q_half != x.gather
    &&& c.attn != c.sub && c.attn != caches.k && c.attn != caches.v && c.attn != i.positions
        && c.attn != x.low && c.attn != x.kv && c.attn != x.rope_q && c.attn != x.rope_kv
        && c.attn != x.group_in && c.attn != x.group_out && c.attn != x.groups
        && c.attn != x.values && c.attn != x.scores && c.attn != x.row && c.attn != x.index_values
        && c.attn != x.index_scores && c.attn != x.index_key && c.attn != x.index_q
        && c.attn != x.index_packed && c.attn != x.index_weights && c.attn != x.index_top
        && c.attn != x.gather
    &&& c.sub != caches.k && c.sub != caches.v && c.sub != i.positions && c.sub != x.low
        && c.sub != x.kv && c.sub != x.rope_q && c.sub != x.rope_kv && c.sub != x.group_in
        && c.sub != x.group_out && c.sub != x.groups && c.sub != x.values && c.sub != x.scores
        && c.sub != x.row && c.sub != x.index_values && c.sub != x.index_scores
        && c.sub != x.index_key && c.sub != x.index_q && c.sub != x.index_packed
        && c.sub != x.index_weights && c.sub != x.index_top && c.sub != x.gather
    &&& caches.k != caches.v && caches.k != i.positions && caches.k != x.low && caches.k != x.kv
        && caches.k != x.rope_q && caches.k != x.rope_kv && caches.k != x.group_in
        && caches.k != x.group_out && caches.k != x.groups && caches.k != x.values
        && caches.k != x.scores && caches.k != x.row && caches.k != x.index_values
        && caches.k != x.index_scores && caches.k != x.index_key && caches.k != x.index_q
        && caches.k != x.index_packed && caches.k != x.index_weights && caches.k != x.index_top
        && caches.k != x.gather
    &&& caches.v != i.positions && caches.v != x.low && caches.v != x.kv && caches.v != x.rope_q
        && caches.v != x.rope_kv && caches.v != x.group_in && caches.v != x.group_out
        && caches.v != x.groups && caches.v != x.values && caches.v != x.scores
        && caches.v != x.row && caches.v != x.index_values && caches.v != x.index_scores
        && caches.v != x.index_key && caches.v != x.index_q && caches.v != x.index_packed
        && caches.v != x.index_weights && caches.v != x.index_top && caches.v != x.gather
    &&& i.positions != x.low && i.positions != x.kv && i.positions != x.rope_q
        && i.positions != x.rope_kv && i.positions != x.group_in && i.positions != x.group_out
        && i.positions != x.groups && i.positions != x.values && i.positions != x.scores
        && i.positions != x.row && i.positions != x.index_values && i.positions != x.index_scores
        && i.positions != x.index_key && i.positions != x.index_q && i.positions != x.index_packed
        && i.positions != x.index_weights && i.positions != x.index_top && i.positions != x.gather
    &&& x.low != x.kv && x.low != x.rope_q && x.low != x.rope_kv && x.low != x.group_in
        && x.low != x.group_out && x.low != x.groups && x.low != x.values && x.low != x.scores
        && x.low != x.row && x.low != x.index_values && x.low != x.index_scores
        && x.low != x.index_key && x.low != x.index_q && x.low != x.index_packed
        && x.low != x.index_weights && x.low != x.index_top && x.low != x.gather
    &&& x.kv != x.rope_q && x.kv != x.rope_kv && x.kv != x.group_in && x.kv != x.group_out
        && x.kv != x.groups && x.kv != x.values && x.kv != x.scores && x.kv != x.row
        && x.kv != x.index_values && x.kv != x.index_scores && x.kv != x.index_key
        && x.kv != x.index_q && x.kv != x.index_packed && x.kv != x.index_weights
        && x.kv != x.index_top && x.kv != x.gather
    &&& x.rope_q != x.rope_kv && x.rope_q != x.group_in && x.rope_q != x.group_out
        && x.rope_q != x.groups && x.rope_q != x.values && x.rope_q != x.scores
        && x.rope_q != x.row && x.rope_q != x.index_values && x.rope_q != x.index_scores
        && x.rope_q != x.index_key && x.rope_q != x.index_q && x.rope_q != x.index_packed
        && x.rope_q != x.index_weights && x.rope_q != x.index_top && x.rope_q != x.gather
    &&& x.rope_kv != x.group_in && x.rope_kv != x.group_out && x.rope_kv != x.groups
        && x.rope_kv != x.values && x.rope_kv != x.scores && x.rope_kv != x.row
        && x.rope_kv != x.index_values && x.rope_kv != x.index_scores && x.rope_kv != x.index_key
        && x.rope_kv != x.index_q && x.rope_kv != x.index_packed && x.rope_kv != x.index_weights
        && x.rope_kv != x.index_top && x.rope_kv != x.gather
    &&& x.group_in != x.group_out && x.group_in != x.groups && x.group_in != x.values
        && x.group_in != x.scores && x.group_in != x.row && x.group_in != x.index_values
        && x.group_in != x.index_scores && x.group_in != x.index_key && x.group_in != x.index_q
        && x.group_in != x.index_packed && x.group_in != x.index_weights
        && x.group_in != x.index_top && x.group_in != x.gather
    &&& x.group_out != x.groups && x.group_out != x.values && x.group_out != x.scores
        && x.group_out != x.row && x.group_out != x.index_values && x.group_out != x.index_scores
        && x.group_out != x.index_key && x.group_out != x.index_q && x.group_out != x.index_packed
        && x.group_out != x.index_weights && x.group_out != x.index_top && x.group_out != x.gather
    &&& x.groups != x.values && x.groups != x.scores && x.groups != x.row
        && x.groups != x.index_values && x.groups != x.index_scores && x.groups != x.index_key
        && x.groups != x.index_q && x.groups != x.index_packed && x.groups != x.index_weights
        && x.groups != x.index_top && x.groups != x.gather
    &&& x.values != x.scores && x.values != x.row && x.values != x.index_values
        && x.values != x.index_scores && x.values != x.index_key && x.values != x.index_q
        && x.values != x.index_packed && x.values != x.index_weights && x.values != x.index_top
        && x.values != x.gather
    &&& x.scores != x.row && x.scores != x.index_values && x.scores != x.index_scores
        && x.scores != x.index_key && x.scores != x.index_q && x.scores != x.index_packed
        && x.scores != x.index_weights && x.scores != x.index_top && x.scores != x.gather
    &&& x.row != x.index_values && x.row != x.index_scores && x.row != x.index_key
        && x.row != x.index_q && x.row != x.index_packed && x.row != x.index_weights
        && x.row != x.index_top && x.row != x.gather
    &&& x.index_values != x.index_scores && x.index_values != x.index_key
        && x.index_values != x.index_q && x.index_values != x.index_packed
        && x.index_values != x.index_weights && x.index_values != x.index_top
        && x.index_values != x.gather
    &&& x.index_scores != x.index_key && x.index_scores != x.index_q
        && x.index_scores != x.index_packed && x.index_scores != x.index_weights
        && x.index_scores != x.index_top && x.index_scores != x.gather
    &&& x.index_key != x.index_q && x.index_key != x.index_packed
        && x.index_key != x.index_weights && x.index_key != x.index_top && x.index_key != x.gather
    &&& x.index_q != x.index_packed && x.index_q != x.index_weights && x.index_q != x.index_top
        && x.index_q != x.gather
    &&& x.index_packed != x.index_weights && x.index_packed != x.index_top
        && x.index_packed != x.gather
    &&& x.index_weights != x.index_top && x.index_weights != x.gather
    &&& x.index_top != x.gather
    &&& yarn != Some(c.hn)
    &&& yarn != Some(c.q)
    &&& yarn != Some(c.q_half)
    &&& yarn != Some(c.attn)
    &&& yarn != Some(c.sub)
    &&& yarn != Some(caches.k)
    &&& yarn != Some(caches.v)
    &&& yarn != Some(x.low)
    &&& yarn != Some(x.kv)
    &&& yarn != Some(x.rope_q)
    &&& yarn != Some(x.rope_kv)
    &&& yarn != Some(x.group_in)
    &&& yarn != Some(x.group_out)
    &&& yarn != Some(x.groups)
    &&& yarn != Some(x.values)
    &&& yarn != Some(x.scores)
    &&& yarn != Some(x.row)
    &&& yarn != Some(x.index_values)
    &&& yarn != Some(x.index_scores)
    &&& yarn != Some(x.index_key)
    &&& yarn != Some(x.index_q)
    &&& yarn != Some(x.index_packed)
    &&& yarn != Some(x.index_weights)
    &&& yarn != Some(x.index_top)
    &&& yarn != Some(x.gather)
}

/// The low-rank row that queries are projected from.
pub open spec fn low_rank(d: GraphDims, w: Dsv4W, rows: Value) -> Value {
    normed(
        projected(rows, w.wq_a, d.b.batch, d.b.n_embd, d.b.q_lora_rank),
        w.q_a_norm,
        d.b.batch,
        d.b.q_lora_rank,
    )
}

/// The queries before their rotation.
pub open spec fn straight_queries(d: GraphDims, w: Dsv4W, rows: Value) -> Value {
    heads_normed(
        projected(low_rank(d, w, rows), w.wq_b, d.b.batch, d.b.q_lora_rank, d.query_row),
        None,
        d.b.batch,
        d.b.n_head,
        d.b.head_dim,
    )
}

/// The key of each row before its rotation.
pub open spec fn straight_key(d: GraphDims, w: Dsv4W, rows: Value) -> Value {
    normed(
        projected(rows, w.wkv, d.b.batch, d.b.n_embd, d.b.head_dim),
        w.wkv_norm,
        d.b.batch,
        d.b.head_dim,
    )
}

/// A row written to a cache, packed as the cache is.
pub open spec fn row_written(
    src: Value,
    onto: Value,
    row: usize,
    cache_off: usize,
    format: CacheForm,
) -> Value {
    Value::Dsv4CacheWrite {
        src: Box::new(src),
        onto: Box::new(onto),
        rows: 1,
        row,
        cache_off,
        format,
    }
}

/// How the end of a layer's heads is rotated: by the model's base without factors where the layer
/// compresses nothing, or else by that of compressed layers with the factors of a stretched
/// context.
pub open spec fn end_of(
    d: GraphDims,
    x: TensorId,
    pack: TensorId,
    heads: usize,
    head_rows: usize,
    ratio: usize,
    yarn: Option<TensorId>,
    backward: bool,
) -> TailRope {
    TailRope {
        x,
        pack,
        heads,
        head_rows,
        head_dim: d.b.head_dim,
        nope_dim: d.nope_dim,
        rope_dim: d.b.rope_dim,
        theta: if ratio == 0 {
            Theta::Model
        } else {
            Theta::Compressed
        },
        freq_factors: if ratio == 0 {
            None
        } else {
            yarn
        },
        backward,
    }
}

/// The queries of a row, rotated at their ends.
pub open spec fn end_turned_queries(
    d: GraphDims,
    c: CoreScratch,
    x: CompressedScratch,
    i: RowIds,
    w: Dsv4W,
    ratio: usize,
    yarn: Option<TensorId>,
    e: Values,
) -> Value {
    let r = end_of(d, c.q, x.rope_q, d.b.n_head, d.head_rows, ratio, yarn, false);
    tail_turned(
        d,
        r,
        straight_queries(d, w, e[c.hn]),
        e[x.rope_q],
        e[i.positions],
        held(e, r.freq_factors),
    )
}

/// The key of a row, rotated at its end.
pub open spec fn end_turned_key(
    d: GraphDims,
    c: CoreScratch,
    x: CompressedScratch,
    i: RowIds,
    w: Dsv4W,
    ratio: usize,
    yarn: Option<TensorId>,
    e: Values,
) -> Value {
    let r = end_of(d, x.kv, x.rope_kv, 1, d.b.batch, ratio, yarn, false);
    tail_turned(
        d,
        r,
        straight_key(d, w, e[c.hn]),
        e[x.rope_kv],
        e[i.positions],
        held(e, r.freq_factors),
    )
}

/// What the queries attend to: the rows of the raw ring, and the compressed rows that are chosen.
pub open spec fn gathered(
    d: GraphDims,
    y: CompressedLayout,
    n: CompressedStep,
    raw: Value,
    state: Value,
    top: Value,
) -> Value {
    Value::Dsv4Gather {
        raw_cache: Box::new(raw),
        comp_cache: Box::new(state),
        indices: if n.scored {
            Some(Box::new(top))
        } else {
            None
        },
        comp_off: y.comp_off,
        pos: d.b.start_pos,
        visible: n.visible,
        selected: n.selected,
        head_dim: d.b.head_dim,
        raw_window: y.raw_rows,
    }
}

/// The queries, attending to the gathered rows, each of which is a key and a value at once.
pub open spec fn attended_rows(
    d: GraphDims,
    w: Dsv4W,
    n: CompressedStep,
    q: Value,
    half: Value,
    rows: Value,
) -> Value {
    Value::Attention {
        q: Box::new(replaced(q, half, d.b.batch, d.query_row)),
        k_cache: Box::new(rows),
        v_cache: Box::new(rows),
        rows: d.b.batch,
        kv_len: n.gathered,
        n_head: d.b.n_head,
        n_kv: 1,
        head_dim: d.b.head_dim,
        scale: Scalar::InvSqrt(d.b.head_dim),
        mask: AttnMask::Causal,
        pos: if n.gathered >= 1 {
            (n.gathered - 1) as usize
        } else {
            0
        },
        sinks: Some(w.sinks),
    }
}

/// The state of a compressed layer behind the token: the attention block's values and scores are
/// taken in, and its row is written where the token completes one.
pub open spec fn state_with_block(
    d: GraphDims,
    w: Dsv4CompressorW,
    y: CompressedLayout,
    n: CompressedStep,
    ratio: usize,
    rows: Value,
    state: Value,
    factors: Option<Box<Value>>,
) -> Value {
    let width = if ratio == 4 {
        d.head_dim2
    } else {
        d.b.head_dim
    };
    let part = |part: Part|
        Value::Dsv4Compress {
            values: Box::new(projected(rows, w.wkv, 1, d.b.n_embd, width)),
            scores: Box::new(projected(rows, w.wgate, 1, d.b.n_embd, width)),
            ape: w.ape,
            norm: w.norm,
            freq_factors: factors,
            state: Box::new(state),
            values_off: y.values_off,
            scores_off: y.scores_off,
            pos: d.b.start_pos,
            ratio,
            dim: d.b.head_dim,
            rope_dim: d.b.rope_dim,
            theta: Theta::Compressed,
            overlap: ratio == 4,
            part,
        };
    match n.block_row {
        Some(row) => row_written(
            part(Part::Rows),
            part(Part::State),
            row,
            y.comp_off,
            CacheForm::Fp8Kv,
        ),
        None => part(Part::State),
    }
}

/// The same for the index block, which follows the attention block.
pub open spec fn state_with_index(
    d: GraphDims,
    w: Dsv4IndexerW,
    y: CompressedLayout,
    n: CompressedStep,
    ratio: usize,
    rows: Value,
    state: Value,
    factors: Option<Box<Value>>,
) -> Value {
    let part = |part: Part|
        Value::Dsv4Compress {
            values: Box::new(projected(rows, w.wkv, 1, d.b.n_embd, d.index_head2)),
            scores: Box::new(projected(rows, w.wgate, 1, d.b.n_embd, d.index_head2)),
            ape: w.ape,
            norm: w.norm,
            freq_factors: factors,
            state: Box::new(state),
            values_off: y.index_values_off,
            scores_off: y.index_scores_off,
            pos: d.b.start_pos,
            ratio,
            dim: d.b.indexer_head_size,
            rope_dim: d.b.rope_dim,
            theta: Theta::Compressed,
            overlap: true,
            part,
        };
    match n.block_row {
        Some(row) => row_written(
            part(Part::Rows),
            part(Part::State),
            row,
            y.index_off,
            CacheForm::Mxfp4,
        ),
        None => part(Part::State),
    }
}

/// The state of a compressed layer behind the token.
pub open spec fn state_behind(
    d: GraphDims,
    w: Dsv4CompressedW,
    y: CompressedLayout,
    n: CompressedStep,
    ratio: usize,
    rows: Value,
    state: Value,
    factors: Option<Box<Value>>,
) -> Value {
    let block = state_with_block(d, w.attention, y, n, ratio, rows, state, factors);
    match w.indexer {
        Some(indexer) => if ratio == 4 {
            state_with_index(d, indexer, y, n, ratio, rows, block, factors)
        } else {
            block
        },
        None => block,
    }
}

proof fn lemma_write_block(
    env: Values,
    before: Seq<Op>,
    src: TensorId,
    cache: TensorId,
    row: Option<usize>,
    cache_off: usize,
    packed: bool,
)
    ensures
        ({
            let e = after(env, before);
            let f = after(env, write_block(before, src, cache, row, cache_off, packed));
            &&& f[cache] == (match row {
                Some(row) => row_written(
                    e[src],
                    e[cache],
                    row,
                    cache_off,
                    if packed {
                        CacheForm::Mxfp4
                    } else {
                        CacheForm::Fp8Kv
                    },
                ),
                None => e[cache],
            })
            &&& forall|t: TensorId| t != cache ==> #[trigger] f[t] == e[t]
        }),
{
    reveal(step);
    if let Some(row) = row {
        lemma_then_one(env, before, cache_row(src, cache, row, cache_off, 1, packed));
    }
}

/// The token's values and scores are taken into the layer's state, and what it completes is written
/// there; neither the queries nor the raw ring are touched.
#[verifier::rlimit(40)]
pub proof fn law_a_token_carries_the_compressed_state_on(
    env: Values,
    before: Seq<Op>,
    d: GraphDims,
    c: CoreScratch,
    x: CompressedScratch,
    i: RowIds,
    w: Dsv4CompressedW,
    y: CompressedLayout,
    caches: Caches,
    yarn: Option<TensorId>,
    ratio: usize,
    n: CompressedStep,
)
    requires
        compressed_apart(c, x, i, caches, yarn),
    ensures
        ({
            let e = after(env, before);
            let f = after(
                env,
                block_ops(before, d, c, x, i, w, y, caches.v, yarn, ratio, n),
            );
            &&& f[caches.v] == state_behind(
                d,
                w,
                y,
                n,
                ratio,
                e[c.hn],
                e[caches.v],
                held(e, yarn),
            )
            &&& f[c.q] == e[c.q]
            &&& f[c.q_half] == e[c.q_half]
            &&& f[c.hn] == e[c.hn]
            &&& f[caches.k] == e[caches.k]
            &&& f[i.positions] == e[i.positions]
            &&& held(f, yarn) == held(e, yarn)
        }),
{
    let state = caches.v;
    let e = after(env, before);
    let width = if ratio == 4 {
        d.head_dim2
    } else {
        d.b.head_dim
    };
    let g0 = before + compress(d, c, x, w.attention, y, state, yarn, ratio, width);
    law_a_block_is_compressed_from_the_rows(
        env,
        before,
        d,
        c,
        x,
        w.attention,
        y,
        state,
        yarn,
        ratio,
        width,
    );
    let g1 = write_block(g0, x.row, state, n.block_row, y.comp_off, false);
    lemma_write_block(env, g0, x.row, state, n.block_row, y.comp_off, false);
    let e1 = after(env, g1);
    assert(e1[state] == state_with_block(
        d,
        w.attention,
        y,
        n,
        ratio,
        e[c.hn],
        e[state],
        held(e, yarn),
    ));
    assert(held(e1, yarn) == held(e, yarn));
    if w.indexer is Some && ratio == 4 {
        let indexer = w.indexer->Some_0;
        let g2 = g1 + compress_index(d, c, x, indexer, y, state, yarn, ratio);
        law_an_index_key_is_compressed_from_the_rows(
            env,
            g1,
            d,
            c,
            x,
            indexer,
            y,
            state,
            yarn,
            ratio,
        );
        let g3 = write_block(g2, x.index_key, state, n.block_row, y.index_off, true);
        lemma_write_block(env, g2, x.index_key, state, n.block_row, y.index_off, true);
        let e3 = after(env, g3);
        assert(held(e3, yarn) == held(e, yarn));
        if n.scored {
            let g4 = g3 + index_query(d, x, indexer);
            assert(after(env, g4) == e3.insert(
                x.index_q,
                projected(e3[x.low], indexer.q_b, 1, d.b.q_lora_rank, d.index_row),
            )) by {
                reveal(step);
                lemma_then_one(env, g3, index_query(d, x, indexer));
            }
            let tail = TailRope {
                x: x.index_q,
                pack: x.rope_q,
                heads: d.b.indexer_n_head,
                head_rows: d.index_head_rows,
                head_dim: d.b.indexer_head_size,
                nope_dim: d.index_nope_dim,
                rope_dim: d.b.rope_dim,
                theta: Theta::Compressed,
                freq_factors: yarn,
                backward: false,
            };
            lemma_turn_tail(env, g4, d, i, tail);
            let g5 = turn_tail(g4, d, i, tail);
            law_blocks_are_scored_by_their_index_keys(env, g5, d, c, x, indexer, y, state, n);
            let g6 = g5 + index_score(d, c, x, indexer, y, state, n);
            assert(held(after(env, g6), yarn) == held(e, yarn));
        }
    }
}

/// Compressed attention: the key of the token, normed and rotated at its end, is written to its row
/// of the raw ring; the layer's state is carried on; the queries, rotated in the same way, attend
/// to the ring and to the chosen rows of the state, as they are then; and the ends of what comes
/// out are rotated back before it is projected.
#[verifier::rlimit(40)]
pub proof fn law_compressed_attention_reads_the_ring_and_the_state(
    env: Values,
    before: Seq<Op>,
    d: GraphDims,
    c: CoreScratch,
    x: CompressedScratch,
    i: RowIds,
    w: Dsv4W,
    blocks: Option<Dsv4CompressedW>,
    y: CompressedLayout,
    caches: Caches,
    yarn: Option<TensorId>,
    ratio: usize,
    n: CompressedStep,
)
    requires
        compressed_apart(c, x, i, caches, yarn),
    ensures
        ({
            let e = after(env, before);
            let f = after(
                env,
                compressed_ops(before, d, c, x, i, w, blocks, y, caches, yarn, ratio, n),
            );
            let rows = gathered(d, y, n, f[caches.k], f[caches.v], f[x.index_top]);
            let q = end_turned_queries(d, c, x, i, w, ratio, yarn, e);
            let back = end_of(d, c.attn, x.rope_q, d.b.n_head, d.head_rows, ratio, yarn, true);
            &&& f[caches.k] == row_written(
                end_turned_key(d, c, x, i, w, ratio, yarn, e),
                e[caches.k],
                n.raw_row,
                0,
                CacheForm::Fp8Kv,
            )
            &&& f[caches.v] == (match blocks {
                Some(b) => if ratio != 0 {
                    state_behind(d, b, y, n, ratio, e[c.hn], e[caches.v], held(e, yarn))
                } else {
                    e[caches.v]
                },
                None => e[caches.v],
            })
            &&& exists|pack: Value|
                f[c.attn] == #[trigger] tail_turned(
                    d,
                    back,
                    attended_rows(d, w, n, q, e[c.q_half], rows),
                    pack,
                    e[i.positions],
                    held(e, back.freq_factors),
                )
            &&& f[c.sub] == projected(f[x.groups], w.wo_b, d.b.batch, d.o_row, d.b.n_embd)
        }),
{
    let e = after(env, before);
    let theta = if ratio == 0 {
        Theta::Model
    } else {
        Theta::Compressed
    };
    let factors = if ratio == 0 {
        None
    } else {
        yarn
    };
    let heads = d.b.n_head;
    let g0 = before + compressed_query(d, c, x, w);
    lemma_query(env, before, d, c, x, w);
    let rq = compressed_tail(d, c.q, x.rope_q, heads, d.head_rows, theta, factors, false);
    assert(rq == end_of(d, c.q, x.rope_q, heads, d.head_rows, ratio, yarn, false));
    let g1 = turn_tail(g0, d, i, rq);
    lemma_turn_tail(env, g0, d, i, rq);
    assert(held(after(env, g0), factors) == held(e, factors));
    assert(after(env, g1)[c.q] == end_turned_queries(d, c, x, i, w, ratio, yarn, e));
    let g2 = g1 + compressed_key(d, c, x, w);
    lemma_key(env, g1, d, c, x, w);
    let rk = compressed_tail(d, x.kv, x.rope_kv, 1, d.b.batch, theta, factors, false);
    assert(rk == end_of(d, x.kv, x.rope_kv, 1, d.b.batch, ratio, yarn, false));
    let g3 = turn_tail(g2, d, i, rk);
    lemma_turn_tail(env, g2, d, i, rk);
    assert(held(after(env, g2), factors) == held(e, factors));
    assert(after(env, g3)[x.kv] == end_turned_key(d, c, x, i, w, ratio, yarn, e));
    let write = cache_row(x.kv, caches.k, n.raw_row, 0, 1, false);
    let g4 = g3 + write;
    let e3 = after(env, g3);
    assert(after(env, g4) == e3.insert(
        caches.k,
        row_written(e3[x.kv], e3[caches.k], n.raw_row, 0, CacheForm::Fp8Kv),
    )) by {
        reveal(step);
        lemma_then_one(env, g3, write);
    }
    let e4 = after(env, g4);
    assert(held(e4, yarn) == held(e, yarn));
    let g5 = match blocks {
        Some(b) => if ratio != 0 {
            block_ops(g4, d, c, x, i, b, y, caches.v, yarn, ratio, n)
        } else {
            g4
        },
        None => g4,
    };
    if blocks is Some && ratio != 0 {
        law_a_token_carries_the_compressed_state_on(
            env,
            g4,
            d,
            c,
            x,
            i,
            blocks->Some_0,
            y,
            caches,
            yarn,
            ratio,
            n,
        );
    }
    let e5 = after(env, g5);
    let seen = compressed_attend(d, c, x, w, y, caches.k, caches.v, n);
    let g6 = g5 + seen;
    lemma_attend(env, g5, d, c, x, w, y, caches.k, caches.v, n);
    let e6 = after(env, g6);
    assert(held(e6, factors) == held(e, factors));
    let ra = compressed_tail(d, c.attn, x.rope_q, heads, d.head_rows, theta, factors, true);
    assert(ra == end_of(d, c.attn, x.rope_q, heads, d.head_rows, ratio, yarn, true));
    let g7 = turn_tail(g6, d, i, ra);
    lemma_turn_tail(env, g6, d, i, ra);
    let e7 = after(env, g7);
    let g8 = groups_below(g7, d, c, x, w, d.b.o_group_count as nat);
    lemma_groups_keep(env, g7, d, c, x, w, d.b.o_group_count as nat, caches);
    let f = after(env, g8 + compressed_out(d, c, x, w));
    reveal(step);
    lemma_then_one(env, g8, compressed_out(d, c, x, w));
    let rows = gathered(d, y, n, f[caches.k], f[caches.v], f[x.index_top]);
    let q = end_turned_queries(d, c, x, i, w, ratio, yarn, e);
    assert(e6[c.attn] == attended_rows(d, w, n, q, e[c.q_half], rows));
    assert(f[c.attn] == tail_turned(
        d,
        ra,
        attended_rows(d, w, n, q, e[c.q_half], rows),
        e6[x.rope_q],
        e[i.positions],
        held(e, factors),
    ));
}

proof fn lemma_groups_keep(
    env: Values,
    before: Seq<Op>,
    d: GraphDims,
    c: CoreScratch,
    x: CompressedScratch,
    w: Dsv4W,
    n: nat,
    caches: Caches,
)
    requires
        c.attn != x.group_in && c.attn != x.group_out && c.attn != x.groups,
        x.index_top != x.group_in && x.index_top != x.group_out && x.index_top != x.groups,
        caches.k != x.group_in && caches.k != x.group_out && caches.k != x.groups,
        caches.v != x.group_in && caches.v != x.group_out && caches.v != x.groups,
        x.group_in != x.groups,
        x.group_out != x.groups,
    ensures
        ({
            let e = after(env, before);
            let f = after(env, groups_below(before, d, c, x, w, n));
            &&& f[c.attn] == e[c.attn]
            &&& f[x.index_top] == e[x.index_top]
            &&& f[caches.k] == e[caches.k]
            &&& f[caches.v] == e[caches.v]
        }),
    decreases n,
{
    if n > 0 {
        lemma_groups_keep(env, before, d, c, x, w, (n - 1) as nat, caches);
        let k = n - 1;
        lemma_group(
            env,
            groups_below(before, d, c, x, w, (n - 1) as nat),
            d,
            c,
            x,
            w,
            (k * d.group_row) as usize,
            (k * d.b.o_lora_rank * d.group_row) as usize,
            (k * d.b.o_lora_rank) as usize,
        );
    }
}

/// What comes out of compressed attention is projected group by group: group `k` of the heads by
/// its own part of the weight, to its own place among the groups.
pub proof fn law_every_group_has_its_own_part_of_the_weight(
    before: Seq<Op>,
    d: GraphDims,
    c: CoreScratch,
    x: CompressedScratch,
    w: Dsv4W,
    n: nat,
    k: int,
)
    requires
        0 <= k < n,
    ensures
        ({
            let ops = groups_below(before, d, c, x, w, n);
            let at = before.len() + 3 * k;
            let b = d.b;
            &&& ops.len() == before.len() + 3 * n
            &&& ops[at] == (Op::CopyStrided {
                src: c.attn,
                src_off: (k * d.group_row) as usize,
                src_stride: d.query_row,
                dst: x.group_in,
                dst_off: 0,
                dst_stride: d.group_row,
                rows: b.batch,
                n: d.group_row,
            })
            &&& ops[at + 1] == (Op::Linear {
                x: x.group_in,
                weight: WeightRef::Uploaded(w.wo_a),
                dst: x.group_out,
                m: b.batch,
                in_f: d.group_row,
                out_f: b.o_lora_rank,
                w_off: (k * b.o_lora_rank * d.group_row) as usize,
            })
            &&& ops[at + 2] == (Op::CopyStrided {
                src: x.group_out,
                src_off: 0,
                src_stride: b.o_lora_rank,
                dst: x.groups,
                dst_off: (k * b.o_lora_rank) as usize,
                dst_stride: d.o_row,
                rows: b.batch,
                n: b.o_lora_rank,
            })
        }),
    decreases n,
{
    let m = (n - 1) as nat;
    if m > 0 {
        law_every_group_has_its_own_part_of_the_weight(
            before,
            d,
            c,
            x,
            w,
            m,
            if k < m {
                k
            } else {
                0
            },
        );
    } else {
        assert(groups_below(before, d, c, x, w, 0) == before);
    }
}

proof fn lemma_group(
    env: Values,
    before: Seq<Op>,
    d: GraphDims,
    c: CoreScratch,
    x: CompressedScratch,
    w: Dsv4W,
    from: usize,
    w_off: usize,
    to: usize,
)
    requires
        x.group_in != x.groups,
        x.group_out != x.groups,
    ensures
        ({
            let e = after(env, before);
            let f = after(env, before + group_out(d, c, x, w, from, w_off, to));
            &&& f[x.groups] == placed(
                projected_from(
                    placed(
                        e[c.attn],
                        from,
                        d.query_row,
                        e[x.group_in],
                        0,
                        d.group_row,
                        d.b.batch,
                        d.group_row,
                    ),
                    w.wo_a,
                    w_off,
                    d.b.batch,
                    d.group_row,
                    d.b.o_lora_rank,
                ),
                0,
                d.b.o_lora_rank,
                e[x.groups],
                to,
                d.o_row,
                d.b.batch,
                d.b.o_lora_rank,
            )
            &&& forall|t0: TensorId|
                t0 != x.group_in && t0 != x.group_out && t0 != x.groups
                    ==> #[trigger] f[t0] == e[t0]
        }),
{
    let ops = group_out(d, c, x, w, from, w_off, to);
    lemma_after_join(env, before, ops);
    let e0 = after(env, before);
    let e1 = e0.insert(
        x.group_in,
        placed(
            e0[c.attn],
            from,
            d.query_row,
            e0[x.group_in],
            0,
            d.group_row,
            d.b.batch,
            d.group_row,
        ),
    );
    assert(step(e0, ops[0]) == e1) by {
        reveal(step);
    }
    let e2 = e1.insert(
        x.group_out,
        projected_from(e1[x.group_in], w.wo_a, w_off, d.b.batch, d.group_row, d.b.o_lora_rank),
    );
    assert(step(e1, ops[1]) == e2) by {
        reveal(step);
    }
    let e3 = e2.insert(
        x.groups,
        placed(
            e2[x.group_out],
            0,
            d.b.o_lora_rank,
            e2[x.groups],
            to,
            d.o_row,
            d.b.batch,
            d.b.o_lora_rank,
        ),
    );
    assert(step(e2, ops[2]) == e3) by {
        reveal(step);
    }
    assert(after(e0, ops) == e3) by {
        reveal(after);
        reveal_with_fuel(after_first, 4);
    }
}

} // verus!
