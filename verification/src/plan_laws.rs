//! What the plan of a layer comes to: the widths of its rows, what its attention may see, and which
//! caches it reads.

use crate::attention_plan::{
    sparse_plan, sparse_threshold, AttnMask, CompressedStep, Reach, SparseStep,
};
use crate::bindings::DecodeHandles;
use crate::graph::{results_at, GraphModel, GraphStep};
use crate::graph_build::LayerGraph;
use crate::graph_dims::{GraphSizes, LayerSizes};
use crate::graph_layer::{layer_step, LayerFacts, ModelFacts};
use crate::graph_mixers::Caches;
use crate::graph_ops::{Clamp, Scalar, Theta};
use crate::graph_scratch::Scratch;
use crate::weight_handles::LayerW;
use vstd::arithmetic::div_mod::{lemma_fundamental_div_mod, lemma_mod_bound};
use vstd::prelude::*;

verus! {

/// The widths of a graph's rows are those of their heads, side by side.
pub proof fn law_rows_are_as_wide_as_their_heads(g: GraphSizes)
    requires
        g.fits(),
    ensures
        ({
            let d = g.derived();
            &&& d.b == g
            &&& d.query_row == g.n_head * g.head_dim
            &&& d.max_query_row == g.n_head * g.max_head_dim
            &&& d.max_kv_row == g.max_n_kv * g.max_head_dim
            &&& d.max_qkv_row == d.max_query_row + 2 * d.max_kv_row
            &&& d.max_query_row2 == 2 * d.max_query_row
            &&& d.key_dim == g.n_khead * g.head_k
            &&& d.key_dim2 == d.key_dim + d.key_dim
            &&& d.value_dim == g.n_vhead * g.head_v
            &&& d.kda_dim == g.n_head * g.kda_head_dim
            &&& d.kda_packed == d.kda_dim + d.kda_dim + d.kda_dim
            &&& d.index_row == g.indexer_n_head * g.indexer_head_size
            &&& d.index_head2 == 2 * g.indexer_head_size
            &&& d.head_dim2 == 2 * g.head_dim
            &&& d.head_rows == g.batch * g.n_head
            &&& d.index_head_rows == g.batch * g.indexer_n_head
            &&& d.latent_head == g.head_k_mla + g.qk_rope_dim
            &&& d.latent_query_row == g.n_head * d.latent_head
            &&& d.latent_key == g.kv_lora_rank + g.qk_rope_dim
            &&& d.latent_out == g.n_head * g.v_head_dim
            &&& d.o_row == g.o_group_count * g.o_lora_rank
            &&& d.wide == g.hc_mult * g.n_embd
            &&& d.hc_gates == 2 * g.hc_mult + g.hc_mult * g.hc_mult
            &&& d.hc_square == g.hc_mult * g.hc_mult
            &&& d.stream_rows == g.batch * g.hc_mult
            &&& d.per_layer == g.n_layer * g.n_embd_per_layer
            &&& d.layer_rows == g.batch * g.n_layer
            &&& d.n_ff2 == 2 * g.n_ff
            &&& d.visible == g.start_pos + g.batch
            &&& d.index_top_k <= g.indexer_top_k && d.index_top_k <= d.visible && (d.index_top_k
                == g.indexer_top_k || d.index_top_k == d.visible)
        }),
{
    assert((2 + g.hc_mult) * g.hc_mult == 2 * g.hc_mult + g.hc_mult * g.hc_mult)
        by (nonlinear_arith);
}

/// Logits are made of the last rows of a batch: what is left out stands in front of them.
pub proof fn law_the_last_rows_end_with_the_batch(g: GraphSizes)
    requires
        g.fits(),
    ensures
        ({
            let d = g.derived();
            d.tail + g.logits_rows * g.n_embd == g.batch * g.n_embd
        }),
{
    assert((g.batch - g.logits_rows) * g.n_embd + g.logits_rows * g.n_embd == g.batch * g.n_embd)
        by (nonlinear_arith);
}

/// The groups of a compressed layer's heads share its rows evenly, and the part of a head that is
/// not rotated is what its rotated part leaves.
pub proof fn law_groups_and_ends_share_a_row(g: GraphSizes)
    requires
        g.fits(),
    ensures
        ({
            let d = g.derived();
            &&& g.o_group_count > 0 ==> {
                &&& g.o_group_count * d.group_row <= d.query_row
                &&& d.query_row < g.o_group_count * (d.group_row + 1)
            }
            &&& g.head_dim >= g.rope_dim ==> d.nope_dim + g.rope_dim == g.head_dim
            &&& g.indexer_head_size >= g.rope_dim ==> d.index_nope_dim + g.rope_dim
                == g.indexer_head_size
        }),
{
    let q = g.query_row();
    assert(q >= 0) by (nonlinear_arith)
        requires
            q == g.n_head * g.head_dim,
    ;
    if g.o_group_count > 0 {
        let n = g.o_group_count as int;
        lemma_fundamental_div_mod(q, n);
        lemma_mod_bound(q, n);
        let k = q / n;
        assert(0 <= k <= q) by (nonlinear_arith)
            requires
                q == n * k + q % n,
                0 <= q % n < n,
                q >= 0,
                n >= 1,
        ;
        assert(n * (k + 1) == n * k + n) by (nonlinear_arith);
    }
}

/// The rows of a layer are as wide as its own heads, joined rows hold queries, keys and values in
/// this order, and a joined weight holds their rows in the same order.
pub proof fn law_a_layers_rows_are_as_wide_as_its_heads(l: LayerSizes, g: GraphSizes)
    requires
        l.fits(g),
    ensures
        ({
            let w = l.derived(g);
            &&& w.b == l
            &&& w.query_row == g.n_head * l.head_dim
            &&& w.kv_row == l.n_kv * l.head_dim
            &&& w.qk_row == w.query_row + w.kv_row
            &&& w.qkv_row == w.qk_row + w.kv_row
            &&& w.k_off == w.query_row * g.n_embd
            &&& w.v_off == w.qk_row * g.n_embd
            &&& w.gated_row == w.query_row + w.query_row
            &&& w.gated_head == l.head_dim + l.head_dim
            &&& w.n_ff2 == l.n_ff + l.n_ff
            &&& w.per_layer_off == l.layer * g.n_embd_per_layer
        }),
{
    assert(l.query_row(g) >= 0) by (nonlinear_arith)
        requires
            l.query_row(g) == g.n_head * l.head_dim,
    ;
    assert(l.kv_row() >= 0) by (nonlinear_arith)
        requires
            l.kv_row() == l.n_kv * l.head_dim,
    ;
}

/// A query at one position sees the key at another.
pub open spec fn sees(mask: AttnMask, query: int, key: int) -> bool {
    match mask {
        AttnMask::Causal => key <= query,
        AttnMask::SlidingWindow(window) => key <= query && query - key < window,
        AttnMask::Canvas { lo } => lo <= key,
    }
}

/// The layer's attention is bounded by a window.
pub open spec fn windowed(m: ModelFacts, l: LayerFacts) -> bool {
    l.swa && (m.gemma || m.deepseek4)
}

/// Outside a canvas a query sees every position up to its own, but for those that its layer's
/// window leaves behind.
pub proof fn law_a_query_sees_the_past_within_its_window(
    m: ModelFacts,
    l: LayerFacts,
    start_pos: usize,
    query: int,
    key: int,
)
    requires
        !m.canvas,
    ensures
        sees(m.mask(l, start_pos), query, key) <==> key <= query && (windowed(m, l) ==> key > query
            - m.swa_window),
{
}

/// On a canvas every query sees all of the canvas, and before it every position, but for those that
/// the window of the canvas's first row leaves behind.
pub proof fn law_a_canvas_sees_itself_and_the_past_within_its_window(
    m: ModelFacts,
    l: LayerFacts,
    start_pos: usize,
    query: int,
    key: int,
)
    requires
        m.canvas,
        m.swa_window >= 1,
        key >= 0,
    ensures
        sees(m.mask(l, start_pos), query, key) <==> (windowed(m, l) ==> key > start_pos
            - m.swa_window),
{
}

/// A sparse step reads everything that is visible up to the threshold; behind it, as many whole
/// blocks as the index may select and the rows behind the last block, and its query stands last
/// among them.
pub proof fn law_a_sparse_step_reads_whole_blocks_and_the_tail(
    indexed: bool,
    batch: int,
    reach: Reach,
    start_pos: int,
    top_k: int,
    ratio: int,
)
    requires
        ratio >= 1,
        0 <= start_pos <= usize::MAX,
        0 <= top_k,
        sparse_threshold(top_k, ratio) <= usize::MAX,
        reach.visible as int % ratio > 0 || top_k >= ratio,
    ensures
        ({
            let visible = reach.visible as int;
            let all = !indexed || visible < top_k + ratio;
            match sparse_plan(indexed, batch, reach, start_pos, top_k, ratio) {
                SparseStep::Dense { len, pos } => all && len == visible && pos == start_pos,
                SparseStep::Batched { selected, compress_from } => {
                    &&& !all && batch > 1
                    &&& selected * ratio <= top_k < (selected + 1) * ratio
                    &&& compress_from * ratio <= reach.start
                },
                SparseStep::Gathered { complete, tail, selected, compress_from, len, pos } => {
                    &&& !all && batch <= 1
                    &&& complete * ratio + tail == visible && tail < ratio
                    &&& selected <= complete && selected * ratio <= top_k
                    &&& selected == complete || (selected + 1) * ratio > top_k
                    &&& len == selected * ratio + tail && pos + 1 == len
                    &&& compress_from * ratio <= start_pos
                },
            }
        }),
{
    let visible = reach.visible as int;
    lemma_parts(visible, ratio);
    lemma_parts(top_k, ratio);
    lemma_parts(start_pos, ratio);
    lemma_parts(reach.start as int, ratio);
    let complete = visible / ratio;
    let most = top_k / ratio;
    let selected = if most <= complete {
        most
    } else {
        complete
    };
    assert(0 <= selected * ratio <= complete * ratio) by (nonlinear_arith)
        requires
            0 <= selected <= complete,
            ratio >= 1,
    ;
    assert(selected * ratio <= most * ratio) by (nonlinear_arith)
        requires
            selected <= most,
            ratio >= 1,
    ;
    assert((selected + 1) * ratio == selected * ratio + ratio) by (nonlinear_arith);
    assert((most + 1) * ratio == most * ratio + ratio) by (nonlinear_arith);
    if visible > sparse_threshold(top_k, ratio) && visible % ratio == 0 {
        assert(selected >= 1) by (nonlinear_arith)
            requires
                selected == most || selected == complete,
                most * ratio + top_k % ratio == top_k,
                top_k % ratio < ratio,
                top_k >= ratio,
                complete * ratio == visible,
                visible >= 1,
                ratio >= 1,
        ;
        assert(selected * ratio >= 1) by (nonlinear_arith)
            requires
                selected >= 1,
                ratio >= 1,
        ;
    }
    assert(0 * ratio == 0) by (nonlinear_arith);
    match sparse_plan(indexed, batch, reach, start_pos, top_k, ratio) {
        SparseStep::Dense { .. } => {},
        SparseStep::Batched { selected: n, compress_from } => {
            assert(n == most);
            assert(compress_from == 0 || compress_from == reach.start as int / ratio);
        },
        SparseStep::Gathered { complete: all, tail, selected: n, compress_from, len, .. } => {
            assert(all == complete);
            assert(tail == visible % ratio);
            assert(n == selected);
            assert(len == selected * ratio + visible % ratio);
            assert(compress_from == 0 || compress_from == start_pos / ratio);
        },
    }
}

proof fn lemma_parts(a: int, ratio: int)
    requires
        a >= 0,
        ratio >= 1,
    ensures
        (a / ratio) * ratio + a % ratio == a,
        0 <= a % ratio < ratio,
        0 <= a / ratio <= a,
{
    lemma_fundamental_div_mod(a, ratio);
    lemma_mod_bound(a, ratio);
    let q = a / ratio;
    assert(q * ratio == ratio * q) by (nonlinear_arith);
    assert(0 <= q <= a) by (nonlinear_arith)
        requires
            a == ratio * q + a % ratio,
            0 <= a % ratio < ratio,
            a >= 0,
            ratio >= 1,
    ;
}

/// A token of a compressed layer goes to its own row of the ring, and no token that is still within
/// the ring has the same; the compressed rows that are there behind it are the whole blocks of what
/// was fed, and the last of them is written by the token that completes it; and what is attended is
/// the ring, as far as it is filled, and the compressed rows that are chosen.
pub proof fn law_a_compressed_step_writes_its_own_rows(
    l: LayerFacts,
    w: LayerW,
    g: GraphSizes,
    step: CompressedStep,
    earlier: int,
)
    requires
        w.mixer is Dsv4,
        layer_step(l, w, g, step),
        l.layout.raw_rows > 0,
        0 <= earlier < g.start_pos,
    ensures
        step.raw_row < l.layout.raw_rows,
        g.start_pos - earlier < l.layout.raw_rows ==> step.raw_row != earlier % (
        l.layout.raw_rows as int),
        l.ratio > 0 ==> {
            &&& step.visible * l.ratio <= g.start_pos + 1 < (step.visible + 1) * l.ratio
            &&& step.block_row is Some <==> step.visible * l.ratio == g.start_pos + 1
            &&& step.block_row matches Some(row) ==> row + 1 == step.visible
        },
        step.selected <= step.visible || l.ratio == 0,
        l.ratio == 0 ==> step.selected == 0 && step.block_row is None,
        step.scored ==> step.selected == g.indexer_top_k,
        !step.scored && l.ratio > 0 ==> step.selected == step.visible,
        step.gathered == step.selected + (if g.start_pos < l.layout.raw_rows {
            g.start_pos + 1
        } else {
            l.layout.raw_rows as int
        }),
{
    let rows = l.layout.raw_rows as int;
    let pos = g.start_pos as int;
    lemma_parts(pos, rows);
    lemma_parts(earlier, rows);
    if pos - earlier < rows && pos % rows == earlier % rows {
        let a = pos / rows;
        let b = earlier / rows;
        assert((a - b) * rows == pos - earlier) by (nonlinear_arith)
            requires
                a * rows + pos % rows == pos,
                b * rows + earlier % rows == earlier,
                pos % rows == earlier % rows,
        ;
        assert(false) by (nonlinear_arith)
            requires
                (a - b) * rows == pos - earlier,
                0 < pos - earlier < rows,
        ;
    }
    if l.ratio > 0 {
        let ratio = l.ratio as int;
        lemma_parts(pos + 1, ratio);
        lemma_parts(pos, ratio);
        let v = (pos + 1) / ratio;
        assert((v + 1) * ratio == v * ratio + ratio) by (nonlinear_arith);
        if (pos + 1) % ratio == 0 {
            crate::attention_plan::law_blocks_are_written_in_order(pos, ratio);
        }
    }
}

/// A layer of a graph attends to the caches of the layer whose caches it shares, writes only its
/// own, and sees what the batch reaches; its scale, its rotation and its bounds are those of the
/// layer itself.
pub proof fn law_a_layer_reads_the_caches_it_shares(
    model: GraphModel,
    step: GraphStep,
    m: ModelFacts,
    h: DecodeHandles,
    s: Scratch,
    w: LayerW,
    l: int,
    g: LayerGraph,
)
    requires
        0 <= l < model.layers@.len(),
        model.planned(step, m, model.layer_facts(l, h, s), w, g),
    ensures
        ({
            let t = model.layers@[l];
            let p = g.plan;
            &&& p.own == Caches { k: h.k_cache@[l], v: h.v_cache@[l] }
            &&& p.src == Caches {
                k: h.k_cache@[t.kv_layer as int],
                v: h.v_cache@[t.kv_layer as int],
            }
            &&& p.own_kv <==> t.kv_layer == l
            &&& p.own_kv ==> p.src == p.own
            &&& g.caches == p.own
            &&& p.visible == model.reach(step).visible
            &&& p.nope == t.nope
            &&& p.fused == m.fuse_qkv
            &&& p.gated == m.attn_out_gate
            &&& p.v_ones == m.v_ones
            &&& p.qkv == m.qkv
            &&& p.l2norm is Some <==> !t.nope && m.qk_ones is Some
            &&& p.l2norm is Some ==> p.l2norm == m.qk_ones
            &&& p.freq_factors is Some ==> m.gemma4 && p.freq_factors == m.rope_freqs
            &&& p.attend.theta == Theta::Layer(t.sizes.layer)
            &&& p.attend.scale == if m.gemma4 {
                Scalar::One
            } else {
                Scalar::InvSqrt(t.sizes.head_dim)
            }
            &&& p.attend.mask == m.mask(model.layer_facts(l, h, s), step.start_pos)
            &&& g.clamp_routed is Off <==> !m.deepseek4 && !m.bailingmoe3
            &&& g.clamp_routed is Off || g.clamp_routed == Clamp::Routed(t.sizes.layer)
            &&& g.clamp_shared is Off || g.clamp_shared == Clamp::Shared(t.sizes.layer)
            &&& g.clamp_shared is Off <==> g.clamp_routed is Off
            &&& g.scale is Some <==> if m.canvas {
                t.canvas_scale
            } else {
                t.prompt_scale
            }
            &&& g.scale matches Some(scale) ==> scale == if m.canvas {
                Scalar::CanvasScale(t.sizes.layer)
            } else {
                Scalar::PromptScale(t.sizes.layer)
            }
            &&& g.ratio == model.shape.layers@[l].compress_ratio
            &&& g.selected == s.selected@[l]
            &&& g.w == w
        }),
{
}

/// A graph makes logits exactly where they are asked for, hands out the rows behind them where
/// those are, and chooses a token where one is to be taken or drawn; only a draw has a uniform
/// number.
pub proof fn law_a_graph_hands_out_what_was_asked_for(step: GraphStep, first: int, behind: int)
    requires
        0 <= first < behind,
        behind + 2 <= usize::MAX,
    ensures
        ({
            let r = results_at(step, first, behind);
            &&& r.logits is Some <==> step.logits_rows > 0
            &&& r.rows is Some <==> step.logits_rows > 0 && step.h_tap
            &&& r.token is Some <==> step.logits_rows > 0 && (step.argmax || step.draw)
            &&& r.uniform is Some <==> step.logits_rows > 0 && step.draw && !step.argmax
            &&& r.token is Some ==> r.token != r.rows && r.token != r.uniform && r.token != r.logits
            &&& r.uniform is Some ==> r.uniform != r.rows && r.uniform != r.logits
        }),
{
}

} // verus!
