//! Which cache rows a step's attention reads: masks, compressed blocks and sparse selections.

use crate::parallel_prefill::SequenceSpan;
use crate::prompt::min;
use vstd::arithmetic::div_mod::*;
use vstd::arithmetic::mul::*;
use vstd::prelude::*;

verus! {

/// The keys that a query attends.
#[derive(Clone, Copy, Debug, PartialEq, Eq, Structural)]
pub enum AttnMask {
    /// Every key from `lo` on, for every query of a canvas.
    Canvas { lo: usize },
    /// The last so many keys up to the query.
    SlidingWindow(usize),
    /// All keys up to the query.
    Causal,
}

/// The mask of a layer's attention. A canvas sees itself as a whole and, on a layer with a sliding
/// window, only the end of the prompt.
pub fn attn_mask(canvas: bool, sliding: bool, window: usize, start_pos: usize) -> (mask: AttnMask)
    ensures
        mask == (if canvas {
            AttnMask::Canvas {
                lo: if sliding {
                    canvas_low(window as int, start_pos as int) as usize
                } else {
                    0
                },
            }
        } else if sliding {
            AttnMask::SlidingWindow(window)
        } else {
            AttnMask::Causal
        }),
{
    if canvas {
        let lo: usize = if sliding {
            let reach: usize = if window >= 1 {
                window - 1
            } else {
                0
            };
            if start_pos >= reach {
                start_pos - reach
            } else {
                0
            }
        } else {
            0
        };
        AttnMask::Canvas { lo }
    } else if sliding {
        AttnMask::SlidingWindow(window)
    } else {
        AttnMask::Causal
    }
}

/// The first prompt position that a canvas behind `start_pos` tokens sees through a window.
pub open spec fn canvas_low(window: int, start_pos: int) -> int {
    let reach = if window >= 1 {
        window - 1
    } else {
        0
    };
    if start_pos >= reach {
        start_pos - reach
    } else {
        0
    }
}

/// Every row of a canvas sees the whole canvas, and at most a window's reach of the prompt.
pub proof fn law_a_canvas_sees_itself(window: int, start_pos: int)
    requires
        window >= 0,
        start_pos >= 0,
    ensures
        0 <= canvas_low(window, start_pos) <= start_pos,
        window >= 1 ==> start_pos - canvas_low(window, start_pos) <= window - 1,
{
}

/// The positions that a batch reaches.
#[derive(Clone, Copy, Debug, PartialEq, Eq, Structural)]
pub struct Reach {
    /// One more than the last position.
    pub visible: usize,
    /// The first position.
    pub start: usize,
}

/// The largest end of the first `n` spans.
pub open spec fn last_end(spans: Seq<SequenceSpan>, n: nat) -> int
    decreases n,
{
    if n == 0 {
        0
    } else {
        let end = spans[n - 1].start_pos + spans[n - 1].rows;
        let before = last_end(spans, (n - 1) as nat);
        if n == 1 || end > before {
            end
        } else {
            before
        }
    }
}

/// The smallest beginning of the first `n` spans.
pub open spec fn first_start(spans: Seq<SequenceSpan>, n: nat) -> int
    decreases n,
{
    if n == 0 {
        0
    } else {
        let start = spans[n - 1].start_pos as int;
        let before = first_start(spans, (n - 1) as nat);
        if n == 1 || start < before {
            start
        } else {
            before
        }
    }
}

/// The rows of the first `n` spans.
pub open spec fn rows_below(spans: Seq<SequenceSpan>, n: nat) -> int
    decreases n,
{
    if n == 0 {
        0
    } else {
        rows_below(spans, (n - 1) as nat) + spans[n - 1].rows
    }
}

/// One span of one row for each row of a batch.
pub open spec fn single_rows(batch: nat, start_pos: usize) -> Seq<SequenceSpan> {
    Seq::new(batch, |i: int| SequenceSpan { row_start: i as usize, rows: 1, start_pos })
}

/// The spans of a batch of independent sequences where none were given: one row each, all at the same
/// position.
pub fn default_spans(batch: usize, start_pos: usize) -> (spans: Vec<SequenceSpan>)
    ensures
        spans@ == single_rows(batch as nat, start_pos),
        rows_below(spans@, spans@.len()) == batch,
{
    let mut spans: Vec<SequenceSpan> = Vec::new();
    let mut i: usize = 0;
    while i < batch
        invariant
            i <= batch,
            spans@ == single_rows(i as nat, start_pos),
        decreases batch - i,
    {
        spans.push(SequenceSpan { row_start: i, rows: 1, start_pos });
        i = i + 1;
        assert(spans@ =~= single_rows(i as nat, start_pos));
    }
    proof {
        lemma_single_rows(batch as nat, start_pos, batch as nat);
    }
    spans
}

proof fn lemma_single_rows(batch: nat, start_pos: usize, n: nat)
    requires
        n <= batch,
    ensures
        rows_below(single_rows(batch, start_pos), n) == n,
    decreases n,
{
    if n > 0 {
        lemma_single_rows(batch, start_pos, (n - 1) as nat);
    }
}

/// The positions that a batch over independent spans reaches; a batch without spans reaches from
/// `start_pos` over its rows.
pub fn spans_reach(spans: &Vec<SequenceSpan>, batch: usize, start_pos: usize) -> (reach: Reach)
    requires
        start_pos + batch <= usize::MAX,
        forall|i: int|
            0 <= i < spans@.len() ==> (#[trigger] spans@[i]).start_pos + spans@[i].rows
                <= usize::MAX,
    ensures
        spans@.len() == 0 ==> reach.visible == start_pos + batch && reach.start == start_pos,
        spans@.len() > 0 ==> reach.visible == last_end(spans@, spans@.len()) && reach.start
            == first_start(spans@, spans@.len()),
{
    let n: usize = spans.len();
    if n == 0 {
        return Reach { visible: start_pos + batch, start: start_pos };
    }
    let mut visible: usize = 0;
    let mut start: usize = 0;
    let mut i: usize = 0;
    while i < n
        invariant
            i <= n == spans@.len(),
            forall|j: int|
                0 <= j < spans@.len() ==> (#[trigger] spans@[j]).start_pos + spans@[j].rows
                    <= usize::MAX,
            visible == last_end(spans@, i as nat),
            start == first_start(spans@, i as nat),
        decreases n - i,
    {
        let span: SequenceSpan = spans[i];
        assert(spans@[i as int].start_pos + spans@[i as int].rows <= usize::MAX);
        let end: usize = span.start_pos + span.rows;
        if i == 0 || end > visible {
            visible = end;
        }
        if i == 0 || span.start_pos < start {
            start = span.start_pos;
        }
        i = i + 1;
    }
    Reach { visible, start }
}

/// Every span lies within the reach of its batch.
pub proof fn law_reach_covers_every_span(spans: Seq<SequenceSpan>, n: nat, i: int)
    requires
        0 <= i < n <= spans.len(),
    ensures
        first_start(spans, n) <= spans[i].start_pos,
        spans[i].start_pos + spans[i].rows <= last_end(spans, n),
    decreases n,
{
    if i < n - 1 {
        law_reach_covers_every_span(spans, (n - 1) as nat, i);
    }
}

/// What a layer with compressed attention does for one token.
#[derive(Clone, Copy, Debug, PartialEq, Eq, Structural)]
pub struct CompressedStep {
    /// The row of the raw ring that the token is written to.
    pub raw_row: usize,
    /// The compressed row that the token completes, if it completes one.
    pub block_row: Option<usize>,
    /// The compressed rows that are there after it.
    pub visible: usize,
    /// How many of them are attended.
    pub selected: usize,
    /// They are chosen by score; otherwise they are the first ones.
    pub scored: bool,
    /// All rows that are attended: the raw ring's and the chosen compressed ones.
    pub gathered: usize,
}

/// The compressed rows that are attended.
pub open spec fn compressed_selected(visible: int, ratio: int, top_k: int) -> int {
    if ratio == 0 {
        0
    } else if ratio == 4 {
        min(visible, top_k)
    } else {
        visible
    }
}

/// The compressed rows that are there after the token at `pos`.
pub open spec fn compressed_visible(pos: int, ratio: int) -> int {
    if ratio == 0 {
        pos + 1
    } else {
        (pos + 1) / ratio
    }
}

/// What a layer with compressed attention does for the token at `pos`: a ring of `raw_rows` raw rows,
/// and one compressed row for every `ratio` tokens. Only the smallest ratio has more compressed rows
/// than are attended, and there the best `top_k` are chosen.
pub fn compressed_step(pos: usize, ratio: usize, top_k: usize, raw_rows: usize) -> (step:
    CompressedStep)
    requires
        pos < usize::MAX,
        raw_rows > 0,
        raw_rows + pos < usize::MAX,
    ensures
        step.raw_row == pos % raw_rows,
        step.block_row == (if ratio != 0 && (pos + 1) % (ratio as int) == 0 {
            Some((pos / ratio) as usize)
        } else {
            None
        }),
        step.visible == compressed_visible(pos as int, ratio as int),
        step.selected == compressed_selected(step.visible as int, ratio as int, top_k as int),
        step.scored == (ratio == 4 && step.visible > top_k),
        step.gathered == min(pos + 1, raw_rows as int) + step.selected,
{
    let live: usize = if pos + 1 < raw_rows {
        pos + 1
    } else {
        raw_rows
    };
    let raw_row: usize = pos % raw_rows;
    if ratio == 0 {
        return CompressedStep {
            raw_row,
            block_row: None,
            visible: pos + 1,
            selected: 0,
            scored: false,
            gathered: live,
        };
    }
    let visible: usize = (pos + 1) / ratio;
    proof {
        lemma_div_is_ordered_by_denominator(pos + 1, 1, ratio as int);
        lemma_div_by_self(1);
        assert((pos + 1) / (ratio as int) <= pos + 1) by (nonlinear_arith)
            requires
                ratio >= 1,
                pos >= 0,
        ;
    }
    let block_row: Option<usize> = if (pos + 1) % ratio == 0 {
        Some(pos / ratio)
    } else {
        None
    };
    let selected: usize = if ratio == 4 {
        if visible < top_k {
            visible
        } else {
            top_k
        }
    } else {
        visible
    };
    CompressedStep {
        raw_row,
        block_row,
        visible,
        selected,
        scored: ratio == 4 && visible > top_k,
        gathered: live + selected,
    }
}

/// The token that completes a block writes it as the last of the rows that are then there.
pub proof fn law_blocks_are_written_in_order(pos: int, ratio: int)
    requires
        pos >= 0,
        ratio > 0,
        (pos + 1) % ratio == 0,
    ensures
        pos / ratio == (pos + 1) / ratio - 1,
{
    let q = (pos + 1) / ratio;
    lemma_fundamental_div_mod(pos + 1, ratio);
    assert(pos == (q - 1) * ratio + (ratio - 1)) by (nonlinear_arith)
        requires
            pos + 1 == ratio * q,
    ;
    lemma_fundamental_div_mod_converse(pos, ratio, q - 1, ratio - 1);
}

/// How many positions a sparse layer reads densely before it selects blocks.
pub open spec fn sparse_threshold(top_k: int, ratio: int) -> int {
    top_k + ratio - 1
}

/// How a layer with block-sparse attention reads its cache.
#[derive(Clone, Copy, Debug, PartialEq, Eq, Structural)]
pub enum SparseStep {
    /// All rows up to the query.
    Dense { len: usize, pos: usize },
    /// A batch of rows, each with its own selection of blocks.
    Batched { selected: usize, compress_from: usize },
    /// One row: the selected blocks and the unfinished one are copied together.
    Gathered {
        complete: usize,
        tail: usize,
        selected: usize,
        compress_from: usize,
        len: usize,
        pos: usize,
    },
}

/// The first block whose index key is not yet there: none were made while the layer read densely.
pub open spec fn compress_from(start: int, top_k: int, ratio: int) -> int {
    if start <= sparse_threshold(top_k, ratio) {
        0
    } else {
        start / ratio
    }
}

/// What [`sparse_step`] returns.
pub open spec fn sparse_plan(
    indexed: bool,
    batch: int,
    reach: Reach,
    start_pos: int,
    top_k: int,
    ratio: int,
) -> SparseStep {
    let visible = reach.visible as int;
    let threshold = sparse_threshold(top_k, ratio);
    if !indexed || visible <= threshold {
        SparseStep::Dense { len: reach.visible, pos: start_pos as usize }
    } else if batch > 1 {
        SparseStep::Batched {
            selected: (top_k / ratio) as usize,
            compress_from: compress_from(reach.start as int, top_k, ratio) as usize,
        }
    } else {
        let selected = min(top_k / ratio, visible / ratio);
        let len = selected * ratio + visible % ratio;
        SparseStep::Gathered {
            complete: (visible / ratio) as usize,
            tail: (visible % ratio) as usize,
            selected: selected as usize,
            compress_from: compress_from(start_pos, top_k, ratio) as usize,
            len: len as usize,
            pos: (len - 1) as usize,
        }
    }
}

proof fn lemma_gathered_len(visible: int, top_k: int, ratio: int)
    requires
        ratio >= 1,
        top_k >= 0,
        visible > sparse_threshold(top_k, ratio),
    ensures
        0 <= visible % ratio < ratio,
        0 <= min(top_k / ratio, visible / ratio) * ratio <= top_k,
        top_k / ratio <= visible / ratio,
        min(top_k / ratio, visible / ratio) * ratio + visible % ratio <= sparse_threshold(
            top_k,
            ratio,
        ),
        min(top_k / ratio, visible / ratio) * ratio + visible % ratio <= visible,
{
    lemma_fundamental_div_mod(top_k, ratio);
    lemma_mod_bound(top_k, ratio);
    lemma_fundamental_div_mod(visible, ratio);
    lemma_mod_bound(visible, ratio);
    lemma_div_is_ordered(top_k, visible, ratio);
    lemma_div_pos_is_pos(top_k, ratio);
    let q = top_k / ratio;
    lemma_mul_is_commutative(ratio, q);
    assert(0 <= q * ratio) by (nonlinear_arith)
        requires
            q >= 0,
            ratio >= 1,
    ;
}

/// Decides how a layer with block-sparse attention reads its cache. A batch must not cross the point
/// at which selection begins.
pub fn sparse_step(
    indexed: bool,
    batch: usize,
    reach: Reach,
    start_pos: usize,
    top_k: usize,
    ratio: usize,
) -> (step: SparseStep)
    requires
        ratio >= 1,
        top_k + ratio <= usize::MAX,
        indexed && batch > 1 && reach.visible > sparse_threshold(top_k as int, ratio as int)
            ==> reach.start + 1 > sparse_threshold(top_k as int, ratio as int),
        indexed && batch <= 1 && reach.visible > sparse_threshold(top_k as int, ratio as int) ==> (
        reach.visible % ratio > 0 || top_k >= ratio),
    ensures
        step == sparse_plan(
            indexed,
            batch as int,
            reach,
            start_pos as int,
            top_k as int,
            ratio as int,
        ),
{
    let visible: usize = reach.visible;
    let threshold: usize = top_k + ratio - 1;
    if !indexed || visible <= threshold {
        return SparseStep::Dense { len: visible, pos: start_pos };
    }
    proof {
        lemma_gathered_len(visible as int, top_k as int, ratio as int);
    }
    if batch > 1 {
        let from: usize = if reach.start <= threshold {
            0
        } else {
            reach.start / ratio
        };
        return SparseStep::Batched { selected: top_k / ratio, compress_from: from };
    }
    let complete: usize = visible / ratio;
    let tail: usize = visible % ratio;
    let wanted: usize = top_k / ratio;
    let selected: usize = if wanted < complete {
        wanted
    } else {
        complete
    };
    let from: usize = if start_pos <= threshold {
        0
    } else {
        start_pos / ratio
    };
    let len: usize = selected * ratio + tail;
    proof {
        if tail == 0 {
            assert(wanted >= 1) by (nonlinear_arith)
                requires
                    wanted == top_k / ratio,
                    top_k >= ratio,
                    ratio >= 1,
            ;
            assert(selected * ratio >= 1) by (nonlinear_arith)
                requires
                    selected >= 1,
                    ratio >= 1,
            ;
        }
    }
    SparseStep::Gathered { complete, tail, selected, compress_from: from, len, pos: len - 1 }
}

/// A sparse row never reads more rows than the threshold at which selection begins, however long the
/// context is; up to that threshold nothing is left out.
pub proof fn law_sparse_reads_are_bounded(reach: Reach, start_pos: int, top_k: int, ratio: int)
    requires
        ratio >= 1,
        top_k >= 0,
        sparse_threshold(top_k, ratio) <= usize::MAX,
    ensures
        match sparse_plan(true, 1, reach, start_pos, top_k, ratio) {
            SparseStep::Dense { len, .. } => len == reach.visible && len <= sparse_threshold(
                top_k,
                ratio,
            ),
            SparseStep::Gathered { len, .. } => len <= sparse_threshold(top_k, ratio) && len
                <= reach.visible,
            SparseStep::Batched { .. } => false,
        },
{
    if reach.visible > sparse_threshold(top_k, ratio) {
        lemma_gathered_len(reach.visible as int, top_k, ratio);
    }
}

} // verus!
