//! That no batch crosses from dense to sparse attention.
//!
//! One architecture attends all rows up to a depth, and selected blocks behind it. A graph of
//! several rows does one or the other, so its rows must lie on one side of that depth.

use crate::attention_plan::{first_start, last_end, sparse_threshold};
use crate::graph::{GraphModel, GraphStep};
use crate::graph_inputs::LayerSpan;
use crate::graph_steps::{cohort_step, quiet_step, CohortRows};
use crate::parallel_decode::{one_kind, DecodeRequest, DecodeStep};
use crate::parallel_prefill::{
    block_ratio, first_pending, lemma_step_is_one_sided, ParallelPrefill, PrefillStep,
    SequenceSpan,
};
use crate::prefill::{chunks_of, law_chunks_partition_the_prompt};
use crate::share::total;
use vstd::prelude::*;

verus! {

/// The rows of a step lie on one side of the depth at which attention becomes sparse.
pub open spec fn one_sided(m: GraphModel, step: GraphStep) -> bool {
    let g = m.step_sizes(step);
    let threshold = sparse_threshold(g.indexer_top_k as int, g.qsa_ratio as int);
    let reach = m.reach(step);
    reach.visible > threshold ==> reach.start + 1 > threshold
}

/// The model's graphs select blocks of the size that the layers' ratios give.
pub open spec fn selects_by(m: GraphModel, ratios: Seq<usize>) -> bool {
    m.sizes.qsa_ratio == block_ratio(ratios)
}

/// No chunk of a prompt crosses, in any span of layers.
pub proof fn law_a_chunk_does_not_cross_into_sparse_attention(
    m: GraphModel,
    ratios: Seq<usize>,
    threshold: usize,
    start: int,
    end: int,
    ubatch: int,
    checkpoint: Option<usize>,
    i: int,
    use_ids: bool,
    span: Option<LayerSpan>,
    mrope: Option<&Vec<i32>>,
)
    requires
        selects_by(m, ratios),
        threshold == sparse_threshold(m.sizes.indexer_top_k as int, block_ratio(ratios) as int),
        0 <= start <= end <= usize::MAX,
        ubatch > 0,
        0 <= i < chunks_of(start, end, ubatch, checkpoint, Some(threshold)).len(),
    ensures
        ({
            let chunk = chunks_of(start, end, ubatch, checkpoint, Some(threshold))[i];
            let rows = (chunk.end - chunk.start) as usize;
            one_sided(m, quiet_step(rows, chunk.start, use_ids, span, mrope))
        }),
{
    law_chunks_partition_the_prompt(start, end, ubatch, checkpoint, Some(threshold));
    let chunk = chunks_of(start, end, ubatch, checkpoint, Some(threshold))[i];
    assert(chunk.start < chunk.end);
}

proof fn lemma_ends_below(spans: Seq<SequenceSpan>, n: nat, bound: int)
    requires
        n <= spans.len(),
        0 <= bound,
        forall|i: int|
            0 <= i < n ==> (#[trigger] spans[i]).start_pos + spans[i].rows <= bound,
    ensures
        0 <= last_end(spans, n) <= bound,
    decreases n,
{
    if n > 0 {
        lemma_ends_below(spans, (n - 1) as nat, bound);
    }
}

proof fn lemma_starts_above(spans: Seq<SequenceSpan>, n: nat, bound: int)
    requires
        0 < n <= spans.len(),
        forall|i: int| 0 <= i < n ==> bound <= (#[trigger] spans[i]).start_pos,
    ensures
        bound <= first_start(spans, n) <= usize::MAX,
    decreases n,
{
    if n > 1 {
        lemma_starts_above(spans, (n - 1) as nat, bound);
    }
}

/// Rows that all lie on one side, lane by lane, do so together.
proof fn lemma_lanes_one_sided(m: GraphModel, rows: CohortRows, step: GraphStep)
    requires
        step.independent == rows.independent,
        step.batch == rows.batch,
        step.start_pos == rows.start_pos,
        rows.independent ==> step.spans == Some(rows.spans),
        rows.spans@.len() > 0,
        !rows.independent ==> rows.batch == rows.spans@[0].rows && rows.start_pos
            == rows.spans@[0].start_pos,
        forall|i: int|
            0 <= i < rows.spans@.len() ==> (#[trigger] rows.spans@[i]).start_pos
                + rows.spans@[i].rows <= usize::MAX,
        ({
            let threshold = sparse_threshold(
                m.sizes.indexer_top_k as int,
                m.sizes.qsa_ratio as int,
            );
            ||| 0 <= threshold && forall|i: int|
                0 <= i < rows.spans@.len() ==> (#[trigger] rows.spans@[i]).start_pos
                    + rows.spans@[i].rows <= threshold
            ||| forall|i: int|
                0 <= i < rows.spans@.len() ==> threshold < (#[trigger] rows.spans@[i]).start_pos + 1
        }),
    ensures
        one_sided(m, step),
{
    let threshold = sparse_threshold(m.sizes.indexer_top_k as int, m.sizes.qsa_ratio as int);
    let spans = rows.spans@;
    let n = spans.len();
    assert(spans[0].start_pos + spans[0].rows <= usize::MAX);
    lemma_ends_below(spans, n, usize::MAX as int);
    lemma_starts_above(spans, n, 0);
    if forall|i: int|
        0 <= i < n ==> threshold < (#[trigger] spans[i]).start_pos + 1 {
        lemma_starts_above(spans, n, threshold);
        assert(threshold < spans[0].start_pos + 1);
    } else {
        lemma_ends_below(spans, n, threshold);
        assert(spans[0].start_pos + spans[0].rows <= threshold);
    }
}

/// The rows that a step of several prompts is run with.
pub open spec fn prefill_rows<'a>(step: &'a PrefillStep) -> CohortRows<'a> {
    CohortRows {
        batch: step.batch,
        start_pos: step.spans@[0].start_pos,
        independent: step.independent_rows,
        spans: &step.spans,
    }
}

/// No step of a cohort that feeds its prompts crosses, in any span of layers.
pub proof fn law_a_cohort_step_does_not_cross_into_sparse_attention(
    m: GraphModel,
    ratios: Seq<usize>,
    cohort: ParallelPrefill,
    step: PrefillStep,
    use_ids: bool,
    span: LayerSpan,
)
    requires
        selects_by(m, ratios),
        cohort.threshold == sparse_threshold(
            m.sizes.indexer_top_k as int,
            block_ratio(ratios) as int,
        ),
        cohort.wf(),
        cohort.lanes@.len() <= usize::MAX,
        first_pending(cohort.lanes@) < cohort.lanes@.len(),
        cohort.is_step(step),
    ensures
        one_sided(m, cohort_step(prefill_rows(&step), use_ids, span)),
{
    lemma_step_is_one_sided(cohort);
    let rows = prefill_rows(&step);
    let spans = step.spans@;
    assert forall|i: int| 0 <= i < spans.len() implies {
        &&& (#[trigger] spans[i]).start_pos + spans[i].rows <= usize::MAX
        &&& cohort.sparse() ==> cohort.threshold < spans[i].start_pos + 1
        &&& !cohort.sparse() ==> spans[i].start_pos + spans[i].rows <= cohort.threshold
    } by {
        let member = cohort.members()[i];
    }
    if !step.independent_rows {
        assert(cohort.rows() =~= seq![cohort.rows()[0]]);
        assert(cohort.rows().drop_last() =~= Seq::<usize>::empty());
        assert(total(cohort.rows()) == total(Seq::<usize>::empty()) + cohort.rows()[0]);
        assert(spans[0].rows == cohort.rows()[0]);
    }
    lemma_lanes_one_sided(m, rows, cohort_step(rows, use_ids, span));
}

/// The rows that a token of several sessions is run with.
pub open spec fn decode_rows<'a>(step: &'a DecodeStep) -> CohortRows<'a> {
    CohortRows {
        batch: step.positions@.len() as usize,
        start_pos: step.positions@[0],
        independent: step.independent_rows,
        spans: &step.spans,
    }
}

/// The first step of an accepted cohort does not cross. Nor does any later one, where every lane
/// began behind the depth at which attention becomes sparse, or every lane still lies before it.
pub proof fn law_a_decode_step_does_not_cross_into_sparse_attention(
    m: GraphModel,
    threshold: usize,
    req: DecodeRequest,
    taken: int,
    step: DecodeStep,
    use_ids: bool,
    span: LayerSpan,
)
    requires
        threshold == sparse_threshold(m.sizes.indexer_top_k as int, m.sizes.qsa_ratio as int),
        one_kind(req, threshold),
        0 <= taken,
        0 < req.prompts@.len() <= usize::MAX,
        step.positions@.len() == req.prompts@.len(),
        forall|i: int|
            0 <= i < step.positions@.len() ==> #[trigger] step.positions@[i]
                == req.cached@[i]@.len() + taken < usize::MAX,
        step.independent_rows == (step.positions@.len() > 1),
        step.independent_rows ==> step.spans@.len() == step.positions@.len() && forall|i: int|
            0 <= i < step.spans@.len() ==> #[trigger] step.spans@[i] == (SequenceSpan {
                row_start: i as usize,
                rows: 1,
                start_pos: step.positions@[i],
            }),
        taken == 0 || req.cached@[0]@.len() + 1 > threshold || forall|i: int|
            0 <= i < step.positions@.len() ==> #[trigger] step.positions@[i] + 1 <= threshold,
    ensures
        one_sided(m, cohort_step(decode_rows(&step), use_ids, span)),
{
    let rows = decode_rows(&step);
    let graph = cohort_step(rows, use_ids, span);
    let behind = req.cached@[0]@.len() + 1 > threshold;
    assert(step.positions@[0] == req.cached@[0]@.len() + taken);
    if step.independent_rows {
        let spans = step.spans@;
        assert forall|i: int| 0 <= i < spans.len() implies {
            &&& (#[trigger] spans[i]).start_pos + spans[i].rows <= usize::MAX
            &&& behind ==> threshold < spans[i].start_pos + 1
            &&& !behind ==> spans[i].start_pos + spans[i].rows <= threshold
        } by {
            assert(step.positions@[i] == req.cached@[i]@.len() + taken);
            let cached = req.cached@[i];
        }
        lemma_lanes_one_sided(m, rows, graph);
    }
}

} // verus!
