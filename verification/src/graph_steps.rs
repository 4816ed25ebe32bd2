//! The graphs that each kind of work is done with.
//!
//! One architecture gathers the rows of its n-gram embedding while the first layer runs; its steps
//! are cut in two behind that layer. Every other step runs the whole model in one graph, or one span
//! of layers of a chunk.

use crate::canvas::CanvasPlan;
use crate::gates::SamplePath;
use crate::graph::GraphStep;
use crate::graph_dims::GraphSizes;
use crate::graph_inputs::LayerSpan;
use crate::parallel_prefill::SequenceSpan;
use crate::prefill::Chunk;
use vstd::prelude::*;

verus! {

/// A step of one sequence, of which nothing is asked but its effect on the caches.
pub open spec fn quiet_step<'a>(
    batch: usize,
    start_pos: usize,
    use_ids: bool,
    span: Option<LayerSpan>,
    mrope: Option<&'a Vec<i32>>,
) -> GraphStep<'a> {
    GraphStep {
        batch,
        start_pos,
        logits_rows: 0,
        canvas: false,
        device_canvas: None,
        scaled: false,
        h_tap: false,
        argmax: false,
        draw: false,
        use_ids,
        independent: false,
        spans: None,
        span,
        mrope,
        verify: false,
    }
}

fn quiet<'a>(
    batch: usize,
    start_pos: usize,
    use_ids: bool,
    span: Option<LayerSpan>,
    mrope: Option<&'a Vec<i32>>,
) -> (step: GraphStep<'a>)
    ensures
        step == quiet_step(batch, start_pos, use_ids, span, mrope),
{
    GraphStep {
        batch,
        start_pos,
        logits_rows: 0,
        canvas: false,
        device_canvas: None,
        scaled: false,
        h_tap: false,
        argmax: false,
        draw: false,
        use_ids,
        independent: false,
        spans: None,
        span,
        mrope,
        verify: false,
    }
}

/// The same step, which makes logits of its last row and chooses a token on the given path.
pub open spec fn sampling(step: GraphStep, path: SamplePath, want_rows: bool) -> GraphStep {
    GraphStep {
        logits_rows: 1,
        h_tap: want_rows,
        argmax: path == SamplePath::DeviceArgmax,
        draw: path == SamplePath::DeviceDraw,
        ..step
    }
}

fn asking<'a>(step: GraphStep<'a>, path: SamplePath, want_rows: bool) -> (asked: GraphStep<'a>)
    ensures
        asked == sampling(step, path, want_rows),
{
    GraphStep {
        logits_rows: 1,
        h_tap: want_rows,
        argmax: matches!(path, SamplePath::DeviceArgmax),
        draw: matches!(path, SamplePath::DeviceDraw),
        ..step
    }
}

/// One token, through the whole model.
pub fn decode_step<'a>(
    pos: usize,
    use_ids: bool,
    path: SamplePath,
    want_rows: bool,
    mrope: Option<&'a Vec<i32>>,
) -> (step: GraphStep<'a>)
    ensures
        step == sampling(quiet_step(1, pos, use_ids, None, mrope), path, want_rows),
{
    asking(quiet(1, pos, use_ids, None, mrope), path, want_rows)
}

/// The first layer, and the layers behind it.
pub open spec fn split_spans(n_layer: usize) -> (LayerSpan, LayerSpan) {
    (LayerSpan { first: 0, end: 1 }, LayerSpan { first: 1, end: n_layer })
}

/// One token, in two graphs: the first layer, and the rest of the model with its head.
pub fn split_decode_steps<'a>(
    n_layer: usize,
    pos: usize,
    use_ids: bool,
    path: SamplePath,
    want_rows: bool,
    mrope: Option<&'a Vec<i32>>,
) -> (steps: (GraphStep<'a>, GraphStep<'a>))
    ensures
        steps.0 == quiet_step(1, pos, use_ids, Some(split_spans(n_layer).0), mrope),
        steps.1 == sampling(
            quiet_step(1, pos, false, Some(split_spans(n_layer).1), mrope),
            path,
            want_rows,
        ),
{
    let front: LayerSpan = LayerSpan { first: 0, end: 1 };
    let back: LayerSpan = LayerSpan { first: 1, end: n_layer };
    (
        quiet(1, pos, use_ids, Some(front), mrope),
        asking(quiet(1, pos, false, Some(back), mrope), path, want_rows),
    )
}

/// A span of layers of a chunk. Ids are embedded only by the span that begins the model.
pub fn chunk_step<'a>(chunk: Chunk, span: LayerSpan, embeds: bool, mrope: Option<&'a Vec<i32>>) ->
    (step: GraphStep<'a>)
    requires
        chunk.start <= chunk.end,
    ensures
        step == quiet_step(
            (chunk.end - chunk.start) as usize,
            chunk.start,
            embeds && span.first == 0,
            Some(span),
            mrope,
        ),
{
    quiet(
        chunk.end - chunk.start,
        chunk.start,
        embeds && span.first == 0,
        Some(span),
        mrope,
    )
}

/// Tokens to be verified, all in one batch with logits of every row.
pub fn verify_step<'a>(
    start: usize,
    rows: usize,
    want_rows: bool,
    device_ids: bool,
    mrope: Option<&'a Vec<i32>>,
) -> (step: GraphStep<'a>)
    ensures
        step == (GraphStep {
            logits_rows: rows,
            h_tap: want_rows,
            argmax: device_ids,
            verify: true,
            ..quiet_step(rows, start, false, None, mrope)
        }),
{
    GraphStep {
        logits_rows: rows,
        h_tap: want_rows,
        argmax: device_ids,
        verify: true,
        ..quiet(rows, start, false, None, mrope)
    }
}

/// A canvas behind a prompt, with logits of every row.
pub fn canvas_step<'a>(plan: &CanvasPlan, mrope: Option<&'a Vec<i32>>) -> (step: GraphStep<'a>)
    ensures
        step == (GraphStep {
            logits_rows: plan.key.rows,
            canvas: true,
            device_canvas: if plan.on_device {
                Some(plan.key.conditioned)
            } else {
                None
            },
            scaled: plan.from_pair,
            ..quiet_step(plan.key.rows, plan.key.prompt, false, None, mrope)
        }),
{
    GraphStep {
        logits_rows: plan.key.rows,
        canvas: true,
        device_canvas: if plan.on_device {
            Some(plan.key.conditioned)
        } else {
            None
        },
        scaled: plan.from_pair,
        ..quiet(plan.key.rows, plan.key.prompt, false, None, mrope)
    }
}

/// The rows of several sessions.
#[derive(Clone, Copy)]
pub struct CohortRows<'a> {
    pub batch: usize,
    /// The position of the first row.
    pub start_pos: usize,
    pub independent: bool,
    pub spans: &'a Vec<SequenceSpan>,
}

/// The spans are named only where the rows are those of independent sequences.
pub open spec fn cohort_step<'a>(
    rows: CohortRows<'a>,
    use_ids: bool,
    span: LayerSpan,
) -> GraphStep<'a> {
    GraphStep {
        independent: rows.independent,
        spans: if rows.independent {
            Some(rows.spans)
        } else {
            None
        },
        ..quiet_step(rows.batch, rows.start_pos, use_ids, Some(span), None)
    }
}

/// A batch over several sessions, in two graphs: the first layer, and the rest of the model. Of the
/// last `logits_rows` rows logits are made.
pub fn cohort_steps<'a>(
    n_layer: usize,
    rows: CohortRows<'a>,
    logits_rows: usize,
    argmax: bool,
    draw: bool,
) -> (steps: (GraphStep<'a>, GraphStep<'a>))
    ensures
        steps.0 == cohort_step(rows, true, split_spans(n_layer).0),
        steps.1 == (GraphStep {
            logits_rows,
            argmax,
            draw,
            ..cohort_step(rows, false, split_spans(n_layer).1)
        }),
{
    let front: LayerSpan = LayerSpan { first: 0, end: 1 };
    let back: LayerSpan = LayerSpan { first: 1, end: n_layer };
    let spans: Option<&'a Vec<SequenceSpan>> = if rows.independent {
        Some(rows.spans)
    } else {
        None
    };
    (
        GraphStep {
            independent: rows.independent,
            spans,
            ..quiet(rows.batch, rows.start_pos, true, Some(front), None)
        },
        GraphStep {
            logits_rows,
            argmax,
            draw,
            independent: rows.independent,
            spans,
            ..quiet(rows.batch, rows.start_pos, false, Some(back), None)
        },
    )
}

/// The two graphs of a split step run every layer once, one behind the other.
pub proof fn law_a_split_step_runs_every_layer_once(n_layer: usize, l: int)
    requires
        1 <= n_layer,
        0 <= l < n_layer,
    ensures
        ({
            let (front, back) = split_spans(n_layer);
            &&& front.end == back.first
            &&& (front.first <= l < front.end) != (back.first <= l < back.end)
        }),
{
}

/// Logits are made of the last rows of a batch, so that row `r` of them is that of the lane `r` behind
/// the first one that samples.
pub proof fn law_logits_rows_are_the_sampling_lanes(g: GraphSizes, sample_from: usize, r: int)
    requires
        g.fits(),
        sample_from + g.logits_rows == g.batch,
        0 <= r < g.logits_rows,
    ensures
        g.derived().tail + r * g.n_embd == (sample_from + r) * g.n_embd,
{
    assert(sample_from * g.n_embd + r * g.n_embd == (sample_from + r) * g.n_embd)
        by (nonlinear_arith);
}

} // verus!
