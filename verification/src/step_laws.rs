//! What is asked of a step, and that only sound work is let through.

use crate::attention_plan::{first_start, last_end};
use crate::config::{ceil_div, Config, DType};
use crate::decode::{ChainGate, DecodeLoop, LoopAction, RING};
use crate::gates::SamplePath;
use crate::graph::results_at;
use crate::graph_inputs::{
    cache_countable, cache_decl, most_pairs, CacheExtent, GraphRequest, LayerSpan, RowIds,
    TensorDecl,
};
use crate::graph_steps::{cohort_step, quiet_step, sampling, CohortRows};
use crate::parallel_decode::{
    decode_refused, ends_refused, peers_refused, DecodeRequest, DecodeSupport,
};
use crate::parallel_prefill::SequenceSpan;
use crate::prefill::chunk_end;
use crate::prefix::begins_with;
use crate::room_laws::size_of;
use crate::rope::{plan_refused, span_end, spans_refused, ImageSpan, MropePlan};
use crate::segmented_kv::{qsa_planes, PlaneKind};
use crate::slot_alloc::{io_fits, io_of};
use vstd::prelude::*;

verus! {

/// A step that only feeds hands nothing out. One that samples makes the logits of its last row; a
/// token is chosen on the device exactly where the path says so, with a uniform number only where
/// it is drawn; and the rows behind the logits are handed out where they are wanted.
pub proof fn law_a_sampling_step_chooses_on_its_path(
    batch: usize,
    pos: usize,
    use_ids: bool,
    span: Option<LayerSpan>,
    mrope: Option<&Vec<i32>>,
    path: SamplePath,
    want_rows: bool,
    first: int,
    behind: int,
)
    requires
        0 <= first < behind,
        behind + 2 <= usize::MAX,
    ensures
        ({
            let feeds = quiet_step(batch, pos, use_ids, span, mrope);
            let asks = sampling(feeds, path, want_rows);
            let none = results_at(feeds, first, behind);
            let r = results_at(asks, first, behind);
            &&& none.logits is None && none.rows is None && none.token is None && none.uniform is None
            &&& asks.logits_rows == 1 && r.logits is Some
            &&& r.token is Some <==> path != SamplePath::Host
            &&& r.uniform is Some <==> path == SamplePath::DeviceDraw
            &&& r.rows is Some <==> want_rows
            &&& feeds.batch == batch && asks.batch == batch
            &&& feeds.start_pos == pos && asks.start_pos == pos
            &&& feeds.use_ids == use_ids && asks.use_ids == use_ids
            &&& feeds.span == span && asks.span == span
            &&& feeds.mrope == mrope && asks.mrope == mrope
            &&& !asks.canvas && asks.device_canvas is None && !asks.independent && !asks.verify
            &&& feeds.row_spans().len() == 0 && asks.row_spans().len() == 0
        }),
{
}

/// A step of a cohort feeds the cohort's rows, from their first position on; where the rows are
/// those of independent sequences it says which rows are whose.
pub proof fn law_a_cohort_step_feeds_every_sequence(rows: CohortRows, use_ids: bool, span: LayerSpan)
    ensures
        ({
            let step = cohort_step(rows, use_ids, span);
            &&& step.batch == rows.batch
            &&& step.start_pos == rows.start_pos
            &&& step.span == Some(span)
            &&& step.independent == rows.independent
            &&& rows.independent ==> step.row_spans() == rows.spans@
            &&& !rows.independent ==> step.row_spans().len() == 0
            &&& step.logits_rows == 0 && step.mrope is None && !step.canvas && !step.verify
            &&& step.use_ids == use_ids
        }),
{
}

/// What a graph declares of a recurrent layer's state fills the bytes that are kept for it, four to
/// an element; and so does what it declares of a compressed layer, with less than an element to
/// spare.
pub proof fn law_declared_state_fills_what_is_kept(
    cfg: Config,
    l: int,
    extent: CacheExtent,
    k_fmt: DType,
    v_fmt: DType,
    max_ctx: usize,
)
    requires
        cache_countable(cfg, l, extent, max_ctx),
    ensures
        ({
            let d = cache_decl(cfg, l, extent, k_fmt, v_fmt, max_ctx);
            &&& cfg.layers@[l].recurrent ==> {
                &&& d.k.elems * 4 == cfg.conv_state_bytes()
                &&& d.v.elems * 4 == cfg.mixer_state_bytes()
                &&& d.k.dtype == DType::F32 && d.v.dtype == DType::F32
                &&& d.qsa_raw is None && d.qsa_block is None
            }
            &&& !cfg.layers@[l].recurrent && cfg.deepseek4 ==> {
                &&& extent.raw_bytes <= d.k.elems * 4 < extent.raw_bytes + 4
                &&& extent.state_bytes <= d.v.elems * 4 < extent.state_bytes + 4
            }
            &&& !cfg.layers@[l].recurrent && !cfg.deepseek4 ==> {
                &&& d.k.elems == extent.k_elems && d.k.dtype == k_fmt
                &&& d.v.elems == extent.v_elems && d.v.dtype == v_fmt
                &&& d.qsa_raw is Some <==> extent.keeps_raw
                &&& d.qsa_block is Some <==> extent.keeps_blocks
            }
        }),
{
    let rows = cfg.ssm_d_conv - 1;
    let channels = cfg.recurrent_conv_channels as int;
    if cfg.layers@[l].recurrent {
        assert(0 <= rows * channels) by (nonlinear_arith)
            requires
                rows >= 0,
                channels >= 0,
        ;
    } else if cfg.deepseek4 {
        crate::config::lemma_ceil_div(extent.raw_bytes as nat, 4);
        crate::config::lemma_ceil_div(extent.state_bytes as nat, 4);
    }
}

/// What a graph declares of a layer's index caches is what the planes of these caches hold of a
/// whole context.
pub proof fn law_declared_index_caches_are_their_planes(
    cfg: Config,
    l: int,
    extent: CacheExtent,
    k_fmt: DType,
    v_fmt: DType,
    max_ctx: usize,
)
    requires
        0 <= l < cfg.layers@.len(),
        cfg.qwen4exp,
        !cfg.deepseek4,
        cfg.layers@[l].hybrid_attention,
        !cfg.layers@[l].recurrent,
        extent.keeps_raw,
        extent.keeps_blocks,
        max_ctx >= 1,
        cache_countable(cfg, l, extent, max_ctx),
    ensures
        ({
            let d = cache_decl(cfg, l, extent, k_fmt, v_fmt, max_ctx);
            let planes = qsa_planes(cfg, cfg.layers@[l], l);
            &&& planes.len() == 2
            &&& planes[0].kind == PlaneKind::QsaRaw && planes[1].kind == PlaneKind::QsaBlock
            &&& d.qsa_raw matches Some(n) && n == planes[0].logical_size(max_ctx as nat)
            &&& d.qsa_block matches Some(n) && n == planes[1].logical_size(max_ctx as nat)
        }),
{
    let size = cfg.indexer_head_size as int;
    let ratio = if cfg.layers@[l].compress_ratio >= 1 {
        cfg.layers@[l].compress_ratio as int
    } else {
        1
    };
    let blocks = if max_ctx as int / ratio >= 1 {
        max_ctx as int / ratio
    } else {
        1
    };
    assert(max_ctx as int / ratio <= max_ctx) by (nonlinear_arith)
        requires
            ratio >= 1,
            max_ctx >= 1,
    ;
    assert(0 <= blocks * size <= max_ctx * size) by (nonlinear_arith)
        requires
            0 <= blocks <= max_ctx,
            size >= 0,
    ;
    assert(max_ctx as nat / 1 == max_ctx as nat);
}

/// The rotation pairs that a span is checked for are those of its widest layer.
pub proof fn law_the_widest_rotation_is_checked(
    dims: Seq<usize>,
    first: int,
    end: int,
    rope_dim: usize,
    l: int,
)
    requires
        first <= l < end,
    ensures
        most_pairs(dims, first, end, rope_dim) >= dims[l] as int / 2,
        most_pairs(dims, first, end, rope_dim) >= rope_dim as int / 2,
        most_pairs(dims, first, end, rope_dim) == rope_dim as int / 2 || exists|k: int|
            first <= k < end && most_pairs(dims, first, end, rope_dim) == #[trigger] dims[k] as int
                / 2,
    decreases end - first,
{
    if first < end - 1 {
        law_the_widest_rotation_is_checked(
            dims,
            first,
            end - 1,
            rope_dim,
            if l < end - 1 {
                l
            } else {
                first
            },
        );
    } else {
        assert(most_pairs(dims, first, end - 1, rope_dim) == rope_dim as int / 2);
    }
    assert(dims[end - 1] as int / 2 == dims[end - 1] as int / 2);
}

/// A turn stops where it was told to or has nothing left to do; it chains several tokens only at
/// its end, never more than it may still generate or the ring of results holds; and otherwise it
/// feeds the next token, and samples where that is the last one it has.
pub proof fn law_a_turn_feeds_until_it_is_spent(turn: DecodeLoop, abort: bool, chain: ChainGate)
    requires
        turn.wf(),
        turn.out@.len() <= turn.max_new,
    ensures
        ({
            let last = turn.pos + 1 == turn.cur@.len();
            match turn.action(abort, chain) {
                LoopAction::Stop => turn.done || abort || turn.pos >= turn.prompt_len + turn.max_new
                    || (turn.out@.len() >= turn.max_new && turn.pos + 1 >= turn.prompt_len),
                LoopAction::Chain { pos, token, n } => {
                    &&& !abort && !turn.done && chain.can_chain && !chain.wants_logits
                    &&& pos == turn.pos && token == turn.cur@[turn.pos as int] && last
                    &&& pos + 1 >= turn.prompt_len
                    &&& 2 <= n <= turn.max_new - turn.out@.len()
                    &&& n <= RING && n <= chain.wanted && n <= chain.device
                },
                LoopAction::Step { pos, token, sample } => {
                    &&& !abort && !turn.done
                    &&& pos == turn.pos && token == turn.cur@[turn.pos as int]
                    &&& sample <==> last && pos + 1 >= turn.prompt_len
                },
            }
        }),
{
}

proof fn lemma_peers(req: DecodeRequest, n: nat, lane: int)
    requires
        peers_refused(req, n) is None,
        1 <= lane < n,
    ensures
        crate::parallel_decode::peer_refused(req, lane) is None,
    decreases n,
{
    if lane < n - 1 {
        lemma_peers(req, (n - 1) as nat, lane);
    }
}

proof fn lemma_ends(req: DecodeRequest, n: nat, lane: int)
    requires
        ends_refused(req, n) is None,
        0 <= lane < n,
    ensures
        1 <= req.prompt_ends@[lane] <= req.prompts@[lane]@.len(),
    decreases n,
{
    if lane < n - 1 {
        lemma_ends(req, (n - 1) as nat, lane);
    }
}

/// A cohort that is let through has a token to feed and room to generate on every lane, each lane
/// continues what is resident there, and its prompt ends inside its tokens.
pub proof fn law_an_accepted_cohort_can_run(req: DecodeRequest, support: DecodeSupport, lane: int)
    requires
        decode_refused(req, support) is None,
        0 <= lane < req.prompts@.len(),
    ensures
        support.model && !support.multimodal && support.gpu_embed,
        1 <= req.prompts@.len() <= 8,
        req.cached@.len() == req.prompts@.len(),
        req.samplers == req.prompts@.len(),
        req.cached@[lane]@.len() < req.prompts@[lane]@.len(),
        req.cached@[lane]@.len() + req.max_steps <= req.capacities@[lane],
        lane > 0 ==> begins_with(req.prompts@[lane]@, req.cached@[lane]@),
        1 <= req.prompt_ends@[lane] <= req.prompts@[lane]@.len(),
        (req.cached@[lane]@.len() + 1 > support.threshold) == (req.cached@[0]@.len() + 1
            > support.threshold),
{
    if lane > 0 {
        lemma_peers(req, req.prompts@.len(), lane);
    }
    lemma_ends(req, req.prompts@.len(), lane);
}

/// An image span stands behind those before it and inside the prompt, and has a row of values for
/// each of its tokens.
pub open spec fn span_stands(spans: Seq<ImageSpan>, i: int, prompt_len: usize, n_embd: usize) -> bool {
    let s = spans[i];
    &&& s.n_tokens > 0
    &&& s.start + s.n_tokens <= prompt_len
    &&& i > 0 ==> spans[i - 1].start + spans[i - 1].n_tokens <= s.start
    &&& s.embed_values == s.n_tokens * n_embd
}

proof fn lemma_spans(spans: Seq<ImageSpan>, n: nat, prompt_len: usize, n_embd: usize)
    requires
        n <= spans.len(),
    ensures
        spans_refused(spans, n, prompt_len, n_embd) is None <==> forall|i: int|
            0 <= i < n ==> #[trigger] span_stands(spans, i, prompt_len, n_embd),
    decreases n,
{
    if n > 0 {
        lemma_spans(spans, (n - 1) as nat, prompt_len, n_embd);
        let i = n - 1;
        assert(span_end(spans, i) == (if i == 0 {
            0
        } else {
            spans[i - 1].start + spans[i - 1].n_tokens
        }));
        assert(crate::rope::span_refused(spans, i, prompt_len, n_embd) is None <==> span_stands(
            spans,
            i,
            prompt_len,
            n_embd,
        ));
        if forall|k: int| 0 <= k < n ==> #[trigger] span_stands(spans, k, prompt_len, n_embd) {
            assert forall|k: int| 0 <= k < n - 1 implies #[trigger] span_stands(
                spans,
                k,
                prompt_len,
                n_embd,
            ) by {
                assert(0 <= k < n);
            }
        }
    }
}

/// A plan of image positions is let through exactly where the model takes one, it has four
/// components for every token of the prompt, every image stands in its place, and positions go on
/// from no negative one.
pub proof fn law_only_a_sound_image_plan_is_let_through(
    plan: MropePlan,
    supported: bool,
    prompt_len: usize,
    sections: [u32; 4],
    n_embd: usize,
)
    ensures
        plan_refused(plan, supported, prompt_len, sections, n_embd) is None <==> {
            &&& supported
            &&& plan.prompt_pos4@.len() == 4 * prompt_len
            &&& sections@[0] + sections@[1] + sections@[2] + sections@[3] > 0
            &&& forall|i: int|
                0 <= i < plan.spans@.len() ==> #[trigger] span_stands(
                    plan.spans@,
                    i,
                    prompt_len,
                    n_embd,
                )
            &&& plan.decode_base >= 0
        },
{
    lemma_spans(plan.spans@, plan.spans@.len(), prompt_len, n_embd);
}

/// A chunk is as long as a batch, unless the prompt or a boundary ends it before.
pub proof fn law_a_chunk_is_cut_only_at_a_boundary(
    start: int,
    end: int,
    ubatch: int,
    checkpoint: Option<usize>,
    sparse: Option<usize>,
)
    requires
        0 <= start < end,
        ubatch > 0,
    ensures
        ({
            let stop = chunk_end(start, end, ubatch, checkpoint, sparse);
            &&& start < stop <= end && stop <= start + ubatch
            &&& stop == start + ubatch || stop == end || checkpoint == Some(stop as usize) || sparse
                == Some(stop as usize)
        }),
{
}

/// What independent rows reach is the end of one of them, and they begin where one of them does.
pub proof fn law_a_reach_is_that_of_one_span(spans: Seq<SequenceSpan>, n: nat)
    requires
        0 < n <= spans.len(),
    ensures
        exists|i: int|
            0 <= i < n && last_end(spans, n) == (#[trigger] spans[i]).start_pos + spans[i].rows,
        exists|i: int| 0 <= i < n && first_start(spans, n) == (#[trigger] spans[i]).start_pos,
        forall|i: int|
            0 <= i < n ==> (#[trigger] spans[i]).start_pos + spans[i].rows <= last_end(spans, n)
                && first_start(spans, n) <= spans[i].start_pos,
    decreases n,
{
    let last = spans[n - 1];
    if n > 1 {
        let m = (n - 1) as nat;
        law_a_reach_is_that_of_one_span(spans, m);
        let i = choose|i: int|
            0 <= i < m && last_end(spans, m) == (#[trigger] spans[i]).start_pos + spans[i].rows;
        let j = choose|j: int| 0 <= j < m && first_start(spans, m) == (#[trigger] spans[j]).start_pos;
        assert(last_end(spans, n) == spans[i].start_pos + spans[i].rows || last_end(spans, n)
            == last.start_pos + last.rows);
        assert(first_start(spans, n) == spans[j].start_pos || first_start(spans, n)
            == last.start_pos);
    } else {
        assert(last_end(spans, n) == last.start_pos + last.rows);
        assert(first_start(spans, n) == last.start_pos);
    }
}

/// The index planes of a layer hold the elements that a graph declares: two bytes of each raw key,
/// and four of each block.
pub proof fn law_index_planes_hold_what_is_declared(cfg: Config, l: int, elems: nat)
    requires
        0 <= l < cfg.layers@.len(),
        cfg.qwen4exp,
        cfg.layers@[l].hybrid_attention,
    ensures
        ({
            let planes = qsa_planes(cfg, cfg.layers@[l], l);
            &&& planes[0].format.dtype == DType::F16 && planes[0].format.size(elems) == 2 * elems
            &&& planes[1].format.dtype == DType::F32 && planes[1].format.size(elems) == 4 * elems
            &&& planes[0].tokens_per_row == 1
            &&& planes[1].tokens_per_row == (if cfg.layers@[l].compress_ratio == 0 {
                1
            } else {
                cfg.layers@[l].compress_ratio
            })
        }),
{
    let planes = qsa_planes(cfg, cfg.layers@[l], l);
    assert(ceil_div(elems, 1) == elems);
    assert(planes[0].format.size(elems) == ceil_div(elems, 1) * 2);
    assert(planes[1].format.size(elems) == ceil_div(elems, 1) * 4);
}

/// The inputs of a one-row step are as large as the buffers that a slot keeps for them.
pub proof fn law_a_steps_inputs_are_as_large_as_its_buffers(
    cfg: Config,
    r: GraphRequest,
    decls: Seq<TensorDecl>,
    ids: RowIds,
    host_ipl: bool,
)
    requires
        r.batch == 1,
        r.countable(cfg),
        io_fits(cfg),
        ids.reads(decls, cfg, r),
    ensures
        ({
            let io = io_of(cfg, host_ipl);
            &&& 4 * decls[ids.hidden as int].elems == size_of(io.hidden)
            &&& 4 * decls[ids.positions as int].elems == size_of(io.pos)
            &&& ids.qwen_wide matches Some(id) ==> io.wide is Some && 4 * decls[id as int].elems
                == size_of(io.wide->Some_0)
            &&& ids.ple_state matches Some(id) ==> cfg.qwen4exp ==> io.ple_state is Some && 4
                * decls[id as int].elems == size_of(io.ple_state->Some_0)
        }),
{
    reveal(crate::graph_inputs::declares);
    crate::room_laws::law_a_steps_buffers_hold_a_row(cfg, host_ipl);
    assert(1 * cfg.n_embd == cfg.n_embd);
    assert(1 * cfg.hc_mult * cfg.n_embd == cfg.hc_mult * cfg.n_embd);
    if cfg.qwen4exp {
        let (d, e, f, g) = (
            cfg.ple_conv_kernel - 1,
            cfg.ple_ngram_size as int,
            cfg.hc_mult as int,
            cfg.n_embd as int,
        );
        assert(0 <= d * e * f * g && 0 <= f * g) by (nonlinear_arith)
            requires
                d >= 0,
                e >= 0,
                f >= 0,
                g >= 0,
        ;
    }
}

} // verus!
