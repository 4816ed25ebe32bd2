//! What batches feed, which lanes are due a snapshot, what is cleared, and what is refused.

use crate::attention_plan::rows_below;
use crate::batch_io::{chunk_source, covers, logical_position, RowSource};
use crate::canvas::CanvasRequest;
use crate::checkpoint::TurnRecurrentCkpt;
use crate::choice_laws::law_the_first_tensor_of_a_name_is_found;
use crate::config::{Config, DType};
use crate::decode::chain_stops;
use crate::device::{DeviceBuffer, DeviceOp};
use crate::error::Error;
use crate::gates::{
    batch_path, placed, BackendKind, BatchSampleRequest, Dsv4Shape, KvFormats, PlacementRequest,
};
use crate::graph::{GraphModel, GraphStep};
use crate::graph_build::{bank_source, ffn_ops, hint_of, span_hints, Frame, LayerGraph};
use crate::graph_dims::GraphDims;
use crate::graph_inputs::SharedIds;
use crate::graph_ops::Op;
use crate::graph_scratch::Scratch;
use crate::parallel_decode::{kept, reached, DecodeLane, EndRule, ParallelDecode};
use crate::parallel_prefill::{
    lanes_refused, prefill_refused, span_positions, span_tokens, ParallelPrefill, PrefillStep,
    SequenceSpan,
};
use crate::prefill::{due_after, overlaps, spans_of, Chunk, SnapshotDue};
use crate::room_laws::size_of;
use crate::rope::{plane_of, rows_refused, ImageSpan};
use crate::seam_kv::{withdrawn, SeamKv};
use crate::segmented_kv::{
    all_planes, lemma_first_plane, PlaneKind, PlaneLayout, SegmentedKvLayout, SegmentedKvSpec,
};
use crate::slot::{
    clears_below, depth_refused, layer_clears, missing_plane, plane_buffer, CacheBuffers,
};
use crate::slot_alloc::{
    first_absent, layer_fill, IoBuffers, LayerBytes, LayerFill, PendingSeamSlot,
};
use crate::staging::as_signed;
use crate::tensor_scan::{
    find_from, layer_tensor, present, qkv_agree, value_projections, ScanConfig, TensorInfo,
};
use crate::weight_handles::{HeadW, LayerW};
use crate::weight_load::{load_fault, named, part_of, permuted_heads, LoadRules};
use crate::weight_plan::LayerShape;
use vstd::prelude::*;

verus! {

proof fn lemma_rows_grow(spans: Seq<SequenceSpan>, i: nat, n: nat)
    requires
        i <= n <= spans.len(),
    ensures
        0 <= rows_below(spans, i) <= rows_below(spans, n),
        i < n ==> rows_below(spans, i) + spans[i as int].rows <= rows_below(spans, n),
    decreases n,
{
    if i < n {
        lemma_rows_grow(spans, i, (n - 1) as nat);
    } else if n > 0 {
        lemma_rows_grow(spans, (n - 1) as nat, (n - 1) as nat);
    }
}

/// A batch feeds the rows of its lanes one behind the other: row `r` of span `i` is the token of
/// that lane's prompt at the span's position, and its position is that one.
pub proof fn law_a_batch_feeds_each_lane_at_its_position(
    prompts: Seq<Vec<u32>>,
    step: PrefillStep,
    n: nat,
    i: int,
    r: int,
)
    requires
        0 <= i < n <= step.spans@.len(),
        0 <= r < step.spans@[i].rows,
        forall|k: int|
            0 <= k < n ==> {
                let span = #[trigger] step.spans@[k];
                span.start_pos + span.rows <= prompts[step.lanes@[k] as int]@.len() <= usize::MAX
            },
    ensures
        ({
            let tokens = span_tokens(prompts, step, n);
            let positions = span_positions(step.spans@, n);
            let at = rows_below(step.spans@, i as nat) + r;
            let pos = step.spans@[i].start_pos + r;
            &&& tokens.len() == rows_below(step.spans@, n)
            &&& positions.len() == rows_below(step.spans@, n)
            &&& 0 <= at < tokens.len()
            &&& tokens[at] == prompts[step.lanes@[i] as int]@[pos]
            &&& positions[at] == pos
        }),
    decreases n,
{
    let m = (n - 1) as nat;
    lemma_fed_len(prompts, step, m);
    lemma_rows_grow(step.spans@, i as nat, n);
    if i < m {
        law_a_batch_feeds_each_lane_at_its_position(prompts, step, m, i, r);
    }
}

proof fn lemma_fed_len(prompts: Seq<Vec<u32>>, step: PrefillStep, n: nat)
    requires
        n <= step.spans@.len(),
        forall|k: int|
            0 <= k < n ==> {
                let span = #[trigger] step.spans@[k];
                span.start_pos + span.rows <= prompts[step.lanes@[k] as int]@.len() <= usize::MAX
            },
    ensures
        span_tokens(prompts, step, n).len() == rows_below(step.spans@, n),
        span_positions(step.spans@, n).len() == rows_below(step.spans@, n),
    decreases n,
{
    if n > 0 {
        lemma_fed_len(prompts, step, (n - 1) as nat);
    }
}

/// A snapshot is due of exactly the lanes of a batch that end at their boundary.
pub proof fn law_a_snapshot_is_due_at_the_boundary(
    cohort: ParallelPrefill,
    step: PrefillStep,
    n: nat,
    lane: usize,
)
    ensures
        cohort.reaching(step, n).contains(lane) <==> exists|k: int|
            0 <= k < n && step.lanes@[k] == lane && cohort.lanes@[lane as int].boundary == Some(
                ((#[trigger] step.spans@[k]).start_pos + step.spans@[k].rows) as usize,
            ),
    decreases n,
{
    if n > 0 {
        let m = (n - 1) as nat;
        law_a_snapshot_is_due_at_the_boundary(cohort, step, m, lane);
        let before = cohort.reaching(step, m);
        let now = cohort.reaching(step, n);
        let last = step.lanes@[n - 1];
        let span = step.spans@[n - 1];
        let due = cohort.lanes@[last as int].boundary == Some((span.start_pos + span.rows) as usize);
        if now.contains(lane) {
            let j = choose|j: int| 0 <= j < now.len() && now[j] == lane;
            if j < before.len() {
                assert(before[j] == lane);
                assert(before.contains(lane));
            }
        }
        if before.contains(lane) {
            let j = choose|j: int| 0 <= j < before.len() && before[j] == lane;
            assert(now[j] == lane);
        }
        if due {
            assert(now[before.len() as int] == last);
        }
    }
}

/// The same of a step that feeds one token of each lane.
pub proof fn law_a_snapshot_is_due_behind_its_token(
    lanes: Seq<DecodeLane>,
    step: int,
    n: nat,
    lane: int,
)
    requires
        n <= usize::MAX,
        0 <= lane < n,
    ensures
        reached(lanes, step, n).contains(lane as usize) <==> lanes[lane].boundary == Some(
            (lanes[lane].start + step + 1) as usize,
        ),
    decreases n,
{
    let m = (n - 1) as nat;
    let before = reached(lanes, step, m);
    let now = reached(lanes, step, n);
    lemma_reached_below(lanes, step, m);
    if lane < m {
        law_a_snapshot_is_due_behind_its_token(lanes, step, m, lane);
        if before.contains(lane as usize) {
            let j = choose|j: int| 0 <= j < before.len() && before[j] == lane as usize;
            assert(now[j] == lane as usize);
        }
        if now.contains(lane as usize) {
            let j = choose|j: int| 0 <= j < now.len() && now[j] == lane as usize;
            assert(j < before.len());
            assert(before[j] == lane as usize);
        }
    } else {
        if lanes[m as int].boundary == Some((lanes[m as int].start + step + 1) as usize) {
            assert(now[before.len() as int] == m as usize);
        } else if now.contains(lane as usize) {
            let j = choose|j: int| 0 <= j < now.len() && now[j] == lane as usize;
            assert(before[j] < m);
        }
    }
}

proof fn lemma_reached_below(lanes: Seq<DecodeLane>, step: int, n: nat)
    requires
        n <= usize::MAX,
    ensures
        forall|j: int|
            0 <= j < reached(lanes, step, n).len() ==> (#[trigger] reached(lanes, step, n)[j]) < n,
    decreases n,
{
    if n > 0 {
        let before = reached(lanes, step, (n - 1) as nat);
        let now = reached(lanes, step, n);
        lemma_reached_below(lanes, step, (n - 1) as nat);
        assert forall|j: int| 0 <= j < now.len() implies (#[trigger] now[j]) < n by {
            if j < before.len() {
                assert(now[j] == before[j]);
            }
        }
    }
}

/// The token ends a turn: it is an end of text, and ends are not ignored.
pub open spec fn end_of_text(rule: EndRule, token: u32) -> bool {
    !rule.ignore && (token == rule.eos || rule.eos_ids@.contains(token))
}

/// A turn or a cohort stops exactly where a token ends the text, its caller accepts no more, or it
/// has generated all that it may.
pub proof fn law_only_an_end_stops(
    rule: EndRule,
    token: u32,
    generated: nat,
    max_new: usize,
    abort: bool,
    next: Seq<u32>,
    accepted: Seq<bool>,
)
    ensures
        chain_stops(rule, token, generated, max_new, abort) <==> end_of_text(rule, token) || generated
            >= max_new || abort,
        kept(rule, token, !abort) <==> !end_of_text(rule, token) && !abort,
        ParallelDecode::any_stops(rule, next, accepted) <==> exists|row: int|
            0 <= row < next.len() && (end_of_text(rule, #[trigger] next[row]) || !accepted[row]),
{
    if ParallelDecode::any_stops(rule, next, accepted) {
        let row = choose|row: int|
            0 <= row < next.len() && !kept(rule, #[trigger] next[row], accepted[row]);
        assert(end_of_text(rule, next[row]) || !accepted[row]);
    }
    if exists|row: int|
        0 <= row < next.len() && (end_of_text(rule, #[trigger] next[row]) || !accepted[row]) {
        let row = choose|row: int|
            0 <= row < next.len() && (end_of_text(rule, #[trigger] next[row]) || !accepted[row]);
        assert(!kept(rule, next[row], accepted[row]));
    }
}

/// Clearing a slot clears the rows of every attention layer, keys and values, and every index
/// cache.
pub proof fn law_every_row_of_a_slot_is_cleared(
    cfg: Config,
    caches: CacheBuffers,
    n: nat,
    l: int,
)
    requires
        0 <= l < n,
    ensures
        ({
            let ops = clears_below(cfg, caches, n);
            &&& !cfg.layers@[l].recurrent ==> ops.contains(DeviceOp::Clear { buffer: caches.k@[l] })
            &&& !cfg.layers@[l].recurrent ==> ops.contains(DeviceOp::Clear { buffer: caches.v@[l] })
            &&& caches.qsa_raw@[l] matches Some(buffer) ==> ops.contains(DeviceOp::Clear { buffer })
            &&& caches.qsa_block@[l] matches Some(buffer) ==> ops.contains(
                DeviceOp::Clear { buffer },
            )
        }),
    decreases n,
{
    let before = clears_below(cfg, caches, (n - 1) as nat);
    let here = layer_clears(cfg, caches, n - 1);
    lemma_contains_joined(before, here);
    if l < n - 1 {
        law_every_row_of_a_slot_is_cleared(cfg, caches, (n - 1) as nat, l);
    } else {
        let a = if cfg.layers@[l].recurrent {
            Seq::empty()
        } else {
            seq![
                DeviceOp::Clear { buffer: caches.k@[l] },
                DeviceOp::Clear { buffer: caches.v@[l] },
            ]
        };
        let b = match caches.qsa_raw@[l] {
            Some(buffer) => seq![DeviceOp::Clear { buffer }],
            None => Seq::empty(),
        };
        let c = match caches.qsa_block@[l] {
            Some(buffer) => seq![DeviceOp::Clear { buffer }],
            None => Seq::empty(),
        };
        lemma_contains_joined(a, b);
        lemma_contains_joined(a + b, c);
        if !cfg.layers@[l].recurrent {
            assert(a[0] == (DeviceOp::Clear { buffer: caches.k@[l] }));
            assert(a[1] == (DeviceOp::Clear { buffer: caches.v@[l] }));
        }
        if let Some(buffer) = caches.qsa_raw@[l] {
            assert(b[0] == (DeviceOp::Clear { buffer }));
        }
        if let Some(buffer) = caches.qsa_block@[l] {
            assert(c[0] == (DeviceOp::Clear { buffer }));
        }
    }
}

proof fn lemma_contains_joined(a: Seq<DeviceOp>, b: Seq<DeviceOp>)
    ensures
        forall|op: DeviceOp| a.contains(op) || b.contains(op) ==> #[trigger] (a + b).contains(op),
{
    assert forall|op: DeviceOp| a.contains(op) || b.contains(op) implies #[trigger] (a
        + b).contains(op) by {
        if a.contains(op) {
            let i = choose|i: int| 0 <= i < a.len() && a[i] == op;
            assert((a + b)[i] == op);
        } else {
            let i = choose|i: int| 0 <= i < b.len() && b[i] == op;
            assert((a + b)[a.len() + i] == op);
        }
    }
}

/// A hint names the bank of the layer behind the one that runs, and is given only where both have
/// one; a batch of several rows has no hints.
pub proof fn law_a_hint_names_the_next_layers_bank(
    all: Seq<LayerW>,
    shapes: Seq<LayerShape>,
    l: int,
    source: Option<usize>,
    n_expert: usize,
    context_tokens: usize,
    enabled: bool,
    d: GraphDims,
    first: int,
    sources: Seq<Option<usize>>,
)
    requires
        0 <= l < all.len() <= usize::MAX,
    ensures
        ({
            let hint = hint_of(all, shapes, l, source, n_expert, context_tokens);
            &&& hint is Some <==> l + 1 < all.len() && source is Some && all[l + 1].ffn is Moe
            &&& hint matches Some(h) ==> {
                let w = all[l + 1].ffn->Moe_0;
                &&& Some(h.source_op) == source
                &&& h.source_layer == l && h.target_layer == l + 1
                &&& h.router == w.router && h.down_exps == w.down_exps
                &&& h.gate_exps == w.gate_exps && h.up_exps == w.up_exps
                &&& h.fused_gate_up == w.fused_gate_up && h.n_expert == n_expert
                &&& h.target_attention == shapes[l + 1].hybrid_attention
                &&& h.context_tokens == context_tokens
            }
        }),
        !enabled || d.b.batch != 1 ==> span_hints(enabled, d, all, shapes, first, sources).len() == 0,
{
}

/// The first slot that is missing a buffer is found.
pub proof fn law_the_first_absent_buffer_is_found(bufs: Seq<Option<DeviceBuffer>>)
    ensures
        ({
            let n = first_absent(bufs);
            &&& n <= bufs.len()
            &&& forall|i: int| 0 <= i < n ==> (#[trigger] bufs[i]) is Some
            &&& n < bufs.len() ==> bufs[n as int] is None
        }),
    decreases bufs.len(),
{
    if bufs.len() > 0 && bufs[0] is Some {
        let rest = bufs.skip(1);
        law_the_first_absent_buffer_is_found(rest);
        let n = first_absent(bufs);
        assert forall|i: int| 0 <= i < n implies (#[trigger] bufs[i]) is Some by {
            if i > 0 {
                assert(rest[i - 1] is Some);
            }
        }
    }
}

/// A growth is refused only for a reason, and one that is let through finds a buffer for every
/// plane.
pub proof fn law_a_growth_finds_every_plane(
    cfg: Config,
    max_ctx: usize,
    k_fmt: crate::config::KvFormat,
    v_fmt: crate::config::KvFormat,
    caches: CacheBuffers,
    tokens: usize,
)
    ensures
        depth_refused(cfg, max_ctx, k_fmt, v_fmt, caches, tokens) is None <==> {
            &&& tokens <= max_ctx
            &&& cfg.qwen35 || cfg.qwen4exp
            &&& forall|i: int|
                0 <= i < all_planes(cfg, k_fmt, v_fmt).len() ==> plane_buffer(
                    #[trigger] all_planes(cfg, k_fmt, v_fmt)[i],
                    caches,
                ) is Ok
        },
{
    let planes = all_planes(cfg, k_fmt, v_fmt);
    lemma_missing(planes, caches, planes.len());
}

proof fn lemma_missing(planes: Seq<crate::segmented_kv::PlaneLayout>, caches: CacheBuffers, n: nat)
    requires
        n <= planes.len(),
    ensures
        missing_plane(planes, caches, n) is None <==> forall|i: int|
            0 <= i < n ==> plane_buffer(#[trigger] planes[i], caches) is Ok,
    decreases n,
{
    if n > 0 {
        lemma_missing(planes, caches, (n - 1) as nat);
        if forall|i: int| 0 <= i < n ==> plane_buffer(#[trigger] planes[i], caches) is Ok {
            assert(plane_buffer(planes[n - 1], caches) is Ok);
        }
    }
}

/// Queries, keys and values are joined only where the file holds all three in one type that the
/// backend multiplies as it is.
pub proof fn law_only_projections_of_one_type_are_joined(
    tensors: Seq<TensorInfo>,
    c: ScanConfig,
    native: Seq<DType>,
    l: nat,
)
    requires
        qkv_agree(tensors, c, native, l),
    ensures
        exists|i: int, j: int, k: int|
            0 <= i < tensors.len() && 0 <= j < tensors.len() && 0 <= k < tensors.len() && (
            #[trigger] tensors[i]).name@ == layer_tensor(l, "attn_q.weight"@) && (
            #[trigger] tensors[j]).name@ == layer_tensor(l, "attn_k.weight"@) && (
            #[trigger] tensors[k]).name@ == layer_tensor(l, "attn_v.weight"@) && tensors[i].dtype
                == tensors[j].dtype && tensors[i].dtype == tensors[k].dtype && native.contains(
                tensors[i].dtype,
            ) && tensors[i].dtype != DType::F16,
        c.layers@[l as int].own_kv,
        c.layers@[l as int].head_dim == c.head_dim,
        c.layers@[l as int].n_kv == c.n_kv,
{
    let a = layer_tensor(l, "attn_q.weight"@);
    let b = layer_tensor(l, "attn_k.weight"@);
    let d = layer_tensor(l, "attn_v.weight"@);
    law_the_first_tensor_of_a_name_is_found(tensors, a, 0);
    law_the_first_tensor_of_a_name_is_found(tensors, b, 0);
    law_the_first_tensor_of_a_name_is_found(tensors, d, 0);
    let i = find_from(tensors, a, 0)->Some_0;
    let j = find_from(tensors, b, 0)->Some_0;
    let k = find_from(tensors, d, 0)->Some_0;
    assert(tensors[i].name@ == a && tensors[j].name@ == b && tensors[k].name@ == d);
}

/// A weight is loaded exactly where all of its tensors are there and of one type, and each part of
/// it is the tensor of its name.
pub proof fn law_a_weight_is_loaded_from_tensors_of_one_type(
    tensors: Seq<TensorInfo>,
    rules: LoadRules,
    names: Seq<Seq<char>>,
    n: nat,
)
    requires
        n <= names.len(),
        tensors.len() <= usize::MAX,
    ensures
        load_fault(tensors, names, n) is None <==> forall|i: int|
            0 <= i < n ==> present(tensors, #[trigger] names[i]) && named(tensors, names[i]).dtype
                == named(tensors, names[0]).dtype,
        load_fault(tensors, names, n) is None ==> forall|i: int|
            0 <= i < n ==> ({
                let part = part_of(tensors, rules, #[trigger] names[i]);
                &&& part.tensor < tensors.len()
                &&& tensors[part.tensor as int].name@ == names[i]
                &&& part.heads == permuted_heads(rules, names[i])
            }),
    decreases n,
{
    if n > 0 {
        law_a_weight_is_loaded_from_tensors_of_one_type(tensors, rules, names, (n - 1) as nat);
        law_the_first_tensor_of_a_name_is_found(tensors, names[n - 1], 0);
        if forall|i: int|
            0 <= i < n ==> present(tensors, #[trigger] names[i]) && named(tensors, names[i]).dtype
                == named(tensors, names[0]).dtype {
            assert(present(tensors, names[n - 1]));
        }
    }
}

/// A position table reaches as far as its positions can be written: it is refused exactly where the
/// last one cannot.
pub proof fn law_a_position_table_is_refused_where_it_overflows(base: int, count: nat)
    ensures
        rows_refused(base, count) is Some <==> count > 0 && base + count - 1 > i32::MAX,
{
}

/// A chunk touches an image exactly where one of its positions is the image's.
pub proof fn law_a_chunk_touches_the_images_it_holds(span: ImageSpan, chunk: Chunk)
    requires
        span.n_tokens > 0,
        chunk.start < chunk.end,
    ensures
        overlaps(span, chunk) <==> exists|pos: int|
            chunk.start <= pos < chunk.end && #[trigger] covers(span, pos),
{
    if overlaps(span, chunk) {
        let pos = if span.start >= chunk.start {
            span.start as int
        } else {
            chunk.start as int
        };
        assert(covers(span, pos));
    }
}

/// Each row of a chunk has one source: a row of the image that holds its position, or its token.
pub proof fn law_a_row_has_one_source(
    spans: Seq<ImageSpan>,
    id: u32,
    pos: int,
    a: RowSource,
    b: RowSource,
)
    requires
        chunk_source(spans, id, pos, a),
        chunk_source(spans, id, pos, b),
    ensures
        a == b,
        a is Image <==> exists|i: int| 0 <= i < spans.len() && covers(#[trigger] spans[i], pos),
        a matches RowSource::Image { span, row } ==> span < spans.len() && spans[span as int].start
            + row == pos && row < spans[span as int].n_tokens,
        a matches RowSource::Token { id: token } ==> token == id,
{
    if a is Image && b is Image {
        let i = a->Image_span as int;
        let j = b->Image_span as int;
        assert(covers(spans[i], pos) && covers(spans[j], pos));
    }
    if a is Image {
        assert(covers(spans[a->Image_span as int], pos));
    }
}

/// Without images a row's position is where it stands; with them it is the first component of its
/// entry.
pub proof fn law_a_rows_position_is_its_own(table: Seq<i32>, pos: int)
    ensures
        logical_position(None, pos) == pos,
        logical_position(Some(table), pos) == table[4 * pos],
{
}

/// A compressed model is taken exactly where its heads have the lengths that its kernels take, its
/// streams and groups can be held, and every layer that selects by token id has a bank and a table
/// of its own.
pub proof fn law_a_compressed_model_is_taken_whole(m: Dsv4Shape, tensors: Seq<TensorInfo>)
    requires
        m.wf(),
    ensures
        m.fault(tensors) is None <==> {
            &&& m.head_dim == 512 && m.indexer_head_size == 128
            &&& 1 <= m.hc_mult <= m.max_streams && m.hc_sinkhorn_iters >= 1
            &&& m.rope_dim <= m.head_dim
            &&& m.o_group_count >= 1 && (m.n_head * m.head_dim) % (m.o_group_count as int) == 0
            &&& forall|l: int|
                0 <= l < m.moe@.len() && #[trigger] m.hash_moe@[l] ==> m.moe@[l]
                    && crate::gates::table_entries(tensors, l as nat) == m.n_used * m.vocab
        },
{
    lemma_tables(m, tensors, m.moe@.len());
}

proof fn lemma_tables(m: Dsv4Shape, tensors: Seq<TensorInfo>, n: nat)
    requires
        m.wf(),
        n <= m.moe@.len(),
    ensures
        m.tables_fault(tensors, n) is None <==> forall|l: int|
            0 <= l < n && #[trigger] m.hash_moe@[l] ==> m.moe@[l] && crate::gates::table_entries(
                tensors,
                l as nat,
            ) == m.n_used * m.vocab,
    decreases n,
{
    if n > 0 {
        lemma_tables(m, tensors, (n - 1) as nat);
        assert(m.table_fault(tensors, n - 1) is None <==> (m.hash_moe@[n - 1] ==> m.moe@[n - 1]
            && crate::gates::table_entries(tensors, (n - 1) as nat) == m.n_used * m.vocab));
    }
}

proof fn lemma_lanes(prompts: Seq<Vec<u32>>, capacities: Seq<usize>, vocab: usize, n: nat)
    requires
        n <= prompts.len(),
    ensures
        lanes_refused(prompts, capacities, vocab, n) is None <==> forall|i: int|
            0 <= i < n ==> lane_is_sound(#[trigger] prompts[i], capacities[i], vocab),
    decreases n,
{
    if n > 0 {
        lemma_lanes(prompts, capacities, vocab, (n - 1) as nat);
        crate::prefix::lemma_first_out_of_vocab(prompts[n - 1]@, vocab);
        let last = lane_is_sound(prompts[n - 1], capacities[n - 1], vocab);
        assert((crate::parallel_prefill::lane_refused(
            prompts[n - 1]@,
            capacities[n - 1],
            vocab,
            (n - 1) as usize,
        ) is None) == last);
        if forall|i: int|
            0 <= i < n ==> lane_is_sound(#[trigger] prompts[i], capacities[i], vocab) {
            assert(lane_is_sound(prompts[n - 1], capacities[n - 1], vocab));
        }
    }
}

/// A lane's prompt holds tokens of the vocabulary and leaves room for an answer.
pub open spec fn lane_is_sound(prompt: Vec<u32>, capacity: usize, vocab: usize) -> bool {
    &&& 0 < prompt@.len() < capacity
    &&& forall|i: int| 0 <= i < prompt@.len() ==> (#[trigger] prompt@[i]) < vocab
}

/// A cohort of prompts is let through exactly where the model serves cohorts, every lane has a slot
/// that was prepared, the first lane is the caller's own, and every prompt is sound.
pub proof fn law_only_a_sound_cohort_is_let_through(
    supported: bool,
    multimodal: bool,
    prompts: Seq<Vec<u32>>,
    capacities: Seq<usize>,
    prepared: nat,
    primary: Seq<u32>,
    vocab: usize,
)
    ensures
        prefill_refused(supported, multimodal, prompts, capacities, prepared, primary, vocab) is None
            <==> {
            &&& supported && !multimodal
            &&& prompts.len() > 0 && prompts.len() == capacities.len() && prompts.len() == prepared
            &&& prompts[0]@ == primary
            &&& forall|i: int|
                0 <= i < prompts.len() ==> lane_is_sound(#[trigger] prompts[i], capacities[i], vocab)
        },
{
    lemma_lanes(prompts, capacities, vocab, prompts.len());
}

/// Rings are kept, and one architecture served, only with caches of half precision or eight-bit
/// blocks.
pub proof fn law_two_formats_are_read_in_rings(f: KvFormats)
    ensures
        f.both_half_or_block() <==> (f.k == DType::F16 || f.k == DType::Q8_0) && (f.v == DType::F16
            || f.v == DType::Q8_0),
{
}

/// A canvas step is let through exactly where the model denoises, its tokens are of the vocabulary,
/// it fits behind the prompt, and the logits that are handed back are those of all its rows.
pub proof fn law_only_a_sound_canvas_is_let_through(r: CanvasRequest)
    ensures
        r.refusal() is None <==> {
            &&& r.diffusion_gemma
            &&& forall|i: int| 0 <= i < r.canvas@.len() ==> (#[trigger] r.canvas@[i]) < r.vocab
            &&& r.prompt + r.canvas@.len() <= r.max_ctx
            &&& r.last_logits is None || r.backend == BackendKind::Vulkan || r.last_logits->Some_0
                == r.canvas@.len() * r.vocab
        },
{
    crate::prefix::lemma_first_out_of_vocab(r.canvas@, r.vocab);
}

/// What a layer's plan is told of the model is what the model, the head and the scratch say.
pub proof fn law_a_plan_is_told_of_its_own_model(
    model: GraphModel,
    step: GraphStep,
    head: HeadW,
    shared: SharedIds,
    s: Scratch,
)
    ensures
        ({
            let m = model.facts(step, head, shared, s);
            &&& m.gemma == model.shape.gemma && m.gemma4 == model.shape.gemma4
            &&& m.deepseek4 == model.shape.deepseek4 && m.bailingmoe3 == model.shape.bailingmoe3
            &&& m.attn_out_gate == model.attn_out_gate && m.fuse_qkv == model.shape.fuse_qkv
            &&& m.canvas == step.canvas && m.swa_window == model.cfg.swa_window
            &&& m.rope_freqs == shared.rope_freqs
            &&& m.qk_ones == head.qk_ones && m.v_ones == head.v_ones
            &&& m.qkv == s.qkv && m.sparse == s.sparse
        }),
{
}

/// Every layer is in exactly one of the spans that a prefill executes, and the spans follow each
/// other from the first layer to the last.
pub proof fn law_a_prefill_executes_every_layer_once(n_layer: usize, layer_major: bool, l: int)
    requires
        0 <= l < n_layer,
    ensures
        ({
            let spans = spans_of(n_layer, layer_major);
            let at = if layer_major {
                l
            } else {
                0
            };
            &&& 0 <= at < spans.len() && spans[at].start <= l < spans[at].end
            &&& forall|k: int|
                0 <= k < spans.len() && k != at ==> !((#[trigger] spans[k]).start <= l
                    < spans[k].end)
            &&& spans[0].start == 0 && spans.last().end == n_layer
            &&& layer_major ==> spans.len() == n_layer
        }),
{
}

/// A snapshot is due exactly where a chunk ends at the boundary: of the layer that was executed, or
/// of the whole model.
pub proof fn law_a_chunk_is_captured_at_the_boundary(
    end: usize,
    boundary: Option<usize>,
    layer_major: bool,
    first: usize,
    qwen4exp: bool,
    ple: bool,
)
    ensures
        ({
            let due = due_after(end, boundary, layer_major, first, qwen4exp, ple);
            &&& due is Nothing <==> boundary is None || boundary->Some_0 != end
            &&& due is Everything ==> !layer_major
            &&& due matches SnapshotDue::Layer { layer, ple: with } ==> layer_major && layer == first
                && (with <==> qwen4exp && ple)
        }),
{
}

/// The device chooses the tokens of a parallel step only where every lane that samples allows it;
/// one lane whose token the host must choose keeps all of them from it.
pub proof fn law_one_lane_keeps_a_batch_from_the_device(r: BatchSampleRequest, i: int)
    requires
        0 <= i < r.lanes@.len(),
    ensures
        !r.lanes@[i].argmax ==> !batch_path(r).argmax,
        !r.lanes@[i].draw ==> !batch_path(r).draw,
        batch_path(r).draw ==> r.device_draws && r.draw_option && 2 <= r.top_k && r.top_k
            <= r.max_candidates,
        batch_path(r).draw && r.lanes@.len() > 1 ==> r.device_draw_rows,
        batch_path(r).argmax ==> r.device_argmax_rows && r.argmax_option,
        r.lanes@.len() == 1 && r.lanes@[0].argmax && r.device_argmax_rows && r.argmax_option
            ==> batch_path(r).argmax,
        r.lanes@.len() == 1 && r.lanes@[0].draw && r.device_draws && r.draw_option && 2 <= r.top_k
            && r.top_k <= r.max_candidates ==> batch_path(r).draw,
{
}

/// A session grows by segments only where that is wanted, keeps its context where its memory is
/// found later, and has a checkpoint only for recurrent state.
pub proof fn law_a_session_is_laid_out_as_wanted(r: PlacementRequest)
    ensures
        ({
            let p = placed(r);
            &&& p.segmented ==> r.segments_wanted
            &&& r.segments_wanted && (r.segments_available || r.deferred) ==> p.segmented
            &&& !r.segments_available && !r.deferred ==> !p.segmented
            &&& p.keep_context <==> p.segmented || r.deferred
            &&& p.checkpoint <==> r.checkpoint && r.recurrent
            &&& r.deferred && r.slots > 0 ==> p.siblings + 1 == r.slots
            &&& !r.deferred || r.slots == 0 ==> p.siblings == 0
        }),
{
}

/// The operation that is said to run a layer's routed bank does.
pub proof fn law_the_named_operation_runs_the_bank(before: Seq<Op>, x: Frame, g: LayerGraph)
    requires
        g.w.ffn is Moe,
    ensures
        ({
            let w = g.w.ffn->Moe_0;
            let ops = ffn_ops(before, x, g);
            bank_source(before, x, g) matches Some(n) && 0 <= n < ops.len() && (ops[n] matches Op::MoeFfn {
                router,
                down_exps,
                ..
            } && router == w.router && down_exps == w.down_exps)
        }),
{
}

/// The buffers of a canvas step hold its rows: their embeddings and positions, and the logits of
/// all of them, kept in pairs where the device conditions the next step by the last.
pub proof fn law_a_canvas_steps_buffers_hold_its_rows(r: CanvasRequest)
    requires
        r.sizes_fit(),
    ensures
        ({
            let rows = r.canvas@.len() as int;
            let pair = r.pair_buffers();
            let own = r.graph_buffers();
            let paired = r.backend == BackendKind::Vulkan;
            &&& pair.len() == 3
            &&& size_of(pair[0]) == 4 * (rows * r.vocab)
            &&& size_of(pair[1]) == 4 * (rows * r.vocab)
            &&& size_of(pair[2]) == 4
            &&& size_of(own[0]) == 4 * (rows * r.n_embd)
            &&& size_of(own[1]) == 4 * rows
            &&& paired ==> own.len() == 2
            &&& !paired ==> own.len() >= 3 && size_of(own[2]) == 4 * (rows * r.vocab)
            &&& !paired && r.backend == BackendKind::Metal && r.last_logits is Some ==> own.len() == 4
                && size_of(own[3]) == 4 * (rows * r.vocab)
        }),
{
    let rows = r.canvas@.len() as int;
    let (a, b) = (r.vocab as int, r.n_embd as int);
    assert(0 <= rows * a && 0 <= rows * b) by (nonlinear_arith)
        requires
            rows >= 0,
            a >= 0,
            b >= 0,
    ;
}

/// A withdrawn checkpoint serves no prompt, and is not complete again before it is taken anew.
pub proof fn law_a_withdrawn_checkpoint_serves_nothing(
    before: Option<TurnRecurrentCkpt>,
    after: Option<TurnRecurrentCkpt>,
)
    requires
        withdrawn(before, after),
    ensures
        after is Some <==> before is Some,
        after matches Some(ck) ==> !ck.valid && !ck.complete() && ck.same_buffers(&before->Some_0),
{
}

/// A layer is said to have a projection for its values exactly where the file holds one.
pub proof fn law_a_value_projection_is_there_where_the_file_has_it(
    tensors: Seq<TensorInfo>,
    n: nat,
    l: int,
)
    requires
        0 <= l < n,
    ensures
        value_projections(tensors, n)[l] <==> exists|i: int|
            0 <= i < tensors.len() && (#[trigger] tensors[i]).name@ == layer_tensor(
                l as nat,
                "attn_v.weight"@,
            ),
{
    let name = layer_tensor(l as nat, "attn_v.weight"@);
    law_the_first_tensor_of_a_name_is_found(tensors, name, 0);
    if let Some(i) = find_from(tensors, name, 0) {
        assert(tensors[i].name@ == name);
    }
}

/// A rotation pair goes by the component whose turn it is, time, height and width in turn, as long
/// as that component has pairs left; behind these it goes by the last one.
pub proof fn law_components_take_turns(sector: int, sections: [u32; 4])
    requires
        sector >= 0,
    ensures
        plane_of(sector, sections) == (if sector < 3 * sections@[sector % 3] {
            sector % 3
        } else {
            3
        }),
{
}

/// A word read back as a signed one is the same bits: equal to it, or less by the number of words.
pub proof fn law_a_signed_word_is_the_same_bits(word: u32)
    ensures
        -0x8000_0000 <= as_signed(word) < 0x8000_0000,
        as_signed(word) == word || as_signed(word) + 0x1_0000_0000 == word,
{
}

/// What is asked for is the reservation of a plane of this layer and kind; nothing is asked for
/// where the buffer is bound, or there is no such plane.
pub open spec fn fills(
    layout: SegmentedKvLayout,
    l: int,
    kind: PlaneKind,
    bound: Option<DeviceBuffer>,
    fill: Option<SegmentedKvSpec>,
) -> bool {
    match fill {
        Some(spec) => bound is None && exists|p: PlaneLayout|
            layout.planes@.contains(p) && p.layer == l && p.kind == kind && spec
                == #[trigger] p.reservation(layout.max_ctx as nat),
        None => bound is Some || forall|i: int|
            0 <= i < layout.planes@.len() ==> (#[trigger] layout.planes@[i]).layer != l
                || layout.planes@[i].kind != kind,
    }
}

/// A slot whose allocation was put off is filled with exactly what it is still missing: each
/// layer's keys and values, and its index caches where they have a size.
pub proof fn law_a_pending_slot_is_filled_with_what_is_missing(
    pending: PendingSeamSlot,
    layout: SegmentedKvLayout,
    l: int,
    bytes: LayerBytes,
    f: LayerFill,
)
    requires
        0 <= l <= usize::MAX,
        layer_fill(pending, layout, l, bytes) == Ok::<LayerFill, Error>(f),
    ensures
        fills(layout, l, PlaneKind::K, pending.kbufs@[l], f.k),
        fills(layout, l, PlaneKind::V, pending.vbufs@[l], f.v),
        bytes.qsa_raw > 0 ==> fills(layout, l, PlaneKind::QsaRaw, pending.qsa_kbufs@[l], f.qsa_raw),
        bytes.qsa_block > 0 ==> fills(
            layout,
            l,
            PlaneKind::QsaBlock,
            pending.qsa_cbufs@[l],
            f.qsa_block,
        ),
        bytes.qsa_raw == 0 ==> f.qsa_raw is None,
        bytes.qsa_block == 0 ==> f.qsa_block is None,
{
    lemma_first_plane(layout.planes@, l as usize, PlaneKind::K);
    lemma_first_plane(layout.planes@, l as usize, PlaneKind::V);
    lemma_first_plane(layout.planes@, l as usize, PlaneKind::QsaRaw);
    lemma_first_plane(layout.planes@, l as usize, PlaneKind::QsaBlock);
}

/// A forked slot has the source's formats and context and nothing of its conversation.
pub proof fn law_a_fork_begins_empty(
    forked: SeamKv,
    src: SeamKv,
    caches: CacheBuffers,
    io: IoBuffers,
    prompt: Seq<u32>,
)
    requires
        forked.is_fork_of(&src, caches, io),
    ensures
        forked.caches == caches,
        forked.k_fmt == src.k_fmt && forked.v_fmt == src.v_fmt,
        forked.max_ctx == src.max_ctx && forked.kv_ring == src.kv_ring,
        forked.cached@.len() == 0,
        forked.published() is None,
        forked.checkpoint_start(prompt) is None,
        forked.segmented_kv.committed_tokens == 0,
        forked.segmented_kv.enabled == src.segmented_kv.enabled,
{
}

} // verus!
