//! Chunked prefill of one prompt: which tokens are fed in which chunk, in which order chunks and
//! layers are executed, and when a snapshot is due.

use crate::config::DType;
use crate::parallel_prefill::{GenerationPhase, GenerationProgress};
use crate::prompt::min;
use crate::rope::ImageSpan;
use vstd::prelude::*;

verus! {

/// A contiguous range of tokens that is fed in one go.
#[derive(Clone, Copy, Debug, PartialEq, Eq, Structural)]
pub struct Chunk {
    pub start: usize,
    pub end: usize,
}

/// `end`, cut back to a boundary that lies inside the chunk.
pub open spec fn cut(start: int, end: int, boundary: Option<usize>) -> int {
    match boundary {
        Some(b) => if start < b && b < end {
            b as int
        } else {
            end
        },
        None => end,
    }
}

/// Where the chunk that begins at `start` ends.
pub open spec fn chunk_end(
    start: int,
    end: int,
    ubatch: int,
    checkpoint: Option<usize>,
    sparse: Option<usize>,
) -> int {
    cut(start, cut(start, min(start + ubatch, end), checkpoint), sparse)
}

/// The chunks of the tokens from `start` to `end`.
pub open spec fn chunks_of(
    start: int,
    end: int,
    ubatch: int,
    checkpoint: Option<usize>,
    sparse: Option<usize>,
) -> Seq<Chunk>
    decreases end - start,
{
    let stop = chunk_end(start, end, ubatch, checkpoint, sparse);
    if start >= end || !(start < stop <= end) {
        Seq::empty()
    } else {
        seq![Chunk { start: start as usize, end: stop as usize }] + chunks_of(
            stop,
            end,
            ubatch,
            checkpoint,
            sparse,
        )
    }
}

fn cut_back(start: usize, end: usize, boundary: Option<usize>) -> (stop: usize)
    requires
        start < end,
    ensures
        stop == cut(start as int, end as int, boundary),
        start < stop <= end,
{
    match boundary {
        Some(b) => if start < b && b < end {
            b
        } else {
            end
        },
        None => end,
    }
}

/// Cuts the tokens from `start` to `end` into chunks of at most `ubatch` tokens. No chunk reaches
/// over the snapshot boundary, or over the depth at which attention becomes sparse.
pub fn prefill_chunks(
    start: usize,
    end: usize,
    ubatch: usize,
    checkpoint: Option<usize>,
    sparse: Option<usize>,
) -> (chunks: Vec<Chunk>)
    requires
        ubatch > 0,
        end + ubatch <= usize::MAX,
    ensures
        chunks@ == chunks_of(start as int, end as int, ubatch as int, checkpoint, sparse),
{
    let mut chunks: Vec<Chunk> = Vec::new();
    let mut at: usize = start;
    assert(chunks@ + chunks_of(at as int, end as int, ubatch as int, checkpoint, sparse)
        =~= chunks_of(at as int, end as int, ubatch as int, checkpoint, sparse));
    while at < end
        invariant
            ubatch > 0,
            end + ubatch <= usize::MAX,
            chunks@ + chunks_of(at as int, end as int, ubatch as int, checkpoint, sparse)
                == chunks_of(start as int, end as int, ubatch as int, checkpoint, sparse),
        decreases end - at,
    {
        let full: usize = if at + ubatch <= end {
            at + ubatch
        } else {
            end
        };
        let first: usize = cut_back(at, full, checkpoint);
        let stop: usize = cut_back(at, first, sparse);
        let ghost before = chunks@;
        chunks.push(Chunk { start: at, end: stop });
        proof {
            let rest = chunks_of(stop as int, end as int, ubatch as int, checkpoint, sparse);
            assert(stop == chunk_end(at as int, end as int, ubatch as int, checkpoint, sparse));
            assert(before + (seq![Chunk { start: at, end: stop }] + rest) =~= chunks@ + rest);
        }
        at = stop;
    }
    assert(chunks@ + Seq::<Chunk>::empty() =~= chunks@);
    chunks
}

/// The chunks of a prompt follow each other without gap or overlap from the first token to the
/// last, none is empty or longer than a batch, and none has the snapshot boundary or the sparse
/// depth strictly inside it.
pub proof fn law_chunks_partition_the_prompt(
    start: int,
    end: int,
    ubatch: int,
    checkpoint: Option<usize>,
    sparse: Option<usize>,
)
    requires
        0 <= start <= end <= usize::MAX,
        ubatch > 0,
    ensures
        start < end ==> chunks_of(start, end, ubatch, checkpoint, sparse).len() > 0,
        start < end ==> chunks_of(start, end, ubatch, checkpoint, sparse)[0].start == start,
        start < end ==> chunks_of(start, end, ubatch, checkpoint, sparse).last().end == end,
        start >= end ==> chunks_of(start, end, ubatch, checkpoint, sparse).len() == 0,
        forall|i: int| #![trigger chunks_of(start, end, ubatch, checkpoint, sparse)[i]]
            0 <= i < chunks_of(start, end, ubatch, checkpoint, sparse).len() ==> {
                let chunk = chunks_of(start, end, ubatch, checkpoint, sparse)[i];
                &&& start <= chunk.start < chunk.end <= end
                &&& chunk.end - chunk.start <= ubatch
                &&& !(checkpoint matches Some(b) && chunk.start < b < chunk.end)
                &&& !(sparse matches Some(b) && chunk.start < b < chunk.end)
            },
        forall|i: int| #![trigger chunks_of(start, end, ubatch, checkpoint, sparse)[i]]
            0 < i < chunks_of(start, end, ubatch, checkpoint, sparse).len() ==> chunks_of(
                start,
                end,
                ubatch,
                checkpoint,
                sparse,
            )[i].start == chunks_of(start, end, ubatch, checkpoint, sparse)[i - 1].end,
    decreases end - start,
{
    if start < end {
        let stop = chunk_end(start, end, ubatch, checkpoint, sparse);
        let rest = chunks_of(stop, end, ubatch, checkpoint, sparse);
        let all = chunks_of(start, end, ubatch, checkpoint, sparse);
        law_chunks_partition_the_prompt(stop, end, ubatch, checkpoint, sparse);
        let first = Chunk { start: start as usize, end: stop as usize };
        assert(all == seq![first] + rest);
        assert(all[0] == first);
        if stop < end {
            assert(all.last() == rest.last());
        } else {
            assert(all.last() == first);
        }
        assert forall|i: int| #![trigger all[i]] 0 <= i < all.len() implies {
            let chunk = all[i];
            &&& start <= chunk.start < chunk.end <= end
            &&& chunk.end - chunk.start <= ubatch
            &&& !(checkpoint matches Some(b) && chunk.start < b < chunk.end)
            &&& !(sparse matches Some(b) && chunk.start < b < chunk.end)
        } by {
            if i > 0 {
                assert(all[i] == rest[i - 1]);
            }
        }
        assert forall|i: int| #![trigger all[i]] 0 < i < all.len() implies all[i].start == all[i
            - 1].end by {
            assert(all[i] == rest[i - 1]);
            if i > 1 {
                assert(all[i - 1] == rest[i - 2]);
            }
        }
    }
}

/// A snapshot boundary that lies inside what is fed is the end of some chunk, so the state at the
/// boundary exists at one moment of the prefill.
pub proof fn law_checkpoint_boundary_ends_a_chunk(
    start: int,
    end: int,
    ubatch: int,
    boundary: usize,
    sparse: Option<usize>,
)
    requires
        0 <= start < boundary <= end <= usize::MAX,
        ubatch > 0,
    ensures
        exists|i: int|
            0 <= i < chunks_of(start, end, ubatch, Some(boundary), sparse).len() && (
            #[trigger] chunks_of(start, end, ubatch, Some(boundary), sparse)[i]).end == boundary,
    decreases end - start,
{
    let stop = chunk_end(start, end, ubatch, Some(boundary), sparse);
    let rest = chunks_of(stop, end, ubatch, Some(boundary), sparse);
    let all = chunks_of(start, end, ubatch, Some(boundary), sparse);
    if stop == boundary {
        assert(all[0].end == boundary);
    } else {
        law_checkpoint_boundary_ends_a_chunk(stop, end, ubatch, boundary, sparse);
        let i = choose|i: int| 0 <= i < rest.len() && (#[trigger] rest[i]).end == boundary;
        assert(all[i + 1] == rest[i]);
    }
}

/// A part of the prefill.
#[derive(Clone, Copy, Debug, PartialEq, Eq, Structural)]
pub enum PrefillWork {
    /// Allocate and fill the buffers of a chunk, without executing anything.
    Materialize { chunk: usize },
    /// Execute a span of layers for a chunk.
    Execute { span: usize, chunk: usize },
}

/// The chunks of a group, one after the other.
pub open spec fn execute_group(span: int, from: int, to: int) -> Seq<PrefillWork> {
    Seq::new(
        (if from <= to {
            to - from
        } else {
            0
        }) as nat,
        |k: int| PrefillWork::Execute { span: span as usize, chunk: (from + k) as usize },
    )
}

/// The first `n` spans of a group, one after the other.
pub open spec fn execute_spans(n: nat, from: int, to: int) -> Seq<PrefillWork>
    decreases n,
{
    if n == 0 {
        Seq::empty()
    } else {
        execute_spans((n - 1) as nat, from, to) + execute_group(n - 1, from, to)
    }
}

/// The buffers of a group, claimed before the group's first execution.
pub open spec fn materialize_group(from: int, to: int) -> Seq<PrefillWork> {
    Seq::new(
        (if from <= to {
            to - from
        } else {
            0
        }) as nat,
        |k: int| PrefillWork::Materialize { chunk: (from + k) as usize },
    )
}

/// The work of one group of chunks.
pub open spec fn group_work(spans: nat, from: int, to: int, claim: bool) -> Seq<PrefillWork> {
    (if claim && spans > 0 {
        materialize_group(from, to)
    } else {
        Seq::empty()
    }) + execute_spans(spans, from, to)
}

/// The chunks from `from` on.
pub open spec fn chunks_left(chunks: int, from: int) -> int {
    if from < chunks {
        chunks - from
    } else {
        0
    }
}

/// The work of all chunks from `from` on, group by group.
pub open spec fn work_from(
    spans: nat,
    chunks: nat,
    group: nat,
    claim: bool,
    from: int,
) -> Seq<PrefillWork>
    decreases chunks_left(chunks as int, from),
{
    if from >= chunks || group == 0 {
        Seq::empty()
    } else {
        let to = min(from + group, chunks as int);
        group_work(spans, from, to, claim) + work_from(spans, chunks, group, claim, from + group)
    }
}

fn push_group(work: &mut Vec<PrefillWork>, spans: usize, from: usize, to: usize, claim: bool)
    requires
        from <= to,
    ensures
        final(work)@ == old(work)@ + group_work(spans as nat, from as int, to as int, claim),
{
    let ghost start = work@;
    if claim && spans > 0 {
        let mut c: usize = from;
        while c < to
            invariant
                from <= c <= to,
                work@ == start + materialize_group(from as int, c as int),
            decreases to - c,
        {
            work.push(PrefillWork::Materialize { chunk: c });
            c = c + 1;
            assert(work@ =~= start + materialize_group(from as int, c as int));
        }
    }
    let ghost claimed = work@;
    let mut s: usize = 0;
    while s < spans
        invariant
            s <= spans,
            from <= to,
            work@ == claimed + execute_spans(s as nat, from as int, to as int),
        decreases spans - s,
    {
        let ghost done = work@;
        let mut c: usize = from;
        while c < to
            invariant
                from <= c <= to,
                work@ == done + execute_group(s as int, from as int, c as int),
            decreases to - c,
        {
            work.push(PrefillWork::Execute { span: s, chunk: c });
            c = c + 1;
            assert(work@ =~= done + execute_group(s as int, from as int, c as int));
        }
        s = s + 1;
        assert(work@ =~= claimed + execute_spans(s as nat, from as int, to as int));
    }
    assert(work@ =~= start + group_work(spans as nat, from as int, to as int, claim));
}

/// The order in which a prefill of `chunks` chunks executes `spans` spans of layers. Chunks go
/// through in groups of `group`; inside a group, every chunk passes a span before any chunk reaches
/// the next. With `claim`, a group's buffers are claimed before its first execution.
pub fn prefill_work(spans: usize, chunks: usize, group: usize, claim: bool) -> (work: Vec<PrefillWork>)
    requires
        group > 0,
        chunks + group <= usize::MAX,
    ensures
        work@ == work_from(spans as nat, chunks as nat, group as nat, claim, 0),
{
    let mut work: Vec<PrefillWork> = Vec::new();
    let mut from: usize = 0;
    assert(work@ + work_from(spans as nat, chunks as nat, group as nat, claim, 0) =~= work_from(
        spans as nat,
        chunks as nat,
        group as nat,
        claim,
        0,
    ));
    while from < chunks
        invariant
            group > 0,
            chunks + group <= usize::MAX,
            work@ + work_from(spans as nat, chunks as nat, group as nat, claim, from as int)
                == work_from(spans as nat, chunks as nat, group as nat, claim, 0),
        decreases chunks_left(chunks as int, from as int),
    {
        let to: usize = if from + group <= chunks {
            from + group
        } else {
            chunks
        };
        let ghost before = work@;
        push_group(&mut work, spans, from, to, claim);
        proof {
            let rest = work_from(spans as nat, chunks as nat, group as nat, claim, from + group);
            let own = group_work(spans as nat, from as int, to as int, claim);
            assert(before + (own + rest) =~= work@ + rest);
        }
        from = from + group;
    }
    assert(work@ + Seq::<PrefillWork>::empty() =~= work@);
    work
}

/// The work item executes span `s` for chunk `c`.
pub open spec fn executes(item: PrefillWork, s: int, c: int) -> bool {
    item matches PrefillWork::Execute { span, chunk } && span == s && chunk == c
}

proof fn lemma_spans_work(n: nat, from: int, to: int, s: int, c: int)
    requires
        0 <= s < n <= usize::MAX,
        0 <= from <= c < to <= usize::MAX,
    ensures
        execute_spans(n, from, to).len() == n * (to - from),
        executes(execute_spans(n, from, to)[s * (to - from) + (c - from)], s, c),
        0 <= s * (to - from) + (c - from) < execute_spans(n, from, to).len(),
    decreases n,
{
    let w = to - from;
    lemma_spans_len(n, from, to);
    lemma_spans_len((n - 1) as nat, from, to);
    assert(s * w + (c - from) < n * w) by (nonlinear_arith)
        requires
            0 <= s <= n - 1,
            0 <= c - from < w,
    ;
    assert(0 <= s * w) by (nonlinear_arith)
        requires
            s >= 0,
            w >= 0,
    ;
    let before = execute_spans((n - 1) as nat, from, to);
    if s < n - 1 {
        lemma_spans_work((n - 1) as nat, from, to, s, c);
        assert(execute_spans(n, from, to)[s * w + (c - from)] == before[s * w + (c - from)]);
    } else {
        assert(execute_spans(n, from, to)[s * w + (c - from)] == execute_group(n - 1, from, to)[c
            - from]);
    }
}

proof fn lemma_spans_len(n: nat, from: int, to: int)
    requires
        from <= to,
    ensures
        execute_spans(n, from, to).len() == n * (to - from),
    decreases n,
{
    let w = to - from;
    if n > 0 {
        lemma_spans_len((n - 1) as nat, from, to);
        assert((n - 1) * w + w == n * w) by (nonlinear_arith);
    } else {
        assert(0 * w == 0) by (nonlinear_arith);
    }
}

/// Every item of a group's spans is one of its executions, and lies where its span and chunk say.
proof fn lemma_spans_item(n: nat, from: int, to: int, i: int)
    requires
        n <= usize::MAX,
        0 <= from <= to <= usize::MAX,
        0 <= i < execute_spans(n, from, to).len(),
    ensures
        exists|s: int, c: int|
            #![trigger executes(execute_spans(n, from, to)[i], s, c)]
            0 <= s < n && from <= c < to && i == s * (to - from) + (c - from) && executes(
                execute_spans(n, from, to)[i],
                s,
                c,
            ),
    decreases n,
{
    let w = to - from;
    lemma_spans_len((n - 1) as nat, from, to);
    let before = execute_spans((n - 1) as nat, from, to);
    if i < before.len() {
        lemma_spans_item((n - 1) as nat, from, to, i);
        let (s, c) = choose|s: int, c: int|
            #![trigger executes(before[i], s, c)]
            0 <= s < n - 1 && from <= c < to && i == s * w + (c - from) && executes(
                before[i],
                s,
                c,
            );
        assert(execute_spans(n, from, to)[i] == before[i]);
        assert(executes(execute_spans(n, from, to)[i], s, c));
    } else {
        let k = i - before.len();
        let s = n - 1;
        let c = from + k;
        assert(execute_spans(n, from, to)[i] == execute_group(n - 1, from, to)[k]);
        assert(executes(execute_spans(n, from, to)[i], s, c));
    }
}

/// Where the executions of a group begin in its work.
pub open spec fn claimed_items(spans: nat, from: int, to: int, claim: bool) -> int {
    if claim && spans > 0 {
        to - from
    } else {
        0
    }
}

proof fn lemma_group_item(spans: nat, from: int, to: int, claim: bool, i: int, s: int, c: int)
    requires
        spans <= usize::MAX,
        0 <= from <= to <= usize::MAX,
        0 <= i < group_work(spans, from, to, claim).len(),
        executes(group_work(spans, from, to, claim)[i], s, c),
    ensures
        0 <= s < spans,
        from <= c < to,
        i == claimed_items(spans, from, to, claim) + s * (to - from) + (c - from),
{
    let k = claimed_items(spans, from, to, claim);
    if i >= k {
        lemma_spans_item(spans, from, to, i - k);
        assert(group_work(spans, from, to, claim)[i] == execute_spans(spans, from, to)[i - k]);
    } else {
        assert(group_work(spans, from, to, claim)[i] == materialize_group(from, to)[i]);
    }
}

/// The executions of the work from `from` on are of chunks from `from` on, and two executions of
/// one span stand in the order of their chunks, two of one chunk in the order of their spans.
proof fn lemma_work_order(
    spans: nat,
    chunks: nat,
    group: nat,
    claim: bool,
    from: int,
    i: int,
    j: int,
    s: int,
    c: int,
    s2: int,
    c2: int,
)
    requires
        spans <= usize::MAX,
        chunks <= usize::MAX,
        group > 0,
        0 <= from,
        0 <= i < work_from(spans, chunks, group, claim, from).len(),
        0 <= j < work_from(spans, chunks, group, claim, from).len(),
        executes(work_from(spans, chunks, group, claim, from)[i], s, c),
        executes(work_from(spans, chunks, group, claim, from)[j], s2, c2),
    ensures
        0 <= s < spans,
        from <= c < chunks,
        0 <= s2 < spans,
        from <= c2 < chunks,
        s == s2 && c < c2 ==> i < j,
        c == c2 && s < s2 ==> i < j,
        s == s2 && c == c2 ==> i == j,
    decreases chunks_left(chunks as int, from),
{
    let to = min(from + group, chunks as int);
    let own = group_work(spans, from, to, claim);
    let rest = work_from(spans, chunks, group, claim, from + group);
    let all = work_from(spans, chunks, group, claim, from);
    assert(all == own + rest);
    let w = to - from;
    if i < own.len() {
        assert(all[i] == own[i]);
        lemma_group_item(spans, from, to, claim, i, s, c);
    } else {
        assert(all[i] == rest[i - own.len()]);
        lemma_work_order(
            spans,
            chunks,
            group,
            claim,
            from + group,
            i - own.len(),
            i - own.len(),
            s,
            c,
            s,
            c,
        );
    }
    if j < own.len() {
        assert(all[j] == own[j]);
        lemma_group_item(spans, from, to, claim, j, s2, c2);
    } else {
        assert(all[j] == rest[j - own.len()]);
        lemma_work_order(
            spans,
            chunks,
            group,
            claim,
            from + group,
            j - own.len(),
            j - own.len(),
            s2,
            c2,
            s2,
            c2,
        );
    }
    if i < own.len() && j < own.len() {
        assert(c == c2 && s < s2 ==> s * w + (c - from) < s2 * w + (c2 - from)) by (nonlinear_arith)
            requires
                w > 0,
        ;
        assert(s == s2 ==> s * w == s2 * w);
    } else if i >= own.len() && j >= own.len() {
        lemma_work_order(
            spans,
            chunks,
            group,
            claim,
            from + group,
            i - own.len(),
            j - own.len(),
            s,
            c,
            s2,
            c2,
        );
    }
}

proof fn lemma_work_covers(
    spans: nat,
    chunks: nat,
    group: nat,
    claim: bool,
    from: int,
    s: int,
    c: int,
)
    requires
        spans <= usize::MAX,
        chunks <= usize::MAX,
        group > 0,
        0 <= from <= c < chunks,
        0 <= s < spans,
    ensures
        exists|i: int|
            0 <= i < work_from(spans, chunks, group, claim, from).len() && executes(
                #[trigger] work_from(spans, chunks, group, claim, from)[i],
                s,
                c,
            ),
    decreases chunks_left(chunks as int, from),
{
    let to = min(from + group, chunks as int);
    let own = group_work(spans, from, to, claim);
    let rest = work_from(spans, chunks, group, claim, from + group);
    let all = work_from(spans, chunks, group, claim, from);
    assert(all == own + rest);
    if c < to {
        lemma_spans_work(spans, from, to, s, c);
        let k = claimed_items(spans, from, to, claim);
        let at = s * (to - from) + (c - from);
        assert(own[k + at] == execute_spans(spans, from, to)[at]);
        assert(all[k + at] == own[k + at]);
        assert(executes(all[k + at], s, c));
    } else {
        lemma_work_covers(spans, chunks, group, claim, from + group, s, c);
        let i = choose|i: int| 0 <= i < rest.len() && executes(#[trigger] rest[i], s, c);
        assert(all[own.len() + i] == rest[i]);
    }
}

/// Every chunk passes every span of layers exactly once. Chunks reach a span in ascending order, so
/// that all earlier positions are written when a chunk attends to them, and a chunk passes its spans
/// in ascending order, so that each reads what the one before left.
pub proof fn law_prefill_order_is_causal(
    spans: nat,
    chunks: nat,
    group: nat,
    claim: bool,
    s: int,
    c: int,
)
    requires
        spans <= usize::MAX,
        chunks <= usize::MAX,
        group > 0,
        0 <= s < spans,
        0 <= c < chunks,
    ensures
        exists|i: int|
            0 <= i < work_from(spans, chunks, group, claim, 0).len() && executes(
                #[trigger] work_from(spans, chunks, group, claim, 0)[i],
                s,
                c,
            ),
        forall|i: int, j: int, s2: int, c2: int|
            #![trigger
                executes(work_from(spans, chunks, group, claim, 0)[i], s, c),
                executes(work_from(spans, chunks, group, claim, 0)[j], s2, c2)
            ]
            0 <= i < work_from(spans, chunks, group, claim, 0).len() && 0 <= j < work_from(
                spans,
                chunks,
                group,
                claim,
                0,
            ).len() && executes(work_from(spans, chunks, group, claim, 0)[i], s, c) && executes(
                work_from(spans, chunks, group, claim, 0)[j],
                s2,
                c2,
            ) ==> {
                &&& (s == s2 && c < c2 ==> i < j)
                &&& (c == c2 && s < s2 ==> i < j)
                &&& (s == s2 && c == c2 ==> i == j)
            },
{
    let all = work_from(spans, chunks, group, claim, 0);
    lemma_work_covers(spans, chunks, group, claim, 0, s, c);
    assert forall|i: int, j: int, s2: int, c2: int|
        #![trigger executes(all[i], s, c), executes(all[j], s2, c2)]
        0 <= i < all.len() && 0 <= j < all.len() && executes(all[i], s, c) && executes(
            all[j],
            s2,
            c2,
        ) implies {
        &&& (s == s2 && c < c2 ==> i < j)
        &&& (c == c2 && s < s2 ==> i < j)
        &&& (s == s2 && c == c2 ==> i == j)
    } by {
        lemma_work_order(spans, chunks, group, claim, 0, i, j, s, c, s2, c2);
    }
}

/// The spans of layers that a prefill executes: each layer on its own, or the whole model at once.
pub open spec fn spans_of(n_layer: usize, layer_major: bool) -> Seq<Chunk> {
    if layer_major {
        Seq::new(n_layer as nat, |l: int| Chunk { start: l as usize, end: (l + 1) as usize })
    } else {
        seq![Chunk { start: 0, end: n_layer }]
    }
}

/// See [`spans_of`].
pub fn layer_spans(n_layer: usize, layer_major: bool) -> (spans: Vec<Chunk>)
    ensures
        spans@ == spans_of(n_layer, layer_major),
        spans@ == (if layer_major {
            Seq::new(
                n_layer as nat,
                |l: int| Chunk { start: l as usize, end: (l + 1) as usize },
            )
        } else {
            seq![Chunk { start: 0, end: n_layer }]
        }),
{
    let mut spans: Vec<Chunk> = Vec::new();
    if layer_major {
        let mut l: usize = 0;
        while l < n_layer
            invariant
                l <= n_layer,
                spans@ == Seq::new(
                    l as nat,
                    |k: int| Chunk { start: k as usize, end: (k + 1) as usize },
                ),
            decreases n_layer - l,
        {
            spans.push(Chunk { start: l, end: l + 1 });
            l = l + 1;
            assert(spans@ =~= Seq::new(
                l as nat,
                |k: int| Chunk { start: k as usize, end: (k + 1) as usize },
            ));
        }
    } else {
        spans.push(Chunk { start: 0, end: n_layer });
        assert(spans@ =~= seq![Chunk { start: 0, end: n_layer }]);
    }
    spans
}

/// The chunks that go through the layers together.
pub fn group_size(layer_major: bool, qwen4exp: bool, bounded: usize, chunks: usize) -> (group: usize)
    ensures
        group == (if layer_major && qwen4exp {
            bounded
        } else if chunks >= 1 {
            chunks
        } else {
            1
        }),
{
    if layer_major && qwen4exp {
        bounded
    } else if chunks >= 1 {
        chunks
    } else {
        1
    }
}

/// The snapshot that is due after an execution.
#[derive(Clone, Copy, Debug, PartialEq, Eq, Structural)]
pub enum SnapshotDue {
    Nothing,
    /// The layer that was executed, and with it the model-level history where the layer updates it.
    Layer { layer: usize, ple: bool },
    /// Every recurrent layer and the model-level history.
    Everything,
}

/// The snapshot that is due after a span of layers was executed for a chunk that ends at `end`.
/// Layer by layer, each layer is captured at the moment when it reaches the boundary.
pub open spec fn due_after(
    end: usize,
    boundary: Option<usize>,
    layer_major: bool,
    span_start: usize,
    qwen4exp: bool,
    span_has_ple: bool,
) -> SnapshotDue {
    if boundary != Some(end) {
        SnapshotDue::Nothing
    } else if layer_major {
        SnapshotDue::Layer { layer: span_start, ple: qwen4exp && span_has_ple }
    } else {
        SnapshotDue::Everything
    }
}

/// See [`due_after`].
pub fn snapshot_due(
    end: usize,
    boundary: Option<usize>,
    layer_major: bool,
    span_start: usize,
    qwen4exp: bool,
    span_has_ple: bool,
) -> (due: SnapshotDue)
    ensures
        due == due_after(end, boundary, layer_major, span_start, qwen4exp, span_has_ple),
        due == (if boundary != Some(end) {
            SnapshotDue::Nothing
        } else if layer_major {
            SnapshotDue::Layer { layer: span_start, ple: qwen4exp && span_has_ple }
        } else {
            SnapshotDue::Everything
        }),
{
    match boundary {
        Some(b) => {
            if b != end {
                SnapshotDue::Nothing
            } else if layer_major {
                SnapshotDue::Layer { layer: span_start, ple: qwen4exp && span_has_ple }
            } else {
                SnapshotDue::Everything
            }
        },
        None => SnapshotDue::Nothing,
    }
}

/// The formats that a row-aware kernel reads.
pub open spec fn native_rows(dtype: DType) -> bool {
    dtype == DType::F16 || dtype == DType::Q8_0
}

/// Whether a model can be fed in batches.
pub fn batched_prefill_ok(
    qwen4exp: bool,
    deepseek4: bool,
    k: DType,
    v: DType,
    moe: bool,
    moe_paged: bool,
    moe_batched_ok: bool,
) -> (ok: bool)
    ensures
        ok == (if qwen4exp {
            native_rows(k) && native_rows(v) && (moe_paged || moe_batched_ok)
        } else {
            (!moe || moe_batched_ok) && !deepseek4
        }),
{
    if qwen4exp {
        (k == DType::F16 || k == DType::Q8_0) && (v == DType::F16 || v == DType::Q8_0) && (moe_paged
            || moe_batched_ok)
    } else {
        (!moe || moe_batched_ok) && !deepseek4
    }
}

/// Where token-by-token feeding begins: after the batched part, which leaves the last prompt token,
/// or at the start where there is too little to batch or the model cannot be.
pub fn decode_start(prompt_len: usize, start: usize, batched_ok: bool) -> (at: usize)
    requires
        start <= prompt_len,
    ensures
        at == (if prompt_len - start > 2 && batched_ok {
            prompt_len - 1
        } else {
            start as int
        }),
{
    if prompt_len - start > 2 && batched_ok {
        prompt_len - 1
    } else {
        start
    }
}

/// The rows of a chunk: fewer where the device is shared.
pub fn chunk_rows(shares_gpu: bool, ubatch: usize, ubatch_parallel: usize) -> (rows: usize)
    ensures
        rows == (if shares_gpu {
            min(ubatch as int, ubatch_parallel as int)
        } else {
            ubatch as int
        }),
{
    if shares_gpu && ubatch_parallel < ubatch {
        ubatch_parallel
    } else {
        ubatch
    }
}

/// The image covers a token of the chunk.
pub open spec fn overlaps(span: ImageSpan, chunk: Chunk) -> bool {
    span.start < chunk.end && span.start + span.n_tokens > chunk.start
}

/// Whether a chunk holds any token of an image.
pub fn chunk_has_image(spans: &Vec<ImageSpan>, chunk: Chunk) -> (has: bool)
    ensures
        has == exists|i: int| 0 <= i < spans@.len() && overlaps(#[trigger] spans@[i], chunk),
{
    let mut i: usize = 0;
    while i < spans.len()
        invariant
            i <= spans@.len(),
            forall|j: int| 0 <= j < i ==> !overlaps(#[trigger] spans@[j], chunk),
        decreases spans@.len() - i,
    {
        let span: ImageSpan = spans[i];
        if span.start < chunk.end && (span.start > chunk.start || span.n_tokens > chunk.start
            - span.start) {
            assert(overlaps(spans@[i as int], chunk));
            return true;
        }
        i = i + 1;
    }
    false
}

/// What [`generation_progress`] reports.
pub open spec fn progress_of(
    phase: GenerationPhase,
    prompt_len: usize,
    start: usize,
    prefill_tokens: usize,
    completion_tokens: usize,
    context_limit: usize,
) -> GenerationProgress {
    GenerationProgress {
        phase,
        prompt_tokens: prompt_len as u64,
        cached_prompt_tokens: start as u64,
        prefill_tokens: min(
            prefill_tokens as int,
            if prompt_len >= start {
                prompt_len - start
            } else {
                0
            },
        ) as u64,
        completion_tokens: completion_tokens as u64,
        context_tokens: (match phase {
            GenerationPhase::Prefill => min(
                min(start + prefill_tokens, usize::MAX as int),
                prompt_len as int,
            ),
            GenerationPhase::Decode => min(prompt_len + completion_tokens, usize::MAX as int),
        }) as u64,
        context_limit: context_limit as u64,
    }
}

/// How far a request has come. `prefill_tokens` are the prompt tokens fed in this call,
/// `completion_tokens` the tokens generated.
pub fn generation_progress(
    phase: GenerationPhase,
    prompt_len: usize,
    start: usize,
    prefill_tokens: usize,
    completion_tokens: usize,
    context_limit: usize,
) -> (progress: GenerationProgress)
    ensures
        progress == progress_of(
            phase,
            prompt_len,
            start,
            prefill_tokens,
            completion_tokens,
            context_limit,
        ),
{
    let work: usize = prompt_len.saturating_sub(start);
    let context: usize = match phase {
        GenerationPhase::Prefill => {
            let fed: usize = start.saturating_add(prefill_tokens);
            if fed <= prompt_len {
                fed
            } else {
                prompt_len
            }
        },
        GenerationPhase::Decode => prompt_len.saturating_add(completion_tokens),
    };
    GenerationProgress {
        phase,
        prompt_tokens: prompt_len as u64,
        cached_prompt_tokens: start as u64,
        prefill_tokens: (if prefill_tokens <= work {
            prefill_tokens
        } else {
            work
        }) as u64,
        completion_tokens: completion_tokens as u64,
        context_tokens: context as u64,
        context_limit: context_limit as u64,
    }
}

/// While a prompt is fed, a report never counts more than the prompt has, and its context is what
/// was resident at the start and what was fed since.
pub proof fn law_progress_stays_within_the_prompt(
    prompt_len: usize,
    start: usize,
    prefill_tokens: usize,
    context_limit: usize,
)
    requires
        start <= prompt_len,
    ensures
        ({
            let report = progress_of(
                GenerationPhase::Prefill,
                prompt_len,
                start,
                prefill_tokens,
                0,
                context_limit,
            );
            &&& report.cached_prompt_tokens + report.prefill_tokens == report.context_tokens
            &&& report.context_tokens <= report.prompt_tokens
        }),
{
}

} // verus!
