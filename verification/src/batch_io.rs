//! What the buffers of a batch hold: how large they are, where each embedded row comes from, and
//! which positions its rows have.

use crate::config::Config;
use crate::device::{AllocRequest, BufferUsage};
use crate::prefill::Chunk;
use crate::rope::{plan_refused, spans_refused, ImageSpan, MropePlan};
use vstd::prelude::*;

verus! {

/// A buffer of `words` words of four bytes.
pub open spec fn word_buffer(words: int, usage: BufferUsage) -> AllocRequest {
    AllocRequest::Fixed { bytes: (words * 4) as usize, usage }
}

fn words(count: usize, usage: BufferUsage) -> (r: AllocRequest)
    requires
        count * 4 <= usize::MAX,
    ensures
        r == word_buffer(count as int, usage),
{
    AllocRequest::Fixed { bytes: count * 4, usage }
}

/// The n-gram embedding values of one token.
pub open spec fn ple_row(cfg: Config) -> int {
    (cfg.ple_ngram_size - 1) * cfg.ple_heads_per_ngram * cfg.ple_head_dim
}

/// The buffers of a batch of `rows` rows fit the machine.
pub open spec fn batch_fits(cfg: Config, rows: int) -> bool {
    &&& rows * 16 <= usize::MAX
    &&& rows * cfg.n_embd * 4 <= usize::MAX
    &&& rows * cfg.vocab * 4 <= usize::MAX
    &&& cfg.qwen4exp ==> {
        &&& rows * cfg.hc_mult <= usize::MAX
        &&& rows * cfg.hc_mult * cfg.n_embd <= usize::MAX
        &&& rows * cfg.hc_mult * cfg.n_embd * 4 <= usize::MAX
        &&& cfg.ple_ngram_size >= 1
        &&& (cfg.ple_ngram_size - 1) * cfg.ple_heads_per_ngram <= usize::MAX
        &&& ple_row(cfg) <= usize::MAX
        &&& rows * ple_row(cfg) <= usize::MAX
        &&& rows * ple_row(cfg) * 4 <= usize::MAX
    }
}

/// The buffers of one chunk of a prompt.
#[derive(Clone, Copy, Debug, PartialEq, Eq, Structural)]
pub struct ChunkRequests {
    /// Token ids where the device embeds the chunk; the embedded rows otherwise.
    pub input: AllocRequest,
    /// The residual rows, where the input does not hold them.
    pub resid: Option<AllocRequest>,
    pub pos: AllocRequest,
    pub pos4: Option<AllocRequest>,
    pub wide: Option<AllocRequest>,
    pub ple_embd: Option<AllocRequest>,
}

/// See [`ChunkRequests`].
pub open spec fn chunk_buffers(cfg: Config, rows: int, embeds: bool, images: bool) ->
    ChunkRequests {
    ChunkRequests {
        input: if embeds {
            word_buffer(rows, BufferUsage::Staging)
        } else {
            word_buffer(rows * cfg.n_embd, BufferUsage::Staging)
        },
        resid: if embeds {
            Some(word_buffer(rows * cfg.n_embd, BufferUsage::Activations))
        } else {
            None
        },
        pos: word_buffer(rows, BufferUsage::Staging),
        pos4: if images {
            Some(word_buffer(rows * 4, BufferUsage::Staging))
        } else {
            None
        },
        wide: if cfg.qwen4exp {
            Some(word_buffer(rows * cfg.hc_mult * cfg.n_embd, BufferUsage::Activations))
        } else {
            None
        },
        ple_embd: if cfg.qwen4exp {
            Some(word_buffer(rows * ple_row(cfg), BufferUsage::Staging))
        } else {
            None
        },
    }
}

/// The elements of all residual streams of a batch.
fn wide_elems(cfg: &Config, rows: usize) -> (n: usize)
    requires
        cfg.qwen4exp,
        batch_fits(*cfg, rows as int),
    ensures
        n == rows * cfg.hc_mult * cfg.n_embd,
        n * 4 <= usize::MAX,
{
    rows * cfg.hc_mult * cfg.n_embd
}

/// The n-gram embedding values of `rows` tokens can be counted.
pub open spec fn ple_countable(cfg: Config, rows: int) -> bool {
    &&& cfg.ple_ngram_size >= 1
    &&& (cfg.ple_ngram_size - 1) * cfg.ple_heads_per_ngram <= usize::MAX
    &&& ple_row(cfg) <= usize::MAX
    &&& rows * ple_row(cfg) <= usize::MAX
}

/// The n-gram embedding values of `rows` tokens.
pub fn ple_values(cfg: &Config, rows: usize) -> (n: usize)
    requires
        ple_countable(*cfg, rows as int),
    ensures
        n == rows * ple_row(*cfg),
{
    proof {
        assert((cfg.ple_ngram_size - 1) * cfg.ple_heads_per_ngram >= 0) by (nonlinear_arith)
            requires
                cfg.ple_ngram_size >= 1,
                cfg.ple_heads_per_ngram >= 0,
        ;
        let heads = (cfg.ple_ngram_size - 1) * cfg.ple_heads_per_ngram;
        assert(heads * cfg.ple_head_dim >= 0) by (nonlinear_arith)
            requires
                heads >= 0,
                cfg.ple_head_dim >= 0,
        ;
        assert(rows * ple_row(*cfg) >= 0) by (nonlinear_arith)
            requires
                rows >= 0,
                ple_row(*cfg) >= 0,
        ;
    }
    let heads: usize = (cfg.ple_ngram_size - 1) * cfg.ple_heads_per_ngram;
    let row: usize = heads * cfg.ple_head_dim;
    rows * row
}

proof fn lemma_rows_fit(cfg: Config, rows: int)
    requires
        rows >= 0,
        batch_fits(cfg, rows),
    ensures
        0 <= rows * cfg.n_embd <= usize::MAX,
        0 <= rows * cfg.vocab <= usize::MAX,
{
    assert(0 <= rows * cfg.n_embd) by (nonlinear_arith)
        requires
            rows >= 0,
            cfg.n_embd >= 0,
    ;
    assert(0 <= rows * cfg.vocab) by (nonlinear_arith)
        requires
            rows >= 0,
            cfg.vocab >= 0,
    ;
}

/// The buffers of a chunk of `rows` tokens. With `embeds` the device embeds it; with `images` the
/// request has positions of four components.
pub fn chunk_requests(cfg: &Config, rows: usize, embeds: bool, images: bool) -> (r: ChunkRequests)
    requires
        batch_fits(*cfg, rows as int),
    ensures
        r == chunk_buffers(*cfg, rows as int, embeds, images),
{
    proof {
        lemma_rows_fit(*cfg, rows as int);
    }
    let hidden: usize = rows * cfg.n_embd;
    ChunkRequests {
        input: if embeds {
            words(rows, BufferUsage::Staging)
        } else {
            words(hidden, BufferUsage::Staging)
        },
        resid: if embeds {
            Some(words(hidden, BufferUsage::Activations))
        } else {
            None
        },
        pos: words(rows, BufferUsage::Staging),
        pos4: if images {
            Some(words(rows * 4, BufferUsage::Staging))
        } else {
            None
        },
        wide: if cfg.qwen4exp {
            Some(words(wide_elems(cfg, rows), BufferUsage::Activations))
        } else {
            None
        },
        ple_embd: if cfg.qwen4exp {
            Some(words(ple_values(cfg, rows), BufferUsage::Staging))
        } else {
            None
        },
    }
}

/// The buffers of a batch over several sessions.
#[derive(Clone, Copy, Debug, PartialEq, Eq, Structural)]
pub struct CohortRequests {
    pub ids: AllocRequest,
    pub pos: AllocRequest,
    pub hidden: AllocRequest,
    pub wide: AllocRequest,
    pub ple_embd: AllocRequest,
}

/// See [`CohortRequests`].
pub open spec fn cohort_buffers(cfg: Config, rows: int) -> CohortRequests {
    CohortRequests {
        ids: word_buffer(rows, BufferUsage::Staging),
        pos: word_buffer(rows, BufferUsage::Staging),
        hidden: word_buffer(rows * cfg.n_embd, BufferUsage::Activations),
        wide: word_buffer(rows * cfg.hc_mult * cfg.n_embd, BufferUsage::Activations),
        ple_embd: word_buffer(rows * ple_row(cfg), BufferUsage::Staging),
    }
}

/// The buffers of a batch of `rows` rows over several sessions.
pub fn cohort_requests(cfg: &Config, rows: usize) -> (r: CohortRequests)
    requires
        cfg.qwen4exp,
        batch_fits(*cfg, rows as int),
    ensures
        r == cohort_buffers(*cfg, rows as int),
{
    proof {
        lemma_rows_fit(*cfg, rows as int);
    }
    CohortRequests {
        ids: words(rows, BufferUsage::Staging),
        pos: words(rows, BufferUsage::Staging),
        hidden: words(rows * cfg.n_embd, BufferUsage::Activations),
        wide: words(wide_elems(cfg, rows), BufferUsage::Activations),
        ple_embd: words(ple_values(cfg, rows), BufferUsage::Staging),
    }
}

/// The buffers that the tokens of a batch are sampled with.
#[derive(Clone, Copy, Debug, PartialEq, Eq, Structural)]
pub struct SampleRequests {
    pub logits: AllocRequest,
    /// The tokens that the device chose.
    pub chosen: AllocRequest,
    /// The uniform draws it chooses them with.
    pub uniforms: AllocRequest,
}

/// The buffers that the tokens of `rows` lanes are sampled with.
pub fn sample_requests(cfg: &Config, rows: usize) -> (r: SampleRequests)
    requires
        batch_fits(*cfg, rows as int),
    ensures
        r.logits == word_buffer(rows * cfg.vocab, BufferUsage::Activations),
        r.chosen == word_buffer(rows as int, BufferUsage::Readback),
        r.uniforms == word_buffer(rows as int, BufferUsage::Staging),
{
    proof {
        lemma_rows_fit(*cfg, rows as int);
    }
    SampleRequests {
        logits: words(rows * cfg.vocab, BufferUsage::Activations),
        chosen: words(rows, BufferUsage::Readback),
        uniforms: words(rows, BufferUsage::Staging),
    }
}

/// Where an embedded row comes from.
#[derive(Clone, Copy, Debug, PartialEq, Eq, Structural)]
pub enum RowSource {
    /// The token's row of the embedding table.
    Token { id: u32 },
    /// A row of an image.
    Image { span: usize, row: usize },
}

/// The image covers the position.
pub open spec fn covers(span: ImageSpan, pos: int) -> bool {
    span.start <= pos < span.start + span.n_tokens
}

/// The first image that covers the position is `i`.
pub open spec fn first_cover(spans: Seq<ImageSpan>, pos: int, i: int) -> bool {
    &&& 0 <= i < spans.len()
    &&& covers(spans[i], pos)
    &&& forall|j: int| 0 <= j < i ==> !covers(#[trigger] spans[j], pos)
}

/// The last image that covers the position is `i`.
pub open spec fn last_cover(spans: Seq<ImageSpan>, pos: int, i: int) -> bool {
    &&& 0 <= i < spans.len()
    &&& covers(spans[i], pos)
    &&& forall|j: int| i < j < spans.len() ==> !covers(#[trigger] spans[j], pos)
}

/// No image covers the position.
pub open spec fn uncovered(spans: Seq<ImageSpan>, pos: int) -> bool {
    forall|j: int| 0 <= j < spans.len() ==> !covers(#[trigger] spans[j], pos)
}

fn is_covered(span: ImageSpan, pos: usize) -> (b: bool)
    ensures
        b == covers(span, pos as int),
{
    pos >= span.start && pos - span.start < span.n_tokens
}

/// Where the row of a single step comes from: the first image that covers its position, or else the
/// token's row.
pub fn step_source(spans: &Vec<ImageSpan>, id: u32, pos: usize) -> (source: RowSource)
    ensures
        source matches RowSource::Image { span, row } ==> first_cover(
            spans@,
            pos as int,
            span as int,
        ) && row == pos - spans@[span as int].start,
        source matches RowSource::Token { id: token } ==> token == id && uncovered(
            spans@,
            pos as int,
        ),
{
    let mut i: usize = 0;
    while i < spans.len()
        invariant
            i <= spans@.len(),
            forall|j: int| 0 <= j < i ==> !covers(#[trigger] spans@[j], pos as int),
        decreases spans@.len() - i,
    {
        if is_covered(spans[i], pos) {
            return RowSource::Image { span: i, row: pos - spans[i].start };
        }
        i = i + 1;
    }
    RowSource::Token { id }
}

/// The source of a chunk's row: the last image that covers its position, or else the token's row.
pub open spec fn chunk_source(
    spans: Seq<ImageSpan>,
    id: u32,
    pos: int,
    source: RowSource,
) -> bool {
    match source {
        RowSource::Image { span, row } => last_cover(spans, pos, span as int) && row == pos
            - spans[span as int].start,
        RowSource::Token { id: token } => token == id && uncovered(spans, pos),
    }
}

/// Where the rows of a chunk come from. A later image replaces what an earlier one put there.
pub fn chunk_sources(prompt: &[u32], chunk: Chunk, spans: &Vec<ImageSpan>) -> (sources: Vec<
    RowSource,
>)
    requires
        chunk.start <= chunk.end <= prompt@.len(),
    ensures
        sources@.len() == chunk.end - chunk.start,
        forall|k: int|
            0 <= k < sources@.len() ==> chunk_source(
                spans@,
                prompt@[chunk.start + k],
                chunk.start + k,
                #[trigger] sources@[k],
            ),
{
    let mut sources: Vec<RowSource> = Vec::new();
    let mut pos: usize = chunk.start;
    while pos < chunk.end
        invariant
            chunk.start <= pos <= chunk.end <= prompt@.len(),
            sources@.len() == pos - chunk.start,
            forall|k: int|
                0 <= k < sources@.len() ==> chunk_source(
                    spans@,
                    prompt@[chunk.start + k],
                    chunk.start + k,
                    #[trigger] sources@[k],
                ),
        decreases chunk.end - pos,
    {
        let id: u32 = prompt[pos];
        let mut source: RowSource = RowSource::Token { id };
        let mut i: usize = 0;
        while i < spans.len()
            invariant
                i <= spans@.len(),
                pos < chunk.end <= prompt@.len(),
                id == prompt@[pos as int],
                chunk_source(spans@.take(i as int), id, pos as int, source),
            decreases spans@.len() - i,
        {
            let ghost before = spans@.take(i as int);
            let ghost last = source;
            if is_covered(spans[i], pos) {
                source = RowSource::Image { span: i, row: pos - spans[i].start };
            }
            proof {
                let after = spans@.take(i + 1);
                assert(after[i as int] == spans@[i as int]);
                assert forall|j: int| 0 <= j < i implies after[j] == before[j] by {}
                if !covers(spans@[i as int], pos as int) {
                    assert(source == last);
                    match source {
                        RowSource::Image { span, row } => {
                            assert forall|j: int| span < j < after.len() implies !covers(
                                #[trigger] after[j],
                                pos as int,
                            ) by {
                                if j < i {
                                    assert(!covers(before[j], pos as int));
                                }
                            }
                        },
                        RowSource::Token { .. } => {
                            assert forall|j: int| 0 <= j < after.len() implies !covers(
                                #[trigger] after[j],
                                pos as int,
                            ) by {
                                if j < i {
                                    assert(!covers(before[j], pos as int));
                                }
                            }
                        },
                    }
                }
            }
            i = i + 1;
        }
        assert(spans@.take(spans@.len() as int) =~= spans@);
        sources.push(source);
        pos = pos + 1;
    }
    sources
}

/// The logical position of a token: the first component of its row where the request has images, and
/// its place otherwise.
pub open spec fn logical_position(table: Option<Seq<i32>>, pos: int) -> int {
    match table {
        Some(t) => t[pos * 4] as int,
        None => pos,
    }
}

/// The logical positions of a chunk's rows. Behind an image they differ from the rows' places.
pub fn logical_positions(table: Option<&Vec<i32>>, chunk: Chunk) -> (positions: Vec<i32>)
    requires
        chunk.start <= chunk.end,
        table is None ==> chunk.end <= i32::MAX,
        table matches Some(t) ==> chunk.end * 4 <= t@.len(),
    ensures
        positions@.len() == chunk.end - chunk.start,
        forall|k: int|
            0 <= k < positions@.len() ==> #[trigger] positions@[k] == logical_position(
                match table {
                    Some(t) => Some(t@),
                    None => None,
                },
                chunk.start + k,
            ),
{
    let mut positions: Vec<i32> = Vec::new();
    let mut pos: usize = chunk.start;
    while pos < chunk.end
        invariant
            chunk.start <= pos <= chunk.end,
            table is None ==> chunk.end <= i32::MAX,
            table matches Some(t) ==> chunk.end * 4 <= t@.len(),
            positions@.len() == pos - chunk.start,
            forall|k: int|
                0 <= k < positions@.len() ==> #[trigger] positions@[k] == logical_position(
                    match table {
                        Some(t) => Some(t@),
                        None => None,
                    },
                    chunk.start + k,
                ),
        decreases chunk.end - pos,
    {
        let position: i32 = match table {
            Some(t) => {
                assert(t@.len() == t.len());
                t[pos * 4]
            },
            None => pos as i32,
        };
        positions.push(position);
        pos = pos + 1;
    }
    positions
}

proof fn lemma_spans_in_order(
    spans: Seq<ImageSpan>,
    n: nat,
    prompt_len: usize,
    n_embd: usize,
    i: int,
    j: int,
)
    requires
        n <= spans.len(),
        spans_refused(spans, n, prompt_len, n_embd) is None,
        0 <= i < j < n,
    ensures
        spans[i].start + spans[i].n_tokens <= spans[j].start,
    decreases n,
{
    if j < n - 1 {
        lemma_spans_in_order(spans, (n - 1) as nat, prompt_len, n_embd, i, j);
    } else if i < j - 1 {
        lemma_spans_in_order(spans, (n - 1) as nat, prompt_len, n_embd, i, j - 1);
    }
}

/// The images of an accepted plan do not overlap, so that a step and a chunk take a row from the same
/// place.
pub proof fn law_steps_and_chunks_agree(
    plan: MropePlan,
    supported: bool,
    prompt_len: usize,
    sections: [u32; 4],
    n_embd: usize,
    pos: int,
    first: int,
    last: int,
)
    requires
        plan_refused(plan, supported, prompt_len, sections, n_embd) is None,
        first_cover(plan.spans@, pos, first),
        last_cover(plan.spans@, pos, last),
    ensures
        first == last,
{
    let spans = plan.spans@;
    if first < last {
        lemma_spans_in_order(spans, spans.len(), prompt_len, n_embd, first, last);
    }
    if last < first {
        assert(!covers(spans[last], pos));
    }
}

} // verus!
