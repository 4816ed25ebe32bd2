//! Four-dimensional rotary positions of multimodal prompts.

use crate::error::Error;
use vstd::arithmetic::div_mod::*;
use vstd::prelude::*;

verus! {

/// The plane that a rotary sector reads its position from: the first three planes are interleaved
/// as far as their widths reach, the rest falls to the fourth.
pub open spec fn plane_of(sector: int, sections: [u32; 4]) -> int {
    if sector % 3 == 1 && sector < 3 * sections@[1] {
        1
    } else if sector % 3 == 2 && sector < 3 * sections@[2] {
        2
    } else if sector % 3 == 0 && sector < 3 * sections@[0] {
        0
    } else {
        3
    }
}

/// The sum of the section widths.
pub open spec fn section_total(sections: [u32; 4]) -> int {
    sections@[0] + sections@[1] + sections@[2] + sections@[3]
}

/// The rows from `start` are those of a one-dimensional rotation: each row's first position is one
/// more than the row before, and every plane that a pair of a row reads holds that position too.
pub open spec fn plain_rows(
    positions4: Seq<i32>,
    start: int,
    rows: int,
    sections: [u32; 4],
    rope_pairs: int,
) -> bool {
    let first = positions4[start * 4];
    forall|r: int| #![trigger positions4[(start + r) * 4]]
        0 <= r < rows ==> plain_row(positions4, start + r, first + r, sections, rope_pairs)
}

/// One row of [`plain_rows`] at the position `at`.
pub open spec fn plain_row(
    positions4: Seq<i32>,
    row: int,
    at: int,
    sections: [u32; 4],
    rope_pairs: int,
) -> bool {
    &&& positions4[row * 4] == at
    &&& forall|pair: int|
        0 <= pair < rope_pairs ==> positions4[row * 4 + #[trigger] plane_of(
            pair % section_total(sections),
            sections,
        )] == at
}

/// Whether a slice of rows is exactly a one-dimensional rotation, from a position that is not
/// negative.
pub open spec fn is_plain_rope(
    positions4: Seq<i32>,
    start: int,
    rows: int,
    sections: [u32; 4],
    rope_pairs: int,
) -> bool {
    &&& rows > 0
    &&& rope_pairs > 0
    &&& (start + rows) * 4 <= positions4.len()
    &&& section_total(sections) > 0
    &&& positions4[start * 4] >= 0
    &&& plain_rows(positions4, start, rows, sections, rope_pairs)
}

fn row_is_plain(
    positions4: &[i32],
    row: usize,
    at: i32,
    sections: [u32; 4],
    total: u64,
    rope_pairs: usize,
) -> (plain: bool)
    requires
        (row + 1) * 4 <= positions4@.len(),
        total == section_total(sections),
        total > 0,
    ensures
        plain == plain_row(positions4@, row as int, at as int, sections, rope_pairs as int),
{
    let len: usize = positions4.len();
    assert(row * 4 <= len);
    let base: usize = row * 4;
    if positions4[base] != at {
        return false;
    }
    let w0: u64 = sections[0] as u64;
    let w1: u64 = sections[1] as u64;
    let w2: u64 = sections[2] as u64;
    let mut pair: usize = 0;
    while pair < rope_pairs
        invariant
            pair <= rope_pairs,
            base == row * 4,
            (row + 1) * 4 <= positions4@.len(),
            total == section_total(sections),
            total > 0,
            positions4@[base as int] == at,
            w0 == sections@[0],
            w1 == sections@[1],
            w2 == sections@[2],
            forall|p: int|
                0 <= p < pair ==> positions4@[row * 4 + #[trigger] plane_of(
                    p % section_total(sections),
                    sections,
                )] == at,
        decreases rope_pairs - pair,
    {
        let sector: u64 = pair as u64 % total;
        let plane: usize = if sector % 3 == 1 && sector < 3 * w1 {
            1
        } else if sector % 3 == 2 && sector < 3 * w2 {
            2
        } else if sector % 3 == 0 && sector < 3 * w0 {
            0
        } else {
            3
        };
        assert(sector == pair as int % section_total(sections));
        assert(plane == plane_of(pair as int % section_total(sections), sections));
        if positions4[base + plane] != at {
            return false;
        }
        pair = pair + 1;
    }
    true
}

/// Whether a contiguous slice of four-dimensional rows is exactly representable by an ordinary
/// rotation that takes the first position and advances it once per row.
pub fn mrope_rows_are_plain_rope(
    positions4: &[i32],
    start: usize,
    rows: usize,
    sections: [u32; 4],
    rope_pairs: usize,
) -> (plain: bool)
    ensures
        plain == is_plain_rope(
            positions4@,
            start as int,
            rows as int,
            sections,
            rope_pairs as int,
        ),
{
    let len: usize = positions4.len();
    let end: usize = match start.checked_add(rows) {
        Some(end) => end,
        None => {
            return false;
        },
    };
    let values_end: usize = match end.checked_mul(4) {
        Some(values_end) => values_end,
        None => {
            return false;
        },
    };
    if rows == 0 || rope_pairs == 0 || values_end > len {
        return false;
    }
    let total: u64 = sections[0] as u64 + sections[1] as u64 + sections[2] as u64
        + sections[3] as u64;
    if total == 0 {
        return false;
    }
    let first: i32 = positions4[start * 4];
    if first < 0 {
        return false;
    }
    let mut r: usize = 0;
    while r < rows
        invariant
            r <= rows,
            start + rows <= usize::MAX,
            (start + rows) * 4 <= positions4@.len(),
            positions4@.len() == len,
            rows > 0,
            rope_pairs > 0,
            total == section_total(sections),
            total > 0,
            first == positions4@[start * 4],
            first >= 0,
            forall|q: int| #![trigger positions4@[(start + q) * 4]]
                0 <= q < r ==> plain_row(
                    positions4@,
                    start + q,
                    first + q,
                    sections,
                    rope_pairs as int,
                ),
        decreases rows - r,
    {
        let row: usize = start + r;
        let value: i32 = positions4[row * 4];
        assert(value == positions4@[(start + r) * 4]);
        if value < first || (value as i64 - first as i64) as u64 != r as u64 {
            assert(!plain_row(positions4@, start + r, first + r, sections, rope_pairs as int));
            return false;
        }
        if !row_is_plain(positions4, row, value, sections, total, rope_pairs) {
            assert(!plain_row(positions4@, start + r, first + r, sections, rope_pairs as int));
            return false;
        }
        r = r + 1;
    }
    true
}

/// An image inside a prompt: where its tokens stand, and how many embedding values it brings.
#[derive(Clone, Copy, Debug, PartialEq, Eq, Structural)]
pub struct ImageSpan {
    pub start: usize,
    pub n_tokens: usize,
    pub embed_values: usize,
}

/// The positions of a multimodal prompt.
pub struct MropePlan {
    /// Four positions for each prompt token.
    pub prompt_pos4: Vec<i32>,
    pub spans: Vec<ImageSpan>,
    /// The position of the first generated token.
    pub decode_base: i32,
}

/// The end of the last of the first `n` spans.
pub open spec fn span_end(spans: Seq<ImageSpan>, n: int) -> int {
    if n == 0 {
        0
    } else {
        spans[n - 1].start + spans[n - 1].n_tokens
    }
}

/// What is wrong with span `i`, if anything: spans are not empty, do not overlap, stand in order
/// inside the prompt, and bring one embedding row per token.
pub open spec fn span_refused(
    spans: Seq<ImageSpan>,
    i: int,
    prompt_len: usize,
    n_embd: usize,
) -> Option<Error> {
    let span = spans[i];
    let end = span.start + span.n_tokens;
    if end > usize::MAX {
        Some(Error::ImageSpanOverflows { index: i as usize })
    } else if span.n_tokens == 0 || span.start < span_end(spans, i) || end > prompt_len {
        Some(
            Error::InvalidImageSpan {
                index: i as usize,
                start: span.start,
                end: end as usize,
                prompt_len,
            },
        )
    } else if span.embed_values != span.n_tokens * n_embd {
        Some(
            Error::ImageSpanValues {
                index: i as usize,
                values: span.embed_values,
                expected: (span.n_tokens * n_embd) as usize,
            },
        )
    } else {
        None
    }
}

/// The first error among the first `n` spans.
pub open spec fn spans_refused(
    spans: Seq<ImageSpan>,
    n: nat,
    prompt_len: usize,
    n_embd: usize,
) -> Option<Error>
    decreases n,
{
    if n == 0 {
        None
    } else if let Some(e) = spans_refused(spans, (n - 1) as nat, prompt_len, n_embd) {
        Some(e)
    } else {
        span_refused(spans, n - 1, prompt_len, n_embd)
    }
}

proof fn lemma_spans_refused_stays(
    spans: Seq<ImageSpan>,
    n: nat,
    m: nat,
    prompt_len: usize,
    n_embd: usize,
)
    requires
        n <= m,
        spans_refused(spans, n, prompt_len, n_embd) is Some,
    ensures
        spans_refused(spans, m, prompt_len, n_embd) == spans_refused(spans, n, prompt_len, n_embd),
    decreases m,
{
    if n < m {
        lemma_spans_refused_stays(spans, n, (m - 1) as nat, prompt_len, n_embd);
    }
}

/// Why a multimodal plan is refused.
pub open spec fn plan_refused(
    plan: MropePlan,
    supported: bool,
    prompt_len: usize,
    sections: [u32; 4],
    n_embd: usize,
) -> Option<Error> {
    if !supported {
        Some(Error::MropeUnsupported)
    } else if plan.prompt_pos4@.len() != prompt_len * 4 {
        Some(
            Error::MropeTableLength {
                values: plan.prompt_pos4@.len() as usize,
                tokens: prompt_len,
                expected: (prompt_len * 4) as usize,
            },
        )
    } else if section_total(sections) == 0 {
        Some(Error::MropeSectionsEmpty)
    } else if let Some(e) = spans_refused(plan.spans@, plan.spans@.len(), prompt_len, n_embd) {
        Some(e)
    } else if plan.decode_base < 0 {
        Some(Error::NegativeDecodeBase { base: plan.decode_base })
    } else {
        None
    }
}

/// Checks a multimodal plan against its prompt. `supported` is whether the model takes one.
pub fn check_mrope_plan(
    plan: &MropePlan,
    supported: bool,
    prompt_len: usize,
    sections: [u32; 4],
    n_embd: usize,
) -> (checked: Result<(), Error>)
    requires
        prompt_len * 4 <= usize::MAX,
        prompt_len * n_embd <= usize::MAX,
    ensures
        checked == (match plan_refused(*plan, supported, prompt_len, sections, n_embd) {
            Some(e) => Err::<(), Error>(e),
            None => Ok(()),
        }),
{
    if !supported {
        return Err(Error::MropeUnsupported);
    }
    if plan.prompt_pos4.len() != prompt_len * 4 {
        return Err(
            Error::MropeTableLength {
                values: plan.prompt_pos4.len(),
                tokens: prompt_len,
                expected: prompt_len * 4,
            },
        );
    }
    if sections[0] == 0 && sections[1] == 0 && sections[2] == 0 && sections[3] == 0 {
        return Err(Error::MropeSectionsEmpty);
    }
    let mut previous_end: usize = 0;
    let mut i: usize = 0;
    let n: usize = plan.spans.len();
    while i < n
        invariant
            i <= n == plan.spans@.len(),
            supported,
            plan.prompt_pos4@.len() == prompt_len * 4,
            section_total(sections) != 0,
            prompt_len * n_embd <= usize::MAX,
            previous_end == span_end(plan.spans@, i as int),
            spans_refused(plan.spans@, i as nat, prompt_len, n_embd) is None,
        decreases n - i,
    {
        let span: ImageSpan = plan.spans[i];
        match check_span(&plan.spans, i, previous_end, prompt_len, n_embd) {
            Err(e) => {
                proof {
                    lemma_spans_refused_stays(
                        plan.spans@,
                        (i + 1) as nat,
                        n as nat,
                        prompt_len,
                        n_embd,
                    );
                }
                return Err(e);
            },
            Ok(end) => {
                previous_end = end;
            },
        }
        i = i + 1;
    }
    if plan.decode_base < 0 {
        return Err(Error::NegativeDecodeBase { base: plan.decode_base });
    }
    Ok(())
}

fn check_span(
    spans: &Vec<ImageSpan>,
    i: usize,
    previous_end: usize,
    prompt_len: usize,
    n_embd: usize,
) -> (end: Result<usize, Error>)
    requires
        i < spans@.len(),
        previous_end == span_end(spans@, i as int),
        prompt_len * n_embd <= usize::MAX,
    ensures
        match span_refused(spans@, i as int, prompt_len, n_embd) {
            Some(e) => end == Err::<usize, Error>(e),
            None => end matches Ok(at) && at == span_end(spans@, i + 1),
        },
{
    let span: ImageSpan = spans[i];
    let end: usize = match span.start.checked_add(span.n_tokens) {
        Some(end) => end,
        None => {
            return Err(Error::ImageSpanOverflows { index: i });
        },
    };
    if span.n_tokens == 0 || span.start < previous_end || end > prompt_len {
        return Err(
            Error::InvalidImageSpan { index: i, start: span.start, end, prompt_len },
        );
    }
    proof {
        assert(span.n_tokens * n_embd <= prompt_len * n_embd) by (nonlinear_arith)
            requires
                span.n_tokens <= prompt_len,
                n_embd >= 0,
        ;
    }
    let expected: usize = span.n_tokens * n_embd;
    if span.embed_values != expected {
        return Err(Error::ImageSpanValues { index: i, values: span.embed_values, expected });
    }
    Ok(end)
}

/// The four positions of the token `delta` past the prompt.
pub open spec fn generated_row(base: int, delta: int) -> Seq<i32> {
    let at = (base + delta) as i32;
    seq![at, at, at, 0i32]
}

/// The positions of `count` generated tokens.
pub open spec fn generated_rows(base: int, count: nat) -> Seq<i32>
    decreases count,
{
    if count == 0 {
        Seq::empty()
    } else {
        generated_rows(base, (count - 1) as nat) + generated_row(base, count - 1)
    }
}

/// The tokens that a context has past a prompt.
pub open spec fn tokens_past(prompt_len: nat, max_ctx: nat) -> nat {
    if prompt_len <= max_ctx {
        (max_ctx - prompt_len) as nat
    } else {
        0
    }
}

/// Why a position table of `count` generated tokens cannot be made: the first position that does
/// not fit decides.
pub open spec fn rows_refused(base: int, count: nat) -> Option<Error> {
    if base + count - 1 <= i32::MAX || count == 0 {
        None
    } else if base == 0 {
        Some(Error::MropeContextRange)
    } else {
        Some(Error::MropeDecodeOverflow)
    }
}

/// The positions of every token of a context: the prompt's own, then those of generated text.
pub fn position_table(plan: &MropePlan, prompt_len: usize, max_ctx: usize) -> (table: Result<
    Vec<i32>,
    Error,
>)
    requires
        plan.decode_base >= 0,
        plan.prompt_pos4@.len() == prompt_len * 4,
    ensures
        match rows_refused(plan.decode_base as int, tokens_past(prompt_len as nat, max_ctx as nat)) {
            Some(e) => table == Err::<Vec<i32>, Error>(e),
            None => table matches Ok(all) && all@ == plan.prompt_pos4@ + generated_rows(
                plan.decode_base as int,
                tokens_past(prompt_len as nat, max_ctx as nat),
            ),
        },
{
    let base: i32 = plan.decode_base;
    let count: usize = if prompt_len <= max_ctx {
        max_ctx - prompt_len
    } else {
        0
    };
    let mut all: Vec<i32> = Vec::new();
    let mut i: usize = 0;
    let n: usize = plan.prompt_pos4.len();
    while i < n
        invariant
            i <= n == plan.prompt_pos4@.len(),
            all@ == plan.prompt_pos4@.take(i as int),
        decreases n - i,
    {
        all.push(plan.prompt_pos4[i]);
        i = i + 1;
        assert(all@ =~= plan.prompt_pos4@.take(i as int));
    }
    assert(all@ =~= plan.prompt_pos4@);
    let mut delta: usize = 0;
    while delta < count
        invariant
            delta <= count,
            base >= 0,
            base == plan.decode_base,
            count == tokens_past(prompt_len as nat, max_ctx as nat),
            delta == 0 || base + delta - 1 <= i32::MAX,
            all@ == plan.prompt_pos4@ + generated_rows(base as int, delta as nat),
        decreases count - delta,
    {
        if delta > 2147483647 {
            return Err(Error::MropeContextRange);
        }
        let at: i32 = match base.checked_add(delta as i32) {
            Some(at) => at,
            None => {
                return Err(Error::MropeDecodeOverflow);
            },
        };
        let ghost before = all@;
        all.push(at);
        all.push(at);
        all.push(at);
        all.push(0);
        assert(all@ =~= before + generated_row(base as int, delta as int));
        delta = delta + 1;
        assert(all@ =~= plan.prompt_pos4@ + generated_rows(base as int, delta as nat));
    }
    Ok(all)
}

/// The four positions of the token at `pos`.
pub fn position_row(plan: &MropePlan, prompt_len: usize, pos: usize) -> (row: Result<
    [i32; 4],
    Error,
>)
    requires
        plan.decode_base >= 0,
        plan.prompt_pos4@.len() == prompt_len * 4,
    ensures
        pos < prompt_len ==> (row matches Ok(r) && r@ == plan.prompt_pos4@.subrange(
            pos * 4,
            pos * 4 + 4,
        )),
        pos >= prompt_len && pos - prompt_len > i32::MAX ==> row == Err::<[i32; 4], Error>(
            Error::MropeDecodeRange,
        ),
        pos >= prompt_len && pos - prompt_len <= i32::MAX && plan.decode_base + pos - prompt_len
            > i32::MAX ==> row == Err::<[i32; 4], Error>(Error::MropeDecodeOverflow),
        pos >= prompt_len && plan.decode_base + pos - prompt_len <= i32::MAX ==> (
        row matches Ok(r) && r@ == generated_row(plan.decode_base as int, pos - prompt_len)),
{
    let n: usize = plan.prompt_pos4.len();
    if pos < prompt_len {
        let base: usize = pos * 4;
        let r: [i32; 4] = [
            plan.prompt_pos4[base],
            plan.prompt_pos4[base + 1],
            plan.prompt_pos4[base + 2],
            plan.prompt_pos4[base + 3],
        ];
        assert(r@ =~= plan.prompt_pos4@.subrange(pos * 4, pos * 4 + 4));
        return Ok(r);
    }
    let delta: usize = pos - prompt_len;
    if delta > 2147483647 {
        return Err(Error::MropeDecodeRange);
    }
    let at: i32 = match plan.decode_base.checked_add(delta as i32) {
        Some(at) => at,
        None => {
            return Err(Error::MropeDecodeOverflow);
        },
    };
    let r: [i32; 4] = [at, at, at, 0];
    assert(r@ =~= generated_row(plan.decode_base as int, pos - prompt_len));
    Ok(r)
}

proof fn lemma_generated_rows(base: int, count: nat, t: int)
    requires
        0 <= t < count,
    ensures
        generated_rows(base, count).len() == count * 4,
        generated_rows(base, count).subrange(t * 4, t * 4 + 4) == generated_row(base, t),
    decreases count,
{
    let before = generated_rows(base, (count - 1) as nat);
    lemma_generated_len(base, (count - 1) as nat);
    lemma_generated_len(base, count);
    if t < count - 1 {
        lemma_generated_rows(base, (count - 1) as nat, t);
        assert(generated_rows(base, count).subrange(t * 4, t * 4 + 4) =~= before.subrange(
            t * 4,
            t * 4 + 4,
        ));
    } else {
        assert(generated_rows(base, count).subrange(t * 4, t * 4 + 4) =~= generated_row(base, t));
    }
}

proof fn lemma_generated_len(base: int, count: nat)
    ensures
        generated_rows(base, count).len() == count * 4,
    decreases count,
{
    if count > 0 {
        lemma_generated_len(base, (count - 1) as nat);
    }
}

proof fn lemma_generated_at(base: int, count: nat, t: int)
    requires
        0 <= t < count,
        0 <= base,
        base + count - 1 <= i32::MAX,
    ensures
        generated_rows(base, count)[t * 4] == base + t,
        generated_rows(base, count)[t * 4 + 1] == base + t,
        generated_rows(base, count)[t * 4 + 2] == base + t,
{
    lemma_generated_rows(base, count, t);
    let table = generated_rows(base, count);
    let row = table.subrange(t * 4, t * 4 + 4);
    assert(row[0] == table[t * 4]);
    assert(row[1] == table[t * 4 + 1]);
    assert(row[2] == table[t * 4 + 2]);
}

/// The table of a context and the rows of single steps agree on every generated token.
pub proof fn law_table_holds_every_step(plan: MropePlan, prompt_len: nat, max_ctx: nat, pos: nat)
    requires
        plan.prompt_pos4@.len() == prompt_len * 4,
        prompt_len <= pos < max_ctx,
    ensures
        (plan.prompt_pos4@ + generated_rows(
            plan.decode_base as int,
            tokens_past(prompt_len, max_ctx),
        )).subrange(pos as int * 4, pos as int * 4 + 4) == generated_row(
            plan.decode_base as int,
            pos - prompt_len,
        ),
{
    let count = tokens_past(prompt_len, max_ctx);
    let t = pos - prompt_len;
    let rows = generated_rows(plan.decode_base as int, count);
    lemma_generated_rows(plan.decode_base as int, count, t);
    assert((plan.prompt_pos4@ + rows).subrange(pos as int * 4, pos as int * 4 + 4) =~= rows.subrange(
        t * 4,
        t * 4 + 4,
    ));
}

/// Rows of generated text are a plain rotation, whenever no rotary pair reads the fourth plane.
pub proof fn law_generated_rows_are_plain(
    base: int,
    count: nat,
    start: int,
    rows: int,
    sections: [u32; 4],
    rope_pairs: int,
)
    requires
        0 <= base,
        base + count - 1 <= i32::MAX,
        0 <= start,
        0 < rows,
        start + rows <= count,
        rope_pairs > 0,
        section_total(sections) > 0,
        forall|pair: int|
            0 <= pair < rope_pairs ==> (#[trigger] plane_of(
                pair % section_total(sections),
                sections,
            )) != 3,
    ensures
        is_plain_rope(generated_rows(base, count), start, rows, sections, rope_pairs),
{
    let table = generated_rows(base, count);
    lemma_generated_len(base, count);
    lemma_generated_at(base, count, start);
    assert(table[start * 4] == base + start);
    assert forall|r: int| #![trigger table[(start + r) * 4]] 0 <= r < rows implies plain_row(
        table,
        start + r,
        table[start * 4] + r,
        sections,
        rope_pairs,
    ) by {
        let t = start + r;
        lemma_generated_at(base, count, t);
    }
}

} // verus!
