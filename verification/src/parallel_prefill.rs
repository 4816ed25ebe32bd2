//! Prefill of several independent sessions in shared activation batches.
//!
//! Each lane keeps its own positions and state. A step takes the lanes that can share one graph,
//! gives each some of the batch's rows, and never carries a lane past its snapshot boundary or over
//! the depth at which attention becomes sparse.

use crate::attention_plan::sparse_threshold;
use crate::error::Error;
use crate::prefix::{first_out_of_vocab, first_tokens, same_tokens, validate_token_ids};
use crate::prompt::PreparedParallelPrompt;
use crate::share::{
    allocate_parallel_prefill_rows, law_every_lane_progresses, law_rows_fill_the_batch,
    lemma_member_le_total, rows_of, total,
};
use vstd::arithmetic::mul::*;
use vstd::prelude::*;

verus! {

/// What a progress report is about.
#[derive(Clone, Copy, Debug, PartialEq, Eq, Structural)]
pub enum GenerationPhase {
    Prefill,
    Decode,
}

/// How far a request has come.
#[derive(Clone, Copy, Debug, PartialEq, Eq, Structural)]
pub struct GenerationProgress {
    pub phase: GenerationPhase,
    pub prompt_tokens: u64,
    pub cached_prompt_tokens: u64,
    pub prefill_tokens: u64,
    pub completion_tokens: u64,
    pub context_tokens: u64,
    pub context_limit: u64,
}

/// The progress of a lane that has `context_tokens` tokens resident and started with
/// `cached_prompt_tokens`.
pub fn parallel_prefill_progress(
    prompt_tokens: usize,
    cached_prompt_tokens: usize,
    context_tokens: usize,
    context_limit: usize,
) -> (progress: GenerationProgress)
    ensures
        progress == (GenerationProgress {
            phase: GenerationPhase::Prefill,
            prompt_tokens: prompt_tokens as u64,
            cached_prompt_tokens: cached_prompt_tokens as u64,
            prefill_tokens: (if context_tokens >= cached_prompt_tokens {
                context_tokens - cached_prompt_tokens
            } else {
                0
            }) as u64,
            completion_tokens: 0,
            context_tokens: context_tokens as u64,
            context_limit: context_limit as u64,
        }),
{
    GenerationProgress {
        phase: GenerationPhase::Prefill,
        prompt_tokens: prompt_tokens as u64,
        cached_prompt_tokens: cached_prompt_tokens as u64,
        prefill_tokens: context_tokens.saturating_sub(cached_prompt_tokens) as u64,
        completion_tokens: 0,
        context_tokens: context_tokens as u64,
        context_limit: context_limit as u64,
    }
}

/// Checks that a prefill call brings one prepared state and one slot for each prompt.
pub fn check_prefill_shape(prompts: usize, slots: usize, prepared: usize) -> (checked: Result<
    (),
    Error,
>)
    ensures
        checked == (if prompts != slots || prepared != prompts {
            Err::<(), Error>(Error::PrefillShape { prompts, slots, prepared })
        } else {
            Ok(())
        }),
{
    if prompts != slots || prepared != prompts {
        return Err(Error::PrefillShape { prompts, slots, prepared });
    }
    Ok(())
}

/// What is wrong with the prompt of one lane, if anything.
pub open spec fn lane_refused(tokens: Seq<u32>, capacity: usize, vocab: usize, lane: usize) -> Option<
    Error,
> {
    if tokens.len() == 0 {
        Some(Error::PrefillLaneEmpty { lane })
    } else if let Some(id) = first_out_of_vocab(tokens, vocab) {
        Some(Error::TokenOutOfRange { id, vocab })
    } else if tokens.len() + 1 > capacity {
        Some(Error::PrefillLaneExceeds { lane, prompt: tokens.len() as usize, capacity })
    } else {
        None
    }
}

/// The first error among the first `n` lanes.
pub open spec fn lanes_refused(
    prompts: Seq<Vec<u32>>,
    capacities: Seq<usize>,
    vocab: usize,
    n: nat,
) -> Option<Error>
    decreases n,
{
    if n == 0 {
        None
    } else if let Some(e) = lanes_refused(prompts, capacities, vocab, (n - 1) as nat) {
        Some(e)
    } else {
        lane_refused(prompts[n - 1]@, capacities[n - 1], vocab, (n - 1) as usize)
    }
}

/// Why a prefill request is refused. `capacities` are the contexts of the slots, that of the
/// primary first, and `primary` is the prompt that the primary was asked for.
pub open spec fn prefill_refused(
    supported: bool,
    multimodal: bool,
    prompts: Seq<Vec<u32>>,
    capacities: Seq<usize>,
    prepared: nat,
    primary: Seq<u32>,
    vocab: usize,
) -> Option<Error> {
    if !supported {
        Some(Error::PrefillUnsupported)
    } else if multimodal {
        Some(Error::PrefillMultimodal)
    } else if prompts.len() != capacities.len() || prepared != prompts.len() || prompts.len() == 0
        || prompts[0]@ != primary {
        Some(Error::PrefillLayout)
    } else {
        lanes_refused(prompts, capacities, vocab, prompts.len())
    }
}

proof fn lemma_lanes_refused_stays(
    prompts: Seq<Vec<u32>>,
    capacities: Seq<usize>,
    vocab: usize,
    n: nat,
    m: nat,
)
    requires
        n <= m,
        lanes_refused(prompts, capacities, vocab, n) is Some,
    ensures
        lanes_refused(prompts, capacities, vocab, m) == lanes_refused(
            prompts,
            capacities,
            vocab,
            n,
        ),
    decreases m,
{
    if n < m {
        lemma_lanes_refused_stays(prompts, capacities, vocab, n, (m - 1) as nat);
    }
}

/// Checks a prefill request. See [`prefill_refused`].
pub fn check_parallel_prefill(
    supported: bool,
    multimodal: bool,
    prompts: &Vec<Vec<u32>>,
    capacities: &Vec<usize>,
    prepared: usize,
    primary: &[u32],
    vocab: usize,
) -> (checked: Result<(), Error>)
    ensures
        checked == (match prefill_refused(
            supported,
            multimodal,
            prompts@,
            capacities@,
            prepared as nat,
            primary@,
            vocab,
        ) {
            Some(e) => Err::<(), Error>(e),
            None => Ok(()),
        }),
{
    if !supported {
        return Err(Error::PrefillUnsupported);
    }
    if multimodal {
        return Err(Error::PrefillMultimodal);
    }
    if prompts.len() != capacities.len() || prepared != prompts.len() || prompts.len() == 0
        || !same_tokens(&prompts[0], primary) {
        return Err(Error::PrefillLayout);
    }
    let n: usize = prompts.len();
    let mut lane: usize = 0;
    while lane < n
        invariant
            lane <= n == prompts@.len() == capacities@.len(),
            supported,
            !multimodal,
            prepared == n,
            n > 0,
            prompts@[0]@ == primary@,
            lanes_refused(prompts@, capacities@, vocab, lane as nat) is None,
        decreases n - lane,
    {
        if let Err(e) = check_lane(&prompts[lane], capacities[lane], vocab, lane) {
            proof {
                lemma_lanes_refused_stays(
                    prompts@,
                    capacities@,
                    vocab,
                    (lane + 1) as nat,
                    n as nat,
                );
            }
            return Err(e);
        }
        lane = lane + 1;
    }
    Ok(())
}

fn check_lane(tokens: &Vec<u32>, capacity: usize, vocab: usize, lane: usize) -> (checked: Result<
    (),
    Error,
>)
    ensures
        checked == (match lane_refused(tokens@, capacity, vocab, lane) {
            Some(e) => Err::<(), Error>(e),
            None => Ok(()),
        }),
{
    if tokens.len() == 0 {
        return Err(Error::PrefillLaneEmpty { lane });
    }
    if let Err(e) = validate_token_ids(tokens, vocab) {
        return Err(e);
    }
    if tokens.len() >= capacity {
        return Err(Error::PrefillLaneExceeds { lane, prompt: tokens.len(), capacity });
    }
    Ok(())
}

/// The largest of a list.
pub open spec fn greatest(s: Seq<usize>) -> usize
    decreases s.len(),
{
    if s.len() == 0 {
        0
    } else if s.last() >= greatest(s.drop_last()) {
        s.last()
    } else {
        greatest(s.drop_last())
    }
}

/// The tokens per block of the index: the largest of the layers' ratios, four where no layer names
/// one.
pub open spec fn block_ratio(ratios: Seq<usize>) -> usize {
    if ratios.len() == 0 {
        4
    } else if greatest(ratios) >= 1 {
        greatest(ratios)
    } else {
        1
    }
}

/// The depth up to which attention is dense, for the block size that the layers' ratios give.
pub fn qsa_threshold(ratios: &Vec<usize>, top_k: usize) -> (threshold: usize)
    requires
        sparse_threshold(top_k as int, block_ratio(ratios@) as int) < usize::MAX,
    ensures
        threshold == sparse_threshold(top_k as int, block_ratio(ratios@) as int),
{
    let mut best: usize = 0;
    let mut i: usize = 0;
    assert(ratios@.take(0) =~= Seq::<usize>::empty());
    while i < ratios.len()
        invariant
            i <= ratios@.len(),
            best == greatest(ratios@.take(i as int)),
        decreases ratios@.len() - i,
    {
        assert(ratios@.take(i + 1).drop_last() =~= ratios@.take(i as int));
        if ratios[i] >= best {
            best = ratios[i];
        }
        i = i + 1;
    }
    assert(ratios@.take(i as int) =~= ratios@);
    let ratio: usize = if ratios.len() == 0 {
        4
    } else if best >= 1 {
        best
    } else {
        1
    };
    top_k + (ratio - 1)
}

/// One session of a cohort.
#[derive(Clone, Copy, Debug, PartialEq, Eq, Structural)]
pub struct PrefillLane {
    pub start: usize,
    /// The tokens that are resident now.
    pub cursor: usize,
    /// The tokens that prefill leaves resident: all of the prompt but the last.
    pub target: usize,
    pub boundary: Option<usize>,
}

/// Rows of one session inside a batch.
#[derive(Clone, Copy, Debug, PartialEq, Eq, Structural)]
pub struct SequenceSpan {
    pub row_start: usize,
    pub rows: usize,
    pub start_pos: usize,
}

/// One shared batch.
pub struct PrefillStep {
    /// The lanes that take part, ascending.
    pub lanes: Vec<usize>,
    /// Where each of them goes on, and how many rows it gets.
    pub spans: Vec<SequenceSpan>,
    /// All rows of the batch.
    pub batch: usize,
    /// Whether the rows belong to more than one session.
    pub independent_rows: bool,
}

/// A cohort under way.
pub struct ParallelPrefill {
    pub lanes: Vec<PrefillLane>,
    /// The depth up to which attention is dense.
    pub threshold: usize,
    /// The rows of a batch.
    pub ubatch: usize,
}

/// The lane's next token needs sparse attention.
pub open spec fn is_sparse(cursor: int, threshold: int) -> bool {
    cursor + 1 > threshold
}

/// The lane has something left to feed.
pub open spec fn is_pending(lane: PrefillLane) -> bool {
    lane.cursor < lane.target
}

/// The first lane that has something left, or the number of lanes.
pub open spec fn first_pending(lanes: Seq<PrefillLane>) -> nat
    decreases lanes.len(),
{
    if lanes.len() == 0 || is_pending(lanes[0]) {
        0
    } else {
        1 + first_pending(lanes.skip(1))
    }
}

proof fn lemma_first_pending(lanes: Seq<PrefillLane>, n: nat)
    requires
        n <= lanes.len(),
        forall|i: int| 0 <= i < n ==> !is_pending(#[trigger] lanes[i]),
        n < lanes.len() ==> is_pending(lanes[n as int]),
    ensures
        first_pending(lanes) == n,
    decreases n,
{
    if n > 0 {
        assert(!is_pending(lanes[0]));
        assert forall|i: int| 0 <= i < n - 1 implies !is_pending(#[trigger] lanes.skip(1)[i]) by {
            assert(!is_pending(lanes[i + 1]));
        }
        lemma_first_pending(lanes.skip(1), (n - 1) as nat);
    }
}

/// The lanes among the first `n` that can share a graph: they have something left, and need the
/// same kind of attention.
pub open spec fn cohort(lanes: Seq<PrefillLane>, threshold: int, sparse: bool, n: nat) -> Seq<usize>
    decreases n,
{
    if n == 0 {
        Seq::empty()
    } else {
        let before = cohort(lanes, threshold, sparse, (n - 1) as nat);
        let lane = lanes[n - 1];
        if is_pending(lane) && is_sparse(lane.cursor as int, threshold) == sparse {
            before.push((n - 1) as usize)
        } else {
            before
        }
    }
}

/// How far a lane may go in one step.
pub open spec fn reach(lane: PrefillLane, threshold: usize, sparse: bool) -> usize {
    let dense_end = if !sparse && threshold < lane.target {
        threshold
    } else {
        lane.target
    };
    match lane.boundary {
        Some(b) => if lane.cursor < b && b < dense_end {
            b
        } else {
            dense_end
        },
        None => dense_end,
    }
}

/// The rows that each lane of a cohort could use.
pub open spec fn usable(lanes: Seq<PrefillLane>, members: Seq<usize>, threshold: usize, sparse: bool) -> Seq<
    usize,
> {
    Seq::new(
        members.len(),
        |i: int|
            {
                let lane = lanes[members[i] as int];
                (reach(lane, threshold, sparse) - lane.cursor) as usize
            },
    )
}

/// The first lane of a cohort that gets no row, or the number of lanes.
pub open spec fn first_zero(rows: Seq<usize>) -> nat
    decreases rows.len(),
{
    if rows.len() == 0 || rows[0] == 0 {
        0
    } else {
        1 + first_zero(rows.skip(1))
    }
}

proof fn lemma_first_zero(rows: Seq<usize>, n: nat)
    requires
        n <= rows.len(),
        forall|i: int| 0 <= i < n ==> #[trigger] rows[i] != 0,
        n < rows.len() ==> rows[n as int] == 0,
    ensures
        first_zero(rows) == n,
    decreases n,
{
    if n > 0 {
        assert(rows[0] != 0);
        assert forall|i: int| 0 <= i < n - 1 implies #[trigger] rows.skip(1)[i] != 0 by {
            assert(rows[i + 1] != 0);
        }
        lemma_first_zero(rows.skip(1), (n - 1) as nat);
    }
}

impl ParallelPrefill {
    /// Whether the next batch is sparse: the first lane with something left decides.
    pub open spec fn sparse(&self) -> bool {
        is_sparse(
            self.lanes@[first_pending(self.lanes@) as int].cursor as int,
            self.threshold as int,
        )
    }

    /// The lanes of the next batch.
    pub open spec fn members(&self) -> Seq<usize> {
        cohort(self.lanes@, self.threshold as int, self.sparse(), self.lanes@.len())
    }

    /// The rows that each of them could use.
    pub open spec fn available(&self) -> Seq<usize> {
        usable(self.lanes@, self.members(), self.threshold, self.sparse())
    }

    /// The rows that each of them gets.
    pub open spec fn rows(&self) -> Seq<usize> {
        rows_of(self.available(), self.ubatch as nat)
    }

    /// The rows of all lanes together fit the machine.
    pub open spec fn wf(&self) -> bool {
        &&& self.threshold < usize::MAX
        &&& forall|i: int|
            0 <= i < self.lanes@.len() ==> (#[trigger] self.lanes@[i]).target * self.lanes@.len()
                <= usize::MAX
    }

    /// The step gives each lane of the cohort its rows, one after the other.
    pub open spec fn is_step(&self, step: PrefillStep) -> bool {
        &&& step.lanes@ == self.members()
        &&& step.spans@.len() == self.members().len()
        &&& forall|i: int|
            0 <= i < step.spans@.len() ==> #[trigger] step.spans@[i] == (SequenceSpan {
                row_start: total(self.rows().take(i)) as usize,
                rows: self.rows()[i],
                start_pos: self.lanes@[self.members()[i] as int].cursor,
            })
        &&& step.batch == total(self.rows())
        &&& step.independent_rows == (self.members().len() > 1)
    }

    /// A cohort of prepared prompts, of `ubatch_rows` rows to a batch, or one for each lane where
    /// that is more.
    pub fn new(
        prompt_lens: &Vec<usize>,
        prepared: &Vec<PreparedParallelPrompt>,
        ubatch_rows: usize,
        threshold: usize,
    ) -> (cohort: ParallelPrefill)
        requires
            prompt_lens@.len() == prepared@.len(),
            threshold < usize::MAX,
            forall|i: int|
                0 <= i < prompt_lens@.len() ==> #[trigger] prompt_lens@[i] * prompt_lens@.len()
                    <= usize::MAX,
        ensures
            cohort.wf(),
            cohort.threshold == threshold,
            cohort.ubatch == (if ubatch_rows as int >= prepared@.len() {
                ubatch_rows as int
            } else {
                prepared@.len() as int
            }),
            cohort.lanes@.len() == prepared@.len(),
            forall|i: int|
                0 <= i < prepared@.len() ==> #[trigger] cohort.lanes@[i] == (PrefillLane {
                    start: prepared@[i].start,
                    cursor: prepared@[i].start,
                    target: (if prompt_lens@[i] >= 1 {
                        prompt_lens@[i] - 1
                    } else {
                        0
                    }) as usize,
                    boundary: prepared@[i].checkpoint_boundary,
                }),
    {
        let n: usize = prepared.len();
        let mut lanes: Vec<PrefillLane> = Vec::new();
        let mut i: usize = 0;
        while i < n
            invariant
                i <= n == prepared@.len() == prompt_lens@.len(),
                lanes@.len() == i,
                forall|j: int|
                    0 <= j < i ==> #[trigger] lanes@[j] == (PrefillLane {
                        start: prepared@[j].start,
                        cursor: prepared@[j].start,
                        target: (if prompt_lens@[j] >= 1 {
                            prompt_lens@[j] - 1
                        } else {
                            0
                        }) as usize,
                        boundary: prepared@[j].checkpoint_boundary,
                    }),
            decreases n - i,
        {
            lanes.push(
                PrefillLane {
                    start: prepared[i].start,
                    cursor: prepared[i].start,
                    target: prompt_lens[i].saturating_sub(1),
                    boundary: prepared[i].checkpoint_boundary,
                },
            );
            i = i + 1;
        }
        let ubatch: usize = if ubatch_rows >= n {
            ubatch_rows
        } else {
            n
        };
        proof {
            assert forall|i: int| 0 <= i < lanes@.len() implies (#[trigger] lanes@[i]).target
                * lanes@.len() <= usize::MAX by {
                assert(prompt_lens@[i] * prompt_lens@.len() <= usize::MAX);
                lemma_mul_inequality(
                    lanes@[i].target as int,
                    prompt_lens@[i] as int,
                    lanes@.len() as int,
                );
            }
        }
        ParallelPrefill { lanes, threshold, ubatch }
    }

    /// The next batch, if any lane has something left to feed.
    pub fn next_step(&self) -> (step: Result<Option<PrefillStep>, Error>)
        requires
            self.wf(),
        ensures
            first_pending(self.lanes@) >= self.lanes@.len() ==> step matches Ok(None),
            first_pending(self.lanes@) < self.lanes@.len() && first_zero(self.rows())
                < self.members().len() ==> step == Err::<Option<PrefillStep>, Error>(
                Error::PrefillNoProgress {
                    lane: self.members()[first_zero(self.rows()) as int],
                    position: self.lanes@[self.members()[first_zero(
                        self.rows(),
                    ) as int] as int].cursor,
                },
            ),
            first_pending(self.lanes@) < self.lanes@.len() && first_zero(self.rows())
                >= self.members().len() ==> (step matches Ok(Some(made)) && self.is_step(made)),
    {
        let n: usize = self.lanes.len();
        let mut first: usize = 0;
        while first < n && !(self.lanes[first].cursor < self.lanes[first].target)
            invariant
                first <= n == self.lanes@.len(),
                forall|j: int| 0 <= j < first ==> !is_pending(#[trigger] self.lanes@[j]),
            decreases n - first,
        {
            first = first + 1;
        }
        proof {
            lemma_first_pending(self.lanes@, first as nat);
        }
        if first >= n {
            return Ok(None);
        }
        let sparse: bool = self.lanes[first].cursor >= self.threshold;
        let members: Vec<usize> = self.find_members(sparse);
        let available: Vec<usize> = self.find_usable(&members, sparse);
        proof {
            self.lemma_available_fits();
        }
        let rows: Vec<usize> = allocate_parallel_prefill_rows(&available, self.ubatch);
        proof {
            law_rows_fill_the_batch(self.available(), self.ubatch as nat);
            lemma_cohort(self.lanes@, self.threshold as int, sparse, n as nat);
        }
        let mut spans: Vec<SequenceSpan> = Vec::new();
        let mut row_start: usize = 0;
        let mut i: usize = 0;
        let m: usize = members.len();
        assert(rows@.take(0) =~= Seq::<usize>::empty());
        while i < m
            invariant
                i <= m == members@.len() == rows@.len(),
                n == self.lanes@.len(),
                first_pending(self.lanes@) < n,
                members@ == self.members(),
                rows@ == self.rows(),
                total(rows@) <= usize::MAX,
                row_start == total(rows@.take(i as int)),
                spans@.len() == i,
                forall|j: int| 0 <= j < m ==> (#[trigger] members@[j]) < n,
                forall|j: int| 0 <= j < i ==> #[trigger] rows@[j] != 0,
                forall|j: int|
                    0 <= j < i ==> #[trigger] spans@[j] == (SequenceSpan {
                        row_start: total(rows@.take(j)) as usize,
                        rows: rows@[j],
                        start_pos: self.lanes@[members@[j] as int].cursor,
                    }),
            decreases m - i,
        {
            let lane: usize = members[i];
            let start_pos: usize = self.lanes[lane].cursor;
            if rows[i] == 0 {
                proof {
                    lemma_first_zero(rows@, i as nat);
                }
                return Err(Error::PrefillNoProgress { lane, position: start_pos });
            }
            proof {
                lemma_total_prefix(rows@, i + 1);
                assert(rows@.take(i + 1).drop_last() =~= rows@.take(i as int));
            }
            spans.push(SequenceSpan { row_start, rows: rows[i], start_pos });
            row_start = row_start + rows[i];
            i = i + 1;
        }
        proof {
            lemma_first_zero(rows@, m as nat);
            assert(rows@.take(m as int) =~= rows@);
        }
        let independent_rows: bool = m > 1;
        Ok(Some(PrefillStep { lanes: members, spans, batch: row_start, independent_rows }))
    }

    proof fn lemma_available_fits(&self)
        requires
            self.wf(),
            self.lanes@.len() <= usize::MAX,
            first_pending(self.lanes@) < self.lanes@.len(),
        ensures
            total(self.available()) <= usize::MAX,
    {
        let n = self.lanes@.len();
        lemma_cohort(self.lanes@, self.threshold as int, self.sparse(), n);
        let members = self.members();
        let available = self.available();
        if members.len() > 0 {
            let most = greatest(available);
            lemma_total_bound(available, most);
            lemma_greatest_is_member(available);
            let k = choose|k: int| 0 <= k < available.len() && available[k] == most;
            let lane = members[k] as int;
            assert(self.lanes@[lane].target * n <= usize::MAX);
            assert(is_pending(self.lanes@[lane]));
            assert(most <= self.lanes@[lane].target);
            lemma_mul_inequality(most as int, self.lanes@[lane].target as int, n as int);
            lemma_mul_inequality(available.len() as int, n as int, most as int);
            lemma_mul_is_commutative(n as int, most as int);
            lemma_mul_is_commutative(available.len() as int, most as int);
        }
    }

    fn find_members(&self, sparse: bool) -> (members: Vec<usize>)
        ensures
            members@ == cohort(
                self.lanes@,
                self.threshold as int,
                sparse,
                self.lanes@.len(),
            ),
    {
        let n: usize = self.lanes.len();
        let mut members: Vec<usize> = Vec::new();
        let mut i: usize = 0;
        while i < n
            invariant
                i <= n == self.lanes@.len(),
                members@ == cohort(self.lanes@, self.threshold as int, sparse, i as nat),
            decreases n - i,
        {
            let lane: PrefillLane = self.lanes[i];
            if lane.cursor < lane.target && (lane.cursor >= self.threshold) == sparse {
                members.push(i);
            }
            i = i + 1;
        }
        members
    }

    fn find_usable(&self, members: &Vec<usize>, sparse: bool) -> (available: Vec<usize>)
        requires
            members@ == cohort(
                self.lanes@,
                self.threshold as int,
                sparse,
                self.lanes@.len(),
            ),
        ensures
            available@ == usable(self.lanes@, members@, self.threshold, sparse),
    {
        let n: usize = self.lanes.len();
        proof {
            lemma_cohort(self.lanes@, self.threshold as int, sparse, n as nat);
        }
        let mut available: Vec<usize> = Vec::new();
        let mut i: usize = 0;
        while i < members.len()
            invariant
                i <= members@.len(),
                available@.len() == i,
                forall|j: int|
                    0 <= j < members@.len() ==> (#[trigger] members@[j]) < self.lanes@.len()
                        && is_pending(self.lanes@[members@[j] as int]) && is_sparse(
                        self.lanes@[members@[j] as int].cursor as int,
                        self.threshold as int,
                    ) == sparse,
                forall|j: int|
                    0 <= j < i ==> #[trigger] available@[j] == usable(
                        self.lanes@,
                        members@,
                        self.threshold,
                        sparse,
                    )[j],
            decreases members@.len() - i,
        {
            let lane: PrefillLane = self.lanes[members[i]];
            let mut end: usize = lane.target;
            if !sparse && self.threshold < end {
                end = self.threshold;
            }
            if let Some(b) = lane.boundary {
                if lane.cursor < b && b < end {
                    end = b;
                }
            }
            available.push(end - lane.cursor);
            i = i + 1;
        }
        assert(available@ =~= usable(self.lanes@, members@, self.threshold, sparse));
        available
    }

    /// The lanes of the first `n` of a step that reach their snapshot boundary with it.
    pub open spec fn reaching(&self, step: PrefillStep, n: nat) -> Seq<usize>
        decreases n,
    {
        if n == 0 {
            Seq::empty()
        } else {
            let before = self.reaching(step, (n - 1) as nat);
            let lane = step.lanes@[n - 1];
            let span = step.spans@[n - 1];
            if self.lanes@[lane as int].boundary == Some((span.start_pos + span.rows) as usize) {
                before.push(lane)
            } else {
                before
            }
        }
    }

    /// Records that a batch was carried out, and says of which lanes a snapshot is due.
    pub fn complete(&mut self, step: &PrefillStep) -> (snapshots: Vec<usize>)
        requires
            old(self).wf(),
            first_pending(old(self).lanes@) < old(self).lanes@.len(),
            old(self).is_step(*step),
            first_zero(old(self).rows()) >= old(self).members().len(),
        ensures
            final(self).wf(),
            final(self).threshold == old(self).threshold,
            final(self).ubatch == old(self).ubatch,
            final(self).lanes@ == advanced(
                old(self).lanes@,
                old(self).members(),
                old(self).rows(),
            ),
            snapshots@ == old(self).reaching(*step, step.lanes@.len()),
    {
        let ghost before = *self;
        let ghost members = self.members();
        let ghost rows = self.rows();
        let n: usize = self.lanes.len();
        proof {
            lemma_cohort(self.lanes@, self.threshold as int, self.sparse(), n as nat);
            law_rows_fill_the_batch(self.available(), self.ubatch as nat);
        }
        let mut snapshots: Vec<usize> = Vec::new();
        let mut i: usize = 0;
        let m: usize = step.lanes.len();
        while i < m
            invariant
                i <= m == step.lanes@.len() == step.spans@.len(),
                n == self.lanes@.len() == before.lanes@.len(),
                self.threshold == before.threshold,
                self.ubatch == before.ubatch,
                before.is_step(*step),
                members == before.members(),
                rows == before.rows(),
                rows.len() == members.len(),
                forall|j: int|
                    0 <= j < members.len() ==> (#[trigger] members[j]) < n && rows[j]
                        <= before.available()[j],
                forall|j: int|
                    0 <= j < members.len() ==> is_pending(
                        before.lanes@[(#[trigger] members[j]) as int],
                    ) && is_sparse(
                        before.lanes@[members[j] as int].cursor as int,
                        before.threshold as int,
                    ) == before.sparse(),
                forall|j: int, k: int|
                    #![trigger members[j], members[k]]
                    0 <= j < k < members.len() ==> members[j] < members[k],
                self.lanes@ == advanced_by(before.lanes@, members, rows, i as nat),
                snapshots@ == before.reaching(*step, i as nat),
            decreases m - i,
        {
            let lane: usize = step.lanes[i];
            let span: SequenceSpan = step.spans[i];
            proof {
                assert(members[i as int] == lane);
                lemma_reach(
                    before.lanes@[lane as int],
                    before.threshold,
                    before.sparse(),
                );
                assert(rows[i as int] <= before.available()[i as int]);
                lemma_untouched(before.lanes@, members, rows, i as nat, i as int);
            }
            let end: usize = span.start_pos + span.rows;
            let current: PrefillLane = self.lanes[lane];
            self.lanes.set(
                lane,
                PrefillLane {
                    start: current.start,
                    cursor: end,
                    target: current.target,
                    boundary: current.boundary,
                },
            );
            if let Some(b) = current.boundary {
                if b == end {
                    snapshots.push(lane);
                }
            }
            i = i + 1;
        }
        proof {
            lemma_advanced(before.lanes@, members, rows);
            assert forall|i: int| 0 <= i < self.lanes@.len() implies (
            #[trigger] self.lanes@[i]).target * self.lanes@.len() <= usize::MAX by {
                assert(self.lanes@[i].target == before.lanes@[i].target);
            }
        }
        snapshots
    }

    /// Whether a lane had anything to feed when the cohort began; one that had not reports no further
    /// progress.
    pub fn feeds(&self, lane: usize) -> (feeds: bool)
        requires
            lane < self.lanes@.len(),
        ensures
            feeds == (self.lanes@[lane as int].start < self.lanes@[lane as int].target),
    {
        self.lanes[lane].start < self.lanes[lane].target
    }

    /// The progress of a lane.
    pub fn progress(&self, lane: usize, prompt_tokens: usize, context_limit: usize) -> (progress:
        GenerationProgress)
        requires
            lane < self.lanes@.len(),
        ensures
            progress.phase == GenerationPhase::Prefill,
            progress.prompt_tokens == prompt_tokens as u64,
            progress.cached_prompt_tokens == self.lanes@[lane as int].start as u64,
            progress.context_tokens == self.lanes@[lane as int].cursor as u64,
            progress.prefill_tokens == (if self.lanes@[lane as int].cursor
                >= self.lanes@[lane as int].start {
                self.lanes@[lane as int].cursor - self.lanes@[lane as int].start
            } else {
                0
            }) as u64,
            progress.completion_tokens == 0,
            progress.context_limit == context_limit as u64,
    {
        parallel_prefill_progress(
            prompt_tokens,
            self.lanes[lane].start,
            self.lanes[lane].cursor,
            context_limit,
        )
    }

    /// The tokens to record as resident for a lane: all but the last of its prompt once it is
    /// through, and nothing before that.
    pub fn resident(&self, lane: usize, prompt: &[u32]) -> (tokens: Option<Vec<u32>>)
        requires
            lane < self.lanes@.len(),
            self.lanes@[lane as int].target <= prompt@.len(),
        ensures
            match tokens {
                Some(list) => self.lanes@[lane as int].cursor == self.lanes@[lane as int].target
                    && list@ == prompt@.take(self.lanes@[lane as int].target as int),
                None => self.lanes@[lane as int].cursor != self.lanes@[lane as int].target,
            },
    {
        let at: PrefillLane = self.lanes[lane];
        if at.cursor == at.target {
            Some(first_tokens(prompt, at.target))
        } else {
            None
        }
    }
}

/// The lanes after the first `n` lanes of a cohort took their rows.
pub open spec fn advanced_by(
    lanes: Seq<PrefillLane>,
    members: Seq<usize>,
    rows: Seq<usize>,
    n: nat,
) -> Seq<PrefillLane>
    decreases n,
{
    if n == 0 {
        lanes
    } else {
        let before = advanced_by(lanes, members, rows, (n - 1) as nat);
        let lane = members[n - 1] as int;
        before.update(
            lane,
            PrefillLane { cursor: (lanes[lane].cursor + rows[n - 1]) as usize, ..lanes[lane] },
        )
    }
}

/// The lanes after a step: each of the cohort went on by its rows, the others stayed.
pub open spec fn advanced(
    lanes: Seq<PrefillLane>,
    members: Seq<usize>,
    rows: Seq<usize>,
) -> Seq<PrefillLane> {
    advanced_by(lanes, members, rows, members.len())
}

proof fn lemma_untouched(
    lanes: Seq<PrefillLane>,
    members: Seq<usize>,
    rows: Seq<usize>,
    n: nat,
    k: int,
)
    requires
        n <= k < members.len(),
        forall|i: int| 0 <= i < members.len() ==> (#[trigger] members[i]) < lanes.len(),
        forall|i: int, j: int|
            #![trigger members[i], members[j]]
            0 <= i < j < members.len() ==> members[i] < members[j],
    ensures
        advanced_by(lanes, members, rows, n).len() == lanes.len(),
        advanced_by(lanes, members, rows, n)[members[k] as int] == lanes[members[k] as int],
    decreases n,
{
    if n > 0 {
        lemma_untouched(lanes, members, rows, (n - 1) as nat, k);
        assert(members[n - 1] < members[k]);
    }
}

proof fn lemma_advanced_at(
    lanes: Seq<PrefillLane>,
    members: Seq<usize>,
    rows: Seq<usize>,
    n: nat,
    l: int,
)
    requires
        n <= members.len(),
        0 <= l < lanes.len(),
        forall|i: int| 0 <= i < members.len() ==> (#[trigger] members[i]) < lanes.len(),
    ensures
        advanced_by(lanes, members, rows, n).len() == lanes.len(),
        advanced_by(lanes, members, rows, n)[l].start == lanes[l].start,
        advanced_by(lanes, members, rows, n)[l].target == lanes[l].target,
        advanced_by(lanes, members, rows, n)[l].boundary == lanes[l].boundary,
    decreases n,
{
    if n > 0 {
        lemma_advanced_at(lanes, members, rows, (n - 1) as nat, l);
        assert(members[n - 1] < lanes.len());
    }
}

proof fn lemma_advanced(lanes: Seq<PrefillLane>, members: Seq<usize>, rows: Seq<usize>)
    requires
        forall|i: int| 0 <= i < members.len() ==> (#[trigger] members[i]) < lanes.len(),
    ensures
        advanced(lanes, members, rows).len() == lanes.len(),
        forall|l: int|
            0 <= l < lanes.len() ==> (#[trigger] advanced(lanes, members, rows)[l]).target
                == lanes[l].target,
{
    assert forall|l: int| 0 <= l < lanes.len() implies (#[trigger] advanced(
        lanes,
        members,
        rows,
    )[l]).target == lanes[l].target by {
        lemma_advanced_at(lanes, members, rows, members.len(), l);
    }
    if lanes.len() > 0 {
        lemma_advanced_at(lanes, members, rows, members.len(), 0);
    } else {
        if members.len() > 0 {
            assert(members[0] < lanes.len());
        }
    }
}

proof fn lemma_advanced_member(
    lanes: Seq<PrefillLane>,
    members: Seq<usize>,
    rows: Seq<usize>,
    n: nat,
    k: int,
)
    requires
        0 <= k < n <= members.len(),
        forall|i: int| 0 <= i < members.len() ==> (#[trigger] members[i]) < lanes.len(),
        forall|i: int, j: int|
            #![trigger members[i], members[j]]
            0 <= i < j < members.len() ==> members[i] < members[j],
    ensures
        advanced_by(lanes, members, rows, n)[members[k] as int].cursor == (
        lanes[members[k] as int].cursor + rows[k]) as usize,
    decreases n,
{
    lemma_advanced_at(lanes, members, rows, (n - 1) as nat, members[k] as int);
    if k < n - 1 {
        lemma_advanced_member(lanes, members, rows, (n - 1) as nat, k);
        assert(members[k] < members[n - 1]);
    }
}

/// The lanes of a cohort are distinct, in order, and all of the same kind.
pub proof fn lemma_cohort(lanes: Seq<PrefillLane>, threshold: int, sparse: bool, n: nat)
    requires
        n <= lanes.len() <= usize::MAX,
    ensures
        cohort(lanes, threshold, sparse, n).len() <= n,
        forall|i: int|
            0 <= i < cohort(lanes, threshold, sparse, n).len() ==> (#[trigger] cohort(
                lanes,
                threshold,
                sparse,
                n,
            )[i]) < n && is_pending(
                lanes[cohort(lanes, threshold, sparse, n)[i] as int],
            ) && is_sparse(
                lanes[cohort(lanes, threshold, sparse, n)[i] as int].cursor as int,
                threshold,
            ) == sparse,
        forall|i: int, j: int|
            #![trigger cohort(lanes, threshold, sparse, n)[i], cohort(lanes, threshold, sparse, n)[j]]
            0 <= i < j < cohort(lanes, threshold, sparse, n).len() ==> cohort(
                lanes,
                threshold,
                sparse,
                n,
            )[i] < cohort(lanes, threshold, sparse, n)[j],
        forall|l: int|
            0 <= l < n && is_pending(#[trigger] lanes[l]) && is_sparse(
                lanes[l].cursor as int,
                threshold,
            ) == sparse ==> cohort(lanes, threshold, sparse, n).contains(l as usize),
    decreases n,
{
    if n > 0 {
        lemma_cohort(lanes, threshold, sparse, (n - 1) as nat);
        let before = cohort(lanes, threshold, sparse, (n - 1) as nat);
        let all = cohort(lanes, threshold, sparse, n);
        assert forall|l: int|
            0 <= l < n && is_pending(#[trigger] lanes[l]) && is_sparse(
                lanes[l].cursor as int,
                threshold,
            ) == sparse implies all.contains(l as usize) by {
            if l < n - 1 {
                assert(before.contains(l as usize));
                let i = choose|i: int| 0 <= i < before.len() && before[i] == l as usize;
                assert(all[i] == l as usize);
            } else {
                assert(all[all.len() - 1] == l as usize);
            }
        }
    }
}

proof fn lemma_reach(lane: PrefillLane, threshold: usize, sparse: bool)
    requires
        is_pending(lane),
        is_sparse(lane.cursor as int, threshold as int) == sparse,
    ensures
        lane.cursor < reach(lane, threshold, sparse) <= lane.target,
{
}

proof fn lemma_total_prefix(s: Seq<usize>, n: int)
    requires
        0 <= n <= s.len(),
    ensures
        total(s.take(n)) <= total(s),
    decreases s.len() - n,
{
    if n < s.len() {
        lemma_total_prefix(s, n + 1);
        assert(s.take(n + 1).drop_last() =~= s.take(n));
    } else {
        assert(s.take(n) =~= s);
    }
}

proof fn lemma_total_bound(s: Seq<usize>, most: usize)
    requires
        greatest(s) <= most,
    ensures
        total(s) <= s.len() * most,
    decreases s.len(),
{
    if s.len() > 0 {
        lemma_total_bound(s.drop_last(), most);
        lemma_mul_is_distributive_add_other_way(most as int, s.len() - 1, 1);
        lemma_mul_basics(most as int);
    } else {
        lemma_mul_basics(most as int);
    }
}

proof fn lemma_greatest_is_member(s: Seq<usize>)
    requires
        s.len() > 0,
    ensures
        exists|k: int| 0 <= k < s.len() && s[k] == greatest(s),
    decreases s.len(),
{
    if s.last() >= greatest(s.drop_last()) {
        assert(s[s.len() - 1] == greatest(s));
    } else {
        lemma_greatest_is_member(s.drop_last());
        let k = choose|k: int| 0 <= k < s.drop_last().len() && s.drop_last()[k] == greatest(
            s.drop_last(),
        );
        assert(s[k] == greatest(s));
    }
}

/// The tokens that all lanes have left to feed.
pub open spec fn left_over(lanes: Seq<PrefillLane>) -> nat
    decreases lanes.len(),
{
    if lanes.len() == 0 {
        0
    } else {
        left_over(lanes.drop_last()) + (if is_pending(lanes.last()) {
            (lanes.last().target - lanes.last().cursor) as nat
        } else {
            0nat
        })
    }
}

/// Each lane of a step goes on, and stops at its target, at its snapshot boundary if that lies
/// ahead, and, while attention is dense, at the depth up to which it is. The other lanes stay.
pub proof fn law_step_respects_every_boundary(before: ParallelPrefill, after: ParallelPrefill)
    requires
        before.wf(),
        before.lanes@.len() <= usize::MAX,
        first_pending(before.lanes@) < before.lanes@.len(),
        first_zero(before.rows()) >= before.members().len(),
        after.lanes@ == advanced(before.lanes@, before.members(), before.rows()),
    ensures
        before.members().len() > 0,
        forall|k: int| #![trigger before.members()[k]]
            0 <= k < before.members().len() ==> {
                let l = before.members()[k] as int;
                &&& before.lanes@[l].cursor < after.lanes@[l].cursor <= before.lanes@[l].target
                &&& (before.lanes@[l].boundary matches Some(b) ==> before.lanes@[l].cursor < b
                    ==> after.lanes@[l].cursor <= b)
                &&& (before.lanes@[l].cursor + 1 <= before.threshold ==> after.lanes@[l].cursor
                    <= before.threshold)
            },
        total(before.rows()) <= before.ubatch,
{
    let n = before.lanes@.len();
    let sparse = before.sparse();
    let members = before.members();
    let rows = before.rows();
    lemma_cohort(before.lanes@, before.threshold as int, sparse, n);
    law_rows_fill_the_batch(before.available(), before.ubatch as nat);
    lemma_pending_found(before.lanes@);
    let f = first_pending(before.lanes@) as int;
    assert(members.contains(f as usize));
    assert forall|k: int| #![trigger members[k]] 0 <= k < members.len() implies {
        let l = members[k] as int;
        &&& before.lanes@[l].cursor < after.lanes@[l].cursor <= before.lanes@[l].target
        &&& (before.lanes@[l].boundary matches Some(b) ==> before.lanes@[l].cursor < b
            ==> after.lanes@[l].cursor <= b)
        &&& (before.lanes@[l].cursor + 1 <= before.threshold ==> after.lanes@[l].cursor
            <= before.threshold)
    } by {
        let l = members[k] as int;
        lemma_advanced_member(before.lanes@, members, rows, members.len(), k);
        lemma_reach(before.lanes@[l], before.threshold, sparse);
        assert(rows[k] <= before.available()[k]);
        lemma_all_nonzero(rows);
        assert(rows[k] != 0);
    }
}

/// The rows of a step lie on one side of the depth at which attention becomes sparse, lane by lane.
pub proof fn lemma_step_is_one_sided(cohort: ParallelPrefill)
    requires
        cohort.wf(),
        cohort.lanes@.len() <= usize::MAX,
        first_pending(cohort.lanes@) < cohort.lanes@.len(),
    ensures
        cohort.members().len() > 0,
        cohort.rows().len() == cohort.members().len(),
        forall|k: int|
            #![trigger cohort.members()[k]]
            0 <= k < cohort.members().len() ==> {
                let cursor = cohort.lanes@[cohort.members()[k] as int].cursor;
                &&& cursor + cohort.rows()[k] <= usize::MAX
                &&& cohort.sparse() ==> cohort.threshold < cursor + 1
                &&& !cohort.sparse() ==> cursor + cohort.rows()[k] <= cohort.threshold
            },
{
    let members = cohort.members();
    let rows = cohort.rows();
    lemma_cohort(
        cohort.lanes@,
        cohort.threshold as int,
        cohort.sparse(),
        cohort.lanes@.len(),
    );
    law_rows_fill_the_batch(cohort.available(), cohort.ubatch as nat);
    lemma_pending_found(cohort.lanes@);
    assert(members.contains(first_pending(cohort.lanes@) as usize));
    assert forall|k: int| #![trigger members[k]] 0 <= k < members.len() implies {
        let cursor = cohort.lanes@[members[k] as int].cursor;
        &&& cursor + rows[k] <= usize::MAX
        &&& cohort.sparse() ==> cohort.threshold < cursor + 1
        &&& !cohort.sparse() ==> cursor + rows[k] <= cohort.threshold
    } by {
        lemma_reach(cohort.lanes@[members[k] as int], cohort.threshold, cohort.sparse());
        assert(rows[k] <= cohort.available()[k]);
    }
}

proof fn lemma_pending_found(lanes: Seq<PrefillLane>)
    ensures
        first_pending(lanes) <= lanes.len(),
        first_pending(lanes) < lanes.len() ==> is_pending(lanes[first_pending(lanes) as int]),
        first_pending(lanes) == lanes.len() ==> forall|i: int|
            0 <= i < lanes.len() ==> !is_pending(#[trigger] lanes[i]),
    decreases lanes.len(),
{
    if lanes.len() > 0 && !is_pending(lanes[0]) {
        let rest = lanes.skip(1);
        lemma_pending_found(rest);
        if first_pending(lanes) == lanes.len() {
            assert forall|i: int| 0 <= i < lanes.len() implies !is_pending(#[trigger] lanes[i]) by {
                if i > 0 {
                    assert(!is_pending(rest[i - 1]));
                }
            }
        }
    }
}

proof fn lemma_all_nonzero(rows: Seq<usize>)
    requires
        first_zero(rows) >= rows.len(),
    ensures
        forall|i: int| 0 <= i < rows.len() ==> #[trigger] rows[i] != 0,
    decreases rows.len(),
{
    if rows.len() > 0 {
        let rest = rows.skip(1);
        lemma_all_nonzero(rest);
        assert forall|i: int| 0 <= i < rows.len() implies #[trigger] rows[i] != 0 by {
            if i > 0 {
                assert(rest[i - 1] != 0);
            }
        }
    }
}

proof fn lemma_left_over_update(lanes: Seq<PrefillLane>, l: int, lane: PrefillLane, fed: nat)
    requires
        0 <= l < lanes.len(),
        is_pending(lanes[l]),
        lane.target == lanes[l].target,
        lane.cursor == lanes[l].cursor + fed,
        lane.cursor <= lane.target,
    ensures
        left_over(lanes.update(l, lane)) + fed == left_over(lanes),
    decreases lanes.len(),
{
    let next = lanes.update(l, lane);
    if l == lanes.len() - 1 {
        assert(next.drop_last() =~= lanes.drop_last());
    } else {
        lemma_left_over_update(lanes.drop_last(), l, lane, fed);
        assert(next.drop_last() =~= lanes.drop_last().update(l, lane));
    }
}

proof fn lemma_left_over_advanced(
    lanes: Seq<PrefillLane>,
    members: Seq<usize>,
    rows: Seq<usize>,
    n: nat,
)
    requires
        n <= members.len() == rows.len(),
        forall|i: int| 0 <= i < members.len() ==> (#[trigger] members[i]) < lanes.len(),
        forall|i: int, j: int|
            #![trigger members[i], members[j]]
            0 <= i < j < members.len() ==> members[i] < members[j],
        forall|i: int|
            0 <= i < members.len() ==> is_pending(lanes[(#[trigger] members[i]) as int])
                && lanes[members[i] as int].cursor + rows[i] <= lanes[members[i] as int].target,
    ensures
        left_over(advanced_by(lanes, members, rows, n)) + total(rows.take(n as int)) == left_over(
            lanes,
        ),
    decreases n,
{
    if n > 0 {
        let k = n - 1;
        lemma_left_over_advanced(lanes, members, rows, k as nat);
        lemma_untouched(lanes, members, rows, k as nat, k);
        let before = advanced_by(lanes, members, rows, k as nat);
        let l = members[k] as int;
        assert(is_pending(lanes[members[k] as int]));
        lemma_left_over_update(
            before,
            l,
            PrefillLane { cursor: (lanes[l].cursor + rows[k]) as usize, ..lanes[l] },
            rows[k] as nat,
        );
        assert(rows.take(n as int).drop_last() =~= rows.take(k));
    } else {
        assert(rows.take(0) =~= Seq::<usize>::empty());
    }
}

/// Every row of a batch feeds a token that was still to be fed, so what is left shrinks by the
/// size of the batch and a cohort that never stalls comes to its end.
pub proof fn law_step_feeds_the_whole_batch(before: ParallelPrefill, after: ParallelPrefill)
    requires
        before.wf(),
        before.lanes@.len() <= usize::MAX,
        first_pending(before.lanes@) < before.lanes@.len(),
        first_zero(before.rows()) >= before.members().len(),
        after.lanes@ == advanced(before.lanes@, before.members(), before.rows()),
    ensures
        left_over(after.lanes@) + total(before.rows()) == left_over(before.lanes@),
        total(before.rows()) > 0,
{
    let sparse = before.sparse();
    let members = before.members();
    let rows = before.rows();
    lemma_cohort(before.lanes@, before.threshold as int, sparse, before.lanes@.len());
    law_rows_fill_the_batch(before.available(), before.ubatch as nat);
    law_step_respects_every_boundary(before, after);
    assert forall|i: int| 0 <= i < members.len() implies is_pending(
        before.lanes@[(#[trigger] members[i]) as int],
    ) && before.lanes@[members[i] as int].cursor + rows[i]
        <= before.lanes@[members[i] as int].target by {
        lemma_reach(before.lanes@[members[i] as int], before.threshold, sparse);
        assert(rows[i] <= before.available()[i]);
    }
    lemma_left_over_advanced(before.lanes@, members, rows, members.len());
    assert(rows.take(members.len() as int) =~= rows);
    lemma_all_nonzero(rows);
    lemma_member_le_total(rows, 0);
    assert(rows[0] != 0);
}

/// The tokens of the first `n` spans of a batch.
pub open spec fn span_tokens(prompts: Seq<Vec<u32>>, step: PrefillStep, n: nat) -> Seq<u32>
    decreases n,
{
    if n == 0 {
        Seq::empty()
    } else {
        let span = step.spans@[n - 1];
        span_tokens(prompts, step, (n - 1) as nat) + prompts[step.lanes@[n - 1] as int]@.subrange(
            span.start_pos as int,
            span.start_pos + span.rows,
        )
    }
}

/// The positions of the first `n` spans of a batch.
pub open spec fn span_positions(spans: Seq<SequenceSpan>, n: nat) -> Seq<usize>
    decreases n,
{
    if n == 0 {
        Seq::empty()
    } else {
        let span = spans[n - 1];
        span_positions(spans, (n - 1) as nat) + Seq::new(
            span.rows as nat,
            |r: int| (span.start_pos + r) as usize,
        )
    }
}

/// The tokens of a batch, row by row.
pub fn batch_tokens(prompts: &Vec<Vec<u32>>, step: &PrefillStep) -> (tokens: Vec<u32>)
    requires
        step.lanes@.len() == step.spans@.len(),
        forall|i: int|
            0 <= i < step.lanes@.len() ==> (#[trigger] step.lanes@[i]) < prompts@.len()
                && step.spans@[i].start_pos + step.spans@[i].rows
                <= prompts@[step.lanes@[i] as int]@.len(),
    ensures
        tokens@ == span_tokens(prompts@, *step, step.lanes@.len()),
{
    let mut tokens: Vec<u32> = Vec::new();
    let mut i: usize = 0;
    while i < step.lanes.len()
        invariant
            i <= step.lanes@.len() == step.spans@.len(),
            forall|j: int|
                0 <= j < step.lanes@.len() ==> (#[trigger] step.lanes@[j]) < prompts@.len()
                    && step.spans@[j].start_pos + step.spans@[j].rows
                    <= prompts@[step.lanes@[j] as int]@.len(),
            tokens@ == span_tokens(prompts@, *step, i as nat),
        decreases step.lanes@.len() - i,
    {
        let lane: usize = step.lanes[i];
        let span: SequenceSpan = step.spans[i];
        let ghost before = tokens@;
        let ghost prompt = prompts@[lane as int]@;
        let len: usize = prompts[lane].len();
        let mut r: usize = 0;
        while r < span.rows
            invariant
                r <= span.rows,
                lane < prompts@.len(),
                prompt == prompts@[lane as int]@,
                span.start_pos + span.rows <= prompt.len(),
                prompt.len() == len,
                tokens@ == before + prompt.subrange(span.start_pos as int, span.start_pos + r),
            decreases span.rows - r,
        {
            tokens.push(prompts[lane][span.start_pos + r]);
            r = r + 1;
            assert(tokens@ =~= before + prompt.subrange(
                span.start_pos as int,
                span.start_pos + r,
            ));
        }
        i = i + 1;
    }
    tokens
}

/// The positions of a batch, row by row.
pub fn batch_positions(step: &PrefillStep) -> (positions: Vec<usize>)
    requires
        forall|i: int|
            0 <= i < step.spans@.len() ==> (#[trigger] step.spans@[i]).start_pos
                + step.spans@[i].rows <= usize::MAX,
    ensures
        positions@ == span_positions(step.spans@, step.spans@.len()),
{
    let mut positions: Vec<usize> = Vec::new();
    let mut i: usize = 0;
    while i < step.spans.len()
        invariant
            i <= step.spans@.len(),
            forall|j: int|
                0 <= j < step.spans@.len() ==> (#[trigger] step.spans@[j]).start_pos
                    + step.spans@[j].rows <= usize::MAX,
            positions@ == span_positions(step.spans@, i as nat),
        decreases step.spans@.len() - i,
    {
        let span: SequenceSpan = step.spans[i];
        let ghost before = positions@;
        let mut r: usize = 0;
        while r < span.rows
            invariant
                r <= span.rows,
                span.start_pos + span.rows <= usize::MAX,
                positions@ == before + Seq::new(
                    r as nat,
                    |q: int| (span.start_pos + q) as usize,
                ),
            decreases span.rows - r,
        {
            positions.push(span.start_pos + r);
            r = r + 1;
            assert(positions@ =~= before + Seq::new(
                r as nat,
                |q: int| (span.start_pos + q) as usize,
            ));
        }
        i = i + 1;
    }
    positions
}

/// A cohort is through exactly when no lane has anything left to feed.
pub proof fn law_prefill_ends_at_every_target(cohort: ParallelPrefill)
    ensures
        first_pending(cohort.lanes@) >= cohort.lanes@.len() <==> forall|l: int|
            0 <= l < cohort.lanes@.len() ==> (#[trigger] cohort.lanes@[l]).cursor
                >= cohort.lanes@[l].target,
{
    lemma_pending_found(cohort.lanes@);
    let f = first_pending(cohort.lanes@) as int;
    if f < cohort.lanes@.len() {
        assert(cohort.lanes@[f].cursor < cohort.lanes@[f].target);
    } else {
        assert forall|l: int| 0 <= l < cohort.lanes@.len() implies (
        #[trigger] cohort.lanes@[l]).cursor >= cohort.lanes@[l].target by {
            assert(!is_pending(cohort.lanes@[l]));
        }
    }
}

/// A cohort never stalls when its batch is larger than the square of the number of its other lanes:
/// every lane of the next step gets a row.
pub proof fn law_prefill_never_stalls(cohort: ParallelPrefill)
    requires
        cohort.lanes@.len() <= usize::MAX,
        first_pending(cohort.lanes@) < cohort.lanes@.len(),
        (cohort.lanes@.len() - 1) * (cohort.lanes@.len() - 1) < cohort.ubatch,
    ensures
        first_zero(cohort.rows()) >= cohort.members().len(),
{
    let n = cohort.lanes@.len() as int;
    let sparse = cohort.sparse();
    let members = cohort.members();
    lemma_cohort(cohort.lanes@, cohort.threshold as int, sparse, cohort.lanes@.len());
    assert forall|i: int| 0 <= i < members.len() implies (#[trigger] cohort.available()[i]) >= 1 by {
        lemma_reach(cohort.lanes@[members[i] as int], cohort.threshold, sparse);
    }
    let m = members.len() as int;
    if m >= 1 {
        assert((m - 1) * (m - 1) <= (n - 1) * (n - 1)) by (nonlinear_arith)
            requires
                1 <= m <= n,
        ;
    }
    law_every_lane_progresses(cohort.available(), cohort.ubatch as nat);
    law_rows_fill_the_batch(cohort.available(), cohort.ubatch as nat);
    lemma_first_zero(cohort.rows(), members.len());
}

/// What an accepted lane records once it is through is shorter than its slot.
pub proof fn law_prefilled_lanes_stay_within_their_contexts(
    cohort: ParallelPrefill,
    lane: usize,
    prompt: Seq<u32>,
    capacity: usize,
    vocab: usize,
)
    requires
        lane_refused(prompt, capacity, vocab, lane) is None,
        lane < cohort.lanes@.len(),
        cohort.lanes@[lane as int].target <= prompt.len(),
    ensures
        prompt.take(cohort.lanes@[lane as int].target as int).len() < capacity,
{
}

} // verus!
