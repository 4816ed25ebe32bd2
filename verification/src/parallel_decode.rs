//! Token steps of several independent sessions in one graph.
//!
//! Every step feeds one token of each lane. Lanes that are still inside their prompt come first;
//! the lanes past it form a suffix, and only that suffix is sampled.

use crate::error::Error;
use crate::parallel_prefill::SequenceSpan;
use crate::prefix::{
    begins_with, common_prefix_len, first_tokens, lemma_full_shared_prefix, resident,
    resident_after_gen,
};
use vstd::prelude::*;

verus! {

/// Which tokens end an answer.
pub struct EndRule {
    /// Benchmarks go on past the end.
    pub ignore: bool,
    pub eos: u32,
    pub eos_ids: Vec<u32>,
}

impl EndRule {
    /// Whether `token` ends an answer.
    pub open spec fn ends(&self, token: u32) -> bool {
        !self.ignore && (self.eos_ids@.contains(token) || token == self.eos)
    }

    /// See [`EndRule::ends`].
    pub fn is_eos(&self, token: u32) -> (ends: bool)
        ensures
            ends == self.ends(token),
    {
        if self.ignore {
            return false;
        }
        if token == self.eos {
            return true;
        }
        let mut i: usize = 0;
        while i < self.eos_ids.len()
            invariant
                i <= self.eos_ids@.len(),
                !self.ignore,
                token != self.eos,
                forall|j: int| 0 <= j < i ==> #[trigger] self.eos_ids@[j] != token,
            decreases self.eos_ids@.len() - i,
        {
            if self.eos_ids[i] == token {
                return true;
            }
            i = i + 1;
        }
        false
    }
}

/// The lane's token at `position` is the last of its prompt, or past it.
pub open spec fn samples(position: usize, end: usize) -> bool {
    position + 1 >= end
}

/// The first lane that is sampled, or the number of lanes.
pub open spec fn first_sampled(positions: Seq<usize>, ends: Seq<usize>) -> nat
    decreases positions.len(),
{
    if positions.len() == 0 || samples(positions[0], ends[0]) {
        0
    } else {
        1 + first_sampled(positions.skip(1), ends.skip(1))
    }
}

proof fn lemma_first_sampled(positions: Seq<usize>, ends: Seq<usize>, n: nat)
    requires
        positions.len() == ends.len(),
        n <= positions.len(),
        forall|i: int| 0 <= i < n ==> !samples(#[trigger] positions[i], ends[i]),
        n < positions.len() ==> samples(positions[n as int], ends[n as int]),
    ensures
        first_sampled(positions, ends) == n,
    decreases n,
{
    if n > 0 {
        assert(!samples(positions[0], ends[0]));
        let p = positions.skip(1);
        let e = ends.skip(1);
        assert forall|i: int| 0 <= i < n - 1 implies !samples(#[trigger] p[i], e[i]) by {
            assert(!samples(positions[i + 1], ends[i + 1]));
        }
        lemma_first_sampled(p, e, (n - 1) as nat);
    }
}

/// Every lane from `start` on is sampled.
pub open spec fn sampled_from(positions: Seq<usize>, ends: Seq<usize>, start: int) -> bool {
    forall|i: int| start <= i < positions.len() ==> samples(#[trigger] positions[i], ends[i])
}

/// The first lane of the suffix that is sampled in a step. The lanes that are sampled must be a
/// suffix.
pub fn sampling_suffix_start(positions: &[usize], prompt_ends: &[usize]) -> (start: Result<
    usize,
    Error,
>)
    ensures
        positions@.len() != prompt_ends@.len() ==> start == Err::<usize, Error>(
            Error::StepLengths {
                positions: positions@.len() as usize,
                ends: prompt_ends@.len() as usize,
            },
        ),
        positions@.len() == prompt_ends@.len() ==> start == (if sampled_from(
            positions@,
            prompt_ends@,
            first_sampled(positions@, prompt_ends@) as int,
        ) {
            Ok::<usize, Error>(first_sampled(positions@, prompt_ends@) as usize)
        } else {
            Err(Error::SamplingNotSuffix)
        }),
{
    if positions.len() != prompt_ends.len() {
        return Err(Error::StepLengths { positions: positions.len(), ends: prompt_ends.len() });
    }
    let n: usize = positions.len();
    let mut start: usize = 0;
    while start < n && !(prompt_ends[start] == 0 || positions[start] >= prompt_ends[start] - 1)
        invariant
            start <= n == positions@.len() == prompt_ends@.len(),
            forall|i: int| 0 <= i < start ==> !samples(#[trigger] positions@[i], prompt_ends@[i]),
        decreases n - start,
    {
        start = start + 1;
    }
    proof {
        lemma_first_sampled(positions@, prompt_ends@, start as nat);
    }
    let mut i: usize = start;
    while i < n
        invariant
            start <= i <= n == positions@.len() == prompt_ends@.len(),
            start == first_sampled(positions@, prompt_ends@),
            forall|j: int| start <= j < i ==> samples(#[trigger] positions@[j], prompt_ends@[j]),
        decreases n - i,
    {
        if !(prompt_ends[i] == 0 || positions[i] >= prompt_ends[i] - 1) {
            assert(!samples(positions@[i as int], prompt_ends@[i as int]));
            return Err(Error::SamplingNotSuffix);
        }
        i = i + 1;
    }
    Ok(start)
}

/// Checks that a token step brings the same number of everything.
pub fn check_step_shape(
    prompts: usize,
    ends: usize,
    checkpoints: usize,
    slots: usize,
    samplers: usize,
) -> (checked: Result<(), Error>)
    ensures
        checked == (if prompts != slots || ends != prompts || checkpoints != prompts || samplers
            != prompts {
            Err::<(), Error>(Error::StepShape { prompts, ends, checkpoints, slots, samplers })
        } else {
            Ok(())
        }),
{
    if prompts != slots || ends != prompts || checkpoints != prompts || samplers != prompts {
        return Err(Error::StepShape { prompts, ends, checkpoints, slots, samplers });
    }
    Ok(())
}

/// What a token step is asked for. The first lane is the primary, the others are its peers.
pub struct DecodeRequest {
    pub prompts: Vec<Vec<u32>>,
    /// Where each lane's prompt ends; tokens past it are forced.
    pub prompt_ends: Vec<usize>,
    pub checkpoint_boundaries: Vec<Option<usize>>,
    /// The resident tokens of each lane's slot.
    pub cached: Vec<Vec<u32>>,
    /// The context of each lane's slot.
    pub capacities: Vec<usize>,
    pub samplers: usize,
    pub max_steps: usize,
}

/// What can be served at all.
#[derive(Clone, Copy, Debug, PartialEq, Eq, Structural)]
pub struct DecodeSupport {
    pub model: bool,
    pub multimodal: bool,
    pub gpu_embed: bool,
    /// The depth up to which attention is dense.
    pub threshold: usize,
}

/// What is wrong with the slot of a peer, if anything.
pub open spec fn peer_refused(req: DecodeRequest, lane: int) -> Option<Error> {
    let start = req.cached@[lane]@.len();
    if start >= req.prompts@[lane]@.len() || !begins_with(
        req.prompts@[lane]@,
        req.cached@[lane]@,
    ) {
        Some(Error::DecodeLaneWithoutInput { lane: lane as usize, depth: start as usize })
    } else if start + req.max_steps > req.capacities@[lane] {
        Some(
            Error::DecodeLaneExceeds { lane: lane as usize, capacity: req.capacities@[lane] },
        )
    } else {
        None
    }
}

/// The first error among the peers before lane `n`.
pub open spec fn peers_refused(req: DecodeRequest, n: nat) -> Option<Error>
    decreases n,
{
    if n <= 1 {
        None
    } else if let Some(e) = peers_refused(req, (n - 1) as nat) {
        Some(e)
    } else {
        peer_refused(req, n - 1)
    }
}

/// The first invalid prompt end among the first `n` lanes.
pub open spec fn ends_refused(req: DecodeRequest, n: nat) -> Option<Error>
    decreases n,
{
    if n == 0 {
        None
    } else if let Some(e) = ends_refused(req, (n - 1) as nat) {
        Some(e)
    } else {
        let end = req.prompt_ends@[n - 1];
        let tokens = req.prompts@[n - 1]@.len();
        if end == 0 || end > tokens {
            Some(
                Error::DecodePromptEnd {
                    lane: (n - 1) as usize,
                    end,
                    tokens: tokens as usize,
                },
            )
        } else {
            None
        }
    }
}

/// The steps that a lane still takes inside its prompt.
pub open spec fn remaining_prefill(start: int, end: int) -> int {
    if end - 1 - start >= 0 {
        end - 1 - start
    } else {
        0
    }
}

/// A lane never has more of its prompt left than the lane before it.
pub open spec fn descending(req: DecodeRequest) -> bool {
    forall|i: int, j: int|
        #![trigger req.cached@[i], req.cached@[j]]
        0 <= i < req.prompts@.len() && j == i + 1 && j < req.prompts@.len() ==> remaining_prefill(
            req.cached@[i]@.len() as int,
            req.prompt_ends@[i] as int,
        ) >= remaining_prefill(req.cached@[j]@.len() as int, req.prompt_ends@[j] as int)
}

/// All lanes need the same kind of attention.
pub open spec fn one_kind(req: DecodeRequest, threshold: usize) -> bool {
    forall|i: int|
        0 <= i < req.prompts@.len() ==> ((#[trigger] req.cached@[i])@.len() + 1 > threshold) == (
        req.cached@[0]@.len() + 1 > threshold)
}

/// Why a token step is refused.
pub open spec fn decode_refused(req: DecodeRequest, support: DecodeSupport) -> Option<Error> {
    let lanes = req.prompts@.len();
    if !support.model {
        Some(Error::DecodeUnsupported)
    } else if support.multimodal {
        Some(Error::DecodeMultimodal)
    } else if !support.gpu_embed {
        Some(Error::DecodeNeedsEmbedding)
    } else if !(1 <= lanes <= 8) || req.cached@.len() != lanes {
        Some(Error::DecodeLanes { lanes: lanes as usize })
    } else if req.samplers != lanes {
        Some(Error::DecodeSamplers { lanes: lanes as usize, samplers: req.samplers })
    } else if req.prompt_ends@.len() != lanes || req.checkpoint_boundaries@.len() != lanes {
        Some(
            Error::DecodeLists {
                lanes: lanes as usize,
                ends: req.prompt_ends@.len() as usize,
                checkpoints: req.checkpoint_boundaries@.len() as usize,
            },
        )
    } else if let Some(e) = peers_refused(req, lanes) {
        Some(e)
    } else if req.cached@[0]@.len() >= req.prompts@[0]@.len() || req.cached@[0]@.len()
        + req.max_steps > req.capacities@[0] {
        Some(
            Error::DecodePrimaryWithoutRoom {
                steps: req.max_steps,
                depth: req.cached@[0]@.len() as usize,
            },
        )
    } else if let Some(e) = ends_refused(req, lanes) {
        Some(e)
    } else if !descending(req) {
        Some(Error::DecodeOrder)
    } else if !one_kind(req, support.threshold) {
        Some(Error::DecodeMixed)
    } else {
        None
    }
}

proof fn lemma_peers_refused_stays(req: DecodeRequest, n: nat, m: nat)
    requires
        n <= m,
        peers_refused(req, n) is Some,
    ensures
        peers_refused(req, m) == peers_refused(req, n),
    decreases m,
{
    if n < m {
        lemma_peers_refused_stays(req, n, (m - 1) as nat);
    }
}

proof fn lemma_ends_refused_stays(req: DecodeRequest, n: nat, m: nat)
    requires
        n <= m,
        ends_refused(req, n) is Some,
    ensures
        ends_refused(req, m) == ends_refused(req, n),
    decreases m,
{
    if n < m {
        lemma_ends_refused_stays(req, n, (m - 1) as nat);
    }
}

proof fn lemma_peer_ok(req: DecodeRequest, n: nat, lane: int)
    requires
        1 <= lane < n,
        peers_refused(req, n) is None,
    ensures
        peer_refused(req, lane) is None,
    decreases n,
{
    if lane < n - 1 {
        lemma_peer_ok(req, (n - 1) as nat, lane);
    }
}

proof fn lemma_end_ok(req: DecodeRequest, n: nat, lane: int)
    requires
        0 <= lane < n,
        ends_refused(req, n) is None,
    ensures
        0 < req.prompt_ends@[lane] <= req.prompts@[lane]@.len(),
    decreases n,
{
    if lane < n - 1 {
        lemma_end_ok(req, (n - 1) as nat, lane);
    }
}

impl DecodeRequest {
    fn check_peer(&self, lane: usize) -> (checked: Result<(), Error>)
        requires
            1 <= lane < self.prompts@.len(),
            self.cached@.len() == self.prompts@.len(),
            self.capacities@.len() == self.prompts@.len(),
        ensures
            checked == (match peer_refused(*self, lane as int) {
                Some(e) => Err::<(), Error>(e),
                None => Ok(()),
            }),
    {
        let start: usize = self.cached[lane].len();
        let shared: usize = common_prefix_len(&self.cached[lane], &self.prompts[lane]);
        proof {
            lemma_full_shared_prefix(
                self.cached@[lane as int]@,
                self.prompts@[lane as int]@,
            );
        }
        if start >= self.prompts[lane].len() || shared != start {
            return Err(Error::DecodeLaneWithoutInput { lane, depth: start });
        }
        let capacity: usize = self.capacities[lane];
        if capacity < start || self.max_steps > capacity - start {
            return Err(Error::DecodeLaneExceeds { lane, capacity });
        }
        Ok(())
    }

    fn check_ends(&self) -> (checked: Result<(), Error>)
        requires
            self.prompt_ends@.len() == self.prompts@.len(),
        ensures
            checked == (match ends_refused(*self, self.prompts@.len()) {
                Some(e) => Err::<(), Error>(e),
                None => Ok(()),
            }),
    {
        let n: usize = self.prompts.len();
        let mut lane: usize = 0;
        while lane < n
            invariant
                lane <= n == self.prompts@.len() == self.prompt_ends@.len(),
                ends_refused(*self, lane as nat) is None,
            decreases n - lane,
        {
            let end: usize = self.prompt_ends[lane];
            let tokens: usize = self.prompts[lane].len();
            if end == 0 || end > tokens {
                proof {
                    lemma_ends_refused_stays(*self, (lane + 1) as nat, n as nat);
                }
                return Err(Error::DecodePromptEnd { lane, end, tokens });
            }
            lane = lane + 1;
        }
        Ok(())
    }

    fn is_descending(&self) -> (ordered: bool)
        requires
            self.prompt_ends@.len() == self.prompts@.len(),
            self.cached@.len() == self.prompts@.len(),
        ensures
            ordered == descending(*self),
    {
        let n: usize = self.prompts.len();
        let mut i: usize = 0;
        while i + 1 < n
            invariant
                i <= n == self.prompts@.len() == self.prompt_ends@.len() == self.cached@.len(),
                i < n || n == 0,
                forall|a: int, b: int|
                    #![trigger self.cached@[a], self.cached@[b]]
                    0 <= a < i && b == a + 1 && b < n ==> remaining_prefill(
                        self.cached@[a]@.len() as int,
                        self.prompt_ends@[a] as int,
                    ) >= remaining_prefill(
                        self.cached@[b]@.len() as int,
                        self.prompt_ends@[b] as int,
                    ),
            decreases n - i,
        {
            let here: usize = self.prompt_ends[i].saturating_sub(1).saturating_sub(
                self.cached[i].len(),
            );
            let next: usize = self.prompt_ends[i + 1].saturating_sub(1).saturating_sub(
                self.cached[i + 1].len(),
            );
            if here < next {
                proof {
                    let a = i as int;
                    let b = i + 1;
                    assert(remaining_prefill(
                        self.cached@[a]@.len() as int,
                        self.prompt_ends@[a] as int,
                    ) < remaining_prefill(
                        self.cached@[b]@.len() as int,
                        self.prompt_ends@[b] as int,
                    ));
                }
                return false;
            }
            i = i + 1;
        }
        true
    }

    fn has_one_kind(&self, threshold: usize) -> (same: bool)
        requires
            self.cached@.len() == self.prompts@.len(),
            self.prompts@.len() > 0,
        ensures
            same == one_kind(*self, threshold),
    {
        let sparse: bool = self.cached[0].len() >= threshold;
        let n: usize = self.prompts.len();
        let mut i: usize = 0;
        while i < n
            invariant
                i <= n == self.prompts@.len() == self.cached@.len(),
                n > 0,
                sparse == (self.cached@[0]@.len() + 1 > threshold),
                forall|j: int|
                    0 <= j < i ==> ((#[trigger] self.cached@[j])@.len() + 1 > threshold)
                        == sparse,
            decreases n - i,
        {
            if (self.cached[i].len() >= threshold) != sparse {
                assert(!one_kind(*self, threshold)) by {
                    assert((self.cached@[i as int]@.len() + 1 > threshold) != sparse);
                }
                return false;
            }
            i = i + 1;
        }
        true
    }

    /// Checks a token step. See [`decode_refused`].
    pub fn check(&self, support: DecodeSupport) -> (checked: Result<(), Error>)
        requires
            self.capacities@.len() == self.cached@.len(),
        ensures
            checked == (match decode_refused(*self, support) {
                Some(e) => Err::<(), Error>(e),
                None => Ok(()),
            }),
    {
        let lanes: usize = self.prompts.len();
        if !support.model {
            return Err(Error::DecodeUnsupported);
        }
        if support.multimodal {
            return Err(Error::DecodeMultimodal);
        }
        if !support.gpu_embed {
            return Err(Error::DecodeNeedsEmbedding);
        }
        if !(1 <= lanes && lanes <= 8) || self.cached.len() != lanes {
            return Err(Error::DecodeLanes { lanes });
        }
        if self.samplers != lanes {
            return Err(Error::DecodeSamplers { lanes, samplers: self.samplers });
        }
        if self.prompt_ends.len() != lanes || self.checkpoint_boundaries.len() != lanes {
            return Err(
                Error::DecodeLists {
                    lanes,
                    ends: self.prompt_ends.len(),
                    checkpoints: self.checkpoint_boundaries.len(),
                },
            );
        }
        let mut lane: usize = 1;
        while lane < lanes
            invariant
                1 <= lane <= lanes,
                lanes == self.prompts@.len() == self.cached@.len() == self.capacities@.len(),
                lanes <= 8,
                self.prompt_ends@.len() == lanes,
                self.checkpoint_boundaries@.len() == lanes,
                self.samplers == lanes,
                support.model && !support.multimodal && support.gpu_embed,
                peers_refused(*self, lane as nat) is None,
            decreases lanes - lane,
        {
            if let Err(e) = self.check_peer(lane) {
                proof {
                    lemma_peers_refused_stays(*self, (lane + 1) as nat, lanes as nat);
                }
                return Err(e);
            }
            lane = lane + 1;
        }
        let depth: usize = self.cached[0].len();
        let room: usize = self.capacities[0];
        if depth >= self.prompts[0].len() || room < depth || self.max_steps > room - depth {
            return Err(Error::DecodePrimaryWithoutRoom { steps: self.max_steps, depth });
        }
        if let Err(e) = self.check_ends() {
            return Err(e);
        }
        if !self.is_descending() {
            return Err(Error::DecodeOrder);
        }
        if !self.has_one_kind(support.threshold) {
            return Err(Error::DecodeMixed);
        }
        Ok(())
    }
}

/// One session of a cohort.
pub struct DecodeLane {
    /// The resident tokens at the beginning.
    pub start: usize,
    pub prompt_end: usize,
    pub boundary: Option<usize>,
    /// The tokens to feed: the prompt, then what was sampled and kept.
    pub tokens: Vec<u32>,
    pub generated: Vec<u32>,
    /// The last row written.
    pub last_written: Option<usize>,
}

/// A cohort under way.
pub struct ParallelDecode {
    pub lanes: Vec<DecodeLane>,
    pub step: usize,
    pub max_steps: usize,
    /// A lane ended, or asked to stop: no further step is taken.
    pub stopped: bool,
}

/// One step: what is fed, and from which lane on rows are sampled.
pub struct DecodeStep {
    pub positions: Vec<usize>,
    pub ids: Vec<u32>,
    pub sample_from: usize,
    pub spans: Vec<SequenceSpan>,
    pub independent_rows: bool,
}

/// What follows a step.
pub struct StepOutcome {
    /// The lanes of which a snapshot is due.
    pub snapshots: Vec<usize>,
    pub stop: bool,
}

impl DecodeLane {
    /// The lane's position at a step.
    pub open spec fn position(&self, step: int) -> int {
        self.start + step
    }
}

/// The positions of all lanes at a step.
pub open spec fn positions_at(lanes: Seq<DecodeLane>, step: int) -> Seq<usize> {
    Seq::new(lanes.len(), |i: int| lanes[i].position(step) as usize)
}

/// The prompt ends of all lanes.
pub open spec fn ends_of(lanes: Seq<DecodeLane>) -> Seq<usize> {
    Seq::new(lanes.len(), |i: int| lanes[i].prompt_end)
}

/// The lanes are in descending order of what is left of their prompts.
pub open spec fn lanes_descend(lanes: Seq<DecodeLane>) -> bool {
    forall|i: int, j: int|
        #![trigger lanes[i], lanes[j]]
        0 <= i <= j < lanes.len() ==> remaining_prefill(
            lanes[i].start as int,
            lanes[i].prompt_end as int,
        ) >= remaining_prefill(lanes[j].start as int, lanes[j].prompt_end as int)
}

/// A cohort whose lanes are in descending order samples a suffix of its lanes at every step.
pub proof fn law_descending_lanes_sample_a_suffix(lanes: Seq<DecodeLane>, step: int)
    requires
        lanes_descend(lanes),
        0 <= step,
        forall|i: int|
            0 <= i < lanes.len() ==> (#[trigger] lanes[i]).start + step < usize::MAX,
    ensures
        first_sampled(positions_at(lanes, step), ends_of(lanes)) <= lanes.len(),
        sampled_from(
            positions_at(lanes, step),
            ends_of(lanes),
            first_sampled(positions_at(lanes, step), ends_of(lanes)) as int,
        ),
        forall|i: int|
            0 <= i < lanes.len() ==> (samples(#[trigger] positions_at(lanes, step)[i], ends_of(
                lanes,
            )[i]) <==> step >= remaining_prefill(
                lanes[i].start as int,
                lanes[i].prompt_end as int,
            )),
{
    let p = positions_at(lanes, step);
    let e = ends_of(lanes);
    assert forall|i: int| 0 <= i < lanes.len() implies (samples(#[trigger] p[i], e[i]) <==> step
        >= remaining_prefill(lanes[i].start as int, lanes[i].prompt_end as int)) by {
        assert(lanes[i].start + step < usize::MAX);
    }
    lemma_first_sampled_found(p, e);
    let s = first_sampled(p, e) as int;
    assert forall|i: int| s <= i < p.len() implies samples(#[trigger] p[i], e[i]) by {
        assert(samples(p[s], e[s]));
        assert(remaining_prefill(lanes[s].start as int, lanes[s].prompt_end as int)
            >= remaining_prefill(lanes[i].start as int, lanes[i].prompt_end as int));
    }
}

proof fn lemma_first_sampled_found(positions: Seq<usize>, ends: Seq<usize>)
    requires
        positions.len() == ends.len(),
    ensures
        first_sampled(positions, ends) <= positions.len(),
        first_sampled(positions, ends) < positions.len() ==> samples(
            positions[first_sampled(positions, ends) as int],
            ends[first_sampled(positions, ends) as int],
        ),
        forall|i: int|
            0 <= i < first_sampled(positions, ends) ==> !samples(#[trigger] positions[i], ends[i]),
    decreases positions.len(),
{
    if positions.len() > 0 && !samples(positions[0], ends[0]) {
        let p = positions.skip(1);
        let e = ends.skip(1);
        lemma_first_sampled_found(p, e);
        assert forall|i: int| 0 <= i < first_sampled(positions, ends) implies !samples(
            #[trigger] positions[i],
            ends[i],
        ) by {
            if i > 0 {
                assert(!samples(p[i - 1], e[i - 1]));
            }
        }
    }
}

/// The lanes of the first `n` that reach their snapshot boundary at a step.
pub open spec fn reached(lanes: Seq<DecodeLane>, step: int, n: nat) -> Seq<usize>
    decreases n,
{
    if n == 0 {
        Seq::empty()
    } else {
        let before = reached(lanes, step, (n - 1) as nat);
        if lanes[n - 1].boundary == Some((lanes[n - 1].position(step) + 1) as usize) {
            before.push((n - 1) as usize)
        } else {
            before
        }
    }
}

/// Whether a row's token is kept: it ends nothing, and its reader wants more.
pub open spec fn kept(rule: EndRule, token: u32, accepted: bool) -> bool {
    !rule.ends(token) && accepted
}

/// A lane after a step that did not sample it.
pub open spec fn fed(lane: DecodeLane, next: DecodeLane, step: int) -> bool {
    &&& next.start == lane.start
    &&& next.prompt_end == lane.prompt_end
    &&& next.boundary == lane.boundary
    &&& next.last_written == Some(lane.position(step) as usize)
}

/// The tokens that a lane has generated after `step` steps: one for each step that fed the last
/// token of its prompt or a later one.
pub open spec fn generated_by(lane: DecodeLane, step: int) -> int {
    let prefill = remaining_prefill(lane.start as int, lane.prompt_end as int);
    if step > prefill {
        step - prefill
    } else {
        0
    }
}

impl ParallelDecode {
    /// Every lane has a token to feed at each step that may still be taken, and positions fit. A
    /// lane has generated one token in each step since the last of its prompt was fed.
    pub open spec fn wf(&self) -> bool {
        &&& self.step <= self.max_steps
        &&& lanes_descend(self.lanes@)
        &&& forall|i: int|
            0 <= i < self.lanes@.len() ==> {
                let lane = #[trigger] self.lanes@[i];
                &&& lane.start + self.max_steps < usize::MAX
                &&& lane.prompt_end >= 1
                &&& lane.generated@.len() == generated_by(lane, self.step as int)
                &&& lane.last_written matches Some(p) ==> p < lane.start + self.step
                &&& !self.stopped ==> lane.start + self.step < lane.tokens@.len()
                &&& !self.stopped ==> lane.prompt_end <= lane.tokens@.len()
            }
    }

    /// Every lane holds its prompt and, behind it, what it generated, but for a last token that ended
    /// the cohort's turn.
    pub open spec fn holds(&self, prompts: Seq<Vec<u32>>) -> bool {
        &&& prompts.len() == self.lanes@.len()
        &&& forall|i: int|
            0 <= i < self.lanes@.len() ==> {
                let lane = #[trigger] self.lanes@[i];
                let whole = prompts[i]@ + lane.generated@;
                &&& lane.tokens@ == whole || (self.stopped && lane.generated@.len() > 0
                    && lane.tokens@ == whole.drop_last())
            }
    }

    /// The first lane that the next step samples.
    pub open spec fn sample_from(&self) -> nat {
        first_sampled(positions_at(self.lanes@, self.step as int), ends_of(self.lanes@))
    }

    /// A cohort of checked lanes.
    pub fn new(req: DecodeRequest, support: DecodeSupport) -> (cohort: ParallelDecode)
        requires
            req.capacities@.len() == req.cached@.len(),
            decode_refused(req, support) is None,
            forall|i: int|
                0 <= i < req.capacities@.len() ==> #[trigger] req.capacities@[i] < usize::MAX,
        ensures
            cohort.wf(),
            cohort.step == 0,
            cohort.max_steps == req.max_steps,
            !cohort.stopped,
            cohort.lanes@.len() == req.prompts@.len(),
            forall|i: int|
                0 <= i < cohort.lanes@.len() ==> {
                    let lane = #[trigger] cohort.lanes@[i];
                    &&& lane.start == req.cached@[i]@.len()
                    &&& lane.prompt_end == req.prompt_ends@[i]
                    &&& lane.boundary == req.checkpoint_boundaries@[i]
                    &&& lane.tokens@ == req.prompts@[i]@
                    &&& lane.generated@.len() == 0
                    &&& lane.last_written is None
                },
            cohort.holds(req.prompts@),
    {
        let n: usize = req.prompts.len();
        let mut lanes: Vec<DecodeLane> = Vec::new();
        let mut i: usize = 0;
        while i < n
            invariant
                i <= n == req.prompts@.len() == req.cached@.len() == req.prompt_ends@.len()
                    == req.checkpoint_boundaries@.len(),
                lanes@.len() == i,
                forall|j: int|
                    0 <= j < i ==> {
                        let lane = #[trigger] lanes@[j];
                        &&& lane.start == req.cached@[j]@.len()
                        &&& lane.prompt_end == req.prompt_ends@[j]
                        &&& lane.boundary == req.checkpoint_boundaries@[j]
                        &&& lane.tokens@ == req.prompts@[j]@
                        &&& lane.generated@.len() == 0
                        &&& lane.last_written is None
                    },
            decreases n - i,
        {
            let tokens: Vec<u32> = first_tokens(&req.prompts[i], req.prompts[i].len());
            assert(req.prompts@[i as int]@.take(req.prompts@[i as int]@.len() as int)
                =~= req.prompts@[i as int]@);
            lanes.push(
                DecodeLane {
                    start: req.cached[i].len(),
                    prompt_end: req.prompt_ends[i],
                    boundary: req.checkpoint_boundaries[i],
                    tokens,
                    generated: Vec::new(),
                    last_written: None,
                },
            );
            i = i + 1;
        }
        proof {
            assert forall|i: int| 0 <= i < n implies {
                let lane = #[trigger] lanes@[i];
                &&& lane.start + req.max_steps < usize::MAX
                &&& lane.prompt_end >= 1
                &&& lane.start < lane.tokens@.len()
                &&& lane.prompt_end <= lane.tokens@.len()
            } by {
                lemma_end_ok(req, n as nat, i);
                if i >= 1 {
                    lemma_peer_ok(req, n as nat, i);
                }
                assert(req.capacities@[i] < usize::MAX);
            }
            assert forall|i: int, j: int|
                #![trigger lanes@[i], lanes@[j]]
                0 <= i <= j < lanes@.len() implies remaining_prefill(
                lanes@[i].start as int,
                lanes@[i].prompt_end as int,
            ) >= remaining_prefill(lanes@[j].start as int, lanes@[j].prompt_end as int) by {
                lemma_descends(req, i, j);
            }
        }
        let cohort: ParallelDecode = ParallelDecode {
            lanes,
            step: 0,
            max_steps: req.max_steps,
            stopped: false,
        };
        assert forall|i: int| 0 <= i < n implies (#[trigger] cohort.lanes@[i]).tokens@
            == req.prompts@[i]@ + cohort.lanes@[i].generated@ by {
            assert(req.prompts@[i]@ + cohort.lanes@[i].generated@ =~= req.prompts@[i]@);
        }
        cohort
    }

    /// Whether another step is taken.
    pub fn more(&self) -> (more: bool)
        ensures
            more == (!self.stopped && self.step < self.max_steps),
    {
        !self.stopped && self.step < self.max_steps
    }

    /// The next step. A cohort in descending order always has one.
    pub fn plan(&self) -> (step: DecodeStep)
        requires
            self.wf(),
            !self.stopped,
            self.step < self.max_steps,
        ensures
            step.positions@ == positions_at(self.lanes@, self.step as int),
            step.ids@.len() == self.lanes@.len(),
            forall|i: int|
                0 <= i < self.lanes@.len() ==> #[trigger] step.ids@[i]
                    == self.lanes@[i].tokens@[self.lanes@[i].position(self.step as int)],
            step.sample_from == self.sample_from(),
            step.sample_from <= self.lanes@.len(),
            step.independent_rows == (self.lanes@.len() > 1),
            step.spans@.len() == (if self.lanes@.len() > 1 {
                self.lanes@.len()
            } else {
                0
            }),
            forall|i: int|
                0 <= i < step.spans@.len() ==> #[trigger] step.spans@[i] == (SequenceSpan {
                    row_start: i as usize,
                    rows: 1,
                    start_pos: step.positions@[i],
                }),
    {
        let n: usize = self.lanes.len();
        let mut positions: Vec<usize> = Vec::new();
        let mut ends: Vec<usize> = Vec::new();
        let mut ids: Vec<u32> = Vec::new();
        let mut spans: Vec<SequenceSpan> = Vec::new();
        let mut i: usize = 0;
        while i < n
            invariant
                i <= n == self.lanes@.len(),
                self.wf(),
                !self.stopped,
                self.step < self.max_steps,
                positions@.len() == i,
                ends@.len() == i,
                ids@.len() == i,
                spans@.len() == (if n > 1 {
                    i as int
                } else {
                    0
                }),
                forall|j: int|
                    0 <= j < i ==> #[trigger] positions@[j] == self.lanes@[j].position(
                        self.step as int,
                    ),
                forall|j: int| 0 <= j < i ==> #[trigger] ends@[j] == self.lanes@[j].prompt_end,
                forall|j: int|
                    0 <= j < i ==> #[trigger] ids@[j] == self.lanes@[j].tokens@[
                        self.lanes@[j].position(self.step as int)],
                forall|j: int|
                    0 <= j < spans@.len() ==> #[trigger] spans@[j] == (SequenceSpan {
                        row_start: j as usize,
                        rows: 1,
                        start_pos: positions@[j],
                    }),
            decreases n - i,
        {
            assert(self.lanes@[i as int].start + self.max_steps < usize::MAX);
            let position: usize = self.lanes[i].start + self.step;
            positions.push(position);
            ends.push(self.lanes[i].prompt_end);
            ids.push(self.lanes[i].tokens[position]);
            if n > 1 {
                spans.push(SequenceSpan { row_start: i, rows: 1, start_pos: position });
            }
            i = i + 1;
        }
        proof {
            assert forall|i: int| 0 <= i < n implies (#[trigger] self.lanes@[i]).start + self.step
                < usize::MAX by {
                assert(self.lanes@[i].start + self.max_steps < usize::MAX);
            }
            assert(positions@ =~= positions_at(self.lanes@, self.step as int));
            assert(ends@ =~= ends_of(self.lanes@));
            law_descending_lanes_sample_a_suffix(self.lanes@, self.step as int);
        }
        let sample_from: usize = match sampling_suffix_start(&positions, &ends) {
            Ok(start) => start,
            Err(_) => n,
        };
        let independent_rows: bool = n > 1;
        DecodeStep { positions, ids, sample_from, spans, independent_rows }
    }

    /// Whether any sampled row ends its lane or is not wanted.
    pub open spec fn any_stops(
        rule: EndRule,
        next: Seq<u32>,
        accepted: Seq<bool>,
    ) -> bool {
        exists|row: int|
            0 <= row < next.len() && !kept(rule, #[trigger] next[row], accepted[row])
    }

    /// Records a step: `next` are the sampled tokens, one for each lane of the sampled suffix, and
    /// `accepted` says of each whether its reader wants more.
    pub fn finish(
        &mut self,
        rule: &EndRule,
        next: &Vec<u32>,
        accepted: &Vec<bool>,
        yield_requested: bool,
    ) -> (outcome: StepOutcome)
        requires
            old(self).wf(),
            !old(self).stopped,
            old(self).step < old(self).max_steps,
            next@.len() == old(self).lanes@.len() - old(self).sample_from(),
            accepted@.len() == next@.len(),
            forall|i: int|
                0 <= i < old(self).lanes@.len() ==> (#[trigger] old(self).lanes@[i]).tokens@.len()
                    < usize::MAX,
        ensures
            final(self).wf(),
            final(self).step == old(self).step + 1,
            final(self).max_steps == old(self).max_steps,
            final(self).stopped == outcome.stop,
            outcome.stop == (ParallelDecode::any_stops(*rule, next@, accepted@)
                || yield_requested),
            outcome.snapshots@ == reached(
                old(self).lanes@,
                old(self).step as int,
                old(self).lanes@.len(),
            ),
            final(self).lanes@.len() == old(self).lanes@.len(),
            forall|i: int|
                0 <= i < old(self).lanes@.len() ==> fed(
                    old(self).lanes@[i],
                    #[trigger] final(self).lanes@[i],
                    old(self).step as int,
                ),
            forall|i: int|
                0 <= i < old(self).sample_from() ==> (#[trigger] final(self).lanes@[i]).tokens@
                    == old(self).lanes@[i].tokens@ && final(self).lanes@[i].generated@
                    == old(self).lanes@[i].generated@,
            forall|i: int|
                old(self).sample_from() <= i < old(self).lanes@.len() ==> {
                    let row = i - old(self).sample_from();
                    let lane = #[trigger] final(self).lanes@[i];
                    &&& lane.generated@ == old(self).lanes@[i].generated@.push(next@[row])
                    &&& lane.tokens@ == (if kept(*rule, next@[row], accepted@[row]) {
                        old(self).lanes@[i].tokens@.push(next@[row])
                    } else {
                        old(self).lanes@[i].tokens@
                    })
                },
            forall|prompts: Seq<Vec<u32>>| #[trigger]
                old(self).holds(prompts) ==> final(self).holds(prompts),
    {
        let ghost before = *self;
        let n: usize = self.lanes.len();
        let from: usize = self.plan().sample_from;
        let mut snapshots: Vec<usize> = Vec::new();
        let mut stop: bool = false;
        let mut i: usize = 0;
        proof {
            assert forall|i: int| 0 <= i < n implies (#[trigger] before.lanes@[i]).start
                + before.step < usize::MAX by {
                assert(before.lanes@[i].start + before.max_steps < usize::MAX);
            }
            law_descending_lanes_sample_a_suffix(before.lanes@, before.step as int);
            lemma_first_sampled_found(
                positions_at(before.lanes@, before.step as int),
                ends_of(before.lanes@),
            );
        }
        while i < n
            invariant
                i <= n == self.lanes@.len() == before.lanes@.len(),
                self.step == before.step,
                self.max_steps == before.max_steps,
                self.stopped == before.stopped,
                before.wf(),
                !before.stopped,
                before.step < before.max_steps,
                from == before.sample_from(),
                from <= n,
                next@.len() == n - from,
                accepted@.len() == next@.len(),
                forall|j: int|
                    0 <= j < n ==> (#[trigger] before.lanes@[j]).tokens@.len() < usize::MAX,
                forall|j: int| i <= j < n ==> #[trigger] self.lanes@[j] == before.lanes@[j],
                forall|j: int|
                    0 <= j < i ==> fed(
                        before.lanes@[j],
                        #[trigger] self.lanes@[j],
                        before.step as int,
                    ),
                forall|j: int|
                    0 <= j < i && j < from ==> (#[trigger] self.lanes@[j]).tokens@
                        == before.lanes@[j].tokens@ && self.lanes@[j].generated@
                        == before.lanes@[j].generated@,
                forall|j: int|
                    from <= j < i ==> {
                        let row = j - from;
                        let lane = #[trigger] self.lanes@[j];
                        &&& lane.generated@ == before.lanes@[j].generated@.push(next@[row])
                        &&& lane.tokens@ == (if kept(*rule, next@[row], accepted@[row]) {
                            before.lanes@[j].tokens@.push(next@[row])
                        } else {
                            before.lanes@[j].tokens@
                        })
                    },
                snapshots@ == reached(before.lanes@, before.step as int, i as nat),
                stop == exists|row: int|
                    0 <= row < i - from && !kept(*rule, #[trigger] next@[row], accepted@[row]),
            decreases n - i,
        {
            assert(before.lanes@[i as int].start + before.max_steps < usize::MAX);
            assert(self.lanes@[i as int] == before.lanes@[i as int]);
            let position: usize = self.lanes[i].start + self.step;
            if let Some(b) = self.lanes[i].boundary {
                if b == position + 1 {
                    snapshots.push(i);
                }
            }
            let lane: &mut DecodeLane = &mut self.lanes[i];
            lane.last_written = Some(position);
            if i >= from {
                let row: usize = i - from;
                let token: u32 = next[row];
                lane.generated.push(token);
                if !rule.is_eos(token) && accepted[row] {
                    lane.tokens.push(token);
                } else {
                    stop = true;
                    assert(!kept(*rule, next@[row as int], accepted@[row as int]));
                }
            }
            i = i + 1;
        }
        if yield_requested {
            stop = true;
        }
        self.step = self.step + 1;
        self.stopped = stop;
        proof {
            assert forall|i: int, j: int|
                #![trigger self.lanes@[i], self.lanes@[j]]
                0 <= i <= j < self.lanes@.len() implies remaining_prefill(
                self.lanes@[i].start as int,
                self.lanes@[i].prompt_end as int,
            ) >= remaining_prefill(self.lanes@[j].start as int, self.lanes@[j].prompt_end as int) by {
                assert(fed(before.lanes@[i], self.lanes@[i], before.step as int));
                assert(fed(before.lanes@[j], self.lanes@[j], before.step as int));
            }
            assert forall|i: int| 0 <= i < self.lanes@.len() implies {
                let lane = #[trigger] self.lanes@[i];
                &&& lane.start + self.max_steps < usize::MAX
                &&& lane.prompt_end >= 1
                &&& lane.generated@.len() == generated_by(lane, self.step as int)
                &&& !self.stopped ==> lane.start + self.step < lane.tokens@.len()
                &&& !self.stopped ==> lane.prompt_end <= lane.tokens@.len()
            } by {
                let old_lane = before.lanes@[i];
                assert(fed(old_lane, self.lanes@[i], before.step as int));
                let p = positions_at(before.lanes@, before.step as int);
                assert(samples(p[i], ends_of(before.lanes@)[i]) <==> i >= from);
                if !self.stopped {
                    if i < from {
                        let p = positions_at(before.lanes@, before.step as int);
                        assert(!samples(p[i], ends_of(before.lanes@)[i]));
                    } else {
                        let row = i - from;
                        assert(kept(*rule, next@[row], accepted@[row]));
                    }
                }
            }
        }
        proof {
            assert forall|prompts: Seq<Vec<u32>>| #[trigger]
                before.holds(prompts) implies self.holds(prompts) by {
                assert forall|i: int| 0 <= i < self.lanes@.len() implies {
                    let lane = #[trigger] self.lanes@[i];
                    let whole = prompts[i]@ + lane.generated@;
                    &&& lane.tokens@ == whole || (self.stopped && lane.generated@.len() > 0
                        && lane.tokens@ == whole.drop_last())
                } by {
                    let lane = self.lanes@[i];
                    let old_lane = before.lanes@[i];
                    let old_whole = prompts[i]@ + old_lane.generated@;
                    assert(old_lane.tokens@ == old_whole);
                    if i >= from {
                        let row = i - from;
                        let whole = prompts[i]@ + lane.generated@;
                        assert(whole =~= old_whole.push(next@[row]));
                        assert(whole.drop_last() =~= old_whole);
                        if !kept(*rule, next@[row], accepted@[row]) {
                            assert(self.stopped);
                        }
                    }
                }
            }
        }
        StepOutcome { snapshots, stop }
    }

    /// The tokens to record as resident for a lane when no further step is taken.
    pub fn resident(&self, lane: usize) -> (tokens: Vec<u32>)
        requires
            lane < self.lanes@.len(),
        ensures
            tokens@ == resident(
                self.lanes@[lane as int].tokens@,
                self.lanes@[lane as int].last_written,
            ),
    {
        resident_after_gen(&self.lanes[lane].tokens, self.lanes[lane].last_written)
    }
}

proof fn lemma_descends(req: DecodeRequest, i: int, j: int)
    requires
        descending(req),
        0 <= i <= j < req.prompts@.len(),
    ensures
        remaining_prefill(req.cached@[i]@.len() as int, req.prompt_ends@[i] as int)
            >= remaining_prefill(req.cached@[j]@.len() as int, req.prompt_ends@[j] as int),
    decreases j - i,
{
    if i < j {
        lemma_descends(req, i, j - 1);
        assert(remaining_prefill(
            req.cached@[j - 1]@.len() as int,
            req.prompt_ends@[j - 1] as int,
        ) >= remaining_prefill(req.cached@[j]@.len() as int, req.prompt_ends@[j] as int)) by {
            let a = req.cached@[j - 1];
            let b = req.cached@[j];
        }
    }
}

/// After every step, what a lane records as resident is exactly what was fed to it: its first
/// tokens, up to and with the one of this step.
pub proof fn law_lane_records_what_it_fed(before: DecodeLane, after: DecodeLane, step: int)
    requires
        fed(before, after, step),
        0 <= step,
        before.start + step < before.tokens@.len() <= usize::MAX,
        begins_with(after.tokens@, before.tokens@),
    ensures
        resident(after.tokens@, after.last_written) == before.tokens@.take(before.start + step + 1),
{
    assert(after.tokens@.take(before.tokens@.len() as int) == before.tokens@);
    assert(resident(after.tokens@, after.last_written) =~= before.tokens@.take(
        before.start + step + 1,
    )) by {
        let n = before.start + step + 1;
        assert(after.tokens@.take(n) =~= before.tokens@.take(n)) by {
            assert forall|k: int| 0 <= k < n implies after.tokens@[k] == before.tokens@[k] by {
                assert(after.tokens@.take(before.tokens@.len() as int)[k] == before.tokens@[k]);
            }
        }
    }
}

/// Wherever a cohort stands, a lane records a prefix of its prompt and of what it generated.
pub proof fn law_lanes_record_a_prefix_of_their_turns(
    cohort: ParallelDecode,
    prompts: Seq<Vec<u32>>,
    i: int,
)
    requires
        cohort.holds(prompts),
        0 <= i < cohort.lanes@.len(),
    ensures
        begins_with(
            prompts[i]@ + cohort.lanes@[i].generated@,
            resident(cohort.lanes@[i].tokens@, cohort.lanes@[i].last_written),
        ),
{
    let lane = cohort.lanes@[i];
    let whole = prompts[i]@ + lane.generated@;
    let kept = resident(lane.tokens@, lane.last_written);
    assert(whole.take(kept.len() as int) =~= kept);
}

/// A lane generates at most as many tokens as steps are asked for, less those that feed its prompt.
pub proof fn law_lanes_generate_at_most_the_steps(cohort: ParallelDecode, i: int)
    requires
        cohort.wf(),
        0 <= i < cohort.lanes@.len(),
    ensures
        cohort.lanes@[i].generated@.len() <= cohort.step <= cohort.max_steps,
        cohort.lanes@[i].generated@.len() <= generated_by(
            cohort.lanes@[i],
            cohort.max_steps as int,
        ),
{
}

/// No lane of an accepted cohort records more tokens than its slot holds.
pub proof fn law_lanes_stay_within_their_contexts(
    req: DecodeRequest,
    support: DecodeSupport,
    cohort: ParallelDecode,
    i: int,
)
    requires
        decode_refused(req, support) is None,
        req.capacities@.len() == req.cached@.len(),
        cohort.wf(),
        cohort.max_steps == req.max_steps,
        cohort.lanes@.len() == req.prompts@.len(),
        0 <= i < cohort.lanes@.len(),
        cohort.lanes@[i].start == req.cached@[i]@.len(),
    ensures
        resident(cohort.lanes@[i].tokens@, cohort.lanes@[i].last_written).len()
            <= req.capacities@[i],
{
    if i > 0 {
        lemma_peer_ok(req, req.prompts@.len(), i);
    }
}

} // verus!
