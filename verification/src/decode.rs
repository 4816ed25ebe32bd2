//! The token loop of one sequence: feeding the rest of the prompt, sampling, and recording which
//! rows were written.

use crate::parallel_decode::EndRule;
use crate::prefix::{begins_with, extension_start, first_tokens, resident, resident_after_gen};
use crate::prompt::{exceeds_capacity, min};
use vstd::prelude::*;

verus! {

/// The slots of the ring that holds the draws of sampled tokens.
pub const RING: usize = 64;

/// What allows several tokens to be decoded in one submission.
#[derive(Clone, Copy, Debug, PartialEq, Eq, Structural)]
pub struct ChainGate {
    pub can_chain: bool,
    /// The tokens asked for, and the tokens that the device takes at once.
    pub wanted: usize,
    pub device: usize,
    /// A caller waits for the logits of the next sampled row.
    pub wants_logits: bool,
}

/// What the loop does next.
#[derive(Clone, Copy, Debug, PartialEq, Eq, Structural)]
pub enum LoopAction {
    /// The turn is over.
    Stop,
    /// Decode `n` tokens in one submission, beginning with `token` at `pos`.
    Chain { pos: usize, token: u32, n: usize },
    /// Feed `token` at `pos`, and sample its row if `sample`.
    Step { pos: usize, token: u32, sample: bool },
}

/// What the loop does after a step.
#[derive(Clone, Copy, Debug, PartialEq, Eq, Structural)]
pub enum StepResult {
    /// The row was not sampled.
    Fed,
    /// One token was sampled.
    Sampled { token: u32, abort: bool },
}

/// What a call did.
#[derive(Clone, Copy, Debug, PartialEq, Eq, Structural)]
pub struct GenCounts {
    pub n_prompt: usize,
    pub n_cached: usize,
    pub n_gen: usize,
}

/// The loop's state.
pub struct DecodeLoop {
    pub prompt_len: usize,
    pub max_new: usize,
    /// The tokens to feed: the prompt, then what was generated and kept.
    pub cur: Vec<u32>,
    /// The tokens generated.
    pub out: Vec<u32>,
    /// The position of the next token to feed.
    pub pos: usize,
    /// The last row written.
    pub last_written: Option<usize>,
    /// The turn is over.
    pub done: bool,
}

/// The row before `pos`, if there is one.
pub open spec fn row_before(pos: int) -> Option<usize> {
    if pos > 0 {
        Some((pos - 1) as usize)
    } else {
        None
    }
}

/// The tokens of one submission: what is asked for, what may still be generated, and what the ring
/// and the device take.
pub open spec fn chain_len(gate: ChainGate, room: int) -> int {
    min(min(min(gate.wanted as int, room), RING as int), gate.device as int)
}

/// The next of a list of chained tokens ends the turn.
pub open spec fn chain_stops(
    rule: EndRule,
    token: u32,
    generated: nat,
    max_new: usize,
    abort: bool,
) -> bool {
    rule.ends(token) || generated >= max_new || abort
}

impl DecodeLoop {
    /// The loop has fed a prefix of its tokens, has a token to feed, and keeps within its budget.
    pub open spec fn wf(&self) -> bool {
        &&& self.prompt_len >= 1
        &&& self.prompt_len + self.max_new < usize::MAX
        &&& self.prompt_len <= self.cur@.len()
        &&& self.cur@.len() <= usize::MAX
        &&& begins_with(self.prompt() + self.out@, self.cur@)
        &&& self.last_written matches Some(p) ==> p < self.prompt_len + self.max_new
        &&& !self.done ==> self.pos < self.cur@.len()
        &&& !self.done ==> self.last_written == row_before(self.pos as int)
        &&& !self.done ==> self.cur@.len() == self.prompt_len + self.out@.len()
        &&& !self.done ==> self.out@ == self.cur@.skip(self.prompt_len as int)
    }

    /// The prompt of the turn.
    pub open spec fn prompt(&self) -> Seq<u32> {
        self.cur@.take(self.prompt_len as int)
    }

    /// No grammar decided a row of the turn: each generated token was sampled from the row of the
    /// one before it, and the budget was kept.
    pub open spec fn sampled_only(&self) -> bool {
        &&& self.out@.len() <= self.max_new
        &&& self.out@.len() == 0 ==> (self.last_written matches Some(p) ==> p + 1
            < self.prompt_len)
        &&& self.out@.len() > 0 ==> {
            &&& self.last_written == Some((self.prompt_len + self.out@.len() - 2) as usize)
            &&& self.prompt_len + self.out@.len() - 1 <= self.cur@.len()
        }
    }

    /// The token to feed is the newest one.
    pub open spec fn at_frontier(&self) -> bool {
        self.pos + 1 == self.cur@.len()
    }

    /// The token to feed is the last of the prompt, or past it.
    pub open spec fn is_decode(&self) -> bool {
        self.pos + 1 >= self.prompt_len
    }

    /// Nothing is left to do: the budget is spent and the prompt is fed up to its last token.
    pub open spec fn spent(&self) -> bool {
        self.pos >= self.prompt_len + self.max_new || (self.out@.len() >= self.max_new
            && self.is_decode())
    }

    /// What the loop does next.
    pub open spec fn action(&self, abort: bool, gate: ChainGate) -> LoopAction {
        if self.done || self.spent() || abort {
            LoopAction::Stop
        } else if gate.can_chain && self.is_decode() && self.at_frontier() && !gate.wants_logits
            && chain_len(gate, self.max_new - self.out@.len()) >= 2 {
            LoopAction::Chain {
                pos: self.pos,
                token: self.cur@[self.pos as int],
                n: chain_len(gate, self.max_new - self.out@.len()) as usize,
            }
        } else {
            LoopAction::Step {
                pos: self.pos,
                token: self.cur@[self.pos as int],
                sample: self.is_decode() && self.at_frontier(),
            }
        }
    }

    /// A loop that goes on after the first `start` tokens of `prompt` were fed.
    pub fn new(prompt: &[u32], start: usize, max_new: usize) -> (state: DecodeLoop)
        requires
            prompt@.len() >= 1,
            start < prompt@.len(),
            prompt@.len() + max_new < usize::MAX,
        ensures
            state.wf(),
            state.prompt_len == prompt@.len(),
            state.max_new == max_new,
            state.cur@ == prompt@,
            state.out@.len() == 0,
            state.pos == start,
            state.last_written == row_before(start as int),
            !state.done,
            state.prompt() == prompt@,
            state.sampled_only(),
    {
        let cur: Vec<u32> = first_tokens(prompt, prompt.len());
        assert(prompt@.take(prompt@.len() as int) =~= prompt@);
        let out: Vec<u32> = Vec::new();
        assert(out@ =~= cur@.skip(prompt@.len() as int));
        assert(cur@.take(prompt@.len() as int) =~= prompt@);
        assert(prompt@ + out@ =~= cur@);
        DecodeLoop {
            prompt_len: prompt.len(),
            max_new,
            cur,
            out,
            pos: start,
            last_written: start.checked_sub(1),
            done: false,
        }
    }

    /// What to do next. A turn with nothing to generate still feeds its prompt, all but the last
    /// token.
    pub fn next(&self, abort: bool, gate: ChainGate) -> (action: LoopAction)
        requires
            self.wf(),
        ensures
            action == self.action(abort, gate),
    {
        if self.done || self.pos >= self.prompt_len + self.max_new {
            return LoopAction::Stop;
        }
        let is_decode: bool = self.pos + 1 >= self.prompt_len;
        if self.out.len() >= self.max_new && is_decode {
            return LoopAction::Stop;
        }
        if abort {
            return LoopAction::Stop;
        }
        let frontier: bool = self.pos + 1 == self.cur.len();
        if gate.can_chain && is_decode && frontier && !gate.wants_logits {
            let room: usize = self.max_new - self.out.len();
            let mut n: usize = gate.wanted;
            if room < n {
                n = room;
            }
            if RING < n {
                n = RING;
            }
            if gate.device < n {
                n = gate.device;
            }
            if n >= 2 {
                return LoopAction::Chain { pos: self.pos, token: self.cur[self.pos], n };
            }
        }
        LoopAction::Step {
            pos: self.pos,
            token: self.cur[self.pos],
            sample: is_decode && frontier,
        }
    }

    /// The slot of the ring that the draw of a sampled step goes to: its position's where one
    /// recording is replayed, the first otherwise.
    pub fn uniform_slot(pos: usize, record_once: bool) -> (slot: usize)
        ensures
            slot == (if record_once {
                pos % RING
            } else {
                0
            }),
            slot < RING,
    {
        if record_once {
            pos % RING
        } else {
            0
        }
    }

    /// Whether a snapshot is due after the step at `pos`.
    pub fn snapshot_due(&self, boundary: Option<usize>) -> (due: bool)
        requires
            self.wf(),
            !self.done,
        ensures
            due == (boundary == Some((self.pos + 1) as usize)),
    {
        match boundary {
            Some(b) => b == self.pos + 1,
            None => false,
        }
    }

    /// Ends the turn without feeding anything more.
    pub fn stop(&mut self)
        requires
            old(self).wf(),
        ensures
            final(self).wf(),
            final(self).done,
            final(self).cur@ == old(self).cur@,
            final(self).out@ == old(self).out@,
            final(self).last_written == old(self).last_written,
            final(self).prompt_len == old(self).prompt_len,
            final(self).max_new == old(self).max_new,
            final(self).pos == old(self).pos,
            final(self).prompt() == old(self).prompt(),
            old(self).sampled_only() ==> final(self).sampled_only(),
    {
        self.done = true;
    }

    /// Records a step that was fed and, where its row was sampled, the sampled token. The token
    /// itself has no row yet: it is fed by the next step, if there is one.
    pub fn step(&mut self, rule: &EndRule, result: StepResult)
        requires
            old(self).wf(),
            !old(self).done,
            !old(self).spent(),
            (result is Sampled) == (old(self).is_decode() && old(self).at_frontier()),
        ensures
            final(self).wf(),
            final(self).prompt_len == old(self).prompt_len,
            final(self).max_new == old(self).max_new,
            final(self).last_written == Some(old(self).pos),
            final(self).prompt() == old(self).prompt(),
            old(self).sampled_only() ==> final(self).sampled_only(),
            match result {
                StepResult::Fed => {
                    &&& !final(self).done
                    &&& final(self).pos == old(self).pos + 1
                    &&& final(self).cur@ == old(self).cur@
                    &&& final(self).out@ == old(self).out@
                },
                StepResult::Sampled { token, abort } => {
                    &&& final(self).out@ == old(self).out@.push(token)
                    &&& final(self).done == chain_stops(
                        *rule,
                        token,
                        old(self).out@.len() + 1,
                        old(self).max_new,
                        abort,
                    )
                    &&& final(self).done ==> final(self).cur@ == old(self).cur@
                        && final(self).pos == old(self).pos
                    &&& !final(self).done ==> final(self).cur@ == old(self).cur@.push(token)
                        && final(self).pos == old(self).pos + 1
                },
            },
    {
        let ghost before = *self;
        self.last_written = Some(self.pos);
        match result {
            StepResult::Fed => {
                self.pos = self.pos + 1;
            },
            StepResult::Sampled { token, abort } => {
                self.out.push(token);
                proof {
                    lemma_token_added(before, token);
                }
                if rule.is_eos(token) || self.out.len() >= self.max_new || abort {
                    self.done = true;
                } else {
                    self.cur.push(token);
                    self.pos = self.pos + 1;
                    assert(self.out@ =~= self.cur@.skip(self.prompt_len as int));
                }
            },
        }
    }

    /// Records a step whose row a grammar decided: `tokens` are queued to be fed, and `finished` is
    /// whether the grammar is through. No token ends the grammar's span, and the turn with it.
    pub fn step_constrained(&mut self, tokens: &Vec<u32>, finished: bool, abort: bool)
        requires
            old(self).wf(),
            !old(self).done,
            !old(self).spent(),
            old(self).is_decode() && old(self).at_frontier(),
            old(self).cur@.len() + tokens@.len() <= usize::MAX,
        ensures
            final(self).wf(),
            final(self).prompt_len == old(self).prompt_len,
            final(self).max_new == old(self).max_new,
            final(self).last_written == Some(old(self).pos),
            final(self).prompt() == old(self).prompt(),
            final(self).out@ == old(self).out@ + tokens@,
            final(self).cur@ == old(self).cur@ + tokens@,
            final(self).done == (tokens@.len() == 0 || finished || old(self).out@.len()
                + tokens@.len() >= old(self).max_new || abort),
            final(self).pos == (if final(self).done {
                old(self).pos as int
            } else {
                old(self).pos + 1
            }),
    {
        let ghost before = *self;
        self.last_written = Some(self.pos);
        let mut i: usize = 0;
        while i < tokens.len()
            invariant
                i <= tokens@.len(),
                self.out@ == before.out@ + tokens@.take(i as int),
                self.cur@ == before.cur@ + tokens@.take(i as int),
                self.prompt_len == before.prompt_len,
                self.max_new == before.max_new,
                self.pos == before.pos,
                self.done == before.done,
                self.last_written == Some(before.pos),
            decreases tokens@.len() - i,
        {
            let token: u32 = tokens[i];
            self.out.push(token);
            self.cur.push(token);
            i = i + 1;
            assert(self.out@ =~= before.out@ + tokens@.take(i as int));
            assert(self.cur@ =~= before.cur@ + tokens@.take(i as int));
        }
        assert(tokens@.take(i as int) =~= tokens@);
        assert(self.out@ =~= self.cur@.skip(self.prompt_len as int));
        assert(self.prompt() =~= before.prompt());
        assert(self.prompt() + self.out@ =~= self.cur@);
        assert(self.cur@.take(self.cur@.len() as int) =~= self.cur@);
        if tokens.len() == 0 || finished || self.out.len() >= self.max_new || abort {
            self.done = true;
        } else {
            self.pos = self.pos + 1;
        }
    }

    /// Records one token of a submission that decoded several. The token before it was fed, so its
    /// row is written. Returns whether the turn is over; the rest of the submission is then dropped.
    pub fn chained(&mut self, rule: &EndRule, token: u32, abort: bool) -> (stopped: bool)
        requires
            old(self).wf(),
            !old(self).done,
            old(self).is_decode() && old(self).at_frontier(),
            old(self).out@.len() < old(self).max_new,
        ensures
            final(self).wf(),
            final(self).prompt_len == old(self).prompt_len,
            final(self).max_new == old(self).max_new,
            final(self).last_written == Some(old(self).pos),
            final(self).prompt() == old(self).prompt(),
            old(self).sampled_only() ==> final(self).sampled_only(),
            final(self).out@ == old(self).out@.push(token),
            stopped == chain_stops(
                *rule,
                token,
                old(self).out@.len() + 1,
                old(self).max_new,
                abort,
            ),
            final(self).done == stopped,
            rule.ends(token) ==> final(self).cur@ == old(self).cur@,
            !rule.ends(token) ==> final(self).cur@ == old(self).cur@.push(token),
            final(self).pos == (if stopped {
                old(self).pos as int
            } else {
                old(self).pos + 1
            }),
            !stopped ==> final(self).is_decode() && final(self).at_frontier(),
            !stopped ==> final(self).out@.len() < final(self).max_new,
    {
        let ghost before = *self;
        self.last_written = Some(self.pos);
        self.out.push(token);
        proof {
            lemma_token_added(before, token);
        }
        if rule.is_eos(token) {
            self.done = true;
            return true;
        }
        self.cur.push(token);
        assert(self.out@ =~= self.cur@.skip(self.prompt_len as int));
        if self.out.len() >= self.max_new || abort {
            self.done = true;
            return true;
        }
        self.pos = self.pos + 1;
        false
    }

    /// The tokens to record as resident.
    pub fn resident(&self) -> (tokens: Vec<u32>)
        ensures
            tokens@ == resident(self.cur@, self.last_written),
    {
        resident_after_gen(&self.cur, self.last_written)
    }

    /// What this call did, when it began after `start` tokens of the prompt.
    pub fn counts(&self, start: usize) -> (counts: GenCounts)
        requires
            start <= self.prompt_len,
        ensures
            counts == (GenCounts {
                n_prompt: (self.prompt_len - start) as usize,
                n_cached: start,
                n_gen: self.out@.len() as usize,
            }),
    {
        GenCounts {
            n_prompt: self.prompt_len - start,
            n_cached: start,
            n_gen: self.out.len(),
        }
    }
}

/// A token that was sampled goes on from what the turn has fed and generated.
proof fn lemma_token_added(before: DecodeLoop, token: u32)
    requires
        before.wf(),
        !before.done,
    ensures
        before.prompt() + before.out@ == before.cur@,
        before.cur@.push(token).take(before.prompt_len as int) == before.prompt(),
        before.prompt() + before.out@.push(token) == before.cur@.push(token),
        begins_with(before.cur@.push(token), before.cur@),
        begins_with(before.cur@.push(token), before.cur@.push(token)),
{
    assert(before.prompt() + before.out@ =~= before.cur@);
    assert(before.cur@.push(token).take(before.prompt_len as int) =~= before.prompt());
    assert(before.prompt() + before.out@.push(token) =~= before.cur@.push(token));
    assert(before.cur@.push(token).take(before.cur@.len() as int) =~= before.cur@);
    assert(before.cur@.push(token).take((before.cur@.len() + 1) as int) =~= before.cur@.push(token));
}

/// A whole turn, wherever it stands: the resident tokens are the prompt and all but the last of what
/// was generated, or, before anything is generated, a proper prefix of the prompt; and no more is
/// generated than was asked for.
pub proof fn law_a_turn_records_its_prompt_and_what_it_fed(state: DecodeLoop)
    requires
        state.wf(),
        state.sampled_only(),
    ensures
        state.out@.len() <= state.max_new,
        state.out@.len() > 0 ==> resident(state.cur@, state.last_written) == state.prompt()
            + state.out@.drop_last(),
        state.out@.len() == 0 ==> resident(state.cur@, state.last_written).len()
            < state.prompt_len && begins_with(
            state.prompt(),
            resident(state.cur@, state.last_written),
        ),
{
    let whole = state.prompt() + state.out@;
    let kept = resident(state.cur@, state.last_written);
    assert(state.cur@ == whole.take(state.cur@.len() as int));
    if state.out@.len() > 0 {
        let n = state.prompt_len + state.out@.len() - 1;
        assert(kept == state.cur@.take(n));
        assert(kept =~= whole.take(n)) by {
            assert forall|k: int| 0 <= k < n implies kept[k] == whole[k] by {
                assert(state.cur@[k] == whole.take(state.cur@.len() as int)[k]);
            }
        }
        assert(whole.take(n) =~= state.prompt() + state.out@.drop_last());
    } else {
        assert(state.prompt().take(kept.len() as int) =~= kept);
    }
}

/// Whatever decided its rows, a turn records a prefix of its prompt and of what it generated.
pub proof fn law_a_turn_records_a_prefix_of_itself(state: DecodeLoop)
    requires
        state.wf(),
    ensures
        begins_with(state.prompt() + state.out@, resident(state.cur@, state.last_written)),
{
    let whole = state.prompt() + state.out@;
    let kept = resident(state.cur@, state.last_written);
    assert(state.cur@ == whole.take(state.cur@.len() as int));
    assert(whole.take(kept.len() as int) =~= kept) by {
        assert forall|k: int| 0 <= k < kept.len() implies whole[k] == kept[k] by {
            assert(state.cur@[k] == whole.take(state.cur@.len() as int)[k]);
        }
    }
}

/// A turn is continued by the next one: a prompt that repeats the turn and goes on starts where the
/// resident tokens end, if there are any.
pub proof fn law_the_next_turn_continues_this_one(state: DecodeLoop, more: Seq<u32>)
    requires
        state.wf(),
        more.len() > 0,
        resident(state.cur@, state.last_written).len() > 0,
    ensures
        extension_start(
            resident(state.cur@, state.last_written),
            state.prompt() + state.out@ + more,
        ) == Some(resident(state.cur@, state.last_written).len() as usize),
{
    let whole = state.prompt() + state.out@;
    let kept = resident(state.cur@, state.last_written);
    law_a_turn_records_a_prefix_of_itself(state);
    assert((whole + more).take(kept.len() as int) =~= whole.take(kept.len() as int));
}

/// Between two steps, what would be recorded as resident is exactly what was fed: the tokens before
/// the next position.
pub proof fn law_resident_is_what_was_fed(state: DecodeLoop)
    requires
        state.wf(),
        !state.done,
    ensures
        resident(state.cur@, state.last_written) == state.cur@.take(state.pos as int),
{
    assert(state.cur@.take(0) =~= Seq::<u32>::empty());
}

/// A sampled token that ended its turn was never fed, and is not recorded as resident: the rows end
/// with the token that was fed to sample it.
pub proof fn law_last_sampled_token_is_not_resident(
    before: DecodeLoop,
    after: DecodeLoop,
    token: u32,
)
    requires
        before.wf(),
        !before.done,
        before.at_frontier(),
        after.last_written == Some(before.pos),
        after.cur@ == before.cur@ || after.cur@ == before.cur@.push(token),
    ensures
        resident(after.cur@, after.last_written) == before.cur@,
{
    assert(resident(after.cur@, after.last_written) =~= before.cur@);
}

/// A turn with nothing to generate feeds its prompt up to the last token and stops before it.
pub proof fn law_prefill_only_turn_leaves_the_frontier(state: DecodeLoop, gate: ChainGate)
    requires
        state.wf(),
        !state.done,
        state.max_new == 0,
        state.pos + 1 <= state.prompt_len,
    ensures
        state.pos + 1 < state.prompt_len ==> state.action(false, gate) == (LoopAction::Step {
            pos: state.pos,
            token: state.cur@[state.pos as int],
            sample: false,
        }),
        state.pos + 1 == state.prompt_len ==> state.action(false, gate) == LoopAction::Stop
            && resident(state.cur@, state.last_written) == state.cur@.take(state.prompt_len - 1),
{
    law_resident_is_what_was_fed(state);
}

/// The draws of one submission go to distinct slots of the ring.
pub proof fn law_chain_draws_do_not_collide(pos: int, i: int, j: int)
    requires
        0 <= pos,
        0 <= i < j < RING,
    ensures
        (pos + i) % (RING as int) != (pos + j) % (RING as int),
{
}

/// A turn that was accepted for its session never records more tokens than the session holds.
pub proof fn law_an_accepted_turn_stays_within_its_context(state: DecodeLoop, max_ctx: usize)
    requires
        state.wf(),
        !exceeds_capacity(
            state.prompt_len as int,
            state.max_new as int,
            max_ctx as int,
            false,
        ),
    ensures
        resident(state.cur@, state.last_written).len() < max_ctx,
{
}

} // verus!
