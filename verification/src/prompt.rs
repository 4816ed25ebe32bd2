//! Where a turn starts: what of a prompt is already resident, and what has to be undone first.

use crate::checkpoint::{
    all_lengths, all_off, checkpoint_requests, length_of, recurrent_layers, TurnRecurrentCkpt,
};
use crate::config::Config;
use crate::device::{AllocRequest, DeviceBuffer, DeviceOp};
use crate::error::Error;
use crate::prefix::{
    common_prefix_len, extension_start, first_out_of_vocab, first_tokens,
    lemma_shared_prefix_agrees,
    recurrent_extension_start, shared_prefix, validate_token_ids,
};
use crate::seam_kv::{reset_ops, withdrawn, RestorePlan, SeamKv};
use vstd::prelude::*;

verus! {

/// What a caller wants to keep of a turn.
#[derive(Clone, Copy, Debug, PartialEq, Eq, Structural)]
pub enum TurnCheckpoint {
    /// Keep the buffers ready, but take no snapshot.
    Enable,
    /// Snapshot the state after this many tokens of the prompt.
    Boundary(usize),
}

/// What kind of call a slot is prepared for.
#[derive(Clone, Copy, Debug, PartialEq, Eq, Structural)]
pub enum TurnMode {
    /// The slot was prepared before, and starts here.
    Prepared(usize),
    /// A canvas step, which leaves the resident tokens alone.
    Denoise,
    /// A prompt to be fed.
    Ordinary,
}

/// How a slot gets to where a turn starts.
pub enum TurnRoute {
    /// The start was settled before.
    Prepared(usize),
    /// The resident tokens stay as they are.
    Denoise(usize),
    /// The prompt extends what is resident.
    Live(usize),
    /// The checkpoint is put back, and the prompt extends it.
    Checkpoint { ops: Vec<DeviceOp>, start: usize },
    /// The checkpoint applies but does not fit the slot: `ops` were carried out, and the turn
    /// fails.
    CheckpointFailed { ops: Vec<DeviceOp>, error: Error },
    /// The recurrent state is zeroed, and the prompt is fed from its first token.
    Reset { ops: Vec<DeviceOp> },
    /// The rows of the shared prefix are kept.
    Prefix(usize),
}

/// The smaller of two numbers.
pub open spec fn min(a: int, b: int) -> int {
    if a <= b {
        a
    } else {
        b
    }
}

/// `a - b`, or zero.
pub open spec fn minus(a: int, b: int) -> int {
    if a >= b {
        a - b
    } else {
        0
    }
}

/// The rows that a per-token cache keeps for `prompt`: the shared prefix, but never the whole
/// prompt, so that a token is left to sample the first answer from.
pub open spec fn prefix_start(cached: Seq<u32>, prompt: Seq<u32>) -> int {
    min(shared_prefix(cached, prompt) as int, minus(prompt.len() as int, 1))
}

/// Whether a route is the one that a turn takes.
pub open spec fn routed(route: TurnRoute, slot: SeamKv, cfg: Config, prompt: Seq<u32>, mode: TurnMode) -> bool {
    match mode {
        TurnMode::Prepared(start) => route == TurnRoute::Prepared(start),
        TurnMode::Denoise => route == TurnRoute::Denoise(slot.cached@.len() as usize),
        TurnMode::Ordinary => if !cfg.recurrent() {
            route == TurnRoute::Prefix(prefix_start(slot.cached@, prompt) as usize)
        } else if extension_start(slot.cached@, prompt) is Some {
            route == TurnRoute::Live(slot.cached@.len() as usize)
        } else {
            match slot.checkpoint_start(prompt) {
                Some(len) => if (slot.turn_recurrent_ckpt->0).ple_state is Some
                    == slot.ple_state_buf is Some {
                    route matches TurnRoute::Checkpoint { ops, start } && ops@
                        == slot.restore_copies() && start == len
                } else {
                    route matches TurnRoute::CheckpointFailed { ops, error } && ops@
                        == slot.restore_copies() && error == Error::CheckpointPleTargetDiffers
                },
                None => route matches TurnRoute::Reset { ops } && ops@ == reset_ops(cfg, slot),
            }
        },
    }
}

/// The rows of each sliding-window layer that can lose positions still hold the window before
/// `start` when `depth` tokens are resident.
pub open spec fn ring_safe(
    cfg: Config,
    rows: Seq<usize>,
    max_ctx: usize,
    depth: nat,
    start: int,
    n: nat,
) -> bool {
    forall|l: int|
        0 <= l < n && (#[trigger] cfg.layers@[l]).swa && rows[l] < max_ctx ==> minus(
            start,
            cfg.swa_window as int,
        ) >= minus(depth as int, rows[l] as int)
}

/// Where a turn starts once rings are taken into account: a rewind past what a ring still holds
/// starts over.
pub open spec fn ring_start(slot: SeamKv, cfg: Config, rows: Seq<usize>, start: usize) -> usize {
    if slot.kv_ring && start > 0 && start < slot.cached@.len() && !ring_safe(
        cfg,
        rows,
        slot.max_ctx,
        slot.cached@.len(),
        start as int,
        cfg.layers@.len(),
    ) {
        0
    } else {
        start
    }
}

/// The tokens after which a snapshot is taken: only inside what is newly fed, and only of a
/// recurrent model.
pub open spec fn boundary_of(
    checkpoint: Option<TurnCheckpoint>,
    cfg: Config,
    start: usize,
    prompt_len: nat,
    max_ctx: usize,
) -> Option<usize> {
    match checkpoint {
        Some(TurnCheckpoint::Boundary(boundary)) => if cfg.recurrent() && boundary > start
            && boundary < prompt_len && boundary <= max_ctx {
            Some(boundary)
        } else {
            None
        },
        _ => None,
    }
}

/// Where a prepared prompt starts, and where its snapshot is taken.
#[derive(Clone, Copy, Debug, PartialEq, Eq, Structural)]
pub struct PreparedParallelPrompt {
    pub start: usize,
    pub checkpoint_boundary: Option<usize>,
}

/// See [`boundary_of`].
pub fn checkpoint_boundary(
    checkpoint: Option<TurnCheckpoint>,
    cfg: &Config,
    start: usize,
    prompt_len: usize,
    max_ctx: usize,
) -> (boundary: Option<usize>)
    ensures
        boundary == boundary_of(checkpoint, *cfg, start, prompt_len as nat, max_ctx),
{
    match checkpoint {
        Some(TurnCheckpoint::Boundary(b)) => if cfg.recurrent_model() && b > start && b
            < prompt_len && b <= max_ctx {
            Some(b)
        } else {
            None
        },
        _ => None,
    }
}

/// Whether a request needs more rows than a session has. A parallel token step is checked lane by
/// lane instead: its step budget already holds the part of the prompt that is not resident.
pub open spec fn exceeds_capacity(
    prompt_tokens: int,
    max_new_or_steps: int,
    context_limit: int,
    parallel_token_step: bool,
) -> bool {
    !parallel_token_step && min(
        min(prompt_tokens + max_new_or_steps, usize::MAX as int) + 1,
        usize::MAX as int,
    ) > context_limit
}

/// See [`exceeds_capacity`].
pub fn dense_request_exceeds_capacity(
    prompt_tokens: usize,
    max_new_or_steps: usize,
    context_limit: usize,
    parallel_token_step: bool,
) -> (exceeds: bool)
    ensures
        exceeds == exceeds_capacity(
            prompt_tokens as int,
            max_new_or_steps as int,
            context_limit as int,
            parallel_token_step,
        ),
{
    !parallel_token_step && prompt_tokens.saturating_add(max_new_or_steps).saturating_add(1)
        > context_limit
}

/// Why a request is refused before anything is fed.
pub open spec fn request_refused(
    prompt: Seq<u32>,
    max_new: usize,
    max_ctx: usize,
    vocab: usize,
    parallel_token_step: bool,
    denoise: bool,
) -> Option<Error> {
    if exceeds_capacity(
        prompt.len() as int,
        max_new as int,
        max_ctx as int,
        parallel_token_step,
    ) {
        Some(Error::RequestExceedsSession { prompt: prompt.len() as usize, max_new, max_ctx })
    } else if denoise {
        None
    } else if prompt.len() == 0 {
        Some(Error::EmptyPrompt)
    } else {
        match first_out_of_vocab(prompt, vocab) {
            Some(id) => Some(Error::TokenOutOfRange { id, vocab }),
            None => None,
        }
    }
}

/// Checks a request against a session before anything is fed. A canvas step carries no prompt.
pub fn check_dense_request(
    prompt: &[u32],
    max_new: usize,
    max_ctx: usize,
    vocab: usize,
    parallel_token_step: bool,
    denoise: bool,
) -> (checked: Result<(), Error>)
    ensures
        checked == (match request_refused(
            prompt@,
            max_new,
            max_ctx,
            vocab,
            parallel_token_step,
            denoise,
        ) {
            Some(e) => Err::<(), Error>(e),
            None => Ok(()),
        }),
{
    if dense_request_exceeds_capacity(prompt.len(), max_new, max_ctx, parallel_token_step) {
        return Err(Error::RequestExceedsSession { prompt: prompt.len(), max_new, max_ctx });
    }
    if denoise {
        return Ok(());
    }
    if prompt.len() == 0 {
        return Err(Error::EmptyPrompt);
    }
    validate_token_ids(prompt, vocab)
}

impl SeamKv {
    /// How this slot gets to where `prompt` starts.
    ///
    /// A recurrent state is an append-only summary: it continues only a prompt that extends what
    /// is resident, or what the checkpoint holds, and is otherwise zeroed. A zeroed state is never
    /// assumed, not even when nothing is resident.
    pub fn route_turn(&self, cfg: &Config, prompt: &[u32], mode: TurnMode) -> (route: TurnRoute)
        requires
            self.fits(cfg.layers@.len()),
            cfg.recurrent() ==> cfg.state_fits(),
        ensures
            routed(route, *self, *cfg, prompt@, mode),
    {
        match mode {
            TurnMode::Prepared(start) => TurnRoute::Prepared(start),
            TurnMode::Denoise => TurnRoute::Denoise(self.cached.len()),
            TurnMode::Ordinary => {
                if !cfg.recurrent_model() {
                    let shared: usize = common_prefix_len(&self.cached, prompt);
                    let last: usize = if prompt.len() >= 1 {
                        prompt.len() - 1
                    } else {
                        0
                    };
                    return TurnRoute::Prefix(
                        if shared <= last {
                            shared
                        } else {
                            last
                        },
                    );
                }
                if let Some(start) = recurrent_extension_start(&self.cached, prompt) {
                    return TurnRoute::Live(start);
                }
                let plan: RestorePlan = self.restore_turn_recurrent(cfg, prompt);
                match plan.outcome {
                    Ok(Some(start)) => TurnRoute::Checkpoint { ops: plan.ops, start },
                    Ok(None) => TurnRoute::Reset { ops: self.recurrent_reset_ops(cfg) },
                    Err(error) => TurnRoute::CheckpointFailed { ops: plan.ops, error },
                }
            },
        }
    }

    /// Records that a route was carried out and returns where the turn starts, before rings are
    /// taken into account.
    pub fn follow_route(
        &mut self,
        cfg: &Config,
        prompt: &[u32],
        mode: TurnMode,
        route: &TurnRoute,
    ) -> (start: Result<usize, Error>)
        requires
            old(self).fits(cfg.layers@.len()),
            routed(*route, *old(self), *cfg, prompt@, mode),
        ensures
            final(self).fits(cfg.layers@.len()),
            final(self).same_buffers(old(self)),
            final(self).segmented_kv == old(self).segmented_kv,
            final(self).mtp_delta_ckpt == old(self).mtp_delta_ckpt,
            match *route {
                TurnRoute::Prepared(s) | TurnRoute::Denoise(s) | TurnRoute::Live(s)
                | TurnRoute::Prefix(s) => start == Ok::<usize, Error>(s) && final(self).cached@
                    == old(self).cached@ && final(self).turn_recurrent_ckpt
                    == old(self).turn_recurrent_ckpt,
                TurnRoute::Checkpoint { start: s, .. } => start == Ok::<usize, Error>(s) && Some(
                    final(self).cached@,
                ) == old(self).published() && final(self).turn_recurrent_ckpt
                    == old(self).turn_recurrent_ckpt,
                TurnRoute::CheckpointFailed { error, .. } => start == Err::<usize, Error>(error)
                    && *final(self) == *old(self),
                TurnRoute::Reset { .. } => start == Ok::<usize, Error>(0usize)
                    && final(self).cached@.len() == 0 && final(self).published() is None && withdrawn(
                    old(self).turn_recurrent_ckpt,
                    final(self).turn_recurrent_ckpt,
                ),
            },
            old(self).within_context() ==> final(self).within_context(),
    {
        match route {
            TurnRoute::Prepared(s) => Ok(*s),
            TurnRoute::Denoise(s) => Ok(*s),
            TurnRoute::Live(s) => Ok(*s),
            TurnRoute::Prefix(s) => Ok(*s),
            TurnRoute::Checkpoint { ops, start } => {
                self.restored_turn_recurrent();
                Ok(*start)
            },
            TurnRoute::CheckpointFailed { ops, error } => Err(*error),
            TurnRoute::Reset { ops } => {
                self.reset();
                Ok(0)
            },
        }
    }

    /// See [`ring_start`]. `rows` are the rows that each layer's ring has.
    pub fn ring_checked_start(&self, cfg: &Config, rows: &Vec<usize>, start: usize) -> (checked: usize)
        requires
            rows@.len() == cfg.layers@.len(),
        ensures
            checked == ring_start(*self, *cfg, rows@, start),
    {
        if self.kv_ring && start > 0 && start < self.cached.len() {
            let depth: usize = self.cached.len();
            let kept: usize = start.saturating_sub(cfg.swa_window);
            let n: usize = cfg.layers.len();
            let mut l: usize = 0;
            while l < n
                invariant
                    l <= n == cfg.layers@.len() == rows@.len(),
                    depth == self.cached@.len(),
                    kept == minus(start as int, cfg.swa_window as int),
                    ring_safe(*cfg, rows@, self.max_ctx, depth as nat, start as int, l as nat),
                    self.kv_ring,
                    0 < start < depth,
                decreases n - l,
            {
                if cfg.layers[l].swa && rows[l] < self.max_ctx && kept < depth.saturating_sub(
                    rows[l],
                ) {
                    assert(!ring_safe(
                        *cfg,
                        rows@,
                        self.max_ctx,
                        depth as nat,
                        start as int,
                        n as nat,
                    )) by {
                        assert(cfg.layers@[l as int].swa);
                    }
                    return 0;
                }
                l = l + 1;
            }
        }
        start
    }

    /// Settles where a cohort's lane starts: the ring decides first, then the snapshot boundary.
    pub fn prepare_parallel_prompt_state(
        &self,
        cfg: &Config,
        prompt_len: usize,
        start: usize,
        rows: &Vec<usize>,
        checkpoint: Option<TurnCheckpoint>,
    ) -> (prepared: PreparedParallelPrompt)
        requires
            rows@.len() == cfg.layers@.len(),
        ensures
            prepared.start == ring_start(*self, *cfg, rows@, start),
            prepared.checkpoint_boundary == boundary_of(
                checkpoint,
                *cfg,
                prepared.start,
                prompt_len as nat,
                self.max_ctx,
            ),
    {
        let settled: usize = self.ring_checked_start(cfg, rows, start);
        PreparedParallelPrompt {
            start: settled,
            checkpoint_boundary: checkpoint_boundary(
                checkpoint,
                cfg,
                settled,
                prompt_len,
                self.max_ctx,
            ),
        }
    }

    /// Settles where an ordinary turn starts: the snapshot boundary is decided before the ring. A
    /// turn that was prepared keeps its start.
    pub fn settle_turn(
        &self,
        cfg: &Config,
        prompt_len: usize,
        start: usize,
        rows: &Vec<usize>,
        checkpoint: Option<TurnCheckpoint>,
        prepared: Option<PreparedParallelPrompt>,
    ) -> (settled: PreparedParallelPrompt)
        requires
            rows@.len() == cfg.layers@.len(),
        ensures
            prepared matches Some(lane) ==> settled == (PreparedParallelPrompt {
                start,
                checkpoint_boundary: lane.checkpoint_boundary,
            }),
            prepared is None ==> settled.start == ring_start(*self, *cfg, rows@, start),
            prepared is None ==> settled.checkpoint_boundary == boundary_of(
                checkpoint,
                *cfg,
                start,
                prompt_len as nat,
                self.max_ctx,
            ),
    {
        match prepared {
            Some(lane) => PreparedParallelPrompt {
                start,
                checkpoint_boundary: lane.checkpoint_boundary,
            },
            None => PreparedParallelPrompt {
                start: self.ring_checked_start(cfg, rows, start),
                checkpoint_boundary: checkpoint_boundary(
                    checkpoint,
                    cfg,
                    start,
                    prompt_len,
                    self.max_ctx,
                ),
            },
        }
    }

    /// What the snapshot of a turn needs before the turn is fed.
    pub fn turn_checkpoint_requests(&self, cfg: &Config) -> (requests: Result<
        Vec<AllocRequest>,
        Error,
    >)
        requires
            self.fits(cfg.layers@.len()),
        ensures
            requests is Err <==> (self.turn_recurrent_ckpt matches Some(ck) && (
            ck.ple_state is Some) != (self.ple_state_buf is Some)),
            requests matches Err(e) ==> e == Error::CheckpointPleShapeChanged,
            requests matches Ok(list) ==> list@ == (if self.turn_recurrent_ckpt is Some
                || recurrent_layers(*cfg).len() == 0 {
                Seq::empty()
            } else {
                checkpoint_requests(
                    *cfg,
                    all_lengths(self.caches.k@),
                    all_lengths(self.caches.v@),
                    length_of(self.ple_state_buf),
                )
            }),
    {
        TurnRecurrentCkpt::begin(
            &self.turn_recurrent_ckpt,
            cfg,
            &self.caches.k,
            &self.caches.v,
            self.ple_state_buf,
        )
    }

    /// Begins the snapshot of `prompt` up to `boundary`, on the buffers that
    /// [`SeamKv::turn_checkpoint_requests`] asked for.
    pub fn begin_turn_checkpoint(
        &mut self,
        cfg: &Config,
        allocated: &Vec<DeviceBuffer>,
        prompt: &[u32],
        boundary: usize,
    )
        requires
            old(self).fits(cfg.layers@.len()),
            boundary <= prompt@.len(),
            old(self).turn_recurrent_ckpt matches Some(ck) ==> ck.ple_state is Some
                == old(self).ple_state_buf is Some,
            old(self).turn_recurrent_ckpt is None && recurrent_layers(*cfg).len() > 0
                ==> allocated@.len() == 2 * recurrent_layers(*cfg).len() + (
            if old(self).ple_state_buf is Some {
                1int
            } else {
                0int
            }),
        ensures
            final(self).fits(cfg.layers@.len()),
            final(self).same_buffers(old(self)),
            final(self).segmented_kv == old(self).segmented_kv,
            final(self).mtp_delta_ckpt == old(self).mtp_delta_ckpt,
            final(self).cached@ == old(self).cached@,
            final(self).turn_recurrent_ckpt is Some <==> old(self).turn_recurrent_ckpt is Some
                || recurrent_layers(*cfg).len() > 0,
            final(self).turn_recurrent_ckpt matches Some(ck) ==> {
                &&& ck.tokens@ == prompt@.take(boundary as int)
                &&& !ck.valid
                &&& ck.ple_copied == (old(self).ple_state_buf is None)
                &&& match old(self).turn_recurrent_ckpt {
                    Some(before) => ck.same_buffers(&before) && ck.copied@ == all_off(
                        before.copied@.len(),
                    ),
                    None => ck.made_of(*cfg, old(self).ple_state_buf is Some, allocated@)
                        && ck.copied@ == all_off(recurrent_layers(*cfg).len()),
                }
            },
            old(self).within_context() && boundary <= old(self).max_ctx
                ==> final(self).within_context(),
    {
        let tokens: Vec<u32> = first_tokens(prompt, boundary);
        let with_ple: bool = self.ple_state_buf.is_some();
        let n_layer: usize = cfg.layers.len();
        proof {
            crate::checkpoint::lemma_recurrent_layers(*cfg, n_layer as nat);
        }
        TurnRecurrentCkpt::adopt(
            &mut self.turn_recurrent_ckpt,
            cfg,
            with_ple,
            allocated,
            &tokens,
        );
    }

    /// Drops the resident tokens from `start` on.
    pub fn truncate_cached(&mut self, start: usize)
        ensures
            final(self).same_buffers(old(self)),
            final(self).segmented_kv == old(self).segmented_kv,
            final(self).mtp_delta_ckpt == old(self).mtp_delta_ckpt,
            final(self).turn_recurrent_ckpt == old(self).turn_recurrent_ckpt,
            final(self).cached@ == old(self).cached@.take(
                min(start as int, old(self).cached@.len() as int),
            ),
            old(self).within_context() ==> final(self).within_context(),
    {
        self.cached.truncate(start);
        assert(self.cached@ =~= old(self).cached@.take(
            min(start as int, old(self).cached@.len() as int),
        ));
    }
}

/// Wherever an ordinary turn starts, the tokens before the start are the prompt's own and are
/// resident, at least one token of a nonempty prompt is left to feed, and a snapshot boundary lies
/// after the start and inside the prompt.
pub proof fn law_a_turn_starts_inside_its_prompt(
    slot: SeamKv,
    cfg: Config,
    prompt: Seq<u32>,
    route: TurnRoute,
    rows: Seq<usize>,
    checkpoint: Option<TurnCheckpoint>,
)
    requires
        routed(route, slot, cfg, prompt, TurnMode::Ordinary),
        slot.cached@.len() <= usize::MAX,
        slot.published() matches Some(tokens) ==> tokens.len() <= usize::MAX,
        0 < prompt.len() <= usize::MAX,
    ensures
        match route {
            TurnRoute::Live(start) | TurnRoute::Prefix(start) => start < prompt.len() && start
                <= slot.cached@.len() && slot.cached@.take(start as int) == prompt.take(
                start as int,
            ),
            TurnRoute::Checkpoint { start, .. } => 0 < start < prompt.len() && slot.published()
                == Some(prompt.take(start as int)),
            TurnRoute::Reset { .. } | TurnRoute::CheckpointFailed { .. } => true,
            TurnRoute::Prepared(_) | TurnRoute::Denoise(_) => false,
        },
        forall|start: usize|
            (#[trigger] boundary_of(checkpoint, cfg, start, prompt.len(), slot.max_ctx)) matches Some(
                b,
            ) ==> start < b < prompt.len(),
        forall|start: usize| (#[trigger] ring_start(slot, cfg, rows, start)) <= start,
{
    lemma_shared_prefix_agrees(slot.cached@, prompt);
    match route {
        TurnRoute::Live(start) => {
            assert(slot.cached@.take(start as int) =~= slot.cached@);
        },
        TurnRoute::Prefix(start) => {
            assert(slot.cached@.take(start as int) =~= prompt.take(start as int));
        },
        _ => {},
    }
}

/// A start that the ring guard lets through never attends a row that was overwritten: each position
/// of the window before it is still held by every layer that can lose positions.
pub proof fn law_ring_guard_protects_the_window(
    slot: SeamKv,
    cfg: Config,
    rows: Seq<usize>,
    start: usize,
    l: int,
    position: int,
)
    requires
        slot.kv_ring,
        0 < start < slot.cached@.len(),
        ring_start(slot, cfg, rows, start) == start,
        0 <= l < cfg.layers@.len(),
        cfg.layers@[l].swa,
        rows[l] < slot.max_ctx,
        0 <= position < start,
        position >= start - cfg.swa_window,
    ensures
        position >= slot.cached@.len() - rows[l],
{
}

} // verus!
