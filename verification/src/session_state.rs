//! A conversation's state as it is stored and restored: what describes it, and which buffers hold
//! it.

use crate::checkpoint::{
    all_lengths, checkpoint_requests, first_index, length_of, position_of, recurrent_layers,
    TurnRecurrentCkpt,
};
use crate::config::{Config, KvFormat};
use crate::device::{AllocRequest, DeviceBuffer, DeviceOp};
use crate::error::Error;
use crate::prefix::{
    checkpoint_extension_start, continuation, first_tokens, live_prefix_len, longest_prefix,
};
use crate::restore_order::law_a_restore_asks_for_each_key_once;
use crate::seam_kv::SeamKv;
use crate::segmented_kv::{
    all_planes, law_planes_are_distinct, PlaneKind, PlaneLayout, SegmentedKvLayout,
};
use crate::slot::{
    depth_plan, depth_refused, law_growth_covers_the_request, CacheBuffers, DepthPlan,
    SegmentedKvState,
};
use vstd::prelude::*;

verus! {

/// What describes a stored conversation.
pub struct SessionStateMeta {
    pub max_ctx: usize,
    pub k_fmt: KvFormat,
    pub v_fmt: KvFormat,
    pub committed_tokens: usize,
    pub cached: Vec<u32>,
    pub checkpoint_tokens: Option<Vec<u32>>,
}

/// The name of a buffer of a conversation.
#[derive(Clone, Copy, Debug, PartialEq, Eq, PartialOrd, Ord, Hash, Structural)]
pub enum SessionBufferKey {
    K(u32),
    V(u32),
    QsaRaw(u32),
    QsaBlock(u32),
    PleState,
    CheckpointK(u32),
    CheckpointV(u32),
    CheckpointPle,
}

/// A buffer of a conversation, under its name.
#[derive(Clone, Copy, Debug, PartialEq, Eq, Structural)]
pub struct NamedBuffer {
    pub key: SessionBufferKey,
    pub buffer: DeviceBuffer,
}

/// A buffer of a conversation and the part of it that is backed by memory.
#[derive(Clone, Copy, Debug, PartialEq, Eq, Structural)]
pub struct SessionBuffer {
    pub key: SessionBufferKey,
    pub buffer: DeviceBuffer,
    pub committed_bytes: usize,
}

/// The stored tokens of a checkpoint.
pub open spec fn stored(tokens: Option<Vec<u32>>) -> Option<Seq<u32>> {
    match tokens {
        Some(list) => Some(list@),
        None => None,
    }
}

impl SessionStateMeta {
    /// The longest state that this conversation could be continued from for `prompt`, once
    /// restored.
    pub fn continuation_prefix_len(&self, prompt: &[u32]) -> (n: Option<usize>)
        ensures
            n == continuation(self.cached@, stored(self.checkpoint_tokens), prompt@),
    {
        let live: Option<usize> = live_prefix_len(&self.cached, prompt);
        let checkpoint: Option<usize> = match &self.checkpoint_tokens {
            Some(tokens) => checkpoint_extension_start(tokens, prompt),
            None => None,
        };
        longest_prefix(live, checkpoint)
    }
}

/// The place of a key in the order in which keys are stored: its kind, then its layer.
pub open spec fn key_rank(key: SessionBufferKey) -> (int, int) {
    match key {
        SessionBufferKey::K(l) => (0, l as int),
        SessionBufferKey::V(l) => (1, l as int),
        SessionBufferKey::QsaRaw(l) => (2, l as int),
        SessionBufferKey::QsaBlock(l) => (3, l as int),
        SessionBufferKey::PleState => (4, 0),
        SessionBufferKey::CheckpointK(l) => (5, l as int),
        SessionBufferKey::CheckpointV(l) => (6, l as int),
        SessionBufferKey::CheckpointPle => (7, 0),
    }
}

/// `a` comes before `b`, or is `b`.
pub open spec fn key_le(a: SessionBufferKey, b: SessionBufferKey) -> bool {
    let (ka, la) = key_rank(a);
    let (kb, lb) = key_rank(b);
    ka < kb || (ka == kb && la <= lb)
}

fn rank(key: SessionBufferKey) -> (r: (u32, u32))
    ensures
        (r.0 as int, r.1 as int) == key_rank(key),
{
    match key {
        SessionBufferKey::K(l) => (0, l),
        SessionBufferKey::V(l) => (1, l),
        SessionBufferKey::QsaRaw(l) => (2, l),
        SessionBufferKey::QsaBlock(l) => (3, l),
        SessionBufferKey::PleState => (4, 0),
        SessionBufferKey::CheckpointK(l) => (5, l),
        SessionBufferKey::CheckpointV(l) => (6, l),
        SessionBufferKey::CheckpointPle => (7, 0),
    }
}

fn key_at_most(a: SessionBufferKey, b: SessionBufferKey) -> (le: bool)
    ensures
        le == key_le(a, b),
{
    let (ka, la) = rank(a);
    let (kb, lb) = rank(b);
    ka < kb || (ka == kb && la <= lb)
}

/// The keys of a list of buffers, one per layer.
pub open spec fn named_k(bufs: Seq<DeviceBuffer>) -> Seq<NamedBuffer> {
    Seq::new(
        bufs.len(),
        |l: int| NamedBuffer { key: SessionBufferKey::K(l as u32), buffer: bufs[l] },
    )
}

pub open spec fn named_v(bufs: Seq<DeviceBuffer>) -> Seq<NamedBuffer> {
    Seq::new(
        bufs.len(),
        |l: int| NamedBuffer { key: SessionBufferKey::V(l as u32), buffer: bufs[l] },
    )
}

/// The raw index caches among the first `n` layers.
pub open spec fn named_raw(bufs: Seq<Option<DeviceBuffer>>, n: nat) -> Seq<NamedBuffer>
    decreases n,
{
    if n == 0 {
        Seq::empty()
    } else {
        let before = named_raw(bufs, (n - 1) as nat);
        match bufs[n - 1] {
            Some(buffer) => before.push(
                NamedBuffer { key: SessionBufferKey::QsaRaw((n - 1) as u32), buffer },
            ),
            None => before,
        }
    }
}

/// The block index caches among the first `n` layers.
pub open spec fn named_block(bufs: Seq<Option<DeviceBuffer>>, n: nat) -> Seq<NamedBuffer>
    decreases n,
{
    if n == 0 {
        Seq::empty()
    } else {
        let before = named_block(bufs, (n - 1) as nat);
        match bufs[n - 1] {
            Some(buffer) => before.push(
                NamedBuffer { key: SessionBufferKey::QsaBlock((n - 1) as u32), buffer },
            ),
            None => before,
        }
    }
}

/// A buffer under a name, if it is there.
pub open spec fn named_one(key: SessionBufferKey, buf: Option<DeviceBuffer>) -> Seq<NamedBuffer> {
    match buf {
        Some(buffer) => seq![NamedBuffer { key, buffer }],
        None => Seq::empty(),
    }
}

/// The buffers of the first `n` layers of a checkpoint.
pub open spec fn named_layers(ck: TurnRecurrentCkpt, n: nat) -> Seq<NamedBuffer>
    decreases n,
{
    if n == 0 {
        Seq::empty()
    } else {
        let layer = ck.layers@[n - 1] as u32;
        named_layers(ck, (n - 1) as nat) + seq![
            NamedBuffer { key: SessionBufferKey::CheckpointK(layer), buffer: ck.kbufs@[n - 1] },
            NamedBuffer { key: SessionBufferKey::CheckpointV(layer), buffer: ck.vbufs@[n - 1] },
        ]
    }
}

/// The buffers of a checkpoint.
pub open spec fn named_checkpoint(ck: TurnRecurrentCkpt) -> Seq<NamedBuffer> {
    named_layers(ck, ck.layers@.len()) + named_one(SessionBufferKey::CheckpointPle, ck.ple_state)
}

/// The buffers of the caches and of the model-level history.
pub open spec fn named_caches(slot: SeamKv) -> Seq<NamedBuffer> {
    named_k(slot.caches.k@) + named_v(slot.caches.v@) + named_raw(
        slot.caches.qsa_raw@,
        slot.caches.qsa_raw@.len(),
    ) + named_block(slot.caches.qsa_block@, slot.caches.qsa_block@.len()) + named_one(
        SessionBufferKey::PleState,
        slot.ple_state_buf,
    )
}

/// The buffers whose bytes decide how the conversation goes on.
pub open spec fn named_state(slot: SeamKv) -> Seq<NamedBuffer> {
    named_caches(slot) + (match slot.turn_recurrent_ckpt {
        Some(ck) => if ck.valid {
            named_checkpoint(ck)
        } else {
            Seq::empty()
        },
        None => Seq::empty(),
    })
}

/// The buffers of a checkpoint that is not published yet.
pub open spec fn named_unpublished(slot: SeamKv) -> Seq<NamedBuffer> {
    match slot.turn_recurrent_ckpt {
        Some(ck) => if ck.valid {
            Seq::empty()
        } else {
            named_checkpoint(ck)
        },
        None => Seq::empty(),
    }
}

/// Those of the first `n` buffers of which anything is committed.
pub open spec fn committed_below(list: Seq<NamedBuffer>, committed: Seq<usize>, n: nat) -> Seq<
    SessionBuffer,
>
    decreases n,
{
    if n == 0 {
        Seq::empty()
    } else {
        let before = committed_below(list, committed, (n - 1) as nat);
        if committed[n - 1] > 0 {
            before.push(
                SessionBuffer {
                    key: list[n - 1].key,
                    buffer: list[n - 1].buffer,
                    committed_bytes: committed[n - 1],
                },
            )
        } else {
            before
        }
    }
}

fn push_checkpoint(out: &mut Vec<NamedBuffer>, ck: &TurnRecurrentCkpt)
    requires
        ck.wf(),
        forall|i: int| 0 <= i < ck.layers@.len() ==> (#[trigger] ck.layers@[i]) <= u32::MAX,
    ensures
        final(out)@ == old(out)@ + named_checkpoint(*ck),
{
    let ghost start = out@;
    let mut i: usize = 0;
    while i < ck.layers.len()
        invariant
            i <= ck.layers@.len(),
            ck.wf(),
            forall|j: int| 0 <= j < ck.layers@.len() ==> (#[trigger] ck.layers@[j]) <= u32::MAX,
            out@ == start + named_layers(*ck, i as nat),
        decreases ck.layers@.len() - i,
    {
        let layer: u32 = ck.layers[i] as u32;
        out.push(NamedBuffer { key: SessionBufferKey::CheckpointK(layer), buffer: ck.kbufs[i] });
        out.push(NamedBuffer { key: SessionBufferKey::CheckpointV(layer), buffer: ck.vbufs[i] });
        i = i + 1;
        assert(out@ =~= start + named_layers(*ck, i as nat));
    }
    if let Some(buffer) = ck.ple_state {
        out.push(NamedBuffer { key: SessionBufferKey::CheckpointPle, buffer });
    }
    assert(out@ =~= start + named_checkpoint(*ck));
}

fn push_caches(out: &mut Vec<NamedBuffer>, caches: &CacheBuffers)
    requires
        caches.k@.len() <= u32::MAX,
        caches.fits(caches.k@.len()),
    ensures
        final(out)@ == old(out)@ + named_k(caches.k@) + named_v(caches.v@) + named_raw(
            caches.qsa_raw@,
            caches.qsa_raw@.len(),
        ) + named_block(caches.qsa_block@, caches.qsa_block@.len()),
{
    let ghost s0 = out@;
    let n: usize = caches.k.len();
    let mut l: usize = 0;
    while l < n
        invariant
            l <= n == caches.k@.len(),
            n <= u32::MAX,
            out@ == s0 + named_k(caches.k@.take(l as int)),
        decreases n - l,
    {
        out.push(NamedBuffer { key: SessionBufferKey::K(l as u32), buffer: caches.k[l] });
        l = l + 1;
        assert(out@ =~= s0 + named_k(caches.k@.take(l as int)));
    }
    assert(caches.k@.take(l as int) =~= caches.k@);
    let ghost s1 = out@;
    l = 0;
    while l < n
        invariant
            l <= n == caches.v@.len(),
            n <= u32::MAX,
            out@ == s1 + named_v(caches.v@.take(l as int)),
        decreases n - l,
    {
        out.push(NamedBuffer { key: SessionBufferKey::V(l as u32), buffer: caches.v[l] });
        l = l + 1;
        assert(out@ =~= s1 + named_v(caches.v@.take(l as int)));
    }
    assert(caches.v@.take(l as int) =~= caches.v@);
    let ghost s2 = out@;
    l = 0;
    while l < n
        invariant
            l <= n == caches.qsa_raw@.len(),
            n <= u32::MAX,
            out@ == s2 + named_raw(caches.qsa_raw@, l as nat),
        decreases n - l,
    {
        if let Some(buffer) = caches.qsa_raw[l] {
            out.push(NamedBuffer { key: SessionBufferKey::QsaRaw(l as u32), buffer });
        }
        l = l + 1;
        assert(out@ =~= s2 + named_raw(caches.qsa_raw@, l as nat));
    }
    let ghost s3 = out@;
    l = 0;
    while l < n
        invariant
            l <= n == caches.qsa_block@.len(),
            n <= u32::MAX,
            out@ == s3 + named_block(caches.qsa_block@, l as nat),
        decreases n - l,
    {
        if let Some(buffer) = caches.qsa_block[l] {
            out.push(NamedBuffer { key: SessionBufferKey::QsaBlock(l as u32), buffer });
        }
        l = l + 1;
        assert(out@ =~= s3 + named_block(caches.qsa_block@, l as nat));
    }
}

/// The buffer of a release, or the missing one.
pub open spec fn release_buffer(plane: PlaneLayout, caches: CacheBuffers) -> Result<
    DeviceBuffer,
    Error,
> {
    let l = plane.layer as int;
    match plane.kind {
        PlaneKind::K => Ok(caches.k@[l]),
        PlaneKind::V => Ok(caches.v@[l]),
        PlaneKind::QsaRaw => match caches.qsa_raw@[l] {
            Some(b) => Ok(b),
            None => Err(Error::ReleaseMissingQsaRaw { layer: plane.layer }),
        },
        PlaneKind::QsaBlock => match caches.qsa_block@[l] {
            Some(b) => Ok(b),
            None => Err(Error::ReleaseMissingQsaBlock { layer: plane.layer }),
        },
    }
}

/// How many leading planes can be released.
pub open spec fn releasable(planes: Seq<PlaneLayout>, caches: CacheBuffers, n: nat) -> bool {
    forall|i: int|
        0 <= i < n ==> release_buffer(#[trigger] planes[i], caches) is Ok
}

/// A release: `ops` in order, then `outcome`.
pub struct ReleasePlan {
    pub ops: Vec<DeviceOp>,
    pub outcome: Result<(), Error>,
}

/// The whole list of planes is released, or all planes before the first one that is missing.
pub open spec fn release_plan(
    plan: ReleasePlan,
    planes: Seq<PlaneLayout>,
    caches: CacheBuffers,
) -> bool {
    &&& plan.ops@.len() <= planes.len()
    &&& releasable(planes, caches, plan.ops@.len())
    &&& forall|i: int|
        0 <= i < plan.ops@.len() ==> #[trigger] plan.ops@[i] == (DeviceOp::Release {
            buffer: release_buffer(planes[i], caches)->Ok_0,
        })
    &&& plan.outcome == (if plan.ops@.len() == planes.len() {
        Ok::<(), Error>(())
    } else {
        Err(release_buffer(planes[plan.ops@.len() as int], caches)->Err_0)
    })
    &&& plan.ops@.len() < planes.len() ==> release_buffer(
        planes[plan.ops@.len() as int],
        caches,
    ) is Err
}

/// Why a stored conversation cannot be restored into a slot at all.
pub open spec fn restore_refused(slot: SeamKv, meta: SessionStateMeta) -> Option<Error> {
    if !slot.segmented_kv.enabled {
        Some(Error::RestoreNeedsSegments)
    } else if meta.max_ctx != slot.max_ctx || meta.k_fmt != slot.k_fmt || meta.v_fmt
        != slot.v_fmt {
        Some(
            Error::RestoreGeometryDiffers {
                stored_ctx: meta.max_ctx,
                slot_ctx: slot.max_ctx,
                stored_k: meta.k_fmt.dtype,
                slot_k: slot.k_fmt.dtype,
                stored_v: meta.v_fmt.dtype,
                slot_v: slot.v_fmt.dtype,
            },
        )
    } else if meta.cached@.len() > slot.max_ctx || meta.committed_tokens > slot.max_ctx {
        Some(Error::RestoreDepthExceedsSlot)
    } else {
        None
    }
}

/// The depth that a stored conversation needs.
pub open spec fn restore_depth(meta: SessionStateMeta) -> usize {
    if meta.committed_tokens >= meta.cached@.len() {
        meta.committed_tokens
    } else {
        meta.cached@.len() as usize
    }
}

impl SeamKv {
    /// What describes this conversation.
    pub open spec fn describes(&self, meta: SessionStateMeta) -> bool {
        &&& meta.max_ctx == self.max_ctx
        &&& meta.k_fmt == self.k_fmt
        &&& meta.v_fmt == self.v_fmt
        &&& meta.committed_tokens == self.segmented_kv.committed_tokens
        &&& meta.cached@ == self.cached@
        &&& stored(meta.checkpoint_tokens) == self.published()
    }

    /// What describes this conversation; a checkpoint that is not published is no part of it.
    pub fn session_state_meta(&self) -> (meta: SessionStateMeta)
        ensures
            self.describes(meta),
    {
        let cached: Vec<u32> = first_tokens(&self.cached, self.cached.len());
        assert(self.cached@.take(self.cached@.len() as int) =~= self.cached@);
        let checkpoint_tokens: Option<Vec<u32>> = match &self.turn_recurrent_ckpt {
            Some(ck) => if ck.valid {
                assert(ck.tokens@.take(ck.tokens@.len() as int) =~= ck.tokens@);
                Some(first_tokens(&ck.tokens, ck.tokens.len()))
            } else {
                None
            },
            None => None,
        };
        SessionStateMeta {
            max_ctx: self.max_ctx,
            k_fmt: self.k_fmt,
            v_fmt: self.v_fmt,
            committed_tokens: self.segmented_kv.committed_tokens,
            cached,
            checkpoint_tokens,
        }
    }

    /// Whether this slot can give its memory back and keep its place.
    pub fn can_release_session_state(&self) -> (can: bool)
        ensures
            can == self.segmented_kv.enabled,
    {
        self.segmented_kv.enabled
    }

    /// The buffers whose bytes decide how the conversation goes on, in the order in which they are
    /// inspected.
    pub fn session_state_candidates(&self, cfg: &Config) -> (list: Vec<NamedBuffer>)
        requires
            self.fits(cfg.layers@.len()),
            cfg.layers@.len() <= u32::MAX,
        ensures
            list@ == named_state(*self),
    {
        let mut list: Vec<NamedBuffer> = Vec::new();
        push_caches(&mut list, &self.caches);
        if let Some(buffer) = self.ple_state_buf {
            list.push(NamedBuffer { key: SessionBufferKey::PleState, buffer });
        }
        assert(list@ =~= named_caches(*self));
        if let Some(ck) = &self.turn_recurrent_ckpt {
            if ck.valid {
                push_checkpoint(&mut list, ck);
            }
        }
        assert(list@ =~= named_state(*self));
        list
    }

    /// The buffers of the conversation of which anything is committed. `committed` says of each of
    /// [`SeamKv::session_state_candidates`] how many bytes are.
    pub fn session_state_buffers(&self, cfg: &Config, committed: &Vec<usize>) -> (list: Vec<
        SessionBuffer,
    >)
        requires
            self.fits(cfg.layers@.len()),
            cfg.layers@.len() <= u32::MAX,
            committed@.len() == named_state(*self).len(),
        ensures
            list@ == committed_below(named_state(*self), committed@, committed@.len()),
    {
        let candidates: Vec<NamedBuffer> = self.session_state_candidates(cfg);
        let mut list: Vec<SessionBuffer> = Vec::new();
        let mut i: usize = 0;
        while i < candidates.len()
            invariant
                i <= candidates@.len() == committed@.len(),
                list@ == committed_below(candidates@, committed@, i as nat),
            decreases candidates@.len() - i,
        {
            if committed[i] > 0 {
                list.push(
                    SessionBuffer {
                        key: candidates[i].key,
                        buffer: candidates[i].buffer,
                        committed_bytes: committed[i],
                    },
                );
            }
            i = i + 1;
        }
        list
    }

    /// The buffers of a checkpoint that is begun but not published, in the order in which they are
    /// inspected for a restore.
    pub fn unpublished_candidates(&self, cfg: &Config) -> (list: Vec<NamedBuffer>)
        requires
            self.fits(cfg.layers@.len()),
            cfg.layers@.len() <= u32::MAX,
        ensures
            list@ == named_unpublished(*self),
    {
        let mut list: Vec<NamedBuffer> = Vec::new();
        if let Some(ck) = &self.turn_recurrent_ckpt {
            if !ck.valid {
                push_checkpoint(&mut list, ck);
            }
        }
        assert(list@ =~= named_unpublished(*self));
        list
    }

    /// What a restore needs before bytes can be written: its growth, or the reason why it is
    /// refused.
    pub fn prepare_session_restore(&self, cfg: &Config, meta: &SessionStateMeta) -> (plan: Result<
        Option<DepthPlan>,
        Error,
    >)
        requires
            self.fits(cfg.layers@.len()),
        ensures
            match restore_refused(*self, *meta) {
                Some(e) => plan == Err::<Option<DepthPlan>, Error>(e),
                None => {
                    let depth = restore_depth(*meta);
                    &&& (plan matches Ok(None)) == (depth <= self.segmented_kv.committed_tokens)
                    &&& depth > self.segmented_kv.committed_tokens ==> match depth_refused(
                        *cfg,
                        self.max_ctx,
                        self.k_fmt,
                        self.v_fmt,
                        self.caches,
                        depth,
                    ) {
                        Some(e) => plan == Err::<Option<DepthPlan>, Error>(e),
                        None => plan matches Ok(Some(p)) && depth_plan(
                            p,
                            *cfg,
                            self.k_fmt,
                            self.v_fmt,
                            self.caches,
                            depth,
                        ),
                    }
                },
            },
            plan matches Ok(None) ==> self.segmented_kv.committed_tokens >= meta.cached@.len()
                && self.segmented_kv.committed_tokens >= meta.committed_tokens,
            plan matches Ok(Some(p)) ==> meta.cached@.len() <= SegmentedKvState::held_by(
                p.segments as nat,
                self.max_ctx,
            ) && meta.committed_tokens <= SegmentedKvState::held_by(
                p.segments as nat,
                self.max_ctx,
            ),
    {
        proof {
            if restore_refused(*self, *meta) is None {
                law_growth_covers_the_request(restore_depth(*meta), self.max_ctx);
            }
        }
        if !self.segmented_kv.enabled {
            return Err(Error::RestoreNeedsSegments);
        }
        if meta.max_ctx != self.max_ctx || meta.k_fmt != self.k_fmt || meta.v_fmt != self.v_fmt {
            return Err(
                Error::RestoreGeometryDiffers {
                    stored_ctx: meta.max_ctx,
                    slot_ctx: self.max_ctx,
                    stored_k: meta.k_fmt.dtype,
                    slot_k: self.k_fmt.dtype,
                    stored_v: meta.v_fmt.dtype,
                    slot_v: self.v_fmt.dtype,
                },
            );
        }
        if meta.cached.len() > self.max_ctx || meta.committed_tokens > self.max_ctx {
            return Err(Error::RestoreDepthExceedsSlot);
        }
        let depth: usize = if meta.committed_tokens >= meta.cached.len() {
            meta.committed_tokens
        } else {
            meta.cached.len()
        };
        self.ensure_segmented_depth(cfg, depth)
    }

    /// Drops both checkpoints for a restore and says what the checkpoint of the stored conversation
    /// needs.
    pub fn restore_checkpoint_requests(&mut self, cfg: &Config, meta: &SessionStateMeta) -> (requests:
        Vec<AllocRequest>)
        requires
            old(self).fits(cfg.layers@.len()),
        ensures
            final(self).fits(cfg.layers@.len()),
            final(self).same_buffers(old(self)),
            final(self).segmented_kv == old(self).segmented_kv,
            final(self).cached@ == old(self).cached@,
            final(self).mtp_delta_ckpt is None,
            final(self).turn_recurrent_ckpt is None,
            requests@ == (if meta.checkpoint_tokens is None || recurrent_layers(*cfg).len() == 0 {
                Seq::empty()
            } else {
                checkpoint_requests(
                    *cfg,
                    all_lengths(old(self).caches.k@),
                    all_lengths(old(self).caches.v@),
                    length_of(old(self).ple_state_buf),
                )
            }),
            old(self).within_context() ==> final(self).within_context(),
    {
        self.mtp_delta_ckpt = None;
        self.turn_recurrent_ckpt = None;
        if meta.checkpoint_tokens.is_none() {
            return Vec::new();
        }
        match TurnRecurrentCkpt::begin(
            &self.turn_recurrent_ckpt,
            cfg,
            &self.caches.k,
            &self.caches.v,
            self.ple_state_buf,
        ) {
            Ok(requests) => requests,
            Err(_) => Vec::new(),
        }
    }

    /// The position of a key's layer in the checkpoint.
    pub open spec fn checkpoint_position(&self, layer: u32) -> Option<int> {
        match self.turn_recurrent_ckpt {
            Some(ck) => if first_index(ck.layers@, layer as usize) < ck.layers@.len() {
                Some(first_index(ck.layers@, layer as usize) as int)
            } else {
                None
            },
            None => None,
        }
    }

    /// The buffer under a name.
    pub open spec fn buffer_named(&self, key: SessionBufferKey) -> Option<DeviceBuffer> {
        match key {
            SessionBufferKey::K(l) => if l < self.caches.k@.len() {
                Some(self.caches.k@[l as int])
            } else {
                None
            },
            SessionBufferKey::V(l) => if l < self.caches.v@.len() {
                Some(self.caches.v@[l as int])
            } else {
                None
            },
            SessionBufferKey::QsaRaw(l) => if l < self.caches.qsa_raw@.len() {
                self.caches.qsa_raw@[l as int]
            } else {
                None
            },
            SessionBufferKey::QsaBlock(l) => if l < self.caches.qsa_block@.len() {
                self.caches.qsa_block@[l as int]
            } else {
                None
            },
            SessionBufferKey::PleState => self.ple_state_buf,
            SessionBufferKey::CheckpointK(l) => match self.checkpoint_position(l) {
                Some(i) => Some((self.turn_recurrent_ckpt->0).kbufs@[i]),
                None => None,
            },
            SessionBufferKey::CheckpointV(l) => match self.checkpoint_position(l) {
                Some(i) => Some((self.turn_recurrent_ckpt->0).vbufs@[i]),
                None => None,
            },
            SessionBufferKey::CheckpointPle => match self.turn_recurrent_ckpt {
                Some(ck) => ck.ple_state,
                None => None,
            },
        }
    }

    /// The buffer under a name; a checkpoint's buffers are found whether or not it is published.
    pub fn session_state_buffer(&self, key: SessionBufferKey) -> (buffer: Option<DeviceBuffer>)
        requires
            self.turn_recurrent_ckpt matches Some(ck) ==> ck.wf(),
        ensures
            buffer == self.buffer_named(key),
    {
        match key {
            SessionBufferKey::K(l) => if (l as usize) < self.caches.k.len() {
                Some(self.caches.k[l as usize])
            } else {
                None
            },
            SessionBufferKey::V(l) => if (l as usize) < self.caches.v.len() {
                Some(self.caches.v[l as usize])
            } else {
                None
            },
            SessionBufferKey::QsaRaw(l) => if (l as usize) < self.caches.qsa_raw.len() {
                self.caches.qsa_raw[l as usize]
            } else {
                None
            },
            SessionBufferKey::QsaBlock(l) => if (l as usize) < self.caches.qsa_block.len() {
                self.caches.qsa_block[l as usize]
            } else {
                None
            },
            SessionBufferKey::PleState => self.ple_state_buf,
            SessionBufferKey::CheckpointK(l) => match &self.turn_recurrent_ckpt {
                Some(ck) => match position_of(&ck.layers, l as usize) {
                    Some(i) => Some(ck.kbufs[i]),
                    None => None,
                },
                None => None,
            },
            SessionBufferKey::CheckpointV(l) => match &self.turn_recurrent_ckpt {
                Some(ck) => match position_of(&ck.layers, l as usize) {
                    Some(i) => Some(ck.vbufs[i]),
                    None => None,
                },
                None => None,
            },
            SessionBufferKey::CheckpointPle => match &self.turn_recurrent_ckpt {
                Some(ck) => ck.ple_state,
                None => None,
            },
        }
    }

    /// Takes a stored conversation over, once its bytes are in the buffers.
    pub fn finish_session_restore(&mut self, meta: SessionStateMeta) -> (done: Result<(), Error>)
        ensures
            final(self).same_buffers(old(self)),
            final(self).segmented_kv.enabled == old(self).segmented_kv.enabled,
            final(self).segmented_kv.committed_tokens == meta.committed_tokens,
            final(self).cached@ == meta.cached@,
            final(self).mtp_delta_ckpt == old(self).mtp_delta_ckpt,
            done == (if meta.checkpoint_tokens is Some == old(self).turn_recurrent_ckpt is Some {
                Ok::<(), Error>(())
            } else {
                Err(Error::RestoreCheckpointDiffers)
            }),
            done is Err ==> final(self).turn_recurrent_ckpt == old(self).turn_recurrent_ckpt,
            done is Ok ==> final(self).published() == stored(meta.checkpoint_tokens),
            final(self).turn_recurrent_ckpt is Some == old(self).turn_recurrent_ckpt is Some,
            done is Ok ==> (final(self).turn_recurrent_ckpt matches Some(ck) ==> ck.same_buffers(
                &old(self).turn_recurrent_ckpt->0,
            ) && ck.copied@ == Seq::new(
                (old(self).turn_recurrent_ckpt->0).copied@.len(),
                |i: int| true,
            ) && ck.ple_copied),
            forall|n: nat| #[trigger] old(self).fits(n) ==> final(self).fits(n),
            old(self).within_context() && meta.cached@.len() <= old(self).max_ctx && (
            meta.checkpoint_tokens matches Some(tokens) ==> tokens@.len() <= old(self).max_ctx)
                ==> final(self).within_context(),
    {
        self.cached = meta.cached;
        self.segmented_kv.committed_tokens = meta.committed_tokens;
        match meta.checkpoint_tokens {
            Some(tokens) => {
                if let Some(ck) = self.turn_recurrent_ckpt.as_mut() {
                    ck.restored(tokens);
                    Ok(())
                } else {
                    Err(Error::RestoreCheckpointDiffers)
                }
            },
            None => {
                if self.turn_recurrent_ckpt.is_some() {
                    Err(Error::RestoreCheckpointDiffers)
                } else {
                    Ok(())
                }
            },
        }
    }

    /// Gives the per-token memory back: says what to release and records that nothing is resident.
    ///
    /// The slot is empty before the first plane is released. If the device fails on the way, the
    /// next use commits every plane again instead of trusting a stale depth.
    pub fn release_session_state(&mut self, cfg: &Config) -> (plan: Result<ReleasePlan, Error>)
        requires
            old(self).fits(cfg.layers@.len()),
        ensures
            final(self).fits(cfg.layers@.len()),
            final(self).same_buffers(old(self)),
            final(self).segmented_kv.enabled == old(self).segmented_kv.enabled,
            !old(self).segmented_kv.enabled ==> plan == Err::<ReleasePlan, Error>(
                Error::ReleaseNeedsSegments,
            ) && *final(self) == *old(self),
            old(self).segmented_kv.enabled && !(cfg.qwen35 || cfg.qwen4exp) ==> plan == Err::<
                ReleasePlan,
                Error,
            >(Error::SegmentedForOtherModel) && *final(self) == *old(self),
            old(self).segmented_kv.enabled && (cfg.qwen35 || cfg.qwen4exp) ==> {
                &&& final(self).segmented_kv.committed_tokens == 0
                &&& final(self).cached@.len() == 0
                &&& final(self).mtp_delta_ckpt is None
                &&& final(self).turn_recurrent_ckpt is None
                &&& plan matches Ok(made) && release_plan(
                    made,
                    all_planes(*cfg, old(self).k_fmt, old(self).v_fmt),
                    old(self).caches,
                )
            },
            old(self).within_context() ==> final(self).within_context(),
    {
        if !self.segmented_kv.enabled {
            return Err(Error::ReleaseNeedsSegments);
        }
        let layout: SegmentedKvLayout = match SegmentedKvLayout::for_qwen(
            cfg,
            self.max_ctx,
            self.k_fmt,
            self.v_fmt,
        ) {
            Some(layout) => layout,
            None => {
                return Err(Error::SegmentedForOtherModel);
            },
        };
        self.segmented_kv.committed_tokens = 0;
        self.cached = Vec::new();
        self.mtp_delta_ckpt = None;
        self.turn_recurrent_ckpt = None;
        let n_layer: usize = cfg.layers.len();
        proof {
            law_planes_are_distinct(*cfg, n_layer as nat, self.k_fmt, self.v_fmt);
        }
        Ok(release_planes(&layout, &self.caches))
    }
}

fn release_planes(layout: &SegmentedKvLayout, caches: &CacheBuffers) -> (plan: ReleasePlan)
    requires
        caches.fits(caches.k@.len()),
        forall|i: int|
            0 <= i < layout.planes@.len() ==> (#[trigger] layout.planes@[i]).layer
                < caches.k@.len(),
    ensures
        release_plan(plan, layout.planes@, *caches),
{
    let mut ops: Vec<DeviceOp> = Vec::new();
    let mut i: usize = 0;
    while i < layout.planes.len()
        invariant
            i <= layout.planes@.len(),
            caches.fits(caches.k@.len()),
            forall|j: int|
                0 <= j < layout.planes@.len() ==> (#[trigger] layout.planes@[j]).layer
                    < caches.k@.len(),
            ops@.len() == i,
            releasable(layout.planes@, *caches, i as nat),
            forall|j: int|
                0 <= j < i ==> #[trigger] ops@[j] == (DeviceOp::Release {
                    buffer: release_buffer(layout.planes@[j], *caches)->Ok_0,
                }),
        decreases layout.planes@.len() - i,
    {
        let plane: PlaneLayout = layout.planes[i];
        let found: Result<DeviceBuffer, Error> = match plane.kind {
            PlaneKind::K => Ok(caches.k[plane.layer]),
            PlaneKind::V => Ok(caches.v[plane.layer]),
            PlaneKind::QsaRaw => match caches.qsa_raw[plane.layer] {
                Some(b) => Ok(b),
                None => Err(Error::ReleaseMissingQsaRaw { layer: plane.layer }),
            },
            PlaneKind::QsaBlock => match caches.qsa_block[plane.layer] {
                Some(b) => Ok(b),
                None => Err(Error::ReleaseMissingQsaBlock { layer: plane.layer }),
            },
        };
        match found {
            Ok(buffer) => {
                ops.push(DeviceOp::Release { buffer });
            },
            Err(e) => {
                return ReleasePlan { ops, outcome: Err(e) };
            },
        }
        i = i + 1;
    }
    ReleasePlan { ops, outcome: Ok(()) }
}

/// A key and how many bytes of its buffer are stored.
#[derive(Clone, Copy, Debug, PartialEq, Eq, Structural)]
pub struct KeyedSize {
    pub key: SessionBufferKey,
    pub bytes: usize,
}

/// The keys are in order.
pub open spec fn in_key_order(specs: Seq<KeyedSize>) -> bool {
    forall|i: int, j: int|
        0 <= i <= j < specs.len() ==> key_le(#[trigger] specs[i].key, #[trigger] specs[j].key)
}

/// `a` comes before `b`.
pub open spec fn key_lt(a: SessionBufferKey, b: SessionBufferKey) -> bool {
    let (ka, la) = key_rank(a);
    let (kb, lb) = key_rank(b);
    ka < kb || (ka == kb && la < lb)
}

/// The keys ascend, and none occurs twice.
pub open spec fn strictly_ordered(specs: Seq<KeyedSize>) -> bool {
    forall|i: int, j: int|
        0 <= i < j < specs.len() ==> key_lt(#[trigger] specs[i].key, #[trigger] specs[j].key)
}

/// What a restore asks for, before it is put in order: every committed buffer of the slot, and
/// the buffers of an unpublished checkpoint.
pub open spec fn restore_list(
    slot: SeamKv,
    committed: Seq<usize>,
    unpublished: Seq<usize>,
) -> Seq<KeyedSize> {
    sizes_of(committed_below(named_state(slot), committed, committed.len())) + inspected(
        named_unpublished(slot),
        unpublished,
    )
}

/// The keys and sizes of a list of stored buffers.
pub open spec fn sizes_of(list: Seq<SessionBuffer>) -> Seq<KeyedSize> {
    Seq::new(list.len(), |i: int| KeyedSize { key: list[i].key, bytes: list[i].committed_bytes })
}

/// The keys and sizes of a list of inspected buffers.
pub open spec fn inspected(list: Seq<NamedBuffer>, committed: Seq<usize>) -> Seq<KeyedSize> {
    Seq::new(list.len(), |i: int| KeyedSize { key: list[i].key, bytes: committed[i] })
}

impl SeamKv {
    /// The checkpoint, if there is one, has every layer once.
    pub open spec fn names_once(&self) -> bool {
        self.turn_recurrent_ckpt matches Some(ck) ==> ck.layers@.no_duplicates()
    }

    /// What a stored conversation must bring for a restore, by key: every committed buffer of the
    /// slot, and the buffers of a checkpoint that is being restored, whatever is committed of them.
    /// `committed` and `unpublished` are the committed bytes of
    /// [`SeamKv::session_state_candidates`] and [`SeamKv::unpublished_candidates`]. No key is listed
    /// twice, unless the checkpoint holds a layer twice.
    pub fn session_restore_buffer_specs(
        &self,
        cfg: &Config,
        committed: &Vec<usize>,
        unpublished: &Vec<usize>,
    ) -> (specs: Vec<KeyedSize>)
        requires
            self.fits(cfg.layers@.len()),
            cfg.layers@.len() <= u32::MAX,
            committed@.len() == named_state(*self).len(),
            unpublished@.len() == named_unpublished(*self).len(),
        ensures
            in_key_order(specs@),
            self.names_once() ==> strictly_ordered(specs@),
            specs@.to_multiset() == restore_list(*self, committed@, unpublished@).to_multiset(),
    {
        let stored_buffers: Vec<SessionBuffer> = self.session_state_buffers(cfg, committed);
        let pending: Vec<NamedBuffer> = self.unpublished_candidates(cfg);
        let ghost all = sizes_of(stored_buffers@) + inspected(pending@, unpublished@);
        let mut specs: Vec<KeyedSize> = Vec::new();
        let mut i: usize = 0;
        assert(all.take(0) =~= Seq::<KeyedSize>::empty());
        while i < stored_buffers.len()
            invariant
                i <= stored_buffers@.len(),
                all == sizes_of(stored_buffers@) + inspected(pending@, unpublished@),
                in_key_order(specs@),
                specs@.to_multiset() == all.take(i as int).to_multiset(),
            decreases stored_buffers@.len() - i,
        {
            let entry: KeyedSize = KeyedSize {
                key: stored_buffers[i].key,
                bytes: stored_buffers[i].committed_bytes,
            };
            insert_in_order(&mut specs, entry);
            proof {
                assert(all[i as int] == entry);
                assert(all.take(i + 1) =~= all.take(i as int).push(entry));
                all.take(i as int).to_multiset_ensures();
            }
            i = i + 1;
        }
        let mut j: usize = 0;
        let n: usize = stored_buffers.len();
        while j < pending.len()
            invariant
                j <= pending@.len() == unpublished@.len(),
                n == stored_buffers@.len(),
                all == sizes_of(stored_buffers@) + inspected(pending@, unpublished@),
                in_key_order(specs@),
                specs@.to_multiset() == all.take(n + j).to_multiset(),
            decreases pending@.len() - j,
        {
            let entry: KeyedSize = KeyedSize { key: pending[j].key, bytes: unpublished[j] };
            insert_in_order(&mut specs, entry);
            proof {
                assert(all[n + j] == entry);
                assert(all.take(n + j + 1) =~= all.take(n + j).push(entry));
                all.take(n + j).to_multiset_ensures();
            }
            j = j + 1;
        }
        assert(all.take(n + j) =~= all);
        proof {
            if self.names_once() {
                law_a_restore_asks_for_each_key_once(
                    *self,
                    cfg.layers@.len(),
                    committed@,
                    unpublished@,
                    specs@,
                );
            }
        }
        specs
    }
}

/// Inserts an entry after every entry whose key is not greater.
fn insert_in_order(specs: &mut Vec<KeyedSize>, entry: KeyedSize)
    requires
        in_key_order(old(specs)@),
    ensures
        in_key_order(final(specs)@),
        final(specs)@.to_multiset() == old(specs)@.to_multiset().insert(entry),
{
    let ghost before = specs@;
    let mut at: usize = specs.len();
    while at > 0 && !key_at_most(specs[at - 1].key, entry.key)
        invariant
            at <= specs@.len(),
            specs@ == before,
            in_key_order(before),
            forall|k: int| at <= k < specs@.len() ==> !key_le(#[trigger] specs@[k].key, entry.key),
        decreases at,
    {
        at = at - 1;
    }
    specs.insert(at, entry);
    proof {
        vstd::seq_lib::to_multiset_insert(before, at as int, entry);
        let after = specs@;
        assert(after =~= before.insert(at as int, entry));
        assert forall|i: int, j: int| 0 <= i <= j < after.len() implies key_le(
            #[trigger] after[i].key,
            #[trigger] after[j].key,
        ) by {
            let oi = if i < at {
                i
            } else {
                i - 1
            };
            let oj = if j < at {
                j
            } else {
                j - 1
            };
            if i != at && j != at {
                assert(after[i] == before[oi] && after[j] == before[oj]);
                assert(key_le(before[oi].key, before[oj].key));
            } else if i == at && j > at {
                assert(after[j] == before[oj]);
                assert(!key_le(before[oj].key, entry.key));
            } else if j == at && i < at {
                assert(after[i] == before[i]);
                assert(key_le(before[i].key, before[at - 1].key));
            }
        }
    }
}

/// A conversation that was described and is restored into a slot of the same geometry is the same
/// conversation: the same resident tokens, the same committed depth and the same checkpoint, so it
/// continues every prompt from the same place.
pub proof fn law_restore_gives_the_conversation_back(
    saved: SeamKv,
    restored: SeamKv,
    meta: SessionStateMeta,
    prompt: Seq<u32>,
)
    requires
        saved.describes(meta),
        restored.cached@ == meta.cached@,
        restored.segmented_kv.committed_tokens == meta.committed_tokens,
        restored.published() == stored(meta.checkpoint_tokens),
    ensures
        restored.cached@ == saved.cached@,
        restored.segmented_kv.committed_tokens == saved.segmented_kv.committed_tokens,
        restored.published() == saved.published(),
        continuation(restored.cached@, restored.published(), prompt) == continuation(
            saved.cached@,
            saved.published(),
            prompt,
        ),
{
}

/// A stored conversation offers a prompt exactly what the live slot offers.
pub proof fn law_cold_continuation_equals_live(
    slot: SeamKv,
    meta: SessionStateMeta,
    prompt: Seq<u32>,
)
    requires
        slot.describes(meta),
    ensures
        continuation(meta.cached@, stored(meta.checkpoint_tokens), prompt) == continuation(
            slot.cached@,
            slot.published(),
            prompt,
        ),
{
}

/// A conversation that was described by a slot is never refused by a lazily grown slot of the same
/// geometry, as long as it respects the slot's context.
pub proof fn law_described_state_is_restorable(slot: SeamKv, meta: SessionStateMeta)
    requires
        slot.segmented_kv.enabled,
        slot.describes(meta),
        slot.cached@.len() <= slot.max_ctx,
        slot.segmented_kv.committed_tokens <= slot.max_ctx,
    ensures
        restore_refused(slot, meta) is None,
{
}

} // verus!
