//! One conversation's slot: its device buffers, what is resident in them, and what it can continue.

use crate::checkpoint::{all_off, every_second, state_request, TurnRecurrentCkpt};
use crate::config::{kv_fmt_bytes, lemma_size_monotone, Config, DType, KvFormat};
use crate::device::{at_least_one, whole_copy, AllocRequest, BufferUsage, DeviceBuffer, DeviceOp};
use crate::error::Error;
use crate::prefix::{
    begins_with, checkpoint_extension_start, common_prefix_len, continuation, extension_start,
    first_tokens, live_prefix_len, longest_prefix, shared_prefix,
};
use crate::slot::{clears_below, depth_refused, depth_plan, CacheBuffers, DepthPlan, SegmentedKvState};
use vstd::arithmetic::mul::*;
use vstd::prelude::*;

verus! {

/// The rollback point of speculative decoding: the state of the layers that cannot be rewound by
/// dropping rows, and how many tokens were resident with it.
pub struct MtpDeltaCkpt {
    pub kbufs: Vec<DeviceBuffer>,
    pub vbufs: Vec<DeviceBuffer>,
    pub layers: Vec<usize>,
    pub cached_len: usize,
}

impl MtpDeltaCkpt {
    /// The lists describe the same layers, all of a model with `n` layers.
    pub open spec fn fits(&self, n: nat) -> bool {
        &&& self.kbufs@.len() == self.layers@.len()
        &&& self.vbufs@.len() == self.layers@.len()
        &&& forall|i: int| 0 <= i < self.layers@.len() ==> (#[trigger] self.layers@[i]) < n
    }
}

/// The checkpoint was withdrawn: its buffers stay, and nothing of it counts as copied.
pub open spec fn withdrawn(
    before: Option<TurnRecurrentCkpt>,
    after: Option<TurnRecurrentCkpt>,
) -> bool {
    match (before, after) {
        (Some(a), Some(b)) => {
            &&& b.same_buffers(&a)
            &&& !b.valid
            &&& b.tokens@.len() == 0
            &&& b.copied@ == all_off(a.copied@.len())
            &&& !b.ple_copied
        },
        (None, None) => true,
        _ => false,
    }
}

/// One conversation's slot.
pub struct SeamKv {
    pub caches: CacheBuffers,
    pub segmented_kv: SegmentedKvState,
    pub k_fmt: KvFormat,
    pub v_fmt: KvFormat,
    pub hidden_buf: DeviceBuffer,
    pub pos_buf: DeviceBuffer,
    pub ipl_buf: Option<DeviceBuffer>,
    pub logits_buf: DeviceBuffer,
    pub qwen_wide_buf: Option<DeviceBuffer>,
    pub ple_embd_buf: Option<DeviceBuffer>,
    pub ple_state_buf: Option<DeviceBuffer>,
    /// The context that the caches were allocated for.
    pub max_ctx: usize,
    /// Whether the sliding-window layers keep only a ring of rows.
    pub kv_ring: bool,
    /// The tokens whose rows are written.
    pub cached: Vec<u32>,
    /// Which of the two logits buffers the next canvas step writes.
    pub sc_ping_write: usize,
    pub mtp_delta_ckpt: Option<MtpDeltaCkpt>,
    pub turn_recurrent_ckpt: Option<TurnRecurrentCkpt>,
}

/// The copies that put a snapshot of the first `n` listed layers back.
pub open spec fn put_back(
    layers: Seq<usize>,
    from_k: Seq<DeviceBuffer>,
    from_v: Seq<DeviceBuffer>,
    to_k: Seq<DeviceBuffer>,
    to_v: Seq<DeviceBuffer>,
    n: nat,
) -> Seq<DeviceOp>
    decreases n,
{
    if n == 0 {
        Seq::empty()
    } else {
        put_back(layers, from_k, from_v, to_k, to_v, (n - 1) as nat) + seq![
            whole_copy(from_k[n - 1], to_k[layers[n - 1] as int]),
            whole_copy(from_v[n - 1], to_v[layers[n - 1] as int]),
        ]
    }
}

/// The copies that snapshot the first `n` listed layers.
pub open spec fn set_aside(
    layers: Seq<usize>,
    from_k: Seq<DeviceBuffer>,
    from_v: Seq<DeviceBuffer>,
    to_k: Seq<DeviceBuffer>,
    to_v: Seq<DeviceBuffer>,
    n: nat,
) -> Seq<DeviceOp>
    decreases n,
{
    if n == 0 {
        Seq::empty()
    } else {
        set_aside(layers, from_k, from_v, to_k, to_v, (n - 1) as nat) + seq![
            whole_copy(from_k[layers[n - 1] as int], to_k[n - 1]),
            whole_copy(from_v[layers[n - 1] as int], to_v[n - 1]),
        ]
    }
}

fn put_back_ops(
    layers: &Vec<usize>,
    from_k: &Vec<DeviceBuffer>,
    from_v: &Vec<DeviceBuffer>,
    to: &CacheBuffers,
) -> (ops: Vec<DeviceOp>)
    requires
        from_k@.len() == layers@.len(),
        from_v@.len() == layers@.len(),
        to.k@.len() == to.v@.len(),
        forall|i: int| 0 <= i < layers@.len() ==> (#[trigger] layers@[i]) < to.k@.len(),
    ensures
        ops@ == put_back(layers@, from_k@, from_v@, to.k@, to.v@, layers@.len()),
{
    let mut ops: Vec<DeviceOp> = Vec::new();
    let mut i: usize = 0;
    while i < layers.len()
        invariant
            i <= layers@.len(),
            from_k@.len() == layers@.len(),
            from_v@.len() == layers@.len(),
            to.k@.len() == to.v@.len(),
            forall|j: int| 0 <= j < layers@.len() ==> (#[trigger] layers@[j]) < to.k@.len(),
            ops@ == put_back(layers@, from_k@, from_v@, to.k@, to.v@, i as nat),
        decreases layers@.len() - i,
    {
        let l: usize = layers[i];
        let ghost before = ops@;
        ops.push(DeviceOp::Copy { src: from_k[i], dst: to.k[l], bytes: from_k[i].len_bytes });
        ops.push(DeviceOp::Copy { src: from_v[i], dst: to.v[l], bytes: from_v[i].len_bytes });
        assert(ops@ =~= before + seq![
            whole_copy(from_k@[i as int], to.k@[l as int]),
            whole_copy(from_v@[i as int], to.v@[l as int]),
        ]);
        i = i + 1;
    }
    ops
}

fn set_aside_ops(
    layers: &Vec<usize>,
    from: &CacheBuffers,
    to_k: &Vec<DeviceBuffer>,
    to_v: &Vec<DeviceBuffer>,
) -> (ops: Vec<DeviceOp>)
    requires
        to_k@.len() == layers@.len(),
        to_v@.len() == layers@.len(),
        from.k@.len() == from.v@.len(),
        forall|i: int| 0 <= i < layers@.len() ==> (#[trigger] layers@[i]) < from.k@.len(),
    ensures
        ops@ == set_aside(layers@, from.k@, from.v@, to_k@, to_v@, layers@.len()),
{
    let mut ops: Vec<DeviceOp> = Vec::new();
    let mut i: usize = 0;
    while i < layers.len()
        invariant
            i <= layers@.len(),
            to_k@.len() == layers@.len(),
            to_v@.len() == layers@.len(),
            from.k@.len() == from.v@.len(),
            forall|j: int| 0 <= j < layers@.len() ==> (#[trigger] layers@[j]) < from.k@.len(),
            ops@ == set_aside(layers@, from.k@, from.v@, to_k@, to_v@, i as nat),
        decreases layers@.len() - i,
    {
        let l: usize = layers[i];
        let ghost before = ops@;
        ops.push(DeviceOp::Copy { src: from.k[l], dst: to_k[i], bytes: from.k[l].len_bytes });
        ops.push(DeviceOp::Copy { src: from.v[l], dst: to_v[i], bytes: from.v[l].len_bytes });
        assert(ops@ =~= before + seq![
            whole_copy(from.k@[l as int], to_k@[i as int]),
            whole_copy(from.v@[l as int], to_v@[i as int]),
        ]);
        i = i + 1;
    }
    ops
}

/// What is done to put a checkpoint back: `ops` in order, then `outcome`.
pub struct RestorePlan {
    pub ops: Vec<DeviceOp>,
    /// The restored prefix length, nothing where no checkpoint applies, or a mismatch that is found
    /// after the layers were copied.
    pub outcome: Result<Option<usize>, Error>,
}

/// The layers that speculative decoding rolls back, among the first `n`.
pub open spec fn rollback_below(cfg: Config, n: nat) -> Seq<usize>
    decreases n,
{
    if n == 0 {
        Seq::empty()
    } else if cfg.qwen35 && !cfg.layers@[n - 1].qwen35_attention {
        rollback_below(cfg, (n - 1) as nat).push((n - 1) as usize)
    } else {
        rollback_below(cfg, (n - 1) as nat)
    }
}

/// The layers that speculative decoding rolls back.
pub open spec fn rollback_layers(cfg: Config) -> Seq<usize> {
    rollback_below(cfg, cfg.layers@.len())
}

/// The rolled-back layers are layers of the model.
pub proof fn lemma_rollback_layers(cfg: Config, n: nat)
    requires
        n <= cfg.layers@.len() <= usize::MAX,
    ensures
        rollback_below(cfg, n).len() <= n,
        forall|i: int|
            0 <= i < rollback_below(cfg, n).len() ==> (#[trigger] rollback_below(cfg, n)[i]) < n,
    decreases n,
{
    if n > 0 {
        lemma_rollback_layers(cfg, (n - 1) as nat);
    }
}

fn list_rollback_layers(cfg: &Config) -> (layers: Vec<usize>)
    ensures
        layers@ == rollback_layers(*cfg),
{
    let mut layers: Vec<usize> = Vec::new();
    let n: usize = cfg.layers.len();
    let mut l: usize = 0;
    while l < n
        invariant
            l <= n == cfg.layers@.len(),
            layers@ == rollback_below(*cfg, l as nat),
        decreases n - l,
    {
        if cfg.qwen35 && !cfg.layers[l].qwen35_attention {
            layers.push(l);
        }
        l = l + 1;
    }
    layers
}

/// The allocations for a rollback point over the first `n` listed layers.
pub open spec fn rollback_requests(
    layers: Seq<usize>,
    k: Seq<DeviceBuffer>,
    v: Seq<DeviceBuffer>,
    n: nat,
) -> Seq<AllocRequest>
    decreases n,
{
    if n == 0 {
        Seq::empty()
    } else {
        rollback_requests(layers, k, v, (n - 1) as nat) + seq![
            state_request(k[layers[n - 1] as int].len_bytes),
            state_request(v[layers[n - 1] as int].len_bytes),
        ]
    }
}

/// The operations that zero the recurrent state of the first `n` layers.
pub open spec fn state_zeros_below(cfg: Config, caches: CacheBuffers, n: nat) -> Seq<DeviceOp>
    decreases n,
{
    if n == 0 {
        Seq::empty()
    } else {
        let before = state_zeros_below(cfg, caches, (n - 1) as nat);
        if cfg.layers@[n - 1].recurrent {
            before + seq![
                DeviceOp::Zero {
                    buffer: caches.k@[n - 1],
                    bytes: cfg.conv_state_bytes() as usize,
                },
                DeviceOp::Zero {
                    buffer: caches.v@[n - 1],
                    bytes: cfg.mixer_state_bytes() as usize,
                },
            ]
        } else {
            before
        }
    }
}

/// The operation that zeros a whole buffer.
pub open spec fn whole_zero(buffer: DeviceBuffer) -> DeviceOp {
    DeviceOp::Zero { buffer, bytes: buffer.len_bytes }
}

/// The operations that zero the first `n` buffers of a list.
pub open spec fn zeros_of(bufs: Seq<DeviceBuffer>) -> Seq<DeviceOp> {
    Seq::new(bufs.len(), |i: int| whole_zero(bufs[i]))
}

/// The operations that zero those of the first `n` buffers that are there.
pub open spec fn zeros_present(bufs: Seq<Option<DeviceBuffer>>, n: nat) -> Seq<DeviceOp>
    decreases n,
{
    if n == 0 {
        Seq::empty()
    } else {
        let before = zeros_present(bufs, (n - 1) as nat);
        match bufs[n - 1] {
            Some(b) => before.push(whole_zero(b)),
            None => before,
        }
    }
}

/// The operations that bring a recurrent slot back to the state before its first token.
pub open spec fn reset_ops(cfg: Config, slot: SeamKv) -> Seq<DeviceOp> {
    state_zeros_below(cfg, slot.caches, cfg.layers@.len()) + (match slot.ple_state_buf {
        Some(b) => seq![whole_zero(b)],
        None => Seq::empty(),
    })
}

/// The operations that make a synthetic context's history all zero.
pub open spec fn synthetic_zeros(cfg: Config, slot: SeamKv) -> Seq<DeviceOp> {
    if cfg.recurrent() {
        reset_ops(cfg, slot) + (if cfg.qwen4exp && !slot.segmented_kv.enabled {
            zeros_present(slot.caches.qsa_raw@, slot.caches.qsa_raw@.len()) + zeros_present(
                slot.caches.qsa_block@,
                slot.caches.qsa_block@.len(),
            )
        } else {
            Seq::empty()
        })
    } else if cfg.deepseek4 {
        zeros_of(slot.caches.k@) + zeros_of(slot.caches.v@)
    } else {
        Seq::empty()
    }
}

fn push_zeros(ops: &mut Vec<DeviceOp>, bufs: &Vec<DeviceBuffer>)
    ensures
        final(ops)@ == old(ops)@ + zeros_of(bufs@),
{
    let ghost start = ops@;
    let mut i: usize = 0;
    while i < bufs.len()
        invariant
            i <= bufs@.len(),
            ops@ == start + zeros_of(bufs@.take(i as int)),
        decreases bufs@.len() - i,
    {
        ops.push(DeviceOp::Zero { buffer: bufs[i], bytes: bufs[i].len_bytes });
        i = i + 1;
        assert(ops@ =~= start + zeros_of(bufs@.take(i as int)));
    }
    assert(bufs@.take(i as int) =~= bufs@);
}

fn push_present_zeros(ops: &mut Vec<DeviceOp>, bufs: &Vec<Option<DeviceBuffer>>)
    ensures
        final(ops)@ == old(ops)@ + zeros_present(bufs@, bufs@.len()),
{
    let ghost start = ops@;
    let mut i: usize = 0;
    while i < bufs.len()
        invariant
            i <= bufs@.len(),
            ops@ == start + zeros_present(bufs@, i as nat),
        decreases bufs@.len() - i,
    {
        if let Some(b) = bufs[i] {
            ops.push(DeviceOp::Zero { buffer: b, bytes: b.len_bytes });
        }
        i = i + 1;
        assert(ops@ =~= start + zeros_present(bufs@, i as nat));
    }
}

/// The copies that seed the first `p` rows of the first `n` layers.
pub open spec fn seed_copies(cfg: Config, from: SeamKv, to: SeamKv, p: nat, n: nat) -> Seq<DeviceOp>
    decreases n,
{
    if n == 0 {
        Seq::empty()
    } else {
        let layer = cfg.layers@[n - 1];
        seed_copies(cfg, from, to, p, (n - 1) as nat) + seq![
            DeviceOp::Copy {
                src: from.caches.k@[n - 1],
                dst: to.caches.k@[n - 1],
                bytes: to.k_fmt.size(p * (layer.k_row as nat)) as usize,
            },
        ] + (if layer.v_row > 0 {
            seq![
                DeviceOp::Copy {
                    src: from.caches.v@[n - 1],
                    dst: to.caches.v@[n - 1],
                    bytes: to.v_fmt.size(p * (layer.v_row as nat)) as usize,
                },
            ]
        } else {
            Seq::empty()
        })
    }
}

/// A sliding-window layer among the first `n` whose ring of rows has wrapped at `depth` tokens.
pub open spec fn ring_wrapped(cfg: Config, rows: Seq<usize>, depth: nat, n: nat) -> bool {
    exists|l: int|
        0 <= l < n && (#[trigger] cfg.layers@[l]).swa && depth > rows[l]
}

/// The rows that a slot takes over from another, asked for `p`.
pub open spec fn seed_len(src: SeamKv, to: SeamKv, p: usize) -> nat {
    let q: nat = if p <= src.cached@.len() {
        p as nat
    } else {
        src.cached@.len()
    };
    if q <= to.max_ctx {
        q
    } else {
        to.max_ctx as nat
    }
}

/// Whether a slot can take rows over from another at all.
pub open spec fn seeds(cfg: Config, src: SeamKv, to: SeamKv, p: usize, rows: Seq<usize>) -> bool {
    &&& !cfg.recurrent()
    &&& !cfg.deepseek4
    &&& seed_len(src, to, p) > 0
    &&& !(to.kv_ring && ring_wrapped(cfg, rows, src.cached@.len(), cfg.layers@.len()))
}

/// A takeover of rows: `ops` in order, then the first `rows` tokens are resident.
pub struct SeedPlan {
    pub ops: Vec<DeviceOp>,
    pub rows: usize,
}

impl SeamKv {
    /// The slot's lists describe a model with `n` layers.
    pub open spec fn fits(&self, n: nat) -> bool {
        &&& self.caches.fits(n)
        &&& self.k_fmt.valid()
        &&& self.v_fmt.valid()
        &&& (self.turn_recurrent_ckpt matches Some(ck) ==> ck.fits(n))
        &&& (self.mtp_delta_ckpt matches Some(ck) ==> ck.fits(n))
    }

    /// No more tokens are recorded than the context holds, neither as resident nor as a checkpoint.
    pub open spec fn within_context(&self) -> bool {
        &&& self.cached@.len() <= self.max_ctx
        &&& self.turn_recurrent_ckpt matches Some(ck) ==> ck.tokens@.len() <= self.max_ctx
    }

    /// Everything but the resident tokens and the two checkpoints.
    pub open spec fn same_buffers(&self, other: &SeamKv) -> bool {
        &&& self.caches == other.caches
        &&& self.k_fmt == other.k_fmt
        &&& self.v_fmt == other.v_fmt
        &&& self.hidden_buf == other.hidden_buf
        &&& self.pos_buf == other.pos_buf
        &&& self.ipl_buf == other.ipl_buf
        &&& self.logits_buf == other.logits_buf
        &&& self.qwen_wide_buf == other.qwen_wide_buf
        &&& self.ple_embd_buf == other.ple_embd_buf
        &&& self.ple_state_buf == other.ple_state_buf
        &&& self.max_ctx == other.max_ctx
        &&& self.kv_ring == other.kv_ring
        &&& self.sc_ping_write == other.sc_ping_write
    }

    /// The tokens of the published checkpoint, if there is one.
    pub open spec fn published(&self) -> Option<Seq<u32>> {
        match self.turn_recurrent_ckpt {
            Some(ck) => if ck.valid {
                Some(ck.tokens@)
            } else {
                None
            },
            None => None,
        }
    }

    /// The published checkpoint's extension for `prompt`.
    pub open spec fn checkpoint_start(&self, prompt: Seq<u32>) -> Option<usize> {
        match self.published() {
            Some(tokens) => extension_start(tokens, prompt),
            None => None,
        }
    }

    /// The context that the caches were allocated for.
    pub fn max_ctx(&self) -> (n: usize)
        ensures
            n == self.max_ctx,
    {
        self.max_ctx
    }

    /// Whether both sides of the cache are kept in eight-bit blocks.
    pub fn kv_q8(&self) -> (q: bool)
        ensures
            q == (self.k_fmt.dtype == DType::Q8_0 && self.v_fmt.dtype == DType::Q8_0),
    {
        self.k_fmt.dtype == DType::Q8_0 && self.v_fmt.dtype == DType::Q8_0
    }

    /// How many leading tokens of `prompt` are resident.
    pub fn prefix_score(&self, prompt: &[u32]) -> (n: usize)
        ensures
            n == shared_prefix(self.cached@, prompt@),
    {
        common_prefix_len(&self.cached, prompt)
    }

    /// The longest state that this slot can continue for `prompt`: its live one, or that of the
    /// published checkpoint.
    pub fn continuation_prefix_len(&self, prompt: &[u32]) -> (n: Option<usize>)
        ensures
            n == continuation(self.cached@, self.published(), prompt@),
    {
        let live: Option<usize> = live_prefix_len(&self.cached, prompt);
        let checkpoint: Option<usize> = self.checkpoint_prefix(prompt);
        longest_prefix(live, checkpoint)
    }

    /// The prefix of `prompt` that the published checkpoint gives.
    pub fn checkpoint_prefix(&self, prompt: &[u32]) -> (n: Option<usize>)
        ensures
            n == self.checkpoint_start(prompt@),
    {
        match &self.turn_recurrent_ckpt {
            Some(ck) => if ck.valid {
                checkpoint_extension_start(&ck.tokens, prompt)
            } else {
                None
            },
            None => None,
        }
    }

    /// Number of resident tokens.
    pub fn cached_len(&self) -> (n: usize)
        ensures
            n == self.cached@.len(),
    {
        self.cached.len()
    }

    /// Forgets the resident tokens and withdraws the checkpoint; the buffers stay.
    pub fn reset(&mut self)
        ensures
            final(self).same_buffers(old(self)),
            final(self).segmented_kv == old(self).segmented_kv,
            final(self).mtp_delta_ckpt == old(self).mtp_delta_ckpt,
            final(self).cached@.len() == 0,
            final(self).published() is None,
            withdrawn(old(self).turn_recurrent_ckpt, final(self).turn_recurrent_ckpt),
            forall|n: nat| #[trigger] old(self).fits(n) ==> final(self).fits(n),
            old(self).within_context() ==> final(self).within_context(),
    {
        self.cached = Vec::new();
        self.invalidate_turn_checkpoint();
    }

    /// Withdraws the conversation checkpoint.
    pub fn invalidate_turn_checkpoint(&mut self)
        ensures
            final(self).same_buffers(old(self)),
            final(self).segmented_kv == old(self).segmented_kv,
            final(self).mtp_delta_ckpt == old(self).mtp_delta_ckpt,
            final(self).cached@ == old(self).cached@,
            final(self).published() is None,
            withdrawn(old(self).turn_recurrent_ckpt, final(self).turn_recurrent_ckpt),
            forall|n: nat| #[trigger] old(self).fits(n) ==> final(self).fits(n),
            old(self).within_context() ==> final(self).within_context(),
    {
        if let Some(ck) = self.turn_recurrent_ckpt.as_mut() {
            ck.invalidate();
        }
    }

    /// What a synthetic context of `tokens` tokens needs before it can be set: its growth, or the
    /// reason why it is refused.
    pub fn synthetic_depth(&self, cfg: &Config, tokens: usize) -> (plan: Result<
        Option<DepthPlan>,
        Error,
    >)
        requires
            self.fits(cfg.layers@.len()),
        ensures
            tokens > self.max_ctx ==> plan == Err::<Option<DepthPlan>, Error>(
                Error::SyntheticDepthExceedsSession { tokens, max_ctx: self.max_ctx },
            ),
            tokens <= self.max_ctx ==> (plan matches Ok(None) <==> !self.segmented_kv.enabled
                || tokens <= self.segmented_kv.committed_tokens),
            tokens <= self.max_ctx && self.segmented_kv.enabled && tokens
                > self.segmented_kv.committed_tokens ==> match depth_refused(
                *cfg,
                self.max_ctx,
                self.k_fmt,
                self.v_fmt,
                self.caches,
                tokens,
            ) {
                Some(e) => plan == Err::<Option<DepthPlan>, Error>(e),
                None => plan matches Ok(Some(p)) && depth_plan(
                    p,
                    *cfg,
                    self.k_fmt,
                    self.v_fmt,
                    self.caches,
                    tokens,
                ),
            },
    {
        if tokens > self.max_ctx {
            return Err(
                Error::SyntheticDepthExceedsSession { tokens, max_ctx: self.max_ctx },
            );
        }
        self.ensure_segmented_depth(cfg, tokens)
    }

    /// What has to grow before `tokens` tokens can be written, if anything.
    pub fn ensure_segmented_depth(&self, cfg: &Config, tokens: usize) -> (plan: Result<
        Option<DepthPlan>,
        Error,
    >)
        requires
            self.fits(cfg.layers@.len()),
        ensures
            plan matches Ok(None) <==> !self.segmented_kv.enabled || tokens
                <= self.segmented_kv.committed_tokens,
            self.segmented_kv.enabled && tokens > self.segmented_kv.committed_tokens
                ==> match depth_refused(
                *cfg,
                self.max_ctx,
                self.k_fmt,
                self.v_fmt,
                self.caches,
                tokens,
            ) {
                Some(e) => plan == Err::<Option<DepthPlan>, Error>(e),
                None => plan matches Ok(Some(p)) && depth_plan(
                    p,
                    *cfg,
                    self.k_fmt,
                    self.v_fmt,
                    self.caches,
                    tokens,
                ),
            },
    {
        self.segmented_kv.ensure_depth(
            cfg,
            self.max_ctx,
            self.k_fmt,
            self.v_fmt,
            &self.caches,
            tokens,
        )
    }

    /// The operations that give a synthetic context an all-zero history.
    pub fn synthetic_ops(&self, cfg: &Config) -> (ops: Vec<DeviceOp>)
        requires
            self.fits(cfg.layers@.len()),
            cfg.recurrent() ==> cfg.state_fits(),
        ensures
            ops@ == (if self.segmented_kv.enabled {
                clears_below(*cfg, self.caches, cfg.layers@.len())
            } else {
                Seq::empty()
            }) + synthetic_zeros(*cfg, *self),
    {
        let mut ops: Vec<DeviceOp> = self.segmented_kv.clear(cfg, &self.caches);
        let ghost cleared = ops@;
        if cfg.recurrent_model() {
            self.push_reset_ops(cfg, &mut ops);
            if cfg.qwen4exp && !self.segmented_kv.enabled {
                push_present_zeros(&mut ops, &self.caches.qsa_raw);
                push_present_zeros(&mut ops, &self.caches.qsa_block);
            }
        } else if cfg.deepseek4 {
            push_zeros(&mut ops, &self.caches.k);
            push_zeros(&mut ops, &self.caches.v);
        }
        assert(ops@ =~= cleared + synthetic_zeros(*cfg, *self));
        ops
    }

    /// The operations that bring a recurrent slot back to the state before its first token.
    pub fn recurrent_reset_ops(&self, cfg: &Config) -> (ops: Vec<DeviceOp>)
        requires
            self.fits(cfg.layers@.len()),
            cfg.state_fits(),
        ensures
            ops@ == reset_ops(*cfg, *self),
    {
        let mut ops: Vec<DeviceOp> = Vec::new();
        self.push_reset_ops(cfg, &mut ops);
        assert(ops@ =~= reset_ops(*cfg, *self));
        ops
    }

    fn push_reset_ops(&self, cfg: &Config, ops: &mut Vec<DeviceOp>)
        requires
            self.fits(cfg.layers@.len()),
            cfg.state_fits(),
        ensures
            final(ops)@ == old(ops)@ + reset_ops(*cfg, *self),
    {
        let ghost start = ops@;
        let conv: usize = cfg.conv_bytes();
        let state: usize = cfg.state_bytes();
        let n: usize = cfg.layers.len();
        let mut l: usize = 0;
        while l < n
            invariant
                l <= n == cfg.layers@.len(),
                self.fits(n as nat),
                conv == cfg.conv_state_bytes(),
                state == cfg.mixer_state_bytes(),
                ops@ == start + state_zeros_below(*cfg, self.caches, l as nat),
            decreases n - l,
        {
            if cfg.layers[l].recurrent {
                ops.push(DeviceOp::Zero { buffer: self.caches.k[l], bytes: conv });
                ops.push(DeviceOp::Zero { buffer: self.caches.v[l], bytes: state });
            }
            l = l + 1;
            assert(ops@ =~= start + state_zeros_below(*cfg, self.caches, l as nat));
        }
        if let Some(b) = self.ple_state_buf {
            ops.push(DeviceOp::Zero { buffer: b, bytes: b.len_bytes });
        }
        assert(ops@ =~= start + reset_ops(*cfg, *self));
    }

    /// Records that a synthetic context was set up, or refuses one that is deeper than the session. The
    /// rows of a lazily grown cache are committed by then.
    pub fn set_synthetic_cached(&mut self, tokens: Vec<u32>) -> (done: Result<(), Error>)
        requires
            old(self).segmented_kv.enabled && tokens@.len() <= old(self).max_ctx ==> tokens@.len()
                <= old(self).segmented_kv.committed_tokens,
        ensures
            tokens@.len() > old(self).max_ctx ==> done == Err::<(), Error>(
                Error::SyntheticDepthExceedsSession {
                    tokens: tokens@.len() as usize,
                    max_ctx: old(self).max_ctx,
                },
            ) && *final(self) == *old(self),
            tokens@.len() <= old(self).max_ctx ==> {
                &&& done == Ok::<(), Error>(())
                &&& final(self).same_buffers(old(self))
                &&& final(self).segmented_kv == old(self).segmented_kv
                &&& final(self).mtp_delta_ckpt == old(self).mtp_delta_ckpt
                &&& final(self).cached@ == tokens@
                &&& final(self).published() is None
                &&& withdrawn(old(self).turn_recurrent_ckpt, final(self).turn_recurrent_ckpt)
                &&& final(self).within_context()
            },
            forall|n: nat| #[trigger] old(self).fits(n) ==> final(self).fits(n),
    {
        if tokens.len() > self.max_ctx {
            return Err(
                Error::SyntheticDepthExceedsSession { tokens: tokens.len(), max_ctx: self.max_ctx },
            );
        }
        self.cached = tokens;
        self.invalidate_turn_checkpoint();
        Ok(())
    }

    /// The copies that put the published checkpoint back.
    pub open spec fn restore_copies(&self) -> Seq<DeviceOp> {
        let ck = self.turn_recurrent_ckpt->0;
        put_back(
            ck.layers@,
            ck.kbufs@,
            ck.vbufs@,
            self.caches.k@,
            self.caches.v@,
            ck.layers@.len(),
        ) + (match (ck.ple_state, self.ple_state_buf) {
            (Some(src), Some(dst)) => seq![whole_copy(src, dst)],
            _ => Seq::empty(),
        })
    }

    /// How the published checkpoint is put back for `prompt`. A prompt that does not extend it is
    /// no error: nothing is done, and the caller starts over.
    pub fn restore_turn_recurrent(&self, cfg: &Config, prompt: &[u32]) -> (plan: RestorePlan)
        requires
            self.fits(cfg.layers@.len()),
        ensures
            match self.checkpoint_start(prompt@) {
                None => plan.ops@.len() == 0 && plan.outcome == Ok::<Option<usize>, Error>(None),
                Some(len) => {
                    &&& plan.ops@ == self.restore_copies()
                    &&& plan.outcome == (if (self.turn_recurrent_ckpt->0).ple_state is Some
                        == self.ple_state_buf is Some {
                        Ok::<Option<usize>, Error>(Some(len))
                    } else {
                        Err(Error::CheckpointPleTargetDiffers)
                    })
                },
            },
    {
        let ck: &TurnRecurrentCkpt = match &self.turn_recurrent_ckpt {
            Some(ck) => ck,
            None => {
                return RestorePlan { ops: Vec::new(), outcome: Ok(None) };
            },
        };
        let len: usize = match self.checkpoint_prefix(prompt) {
            Some(len) => len,
            None => {
                return RestorePlan { ops: Vec::new(), outcome: Ok(None) };
            },
        };
        let mut ops: Vec<DeviceOp> = put_back_ops(&ck.layers, &ck.kbufs, &ck.vbufs, &self.caches);
        let ghost layers = ops@;
        match (ck.ple_state, self.ple_state_buf) {
            (Some(src), Some(dst)) => {
                ops.push(DeviceOp::Copy { src, dst, bytes: src.len_bytes });
                assert(ops@ =~= layers + seq![whole_copy(src, dst)]);
                RestorePlan { ops, outcome: Ok(Some(len)) }
            },
            (None, None) => {
                assert(ops@ =~= layers + Seq::<DeviceOp>::empty());
                RestorePlan { ops, outcome: Ok(Some(len)) }
            },
            _ => {
                assert(ops@ =~= layers + Seq::<DeviceOp>::empty());
                RestorePlan { ops, outcome: Err(Error::CheckpointPleTargetDiffers) }
            },
        }
    }

    /// Records that the published checkpoint was put back.
    pub fn restored_turn_recurrent(&mut self)
        requires
            old(self).published() is Some,
        ensures
            final(self).same_buffers(old(self)),
            final(self).segmented_kv == old(self).segmented_kv,
            final(self).mtp_delta_ckpt == old(self).mtp_delta_ckpt,
            final(self).turn_recurrent_ckpt == old(self).turn_recurrent_ckpt,
            Some(final(self).cached@) == old(self).published(),
            old(self).within_context() ==> final(self).within_context(),
    {
        if let Some(ck) = &self.turn_recurrent_ckpt {
            let tokens: Vec<u32> = first_tokens(&ck.tokens, ck.tokens.len());
            assert(ck.tokens@.take(ck.tokens@.len() as int) =~= ck.tokens@);
            self.cached = tokens;
        }
    }

    /// The allocations that a first rollback point needs.
    pub fn mtp_snapshot_requests(&self, cfg: &Config) -> (requests: Vec<AllocRequest>)
        requires
            self.fits(cfg.layers@.len()),
        ensures
            requests@ == (if self.mtp_delta_ckpt is Some {
                Seq::empty()
            } else {
                rollback_requests(
                    rollback_layers(*cfg),
                    self.caches.k@,
                    self.caches.v@,
                    rollback_layers(*cfg).len(),
                )
            }),
    {
        let mut requests: Vec<AllocRequest> = Vec::new();
        if self.mtp_delta_ckpt.is_some() {
            return requests;
        }
        let layers: Vec<usize> = list_rollback_layers(cfg);
        let n_layer: usize = cfg.layers.len();
        proof {
            lemma_rollback_layers(*cfg, n_layer as nat);
        }
        let mut i: usize = 0;
        while i < layers.len()
            invariant
                i <= layers@.len(),
                self.caches.fits(n_layer as nat),
                forall|j: int| 0 <= j < layers@.len() ==> (#[trigger] layers@[j]) < n_layer,
                requests@ == rollback_requests(
                    layers@,
                    self.caches.k@,
                    self.caches.v@,
                    i as nat,
                ),
            decreases layers@.len() - i,
        {
            let l: usize = layers[i];
            let ghost before = requests@;
            requests.push(
                AllocRequest::Fixed {
                    bytes: at_least_one(self.caches.k[l].len_bytes),
                    usage: BufferUsage::KvCache,
                },
            );
            requests.push(
                AllocRequest::Fixed {
                    bytes: at_least_one(self.caches.v[l].len_bytes),
                    usage: BufferUsage::KvCache,
                },
            );
            assert(requests@ =~= before + seq![
                state_request(self.caches.k@[l as int].len_bytes),
                state_request(self.caches.v@[l as int].len_bytes),
            ]);
            i = i + 1;
        }
        requests
    }

    /// Sets the rollback point up and says what to copy into it. `allocated` are the buffers for
    /// [`SeamKv::mtp_snapshot_requests`], in their order. A model without layers to roll back has
    /// no rollback point.
    pub fn mtp_snapshot_delta(&mut self, cfg: &Config, allocated: &Vec<DeviceBuffer>) -> (ops: Vec<
        DeviceOp,
    >)
        requires
            old(self).fits(cfg.layers@.len()),
            old(self).mtp_delta_ckpt is None ==> allocated@.len() == 2 * rollback_layers(
                *cfg,
            ).len(),
        ensures
            final(self).fits(cfg.layers@.len()),
            final(self).same_buffers(old(self)),
            final(self).segmented_kv == old(self).segmented_kv,
            final(self).cached@ == old(self).cached@,
            final(self).turn_recurrent_ckpt == old(self).turn_recurrent_ckpt,
            old(self).mtp_delta_ckpt is Some ==> final(self).mtp_delta_ckpt
                == old(self).mtp_delta_ckpt,
            old(self).mtp_delta_ckpt is None ==> (final(self).mtp_delta_ckpt is Some
                <==> rollback_layers(*cfg).len() > 0),
            old(self).mtp_delta_ckpt is None ==> (final(self).mtp_delta_ckpt matches Some(ck) ==> {
                &&& ck.layers@ == rollback_layers(*cfg)
                &&& ck.kbufs@ == every_second(allocated@, 0, ck.layers@.len())
                &&& ck.vbufs@ == every_second(allocated@, 1, ck.layers@.len())
                &&& ck.cached_len == 0
            }),
            ops@ == (match final(self).mtp_delta_ckpt {
                Some(ck) => set_aside(
                    ck.layers@,
                    final(self).caches.k@,
                    final(self).caches.v@,
                    ck.kbufs@,
                    ck.vbufs@,
                    ck.layers@.len(),
                ),
                None => Seq::empty(),
            }),
            old(self).within_context() ==> final(self).within_context(),
    {
        if self.mtp_delta_ckpt.is_none() {
            let layers: Vec<usize> = list_rollback_layers(cfg);
            if layers.len() == 0 {
                return Vec::new();
            }
            let n_layer: usize = cfg.layers.len();
            proof {
                lemma_rollback_layers(*cfg, n_layer as nat);
            }
            let n: usize = layers.len();
            let m: usize = allocated.len();
            let mut kbufs: Vec<DeviceBuffer> = Vec::new();
            let mut vbufs: Vec<DeviceBuffer> = Vec::new();
            let mut i: usize = 0;
            while i < n
                invariant
                    i <= n,
                    2 * n == m == allocated@.len(),
                    kbufs@ == every_second(allocated@, 0, i as nat),
                    vbufs@ == every_second(allocated@, 1, i as nat),
                decreases n - i,
            {
                kbufs.push(allocated[2 * i]);
                vbufs.push(allocated[2 * i + 1]);
                i = i + 1;
                assert(kbufs@ =~= every_second(allocated@, 0, i as nat));
                assert(vbufs@ =~= every_second(allocated@, 1, i as nat));
            }
            self.mtp_delta_ckpt = Some(MtpDeltaCkpt { kbufs, vbufs, layers, cached_len: 0 });
        }
        match &self.mtp_delta_ckpt {
            Some(ck) => set_aside_ops(&ck.layers, &self.caches, &ck.kbufs, &ck.vbufs),
            None => Vec::new(),
        }
    }

    /// Records that the rollback point was copied: it stands at what is resident now.
    pub fn mtp_snapshot_done(&mut self)
        ensures
            final(self).same_buffers(old(self)),
            final(self).segmented_kv == old(self).segmented_kv,
            final(self).cached@ == old(self).cached@,
            final(self).turn_recurrent_ckpt == old(self).turn_recurrent_ckpt,
            (final(self).mtp_delta_ckpt is Some) == (old(self).mtp_delta_ckpt is Some),
            final(self).mtp_delta_ckpt matches Some(ck) ==> {
                let before = old(self).mtp_delta_ckpt->0;
                &&& ck.cached_len == old(self).cached@.len()
                &&& ck.layers == before.layers
                &&& ck.kbufs == before.kbufs
                &&& ck.vbufs == before.vbufs
            },
            forall|n: nat| #[trigger] old(self).fits(n) ==> final(self).fits(n),
            old(self).within_context() ==> final(self).within_context(),
    {
        let len: usize = self.cached.len();
        if let Some(ck) = self.mtp_delta_ckpt.as_mut() {
            ck.cached_len = len;
        }
    }

    /// The copies that roll back to the rollback point; none where there is none.
    pub fn mtp_restore_ops(&self, cfg: &Config) -> (ops: Vec<DeviceOp>)
        requires
            self.fits(cfg.layers@.len()),
        ensures
            ops@ == (match self.mtp_delta_ckpt {
                Some(ck) => put_back(
                    ck.layers@,
                    ck.kbufs@,
                    ck.vbufs@,
                    self.caches.k@,
                    self.caches.v@,
                    ck.layers@.len(),
                ),
                None => Seq::empty(),
            }),
    {
        match &self.mtp_delta_ckpt {
            Some(ck) => put_back_ops(&ck.layers, &ck.kbufs, &ck.vbufs, &self.caches),
            None => Vec::new(),
        }
    }

    /// The tokens that are resident once the slot is rolled back.
    pub open spec fn rolled_back(&self) -> Seq<u32> {
        match self.mtp_delta_ckpt {
            Some(ck) => if ck.cached_len <= self.cached@.len() {
                self.cached@.take(ck.cached_len as int)
            } else {
                self.cached@
            },
            None => self.cached@,
        }
    }

    /// Records that the slot was rolled back: tokens past the rollback point are no longer
    /// resident.
    pub fn mtp_restore_delta(&mut self)
        ensures
            final(self).same_buffers(old(self)),
            final(self).segmented_kv == old(self).segmented_kv,
            final(self).turn_recurrent_ckpt == old(self).turn_recurrent_ckpt,
            final(self).mtp_delta_ckpt == old(self).mtp_delta_ckpt,
            final(self).cached@ == old(self).rolled_back(),
            old(self).within_context() ==> final(self).within_context(),
    {
        if let Some(ck) = &self.mtp_delta_ckpt {
            let len: usize = ck.cached_len;
            self.cached.truncate(len);
        }
    }

    /// The size of a cache of `self`'s context can be computed for each layer.
    pub open spec fn rows_fit(&self, cfg: &Config) -> bool {
        forall|l: int| #![trigger cfg.layers@[l]]
            0 <= l < cfg.layers@.len() ==> {
                let ctx = self.max_ctx as nat;
                &&& ctx * (cfg.layers@[l].k_row as nat) <= usize::MAX
                &&& ctx * (cfg.layers@[l].v_row as nat) <= usize::MAX
                &&& self.k_fmt.size(ctx * (cfg.layers@[l].k_row as nat)) <= usize::MAX
                &&& self.v_fmt.size(ctx * (cfg.layers@[l].v_row as nat)) <= usize::MAX
            }
    }

    /// How this slot takes over the first `p` rows of `src`, so that it need not feed a shared
    /// prefix again. `rows` are the rows of each layer's ring.
    ///
    /// Nothing is taken over where the state is not per token, or where a ring of the source has
    /// wrapped and its first rows were overwritten: feeding the prefix again is always correct.
    pub fn seed_plan(&self, cfg: &Config, src: &SeamKv, p: usize, rows: &Vec<usize>) -> (plan: Option<
        SeedPlan,
    >)
        requires
            self.fits(cfg.layers@.len()),
            src.fits(cfg.layers@.len()),
            rows@.len() == cfg.layers@.len(),
            self.rows_fit(cfg),
        ensures
            plan is Some <==> seeds(*cfg, *src, *self, p, rows@),
            plan matches Some(made) ==> {
                &&& made.rows == seed_len(*src, *self, p)
                &&& made.ops@ == seed_copies(
                    *cfg,
                    *src,
                    *self,
                    made.rows as nat,
                    cfg.layers@.len(),
                )
            },
    {
        if cfg.recurrent_model() || cfg.deepseek4 {
            return None;
        }
        let shared: usize = if p <= src.cached.len() {
            p
        } else {
            src.cached.len()
        };
        let q: usize = if shared <= self.max_ctx {
            shared
        } else {
            self.max_ctx
        };
        if q == 0 {
            return None;
        }
        let n: usize = cfg.layers.len();
        if self.kv_ring {
            let depth: usize = src.cached.len();
            let mut l: usize = 0;
            while l < n
                invariant
                    l <= n == cfg.layers@.len() == rows@.len(),
                    depth == src.cached@.len(),
                    self.kv_ring,
                    !ring_wrapped(*cfg, rows@, depth as nat, l as nat),
                decreases n - l,
            {
                if cfg.layers[l].swa && depth > rows[l] {
                    assert(ring_wrapped(*cfg, rows@, depth as nat, n as nat)) by {
                        assert(cfg.layers@[l as int].swa && depth > rows@[l as int]);
                    }
                    return None;
                }
                l = l + 1;
            }
        }
        let mut ops: Vec<DeviceOp> = Vec::new();
        let mut l: usize = 0;
        while l < n
            invariant
                l <= n == cfg.layers@.len(),
                self.fits(n as nat),
                src.fits(n as nat),
                self.rows_fit(cfg),
                q <= self.max_ctx,
                ops@ == seed_copies(*cfg, *src, *self, q as nat, l as nat),
            decreases n - l,
        {
            let k_row: usize = cfg.layers[l].k_row;
            let v_row: usize = cfg.layers[l].v_row;
            proof {
                let ctx = self.max_ctx as nat;
                lemma_mul_inequality(q as int, ctx as int, k_row as int);
                lemma_mul_inequality(q as int, ctx as int, v_row as int);
                lemma_size_monotone(
                    self.k_fmt,
                    q as nat * k_row as nat,
                    ctx * (k_row as nat),
                );
                lemma_size_monotone(
                    self.v_fmt,
                    q as nat * v_row as nat,
                    ctx * (v_row as nat),
                );
            }
            let ghost before = ops@;
            ops.push(
                DeviceOp::Copy {
                    src: src.caches.k[l],
                    dst: self.caches.k[l],
                    bytes: kv_fmt_bytes(self.k_fmt, q * k_row),
                },
            );
            if v_row > 0 {
                ops.push(
                    DeviceOp::Copy {
                        src: src.caches.v[l],
                        dst: self.caches.v[l],
                        bytes: kv_fmt_bytes(self.v_fmt, q * v_row),
                    },
                );
            }
            l = l + 1;
            assert(ops@ =~= seed_copies(*cfg, *src, *self, q as nat, l as nat));
        }
        Some(SeedPlan { ops, rows: q })
    }

    /// Records that the first `rows` rows of `src` were taken over.
    pub fn seed_from(&mut self, src: &SeamKv, rows: usize)
        requires
            rows <= src.cached@.len(),
        ensures
            final(self).same_buffers(old(self)),
            final(self).segmented_kv == old(self).segmented_kv,
            final(self).mtp_delta_ckpt == old(self).mtp_delta_ckpt,
            final(self).turn_recurrent_ckpt == old(self).turn_recurrent_ckpt,
            final(self).cached@ == src.cached@.take(rows as int),
            old(self).within_context() && rows <= old(self).max_ctx ==> final(self).within_context(),
    {
        self.cached = first_tokens(&src.cached, rows);
    }
}

/// A rollback point that is put back after more tokens were fed leaves exactly the tokens that were
/// resident when it was taken.
pub proof fn law_rollback_undoes_appended_tokens(taken: SeamKv, later: SeamKv, appended: Seq<u32>)
    requires
        taken.mtp_delta_ckpt matches Some(ck) && ck.cached_len == taken.cached@.len(),
        later.mtp_delta_ckpt == taken.mtp_delta_ckpt,
        later.cached@ == taken.cached@ + appended,
    ensures
        later.rolled_back() == taken.cached@,
{
    assert(later.cached@.take(taken.cached@.len() as int) =~= taken.cached@);
}

/// A seeded slot continues any prompt that begins with the rows it took over: what it holds is
/// shared with the source and fits its own context.
pub proof fn law_seeded_rows_are_shared(src: SeamKv, to: SeamKv, p: usize)
    ensures
        seed_len(src, to, p) <= src.cached@.len(),
        seed_len(src, to, p) <= p,
        seed_len(src, to, p) <= to.max_ctx,
        begins_with(src.cached@, src.cached@.take(seed_len(src, to, p) as int)),
        shared_prefix(src.cached@.take(seed_len(src, to, p) as int), src.cached@) == seed_len(
            src,
            to,
            p,
        ),
{
    let n = seed_len(src, to, p);
    let taken = src.cached@.take(n as int);
    assert(src.cached@.take(taken.len() as int) =~= taken);
    crate::prefix::lemma_shared_prefix_is_maximal(taken, src.cached@, n);
}

} // verus!
