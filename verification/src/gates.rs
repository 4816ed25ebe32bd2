//! Which of several ways a session or a step takes: cache formats, lazy growth, where tokens are
//! sampled, and whether a recorded step can be replayed.

use crate::config::DType;
use crate::error::Error;
use crate::tensor_scan::{find_from, find_tensor, layer_tensor, layer_tensor_name, TensorInfo};
use vstd::prelude::*;

verus! {

/// The backends whose cache formats are known.
#[derive(Clone, Copy, Debug, PartialEq, Eq, Structural)]
pub enum BackendKind {
    Cpu,
    Vulkan,
    Metal,
    Other,
}

/// What decides the format of a cache.
pub struct KvRequest {
    pub backend: BackendKind,
    /// The formats asked for; `None` where none was named or the name is unknown.
    pub type_k: Option<DType>,
    pub type_v: Option<DType>,
    /// Eight-bit blocks wherever nothing else was named.
    pub force_q8: bool,
    /// Eight-bit blocks were chosen for want of room, or are this model's default.
    pub auto_q8: bool,
    /// Every cache row is made of whole blocks.
    pub rows_aligned: bool,
    /// The head length of each layer.
    pub head_dims: Vec<usize>,
}

impl KvRequest {
    /// The backend reads formats other than half precision.
    pub open spec fn known_backend(self) -> bool {
        self.backend != BackendKind::Other
    }

    /// Every head is made of whole rotation groups.
    pub open spec fn turbo_heads(self) -> bool {
        forall|l: int| 0 <= l < self.head_dims@.len() ==> (#[trigger] self.head_dims@[l]) % 128 == 0
    }

    /// The format that a cache gets which was asked for in format `want`: that one where the backend
    /// and the model's rows allow it, or else the default.
    pub open spec fn format(self, want: Option<DType>) -> DType {
        match want {
            Some(DType::F16) => DType::F16,
            Some(d) => if self.allowed(d) {
                d
            } else {
                self.default_format()
            },
            None => self.default_format(),
        }
    }

    /// The backend and the model's rows allow the named format.
    pub open spec fn allowed(self, d: DType) -> bool {
        match d {
            DType::Turbo2 | DType::Turbo3 | DType::Turbo4 => self.known_backend()
                && self.turbo_heads(),
            DType::Q8_0 | DType::Q4_0 | DType::Q4_1 | DType::Q5_0 | DType::Q5_1 | DType::Iq4Nl =>
                self.rows_aligned && self.known_backend(),
            DType::Bf16 | DType::F32 => self.known_backend(),
            DType::F16 => true,
            _ => false,
        }
    }

    /// The format of a cache for which nothing usable was named.
    pub open spec fn default_format(self) -> DType {
        if self.force_q8 && self.rows_aligned && self.known_backend() {
            DType::Q8_0
        } else if self.backend == BackendKind::Vulkan && self.auto_q8 && self.rows_aligned {
            DType::Q8_0
        } else {
            DType::F16
        }
    }

    fn has_turbo_heads(&self) -> (b: bool)
        ensures
            b == self.turbo_heads(),
    {
        let mut l: usize = 0;
        while l < self.head_dims.len()
            invariant
                l <= self.head_dims@.len(),
                forall|k: int| 0 <= k < l ==> (#[trigger] self.head_dims@[k]) % 128 == 0,
            decreases self.head_dims@.len() - l,
        {
            if self.head_dims[l] % 128 != 0 {
                return false;
            }
            l = l + 1;
        }
        true
    }

    fn is_allowed(&self, d: DType) -> (b: bool)
        ensures
            b == self.allowed(d),
    {
        let known: bool = self.backend != BackendKind::Other;
        match d {
            DType::Turbo2 => known && self.has_turbo_heads(),
            DType::Turbo3 => known && self.has_turbo_heads(),
            DType::Turbo4 => known && self.has_turbo_heads(),
            DType::Q8_0 => self.rows_aligned && known,
            DType::Q4_0 => self.rows_aligned && known,
            DType::Q4_1 => self.rows_aligned && known,
            DType::Q5_0 => self.rows_aligned && known,
            DType::Q5_1 => self.rows_aligned && known,
            DType::Iq4Nl => self.rows_aligned && known,
            DType::Bf16 => known,
            DType::F32 => known,
            DType::F16 => true,
            _ => false,
        }
    }

    /// See [`KvRequest::format`].
    pub fn parse_kv_fmt(&self, want: Option<DType>) -> (d: DType)
        ensures
            d == self.format(want),
    {
        if let Some(d) = want {
            if self.is_allowed(d) {
                return d;
            }
        }
        let known: bool = self.backend != BackendKind::Other;
        if self.force_q8 && self.rows_aligned && known {
            DType::Q8_0
        } else if self.backend == BackendKind::Vulkan && self.auto_q8 && self.rows_aligned {
            DType::Q8_0
        } else {
            DType::F16
        }
    }

    /// The formats of the two caches.
    pub open spec fn formats(self) -> KvFormats {
        let k = self.format(self.type_k);
        let v = self.format(self.type_v);
        if self.backend == BackendKind::Metal && k != v && (native_read(k) || native_read(v)) {
            KvFormats { k: DType::F16, v: DType::F16 }
        } else {
            KvFormats { k, v }
        }
    }

    /// Chooses the formats of the two caches. One backend reads eight-bit and single-precision caches
    /// with kernels that take both sides in one format; there a mixed request falls back to half
    /// precision on both sides.
    pub fn kv_formats(&self) -> (formats: KvFormats)
        ensures
            formats == self.formats(),
    {
        let k: DType = self.parse_kv_fmt(self.type_k);
        let v: DType = self.parse_kv_fmt(self.type_v);
        if self.backend == BackendKind::Metal && k != v && (is_native_read(k) || is_native_read(
            v,
        )) {
            KvFormats { k: DType::F16, v: DType::F16 }
        } else {
            KvFormats { k, v }
        }
    }
}

/// The formats of the two caches.
#[derive(Clone, Copy, Debug, PartialEq, Eq, Structural)]
pub struct KvFormats {
    pub k: DType,
    pub v: DType,
}

/// Attention reads the format without conversion, on both sides at once.
pub open spec fn native_read(d: DType) -> bool {
    d == DType::Q8_0 || d == DType::F32
}

fn is_native_read(d: DType) -> (b: bool)
    ensures
        b == native_read(d),
{
    d == DType::Q8_0 || d == DType::F32
}

/// Half precision or eight-bit blocks.
pub open spec fn half_or_block(d: DType) -> bool {
    d == DType::F16 || d == DType::Q8_0
}

impl KvFormats {
    pub open spec fn both_half_or_block(self) -> bool {
        half_or_block(self.k) && half_or_block(self.v)
    }

    /// Refuses formats that the model's kernels do not read.
    pub fn check(self, qwen4exp: bool) -> (r: Result<(), Error>)
        ensures
            r == (if qwen4exp && !self.both_half_or_block() {
                Err::<(), Error>(Error::Qwen4KvFormats { k: self.k, v: self.v })
            } else {
                Ok(())
            }),
    {
        let k_ok: bool = self.k == DType::F16 || self.k == DType::Q8_0;
        let v_ok: bool = self.v == DType::F16 || self.v == DType::Q8_0;
        if qwen4exp && (!k_ok || !v_ok) {
            Err(Error::Qwen4KvFormats { k: self.k, v: self.v })
        } else {
            Ok(())
        }
    }

    /// Whether sliding-window layers keep a ring of rows: the backend indexes rings, the model wants
    /// them, and both caches are in half precision or eight-bit blocks.
    pub fn ring(self, backend_rings: bool, wanted: bool) -> (ring: bool)
        ensures
            ring == (backend_rings && wanted && self.both_half_or_block()),
    {
        let k_ok: bool = self.k == DType::F16 || self.k == DType::Q8_0;
        let v_ok: bool = self.v == DType::F16 || self.v == DType::Q8_0;
        backend_rings && wanted && k_ok && v_ok
    }
}

/// A session never mixes a format that is read natively with another one on the backend whose
/// kernels read both sides alike.
pub proof fn law_native_reads_agree(request: KvRequest)
    requires
        request.backend == BackendKind::Metal,
    ensures
        native_read(request.formats().k) || native_read(request.formats().v)
            ==> request.formats().k == request.formats().v,
{
}

/// A backend that is not known keeps its caches in half precision, whatever is asked for.
pub proof fn law_unknown_backends_keep_half(request: KvRequest)
    requires
        request.backend == BackendKind::Other,
    ensures
        request.formats() == (KvFormats { k: DType::F16, v: DType::F16 }),
{
}

/// What decides how a new session lays its memory out.
#[derive(Clone, Copy, Debug, PartialEq, Eq, Structural)]
pub struct PlacementRequest {
    /// The elastic arena is sized only after all fixed allocations are made.
    pub deferred: bool,
    pub segments_available: bool,
    pub segments_wanted: bool,
    /// The slots that are served at once.
    pub slots: usize,
    pub checkpoint: bool,
    /// The model carries recurrent state.
    pub recurrent: bool,
}

/// How a new session lays its memory out.
#[derive(Clone, Copy, Debug, PartialEq, Eq, Structural)]
pub struct Placement {
    /// The caches grow by segments.
    pub segmented: bool,
    /// The context keeps the length asked for, instead of what fits the room that is left.
    pub keep_context: bool,
    /// Slots that are allocated together with this one.
    pub siblings: usize,
    /// A rolling checkpoint is allocated.
    pub checkpoint: bool,
}

/// How a new session lays its memory out: by segments where they are wanted and can be had.
pub open spec fn placed(r: PlacementRequest) -> Placement {
    let segmented = r.segments_wanted && (r.segments_available || r.deferred);
    Placement {
        segmented,
        keep_context: segmented || r.deferred,
        siblings: if r.deferred && r.slots > 0 {
            (r.slots - 1) as usize
        } else {
            0
        },
        checkpoint: r.checkpoint && r.recurrent,
    }
}

/// Decides how a new session lays its memory out.
pub fn place_session(r: &PlacementRequest) -> (p: Placement)
    ensures
        p == placed(*r),
        p.segmented == (r.segments_wanted && (r.segments_available || r.deferred)),
        p.keep_context == (p.segmented || r.deferred),
        p.siblings == (if r.deferred && r.slots > 0 {
            r.slots - 1
        } else {
            0
        }),
        p.checkpoint == (r.checkpoint && r.recurrent),
{
    let segmented: bool = r.segments_wanted && (r.segments_available || r.deferred);
    let siblings: usize = if r.deferred && r.slots > 0 {
        r.slots - 1
    } else {
        0
    };
    Placement {
        segmented,
        keep_context: segmented || r.deferred,
        siblings,
        checkpoint: r.checkpoint && r.recurrent,
    }
}

/// Where the next token is chosen.
#[derive(Clone, Copy, Debug, PartialEq, Eq, Structural)]
pub enum SamplePath {
    /// The device takes the largest logit.
    DeviceArgmax,
    /// The device draws from the largest logits.
    DeviceDraw,
    /// The host reads the logits.
    Host,
}

/// What decides where the next token is chosen.
#[derive(Clone, Copy, Debug, PartialEq, Eq, Structural)]
pub struct SampleRequest {
    /// The temperature is above zero.
    pub warm: bool,
    pub top_k: usize,
    /// A grammar masks the logits.
    pub constrained: bool,
    /// Repetition penalties change the logits.
    pub penalized: bool,
    pub argmax_option: bool,
    pub draw_option: bool,
    pub device_draws: bool,
    /// The most candidates that the device draws from.
    pub max_candidates: usize,
}

impl SampleRequest {
    /// The host must see the logits.
    pub open spec fn host_reads(self) -> bool {
        self.constrained || self.penalized
    }

    pub open spec fn spec_path(self) -> SamplePath {
        if (!self.warm || self.top_k == 1) && !self.host_reads() && self.argmax_option {
            SamplePath::DeviceArgmax
        } else if self.warm && 2 <= self.top_k <= self.max_candidates && !self.host_reads()
            && self.device_draws && self.draw_option {
            SamplePath::DeviceDraw
        } else {
            SamplePath::Host
        }
    }

    /// Decides where the next token is chosen.
    pub fn path(self) -> (p: SamplePath)
        ensures
            p == self.spec_path(),
    {
        let host: bool = self.constrained || self.penalized;
        if (!self.warm || self.top_k == 1) && !host && self.argmax_option {
            SamplePath::DeviceArgmax
        } else if self.warm && 2 <= self.top_k && self.top_k <= self.max_candidates && !host
            && self.device_draws && self.draw_option {
            SamplePath::DeviceDraw
        } else {
            SamplePath::Host
        }
    }
}

/// A grammar or a penalty always sees the logits.
pub proof fn law_masked_logits_reach_the_host(r: SampleRequest)
    requires
        r.constrained || r.penalized,
    ensures
        r.spec_path() == SamplePath::Host,
{
}

/// What a lane of a parallel step allows.
#[derive(Clone, Copy, Debug, PartialEq, Eq, Structural)]
pub struct LaneSampling {
    /// The lane takes the largest logit.
    pub argmax: bool,
    /// The lane draws with the sampler of the whole step.
    pub draw: bool,
}

/// What decides where the tokens of a parallel step are chosen.
pub struct BatchSampleRequest {
    /// The lanes that sample in this step.
    pub lanes: Vec<LaneSampling>,
    pub device_argmax_rows: bool,
    pub device_draw_rows: bool,
    pub device_draws: bool,
    pub argmax_option: bool,
    pub draw_option: bool,
    pub top_k: usize,
    pub max_candidates: usize,
}

/// Where the tokens of a parallel step are chosen; both may be possible.
#[derive(Clone, Copy, Debug, PartialEq, Eq, Structural)]
pub struct BatchSamplePath {
    pub argmax: bool,
    pub draw: bool,
}

/// Where the tokens of a parallel step are chosen: on the device where every lane that samples allows
/// it.
pub open spec fn batch_path(r: BatchSampleRequest) -> BatchSamplePath {
    BatchSamplePath {
        argmax: r.lanes@.len() > 0 && r.device_argmax_rows && r.argmax_option && forall|i: int|
            0 <= i < r.lanes@.len() ==> (#[trigger] r.lanes@[i]).argmax,
        draw: r.lanes@.len() > 0 && (r.lanes@.len() == 1 || r.device_draw_rows) && r.device_draws
            && r.draw_option && 2 <= r.top_k <= r.max_candidates && forall|i: int|
            0 <= i < r.lanes@.len() ==> (#[trigger] r.lanes@[i]).draw,
    }
}

/// Decides where the tokens of a parallel step are chosen.
pub fn batch_sample_path(r: &BatchSampleRequest) -> (p: BatchSamplePath)
    ensures
        p == batch_path(*r),
        p.argmax == (r.lanes@.len() > 0 && r.device_argmax_rows && r.argmax_option && forall|i: int|
            0 <= i < r.lanes@.len() ==> (#[trigger] r.lanes@[i]).argmax),
        p.draw == (r.lanes@.len() > 0 && (r.lanes@.len() == 1 || r.device_draw_rows)
            && r.device_draws && r.draw_option && 2 <= r.top_k <= r.max_candidates && forall|i: int|
            0 <= i < r.lanes@.len() ==> (#[trigger] r.lanes@[i]).draw),
{
    let n: usize = r.lanes.len();
    let mut all_argmax: bool = true;
    let mut all_draw: bool = true;
    let mut i: usize = 0;
    while i < n
        invariant
            i <= n == r.lanes@.len(),
            all_argmax == (forall|j: int| 0 <= j < i ==> (#[trigger] r.lanes@[j]).argmax),
            all_draw == (forall|j: int| 0 <= j < i ==> (#[trigger] r.lanes@[j]).draw),
        decreases n - i,
    {
        let lane: LaneSampling = r.lanes[i];
        if !lane.argmax {
            all_argmax = false;
        }
        if !lane.draw {
            all_draw = false;
        }
        i = i + 1;
    }
    BatchSamplePath {
        argmax: n > 0 && r.device_argmax_rows && r.argmax_option && all_argmax,
        draw: n > 0 && (n == 1 || r.device_draw_rows) && r.device_draws && r.draw_option && 2
            <= r.top_k && r.top_k <= r.max_candidates && all_draw,
    }
}

/// Whether a verification step reads back one token per row instead of all logits.
pub fn verify_ids_on_device(
    wanted: bool,
    constrained: bool,
    device_argmax_rows: bool,
    argmax_option: bool,
    accept_option: bool,
) -> (b: bool)
    ensures
        b == (wanted && !constrained && device_argmax_rows && argmax_option && accept_option),
{
    wanted && !constrained && device_argmax_rows && argmax_option && accept_option
}

/// What decides whether a decode step is recorded once and replayed.
pub struct ReplayRequest {
    pub backend_replays: bool,
    pub experts_paged: bool,
    pub layers_streamed: bool,
    pub segmented: bool,
    pub replay_disabled: bool,
    pub diffusion_gemma: bool,
    pub deepseek2: bool,
    pub bailingmoe3: bool,
    pub deepseek4: bool,
    pub qwen4exp: bool,
    pub qk_norm: bool,
    /// Rotation divisors are bound.
    pub rope_freqs: bool,
    pub formats: KvFormats,
    /// The format of the side has no recorded kernel.
    pub k_static: bool,
    pub v_static: bool,
    pub head_dims: Vec<usize>,
    /// The caller reads the rows that the head is applied to.
    pub h_tap: bool,
}

impl ReplayRequest {
    /// The heads have a length that the recorded kernels take.
    pub open spec fn heads_fit(self) -> bool {
        forall|l: int|
            0 <= l < self.head_dims@.len() ==> (#[trigger] self.head_dims@[l]) % 4 == 0
                && self.head_dims@[l] <= 512
    }

    /// The caches are in formats that the recorded kernels take: eight-bit blocks on both sides, or
    /// no side without a recorded kernel.
    pub open spec fn caches_fit(self) -> bool {
        (self.formats.k == DType::Q8_0 && self.formats.v == DType::Q8_0) || (!self.k_static
            && !self.v_static)
    }

    /// The model is one whose graph can be recorded.
    pub open spec fn model_fits(self) -> bool {
        !self.diffusion_gemma && !self.deepseek2 && !self.bailingmoe3 && !self.deepseek4
            && !self.qwen4exp
    }

    pub open spec fn spec_replays(self) -> bool {
        self.backend_replays && !self.experts_paged && !self.layers_streamed && !self.segmented
            && !self.replay_disabled && self.model_fits() && (self.qk_norm || !self.rope_freqs)
            && self.caches_fit() && self.heads_fit() && !self.h_tap
    }

    /// Whether a decode step is recorded once and replayed. A recorded step bakes its position in, so
    /// it may be built only where the backend will replay it.
    pub fn replays(&self) -> (b: bool)
        ensures
            b == self.spec_replays(),
    {
        let model: bool = !self.diffusion_gemma && !self.deepseek2 && !self.bailingmoe3
            && !self.deepseek4 && !self.qwen4exp;
        let caches: bool = (self.formats.k == DType::Q8_0 && self.formats.v == DType::Q8_0) || (
        !self.k_static && !self.v_static);
        let mut heads: bool = true;
        let mut l: usize = 0;
        while l < self.head_dims.len()
            invariant
                l <= self.head_dims@.len(),
                heads == (forall|k: int|
                    0 <= k < l ==> (#[trigger] self.head_dims@[k]) % 4 == 0 && self.head_dims@[k]
                        <= 512),
            decreases self.head_dims@.len() - l,
        {
            if self.head_dims[l] % 4 != 0 || self.head_dims[l] > 512 {
                heads = false;
            }
            l = l + 1;
        }
        self.backend_replays && !self.experts_paged && !self.layers_streamed && !self.segmented
            && !self.replay_disabled && model && (self.qk_norm || !self.rope_freqs) && caches
            && heads && !self.h_tap
    }
}

/// Whether several tokens are decoded in one submission: the device embeds and chooses tokens, the
/// step is replayed, at least two tokens are asked for, no row is gathered by the host, and positions
/// advance on the device.
pub fn can_chain(
    gpu_embed: bool,
    path: SamplePath,
    replays: bool,
    wanted: usize,
    host_gathers: bool,
    device_positions: bool,
) -> (b: bool)
    ensures
        b == (gpu_embed && path != SamplePath::Host && replays && wanted >= 2 && !host_gathers
            && device_positions),
{
    gpu_embed && path != SamplePath::Host && replays && wanted >= 2 && !host_gathers
        && device_positions
}

/// What the graph of one architecture takes for granted of its shape.
pub struct Dsv4Shape {
    pub head_dim: usize,
    pub indexer_head_size: usize,
    pub n_head: usize,
    pub n_used: usize,
    pub vocab: usize,
    pub hc_mult: usize,
    pub hc_sinkhorn_iters: usize,
    pub rope_dim: usize,
    pub o_group_count: usize,
    /// The most residual streams that a backend holds.
    pub max_streams: usize,
    /// The layers that select experts by token id, and those that hold an expert bank.
    pub hash_moe: Vec<bool>,
    pub moe: Vec<bool>,
}

/// The elements of a layer's table of experts by token id; none if it is not there.
pub open spec fn table_entries(tensors: Seq<TensorInfo>, l: nat) -> usize {
    let name = layer_tensor(l, "ffn_gate_tid2eid.weight"@);
    match find_from(tensors, name, 0) {
        Some(i) => tensors[i].numel,
        None => 0,
    }
}

impl Dsv4Shape {
    pub open spec fn wf(&self) -> bool {
        &&& self.hash_moe@.len() == self.moe@.len()
        &&& self.n_used * self.vocab <= usize::MAX
        &&& self.n_head * self.head_dim <= usize::MAX
    }

    /// What is wrong with the table of layer `l`.
    pub open spec fn table_fault(&self, tensors: Seq<TensorInfo>, l: int) -> Option<Error> {
        if !self.hash_moe@[l] {
            None
        } else if !self.moe@[l] {
            Some(Error::Dsv4HashWithoutBank { layer: l as usize })
        } else if table_entries(tensors, l as nat) != self.n_used * self.vocab {
            Some(
                Error::Dsv4HashTable {
                    layer: l as usize,
                    got: table_entries(tensors, l as nat),
                    n_used: self.n_used,
                    vocab: self.vocab,
                    want: (self.n_used * self.vocab) as usize,
                },
            )
        } else {
            None
        }
    }

    /// The first fault among the tables of the first `n` layers.
    pub open spec fn tables_fault(&self, tensors: Seq<TensorInfo>, n: nat) -> Option<Error>
        decreases n,
    {
        if n == 0 {
            None
        } else if let Some(e) = self.tables_fault(tensors, (n - 1) as nat) {
            Some(e)
        } else {
            self.table_fault(tensors, n - 1)
        }
    }

    /// The first thing that is wrong with the shape.
    pub open spec fn fault(&self, tensors: Seq<TensorInfo>) -> Option<Error> {
        let width = self.n_head * self.head_dim;
        if self.head_dim != 512 || self.indexer_head_size != 128 {
            Some(
                Error::Dsv4KeyLengths {
                    head_dim: self.head_dim,
                    indexer: self.indexer_head_size,
                },
            )
        } else if let Some(e) = self.tables_fault(tensors, self.moe@.len()) {
            Some(e)
        } else if self.hc_mult == 0 || self.hc_mult > self.max_streams {
            Some(Error::Dsv4Streams { count: self.hc_mult, max: self.max_streams })
        } else if self.hc_sinkhorn_iters == 0 {
            Some(Error::Dsv4Sinkhorn)
        } else if self.rope_dim > self.head_dim {
            Some(Error::Dsv4RopeDim { rope_dim: self.rope_dim, head_dim: self.head_dim })
        } else if self.o_group_count == 0 || width % (self.o_group_count as int) != 0 {
            Some(Error::Dsv4OutputGroups { groups: self.o_group_count, width: width as usize })
        } else {
            None
        }
    }

    proof fn lemma_tables_fault_stays(&self, tensors: Seq<TensorInfo>, n: nat, m: nat)
        requires
            n <= m,
            self.tables_fault(tensors, n) is Some,
        ensures
            self.tables_fault(tensors, m) == self.tables_fault(tensors, n),
        decreases m,
    {
        if n < m {
            self.lemma_tables_fault_stays(tensors, n, (m - 1) as nat);
        }
    }

    fn check_tables(&self, tensors: &Vec<TensorInfo>) -> (r: Result<(), Error>)
        requires
            self.wf(),
        ensures
            r == (match self.tables_fault(tensors@, self.moe@.len()) {
                Some(e) => Err::<(), Error>(e),
                None => Ok(()),
            }),
    {
        let n: usize = self.moe.len();
        let want: usize = self.n_used * self.vocab;
        let mut l: usize = 0;
        while l < n
            invariant
                l <= n == self.moe@.len(),
                self.wf(),
                want == self.n_used * self.vocab,
                self.tables_fault(tensors@, l as nat) is None,
            decreases n - l,
        {
            if self.hash_moe[l] {
                if !self.moe[l] {
                    proof {
                        self.lemma_tables_fault_stays(tensors@, (l + 1) as nat, n as nat);
                    }
                    return Err(Error::Dsv4HashWithoutBank { layer: l });
                }
                let name: String = layer_tensor_name(l, "ffn_gate_tid2eid.weight");
                let got: usize = match find_tensor(tensors, &name) {
                    Some(i) => tensors[i].numel,
                    None => 0,
                };
                if got != want {
                    proof {
                        self.lemma_tables_fault_stays(tensors@, (l + 1) as nat, n as nat);
                    }
                    return Err(
                        Error::Dsv4HashTable {
                            layer: l,
                            got,
                            n_used: self.n_used,
                            vocab: self.vocab,
                            want,
                        },
                    );
                }
            }
            l = l + 1;
        }
        Ok(())
    }

    /// Checks what the graph takes for granted before it is built.
    pub fn check(&self, tensors: &Vec<TensorInfo>) -> (r: Result<(), Error>)
        requires
            self.wf(),
        ensures
            r == (match self.fault(tensors@) {
                Some(e) => Err::<(), Error>(e),
                None => Ok(()),
            }),
    {
        if self.head_dim != 512 || self.indexer_head_size != 128 {
            return Err(
                Error::Dsv4KeyLengths {
                    head_dim: self.head_dim,
                    indexer: self.indexer_head_size,
                },
            );
        }
        self.check_tables(tensors)?;
        if self.hc_mult == 0 || self.hc_mult > self.max_streams {
            return Err(Error::Dsv4Streams { count: self.hc_mult, max: self.max_streams });
        }
        if self.hc_sinkhorn_iters == 0 {
            return Err(Error::Dsv4Sinkhorn);
        }
        if self.rope_dim > self.head_dim {
            return Err(Error::Dsv4RopeDim { rope_dim: self.rope_dim, head_dim: self.head_dim });
        }
        let width: usize = self.n_head * self.head_dim;
        if self.o_group_count == 0 || width % self.o_group_count != 0 {
            return Err(Error::Dsv4OutputGroups { groups: self.o_group_count, width });
        }
        Ok(())
    }
}

} // verus!
