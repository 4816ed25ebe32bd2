//! Allocation of slots: fresh ones, and forks of an existing one.
//!
//! A plan lists what a driver allocates; the finished buffers come back and are checked before a
//! slot is made of them.

use crate::checkpoint::{
    bound_lengths, checkpoint_requests, length_of, missing_state, recurrent_layers,
    TurnRecurrentCkpt,
};
use crate::config::{Config, KvFormat};
use crate::device::{AllocRequest, BufferUsage, DeviceBuffer};
use crate::error::Error;
use crate::seam_kv::SeamKv;
use crate::segmented_kv::{
    all_planes, first_plane, PlaneKind, PlaneLayout, SegmentedKvLayout, SegmentedKvSpec,
};
use crate::slot::{CacheBuffers, SegmentedKvState};
use vstd::prelude::*;

verus! {

/// The allocations of one layer.
#[derive(Clone, Copy, Debug, PartialEq, Eq, Structural)]
pub struct LayerRequests {
    pub k: AllocRequest,
    pub v: AllocRequest,
    pub qsa_raw: Option<AllocRequest>,
    pub qsa_block: Option<AllocRequest>,
}

/// The static sizes of one layer's caches; an index cache of zero bytes is not kept.
#[derive(Clone, Copy, Debug, PartialEq, Eq, Structural)]
pub struct LayerBytes {
    pub k: usize,
    pub v: usize,
    pub qsa_raw: usize,
    pub qsa_block: usize,
}

/// A cache buffer of a fixed length.
pub open spec fn fixed_cache(bytes: usize) -> AllocRequest {
    AllocRequest::Fixed { bytes, usage: BufferUsage::KvCache }
}

/// The reservation of a plane.
pub open spec fn segmented_cache(plane: PlaneLayout, max_ctx: usize) -> AllocRequest {
    AllocRequest::Segmented { spec: plane.reservation(max_ctx as nat) }
}

/// The planes of a lazy layout and its context.
pub struct LazyPlanes {
    pub planes: Seq<PlaneLayout>,
    pub max_ctx: usize,
}

/// The planes and the context of a layout.
pub open spec fn lazy_of(layout: Option<SegmentedKvLayout>) -> Option<LazyPlanes> {
    match layout {
        Some(made) => Some(LazyPlanes { planes: made.planes@, max_ctx: made.max_ctx }),
        None => None,
    }
}

/// A K or V cache: the plane of the lazy layout where it has one, else a fixed buffer.
pub open spec fn side_request(
    lazy: Option<LazyPlanes>,
    layer: usize,
    kind: PlaneKind,
    bytes: usize,
) -> AllocRequest {
    match lazy {
        Some(LazyPlanes { planes, max_ctx }) => match first_plane(planes, layer, kind) {
            Some(plane) => segmented_cache(plane, max_ctx),
            None => fixed_cache(bytes),
        },
        None => fixed_cache(bytes),
    }
}

/// An index cache: none where it has no bytes, the plane of a lazy layout, else a fixed buffer.
/// A lazy layout without that plane is an error.
pub open spec fn index_request(
    lazy: Option<LazyPlanes>,
    layer: usize,
    kind: PlaneKind,
    bytes: usize,
) -> Result<Option<AllocRequest>, Error> {
    if bytes == 0 {
        Ok(None)
    } else {
        match lazy {
            Some(LazyPlanes { planes, max_ctx }) => match first_plane(planes, layer, kind) {
                Some(plane) => Ok(Some(segmented_cache(plane, max_ctx))),
                None => Err(Error::NoPlaneGeometry { layer, kind }),
            },
            None => Ok(Some(fixed_cache(bytes))),
        }
    }
}

/// The allocations of layer `l`.
pub open spec fn layer_request(
    lazy: Option<LazyPlanes>,
    l: int,
    bytes: LayerBytes,
) -> Result<LayerRequests, Error> {
    let layer = l as usize;
    match (
        index_request(lazy, layer, PlaneKind::QsaRaw, bytes.qsa_raw),
        index_request(lazy, layer, PlaneKind::QsaBlock, bytes.qsa_block),
    ) {
        (Ok(qsa_raw), Ok(qsa_block)) => Ok(
            LayerRequests {
                k: side_request(lazy, layer, PlaneKind::K, bytes.k),
                v: side_request(lazy, layer, PlaneKind::V, bytes.v),
                qsa_raw,
                qsa_block,
            },
        ),
        (Err(e), _) => Err(e),
        (_, Err(e)) => Err(e),
    }
}

/// The first error among the first `n` layers.
pub open spec fn layers_refused(
    lazy: Option<LazyPlanes>,
    bytes: Seq<LayerBytes>,
    n: nat,
) -> Option<Error>
    decreases n,
{
    if n == 0 {
        None
    } else if let Some(e) = layers_refused(lazy, bytes, (n - 1) as nat) {
        Some(e)
    } else {
        match layer_request(lazy, n - 1, bytes[n - 1]) {
            Ok(_) => None,
            Err(e) => Some(e),
        }
    }
}

/// A layout whose planes can all be reserved.
pub open spec fn reservable(lazy: Option<LazyPlanes>) -> bool {
    match lazy {
        Some(LazyPlanes { planes, max_ctx }) => forall|i: int|
            0 <= i < planes.len() ==> (#[trigger] planes[i]).valid() && planes[i].segment_fits()
                && planes[i].depth_fits(max_ctx as nat),
        None => true,
    }
}

proof fn lemma_refused_stays(
    lazy: Option<LazyPlanes>,
    bytes: Seq<LayerBytes>,
    n: nat,
    m: nat,
)
    requires
        n <= m,
        layers_refused(lazy, bytes, n) is Some,
    ensures
        layers_refused(lazy, bytes, m) == layers_refused(lazy, bytes, n),
    decreases m,
{
    if n < m {
        lemma_refused_stays(lazy, bytes, n, (m - 1) as nat);
    }
}

/// The reservation of a plane of a layout.
pub fn alloc_segmented_plane(layout: &SegmentedKvLayout, layer: usize, kind: PlaneKind) -> (spec:
    Result<SegmentedKvSpec, Error>)
    requires
        reservable(lazy_of(Some(*layout))),
    ensures
        spec == (match first_plane(layout.planes@, layer, kind) {
            Some(plane) => Ok(plane.reservation(layout.max_ctx as nat)),
            None => Err(Error::NoPlaneGeometry { layer, kind }),
        }),
{
    match layout.plane(layer, kind) {
        Some(plane) => {
            proof {
                crate::segmented_kv::lemma_first_plane(layout.planes@, layer, kind);
                let i = choose|i: int| 0 <= i < layout.planes@.len() && layout.planes@[i] == plane;
                assert((lazy_of(Some(*layout))->0).planes[i].valid());
            }
            Ok(plane.spec(layout.max_ctx))
        },
        None => Err(Error::NoPlaneGeometry { layer, kind }),
    }
}

fn request_side(
    layout: &Option<SegmentedKvLayout>,
    layer: usize,
    kind: PlaneKind,
    bytes: usize,
) -> (request: AllocRequest)
    requires
        reservable(lazy_of(*layout)),
    ensures
        request == side_request(lazy_of(*layout), layer, kind, bytes),
{
    if let Some(made) = layout {
        if let Ok(spec) = alloc_segmented_plane(made, layer, kind) {
            return AllocRequest::Segmented { spec };
        }
    }
    AllocRequest::Fixed { bytes, usage: BufferUsage::KvCache }
}

fn request_index(
    layout: &Option<SegmentedKvLayout>,
    layer: usize,
    kind: PlaneKind,
    bytes: usize,
) -> (request: Result<Option<AllocRequest>, Error>)
    requires
        reservable(lazy_of(*layout)),
    ensures
        request == index_request(lazy_of(*layout), layer, kind, bytes),
{
    if bytes == 0 {
        return Ok(None);
    }
    match layout {
        Some(made) => match alloc_segmented_plane(made, layer, kind) {
            Ok(spec) => Ok(Some(AllocRequest::Segmented { spec })),
            Err(e) => Err(e),
        },
        None => Ok(Some(AllocRequest::Fixed { bytes, usage: BufferUsage::KvCache })),
    }
}

/// The cache allocations of a slot, layer by layer. `bytes` are the static sizes of each layer; with
/// a lazy `layout` the planes it names are reserved instead.
pub fn cache_requests(layout: &Option<SegmentedKvLayout>, bytes: &Vec<LayerBytes>) -> (requests:
    Result<Vec<LayerRequests>, Error>)
    requires
        reservable(lazy_of(*layout)),
    ensures
        match layers_refused(lazy_of(*layout), bytes@, bytes@.len()) {
            Some(e) => requests == Err::<Vec<LayerRequests>, Error>(e),
            None => requests matches Ok(list) && list@.len() == bytes@.len() && forall|l: int|
                0 <= l < bytes@.len() ==> Ok::<LayerRequests, Error>(#[trigger] list@[l])
                    == layer_request(lazy_of(*layout), l, bytes@[l]),
        },
{
    let mut list: Vec<LayerRequests> = Vec::new();
    let n: usize = bytes.len();
    let mut l: usize = 0;
    while l < n
        invariant
            l <= n == bytes@.len(),
            reservable(lazy_of(*layout)),
            layers_refused(lazy_of(*layout), bytes@, l as nat) is None,
            list@.len() == l,
            forall|j: int|
                0 <= j < l ==> Ok::<LayerRequests, Error>(#[trigger] list@[j]) == layer_request(
                    lazy_of(*layout),
                    j,
                    bytes@[j],
                ),
        decreases n - l,
    {
        let k: AllocRequest = request_side(layout, l, PlaneKind::K, bytes[l].k);
        let v: AllocRequest = request_side(layout, l, PlaneKind::V, bytes[l].v);
        let qsa_raw: Option<AllocRequest> = match request_index(
            layout,
            l,
            PlaneKind::QsaRaw,
            bytes[l].qsa_raw,
        ) {
            Ok(request) => request,
            Err(e) => {
                proof {
                    lemma_refused_stays(lazy_of(*layout), bytes@, (l + 1) as nat, n as nat);
                }
                return Err(e);
            },
        };
        let qsa_block: Option<AllocRequest> = match request_index(
            layout,
            l,
            PlaneKind::QsaBlock,
            bytes[l].qsa_block,
        ) {
            Ok(request) => request,
            Err(e) => {
                proof {
                    lemma_refused_stays(lazy_of(*layout), bytes@, (l + 1) as nat, n as nat);
                }
                return Err(e);
            },
        };
        list.push(LayerRequests { k, v, qsa_raw, qsa_block });
        l = l + 1;
    }
    Ok(list)
}

/// The allocations that a slot needs besides its caches.
#[derive(Clone, Copy, Debug, PartialEq, Eq, Structural)]
pub struct IoRequests {
    pub hidden: AllocRequest,
    pub pos: AllocRequest,
    pub ipl: Option<AllocRequest>,
    pub logits: AllocRequest,
    pub wide: Option<AllocRequest>,
    pub ple_embd: Option<AllocRequest>,
    pub ple_state: Option<AllocRequest>,
}

/// Width of one layer's per-layer input rows.
pub open spec fn per_layer_width(cfg: Config) -> int {
    if cfg.n_embd_per_layer >= 1 {
        cfg.n_embd_per_layer as int
    } else {
        1
    }
}

/// Bytes of the host-gathered per-layer input rows of one token.
pub open spec fn ipl_bytes(cfg: Config) -> int {
    cfg.layers@.len() * per_layer_width(cfg) * 4
}

/// Bytes of the residual streams of one token.
pub open spec fn wide_bytes(cfg: Config) -> int {
    cfg.hc_mult * cfg.n_embd * 4
}

/// Bytes of the n-gram rows of one token.
pub open spec fn ple_embd_bytes(cfg: Config) -> int {
    (cfg.ple_ngram_size - 1) * cfg.ple_heads_per_ngram * cfg.ple_head_dim * 4
}

/// Bytes of the n-gram convolution's history.
pub open spec fn ple_state_bytes(cfg: Config) -> int {
    (cfg.ple_conv_kernel - 1) * cfg.ple_ngram_size * cfg.hc_mult * cfg.n_embd * 4
}

/// The sizes of a slot's own buffers fit the machine.
pub open spec fn io_fits(cfg: Config) -> bool {
    &&& cfg.n_embd * 4 <= usize::MAX
    &&& cfg.vocab * 4 <= usize::MAX
    &&& ipl_bytes(cfg) <= usize::MAX
    &&& cfg.qwen4exp ==> {
        &&& cfg.ple_ngram_size >= 1
        &&& cfg.ple_conv_kernel >= 1
        &&& wide_bytes(cfg) <= usize::MAX
        &&& ple_embd_bytes(cfg) <= usize::MAX
        &&& (cfg.ple_ngram_size - 1) * cfg.ple_heads_per_ngram <= usize::MAX
        &&& (cfg.ple_ngram_size - 1) * cfg.ple_heads_per_ngram * cfg.ple_head_dim <= usize::MAX
        &&& ple_state_bytes(cfg) <= usize::MAX
        &&& (cfg.ple_conv_kernel - 1) * cfg.ple_ngram_size <= usize::MAX
        &&& (cfg.ple_conv_kernel - 1) * cfg.ple_ngram_size * cfg.hc_mult <= usize::MAX
        &&& (cfg.ple_conv_kernel - 1) * cfg.ple_ngram_size * cfg.hc_mult * cfg.n_embd
            <= usize::MAX
    }
}

/// What [`io_requests`] returns.
pub open spec fn io_of(cfg: Config, host_ipl: bool) -> IoRequests {
    IoRequests {
        hidden: AllocRequest::Fixed {
            bytes: (cfg.n_embd * 4) as usize,
            usage: BufferUsage::Staging,
        },
        pos: AllocRequest::Fixed { bytes: 4, usage: BufferUsage::Staging },
        ipl: if host_ipl {
            Some(
                AllocRequest::Fixed {
                    bytes: ipl_bytes(cfg) as usize,
                    usage: BufferUsage::Staging,
                },
            )
        } else {
            None
        },
        logits: AllocRequest::Fixed {
            bytes: (cfg.vocab * 4) as usize,
            usage: BufferUsage::Readback,
        },
        wide: if cfg.qwen4exp {
            Some(
                AllocRequest::Fixed {
                    bytes: wide_bytes(cfg) as usize,
                    usage: BufferUsage::Activations,
                },
            )
        } else {
            None
        },
        ple_embd: if cfg.qwen4exp {
            Some(
                AllocRequest::Fixed {
                    bytes: ple_embd_bytes(cfg) as usize,
                    usage: BufferUsage::Staging,
                },
            )
        } else {
            None
        },
        ple_state: if cfg.qwen4exp {
            Some(
                AllocRequest::Fixed {
                    bytes: ple_state_bytes(cfg) as usize,
                    usage: BufferUsage::KvCache,
                },
            )
        } else {
            None
        },
    }
}

/// The allocations that a slot needs besides its caches. `host_ipl` is whether the per-layer input
/// rows are gathered on the host.
pub fn io_requests(cfg: &Config, host_ipl: bool) -> (requests: IoRequests)
    requires
        io_fits(*cfg),
    ensures
        requests == io_of(*cfg, host_ipl),
{
    let npl: usize = if cfg.n_embd_per_layer >= 1 {
        cfg.n_embd_per_layer
    } else {
        1
    };
    let n_layer: usize = cfg.layers.len();
    proof {
        assert(n_layer * npl <= n_layer * npl * 4) by (nonlinear_arith)
            requires
                n_layer >= 0,
                npl >= 0,
        ;
        assert(cfg.hc_mult * cfg.n_embd <= cfg.hc_mult * cfg.n_embd * 4) by (nonlinear_arith)
            requires
                cfg.hc_mult >= 0,
                cfg.n_embd >= 0,
        ;
    }
    let ipl: Option<AllocRequest> = if host_ipl {
        Some(AllocRequest::Fixed { bytes: n_layer * npl * 4, usage: BufferUsage::Staging })
    } else {
        None
    };
    let wide: Option<AllocRequest> = if cfg.qwen4exp {
        Some(
            AllocRequest::Fixed {
                bytes: cfg.hc_mult * cfg.n_embd * 4,
                usage: BufferUsage::Activations,
            },
        )
    } else {
        None
    };
    let ple_embd: Option<AllocRequest> = if cfg.qwen4exp {
        let heads: usize = (cfg.ple_ngram_size - 1) * cfg.ple_heads_per_ngram;
        Some(
            AllocRequest::Fixed {
                bytes: heads * cfg.ple_head_dim * 4,
                usage: BufferUsage::Staging,
            },
        )
    } else {
        None
    };
    let ple_state: Option<AllocRequest> = if cfg.qwen4exp {
        let hist: usize = (cfg.ple_conv_kernel - 1) * cfg.ple_ngram_size;
        Some(
            AllocRequest::Fixed {
                bytes: hist * cfg.hc_mult * cfg.n_embd * 4,
                usage: BufferUsage::KvCache,
            },
        )
    } else {
        None
    };
    IoRequests {
        hidden: AllocRequest::Fixed { bytes: cfg.n_embd * 4, usage: BufferUsage::Staging },
        pos: AllocRequest::Fixed { bytes: 4, usage: BufferUsage::Staging },
        ipl,
        logits: AllocRequest::Fixed { bytes: cfg.vocab * 4, usage: BufferUsage::Readback },
        wide,
        ple_embd,
        ple_state,
    }
}

/// The buffers that a slot has besides its caches.
#[derive(Clone, Copy, Debug, PartialEq, Eq, Structural)]
pub struct IoBuffers {
    pub hidden: DeviceBuffer,
    pub pos: DeviceBuffer,
    pub ipl: Option<DeviceBuffer>,
    pub logits: DeviceBuffer,
    pub wide: Option<DeviceBuffer>,
    pub ple_embd: Option<DeviceBuffer>,
    pub ple_state: Option<DeviceBuffer>,
}

/// Two optional buffers are both absent, or both there with one length.
pub open spec fn same_length(a: Option<DeviceBuffer>, b: Option<DeviceBuffer>) -> bool {
    match (a, b) {
        (Some(x), Some(y)) => x.len_bytes == y.len_bytes,
        (None, None) => true,
        _ => false,
    }
}

/// On every one of `n` layers, the caches have the lengths of others.
pub open spec fn same_geometry(a: CacheBuffers, b: CacheBuffers, n: nat) -> bool {
    forall|l: int|
        0 <= l < n ==> {
            &&& (#[trigger] a.k@[l]).len_bytes == b.k@[l].len_bytes
            &&& a.v@[l].len_bytes == b.v@[l].len_bytes
            &&& same_length(a.qsa_raw@[l], b.qsa_raw@[l])
            &&& same_length(a.qsa_block@[l], b.qsa_block@[l])
        }
}

/// Why layer `l` of a fork does not match its source, if it does not.
pub open spec fn fork_differs_at(forked: CacheBuffers, src: CacheBuffers, l: int) -> Option<Error> {
    if forked.k@[l].len_bytes != src.k@[l].len_bytes {
        Some(
            Error::ForkGeometryDiffersK {
                layer: l as usize,
                forked: forked.k@[l].len_bytes,
                src: src.k@[l].len_bytes,
            },
        )
    } else if forked.v@[l].len_bytes != src.v@[l].len_bytes {
        Some(
            Error::ForkGeometryDiffersV {
                layer: l as usize,
                forked: forked.v@[l].len_bytes,
                src: src.v@[l].len_bytes,
            },
        )
    } else if !same_length(forked.qsa_raw@[l], src.qsa_raw@[l]) {
        Some(
            Error::ForkQsaGeometryDiffers {
                layer: l as usize,
                forked_len: length_of(forked.qsa_raw@[l]),
                src_len: length_of(src.qsa_raw@[l]),
            },
        )
    } else if !same_length(forked.qsa_block@[l], src.qsa_block@[l]) {
        Some(
            Error::ForkQsaBlockGeometryDiffers {
                layer: l as usize,
                forked_len: length_of(forked.qsa_block@[l]),
                src_len: length_of(src.qsa_block@[l]),
            },
        )
    } else {
        None
    }
}

/// The first mismatch among the first `n` layers.
pub open spec fn fork_differs(forked: CacheBuffers, src: CacheBuffers, n: nat) -> Option<Error>
    decreases n,
{
    if n == 0 {
        None
    } else if let Some(e) = fork_differs(forked, src, (n - 1) as nat) {
        Some(e)
    } else {
        fork_differs_at(forked, src, n - 1)
    }
}

proof fn lemma_fork_differs_stays(forked: CacheBuffers, src: CacheBuffers, n: nat, m: nat)
    requires
        n <= m,
        fork_differs(forked, src, n) is Some,
    ensures
        fork_differs(forked, src, m) == fork_differs(forked, src, n),
    decreases m,
{
    if n < m {
        lemma_fork_differs_stays(forked, src, n, (m - 1) as nat);
    }
}

/// A fork passes the check if and only if its buffers have the source's lengths on every layer.
pub proof fn law_checked_fork_has_the_source_geometry(
    forked: CacheBuffers,
    src: CacheBuffers,
    n: nat,
)
    ensures
        fork_differs(forked, src, n) is None <==> same_geometry(forked, src, n),
    decreases n,
{
    if n > 0 {
        law_checked_fork_has_the_source_geometry(forked, src, (n - 1) as nat);
        if fork_differs(forked, src, n) is None {
            assert forall|l: int| 0 <= l < n implies {
                &&& (#[trigger] forked.k@[l]).len_bytes == src.k@[l].len_bytes
                &&& forked.v@[l].len_bytes == src.v@[l].len_bytes
                &&& same_length(forked.qsa_raw@[l], src.qsa_raw@[l])
                &&& same_length(forked.qsa_block@[l], src.qsa_block@[l])
            } by {
                if l == n - 1 {
                    assert(fork_differs_at(forked, src, l) is None);
                }
            }
        } else if same_geometry(forked, src, n) {
            assert(forked.k@[n - 1].len_bytes == src.k@[n - 1].len_bytes);
            assert(same_geometry(forked, src, (n - 1) as nat));
        }
    }
}

fn buffer_length(buf: Option<DeviceBuffer>) -> (len: Option<usize>)
    ensures
        len == length_of(buf),
{
    match buf {
        Some(b) => Some(b.len_bytes),
        None => None,
    }
}

fn lengths_agree(a: Option<DeviceBuffer>, b: Option<DeviceBuffer>) -> (same: bool)
    ensures
        same == same_length(a, b),
{
    match (a, b) {
        (Some(x), Some(y)) => x.len_bytes == y.len_bytes,
        (None, None) => true,
        _ => false,
    }
}

impl SeamKv {
    /// The lazy layout of this slot, if it grows lazily.
    pub open spec fn lazy(&self, cfg: Config) -> Option<LazyPlanes> {
        if self.segmented_kv.enabled {
            Some(
                LazyPlanes {
                    planes: all_planes(cfg, self.k_fmt, self.v_fmt),
                    max_ctx: self.max_ctx,
                },
            )
        } else {
            None
        }
    }

    /// The cache allocations of a fork of this slot.
    pub fn fork_requests(&self, cfg: &Config, bytes: &Vec<LayerBytes>) -> (requests: Result<
        Vec<LayerRequests>,
        Error,
    >)
        requires
            self.fits(cfg.layers@.len()),
            bytes@.len() == cfg.layers@.len(),
            self.segmented_kv.enabled ==> cfg.qwen35 || cfg.qwen4exp,
            reservable(self.lazy(*cfg)),
        ensures
            match layers_refused(self.lazy(*cfg), bytes@, bytes@.len()) {
                Some(e) => requests == Err::<Vec<LayerRequests>, Error>(e),
                None => requests matches Ok(list) && list@.len() == bytes@.len() && forall|l: int|
                    0 <= l < bytes@.len() ==> Ok::<LayerRequests, Error>(#[trigger] list@[l])
                        == layer_request(self.lazy(*cfg), l, bytes@[l]),
            },
    {
        let layout: Option<SegmentedKvLayout> = if self.segmented_kv.enabled {
            SegmentedKvLayout::for_qwen(cfg, self.max_ctx, self.k_fmt, self.v_fmt)
        } else {
            None
        };
        cache_requests(&layout, bytes)
    }

    /// The allocations of a fork's own buffers. It stages per-layer rows on the host exactly if its
    /// source does.
    pub fn fork_io_requests(&self, cfg: &Config) -> (requests: IoRequests)
        requires
            io_fits(*cfg),
        ensures
            requests == io_of(*cfg, self.ipl_buf is Some),
    {
        io_requests(cfg, self.ipl_buf.is_some())
    }

    /// Checks that a fork's caches have this slot's geometry. A fork is only usable if they do, so
    /// the lengths are compared rather than trusted to have been derived twice alike.
    pub fn fork_check(&self, cfg: &Config, forked: &CacheBuffers) -> (checked: Result<(), Error>)
        requires
            self.fits(cfg.layers@.len()),
            forked.fits(cfg.layers@.len()),
        ensures
            checked == (match fork_differs(*forked, self.caches, cfg.layers@.len()) {
                Some(e) => Err::<(), Error>(e),
                None => Ok(()),
            }),
    {
        let n: usize = cfg.layers.len();
        let mut l: usize = 0;
        while l < n
            invariant
                l <= n == cfg.layers@.len(),
                self.fits(n as nat),
                forked.fits(n as nat),
                fork_differs(*forked, self.caches, l as nat) is None,
            decreases n - l,
        {
            let found: Option<Error> = self.fork_mismatch(forked, l);
            if let Some(e) = found {
                proof {
                    lemma_fork_differs_stays(*forked, self.caches, (l + 1) as nat, n as nat);
                }
                return Err(e);
            }
            l = l + 1;
        }
        Ok(())
    }

    fn fork_mismatch(&self, forked: &CacheBuffers, l: usize) -> (found: Option<Error>)
        requires
            l < self.caches.k@.len(),
            self.caches.fits(self.caches.k@.len()),
            forked.fits(self.caches.k@.len()),
        ensures
            found == fork_differs_at(*forked, self.caches, l as int),
    {
        let fk: usize = forked.k[l].len_bytes;
        let sk: usize = self.caches.k[l].len_bytes;
        if fk != sk {
            return Some(Error::ForkGeometryDiffersK { layer: l, forked: fk, src: sk });
        }
        let fv: usize = forked.v[l].len_bytes;
        let sv: usize = self.caches.v[l].len_bytes;
        if fv != sv {
            return Some(Error::ForkGeometryDiffersV { layer: l, forked: fv, src: sv });
        }
        if !lengths_agree(forked.qsa_raw[l], self.caches.qsa_raw[l]) {
            return Some(
                Error::ForkQsaGeometryDiffers {
                    layer: l,
                    forked_len: buffer_length(forked.qsa_raw[l]),
                    src_len: buffer_length(self.caches.qsa_raw[l]),
                },
            );
        }
        if !lengths_agree(forked.qsa_block[l], self.caches.qsa_block[l]) {
            return Some(
                Error::ForkQsaBlockGeometryDiffers {
                    layer: l,
                    forked_len: buffer_length(forked.qsa_block[l]),
                    src_len: buffer_length(self.caches.qsa_block[l]),
                },
            );
        }
        None
    }

    /// The slot is a fresh conversation on the given buffers, with the formats and context of
    /// another.
    pub open spec fn is_fork_of(&self, src: &SeamKv, caches: CacheBuffers, io: IoBuffers) -> bool {
        &&& self.caches == caches
        &&& self.is_fresh(io)
        &&& self.segmented_kv == (SegmentedKvState {
            enabled: src.segmented_kv.enabled,
            committed_tokens: 0,
        })
        &&& self.k_fmt == src.k_fmt
        &&& self.v_fmt == src.v_fmt
        &&& self.max_ctx == src.max_ctx
        &&& self.kv_ring == src.kv_ring
        &&& self.turn_recurrent_ckpt is None
        &&& self.within_context()
    }

    /// A fresh conversation on buffers of its own, with this slot's formats and context. Nothing of
    /// this conversation's state goes with it. Caches of another geometry are refused.
    pub fn fork(&self, cfg: &Config, caches: CacheBuffers, io: IoBuffers) -> (forked: Result<
        SeamKv,
        Error,
    >)
        requires
            self.fits(cfg.layers@.len()),
            caches.fits(cfg.layers@.len()),
        ensures
            match fork_differs(caches, self.caches, cfg.layers@.len()) {
                Some(e) => forked == Err::<SeamKv, Error>(e),
                None => forked matches Ok(slot) && slot.is_fork_of(self, caches, io) && slot.fits(
                    cfg.layers@.len(),
                ) && same_geometry(slot.caches, self.caches, cfg.layers@.len()),
            },
            forked is Ok <==> same_geometry(caches, self.caches, cfg.layers@.len()),
    {
        proof {
            law_checked_fork_has_the_source_geometry(caches, self.caches, cfg.layers@.len());
        }
        if let Err(e) = self.fork_check(cfg, &caches) {
            return Err(e);
        }
        let slot: SeamKv = SeamKv {
            caches,
            segmented_kv: if self.segmented_kv.enabled {
                SegmentedKvState::enabled()
            } else {
                SegmentedKvState::default()
            },
            k_fmt: self.k_fmt,
            v_fmt: self.v_fmt,
            hidden_buf: io.hidden,
            pos_buf: io.pos,
            ipl_buf: io.ipl,
            logits_buf: io.logits,
            qwen_wide_buf: io.wide,
            ple_embd_buf: io.ple_embd,
            ple_state_buf: io.ple_state,
            max_ctx: self.max_ctx,
            kv_ring: self.kv_ring,
            cached: Vec::new(),
            sc_ping_write: 0,
            mtp_delta_ckpt: None,
            turn_recurrent_ckpt: None,
        };
        Ok(slot)
    }

    /// Nothing is resident, and the slot's own buffers are the given ones.
    pub open spec fn is_fresh(&self, io: IoBuffers) -> bool {
        &&& self.hidden_buf == io.hidden
        &&& self.pos_buf == io.pos
        &&& self.ipl_buf == io.ipl
        &&& self.logits_buf == io.logits
        &&& self.qwen_wide_buf == io.wide
        &&& self.ple_embd_buf == io.ple_embd
        &&& self.ple_state_buf == io.ple_state
        &&& self.cached@.len() == 0
        &&& self.sc_ping_write == 0
        &&& self.mtp_delta_ckpt is None
    }
}

/// A slot whose fixed buffers are there, and whose segmented planes may not be bound yet.
pub struct PendingSeamSlot {
    pub kbufs: Vec<Option<DeviceBuffer>>,
    pub vbufs: Vec<Option<DeviceBuffer>>,
    pub qsa_kbufs: Vec<Option<DeviceBuffer>>,
    pub qsa_cbufs: Vec<Option<DeviceBuffer>>,
    pub io: IoBuffers,
    pub turn_recurrent_ckpt: Option<TurnRecurrentCkpt>,
}

/// The allocations of a new slot: its caches layer by layer, and its own buffers.
pub struct SlotRequests {
    pub layers: Vec<LayerRequests>,
    pub io: IoRequests,
}

/// The allocations of a new slot. The per-layer input rows of a model that has them (`e2b`) need a
/// staging buffer unless they are gathered on the device (`gpu_ple`). The residual streams are left
/// for [`finish_pending_seam_slot`].
pub fn allocate_pending_seam_slot(
    cfg: &Config,
    layout: &Option<SegmentedKvLayout>,
    bytes: &Vec<LayerBytes>,
    e2b: bool,
    gpu_ple: bool,
) -> (requests: Result<SlotRequests, Error>)
    requires
        io_fits(*cfg),
        reservable(lazy_of(*layout)),
        bytes@.len() == cfg.layers@.len(),
    ensures
        match layers_refused(lazy_of(*layout), bytes@, bytes@.len()) {
            Some(e) => requests == Err::<SlotRequests, Error>(e),
            None => requests matches Ok(made) && {
                &&& made.layers@.len() == bytes@.len()
                &&& forall|l: int|
                    0 <= l < bytes@.len() ==> Ok::<LayerRequests, Error>(#[trigger] made.layers@[l])
                        == layer_request(lazy_of(*layout), l, bytes@[l])
                &&& made.io == (IoRequests { wide: None, ..io_of(*cfg, e2b && !gpu_ple) })
            },
        },
{
    match cache_requests(layout, bytes) {
        Err(e) => Err(e),
        Ok(layers) => {
            let all: IoRequests = io_requests(cfg, e2b && !gpu_ple);
            let io: IoRequests = IoRequests {
                hidden: all.hidden,
                pos: all.pos,
                ipl: all.ipl,
                logits: all.logits,
                wide: None,
                ple_embd: all.ple_embd,
                ple_state: all.ple_state,
            };
            Ok(SlotRequests { layers, io })
        },
    }
}

/// The allocations of a new slot's checkpoint, which is made ahead where the caller wants one and
/// the model is recurrent.
pub fn pending_checkpoint_requests(
    cfg: &Config,
    checkpoint: bool,
    kbufs: &Vec<Option<DeviceBuffer>>,
    vbufs: &Vec<Option<DeviceBuffer>>,
    ple_state: Option<DeviceBuffer>,
) -> (requests: Result<Vec<AllocRequest>, Error>)
    requires
        kbufs@.len() == cfg.layers@.len(),
        vbufs@.len() == cfg.layers@.len(),
    ensures
        !(checkpoint && cfg.recurrent()) ==> (requests matches Ok(list) && list@.len() == 0),
        checkpoint && cfg.recurrent() ==> match missing_state(
            *cfg,
            bound_lengths(kbufs@),
            bound_lengths(vbufs@),
            cfg.layers@.len(),
        ) {
            Some(e) => requests == Err::<Vec<AllocRequest>, Error>(e),
            None => requests matches Ok(list) && list@ == (if recurrent_layers(*cfg).len() == 0 {
                Seq::empty()
            } else {
                checkpoint_requests(
                    *cfg,
                    bound_lengths(kbufs@),
                    bound_lengths(vbufs@),
                    length_of(ple_state),
                )
            }),
        },
{
    if checkpoint && cfg.recurrent_model() {
        let slot: Option<TurnRecurrentCkpt> = None;
        TurnRecurrentCkpt::begin_before_dynamic_kv(&slot, cfg, kbufs, vbufs, ple_state)
    } else {
        Ok(Vec::new())
    }
}

/// What has to be bound before a pending slot is finished: at most one plane of each kind of a
/// layer.
#[derive(Clone, Copy, Debug, PartialEq, Eq, Structural)]
pub struct LayerFill {
    pub k: Option<SegmentedKvSpec>,
    pub v: Option<SegmentedKvSpec>,
    pub qsa_raw: Option<SegmentedKvSpec>,
    pub qsa_block: Option<SegmentedKvSpec>,
}

impl PendingSeamSlot {
    /// Every list has one entry for each of `n` layers.
    pub open spec fn fits(&self, n: nat) -> bool {
        &&& self.kbufs@.len() == n
        &&& self.vbufs@.len() == n
        &&& self.qsa_kbufs@.len() == n
        &&& self.qsa_cbufs@.len() == n
    }
}

/// The plane that an unbound side is filled with.
pub open spec fn side_fill(
    bound: Option<DeviceBuffer>,
    layout: SegmentedKvLayout,
    layer: usize,
    kind: PlaneKind,
) -> Option<SegmentedKvSpec> {
    if bound is Some {
        None
    } else {
        match first_plane(layout.planes@, layer, kind) {
            Some(plane) => Some(plane.reservation(layout.max_ctx as nat)),
            None => None,
        }
    }
}

/// The plane that an unbound index cache of `bytes` bytes is filled with.
pub open spec fn index_fill(
    bound: Option<DeviceBuffer>,
    layout: SegmentedKvLayout,
    layer: usize,
    kind: PlaneKind,
    bytes: usize,
) -> Result<Option<SegmentedKvSpec>, Error> {
    if bound is Some || bytes == 0 {
        Ok(None)
    } else {
        match first_plane(layout.planes@, layer, kind) {
            Some(plane) => Ok(Some(plane.reservation(layout.max_ctx as nat))),
            None => Err(Error::NoPlaneGeometry { layer, kind }),
        }
    }
}

/// What is bound for layer `l` of a pending slot.
pub open spec fn layer_fill(
    pending: PendingSeamSlot,
    layout: SegmentedKvLayout,
    l: int,
    bytes: LayerBytes,
) -> Result<LayerFill, Error> {
    match (
        index_fill(
            pending.qsa_kbufs@[l],
            layout,
            l as usize,
            PlaneKind::QsaRaw,
            bytes.qsa_raw,
        ),
        index_fill(
            pending.qsa_cbufs@[l],
            layout,
            l as usize,
            PlaneKind::QsaBlock,
            bytes.qsa_block,
        ),
    ) {
        (Ok(qsa_raw), Ok(qsa_block)) => Ok(
            LayerFill {
                k: side_fill(pending.kbufs@[l], layout, l as usize, PlaneKind::K),
                v: side_fill(pending.vbufs@[l], layout, l as usize, PlaneKind::V),
                qsa_raw,
                qsa_block,
            },
        ),
        (Err(e), _) => Err(e),
        (_, Err(e)) => Err(e),
    }
}

/// The first error in binding the first `n` layers.
pub open spec fn fill_refused(
    pending: PendingSeamSlot,
    layout: SegmentedKvLayout,
    bytes: Seq<LayerBytes>,
    n: nat,
) -> Option<Error>
    decreases n,
{
    if n == 0 {
        None
    } else if let Some(e) = fill_refused(pending, layout, bytes, (n - 1) as nat) {
        Some(e)
    } else {
        match layer_fill(pending, layout, n - 1, bytes[n - 1]) {
            Ok(_) => None,
            Err(e) => Some(e),
        }
    }
}

proof fn lemma_fill_refused_stays(
    pending: PendingSeamSlot,
    layout: SegmentedKvLayout,
    bytes: Seq<LayerBytes>,
    n: nat,
    m: nat,
)
    requires
        n <= m,
        fill_refused(pending, layout, bytes, n) is Some,
    ensures
        fill_refused(pending, layout, bytes, m) == fill_refused(pending, layout, bytes, n),
    decreases m,
{
    if n < m {
        lemma_fill_refused_stays(pending, layout, bytes, n, (m - 1) as nat);
    }
}

fn fill_side(
    bound: Option<DeviceBuffer>,
    layout: &SegmentedKvLayout,
    layer: usize,
    kind: PlaneKind,
) -> (spec: Option<SegmentedKvSpec>)
    requires
        reservable(lazy_of(Some(*layout))),
    ensures
        spec == side_fill(bound, *layout, layer, kind),
{
    if bound.is_some() {
        return None;
    }
    match alloc_segmented_plane(layout, layer, kind) {
        Ok(spec) => Some(spec),
        Err(_) => None,
    }
}

fn fill_index(
    bound: Option<DeviceBuffer>,
    layout: &SegmentedKvLayout,
    layer: usize,
    kind: PlaneKind,
    bytes: usize,
) -> (spec: Result<Option<SegmentedKvSpec>, Error>)
    requires
        reservable(lazy_of(Some(*layout))),
    ensures
        spec == index_fill(bound, *layout, layer, kind, bytes),
{
    if bound.is_some() || bytes == 0 {
        return Ok(None);
    }
    match alloc_segmented_plane(layout, layer, kind) {
        Ok(spec) => Ok(Some(spec)),
        Err(e) => Err(e),
    }
}

/// What has to be bound before a pending slot with a lazy layout is finished.
pub fn pending_fills(
    pending: &PendingSeamSlot,
    layout: &SegmentedKvLayout,
    bytes: &Vec<LayerBytes>,
) -> (fills: Result<Vec<LayerFill>, Error>)
    requires
        reservable(lazy_of(Some(*layout))),
        pending.fits(bytes@.len()),
    ensures
        match fill_refused(*pending, *layout, bytes@, bytes@.len()) {
            Some(e) => fills == Err::<Vec<LayerFill>, Error>(e),
            None => fills matches Ok(list) && list@.len() == bytes@.len() && forall|l: int|
                0 <= l < bytes@.len() ==> Ok::<LayerFill, Error>(#[trigger] list@[l])
                    == layer_fill(*pending, *layout, l, bytes@[l]),
        },
{
    let mut list: Vec<LayerFill> = Vec::new();
    let n: usize = bytes.len();
    let mut l: usize = 0;
    while l < n
        invariant
            l <= n == bytes@.len(),
            reservable(lazy_of(Some(*layout))),
            pending.fits(n as nat),
            fill_refused(*pending, *layout, bytes@, l as nat) is None,
            list@.len() == l,
            forall|j: int|
                0 <= j < l ==> Ok::<LayerFill, Error>(#[trigger] list@[j]) == layer_fill(
                    *pending,
                    *layout,
                    j,
                    bytes@[j],
                ),
        decreases n - l,
    {
        let k: Option<SegmentedKvSpec> = fill_side(pending.kbufs[l], layout, l, PlaneKind::K);
        let v: Option<SegmentedKvSpec> = fill_side(pending.vbufs[l], layout, l, PlaneKind::V);
        let qsa_raw: Option<SegmentedKvSpec> = match fill_index(
            pending.qsa_kbufs[l],
            layout,
            l,
            PlaneKind::QsaRaw,
            bytes[l].qsa_raw,
        ) {
            Ok(spec) => spec,
            Err(e) => {
                proof {
                    lemma_fill_refused_stays(
                        *pending,
                        *layout,
                        bytes@,
                        (l + 1) as nat,
                        n as nat,
                    );
                }
                return Err(e);
            },
        };
        let qsa_block: Option<SegmentedKvSpec> = match fill_index(
            pending.qsa_cbufs[l],
            layout,
            l,
            PlaneKind::QsaBlock,
            bytes[l].qsa_block,
        ) {
            Ok(spec) => spec,
            Err(e) => {
                proof {
                    lemma_fill_refused_stays(
                        *pending,
                        *layout,
                        bytes@,
                        (l + 1) as nat,
                        n as nat,
                    );
                }
                return Err(e);
            },
        };
        list.push(LayerFill { k, v, qsa_raw, qsa_block });
        l = l + 1;
    }
    Ok(list)
}

/// The first absent buffer of a list, or the length.
pub open spec fn first_absent(bufs: Seq<Option<DeviceBuffer>>) -> nat
    decreases bufs.len(),
{
    if bufs.len() == 0 || bufs[0] is None {
        0
    } else {
        1 + first_absent(bufs.skip(1))
    }
}

proof fn lemma_first_absent(bufs: Seq<Option<DeviceBuffer>>, n: nat)
    requires
        n <= bufs.len(),
        forall|i: int| 0 <= i < n ==> #[trigger] bufs[i] is Some,
        n < bufs.len() ==> bufs[n as int] is None,
    ensures
        first_absent(bufs) == n,
    decreases n,
{
    if n > 0 {
        assert(bufs[0] is Some);
        assert forall|i: int| 0 <= i < n - 1 implies #[trigger] bufs.skip(1)[i] is Some by {
            assert(bufs[i + 1] is Some);
        }
        lemma_first_absent(bufs.skip(1), (n - 1) as nat);
    }
}

/// The buffers of a list that are all there.
pub open spec fn bound_buffers(bufs: Seq<Option<DeviceBuffer>>) -> Seq<DeviceBuffer> {
    Seq::new(bufs.len(), |i: int| bufs[i]->0)
}

fn all_bound(bufs: &Vec<Option<DeviceBuffer>>) -> (bound: Result<Vec<DeviceBuffer>, usize>)
    ensures
        match bound {
            Ok(list) => first_absent(bufs@) == bufs@.len() && list@ == bound_buffers(bufs@),
            Err(l) => l == first_absent(bufs@) && l < bufs@.len(),
        },
{
    let mut list: Vec<DeviceBuffer> = Vec::new();
    let mut i: usize = 0;
    while i < bufs.len()
        invariant
            i <= bufs@.len(),
            list@.len() == i,
            forall|j: int| 0 <= j < i ==> #[trigger] bufs@[j] is Some,
            forall|j: int| 0 <= j < i ==> #[trigger] list@[j] == bufs@[j]->0,
        decreases bufs@.len() - i,
    {
        match bufs[i] {
            Some(b) => list.push(b),
            None => {
                proof {
                    lemma_first_absent(bufs@, i as nat);
                }
                return Err(i);
            },
        }
        i = i + 1;
    }
    proof {
        lemma_first_absent(bufs@, i as nat);
        assert(list@ =~= bound_buffers(bufs@));
    }
    Ok(list)
}

/// Finishes a pending slot, once its planes are bound. Its K and V buffers must all be there by
/// then. `wide` is the residual-stream buffer, which is allocated last.
pub fn finish_pending_seam_slot(
    pending: PendingSeamSlot,
    segmented: bool,
    k_fmt: KvFormat,
    v_fmt: KvFormat,
    max_ctx: usize,
    kv_ring: bool,
    wide: Option<DeviceBuffer>,
) -> (slot: Result<SeamKv, Error>)
    ensures
        first_absent(pending.kbufs@) < pending.kbufs@.len() ==> slot == Err::<SeamKv, Error>(
            Error::LayerKNotAllocated { layer: first_absent(pending.kbufs@) as usize },
        ),
        first_absent(pending.kbufs@) >= pending.kbufs@.len() && first_absent(pending.vbufs@)
            < pending.vbufs@.len() ==> slot == Err::<SeamKv, Error>(
            Error::LayerVNotAllocated { layer: first_absent(pending.vbufs@) as usize },
        ),
        first_absent(pending.kbufs@) >= pending.kbufs@.len() && first_absent(pending.vbufs@)
            >= pending.vbufs@.len() ==> (slot matches Ok(made) && {
            &&& made.caches.k@ == bound_buffers(pending.kbufs@)
            &&& made.caches.v@ == bound_buffers(pending.vbufs@)
            &&& made.caches.qsa_raw == pending.qsa_kbufs
            &&& made.caches.qsa_block == pending.qsa_cbufs
            &&& made.is_fresh(IoBuffers { wide, ..pending.io })
            &&& made.segmented_kv == (SegmentedKvState { enabled: segmented, committed_tokens: 0 })
            &&& made.k_fmt == k_fmt
            &&& made.v_fmt == v_fmt
            &&& made.max_ctx == max_ctx
            &&& made.kv_ring == kv_ring
            &&& made.turn_recurrent_ckpt == pending.turn_recurrent_ckpt
        }),
{
    let k: Vec<DeviceBuffer> = match all_bound(&pending.kbufs) {
        Ok(list) => list,
        Err(layer) => {
            return Err(Error::LayerKNotAllocated { layer });
        },
    };
    let v: Vec<DeviceBuffer> = match all_bound(&pending.vbufs) {
        Ok(list) => list,
        Err(layer) => {
            return Err(Error::LayerVNotAllocated { layer });
        },
    };
    Ok(
        SeamKv {
            caches: CacheBuffers {
                k,
                v,
                qsa_raw: pending.qsa_kbufs,
                qsa_block: pending.qsa_cbufs,
            },
            segmented_kv: if segmented {
                SegmentedKvState::enabled()
            } else {
                SegmentedKvState::default()
            },
            k_fmt,
            v_fmt,
            hidden_buf: pending.io.hidden,
            pos_buf: pending.io.pos,
            ipl_buf: pending.io.ipl,
            logits_buf: pending.io.logits,
            qwen_wide_buf: wide,
            ple_embd_buf: pending.io.ple_embd,
            ple_state_buf: pending.io.ple_state,
            max_ctx,
            kv_ring,
            cached: Vec::new(),
            sc_ping_write: 0,
            mtp_delta_ckpt: None,
            turn_recurrent_ckpt: pending.turn_recurrent_ckpt,
        },
    )
}

} // verus!
