//! The cache buffers of a slot, and how much of a lazily grown cache is committed.

use crate::config::{ceil_div, lemma_ceil_div_is_least_cover, Config, KvFormat};
use crate::device::{DeviceBuffer, DeviceOp};
use crate::error::Error;
use crate::segmented_kv::{
    all_planes, law_planes_are_distinct, PlaneKind, PlaneLayout, SegmentedKvLayout, KV_GROW_ROWS,
};
use vstd::prelude::*;

verus! {

/// The cache buffers of a slot, one entry per layer.
pub struct CacheBuffers {
    pub k: Vec<DeviceBuffer>,
    pub v: Vec<DeviceBuffer>,
    /// Raw index keys of the full-attention layers.
    pub qsa_raw: Vec<Option<DeviceBuffer>>,
    /// Block index keys of the full-attention layers.
    pub qsa_block: Vec<Option<DeviceBuffer>>,
}

impl CacheBuffers {
    /// Every list has one entry for each of `n` layers.
    pub open spec fn fits(&self, n: nat) -> bool {
        &&& self.k@.len() == n
        &&& self.v@.len() == n
        &&& self.qsa_raw@.len() == n
        &&& self.qsa_block@.len() == n
    }
}

/// How much of a lazily grown cache is backed by memory.
#[derive(Clone, Copy, Debug, PartialEq, Eq, Structural)]
pub struct SegmentedKvState {
    pub enabled: bool,
    pub committed_tokens: usize,
}

/// A growth of a lazily grown cache: bring each buffer to `segments` segments.
pub struct DepthPlan {
    pub buffers: Vec<DeviceBuffer>,
    pub segments: usize,
}

/// The buffer that a plane stands for.
pub open spec fn plane_buffer(plane: PlaneLayout, caches: CacheBuffers) -> Result<
    DeviceBuffer,
    Error,
> {
    let l = plane.layer as int;
    match plane.kind {
        PlaneKind::K => Ok(caches.k@[l]),
        PlaneKind::V => Ok(caches.v@[l]),
        PlaneKind::QsaRaw => match caches.qsa_raw@[l] {
            Some(b) => Ok(b),
            None => Err(Error::MissingQsaRaw { layer: plane.layer }),
        },
        PlaneKind::QsaBlock => match caches.qsa_block@[l] {
            Some(b) => Ok(b),
            None => Err(Error::MissingQsaBlock { layer: plane.layer }),
        },
    }
}

/// The first plane among the first `n` whose buffer is not there.
pub open spec fn missing_plane(planes: Seq<PlaneLayout>, caches: CacheBuffers, n: nat) -> Option<
    Error,
>
    decreases n,
{
    if n == 0 {
        None
    } else if let Some(e) = missing_plane(planes, caches, (n - 1) as nat) {
        Some(e)
    } else {
        match plane_buffer(planes[n - 1], caches) {
            Ok(_) => None,
            Err(e) => Some(e),
        }
    }
}

/// The buffers of a list of planes that are all there.
pub open spec fn plane_buffers(planes: Seq<PlaneLayout>, caches: CacheBuffers) -> Seq<DeviceBuffer> {
    Seq::new(planes.len(), |i: int| plane_buffer(planes[i], caches)->Ok_0)
}

/// The growth that takes `tokens` tokens.
pub open spec fn depth_plan(
    plan: DepthPlan,
    cfg: Config,
    k_fmt: KvFormat,
    v_fmt: KvFormat,
    caches: CacheBuffers,
    tokens: usize,
) -> bool {
    &&& plan.buffers@ == plane_buffers(all_planes(cfg, k_fmt, v_fmt), caches)
    &&& plan.segments == ceil_div(tokens as nat, KV_GROW_ROWS as nat)
}

/// Whether a growth to `tokens` tokens is refused, and why.
pub open spec fn depth_refused(
    cfg: Config,
    max_ctx: usize,
    k_fmt: KvFormat,
    v_fmt: KvFormat,
    caches: CacheBuffers,
    tokens: usize,
) -> Option<Error> {
    if tokens > max_ctx {
        Some(Error::DepthExceedsSession { tokens, max_ctx })
    } else if !(cfg.qwen35 || cfg.qwen4exp) {
        Some(Error::SegmentedForOtherModel)
    } else {
        let planes = all_planes(cfg, k_fmt, v_fmt);
        missing_plane(planes, caches, planes.len())
    }
}

/// The operations that clear the committed part of one layer.
pub open spec fn layer_clears(cfg: Config, caches: CacheBuffers, l: int) -> Seq<DeviceOp> {
    (if cfg.layers@[l].recurrent {
        Seq::empty()
    } else {
        seq![
            DeviceOp::Clear { buffer: caches.k@[l] },
            DeviceOp::Clear { buffer: caches.v@[l] },
        ]
    }) + (match caches.qsa_raw@[l] {
        Some(buffer) => seq![DeviceOp::Clear { buffer }],
        None => Seq::empty(),
    }) + (match caches.qsa_block@[l] {
        Some(buffer) => seq![DeviceOp::Clear { buffer }],
        None => Seq::empty(),
    })
}

/// The operations that clear the committed part of the first `n` layers.
pub open spec fn clears_below(cfg: Config, caches: CacheBuffers, n: nat) -> Seq<DeviceOp>
    decreases n,
{
    if n == 0 {
        Seq::empty()
    } else {
        clears_below(cfg, caches, (n - 1) as nat) + layer_clears(cfg, caches, n - 1)
    }
}

proof fn lemma_missing_plane_stays(
    planes: Seq<PlaneLayout>,
    caches: CacheBuffers,
    n: nat,
    m: nat,
)
    requires
        n <= m,
        missing_plane(planes, caches, n) is Some,
    ensures
        missing_plane(planes, caches, m) == missing_plane(planes, caches, n),
    decreases m,
{
    if n < m {
        lemma_missing_plane_stays(planes, caches, n, (m - 1) as nat);
    }
}

/// The buffer of one plane.
pub fn find_plane_buffer(plane: PlaneLayout, caches: &CacheBuffers) -> (buffer: Result<
    DeviceBuffer,
    Error,
>)
    requires
        caches.k@.len() > plane.layer,
        caches.fits(caches.k@.len()),
    ensures
        buffer == plane_buffer(plane, *caches),
{
    let l: usize = plane.layer;
    match plane.kind {
        PlaneKind::K => Ok(caches.k[l]),
        PlaneKind::V => Ok(caches.v[l]),
        PlaneKind::QsaRaw => match caches.qsa_raw[l] {
            Some(b) => Ok(b),
            None => Err(Error::MissingQsaRaw { layer: l }),
        },
        PlaneKind::QsaBlock => match caches.qsa_block[l] {
            Some(b) => Ok(b),
            None => Err(Error::MissingQsaBlock { layer: l }),
        },
    }
}

impl Default for SegmentedKvState {
    fn default() -> (s: SegmentedKvState)
        ensures
            s == (SegmentedKvState { enabled: false, committed_tokens: 0 }),
    {
        SegmentedKvState { enabled: false, committed_tokens: 0 }
    }
}

impl SegmentedKvState {
    /// A lazily grown cache of which nothing is committed yet.
    pub fn enabled() -> (s: SegmentedKvState)
        ensures
            s == (SegmentedKvState { enabled: true, committed_tokens: 0 }),
    {
        SegmentedKvState { enabled: true, committed_tokens: 0 }
    }

    /// What has to grow before `tokens` tokens can be written, if anything.
    pub fn ensure_depth(
        &self,
        cfg: &Config,
        max_ctx: usize,
        k_fmt: KvFormat,
        v_fmt: KvFormat,
        caches: &CacheBuffers,
        tokens: usize,
    ) -> (plan: Result<Option<DepthPlan>, Error>)
        requires
            caches.fits(cfg.layers@.len()),
        ensures
            plan matches Ok(None) <==> !self.enabled || tokens <= self.committed_tokens,
            self.enabled && tokens > self.committed_tokens ==> match depth_refused(
                *cfg,
                max_ctx,
                k_fmt,
                v_fmt,
                *caches,
                tokens,
            ) {
                Some(e) => plan == Err::<Option<DepthPlan>, Error>(e),
                None => plan matches Ok(Some(p)) && depth_plan(
                    p,
                    *cfg,
                    k_fmt,
                    v_fmt,
                    *caches,
                    tokens,
                ),
            },
    {
        if !self.enabled || tokens <= self.committed_tokens {
            return Ok(None);
        }
        if tokens > max_ctx {
            return Err(Error::DepthExceedsSession { tokens, max_ctx });
        }
        let layout: SegmentedKvLayout = match SegmentedKvLayout::for_qwen(
            cfg,
            max_ctx,
            k_fmt,
            v_fmt,
        ) {
            Some(layout) => layout,
            None => {
                return Err(Error::SegmentedForOtherModel);
            },
        };
        let segments: usize = layout.segments_for_tokens(tokens);
        let n_layer: usize = cfg.layers.len();
        proof {
            law_planes_are_distinct(*cfg, n_layer as nat, k_fmt, v_fmt);
        }
        let mut buffers: Vec<DeviceBuffer> = Vec::new();
        let mut i: usize = 0;
        while i < layout.planes.len()
            invariant
                i <= layout.planes@.len(),
                layout.planes@ == all_planes(*cfg, k_fmt, v_fmt),
                caches.fits(cfg.layers@.len()),
                tokens <= max_ctx,
                self.enabled,
                tokens > self.committed_tokens,
                cfg.qwen35 || cfg.qwen4exp,
                forall|j: int|
                    0 <= j < layout.planes@.len() ==> (#[trigger] layout.planes@[j]).layer
                        < cfg.layers@.len(),
                buffers@.len() == i,
                forall|j: int|
                    0 <= j < i ==> plane_buffer(layout.planes@[j], *caches) == Ok::<
                        DeviceBuffer,
                        Error,
                    >(#[trigger] buffers@[j]),
                missing_plane(layout.planes@, *caches, i as nat) is None,
            decreases layout.planes@.len() - i,
        {
            match find_plane_buffer(layout.planes[i], caches) {
                Ok(b) => buffers.push(b),
                Err(e) => {
                    proof {
                        lemma_missing_plane_stays(
                            layout.planes@,
                            *caches,
                            (i + 1) as nat,
                            layout.planes@.len(),
                        );
                    }
                    return Err(e);
                },
            }
            i = i + 1;
        }
        assert(buffers@ =~= plane_buffers(layout.planes@, *caches));
        Ok(Some(DepthPlan { buffers, segments }))
    }

    /// The tokens that `segments` segments hold in a session of `max_ctx` tokens.
    pub open spec fn held_by(segments: nat, max_ctx: usize) -> int {
        if segments * KV_GROW_ROWS <= max_ctx {
            segments * KV_GROW_ROWS
        } else {
            max_ctx as int
        }
    }

    /// Records that a growth to `segments` segments was carried out.
    pub fn committed(&mut self, segments: usize, max_ctx: usize)
        requires
            segments * KV_GROW_ROWS <= usize::MAX,
        ensures
            final(self).enabled == old(self).enabled,
            final(self).committed_tokens == SegmentedKvState::held_by(segments as nat, max_ctx),
    {
        let held: usize = segments * KV_GROW_ROWS;
        self.committed_tokens = if held <= max_ctx {
            held
        } else {
            max_ctx
        };
    }

    /// The operations that clear what is committed.
    pub fn clear(&self, cfg: &Config, caches: &CacheBuffers) -> (ops: Vec<DeviceOp>)
        requires
            caches.fits(cfg.layers@.len()),
        ensures
            ops@ == (if self.enabled {
                clears_below(*cfg, *caches, cfg.layers@.len())
            } else {
                Seq::empty()
            }),
    {
        let mut ops: Vec<DeviceOp> = Vec::new();
        if !self.enabled {
            return ops;
        }
        let n: usize = cfg.layers.len();
        let mut l: usize = 0;
        while l < n
            invariant
                l <= n == cfg.layers@.len(),
                caches.fits(n as nat),
                ops@ == clears_below(*cfg, *caches, l as nat),
            decreases n - l,
        {
            let ghost before = ops@;
            if !cfg.layers[l].recurrent {
                ops.push(DeviceOp::Clear { buffer: caches.k[l] });
                ops.push(DeviceOp::Clear { buffer: caches.v[l] });
            }
            if let Some(buffer) = caches.qsa_raw[l] {
                ops.push(DeviceOp::Clear { buffer });
            }
            if let Some(buffer) = caches.qsa_block[l] {
                ops.push(DeviceOp::Clear { buffer });
            }
            assert(ops@ =~= before + layer_clears(*cfg, *caches, l as int));
            l = l + 1;
        }
        ops
    }
}

/// A growth that was carried out holds at least the tokens that it was planned for, never more than
/// the context, and a second request for the same depth has nothing to do.
pub proof fn law_growth_covers_the_request(tokens: usize, max_ctx: usize)
    requires
        tokens <= max_ctx,
    ensures
        tokens <= SegmentedKvState::held_by(
            ceil_div(tokens as nat, KV_GROW_ROWS as nat),
            max_ctx,
        ) <= max_ctx,
{
    lemma_ceil_div_is_least_cover(
        tokens as nat,
        KV_GROW_ROWS as nat,
        ceil_div(tokens as nat, KV_GROW_ROWS as nat),
    );
}

/// Growing further never gives committed tokens up.
pub proof fn law_growth_is_monotone(a: nat, b: nat, max_ctx: usize)
    requires
        a <= b,
    ensures
        SegmentedKvState::held_by(a, max_ctx) <= SegmentedKvState::held_by(b, max_ctx),
{
    assert(a * KV_GROW_ROWS <= b * KV_GROW_ROWS) by (nonlinear_arith)
        requires
            a <= b,
            KV_GROW_ROWS >= 0,
    ;
}

} // verus!
