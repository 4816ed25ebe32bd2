//! Geometry of lazily committed caches.
//!
//! This module owns no buffers. A conversation grows in steps of [`KV_GROW_ROWS`] tokens:
//! recurrent layers keep their fixed-size state, while attention and block-index planes commit only
//! the segments that the materialized depth reaches.

use crate::config::{
    ceil_div, div_ceil, kv_fmt_bytes, lemma_ceil_div, lemma_ceil_div_is_least_cover,
    lemma_ceil_div_monotone, lemma_ceil_div_multiple, lemma_size_of_runs, Config, DType, KvFormat,
    LayerConfig,
};
use vstd::arithmetic::div_mod::*;
use vstd::arithmetic::mul::*;
use vstd::prelude::*;

verus! {

/// Persistent per-token state grows by this many tokens at a time.
pub const KV_GROW_ROWS: usize = 32768;

/// What a plane of a layer's cache holds.
#[derive(Clone, Copy, Debug, PartialEq, Eq, Structural)]
pub enum PlaneKind {
    K,
    V,
    QsaRaw,
    QsaBlock,
}

/// One independently addressed cache plane of one layer.
#[derive(Clone, Copy, Debug, PartialEq, Eq, Structural)]
pub struct PlaneLayout {
    pub layer: usize,
    pub kind: PlaneKind,
    pub format: KvFormat,
    pub row_elems: usize,
    /// Tokens that one row stands for: one, or a layer's compression ratio.
    pub tokens_per_row: usize,
}

/// Sizes that a backend needs to reserve one plane and to commit it piece by piece.
#[derive(Clone, Copy, Debug, PartialEq, Eq, Structural)]
pub struct SegmentedKvSpec {
    pub logical_bytes: usize,
    pub segment_bytes: usize,
    pub segment_elements: usize,
    pub max_segments: usize,
}

impl PlaneLayout {
    pub open spec fn valid(self) -> bool {
        self.format.valid() && self.tokens_per_row > 0
    }

    /// Elements of one segment.
    pub open spec fn segment_size(self) -> nat {
        (KV_GROW_ROWS as nat / self.tokens_per_row as nat) * (self.row_elems as nat)
    }

    /// Rows that `max_ctx` tokens need: at least one.
    pub open spec fn logical_rows(self, max_ctx: nat) -> nat {
        let rows = max_ctx / self.tokens_per_row as nat;
        if rows >= 1 {
            rows
        } else {
            1
        }
    }

    /// Elements that `max_ctx` tokens need.
    pub open spec fn logical_size(self, max_ctx: nat) -> nat {
        self.logical_rows(max_ctx) * (self.row_elems as nat)
    }

    /// One segment's elements and bytes fit the machine.
    pub open spec fn segment_fits(self) -> bool {
        self.segment_size() <= usize::MAX && self.format.size(self.segment_size()) <= usize::MAX
    }

    /// The plane at full depth fits the machine.
    pub open spec fn depth_fits(self, max_ctx: nat) -> bool {
        self.logical_size(max_ctx) <= usize::MAX && self.format.size(self.logical_size(max_ctx))
            <= usize::MAX
    }

    /// Rows of one segment.
    pub fn rows_per_segment(self) -> (rows: usize)
        requires
            self.valid(),
        ensures
            rows == KV_GROW_ROWS as nat / self.tokens_per_row as nat,
    {
        KV_GROW_ROWS / self.tokens_per_row
    }

    /// Bytes of one segment.
    pub fn segment_bytes(self) -> (bytes: usize)
        requires
            self.valid(),
            self.segment_fits(),
        ensures
            bytes == self.format.size(self.segment_size()),
    {
        kv_fmt_bytes(self.format, self.segment_elements())
    }

    /// Elements of one segment.
    pub fn segment_elements(self) -> (elems: usize)
        requires
            self.valid(),
            self.segment_size() <= usize::MAX,
        ensures
            elems == self.segment_size(),
    {
        self.rows_per_segment() * self.row_elems
    }

    /// Elements of the plane at a depth of `max_ctx` tokens.
    pub fn logical_elements(self, max_ctx: usize) -> (elems: usize)
        requires
            self.valid(),
            self.logical_size(max_ctx as nat) <= usize::MAX,
        ensures
            elems == self.logical_size(max_ctx as nat),
    {
        let whole: usize = max_ctx / self.tokens_per_row;
        let rows: usize = if whole >= 1 {
            whole
        } else {
            1
        };
        rows * self.row_elems
    }

    /// What [`PlaneLayout::spec`] returns.
    pub open spec fn reservation(self, max_ctx: nat) -> SegmentedKvSpec {
        SegmentedKvSpec {
            logical_bytes: self.format.size(self.logical_size(max_ctx)) as usize,
            segment_bytes: self.format.size(self.segment_size()) as usize,
            segment_elements: self.segment_size() as usize,
            max_segments: ceil_div(max_ctx, KV_GROW_ROWS as nat) as usize,
        }
    }

    /// The reservation of this plane in a session of `max_ctx` tokens.
    pub fn spec(self, max_ctx: usize) -> (s: SegmentedKvSpec)
        requires
            self.valid(),
            self.segment_fits(),
            self.depth_fits(max_ctx as nat),
        ensures
            s == self.reservation(max_ctx as nat),
    {
        SegmentedKvSpec {
            logical_bytes: kv_fmt_bytes(self.format, self.logical_elements(max_ctx)),
            segment_bytes: self.segment_bytes(),
            segment_elements: self.segment_elements(),
            max_segments: div_ceil(max_ctx, KV_GROW_ROWS),
        }
    }
}

/// The K plane of a layer, if its K rows hold anything.
pub open spec fn k_plane(layer: LayerConfig, l: int, k_fmt: KvFormat) -> Seq<PlaneLayout> {
    if layer.k_row != 0 {
        seq![PlaneLayout {
            layer: l as usize,
            kind: PlaneKind::K,
            format: k_fmt,
            row_elems: layer.k_row,
            tokens_per_row: 1,
        }]
    } else {
        Seq::empty()
    }
}

/// The V plane of a layer, if its V rows hold anything.
pub open spec fn v_plane(layer: LayerConfig, l: int, v_fmt: KvFormat) -> Seq<PlaneLayout> {
    if layer.v_row != 0 {
        seq![PlaneLayout {
            layer: l as usize,
            kind: PlaneKind::V,
            format: v_fmt,
            row_elems: layer.v_row,
            tokens_per_row: 1,
        }]
    } else {
        Seq::empty()
    }
}

/// The tokens that one block-index row of a layer stands for.
pub open spec fn block_tokens(layer: LayerConfig) -> usize {
    if layer.compress_ratio >= 1 {
        layer.compress_ratio
    } else {
        1
    }
}

/// The two index planes of a hybrid attention layer.
pub open spec fn qsa_planes(cfg: Config, layer: LayerConfig, l: int) -> Seq<PlaneLayout> {
    if cfg.qwen4exp && layer.hybrid_attention {
        seq![
            PlaneLayout {
                layer: l as usize,
                kind: PlaneKind::QsaRaw,
                format: KvFormat { dtype: DType::F16, block_elems: 1, block_bytes: 2 },
                row_elems: cfg.indexer_head_size,
                tokens_per_row: 1,
            },
            PlaneLayout {
                layer: l as usize,
                kind: PlaneKind::QsaBlock,
                format: KvFormat { dtype: DType::F32, block_elems: 1, block_bytes: 4 },
                row_elems: cfg.indexer_head_size,
                tokens_per_row: block_tokens(layer),
            },
        ]
    } else {
        Seq::empty()
    }
}

/// The planes of one layer: none where the mixer is recurrent.
pub open spec fn layer_planes(cfg: Config, l: int, k_fmt: KvFormat, v_fmt: KvFormat) -> Seq<
    PlaneLayout,
> {
    let layer = cfg.layers@[l];
    if layer.recurrent {
        Seq::empty()
    } else {
        k_plane(layer, l, k_fmt) + v_plane(layer, l, v_fmt) + qsa_planes(cfg, layer, l)
    }
}

/// The planes of the first `n` layers, in layer order.
pub open spec fn planes_below(cfg: Config, n: nat, k_fmt: KvFormat, v_fmt: KvFormat) -> Seq<
    PlaneLayout,
>
    decreases n,
{
    if n == 0 {
        Seq::empty()
    } else {
        planes_below(cfg, (n - 1) as nat, k_fmt, v_fmt) + layer_planes(cfg, n - 1, k_fmt, v_fmt)
    }
}

/// Every plane of a model.
pub open spec fn all_planes(cfg: Config, k_fmt: KvFormat, v_fmt: KvFormat) -> Seq<PlaneLayout> {
    planes_below(cfg, cfg.layers@.len(), k_fmt, v_fmt)
}

/// The per-token planes of a model that grow lazily.
#[derive(Debug)]
pub struct SegmentedKvLayout {
    pub max_ctx: usize,
    pub planes: Vec<PlaneLayout>,
}

/// Bytes of one segment of every plane.
pub open spec fn segment_bytes_total(planes: Seq<PlaneLayout>) -> nat
    decreases planes.len(),
{
    if planes.len() == 0 {
        0
    } else {
        segment_bytes_total(planes.drop_last()) + planes.last().format.size(
            planes.last().segment_size(),
        )
    }
}

/// Bytes of every plane at its full depth.
pub open spec fn logical_bytes_total(planes: Seq<PlaneLayout>, max_ctx: nat) -> nat
    decreases planes.len(),
{
    if planes.len() == 0 {
        0
    } else {
        logical_bytes_total(planes.drop_last(), max_ctx) + planes.last().format.size(
            planes.last().logical_size(max_ctx),
        )
    }
}

/// The first plane of a kind in a layer.
pub open spec fn first_plane(planes: Seq<PlaneLayout>, layer: usize, kind: PlaneKind) -> Option<
    PlaneLayout,
>
    decreases planes.len(),
{
    if planes.len() == 0 {
        None
    } else if planes[0].layer == layer && planes[0].kind == kind {
        Some(planes[0])
    } else {
        first_plane(planes.skip(1), layer, kind)
    }
}

/// Appends the planes of layer `l`.
fn push_layer_planes(
    planes: &mut Vec<PlaneLayout>,
    cfg: &Config,
    l: usize,
    k_fmt: KvFormat,
    v_fmt: KvFormat,
)
    requires
        l < cfg.layers@.len(),
    ensures
        final(planes)@ == old(planes)@ + layer_planes(*cfg, l as int, k_fmt, v_fmt),
{
    let layer: LayerConfig = cfg.layers[l];
    if layer.recurrent {
        assert(planes@ =~= old(planes)@ + layer_planes(*cfg, l as int, k_fmt, v_fmt));
        return ;
    }
    if layer.k_row != 0 {
        planes.push(
            PlaneLayout {
                layer: l,
                kind: PlaneKind::K,
                format: k_fmt,
                row_elems: layer.k_row,
                tokens_per_row: 1,
            },
        );
    }
    assert(planes@ =~= old(planes)@ + k_plane(layer, l as int, k_fmt));
    if layer.v_row != 0 {
        planes.push(
            PlaneLayout {
                layer: l,
                kind: PlaneKind::V,
                format: v_fmt,
                row_elems: layer.v_row,
                tokens_per_row: 1,
            },
        );
    }
    assert(planes@ =~= old(planes)@ + (k_plane(layer, l as int, k_fmt) + v_plane(
        layer,
        l as int,
        v_fmt,
    )));
    if cfg.qwen4exp && layer.hybrid_attention {
        planes.push(
            PlaneLayout {
                layer: l,
                kind: PlaneKind::QsaRaw,
                format: KvFormat::half(),
                row_elems: cfg.indexer_head_size,
                tokens_per_row: 1,
            },
        );
        let ratio: usize = if layer.compress_ratio >= 1 {
            layer.compress_ratio
        } else {
            1
        };
        planes.push(
            PlaneLayout {
                layer: l,
                kind: PlaneKind::QsaBlock,
                format: KvFormat::single(),
                row_elems: cfg.indexer_head_size,
                tokens_per_row: ratio,
            },
        );
    }
    assert(planes@ =~= old(planes)@ + layer_planes(*cfg, l as int, k_fmt, v_fmt));
}

proof fn lemma_planes_valid(cfg: Config, n: nat, k_fmt: KvFormat, v_fmt: KvFormat)
    requires
        k_fmt.valid(),
        v_fmt.valid(),
    ensures
        forall|i: int|
            0 <= i < planes_below(cfg, n, k_fmt, v_fmt).len() ==> (#[trigger] planes_below(
                cfg,
                n,
                k_fmt,
                v_fmt,
            )[i]).valid(),
    decreases n,
{
    if n > 0 {
        lemma_planes_valid(cfg, (n - 1) as nat, k_fmt, v_fmt);
        let before = planes_below(cfg, (n - 1) as nat, k_fmt, v_fmt);
        let own = layer_planes(cfg, n - 1, k_fmt, v_fmt);
        let all = planes_below(cfg, n, k_fmt, v_fmt);
        assert forall|i: int| 0 <= i < own.len() implies (#[trigger] own[i]).valid() by {}
        assert forall|i: int| 0 <= i < all.len() implies (#[trigger] all[i]).valid() by {
            if i < before.len() {
                assert(all[i] == before[i]);
            } else {
                assert(all[i] == own[i - before.len()]);
            }
        }
    }
}

impl SegmentedKvLayout {
    /// Every plane can be sized.
    pub open spec fn valid(&self) -> bool {
        forall|i: int| 0 <= i < self.planes@.len() ==> (#[trigger] self.planes@[i]).valid()
    }

    /// Every segment can be sized on this machine.
    pub open spec fn segments_fit(&self) -> bool {
        forall|i: int| 0 <= i < self.planes@.len() ==> (#[trigger] self.planes@[i]).segment_fits()
    }

    /// Every plane at full depth can be sized on this machine.
    pub open spec fn depths_fit(&self) -> bool {
        forall|i: int|
            0 <= i < self.planes@.len() ==> (#[trigger] self.planes@[i]).depth_fits(
                self.max_ctx as nat,
            )
    }

    /// Segments that a depth of `tokens` reaches.
    pub open spec fn segments(&self, tokens: nat) -> nat {
        ceil_div(
            if tokens <= self.max_ctx {
                tokens
            } else {
                self.max_ctx as nat
            },
            KV_GROW_ROWS as nat,
        )
    }

    /// Bytes committed at a depth of `tokens`.
    pub open spec fn committed(&self, tokens: nat) -> nat {
        segment_bytes_total(self.planes@) * self.segments(tokens)
    }

    /// What [`SegmentedKvLayout::for_qwen`] returns for a model that has a lazy layout.
    pub open spec fn describes(
        &self,
        cfg: Config,
        max_ctx: usize,
        k_fmt: KvFormat,
        v_fmt: KvFormat,
    ) -> bool {
        self.max_ctx == max_ctx && self.planes@ == all_planes(cfg, k_fmt, v_fmt)
    }

    /// The lazy layout of a hybrid model; other architectures keep a static cache.
    pub fn for_qwen(cfg: &Config, max_ctx: usize, k_fmt: KvFormat, v_fmt: KvFormat) -> (layout:
        Option<SegmentedKvLayout>)
        ensures
            layout is Some <==> cfg.qwen35 || cfg.qwen4exp,
            layout matches Some(made) ==> made.describes(*cfg, max_ctx, k_fmt, v_fmt),
            layout matches Some(made) ==> k_fmt.valid() && v_fmt.valid() ==> made.valid(),
    {
        if !(cfg.qwen35 || cfg.qwen4exp) {
            return None;
        }
        let mut planes: Vec<PlaneLayout> = Vec::new();
        let n: usize = cfg.layers.len();
        let mut l: usize = 0;
        while l < n
            invariant
                l <= n == cfg.layers@.len(),
                planes@ == planes_below(*cfg, l as nat, k_fmt, v_fmt),
            decreases n - l,
        {
            push_layer_planes(&mut planes, cfg, l, k_fmt, v_fmt);
            l = l + 1;
        }
        proof {
            if k_fmt.valid() && v_fmt.valid() {
                lemma_planes_valid(*cfg, n as nat, k_fmt, v_fmt);
            }
        }
        Some(SegmentedKvLayout { max_ctx, planes })
    }

    /// Segments of a fully committed session.
    pub fn max_segments(&self) -> (n: usize)
        ensures
            n == self.segments(self.max_ctx as nat),
    {
        div_ceil(self.max_ctx, KV_GROW_ROWS)
    }

    /// Segments that a depth of `tokens` reaches; depths past the context count as the context.
    pub fn segments_for_tokens(&self, tokens: usize) -> (n: usize)
        ensures
            n == self.segments(tokens as nat),
    {
        let depth: usize = if tokens <= self.max_ctx {
            tokens
        } else {
            self.max_ctx
        };
        div_ceil(depth, KV_GROW_ROWS)
    }

    /// Bytes committed at a depth of `tokens`.
    pub fn committed_bytes(&self, tokens: usize) -> (bytes: u64)
        requires
            self.valid(),
            self.segments_fit(),
            self.committed(tokens as nat) <= u64::MAX,
        ensures
            bytes == self.committed(tokens as nat),
    {
        let segments: u64 = self.segments_for_tokens(tokens) as u64;
        let mut sum: u64 = 0;
        let mut i: usize = 0;
        proof {
            assert(self.planes@.take(0) =~= Seq::<PlaneLayout>::empty());
            assert(0 * (segments as int) == 0);
        }
        while i < self.planes.len()
            invariant
                i <= self.planes@.len(),
                self.valid(),
                self.segments_fit(),
                segments == self.segments(tokens as nat),
                self.committed(tokens as nat) <= u64::MAX,
                sum == segment_bytes_total(self.planes@.take(i as int)) * segments,
            decreases self.planes@.len() - i,
        {
            let bytes: usize = self.planes[i].segment_bytes();
            proof {
                let done = self.planes@.take(i as int);
                let next = self.planes@.take(i + 1);
                assert(next.drop_last() =~= done);
                lemma_segment_total_monotone(self.planes@, i + 1);
                lemma_mul_inequality(
                    segment_bytes_total(next) as int,
                    segment_bytes_total(self.planes@) as int,
                    segments as int,
                );
                lemma_mul_is_distributive_add_other_way(
                    segments as int,
                    segment_bytes_total(done) as int,
                    bytes as int,
                );
                lemma_mul_nonnegative(bytes as int, segments as int);
                lemma_mul_nonnegative(segment_bytes_total(done) as int, segments as int);
            }
            sum = sum + bytes as u64 * segments;
            i = i + 1;
        }
        assert(self.planes@.take(i as int) =~= self.planes@);
        sum
    }

    /// Bytes of all planes at full depth, before rounding to whole segments.
    pub fn logical_bytes(&self) -> (bytes: u64)
        requires
            self.valid(),
            self.depths_fit(),
            logical_bytes_total(self.planes@, self.max_ctx as nat) <= u64::MAX,
        ensures
            bytes == logical_bytes_total(self.planes@, self.max_ctx as nat),
    {
        let mut sum: u64 = 0;
        let mut i: usize = 0;
        proof {
            assert(self.planes@.take(0) =~= Seq::<PlaneLayout>::empty());
        }
        while i < self.planes.len()
            invariant
                i <= self.planes@.len(),
                self.valid(),
                self.depths_fit(),
                logical_bytes_total(self.planes@, self.max_ctx as nat) <= u64::MAX,
                sum == logical_bytes_total(self.planes@.take(i as int), self.max_ctx as nat),
            decreases self.planes@.len() - i,
        {
            let plane: PlaneLayout = self.planes[i];
            assert(plane.depth_fits(self.max_ctx as nat));
            let bytes: usize = kv_fmt_bytes(plane.format, plane.logical_elements(self.max_ctx));
            proof {
                let next = self.planes@.take(i + 1);
                assert(next.drop_last() =~= self.planes@.take(i as int));
                lemma_logical_total_monotone(self.planes@, self.max_ctx as nat, i + 1);
            }
            sum = sum + bytes as u64;
            i = i + 1;
        }
        assert(self.planes@.take(i as int) =~= self.planes@);
        sum
    }

    /// The plane of a kind in a layer.
    pub fn plane(&self, layer: usize, kind: PlaneKind) -> (found: Option<PlaneLayout>)
        ensures
            found == first_plane(self.planes@, layer, kind),
    {
        let mut i: usize = 0;
        proof {
            assert(self.planes@.skip(0) =~= self.planes@);
        }
        while i < self.planes.len()
            invariant
                i <= self.planes@.len(),
                first_plane(self.planes@, layer, kind) == first_plane(
                    self.planes@.skip(i as int),
                    layer,
                    kind,
                ),
            decreases self.planes@.len() - i,
        {
            let plane: PlaneLayout = self.planes[i];
            assert(self.planes@.skip(i as int).skip(1) =~= self.planes@.skip(i + 1));
            if plane.layer == layer && plane.kind == kind {
                return Some(plane);
            }
            i = i + 1;
        }
        None
    }
}

proof fn lemma_segment_total_monotone(planes: Seq<PlaneLayout>, i: int)
    requires
        0 <= i <= planes.len(),
    ensures
        segment_bytes_total(planes.take(i)) <= segment_bytes_total(planes),
    decreases planes.len() - i,
{
    if i < planes.len() {
        lemma_segment_total_monotone(planes, i + 1);
        assert(planes.take(i + 1).drop_last() =~= planes.take(i));
    } else {
        assert(planes.take(i) =~= planes);
    }
}

proof fn lemma_logical_total_monotone(planes: Seq<PlaneLayout>, max_ctx: nat, i: int)
    requires
        0 <= i <= planes.len(),
    ensures
        logical_bytes_total(planes.take(i), max_ctx) <= logical_bytes_total(planes, max_ctx),
    decreases planes.len() - i,
{
    if i < planes.len() {
        lemma_logical_total_monotone(planes, max_ctx, i + 1);
        assert(planes.take(i + 1).drop_last() =~= planes.take(i));
    } else {
        assert(planes.take(i) =~= planes);
    }
}

/// What the search for a plane finds is one of the planes, and it finds nothing only when there is
/// none.
pub proof fn lemma_first_plane(planes: Seq<PlaneLayout>, layer: usize, kind: PlaneKind)
    ensures
        match first_plane(planes, layer, kind) {
            Some(plane) => planes.contains(plane) && plane.layer == layer && plane.kind == kind,
            None => forall|i: int|
                0 <= i < planes.len() ==> !((#[trigger] planes[i]).layer == layer && planes[i].kind
                    == kind),
        },
    decreases planes.len(),
{
    if planes.len() > 0 {
        if planes[0].layer == layer && planes[0].kind == kind {
        } else {
            let rest = planes.skip(1);
            lemma_first_plane(rest, layer, kind);
            match first_plane(rest, layer, kind) {
                Some(plane) => {
                    let i = choose|i: int| 0 <= i < rest.len() && rest[i] == plane;
                    assert(planes[i + 1] == plane);
                },
                None => {
                    assert forall|i: int| 0 <= i < planes.len() implies !((
                    #[trigger] planes[i]).layer == layer && planes[i].kind == kind) by {
                        if i > 0 {
                            assert(rest[i - 1] == planes[i]);
                        }
                    }
                },
            }
        }
    }
}

/// A depth commits the least number of whole segments that hold it.
pub proof fn law_segments_are_the_least_cover(layout: SegmentedKvLayout, tokens: nat, n: nat)
    requires
        tokens <= layout.max_ctx,
    ensures
        (tokens <= n * KV_GROW_ROWS) == (layout.segments(tokens) <= n),
{
    lemma_ceil_div_is_least_cover(tokens, KV_GROW_ROWS as nat, n);
}

/// A deeper conversation never commits fewer bytes, and an empty one commits none.
pub proof fn law_committed_bytes_grow_with_depth(layout: SegmentedKvLayout, a: nat, b: nat)
    requires
        a <= b,
    ensures
        layout.segments(a) <= layout.segments(b),
        layout.committed(a) <= layout.committed(b),
        layout.committed(0) == 0,
{
    let cap = |t: nat| if t <= layout.max_ctx { t } else { layout.max_ctx as nat };
    lemma_ceil_div_monotone(cap(a), cap(b), KV_GROW_ROWS as nat);
    lemma_mul_inequality(
        layout.segments(a) as int,
        layout.segments(b) as int,
        segment_bytes_total(layout.planes@) as int,
    );
    lemma_mul_is_commutative(
        layout.segments(a) as int,
        segment_bytes_total(layout.planes@) as int,
    );
    lemma_mul_is_commutative(
        layout.segments(b) as int,
        segment_bytes_total(layout.planes@) as int,
    );
    lemma_ceil_div(0, KV_GROW_ROWS as nat);
    lemma_mul_basics(segment_bytes_total(layout.planes@) as int);
}

/// Depths inside one segment commit the same bytes; the step to the next segment adds one segment
/// of every plane.
pub proof fn law_depth_commits_whole_segments(layout: SegmentedKvLayout, tokens: nat, n: nat)
    requires
        n * KV_GROW_ROWS < tokens <= (n + 1) * KV_GROW_ROWS,
        tokens <= layout.max_ctx,
    ensures
        layout.segments(tokens) == n + 1,
        layout.committed(tokens) == (n + 1) * segment_bytes_total(layout.planes@),
{
    lemma_ceil_div_is_least_cover(tokens, KV_GROW_ROWS as nat, n);
    lemma_ceil_div_is_least_cover(tokens, KV_GROW_ROWS as nat, n + 1);
    lemma_mul_is_commutative(segment_bytes_total(layout.planes@) as int, (n + 1) as int);
}

/// The planes of the first `n` layers name only those layers, are never recurrent, and no two of
/// them have the same layer and kind.
pub proof fn law_planes_are_distinct(cfg: Config, n: nat, k_fmt: KvFormat, v_fmt: KvFormat)
    requires
        n <= cfg.layers@.len() <= usize::MAX,
    ensures
        forall|i: int|
            0 <= i < planes_below(cfg, n, k_fmt, v_fmt).len() ==> (#[trigger] planes_below(
                cfg,
                n,
                k_fmt,
                v_fmt,
            )[i]).layer < n && !cfg.layers@[planes_below(
                cfg,
                n,
                k_fmt,
                v_fmt,
            )[i].layer as int].recurrent,
        forall|i: int, j: int|
            #![trigger planes_below(cfg, n, k_fmt, v_fmt)[i], planes_below(cfg, n, k_fmt, v_fmt)[j]]
            0 <= i < j < planes_below(cfg, n, k_fmt, v_fmt).len() ==> planes_below(
                cfg,
                n,
                k_fmt,
                v_fmt,
            )[i].layer != planes_below(cfg, n, k_fmt, v_fmt)[j].layer || planes_below(
                cfg,
                n,
                k_fmt,
                v_fmt,
            )[i].kind != planes_below(cfg, n, k_fmt, v_fmt)[j].kind,
    decreases n,
{
    if n > 0 {
        law_planes_are_distinct(cfg, (n - 1) as nat, k_fmt, v_fmt);
        let before = planes_below(cfg, (n - 1) as nat, k_fmt, v_fmt);
        let own = layer_planes(cfg, n - 1, k_fmt, v_fmt);
        let all = planes_below(cfg, n, k_fmt, v_fmt);
        assert(all == before + own);
        assert forall|i: int| 0 <= i < own.len() implies (#[trigger] own[i]).layer == n - 1
            && !cfg.layers@[n - 1].recurrent by {}
        assert forall|i: int, j: int| 0 <= i < j < own.len() implies own[i].kind != own[j].kind by {}
        assert forall|i: int| 0 <= i < all.len() implies (#[trigger] all[i]).layer < n
            && !cfg.layers@[all[i].layer as int].recurrent by {
            if i < before.len() {
                assert(all[i] == before[i]);
            } else {
                assert(all[i] == own[i - before.len()]);
            }
        }
        assert forall|i: int, j: int|
            #![trigger all[i], all[j]]
            0 <= i < j < all.len() implies all[i].layer != all[j].layer || all[i].kind
            != all[j].kind by {
            if j < before.len() {
                assert(all[i] == before[i] && all[j] == before[j]);
            } else if i < before.len() {
                assert(all[i] == before[i]);
                assert(all[j] == own[j - before.len()]);
            } else {
                assert(all[i] == own[i - before.len()]);
                assert(all[j] == own[j - before.len()]);
            }
        }
    }
}

/// A plane whose segments are whole rows of whole blocks.
pub open spec fn tiles_segments(plane: PlaneLayout) -> bool {
    &&& plane.valid()
    &&& KV_GROW_ROWS as nat % plane.tokens_per_row as nat == 0
    &&& plane.segment_size() % (plane.format.block_elems as nat) == 0
}

/// A plane that is committed to the end of a context of whole segments takes exactly the bytes of a
/// static cache.
proof fn lemma_full_plane(plane: PlaneLayout, n: nat)
    requires
        tiles_segments(plane),
        n >= 1,
    ensures
        plane.format.size(plane.logical_size(n * KV_GROW_ROWS as nat)) == n * plane.format.size(
            plane.segment_size(),
        ),
{
    let t = plane.tokens_per_row as int;
    let grow = KV_GROW_ROWS as int;
    let per = grow / t;
    lemma_fundamental_div_mod(grow, t);
    assert(grow == t * per);
    assert(per >= 1) by (nonlinear_arith)
        requires
            grow == t * per,
            grow == 32768,
            t > 0,
    ;
    assert((n * grow) as int == t * (n * per)) by (nonlinear_arith)
        requires
            grow == t * per,
    ;
    lemma_fundamental_div_mod_converse(n * grow, t, n * per, 0);
    assert((n * KV_GROW_ROWS as nat) / plane.tokens_per_row as nat == n * per);
    assert(n * per >= 1) by (nonlinear_arith)
        requires
            n >= 1,
            per >= 1,
    ;
    lemma_mul_is_associative(n as int, per, plane.row_elems as int);
    assert(plane.logical_size(n * KV_GROW_ROWS as nat) == n * plane.segment_size());
    lemma_size_of_runs(plane.format, plane.segment_size(), n);
}

/// A fully committed session takes exactly the bytes that a static cache of the same context would,
/// when the context is a whole number of segments.
pub proof fn law_full_commitment_equals_static_geometry(layout: SegmentedKvLayout, n: nat)
    requires
        layout.max_ctx == n * KV_GROW_ROWS,
        n >= 1,
        forall|i: int|
            0 <= i < layout.planes@.len() ==> tiles_segments(#[trigger] layout.planes@[i]),
    ensures
        layout.committed(layout.max_ctx as nat) == logical_bytes_total(
            layout.planes@,
            layout.max_ctx as nat,
        ),
{
    lemma_ceil_div_multiple(n, KV_GROW_ROWS as nat);
    assert(layout.segments(layout.max_ctx as nat) == n);
    lemma_full_total(layout.planes@, n);
    lemma_mul_is_commutative(segment_bytes_total(layout.planes@) as int, n as int);
}

proof fn lemma_full_total(planes: Seq<PlaneLayout>, n: nat)
    requires
        n >= 1,
        forall|i: int| 0 <= i < planes.len() ==> tiles_segments(#[trigger] planes[i]),
    ensures
        logical_bytes_total(planes, n * KV_GROW_ROWS as nat) == n * segment_bytes_total(planes),
    decreases planes.len(),
{
    if planes.len() == 0 {
        lemma_mul_basics(n as int);
    } else {
        let rest = planes.drop_last();
        assert forall|i: int| 0 <= i < rest.len() implies tiles_segments(#[trigger] rest[i]) by {
            assert(rest[i] == planes[i]);
        }
        lemma_full_total(rest, n);
        lemma_full_plane(planes.last(), n);
        lemma_mul_is_distributive_add(
            n as int,
            segment_bytes_total(rest) as int,
            planes.last().format.size(planes.last().segment_size()) as int,
        );
    }
}

} // verus!
