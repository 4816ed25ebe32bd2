//! That every buffer has room for what is put in it.

use crate::batch_io::{batch_fits, chunk_buffers, cohort_buffers, ple_row};
use crate::config::{lemma_ceil_div, lemma_size_monotone, Config};
use crate::device::{AllocRequest, BufferUsage};
use crate::segmented_kv::{lemma_first_plane, PlaneKind, PlaneLayout, KV_GROW_ROWS};
use crate::slot_alloc::{io_fits, io_of, layer_request, LayerBytes, LayerRequests, LazyPlanes};
use crate::speculative::VerifyRequest;
use vstd::arithmetic::mul::lemma_mul_inequality;
use vstd::prelude::*;

verus! {

/// The size of a buffer of fixed length.
pub open spec fn size_of(r: AllocRequest) -> int {
    match r {
        AllocRequest::Fixed { bytes, .. } => bytes as int,
        AllocRequest::Segmented { spec } => spec.logical_bytes as int,
    }
}

/// A plane that keeps a row for each token is reserved with room for the whole context, and its
/// segments reach as far: the least number of them that covers it, each of as many rows.
pub proof fn law_a_reservation_covers_the_context(plane: PlaneLayout, max_ctx: nat, tokens: nat)
    requires
        plane.valid(),
        plane.segment_fits(),
        plane.depth_fits(max_ctx),
        plane.tokens_per_row == 1,
        tokens <= max_ctx <= usize::MAX,
    ensures
        ({
            let r = plane.reservation(max_ctx);
            let row = plane.row_elems as nat;
            &&& plane.format.size(tokens * row) <= r.logical_bytes
            &&& max_ctx >= 1 ==> r.logical_bytes == plane.format.size(max_ctx * row)
            &&& r.segment_elements == KV_GROW_ROWS * row
            &&& r.segment_bytes == plane.format.size(r.segment_elements as nat)
            &&& max_ctx <= r.max_segments * KV_GROW_ROWS < max_ctx + KV_GROW_ROWS
        }),
{
    let row = plane.row_elems as nat;
    let rows = plane.logical_rows(max_ctx);
    assert(max_ctx / 1 == max_ctx);
    assert(KV_GROW_ROWS as nat / 1 == KV_GROW_ROWS as nat);
    assert(tokens <= rows);
    lemma_mul_inequality(tokens as int, rows as int, row as int);
    lemma_size_monotone(plane.format, tokens * row, rows * row);
    lemma_ceil_div(max_ctx, KV_GROW_ROWS as nat);
}

/// The caches that are asked for a layer are as large as the layer's static sizes say, or, where
/// the layer has a plane of the kind, are reserved as that plane; an index cache is asked for
/// exactly where it has a size.
pub proof fn law_a_layer_asks_for_its_own_caches(
    lazy: Option<LazyPlanes>,
    l: int,
    bytes: LayerBytes,
    r: LayerRequests,
)
    requires
        0 <= l <= usize::MAX,
        layer_request(lazy, l, bytes) == Ok::<LayerRequests, crate::error::Error>(r),
    ensures
        r.qsa_raw is Some <==> bytes.qsa_raw > 0,
        r.qsa_block is Some <==> bytes.qsa_block > 0,
        lazy is None ==> {
            &&& r.k == AllocRequest::Fixed { bytes: bytes.k, usage: BufferUsage::KvCache }
            &&& r.v == AllocRequest::Fixed { bytes: bytes.v, usage: BufferUsage::KvCache }
            &&& r.qsa_raw is Some ==> size_of(r.qsa_raw->Some_0) == bytes.qsa_raw
            &&& r.qsa_block is Some ==> size_of(r.qsa_block->Some_0) == bytes.qsa_block
        },
        lazy matches Some(planes) ==> {
            &&& reserved(planes, l, PlaneKind::K, bytes.k, r.k)
            &&& reserved(planes, l, PlaneKind::V, bytes.v, r.v)
            &&& r.qsa_raw matches Some(raw) ==> reserved(
                planes,
                l,
                PlaneKind::QsaRaw,
                bytes.qsa_raw,
                raw,
            )
            &&& r.qsa_block matches Some(block) ==> reserved(
                planes,
                l,
                PlaneKind::QsaBlock,
                bytes.qsa_block,
                block,
            )
        },
{
    if let Some(lazy) = lazy {
        lemma_first_plane(lazy.planes, l as usize, PlaneKind::K);
        lemma_first_plane(lazy.planes, l as usize, PlaneKind::V);
        lemma_first_plane(lazy.planes, l as usize, PlaneKind::QsaRaw);
        lemma_first_plane(lazy.planes, l as usize, PlaneKind::QsaBlock);
    }
}

/// What is asked for is the reservation of a plane of this layer and kind, or a fixed buffer where
/// there is no such plane.
pub open spec fn reserved(
    lazy: LazyPlanes,
    l: int,
    kind: PlaneKind,
    bytes: usize,
    r: AllocRequest,
) -> bool {
    match r {
        AllocRequest::Fixed { bytes: n, usage } => n == bytes && usage == BufferUsage::KvCache
            && forall|i: int|
            0 <= i < lazy.planes.len() ==> (#[trigger] lazy.planes[i]).layer != l
                || lazy.planes[i].kind != kind,
        AllocRequest::Segmented { spec } => exists|p: PlaneLayout|
            lazy.planes.contains(p) && p.layer == l && p.kind == kind && spec
                == #[trigger] p.reservation(lazy.max_ctx as nat),
    }
}

/// The buffers of a step hold one row of four-byte elements each: the residual, the position, the
/// input of every layer, the logits of the vocabulary, the residual streams, the n-gram row and its
/// history.
pub proof fn law_a_steps_buffers_hold_a_row(cfg: Config, host_ipl: bool)
    requires
        io_fits(cfg),
    ensures
        ({
            let r = io_of(cfg, host_ipl);
            let ngram = (cfg.ple_ngram_size - 1) * cfg.ple_heads_per_ngram * cfg.ple_head_dim;
            let history = (cfg.ple_conv_kernel - 1) * cfg.ple_ngram_size;
            &&& size_of(r.hidden) == 4 * cfg.n_embd
            &&& size_of(r.pos) == 4
            &&& size_of(r.logits) == 4 * cfg.vocab
            &&& r.ipl is Some <==> host_ipl
            &&& r.ipl matches Some(ipl) ==> size_of(ipl) == 4 * (cfg.layers@.len() * (
            if cfg.n_embd_per_layer == 0 {
                1
            } else {
                cfg.n_embd_per_layer as int
            }))
            &&& r.wide is Some <==> cfg.qwen4exp
            &&& r.ple_embd is Some <==> cfg.qwen4exp
            &&& r.ple_state is Some <==> cfg.qwen4exp
            &&& r.wide matches Some(wide) ==> size_of(wide) == 4 * (cfg.hc_mult * cfg.n_embd)
            &&& r.ple_embd matches Some(ple) ==> size_of(ple) == 4 * ngram
            &&& r.ple_state matches Some(state) ==> size_of(state) == 4 * (history * cfg.hc_mult
                * cfg.n_embd)
        }),
{
    let n = cfg.layers@.len() as int;
    let width = if cfg.n_embd_per_layer == 0 {
        1
    } else {
        cfg.n_embd_per_layer as int
    };
    assert(0 <= n * width) by (nonlinear_arith)
        requires
            n >= 0,
            width >= 0,
    ;
    if cfg.qwen4exp {
        let (a, b, c) = (
            cfg.ple_ngram_size - 1,
            cfg.ple_heads_per_ngram as int,
            cfg.ple_head_dim as int,
        );
        assert(0 <= a * b * c) by (nonlinear_arith)
            requires
                a >= 0,
                b >= 0,
                c >= 0,
        ;
        let (d, e, f, g) = (
            cfg.ple_conv_kernel - 1,
            cfg.ple_ngram_size as int,
            cfg.hc_mult as int,
            cfg.n_embd as int,
        );
        assert(0 <= d * e * f * g) by (nonlinear_arith)
            requires
                d >= 0,
                e >= 0,
                f >= 0,
                g >= 0,
        ;
        assert(0 <= f * g) by (nonlinear_arith)
            requires
                f >= 0,
                g >= 0,
        ;
    }
}

/// The buffers of a chunk hold its rows: token ids, or rows of the residual where the host embeds;
/// and positions of one or of four components.
pub proof fn law_a_chunks_buffers_hold_its_rows(cfg: Config, rows: int, embeds: bool, images: bool)
    requires
        rows >= 0,
        batch_fits(cfg, rows),
    ensures
        ({
            let r = chunk_buffers(cfg, rows, embeds, images);
            &&& size_of(r.input) == (if embeds {
                4 * rows
            } else {
                4 * (rows * cfg.n_embd)
            })
            &&& r.resid is Some <==> embeds
            &&& r.resid matches Some(x) ==> size_of(x) == 4 * (rows * cfg.n_embd)
            &&& size_of(r.pos) == 4 * rows
            &&& r.pos4 is Some <==> images
            &&& r.pos4 matches Some(x) ==> size_of(x) == 16 * rows
            &&& r.wide is Some <==> cfg.qwen4exp
            &&& r.wide matches Some(x) ==> size_of(x) == 4 * (rows * cfg.hc_mult * cfg.n_embd)
            &&& r.ple_embd is Some <==> cfg.qwen4exp
            &&& r.ple_embd matches Some(x) ==> size_of(x) == 4 * (rows * ((cfg.ple_ngram_size - 1)
                * cfg.ple_heads_per_ngram * cfg.ple_head_dim))
        }),
{
    lemma_rows_positive(cfg, rows);
}

/// The buffers of a cohort hold its rows.
pub proof fn law_a_cohorts_buffers_hold_its_rows(cfg: Config, rows: int)
    requires
        rows >= 0,
        cfg.qwen4exp,
        batch_fits(cfg, rows),
    ensures
        ({
            let r = cohort_buffers(cfg, rows);
            &&& size_of(r.ids) == 4 * rows
            &&& size_of(r.pos) == 4 * rows
            &&& size_of(r.hidden) == 4 * (rows * cfg.n_embd)
            &&& size_of(r.wide) == 4 * (rows * cfg.hc_mult * cfg.n_embd)
            &&& size_of(r.ple_embd) == 4 * (rows * ((cfg.ple_ngram_size - 1)
                * cfg.ple_heads_per_ngram * cfg.ple_head_dim))
        }),
{
    lemma_rows_positive(cfg, rows);
}

proof fn lemma_rows_positive(cfg: Config, rows: int)
    requires
        rows >= 0,
        batch_fits(cfg, rows),
    ensures
        0 <= rows * cfg.n_embd,
        cfg.qwen4exp ==> 0 <= rows * cfg.hc_mult * cfg.n_embd && 0 <= rows * ple_row(cfg),
{
    let (e, h) = (cfg.n_embd as int, cfg.hc_mult as int);
    assert(0 <= rows * e && 0 <= rows * h * e) by (nonlinear_arith)
        requires
            rows >= 0,
            e >= 0,
            h >= 0,
    ;
    if cfg.qwen4exp {
        let (a, b, c) = (
            cfg.ple_ngram_size - 1,
            cfg.ple_heads_per_ngram as int,
            cfg.ple_head_dim as int,
        );
        assert(0 <= rows * (a * b * c)) by (nonlinear_arith)
            requires
                rows >= 0,
                a >= 0,
                b >= 0,
                c >= 0,
        ;
    }
}

/// The buffers of a verification hold the rows behind what is resident: embedded rows, positions
/// and logits, and where they are asked for the head's rows and one token of each.
pub proof fn law_a_verifications_buffers_hold_its_rows(v: VerifyRequest)
    requires
        v.sizes_fit(),
    ensures
        ({
            let list = v.buffers();
            let rows = v.prompt_len - v.start;
            &&& list.len() == 3 + (if v.wants_rows {
                1int
            } else {
                0
            }) + (if v.device_ids {
                1int
            } else {
                0
            })
            &&& size_of(list[0]) == 4 * (rows * v.n_embd)
            &&& size_of(list[1]) == 4 * rows
            &&& size_of(list[2]) == 4 * (rows * v.vocab)
            &&& v.wants_rows ==> size_of(list[3]) == 4 * (rows * v.n_embd)
            &&& v.device_ids ==> size_of(list[list.len() - 1]) == 4 * rows
        }),
{
    let (r, e, v0) = (v.rows(), v.n_embd as int, v.vocab as int);
    assert(0 <= r * e && 0 <= r * v0) by (nonlinear_arith)
        requires
            r >= 0,
            e >= 0,
            v0 >= 0,
    ;
}

} // verus!
