//! Which buffer every handle of a graph reads or writes.
//!
//! A graph is executed with a list of bindings; a later binding of a handle replaces an earlier one.
//! The lists are written here once, so that the steps of decoding, verification and prefill cannot
//! drift apart.

use crate::device::DeviceBuffer;
use crate::seam_kv::SeamKv;
use crate::slot::CacheBuffers;
use crate::weight_plan::TensorId;
use vstd::prelude::*;

verus! {

/// The handles of one graph.
pub struct DecodeHandles {
    pub hidden: TensorId,
    pub positions: TensorId,
    /// Positions with four components, on graphs of requests with images.
    pub positions4: Option<TensorId>,
    /// The whole request's position table.
    pub mrope_history: Option<TensorId>,
    pub rope_freqs: Option<TensorId>,
    pub yarn_ff: Option<TensorId>,
    pub pl_tok_in: Option<TensorId>,
    /// Absent on graphs whose logits nothing reads.
    pub logits: Option<TensorId>,
    /// The rows that the head was applied to.
    pub h_out: Option<TensorId>,
    pub tok_ids: Option<TensorId>,
    /// The uniform draw of a sampling step.
    pub u_in: Option<TensorId>,
    /// The token that the device chose.
    pub tok_id: Option<TensorId>,
    pub qwen_wide: Option<TensorId>,
    pub ple_embd: Option<TensorId>,
    pub ple_state: Option<TensorId>,
    pub k_cache: Vec<TensorId>,
    pub v_cache: Vec<TensorId>,
    pub qsa_k_cache: Vec<Option<TensorId>>,
    pub qsa_block_cache: Vec<Option<TensorId>>,
    /// In the order of their declaration, which is that of their upload.
    pub weights: Vec<TensorId>,
}

impl DecodeHandles {
    /// There is a cache handle for each of `n` layers.
    pub open spec fn fits(&self, n: nat) -> bool {
        &&& self.k_cache@.len() == n
        &&& self.v_cache@.len() == n
        &&& self.qsa_k_cache@.len() == n
        &&& self.qsa_block_cache@.len() == n
    }
}

/// What a handle is bound to.
pub enum Bound {
    One(DeviceBuffer),
    /// One buffer for each row of the batch.
    Rows(Vec<DeviceBuffer>),
}

/// See [`Bound`].
pub enum BoundTo {
    One(DeviceBuffer),
    Rows(Seq<DeviceBuffer>),
}

impl View for Bound {
    type V = BoundTo;

    open spec fn view(&self) -> BoundTo {
        match self {
            Bound::One(buffer) => BoundTo::One(*buffer),
            Bound::Rows(buffers) => BoundTo::Rows(buffers@),
        }
    }
}

/// One entry of a list of bindings.
pub struct Binding {
    pub id: TensorId,
    pub to: Bound,
}

/// A list of bindings as a sequence of pairs.
pub open spec fn pairs(bindings: Seq<Binding>) -> Seq<(TensorId, BoundTo)> {
    bindings.map_values(|b: Binding| (b.id, b.to@))
}

/// What a handle is bound to in the end: the last entry for it.
pub open spec fn lookup(bound: Seq<(TensorId, BoundTo)>, id: TensorId) -> Option<BoundTo>
    decreases bound.len(),
{
    if bound.len() == 0 {
        None
    } else if bound.last().0 == id {
        Some(bound.last().1)
    } else {
        lookup(bound.drop_last(), id)
    }
}

pub open spec fn one(id: TensorId, buffer: DeviceBuffer) -> Seq<(TensorId, BoundTo)> {
    seq![(id, BoundTo::One(buffer))]
}

/// An entry where both the handle and the buffer are there.
pub open spec fn one_if(id: Option<TensorId>, buffer: Option<DeviceBuffer>) -> Seq<
    (TensorId, BoundTo),
> {
    match (id, buffer) {
        (Some(id), Some(buffer)) => one(id, buffer),
        _ => Seq::empty(),
    }
}

pub(crate) fn bind(out: &mut Vec<Binding>, id: TensorId, buffer: DeviceBuffer)
    ensures
        pairs(final(out)@) == pairs(old(out)@) + one(id, buffer),
{
    out.push(Binding { id, to: Bound::One(buffer) });
    assert(pairs(out@) =~= pairs(old(out)@) + one(id, buffer));
}

pub(crate) fn bind_if(out: &mut Vec<Binding>, id: Option<TensorId>, buffer: Option<DeviceBuffer>)
    ensures
        pairs(final(out)@) == pairs(old(out)@) + one_if(id, buffer),
{
    match (id, buffer) {
        (Some(id), Some(buffer)) => bind(out, id, buffer),
        _ => {
            assert(pairs(out@) =~= pairs(old(out)@) + Seq::<(TensorId, BoundTo)>::empty());
        },
    }
}

/// The buffers that all graphs of a session share.
pub struct SharedIo {
    pub rope_freqs: Option<DeviceBuffer>,
    pub yarn_ff: Option<DeviceBuffer>,
    pub mrope_history: Option<DeviceBuffer>,
    /// In the order of their upload.
    pub weights: Vec<DeviceBuffer>,
    pub qwen_wide: Option<DeviceBuffer>,
    pub ple_embd: Option<DeviceBuffer>,
    pub ple_state: Option<DeviceBuffer>,
}

/// The cache bindings of one layer.
pub open spec fn layer_bound(h: DecodeHandles, caches: CacheBuffers, l: int) -> Seq<
    (TensorId, BoundTo),
> {
    one(h.k_cache@[l], caches.k@[l]) + one(h.v_cache@[l], caches.v@[l]) + one_if(
        h.qsa_k_cache@[l],
        caches.qsa_raw@[l],
    ) + one_if(h.qsa_block_cache@[l], caches.qsa_block@[l])
}

/// The cache bindings of the first `n` layers.
pub open spec fn layers_bound(h: DecodeHandles, caches: CacheBuffers, n: nat) -> Seq<
    (TensorId, BoundTo),
>
    decreases n,
{
    if n == 0 {
        Seq::empty()
    } else {
        layers_bound(h, caches, (n - 1) as nat) + layer_bound(h, caches, n - 1)
    }
}

/// The bindings of the first `n` weights: the handle with a number, to the buffer with that number.
pub open spec fn weights_bound(ids: Seq<TensorId>, buffers: Seq<DeviceBuffer>, n: nat) -> Seq<
    (TensorId, BoundTo),
>
    decreases n,
{
    if n == 0 {
        Seq::empty()
    } else {
        weights_bound(ids, buffers, (n - 1) as nat) + one(ids[n - 1], buffers[n - 1])
    }
}

/// The bindings that every graph of a session has.
pub open spec fn layer_io(h: DecodeHandles, io: SharedIo, caches: CacheBuffers, n: nat) -> Seq<
    (TensorId, BoundTo),
> {
    one_if(h.rope_freqs, io.rope_freqs) + one_if(h.yarn_ff, io.yarn_ff) + one_if(
        h.mrope_history,
        io.mrope_history,
    ) + layers_bound(h, caches, n) + weights_bound(h.weights@, io.weights@, h.weights@.len())
        + one_if(h.qwen_wide, io.qwen_wide) + one_if(h.ple_embd, io.ple_embd) + one_if(
        h.ple_state,
        io.ple_state,
    )
}

pub(crate) proof fn lemma_join(
    a: Seq<(TensorId, BoundTo)>,
    b: Seq<(TensorId, BoundTo)>,
    c: Seq<(TensorId, BoundTo)>,
)
    ensures
        a + b + c == a + (b + c),
{
    assert(a + b + c =~= a + (b + c));
}

fn bind_layer(out: &mut Vec<Binding>, h: &DecodeHandles, caches: &CacheBuffers, l: usize)
    requires
        h.fits(caches.k@.len()),
        caches.fits(caches.k@.len()),
        l < caches.k@.len(),
    ensures
        pairs(final(out)@) == pairs(old(out)@) + layer_bound(*h, *caches, l as int),
{
    let ghost start = pairs(out@);
    bind(out, h.k_cache[l], caches.k[l]);
    bind(out, h.v_cache[l], caches.v[l]);
    bind_if(out, h.qsa_k_cache[l], caches.qsa_raw[l]);
    bind_if(out, h.qsa_block_cache[l], caches.qsa_block[l]);
    proof {
        let a = one(h.k_cache@[l as int], caches.k@[l as int]);
        let b = one(h.v_cache@[l as int], caches.v@[l as int]);
        let c = one_if(h.qsa_k_cache@[l as int], caches.qsa_raw@[l as int]);
        let d = one_if(h.qsa_block_cache@[l as int], caches.qsa_block@[l as int]);
        lemma_join(start, a, b);
        lemma_join(start, a + b, c);
        lemma_join(start, a + b + c, d);
    }
}

fn bind_layers(out: &mut Vec<Binding>, h: &DecodeHandles, caches: &CacheBuffers, n: usize)
    requires
        h.fits(n as nat),
        caches.fits(n as nat),
    ensures
        pairs(final(out)@) == pairs(old(out)@) + layers_bound(*h, *caches, n as nat),
{
    let ghost start = pairs(out@);
    assert(start =~= start + layers_bound(*h, *caches, 0));
    let mut l: usize = 0;
    while l < n
        invariant
            l <= n,
            h.fits(n as nat),
            caches.fits(n as nat),
            pairs(out@) == start + layers_bound(*h, *caches, l as nat),
        decreases n - l,
    {
        bind_layer(out, h, caches, l);
        proof {
            lemma_join(
                start,
                layers_bound(*h, *caches, l as nat),
                layer_bound(*h, *caches, l as int),
            );
        }
        l = l + 1;
    }
}

fn bind_weights(out: &mut Vec<Binding>, ids: &Vec<TensorId>, buffers: &Vec<DeviceBuffer>)
    requires
        ids@.len() <= buffers@.len(),
    ensures
        pairs(final(out)@) == pairs(old(out)@) + weights_bound(ids@, buffers@, ids@.len()),
{
    let ghost start = pairs(out@);
    assert(start =~= start + weights_bound(ids@, buffers@, 0));
    let mut i: usize = 0;
    while i < ids.len()
        invariant
            i <= ids@.len() <= buffers@.len(),
            pairs(out@) == start + weights_bound(ids@, buffers@, i as nat),
        decreases ids@.len() - i,
    {
        bind(out, ids[i], buffers[i]);
        proof {
            lemma_join(
                start,
                weights_bound(ids@, buffers@, i as nat),
                one(ids@[i as int], buffers@[i as int]),
            );
        }
        i = i + 1;
    }
}

/// Binds what every graph of a session reads: the rotation divisors, the position history, the
/// caches, the weights, and the wide residual and embedding state where the graph has them.
pub fn bind_layer_io(
    out: &mut Vec<Binding>,
    h: &DecodeHandles,
    n_layer: usize,
    io: &SharedIo,
    caches: &CacheBuffers,
)
    requires
        h.fits(n_layer as nat),
        caches.fits(n_layer as nat),
        h.weights@.len() <= io.weights@.len(),
    ensures
        pairs(final(out)@) == pairs(old(out)@) + layer_io(*h, *io, *caches, n_layer as nat),
{
    let ghost start = pairs(out@);
    bind_if(out, h.rope_freqs, io.rope_freqs);
    bind_if(out, h.yarn_ff, io.yarn_ff);
    bind_if(out, h.mrope_history, io.mrope_history);
    bind_layers(out, h, caches, n_layer);
    bind_weights(out, &h.weights, &io.weights);
    bind_if(out, h.qwen_wide, io.qwen_wide);
    bind_if(out, h.ple_embd, io.ple_embd);
    bind_if(out, h.ple_state, io.ple_state);
    proof {
        let a = one_if(h.rope_freqs, io.rope_freqs);
        let b = one_if(h.yarn_ff, io.yarn_ff);
        let c = one_if(h.mrope_history, io.mrope_history);
        let d = layers_bound(*h, *caches, n_layer as nat);
        let e = weights_bound(h.weights@, io.weights@, h.weights@.len());
        let f = one_if(h.qwen_wide, io.qwen_wide);
        let g = one_if(h.ple_embd, io.ple_embd);
        let k = one_if(h.ple_state, io.ple_state);
        lemma_join(start, a, b);
        lemma_join(start, a + b, c);
        lemma_join(start, a + b + c, d);
        lemma_join(start, a + b + c + d, e);
        lemma_join(start, a + b + c + d + e, f);
        lemma_join(start, a + b + c + d + e + f, g);
        lemma_join(start, a + b + c + d + e + f + g, k);
    }
}

/// The caches of a lane: lane 0 is the session that runs the step, lane `i + 1` its `i`-th peer.
pub open spec fn lane_caches(primary: CacheBuffers, peers: Seq<SeamKv>, lane: usize) -> CacheBuffers {
    if lane == 0 {
        primary
    } else {
        peers[lane - 1].caches
    }
}

/// The embedding state of a lane.
pub open spec fn lane_ple_state(
    primary: Option<DeviceBuffer>,
    peers: Seq<SeamKv>,
    lane: usize,
) -> Option<DeviceBuffer> {
    if lane == 0 {
        primary
    } else {
        peers[lane - 1].ple_state_buf
    }
}

/// All lanes of a cohort, in order.
pub open spec fn all_lanes(n_peers: nat) -> Seq<usize> {
    Seq::new(n_peers + 1, |i: int| i as usize)
}

/// Every lane is one of the cohort's.
pub open spec fn lanes_fit(lanes: Seq<usize>, n_peers: nat) -> bool {
    forall|i: int| 0 <= i < lanes.len() ==> (#[trigger] lanes[i]) <= n_peers
}

/// Rows bound one by one, or the only row.
pub open spec fn rows_bound(id: TensorId, rows: Seq<DeviceBuffer>, independent: bool) -> Seq<
    (TensorId, BoundTo),
> {
    if independent {
        seq![(id, BoundTo::Rows(rows))]
    } else {
        one(id, rows[0])
    }
}

pub open spec fn k_rows(
    primary: CacheBuffers,
    peers: Seq<SeamKv>,
    lanes: Seq<usize>,
    l: int,
) -> Seq<DeviceBuffer> {
    Seq::new(lanes.len(), |i: int| lane_caches(primary, peers, lanes[i]).k@[l])
}

pub open spec fn v_rows(
    primary: CacheBuffers,
    peers: Seq<SeamKv>,
    lanes: Seq<usize>,
    l: int,
) -> Seq<DeviceBuffer> {
    Seq::new(lanes.len(), |i: int| lane_caches(primary, peers, lanes[i]).v@[l])
}

pub open spec fn qsa_raw_rows(
    primary: CacheBuffers,
    peers: Seq<SeamKv>,
    lanes: Seq<usize>,
    l: int,
) -> Seq<DeviceBuffer> {
    Seq::new(lanes.len(), |i: int| lane_caches(primary, peers, lanes[i]).qsa_raw@[l]->Some_0)
}

pub open spec fn qsa_block_rows(
    primary: CacheBuffers,
    peers: Seq<SeamKv>,
    lanes: Seq<usize>,
    l: int,
) -> Seq<DeviceBuffer> {
    Seq::new(lanes.len(), |i: int| lane_caches(primary, peers, lanes[i]).qsa_block@[l]->Some_0)
}

pub open spec fn ple_state_rows(
    primary: Option<DeviceBuffer>,
    peers: Seq<SeamKv>,
    lanes: Seq<usize>,
) -> Seq<DeviceBuffer> {
    Seq::new(lanes.len(), |i: int| lane_ple_state(primary, peers, lanes[i])->Some_0)
}

/// The cache bindings of one layer in a batch over several lanes.
pub open spec fn parallel_layer_bound(
    h: DecodeHandles,
    primary: CacheBuffers,
    peers: Seq<SeamKv>,
    lanes: Seq<usize>,
    independent: bool,
    l: int,
) -> Seq<(TensorId, BoundTo)> {
    rows_bound(h.k_cache@[l], k_rows(primary, peers, lanes, l), independent) + rows_bound(
        h.v_cache@[l],
        v_rows(primary, peers, lanes, l),
        independent,
    ) + (match h.qsa_k_cache@[l] {
        Some(id) => rows_bound(id, qsa_raw_rows(primary, peers, lanes, l), independent),
        None => Seq::empty(),
    }) + (match h.qsa_block_cache@[l] {
        Some(id) => rows_bound(id, qsa_block_rows(primary, peers, lanes, l), independent),
        None => Seq::empty(),
    })
}

/// The cache bindings of the first `n` layers in a batch over several lanes.
pub open spec fn parallel_layers_bound(
    h: DecodeHandles,
    primary: CacheBuffers,
    peers: Seq<SeamKv>,
    lanes: Seq<usize>,
    independent: bool,
    n: nat,
) -> Seq<(TensorId, BoundTo)>
    decreases n,
{
    if n == 0 {
        Seq::empty()
    } else {
        parallel_layers_bound(h, primary, peers, lanes, independent, (n - 1) as nat)
            + parallel_layer_bound(h, primary, peers, lanes, independent, n - 1)
    }
}

/// The batch's own buffers, which replace those of the session that runs it.
pub struct BatchIo {
    pub wide: DeviceBuffer,
    pub ple_embd: Option<DeviceBuffer>,
}

/// The bindings of a graph over several lanes.
pub open spec fn parallel_layer_io(
    h: DecodeHandles,
    io: SharedIo,
    caches: CacheBuffers,
    batch: BatchIo,
    peers: Seq<SeamKv>,
    lanes: Seq<usize>,
    independent: bool,
    n: nat,
) -> Seq<(TensorId, BoundTo)> {
    layer_io(h, io, caches, n) + one_if(h.qwen_wide, Some(batch.wide)) + one_if(
        h.ple_embd,
        batch.ple_embd,
    ) + parallel_layers_bound(h, caches, peers, lanes, independent, n) + (match h.ple_state {
        Some(id) => rows_bound(id, ple_state_rows(io.ple_state, peers, lanes), independent),
        None => Seq::empty(),
    })
}

fn bind_row_list(out: &mut Vec<Binding>, id: TensorId, rows: Vec<DeviceBuffer>, independent: bool)
    requires
        !independent ==> rows@.len() == 1,
    ensures
        pairs(final(out)@) == pairs(old(out)@) + rows_bound(id, rows@, independent),
{
    if independent {
        out.push(Binding { id, to: Bound::Rows(rows) });
        assert(pairs(out@) =~= pairs(old(out)@) + rows_bound(id, rows@, independent));
    } else {
        bind(out, id, rows[0]);
    }
}

/// Which cache of a layer.
#[derive(Clone, Copy, Debug, PartialEq, Eq, Structural)]
enum CacheKind {
    K,
    V,
    QsaRaw,
    QsaBlock,
}

spec fn cache_rows(
    kind: CacheKind,
    primary: CacheBuffers,
    peers: Seq<SeamKv>,
    lanes: Seq<usize>,
    l: int,
) -> Seq<DeviceBuffer> {
    match kind {
        CacheKind::K => k_rows(primary, peers, lanes, l),
        CacheKind::V => v_rows(primary, peers, lanes, l),
        CacheKind::QsaRaw => qsa_raw_rows(primary, peers, lanes, l),
        CacheKind::QsaBlock => qsa_block_rows(primary, peers, lanes, l),
    }
}

spec fn cache_present(kind: CacheKind, caches: CacheBuffers, l: int) -> bool {
    match kind {
        CacheKind::K => true,
        CacheKind::V => true,
        CacheKind::QsaRaw => caches.qsa_raw@[l] is Some,
        CacheKind::QsaBlock => caches.qsa_block@[l] is Some,
    }
}

fn cache_buffer(kind: CacheKind, caches: &CacheBuffers, l: usize) -> (b: DeviceBuffer)
    requires
        caches.fits(caches.k@.len()),
        l < caches.k@.len(),
        cache_present(kind, *caches, l as int),
    ensures
        b == (match kind {
            CacheKind::K => caches.k@[l as int],
            CacheKind::V => caches.v@[l as int],
            CacheKind::QsaRaw => caches.qsa_raw@[l as int]->Some_0,
            CacheKind::QsaBlock => caches.qsa_block@[l as int]->Some_0,
        }),
{
    match kind {
        CacheKind::K => caches.k[l],
        CacheKind::V => caches.v[l],
        CacheKind::QsaRaw => caches.qsa_raw[l].unwrap(),
        CacheKind::QsaBlock => caches.qsa_block[l].unwrap(),
    }
}

fn gather_rows(
    kind: CacheKind,
    primary: &CacheBuffers,
    peers: &Vec<SeamKv>,
    lanes: &Vec<usize>,
    l: usize,
    Ghost(n): Ghost<nat>,
) -> (rows: Vec<DeviceBuffer>)
    requires
        l < n,
        primary.fits(n),
        forall|i: int| 0 <= i < peers@.len() ==> (#[trigger] peers@[i]).caches.fits(n),
        lanes_fit(lanes@, peers@.len()),
        forall|i: int|
            0 <= i < lanes@.len() ==> cache_present(
                kind,
                lane_caches(*primary, peers@, #[trigger] lanes@[i]),
                l as int,
            ),
    ensures
        rows@ == cache_rows(kind, *primary, peers@, lanes@, l as int),
{
    let mut rows: Vec<DeviceBuffer> = Vec::new();
    let mut i: usize = 0;
    while i < lanes.len()
        invariant
            i <= lanes@.len(),
            l < n,
            primary.fits(n),
            forall|j: int| 0 <= j < peers@.len() ==> (#[trigger] peers@[j]).caches.fits(n),
            lanes_fit(lanes@, peers@.len()),
            forall|j: int|
                0 <= j < lanes@.len() ==> cache_present(
                    kind,
                    lane_caches(*primary, peers@, #[trigger] lanes@[j]),
                    l as int,
                ),
            rows@ == cache_rows(kind, *primary, peers@, lanes@, l as int).take(i as int),
        decreases lanes@.len() - i,
    {
        let lane: usize = lanes[i];
        assert(cache_present(kind, lane_caches(*primary, peers@, lanes@[i as int]), l as int));
        let buffer: DeviceBuffer = if lane == 0 {
            cache_buffer(kind, primary, l)
        } else {
            cache_buffer(kind, &peers[lane - 1].caches, l)
        };
        rows.push(buffer);
        i = i + 1;
        assert(rows@ =~= cache_rows(kind, *primary, peers@, lanes@, l as int).take(i as int));
    }
    assert(rows@ =~= cache_rows(kind, *primary, peers@, lanes@, l as int));
    rows
}

fn gather_states(primary: Option<DeviceBuffer>, peers: &Vec<SeamKv>, lanes: &Vec<usize>) -> (rows:
    Vec<DeviceBuffer>)
    requires
        lanes_fit(lanes@, peers@.len()),
        forall|i: int|
            0 <= i < lanes@.len() ==> lane_ple_state(primary, peers@, #[trigger] lanes@[i]) is Some,
    ensures
        rows@ == ple_state_rows(primary, peers@, lanes@),
{
    let mut rows: Vec<DeviceBuffer> = Vec::new();
    let mut i: usize = 0;
    while i < lanes.len()
        invariant
            i <= lanes@.len(),
            lanes_fit(lanes@, peers@.len()),
            forall|j: int|
                0 <= j < lanes@.len() ==> lane_ple_state(
                    primary,
                    peers@,
                    #[trigger] lanes@[j],
                ) is Some,
            rows@ == ple_state_rows(primary, peers@, lanes@).take(i as int),
        decreases lanes@.len() - i,
    {
        let lane: usize = lanes[i];
        assert(lane_ple_state(primary, peers@, lanes@[i as int]) is Some);
        let buffer: DeviceBuffer = if lane == 0 {
            primary.unwrap()
        } else {
            peers[lane - 1].ple_state_buf.unwrap()
        };
        rows.push(buffer);
        i = i + 1;
        assert(rows@ =~= ple_state_rows(primary, peers@, lanes@).take(i as int));
    }
    assert(rows@ =~= ple_state_rows(primary, peers@, lanes@));
    rows
}

/// Every lane has the caches that the graph reads, for each of `n` layers.
pub open spec fn lanes_complete(
    h: DecodeHandles,
    io: SharedIo,
    primary: CacheBuffers,
    peers: Seq<SeamKv>,
    lanes: Seq<usize>,
    n: nat,
) -> bool {
    &&& primary.fits(n)
    &&& forall|i: int| 0 <= i < peers.len() ==> (#[trigger] peers[i]).caches.fits(n)
    &&& lanes_fit(lanes, peers.len())
    &&& forall|i: int, l: int|
        #![trigger lanes[i], h.qsa_k_cache@[l]]
        0 <= i < lanes.len() && 0 <= l < n && h.qsa_k_cache@[l] is Some ==> lane_caches(
            primary,
            peers,
            lanes[i],
        ).qsa_raw@[l] is Some
    &&& forall|i: int, l: int|
        #![trigger lanes[i], h.qsa_block_cache@[l]]
        0 <= i < lanes.len() && 0 <= l < n && h.qsa_block_cache@[l] is Some ==> lane_caches(
            primary,
            peers,
            lanes[i],
        ).qsa_block@[l] is Some
    &&& h.ple_state is Some ==> forall|i: int|
        0 <= i < lanes.len() ==> lane_ple_state(io.ple_state, peers, #[trigger] lanes[i]) is Some
}

fn bind_parallel_layer(
    out: &mut Vec<Binding>,
    h: &DecodeHandles,
    io: &SharedIo,
    primary: &CacheBuffers,
    peers: &Vec<SeamKv>,
    lanes: &Vec<usize>,
    independent: bool,
    l: usize,
    n: usize,
)
    requires
        l < n,
        h.fits(n as nat),
        lanes_complete(*h, *io, *primary, peers@, lanes@, n as nat),
        !independent ==> lanes@.len() == 1,
    ensures
        pairs(final(out)@) == pairs(old(out)@) + parallel_layer_bound(
            *h,
            *primary,
            peers@,
            lanes@,
            independent,
            l as int,
        ),
{
    let ghost start = pairs(out@);
    let k: Vec<DeviceBuffer> = gather_rows(CacheKind::K, primary, peers, lanes, l, Ghost(n as nat));
    let v: Vec<DeviceBuffer> = gather_rows(CacheKind::V, primary, peers, lanes, l, Ghost(n as nat));
    bind_row_list(out, h.k_cache[l], k, independent);
    bind_row_list(out, h.v_cache[l], v, independent);
    let ghost a = rows_bound(
        h.k_cache@[l as int],
        k_rows(*primary, peers@, lanes@, l as int),
        independent,
    );
    let ghost b = rows_bound(
        h.v_cache@[l as int],
        v_rows(*primary, peers@, lanes@, l as int),
        independent,
    );
    proof {
        lemma_join(start, a, b);
    }
    let ghost raw = match h.qsa_k_cache@[l as int] {
        Some(id) => rows_bound(
            id,
            qsa_raw_rows(*primary, peers@, lanes@, l as int),
            independent,
        ),
        None => Seq::empty(),
    };
    if let Some(id) = h.qsa_k_cache[l] {
        let rows: Vec<DeviceBuffer> = gather_rows(
            CacheKind::QsaRaw,
            primary,
            peers,
            lanes,
            l,
            Ghost(n as nat),
        );
        bind_row_list(out, id, rows, independent);
    } else {
        assert(start + (a + b) =~= start + (a + b) + raw);
    }
    proof {
        lemma_join(start, a + b, raw);
    }
    let ghost block = match h.qsa_block_cache@[l as int] {
        Some(id) => rows_bound(
            id,
            qsa_block_rows(*primary, peers@, lanes@, l as int),
            independent,
        ),
        None => Seq::empty(),
    };
    if let Some(id) = h.qsa_block_cache[l] {
        let rows: Vec<DeviceBuffer> = gather_rows(
            CacheKind::QsaBlock,
            primary,
            peers,
            lanes,
            l,
            Ghost(n as nat),
        );
        bind_row_list(out, id, rows, independent);
    } else {
        assert(start + (a + b + raw) =~= start + (a + b + raw) + block);
    }
    proof {
        lemma_join(start, a + b + raw, block);
    }
}

fn bind_parallel_layers(
    out: &mut Vec<Binding>,
    h: &DecodeHandles,
    io: &SharedIo,
    primary: &CacheBuffers,
    peers: &Vec<SeamKv>,
    lanes: &Vec<usize>,
    independent: bool,
    n: usize,
)
    requires
        h.fits(n as nat),
        lanes_complete(*h, *io, *primary, peers@, lanes@, n as nat),
        !independent ==> lanes@.len() == 1,
    ensures
        pairs(final(out)@) == pairs(old(out)@) + parallel_layers_bound(
            *h,
            *primary,
            peers@,
            lanes@,
            independent,
            n as nat,
        ),
{
    let ghost start = pairs(out@);
    assert(start =~= start + parallel_layers_bound(*h, *primary, peers@, lanes@, independent, 0));
    let mut l: usize = 0;
    while l < n
        invariant
            l <= n,
            h.fits(n as nat),
            lanes_complete(*h, *io, *primary, peers@, lanes@, n as nat),
            !independent ==> lanes@.len() == 1,
            pairs(out@) == start + parallel_layers_bound(
                *h,
                *primary,
                peers@,
                lanes@,
                independent,
                l as nat,
            ),
        decreases n - l,
    {
        bind_parallel_layer(out, h, io, primary, peers, lanes, independent, l, n);
        proof {
            lemma_join(
                start,
                parallel_layers_bound(*h, *primary, peers@, lanes@, independent, l as nat),
                parallel_layer_bound(*h, *primary, peers@, lanes@, independent, l as int),
            );
        }
        l = l + 1;
    }
}

/// The lanes of a batch: those named, or the whole cohort.
pub open spec fn chosen_lanes(lane_indices: Option<&Vec<usize>>, n_peers: nat) -> Seq<usize> {
    match lane_indices {
        Some(lanes) => lanes@,
        None => all_lanes(n_peers),
    }
}

/// See [`all_lanes`].
fn list_all_lanes(n_peers: usize) -> (lanes: Vec<usize>)
    requires
        n_peers < usize::MAX,
    ensures
        lanes@ == all_lanes(n_peers as nat),
        lanes_fit(lanes@, n_peers as nat),
{
    let mut lanes: Vec<usize> = Vec::new();
    let mut i: usize = 0;
    while i < n_peers + 1
        invariant
            i <= n_peers + 1 <= usize::MAX,
            lanes@.len() == i,
            forall|j: int| 0 <= j < i ==> lanes@[j] == j,
        decreases n_peers + 1 - i,
    {
        lanes.push(i);
        i = i + 1;
    }
    assert(lanes@ =~= all_lanes(n_peers as nat));
    lanes
}

fn bind_lanes(
    out: &mut Vec<Binding>,
    h: &DecodeHandles,
    n_layer: usize,
    io: &SharedIo,
    caches: &CacheBuffers,
    batch: &BatchIo,
    peers: &Vec<SeamKv>,
    lanes: &Vec<usize>,
    independent: bool,
)
    requires
        h.fits(n_layer as nat),
        h.weights@.len() <= io.weights@.len(),
        lanes_complete(*h, *io, *caches, peers@, lanes@, n_layer as nat),
        !independent ==> lanes@.len() == 1,
    ensures
        pairs(final(out)@) == pairs(old(out)@) + parallel_layer_io(
            *h,
            *io,
            *caches,
            *batch,
            peers@,
            lanes@,
            independent,
            n_layer as nat,
        ),
{
    let ghost start = pairs(out@);
    bind_layer_io(out, h, n_layer, io, caches);
    bind_if(out, h.qwen_wide, Some(batch.wide));
    bind_if(out, h.ple_embd, batch.ple_embd);
    bind_parallel_layers(out, h, io, caches, peers, lanes, independent, n_layer);
    let ghost a = layer_io(*h, *io, *caches, n_layer as nat);
    let ghost b = one_if(h.qwen_wide, Some(batch.wide));
    let ghost c = one_if(h.ple_embd, batch.ple_embd);
    let ghost d = parallel_layers_bound(*h, *caches, peers@, lanes@, independent, n_layer as nat);
    let ghost e = match h.ple_state {
        Some(id) => rows_bound(id, ple_state_rows(io.ple_state, peers@, lanes@), independent),
        None => Seq::empty(),
    };
    proof {
        lemma_join(start, a, b);
        lemma_join(start, a + b, c);
        lemma_join(start, a + b + c, d);
    }
    if let Some(id) = h.ple_state {
        let rows: Vec<DeviceBuffer> = gather_states(io.ple_state, peers, lanes);
        bind_row_list(out, id, rows, independent);
    } else {
        assert(start + (a + b + c + d) =~= start + (a + b + c + d) + e);
    }
    proof {
        lemma_join(start, a + b + c + d, e);
    }
}

/// Binds a graph over several lanes. The session that runs the step lends its bindings; its wide
/// residual and embedding rows are replaced by the batch's, and every cache by the lanes' own: one
/// buffer for each row, or, where the rows share a sequence, the one lane's.
pub fn bind_parallel_layer_io(
    out: &mut Vec<Binding>,
    h: &DecodeHandles,
    n_layer: usize,
    io: &SharedIo,
    caches: &CacheBuffers,
    batch: &BatchIo,
    peers: &Vec<SeamKv>,
    lane_indices: Option<&Vec<usize>>,
    independent: bool,
)
    requires
        h.fits(n_layer as nat),
        h.weights@.len() <= io.weights@.len(),
        peers@.len() < usize::MAX,
        lanes_complete(
            *h,
            *io,
            *caches,
            peers@,
            chosen_lanes(lane_indices, peers@.len()),
            n_layer as nat,
        ),
        !independent ==> chosen_lanes(lane_indices, peers@.len()).len() == 1,
    ensures
        pairs(final(out)@) == pairs(old(out)@) + parallel_layer_io(
            *h,
            *io,
            *caches,
            *batch,
            peers@,
            chosen_lanes(lane_indices, peers@.len()),
            independent,
            n_layer as nat,
        ),
{
    match lane_indices {
        Some(lanes) => bind_lanes(
            out,
            h,
            n_layer,
            io,
            caches,
            batch,
            peers,
            lanes,
            independent,
        ),
        None => {
            let lanes: Vec<usize> = list_all_lanes(peers.len());
            bind_lanes(out, h, n_layer, io, caches, batch, peers, &lanes, independent)
        },
    }
}

/// The two inputs of a step, which are independent of each other: the token ids where the graph
/// reads them, and the embedded rows unless the device embeds.
pub open spec fn step_input(
    h: DecodeHandles,
    gpu_embed: bool,
    ids_buf: DeviceBuffer,
    hidden_buf: DeviceBuffer,
) -> Seq<(TensorId, BoundTo)> {
    one_if(h.tok_ids, Some(ids_buf)) + (if gpu_embed {
        Seq::empty()
    } else {
        one(h.hidden, hidden_buf)
    })
}

/// See [`step_input`].
pub fn bind_step_input(
    out: &mut Vec<Binding>,
    h: &DecodeHandles,
    gpu_embed: bool,
    ids_buf: DeviceBuffer,
    hidden_buf: DeviceBuffer,
)
    ensures
        pairs(final(out)@) == pairs(old(out)@) + step_input(*h, gpu_embed, ids_buf, hidden_buf),
{
    let ghost start = pairs(out@);
    bind_if(out, h.tok_ids, Some(ids_buf));
    let ghost a = one_if(h.tok_ids, Some(ids_buf));
    if gpu_embed {
        assert(start + a =~= start + (a + Seq::<(TensorId, BoundTo)>::empty()));
    } else {
        bind(out, h.hidden, hidden_buf);
        proof {
            lemma_join(start, a, one(h.hidden, hidden_buf));
        }
    }
}

/// The buffers of a decode step of one session.
pub struct StepIo {
    pub ids: DeviceBuffer,
    pub hidden: DeviceBuffer,
    pub positions: DeviceBuffer,
    pub ipl: Option<DeviceBuffer>,
    pub logits: DeviceBuffer,
    /// Where the device writes the token it chose.
    pub token: DeviceBuffer,
    pub uniform: DeviceBuffer,
    pub h_tap: Option<DeviceBuffer>,
}

/// The bindings of a decode step of one session.
pub open spec fn decode_step(
    h: DecodeHandles,
    step: StepIo,
    io: SharedIo,
    caches: CacheBuffers,
    gpu_embed: bool,
    n: nat,
) -> Seq<(TensorId, BoundTo)> {
    step_input(h, gpu_embed, step.ids, step.hidden) + one(h.positions, step.positions) + one_if(
        h.pl_tok_in,
        step.ipl,
    ) + layer_io(h, io, caches, n) + one_if(h.logits, Some(step.logits)) + one_if(
        h.tok_id,
        Some(step.token),
    ) + one_if(h.u_in, Some(step.uniform)) + one_if(h.h_out, step.h_tap)
}

/// Binds a whole decode step of one session.
pub fn bind_decode_step(
    h: &DecodeHandles,
    n_layer: usize,
    step: &StepIo,
    io: &SharedIo,
    caches: &CacheBuffers,
    gpu_embed: bool,
) -> (out: Vec<Binding>)
    requires
        h.fits(n_layer as nat),
        caches.fits(n_layer as nat),
        h.weights@.len() <= io.weights@.len(),
        h.logits is Some,
    ensures
        pairs(out@) == decode_step(*h, *step, *io, *caches, gpu_embed, n_layer as nat),
{
    let mut out: Vec<Binding> = Vec::new();
    let ghost none = Seq::<(TensorId, BoundTo)>::empty();
    assert(pairs(out@) =~= none);
    bind_step_input(&mut out, h, gpu_embed, step.ids, step.hidden);
    let ghost first = step_input(*h, gpu_embed, step.ids, step.hidden);
    assert(none + first =~= first);
    bind(&mut out, h.positions, step.positions);
    bind_if(&mut out, h.pl_tok_in, step.ipl);
    bind_layer_io(&mut out, h, n_layer, io, caches);
    bind_if(&mut out, h.logits, Some(step.logits));
    bind_if(&mut out, h.tok_id, Some(step.token));
    bind_if(&mut out, h.u_in, Some(step.uniform));
    bind_if(&mut out, h.h_out, step.h_tap);
    out
}

/// The handle is bound nowhere in the list.
pub open spec fn absent(bound: Seq<(TensorId, BoundTo)>, id: TensorId) -> bool {
    forall|i: int| 0 <= i < bound.len() ==> (#[trigger] bound[i]).0 != id
}

/// Bindings of other handles do not change what a handle is bound to.
pub proof fn lemma_lookup_before(
    before: Seq<(TensorId, BoundTo)>,
    after: Seq<(TensorId, BoundTo)>,
    id: TensorId,
)
    requires
        absent(after, id),
    ensures
        lookup(before + after, id) == lookup(before, id),
    decreases after.len(),
{
    if after.len() == 0 {
        assert(before + after =~= before);
    } else {
        assert((before + after).last() == after.last());
        assert((before + after).drop_last() =~= before + after.drop_last());
        assert(after[after.len() - 1].0 != id);
        assert forall|i: int| 0 <= i < after.drop_last().len() implies (
        #[trigger] after.drop_last()[i]).0 != id by {
            assert(after.drop_last()[i] == after[i]);
        }
        lemma_lookup_before(before, after.drop_last(), id);
    }
}

proof fn lemma_lookup_one(before: Seq<(TensorId, BoundTo)>, id: TensorId, to: BoundTo)
    ensures
        lookup(before + seq![(id, to)], id) == Some(to),
{
    assert((before + seq![(id, to)]).last() == (id, to));
}

proof fn lemma_weight_bound(
    before: Seq<(TensorId, BoundTo)>,
    ids: Seq<TensorId>,
    buffers: Seq<DeviceBuffer>,
    n: nat,
    i: int,
)
    requires
        0 <= i < n <= ids.len() <= buffers.len(),
        ids.no_duplicates(),
    ensures
        lookup(before + weights_bound(ids, buffers, n), ids[i]) == Some(BoundTo::One(buffers[i])),
    decreases n,
{
    let rest = weights_bound(ids, buffers, (n - 1) as nat);
    let last = one(ids[n - 1], buffers[n - 1]);
    lemma_join(before, rest, last);
    if i == n - 1 {
        lemma_lookup_one(before + rest, ids[i], BoundTo::One(buffers[i]));
    } else {
        assert(ids[n - 1] != ids[i]);
        lemma_lookup_before(before + rest, last, ids[i]);
        lemma_weight_bound(before, ids, buffers, (n - 1) as nat, i);
    }
}

/// The handle with a number reads the buffer that was uploaded under that number.
pub proof fn law_each_weight_reads_its_upload(
    h: DecodeHandles,
    io: SharedIo,
    caches: CacheBuffers,
    n: nat,
    i: int,
)
    requires
        h.weights@.no_duplicates(),
        0 <= i < h.weights@.len() <= io.weights@.len(),
        h.qwen_wide != Some(h.weights@[i]),
        h.ple_embd != Some(h.weights@[i]),
        h.ple_state != Some(h.weights@[i]),
    ensures
        lookup(layer_io(h, io, caches, n), h.weights@[i]) == Some(BoundTo::One(io.weights@[i])),
{
    let id = h.weights@[i];
    let before = one_if(h.rope_freqs, io.rope_freqs) + one_if(h.yarn_ff, io.yarn_ff) + one_if(
        h.mrope_history,
        io.mrope_history,
    ) + layers_bound(h, caches, n);
    let e = weights_bound(h.weights@, io.weights@, h.weights@.len());
    let f = one_if(h.qwen_wide, io.qwen_wide);
    let g = one_if(h.ple_embd, io.ple_embd);
    let k = one_if(h.ple_state, io.ple_state);
    lemma_weight_bound(before, h.weights@, io.weights@, h.weights@.len(), i);
    assert(absent(f, id) && absent(g, id) && absent(k, id));
    lemma_lookup_before(before + e, f, id);
    lemma_lookup_before(before + e + f, g, id);
    lemma_lookup_before(before + e + f + g, k, id);
}

/// The cache handles of a graph are distinct from each other and from its embedding state.
pub open spec fn caches_distinct(h: DecodeHandles, n: nat) -> bool {
    &&& h.fits(n)
    &&& forall|a: int, b: int|
        #![trigger h.k_cache@[a], h.k_cache@[b]]
        0 <= a < b < n ==> h.k_cache@[a] != h.k_cache@[b]
    &&& forall|a: int, b: int|
        #![trigger h.v_cache@[a], h.v_cache@[b]]
        0 <= a < b < n ==> h.v_cache@[a] != h.v_cache@[b]
    &&& forall|a: int, b: int|
        #![trigger h.k_cache@[a], h.v_cache@[b]]
        0 <= a < n && 0 <= b < n ==> h.k_cache@[a] != h.v_cache@[b]
    &&& forall|a: int, b: int|
        #![trigger h.k_cache@[a], h.qsa_k_cache@[b]]
        0 <= a < n && 0 <= b < n ==> h.qsa_k_cache@[b] != Some(h.k_cache@[a])
    &&& forall|a: int, b: int|
        #![trigger h.k_cache@[a], h.qsa_block_cache@[b]]
        0 <= a < n && 0 <= b < n ==> h.qsa_block_cache@[b] != Some(h.k_cache@[a])
    &&& forall|a: int, b: int|
        #![trigger h.v_cache@[a], h.qsa_k_cache@[b]]
        0 <= a < n && 0 <= b < n ==> h.qsa_k_cache@[b] != Some(h.v_cache@[a])
    &&& forall|a: int, b: int|
        #![trigger h.v_cache@[a], h.qsa_block_cache@[b]]
        0 <= a < n && 0 <= b < n ==> h.qsa_block_cache@[b] != Some(h.v_cache@[a])
    &&& forall|a: int|
        0 <= a < n ==> h.ple_state != Some(#[trigger] h.k_cache@[a])
    &&& forall|a: int|
        0 <= a < n ==> h.ple_state != Some(#[trigger] h.v_cache@[a])
}

proof fn lemma_layer_keeps(
    before: Seq<(TensorId, BoundTo)>,
    h: DecodeHandles,
    primary: CacheBuffers,
    peers: Seq<SeamKv>,
    lanes: Seq<usize>,
    independent: bool,
    l: int,
    id: TensorId,
)
    requires
        h.k_cache@[l] != id,
        h.v_cache@[l] != id,
        h.qsa_k_cache@[l] != Some(id),
        h.qsa_block_cache@[l] != Some(id),
    ensures
        lookup(
            before + parallel_layer_bound(h, primary, peers, lanes, independent, l),
            id,
        ) == lookup(before, id),
{
    let bound = parallel_layer_bound(h, primary, peers, lanes, independent, l);
    assert(absent(bound, id));
    lemma_lookup_before(before, bound, id);
}

proof fn lemma_layer_rows(
    before: Seq<(TensorId, BoundTo)>,
    h: DecodeHandles,
    primary: CacheBuffers,
    peers: Seq<SeamKv>,
    lanes: Seq<usize>,
    independent: bool,
    l: int,
)
    requires
        h.k_cache@[l] != h.v_cache@[l],
        h.qsa_k_cache@[l] != Some(h.k_cache@[l]),
        h.qsa_k_cache@[l] != Some(h.v_cache@[l]),
        h.qsa_block_cache@[l] != Some(h.k_cache@[l]),
        h.qsa_block_cache@[l] != Some(h.v_cache@[l]),
    ensures
        lookup(
            before + parallel_layer_bound(h, primary, peers, lanes, independent, l),
            h.k_cache@[l],
        ) == Some(rows_bound(h.k_cache@[l], k_rows(primary, peers, lanes, l), independent)[0].1),
        lookup(
            before + parallel_layer_bound(h, primary, peers, lanes, independent, l),
            h.v_cache@[l],
        ) == Some(rows_bound(h.v_cache@[l], v_rows(primary, peers, lanes, l), independent)[0].1),
{
    let a = rows_bound(h.k_cache@[l], k_rows(primary, peers, lanes, l), independent);
    let b = rows_bound(h.v_cache@[l], v_rows(primary, peers, lanes, l), independent);
    let c = match h.qsa_k_cache@[l] {
        Some(id) => rows_bound(id, qsa_raw_rows(primary, peers, lanes, l), independent),
        None => Seq::empty(),
    };
    let d = match h.qsa_block_cache@[l] {
        Some(id) => rows_bound(id, qsa_block_rows(primary, peers, lanes, l), independent),
        None => Seq::empty(),
    };
    let k = h.k_cache@[l];
    let v = h.v_cache@[l];
    lemma_join(before, a, b);
    lemma_join(before, a + b, c);
    lemma_join(before, a + b + c, d);
    assert(a =~= seq![(k, a[0].1)]);
    assert(b =~= seq![(v, b[0].1)]);
    lemma_lookup_one(before, k, a[0].1);
    lemma_lookup_one(before + a, v, b[0].1);
    assert(absent(b, k) && absent(c, k) && absent(d, k));
    assert(absent(c, v) && absent(d, v));
    lemma_lookup_before(before + a, b, k);
    lemma_lookup_before(before + a + b, c, k);
    lemma_lookup_before(before + a + b + c, d, k);
    lemma_lookup_before(before + a + b, c, v);
    lemma_lookup_before(before + a + b + c, d, v);
}

proof fn lemma_layers_rows(
    before: Seq<(TensorId, BoundTo)>,
    h: DecodeHandles,
    primary: CacheBuffers,
    peers: Seq<SeamKv>,
    lanes: Seq<usize>,
    independent: bool,
    n: nat,
    m: nat,
    l: int,
)
    requires
        0 <= l < m <= n,
        caches_distinct(h, n),
    ensures
        lookup(
            before + parallel_layers_bound(h, primary, peers, lanes, independent, m),
            h.k_cache@[l],
        ) == Some(rows_bound(h.k_cache@[l], k_rows(primary, peers, lanes, l), independent)[0].1),
        lookup(
            before + parallel_layers_bound(h, primary, peers, lanes, independent, m),
            h.v_cache@[l],
        ) == Some(rows_bound(h.v_cache@[l], v_rows(primary, peers, lanes, l), independent)[0].1),
    decreases m,
{
    let rest = parallel_layers_bound(h, primary, peers, lanes, independent, (m - 1) as nat);
    let last = parallel_layer_bound(h, primary, peers, lanes, independent, m - 1);
    lemma_join(before, rest, last);
    if l == m - 1 {
        lemma_layer_rows(before + rest, h, primary, peers, lanes, independent, l);
    } else {
        lemma_layers_rows(before, h, primary, peers, lanes, independent, n, (m - 1) as nat, l);
        assert(h.k_cache@[l] != h.k_cache@[m - 1]);
        assert(h.v_cache@[l] != h.v_cache@[m - 1]);
        lemma_layer_keeps(
            before + rest,
            h,
            primary,
            peers,
            lanes,
            independent,
            m - 1,
            h.k_cache@[l],
        );
        lemma_layer_keeps(
            before + rest,
            h,
            primary,
            peers,
            lanes,
            independent,
            m - 1,
            h.v_cache@[l],
        );
    }
}

/// In a batch over independent lanes every row reads and writes the caches of its own lane, though
/// the session that runs the step was bound first.
pub proof fn law_lanes_keep_their_own_caches(
    h: DecodeHandles,
    io: SharedIo,
    caches: CacheBuffers,
    batch: BatchIo,
    peers: Seq<SeamKv>,
    lanes: Seq<usize>,
    n: nat,
    l: int,
)
    requires
        0 <= l < n,
        caches_distinct(h, n),
    ensures
        lookup(
            parallel_layer_io(h, io, caches, batch, peers, lanes, true, n),
            h.k_cache@[l],
        ) == Some(BoundTo::Rows(k_rows(caches, peers, lanes, l))),
        lookup(
            parallel_layer_io(h, io, caches, batch, peers, lanes, true, n),
            h.v_cache@[l],
        ) == Some(BoundTo::Rows(v_rows(caches, peers, lanes, l))),
{
    let before = layer_io(h, io, caches, n) + one_if(h.qwen_wide, Some(batch.wide)) + one_if(
        h.ple_embd,
        batch.ple_embd,
    );
    let rows = parallel_layers_bound(h, caches, peers, lanes, true, n);
    let state = match h.ple_state {
        Some(id) => rows_bound(id, ple_state_rows(io.ple_state, peers, lanes), true),
        None => Seq::empty(),
    };
    lemma_layers_rows(before, h, caches, peers, lanes, true, n, n, l);
    assert(absent(state, h.k_cache@[l]));
    assert(absent(state, h.v_cache@[l]));
    lemma_lookup_before(before + rows, state, h.k_cache@[l]);
    lemma_lookup_before(before + rows, state, h.v_cache@[l]);
}

} // verus!
