//! The bindings of whole graphs, one list for each kind of work.

use crate::bindings::{
    bind, bind_if, bind_layer_io, bind_parallel_layer_io, chosen_lanes, lanes_complete, layer_io,
    one, one_if, pairs, parallel_layer_io, BatchIo, Binding, BoundTo, DecodeHandles, SharedIo,
    StepIo,
};
use crate::device::DeviceBuffer;
use crate::graph_inputs::SharedIds;
use crate::seam_kv::SeamKv;
use crate::slot::CacheBuffers;
use crate::weight_plan::TensorId;
use vstd::prelude::*;

verus! {

fn begin() -> (out: Vec<Binding>)
    ensures
        pairs(out@) == Seq::<(TensorId, BoundTo)>::empty(),
{
    let out: Vec<Binding> = Vec::new();
    assert(pairs(out@) =~= Seq::<(TensorId, BoundTo)>::empty());
    out
}

/// The buffers of one chunk of a prompt.
#[derive(Clone, Copy, Debug, PartialEq, Eq, Structural)]
pub struct ChunkIo {
    /// Token ids, or embedded rows.
    pub input: DeviceBuffer,
    /// The residual rows, where the input does not hold them.
    pub resid: Option<DeviceBuffer>,
    pub pos: DeviceBuffer,
    pub pos4: Option<DeviceBuffer>,
    pub ipl: Option<DeviceBuffer>,
    pub wide: Option<DeviceBuffer>,
    pub ple_embd: Option<DeviceBuffer>,
}

impl ChunkIo {
    /// The buffer that the residual rows are carried in from span to span.
    pub open spec fn carried(self) -> DeviceBuffer {
        match self.resid {
            Some(buffer) => buffer,
            None => self.input,
        }
    }
}

/// The bindings of a span of layers of a chunk. The chunk's own wide residual and embedding rows
/// replace the session's.
pub open spec fn chunk_bound(
    h: DecodeHandles,
    n: nat,
    chunk: ChunkIo,
    io: SharedIo,
    caches: CacheBuffers,
) -> Seq<(TensorId, BoundTo)> {
    Seq::empty() + one_if(h.tok_ids, Some(chunk.input)) + one(h.hidden, chunk.carried()) + one(
        h.positions,
        chunk.pos,
    ) + one_if(h.positions4, chunk.pos4) + one_if(h.pl_tok_in, chunk.ipl) + layer_io(
        h,
        io,
        caches,
        n,
    ) + one_if(h.qwen_wide, chunk.wide) + one_if(h.ple_embd, chunk.ple_embd)
}

/// See [`chunk_bound`].
pub fn bind_chunk(
    h: &DecodeHandles,
    n_layer: usize,
    chunk: &ChunkIo,
    io: &SharedIo,
    caches: &CacheBuffers,
) -> (out: Vec<Binding>)
    requires
        h.fits(n_layer as nat),
        caches.fits(n_layer as nat),
        h.weights@.len() <= io.weights@.len(),
    ensures
        pairs(out@) == chunk_bound(*h, n_layer as nat, *chunk, *io, *caches),
{
    let carried: DeviceBuffer = match chunk.resid {
        Some(buffer) => buffer,
        None => chunk.input,
    };
    let mut out: Vec<Binding> = begin();
    bind_if(&mut out, h.tok_ids, Some(chunk.input));
    bind(&mut out, h.hidden, carried);
    bind(&mut out, h.positions, chunk.pos);
    bind_if(&mut out, h.positions4, chunk.pos4);
    bind_if(&mut out, h.pl_tok_in, chunk.ipl);
    bind_layer_io(&mut out, h, n_layer, io, caches);
    bind_if(&mut out, h.qwen_wide, chunk.wide);
    bind_if(&mut out, h.ple_embd, chunk.ple_embd);
    out
}

/// The bindings of one of the two graphs that a step is cut into. What a graph does not have, such as
/// the ids of the second or the logits of the first, is left out.
pub open spec fn span_bound(
    h: DecodeHandles,
    n: nat,
    step: StepIo,
    pos4: Option<DeviceBuffer>,
    io: SharedIo,
    caches: CacheBuffers,
) -> Seq<(TensorId, BoundTo)> {
    Seq::empty() + one_if(h.tok_ids, Some(step.ids)) + one(h.hidden, step.hidden) + one(
        h.positions,
        step.positions,
    ) + one_if(h.positions4, pos4) + layer_io(h, io, caches, n) + one_if(h.logits, Some(step.logits))
        + one_if(h.tok_id, Some(step.token)) + one_if(h.u_in, Some(step.uniform)) + one_if(
        h.h_out,
        step.h_tap,
    )
}

/// See [`span_bound`].
pub fn bind_span(
    h: &DecodeHandles,
    n_layer: usize,
    step: &StepIo,
    pos4: Option<DeviceBuffer>,
    io: &SharedIo,
    caches: &CacheBuffers,
) -> (out: Vec<Binding>)
    requires
        h.fits(n_layer as nat),
        caches.fits(n_layer as nat),
        h.weights@.len() <= io.weights@.len(),
    ensures
        pairs(out@) == span_bound(*h, n_layer as nat, *step, pos4, *io, *caches),
{
    let mut out: Vec<Binding> = begin();
    bind_if(&mut out, h.tok_ids, Some(step.ids));
    bind(&mut out, h.hidden, step.hidden);
    bind(&mut out, h.positions, step.positions);
    bind_if(&mut out, h.positions4, pos4);
    bind_layer_io(&mut out, h, n_layer, io, caches);
    bind_if(&mut out, h.logits, Some(step.logits));
    bind_if(&mut out, h.tok_id, Some(step.token));
    bind_if(&mut out, h.u_in, Some(step.uniform));
    bind_if(&mut out, h.h_out, step.h_tap);
    out
}

/// The buffers of a batch of tokens that are verified.
#[derive(Clone, Copy, Debug, PartialEq, Eq, Structural)]
pub struct VerifyIo {
    pub hidden: DeviceBuffer,
    pub positions: DeviceBuffer,
    pub logits: DeviceBuffer,
    /// Where the device writes the tokens it would have chosen.
    pub chosen: Option<DeviceBuffer>,
    pub rows: Option<DeviceBuffer>,
}

/// The bindings of a batch of tokens that are verified.
pub open spec fn verify_bound(
    h: DecodeHandles,
    n: nat,
    v: VerifyIo,
    io: SharedIo,
    caches: CacheBuffers,
) -> Seq<(TensorId, BoundTo)> {
    Seq::empty() + one(h.hidden, v.hidden) + one(h.positions, v.positions) + layer_io(
        h,
        io,
        caches,
        n,
    ) + one_if(h.logits, Some(v.logits)) + one_if(h.tok_id, v.chosen) + one_if(h.h_out, v.rows)
}

/// See [`verify_bound`].
pub fn bind_verify(
    h: &DecodeHandles,
    n_layer: usize,
    v: &VerifyIo,
    io: &SharedIo,
    caches: &CacheBuffers,
) -> (out: Vec<Binding>)
    requires
        h.fits(n_layer as nat),
        caches.fits(n_layer as nat),
        h.weights@.len() <= io.weights@.len(),
    ensures
        pairs(out@) == verify_bound(*h, n_layer as nat, *v, *io, *caches),
{
    let mut out: Vec<Binding> = begin();
    bind(&mut out, h.hidden, v.hidden);
    bind(&mut out, h.positions, v.positions);
    bind_layer_io(&mut out, h, n_layer, io, caches);
    bind_if(&mut out, h.logits, Some(v.logits));
    bind_if(&mut out, h.tok_id, v.chosen);
    bind_if(&mut out, h.h_out, v.rows);
    out
}

/// The buffers of a canvas step.
#[derive(Clone, Copy, Debug, PartialEq, Eq, Structural)]
pub struct CanvasIo {
    pub hidden: DeviceBuffer,
    pub positions: DeviceBuffer,
    /// Where the step's own logits go.
    pub logits: DeviceBuffer,
    /// The last step's logits, their temperature and the soft embedding, where the canvas is
    /// conditioned.
    pub last_logits: Option<DeviceBuffer>,
    pub temperature: Option<DeviceBuffer>,
    pub soft: Option<DeviceBuffer>,
}

/// The bindings of a canvas step.
pub open spec fn canvas_bound(
    h: DecodeHandles,
    shared: SharedIds,
    soft: Option<TensorId>,
    n: nat,
    c: CanvasIo,
    io: SharedIo,
    caches: CacheBuffers,
) -> Seq<(TensorId, BoundTo)> {
    Seq::empty() + one(h.hidden, c.hidden) + one(h.positions, c.positions) + layer_io(
        h,
        io,
        caches,
        n,
    ) + one_if(shared.sc_logits, c.last_logits) + one_if(shared.temp_inv, c.temperature) + one_if(
        soft,
        c.soft,
    ) + one_if(h.logits, Some(c.logits))
}

/// See [`canvas_bound`].
pub fn bind_canvas(
    h: &DecodeHandles,
    shared: &SharedIds,
    soft: Option<TensorId>,
    n_layer: usize,
    c: &CanvasIo,
    io: &SharedIo,
    caches: &CacheBuffers,
) -> (out: Vec<Binding>)
    requires
        h.fits(n_layer as nat),
        caches.fits(n_layer as nat),
        h.weights@.len() <= io.weights@.len(),
    ensures
        pairs(out@) == canvas_bound(*h, *shared, soft, n_layer as nat, *c, *io, *caches),
{
    let mut out: Vec<Binding> = begin();
    bind(&mut out, h.hidden, c.hidden);
    bind(&mut out, h.positions, c.positions);
    bind_layer_io(&mut out, h, n_layer, io, caches);
    bind_if(&mut out, shared.sc_logits, c.last_logits);
    bind_if(&mut out, shared.temp_inv, c.temperature);
    bind_if(&mut out, soft, c.soft);
    bind_if(&mut out, h.logits, Some(c.logits));
    out
}

/// The buffers of a batch over several sessions.
#[derive(Clone, Copy, Debug, PartialEq, Eq, Structural)]
pub struct CohortIo {
    pub ids: DeviceBuffer,
    pub hidden: DeviceBuffer,
    pub positions: DeviceBuffer,
    pub logits: Option<DeviceBuffer>,
    pub chosen: Option<DeviceBuffer>,
    pub uniforms: Option<DeviceBuffer>,
}

/// The bindings of one of the two graphs of a batch over several sessions.
pub open spec fn cohort_bound(
    h: DecodeHandles,
    n: nat,
    c: CohortIo,
    io: SharedIo,
    caches: CacheBuffers,
    batch: BatchIo,
    peers: Seq<SeamKv>,
    lanes: Seq<usize>,
    independent: bool,
) -> Seq<(TensorId, BoundTo)> {
    Seq::empty() + one_if(h.tok_ids, Some(c.ids)) + one(h.hidden, c.hidden) + one(
        h.positions,
        c.positions,
    ) + parallel_layer_io(h, io, caches, batch, peers, lanes, independent, n) + one_if(
        h.logits,
        c.logits,
    ) + one_if(h.tok_id, c.chosen) + one_if(h.u_in, c.uniforms)
}

/// See [`cohort_bound`].
pub fn bind_cohort(
    h: &DecodeHandles,
    n_layer: usize,
    c: &CohortIo,
    io: &SharedIo,
    caches: &CacheBuffers,
    batch: &BatchIo,
    peers: &Vec<SeamKv>,
    lane_indices: Option<&Vec<usize>>,
    independent: bool,
) -> (out: Vec<Binding>)
    requires
        h.fits(n_layer as nat),
        h.weights@.len() <= io.weights@.len(),
        peers@.len() < usize::MAX,
        lanes_complete(
            *h,
            *io,
            *caches,
            peers@,
            chosen_lanes(lane_indices, peers@.len()),
            n_layer as nat,
        ),
        !independent ==> chosen_lanes(lane_indices, peers@.len()).len() == 1,
    ensures
        pairs(out@) == cohort_bound(
            *h,
            n_layer as nat,
            *c,
            *io,
            *caches,
            *batch,
            peers@,
            chosen_lanes(lane_indices, peers@.len()),
            independent,
        ),
{
    let mut out: Vec<Binding> = begin();
    bind_if(&mut out, h.tok_ids, Some(c.ids));
    bind(&mut out, h.hidden, c.hidden);
    bind(&mut out, h.positions, c.positions);
    bind_parallel_layer_io(
        &mut out,
        h,
        n_layer,
        io,
        caches,
        batch,
        peers,
        lane_indices,
        independent,
    );
    bind_if(&mut out, h.logits, c.logits);
    bind_if(&mut out, h.tok_id, c.chosen);
    bind_if(&mut out, h.u_in, c.uniforms);
    out
}

} // verus!
