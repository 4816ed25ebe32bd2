//! That whatever a graph reads from outside is bound before it is run.

use crate::bindings::{
    decode_step, layer_bound, layer_io, layers_bound, lookup, one, one_if, parallel_layer_io,
    parallel_layers_bound, ple_state_rows, rows_bound, step_input, weights_bound, BatchIo, BoundTo,
    DecodeHandles, SharedIo, StepIo,
};
use crate::device::DeviceBuffer;
use crate::graph::{cache_ids, soft_place, GraphModel, GraphStep, Tensors};
use crate::graph_inputs::{
    cache_base, caches_below, declares, layer_decls, leading_decls, weights_and_soft,
    CacheDecl, DeclKind, SharedIds,
};
use crate::seam_kv::SeamKv;
use crate::slot::CacheBuffers;
use crate::step_bindings::{
    canvas_bound, chunk_bound, cohort_bound, span_bound, verify_bound, CanvasIo, ChunkIo, CohortIo,
    VerifyIo,
};
use crate::weight_handles::model_at;
use crate::weight_plan::TensorId;
use vstd::prelude::*;

verus! {

/// The list has an entry for the handle.
pub open spec fn binds(list: Seq<(TensorId, BoundTo)>, id: TensorId) -> bool {
    exists|i: int| 0 <= i < list.len() && (#[trigger] list[i]).0 == id
}

proof fn lemma_bound_is_found(list: Seq<(TensorId, BoundTo)>, id: TensorId)
    requires
        binds(list, id),
    ensures
        lookup(list, id) is Some,
    decreases list.len(),
{
    if list.last().0 != id {
        let i = choose|i: int| 0 <= i < list.len() && (#[trigger] list[i]).0 == id;
        assert(list.drop_last()[i] == list[i]);
        lemma_bound_is_found(list.drop_last(), id);
    }
}

/// A joined list binds what either part does.
proof fn lemma_joined_binds(a: Seq<(TensorId, BoundTo)>, b: Seq<(TensorId, BoundTo)>)
    ensures
        forall|id: TensorId| binds(a, id) ==> #[trigger] binds(a + b, id),
        forall|id: TensorId| binds(b, id) ==> #[trigger] binds(a + b, id),
{
    assert forall|id: TensorId| binds(a, id) implies #[trigger] binds(a + b, id) by {
        let i = choose|i: int| 0 <= i < a.len() && (#[trigger] a[i]).0 == id;
        assert((a + b)[i] == a[i]);
    }
    assert forall|id: TensorId| binds(b, id) implies #[trigger] binds(a + b, id) by {
        let i = choose|i: int| 0 <= i < b.len() && (#[trigger] b[i]).0 == id;
        assert((a + b)[a.len() + i] == b[i]);
    }
}

proof fn lemma_one_binds(id: TensorId, buffer: DeviceBuffer)
    ensures
        binds(one(id, buffer), id),
{
    assert(one(id, buffer)[0].0 == id);
}

proof fn lemma_one_if_binds(id: Option<TensorId>, buffer: Option<DeviceBuffer>)
    ensures
        id is Some && buffer is Some ==> binds(one_if(id, buffer), id->Some_0),
{
    if id is Some && buffer is Some {
        lemma_one_binds(id->Some_0, buffer->Some_0);
    }
}

/// The tensor is a cache of layer `l`.
pub open spec fn names_cache(h: DecodeHandles, l: int, t: TensorId) -> bool {
    ||| h.k_cache@[l] == t
    ||| h.v_cache@[l] == t
    ||| h.qsa_k_cache@[l] == Some(t)
    ||| h.qsa_block_cache@[l] == Some(t)
}

/// Every index cache that the graph has is there.
pub open spec fn caches_ready(h: DecodeHandles, caches: CacheBuffers, n: nat) -> bool {
    &&& h.fits(n)
    &&& caches.fits(n)
    &&& forall|l: int|
        0 <= l < n && (#[trigger] h.qsa_k_cache@[l]) is Some ==> caches.qsa_raw@[l] is Some
    &&& forall|l: int|
        0 <= l < n && (#[trigger] h.qsa_block_cache@[l]) is Some ==> caches.qsa_block@[l] is Some
}

proof fn lemma_caches_bound(
    h: DecodeHandles,
    caches: CacheBuffers,
    size: nat,
    n: nat,
    l: int,
    t: TensorId,
)
    requires
        caches_ready(h, caches, size),
        0 <= l < n <= size,
        names_cache(h, l, t),
    ensures
        binds(layers_bound(h, caches, n), t),
    decreases n,
{
    let rest = layers_bound(h, caches, (n - 1) as nat);
    lemma_joined_binds(rest, layer_bound(h, caches, n - 1));
    if l < n - 1 {
        lemma_caches_bound(h, caches, size, (n - 1) as nat, l, t);
    } else {
        let a = one(h.k_cache@[l], caches.k@[l]);
        let b = one(h.v_cache@[l], caches.v@[l]);
        let c = one_if(h.qsa_k_cache@[l], caches.qsa_raw@[l]);
        let d = one_if(h.qsa_block_cache@[l], caches.qsa_block@[l]);
        lemma_one_binds(h.k_cache@[l], caches.k@[l]);
        lemma_one_binds(h.v_cache@[l], caches.v@[l]);
        lemma_one_if_binds(h.qsa_k_cache@[l], caches.qsa_raw@[l]);
        lemma_one_if_binds(h.qsa_block_cache@[l], caches.qsa_block@[l]);
        lemma_joined_binds(a, b);
        lemma_joined_binds(a + b, c);
        lemma_joined_binds(a + b + c, d);
    }
}

/// What the graphs of a session share is there, as far as the graph has it.
pub open spec fn shared_ready(h: DecodeHandles, io: SharedIo) -> bool {
    &&& h.rope_freqs is Some ==> io.rope_freqs is Some
    &&& h.yarn_ff is Some ==> io.yarn_ff is Some
    &&& h.mrope_history is Some ==> io.mrope_history is Some
    &&& h.qwen_wide is Some ==> io.qwen_wide is Some
    &&& h.ple_embd is Some ==> io.ple_embd is Some
    &&& h.ple_state is Some ==> io.ple_state is Some
}

/// The tensor is one that the session's own list binds.
pub open spec fn names_shared(h: DecodeHandles, n: nat, t: TensorId) -> bool {
    ||| h.rope_freqs == Some(t)
    ||| h.yarn_ff == Some(t)
    ||| h.mrope_history == Some(t)
    ||| h.qwen_wide == Some(t)
    ||| h.ple_embd == Some(t)
    ||| h.ple_state == Some(t)
    ||| exists|l: int| 0 <= l < n && #[trigger] names_cache(h, l, t)
}

proof fn lemma_shared_bound(
    h: DecodeHandles,
    io: SharedIo,
    caches: CacheBuffers,
    n: nat,
    t: TensorId,
)
    requires
        caches_ready(h, caches, n),
        shared_ready(h, io),
        names_shared(h, n, t),
    ensures
        binds(layer_io(h, io, caches, n), t),
{
    let a = one_if(h.rope_freqs, io.rope_freqs);
    let b = one_if(h.yarn_ff, io.yarn_ff);
    let c = one_if(h.mrope_history, io.mrope_history);
    let d = layers_bound(h, caches, n);
    let e = weights_bound(h.weights@, io.weights@, h.weights@.len());
    let f = one_if(h.qwen_wide, io.qwen_wide);
    let g = one_if(h.ple_embd, io.ple_embd);
    let k = one_if(h.ple_state, io.ple_state);
    lemma_one_if_binds(h.rope_freqs, io.rope_freqs);
    lemma_one_if_binds(h.yarn_ff, io.yarn_ff);
    lemma_one_if_binds(h.mrope_history, io.mrope_history);
    lemma_one_if_binds(h.qwen_wide, io.qwen_wide);
    lemma_one_if_binds(h.ple_embd, io.ple_embd);
    lemma_one_if_binds(h.ple_state, io.ple_state);
    if exists|l: int| 0 <= l < n && #[trigger] names_cache(h, l, t) {
        let l = choose|l: int| 0 <= l < n && #[trigger] names_cache(h, l, t);
        lemma_caches_bound(h, caches, n, n, l, t);
    }
    lemma_joined_binds(a, b);
    lemma_joined_binds(a + b, c);
    lemma_joined_binds(a + b + c, d);
    lemma_joined_binds(a + b + c + d, e);
    lemma_joined_binds(a + b + c + d + e, f);
    lemma_joined_binds(a + b + c + d + e + f, g);
    lemma_joined_binds(a + b + c + d + e + f + g, k);
}

/// The tensor is an input of the step itself.
pub open spec fn names_own(h: DecodeHandles, t: TensorId) -> bool {
    ||| h.tok_ids == Some(t)
    ||| h.positions == t
    ||| h.positions4 == Some(t)
    ||| h.pl_tok_in == Some(t)
    ||| h.u_in == Some(t)
}

proof fn lemma_cache_named(h: DecodeHandles, lead: nat, caches: Seq<CacheDecl>, n: nat, t: TensorId)
    requires
        cache_ids(h).numbered(lead, caches, caches.len()),
        n <= caches.len(),
        lead <= t < lead + caches_below(caches, n).len(),
    ensures
        exists|l: int| 0 <= l < n && #[trigger] names_cache(h, l, t),
    decreases n,
{
    let before = caches_below(caches, (n - 1) as nat).len();
    if t < lead + before {
        lemma_cache_named(h, lead, caches, (n - 1) as nat, t);
        let l = choose|l: int| 0 <= l < n - 1 && #[trigger] names_cache(h, l, t);
        assert(names_cache(h, l, t));
    } else {
        assert(cache_ids(h).numbered_at(lead, caches, n - 1));
        assert(cache_base(lead, caches, (n - 1) as nat) == lead + before);
        assert(layer_decls(caches[n - 1]).len() == 2 + (if caches[n - 1].qsa_raw is Some {
            1int
        } else {
            0
        }) + (if caches[n - 1].qsa_block is Some {
            1int
        } else {
            0
        }));
        assert(names_cache(h, n - 1, t));
    }
}

/// What stands behind the caches is a weight.
proof fn lemma_weight_kinds(m: GraphModel, step: GraphStep, t: Tensors, i: int)
    requires
        ({
            let r = m.request(step);
            let tail = weights_and_soft(
                m.weights@,
                r.soft_place(soft_place(t.head)),
                (m.cfg.vocab * m.cfg.n_embd) as usize,
            );
            &&& 0 <= i < tail.len()
            &&& step.conditioned() ==> soft_place(t.head) <= m.weights@.len()
        }),
    ensures
        ({
            let r = m.request(step);
            let tail = weights_and_soft(
                m.weights@,
                r.soft_place(soft_place(t.head)),
                (m.cfg.vocab * m.cfg.n_embd) as usize,
            );
            tail[i].kind == DeclKind::Weight
        }),
{
}

/// The tensor is an input of canvas conditioning.
pub open spec fn names_conditioning(ids: SharedIds, t: TensorId) -> bool {
    ids.sc_logits == Some(t) || ids.temp_inv == Some(t)
}

/// An input of a graph is one of its handles, or conditions a canvas; the rows that the device makes
/// are not among the inputs.
proof fn lemma_inputs_are_handles(m: GraphModel, step: GraphStep, t: Tensors, id: TensorId)
    requires
        m.agrees(),
        t.declared(m, step),
        t.handed_out(m, step),
        step.conditioned() ==> m.shape.diffusion_gemma,
        t.inputs().contains(id),
    ensures
        names_own(t.handles, id) || names_shared(t.handles, m.layers@.len(), id) || (
        t.handles.hidden == id && !(step.use_ids && step.span is None)) || (step.conditioned()
            && names_conditioning(t.shared, id)),
{
    reveal(Tensors::declared);
    reveal(Tensors::handed_out);
    reveal(declares);
    let r = m.request(step);
    let lead = leading_decls(m.cfg, r);
    let caches = caches_below(m.caches@, m.caches@.len());
    if t.results.uniform != Some(id) {
        if id < lead.len() {
            assert(t.rows.names(id) || t.shared.names(id));
        } else if id < lead.len() + caches.len() {
            lemma_cache_named(t.handles, lead.len(), m.caches@, m.caches@.len(), id);
        } else {
            assert(step.conditioned() ==> soft_place(t.head) <= m.weights@.len()) by {
                reveal(model_at);
            }
            lemma_weight_kinds(m, step, t, id - lead.len() - caches.len());
        }
    }
}

/// Every input of a whole decode step is bound: together with what a graph reads, nothing is read that
/// was not put there.
pub proof fn law_every_input_of_a_decode_step_is_bound(
    m: GraphModel,
    step: GraphStep,
    t: Tensors,
    own: StepIo,
    io: SharedIo,
    caches: CacheBuffers,
    id: TensorId,
)
    requires
        m.agrees(),
        t.declared(m, step),
        t.handed_out(m, step),
        !step.conditioned(),
        step.span is None,
        step.mrope is None,
        caches_ready(t.handles, caches, m.layers@.len()),
        shared_ready(t.handles, io),
        t.handles.pl_tok_in is Some ==> own.ipl is Some,
        t.inputs().contains(id),
    ensures
        lookup(decode_step(t.handles, own, io, caches, step.use_ids, m.layers@.len()), id) is Some,
{
    let h = t.handles;
    let n = m.layers@.len();
    lemma_inputs_are_handles(m, step, t, id);
    assert(h.positions4 is None) by {
        reveal(Tensors::declared);
        reveal(Tensors::handed_out);
    }
    let first = step_input(h, step.use_ids, own.ids, own.hidden);
    let ids = one_if(h.tok_ids, Some(own.ids));
    lemma_one_if_binds(h.tok_ids, Some(own.ids));
    if !step.use_ids {
        lemma_one_binds(h.hidden, own.hidden);
        lemma_joined_binds(ids, one(h.hidden, own.hidden));
    } else {
        lemma_joined_binds(ids, Seq::empty());
    }
    let b = one(h.positions, own.positions);
    let c = one_if(h.pl_tok_in, own.ipl);
    let d = layer_io(h, io, caches, n);
    let e = one_if(h.logits, Some(own.logits));
    let f = one_if(h.tok_id, Some(own.token));
    let g = one_if(h.u_in, Some(own.uniform));
    let k = one_if(h.h_out, own.h_tap);
    lemma_one_binds(h.positions, own.positions);
    lemma_one_if_binds(h.pl_tok_in, own.ipl);
    lemma_one_if_binds(h.u_in, Some(own.uniform));
    if names_shared(h, n, id) {
        lemma_shared_bound(h, io, caches, n, id);
    }
    lemma_joined_binds(first, b);
    lemma_joined_binds(first + b, c);
    lemma_joined_binds(first + b + c, d);
    lemma_joined_binds(first + b + c + d, e);
    lemma_joined_binds(first + b + c + d + e, f);
    lemma_joined_binds(first + b + c + d + e + f, g);
    lemma_joined_binds(first + b + c + d + e + f + g, k);
    let list = decode_step(h, own, io, caches, step.use_ids, n);
    assert(binds(list, id));
    lemma_bound_is_found(list, id);
}

/// Every input of a span of layers of a chunk is bound.
pub proof fn law_every_input_of_a_chunk_is_bound(
    m: GraphModel,
    step: GraphStep,
    t: Tensors,
    own: ChunkIo,
    io: SharedIo,
    caches: CacheBuffers,
    id: TensorId,
)
    requires
        m.agrees(),
        t.declared(m, step),
        t.handed_out(m, step),
        t.scratched(m, step),
        !step.conditioned(),
        step.logits_rows == 0,
        caches_ready(t.handles, caches, m.layers@.len()),
        shared_ready(t.handles, io),
        t.handles.positions4 is Some ==> own.pos4 is Some,
        t.handles.pl_tok_in is Some ==> own.ipl is Some,
        t.inputs().contains(id),
    ensures
        lookup(chunk_bound(t.handles, m.layers@.len(), own, io, caches), id) is Some,
{
    let h = t.handles;
    let n = m.layers@.len();
    lemma_inputs_are_handles(m, step, t, id);
    assert(h.u_in is None) by {
        reveal(Tensors::scratched);
        reveal(Tensors::handed_out);
    }
    let z = Seq::<(TensorId, BoundTo)>::empty();
    let a = one_if(h.tok_ids, Some(own.input));
    let b = one(h.hidden, own.carried());
    let c = one(h.positions, own.pos);
    let d = one_if(h.positions4, own.pos4);
    let e = one_if(h.pl_tok_in, own.ipl);
    let f = layer_io(h, io, caches, n);
    let g = one_if(h.qwen_wide, own.wide);
    let k = one_if(h.ple_embd, own.ple_embd);
    lemma_one_if_binds(h.tok_ids, Some(own.input));
    lemma_one_binds(h.hidden, own.carried());
    lemma_one_binds(h.positions, own.pos);
    lemma_one_if_binds(h.positions4, own.pos4);
    lemma_one_if_binds(h.pl_tok_in, own.ipl);
    if names_shared(h, n, id) {
        lemma_shared_bound(h, io, caches, n, id);
    }
    lemma_joined_binds(z, a);
    lemma_joined_binds(z + a, b);
    lemma_joined_binds(z + a + b, c);
    lemma_joined_binds(z + a + b + c, d);
    lemma_joined_binds(z + a + b + c + d, e);
    lemma_joined_binds(z + a + b + c + d + e, f);
    lemma_joined_binds(z + a + b + c + d + e + f, g);
    lemma_joined_binds(z + a + b + c + d + e + f + g, k);
    let list = chunk_bound(h, n, own, io, caches);
    assert(binds(list, id));
    lemma_bound_is_found(list, id);
}

/// Every input of either graph of a split step is bound.
pub proof fn law_every_input_of_a_split_step_is_bound(
    m: GraphModel,
    step: GraphStep,
    t: Tensors,
    own: StepIo,
    pos4: Option<DeviceBuffer>,
    io: SharedIo,
    caches: CacheBuffers,
    id: TensorId,
)
    requires
        m.agrees(),
        t.declared(m, step),
        t.handed_out(m, step),
        !step.conditioned(),
        m.cfg.n_embd_per_layer == 0,
        caches_ready(t.handles, caches, m.layers@.len()),
        shared_ready(t.handles, io),
        t.handles.positions4 is Some ==> pos4 is Some,
        t.inputs().contains(id),
    ensures
        lookup(span_bound(t.handles, m.layers@.len(), own, pos4, io, caches), id) is Some,
{
    let h = t.handles;
    let n = m.layers@.len();
    lemma_inputs_are_handles(m, step, t, id);
    assert(h.pl_tok_in is None) by {
        reveal(Tensors::declared);
        reveal(Tensors::handed_out);
    }
    let z = Seq::<(TensorId, BoundTo)>::empty();
    let a = one_if(h.tok_ids, Some(own.ids));
    let b = one(h.hidden, own.hidden);
    let c = one(h.positions, own.positions);
    let d = one_if(h.positions4, pos4);
    let e = layer_io(h, io, caches, n);
    let f = one_if(h.logits, Some(own.logits));
    let g = one_if(h.tok_id, Some(own.token));
    let k = one_if(h.u_in, Some(own.uniform));
    let l = one_if(h.h_out, own.h_tap);
    lemma_one_if_binds(h.tok_ids, Some(own.ids));
    lemma_one_binds(h.hidden, own.hidden);
    lemma_one_binds(h.positions, own.positions);
    lemma_one_if_binds(h.positions4, pos4);
    lemma_one_if_binds(h.u_in, Some(own.uniform));
    if names_shared(h, n, id) {
        lemma_shared_bound(h, io, caches, n, id);
    }
    lemma_joined_binds(z, a);
    lemma_joined_binds(z + a, b);
    lemma_joined_binds(z + a + b, c);
    lemma_joined_binds(z + a + b + c, d);
    lemma_joined_binds(z + a + b + c + d, e);
    lemma_joined_binds(z + a + b + c + d + e, f);
    lemma_joined_binds(z + a + b + c + d + e + f, g);
    lemma_joined_binds(z + a + b + c + d + e + f + g, k);
    lemma_joined_binds(z + a + b + c + d + e + f + g + k, l);
    let list = span_bound(h, n, own, pos4, io, caches);
    assert(binds(list, id));
    lemma_bound_is_found(list, id);
}

/// Every input of a batch of tokens that are verified is bound.
pub proof fn law_every_input_of_a_verification_is_bound(
    m: GraphModel,
    step: GraphStep,
    t: Tensors,
    own: VerifyIo,
    io: SharedIo,
    caches: CacheBuffers,
    id: TensorId,
)
    requires
        m.agrees(),
        t.declared(m, step),
        t.handed_out(m, step),
        t.scratched(m, step),
        !step.conditioned(),
        !step.use_ids,
        !step.draw,
        step.mrope is None,
        !m.cfg.deepseek4,
        m.cfg.n_embd_per_layer == 0,
        caches_ready(t.handles, caches, m.layers@.len()),
        shared_ready(t.handles, io),
        t.inputs().contains(id),
    ensures
        lookup(verify_bound(t.handles, m.layers@.len(), own, io, caches), id) is Some,
{
    let h = t.handles;
    let n = m.layers@.len();
    lemma_inputs_are_handles(m, step, t, id);
    assert(h.tok_ids is None && h.positions4 is None && h.pl_tok_in is None && h.u_in is None) by {
        reveal(Tensors::declared);
        reveal(Tensors::scratched);
        reveal(Tensors::handed_out);
    }
    let z = Seq::<(TensorId, BoundTo)>::empty();
    let a = one(h.hidden, own.hidden);
    let b = one(h.positions, own.positions);
    let c = layer_io(h, io, caches, n);
    let d = one_if(h.logits, Some(own.logits));
    let e = one_if(h.tok_id, own.chosen);
    let f = one_if(h.h_out, own.rows);
    lemma_one_binds(h.hidden, own.hidden);
    lemma_one_binds(h.positions, own.positions);
    if names_shared(h, n, id) {
        lemma_shared_bound(h, io, caches, n, id);
    }
    lemma_joined_binds(z, a);
    lemma_joined_binds(z + a, b);
    lemma_joined_binds(z + a + b, c);
    lemma_joined_binds(z + a + b + c, d);
    lemma_joined_binds(z + a + b + c + d, e);
    lemma_joined_binds(z + a + b + c + d + e, f);
    let list = verify_bound(h, n, own, io, caches);
    assert(binds(list, id));
    lemma_bound_is_found(list, id);
}

/// Every input of either graph of a batch over several sessions is bound.
pub proof fn law_every_input_of_a_cohort_is_bound(
    m: GraphModel,
    step: GraphStep,
    t: Tensors,
    own: CohortIo,
    io: SharedIo,
    caches: CacheBuffers,
    batch: BatchIo,
    peers: Seq<SeamKv>,
    lanes: Seq<usize>,
    id: TensorId,
)
    requires
        m.agrees(),
        t.declared(m, step),
        t.handed_out(m, step),
        !step.conditioned(),
        step.mrope is None,
        m.cfg.n_embd_per_layer == 0,
        caches_ready(t.handles, caches, m.layers@.len()),
        shared_ready(t.handles, io),
        t.handles.u_in is Some ==> own.uniforms is Some,
        t.inputs().contains(id),
    ensures
        lookup(
            cohort_bound(
                t.handles,
                m.layers@.len(),
                own,
                io,
                caches,
                batch,
                peers,
                lanes,
                step.independent,
            ),
            id,
        ) is Some,
{
    let h = t.handles;
    let n = m.layers@.len();
    lemma_inputs_are_handles(m, step, t, id);
    assert(h.positions4 is None && h.pl_tok_in is None) by {
        reveal(Tensors::declared);
        reveal(Tensors::handed_out);
    }
    let z = Seq::<(TensorId, BoundTo)>::empty();
    let a = one_if(h.tok_ids, Some(own.ids));
    let b = one(h.hidden, own.hidden);
    let c = one(h.positions, own.positions);
    let d = parallel_layer_io(h, io, caches, batch, peers, lanes, step.independent, n);
    let e = one_if(h.logits, own.logits);
    let f = one_if(h.tok_id, own.chosen);
    let g = one_if(h.u_in, own.uniforms);
    lemma_one_if_binds(h.tok_ids, Some(own.ids));
    lemma_one_binds(h.hidden, own.hidden);
    lemma_one_binds(h.positions, own.positions);
    lemma_one_if_binds(h.u_in, own.uniforms);
    if names_shared(h, n, id) {
        let first = layer_io(h, io, caches, n);
        let wide = one_if(h.qwen_wide, Some(batch.wide));
        let embd = one_if(h.ple_embd, batch.ple_embd);
        let rows = parallel_layers_bound(h, caches, peers, lanes, step.independent, n);
        let state = match h.ple_state {
            Some(id) => rows_bound(
                id,
                ple_state_rows(io.ple_state, peers, lanes),
                step.independent,
            ),
            None => Seq::empty(),
        };
        lemma_shared_bound(h, io, caches, n, id);
        lemma_joined_binds(first, wide);
        lemma_joined_binds(first + wide, embd);
        lemma_joined_binds(first + wide + embd, rows);
        lemma_joined_binds(first + wide + embd + rows, state);
        assert(binds(d, id));
    }
    lemma_joined_binds(z, a);
    lemma_joined_binds(z + a, b);
    lemma_joined_binds(z + a + b, c);
    lemma_joined_binds(z + a + b + c, d);
    lemma_joined_binds(z + a + b + c + d, e);
    lemma_joined_binds(z + a + b + c + d + e, f);
    lemma_joined_binds(z + a + b + c + d + e + f, g);
    let list = cohort_bound(h, n, own, io, caches, batch, peers, lanes, step.independent);
    assert(binds(list, id));
    lemma_bound_is_found(list, id);
}

/// Every input of a canvas step is bound, those of its conditioning among them.
pub proof fn law_every_input_of_a_canvas_step_is_bound(
    m: GraphModel,
    step: GraphStep,
    t: Tensors,
    own: CanvasIo,
    io: SharedIo,
    caches: CacheBuffers,
    id: TensorId,
)
    requires
        m.agrees(),
        t.declared(m, step),
        t.handed_out(m, step),
        t.scratched(m, step),
        step.conditioned() ==> m.shape.diffusion_gemma,
        !step.use_ids,
        !step.draw,
        step.mrope is None,
        !m.cfg.deepseek4,
        m.cfg.n_embd_per_layer == 0,
        caches_ready(t.handles, caches, m.layers@.len()),
        shared_ready(t.handles, io),
        t.shared.sc_logits is Some ==> own.last_logits is Some,
        t.shared.temp_inv is Some ==> own.temperature is Some,
        t.inputs().contains(id),
    ensures
        lookup(
            canvas_bound(t.handles, t.shared, t.soft, m.layers@.len(), own, io, caches),
            id,
        ) is Some,
{
    let h = t.handles;
    let ids = t.shared;
    let n = m.layers@.len();
    lemma_inputs_are_handles(m, step, t, id);
    assert(h.tok_ids is None && h.positions4 is None && h.pl_tok_in is None && h.u_in is None) by {
        reveal(Tensors::declared);
        reveal(Tensors::scratched);
        reveal(Tensors::handed_out);
    }
    let z = Seq::<(TensorId, BoundTo)>::empty();
    let a = one(h.hidden, own.hidden);
    let b = one(h.positions, own.positions);
    let c = layer_io(h, io, caches, n);
    let d = one_if(ids.sc_logits, own.last_logits);
    let e = one_if(ids.temp_inv, own.temperature);
    let f = one_if(t.soft, own.soft);
    let g = one_if(h.logits, Some(own.logits));
    lemma_one_binds(h.hidden, own.hidden);
    lemma_one_binds(h.positions, own.positions);
    lemma_one_if_binds(ids.sc_logits, own.last_logits);
    lemma_one_if_binds(ids.temp_inv, own.temperature);
    if names_shared(h, n, id) {
        lemma_shared_bound(h, io, caches, n, id);
    }
    lemma_joined_binds(z, a);
    lemma_joined_binds(z + a, b);
    lemma_joined_binds(z + a + b, c);
    lemma_joined_binds(z + a + b + c, d);
    lemma_joined_binds(z + a + b + c + d, e);
    lemma_joined_binds(z + a + b + c + d + e, f);
    lemma_joined_binds(z + a + b + c + d + e + f, g);
    let list = canvas_bound(h, ids, t.soft, n, own, io, caches);
    assert(binds(list, id));
    lemma_bound_is_found(list, id);
}

} // verus!
