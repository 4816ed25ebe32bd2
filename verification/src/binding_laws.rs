//! That every tensor of a graph is bound to the buffer that holds it.

use crate::bindings::{
    decode_step, layer_bound, layer_io, layers_bound, one, one_if, step_input, weights_bound,
    BoundTo, DecodeHandles, SharedIo, StepIo,
};
use crate::device::DeviceBuffer;
use crate::graph_inputs::SharedIds;
use crate::slot::CacheBuffers;
use crate::step_bindings::{
    canvas_bound, chunk_bound, span_bound, verify_bound, CanvasIo, ChunkIo, VerifyIo,
};
use crate::weight_plan::TensorId;
use vstd::prelude::*;

verus! {

/// The tensor is bound to the buffer.
pub open spec fn binds(list: Seq<(TensorId, BoundTo)>, id: TensorId, buffer: DeviceBuffer) -> bool {
    list.contains((id, BoundTo::One(buffer)))
}

/// The tensor is bound to the buffer, where the graph has the one and the step the other.
pub open spec fn binds_if(
    list: Seq<(TensorId, BoundTo)>,
    id: Option<TensorId>,
    buffer: Option<DeviceBuffer>,
) -> bool {
    id is Some && buffer is Some ==> binds(list, id->Some_0, buffer->Some_0)
}

/// Whatever is bound in either of two lists is bound in both together.
proof fn lemma_joined(a: Seq<(TensorId, BoundTo)>, b: Seq<(TensorId, BoundTo)>)
    ensures
        forall|id: TensorId, buffer: DeviceBuffer|
            binds(a, id, buffer) || binds(b, id, buffer) ==> #[trigger] binds(a + b, id, buffer),
{
    assert forall|id: TensorId, buffer: DeviceBuffer|
        binds(a, id, buffer) || binds(b, id, buffer) implies #[trigger] binds(a + b, id, buffer) by {
        let x = (id, BoundTo::One(buffer));
        if binds(a, id, buffer) {
            let i = choose|i: int| 0 <= i < a.len() && a[i] == x;
            assert((a + b)[i] == x);
        } else {
            let i = choose|i: int| 0 <= i < b.len() && b[i] == x;
            assert((a + b)[a.len() + i] == x);
        }
    }
}

proof fn lemma_one(id: TensorId, buffer: DeviceBuffer)
    ensures
        binds(one(id, buffer), id, buffer),
{
    assert(one(id, buffer)[0] == (id, BoundTo::One(buffer)));
}

proof fn lemma_one_if(id: Option<TensorId>, buffer: Option<DeviceBuffer>)
    ensures
        binds_if(one_if(id, buffer), id, buffer),
{
    if id is Some && buffer is Some {
        lemma_one(id->Some_0, buffer->Some_0);
    }
}

proof fn lemma_layer(h: DecodeHandles, caches: CacheBuffers, l: int)
    ensures
        ({
            let list = layer_bound(h, caches, l);
            &&& binds(list, h.k_cache@[l], caches.k@[l])
            &&& binds(list, h.v_cache@[l], caches.v@[l])
            &&& binds_if(list, h.qsa_k_cache@[l], caches.qsa_raw@[l])
            &&& binds_if(list, h.qsa_block_cache@[l], caches.qsa_block@[l])
        }),
{
    let a = one(h.k_cache@[l], caches.k@[l]);
    let b = one(h.v_cache@[l], caches.v@[l]);
    let c = one_if(h.qsa_k_cache@[l], caches.qsa_raw@[l]);
    let d = one_if(h.qsa_block_cache@[l], caches.qsa_block@[l]);
    lemma_one(h.k_cache@[l], caches.k@[l]);
    lemma_one(h.v_cache@[l], caches.v@[l]);
    lemma_one_if(h.qsa_k_cache@[l], caches.qsa_raw@[l]);
    lemma_one_if(h.qsa_block_cache@[l], caches.qsa_block@[l]);
    lemma_joined(a, b);
    lemma_joined(a + b, c);
    lemma_joined(a + b + c, d);
}

proof fn lemma_layers(h: DecodeHandles, caches: CacheBuffers, n: nat, l: int)
    requires
        0 <= l < n,
    ensures
        ({
            let list = layers_bound(h, caches, n);
            &&& binds(list, h.k_cache@[l], caches.k@[l])
            &&& binds(list, h.v_cache@[l], caches.v@[l])
            &&& binds_if(list, h.qsa_k_cache@[l], caches.qsa_raw@[l])
            &&& binds_if(list, h.qsa_block_cache@[l], caches.qsa_block@[l])
        }),
    decreases n,
{
    let m = (n - 1) as nat;
    lemma_joined(layers_bound(h, caches, m), layer_bound(h, caches, n - 1));
    if l == n - 1 {
        lemma_layer(h, caches, l);
    } else {
        lemma_layers(h, caches, m, l);
    }
}

proof fn lemma_weights(ids: Seq<TensorId>, buffers: Seq<DeviceBuffer>, n: nat, i: int)
    requires
        0 <= i < n,
    ensures
        binds(weights_bound(ids, buffers, n), ids[i], buffers[i]),
    decreases n,
{
    let m = (n - 1) as nat;
    lemma_joined(weights_bound(ids, buffers, m), one(ids[n - 1], buffers[n - 1]));
    if i == n - 1 {
        lemma_one(ids[i], buffers[i]);
    } else {
        lemma_weights(ids, buffers, m, i);
    }
}

/// What every graph of a slot shares is bound: each layer's caches to the slot's caches of that
/// layer, keys to keys and values to values; each weight to its own buffer; and tables, streams and
/// n-gram rows to theirs.
pub open spec fn shares(
    list: Seq<(TensorId, BoundTo)>,
    h: DecodeHandles,
    io: SharedIo,
    caches: CacheBuffers,
    n: nat,
) -> bool {
    &&& forall|l: int|
        #![trigger h.k_cache@[l]]
        #![trigger caches.k@[l]]
        0 <= l < n ==> {
            &&& binds(list, h.k_cache@[l], caches.k@[l])
            &&& binds(list, h.v_cache@[l], caches.v@[l])
            &&& binds_if(list, h.qsa_k_cache@[l], caches.qsa_raw@[l])
            &&& binds_if(list, h.qsa_block_cache@[l], caches.qsa_block@[l])
        }
    &&& forall|i: int|
        0 <= i < h.weights@.len() ==> binds(list, #[trigger] h.weights@[i], io.weights@[i])
    &&& binds_if(list, h.rope_freqs, io.rope_freqs)
    &&& binds_if(list, h.yarn_ff, io.yarn_ff)
    &&& binds_if(list, h.mrope_history, io.mrope_history)
    &&& binds_if(list, h.qwen_wide, io.qwen_wide)
    &&& binds_if(list, h.ple_embd, io.ple_embd)
    &&& binds_if(list, h.ple_state, io.ple_state)
}

proof fn lemma_shares_joined(
    a: Seq<(TensorId, BoundTo)>,
    b: Seq<(TensorId, BoundTo)>,
    h: DecodeHandles,
    io: SharedIo,
    caches: CacheBuffers,
    n: nat,
)
    requires
        shares(a, h, io, caches, n) || shares(b, h, io, caches, n),
    ensures
        shares(a + b, h, io, caches, n),
{
    lemma_joined(a, b);
}

/// See [`shares`].
pub proof fn law_a_slots_buffers_are_bound(
    h: DecodeHandles,
    io: SharedIo,
    caches: CacheBuffers,
    n: nat,
)
    ensures
        shares(layer_io(h, io, caches, n), h, io, caches, n),
{
    let a = one_if(h.rope_freqs, io.rope_freqs);
    let b = one_if(h.yarn_ff, io.yarn_ff);
    let c = one_if(h.mrope_history, io.mrope_history);
    let d = layers_bound(h, caches, n);
    let e = weights_bound(h.weights@, io.weights@, h.weights@.len());
    let f = one_if(h.qwen_wide, io.qwen_wide);
    let g = one_if(h.ple_embd, io.ple_embd);
    let k = one_if(h.ple_state, io.ple_state);
    lemma_one_if(h.rope_freqs, io.rope_freqs);
    lemma_one_if(h.yarn_ff, io.yarn_ff);
    lemma_one_if(h.mrope_history, io.mrope_history);
    lemma_one_if(h.qwen_wide, io.qwen_wide);
    lemma_one_if(h.ple_embd, io.ple_embd);
    lemma_one_if(h.ple_state, io.ple_state);
    lemma_joined(a, b);
    lemma_joined(a + b, c);
    lemma_joined(a + b + c, d);
    lemma_joined(a + b + c + d, e);
    lemma_joined(a + b + c + d + e, f);
    lemma_joined(a + b + c + d + e + f, g);
    lemma_joined(a + b + c + d + e + f + g, k);
    let list = layer_io(h, io, caches, n);
    assert forall|l: int|
        #![trigger h.k_cache@[l]]
        #![trigger caches.k@[l]]
        0 <= l < n implies {
        &&& binds(list, h.k_cache@[l], caches.k@[l])
        &&& binds(list, h.v_cache@[l], caches.v@[l])
        &&& binds_if(list, h.qsa_k_cache@[l], caches.qsa_raw@[l])
        &&& binds_if(list, h.qsa_block_cache@[l], caches.qsa_block@[l])
    } by {
        lemma_layers(h, caches, n, l);
    }
    assert forall|i: int| 0 <= i < h.weights@.len() implies binds(
        list,
        #[trigger] h.weights@[i],
        io.weights@[i],
    ) by {
        lemma_weights(h.weights@, io.weights@, h.weights@.len(), i);
    }
}

/// A decode step reads its token or its row, its position, its input and its draw from the step's
/// own buffers, and leaves logits, token and rows in them.
pub proof fn law_a_decode_steps_buffers_are_bound(
    h: DecodeHandles,
    step: StepIo,
    io: SharedIo,
    caches: CacheBuffers,
    gpu_embed: bool,
    n: nat,
)
    ensures
        ({
            let list = decode_step(h, step, io, caches, gpu_embed, n);
            &&& h.tok_ids matches Some(id) ==> binds(list, id, step.ids)
            &&& !gpu_embed ==> binds(list, h.hidden, step.hidden)
            &&& binds(list, h.positions, step.positions)
            &&& binds_if(list, h.pl_tok_in, step.ipl)
            &&& shares(list, h, io, caches, n)
            &&& h.logits matches Some(id) ==> binds(list, id, step.logits)
            &&& h.tok_id matches Some(id) ==> binds(list, id, step.token)
            &&& h.u_in matches Some(id) ==> binds(list, id, step.uniform)
            &&& binds_if(list, h.h_out, step.h_tap)
        }),
{
    let p0 = step_input(h, gpu_embed, step.ids, step.hidden);
    lemma_one_if(h.tok_ids, Some(step.ids));
    lemma_one(h.hidden, step.hidden);
    lemma_joined(
        one_if(h.tok_ids, Some(step.ids)),
        if gpu_embed {
            Seq::empty()
        } else {
            one(h.hidden, step.hidden)
        },
    );
    let p1 = one(h.positions, step.positions);
    lemma_one(h.positions, step.positions);
    let p2 = one_if(h.pl_tok_in, step.ipl);
    lemma_one_if(h.pl_tok_in, step.ipl);
    let p3 = layer_io(h, io, caches, n);
    law_a_slots_buffers_are_bound(h, io, caches, n);
    let p4 = one_if(h.logits, Some(step.logits));
    lemma_one_if(h.logits, Some(step.logits));
    let p5 = one_if(h.tok_id, Some(step.token));
    lemma_one_if(h.tok_id, Some(step.token));
    let p6 = one_if(h.u_in, Some(step.uniform));
    lemma_one_if(h.u_in, Some(step.uniform));
    let p7 = one_if(h.h_out, step.h_tap);
    lemma_one_if(h.h_out, step.h_tap);
    lemma_joined(p0, p1);
    lemma_joined(p0 + p1, p2);
    lemma_joined(p0 + p1 + p2, p3);
    lemma_shares_joined(p0 + p1 + p2, p3, h, io, caches, n);
    lemma_joined(p0 + p1 + p2 + p3, p4);
    lemma_shares_joined(p0 + p1 + p2 + p3, p4, h, io, caches, n);
    lemma_joined(p0 + p1 + p2 + p3 + p4, p5);
    lemma_shares_joined(p0 + p1 + p2 + p3 + p4, p5, h, io, caches, n);
    lemma_joined(p0 + p1 + p2 + p3 + p4 + p5, p6);
    lemma_shares_joined(p0 + p1 + p2 + p3 + p4 + p5, p6, h, io, caches, n);
    lemma_joined(p0 + p1 + p2 + p3 + p4 + p5 + p6, p7);
    lemma_shares_joined(p0 + p1 + p2 + p3 + p4 + p5 + p6, p7, h, io, caches, n);
}

/// A chunk reads its rows, positions and inputs from the chunk's own buffers.
pub proof fn law_a_chunks_buffers_are_bound(
    h: DecodeHandles,
    n: nat,
    chunk: ChunkIo,
    io: SharedIo,
    caches: CacheBuffers,
)
    ensures
        ({
            let list = chunk_bound(h, n, chunk, io, caches);
            &&& h.tok_ids matches Some(id) ==> binds(list, id, chunk.input)
            &&& binds(list, h.hidden, match chunk.resid {
                Some(buffer) => buffer,
                None => chunk.input,
            })
            &&& binds(list, h.positions, chunk.pos)
            &&& binds_if(list, h.positions4, chunk.pos4)
            &&& binds_if(list, h.pl_tok_in, chunk.ipl)
            &&& shares(list, h, io, caches, n)
            &&& binds_if(list, h.qwen_wide, chunk.wide)
            &&& binds_if(list, h.ple_embd, chunk.ple_embd)
        }),
{
    let p0 = Seq::<(TensorId, BoundTo)>::empty();
    let p1 = one_if(h.tok_ids, Some(chunk.input));
    lemma_one_if(h.tok_ids, Some(chunk.input));
    let p2 = one(h.hidden, chunk.carried());
    lemma_one(h.hidden, chunk.carried());
    let p3 = one(h.positions, chunk.pos);
    lemma_one(h.positions, chunk.pos);
    let p4 = one_if(h.positions4, chunk.pos4);
    lemma_one_if(h.positions4, chunk.pos4);
    let p5 = one_if(h.pl_tok_in, chunk.ipl);
    lemma_one_if(h.pl_tok_in, chunk.ipl);
    let p6 = layer_io(h, io, caches, n);
    law_a_slots_buffers_are_bound(h, io, caches, n);
    let p7 = one_if(h.qwen_wide, chunk.wide);
    lemma_one_if(h.qwen_wide, chunk.wide);
    let p8 = one_if(h.ple_embd, chunk.ple_embd);
    lemma_one_if(h.ple_embd, chunk.ple_embd);
    lemma_joined(p0, p1);
    lemma_joined(p0 + p1, p2);
    lemma_joined(p0 + p1 + p2, p3);
    lemma_joined(p0 + p1 + p2 + p3, p4);
    lemma_joined(p0 + p1 + p2 + p3 + p4, p5);
    lemma_joined(p0 + p1 + p2 + p3 + p4 + p5, p6);
    lemma_shares_joined(p0 + p1 + p2 + p3 + p4 + p5, p6, h, io, caches, n);
    lemma_joined(p0 + p1 + p2 + p3 + p4 + p5 + p6, p7);
    lemma_shares_joined(p0 + p1 + p2 + p3 + p4 + p5 + p6, p7, h, io, caches, n);
    lemma_joined(p0 + p1 + p2 + p3 + p4 + p5 + p6 + p7, p8);
    lemma_shares_joined(p0 + p1 + p2 + p3 + p4 + p5 + p6 + p7, p8, h, io, caches, n);
}

/// A part of a split step reads and leaves the rows, and the last part the results, in the step's
/// own buffers.
pub proof fn law_a_split_steps_buffers_are_bound(
    h: DecodeHandles,
    n: nat,
    step: StepIo,
    pos4: Option<DeviceBuffer>,
    io: SharedIo,
    caches: CacheBuffers,
)
    ensures
        ({
            let list = span_bound(h, n, step, pos4, io, caches);
            &&& h.tok_ids matches Some(id) ==> binds(list, id, step.ids)
            &&& binds(list, h.hidden, step.hidden)
            &&& binds(list, h.positions, step.positions)
            &&& binds_if(list, h.positions4, pos4)
            &&& shares(list, h, io, caches, n)
            &&& h.logits matches Some(id) ==> binds(list, id, step.logits)
            &&& h.tok_id matches Some(id) ==> binds(list, id, step.token)
            &&& h.u_in matches Some(id) ==> binds(list, id, step.uniform)
            &&& binds_if(list, h.h_out, step.h_tap)
        }),
{
    let p0 = Seq::<(TensorId, BoundTo)>::empty();
    let p1 = one_if(h.tok_ids, Some(step.ids));
    lemma_one_if(h.tok_ids, Some(step.ids));
    let p2 = one(h.hidden, step.hidden);
    lemma_one(h.hidden, step.hidden);
    let p3 = one(h.positions, step.positions);
    lemma_one(h.positions, step.positions);
    let p4 = one_if(h.positions4, pos4);
    lemma_one_if(h.positions4, pos4);
    let p5 = layer_io(h, io, caches, n);
    law_a_slots_buffers_are_bound(h, io, caches, n);
    let p6 = one_if(h.logits, Some(step.logits));
    lemma_one_if(h.logits, Some(step.logits));
    let p7 = one_if(h.tok_id, Some(step.token));
    lemma_one_if(h.tok_id, Some(step.token));
    let p8 = one_if(h.u_in, Some(step.uniform));
    lemma_one_if(h.u_in, Some(step.uniform));
    let p9 = one_if(h.h_out, step.h_tap);
    lemma_one_if(h.h_out, step.h_tap);
    lemma_joined(p0, p1);
    lemma_joined(p0 + p1, p2);
    lemma_joined(p0 + p1 + p2, p3);
    lemma_joined(p0 + p1 + p2 + p3, p4);
    lemma_joined(p0 + p1 + p2 + p3 + p4, p5);
    lemma_shares_joined(p0 + p1 + p2 + p3 + p4, p5, h, io, caches, n);
    lemma_joined(p0 + p1 + p2 + p3 + p4 + p5, p6);
    lemma_shares_joined(p0 + p1 + p2 + p3 + p4 + p5, p6, h, io, caches, n);
    lemma_joined(p0 + p1 + p2 + p3 + p4 + p5 + p6, p7);
    lemma_shares_joined(p0 + p1 + p2 + p3 + p4 + p5 + p6, p7, h, io, caches, n);
    lemma_joined(p0 + p1 + p2 + p3 + p4 + p5 + p6 + p7, p8);
    lemma_shares_joined(p0 + p1 + p2 + p3 + p4 + p5 + p6 + p7, p8, h, io, caches, n);
    lemma_joined(p0 + p1 + p2 + p3 + p4 + p5 + p6 + p7 + p8, p9);
    lemma_shares_joined(p0 + p1 + p2 + p3 + p4 + p5 + p6 + p7 + p8, p9, h, io, caches, n);
}

/// A verification reads its rows and positions from its own buffers, and leaves logits, tokens and
/// rows in them.
pub proof fn law_a_verifications_buffers_are_bound(
    h: DecodeHandles,
    n: nat,
    v: VerifyIo,
    io: SharedIo,
    caches: CacheBuffers,
)
    ensures
        ({
            let list = verify_bound(h, n, v, io, caches);
            &&& binds(list, h.hidden, v.hidden)
            &&& binds(list, h.positions, v.positions)
            &&& shares(list, h, io, caches, n)
            &&& h.logits matches Some(id) ==> binds(list, id, v.logits)
            &&& binds_if(list, h.tok_id, v.chosen)
            &&& binds_if(list, h.h_out, v.rows)
        }),
{
    let p0 = Seq::<(TensorId, BoundTo)>::empty();
    let p1 = one(h.hidden, v.hidden);
    lemma_one(h.hidden, v.hidden);
    let p2 = one(h.positions, v.positions);
    lemma_one(h.positions, v.positions);
    let p3 = layer_io(h, io, caches, n);
    law_a_slots_buffers_are_bound(h, io, caches, n);
    let p4 = one_if(h.logits, Some(v.logits));
    lemma_one_if(h.logits, Some(v.logits));
    let p5 = one_if(h.tok_id, v.chosen);
    lemma_one_if(h.tok_id, v.chosen);
    let p6 = one_if(h.h_out, v.rows);
    lemma_one_if(h.h_out, v.rows);
    lemma_joined(p0, p1);
    lemma_joined(p0 + p1, p2);
    lemma_joined(p0 + p1 + p2, p3);
    lemma_shares_joined(p0 + p1 + p2, p3, h, io, caches, n);
    lemma_joined(p0 + p1 + p2 + p3, p4);
    lemma_shares_joined(p0 + p1 + p2 + p3, p4, h, io, caches, n);
    lemma_joined(p0 + p1 + p2 + p3 + p4, p5);
    lemma_shares_joined(p0 + p1 + p2 + p3 + p4, p5, h, io, caches, n);
    lemma_joined(p0 + p1 + p2 + p3 + p4 + p5, p6);
    lemma_shares_joined(p0 + p1 + p2 + p3 + p4 + p5, p6, h, io, caches, n);
}

/// A canvas step reads its rows, its positions, the last logits and their temperature from its own
/// buffers, and leaves its logits in them.
pub proof fn law_a_canvas_steps_buffers_are_bound(
    h: DecodeHandles,
    shared: SharedIds,
    soft: Option<TensorId>,
    n: nat,
    c: CanvasIo,
    io: SharedIo,
    caches: CacheBuffers,
)
    ensures
        ({
            let list = canvas_bound(h, shared, soft, n, c, io, caches);
            &&& binds(list, h.hidden, c.hidden)
            &&& binds(list, h.positions, c.positions)
            &&& shares(list, h, io, caches, n)
            &&& binds_if(list, shared.sc_logits, c.last_logits)
            &&& binds_if(list, shared.temp_inv, c.temperature)
            &&& binds_if(list, soft, c.soft)
            &&& h.logits matches Some(id) ==> binds(list, id, c.logits)
        }),
{
    let p0 = Seq::<(TensorId, BoundTo)>::empty();
    let p1 = one(h.hidden, c.hidden);
    lemma_one(h.hidden, c.hidden);
    let p2 = one(h.positions, c.positions);
    lemma_one(h.positions, c.positions);
    let p3 = layer_io(h, io, caches, n);
    law_a_slots_buffers_are_bound(h, io, caches, n);
    let p4 = one_if(shared.sc_logits, c.last_logits);
    lemma_one_if(shared.sc_logits, c.last_logits);
    let p5 = one_if(shared.temp_inv, c.temperature);
    lemma_one_if(shared.temp_inv, c.temperature);
    let p6 = one_if(soft, c.soft);
    lemma_one_if(soft, c.soft);
    let p7 = one_if(h.logits, Some(c.logits));
    lemma_one_if(h.logits, Some(c.logits));
    lemma_joined(p0, p1);
    lemma_joined(p0 + p1, p2);
    lemma_joined(p0 + p1 + p2, p3);
    lemma_shares_joined(p0 + p1 + p2, p3, h, io, caches, n);
    lemma_joined(p0 + p1 + p2 + p3, p4);
    lemma_shares_joined(p0 + p1 + p2 + p3, p4, h, io, caches, n);
    lemma_joined(p0 + p1 + p2 + p3 + p4, p5);
    lemma_shares_joined(p0 + p1 + p2 + p3 + p4, p5, h, io, caches, n);
    lemma_joined(p0 + p1 + p2 + p3 + p4 + p5, p6);
    lemma_shares_joined(p0 + p1 + p2 + p3 + p4 + p5, p6, h, io, caches, n);
    lemma_joined(p0 + p1 + p2 + p3 + p4 + p5 + p6, p7);
    lemma_shares_joined(p0 + p1 + p2 + p3 + p4 + p5 + p6, p7, h, io, caches, n);
}

} // verus!
