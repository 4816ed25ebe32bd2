//! What a layer's feed-forward block computes, and how its two blocks join the residual.

use crate::graph_build::{
    close_ops, dense_ops, ffn_input_ops, ffn_ops, mixer_input_ops, selection_ops, shared_ops, Frame,
    LayerGraph,
};
use crate::graph_ffn::{
    add_block, add_shared, add_shared_gated, bank, dual_bank, ffn_down, ffn_joined, ffn_split,
    ffn_sub_norm, mix_layer_input, norm_in_place, norm_into, scale_layer, select_by_id,
    shared_gate,
};
use crate::graph_ops::{Activation, Clamp, Op, Scalar};
use crate::graph_scratch::PerLayerScratch;
use crate::graph_values::{
    activated, added, after, after_first, held, lemma_after_join, normed, normed_if, projected, step,
    times, weighted, Value, Values,
};
use crate::weight_handles::{DualMoeW, FfnW, MoeSharedW, MoeW};
use crate::weight_plan::TensorId;
use vstd::prelude::*;

verus! {

/// After a list of one operation.
pub proof fn lemma_after_one(env: Values, ops: Seq<Op>)
    requires
        ops.len() == 1,
    ensures
        after(env, ops) == step(env, ops[0]),
{
    reveal(after);
    reveal_with_fuel(after_first, 2);
}

/// Operations behind others: what the list of one more operation leaves.
pub proof fn lemma_then_one(env: Values, before: Seq<Op>, ops: Seq<Op>)
    requires
        ops.len() == 1,
    ensures
        after(env, before + ops) == step(after(env, before), ops[0]),
{
    lemma_after_join(env, before, ops);
    lemma_after_one(after(env, before), ops);
}

/// The layer's residual is the one row of each token.
pub open spec fn streamless(g: LayerGraph) -> bool {
    g.w.qwen_hc is None && g.w.hc is None
}

/// A tensor of the rows that enter a block, with the block's output added to it. The output is
/// normed first where the layer has a weight for that.
pub open spec fn joined(x: Frame, residual: Value, out: Value, norm: Option<usize>) -> Value {
    added(
        residual,
        normed_if(out, norm, x.d.b.batch, x.d.b.n_embd),
        x.d.b.batch,
        x.d.b.n_embd,
    )
}

/// Where a layer's residual is one row of each token, its mixer reads the normed residual, and the
/// residual is kept.
pub proof fn law_a_mixer_reads_the_normed_residual(
    env: Values,
    before: Seq<Op>,
    x: Frame,
    g: LayerGraph,
)
    requires
        streamless(g),
        x.i.hidden != x.s.core.hn,
    ensures
        ({
            let e = after(env, before);
            let f = after(env, mixer_input_ops(before, x, g));
            f == e.insert(
                x.s.core.hn,
                normed(e[x.i.hidden], g.w.attn_norm, x.d.b.batch, x.d.b.n_embd),
            )
        }),
{
    reveal(step);
    let d = x.d;
    lemma_then_one(env, before, norm_into(d, x.i.hidden, g.w.attn_norm, x.s.core.hn));
}

/// Where a layer's residual is one row of each token, the mixer's output is added to it, and the
/// feed-forward block reads the normed sum.
pub proof fn law_a_mixers_output_is_added_to_the_residual(
    env: Values,
    before: Seq<Op>,
    x: Frame,
    g: LayerGraph,
)
    requires
        streamless(g),
        x.i.hidden != x.s.core.hn,
        x.i.hidden != x.s.core.sub,
    ensures
        ({
            let e = after(env, before);
            let f = after(env, ffn_input_ops(before, x, g));
            &&& f[x.i.hidden] == joined(
                x,
                e[x.i.hidden],
                e[x.s.core.sub],
                g.w.post_attn,
            )
            &&& f[x.s.core.hn] == normed(
                f[x.i.hidden],
                g.w.ffn_norm,
                x.d.b.batch,
                x.d.b.n_embd,
            )
            &&& forall|t: TensorId|
                t != x.i.hidden && t != x.s.core.hn && t != x.s.core.sub ==> #[trigger] f[t]
                    == e[t]
        }),
{
    reveal(step);
    let d = x.d;
    let c = x.s.core;
    let a = match g.w.post_attn {
        Some(weight) => before + norm_in_place(d, c.sub, weight),
        None => before,
    };
    if let Some(weight) = g.w.post_attn {
        lemma_then_one(env, before, norm_in_place(d, c.sub, weight));
    }
    lemma_then_one(env, a, add_block(d, c, x.i.hidden));
    lemma_then_one(
        env,
        a + add_block(d, c, x.i.hidden),
        norm_into(d, x.i.hidden, g.w.ffn_norm, c.hn),
    );
}

/// The residual with the layer's own input mixed in, where the layer has one: the residual picks
/// from the input, and what it picked is projected, normed and added.
pub open spec fn with_layer_input(x: Frame, g: LayerGraph, residual: Value, inputs: Values) -> Value {
    match (g.w.pl_inp_gate, g.w.pl_proj, g.w.pl_post_norm, x.s.per_layer) {
        (Some(pick), Some(project), Some(norm), Some(p)) => mixed_in(
            x,
            g,
            residual,
            inputs[p.inputs],
            pick,
            project,
            norm,
        ),
        _ => residual,
    }
}

/// What a residual picks from the layer's own input, projected, normed and added to it.
pub open spec fn mixed_in(
    x: Frame,
    g: LayerGraph,
    residual: Value,
    input: Value,
    pick: usize,
    project: usize,
    norm: usize,
) -> Value {
    let b = x.d.b;
    let picked = Value::GatedAct {
        gate: Box::new(projected(residual, pick, b.batch, b.n_embd, b.n_embd_per_layer)),
        up: Box::new(input),
        rows: b.batch,
        nff: b.n_embd_per_layer,
        act: Activation::Gelu,
        up_off: g.widths.per_layer_off,
        up_stride: x.d.per_layer,
        gate_stride: 0,
        gate_block: 0,
        clamp: Clamp::Off,
    };
    Value::RmsNormAdd {
        x: Box::new(projected(picked, project, b.batch, b.n_embd_per_layer, b.n_embd)),
        weight: norm,
        onto: Box::new(residual),
        rows: b.batch,
        dim: b.n_embd,
    }
}

proof fn lemma_layer_input(
    env: Values,
    before: Seq<Op>,
    x: Frame,
    g: LayerGraph,
    p: PerLayerScratch,
    pick: usize,
    project: usize,
    norm: usize,
)
    requires
        x.i.hidden != x.s.core.picked,
        x.i.hidden != x.s.core.projected,
        p.inputs != x.s.core.picked,
    ensures
        ({
            let e = after(env, before);
            let f = after(
                env,
                before + mix_layer_input(
                    x.d,
                    g.widths,
                    x.s.core,
                    p,
                    x.i.hidden,
                    pick,
                    project,
                    norm,
                ),
            );
            &&& f[x.i.hidden] == mixed_in(
                x,
                g,
                e[x.i.hidden],
                e[p.inputs],
                pick,
                project,
                norm,
            )
            &&& forall|t: TensorId|
                t != x.i.hidden && t != x.s.core.picked && t != x.s.core.projected
                    ==> #[trigger] f[t] == e[t]
        }),
{
    let ops = mix_layer_input(x.d, g.widths, x.s.core, p, x.i.hidden, pick, project, norm);
    lemma_after_join(env, before, ops);
    let e0 = after(env, before);
    let e1 = e0.insert(
        x.s.core.picked,
        projected(e0[x.i.hidden], pick, x.d.b.batch, x.d.b.n_embd, x.d.b.n_embd_per_layer),
    );
    assert(step(e0, ops[0]) == e1) by {
        reveal(step);
    }
    let e2 = e1.insert(
        x.s.core.picked,
        Value::GatedAct {
            gate: Box::new(e1[x.s.core.picked]),
            up: Box::new(e1[p.inputs]),
            rows: x.d.b.batch,
            nff: x.d.b.n_embd_per_layer,
            act: Activation::Gelu,
            up_off: g.widths.per_layer_off,
            up_stride: x.d.per_layer,
            gate_stride: 0,
            gate_block: 0,
            clamp: Clamp::Off,
        },
    );
    assert(step(e1, ops[1]) == e2) by {
        reveal(step);
    }
    let e3 = e2.insert(
        x.s.core.projected,
        projected(e2[x.s.core.picked], project, x.d.b.batch, x.d.b.n_embd_per_layer, x.d.b.n_embd),
    );
    assert(step(e2, ops[2]) == e3) by {
        reveal(step);
    }
    let e4 = e3.insert(
        x.i.hidden,
        Value::RmsNormAdd {
            x: Box::new(e3[x.s.core.projected]),
            weight: norm,
            onto: Box::new(e3[x.i.hidden]),
            rows: x.d.b.batch,
            dim: x.d.b.n_embd,
        },
    );
    assert(step(e3, ops[3]) == e4) by {
        reveal(step);
    }
    assert(after(e0, ops) == e4) by {
        reveal(after);
        reveal_with_fuel(after_first, 5);
    }
}

/// Where a layer's residual is one row of each token, the feed-forward block's output is added to
/// it; the layer's own input and its scale come behind.
#[verifier::rlimit(40)]
pub proof fn law_a_feed_forward_output_is_added_to_the_residual(
    env: Values,
    before: Seq<Op>,
    x: Frame,
    g: LayerGraph,
)
    requires
        streamless(g),
        x.i.hidden != x.s.core.sub,
        x.i.hidden != x.s.core.picked,
        x.i.hidden != x.s.core.projected,
        x.s.per_layer matches Some(p) ==> p.inputs != x.s.core.sub && p.inputs != x.i.hidden
            && p.inputs != x.s.core.picked,
    ensures
        ({
            let e = after(env, before);
            let f = after(env, close_ops(before, x, g));
            let sum = joined(x, e[x.i.hidden], e[x.s.core.sub], g.w.post_ffw);
            let mixed = with_layer_input(x, g, sum, e);
            &&& f[x.i.hidden] == (match g.scale {
                Some(scale) => times(mixed, scale, x.d.b.batch, x.d.b.n_embd),
                None => mixed,
            })
            &&& forall|t: TensorId|
                t != x.i.hidden && t != x.s.core.sub && t != x.s.core.picked && t
                    != x.s.core.projected ==> #[trigger] f[t] == e[t]
        }),
{
    reveal(step);
    let d = x.d;
    let c = x.s.core;
    let hidden = x.i.hidden;
    let a = match g.w.post_ffw {
        Some(weight) => before + norm_in_place(d, c.sub, weight),
        None => before,
    };
    if let Some(weight) = g.w.post_ffw {
        lemma_then_one(env, before, norm_in_place(d, c.sub, weight));
    }
    let b = a + add_block(d, c, hidden);
    lemma_then_one(env, a, add_block(d, c, hidden));
    let m = match (g.w.pl_inp_gate, g.w.pl_proj, g.w.pl_post_norm, x.s.per_layer) {
        (Some(pick), Some(project), Some(norm), Some(p)) => b + mix_layer_input(
            d,
            g.widths,
            c,
            p,
            hidden,
            pick,
            project,
            norm,
        ),
        _ => b,
    };
    match (g.w.pl_inp_gate, g.w.pl_proj, g.w.pl_post_norm, x.s.per_layer) {
        (Some(pick), Some(project), Some(norm), Some(p)) => {
            lemma_layer_input(env, b, x, g, p, pick, project, norm);
        },
        _ => {},
    }
    if let Some(scale) = g.scale {
        lemma_then_one(env, m, scale_layer(d, hidden, scale));
    }
}

/// The activation that the model's feed-forward blocks go through.
pub open spec fn ffn_act(x: Frame) -> Activation {
    if x.f.gemma {
        Activation::Gelu
    } else {
        Activation::Silu
    }
}

/// Rows through a gated block: the activated rows of one projection times those of another,
/// projected back.
pub open spec fn through_gated(
    x: Frame,
    rows: Value,
    left: usize,
    right: usize,
    norm: Option<usize>,
    down: usize,
    width: usize,
    clamp: Clamp,
) -> Value {
    let b = x.d.b;
    projected(
        normed_if(
            activated(
                projected(rows, left, b.batch, b.n_embd, width),
                projected(rows, right, b.batch, b.n_embd, width),
                b.batch,
                width,
                ffn_act(x),
                clamp,
            ),
            norm,
            b.batch,
            width,
        ),
        down,
        b.batch,
        width,
        b.n_embd,
    )
}

/// The same by one weight that holds both projections.
pub open spec fn through_joined(
    x: Frame,
    rows: Value,
    both: usize,
    norm: Option<usize>,
    down: usize,
    width: usize,
    width2: usize,
) -> Value {
    let b = x.d.b;
    projected(
        normed_if(
            Value::GatedActFused {
                gu: Box::new(projected(rows, both, b.batch, b.n_embd, width2)),
                rows: b.batch,
                nff: width,
                act: ffn_act(x),
            },
            norm,
            b.batch,
            width,
        ),
        down,
        b.batch,
        width,
        b.n_embd,
    )
}

/// The scratch tensors of a feed-forward block are apart.
pub open spec fn ffn_apart(x: Frame) -> bool {
    let c = x.s.core;
    let s = x.s.gates;
    &&& s.left != s.right
    &&& c.hn != s.left
    &&& c.hn != s.right
    &&& c.hn != s.joined
    &&& c.hn != c.act
    &&& c.hn != c.sub
}

/// A dense feed-forward block is what its weights say: the activated rows of one projection times
/// those of the other, projected back; and it works on nothing but its own tensors.
#[verifier::rlimit(40)]
pub proof fn law_a_dense_block_is_gated(env: Values, before: Seq<Op>, x: Frame, g: LayerGraph)
    requires
        g.w.ffn is Dense || g.w.ffn is DenseFused,
        ffn_apart(x),
    ensures
        ({
            let e = after(env, before);
            let f = after(env, ffn_ops(before, x, g));
            let rows = e[x.s.core.hn];
            &&& g.w.ffn matches FfnW::Dense { wgate, wup, wdown } ==> f[x.s.core.sub]
                == through_gated(
                x,
                rows,
                wgate,
                wup,
                g.w.ffn_sub_norm,
                wdown,
                g.widths.b.n_ff,
                Clamp::Off,
            )
            &&& g.w.ffn matches FfnW::DenseFused { wgu, wdown } ==> f[x.s.core.sub]
                == through_joined(
                x,
                rows,
                wgu,
                g.w.ffn_sub_norm,
                wdown,
                g.widths.b.n_ff,
                g.widths.n_ff2,
            )
            &&& forall|t: TensorId|
                t != x.s.gates.left && t != x.s.gates.right && t != x.s.gates.joined && t
                    != x.s.core.act && t != x.s.core.sub ==> #[trigger] f[t] == e[t]
        }),
{
    reveal(step);
    let d = x.d;
    let c = x.s.core;
    let l = g.widths;
    let act = x.f.act();
    let e = after(env, before);
    let a = match g.w.ffn {
        FfnW::DenseFused { wgu, .. } => before + ffn_joined(d, l, c, x.s.gates, wgu, act),
        FfnW::Dense { wgate, wup, .. } => before + ffn_split(
            d,
            c,
            x.s.gates,
            wgate,
            wup,
            l.b.n_ff,
            act,
            Clamp::Off,
        ),
        _ => before,
    };
    assert(forall|t: TensorId|
        t != x.s.gates.left && t != x.s.gates.right && t != x.s.gates.joined && t != c.act
            ==> #[trigger] after(env, a)[t] == e[t]) by {
        match g.w.ffn {
            FfnW::DenseFused { wgu, .. } => {
                lemma_joined_block(env, before, x, g, wgu);
            },
            FfnW::Dense { wgate, wup, .. } => {
                lemma_split_block(env, before, x, wgate, wup, l.b.n_ff, Clamp::Off);
            },
            _ => {},
        }
    }
    match g.w.ffn {
        FfnW::DenseFused { wgu, .. } => {
            lemma_joined_block(env, before, x, g, wgu);
        },
        FfnW::Dense { wgate, wup, .. } => {
            lemma_split_block(env, before, x, wgate, wup, l.b.n_ff, Clamp::Off);
        },
        _ => {},
    }
    if let Some(weight) = g.w.ffn_sub_norm {
        lemma_then_one(env, a, ffn_sub_norm(d, l, c, weight));
    }
    match g.w.ffn {
        FfnW::DenseFused { wdown, .. } => {
            lemma_then_one(env, dense_ops(before, x, g), ffn_down(d, c, wdown, l.b.n_ff, c.sub));
        },
        FfnW::Dense { wdown, .. } => {
            lemma_then_one(env, dense_ops(before, x, g), ffn_down(d, c, wdown, l.b.n_ff, c.sub));
        },
        _ => {},
    }
}

proof fn lemma_joined_block(env: Values, before: Seq<Op>, x: Frame, g: LayerGraph, both: usize)
    requires
        ffn_apart(x),
    ensures
        ({
            let b = x.d.b;
            let e = after(env, before);
            let f = after(
                env,
                before + ffn_joined(x.d, g.widths, x.s.core, x.s.gates, both, x.f.act()),
            );
            &&& f[x.s.core.act] == (Value::GatedActFused {
                gu: Box::new(
                    projected(e[x.s.core.hn], both, b.batch, b.n_embd, g.widths.n_ff2),
                ),
                rows: b.batch,
                nff: g.widths.b.n_ff,
                act: ffn_act(x),
            })
            &&& forall|t: TensorId|
                t != x.s.gates.joined && t != x.s.core.act ==> #[trigger] f[t] == e[t]
        }),
{
    let ops = ffn_joined(x.d, g.widths, x.s.core, x.s.gates, both, x.f.act());
    lemma_after_join(env, before, ops);
    let e0 = after(env, before);
    let e1 = e0.insert(
        x.s.gates.joined,
        projected(e0[x.s.core.hn], both, x.d.b.batch, x.d.b.n_embd, g.widths.n_ff2),
    );
    assert(step(e0, ops[0]) == e1) by {
        reveal(step);
    }
    let e2 = e1.insert(
        x.s.core.act,
        Value::GatedActFused {
            gu: Box::new(e1[x.s.gates.joined]),
            rows: x.d.b.batch,
            nff: g.widths.b.n_ff,
            act: x.f.act(),
        },
    );
    assert(step(e1, ops[1]) == e2) by {
        reveal(step);
    }
    assert(after(e0, ops) == e2) by {
        reveal(after);
        reveal_with_fuel(after_first, 3);
    }
}

proof fn lemma_split_block(
    env: Values,
    before: Seq<Op>,
    x: Frame,
    left: usize,
    right: usize,
    width: usize,
    clamp: Clamp,
)
    requires
        ffn_apart(x),
    ensures
        ({
            let b = x.d.b;
            let e = after(env, before);
            let rows = e[x.s.core.hn];
            let f = after(
                env,
                before + ffn_split(
                    x.d,
                    x.s.core,
                    x.s.gates,
                    left,
                    right,
                    width,
                    x.f.act(),
                    clamp,
                ),
            );
            &&& f[x.s.core.act] == activated(
                projected(rows, left, b.batch, b.n_embd, width),
                projected(rows, right, b.batch, b.n_embd, width),
                b.batch,
                width,
                ffn_act(x),
                clamp,
            )
            &&& forall|t: TensorId|
                t != x.s.gates.left && t != x.s.gates.right && t != x.s.core.act
                    ==> #[trigger] f[t] == e[t]
        }),
{
    let ops = ffn_split(x.d, x.s.core, x.s.gates, left, right, width, x.f.act(), clamp);
    lemma_after_join(env, before, ops);
    let e0 = after(env, before);
    let e1 = e0.insert(
        x.s.gates.left,
        projected(e0[x.s.core.hn], left, x.d.b.batch, x.d.b.n_embd, width),
    );
    assert(step(e0, ops[0]) == e1) by {
        reveal(step);
    }
    let e2 = e1.insert(
        x.s.gates.right,
        projected(e1[x.s.core.hn], right, x.d.b.batch, x.d.b.n_embd, width),
    );
    assert(step(e1, ops[1]) == e2) by {
        reveal(step);
    }
    let e3 = e2.insert(
        x.s.core.act,
        activated(e2[x.s.gates.left], e2[x.s.gates.right], x.d.b.batch, width, x.f.act(), clamp),
    );
    assert(step(e2, ops[2]) == e3) by {
        reveal(step);
    }
    assert(after(e0, ops) == e3) by {
        reveal(after);
        reveal_with_fuel(after_first, 4);
    }
}

/// The experts that a layer selects by token id, where it does.
pub open spec fn selected_by_id(x: Frame, w: MoeW, e: Values) -> Option<Box<Value>> {
    match w.tid2eid {
        Some(table) => Some(
            Box::new(
                Value::GatherI32 {
                    ids: Box::new(e[x.i.tok_ids->Some_0]),
                    table,
                    rows: x.d.b.batch,
                    ne: x.d.b.n_used,
                },
            ),
        ),
        None => None,
    }
}

/// Rows through the routed experts of a layer.
pub open spec fn through_bank(x: Frame, g: LayerGraph, w: MoeW, e: Values) -> Value {
    let b = x.d.b;
    let rows = e[x.s.core.hn];
    Value::MoeFfn {
        x: Box::new(rows),
        router_x: Box::new(rows),
        router: w.router,
        gate_exps: w.gate_exps,
        up_exps: w.up_exps,
        down_exps: w.down_exps,
        down_scale: None,
        fused_gate_up: w.fused_gate_up,
        ne: b.n_embd,
        n_expert: b.n_expert,
        n_used: b.n_used,
        n_ff_exp: b.n_ff_exp,
        act: ffn_act(x),
        rule: b.moe,
        exp_probs_b: w.exp_probs_b,
        clamp: g.clamp_routed,
        expert_ids: selected_by_id(x, w, e),
    }
}

/// Rows through a shared expert.
pub open spec fn through_shared(x: Frame, g: LayerGraph, w: MoeSharedW, rows: Value) -> Value {
    through_gated(x, rows, w.wgate, w.wup, None, w.wdown, x.d.b.shexp_ff, g.clamp_shared)
}

/// The scratch tensors of an expert bank are apart.
pub open spec fn bank_apart(x: Frame, g: LayerGraph) -> bool {
    let c = x.s.core;
    let t = x.s.experts;
    let s = x.s.gates;
    &&& ffn_apart(x)
    &&& c.hn != t.bank_out
    &&& c.hn != t.dense_out
    &&& c.hn != t.shared_gate
    &&& t.bank_out != t.dense_out
    &&& t.bank_out != t.shared_gate
    &&& t.bank_out != s.left
    &&& t.bank_out != s.right
    &&& t.bank_out != c.act
    &&& t.shared_gate != t.dense_out
    &&& t.shared_gate != s.left
    &&& t.shared_gate != s.right
    &&& t.shared_gate != c.act
    &&& g.selected != Some(c.hn)
}

/// A routed block is the routed experts' output, with that of the shared expert added to it where
/// the layer has one; the shared expert's output is weighed by its own projection where the layer
/// has that.
#[verifier::rlimit(40)]
pub proof fn law_a_routed_block_adds_its_shared_expert(
    env: Values,
    before: Seq<Op>,
    x: Frame,
    g: LayerGraph,
)
    requires
        g.w.ffn is Moe,
        bank_apart(x, g),
        x.serves(g),
    ensures
        ({
            let w = g.w.ffn->Moe_0;
            let b = x.d.b;
            let e = after(env, before);
            let f = after(env, ffn_ops(before, x, g));
            let rows = e[x.s.core.hn];
            let routed = through_bank(x, g, w, e);
            &&& f[x.s.core.sub] == (match w.shexp {
                None => routed,
                Some(s) => match s.gate_inp {
                    None => added(routed, through_shared(x, g, s, rows), b.batch, b.n_embd),
                    Some(weight) => Value::MoeSharedExpertAdd {
                        moe: Box::new(routed),
                        shexp: Box::new(through_shared(x, g, s, rows)),
                        gate: Box::new(projected(rows, weight, b.batch, b.n_embd, 1)),
                        rows: b.batch,
                        n: b.n_embd,
                    },
                },
            })
            &&& forall|t: TensorId|
                t != x.s.gates.left && t != x.s.gates.right && t != x.s.core.act && t
                    != x.s.core.sub && t != x.s.experts.bank_out && t != x.s.experts.dense_out && t
                    != x.s.experts.shared_gate && g.selected != Some(t) ==> #[trigger] f[t] == e[t]
        }),
{
    reveal(step);
    let d = x.d;
    let c = x.s.core;
    let w = g.w.ffn->Moe_0;
    let e = after(env, before);
    let dst = if w.shexp is Some {
        x.s.experts.bank_out
    } else {
        c.sub
    };
    let sel = selection_ops(before, x, g, w);
    if let Some(table) = w.tid2eid {
        lemma_then_one(
            env,
            before,
            select_by_id(d, x.i.tok_ids->Some_0, table, g.selected->Some_0),
        );
    }
    let run = bank(
        d,
        c,
        w,
        dst,
        x.f.act(),
        g.clamp_routed,
        crate::graph_build::selection(g, w),
    );
    lemma_then_one(env, sel, run);
    let t = sel + run;
    assert(after(env, t)[dst] == through_bank(x, g, w, e));
    assert(forall|t0: TensorId|
        t0 != dst && g.selected != Some(t0) ==> #[trigger] after(env, t)[t0] == e[t0]);
    if let Some(s) = w.shexp {
        lemma_shared(env, t, x, g, s);
    }
}

#[verifier::rlimit(40)]
proof fn lemma_shared(env: Values, before: Seq<Op>, x: Frame, g: LayerGraph, w: MoeSharedW)
    requires
        bank_apart(x, g),
    ensures
        ({
            let b = x.d.b;
            let e = after(env, before);
            let f = after(env, shared_ops(before, x, g, w));
            let rows = e[x.s.core.hn];
            let routed = e[x.s.experts.bank_out];
            &&& f[x.s.core.sub] == (match w.gate_inp {
                None => added(routed, through_shared(x, g, w, rows), b.batch, b.n_embd),
                Some(weight) => Value::MoeSharedExpertAdd {
                    moe: Box::new(routed),
                    shexp: Box::new(through_shared(x, g, w, rows)),
                    gate: Box::new(projected(rows, weight, b.batch, b.n_embd, 1)),
                    rows: b.batch,
                    n: b.n_embd,
                },
            })
            &&& forall|t: TensorId|
                t != x.s.gates.left && t != x.s.gates.right && t != x.s.core.act && t
                    != x.s.core.sub && t != x.s.experts.dense_out && t != x.s.experts.shared_gate
                    ==> #[trigger] f[t] == e[t]
        }),
{
    reveal(step);
    let d = x.d;
    let c = x.s.core;
    let s = x.s.experts;
    let width = d.b.shexp_ff;
    let a = match w.gate_inp {
        Some(weight) => before + shared_gate(d, c, s, weight),
        None => before,
    };
    if let Some(weight) = w.gate_inp {
        lemma_then_one(env, before, shared_gate(d, c, s, weight));
    }
    let split = ffn_split(
        d,
        c,
        x.s.gates,
        w.wgate,
        w.wup,
        width,
        x.f.act(),
        g.clamp_shared,
    );
    lemma_split_block(env, a, x, w.wgate, w.wup, width, g.clamp_shared);
    lemma_then_one(env, a + split, ffn_down(d, c, w.wdown, width, s.dense_out));
    let t = a + split + ffn_down(d, c, w.wdown, width, s.dense_out);
    if w.gate_inp is Some {
        lemma_then_one(env, t, add_shared_gated(d, c, s));
    } else {
        lemma_then_one(env, t, add_shared(d, c, s));
    }
}

/// The scratch tensors of a dense block beside an expert bank are apart.
pub open spec fn dual_apart(x: Frame) -> bool {
    let c = x.s.core;
    let t = x.s.experts;
    let h = x.i.hidden;
    &&& ffn_apart(x)
    &&& h != t.dense_out
    &&& h != t.router_in
    &&& h != t.bank_in
    &&& h != x.s.gates.left
    &&& h != x.s.gates.right
    &&& h != x.s.gates.joined
    &&& h != c.act
    &&& t.router_in != t.bank_in
    &&& t.dense_out != t.router_in
    &&& t.dense_out != t.bank_in
    &&& t.dense_out != t.bank_out
}

/// Rows through the dense half of a dual block.
pub open spec fn through_dense(x: Frame, g: LayerGraph, w: DualMoeW, rows: Value) -> Value {
    if w.fused_gu {
        through_joined(x, rows, w.d_gate, None, w.d_down, g.widths.b.n_ff, g.widths.n_ff2)
    } else {
        through_gated(x, rows, w.d_gate, w.d_up, None, w.d_down, g.widths.b.n_ff, Clamp::Off)
    }
}

/// The residual through the routed half of a dual block: the router reads the residual normed
/// without a weight, divided by the root of its width and weighed; the experts read it normed by
/// their own weight.
pub open spec fn through_routed(x: Frame, w: DualMoeW, residual: Value) -> Value {
    let b = x.d.b;
    let scored = weighted(
        times(
            normed(residual, x.head.router_ones->Some_0, b.batch, b.n_embd),
            Scalar::InvSqrt(b.n_embd),
            b.batch,
            b.n_embd,
        ),
        w.router_scale,
        b.batch,
        b.n_embd,
    );
    Value::MoeFfn {
        x: Box::new(normed(residual, w.m_pre_norm, b.batch, b.n_embd)),
        router_x: Box::new(scored),
        router: w.router,
        gate_exps: w.gate_up_exps,
        up_exps: w.gate_up_exps,
        down_exps: w.down_exps,
        down_scale: Some(w.down_scale),
        fused_gate_up: true,
        ne: b.n_embd,
        n_expert: b.n_expert,
        n_used: b.n_used,
        n_ff_exp: b.n_ff_exp,
        act: ffn_act(x),
        rule: x.d.moe_ungrouped,
        exp_probs_b: None,
        clamp: Clamp::Off,
        expert_ids: None,
    }
}

/// A dual block is the sum of its two halves, each normed by its own weight: the dense half reads
/// the normed rows, the routed half the residual.
#[verifier::rlimit(40)]
pub proof fn law_a_dual_block_adds_its_halves(env: Values, before: Seq<Op>, x: Frame, g: LayerGraph)
    requires
        g.w.ffn is DiffusionMoe,
        dual_apart(x),
    ensures
        ({
            let w = g.w.ffn->DiffusionMoe_0;
            let b = x.d.b;
            let e = after(env, before);
            let f = after(env, ffn_ops(before, x, g));
            &&& f[x.s.core.sub] == added(
                normed(
                    through_dense(x, g, w, e[x.s.core.hn]),
                    w.d_post_norm,
                    b.batch,
                    b.n_embd,
                ),
                normed(
                    through_routed(x, w, e[x.i.hidden]),
                    w.m_post_norm,
                    b.batch,
                    b.n_embd,
                ),
                b.batch,
                b.n_embd,
            )
            &&& forall|t: TensorId|
                t != x.s.gates.left && t != x.s.gates.right && t != x.s.gates.joined && t
                    != x.s.core.act && t != x.s.core.sub && t != x.s.experts.dense_out && t
                    != x.s.experts.router_in && t != x.s.experts.bank_in && t
                    != x.s.experts.bank_out ==> #[trigger] f[t] == e[t]
        }),
{
    reveal(step);
    let d = x.d;
    let c = x.s.core;
    let l = g.widths;
    let w = g.w.ffn->DiffusionMoe_0;
    let act = x.f.act();
    let a = if w.fused_gu {
        before + ffn_joined(d, l, c, x.s.gates, w.d_gate, act)
    } else {
        before + ffn_split(d, c, x.s.gates, w.d_gate, w.d_up, l.b.n_ff, act, Clamp::Off)
    };
    if w.fused_gu {
        lemma_joined_block(env, before, x, g, w.d_gate);
    } else {
        lemma_split_block(env, before, x, w.d_gate, w.d_up, l.b.n_ff, Clamp::Off);
    }
    let down = ffn_down(d, c, w.d_down, l.b.n_ff, x.s.experts.dense_out);
    lemma_then_one(env, a, down);
    lemma_dual_bank(env, a + down, x, w);
}

proof fn lemma_dual_bank(env: Values, before: Seq<Op>, x: Frame, w: DualMoeW)
    requires
        dual_apart(x),
    ensures
        ({
            let b = x.d.b;
            let e = after(env, before);
            let f = after(
                env,
                before + dual_bank(
                    x.d,
                    x.s.core,
                    x.s.experts,
                    w,
                    x.i.hidden,
                    x.head.router_ones->Some_0,
                    x.f.act(),
                ),
            );
            &&& f[x.s.core.sub] == added(
                normed(e[x.s.experts.dense_out], w.d_post_norm, b.batch, b.n_embd),
                normed(
                    through_routed(x, w, e[x.i.hidden]),
                    w.m_post_norm,
                    b.batch,
                    b.n_embd,
                ),
                b.batch,
                b.n_embd,
            )
            &&& forall|t: TensorId|
                t != x.s.core.sub && t != x.s.experts.dense_out && t != x.s.experts.router_in && t
                    != x.s.experts.bank_in && t != x.s.experts.bank_out ==> #[trigger] f[t] == e[t]
        }),
{
    let ops = dual_bank(
        x.d,
        x.s.core,
        x.s.experts,
        w,
        x.i.hidden,
        x.head.router_ones->Some_0,
        x.f.act(),
    );
    lemma_after_join(env, before, ops);
    let e0 = after(env, before);
    let e1 = e0.insert(
        x.s.experts.dense_out,
        normed(e0[x.s.experts.dense_out], w.d_post_norm, x.d.b.batch, x.d.b.n_embd),
    );
    assert(step(e0, ops[0]) == e1) by {
        reveal(step);
    }
    let e2 = e1.insert(
        x.s.experts.router_in,
        normed(e1[x.i.hidden], x.head.router_ones->Some_0, x.d.b.batch, x.d.b.n_embd),
    );
    assert(step(e1, ops[1]) == e2) by {
        reveal(step);
    }
    let e3 = e2.insert(
        x.s.experts.router_in,
        times(e2[x.s.experts.router_in], Scalar::InvSqrt(x.d.b.n_embd), x.d.b.batch, x.d.b.n_embd),
    );
    assert(step(e2, ops[2]) == e3) by {
        reveal(step);
    }
    let e4 = e3.insert(
        x.s.experts.router_in,
        weighted(e3[x.s.experts.router_in], w.router_scale, x.d.b.batch, x.d.b.n_embd),
    );
    assert(step(e3, ops[3]) == e4) by {
        reveal(step);
    }
    let e5 = e4.insert(
        x.s.experts.bank_in,
        normed(e4[x.i.hidden], w.m_pre_norm, x.d.b.batch, x.d.b.n_embd),
    );
    assert(step(e4, ops[4]) == e5) by {
        reveal(step);
    }
    let e6 = e5.insert(
        x.s.experts.bank_out,
        Value::MoeFfn {
            x: Box::new(e5[x.s.experts.bank_in]),
            router_x: Box::new(e5[x.s.experts.router_in]),
            router: w.router,
            gate_exps: w.gate_up_exps,
            up_exps: w.gate_up_exps,
            down_exps: w.down_exps,
            down_scale: Some(w.down_scale),
            fused_gate_up: true,
            ne: x.d.b.n_embd,
            n_expert: x.d.b.n_expert,
            n_used: x.d.b.n_used,
            n_ff_exp: x.d.b.n_ff_exp,
            act: x.f.act(),
            rule: x.d.moe_ungrouped,
            exp_probs_b: None,
            clamp: Clamp::Off,
            expert_ids: held(e5, None),
        },
    );
    assert(step(e5, ops[5]) == e6) by {
        reveal(step);
    }
    let e7 = e6.insert(
        x.s.experts.bank_out,
        normed(e6[x.s.experts.bank_out], w.m_post_norm, x.d.b.batch, x.d.b.n_embd),
    );
    assert(step(e6, ops[6]) == e7) by {
        reveal(step);
    }
    let e8 = e7.insert(
        x.s.core.sub,
        added(e7[x.s.experts.dense_out], e7[x.s.experts.bank_out], x.d.b.batch, x.d.b.n_embd),
    );
    assert(step(e7, ops[7]) == e8) by {
        reveal(step);
    }
    assert(after(e0, ops) == e8) by {
        reveal(after);
        reveal_with_fuel(after_first, 9);
    }
}

} // verus!
