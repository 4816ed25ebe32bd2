//! What the tensors of a graph hold: the value that each operation leaves, as a term over what its
//! operands held.

use crate::attention_plan::AttnMask;
use crate::graph_ops::{
    Activation, CacheForm, Clamp, MoeRule, Op, Scalar, Sections, Theta, WeightRef,
};
use crate::weight_plan::TensorId;
use vstd::prelude::*;

verus! {

/// Which result of an operation that has several.
pub enum Part {
    /// What the operation computes.
    Rows,
    /// The history or the recurrent state, carried on.
    State,
    Pre,
    Post,
    Comb,
    Keys,
    Values,
    Blocks,
}

/// What a tensor holds.
#[allow(inconsistent_fields)]
pub enum Value {
    /// What the tensor held before the graph was run.
    Given(TensorId),
    EmbedGather { ids: Box<Value>, table: usize, rows: usize, ne: usize, scale: Scalar },
    Linear { x: Box<Value>, weight: WeightRef, m: usize, in_f: usize, out_f: usize, w_off: usize },
    Scale { x: Box<Value>, s: Scalar, rows: usize, n: usize },
    RmsNorm { x: Box<Value>, weight: usize, rows: usize, dim: usize },
    RmsNormAdd { x: Box<Value>, weight: usize, onto: Box<Value>, rows: usize, dim: usize },
    LayerNorm { x: Box<Value>, weight: usize, bias: usize, rows: usize, dim: usize },
    Add { a: Box<Value>, b: Box<Value>, rows: usize, n: usize },
    AddBias { x: Box<Value>, bias: usize, rows: usize, n: usize },
    MulVec { x: Box<Value>, vec: usize, rows: usize, n: usize },
    Silu { x: Box<Value>, rows: usize, n: usize, scale: Scalar },
    Softmax {
        x: Box<Value>,
        rows: usize,
        dim: usize,
        scale: Scalar,
        scale_buf: Option<Box<Value>>,
    },
    GatedAct {
        gate: Box<Value>,
        up: Box<Value>,
        rows: usize,
        nff: usize,
        act: Activation,
        up_off: usize,
        up_stride: usize,
        gate_stride: usize,
        gate_block: usize,
        clamp: Clamp,
    },
    GatedActFused { gu: Box<Value>, rows: usize, nff: usize, act: Activation },
    GatedRmsNorm {
        x: Box<Value>,
        weight: usize,
        gate: Box<Value>,
        rows: usize,
        n_head: usize,
        head_dim: usize,
    },
    QkNorm {
        x: Box<Value>,
        weight: Option<usize>,
        rows: usize,
        n_head: usize,
        head_dim: usize,
        x_stride: usize,
    },
    QkNormRope {
        x: Box<Value>,
        weight: usize,
        positions: Box<Value>,
        rows: usize,
        n_head: usize,
        head_dim: usize,
        rope_dim: usize,
        theta: Theta,
        freq_factors: Option<Box<Value>>,
        x_stride: usize,
    },
    QkNormMrope {
        x: Box<Value>,
        weight: usize,
        positions4: Box<Value>,
        rows: usize,
        n_head: usize,
        head_dim: usize,
        rope_dim: usize,
        theta: Theta,
        sections: Sections,
        x_stride: usize,
    },
    Rope {
        x: Box<Value>,
        positions: Box<Value>,
        rows: usize,
        n_head: usize,
        head_dim: usize,
        rope_dim: usize,
        theta: Theta,
        freq_factors: Option<Box<Value>>,
        x_stride: usize,
        neox: bool,
        backward: bool,
    },
    Copy {
        src: Box<Value>,
        src_off: usize,
        onto: Box<Value>,
        dst_off: usize,
        rows: usize,
        n: usize,
    },
    CopyStrided {
        src: Box<Value>,
        src_off: usize,
        src_stride: usize,
        onto: Box<Value>,
        dst_off: usize,
        dst_stride: usize,
        rows: usize,
        n: usize,
    },
    WriteKv { src: Box<Value>, cache: Box<Value>, rows: usize, row_stride: usize, pos: usize },
    Attention {
        q: Box<Value>,
        k_cache: Box<Value>,
        v_cache: Box<Value>,
        rows: usize,
        kv_len: usize,
        n_head: usize,
        n_kv: usize,
        head_dim: usize,
        scale: Scalar,
        mask: AttnMask,
        pos: usize,
        sinks: Option<usize>,
    },
    Conv1dSilu {
        x: Box<Value>,
        weight: usize,
        state: Box<Value>,
        rows: usize,
        channels: usize,
        kernel: usize,
        part: Part,
    },
    DeltaNet {
        q: Box<Value>,
        k: Box<Value>,
        v: Box<Value>,
        b: Box<Value>,
        a: Box<Value>,
        a_coef: usize,
        dt_bias: usize,
        state: Box<Value>,
        rows: usize,
        n_vhead: usize,
        n_khead: usize,
        head_k: usize,
        head_v: usize,
        src_stride: usize,
        part: Part,
    },
    Kda {
        qkv: Box<Value>,
        forget: Box<Value>,
        beta: Box<Value>,
        a: usize,
        dt_bias: usize,
        state: Box<Value>,
        rows: usize,
        n_head: usize,
        head_dim: usize,
        part: Part,
    },
    HeadwiseSigmoidMul {
        x: Box<Value>,
        gate: Box<Value>,
        rows: usize,
        n_head: usize,
        head_dim: usize,
    },
    HyperConnectMix {
        mixes: Box<Value>,
        scale: usize,
        base: usize,
        rows: usize,
        hc: usize,
        n_iter: usize,
        part: Part,
    },
    HyperConnectPre { x: Box<Value>, weights: Box<Value>, rows: usize, hc: usize, n_embd: usize },
    HyperConnectPost {
        x: Box<Value>,
        residual: Box<Value>,
        post: Box<Value>,
        comb: Box<Value>,
        rows: usize,
        hc: usize,
        n_embd: usize,
    },
    QwenHcMix { x: Box<Value>, gate: Box<Value>, rows: usize, hc: usize, n_embd: usize },
    QwenHcInject {
        residual: Box<Value>,
        block: Box<Value>,
        gate: Box<Value>,
        rows: usize,
        hc: usize,
        n_embd: usize,
    },
    QwenPleGate {
        key: Box<Value>,
        query: Box<Value>,
        value: Box<Value>,
        rows: usize,
        hc: usize,
        n_embd: usize,
    },
    Dsv4CacheWrite {
        src: Box<Value>,
        onto: Box<Value>,
        rows: usize,
        row: usize,
        cache_off: usize,
        format: CacheForm,
    },
    Dsv4Compress {
        values: Box<Value>,
        scores: Box<Value>,
        ape: usize,
        norm: usize,
        freq_factors: Option<Box<Value>>,
        state: Box<Value>,
        values_off: usize,
        scores_off: usize,
        pos: usize,
        ratio: usize,
        dim: usize,
        rope_dim: usize,
        theta: Theta,
        overlap: bool,
        part: Part,
    },
    Dsv4Indexer {
        q: Box<Value>,
        k_cache: Box<Value>,
        weights: Box<Value>,
        cache_off: usize,
        kv_len: usize,
        n_head: usize,
        head_dim: usize,
        top_k: usize,
        scale: Scalar,
    },
    Dsv4Gather {
        raw_cache: Box<Value>,
        comp_cache: Box<Value>,
        indices: Option<Box<Value>>,
        comp_off: usize,
        pos: usize,
        visible: usize,
        selected: usize,
        head_dim: usize,
        raw_window: usize,
    },
    LightningIndexer {
        q: Box<Value>,
        k_cache: Box<Value>,
        weights: Box<Value>,
        rows: usize,
        kv_len: usize,
        n_head: usize,
        head_dim: usize,
        top_k: usize,
        scale: Scalar,
        pos: usize,
    },
    TopkMask { idx: Box<Value>, rows: usize, kv_len: usize, top_k: usize },
    Mla {
        q: Box<Value>,
        k_cache: Box<Value>,
        wk_b: usize,
        wv_b: usize,
        rows: usize,
        kv_len: usize,
        n_head: usize,
        q_head_dim: usize,
        kv_lora_rank: usize,
        qk_nope_dim: usize,
        qk_rope_dim: usize,
        v_head_dim: usize,
        scale: Scalar,
        mask: AttnMask,
        pos: usize,
        theta: Theta,
        freq_factors: Option<Box<Value>>,
        key_bias: Option<Box<Value>>,
    },
    QsaIndexer {
        q: Box<Value>,
        k_cache: Box<Value>,
        block_cache: Box<Value>,
        k_norm: usize,
        positions4: Option<Box<Value>>,
        rows: usize,
        kv_len: usize,
        compress_from: usize,
        n_head: usize,
        head_dim: usize,
        top_blocks: usize,
        ratio: usize,
        scale: Scalar,
        rope_dim: usize,
        theta: Theta,
        sections: Sections,
        part: Part,
    },
    QsaGather {
        k_cache: Box<Value>,
        v_cache: Box<Value>,
        indices: Box<Value>,
        selected_blocks: usize,
        complete_blocks: usize,
        tail: usize,
        ratio: usize,
        row_elems: usize,
        part: Part,
    },
    QsaBatchAttention {
        q: Box<Value>,
        k_cache: Box<Value>,
        v_cache: Box<Value>,
        indices: Box<Value>,
        rows: usize,
        kv_len: usize,
        n_head: usize,
        n_kv: usize,
        head_dim: usize,
        top_blocks: usize,
        ratio: usize,
        scale: Scalar,
    },
    GatherI32 { ids: Box<Value>, table: usize, rows: usize, ne: usize },
    MoeFfn {
        x: Box<Value>,
        router_x: Box<Value>,
        router: usize,
        gate_exps: usize,
        up_exps: usize,
        down_exps: usize,
        down_scale: Option<usize>,
        fused_gate_up: bool,
        ne: usize,
        n_expert: usize,
        n_used: usize,
        n_ff_exp: usize,
        act: Activation,
        rule: MoeRule,
        exp_probs_b: Option<usize>,
        clamp: Clamp,
        expert_ids: Option<Box<Value>>,
    },
    MoeSharedExpertAdd {
        moe: Box<Value>,
        shexp: Box<Value>,
        gate: Box<Value>,
        rows: usize,
        n: usize,
    },
    Softcap { x: Box<Value>, rows: usize, n: usize },
    Argmax { x: Box<Value>, n: usize, rows: usize },
    Sample { x: Box<Value>, u: Box<Value>, n: usize, rows: usize, top_k: usize },
}

/// What each tensor holds.
pub type Values = Map<TensorId, Value>;

/// What a tensor holds, where it is given.
pub open spec fn held(env: Values, t: Option<TensorId>) -> Option<Box<Value>> {
    match t {
        Some(t) => Some(Box::new(env[t])),
        None => None,
    }
}

/// What each tensor holds once the value is put where it is asked for.
pub open spec fn put_if(env: Values, t: Option<TensorId>, v: Value) -> Values {
    match t {
        Some(t) => env.insert(t, v),
        None => env,
    }
}

/// What each tensor holds after an operation.
#[verifier::opaque]
pub open spec fn step(env: Values, op: Op) -> Values {
    match op {
        Op::EmbedGather { ids, table, dst, rows, ne, scale } => {
            env.insert(
                dst,
                Value::EmbedGather {
                    ids: Box::new(env[ids]),
                    table,
                    rows,
                    ne,
                    scale,
                },
            )
        },
        Op::Linear { x, weight, dst, m, in_f, out_f, w_off } => {
            env.insert(
                dst,
                Value::Linear {
                    x: Box::new(env[x]),
                    weight,
                    m,
                    in_f,
                    out_f,
                    w_off,
                },
            )
        },
        Op::Scale { x, dst, s, rows, n } => {
            env.insert(
                dst,
                Value::Scale {
                    x: Box::new(env[x]),
                    s,
                    rows,
                    n,
                },
            )
        },
        Op::RmsNorm { x, weight, dst, rows, dim } => {
            env.insert(
                dst,
                Value::RmsNorm {
                    x: Box::new(env[x]),
                    weight,
                    rows,
                    dim,
                },
            )
        },
        Op::RmsNormAdd { x, weight, dst, rows, dim } => {
            env.insert(
                dst,
                Value::RmsNormAdd {
                    x: Box::new(env[x]),
                    weight,
                    onto: Box::new(env[dst]),
                    rows,
                    dim,
                },
            )
        },
        Op::LayerNorm { x, weight, bias, dst, rows, dim } => {
            env.insert(
                dst,
                Value::LayerNorm {
                    x: Box::new(env[x]),
                    weight,
                    bias,
                    rows,
                    dim,
                },
            )
        },
        Op::Add { a, b, dst, rows, n } => {
            env.insert(
                dst,
                Value::Add {
                    a: Box::new(env[a]),
                    b: Box::new(env[b]),
                    rows,
                    n,
                },
            )
        },
        Op::AddBias { x, bias, dst, rows, n } => {
            env.insert(
                dst,
                Value::AddBias {
                    x: Box::new(env[x]),
                    bias,
                    rows,
                    n,
                },
            )
        },
        Op::MulVec { x, vec, dst, rows, n } => {
            env.insert(
                dst,
                Value::MulVec {
                    x: Box::new(env[x]),
                    vec,
                    rows,
                    n,
                },
            )
        },
        Op::Silu { x, dst, rows, n, scale } => {
            env.insert(
                dst,
                Value::Silu {
                    x: Box::new(env[x]),
                    rows,
                    n,
                    scale,
                },
            )
        },
        Op::Softmax { x, dst, rows, dim, scale, scale_buf } => {
            env.insert(
                dst,
                Value::Softmax {
                    x: Box::new(env[x]),
                    rows,
                    dim,
                    scale,
                    scale_buf: held(env, scale_buf),
                },
            )
        },
        Op::GatedAct {
            gate,
            up,
            dst,
            rows,
            nff,
            act,
            up_off,
            up_stride,
            gate_stride,
            gate_block,
            clamp,
        } => {
            env.insert(
                dst,
                Value::GatedAct {
                    gate: Box::new(env[gate]),
                    up: Box::new(env[up]),
                    rows,
                    nff,
                    act,
                    up_off,
                    up_stride,
                    gate_stride,
                    gate_block,
                    clamp,
                },
            )
        },
        Op::GatedActFused { gu, dst, rows, nff, act } => {
            env.insert(
                dst,
                Value::GatedActFused {
                    gu: Box::new(env[gu]),
                    rows,
                    nff,
                    act,
                },
            )
        },
        Op::GatedRmsNorm { x, weight, gate, dst, rows, n_head, head_dim } => {
            env.insert(
                dst,
                Value::GatedRmsNorm {
                    x: Box::new(env[x]),
                    weight,
                    gate: Box::new(env[gate]),
                    rows,
                    n_head,
                    head_dim,
                },
            )
        },
        Op::QkNorm { x, weight, dst, rows, n_head, head_dim, x_stride } => {
            env.insert(
                dst,
                Value::QkNorm {
                    x: Box::new(env[x]),
                    weight,
                    rows,
                    n_head,
                    head_dim,
                    x_stride,
                },
            )
        },
        Op::QkNormRope {
            x,
            weight,
            positions,
            dst,
            rows,
            n_head,
            head_dim,
            rope_dim,
            theta,
            freq_factors,
            x_stride,
        } => {
            env.insert(
                dst,
                Value::QkNormRope {
                    x: Box::new(env[x]),
                    weight,
                    positions: Box::new(env[positions]),
                    rows,
                    n_head,
                    head_dim,
                    rope_dim,
                    theta,
                    freq_factors: held(env, freq_factors),
                    x_stride,
                },
            )
        },
        Op::QkNormMrope {
            x,
            weight,
            positions4,
            dst,
            rows,
            n_head,
            head_dim,
            rope_dim,
            theta,
            sections,
            x_stride,
        } => {
            env.insert(
                dst,
                Value::QkNormMrope {
                    x: Box::new(env[x]),
                    weight,
                    positions4: Box::new(env[positions4]),
                    rows,
                    n_head,
                    head_dim,
                    rope_dim,
                    theta,
                    sections,
                    x_stride,
                },
            )
        },
        Op::Rope {
            x,
            positions,
            dst,
            rows,
            n_head,
            head_dim,
            rope_dim,
            theta,
            freq_factors,
            x_stride,
            neox,
            backward,
        } => {
            env.insert(
                dst,
                Value::Rope {
                    x: Box::new(env[x]),
                    positions: Box::new(env[positions]),
                    rows,
                    n_head,
                    head_dim,
                    rope_dim,
                    theta,
                    freq_factors: held(env, freq_factors),
                    x_stride,
                    neox,
                    backward,
                },
            )
        },
        Op::Copy { src, src_off, dst, dst_off, rows, n } => {
            env.insert(
                dst,
                Value::Copy {
                    src: Box::new(env[src]),
                    src_off,
                    onto: Box::new(env[dst]),
                    dst_off,
                    rows,
                    n,
                },
            )
        },
        Op::CopyStrided { src, src_off, src_stride, dst, dst_off, dst_stride, rows, n } => {
            env.insert(
                dst,
                Value::CopyStrided {
                    src: Box::new(env[src]),
                    src_off,
                    src_stride,
                    onto: Box::new(env[dst]),
                    dst_off,
                    dst_stride,
                    rows,
                    n,
                },
            )
        },
        Op::WriteKv { src, cache, rows, row_stride, pos } => {
            env.insert(
                cache,
                Value::WriteKv {
                    src: Box::new(env[src]),
                    cache: Box::new(env[cache]),
                    rows,
                    row_stride,
                    pos,
                },
            )
        },
        Op::Attention {
            q,
            k_cache,
            v_cache,
            dst,
            rows,
            kv_len,
            n_head,
            n_kv,
            head_dim,
            scale,
            mask,
            pos,
            sinks,
        } => {
            env.insert(
                dst,
                Value::Attention {
                    q: Box::new(env[q]),
                    k_cache: Box::new(env[k_cache]),
                    v_cache: Box::new(env[v_cache]),
                    rows,
                    kv_len,
                    n_head,
                    n_kv,
                    head_dim,
                    scale,
                    mask,
                    pos,
                    sinks,
                },
            )
        },
        Op::Conv1dSilu { x, weight, state, dst, rows, channels, kernel } => {
            let put0 = env.insert(state, Value::Conv1dSilu {
                x: Box::new(env[x]),
                weight,
                state: Box::new(env[state]),
                rows,
                channels,
                kernel,
                part: Part::State,
            });
            put0.insert(dst, Value::Conv1dSilu {
                x: Box::new(env[x]),
                weight,
                state: Box::new(env[state]),
                rows,
                channels,
                kernel,
                part: Part::Rows,
            })
        },
        Op::DeltaNet {
            q,
            k,
            v,
            b,
            a,
            a_coef,
            dt_bias,
            state,
            dst,
            rows,
            n_vhead,
            n_khead,
            head_k,
            head_v,
            src_stride,
        } => {
            let put0 = env.insert(state, Value::DeltaNet {
                q: Box::new(env[q]),
                k: Box::new(env[k]),
                v: Box::new(env[v]),
                b: Box::new(env[b]),
                a: Box::new(env[a]),
                a_coef,
                dt_bias,
                state: Box::new(env[state]),
                rows,
                n_vhead,
                n_khead,
                head_k,
                head_v,
                src_stride,
                part: Part::State,
            });
            put0.insert(dst, Value::DeltaNet {
                q: Box::new(env[q]),
                k: Box::new(env[k]),
                v: Box::new(env[v]),
                b: Box::new(env[b]),
                a: Box::new(env[a]),
                a_coef,
                dt_bias,
                state: Box::new(env[state]),
                rows,
                n_vhead,
                n_khead,
                head_k,
                head_v,
                src_stride,
                part: Part::Rows,
            })
        },
        Op::Kda { qkv, forget, beta, a, dt_bias, state, dst, rows, n_head, head_dim } => {
            let put0 = env.insert(state, Value::Kda {
                qkv: Box::new(env[qkv]),
                forget: Box::new(env[forget]),
                beta: Box::new(env[beta]),
                a,
                dt_bias,
                state: Box::new(env[state]),
                rows,
                n_head,
                head_dim,
                part: Part::State,
            });
            put0.insert(dst, Value::Kda {
                qkv: Box::new(env[qkv]),
                forget: Box::new(env[forget]),
                beta: Box::new(env[beta]),
                a,
                dt_bias,
                state: Box::new(env[state]),
                rows,
                n_head,
                head_dim,
                part: Part::Rows,
            })
        },
        Op::HeadwiseSigmoidMul { x, gate, dst, rows, n_head, head_dim } => {
            env.insert(
                dst,
                Value::HeadwiseSigmoidMul {
                    x: Box::new(env[x]),
                    gate: Box::new(env[gate]),
                    rows,
                    n_head,
                    head_dim,
                },
            )
        },
        Op::HyperConnectMix { mixes, scale, base, pre, post, comb, rows, hc, n_iter } => {
            let put0 = env.insert(pre, Value::HyperConnectMix {
                mixes: Box::new(env[mixes]),
                scale,
                base,
                rows,
                hc,
                n_iter,
                part: Part::Pre,
            });
            let put1 = put_if(put0, post, Value::HyperConnectMix {
                mixes: Box::new(env[mixes]),
                scale,
                base,
                rows,
                hc,
                n_iter,
                part: Part::Post,
            });
            put_if(put1, comb, Value::HyperConnectMix {
                mixes: Box::new(env[mixes]),
                scale,
                base,
                rows,
                hc,
                n_iter,
                part: Part::Comb,
            })
        },
        Op::HyperConnectPre { x, weights, dst, rows, hc, n_embd } => {
            env.insert(
                dst,
                Value::HyperConnectPre {
                    x: Box::new(env[x]),
                    weights: Box::new(env[weights]),
                    rows,
                    hc,
                    n_embd,
                },
            )
        },
        Op::HyperConnectPost { x, residual, post, comb, dst, rows, hc, n_embd } => {
            env.insert(
                dst,
                Value::HyperConnectPost {
                    x: Box::new(env[x]),
                    residual: Box::new(env[residual]),
                    post: Box::new(env[post]),
                    comb: Box::new(env[comb]),
                    rows,
                    hc,
                    n_embd,
                },
            )
        },
        Op::QwenHcMix { x, gate, dst, rows, hc, n_embd } => {
            env.insert(
                dst,
                Value::QwenHcMix {
                    x: Box::new(env[x]),
                    gate: Box::new(env[gate]),
                    rows,
                    hc,
                    n_embd,
                },
            )
        },
        Op::QwenHcInject { residual, block, gate, dst, rows, hc, n_embd } => {
            env.insert(
                dst,
                Value::QwenHcInject {
                    residual: Box::new(env[residual]),
                    block: Box::new(env[block]),
                    gate: Box::new(env[gate]),
                    rows,
                    hc,
                    n_embd,
                },
            )
        },
        Op::QwenPleGate { key, query, value, dst, rows, hc, n_embd } => {
            env.insert(
                dst,
                Value::QwenPleGate {
                    key: Box::new(env[key]),
                    query: Box::new(env[query]),
                    value: Box::new(env[value]),
                    rows,
                    hc,
                    n_embd,
                },
            )
        },
        Op::Dsv4CacheWrite { src, cache, rows, row, cache_off, format } => {
            env.insert(
                cache,
                Value::Dsv4CacheWrite {
                    src: Box::new(env[src]),
                    onto: Box::new(env[cache]),
                    rows,
                    row,
                    cache_off,
                    format,
                },
            )
        },
        Op::Dsv4Compress {
            values,
            scores,
            ape,
            norm,
            freq_factors,
            state,
            dst,
            values_off,
            scores_off,
            pos,
            ratio,
            dim,
            rope_dim,
            theta,
            overlap,
        } => {
            let put0 = env.insert(state, Value::Dsv4Compress {
                values: Box::new(env[values]),
                scores: Box::new(env[scores]),
                ape,
                norm,
                freq_factors: held(env, freq_factors),
                state: Box::new(env[state]),
                values_off,
                scores_off,
                pos,
                ratio,
                dim,
                rope_dim,
                theta,
                overlap,
                part: Part::State,
            });
            put0.insert(dst, Value::Dsv4Compress {
                values: Box::new(env[values]),
                scores: Box::new(env[scores]),
                ape,
                norm,
                freq_factors: held(env, freq_factors),
                state: Box::new(env[state]),
                values_off,
                scores_off,
                pos,
                ratio,
                dim,
                rope_dim,
                theta,
                overlap,
                part: Part::Rows,
            })
        },
        Op::Dsv4Indexer {
            q,
            k_cache,
            weights,
            dst,
            cache_off,
            kv_len,
            n_head,
            head_dim,
            top_k,
            scale,
        } => {
            env.insert(
                dst,
                Value::Dsv4Indexer {
                    q: Box::new(env[q]),
                    k_cache: Box::new(env[k_cache]),
                    weights: Box::new(env[weights]),
                    cache_off,
                    kv_len,
                    n_head,
                    head_dim,
                    top_k,
                    scale,
                },
            )
        },
        Op::Dsv4Gather {
            raw_cache,
            comp_cache,
            indices,
            dst,
            comp_off,
            pos,
            visible,
            selected,
            head_dim,
            raw_window,
        } => {
            env.insert(
                dst,
                Value::Dsv4Gather {
                    raw_cache: Box::new(env[raw_cache]),
                    comp_cache: Box::new(env[comp_cache]),
                    indices: held(env, indices),
                    comp_off,
                    pos,
                    visible,
                    selected,
                    head_dim,
                    raw_window,
                },
            )
        },
        Op::LightningIndexer {
            q,
            k_cache,
            weights,
            dst,
            rows,
            kv_len,
            n_head,
            head_dim,
            top_k,
            scale,
            pos,
        } => {
            env.insert(
                dst,
                Value::LightningIndexer {
                    q: Box::new(env[q]),
                    k_cache: Box::new(env[k_cache]),
                    weights: Box::new(env[weights]),
                    rows,
                    kv_len,
                    n_head,
                    head_dim,
                    top_k,
                    scale,
                    pos,
                },
            )
        },
        Op::TopkMask { idx, dst, rows, kv_len, top_k } => {
            env.insert(
                dst,
                Value::TopkMask {
                    idx: Box::new(env[idx]),
                    rows,
                    kv_len,
                    top_k,
                },
            )
        },
        Op::Mla {
            q,
            k_cache,
            wk_b,
            wv_b,
            dst,
            rows,
            kv_len,
            n_head,
            q_head_dim,
            kv_lora_rank,
            qk_nope_dim,
            qk_rope_dim,
            v_head_dim,
            scale,
            mask,
            pos,
            theta,
            freq_factors,
            key_bias,
        } => {
            env.insert(
                dst,
                Value::Mla {
                    q: Box::new(env[q]),
                    k_cache: Box::new(env[k_cache]),
                    wk_b,
                    wv_b,
                    rows,
                    kv_len,
                    n_head,
                    q_head_dim,
                    kv_lora_rank,
                    qk_nope_dim,
                    qk_rope_dim,
                    v_head_dim,
                    scale,
                    mask,
                    pos,
                    theta,
                    freq_factors: held(env, freq_factors),
                    key_bias: held(env, key_bias),
                },
            )
        },
        Op::QsaIndexer {
            q,
            k_cache,
            block_cache,
            k_norm,
            positions4,
            dst,
            rows,
            kv_len,
            compress_from,
            n_head,
            head_dim,
            top_blocks,
            ratio,
            scale,
            rope_dim,
            theta,
            sections,
        } => {
            let put0 = env.insert(block_cache, Value::QsaIndexer {
                q: Box::new(env[q]),
                k_cache: Box::new(env[k_cache]),
                block_cache: Box::new(env[block_cache]),
                k_norm,
                positions4: held(env, positions4),
                rows,
                kv_len,
                compress_from,
                n_head,
                head_dim,
                top_blocks,
                ratio,
                scale,
                rope_dim,
                theta,
                sections,
                part: Part::Blocks,
            });
            put0.insert(dst, Value::QsaIndexer {
                q: Box::new(env[q]),
                k_cache: Box::new(env[k_cache]),
                block_cache: Box::new(env[block_cache]),
                k_norm,
                positions4: held(env, positions4),
                rows,
                kv_len,
                compress_from,
                n_head,
                head_dim,
                top_blocks,
                ratio,
                scale,
                rope_dim,
                theta,
                sections,
                part: Part::Rows,
            })
        },
        Op::QsaGather {
            k_cache,
            v_cache,
            indices,
            k_dst,
            v_dst,
            selected_blocks,
            complete_blocks,
            tail,
            ratio,
            row_elems,
        } => {
            let put0 = env.insert(k_dst, Value::QsaGather {
                k_cache: Box::new(env[k_cache]),
                v_cache: Box::new(env[v_cache]),
                indices: Box::new(env[indices]),
                selected_blocks,
                complete_blocks,
                tail,
                ratio,
                row_elems,
                part: Part::Keys,
            });
            put0.insert(v_dst, Value::QsaGather {
                k_cache: Box::new(env[k_cache]),
                v_cache: Box::new(env[v_cache]),
                indices: Box::new(env[indices]),
                selected_blocks,
                complete_blocks,
                tail,
                ratio,
                row_elems,
                part: Part::Values,
            })
        },
        Op::QsaBatchAttention {
            q,
            k_cache,
            v_cache,
            indices,
            dst,
            rows,
            kv_len,
            n_head,
            n_kv,
            head_dim,
            top_blocks,
            ratio,
            scale,
        } => {
            env.insert(
                dst,
                Value::QsaBatchAttention {
                    q: Box::new(env[q]),
                    k_cache: Box::new(env[k_cache]),
                    v_cache: Box::new(env[v_cache]),
                    indices: Box::new(env[indices]),
                    rows,
                    kv_len,
                    n_head,
                    n_kv,
                    head_dim,
                    top_blocks,
                    ratio,
                    scale,
                },
            )
        },
        Op::GatherI32 { ids, table, dst, rows, ne } => {
            env.insert(
                dst,
                Value::GatherI32 {
                    ids: Box::new(env[ids]),
                    table,
                    rows,
                    ne,
                },
            )
        },
        Op::MoeFfn {
            x,
            router_x,
            router,
            gate_exps,
            up_exps,
            down_exps,
            down_scale,
            fused_gate_up,
            dst,
            ne,
            n_expert,
            n_used,
            n_ff_exp,
            act,
            rule,
            exp_probs_b,
            clamp,
            expert_ids,
        } => {
            env.insert(
                dst,
                Value::MoeFfn {
                    x: Box::new(env[x]),
                    router_x: Box::new(env[router_x]),
                    router,
                    gate_exps,
                    up_exps,
                    down_exps,
                    down_scale,
                    fused_gate_up,
                    ne,
                    n_expert,
                    n_used,
                    n_ff_exp,
                    act,
                    rule,
                    exp_probs_b,
                    clamp,
                    expert_ids: held(env, expert_ids),
                },
            )
        },
        Op::MoeSharedExpertAdd { moe, shexp, gate, dst, rows, n } => {
            env.insert(
                dst,
                Value::MoeSharedExpertAdd {
                    moe: Box::new(env[moe]),
                    shexp: Box::new(env[shexp]),
                    gate: Box::new(env[gate]),
                    rows,
                    n,
                },
            )
        },
        Op::Softcap { x, dst, rows, n } => {
            env.insert(
                dst,
                Value::Softcap {
                    x: Box::new(env[x]),
                    rows,
                    n,
                },
            )
        },
        Op::Argmax { x, dst, n, rows } => {
            env.insert(
                dst,
                Value::Argmax {
                    x: Box::new(env[x]),
                    n,
                    rows,
                },
            )
        },
        Op::Sample { x, u, dst, n, rows, top_k } => {
            env.insert(
                dst,
                Value::Sample {
                    x: Box::new(env[x]),
                    u: Box::new(env[u]),
                    n,
                    rows,
                    top_k,
                },
            )
        },
    }
}

/// What each tensor holds after the first `n` operations.
pub open spec fn after_first(env: Values, ops: Seq<Op>, n: nat) -> Values
    decreases n,
{
    if n == 0 {
        env
    } else {
        step(after_first(env, ops, (n - 1) as nat), ops[n - 1])
    }
}

/// What each tensor holds after all operations.
#[verifier::opaque]
pub open spec fn after(env: Values, ops: Seq<Op>) -> Values {
    after_first(env, ops, ops.len())
}

proof fn lemma_after_front(env: Values, a: Seq<Op>, b: Seq<Op>, n: nat)
    requires
        n <= a.len(),
    ensures
        after_first(env, a + b, n) == after_first(env, a, n),
    decreases n,
{
    if n > 0 {
        lemma_after_front(env, a, b, (n - 1) as nat);
        assert((a + b)[n - 1] == a[n - 1]);
    }
}

proof fn lemma_after_behind(env: Values, a: Seq<Op>, b: Seq<Op>, n: nat)
    requires
        n <= b.len(),
    ensures
        after_first(env, a + b, a.len() + n) == after_first(after(env, a), b, n),
    decreases n,
{
    reveal(after);
    lemma_after_front(env, a, b, a.len());
    if n > 0 {
        lemma_after_behind(env, a, b, (n - 1) as nat);
        assert((a + b)[a.len() + n - 1] == b[n - 1]);
    }
}

/// Operations behind others go on from what those left.
pub proof fn lemma_after_join(env: Values, a: Seq<Op>, b: Seq<Op>)
    ensures
        after(env, a + b) == after(after(env, a), b),
{
    reveal(after);
    lemma_after_behind(env, a, b, b.len());
}

/// The operations do not write the tensor.
pub open spec fn spares(ops: Seq<Op>, t: TensorId) -> bool {
    forall|k: int| 0 <= k < ops.len() ==> !#[trigger] ops[k].writes(t)
}

proof fn lemma_step_spares(env: Values, op: Op, t: TensorId)
    requires
        !op.writes(t),
    ensures
        step(env, op)[t] == env[t],
{
    reveal(step);
}

/// What no operation writes is kept.
pub proof fn law_what_no_operation_writes_is_kept(env: Values, ops: Seq<Op>, t: TensorId)
    requires
        spares(ops, t),
    ensures
        after(env, ops)[t] == env[t],
{
    reveal(after);
    lemma_spared_first(env, ops, t, ops.len());
}

proof fn lemma_spared_first(env: Values, ops: Seq<Op>, t: TensorId, n: nat)
    requires
        spares(ops, t),
        n <= ops.len(),
    ensures
        after_first(env, ops, n)[t] == env[t],
    decreases n,
{
    if n > 0 {
        lemma_spared_first(env, ops, t, (n - 1) as nat);
        lemma_step_spares(after_first(env, ops, (n - 1) as nat), ops[n - 1], t);
    }
}

/// The rows, projected by a whole weight.
pub open spec fn projected(x: Value, weight: usize, m: usize, in_f: usize, out_f: usize) -> Value {
    Value::Linear {
        x: Box::new(x),
        weight: WeightRef::Uploaded(weight),
        m,
        in_f,
        out_f,
        w_off: 0,
    }
}

/// The rows, projected by the part of a weight from element `w_off` on.
pub open spec fn projected_from(
    x: Value,
    weight: usize,
    w_off: usize,
    m: usize,
    in_f: usize,
    out_f: usize,
) -> Value {
    Value::Linear {
        x: Box::new(x),
        weight: WeightRef::Uploaded(weight),
        m,
        in_f,
        out_f,
        w_off,
    }
}

/// The rows, normed.
pub open spec fn normed(x: Value, weight: usize, rows: usize, dim: usize) -> Value {
    Value::RmsNorm { x: Box::new(x), weight, rows, dim }
}

/// The rows, normed where there is a weight for it.
pub open spec fn normed_if(x: Value, weight: Option<usize>, rows: usize, dim: usize) -> Value {
    match weight {
        Some(weight) => normed(x, weight, rows, dim),
        None => x,
    }
}

/// The sum of two tensors.
pub open spec fn added(a: Value, b: Value, rows: usize, n: usize) -> Value {
    Value::Add { a: Box::new(a), b: Box::new(b), rows, n }
}

/// The rows, multiplied by a constant.
pub open spec fn times(x: Value, s: Scalar, rows: usize, n: usize) -> Value {
    Value::Scale { x: Box::new(x), s, rows, n }
}

/// The rows, multiplied by a weight.
pub open spec fn weighted(x: Value, vec: usize, rows: usize, n: usize) -> Value {
    Value::MulVec { x: Box::new(x), vec, rows, n }
}

/// The rows `up`, multiplied by the activated rows `left`; both are packed.
pub open spec fn activated(
    left: Value,
    up: Value,
    rows: usize,
    nff: usize,
    act: Activation,
    clamp: Clamp,
) -> Value {
    Value::GatedAct {
        gate: Box::new(left),
        up: Box::new(up),
        rows,
        nff,
        act,
        up_off: 0,
        up_stride: 0,
        gate_stride: 0,
        gate_block: 0,
        clamp,
    }
}

/// The first rows of a tensor, replaced by those of another.
pub open spec fn replaced(src: Value, onto: Value, rows: usize, n: usize) -> Value {
    Value::Copy { src: Box::new(src), src_off: 0, onto: Box::new(onto), dst_off: 0, rows, n }
}

/// Each row's `n` elements from `src_off` on, put over a row's elements from `dst_off` on.
pub open spec fn placed(
    src: Value,
    src_off: usize,
    src_stride: usize,
    onto: Value,
    dst_off: usize,
    dst_stride: usize,
    rows: usize,
    n: usize,
) -> Value {
    Value::CopyStrided {
        src: Box::new(src),
        src_off,
        src_stride,
        onto: Box::new(onto),
        dst_off,
        dst_stride,
        rows,
        n,
    }
}

/// A cache with the rows written from position `pos` on.
pub open spec fn stored(src: Value, cache: Value, rows: usize, row_stride: usize, pos: usize) -> Value {
    Value::WriteKv { src: Box::new(src), cache: Box::new(cache), rows, row_stride, pos }
}

/// Each head, normed.
pub open spec fn heads_normed(
    x: Value,
    weight: Option<usize>,
    rows: usize,
    n_head: usize,
    head_dim: usize,
) -> Value {
    Value::QkNorm { x: Box::new(x), weight, rows, n_head, head_dim, x_stride: 0 }
}

/// The rows with a bias, where there is one.
pub open spec fn shifted_if(x: Value, bias: Option<usize>, rows: usize, n: usize) -> Value {
    match bias {
        Some(bias) => Value::AddBias { x: Box::new(x), bias, rows, n },
        None => x,
    }
}

} // verus!
