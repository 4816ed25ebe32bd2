//! The operations of a graph.
//!
//! Operands are numbers of declared tensors; weights are numbers in the order of their upload. Real
//! constants are named, not computed: the driver knows the model's own and works the others out.

use crate::attention_plan::AttnMask;
use crate::weight_plan::TensorId;
use vstd::prelude::*;

verus! {

/// A real constant.
#[derive(Clone, Copy, Debug, PartialEq, Eq, Structural)]
pub enum Scalar {
    One,
    Sqrt(usize),
    InvSqrt(usize),
    /// The inverse square root, times the square of what a stretched context asks of attention.
    Latent(usize),
    Inverse(usize),
    /// The scale of a layer's output while a prompt is read.
    PromptScale(usize),
    /// The scale of a layer's output on a canvas.
    CanvasScale(usize),
}

/// The base of a rotation.
#[derive(Clone, Copy, Debug, PartialEq, Eq, Structural)]
pub enum Theta {
    Layer(usize),
    Model,
    Compressed,
}

#[derive(Clone, Copy, Debug, PartialEq, Eq, Structural)]
pub enum Activation {
    Gelu,
    Silu,
    Sigmoid,
}

/// A bound on activations.
#[derive(Clone, Copy, Debug, PartialEq, Eq, Structural)]
pub enum Clamp {
    Off,
    /// The bound of a layer's routed experts.
    Routed(usize),
    /// The bound of a layer's shared expert.
    Shared(usize),
}

/// How rows are packed in a compressed cache.
#[derive(Clone, Copy, Debug, PartialEq, Eq, Structural)]
pub enum CacheForm {
    Fp8Kv,
    Mxfp4,
}

/// The weight of a projection.
#[derive(Clone, Copy, Debug, PartialEq, Eq, Structural)]
pub enum WeightRef {
    /// The weight with this number in the order of upload.
    Uploaded(usize),
    /// The transposed embedding table of canvas conditioning, which is bound apart.
    SoftEmbedding,
}

/// How many rotation pairs go by each of the four components of a position: time, height, width and
/// the last one.
#[derive(Clone, Copy, Debug, PartialEq, Eq, Structural)]
pub struct Sections {
    pub time: u32,
    pub height: u32,
    pub width: u32,
    pub last: u32,
}

/// How a router's scores become the weights of experts.
#[derive(Clone, Copy, Debug, PartialEq, Eq, Structural)]
pub struct MoeRule {
    /// The function that scores go through, by the driver's number for it.
    pub gating: u32,
    /// The weights of the chosen experts are made to add up to one.
    pub norm_w: bool,
    /// The weights are applied before the experts, not behind them.
    pub weight_before: bool,
    /// The groups that experts are chosen from, and how many of them; zero where there are no groups.
    pub n_groups: usize,
    pub n_groups_used: usize,
}

impl MoeRule {
    /// The same rule for experts that stand in no groups.
    pub open spec fn ungrouped(self) -> MoeRule {
        MoeRule { n_groups: 0, n_groups_used: 0, ..self }
    }

    /// See [`MoeRule::ungrouped`].
    pub fn without_groups(self) -> (rule: MoeRule)
        ensures
            rule == self.ungrouped(),
    {
        MoeRule { n_groups: 0, n_groups_used: 0, ..self }
    }
}

/// One operation.
#[allow(inconsistent_fields)]
#[derive(Clone, Copy, Debug, PartialEq, Eq, Structural)]
pub enum Op {
    /// Rows of a table, one per token id.
    EmbedGather {
        ids: TensorId,
        table: usize,
        dst: TensorId,
        rows: usize,
        ne: usize,
        scale: Scalar,
    },
    /// A projection, from element `w_off` of the weight on.
    Linear {
        x: TensorId,
        weight: WeightRef,
        dst: TensorId,
        m: usize,
        in_f: usize,
        out_f: usize,
        w_off: usize,
    },
    Scale { x: TensorId, dst: TensorId, s: Scalar, rows: usize, n: usize },
    RmsNorm { x: TensorId, weight: usize, dst: TensorId, rows: usize, dim: usize },
    /// Adds the normed rows to `dst`.
    RmsNormAdd { x: TensorId, weight: usize, dst: TensorId, rows: usize, dim: usize },
    LayerNorm { x: TensorId, weight: usize, bias: usize, dst: TensorId, rows: usize, dim: usize },
    Add { a: TensorId, b: TensorId, dst: TensorId, rows: usize, n: usize },
    AddBias { x: TensorId, bias: usize, dst: TensorId, rows: usize, n: usize },
    MulVec { x: TensorId, vec: usize, dst: TensorId, rows: usize, n: usize },
    /// Of `scale` times the input.
    Silu { x: TensorId, dst: TensorId, rows: usize, n: usize, scale: Scalar },
    /// At the temperature in `scale_buf`, where it is given.
    Softmax {
        x: TensorId,
        dst: TensorId,
        rows: usize,
        dim: usize,
        scale: Scalar,
        scale_buf: Option<TensorId>,
    },
    /// Activates the gates and multiplies; strides of zero mean packed rows.
    GatedAct {
        gate: TensorId,
        up: TensorId,
        dst: TensorId,
        rows: usize,
        nff: usize,
        act: Activation,
        up_off: usize,
        up_stride: usize,
        gate_stride: usize,
        gate_block: usize,
        clamp: Clamp,
    },
    /// The same on rows that hold both halves.
    GatedActFused { gu: TensorId, dst: TensorId, rows: usize, nff: usize, act: Activation },
    /// Norms each head and multiplies by the activated gates.
    GatedRmsNorm {
        x: TensorId,
        weight: usize,
        gate: TensorId,
        dst: TensorId,
        rows: usize,
        n_head: usize,
        head_dim: usize,
    },
    /// Norms each head; without a weight where none is given.
    QkNorm {
        x: TensorId,
        weight: Option<usize>,
        dst: TensorId,
        rows: usize,
        n_head: usize,
        head_dim: usize,
        x_stride: usize,
    },
    /// Norms and rotates each head.
    QkNormRope {
        x: TensorId,
        weight: usize,
        positions: TensorId,
        dst: TensorId,
        rows: usize,
        n_head: usize,
        head_dim: usize,
        rope_dim: usize,
        theta: Theta,
        freq_factors: Option<TensorId>,
        x_stride: usize,
    },
    /// Norms each head and rotates it by four-component positions.
    QkNormMrope {
        x: TensorId,
        weight: usize,
        positions4: TensorId,
        dst: TensorId,
        rows: usize,
        n_head: usize,
        head_dim: usize,
        rope_dim: usize,
        theta: Theta,
        sections: Sections,
        x_stride: usize,
    },
    /// Rotates each head, by halves if `neox`, and back if `backward`.
    Rope {
        x: TensorId,
        positions: TensorId,
        dst: TensorId,
        rows: usize,
        n_head: usize,
        head_dim: usize,
        rope_dim: usize,
        theta: Theta,
        freq_factors: Option<TensorId>,
        x_stride: usize,
        neox: bool,
        backward: bool,
    },
    Copy { src: TensorId, src_off: usize, dst: TensorId, dst_off: usize, rows: usize, n: usize },
    CopyStrided {
        src: TensorId,
        src_off: usize,
        src_stride: usize,
        dst: TensorId,
        dst_off: usize,
        dst_stride: usize,
        rows: usize,
        n: usize,
    },
    /// Writes rows to a cache, from position `pos` on.
    WriteKv { src: TensorId, cache: TensorId, rows: usize, row_stride: usize, pos: usize },
    Attention {
        q: TensorId,
        k_cache: TensorId,
        v_cache: TensorId,
        dst: TensorId,
        rows: usize,
        kv_len: usize,
        n_head: usize,
        n_kv: usize,
        head_dim: usize,
        scale: Scalar,
        mask: AttnMask,
        pos: usize,
        sinks: Option<usize>,
    },
    /// A causal convolution with its history in `state`.
    Conv1dSilu {
        x: TensorId,
        weight: usize,
        state: TensorId,
        dst: TensorId,
        rows: usize,
        channels: usize,
        kernel: usize,
    },
    DeltaNet {
        q: TensorId,
        k: TensorId,
        v: TensorId,
        b: TensorId,
        a: TensorId,
        a_coef: usize,
        dt_bias: usize,
        state: TensorId,
        dst: TensorId,
        rows: usize,
        n_vhead: usize,
        n_khead: usize,
        head_k: usize,
        head_v: usize,
        src_stride: usize,
    },
    Kda {
        qkv: TensorId,
        forget: TensorId,
        beta: TensorId,
        a: usize,
        dt_bias: usize,
        state: TensorId,
        dst: TensorId,
        rows: usize,
        n_head: usize,
        head_dim: usize,
    },
    HeadwiseSigmoidMul {
        x: TensorId,
        gate: TensorId,
        dst: TensorId,
        rows: usize,
        n_head: usize,
        head_dim: usize,
    },
    /// The weights of the residual streams; those that write them back only where asked for.
    HyperConnectMix {
        mixes: TensorId,
        scale: usize,
        base: usize,
        pre: TensorId,
        post: Option<TensorId>,
        comb: Option<TensorId>,
        rows: usize,
        hc: usize,
        n_iter: usize,
    },
    /// Collapses the residual streams.
    HyperConnectPre {
        x: TensorId,
        weights: TensorId,
        dst: TensorId,
        rows: usize,
        hc: usize,
        n_embd: usize,
    },
    /// Writes a block's output back over the residual streams.
    HyperConnectPost {
        x: TensorId,
        residual: TensorId,
        post: TensorId,
        comb: TensorId,
        dst: TensorId,
        rows: usize,
        hc: usize,
        n_embd: usize,
    },
    QwenHcMix { x: TensorId, gate: TensorId, dst: TensorId, rows: usize, hc: usize, n_embd: usize },
    QwenHcInject {
        residual: TensorId,
        block: TensorId,
        gate: TensorId,
        dst: TensorId,
        rows: usize,
        hc: usize,
        n_embd: usize,
    },
    QwenPleGate {
        key: TensorId,
        query: TensorId,
        value: TensorId,
        dst: TensorId,
        rows: usize,
        hc: usize,
        n_embd: usize,
    },
    Dsv4CacheWrite {
        src: TensorId,
        cache: TensorId,
        rows: usize,
        row: usize,
        cache_off: usize,
        format: CacheForm,
    },
    Dsv4Compress {
        values: TensorId,
        scores: TensorId,
        ape: usize,
        norm: usize,
        freq_factors: Option<TensorId>,
        state: TensorId,
        dst: TensorId,
        values_off: usize,
        scores_off: usize,
        pos: usize,
        ratio: usize,
        dim: usize,
        rope_dim: usize,
        theta: Theta,
        overlap: bool,
    },
    Dsv4Indexer {
        q: TensorId,
        k_cache: TensorId,
        weights: TensorId,
        dst: TensorId,
        cache_off: usize,
        kv_len: usize,
        n_head: usize,
        head_dim: usize,
        top_k: usize,
        scale: Scalar,
    },
    Dsv4Gather {
        raw_cache: TensorId,
        comp_cache: TensorId,
        indices: Option<TensorId>,
        dst: TensorId,
        comp_off: usize,
        pos: usize,
        visible: usize,
        selected: usize,
        head_dim: usize,
        raw_window: usize,
    },
    LightningIndexer {
        q: TensorId,
        k_cache: TensorId,
        weights: TensorId,
        dst: TensorId,
        rows: usize,
        kv_len: usize,
        n_head: usize,
        head_dim: usize,
        top_k: usize,
        scale: Scalar,
        pos: usize,
    },
    TopkMask { idx: TensorId, dst: TensorId, rows: usize, kv_len: usize, top_k: usize },
    Mla {
        q: TensorId,
        k_cache: TensorId,
        wk_b: usize,
        wv_b: usize,
        dst: TensorId,
        rows: usize,
        kv_len: usize,
        n_head: usize,
        q_head_dim: usize,
        kv_lora_rank: usize,
        qk_nope_dim: usize,
        qk_rope_dim: usize,
        v_head_dim: usize,
        scale: Scalar,
        mask: AttnMask,
        pos: usize,
        theta: Theta,
        freq_factors: Option<TensorId>,
        key_bias: Option<TensorId>,
    },
    QsaIndexer {
        q: TensorId,
        k_cache: TensorId,
        block_cache: TensorId,
        k_norm: usize,
        positions4: Option<TensorId>,
        dst: TensorId,
        rows: usize,
        kv_len: usize,
        compress_from: usize,
        n_head: usize,
        head_dim: usize,
        top_blocks: usize,
        ratio: usize,
        scale: Scalar,
        rope_dim: usize,
        theta: Theta,
        sections: Sections,
    },
    QsaGather {
        k_cache: TensorId,
        v_cache: TensorId,
        indices: TensorId,
        k_dst: TensorId,
        v_dst: TensorId,
        selected_blocks: usize,
        complete_blocks: usize,
        tail: usize,
        ratio: usize,
        row_elems: usize,
    },
    QsaBatchAttention {
        q: TensorId,
        k_cache: TensorId,
        v_cache: TensorId,
        indices: TensorId,
        dst: TensorId,
        rows: usize,
        kv_len: usize,
        n_head: usize,
        n_kv: usize,
        head_dim: usize,
        top_blocks: usize,
        ratio: usize,
        scale: Scalar,
    },
    /// Rows of a table of integers, one per token id.
    GatherI32 { ids: TensorId, table: usize, dst: TensorId, rows: usize, ne: usize },
    /// Routed experts: by the router's scores, or by `expert_ids` where they are given.
    MoeFfn {
        x: TensorId,
        router_x: TensorId,
        router: usize,
        gate_exps: usize,
        up_exps: usize,
        down_exps: usize,
        down_scale: Option<usize>,
        fused_gate_up: bool,
        dst: TensorId,
        ne: usize,
        n_expert: usize,
        n_used: usize,
        n_ff_exp: usize,
        act: Activation,
        rule: MoeRule,
        exp_probs_b: Option<usize>,
        clamp: Clamp,
        expert_ids: Option<TensorId>,
    },
    MoeSharedExpertAdd {
        moe: TensorId,
        shexp: TensorId,
        gate: TensorId,
        dst: TensorId,
        rows: usize,
        n: usize,
    },
    Softcap { x: TensorId, dst: TensorId, rows: usize, n: usize },
    Argmax { x: TensorId, dst: TensorId, n: usize, rows: usize },
    Sample { x: TensorId, u: TensorId, dst: TensorId, n: usize, rows: usize, top_k: usize },
}

impl Op {
    /// The operation reads the tensor; weights are not tensors of the graph.
    pub open spec fn reads(self, t: TensorId) -> bool {
        match self {
            Op::EmbedGather { ids, .. } => t == ids,
            Op::Linear { x, .. } => t == x,
            Op::Scale { x, .. } => t == x,
            Op::RmsNorm { x, .. } => t == x,
            Op::RmsNormAdd { x, dst, .. } => t == x || t == dst,
            Op::LayerNorm { x, .. } => t == x,
            Op::Add { a, b, .. } => t == a || t == b,
            Op::AddBias { x, .. } => t == x,
            Op::MulVec { x, .. } => t == x,
            Op::Silu { x, .. } => t == x,
            Op::Softmax { x, scale_buf, .. } => t == x || scale_buf == Some(t),
            Op::GatedAct { gate, up, .. } => t == gate || t == up,
            Op::GatedActFused { gu, .. } => t == gu,
            Op::GatedRmsNorm { x, gate, .. } => t == x || t == gate,
            Op::QkNorm { x, .. } => t == x,
            Op::QkNormRope { x, positions, freq_factors, .. } => {
                t == x
                    || t == positions
                    || freq_factors == Some(t)
            },
            Op::QkNormMrope { x, positions4, .. } => t == x || t == positions4,
            Op::Rope { x, positions, freq_factors, .. } => {
                t == x
                    || t == positions
                    || freq_factors == Some(t)
            },
            Op::Copy { src, .. } => t == src,
            Op::CopyStrided { src, .. } => t == src,
            Op::WriteKv { src, cache, .. } => t == src || t == cache,
            Op::Attention { q, k_cache, v_cache, .. } => t == q || t == k_cache || t == v_cache,
            Op::Conv1dSilu { x, state, .. } => t == x || t == state,
            Op::DeltaNet { q, k, v, b, a, state, .. } => {
                t == q
                    || t == k
                    || t == v
                    || t == b
                    || t == a
                    || t == state
            },
            Op::Kda { qkv, forget, beta, state, .. } => {
                t == qkv
                    || t == forget
                    || t == beta
                    || t == state
            },
            Op::HeadwiseSigmoidMul { x, gate, .. } => t == x || t == gate,
            Op::HyperConnectMix { mixes, .. } => t == mixes,
            Op::HyperConnectPre { x, weights, .. } => t == x || t == weights,
            Op::HyperConnectPost { x, residual, post, comb, .. } => {
                t == x
                    || t == residual
                    || t == post
                    || t == comb
            },
            Op::QwenHcMix { x, gate, .. } => t == x || t == gate,
            Op::QwenHcInject { residual, block, gate, .. } => {
                t == residual
                    || t == block
                    || t == gate
            },
            Op::QwenPleGate { key, query, value, .. } => t == key || t == query || t == value,
            Op::Dsv4CacheWrite { src, .. } => t == src,
            Op::Dsv4Compress { values, scores, state, freq_factors, .. } => {
                t == values
                    || t == scores
                    || t == state
                    || freq_factors == Some(t)
            },
            Op::Dsv4Indexer { q, k_cache, weights, .. } => t == q || t == k_cache || t == weights,
            Op::Dsv4Gather { raw_cache, comp_cache, indices, .. } => {
                t == raw_cache
                    || t == comp_cache
                    || indices == Some(t)
            },
            Op::LightningIndexer { q, k_cache, weights, .. } => {
                t == q
                    || t == k_cache
                    || t == weights
            },
            Op::TopkMask { idx, .. } => t == idx,
            Op::Mla { q, k_cache, freq_factors, key_bias, .. } => {
                t == q
                    || t == k_cache
                    || freq_factors == Some(t)
                    || key_bias == Some(t)
            },
            Op::QsaIndexer { q, k_cache, block_cache, positions4, .. } => {
                t == q
                    || t == k_cache
                    || t == block_cache
                    || positions4 == Some(t)
            },
            Op::QsaGather { k_cache, v_cache, indices, .. } => {
                t == k_cache
                    || t == v_cache
                    || t == indices
            },
            Op::QsaBatchAttention { q, k_cache, v_cache, indices, .. } => {
                t == q
                    || t == k_cache
                    || t == v_cache
                    || t == indices
            },
            Op::GatherI32 { ids, .. } => t == ids,
            Op::MoeFfn { x, router_x, expert_ids, .. } => {
                t == x
                    || t == router_x
                    || expert_ids == Some(t)
            },
            Op::MoeSharedExpertAdd { moe, shexp, gate, .. } => t == moe || t == shexp || t == gate,
            Op::Softcap { x, .. } => t == x,
            Op::Argmax { x, .. } => t == x,
            Op::Sample { x, u, .. } => t == x || t == u,
        }
    }

    /// The operation writes the tensor.
    pub open spec fn writes(self, t: TensorId) -> bool {
        match self {
            Op::EmbedGather { dst, .. } => t == dst,
            Op::Linear { dst, .. } => t == dst,
            Op::Scale { dst, .. } => t == dst,
            Op::RmsNorm { dst, .. } => t == dst,
            Op::RmsNormAdd { dst, .. } => t == dst,
            Op::LayerNorm { dst, .. } => t == dst,
            Op::Add { dst, .. } => t == dst,
            Op::AddBias { dst, .. } => t == dst,
            Op::MulVec { dst, .. } => t == dst,
            Op::Silu { dst, .. } => t == dst,
            Op::Softmax { dst, .. } => t == dst,
            Op::GatedAct { dst, .. } => t == dst,
            Op::GatedActFused { dst, .. } => t == dst,
            Op::GatedRmsNorm { dst, .. } => t == dst,
            Op::QkNorm { dst, .. } => t == dst,
            Op::QkNormRope { dst, .. } => t == dst,
            Op::QkNormMrope { dst, .. } => t == dst,
            Op::Rope { dst, .. } => t == dst,
            Op::Copy { dst, .. } => t == dst,
            Op::CopyStrided { dst, .. } => t == dst,
            Op::WriteKv { cache, .. } => t == cache,
            Op::Attention { dst, .. } => t == dst,
            Op::Conv1dSilu { state, dst, .. } => t == state || t == dst,
            Op::DeltaNet { state, dst, .. } => t == state || t == dst,
            Op::Kda { state, dst, .. } => t == state || t == dst,
            Op::HeadwiseSigmoidMul { dst, .. } => t == dst,
            Op::HyperConnectMix { pre, post, comb, .. } => t == pre || post == Some(t) || comb == Some(t),
            Op::HyperConnectPre { dst, .. } => t == dst,
            Op::HyperConnectPost { dst, .. } => t == dst,
            Op::QwenHcMix { dst, .. } => t == dst,
            Op::QwenHcInject { dst, .. } => t == dst,
            Op::QwenPleGate { dst, .. } => t == dst,
            Op::Dsv4CacheWrite { cache, .. } => t == cache,
            Op::Dsv4Compress { state, dst, .. } => t == state || t == dst,
            Op::Dsv4Indexer { dst, .. } => t == dst,
            Op::Dsv4Gather { dst, .. } => t == dst,
            Op::LightningIndexer { dst, .. } => t == dst,
            Op::TopkMask { dst, .. } => t == dst,
            Op::Mla { dst, .. } => t == dst,
            Op::QsaIndexer { block_cache, dst, .. } => t == block_cache || t == dst,
            Op::QsaGather { k_dst, v_dst, .. } => t == k_dst || t == v_dst,
            Op::QsaBatchAttention { dst, .. } => t == dst,
            Op::GatherI32 { dst, .. } => t == dst,
            Op::MoeFfn { dst, .. } => t == dst,
            Op::MoeSharedExpertAdd { dst, .. } => t == dst,
            Op::Softcap { dst, .. } => t == dst,
            Op::Argmax { dst, .. } => t == dst,
            Op::Sample { dst, .. } => t == dst,
        }
    }
}

/// The projection by a whole weight.
#[verifier::allow_in_spec]
pub fn linear(
    x: TensorId,
    weight: usize,
    dst: TensorId,
    m: usize,
    in_f: usize,
    out_f: usize,
) -> Op
    returns
        (Op::Linear {
            x,
            weight: WeightRef::Uploaded(weight),
            dst,
            m,
            in_f,
            out_f,
            w_off: 0,
        }),
{
    Op::Linear {
        x,
        weight: WeightRef::Uploaded(weight),
        dst,
        m,
        in_f,
        out_f,
        w_off: 0,
    }
}

/// The projection by a part of a weight.
#[verifier::allow_in_spec]
pub fn linear_from(
    x: TensorId,
    weight: usize,
    w_off: usize,
    dst: TensorId,
    m: usize,
    in_f: usize,
    out_f: usize,
) -> Op
    returns
        (Op::Linear {
            x,
            weight: WeightRef::Uploaded(weight),
            dst,
            m,
            in_f,
            out_f,
            w_off,
        }),
{
    Op::Linear {
        x,
        weight: WeightRef::Uploaded(weight),
        dst,
        m,
        in_f,
        out_f,
        w_off,
    }
}

#[verifier::allow_in_spec]
pub fn rms_norm(x: TensorId, weight: usize, dst: TensorId, rows: usize, dim: usize) -> Op
    returns
        (Op::RmsNorm {
            x,
            weight,
            dst,
            rows,
            dim,
        }),
{
    Op::RmsNorm {
        x,
        weight,
        dst,
        rows,
        dim,
    }
}

#[verifier::allow_in_spec]
pub fn sum(a: TensorId, b: TensorId, dst: TensorId, rows: usize, n: usize) -> Op
    returns
        (Op::Add {
            a,
            b,
            dst,
            rows,
            n,
        }),
{
    Op::Add {
        a,
        b,
        dst,
        rows,
        n,
    }
}

/// A multiplication in place.
#[verifier::allow_in_spec]
pub fn scaled(x: TensorId, s: Scalar, rows: usize, n: usize) -> Op
    returns
        (Op::Scale {
            x,
            dst: x,
            s,
            rows,
            n,
        }),
{
    Op::Scale {
        x,
        dst: x,
        s,
        rows,
        n,
    }
}

/// A multiplication by a weight, in place.
#[verifier::allow_in_spec]
pub fn times_vec(x: TensorId, vec: usize, rows: usize, n: usize) -> Op
    returns
        (Op::MulVec {
            x,
            vec,
            dst: x,
            rows,
            n,
        }),
{
    Op::MulVec {
        x,
        vec,
        dst: x,
        rows,
        n,
    }
}

#[verifier::allow_in_spec]
pub fn copied(src: TensorId, dst: TensorId, rows: usize, n: usize) -> Op
    returns
        (Op::Copy {
            src,
            src_off: 0,
            dst,
            dst_off: 0,
            rows,
            n,
        }),
{
    Op::Copy {
        src,
        src_off: 0,
        dst,
        dst_off: 0,
        rows,
        n,
    }
}

#[verifier::allow_in_spec]
pub fn copy_part(
    src: TensorId,
    src_off: usize,
    src_stride: usize,
    dst: TensorId,
    dst_off: usize,
    dst_stride: usize,
    rows: usize,
    n: usize,
) -> Op
    returns
        (Op::CopyStrided {
            src,
            src_off,
            src_stride,
            dst,
            dst_off,
            dst_stride,
            rows,
            n,
        }),
{
    Op::CopyStrided {
        src,
        src_off,
        src_stride,
        dst,
        dst_off,
        dst_stride,
        rows,
        n,
    }
}

/// Gates on packed rows.
#[verifier::allow_in_spec]
pub fn gated(
    gate: TensorId,
    up: TensorId,
    dst: TensorId,
    rows: usize,
    nff: usize,
    act: Activation,
    clamp: Clamp,
) -> Op
    returns
        (Op::GatedAct {
            gate,
            up,
            dst,
            rows,
            nff,
            act,
            up_off: 0,
            up_stride: 0,
            gate_stride: 0,
            gate_block: 0,
            clamp,
        }),
{
    Op::GatedAct {
        gate,
        up,
        dst,
        rows,
        nff,
        act,
        up_off: 0,
        up_stride: 0,
        gate_stride: 0,
        gate_block: 0,
        clamp,
    }
}

/// The norm of each head, in place.
#[verifier::allow_in_spec]
pub fn head_norms(
    x: TensorId,
    weight: Option<usize>,
    rows: usize,
    n_head: usize,
    head_dim: usize,
) -> Op
    returns
        (Op::QkNorm {
            x,
            weight,
            dst: x,
            rows,
            n_head,
            head_dim,
            x_stride: 0,
        }),
{
    Op::QkNorm {
        x,
        weight,
        dst: x,
        rows,
        n_head,
        head_dim,
        x_stride: 0,
    }
}

#[verifier::allow_in_spec]
pub fn write_kv(src: TensorId, cache: TensorId, rows: usize, row_stride: usize, pos: usize) -> Op
    returns
        (Op::WriteKv {
            src,
            cache,
            rows,
            row_stride,
            pos,
        }),
{
    Op::WriteKv {
        src,
        cache,
        rows,
        row_stride,
        pos,
    }
}

#[verifier::allow_in_spec]
pub fn convolve(
    x: TensorId,
    weight: usize,
    state: TensorId,
    dst: TensorId,
    rows: usize,
    channels: usize,
    kernel: usize,
) -> Op
    returns
        (Op::Conv1dSilu {
            x,
            weight,
            state,
            dst,
            rows,
            channels,
            kernel,
        }),
{
    Op::Conv1dSilu {
        x,
        weight,
        state,
        dst,
        rows,
        channels,
        kernel,
    }
}

} // verus!
