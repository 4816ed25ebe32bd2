//! That every scratch tensor of a graph has a number of its own, and the size that its name
//! asks for.

use crate::config::DType;
use crate::graph_dims::GraphDims;
use crate::graph_scratch::{
    gates_at, joins_qkv, last_at, mixing_at, numbered_selections, one_scratch, qkv_at,
    scratch_at, scratch_decls, scratch_end, selecting_below, selection_at,
    selection_decls, selections_at, AttentionScratch, CompressedBlockScratch,
    CompressedQueryScratch, CompressedScratch, ConditionScratch, CoreScratch, DeltaScratch,
    ExpertScratch, FrontScratch, GateScratch, LatentScratch, MixingScratch, PerLayerScratch,
    QueryGateScratch, QwenScratch, Scratch, ScratchDecl, ScratchFlags, SparseScratch,
    StreamScratch, TokenIndexScratch, WorkScratch,
};
use crate::numbering::{
    ascends, counts_from, lemma_ascending_numbers_differ, lemma_ascends_join, lemma_counts_ascend,
    nth, one_listed, one_number, taken,
};
use crate::weight_plan::TensorId;
use vstd::prelude::*;

verus! {

/// The numbers of the selections of the first `n` layers.
pub open spec fn selections_listed(ids: Seq<Option<TensorId>>, n: nat) -> Seq<TensorId>
    decreases n,
{
    if n == 0 {
        Seq::empty()
    } else {
        selections_listed(ids, (n - 1) as nat) + one_listed(ids[n - 1])
    }
}

/// The numbers of `FrontScratch`, in the order of their declaration.
pub open spec fn front_listed(s: CoreScratch) -> Seq<TensorId> {
    seq![
        s.hn,
        s.q,
        s.k,
        s.v,
        s.q_half,
        s.k_half,
        s.attn,
    ]
}

proof fn lemma_front_ascends(s: CoreScratch, first: int)
    requires
        0 <= first,
        first + 7 <= usize::MAX,
        s.hn == FrontScratch::numbered(first).hn,
        s.q == FrontScratch::numbered(first).q,
        s.k == FrontScratch::numbered(first).k,
        s.v == FrontScratch::numbered(first).v,
        s.q_half == FrontScratch::numbered(first).q_half,
        s.k_half == FrontScratch::numbered(first).k_half,
        s.attn == FrontScratch::numbered(first).attn,
    ensures
        ascends(front_listed(s), first, first + 7),
{
    let ids = front_listed(s);
    assert(ids[0] == first + 0);
    assert(ids[1] == first + 1);
    assert(ids[2] == first + 2);
    assert(ids[3] == first + 3);
    assert(ids[4] == first + 4);
    assert(ids[5] == first + 5);
    assert(ids[6] == first + 6);
    assert(counts_from(ids, first));
    lemma_counts_ascend(ids, first, first + 7);
}

/// The numbers of `SparseScratch`, in the order of their declaration.
pub open spec fn sparse_listed(s: SparseScratch) -> Seq<TensorId> {
    seq![
        s.raw_k,
        s.q,
        s.q_half,
        s.indices,
        s.gather_k,
        s.gather_v,
    ]
}

proof fn lemma_sparse_ascends(s: SparseScratch, first: int)
    requires
        0 <= first,
        first + 6 <= usize::MAX,
        s == SparseScratch::numbered(first),
    ensures
        ascends(sparse_listed(s), first, first + 6),
{
    let ids = sparse_listed(s);
    assert(ids[0] == first + 0);
    assert(ids[1] == first + 1);
    assert(ids[2] == first + 2);
    assert(ids[3] == first + 3);
    assert(ids[4] == first + 4);
    assert(ids[5] == first + 5);
    assert(counts_from(ids, first));
    lemma_counts_ascend(ids, first, first + 6);
}

/// The numbers of `LatentScratch`, in the order of their declaration.
pub open spec fn latent_listed(s: LatentScratch) -> Seq<TensorId> {
    seq![
        s.q,
        s.key,
        s.cmpr,
        s.rope,
    ]
}

proof fn lemma_latent_ascends(s: LatentScratch, first: int)
    requires
        0 <= first,
        first + 4 <= usize::MAX,
        s == LatentScratch::numbered(first),
    ensures
        ascends(latent_listed(s), first, first + 4),
{
    let ids = latent_listed(s);
    assert(ids[0] == first + 0);
    assert(ids[1] == first + 1);
    assert(ids[2] == first + 2);
    assert(ids[3] == first + 3);
    assert(counts_from(ids, first));
    lemma_counts_ascend(ids, first, first + 4);
}

/// The numbers of `StreamScratch`, in the order of their declaration.
pub open spec fn streams_listed(s: StreamScratch) -> Seq<TensorId> {
    seq![
        s.even,
        s.odd,
        s.normed,
        s.mixes,
        s.head_mixes,
        s.pre,
        s.post,
        s.comb,
    ]
}

proof fn lemma_streams_ascends(s: StreamScratch, first: int)
    requires
        0 <= first,
        first + 8 <= usize::MAX,
        s == StreamScratch::numbered(first),
    ensures
        ascends(streams_listed(s), first, first + 8),
{
    let ids = streams_listed(s);
    assert(ids[0] == first + 0);
    assert(ids[1] == first + 1);
    assert(ids[2] == first + 2);
    assert(ids[3] == first + 3);
    assert(ids[4] == first + 4);
    assert(ids[5] == first + 5);
    assert(ids[6] == first + 6);
    assert(ids[7] == first + 7);
    assert(counts_from(ids, first));
    lemma_counts_ascend(ids, first, first + 8);
}

/// The numbers of `CompressedQueryScratch`, in the order of their declaration.
pub open spec fn compressed_query_listed(s: CompressedScratch) -> Seq<TensorId> {
    seq![
        s.low,
        s.kv,
        s.rope_q,
        s.rope_kv,
        s.group_in,
        s.group_out,
        s.groups,
    ]
}

proof fn lemma_compressed_query_ascends(s: CompressedScratch, first: int)
    requires
        0 <= first,
        first + 7 <= usize::MAX,
        s.low == CompressedQueryScratch::numbered(first).low,
        s.kv == CompressedQueryScratch::numbered(first).kv,
        s.rope_q == CompressedQueryScratch::numbered(first).rope_q,
        s.rope_kv == CompressedQueryScratch::numbered(first).rope_kv,
        s.group_in == CompressedQueryScratch::numbered(first).group_in,
        s.group_out == CompressedQueryScratch::numbered(first).group_out,
        s.groups == CompressedQueryScratch::numbered(first).groups,
    ensures
        ascends(compressed_query_listed(s), first, first + 7),
{
    let ids = compressed_query_listed(s);
    assert(ids[0] == first + 0);
    assert(ids[1] == first + 1);
    assert(ids[2] == first + 2);
    assert(ids[3] == first + 3);
    assert(ids[4] == first + 4);
    assert(ids[5] == first + 5);
    assert(ids[6] == first + 6);
    assert(counts_from(ids, first));
    lemma_counts_ascend(ids, first, first + 7);
}

/// The numbers of `CompressedBlockScratch`, in the order of their declaration.
pub open spec fn compressed_blocks_listed(s: CompressedScratch) -> Seq<TensorId> {
    seq![
        s.values,
        s.scores,
        s.row,
        s.index_values,
        s.index_scores,
        s.index_key,
        s.index_q,
        s.index_packed,
        s.index_weights,
        s.index_top,
        s.gather,
    ]
}

proof fn lemma_compressed_blocks_ascends(s: CompressedScratch, first: int)
    requires
        0 <= first,
        first + 11 <= usize::MAX,
        s.values == CompressedBlockScratch::numbered(first).values,
        s.scores == CompressedBlockScratch::numbered(first).scores,
        s.row == CompressedBlockScratch::numbered(first).row,
        s.index_values == CompressedBlockScratch::numbered(first).index_values,
        s.index_scores == CompressedBlockScratch::numbered(first).index_scores,
        s.index_key == CompressedBlockScratch::numbered(first).index_key,
        s.index_q == CompressedBlockScratch::numbered(first).index_q,
        s.index_packed == CompressedBlockScratch::numbered(first).index_packed,
        s.index_weights == CompressedBlockScratch::numbered(first).index_weights,
        s.index_top == CompressedBlockScratch::numbered(first).index_top,
        s.gather == CompressedBlockScratch::numbered(first).gather,
    ensures
        ascends(compressed_blocks_listed(s), first, first + 11),
{
    let ids = compressed_blocks_listed(s);
    assert(ids[0] == first + 0);
    assert(ids[1] == first + 1);
    assert(ids[2] == first + 2);
    assert(ids[3] == first + 3);
    assert(ids[4] == first + 4);
    assert(ids[5] == first + 5);
    assert(ids[6] == first + 6);
    assert(ids[7] == first + 7);
    assert(ids[8] == first + 8);
    assert(ids[9] == first + 9);
    assert(ids[10] == first + 10);
    assert(counts_from(ids, first));
    lemma_counts_ascend(ids, first, first + 11);
}

/// The numbers of `TokenIndexScratch`, in the order of their declaration.
pub open spec fn token_index_listed(s: TokenIndexScratch) -> Seq<TensorId> {
    seq![
        s.q,
        s.k,
        s.weights,
        s.top,
        s.mask,
    ]
}

proof fn lemma_token_index_ascends(s: TokenIndexScratch, first: int)
    requires
        0 <= first,
        first + 5 <= usize::MAX,
        s == TokenIndexScratch::numbered(first),
    ensures
        ascends(token_index_listed(s), first, first + 5),
{
    let ids = token_index_listed(s);
    assert(ids[0] == first + 0);
    assert(ids[1] == first + 1);
    assert(ids[2] == first + 2);
    assert(ids[3] == first + 3);
    assert(ids[4] == first + 4);
    assert(counts_from(ids, first));
    lemma_counts_ascend(ids, first, first + 5);
}

/// The numbers of `WorkScratch`, in the order of their declaration.
pub open spec fn work_listed(s: CoreScratch) -> Seq<TensorId> {
    seq![
        s.act,
        s.sub,
        s.picked,
        s.projected,
    ]
}

proof fn lemma_work_ascends(s: CoreScratch, first: int)
    requires
        0 <= first,
        first + 4 <= usize::MAX,
        s.act == WorkScratch::numbered(first).act,
        s.sub == WorkScratch::numbered(first).sub,
        s.picked == WorkScratch::numbered(first).picked,
        s.projected == WorkScratch::numbered(first).projected,
    ensures
        ascends(work_listed(s), first, first + 4),
{
    let ids = work_listed(s);
    assert(ids[0] == first + 0);
    assert(ids[1] == first + 1);
    assert(ids[2] == first + 2);
    assert(ids[3] == first + 3);
    assert(counts_from(ids, first));
    lemma_counts_ascend(ids, first, first + 4);
}

/// The numbers of `ExpertScratch`, in the order of their declaration.
pub open spec fn experts_listed(s: ExpertScratch) -> Seq<TensorId> {
    seq![
        s.dense_out,
        s.router_in,
        s.bank_in,
        s.bank_out,
        s.shared_gate,
    ]
}

proof fn lemma_experts_ascends(s: ExpertScratch, first: int)
    requires
        0 <= first,
        first + 5 <= usize::MAX,
        s == ExpertScratch::numbered(first),
    ensures
        ascends(experts_listed(s), first, first + 5),
{
    let ids = experts_listed(s);
    assert(ids[0] == first + 0);
    assert(ids[1] == first + 1);
    assert(ids[2] == first + 2);
    assert(ids[3] == first + 3);
    assert(ids[4] == first + 4);
    assert(counts_from(ids, first));
    lemma_counts_ascend(ids, first, first + 5);
}

/// The numbers of `DeltaScratch`, in the order of their declaration.
pub open spec fn delta_listed(s: DeltaScratch) -> Seq<TensorId> {
    seq![
        s.qkv,
        s.z,
        s.conv,
        s.q,
        s.k,
        s.v,
        s.beta,
        s.alpha,
        s.out,
        s.forget,
        s.head_gate,
    ]
}

proof fn lemma_delta_ascends(s: DeltaScratch, first: int)
    requires
        0 <= first,
        first + 11 <= usize::MAX,
        s == DeltaScratch::numbered(first),
    ensures
        ascends(delta_listed(s), first, first + 11),
{
    let ids = delta_listed(s);
    assert(ids[0] == first + 0);
    assert(ids[1] == first + 1);
    assert(ids[2] == first + 2);
    assert(ids[3] == first + 3);
    assert(ids[4] == first + 4);
    assert(ids[5] == first + 5);
    assert(ids[6] == first + 6);
    assert(ids[7] == first + 7);
    assert(ids[8] == first + 8);
    assert(ids[9] == first + 9);
    assert(ids[10] == first + 10);
    assert(counts_from(ids, first));
    lemma_counts_ascend(ids, first, first + 11);
}

/// The numbers of `QwenScratch`, in the order of their declaration.
pub open spec fn qwen_listed(s: QwenScratch) -> Seq<TensorId> {
    seq![
        s.alt,
        s.normed,
        s.low,
        s.mix,
        s.inject,
        s.key,
        s.query,
        s.value,
        s.conv,
    ]
}

proof fn lemma_qwen_ascends(s: QwenScratch, first: int)
    requires
        0 <= first,
        first + 9 <= usize::MAX,
        s == QwenScratch::numbered(first),
    ensures
        ascends(qwen_listed(s), first, first + 9),
{
    let ids = qwen_listed(s);
    assert(ids[0] == first + 0);
    assert(ids[1] == first + 1);
    assert(ids[2] == first + 2);
    assert(ids[3] == first + 3);
    assert(ids[4] == first + 4);
    assert(ids[5] == first + 5);
    assert(ids[6] == first + 6);
    assert(ids[7] == first + 7);
    assert(ids[8] == first + 8);
    assert(counts_from(ids, first));
    lemma_counts_ascend(ids, first, first + 9);
}

/// The numbers of `PerLayerScratch`, in the order of their declaration.
pub open spec fn per_layer_listed(s: PerLayerScratch) -> Seq<TensorId> {
    seq![
        s.acc,
        s.normed,
        s.inputs,
    ]
}

proof fn lemma_per_layer_ascends(s: PerLayerScratch, first: int)
    requires
        0 <= first,
        first + 3 <= usize::MAX,
        s == PerLayerScratch::numbered(first),
    ensures
        ascends(per_layer_listed(s), first, first + 3),
{
    let ids = per_layer_listed(s);
    assert(ids[0] == first + 0);
    assert(ids[1] == first + 1);
    assert(ids[2] == first + 2);
    assert(counts_from(ids, first));
    lemma_counts_ascend(ids, first, first + 3);
}

/// The numbers of `ConditionScratch`, in the order of their declaration.
pub open spec fn condition_listed(s: ConditionScratch) -> Seq<TensorId> {
    seq![
        s.probs,
        s.soft,
        s.normed,
        s.left,
        s.right,
        s.act,
        s.signal,
    ]
}

proof fn lemma_condition_ascends(s: ConditionScratch, first: int)
    requires
        0 <= first,
        first + 7 <= usize::MAX,
        s == ConditionScratch::numbered(first),
    ensures
        ascends(condition_listed(s), first, first + 7),
{
    let ids = condition_listed(s);
    assert(ids[0] == first + 0);
    assert(ids[1] == first + 1);
    assert(ids[2] == first + 2);
    assert(ids[3] == first + 3);
    assert(ids[4] == first + 4);
    assert(ids[5] == first + 5);
    assert(ids[6] == first + 6);
    assert(counts_from(ids, first));
    lemma_counts_ascend(ids, first, first + 7);
}

/// The numbers of the gates: one for everything if `fused`.
pub open spec fn gates_listed(s: GateScratch, fused: bool) -> Seq<TensorId> {
    if fused {
        seq![s.joined]
    } else {
        seq![s.left, s.right]
    }
}

/// The numbers, if the tensors are there.
pub open spec fn sparse_listed_if(s: Option<SparseScratch>) -> Seq<TensorId> {
    match s {
        Some(s) => sparse_listed(s),
        None => Seq::empty(),
    }
}

/// The numbers, if the tensors are there.
pub open spec fn latent_listed_if(s: Option<LatentScratch>) -> Seq<TensorId> {
    match s {
        Some(s) => latent_listed(s),
        None => Seq::empty(),
    }
}

/// The numbers, if the tensors are there.
pub open spec fn token_index_listed_if(s: Option<TokenIndexScratch>) -> Seq<TensorId> {
    match s {
        Some(s) => token_index_listed(s),
        None => Seq::empty(),
    }
}

/// The numbers, if the tensors are there.
pub open spec fn per_layer_listed_if(s: Option<PerLayerScratch>) -> Seq<TensorId> {
    match s {
        Some(s) => per_layer_listed(s),
        None => Seq::empty(),
    }
}

/// The numbers, if the tensors are there.
pub open spec fn condition_listed_if(s: Option<ConditionScratch>) -> Seq<TensorId> {
    match s {
        Some(s) => condition_listed(s),
        None => Seq::empty(),
    }
}

impl Scratch {
    /// The numbers of the attention mixers' tensors, in the order of their declaration.
    pub open spec fn attention_listed(&self) -> Seq<TensorId> {
        front_listed(self.core)
            + sparse_listed_if(self.sparse)
            + latent_listed_if(self.latent)
            + streams_listed(self.streams)
            + compressed_query_listed(self.compressed)
            + compressed_blocks_listed(self.compressed)
            + token_index_listed_if(self.token_index)
    }

    /// The numbers of the other blocks' tensors, in the order of their declaration. The room for
    /// gates by themselves has no name, and is not listed.
    pub open spec fn mixing_listed(&self) -> Seq<TensorId> {
        work_listed(self.core)
            + experts_listed(self.experts)
            + seq![self.core.gated]
            + delta_listed(self.delta)
            + qwen_listed(self.qwen)
            + per_layer_listed_if(self.per_layer)
            + condition_listed_if(self.condition)
    }

    /// The numbers of all scratch tensors that have a name, in the order of their declaration. The
    /// halves of a fused gate share one.
    pub open spec fn listed(&self, f: ScratchFlags) -> Seq<TensorId> {
        self.attention_listed() + one_listed(self.qkv) + gates_listed(self.gates, f.fuse_gu)
            + self.mixing_listed() + selections_listed(self.selected@, self.selected@.len())
            + one_listed(self.last)
    }
}

proof fn lemma_attention_ascends(s: Scratch, m: MixingScratch, first: int, f: ScratchFlags)
    requires
        0 <= first,
        first + AttentionScratch::tensors(f) <= usize::MAX,
        s.core == CoreScratch::made_of(AttentionScratch::numbered(first, f), m),
        s.compressed == CompressedScratch::made_of(AttentionScratch::numbered(first, f)),
        s.sparse == AttentionScratch::numbered(first, f).sparse,
        s.latent == AttentionScratch::numbered(first, f).latent,
        s.streams == AttentionScratch::numbered(first, f).streams,
        s.token_index == AttentionScratch::numbered(first, f).token_index,
    ensures
        ascends(s.attention_listed(), first, first + AttentionScratch::tensors(f)),
        AttentionScratch::tensors(f) <= 48,
{
    reveal(AttentionScratch::numbered);
    let front_at = first;
    let sparse_at = front_at + 7;
    let latent_at = sparse_at + taken(f.qwen4exp, 6);
    let streams_at = latent_at + taken(f.latent, 4);
    let compressed_query_at = streams_at + 8;
    let compressed_blocks_at = compressed_query_at + 7;
    let token_index_at = compressed_blocks_at + 11;
    lemma_front_ascends(s.core, front_at);
    if let Some(x) = s.sparse {
        lemma_sparse_ascends(x, sparse_at);
    }
    if let Some(x) = s.latent {
        lemma_latent_ascends(x, latent_at);
    }
    lemma_streams_ascends(s.streams, streams_at);
    lemma_compressed_query_ascends(s.compressed, compressed_query_at);
    lemma_compressed_blocks_ascends(s.compressed, compressed_blocks_at);
    if let Some(x) = s.token_index {
        lemma_token_index_ascends(x, token_index_at);
    }
    let l0 = front_listed(s.core);
    lemma_ascends_join(
        l0,
        sparse_listed_if(s.sparse),
        first,
        sparse_at,
        sparse_at + taken(f.qwen4exp, 6),
    );
    let l1 = l0 + sparse_listed_if(s.sparse);
    lemma_ascends_join(
        l1,
        latent_listed_if(s.latent),
        first,
        latent_at,
        latent_at + taken(f.latent, 4),
    );
    let l2 = l1 + latent_listed_if(s.latent);
    lemma_ascends_join(l2, streams_listed(s.streams), first, streams_at, streams_at + 8);
    let l3 = l2 + streams_listed(s.streams);
    lemma_ascends_join(
        l3,
        compressed_query_listed(s.compressed),
        first,
        compressed_query_at,
        compressed_query_at + 7,
    );
    let l4 = l3 + compressed_query_listed(s.compressed);
    lemma_ascends_join(
        l4,
        compressed_blocks_listed(s.compressed),
        first,
        compressed_blocks_at,
        compressed_blocks_at + 11,
    );
    let l5 = l4 + compressed_blocks_listed(s.compressed);
    lemma_ascends_join(
        l5,
        token_index_listed_if(s.token_index),
        first,
        token_index_at,
        token_index_at + taken(f.deepseek32, 5),
    );
    let l6 = l5 + token_index_listed_if(s.token_index);
}

proof fn lemma_mixing_ascends(s: Scratch, a: AttentionScratch, first: int, f: ScratchFlags)
    requires
        0 <= first,
        first + MixingScratch::tensors(f) <= usize::MAX,
        s.core == CoreScratch::made_of(a, MixingScratch::numbered(first, f)),
        s.experts == MixingScratch::numbered(first, f).experts,
        s.delta == MixingScratch::numbered(first, f).delta,
        s.qwen == MixingScratch::numbered(first, f).qwen,
        s.per_layer == MixingScratch::numbered(first, f).per_layer,
        s.condition == MixingScratch::numbered(first, f).condition,
    ensures
        ascends(s.mixing_listed(), first, first + MixingScratch::tensors(f)),
        MixingScratch::tensors(f) <= 41,
{
    reveal(MixingScratch::numbered);
    let work_at = first;
    let experts_at = work_at + 4;
    let query_gates_at = experts_at + 5;
    let delta_at = query_gates_at + 2;
    let qwen_at = delta_at + 11;
    let per_layer_at = qwen_at + 9;
    let condition_at = per_layer_at + taken(f.e2b, 3);
    lemma_work_ascends(s.core, work_at);
    lemma_experts_ascends(s.experts, experts_at);
    assert(ascends(seq![s.core.gated], query_gates_at, query_gates_at + 2));
    lemma_delta_ascends(s.delta, delta_at);
    lemma_qwen_ascends(s.qwen, qwen_at);
    if let Some(x) = s.per_layer {
        lemma_per_layer_ascends(x, per_layer_at);
    }
    if let Some(x) = s.condition {
        lemma_condition_ascends(x, condition_at);
    }
    let l0 = work_listed(s.core);
    lemma_ascends_join(l0, experts_listed(s.experts), first, experts_at, experts_at + 5);
    let l1 = l0 + experts_listed(s.experts);
    lemma_ascends_join(l1, seq![s.core.gated], first, query_gates_at, query_gates_at + 2);
    let l2 = l1 + seq![s.core.gated];
    lemma_ascends_join(l2, delta_listed(s.delta), first, delta_at, delta_at + 11);
    let l3 = l2 + delta_listed(s.delta);
    lemma_ascends_join(l3, qwen_listed(s.qwen), first, qwen_at, qwen_at + 9);
    let l4 = l3 + qwen_listed(s.qwen);
    lemma_ascends_join(
        l4,
        per_layer_listed_if(s.per_layer),
        first,
        per_layer_at,
        per_layer_at + taken(f.e2b, 3),
    );
    let l5 = l4 + per_layer_listed_if(s.per_layer);
    lemma_ascends_join(
        l5,
        condition_listed_if(s.condition),
        first,
        condition_at,
        condition_at + taken(f.conditioned, 7),
    );
    let l6 = l5 + condition_listed_if(s.condition);
}

proof fn lemma_selections_ascend(ids: Seq<Option<TensorId>>, first: int, by_id: Seq<bool>, n: nat)
    requires
        n <= by_id.len(),
        ids == numbered_selections(first, by_id),
        0 <= first,
        first + selecting_below(by_id, n) <= usize::MAX,
    ensures
        0 <= selecting_below(by_id, n),
        ascends(selections_listed(ids, n), first, first + selecting_below(by_id, n)),
    decreases n,
{
    if n > 0 {
        let m = (n - 1) as nat;
        lemma_selecting_grows(by_id, m);
        lemma_selections_ascend(ids, first, by_id, m);
        let mid = first + selecting_below(by_id, m);
        assert(ids[n - 1] == one_number(by_id[n - 1], mid));
        lemma_ascends_join(
            selections_listed(ids, m),
            one_listed(ids[n - 1]),
            first,
            mid,
            first + selecting_below(by_id, n),
        );
    }
}

proof fn lemma_selecting_grows(by_id: Seq<bool>, n: nat)
    ensures
        0 <= selecting_below(by_id, n) <= n,
    decreases n,
{
    if n > 0 {
        lemma_selecting_grows(by_id, (n - 1) as nat);
    }
}

/// No two scratch tensors of a graph share a number, but for the halves of a fused gate; and all
/// their numbers lie behind `base`, before whatever is declared next.
pub proof fn law_scratch_tensors_have_numbers_of_their_own(
    s: Scratch,
    base: int,
    d: GraphDims,
    f: ScratchFlags,
    by_id: Seq<bool>,
)
    requires
        s.numbered(base, d, f, by_id),
        0 <= base,
        scratch_end(base, d, f, by_id) <= usize::MAX,
    ensures
        ascends(s.listed(f), base, scratch_end(base, d, f, by_id)),
        s.listed(f).no_duplicates(),
{
    reveal(Scratch::numbered);
    let a = AttentionScratch::numbered(base, f);
    let m = MixingScratch::numbered(mixing_at(base, d, f), f);
    lemma_selecting_grows(by_id, by_id.len());
    lemma_attention_ascends(s, m, base, f);
    lemma_mixing_ascends(s, a, mixing_at(base, d, f), f);
    lemma_selections_ascend(s.selected@, selections_at(base, d, f), by_id, by_id.len());
    assert(ascends(gates_listed(s.gates, f.fuse_gu), gates_at(base, d, f), mixing_at(base, d, f)));
    assert(ascends(one_listed(s.qkv), qkv_at(base, f), gates_at(base, d, f)));
    let end = scratch_end(base, d, f, by_id);
    assert(ascends(one_listed(s.last), last_at(base, d, f, by_id), end));
    let l0 = s.attention_listed();
    let l1 = l0 + one_listed(s.qkv);
    let l2 = l1 + gates_listed(s.gates, f.fuse_gu);
    let l3 = l2 + s.mixing_listed();
    let l4 = l3 + selections_listed(s.selected@, s.selected@.len());
    lemma_ascends_join(l0, one_listed(s.qkv), base, qkv_at(base, f), gates_at(base, d, f));
    lemma_ascends_join(
        l1,
        gates_listed(s.gates, f.fuse_gu),
        base,
        gates_at(base, d, f),
        mixing_at(base, d, f),
    );
    lemma_ascends_join(
        l2,
        s.mixing_listed(),
        base,
        mixing_at(base, d, f),
        selections_at(base, d, f),
    );
    lemma_ascends_join(
        l3,
        selections_listed(s.selected@, s.selected@.len()),
        base,
        selections_at(base, d, f),
        last_at(base, d, f, by_id),
    );
    lemma_ascends_join(l4, one_listed(s.last), base, last_at(base, d, f, by_id), end);
    lemma_ascending_numbers_differ(s.listed(f), base, end);
}

/// A list of declarations stands in another, from `off` on.
#[verifier::opaque]
spec fn stands_at(decls: Seq<ScratchDecl>, off: int, part: Seq<ScratchDecl>) -> bool {
    &&& 0 <= off
    &&& off + part.len() <= decls.len()
    &&& forall|k: int| 0 <= k < part.len() ==> decls[off + k] == #[trigger] part[k]
}

/// A list of declarations begins with another.
#[verifier::opaque]
spec fn opens_with(decls: Seq<ScratchDecl>, first: Seq<ScratchDecl>) -> bool {
    first.len() <= decls.len() && forall|k: int|
        0 <= k < first.len() ==> #[trigger] decls[k] == first[k]
}

proof fn lemma_opens(all: Seq<ScratchDecl>, before: Seq<ScratchDecl>, part: Seq<ScratchDecl>)
    requires
        opens_with(all, before + part),
    ensures
        opens_with(all, before),
        stands_at(all, before.len() as int, part),
{
    reveal(stands_at);
    reveal(opens_with);
    let both = before + part;
    assert forall|k: int| 0 <= k < before.len() implies #[trigger] all[k] == before[k] by {
        assert(all[k] == both[k]);
    }
    assert forall|k: int| 0 <= k < part.len() implies all[before.len() + k]
        == #[trigger] part[k] by {
        assert(all[before.len() + k] == both[before.len() + k]);
    }
}

proof fn lemma_stands(
    decls: Seq<ScratchDecl>,
    base: usize,
    first: int,
    part: Seq<ScratchDecl>,
    k: int,
)
    requires
        stands_at(decls, first - base, part),
        0 <= k < part.len(),
        first + k <= usize::MAX,
    ensures
        scratch_at(decls, base, nth(first, k), part[k].rows, part[k].width, part[k].dtype),
{
    reveal(stands_at);
    reveal(scratch_at);
    assert(decls[first - base + k] == part[k]);
}

proof fn lemma_front_at(decls: Seq<ScratchDecl>, base: usize, first: int, d: GraphDims)
    requires
        stands_at(decls, first - base, FrontScratch::decls(d)),
        first + 7 <= usize::MAX,
    ensures
        FrontScratch::numbered(first).at(decls, base, d),
{
    reveal(FrontScratch::decls);
    let part = FrontScratch::decls(d);
    lemma_stands(decls, base, first, part, 0);
    lemma_stands(decls, base, first, part, 1);
    lemma_stands(decls, base, first, part, 2);
    lemma_stands(decls, base, first, part, 3);
    lemma_stands(decls, base, first, part, 4);
    lemma_stands(decls, base, first, part, 5);
    lemma_stands(decls, base, first, part, 6);
}

proof fn lemma_sparse_at(decls: Seq<ScratchDecl>, base: usize, first: int, d: GraphDims)
    requires
        stands_at(decls, first - base, SparseScratch::decls(d)),
        first + 6 <= usize::MAX,
    ensures
        SparseScratch::numbered(first).at(decls, base, d),
{
    reveal(SparseScratch::decls);
    let part = SparseScratch::decls(d);
    lemma_stands(decls, base, first, part, 0);
    lemma_stands(decls, base, first, part, 1);
    lemma_stands(decls, base, first, part, 2);
    lemma_stands(decls, base, first, part, 3);
    lemma_stands(decls, base, first, part, 4);
    lemma_stands(decls, base, first, part, 5);
}

proof fn lemma_latent_at(decls: Seq<ScratchDecl>, base: usize, first: int, d: GraphDims)
    requires
        stands_at(decls, first - base, LatentScratch::decls(d)),
        first + 4 <= usize::MAX,
    ensures
        LatentScratch::numbered(first).at(decls, base, d),
{
    reveal(LatentScratch::decls);
    let part = LatentScratch::decls(d);
    lemma_stands(decls, base, first, part, 0);
    lemma_stands(decls, base, first, part, 1);
    lemma_stands(decls, base, first, part, 2);
    lemma_stands(decls, base, first, part, 3);
}

proof fn lemma_streams_at(decls: Seq<ScratchDecl>, base: usize, first: int, d: GraphDims)
    requires
        stands_at(decls, first - base, StreamScratch::decls(d)),
        first + 8 <= usize::MAX,
    ensures
        StreamScratch::numbered(first).at(decls, base, d),
{
    reveal(StreamScratch::decls);
    let part = StreamScratch::decls(d);
    lemma_stands(decls, base, first, part, 0);
    lemma_stands(decls, base, first, part, 1);
    lemma_stands(decls, base, first, part, 2);
    lemma_stands(decls, base, first, part, 3);
    lemma_stands(decls, base, first, part, 4);
    lemma_stands(decls, base, first, part, 5);
    lemma_stands(decls, base, first, part, 6);
    lemma_stands(decls, base, first, part, 7);
}

proof fn lemma_compressed_query_at(decls: Seq<ScratchDecl>, base: usize, first: int, d: GraphDims)
    requires
        stands_at(decls, first - base, CompressedQueryScratch::decls(d)),
        first + 7 <= usize::MAX,
    ensures
        CompressedQueryScratch::numbered(first).at(decls, base, d),
{
    reveal(CompressedQueryScratch::decls);
    let part = CompressedQueryScratch::decls(d);
    lemma_stands(decls, base, first, part, 0);
    lemma_stands(decls, base, first, part, 1);
    lemma_stands(decls, base, first, part, 2);
    lemma_stands(decls, base, first, part, 3);
    lemma_stands(decls, base, first, part, 4);
    lemma_stands(decls, base, first, part, 5);
    lemma_stands(decls, base, first, part, 6);
}

proof fn lemma_compressed_blocks_at(decls: Seq<ScratchDecl>, base: usize, first: int, d: GraphDims)
    requires
        stands_at(decls, first - base, CompressedBlockScratch::decls(d)),
        first + 11 <= usize::MAX,
    ensures
        CompressedBlockScratch::numbered(first).at(decls, base, d),
{
    reveal(CompressedBlockScratch::decls);
    let part = CompressedBlockScratch::decls(d);
    lemma_stands(decls, base, first, part, 0);
    lemma_stands(decls, base, first, part, 1);
    lemma_stands(decls, base, first, part, 2);
    lemma_stands(decls, base, first, part, 3);
    lemma_stands(decls, base, first, part, 4);
    lemma_stands(decls, base, first, part, 5);
    lemma_stands(decls, base, first, part, 6);
    lemma_stands(decls, base, first, part, 7);
    lemma_stands(decls, base, first, part, 8);
    lemma_stands(decls, base, first, part, 9);
    lemma_stands(decls, base, first, part, 10);
}

proof fn lemma_token_index_at(decls: Seq<ScratchDecl>, base: usize, first: int, d: GraphDims)
    requires
        stands_at(decls, first - base, TokenIndexScratch::decls(d)),
        first + 5 <= usize::MAX,
    ensures
        TokenIndexScratch::numbered(first).at(decls, base, d),
{
    reveal(TokenIndexScratch::decls);
    let part = TokenIndexScratch::decls(d);
    lemma_stands(decls, base, first, part, 0);
    lemma_stands(decls, base, first, part, 1);
    lemma_stands(decls, base, first, part, 2);
    lemma_stands(decls, base, first, part, 3);
    lemma_stands(decls, base, first, part, 4);
}

proof fn lemma_work_at(decls: Seq<ScratchDecl>, base: usize, first: int, d: GraphDims)
    requires
        stands_at(decls, first - base, WorkScratch::decls(d)),
        first + 4 <= usize::MAX,
    ensures
        WorkScratch::numbered(first).at(decls, base, d),
{
    reveal(WorkScratch::decls);
    let part = WorkScratch::decls(d);
    lemma_stands(decls, base, first, part, 0);
    lemma_stands(decls, base, first, part, 1);
    lemma_stands(decls, base, first, part, 2);
    lemma_stands(decls, base, first, part, 3);
}

proof fn lemma_experts_at(decls: Seq<ScratchDecl>, base: usize, first: int, d: GraphDims)
    requires
        stands_at(decls, first - base, ExpertScratch::decls(d)),
        first + 5 <= usize::MAX,
    ensures
        ExpertScratch::numbered(first).at(decls, base, d),
{
    reveal(ExpertScratch::decls);
    let part = ExpertScratch::decls(d);
    lemma_stands(decls, base, first, part, 0);
    lemma_stands(decls, base, first, part, 1);
    lemma_stands(decls, base, first, part, 2);
    lemma_stands(decls, base, first, part, 3);
    lemma_stands(decls, base, first, part, 4);
}

proof fn lemma_query_gates_at(decls: Seq<ScratchDecl>, base: usize, first: int, d: GraphDims)
    requires
        stands_at(decls, first - base, QueryGateScratch::decls(d)),
        first + 2 <= usize::MAX,
    ensures
        QueryGateScratch::numbered(first).at(decls, base, d),
{
    reveal(QueryGateScratch::decls);
    let part = QueryGateScratch::decls(d);
    lemma_stands(decls, base, first, part, 0);
    lemma_stands(decls, base, first, part, 1);
}

proof fn lemma_delta_at(decls: Seq<ScratchDecl>, base: usize, first: int, d: GraphDims)
    requires
        stands_at(decls, first - base, DeltaScratch::decls(d)),
        first + 11 <= usize::MAX,
    ensures
        DeltaScratch::numbered(first).at(decls, base, d),
{
    reveal(DeltaScratch::decls);
    let part = DeltaScratch::decls(d);
    lemma_stands(decls, base, first, part, 0);
    lemma_stands(decls, base, first, part, 1);
    lemma_stands(decls, base, first, part, 2);
    lemma_stands(decls, base, first, part, 3);
    lemma_stands(decls, base, first, part, 4);
    lemma_stands(decls, base, first, part, 5);
    lemma_stands(decls, base, first, part, 6);
    lemma_stands(decls, base, first, part, 7);
    lemma_stands(decls, base, first, part, 8);
    lemma_stands(decls, base, first, part, 9);
    lemma_stands(decls, base, first, part, 10);
}

proof fn lemma_qwen_at(decls: Seq<ScratchDecl>, base: usize, first: int, d: GraphDims)
    requires
        stands_at(decls, first - base, QwenScratch::decls(d)),
        first + 9 <= usize::MAX,
    ensures
        QwenScratch::numbered(first).at(decls, base, d),
{
    reveal(QwenScratch::decls);
    let part = QwenScratch::decls(d);
    lemma_stands(decls, base, first, part, 0);
    lemma_stands(decls, base, first, part, 1);
    lemma_stands(decls, base, first, part, 2);
    lemma_stands(decls, base, first, part, 3);
    lemma_stands(decls, base, first, part, 4);
    lemma_stands(decls, base, first, part, 5);
    lemma_stands(decls, base, first, part, 6);
    lemma_stands(decls, base, first, part, 7);
    lemma_stands(decls, base, first, part, 8);
}

proof fn lemma_per_layer_at(decls: Seq<ScratchDecl>, base: usize, first: int, d: GraphDims)
    requires
        stands_at(decls, first - base, PerLayerScratch::decls(d)),
        first + 3 <= usize::MAX,
    ensures
        PerLayerScratch::numbered(first).at(decls, base, d),
{
    reveal(PerLayerScratch::decls);
    let part = PerLayerScratch::decls(d);
    lemma_stands(decls, base, first, part, 0);
    lemma_stands(decls, base, first, part, 1);
    lemma_stands(decls, base, first, part, 2);
}

proof fn lemma_condition_at(decls: Seq<ScratchDecl>, base: usize, first: int, d: GraphDims)
    requires
        stands_at(decls, first - base, ConditionScratch::decls(d)),
        first + 7 <= usize::MAX,
    ensures
        ConditionScratch::numbered(first).at(decls, base, d),
{
    reveal(ConditionScratch::decls);
    let part = ConditionScratch::decls(d);
    lemma_stands(decls, base, first, part, 0);
    lemma_stands(decls, base, first, part, 1);
    lemma_stands(decls, base, first, part, 2);
    lemma_stands(decls, base, first, part, 3);
    lemma_stands(decls, base, first, part, 4);
    lemma_stands(decls, base, first, part, 5);
    lemma_stands(decls, base, first, part, 6);
}

proof fn lemma_gates_at(
    decls: Seq<ScratchDecl>,
    base: usize,
    first: int,
    d: GraphDims,
    fused: bool,
)
    requires
        stands_at(decls, first - base, GateScratch::decls(d, fused)),
        first + 2 <= usize::MAX,
    ensures
        GateScratch::numbered(first, fused).at(decls, base, d, fused),
{
    reveal(GateScratch::decls);
    let part = GateScratch::decls(d, fused);
    lemma_stands(decls, base, first, part, 0);
    if !fused {
        lemma_stands(decls, base, first, part, 1);
    }
}

proof fn lemma_selection_at(
    decls: Seq<ScratchDecl>,
    base: usize,
    first: int,
    d: GraphDims,
    by_id: Seq<bool>,
    n: nat,
    l: int,
)
    requires
        stands_at(decls, first - base, selection_decls(d, by_id, n)),
        0 <= l < n <= by_id.len(),
        first + selecting_below(by_id, n) <= usize::MAX,
    ensures
        selection_at(
            decls,
            base,
            d,
            one_number(by_id[l], first + selecting_below(by_id, l as nat)),
            by_id[l],
        ),
    decreases n,
{
    let m = (n - 1) as nat;
    let part = selection_decls(d, by_id, n);
    let before = selection_decls(d, by_id, m);
    lemma_selections_len(d, by_id, m);
    lemma_selections_len(d, by_id, n);
    lemma_selecting_grows(by_id, m);
    if l < n - 1 {
        assert(stands_at(decls, first - base, before)) by {
            reveal(stands_at);
            assert forall|k: int| 0 <= k < before.len() implies decls[first - base + k]
                == #[trigger] before[k] by {
                assert(part[k] == before[k]);
            }
        }
        lemma_selection_at(decls, base, first, d, by_id, m, l);
    } else if by_id[l] {
        lemma_stands(decls, base, first, part, before.len() as int);
    }
}

proof fn lemma_selections_len(d: GraphDims, by_id: Seq<bool>, n: nat)
    ensures
        selection_decls(d, by_id, n).len() == selecting_below(by_id, n),
    decreases n,
{
    if n > 0 {
        lemma_selections_len(d, by_id, (n - 1) as nat);
    }
}

/// Where the parts of a graph's scratch tensors stand among their declarations.
struct Offsets {
    front: int,
    sparse: int,
    latent: int,
    streams: int,
    compressed_query: int,
    compressed_blocks: int,
    token_index: int,
    qkv: int,
    gates: int,
    work: int,
    experts: int,
    query_gates: int,
    delta: int,
    qwen: int,
    per_layer: int,
    condition: int,
    selected: int,
    last: int,
}

spec fn offsets(d: GraphDims, f: ScratchFlags, by_id: Seq<bool>) -> Offsets {
    let front: int = 0;
    let sparse: int = front + 7;
    let latent: int = sparse + taken(f.qwen4exp, 6);
    let streams: int = latent + taken(f.latent, 4);
    let compressed_query: int = streams + 8;
    let compressed_blocks: int = compressed_query + 7;
    let token_index: int = compressed_blocks + 11;
    let qkv: int = token_index + taken(f.deepseek32, 5);
    let gates: int = qkv + taken(joins_qkv(d, f), 1);
    let work: int = gates + GateScratch::tensors(f.fuse_gu);
    let experts: int = work + 4;
    let query_gates: int = experts + 5;
    let delta: int = query_gates + 2;
    let qwen: int = delta + 11;
    let per_layer: int = qwen + 9;
    let condition: int = per_layer + taken(f.e2b, 3);
    let selected: int = condition + taken(f.conditioned, 7);
    let last: int = selected + selecting_below(by_id, by_id.len());
    Offsets {
        front,
        sparse,
        latent,
        streams,
        compressed_query,
        compressed_blocks,
        token_index,
        qkv,
        gates,
        work,
        experts,
        query_gates,
        delta,
        qwen,
        per_layer,
        condition,
        selected,
        last,
    }
}

#[verifier::rlimit(40)]
proof fn lemma_parts_stand(all: Seq<ScratchDecl>, d: GraphDims, f: ScratchFlags, by_id: Seq<bool>)
    requires
        all == scratch_decls(d, f, by_id),
    ensures
        stands_at(all, offsets(d, f, by_id).front, FrontScratch::decls(d)),
        stands_at(all, offsets(d, f, by_id).sparse, (if f.qwen4exp {
                SparseScratch::decls(d)
            } else {
                Seq::empty()
            })),
        stands_at(all, offsets(d, f, by_id).latent, (if f.latent {
                LatentScratch::decls(d)
            } else {
                Seq::empty()
            })),
        stands_at(all, offsets(d, f, by_id).streams, StreamScratch::decls(d)),
        stands_at(all, offsets(d, f, by_id).compressed_query, CompressedQueryScratch::decls(d)),
        stands_at(all, offsets(d, f, by_id).compressed_blocks, CompressedBlockScratch::decls(d)),
        stands_at(all, offsets(d, f, by_id).token_index, (if f.deepseek32 {
                TokenIndexScratch::decls(d)
            } else {
                Seq::empty()
            })),
        stands_at(
            all,
            offsets(d, f, by_id).qkv,
            one_scratch(joins_qkv(d, f), d.b.batch, d.max_qkv_row),
        ),
        stands_at(all, offsets(d, f, by_id).gates, GateScratch::decls(d, f.fuse_gu)),
        stands_at(all, offsets(d, f, by_id).work, WorkScratch::decls(d)),
        stands_at(all, offsets(d, f, by_id).experts, ExpertScratch::decls(d)),
        stands_at(all, offsets(d, f, by_id).query_gates, QueryGateScratch::decls(d)),
        stands_at(all, offsets(d, f, by_id).delta, DeltaScratch::decls(d)),
        stands_at(all, offsets(d, f, by_id).qwen, QwenScratch::decls(d)),
        stands_at(all, offsets(d, f, by_id).per_layer, (if f.e2b {
                PerLayerScratch::decls(d)
            } else {
                Seq::empty()
            })),
        stands_at(all, offsets(d, f, by_id).condition, (if f.conditioned {
                ConditionScratch::decls(d)
            } else {
                Seq::empty()
            })),
        stands_at(all, offsets(d, f, by_id).selected, selection_decls(d, by_id, by_id.len())),
        stands_at(
            all,
            offsets(d, f, by_id).last,
            one_scratch(f.tail_only, d.b.logits_rows, d.b.n_embd),
        ),
{
    assert(FrontScratch::decls(d).len() == 7) by {
        reveal(FrontScratch::decls);
    }
    assert(SparseScratch::decls(d).len() == 6) by {
        reveal(SparseScratch::decls);
    }
    assert(LatentScratch::decls(d).len() == 4) by {
        reveal(LatentScratch::decls);
    }
    assert(StreamScratch::decls(d).len() == 8) by {
        reveal(StreamScratch::decls);
    }
    assert(CompressedQueryScratch::decls(d).len() == 7) by {
        reveal(CompressedQueryScratch::decls);
    }
    assert(CompressedBlockScratch::decls(d).len() == 11) by {
        reveal(CompressedBlockScratch::decls);
    }
    assert(TokenIndexScratch::decls(d).len() == 5) by {
        reveal(TokenIndexScratch::decls);
    }
    assert(WorkScratch::decls(d).len() == 4) by {
        reveal(WorkScratch::decls);
    }
    assert(ExpertScratch::decls(d).len() == 5) by {
        reveal(ExpertScratch::decls);
    }
    assert(QueryGateScratch::decls(d).len() == 2) by {
        reveal(QueryGateScratch::decls);
    }
    assert(DeltaScratch::decls(d).len() == 11) by {
        reveal(DeltaScratch::decls);
    }
    assert(QwenScratch::decls(d).len() == 9) by {
        reveal(QwenScratch::decls);
    }
    assert(PerLayerScratch::decls(d).len() == 3) by {
        reveal(PerLayerScratch::decls);
    }
    assert(ConditionScratch::decls(d).len() == 7) by {
        reveal(ConditionScratch::decls);
    }
    assert(GateScratch::decls(d, f.fuse_gu).len() == GateScratch::tensors(f.fuse_gu)) by {
        reveal(GateScratch::decls);
    }
    lemma_selections_len(d, by_id, by_id.len());
    let p0 = Seq::<ScratchDecl>::empty();
    let p1 = p0 + FrontScratch::decls(d);
    let p2 = p1 + (if f.qwen4exp {
        SparseScratch::decls(d)
    } else {
        Seq::empty()
    });
    let p3 = p2 + (if f.latent {
        LatentScratch::decls(d)
    } else {
        Seq::empty()
    });
    let p4 = p3 + StreamScratch::decls(d);
    let p5 = p4 + CompressedQueryScratch::decls(d);
    let p6 = p5 + CompressedBlockScratch::decls(d);
    let p7 = p6 + (if f.deepseek32 {
        TokenIndexScratch::decls(d)
    } else {
        Seq::empty()
    });
    let p8 = p7 + one_scratch(joins_qkv(d, f), d.b.batch, d.max_qkv_row);
    let p9 = p8 + GateScratch::decls(d, f.fuse_gu);
    let p10 = p9 + WorkScratch::decls(d);
    let p11 = p10 + ExpertScratch::decls(d);
    let p12 = p11 + QueryGateScratch::decls(d);
    let p13 = p12 + DeltaScratch::decls(d);
    let p14 = p13 + QwenScratch::decls(d);
    let p15 = p14 + (if f.e2b {
        PerLayerScratch::decls(d)
    } else {
        Seq::empty()
    });
    let p16 = p15 + (if f.conditioned {
        ConditionScratch::decls(d)
    } else {
        Seq::empty()
    });
    let p17 = p16 + selection_decls(d, by_id, by_id.len());
    let p18 = p17 + one_scratch(f.tail_only, d.b.logits_rows, d.b.n_embd);
    assert(p1 =~= FrontScratch::decls(d));
    assert(opens_with(all, p18)) by {
        reveal(opens_with);
    }
    lemma_opens(all, p17, one_scratch(f.tail_only, d.b.logits_rows, d.b.n_embd));
    lemma_opens(all, p16, selection_decls(d, by_id, by_id.len()));
    lemma_opens(all, p15, (if f.conditioned {
        ConditionScratch::decls(d)
    } else {
        Seq::empty()
    }));
    lemma_opens(all, p14, (if f.e2b {
        PerLayerScratch::decls(d)
    } else {
        Seq::empty()
    }));
    lemma_opens(all, p13, QwenScratch::decls(d));
    lemma_opens(all, p12, DeltaScratch::decls(d));
    lemma_opens(all, p11, QueryGateScratch::decls(d));
    lemma_opens(all, p10, ExpertScratch::decls(d));
    lemma_opens(all, p9, WorkScratch::decls(d));
    lemma_opens(all, p8, GateScratch::decls(d, f.fuse_gu));
    lemma_opens(all, p7, one_scratch(joins_qkv(d, f), d.b.batch, d.max_qkv_row));
    lemma_opens(all, p6, (if f.deepseek32 {
        TokenIndexScratch::decls(d)
    } else {
        Seq::empty()
    }));
    lemma_opens(all, p5, CompressedBlockScratch::decls(d));
    lemma_opens(all, p4, CompressedQueryScratch::decls(d));
    lemma_opens(all, p3, StreamScratch::decls(d));
    lemma_opens(all, p2, (if f.latent {
        LatentScratch::decls(d)
    } else {
        Seq::empty()
    }));
    lemma_opens(all, p1, (if f.qwen4exp {
        SparseScratch::decls(d)
    } else {
        Seq::empty()
    }));
    lemma_opens(all, p0, FrontScratch::decls(d));
}

#[verifier::rlimit(40)]
proof fn lemma_core_sizes(
    s: Scratch,
    base: usize,
    d: GraphDims,
    f: ScratchFlags,
    by_id: Seq<bool>,
)
    requires
        s.numbered(base as int, d, f, by_id),
        scratch_end(base as int, d, f, by_id) < usize::MAX,
    ensures
        s.core.at(scratch_decls(d, f, by_id), base, d),
{
    reveal(Scratch::numbered);
    reveal(AttentionScratch::numbered);
    reveal(MixingScratch::numbered);
    let all = scratch_decls(d, f, by_id);
    let o = offsets(d, f, by_id);
    lemma_parts_stand(all, d, f, by_id);
    lemma_selecting_grows(by_id, by_id.len());
    lemma_front_at(all, base, base + o.front, d);
    lemma_work_at(all, base, base + o.work, d);
    lemma_query_gates_at(all, base, base + o.query_gates, d);
}

#[verifier::rlimit(40)]
proof fn lemma_compressed_sizes(
    s: Scratch,
    base: usize,
    d: GraphDims,
    f: ScratchFlags,
    by_id: Seq<bool>,
)
    requires
        s.numbered(base as int, d, f, by_id),
        scratch_end(base as int, d, f, by_id) < usize::MAX,
    ensures
        s.compressed.at(scratch_decls(d, f, by_id), base, d),
{
    reveal(Scratch::numbered);
    reveal(AttentionScratch::numbered);
    reveal(MixingScratch::numbered);
    let all = scratch_decls(d, f, by_id);
    let o = offsets(d, f, by_id);
    lemma_parts_stand(all, d, f, by_id);
    lemma_selecting_grows(by_id, by_id.len());
    lemma_compressed_query_at(all, base, base + o.compressed_query, d);
    lemma_compressed_blocks_at(all, base, base + o.compressed_blocks, d);
}

#[verifier::rlimit(40)]
proof fn lemma_mixer_sizes(
    s: Scratch,
    base: usize,
    d: GraphDims,
    f: ScratchFlags,
    by_id: Seq<bool>,
)
    requires
        s.numbered(base as int, d, f, by_id),
        scratch_end(base as int, d, f, by_id) < usize::MAX,
    ensures
        s.sparse matches Some(x) ==> x.at(scratch_decls(d, f, by_id), base, d),
        s.latent matches Some(x) ==> x.at(scratch_decls(d, f, by_id), base, d),
        s.streams.at(scratch_decls(d, f, by_id), base, d),
        s.token_index matches Some(x) ==> x.at(scratch_decls(d, f, by_id), base, d),
{
    reveal(Scratch::numbered);
    reveal(AttentionScratch::numbered);
    reveal(MixingScratch::numbered);
    let all = scratch_decls(d, f, by_id);
    let o = offsets(d, f, by_id);
    lemma_parts_stand(all, d, f, by_id);
    lemma_selecting_grows(by_id, by_id.len());
    if f.qwen4exp {
        lemma_sparse_at(all, base, base + o.sparse, d);
    }
    if f.latent {
        lemma_latent_at(all, base, base + o.latent, d);
    }
    lemma_streams_at(all, base, base + o.streams, d);
    if f.deepseek32 {
        lemma_token_index_at(all, base, base + o.token_index, d);
    }
}

#[verifier::rlimit(40)]
proof fn lemma_block_sizes(
    s: Scratch,
    base: usize,
    d: GraphDims,
    f: ScratchFlags,
    by_id: Seq<bool>,
)
    requires
        s.numbered(base as int, d, f, by_id),
        scratch_end(base as int, d, f, by_id) < usize::MAX,
    ensures
        s.experts.at(scratch_decls(d, f, by_id), base, d),
        s.delta.at(scratch_decls(d, f, by_id), base, d),
{
    reveal(Scratch::numbered);
    reveal(AttentionScratch::numbered);
    reveal(MixingScratch::numbered);
    let all = scratch_decls(d, f, by_id);
    let o = offsets(d, f, by_id);
    lemma_parts_stand(all, d, f, by_id);
    lemma_selecting_grows(by_id, by_id.len());
    lemma_experts_at(all, base, base + o.experts, d);
    lemma_delta_at(all, base, base + o.delta, d);
}

#[verifier::rlimit(40)]
proof fn lemma_input_sizes(
    s: Scratch,
    base: usize,
    d: GraphDims,
    f: ScratchFlags,
    by_id: Seq<bool>,
)
    requires
        s.numbered(base as int, d, f, by_id),
        scratch_end(base as int, d, f, by_id) < usize::MAX,
    ensures
        s.qwen.at(scratch_decls(d, f, by_id), base, d),
        s.per_layer matches Some(x) ==> x.at(scratch_decls(d, f, by_id), base, d),
        s.condition matches Some(x) ==> x.at(scratch_decls(d, f, by_id), base, d),
{
    reveal(Scratch::numbered);
    reveal(AttentionScratch::numbered);
    reveal(MixingScratch::numbered);
    let all = scratch_decls(d, f, by_id);
    let o = offsets(d, f, by_id);
    lemma_parts_stand(all, d, f, by_id);
    lemma_selecting_grows(by_id, by_id.len());
    lemma_qwen_at(all, base, base + o.qwen, d);
    if f.e2b {
        lemma_per_layer_at(all, base, base + o.per_layer, d);
    }
    if f.conditioned {
        lemma_condition_at(all, base, base + o.condition, d);
    }
}

#[verifier::rlimit(40)]
proof fn lemma_single_sizes(
    s: Scratch,
    base: usize,
    d: GraphDims,
    f: ScratchFlags,
    by_id: Seq<bool>,
)
    requires
        s.numbered(base as int, d, f, by_id),
        scratch_end(base as int, d, f, by_id) < usize::MAX,
    ensures
        s.gates.at(scratch_decls(d, f, by_id), base, d, f.fuse_gu),
        s.qkv matches Some(id) ==> scratch_at(
            scratch_decls(d, f, by_id),
            base,
            id,
            d.b.batch,
            d.max_qkv_row,
            DType::F32,
        ),
        s.last matches Some(id) ==> scratch_at(
            scratch_decls(d, f, by_id),
            base,
            id,
            d.b.logits_rows,
            d.b.n_embd,
            DType::F32,
        ),
        forall|l: int|
            0 <= l < by_id.len() ==> selection_at(
                scratch_decls(d, f, by_id),
                base,
                d,
                #[trigger] s.selected@[l],
                by_id[l],
            ),
{
    reveal(Scratch::numbered);
    reveal(AttentionScratch::numbered);
    reveal(MixingScratch::numbered);
    let all = scratch_decls(d, f, by_id);
    let o = offsets(d, f, by_id);
    lemma_parts_stand(all, d, f, by_id);
    lemma_selecting_grows(by_id, by_id.len());
    lemma_gates_at(all, base, base + o.gates, d, f.fuse_gu);
    if joins_qkv(d, f) {
        lemma_stands(all, base, base + o.qkv, one_scratch(true, d.b.batch, d.max_qkv_row), 0);
    }
    if f.tail_only {
        lemma_stands(all, base, base + o.last, one_scratch(true, d.b.logits_rows, d.b.n_embd), 0);
    }
    assert forall|l: int| 0 <= l < by_id.len() implies selection_at(
        all,
        base,
        d,
        #[trigger] s.selected@[l],
        by_id[l],
    ) by {
        lemma_selection_at(all, base, base + o.selected, d, by_id, by_id.len(), l);
    }
}

/// Every scratch tensor of a graph is declared with the size and type that its name asks for.
pub proof fn law_scratch_tensors_have_the_size_of_their_names(
    s: Scratch,
    base: usize,
    d: GraphDims,
    f: ScratchFlags,
    by_id: Seq<bool>,
)
    requires
        s.numbered(base as int, d, f, by_id),
        scratch_end(base as int, d, f, by_id) < usize::MAX,
    ensures
        s.at(scratch_decls(d, f, by_id), base, d, f, by_id),
{
    s.lemma_present(base as int, d, f, by_id);
    lemma_core_sizes(s, base, d, f, by_id);
    lemma_compressed_sizes(s, base, d, f, by_id);
    lemma_mixer_sizes(s, base, d, f, by_id);
    lemma_block_sizes(s, base, d, f, by_id);
    lemma_input_sizes(s, base, d, f, by_id);
    lemma_single_sizes(s, base, d, f, by_id);
}

} // verus!
