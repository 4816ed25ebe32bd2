//! The scratch tensors of a graph.

use crate::config::DType;
use crate::graph_dims::GraphDims;
use crate::numbering::{nth, one_number, taken};
use crate::weight_plan::TensorId;
use vstd::prelude::*;

verus! {

/// A scratch tensor of `rows` times `width` elements.
#[derive(Clone, Copy, Debug, PartialEq, Eq, Structural)]
pub struct ScratchDecl {
    pub rows: usize,
    pub width: usize,
    pub dtype: DType,
}

/// What decides which scratch tensors a graph has.
#[derive(Clone, Copy, Debug, PartialEq, Eq, Structural)]
pub struct ScratchFlags {
    pub qwen4exp: bool,
    pub latent: bool,
    pub deepseek32: bool,
    pub e2b: bool,
    /// A canvas is conditioned on the last step's logits.
    pub conditioned: bool,
    pub fuse_qkv: bool,
    pub fuse_gu: bool,
    /// Logits are made of the last rows only.
    pub tail_only: bool,
}

/// The number, behind `base` others, is that of a scratch tensor of the given size and type. Which
/// one it is, is said by the `numbered` functions.
#[verifier::opaque]
pub open spec fn scratch_at(
    decls: Seq<ScratchDecl>,
    base: usize,
    id: TensorId,
    rows: usize,
    width: usize,
    dtype: DType,
) -> bool {
    base <= id && id - base < decls.len() && decls[id - base] == (ScratchDecl {
        rows,
        width,
        dtype,
    })
}

/// The number, and at least one.
#[verifier::allow_in_spec]
pub fn or_one(n: usize) -> usize
    returns
        (if n >= 1 {
            n
        } else {
            1usize
        }),
{
    if n >= 1 {
        n
    } else {
        1
    }
}

/// The rows of a store of at least one element: one where a row holds nothing.
#[verifier::allow_in_spec]
pub fn rows_of(rows: usize, width: usize) -> usize
    returns
        (if width >= 1 {
            rows
        } else {
            1usize
        }),
{
    if width >= 1 {
        rows
    } else {
        1
    }
}

fn scratch(
    decls: &mut Vec<ScratchDecl>,
    base: usize,
    rows: usize,
    width: usize,
    dtype: DType,
) -> (id: TensorId)
    requires
        base + old(decls)@.len() < usize::MAX,
    ensures
        final(decls)@ == old(decls)@.push(ScratchDecl { rows, width, dtype }),
        id == base + old(decls)@.len(),
{
    let id: TensorId = base + decls.len();
    decls.push(ScratchDecl { rows, width, dtype });
    id
}

/// The rows that a mixer reads and works in.
#[derive(Clone, Copy, Debug, PartialEq, Eq, Structural)]
pub struct FrontScratch {
    pub hn: TensorId,
    pub q: TensorId,
    pub k: TensorId,
    pub v: TensorId,
    pub q_half: TensorId,
    pub k_half: TensorId,
    pub attn: TensorId,
}

impl FrontScratch {
    /// The scratch tensors, in the order of their declaration.
    #[verifier::opaque]
    pub open spec fn decls(d: GraphDims) -> Seq<ScratchDecl> {
        seq![
            ScratchDecl { rows: d.b.batch, width: d.b.n_embd, dtype: DType::F32 },
            ScratchDecl { rows: d.b.batch, width: d.max_query_row, dtype: DType::F32 },
            ScratchDecl { rows: d.b.batch, width: d.max_kv_row, dtype: DType::F32 },
            ScratchDecl { rows: d.b.batch, width: d.max_kv_row, dtype: DType::F32 },
            ScratchDecl { rows: d.b.batch, width: d.max_query_row, dtype: DType::F16 },
            ScratchDecl { rows: d.b.batch, width: d.max_kv_row, dtype: DType::F16 },
            ScratchDecl { rows: d.b.batch, width: d.max_query_row, dtype: DType::F32 },
        ]
    }

    /// The numbers from `first` on, in the order of their declaration.
    pub open spec fn numbered(first: int) -> FrontScratch {
        FrontScratch {
            hn: nth(first, 0),
            q: nth(first, 1),
            k: nth(first, 2),
            v: nth(first, 3),
            q_half: nth(first, 4),
            k_half: nth(first, 5),
            attn: nth(first, 6),
        }
    }

    /// Every number is that of a scratch tensor of the size and type that its name asks for.
    pub open spec fn at(self, decls: Seq<ScratchDecl>, base: usize, d: GraphDims) -> bool {
        &&& scratch_at(decls, base, self.hn, d.b.batch, d.b.n_embd, DType::F32)
        &&& scratch_at(decls, base, self.q, d.b.batch, d.max_query_row, DType::F32)
        &&& scratch_at(decls, base, self.k, d.b.batch, d.max_kv_row, DType::F32)
        &&& scratch_at(decls, base, self.v, d.b.batch, d.max_kv_row, DType::F32)
        &&& scratch_at(decls, base, self.q_half, d.b.batch, d.max_query_row, DType::F16)
        &&& scratch_at(decls, base, self.k_half, d.b.batch, d.max_kv_row, DType::F16)
        &&& scratch_at(decls, base, self.attn, d.b.batch, d.max_query_row, DType::F32)
    }

    fn declare(decls: &mut Vec<ScratchDecl>, base: usize, d: &GraphDims) -> (s: FrontScratch)
        requires
            base + old(decls)@.len() + 7 < usize::MAX,
        ensures
            final(decls)@ == old(decls)@ + FrontScratch::decls(*d),
            s == FrontScratch::numbered(base + old(decls)@.len()),
            final(decls)@.len() == old(decls)@.len() + 7,
    {
        reveal(FrontScratch::decls);
        let hn: TensorId = scratch(decls, base, d.b.batch, d.b.n_embd, DType::F32);
        let q: TensorId = scratch(decls, base, d.b.batch, d.max_query_row, DType::F32);
        let k: TensorId = scratch(decls, base, d.b.batch, d.max_kv_row, DType::F32);
        let v: TensorId = scratch(decls, base, d.b.batch, d.max_kv_row, DType::F32);
        let q_half: TensorId = scratch(decls, base, d.b.batch, d.max_query_row, DType::F16);
        let k_half: TensorId = scratch(decls, base, d.b.batch, d.max_kv_row, DType::F16);
        let attn: TensorId = scratch(decls, base, d.b.batch, d.max_query_row, DType::F32);
        assert(decls@ =~= old(decls)@ + FrontScratch::decls(*d));
        FrontScratch {
            hn,
            q,
            k,
            v,
            q_half,
            k_half,
            attn,
        }
    }
}

/// What block-sparse attention works in.
#[derive(Clone, Copy, Debug, PartialEq, Eq, Structural)]
pub struct SparseScratch {
    pub raw_k: TensorId,
    pub q: TensorId,
    pub q_half: TensorId,
    pub indices: TensorId,
    pub gather_k: TensorId,
    pub gather_v: TensorId,
}

impl SparseScratch {
    /// The scratch tensors, in the order of their declaration.
    #[verifier::opaque]
    pub open spec fn decls(d: GraphDims) -> Seq<ScratchDecl> {
        seq![
            ScratchDecl { rows: d.b.batch, width: d.b.indexer_head_size, dtype: DType::F32 },
            ScratchDecl { rows: d.b.batch, width: d.index_row, dtype: DType::F32 },
            ScratchDecl { rows: d.b.batch, width: d.index_row, dtype: DType::F16 },
            ScratchDecl { rows: d.b.batch, width: d.sparse_blocks, dtype: DType::I32 },
            ScratchDecl { rows: d.sparse_rows, width: or_one(d.max_kv_row), dtype: DType::F16 },
            ScratchDecl { rows: d.sparse_rows, width: or_one(d.max_kv_row), dtype: DType::F16 },
        ]
    }

    /// The numbers from `first` on, in the order of their declaration.
    pub open spec fn numbered(first: int) -> SparseScratch {
        SparseScratch {
            raw_k: nth(first, 0),
            q: nth(first, 1),
            q_half: nth(first, 2),
            indices: nth(first, 3),
            gather_k: nth(first, 4),
            gather_v: nth(first, 5),
        }
    }

    /// Every number is that of a scratch tensor of the size and type that its name asks for.
    pub open spec fn at(self, decls: Seq<ScratchDecl>, base: usize, d: GraphDims) -> bool {
        &&& scratch_at(decls, base, self.raw_k, d.b.batch, d.b.indexer_head_size, DType::F32)
        &&& scratch_at(decls, base, self.q, d.b.batch, d.index_row, DType::F32)
        &&& scratch_at(decls, base, self.q_half, d.b.batch, d.index_row, DType::F16)
        &&& scratch_at(decls, base, self.indices, d.b.batch, d.sparse_blocks, DType::I32)
        &&& scratch_at(decls, base, self.gather_k, d.sparse_rows, or_one(d.max_kv_row), DType::F16)
        &&& scratch_at(decls, base, self.gather_v, d.sparse_rows, or_one(d.max_kv_row), DType::F16)
    }

    fn declare(decls: &mut Vec<ScratchDecl>, base: usize, d: &GraphDims) -> (s: SparseScratch)
        requires
            base + old(decls)@.len() + 6 < usize::MAX,
        ensures
            final(decls)@ == old(decls)@ + SparseScratch::decls(*d),
            s == SparseScratch::numbered(base + old(decls)@.len()),
            final(decls)@.len() == old(decls)@.len() + 6,
    {
        reveal(SparseScratch::decls);
        let raw_k: TensorId = scratch(decls, base, d.b.batch, d.b.indexer_head_size, DType::F32);
        let q: TensorId = scratch(decls, base, d.b.batch, d.index_row, DType::F32);
        let q_half: TensorId = scratch(decls, base, d.b.batch, d.index_row, DType::F16);
        let indices: TensorId = scratch(decls, base, d.b.batch, d.sparse_blocks, DType::I32);
        let gather_k: TensorId = scratch(
            decls,
            base,
            d.sparse_rows,
            or_one(d.max_kv_row),
            DType::F16,
        );
        let gather_v: TensorId = scratch(
            decls,
            base,
            d.sparse_rows,
            or_one(d.max_kv_row),
            DType::F16,
        );
        assert(decls@ =~= old(decls)@ + SparseScratch::decls(*d));
        SparseScratch {
            raw_k,
            q,
            q_half,
            indices,
            gather_k,
            gather_v,
        }
    }
}

/// What latent attention works in.
#[derive(Clone, Copy, Debug, PartialEq, Eq, Structural)]
pub struct LatentScratch {
    pub q: TensorId,
    pub key: TensorId,
    pub cmpr: TensorId,
    pub rope: TensorId,
}

impl LatentScratch {
    /// The scratch tensors, in the order of their declaration.
    #[verifier::opaque]
    pub open spec fn decls(d: GraphDims) -> Seq<ScratchDecl> {
        seq![
            ScratchDecl { rows: d.b.batch, width: d.latent_query_row, dtype: DType::F32 },
            ScratchDecl { rows: d.b.batch, width: d.latent_key, dtype: DType::F32 },
            ScratchDecl { rows: d.b.batch, width: d.b.kv_lora_rank, dtype: DType::F32 },
            ScratchDecl { rows: d.b.batch, width: d.b.qk_rope_dim, dtype: DType::F32 },
        ]
    }

    /// The numbers from `first` on, in the order of their declaration.
    pub open spec fn numbered(first: int) -> LatentScratch {
        LatentScratch {
            q: nth(first, 0),
            key: nth(first, 1),
            cmpr: nth(first, 2),
            rope: nth(first, 3),
        }
    }

    /// Every number is that of a scratch tensor of the size and type that its name asks for.
    pub open spec fn at(self, decls: Seq<ScratchDecl>, base: usize, d: GraphDims) -> bool {
        &&& scratch_at(decls, base, self.q, d.b.batch, d.latent_query_row, DType::F32)
        &&& scratch_at(decls, base, self.key, d.b.batch, d.latent_key, DType::F32)
        &&& scratch_at(decls, base, self.cmpr, d.b.batch, d.b.kv_lora_rank, DType::F32)
        &&& scratch_at(decls, base, self.rope, d.b.batch, d.b.qk_rope_dim, DType::F32)
    }

    fn declare(decls: &mut Vec<ScratchDecl>, base: usize, d: &GraphDims) -> (s: LatentScratch)
        requires
            base + old(decls)@.len() + 4 < usize::MAX,
        ensures
            final(decls)@ == old(decls)@ + LatentScratch::decls(*d),
            s == LatentScratch::numbered(base + old(decls)@.len()),
            final(decls)@.len() == old(decls)@.len() + 4,
    {
        reveal(LatentScratch::decls);
        let q: TensorId = scratch(decls, base, d.b.batch, d.latent_query_row, DType::F32);
        let key: TensorId = scratch(decls, base, d.b.batch, d.latent_key, DType::F32);
        let cmpr: TensorId = scratch(decls, base, d.b.batch, d.b.kv_lora_rank, DType::F32);
        let rope: TensorId = scratch(decls, base, d.b.batch, d.b.qk_rope_dim, DType::F32);
        assert(decls@ =~= old(decls)@ + LatentScratch::decls(*d));
        LatentScratch {
            q,
            key,
            cmpr,
            rope,
        }
    }
}

/// What the residual streams of compressed attention are mixed in.
#[derive(Clone, Copy, Debug, PartialEq, Eq, Structural)]
pub struct StreamScratch {
    pub even: TensorId,
    pub odd: TensorId,
    pub normed: TensorId,
    pub mixes: TensorId,
    pub head_mixes: TensorId,
    pub pre: TensorId,
    pub post: TensorId,
    pub comb: TensorId,
}

impl StreamScratch {
    /// The scratch tensors, in the order of their declaration.
    #[verifier::opaque]
    pub open spec fn decls(d: GraphDims) -> Seq<ScratchDecl> {
        seq![
            ScratchDecl { rows: d.b.batch, width: or_one(d.wide), dtype: DType::F32 },
            ScratchDecl { rows: d.b.batch, width: or_one(d.wide), dtype: DType::F32 },
            ScratchDecl { rows: d.b.batch, width: or_one(d.wide), dtype: DType::F32 },
            ScratchDecl { rows: d.b.batch, width: or_one(d.hc_gates), dtype: DType::F32 },
            ScratchDecl { rows: d.b.batch, width: or_one(d.b.hc_mult), dtype: DType::F32 },
            ScratchDecl { rows: d.b.batch, width: or_one(d.b.hc_mult), dtype: DType::F32 },
            ScratchDecl { rows: d.b.batch, width: or_one(d.b.hc_mult), dtype: DType::F32 },
            ScratchDecl { rows: d.b.batch, width: or_one(d.hc_square), dtype: DType::F32 },
        ]
    }

    /// The numbers from `first` on, in the order of their declaration.
    pub open spec fn numbered(first: int) -> StreamScratch {
        StreamScratch {
            even: nth(first, 0),
            odd: nth(first, 1),
            normed: nth(first, 2),
            mixes: nth(first, 3),
            head_mixes: nth(first, 4),
            pre: nth(first, 5),
            post: nth(first, 6),
            comb: nth(first, 7),
        }
    }

    /// Every number is that of a scratch tensor of the size and type that its name asks for.
    pub open spec fn at(self, decls: Seq<ScratchDecl>, base: usize, d: GraphDims) -> bool {
        &&& scratch_at(decls, base, self.even, d.b.batch, or_one(d.wide), DType::F32)
        &&& scratch_at(decls, base, self.odd, d.b.batch, or_one(d.wide), DType::F32)
        &&& scratch_at(decls, base, self.normed, d.b.batch, or_one(d.wide), DType::F32)
        &&& scratch_at(decls, base, self.mixes, d.b.batch, or_one(d.hc_gates), DType::F32)
        &&& scratch_at(decls, base, self.head_mixes, d.b.batch, or_one(d.b.hc_mult), DType::F32)
        &&& scratch_at(decls, base, self.pre, d.b.batch, or_one(d.b.hc_mult), DType::F32)
        &&& scratch_at(decls, base, self.post, d.b.batch, or_one(d.b.hc_mult), DType::F32)
        &&& scratch_at(decls, base, self.comb, d.b.batch, or_one(d.hc_square), DType::F32)
    }

    fn declare(decls: &mut Vec<ScratchDecl>, base: usize, d: &GraphDims) -> (s: StreamScratch)
        requires
            base + old(decls)@.len() + 8 < usize::MAX,
        ensures
            final(decls)@ == old(decls)@ + StreamScratch::decls(*d),
            s == StreamScratch::numbered(base + old(decls)@.len()),
            final(decls)@.len() == old(decls)@.len() + 8,
    {
        reveal(StreamScratch::decls);
        let even: TensorId = scratch(decls, base, d.b.batch, or_one(d.wide), DType::F32);
        let odd: TensorId = scratch(decls, base, d.b.batch, or_one(d.wide), DType::F32);
        let normed: TensorId = scratch(decls, base, d.b.batch, or_one(d.wide), DType::F32);
        let mixes: TensorId = scratch(decls, base, d.b.batch, or_one(d.hc_gates), DType::F32);
        let head_mixes: TensorId = scratch(decls, base, d.b.batch, or_one(d.b.hc_mult), DType::F32);
        let pre: TensorId = scratch(decls, base, d.b.batch, or_one(d.b.hc_mult), DType::F32);
        let post: TensorId = scratch(decls, base, d.b.batch, or_one(d.b.hc_mult), DType::F32);
        let comb: TensorId = scratch(decls, base, d.b.batch, or_one(d.hc_square), DType::F32);
        assert(decls@ =~= old(decls)@ + StreamScratch::decls(*d));
        StreamScratch {
            even,
            odd,
            normed,
            mixes,
            head_mixes,
            pre,
            post,
            comb,
        }
    }
}

/// What compressed attention projects in.
#[derive(Clone, Copy, Debug, PartialEq, Eq, Structural)]
pub struct CompressedQueryScratch {
    pub low: TensorId,
    pub kv: TensorId,
    pub rope_q: TensorId,
    pub rope_kv: TensorId,
    pub group_in: TensorId,
    pub group_out: TensorId,
    pub groups: TensorId,
}

impl CompressedQueryScratch {
    /// The scratch tensors, in the order of their declaration.
    #[verifier::opaque]
    pub open spec fn decls(d: GraphDims) -> Seq<ScratchDecl> {
        seq![
            ScratchDecl { rows: d.b.batch, width: or_one(d.b.q_lora_rank), dtype: DType::F32 },
            ScratchDecl { rows: d.b.batch, width: or_one(d.b.head_dim), dtype: DType::F32 },
            ScratchDecl { rows: d.b.batch, width: or_one(d.rope_row), dtype: DType::F32 },
            ScratchDecl { rows: d.b.batch, width: or_one(d.b.rope_dim), dtype: DType::F32 },
            ScratchDecl { rows: d.b.batch, width: or_one(d.group_row), dtype: DType::F32 },
            ScratchDecl { rows: d.b.batch, width: or_one(d.b.o_lora_rank), dtype: DType::F32 },
            ScratchDecl { rows: d.b.batch, width: or_one(d.o_row), dtype: DType::F32 },
        ]
    }

    /// The numbers from `first` on, in the order of their declaration.
    pub open spec fn numbered(first: int) -> CompressedQueryScratch {
        CompressedQueryScratch {
            low: nth(first, 0),
            kv: nth(first, 1),
            rope_q: nth(first, 2),
            rope_kv: nth(first, 3),
            group_in: nth(first, 4),
            group_out: nth(first, 5),
            groups: nth(first, 6),
        }
    }

    /// Every number is that of a scratch tensor of the size and type that its name asks for.
    pub open spec fn at(self, decls: Seq<ScratchDecl>, base: usize, d: GraphDims) -> bool {
        &&& scratch_at(decls, base, self.low, d.b.batch, or_one(d.b.q_lora_rank), DType::F32)
        &&& scratch_at(decls, base, self.kv, d.b.batch, or_one(d.b.head_dim), DType::F32)
        &&& scratch_at(decls, base, self.rope_q, d.b.batch, or_one(d.rope_row), DType::F32)
        &&& scratch_at(decls, base, self.rope_kv, d.b.batch, or_one(d.b.rope_dim), DType::F32)
        &&& scratch_at(decls, base, self.group_in, d.b.batch, or_one(d.group_row), DType::F32)
        &&& scratch_at(decls, base, self.group_out, d.b.batch, or_one(d.b.o_lora_rank), DType::F32)
        &&& scratch_at(decls, base, self.groups, d.b.batch, or_one(d.o_row), DType::F32)
    }

    fn declare(decls: &mut Vec<ScratchDecl>, base: usize, d: &GraphDims) -> (s:
        CompressedQueryScratch)
        requires
            base + old(decls)@.len() + 7 < usize::MAX,
        ensures
            final(decls)@ == old(decls)@ + CompressedQueryScratch::decls(*d),
            s == CompressedQueryScratch::numbered(base + old(decls)@.len()),
            final(decls)@.len() == old(decls)@.len() + 7,
    {
        reveal(CompressedQueryScratch::decls);
        let low: TensorId = scratch(decls, base, d.b.batch, or_one(d.b.q_lora_rank), DType::F32);
        let kv: TensorId = scratch(decls, base, d.b.batch, or_one(d.b.head_dim), DType::F32);
        let rope_q: TensorId = scratch(decls, base, d.b.batch, or_one(d.rope_row), DType::F32);
        let rope_kv: TensorId = scratch(decls, base, d.b.batch, or_one(d.b.rope_dim), DType::F32);
        let group_in: TensorId = scratch(decls, base, d.b.batch, or_one(d.group_row), DType::F32);
        let group_out: TensorId = scratch(
            decls,
            base,
            d.b.batch,
            or_one(d.b.o_lora_rank),
            DType::F32,
        );
        let groups: TensorId = scratch(decls, base, d.b.batch, or_one(d.o_row), DType::F32);
        assert(decls@ =~= old(decls)@ + CompressedQueryScratch::decls(*d));
        CompressedQueryScratch {
            low,
            kv,
            rope_q,
            rope_kv,
            group_in,
            group_out,
            groups,
        }
    }
}

/// What compressed attention makes and chooses its blocks in.
#[derive(Clone, Copy, Debug, PartialEq, Eq, Structural)]
pub struct CompressedBlockScratch {
    pub values: TensorId,
    pub scores: TensorId,
    pub row: TensorId,
    pub index_values: TensorId,
    pub index_scores: TensorId,
    pub index_key: TensorId,
    pub index_q: TensorId,
    pub index_packed: TensorId,
    pub index_weights: TensorId,
    pub index_top: TensorId,
    pub gather: TensorId,
}

impl CompressedBlockScratch {
    /// The scratch tensors, in the order of their declaration.
    #[verifier::opaque]
    pub open spec fn decls(d: GraphDims) -> Seq<ScratchDecl> {
        seq![
            ScratchDecl { rows: 1, width: or_one(d.head_dim2), dtype: DType::F32 },
            ScratchDecl { rows: 1, width: or_one(d.head_dim2), dtype: DType::F32 },
            ScratchDecl { rows: 1, width: or_one(d.b.head_dim), dtype: DType::F32 },
            ScratchDecl { rows: 1, width: or_one(d.index_head2), dtype: DType::F32 },
            ScratchDecl { rows: 1, width: or_one(d.index_head2), dtype: DType::F32 },
            ScratchDecl { rows: 1, width: or_one(d.b.indexer_head_size), dtype: DType::F32 },
            ScratchDecl { rows: 1, width: or_one(d.index_row), dtype: DType::F32 },
            ScratchDecl { rows: 1, width: d.index_words, dtype: DType::U32 },
            ScratchDecl { rows: 1, width: or_one(d.b.indexer_n_head), dtype: DType::F32 },
            ScratchDecl { rows: 1, width: or_one(d.index_blocks), dtype: DType::I32 },
            ScratchDecl {
                rows: rows_of(d.gather_rows, d.b.head_dim),
                width: or_one(d.b.head_dim),
                dtype: DType::F16,
            },
        ]
    }

    /// The numbers from `first` on, in the order of their declaration.
    pub open spec fn numbered(first: int) -> CompressedBlockScratch {
        CompressedBlockScratch {
            values: nth(first, 0),
            scores: nth(first, 1),
            row: nth(first, 2),
            index_values: nth(first, 3),
            index_scores: nth(first, 4),
            index_key: nth(first, 5),
            index_q: nth(first, 6),
            index_packed: nth(first, 7),
            index_weights: nth(first, 8),
            index_top: nth(first, 9),
            gather: nth(first, 10),
        }
    }

    /// Every number is that of a scratch tensor of the size and type that its name asks for.
    pub open spec fn at(self, decls: Seq<ScratchDecl>, base: usize, d: GraphDims) -> bool {
        &&& scratch_at(decls, base, self.values, 1, or_one(d.head_dim2), DType::F32)
        &&& scratch_at(decls, base, self.scores, 1, or_one(d.head_dim2), DType::F32)
        &&& scratch_at(decls, base, self.row, 1, or_one(d.b.head_dim), DType::F32)
        &&& scratch_at(decls, base, self.index_values, 1, or_one(d.index_head2), DType::F32)
        &&& scratch_at(decls, base, self.index_scores, 1, or_one(d.index_head2), DType::F32)
        &&& scratch_at(decls, base, self.index_key, 1, or_one(d.b.indexer_head_size), DType::F32)
        &&& scratch_at(decls, base, self.index_q, 1, or_one(d.index_row), DType::F32)
        &&& scratch_at(decls, base, self.index_packed, 1, d.index_words, DType::U32)
        &&& scratch_at(decls, base, self.index_weights, 1, or_one(d.b.indexer_n_head), DType::F32)
        &&& scratch_at(decls, base, self.index_top, 1, or_one(d.index_blocks), DType::I32)
        &&& scratch_at(
            decls,
            base,
            self.gather,
            rows_of(d.gather_rows, d.b.head_dim),
            or_one(d.b.head_dim),
            DType::F16,
        )
    }

    fn declare(decls: &mut Vec<ScratchDecl>, base: usize, d: &GraphDims) -> (s:
        CompressedBlockScratch)
        requires
            base + old(decls)@.len() + 11 < usize::MAX,
        ensures
            final(decls)@ == old(decls)@ + CompressedBlockScratch::decls(*d),
            s == CompressedBlockScratch::numbered(base + old(decls)@.len()),
            final(decls)@.len() == old(decls)@.len() + 11,
    {
        reveal(CompressedBlockScratch::decls);
        let values: TensorId = scratch(decls, base, 1, or_one(d.head_dim2), DType::F32);
        let scores: TensorId = scratch(decls, base, 1, or_one(d.head_dim2), DType::F32);
        let row: TensorId = scratch(decls, base, 1, or_one(d.b.head_dim), DType::F32);
        let index_values: TensorId = scratch(decls, base, 1, or_one(d.index_head2), DType::F32);
        let index_scores: TensorId = scratch(decls, base, 1, or_one(d.index_head2), DType::F32);
        let index_key: TensorId = scratch(
            decls,
            base,
            1,
            or_one(d.b.indexer_head_size),
            DType::F32,
        );
        let index_q: TensorId = scratch(decls, base, 1, or_one(d.index_row), DType::F32);
        let index_packed: TensorId = scratch(decls, base, 1, d.index_words, DType::U32);
        let index_weights: TensorId = scratch(
            decls,
            base,
            1,
            or_one(d.b.indexer_n_head),
            DType::F32,
        );
        let index_top: TensorId = scratch(decls, base, 1, or_one(d.index_blocks), DType::I32);
        let gather: TensorId = scratch(
            decls,
            base,
            rows_of(d.gather_rows, d.b.head_dim),
            or_one(d.b.head_dim),
            DType::F16,
        );
        assert(decls@ =~= old(decls)@ + CompressedBlockScratch::decls(*d));
        CompressedBlockScratch {
            values,
            scores,
            row,
            index_values,
            index_scores,
            index_key,
            index_q,
            index_packed,
            index_weights,
            index_top,
            gather,
        }
    }
}

/// What a token indexer works in.
#[derive(Clone, Copy, Debug, PartialEq, Eq, Structural)]
pub struct TokenIndexScratch {
    pub q: TensorId,
    pub k: TensorId,
    pub weights: TensorId,
    pub top: TensorId,
    pub mask: TensorId,
}

impl TokenIndexScratch {
    /// The scratch tensors, in the order of their declaration.
    #[verifier::opaque]
    pub open spec fn decls(d: GraphDims) -> Seq<ScratchDecl> {
        seq![
            ScratchDecl { rows: d.b.batch, width: d.index_row, dtype: DType::F32 },
            ScratchDecl { rows: d.b.batch, width: d.b.indexer_head_size, dtype: DType::F32 },
            ScratchDecl { rows: d.b.batch, width: d.b.indexer_n_head, dtype: DType::F32 },
            ScratchDecl { rows: d.b.batch, width: d.index_top_k, dtype: DType::I32 },
            ScratchDecl { rows: d.b.batch, width: d.visible, dtype: DType::F32 },
        ]
    }

    /// The numbers from `first` on, in the order of their declaration.
    pub open spec fn numbered(first: int) -> TokenIndexScratch {
        TokenIndexScratch {
            q: nth(first, 0),
            k: nth(first, 1),
            weights: nth(first, 2),
            top: nth(first, 3),
            mask: nth(first, 4),
        }
    }

    /// Every number is that of a scratch tensor of the size and type that its name asks for.
    pub open spec fn at(self, decls: Seq<ScratchDecl>, base: usize, d: GraphDims) -> bool {
        &&& scratch_at(decls, base, self.q, d.b.batch, d.index_row, DType::F32)
        &&& scratch_at(decls, base, self.k, d.b.batch, d.b.indexer_head_size, DType::F32)
        &&& scratch_at(decls, base, self.weights, d.b.batch, d.b.indexer_n_head, DType::F32)
        &&& scratch_at(decls, base, self.top, d.b.batch, d.index_top_k, DType::I32)
        &&& scratch_at(decls, base, self.mask, d.b.batch, d.visible, DType::F32)
    }

    fn declare(decls: &mut Vec<ScratchDecl>, base: usize, d: &GraphDims) -> (s: TokenIndexScratch)
        requires
            base + old(decls)@.len() + 5 < usize::MAX,
        ensures
            final(decls)@ == old(decls)@ + TokenIndexScratch::decls(*d),
            s == TokenIndexScratch::numbered(base + old(decls)@.len()),
            final(decls)@.len() == old(decls)@.len() + 5,
    {
        reveal(TokenIndexScratch::decls);
        let q: TensorId = scratch(decls, base, d.b.batch, d.index_row, DType::F32);
        let k: TensorId = scratch(decls, base, d.b.batch, d.b.indexer_head_size, DType::F32);
        let weights: TensorId = scratch(decls, base, d.b.batch, d.b.indexer_n_head, DType::F32);
        let top: TensorId = scratch(decls, base, d.b.batch, d.index_top_k, DType::I32);
        let mask: TensorId = scratch(decls, base, d.b.batch, d.visible, DType::F32);
        assert(decls@ =~= old(decls)@ + TokenIndexScratch::decls(*d));
        TokenIndexScratch {
            q,
            k,
            weights,
            top,
            mask,
        }
    }
}

/// A block's activations and its output, and a layer's own input.
#[derive(Clone, Copy, Debug, PartialEq, Eq, Structural)]
pub struct WorkScratch {
    pub act: TensorId,
    pub sub: TensorId,
    pub picked: TensorId,
    pub projected: TensorId,
}

impl WorkScratch {
    /// The scratch tensors, in the order of their declaration.
    #[verifier::opaque]
    pub open spec fn decls(d: GraphDims) -> Seq<ScratchDecl> {
        seq![
            ScratchDecl { rows: d.b.batch, width: d.b.n_ff, dtype: DType::F32 },
            ScratchDecl { rows: d.b.batch, width: d.b.n_embd, dtype: DType::F32 },
            ScratchDecl { rows: d.b.batch, width: or_one(d.b.n_embd_per_layer), dtype: DType::F32 },
            ScratchDecl { rows: d.b.batch, width: d.b.n_embd, dtype: DType::F32 },
        ]
    }

    /// The numbers from `first` on, in the order of their declaration.
    pub open spec fn numbered(first: int) -> WorkScratch {
        WorkScratch {
            act: nth(first, 0),
            sub: nth(first, 1),
            picked: nth(first, 2),
            projected: nth(first, 3),
        }
    }

    /// Every number is that of a scratch tensor of the size and type that its name asks for.
    pub open spec fn at(self, decls: Seq<ScratchDecl>, base: usize, d: GraphDims) -> bool {
        &&& scratch_at(decls, base, self.act, d.b.batch, d.b.n_ff, DType::F32)
        &&& scratch_at(decls, base, self.sub, d.b.batch, d.b.n_embd, DType::F32)
        &&& scratch_at(
            decls,
            base,
            self.picked,
            d.b.batch,
            or_one(d.b.n_embd_per_layer),
            DType::F32,
        )
        &&& scratch_at(decls, base, self.projected, d.b.batch, d.b.n_embd, DType::F32)
    }

    fn declare(decls: &mut Vec<ScratchDecl>, base: usize, d: &GraphDims) -> (s: WorkScratch)
        requires
            base + old(decls)@.len() + 4 < usize::MAX,
        ensures
            final(decls)@ == old(decls)@ + WorkScratch::decls(*d),
            s == WorkScratch::numbered(base + old(decls)@.len()),
            final(decls)@.len() == old(decls)@.len() + 4,
    {
        reveal(WorkScratch::decls);
        let act: TensorId = scratch(decls, base, d.b.batch, d.b.n_ff, DType::F32);
        let sub: TensorId = scratch(decls, base, d.b.batch, d.b.n_embd, DType::F32);
        let picked: TensorId = scratch(
            decls,
            base,
            d.b.batch,
            or_one(d.b.n_embd_per_layer),
            DType::F32,
        );
        let projected: TensorId = scratch(decls, base, d.b.batch, d.b.n_embd, DType::F32);
        assert(decls@ =~= old(decls)@ + WorkScratch::decls(*d));
        WorkScratch {
            act,
            sub,
            picked,
            projected,
        }
    }
}

/// What expert banks and the branches beside them work in.
#[derive(Clone, Copy, Debug, PartialEq, Eq, Structural)]
pub struct ExpertScratch {
    pub dense_out: TensorId,
    pub router_in: TensorId,
    pub bank_in: TensorId,
    pub bank_out: TensorId,
    pub shared_gate: TensorId,
}

impl ExpertScratch {
    /// The scratch tensors, in the order of their declaration.
    #[verifier::opaque]
    pub open spec fn decls(d: GraphDims) -> Seq<ScratchDecl> {
        seq![
            ScratchDecl { rows: d.b.batch, width: d.b.n_embd, dtype: DType::F32 },
            ScratchDecl { rows: d.b.batch, width: d.b.n_embd, dtype: DType::F32 },
            ScratchDecl { rows: d.b.batch, width: d.b.n_embd, dtype: DType::F32 },
            ScratchDecl { rows: d.b.batch, width: d.b.n_embd, dtype: DType::F32 },
            ScratchDecl { rows: d.b.batch, width: 1, dtype: DType::F32 },
        ]
    }

    /// The numbers from `first` on, in the order of their declaration.
    pub open spec fn numbered(first: int) -> ExpertScratch {
        ExpertScratch {
            dense_out: nth(first, 0),
            router_in: nth(first, 1),
            bank_in: nth(first, 2),
            bank_out: nth(first, 3),
            shared_gate: nth(first, 4),
        }
    }

    /// Every number is that of a scratch tensor of the size and type that its name asks for.
    pub open spec fn at(self, decls: Seq<ScratchDecl>, base: usize, d: GraphDims) -> bool {
        &&& scratch_at(decls, base, self.dense_out, d.b.batch, d.b.n_embd, DType::F32)
        &&& scratch_at(decls, base, self.router_in, d.b.batch, d.b.n_embd, DType::F32)
        &&& scratch_at(decls, base, self.bank_in, d.b.batch, d.b.n_embd, DType::F32)
        &&& scratch_at(decls, base, self.bank_out, d.b.batch, d.b.n_embd, DType::F32)
        &&& scratch_at(decls, base, self.shared_gate, d.b.batch, 1, DType::F32)
    }

    fn declare(decls: &mut Vec<ScratchDecl>, base: usize, d: &GraphDims) -> (s: ExpertScratch)
        requires
            base + old(decls)@.len() + 5 < usize::MAX,
        ensures
            final(decls)@ == old(decls)@ + ExpertScratch::decls(*d),
            s == ExpertScratch::numbered(base + old(decls)@.len()),
            final(decls)@.len() == old(decls)@.len() + 5,
    {
        reveal(ExpertScratch::decls);
        let dense_out: TensorId = scratch(decls, base, d.b.batch, d.b.n_embd, DType::F32);
        let router_in: TensorId = scratch(decls, base, d.b.batch, d.b.n_embd, DType::F32);
        let bank_in: TensorId = scratch(decls, base, d.b.batch, d.b.n_embd, DType::F32);
        let bank_out: TensorId = scratch(decls, base, d.b.batch, d.b.n_embd, DType::F32);
        let shared_gate: TensorId = scratch(decls, base, d.b.batch, 1, DType::F32);
        assert(decls@ =~= old(decls)@ + ExpertScratch::decls(*d));
        ExpertScratch {
            dense_out,
            router_in,
            bank_in,
            bank_out,
            shared_gate,
        }
    }
}

/// Queries that stand before their gates, and room for the gates by themselves.
#[derive(Clone, Copy, Debug, PartialEq, Eq, Structural)]
pub struct QueryGateScratch {
    pub gated: TensorId,
    pub apart: TensorId,
}

impl QueryGateScratch {
    /// The scratch tensors, in the order of their declaration.
    #[verifier::opaque]
    pub open spec fn decls(d: GraphDims) -> Seq<ScratchDecl> {
        seq![
            ScratchDecl { rows: d.b.batch, width: d.max_query_row2, dtype: DType::F32 },
            ScratchDecl { rows: d.b.batch, width: d.max_query_row, dtype: DType::F32 },
        ]
    }

    /// The numbers from `first` on, in the order of their declaration.
    pub open spec fn numbered(first: int) -> QueryGateScratch {
        QueryGateScratch {
            gated: nth(first, 0),
            apart: nth(first, 1),
        }
    }

    /// Every number is that of a scratch tensor of the size and type that its name asks for.
    pub open spec fn at(self, decls: Seq<ScratchDecl>, base: usize, d: GraphDims) -> bool {
        &&& scratch_at(decls, base, self.gated, d.b.batch, d.max_query_row2, DType::F32)
        &&& scratch_at(decls, base, self.apart, d.b.batch, d.max_query_row, DType::F32)
    }

    fn declare(decls: &mut Vec<ScratchDecl>, base: usize, d: &GraphDims) -> (s: QueryGateScratch)
        requires
            base + old(decls)@.len() + 2 < usize::MAX,
        ensures
            final(decls)@ == old(decls)@ + QueryGateScratch::decls(*d),
            s == QueryGateScratch::numbered(base + old(decls)@.len()),
            final(decls)@.len() == old(decls)@.len() + 2,
    {
        reveal(QueryGateScratch::decls);
        let gated: TensorId = scratch(decls, base, d.b.batch, d.max_query_row2, DType::F32);
        let apart: TensorId = scratch(decls, base, d.b.batch, d.max_query_row, DType::F32);
        assert(decls@ =~= old(decls)@ + QueryGateScratch::decls(*d));
        QueryGateScratch {
            gated,
            apart,
        }
    }
}

/// What a recurrent mixer works in, and the gates of latent attention.
#[derive(Clone, Copy, Debug, PartialEq, Eq, Structural)]
pub struct DeltaScratch {
    pub qkv: TensorId,
    pub z: TensorId,
    pub conv: TensorId,
    pub q: TensorId,
    pub k: TensorId,
    pub v: TensorId,
    pub beta: TensorId,
    pub alpha: TensorId,
    pub out: TensorId,
    pub forget: TensorId,
    pub head_gate: TensorId,
}

impl DeltaScratch {
    /// The scratch tensors, in the order of their declaration.
    #[verifier::opaque]
    pub open spec fn decls(d: GraphDims) -> Seq<ScratchDecl> {
        seq![
            ScratchDecl { rows: d.b.batch, width: or_one(d.b.conv_channels), dtype: DType::F32 },
            ScratchDecl { rows: d.b.batch, width: or_one(d.b.d_inner), dtype: DType::F32 },
            ScratchDecl { rows: d.b.batch, width: or_one(d.b.conv_channels), dtype: DType::F32 },
            ScratchDecl { rows: d.b.batch, width: or_one(d.key_dim), dtype: DType::F32 },
            ScratchDecl { rows: d.b.batch, width: or_one(d.key_dim), dtype: DType::F32 },
            ScratchDecl { rows: d.b.batch, width: or_one(d.value_dim), dtype: DType::F32 },
            ScratchDecl { rows: d.b.batch, width: or_one(d.b.n_vhead), dtype: DType::F32 },
            ScratchDecl { rows: d.b.batch, width: or_one(d.b.n_vhead), dtype: DType::F32 },
            ScratchDecl { rows: d.b.batch, width: or_one(d.value_dim), dtype: DType::F32 },
            ScratchDecl { rows: d.b.batch, width: or_one(d.b.d_inner), dtype: DType::F32 },
            ScratchDecl { rows: d.b.batch, width: or_one(d.b.n_head), dtype: DType::F32 },
        ]
    }

    /// The numbers from `first` on, in the order of their declaration.
    pub open spec fn numbered(first: int) -> DeltaScratch {
        DeltaScratch {
            qkv: nth(first, 0),
            z: nth(first, 1),
            conv: nth(first, 2),
            q: nth(first, 3),
            k: nth(first, 4),
            v: nth(first, 5),
            beta: nth(first, 6),
            alpha: nth(first, 7),
            out: nth(first, 8),
            forget: nth(first, 9),
            head_gate: nth(first, 10),
        }
    }

    /// Every number is that of a scratch tensor of the size and type that its name asks for.
    pub open spec fn at(self, decls: Seq<ScratchDecl>, base: usize, d: GraphDims) -> bool {
        &&& scratch_at(decls, base, self.qkv, d.b.batch, or_one(d.b.conv_channels), DType::F32)
        &&& scratch_at(decls, base, self.z, d.b.batch, or_one(d.b.d_inner), DType::F32)
        &&& scratch_at(decls, base, self.conv, d.b.batch, or_one(d.b.conv_channels), DType::F32)
        &&& scratch_at(decls, base, self.q, d.b.batch, or_one(d.key_dim), DType::F32)
        &&& scratch_at(decls, base, self.k, d.b.batch, or_one(d.key_dim), DType::F32)
        &&& scratch_at(decls, base, self.v, d.b.batch, or_one(d.value_dim), DType::F32)
        &&& scratch_at(decls, base, self.beta, d.b.batch, or_one(d.b.n_vhead), DType::F32)
        &&& scratch_at(decls, base, self.alpha, d.b.batch, or_one(d.b.n_vhead), DType::F32)
        &&& scratch_at(decls, base, self.out, d.b.batch, or_one(d.value_dim), DType::F32)
        &&& scratch_at(decls, base, self.forget, d.b.batch, or_one(d.b.d_inner), DType::F32)
        &&& scratch_at(decls, base, self.head_gate, d.b.batch, or_one(d.b.n_head), DType::F32)
    }

    fn declare(decls: &mut Vec<ScratchDecl>, base: usize, d: &GraphDims) -> (s: DeltaScratch)
        requires
            base + old(decls)@.len() + 11 < usize::MAX,
        ensures
            final(decls)@ == old(decls)@ + DeltaScratch::decls(*d),
            s == DeltaScratch::numbered(base + old(decls)@.len()),
            final(decls)@.len() == old(decls)@.len() + 11,
    {
        reveal(DeltaScratch::decls);
        let qkv: TensorId = scratch(decls, base, d.b.batch, or_one(d.b.conv_channels), DType::F32);
        let z: TensorId = scratch(decls, base, d.b.batch, or_one(d.b.d_inner), DType::F32);
        let conv: TensorId = scratch(decls, base, d.b.batch, or_one(d.b.conv_channels), DType::F32);
        let q: TensorId = scratch(decls, base, d.b.batch, or_one(d.key_dim), DType::F32);
        let k: TensorId = scratch(decls, base, d.b.batch, or_one(d.key_dim), DType::F32);
        let v: TensorId = scratch(decls, base, d.b.batch, or_one(d.value_dim), DType::F32);
        let beta: TensorId = scratch(decls, base, d.b.batch, or_one(d.b.n_vhead), DType::F32);
        let alpha: TensorId = scratch(decls, base, d.b.batch, or_one(d.b.n_vhead), DType::F32);
        let out: TensorId = scratch(decls, base, d.b.batch, or_one(d.value_dim), DType::F32);
        let forget: TensorId = scratch(decls, base, d.b.batch, or_one(d.b.d_inner), DType::F32);
        let head_gate: TensorId = scratch(decls, base, d.b.batch, or_one(d.b.n_head), DType::F32);
        assert(decls@ =~= old(decls)@ + DeltaScratch::decls(*d));
        DeltaScratch {
            qkv,
            z,
            conv,
            q,
            k,
            v,
            beta,
            alpha,
            out,
            forget,
            head_gate,
        }
    }
}

/// What the gated residual streams and the n-gram embedding work in.
#[derive(Clone, Copy, Debug, PartialEq, Eq, Structural)]
pub struct QwenScratch {
    pub alt: TensorId,
    pub normed: TensorId,
    pub low: TensorId,
    pub mix: TensorId,
    pub inject: TensorId,
    pub key: TensorId,
    pub query: TensorId,
    pub value: TensorId,
    pub conv: TensorId,
}

impl QwenScratch {
    /// The scratch tensors, in the order of their declaration.
    #[verifier::opaque]
    pub open spec fn decls(d: GraphDims) -> Seq<ScratchDecl> {
        seq![
            ScratchDecl { rows: d.b.batch, width: or_one(d.wide), dtype: DType::F32 },
            ScratchDecl { rows: d.b.batch, width: or_one(d.wide), dtype: DType::F32 },
            ScratchDecl { rows: d.b.batch, width: or_one(d.b.hc_low_rank), dtype: DType::F32 },
            ScratchDecl { rows: d.b.batch, width: or_one(d.wide), dtype: DType::F32 },
            ScratchDecl { rows: d.b.batch, width: or_one(d.b.hc_mult), dtype: DType::F32 },
            ScratchDecl { rows: d.b.batch, width: or_one(d.wide), dtype: DType::F32 },
            ScratchDecl { rows: d.b.batch, width: or_one(d.wide), dtype: DType::F32 },
            ScratchDecl { rows: d.b.batch, width: or_one(d.wide), dtype: DType::F32 },
            ScratchDecl { rows: d.b.batch, width: or_one(d.wide), dtype: DType::F32 },
        ]
    }

    /// The numbers from `first` on, in the order of their declaration.
    pub open spec fn numbered(first: int) -> QwenScratch {
        QwenScratch {
            alt: nth(first, 0),
            normed: nth(first, 1),
            low: nth(first, 2),
            mix: nth(first, 3),
            inject: nth(first, 4),
            key: nth(first, 5),
            query: nth(first, 6),
            value: nth(first, 7),
            conv: nth(first, 8),
        }
    }

    /// Every number is that of a scratch tensor of the size and type that its name asks for.
    pub open spec fn at(self, decls: Seq<ScratchDecl>, base: usize, d: GraphDims) -> bool {
        &&& scratch_at(decls, base, self.alt, d.b.batch, or_one(d.wide), DType::F32)
        &&& scratch_at(decls, base, self.normed, d.b.batch, or_one(d.wide), DType::F32)
        &&& scratch_at(decls, base, self.low, d.b.batch, or_one(d.b.hc_low_rank), DType::F32)
        &&& scratch_at(decls, base, self.mix, d.b.batch, or_one(d.wide), DType::F32)
        &&& scratch_at(decls, base, self.inject, d.b.batch, or_one(d.b.hc_mult), DType::F32)
        &&& scratch_at(decls, base, self.key, d.b.batch, or_one(d.wide), DType::F32)
        &&& scratch_at(decls, base, self.query, d.b.batch, or_one(d.wide), DType::F32)
        &&& scratch_at(decls, base, self.value, d.b.batch, or_one(d.wide), DType::F32)
        &&& scratch_at(decls, base, self.conv, d.b.batch, or_one(d.wide), DType::F32)
    }

    fn declare(decls: &mut Vec<ScratchDecl>, base: usize, d: &GraphDims) -> (s: QwenScratch)
        requires
            base + old(decls)@.len() + 9 < usize::MAX,
        ensures
            final(decls)@ == old(decls)@ + QwenScratch::decls(*d),
            s == QwenScratch::numbered(base + old(decls)@.len()),
            final(decls)@.len() == old(decls)@.len() + 9,
    {
        reveal(QwenScratch::decls);
        let alt: TensorId = scratch(decls, base, d.b.batch, or_one(d.wide), DType::F32);
        let normed: TensorId = scratch(decls, base, d.b.batch, or_one(d.wide), DType::F32);
        let low: TensorId = scratch(decls, base, d.b.batch, or_one(d.b.hc_low_rank), DType::F32);
        let mix: TensorId = scratch(decls, base, d.b.batch, or_one(d.wide), DType::F32);
        let inject: TensorId = scratch(decls, base, d.b.batch, or_one(d.b.hc_mult), DType::F32);
        let key: TensorId = scratch(decls, base, d.b.batch, or_one(d.wide), DType::F32);
        let query: TensorId = scratch(decls, base, d.b.batch, or_one(d.wide), DType::F32);
        let value: TensorId = scratch(decls, base, d.b.batch, or_one(d.wide), DType::F32);
        let conv: TensorId = scratch(decls, base, d.b.batch, or_one(d.wide), DType::F32);
        assert(decls@ =~= old(decls)@ + QwenScratch::decls(*d));
        QwenScratch {
            alt,
            normed,
            low,
            mix,
            inject,
            key,
            query,
            value,
            conv,
        }
    }
}

/// What the per-layer inputs are made in.
#[derive(Clone, Copy, Debug, PartialEq, Eq, Structural)]
pub struct PerLayerScratch {
    pub acc: TensorId,
    pub normed: TensorId,
    pub inputs: TensorId,
}

impl PerLayerScratch {
    /// The scratch tensors, in the order of their declaration.
    #[verifier::opaque]
    pub open spec fn decls(d: GraphDims) -> Seq<ScratchDecl> {
        seq![
            ScratchDecl { rows: d.b.batch, width: d.per_layer, dtype: DType::F32 },
            ScratchDecl { rows: d.b.batch, width: d.per_layer, dtype: DType::F32 },
            ScratchDecl { rows: d.b.batch, width: d.per_layer, dtype: DType::F32 },
        ]
    }

    /// The numbers from `first` on, in the order of their declaration.
    pub open spec fn numbered(first: int) -> PerLayerScratch {
        PerLayerScratch {
            acc: nth(first, 0),
            normed: nth(first, 1),
            inputs: nth(first, 2),
        }
    }

    /// Every number is that of a scratch tensor of the size and type that its name asks for.
    pub open spec fn at(self, decls: Seq<ScratchDecl>, base: usize, d: GraphDims) -> bool {
        &&& scratch_at(decls, base, self.acc, d.b.batch, d.per_layer, DType::F32)
        &&& scratch_at(decls, base, self.normed, d.b.batch, d.per_layer, DType::F32)
        &&& scratch_at(decls, base, self.inputs, d.b.batch, d.per_layer, DType::F32)
    }

    fn declare(decls: &mut Vec<ScratchDecl>, base: usize, d: &GraphDims) -> (s: PerLayerScratch)
        requires
            base + old(decls)@.len() + 3 < usize::MAX,
        ensures
            final(decls)@ == old(decls)@ + PerLayerScratch::decls(*d),
            s == PerLayerScratch::numbered(base + old(decls)@.len()),
            final(decls)@.len() == old(decls)@.len() + 3,
    {
        reveal(PerLayerScratch::decls);
        let acc: TensorId = scratch(decls, base, d.b.batch, d.per_layer, DType::F32);
        let normed: TensorId = scratch(decls, base, d.b.batch, d.per_layer, DType::F32);
        let inputs: TensorId = scratch(decls, base, d.b.batch, d.per_layer, DType::F32);
        assert(decls@ =~= old(decls)@ + PerLayerScratch::decls(*d));
        PerLayerScratch {
            acc,
            normed,
            inputs,
        }
    }
}

/// What a canvas is conditioned in.
#[derive(Clone, Copy, Debug, PartialEq, Eq, Structural)]
pub struct ConditionScratch {
    pub probs: TensorId,
    pub soft: TensorId,
    pub normed: TensorId,
    pub left: TensorId,
    pub right: TensorId,
    pub act: TensorId,
    pub signal: TensorId,
}

impl ConditionScratch {
    /// The scratch tensors, in the order of their declaration.
    #[verifier::opaque]
    pub open spec fn decls(d: GraphDims) -> Seq<ScratchDecl> {
        seq![
            ScratchDecl { rows: d.b.batch, width: d.b.vocab, dtype: DType::F32 },
            ScratchDecl { rows: d.b.batch, width: d.b.n_embd, dtype: DType::F32 },
            ScratchDecl { rows: d.b.batch, width: d.b.n_embd, dtype: DType::F32 },
            ScratchDecl { rows: d.b.batch, width: d.b.n_ff, dtype: DType::F32 },
            ScratchDecl { rows: d.b.batch, width: d.b.n_ff, dtype: DType::F32 },
            ScratchDecl { rows: d.b.batch, width: d.b.n_ff, dtype: DType::F32 },
            ScratchDecl { rows: d.b.batch, width: d.b.n_embd, dtype: DType::F32 },
        ]
    }

    /// The numbers from `first` on, in the order of their declaration.
    pub open spec fn numbered(first: int) -> ConditionScratch {
        ConditionScratch {
            probs: nth(first, 0),
            soft: nth(first, 1),
            normed: nth(first, 2),
            left: nth(first, 3),
            right: nth(first, 4),
            act: nth(first, 5),
            signal: nth(first, 6),
        }
    }

    /// Every number is that of a scratch tensor of the size and type that its name asks for.
    pub open spec fn at(self, decls: Seq<ScratchDecl>, base: usize, d: GraphDims) -> bool {
        &&& scratch_at(decls, base, self.probs, d.b.batch, d.b.vocab, DType::F32)
        &&& scratch_at(decls, base, self.soft, d.b.batch, d.b.n_embd, DType::F32)
        &&& scratch_at(decls, base, self.normed, d.b.batch, d.b.n_embd, DType::F32)
        &&& scratch_at(decls, base, self.left, d.b.batch, d.b.n_ff, DType::F32)
        &&& scratch_at(decls, base, self.right, d.b.batch, d.b.n_ff, DType::F32)
        &&& scratch_at(decls, base, self.act, d.b.batch, d.b.n_ff, DType::F32)
        &&& scratch_at(decls, base, self.signal, d.b.batch, d.b.n_embd, DType::F32)
    }

    fn declare(decls: &mut Vec<ScratchDecl>, base: usize, d: &GraphDims) -> (s: ConditionScratch)
        requires
            base + old(decls)@.len() + 7 < usize::MAX,
        ensures
            final(decls)@ == old(decls)@ + ConditionScratch::decls(*d),
            s == ConditionScratch::numbered(base + old(decls)@.len()),
            final(decls)@.len() == old(decls)@.len() + 7,
    {
        reveal(ConditionScratch::decls);
        let probs: TensorId = scratch(decls, base, d.b.batch, d.b.vocab, DType::F32);
        let soft: TensorId = scratch(decls, base, d.b.batch, d.b.n_embd, DType::F32);
        let normed: TensorId = scratch(decls, base, d.b.batch, d.b.n_embd, DType::F32);
        let left: TensorId = scratch(decls, base, d.b.batch, d.b.n_ff, DType::F32);
        let right: TensorId = scratch(decls, base, d.b.batch, d.b.n_ff, DType::F32);
        let act: TensorId = scratch(decls, base, d.b.batch, d.b.n_ff, DType::F32);
        let signal: TensorId = scratch(decls, base, d.b.batch, d.b.n_embd, DType::F32);
        assert(decls@ =~= old(decls)@ + ConditionScratch::decls(*d));
        ConditionScratch {
            probs,
            soft,
            normed,
            left,
            right,
            act,
            signal,
        }
    }
}

/// The gates and the other half of a gated feed-forward block: two tensors, or one that holds both.
#[derive(Clone, Copy, Debug, PartialEq, Eq, Structural)]
pub struct GateScratch {
    pub left: TensorId,
    pub right: TensorId,
    pub joined: TensorId,
}

impl GateScratch {
    /// The scratch tensors, in the order of their declaration.
    #[verifier::opaque]
    pub open spec fn decls(d: GraphDims, fused: bool) -> Seq<ScratchDecl> {
        if fused {
            seq![ScratchDecl { rows: d.b.batch, width: d.n_ff2, dtype: DType::F32 }]
        } else {
            seq![
                ScratchDecl { rows: d.b.batch, width: d.b.n_ff, dtype: DType::F32 },
                ScratchDecl { rows: d.b.batch, width: d.b.n_ff, dtype: DType::F32 },
            ]
        }
    }

    /// How many tensors there are.
    pub open spec fn tensors(fused: bool) -> int {
        if fused {
            1
        } else {
            2
        }
    }

    /// The numbers from `first` on: one for everything if `fused`, otherwise one for each half.
    pub open spec fn numbered(first: int, fused: bool) -> GateScratch {
        if fused {
            GateScratch { left: nth(first, 0), right: nth(first, 0), joined: nth(first, 0) }
        } else {
            GateScratch { left: nth(first, 0), right: nth(first, 1), joined: nth(first, 0) }
        }
    }

    /// Every number is that of a scratch tensor of the size and type that its name asks for.
    pub open spec fn at(
        self,
        decls: Seq<ScratchDecl>,
        base: usize,
        d: GraphDims,
        fused: bool,
    ) -> bool {
        if fused {
            &&& scratch_at(decls, base, self.joined, d.b.batch, d.n_ff2, DType::F32)
            &&& self.left == self.joined
            &&& self.right == self.joined
        } else {
            &&& scratch_at(decls, base, self.left, d.b.batch, d.b.n_ff, DType::F32)
            &&& scratch_at(decls, base, self.right, d.b.batch, d.b.n_ff, DType::F32)
            &&& self.joined == self.left
        }
    }

    fn declare(decls: &mut Vec<ScratchDecl>, base: usize, d: &GraphDims, fused: bool) -> (s:
        GateScratch)
        requires
            base + old(decls)@.len() + 2 < usize::MAX,
        ensures
            final(decls)@ == old(decls)@ + GateScratch::decls(*d, fused),
            s == GateScratch::numbered(base + old(decls)@.len(), fused),
            final(decls)@.len() == old(decls)@.len() + GateScratch::tensors(fused),
    {
        reveal(GateScratch::decls);
        if fused {
            let joined: TensorId = scratch(decls, base, d.b.batch, d.n_ff2, DType::F32);
            assert(decls@ =~= old(decls)@ + GateScratch::decls(*d, fused));
            GateScratch { left: joined, right: joined, joined }
        } else {
            let left: TensorId = scratch(decls, base, d.b.batch, d.b.n_ff, DType::F32);
            let right: TensorId = scratch(decls, base, d.b.batch, d.b.n_ff, DType::F32);
            assert(decls@ =~= old(decls)@ + GateScratch::decls(*d, fused));
            GateScratch { left, right, joined: left }
        }
    }
}

/// One scratch tensor, if `wanted`.
pub open spec fn one_scratch(wanted: bool, rows: usize, width: usize) -> Seq<ScratchDecl> {
    if wanted {
        seq![ScratchDecl { rows, width, dtype: DType::F32 }]
    } else {
        Seq::empty()
    }
}

fn scratch_if(
    decls: &mut Vec<ScratchDecl>,
    base: usize,
    wanted: bool,
    rows: usize,
    width: usize,
) -> (id: Option<TensorId>)
    requires
        base + old(decls)@.len() + 1 < usize::MAX,
    ensures
        final(decls)@ == old(decls)@ + one_scratch(wanted, rows, width),
        id == one_number(wanted, base + old(decls)@.len()),
        final(decls)@.len() == old(decls)@.len() + taken(wanted, 1),
{
    if wanted {
        let id: TensorId = scratch(decls, base, rows, width, DType::F32);
        assert(decls@ =~= old(decls)@ + one_scratch(wanted, rows, width));
        Some(id)
    } else {
        assert(decls@ =~= old(decls)@ + one_scratch(wanted, rows, width));
        None
    }
}

/// The expert selections of the first `n` layers, for those of them that select by token id.
pub open spec fn selection_decls(d: GraphDims, by_id: Seq<bool>, n: nat) -> Seq<ScratchDecl>
    decreases n,
{
    if n == 0 {
        Seq::empty()
    } else {
        selection_decls(d, by_id, (n - 1) as nat) + (if by_id[n - 1] {
            seq![ScratchDecl { rows: d.b.batch, width: d.b.n_used, dtype: DType::I32 }]
        } else {
            Seq::empty()
        })
    }
}

/// Layer `l`'s selection has a number exactly if the layer selects by token id.
pub open spec fn selection_at(
    decls: Seq<ScratchDecl>,
    base: usize,
    d: GraphDims,
    id: Option<TensorId>,
    by_id: bool,
) -> bool {
    match id {
        Some(id) => by_id && scratch_at(decls, base, id, d.b.batch, d.b.n_used, DType::I32),
        None => !by_id,
    }
}

/// How many of the first `n` layers select by token id.
pub open spec fn selecting_below(by_id: Seq<bool>, n: nat) -> int
    decreases n,
{
    if n == 0 {
        0
    } else {
        selecting_below(by_id, (n - 1) as nat) + taken(by_id[n - 1], 1)
    }
}

/// The numbers of the selections, from `first` on.
pub open spec fn numbered_selections(first: int, by_id: Seq<bool>) -> Seq<Option<TensorId>> {
    Seq::new(
        by_id.len(),
        |l: int| one_number(by_id[l], first + selecting_below(by_id, l as nat)),
    )
}

fn declare_selections(
    decls: &mut Vec<ScratchDecl>,
    base: usize,
    d: &GraphDims,
    by_id: &Vec<bool>,
) -> (ids: Vec<Option<TensorId>>)
    requires
        base + old(decls)@.len() + by_id@.len() < usize::MAX,
    ensures
        final(decls)@ == old(decls)@ + selection_decls(*d, by_id@, by_id@.len()),
        ids@ == numbered_selections(base + old(decls)@.len(), by_id@),
        final(decls)@.len() == old(decls)@.len() + selecting_below(by_id@, by_id@.len()),
        0 <= selecting_below(by_id@, by_id@.len()) <= by_id@.len(),
{
    let ghost start = decls@;
    let n: usize = by_id.len();
    let mut ids: Vec<Option<TensorId>> = Vec::new();
    assert(start =~= start + selection_decls(*d, by_id@, 0));
    let mut l: usize = 0;
    while l < n
        invariant
            l <= n == by_id@.len(),
            base + start.len() + n < usize::MAX,
            decls@ == start + selection_decls(*d, by_id@, l as nat),
            decls@.len() == start.len() + selecting_below(by_id@, l as nat),
            0 <= selecting_below(by_id@, l as nat) <= l,
            ids@.len() == l,
            forall|k: int|
                0 <= k < l ==> #[trigger] ids@[k] == one_number(
                    by_id@[k],
                    base + start.len() + selecting_below(by_id@, k as nat),
                ),
        decreases n - l,
    {
        if by_id[l] {
            let id: TensorId = scratch(decls, base, d.b.batch, d.b.n_used, DType::I32);
            ids.push(Some(id));
        } else {
            ids.push(None);
        }
        l = l + 1;
        assert(decls@ =~= start + selection_decls(*d, by_id@, l as nat));
    }
    assert(ids@ =~= numbered_selections(base + start.len(), by_id@));
    ids
}

/// What every layer works in.
#[derive(Clone, Copy, Debug, PartialEq, Eq, Structural)]
pub struct CoreScratch {
    pub hn: TensorId,
    pub q: TensorId,
    pub k: TensorId,
    pub v: TensorId,
    pub q_half: TensorId,
    pub k_half: TensorId,
    pub attn: TensorId,
    pub act: TensorId,
    pub sub: TensorId,
    pub gated: TensorId,
    pub picked: TensorId,
    pub projected: TensorId,
}

impl CoreScratch {
    /// Every number is that of a scratch tensor of the size and type that its name asks for.
    pub open spec fn at(self, decls: Seq<ScratchDecl>, base: usize, d: GraphDims) -> bool {
        &&& scratch_at(decls, base, self.hn, d.b.batch, d.b.n_embd, DType::F32)
        &&& scratch_at(decls, base, self.q, d.b.batch, d.max_query_row, DType::F32)
        &&& scratch_at(decls, base, self.k, d.b.batch, d.max_kv_row, DType::F32)
        &&& scratch_at(decls, base, self.v, d.b.batch, d.max_kv_row, DType::F32)
        &&& scratch_at(decls, base, self.q_half, d.b.batch, d.max_query_row, DType::F16)
        &&& scratch_at(decls, base, self.k_half, d.b.batch, d.max_kv_row, DType::F16)
        &&& scratch_at(decls, base, self.attn, d.b.batch, d.max_query_row, DType::F32)
        &&& scratch_at(decls, base, self.act, d.b.batch, d.b.n_ff, DType::F32)
        &&& scratch_at(decls, base, self.sub, d.b.batch, d.b.n_embd, DType::F32)
        &&& scratch_at(decls, base, self.gated, d.b.batch, d.max_query_row2, DType::F32)
        &&& scratch_at(
            decls,
            base,
            self.picked,
            d.b.batch,
            or_one(d.b.n_embd_per_layer),
            DType::F32,
        )
        &&& scratch_at(decls, base, self.projected, d.b.batch, d.b.n_embd, DType::F32)
    }
}

/// What compressed attention works in.
#[derive(Clone, Copy, Debug, PartialEq, Eq, Structural)]
pub struct CompressedScratch {
    pub low: TensorId,
    pub kv: TensorId,
    pub rope_q: TensorId,
    pub rope_kv: TensorId,
    pub group_in: TensorId,
    pub group_out: TensorId,
    pub groups: TensorId,
    pub values: TensorId,
    pub scores: TensorId,
    pub row: TensorId,
    pub index_values: TensorId,
    pub index_scores: TensorId,
    pub index_key: TensorId,
    pub index_q: TensorId,
    pub index_packed: TensorId,
    pub index_weights: TensorId,
    pub index_top: TensorId,
    pub gather: TensorId,
}

impl CompressedScratch {
    /// Every number is that of a scratch tensor of the size and type that its name asks for.
    pub open spec fn at(self, decls: Seq<ScratchDecl>, base: usize, d: GraphDims) -> bool {
        &&& scratch_at(decls, base, self.low, d.b.batch, or_one(d.b.q_lora_rank), DType::F32)
        &&& scratch_at(decls, base, self.kv, d.b.batch, or_one(d.b.head_dim), DType::F32)
        &&& scratch_at(decls, base, self.rope_q, d.b.batch, or_one(d.rope_row), DType::F32)
        &&& scratch_at(decls, base, self.rope_kv, d.b.batch, or_one(d.b.rope_dim), DType::F32)
        &&& scratch_at(decls, base, self.group_in, d.b.batch, or_one(d.group_row), DType::F32)
        &&& scratch_at(decls, base, self.group_out, d.b.batch, or_one(d.b.o_lora_rank), DType::F32)
        &&& scratch_at(decls, base, self.groups, d.b.batch, or_one(d.o_row), DType::F32)
        &&& scratch_at(decls, base, self.values, 1, or_one(d.head_dim2), DType::F32)
        &&& scratch_at(decls, base, self.scores, 1, or_one(d.head_dim2), DType::F32)
        &&& scratch_at(decls, base, self.row, 1, or_one(d.b.head_dim), DType::F32)
        &&& scratch_at(decls, base, self.index_values, 1, or_one(d.index_head2), DType::F32)
        &&& scratch_at(decls, base, self.index_scores, 1, or_one(d.index_head2), DType::F32)
        &&& scratch_at(decls, base, self.index_key, 1, or_one(d.b.indexer_head_size), DType::F32)
        &&& scratch_at(decls, base, self.index_q, 1, or_one(d.index_row), DType::F32)
        &&& scratch_at(decls, base, self.index_packed, 1, d.index_words, DType::U32)
        &&& scratch_at(decls, base, self.index_weights, 1, or_one(d.b.indexer_n_head), DType::F32)
        &&& scratch_at(decls, base, self.index_top, 1, or_one(d.index_blocks), DType::I32)
        &&& scratch_at(
            decls,
            base,
            self.gather,
            rows_of(d.gather_rows, d.b.head_dim),
            or_one(d.b.head_dim),
            DType::F16,
        )
    }
}

/// The scratch tensors of a graph.
pub struct Scratch {
    pub core: CoreScratch,
    pub compressed: CompressedScratch,
    pub sparse: Option<SparseScratch>,
    pub latent: Option<LatentScratch>,
    pub streams: StreamScratch,
    pub token_index: Option<TokenIndexScratch>,
    pub experts: ExpertScratch,
    pub delta: DeltaScratch,
    pub qwen: QwenScratch,
    pub per_layer: Option<PerLayerScratch>,
    pub condition: Option<ConditionScratch>,
    pub gates: GateScratch,
    /// Joined queries, keys and values of several rows.
    pub qkv: Option<TensorId>,
    /// The last rows by themselves.
    pub last: Option<TensorId>,
    /// The expert selections, layer by layer.
    pub selected: Vec<Option<TensorId>>,
}

/// The scratch tensors of a graph, in the order of their declaration. `by_id` says of each layer
/// whether the graph runs it and it selects its experts by token id.
pub open spec fn scratch_decls(d: GraphDims, f: ScratchFlags, by_id: Seq<bool>) -> Seq<
    ScratchDecl,
> {
    FrontScratch::decls(d) + (if f.qwen4exp {
        SparseScratch::decls(d)
    } else {
        Seq::empty()
    }) + (if f.latent {
        LatentScratch::decls(d)
    } else {
        Seq::empty()
    }) + StreamScratch::decls(d) + CompressedQueryScratch::decls(d)
        + CompressedBlockScratch::decls(d) + (if f.deepseek32 {
        TokenIndexScratch::decls(d)
    } else {
        Seq::empty()
    }) + one_scratch(
        f.fuse_qkv && d.b.batch > 1,
        d.b.batch,
        d.max_qkv_row,
    ) + GateScratch::decls(d, f.fuse_gu) + WorkScratch::decls(d) + ExpertScratch::decls(d)
        + QueryGateScratch::decls(d) + DeltaScratch::decls(d) + QwenScratch::decls(d)
        + (if f.e2b {
        PerLayerScratch::decls(d)
    } else {
        Seq::empty()
    }) + (if f.conditioned {
        ConditionScratch::decls(d)
    } else {
        Seq::empty()
    }) + selection_decls(d, by_id, by_id.len()) + one_scratch(
        f.tail_only,
        d.b.logits_rows,
        d.b.n_embd,
    )
}

impl Scratch {
    /// Every number is that of a scratch tensor of the size and type that its name asks for.
    pub open spec fn at(
        &self,
        decls: Seq<ScratchDecl>,
        base: usize,
        d: GraphDims,
        f: ScratchFlags,
        by_id: Seq<bool>,
    ) -> bool {
        &&& self.core.at(decls, base, d)
        &&& self.compressed.at(decls, base, d)
        &&& self.sparse is Some == f.qwen4exp
        &&& self.sparse matches Some(s) ==> s.at(decls, base, d)
        &&& self.latent is Some == f.latent
        &&& self.latent matches Some(s) ==> s.at(decls, base, d)
        &&& self.streams.at(decls, base, d)
        &&& self.token_index is Some == f.deepseek32
        &&& self.token_index matches Some(s) ==> s.at(decls, base, d)
        &&& self.experts.at(decls, base, d)
        &&& self.delta.at(decls, base, d)
        &&& self.qwen.at(decls, base, d)
        &&& self.per_layer is Some == f.e2b
        &&& self.per_layer matches Some(s) ==> s.at(decls, base, d)
        &&& self.condition is Some == f.conditioned
        &&& self.condition matches Some(s) ==> s.at(decls, base, d)
        &&& self.gates.at(decls, base, d, f.fuse_gu)
        &&& self.qkv is Some == (f.fuse_qkv && d.b.batch > 1)
        &&& self.qkv matches Some(id) ==> scratch_at(
            decls,
            base,
            id,
            d.b.batch,
            d.max_qkv_row,
            DType::F32,
        )
        &&& self.last is Some == f.tail_only
        &&& self.last matches Some(id) ==> scratch_at(
            decls,
            base,
            id,
            d.b.logits_rows,
            d.b.n_embd,
            DType::F32,
        )
        &&& self.selected@.len() == by_id.len()
        &&& forall|l: int|
            0 <= l < by_id.len() ==> selection_at(
                decls,
                base,
                d,
                #[trigger] self.selected@[l],
                by_id[l],
            )
    }
}

fn sparse_if(decls: &mut Vec<ScratchDecl>, base: usize, d: &GraphDims, wanted: bool) -> (s: Option<
    SparseScratch,
>)
    requires
        base + old(decls)@.len() + 6 < usize::MAX,
    ensures
        final(decls)@ == old(decls)@ + (if wanted {
            SparseScratch::decls(*d)
        } else {
            Seq::empty()
        }),
        s == (if wanted {
            Some(SparseScratch::numbered(base + old(decls)@.len()))
        } else {
            None
        }),
        final(decls)@.len() == old(decls)@.len() + taken(wanted, 6),
{
    if wanted {
        Some(SparseScratch::declare(decls, base, d))
    } else {
        assert(decls@ =~= old(decls)@ + Seq::<ScratchDecl>::empty());
        None
    }
}

fn latent_if(decls: &mut Vec<ScratchDecl>, base: usize, d: &GraphDims, wanted: bool) -> (s: Option<
    LatentScratch,
>)
    requires
        base + old(decls)@.len() + 4 < usize::MAX,
    ensures
        final(decls)@ == old(decls)@ + (if wanted {
            LatentScratch::decls(*d)
        } else {
            Seq::empty()
        }),
        s == (if wanted {
            Some(LatentScratch::numbered(base + old(decls)@.len()))
        } else {
            None
        }),
        final(decls)@.len() == old(decls)@.len() + taken(wanted, 4),
{
    if wanted {
        Some(LatentScratch::declare(decls, base, d))
    } else {
        assert(decls@ =~= old(decls)@ + Seq::<ScratchDecl>::empty());
        None
    }
}

fn token_index_if(
    decls: &mut Vec<ScratchDecl>,
    base: usize,
    d: &GraphDims,
    wanted: bool,
) -> (s: Option<
    TokenIndexScratch,
>)
    requires
        base + old(decls)@.len() + 5 < usize::MAX,
    ensures
        final(decls)@ == old(decls)@ + (if wanted {
            TokenIndexScratch::decls(*d)
        } else {
            Seq::empty()
        }),
        s == (if wanted {
            Some(TokenIndexScratch::numbered(base + old(decls)@.len()))
        } else {
            None
        }),
        final(decls)@.len() == old(decls)@.len() + taken(wanted, 5),
{
    if wanted {
        Some(TokenIndexScratch::declare(decls, base, d))
    } else {
        assert(decls@ =~= old(decls)@ + Seq::<ScratchDecl>::empty());
        None
    }
}

fn per_layer_if(
    decls: &mut Vec<ScratchDecl>,
    base: usize,
    d: &GraphDims,
    wanted: bool,
) -> (s: Option<
    PerLayerScratch,
>)
    requires
        base + old(decls)@.len() + 3 < usize::MAX,
    ensures
        final(decls)@ == old(decls)@ + (if wanted {
            PerLayerScratch::decls(*d)
        } else {
            Seq::empty()
        }),
        s == (if wanted {
            Some(PerLayerScratch::numbered(base + old(decls)@.len()))
        } else {
            None
        }),
        final(decls)@.len() == old(decls)@.len() + taken(wanted, 3),
{
    if wanted {
        Some(PerLayerScratch::declare(decls, base, d))
    } else {
        assert(decls@ =~= old(decls)@ + Seq::<ScratchDecl>::empty());
        None
    }
}

fn condition_if(
    decls: &mut Vec<ScratchDecl>,
    base: usize,
    d: &GraphDims,
    wanted: bool,
) -> (s: Option<
    ConditionScratch,
>)
    requires
        base + old(decls)@.len() + 7 < usize::MAX,
    ensures
        final(decls)@ == old(decls)@ + (if wanted {
            ConditionScratch::decls(*d)
        } else {
            Seq::empty()
        }),
        s == (if wanted {
            Some(ConditionScratch::numbered(base + old(decls)@.len()))
        } else {
            None
        }),
        final(decls)@.len() == old(decls)@.len() + taken(wanted, 7),
{
    if wanted {
        Some(ConditionScratch::declare(decls, base, d))
    } else {
        assert(decls@ =~= old(decls)@ + Seq::<ScratchDecl>::empty());
        None
    }
}

/// The scratch tensors of the attention mixers and of the residual streams.
pub struct AttentionScratch {
    pub front: FrontScratch,
    pub sparse: Option<SparseScratch>,
    pub latent: Option<LatentScratch>,
    pub streams: StreamScratch,
    pub compressed_query: CompressedQueryScratch,
    pub compressed_blocks: CompressedBlockScratch,
    pub token_index: Option<TokenIndexScratch>,
}

impl AttentionScratch {
    /// How many tensors there are.
    pub open spec fn tensors(f: ScratchFlags) -> int {
        7 + taken(f.qwen4exp, 6) + taken(f.latent, 4) + 8 + 7 + 11 + taken(f.deepseek32, 5)
    }

    /// The numbers from `first` on, in the order of their declaration.
    #[verifier::opaque]
    pub open spec fn numbered(first: int, f: ScratchFlags) -> AttentionScratch {
        let front_at = first;
        let sparse_at = front_at + 7;
        let latent_at = sparse_at + taken(f.qwen4exp, 6);
        let streams_at = latent_at + taken(f.latent, 4);
        let compressed_query_at = streams_at + 8;
        let compressed_blocks_at = compressed_query_at + 7;
        let token_index_at = compressed_blocks_at + 11;
        AttentionScratch {
            front: FrontScratch::numbered(front_at),
            sparse: if f.qwen4exp {
                Some(SparseScratch::numbered(sparse_at))
            } else {
                None
            },
            latent: if f.latent {
                Some(LatentScratch::numbered(latent_at))
            } else {
                None
            },
            streams: StreamScratch::numbered(streams_at),
            compressed_query: CompressedQueryScratch::numbered(compressed_query_at),
            compressed_blocks: CompressedBlockScratch::numbered(compressed_blocks_at),
            token_index: if f.deepseek32 {
                Some(TokenIndexScratch::numbered(token_index_at))
            } else {
                None
            },
        }
    }

}

spec fn attention_decls(
    before: Seq<ScratchDecl>,
    d: GraphDims,
    f: ScratchFlags,
) -> Seq<ScratchDecl> {
    before + FrontScratch::decls(d) + (if f.qwen4exp {
        SparseScratch::decls(d)
    } else {
        Seq::empty()
    }) + (if f.latent {
        LatentScratch::decls(d)
    } else {
        Seq::empty()
    }) + StreamScratch::decls(d) + CompressedQueryScratch::decls(d)
        + CompressedBlockScratch::decls(d) + (if f.deepseek32 {
        TokenIndexScratch::decls(d)
    } else {
        Seq::empty()
    })
}

fn declare_attention(
    decls: &mut Vec<ScratchDecl>,
    base: usize,
    d: &GraphDims,
    f: &ScratchFlags,
) -> (s: AttentionScratch)
    requires
        base + old(decls)@.len() + 48 < usize::MAX,
    ensures
        final(decls)@ == attention_decls(old(decls)@, *d, *f),
        s == AttentionScratch::numbered(base + old(decls)@.len(), *f),
        final(decls)@.len() == old(decls)@.len() + AttentionScratch::tensors(*f),
{
    reveal(AttentionScratch::numbered);
    let front: FrontScratch = FrontScratch::declare(decls, base, d);
    let sparse: Option<SparseScratch> = sparse_if(decls, base, d, f.qwen4exp);
    let latent: Option<LatentScratch> = latent_if(decls, base, d, f.latent);
    let streams: StreamScratch = StreamScratch::declare(decls, base, d);
    let compressed_query: CompressedQueryScratch = CompressedQueryScratch::declare(decls, base, d);
    let compressed_blocks: CompressedBlockScratch = CompressedBlockScratch::declare(decls, base, d);
    let token_index: Option<TokenIndexScratch> = token_index_if(decls, base, d, f.deepseek32);
    AttentionScratch {
        front,
        sparse,
        latent,
        streams,
        compressed_query,
        compressed_blocks,
        token_index,
    }
}

/// The scratch tensors of the other blocks.
pub struct MixingScratch {
    pub work: WorkScratch,
    pub experts: ExpertScratch,
    pub query_gates: QueryGateScratch,
    pub delta: DeltaScratch,
    pub qwen: QwenScratch,
    pub per_layer: Option<PerLayerScratch>,
    pub condition: Option<ConditionScratch>,
}

impl MixingScratch {
    /// How many tensors there are.
    pub open spec fn tensors(f: ScratchFlags) -> int {
        4 + 5 + 2 + 11 + 9 + taken(f.e2b, 3) + taken(f.conditioned, 7)
    }

    /// The numbers from `first` on, in the order of their declaration.
    #[verifier::opaque]
    pub open spec fn numbered(first: int, f: ScratchFlags) -> MixingScratch {
        let work_at = first;
        let experts_at = work_at + 4;
        let query_gates_at = experts_at + 5;
        let delta_at = query_gates_at + 2;
        let qwen_at = delta_at + 11;
        let per_layer_at = qwen_at + 9;
        let condition_at = per_layer_at + taken(f.e2b, 3);
        MixingScratch {
            work: WorkScratch::numbered(work_at),
            experts: ExpertScratch::numbered(experts_at),
            query_gates: QueryGateScratch::numbered(query_gates_at),
            delta: DeltaScratch::numbered(delta_at),
            qwen: QwenScratch::numbered(qwen_at),
            per_layer: if f.e2b {
                Some(PerLayerScratch::numbered(per_layer_at))
            } else {
                None
            },
            condition: if f.conditioned {
                Some(ConditionScratch::numbered(condition_at))
            } else {
                None
            },
        }
    }

}

spec fn mixing_decls(before: Seq<ScratchDecl>, d: GraphDims, f: ScratchFlags) -> Seq<ScratchDecl> {
    before + WorkScratch::decls(d) + ExpertScratch::decls(d) + QueryGateScratch::decls(d)
        + DeltaScratch::decls(d) + QwenScratch::decls(d) + (if f.e2b {
        PerLayerScratch::decls(d)
    } else {
        Seq::empty()
    }) + (if f.conditioned {
        ConditionScratch::decls(d)
    } else {
        Seq::empty()
    })
}

fn declare_mixing(
    decls: &mut Vec<ScratchDecl>,
    base: usize,
    d: &GraphDims,
    f: &ScratchFlags,
) -> (s: MixingScratch)
    requires
        base + old(decls)@.len() + 41 < usize::MAX,
    ensures
        final(decls)@ == mixing_decls(old(decls)@, *d, *f),
        s == MixingScratch::numbered(base + old(decls)@.len(), *f),
        final(decls)@.len() == old(decls)@.len() + MixingScratch::tensors(*f),
{
    reveal(MixingScratch::numbered);
    let work: WorkScratch = WorkScratch::declare(decls, base, d);
    let experts: ExpertScratch = ExpertScratch::declare(decls, base, d);
    let query_gates: QueryGateScratch = QueryGateScratch::declare(decls, base, d);
    let delta: DeltaScratch = DeltaScratch::declare(decls, base, d);
    let qwen: QwenScratch = QwenScratch::declare(decls, base, d);
    let per_layer: Option<PerLayerScratch> = per_layer_if(decls, base, d, f.e2b);
    let condition: Option<ConditionScratch> = condition_if(decls, base, d, f.conditioned);
    MixingScratch {
        work,
        experts,
        query_gates,
        delta,
        qwen,
        per_layer,
        condition,
    }
}

impl CoreScratch {
    /// The numbers of the parts.
    pub open spec fn made_of(a: AttentionScratch, m: MixingScratch) -> CoreScratch {
        CoreScratch {
            hn: a.front.hn,
            q: a.front.q,
            k: a.front.k,
            v: a.front.v,
            q_half: a.front.q_half,
            k_half: a.front.k_half,
            attn: a.front.attn,
            act: m.work.act,
            sub: m.work.sub,
            gated: m.query_gates.gated,
            picked: m.work.picked,
            projected: m.work.projected,
        }
    }
}

impl CompressedScratch {
    /// The numbers of the parts.
    pub open spec fn made_of(a: AttentionScratch) -> CompressedScratch {
        CompressedScratch {
            low: a.compressed_query.low,
            kv: a.compressed_query.kv,
            rope_q: a.compressed_query.rope_q,
            rope_kv: a.compressed_query.rope_kv,
            group_in: a.compressed_query.group_in,
            group_out: a.compressed_query.group_out,
            groups: a.compressed_query.groups,
            values: a.compressed_blocks.values,
            scores: a.compressed_blocks.scores,
            row: a.compressed_blocks.row,
            index_values: a.compressed_blocks.index_values,
            index_scores: a.compressed_blocks.index_scores,
            index_key: a.compressed_blocks.index_key,
            index_q: a.compressed_blocks.index_q,
            index_packed: a.compressed_blocks.index_packed,
            index_weights: a.compressed_blocks.index_weights,
            index_top: a.compressed_blocks.index_top,
            gather: a.compressed_blocks.gather,
        }
    }
}

/// Queries, keys and values are joined in a tensor of their own.
pub open spec fn joins_qkv(d: GraphDims, f: ScratchFlags) -> bool {
    f.fuse_qkv && d.b.batch > 1
}

/// The first number of the tensors behind those of the attention mixers.
pub open spec fn qkv_at(base: int, f: ScratchFlags) -> int {
    base + AttentionScratch::tensors(f)
}

pub open spec fn gates_at(base: int, d: GraphDims, f: ScratchFlags) -> int {
    qkv_at(base, f) + taken(joins_qkv(d, f), 1)
}

pub open spec fn mixing_at(base: int, d: GraphDims, f: ScratchFlags) -> int {
    gates_at(base, d, f) + GateScratch::tensors(f.fuse_gu)
}

pub open spec fn selections_at(base: int, d: GraphDims, f: ScratchFlags) -> int {
    mixing_at(base, d, f) + MixingScratch::tensors(f)
}

pub open spec fn last_at(base: int, d: GraphDims, f: ScratchFlags, by_id: Seq<bool>) -> int {
    selections_at(base, d, f) + selecting_below(by_id, by_id.len())
}

/// The number behind the last scratch tensor.
pub open spec fn scratch_end(base: int, d: GraphDims, f: ScratchFlags, by_id: Seq<bool>) -> int {
    last_at(base, d, f, by_id) + taken(f.tail_only, 1)
}

impl Scratch {
    /// Every tensor has the number of its own declaration: they are numbered from `base` on, in the
    /// order of [`scratch_decls`].
    #[verifier::opaque]
    pub open spec fn numbered(
        &self,
        base: int,
        d: GraphDims,
        f: ScratchFlags,
        by_id: Seq<bool>,
    ) -> bool {
        let a = AttentionScratch::numbered(base, f);
        let m = MixingScratch::numbered(mixing_at(base, d, f), f);
        &&& self.core == CoreScratch::made_of(a, m)
        &&& self.compressed == CompressedScratch::made_of(a)
        &&& self.sparse == a.sparse
        &&& self.latent == a.latent
        &&& self.streams == a.streams
        &&& self.token_index == a.token_index
        &&& self.experts == m.experts
        &&& self.delta == m.delta
        &&& self.qwen == m.qwen
        &&& self.per_layer == m.per_layer
        &&& self.condition == m.condition
        &&& self.gates == GateScratch::numbered(gates_at(base, d, f), f.fuse_gu)
        &&& self.qkv == one_number(joins_qkv(d, f), qkv_at(base, f))
        &&& self.last == one_number(f.tail_only, last_at(base, d, f, by_id))
        &&& self.selected@ == numbered_selections(selections_at(base, d, f), by_id)
    }

    /// What is there, and for which layers.
    pub open spec fn present(&self, d: GraphDims, f: ScratchFlags, by_id: Seq<bool>) -> bool {
        &&& self.sparse is Some == f.qwen4exp
        &&& self.latent is Some == f.latent
        &&& self.token_index is Some == f.deepseek32
        &&& self.per_layer is Some == f.e2b
        &&& self.condition is Some == f.conditioned
        &&& self.qkv is Some == joins_qkv(d, f)
        &&& self.last is Some == f.tail_only
        &&& self.gates.joined == self.gates.left
        &&& self.selected@.len() == by_id.len()
        &&& forall|l: int|
            0 <= l < by_id.len() ==> ((#[trigger] self.selected@[l]) is Some) == by_id[l]
    }

    pub proof fn lemma_present(
        &self,
        base: int,
        d: GraphDims,
        f: ScratchFlags,
        by_id: Seq<bool>,
    )
        requires
            self.numbered(base, d, f, by_id),
        ensures
            self.present(d, f, by_id),
    {
        reveal(Scratch::numbered);
        reveal(AttentionScratch::numbered);
        reveal(MixingScratch::numbered);
    }
}

/// Declares the scratch tensors of a graph, behind `base` other tensors.
pub fn declare_scratch(base: usize, d: &GraphDims, f: &ScratchFlags, by_id: &Vec<bool>) -> (made: (
    Vec<ScratchDecl>,
    Scratch,
))
    requires
        base + by_id@.len() + 94 < usize::MAX,
    ensures
        made.0@ == scratch_decls(*d, *f, by_id@),
        made.1.numbered(base as int, *d, *f, by_id@),
        base + made.0@.len() == scratch_end(base as int, *d, *f, by_id@),
        made.0@.len() <= by_id@.len() + 94,
{
    let mut decls: Vec<ScratchDecl> = Vec::new();
    let ghost none = decls@;
    let a: AttentionScratch = declare_attention(&mut decls, base, d, f);
    assert(none + FrontScratch::decls(*d) =~= FrontScratch::decls(*d));
    let qkv: Option<TensorId> = scratch_if(
        &mut decls,
        base,
        f.fuse_qkv && d.b.batch > 1,
        d.b.batch,
        d.max_qkv_row,
    );
    let gates: GateScratch = GateScratch::declare(&mut decls, base, d, f.fuse_gu);
    let m: MixingScratch = declare_mixing(&mut decls, base, d, f);
    let selected: Vec<Option<TensorId>> = declare_selections(&mut decls, base, d, by_id);
    let last: Option<TensorId> = scratch_if(
        &mut decls,
        base,
        f.tail_only,
        d.b.logits_rows,
        d.b.n_embd,
    );
    let s: Scratch = Scratch {
        core: CoreScratch {
            hn: a.front.hn,
            q: a.front.q,
            k: a.front.k,
            v: a.front.v,
            q_half: a.front.q_half,
            k_half: a.front.k_half,
            attn: a.front.attn,
            act: m.work.act,
            sub: m.work.sub,
            gated: m.query_gates.gated,
            picked: m.work.picked,
            projected: m.work.projected,
        },
        compressed: CompressedScratch {
            low: a.compressed_query.low,
            kv: a.compressed_query.kv,
            rope_q: a.compressed_query.rope_q,
            rope_kv: a.compressed_query.rope_kv,
            group_in: a.compressed_query.group_in,
            group_out: a.compressed_query.group_out,
            groups: a.compressed_query.groups,
            values: a.compressed_blocks.values,
            scores: a.compressed_blocks.scores,
            row: a.compressed_blocks.row,
            index_values: a.compressed_blocks.index_values,
            index_scores: a.compressed_blocks.index_scores,
            index_key: a.compressed_blocks.index_key,
            index_q: a.compressed_blocks.index_q,
            index_packed: a.compressed_blocks.index_packed,
            index_weights: a.compressed_blocks.index_weights,
            index_top: a.compressed_blocks.index_top,
            gather: a.compressed_blocks.gather,
        },
        sparse: a.sparse,
        latent: a.latent,
        streams: a.streams,
        token_index: a.token_index,
        experts: m.experts,
        delta: m.delta,
        qwen: m.qwen,
        per_layer: m.per_layer,
        condition: m.condition,
        gates,
        qkv,
        last,
        selected,
    };
    reveal(Scratch::numbered);
    (decls, s)
}

} // verus!
