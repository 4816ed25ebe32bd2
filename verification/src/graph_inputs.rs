//! The inputs of a graph: what is declared, in which order, and under which numbers.
//!
//! A graph numbers its tensors in the order of their declaration. Inputs and weights come first, so
//! their numbers follow from the request alone; two of them never share one.

use crate::bindings::{caches_distinct, DecodeHandles};
use crate::config::{ceil_div, div_ceil, Config, DType};
use crate::numbering::{
    ascends, lemma_ascending_numbers_differ, lemma_ascends_join, lemma_one_joins, nth, one_listed,
    one_number, taken,
};
use crate::rope::{is_plain_rope, mrope_rows_are_plain_rope};
use crate::slot_alloc::{ipl_bytes, ple_embd_bytes, ple_state_bytes, wide_bytes};
use crate::weight_plan::TensorId;
use vstd::prelude::*;

verus! {

/// What a declared tensor is.
#[derive(Clone, Copy, Debug, PartialEq, Eq, Structural)]
pub enum DeclKind {
    /// Bound by the caller.
    Input,
    /// Scratch of the graph.
    Internal,
    /// Uploaded once.
    Weight,
}

/// One declared tensor.
#[derive(Clone, Copy, Debug, PartialEq, Eq, Structural)]
pub struct TensorDecl {
    pub kind: DeclKind,
    pub elems: usize,
    pub dtype: DType,
}

/// The layers that a graph runs.
#[derive(Clone, Copy, Debug, PartialEq, Eq, Structural)]
pub struct LayerSpan {
    pub first: usize,
    pub end: usize,
}

/// Elements and type of one side of a layer's cache.
#[derive(Clone, Copy, Debug, PartialEq, Eq, Structural)]
pub struct SideDecl {
    pub elems: usize,
    pub dtype: DType,
}

/// The caches of one layer, as a graph declares them.
#[derive(Clone, Copy, Debug, PartialEq, Eq, Structural)]
pub struct CacheDecl {
    pub k: SideDecl,
    pub v: SideDecl,
    /// Elements of the raw index keys, where the layer keeps them.
    pub qsa_raw: Option<usize>,
    /// Elements of the block index keys, where the layer keeps them.
    pub qsa_block: Option<usize>,
}

/// What a layer's cache declaration rests on besides the model.
#[derive(Clone, Copy, Debug, PartialEq, Eq, Structural)]
pub struct CacheExtent {
    /// The elements of the two sides of an attention layer.
    pub k_elems: usize,
    pub v_elems: usize,
    /// The bytes of the two sides of a layer with compressed attention.
    pub raw_bytes: usize,
    pub state_bytes: usize,
    pub keeps_raw: bool,
    pub keeps_blocks: bool,
}

/// The caches of layer `l`, as a graph declares them.
pub open spec fn cache_decl(
    cfg: Config,
    l: int,
    extent: CacheExtent,
    k_fmt: DType,
    v_fmt: DType,
    max_ctx: usize,
) -> CacheDecl {
    let ratio = if cfg.layers@[l].compress_ratio >= 1 {
        cfg.layers@[l].compress_ratio as int
    } else {
        1
    };
    let blocks = if max_ctx as int / ratio >= 1 {
        max_ctx as int / ratio
    } else {
        1
    };
    if cfg.layers@[l].recurrent {
        CacheDecl {
            k: SideDecl {
                elems: ((cfg.ssm_d_conv - 1) * cfg.recurrent_conv_channels) as usize,
                dtype: DType::F32,
            },
            v: SideDecl { elems: cfg.recurrent_state_elems, dtype: DType::F32 },
            qsa_raw: None,
            qsa_block: None,
        }
    } else if cfg.deepseek4 {
        CacheDecl {
            k: SideDecl { elems: ceil_div(extent.raw_bytes as nat, 4) as usize, dtype: DType::U32 },
            v: SideDecl {
                elems: ceil_div(extent.state_bytes as nat, 4) as usize,
                dtype: DType::U32,
            },
            qsa_raw: None,
            qsa_block: None,
        }
    } else {
        CacheDecl {
            k: SideDecl { elems: extent.k_elems, dtype: k_fmt },
            v: SideDecl { elems: extent.v_elems, dtype: v_fmt },
            qsa_raw: if extent.keeps_raw {
                Some((max_ctx * cfg.indexer_head_size) as usize)
            } else {
                None
            },
            qsa_block: if extent.keeps_blocks {
                Some((blocks * cfg.indexer_head_size) as usize)
            } else {
                None
            },
        }
    }
}

/// The sizes of layer `l`'s cache declaration fit the machine.
pub open spec fn cache_countable(cfg: Config, l: int, extent: CacheExtent, max_ctx: usize) -> bool {
    &&& cfg.layers@[l].recurrent ==> cfg.ssm_d_conv >= 1 && (cfg.ssm_d_conv - 1)
        * cfg.recurrent_conv_channels <= usize::MAX
    &&& extent.keeps_raw || extent.keeps_blocks ==> max_ctx * cfg.indexer_head_size <= usize::MAX
}

/// See [`cache_decl`].
pub fn declare_cache(
    cfg: &Config,
    l: usize,
    extent: CacheExtent,
    k_fmt: DType,
    v_fmt: DType,
    max_ctx: usize,
) -> (decl: CacheDecl)
    requires
        l < cfg.layers@.len(),
        cache_countable(*cfg, l as int, extent, max_ctx),
    ensures
        decl == cache_decl(*cfg, l as int, extent, k_fmt, v_fmt, max_ctx),
{
    if cfg.layers[l].recurrent {
        proof {
            assert((cfg.ssm_d_conv - 1) * cfg.recurrent_conv_channels >= 0) by (nonlinear_arith)
                requires
                    cfg.ssm_d_conv >= 1,
                    cfg.recurrent_conv_channels >= 0,
            ;
        }
        return CacheDecl {
            k: SideDecl {
                elems: (cfg.ssm_d_conv - 1) * cfg.recurrent_conv_channels,
                dtype: DType::F32,
            },
            v: SideDecl { elems: cfg.recurrent_state_elems, dtype: DType::F32 },
            qsa_raw: None,
            qsa_block: None,
        };
    }
    if cfg.deepseek4 {
        return CacheDecl {
            k: SideDecl { elems: div_ceil(extent.raw_bytes, 4), dtype: DType::U32 },
            v: SideDecl { elems: div_ceil(extent.state_bytes, 4), dtype: DType::U32 },
            qsa_raw: None,
            qsa_block: None,
        };
    }
    let ratio: usize = if cfg.layers[l].compress_ratio >= 1 {
        cfg.layers[l].compress_ratio
    } else {
        1
    };
    let whole: usize = max_ctx / ratio;
    let blocks: usize = if whole >= 1 {
        whole
    } else {
        1
    };
    proof {
        assert(whole <= max_ctx) by (nonlinear_arith)
            requires
                whole == max_ctx as int / ratio as int,
                ratio >= 1,
                max_ctx >= 0,
        ;
        if extent.keeps_blocks {
            assert(blocks * cfg.indexer_head_size <= usize::MAX) by (nonlinear_arith)
                requires
                    blocks <= max_ctx || blocks == 1,
                    max_ctx * cfg.indexer_head_size <= usize::MAX,
                    cfg.indexer_head_size <= usize::MAX,
                    cfg.indexer_head_size >= 0,
                    blocks >= 0,
                    max_ctx >= 0,
            ;
        }
    }
    CacheDecl {
        k: SideDecl { elems: extent.k_elems, dtype: k_fmt },
        v: SideDecl { elems: extent.v_elems, dtype: v_fmt },
        qsa_raw: if extent.keeps_raw {
            Some(max_ctx * cfg.indexer_head_size)
        } else {
            None
        },
        qsa_block: if extent.keeps_blocks {
            Some(blocks * cfg.indexer_head_size)
        } else {
            None
        },
    }
}

/// The most rotation pairs of the layers from `first` to `end`, and of the model.
pub open spec fn most_pairs(dims: Seq<usize>, first: int, end: int, rope_dim: usize) -> int
    decreases end - first,
{
    if first >= end {
        rope_dim as int / 2
    } else {
        let rest = most_pairs(dims, first, end - 1, rope_dim);
        let here = dims[end - 1] as int / 2;
        if here > rest {
            here
        } else {
            rest
        }
    }
}

/// See [`most_pairs`].
pub fn max_rope_pairs(dims: &Vec<usize>, span: LayerSpan, rope_dim: usize) -> (pairs: usize)
    requires
        span.first <= span.end <= dims@.len(),
    ensures
        pairs == most_pairs(dims@, span.first as int, span.end as int, rope_dim),
{
    let mut pairs: usize = rope_dim / 2;
    let mut l: usize = span.first;
    while l < span.end
        invariant
            span.first <= l <= span.end <= dims@.len(),
            pairs == most_pairs(dims@, span.first as int, l as int, rope_dim),
        decreases span.end - l,
    {
        let here: usize = dims[l] / 2;
        if here > pairs {
            pairs = here;
        }
        l = l + 1;
    }
    pairs
}

/// What a graph is built for.
#[derive(Clone, Copy, Debug, PartialEq, Eq, Structural)]
pub struct GraphRequest {
    /// The rows of the batch.
    pub batch: usize,
    /// The rows of which logits are made.
    pub logits_rows: usize,
    /// The device embeds.
    pub use_ids: bool,
    /// The layers to run; `None` for the whole model.
    pub span: Option<LayerSpan>,
    /// Some layer of the span selects experts by token id.
    pub hash_gather: bool,
    /// Some layer of the span has n-gram embeddings.
    pub span_has_ple: bool,
    /// The request has images, and this batch's positions are not plain.
    pub positions4: bool,
    /// The request has images.
    pub history: bool,
    pub max_ctx: usize,
    /// The device gathers the per-layer embedding rows.
    pub gpu_ple: bool,
    /// How many rotation divisors are bound, where they are.
    pub rope_freqs: Option<usize>,
    pub yarn_ff: Option<usize>,
    /// A canvas is conditioned on the last step's logits.
    pub conditioned: bool,
    /// The temperature of that is an input.
    pub scaled: bool,
}

impl GraphRequest {
    pub open spec fn layers(self, cfg: Config) -> LayerSpan {
        match self.span {
            Some(span) => span,
            None => LayerSpan { first: 0, end: cfg.layers@.len() as usize },
        }
    }

    /// The request can be built: only a graph that ends with the last layer makes logits, per-layer
    /// inputs are made before the first layer, one architecture's residual is too wide to hand over,
    /// and a span that selects experts by token id is handed the ids.
    pub open spec fn valid(self, cfg: Config) -> bool {
        let span = self.layers(cfg);
        &&& cfg.layers@.len() <= usize::MAX
        &&& span.first <= span.end <= cfg.layers@.len()
        &&& span.end == cfg.layers@.len() || self.logits_rows == 0
        &&& span.first == 0 || cfg.n_embd_per_layer == 0
        &&& cfg.deepseek4 ==> span.first == 0 && span.end == cfg.layers@.len()
        &&& self.hash_gather ==> self.use_ids || self.span is None
    }

    /// Where the soft embedding stands among the weights, if the graph has it.
    pub open spec fn soft_place(self, at: usize) -> Option<usize> {
        if self.conditioned {
            Some(at)
        } else {
            None
        }
    }

    /// The graph's inputs have sizes that fit the machine.
    pub open spec fn countable(self, cfg: Config) -> bool {
        let b = self.batch;
        &&& b * cfg.n_embd <= usize::MAX
        &&& b * 4 <= usize::MAX
        &&& self.max_ctx * 4 <= usize::MAX
        &&& b * cfg.vocab <= usize::MAX
        &&& cfg.qwen4exp ==> b * cfg.hc_mult <= usize::MAX && b * cfg.hc_mult * cfg.n_embd
            <= usize::MAX
        &&& self.span_has_ple ==> {
            &&& cfg.ple_ngram_size >= 1
            &&& cfg.ple_conv_kernel >= 1
            &&& (cfg.ple_ngram_size - 1) * cfg.ple_heads_per_ngram <= usize::MAX
            &&& b * ((cfg.ple_ngram_size - 1) * cfg.ple_heads_per_ngram) <= usize::MAX
            &&& b * ((cfg.ple_ngram_size - 1) * cfg.ple_heads_per_ngram) * cfg.ple_head_dim
                <= usize::MAX
            &&& (cfg.ple_conv_kernel - 1) * cfg.ple_ngram_size <= usize::MAX
            &&& (cfg.ple_conv_kernel - 1) * cfg.ple_ngram_size * cfg.hc_mult <= usize::MAX
            &&& (cfg.ple_conv_kernel - 1) * cfg.ple_ngram_size * cfg.hc_mult * cfg.n_embd
                <= usize::MAX
        }
        &&& cfg.n_embd_per_layer > 0 ==> b * cfg.layers@.len() <= usize::MAX && b
            * cfg.layers@.len() * cfg.n_embd_per_layer <= usize::MAX
    }
}

pub open spec fn decl(kind: DeclKind, elems: int, dtype: DType) -> Seq<TensorDecl> {
    seq![TensorDecl { kind, elems: elems as usize, dtype }]
}

pub open spec fn input_if(wanted: bool, elems: int, dtype: DType) -> Seq<TensorDecl> {
    if wanted {
        decl(DeclKind::Input, elems, dtype)
    } else {
        Seq::empty()
    }
}

/// The inputs that a batch is fed with, in the order of their declaration.
pub open spec fn row_decls(cfg: Config, r: GraphRequest) -> Seq<TensorDecl> {
    let hidden = if r.use_ids && r.span is None {
        DeclKind::Internal
    } else {
        DeclKind::Input
    };
    input_if(r.use_ids || r.hash_gather, r.batch as int, DType::I32) + decl(
        hidden,
        r.batch * cfg.n_embd,
        DType::F32,
    ) + decl(DeclKind::Input, r.batch as int, DType::I32) + input_if(
        r.positions4,
        r.batch * 4,
        DType::I32,
    ) + input_if(r.history, r.max_ctx * 4, DType::I32) + input_if(
        cfg.qwen4exp,
        r.batch * cfg.hc_mult * cfg.n_embd,
        DType::F32,
    ) + input_if(
        r.span_has_ple,
        r.batch * ((cfg.ple_ngram_size - 1) * cfg.ple_heads_per_ngram) * cfg.ple_head_dim,
        DType::F32,
    ) + input_if(
        r.span_has_ple,
        (cfg.ple_conv_kernel - 1) * cfg.ple_ngram_size * cfg.hc_mult * cfg.n_embd,
        DType::F32,
    )
}

/// The inputs that a session's graphs share, in the order of their declaration.
pub open spec fn shared_decls(cfg: Config, r: GraphRequest) -> Seq<TensorDecl> {
    let gathered = if r.use_ids && r.gpu_ple {
        DeclKind::Internal
    } else {
        DeclKind::Input
    };
    input_if(r.rope_freqs is Some, r.rope_freqs->Some_0 as int, DType::F32) + input_if(
        r.yarn_ff is Some,
        r.yarn_ff->Some_0 as int,
        DType::F32,
    ) + (if cfg.n_embd_per_layer > 0 {
        decl(gathered, r.batch * cfg.layers@.len() * cfg.n_embd_per_layer, DType::F32)
    } else {
        Seq::empty()
    }) + input_if(r.conditioned, r.batch * cfg.vocab, DType::F32) + input_if(
        r.conditioned && r.scaled,
        1,
        DType::F32,
    )
}

/// The inputs before the caches, in the order of their declaration.
pub open spec fn leading_decls(cfg: Config, r: GraphRequest) -> Seq<TensorDecl> {
    row_decls(cfg, r) + shared_decls(cfg, r)
}

/// The declarations of one layer's caches.
pub open spec fn layer_decls(cache: CacheDecl) -> Seq<TensorDecl> {
    decl(DeclKind::Input, cache.k.elems as int, cache.k.dtype) + decl(
        DeclKind::Input,
        cache.v.elems as int,
        cache.v.dtype,
    ) + input_if(cache.qsa_raw is Some, cache.qsa_raw->Some_0 as int, DType::F16) + input_if(
        cache.qsa_block is Some,
        cache.qsa_block->Some_0 as int,
        DType::F32,
    )
}

/// The declarations of the first `n` layers' caches.
pub open spec fn caches_below(caches: Seq<CacheDecl>, n: nat) -> Seq<TensorDecl>
    decreases n,
{
    if n == 0 {
        Seq::empty()
    } else {
        caches_below(caches, (n - 1) as nat) + layer_decls(caches[n - 1])
    }
}

/// An uploaded weight: its type and its elements.
#[derive(Clone, Copy, Debug, PartialEq, Eq, Structural)]
pub struct WeightSpec {
    pub dtype: DType,
    pub elems: usize,
}

pub open spec fn weight_decls(specs: Seq<WeightSpec>) -> Seq<TensorDecl> {
    Seq::new(
        specs.len(),
        |i: int|
            TensorDecl { kind: DeclKind::Weight, elems: specs[i].elems, dtype: specs[i].dtype },
    )
}

/// The number is that of a declared input or scratch tensor of the given size and type.
#[verifier::opaque]
pub open spec fn declares(
    decls: Seq<TensorDecl>,
    id: TensorId,
    kind: DeclKind,
    elems: int,
    dtype: DType,
) -> bool {
    id < decls.len() && decls[id as int] == (TensorDecl { kind, elems: elems as usize, dtype })
}

pub open spec fn declares_if(
    decls: Seq<TensorDecl>,
    id: Option<TensorId>,
    wanted: bool,
    elems: int,
    dtype: DType,
) -> bool {
    match id {
        Some(id) => wanted && declares(decls, id, DeclKind::Input, elems, dtype),
        None => !wanted,
    }
}

/// What was declared `before` is still declared under its number.
pub open spec fn keeps(before: Seq<TensorDecl>, after: Seq<TensorDecl>) -> bool {
    forall|id: TensorId, kind: DeclKind, elems: int, dtype: DType|
        declares(before, id, kind, elems, dtype) ==> #[trigger] declares(
            after,
            id,
            kind,
            elems,
            dtype,
        )
}

proof fn lemma_keeps(before: Seq<TensorDecl>, more: Seq<TensorDecl>)
    ensures
        keeps(before, before + more),
{
    reveal(declares);
}

fn push_decl(decls: &mut Vec<TensorDecl>, kind: DeclKind, elems: usize, dtype: DType) -> (id:
    TensorId)
    ensures
        final(decls)@ == old(decls)@ + decl(kind, elems as int, dtype),
        id == old(decls)@.len(),
        declares(final(decls)@, id, kind, elems as int, dtype),
        keeps(old(decls)@, final(decls)@),
{
    let id: TensorId = decls.len();
    decls.push(TensorDecl { kind, elems, dtype });
    proof {
        reveal(declares);
        assert(decls@ =~= old(decls)@ + decl(kind, elems as int, dtype));
        lemma_keeps(old(decls)@, decl(kind, elems as int, dtype));
    }
    id
}

fn push_if(decls: &mut Vec<TensorDecl>, wanted: bool, elems: usize, dtype: DType) -> (id: Option<
    TensorId,
>)
    ensures
        final(decls)@ == old(decls)@ + input_if(wanted, elems as int, dtype),
        declares_if(final(decls)@, id, wanted, elems as int, dtype),
        id == one_number(wanted, old(decls)@.len() as int),
        id matches Some(i) ==> i == old(decls)@.len(),
        keeps(old(decls)@, final(decls)@),
{
    if wanted {
        Some(push_decl(decls, DeclKind::Input, elems, dtype))
    } else {
        assert(decls@ =~= old(decls)@ + Seq::<TensorDecl>::empty());
        None
    }
}

/// The numbers of the inputs that a batch is fed with.
#[derive(Clone, Copy, Debug, PartialEq, Eq, Structural)]
pub struct RowIds {
    pub tok_ids: Option<TensorId>,
    pub hidden: TensorId,
    pub positions: TensorId,
    pub positions4: Option<TensorId>,
    pub mrope_history: Option<TensorId>,
    pub qwen_wide: Option<TensorId>,
    pub ple_embd: Option<TensorId>,
    pub ple_state: Option<TensorId>,
}

impl RowIds {
    /// The tensor is one of these inputs.
    pub open spec fn names(self, t: TensorId) -> bool {
        ||| self.tok_ids == Some(t)
        ||| self.hidden == t
        ||| self.positions == t
        ||| self.positions4 == Some(t)
        ||| self.mrope_history == Some(t)
        ||| self.qwen_wide == Some(t)
        ||| self.ple_embd == Some(t)
        ||| self.ple_state == Some(t)
    }

    /// The numbers, in the order of their declaration.
    #[verifier::opaque]
    pub open spec fn numbered(cfg: Config, r: GraphRequest) -> RowIds {
        let hidden = taken(r.use_ids || r.hash_gather, 1);
        let positions4 = hidden + 2;
        let history = positions4 + taken(r.positions4, 1);
        let wide = history + taken(r.history, 1);
        let embd = wide + taken(cfg.qwen4exp, 1);
        let state = embd + taken(r.span_has_ple, 1);
        RowIds {
            tok_ids: one_number(r.use_ids || r.hash_gather, 0),
            hidden: nth(hidden, 0),
            positions: nth(hidden, 1),
            positions4: one_number(r.positions4, positions4),
            mrope_history: one_number(r.history, history),
            qwen_wide: one_number(cfg.qwen4exp, wide),
            ple_embd: one_number(r.span_has_ple, embd),
            ple_state: one_number(r.span_has_ple, state),
        }
    }

    /// The numbers in the order of their declaration.
    pub open spec fn listed(self) -> Seq<TensorId> {
        one_listed(self.tok_ids) + seq![self.hidden, self.positions] + one_listed(self.positions4)
            + one_listed(self.mrope_history) + one_listed(self.qwen_wide) + one_listed(
            self.ple_embd,
        ) + one_listed(self.ple_state)
    }

    /// Every number is that of an input of the size and type that its name asks for.
    pub open spec fn reads(self, decls: Seq<TensorDecl>, cfg: Config, r: GraphRequest) -> bool {
        let b = r.batch;
        &&& declares_if(
            decls,
            self.tok_ids,
            r.use_ids || r.hash_gather,
            b as int,
            DType::I32,
        )
        &&& declares(
            decls,
            self.hidden,
            if r.use_ids && r.span is None {
                DeclKind::Internal
            } else {
                DeclKind::Input
            },
            b * cfg.n_embd,
            DType::F32,
        )
        &&& declares(decls, self.positions, DeclKind::Input, b as int, DType::I32)
        &&& declares_if(decls, self.positions4, r.positions4, b * 4, DType::I32)
        &&& declares_if(decls, self.mrope_history, r.history, r.max_ctx * 4, DType::I32)
        &&& declares_if(
            decls,
            self.qwen_wide,
            cfg.qwen4exp,
            b * cfg.hc_mult * cfg.n_embd,
            DType::F32,
        )
        &&& declares_if(
            decls,
            self.ple_embd,
            r.span_has_ple,
            b * ((cfg.ple_ngram_size - 1) * cfg.ple_heads_per_ngram) * cfg.ple_head_dim,
            DType::F32,
        )
        &&& declares_if(
            decls,
            self.ple_state,
            r.span_has_ple,
            (cfg.ple_conv_kernel - 1) * cfg.ple_ngram_size * cfg.hc_mult * cfg.n_embd,
            DType::F32,
        )
    }
}

/// The numbers of the inputs that a session's graphs share.
#[derive(Clone, Copy, Debug, PartialEq, Eq, Structural)]
pub struct SharedIds {
    pub rope_freqs: Option<TensorId>,
    pub yarn_ff: Option<TensorId>,
    /// The per-layer embedding rows: bound by the caller, or gathered by the device.
    pub per_layer: Option<TensorId>,
    pub sc_logits: Option<TensorId>,
    pub temp_inv: Option<TensorId>,
}

impl SharedIds {
    /// The tensor is one of these inputs.
    pub open spec fn names(self, t: TensorId) -> bool {
        ||| self.rope_freqs == Some(t)
        ||| self.yarn_ff == Some(t)
        ||| self.per_layer == Some(t)
        ||| self.sc_logits == Some(t)
        ||| self.temp_inv == Some(t)
    }

    /// The numbers from `first` on, in the order of their declaration.
    #[verifier::opaque]
    pub open spec fn numbered(first: int, cfg: Config, r: GraphRequest) -> SharedIds {
        let yarn = first + taken(r.rope_freqs is Some, 1);
        let per_layer = yarn + taken(r.yarn_ff is Some, 1);
        let logits = per_layer + taken(cfg.n_embd_per_layer > 0, 1);
        let temp = logits + taken(r.conditioned, 1);
        SharedIds {
            rope_freqs: one_number(r.rope_freqs is Some, first),
            yarn_ff: one_number(r.yarn_ff is Some, yarn),
            per_layer: one_number(cfg.n_embd_per_layer > 0, per_layer),
            sc_logits: one_number(r.conditioned, logits),
            temp_inv: one_number(r.conditioned && r.scaled, temp),
        }
    }

    /// The numbers in the order of their declaration.
    pub open spec fn listed(self) -> Seq<TensorId> {
        one_listed(self.rope_freqs) + one_listed(self.yarn_ff) + one_listed(self.per_layer)
            + one_listed(self.sc_logits) + one_listed(self.temp_inv)
    }

    /// Every number is that of an input of the size and type that its name asks for.
    pub open spec fn reads(self, decls: Seq<TensorDecl>, cfg: Config, r: GraphRequest) -> bool {
        let b = r.batch;
        &&& declares_if(
            decls,
            self.rope_freqs,
            r.rope_freqs is Some,
            r.rope_freqs->Some_0 as int,
            DType::F32,
        )
        &&& declares_if(
            decls,
            self.yarn_ff,
            r.yarn_ff is Some,
            r.yarn_ff->Some_0 as int,
            DType::F32,
        )
        &&& self.per_layer is Some == (cfg.n_embd_per_layer > 0)
        &&& self.per_layer matches Some(id) ==> declares(
            decls,
            id,
            if r.use_ids && r.gpu_ple {
                DeclKind::Internal
            } else {
                DeclKind::Input
            },
            b * cfg.layers@.len() * cfg.n_embd_per_layer,
            DType::F32,
        )
        &&& declares_if(decls, self.sc_logits, r.conditioned, b * cfg.vocab, DType::F32)
        &&& declares_if(decls, self.temp_inv, r.conditioned && r.scaled, 1, DType::F32)
    }
}

fn product_if(wanted: bool, a: usize, b: usize) -> (n: usize)
    requires
        wanted ==> a * b <= usize::MAX,
    ensures
        wanted ==> n == a * b,
{
    if wanted {
        a * b
    } else {
        0
    }
}

/// The sizes of the optional inputs.
struct OptionalSizes {
    wide: usize,
    ple_embd: usize,
    ple_state: usize,
    per_layer: usize,
}

fn optional_sizes(cfg: &Config, r: &GraphRequest) -> (n: OptionalSizes)
    requires
        r.countable(*cfg),
        cfg.layers@.len() <= usize::MAX,
    ensures
        cfg.qwen4exp ==> n.wide == r.batch * cfg.hc_mult * cfg.n_embd,
        r.span_has_ple ==> n.ple_embd == r.batch * ((cfg.ple_ngram_size - 1)
            * cfg.ple_heads_per_ngram) * cfg.ple_head_dim,
        r.span_has_ple ==> n.ple_state == (cfg.ple_conv_kernel - 1) * cfg.ple_ngram_size
            * cfg.hc_mult * cfg.n_embd,
        cfg.n_embd_per_layer > 0 ==> n.per_layer == r.batch * cfg.layers@.len()
            * cfg.n_embd_per_layer,
{
    let streams: usize = product_if(cfg.qwen4exp, r.batch, cfg.hc_mult);
    let wide: usize = product_if(cfg.qwen4exp, streams, cfg.n_embd);
    let mut ple_embd: usize = 0;
    let mut ple_state: usize = 0;
    if r.span_has_ple {
        proof {
            assert((cfg.ple_ngram_size - 1) * cfg.ple_heads_per_ngram >= 0) by (nonlinear_arith)
                requires
                    cfg.ple_ngram_size >= 1,
                    cfg.ple_heads_per_ngram >= 0,
            ;
            assert((cfg.ple_conv_kernel - 1) * cfg.ple_ngram_size >= 0) by (nonlinear_arith)
                requires
                    cfg.ple_conv_kernel >= 1,
                    cfg.ple_ngram_size >= 0,
            ;
        }
        let heads: usize = (cfg.ple_ngram_size - 1) * cfg.ple_heads_per_ngram;
        let rows: usize = r.batch * heads;
        ple_embd = rows * cfg.ple_head_dim;
        let steps: usize = (cfg.ple_conv_kernel - 1) * cfg.ple_ngram_size;
        let streams_kept: usize = steps * cfg.hc_mult;
        ple_state = streams_kept * cfg.n_embd;
    }
    let e2b: bool = cfg.n_embd_per_layer > 0;
    let rows: usize = product_if(e2b, r.batch, cfg.layers.len());
    let per_layer: usize = product_if(e2b, rows, cfg.n_embd_per_layer);
    OptionalSizes { wide, ple_embd, ple_state, per_layer }
}

fn declare_rows(cfg: &Config, r: &GraphRequest, n: &OptionalSizes) -> (made: (
    Vec<TensorDecl>,
    RowIds,
))
    requires
        r.countable(*cfg),
        cfg.qwen4exp ==> n.wide == r.batch * cfg.hc_mult * cfg.n_embd,
        r.span_has_ple ==> n.ple_embd == r.batch * ((cfg.ple_ngram_size - 1)
            * cfg.ple_heads_per_ngram) * cfg.ple_head_dim,
        r.span_has_ple ==> n.ple_state == (cfg.ple_conv_kernel - 1) * cfg.ple_ngram_size
            * cfg.hc_mult * cfg.n_embd,
    ensures
        made.0@ == row_decls(*cfg, *r),
        made.1 == RowIds::numbered(*cfg, *r),
        made.1.reads(made.0@, *cfg, *r),
        forall|t: TensorId| t < made.0@.len() ==> #[trigger] made.1.names(t),
{
    reveal(RowIds::numbered);
    let mut decls: Vec<TensorDecl> = Vec::new();
    let hidden_kind: DeclKind = if r.use_ids && r.span.is_none() {
        DeclKind::Internal
    } else {
        DeclKind::Input
    };
    let ghost none = decls@;
    let tok_ids: Option<TensorId> = push_if(
        &mut decls,
        r.use_ids || r.hash_gather,
        r.batch,
        DType::I32,
    );
    proof {
        let first = input_if(r.use_ids || r.hash_gather, r.batch as int, DType::I32);
        assert(none + first =~= first);
    }
    let hidden: TensorId = push_decl(&mut decls, hidden_kind, r.batch * cfg.n_embd, DType::F32);
    let positions: TensorId = push_decl(&mut decls, DeclKind::Input, r.batch, DType::I32);
    let positions4: Option<TensorId> = push_if(&mut decls, r.positions4, r.batch * 4, DType::I32);
    let mrope_history: Option<TensorId> = push_if(
        &mut decls,
        r.history,
        r.max_ctx * 4,
        DType::I32,
    );
    let qwen_wide: Option<TensorId> = push_if(&mut decls, cfg.qwen4exp, n.wide, DType::F32);
    let ple_embd: Option<TensorId> = push_if(&mut decls, r.span_has_ple, n.ple_embd, DType::F32);
    let ple_state: Option<TensorId> = push_if(&mut decls, r.span_has_ple, n.ple_state, DType::F32);
    let ids: RowIds = RowIds {
        tok_ids,
        hidden,
        positions,
        positions4,
        mrope_history,
        qwen_wide,
        ple_embd,
        ple_state,
    };
    (decls, ids)
}

proof fn lemma_join(a: Seq<TensorDecl>, b: Seq<TensorDecl>, c: Seq<TensorDecl>)
    ensures
        a + b + c == a + (b + c),
{
    assert(a + b + c =~= a + (b + c));
}

fn declare_shared(
    decls: &mut Vec<TensorDecl>,
    cfg: &Config,
    r: &GraphRequest,
    per_layer_elems: usize,
) -> (ids: SharedIds)
    requires
        r.countable(*cfg),
        cfg.n_embd_per_layer > 0 ==> per_layer_elems == r.batch * cfg.layers@.len()
            * cfg.n_embd_per_layer,
    ensures
        final(decls)@ == old(decls)@ + shared_decls(*cfg, *r),
        ids == SharedIds::numbered(old(decls)@.len() as int, *cfg, *r),
        ids.reads(final(decls)@, *cfg, *r),
        keeps(old(decls)@, final(decls)@),
        forall|t: TensorId|
            old(decls)@.len() <= t < final(decls)@.len() ==> #[trigger] ids.names(t),
{
    reveal(SharedIds::numbered);
    let ghost start = decls@;
    let freqs: usize = match r.rope_freqs {
        Some(k) => k,
        None => 0,
    };
    let rope_freqs: Option<TensorId> = push_if(decls, r.rope_freqs.is_some(), freqs, DType::F32);
    let divisors: usize = match r.yarn_ff {
        Some(k) => k,
        None => 0,
    };
    let yarn_ff: Option<TensorId> = push_if(decls, r.yarn_ff.is_some(), divisors, DType::F32);
    let per_layer_kind: DeclKind = if r.use_ids && r.gpu_ple {
        DeclKind::Internal
    } else {
        DeclKind::Input
    };
    let ghost before = decls@;
    let per_layer: Option<TensorId> = if cfg.n_embd_per_layer > 0 {
        Some(push_decl(decls, per_layer_kind, per_layer_elems, DType::F32))
    } else {
        None
    };
    let ghost a = input_if(r.rope_freqs is Some, r.rope_freqs->Some_0 as int, DType::F32);
    let ghost b = input_if(r.yarn_ff is Some, r.yarn_ff->Some_0 as int, DType::F32);
    let ghost c = if cfg.n_embd_per_layer > 0 {
        decl(
            per_layer_kind,
            r.batch * cfg.layers@.len() * cfg.n_embd_per_layer,
            DType::F32,
        )
    } else {
        Seq::empty()
    };
    assert(decls@ =~= before + c);
    let sc_logits: Option<TensorId> = push_if(
        decls,
        r.conditioned,
        r.batch * cfg.vocab,
        DType::F32,
    );
    let temp_inv: Option<TensorId> = push_if(decls, r.conditioned && r.scaled, 1, DType::F32);
    proof {
        let d = input_if(r.conditioned, r.batch * cfg.vocab, DType::F32);
        let e = input_if(r.conditioned && r.scaled, 1, DType::F32);
        lemma_join(start, a, b);
        lemma_join(start, a + b, c);
        lemma_join(start, a + b + c, d);
        lemma_join(start, a + b + c + d, e);
    }
    SharedIds { rope_freqs, yarn_ff, per_layer, sc_logits, temp_inv }
}

/// The numbers of the caches.
pub struct CacheIds {
    pub k: Vec<TensorId>,
    pub v: Vec<TensorId>,
    pub qsa_raw: Vec<Option<TensorId>>,
    pub qsa_block: Vec<Option<TensorId>>,
}

/// The number of layer `l`'s K cache, behind `lead` other declarations.
pub open spec fn cache_base(lead: nat, caches: Seq<CacheDecl>, l: nat) -> int {
    (lead + caches_below(caches, l).len()) as int
}

impl CacheIds {
    /// The first `n` layers' caches have the numbers in which they were declared.
    pub open spec fn numbered(&self, lead: nat, caches: Seq<CacheDecl>, n: nat) -> bool {
        &&& self.k@.len() == n
        &&& self.v@.len() == n
        &&& self.qsa_raw@.len() == n
        &&& self.qsa_block@.len() == n
        &&& forall|l: int| 0 <= l < n ==> #[trigger] self.numbered_at(lead, caches, l)
    }

    pub open spec fn numbered_at(&self, lead: nat, caches: Seq<CacheDecl>, l: int) -> bool {
        let base = cache_base(lead, caches, l as nat);
        &&& self.k@[l] == base
        &&& self.v@[l] == base + 1
        &&& self.qsa_raw@[l] is Some == caches[l].qsa_raw is Some
        &&& self.qsa_block@[l] is Some == caches[l].qsa_block is Some
        &&& self.qsa_raw@[l] matches Some(id) ==> id == base + 2
        &&& self.qsa_block@[l] matches Some(id) ==> id == base + 2 + (
        if caches[l].qsa_raw is Some {
            1int
        } else {
            0
        })
    }
}

fn declare_caches(decls: &mut Vec<TensorDecl>, caches: &Vec<CacheDecl>) -> (ids: CacheIds)
    ensures
        final(decls)@ == old(decls)@ + caches_below(caches@, caches@.len()),
        ids.numbered(old(decls)@.len(), caches@, caches@.len()),
        keeps(old(decls)@, final(decls)@),
{
    let ghost start = decls@;
    let n: usize = caches.len();
    let mut ids: CacheIds = CacheIds {
        k: Vec::new(),
        v: Vec::new(),
        qsa_raw: Vec::new(),
        qsa_block: Vec::new(),
    };
    assert(start =~= start + caches_below(caches@, 0));
    let mut l: usize = 0;
    while l < n
        invariant
            l <= n == caches@.len(),
            decls@ == start + caches_below(caches@, l as nat),
            ids.numbered(start.len(), caches@, l as nat),
            keeps(start, decls@),
        decreases n - l,
    {
        let cache: CacheDecl = caches[l];
        let ghost before = decls@;
        let ghost done = ids;
        let k: TensorId = push_decl(decls, DeclKind::Input, cache.k.elems, cache.k.dtype);
        let v: TensorId = push_decl(decls, DeclKind::Input, cache.v.elems, cache.v.dtype);
        let raw_elems: usize = match cache.qsa_raw {
            Some(e) => e,
            None => 0,
        };
        let block_elems: usize = match cache.qsa_block {
            Some(e) => e,
            None => 0,
        };
        let raw: Option<TensorId> = push_if(
            decls,
            cache.qsa_raw.is_some(),
            raw_elems,
            DType::F16,
        );
        let block: Option<TensorId> = push_if(
            decls,
            cache.qsa_block.is_some(),
            block_elems,
            DType::F32,
        );
        proof {
            let a = decl(DeclKind::Input, cache.k.elems as int, cache.k.dtype);
            let b = decl(DeclKind::Input, cache.v.elems as int, cache.v.dtype);
            let c = input_if(cache.qsa_raw is Some, cache.qsa_raw->Some_0 as int, DType::F16);
            let d = input_if(cache.qsa_block is Some, cache.qsa_block->Some_0 as int, DType::F32);
            lemma_join(before, a, b);
            lemma_join(before, a + b, c);
            lemma_join(before, a + b + c, d);
            lemma_join(start, caches_below(caches@, l as nat), layer_decls(cache));
        }
        ids.k.push(k);
        ids.v.push(v);
        ids.qsa_raw.push(raw);
        ids.qsa_block.push(block);
        proof {
            assert forall|j: int| 0 <= j < l + 1 implies #[trigger] ids.numbered_at(
                start.len(),
                caches@,
                j,
            ) by {
                if j < l {
                    assert(done.numbered_at(start.len(), caches@, j));
                }
            }
        }
        l = l + 1;
    }
    ids
}

/// The numbers of `n` weights behind `lead` other declarations. The soft embedding of a conditioned
/// canvas stands among them, before weight `soft`.
pub open spec fn weight_numbers(lead: nat, n: nat, soft: Option<usize>) -> Seq<TensorId> {
    Seq::new(
        n,
        |i: int|
            match soft {
                Some(at) => if i < at {
                    (lead + i) as usize
                } else {
                    (lead + i + 1) as usize
                },
                None => (lead + i) as usize,
            },
    )
}

/// The declarations of the weights, and of the soft embedding where the graph has it.
pub open spec fn weights_and_soft(
    specs: Seq<WeightSpec>,
    soft: Option<usize>,
    soft_elems: usize,
) -> Seq<TensorDecl> {
    match soft {
        Some(at) => weight_decls(specs.take(at as int)) + decl(
            DeclKind::Weight,
            soft_elems as int,
            DType::F16,
        ) + weight_decls(specs.skip(at as int)),
        None => weight_decls(specs),
    }
}

fn declare_weights_behind(
    decls: &mut Vec<TensorDecl>,
    specs: &Vec<WeightSpec>,
    soft: Option<usize>,
    soft_elems: usize,
) -> (ids: Vec<TensorId>)
    requires
        old(decls)@.len() + specs@.len() < usize::MAX,
        soft matches Some(at) ==> at <= specs@.len(),
    ensures
        final(decls)@ == old(decls)@ + weights_and_soft(specs@, soft, soft_elems),
        ids@ == weight_numbers(old(decls)@.len(), specs@.len(), soft),
        keeps(old(decls)@, final(decls)@),
{
    let ghost start = decls@;
    let ghost whole = weights_and_soft(specs@, soft, soft_elems);
    let lead: usize = decls.len();
    let n: usize = specs.len();
    let mut ids: Vec<TensorId> = Vec::new();
    let mut i: usize = 0;
    assert(start =~= start + whole.take(0));
    while i < n
        invariant
            i <= n == specs@.len(),
            lead == start.len(),
            lead + n < usize::MAX,
            soft matches Some(at) ==> at <= n,
            whole == weights_and_soft(specs@, soft, soft_elems),
            decls@ == start + whole.take(
                match soft {
                    Some(at) => if i <= at {
                        i as int
                    } else {
                        i + 1
                    },
                    None => i as int,
                },
            ),
            ids@ == weight_numbers(start.len(), i as nat, soft),
        decreases n - i,
    {
        let here: bool = match soft {
            Some(at) => at == i,
            None => false,
        };
        if here {
            decls.push(TensorDecl { kind: DeclKind::Weight, elems: soft_elems, dtype: DType::F16 });
        }
        let spec_i: WeightSpec = specs[i];
        let id: TensorId = decls.len();
        decls.push(
            TensorDecl { kind: DeclKind::Weight, elems: spec_i.elems, dtype: spec_i.dtype },
        );
        ids.push(id);
        i = i + 1;
        assert(decls@ =~= start + whole.take(
            match soft {
                Some(at) => if i <= at {
                    i as int
                } else {
                    i + 1
                },
                None => i as int,
            },
        ));
        assert(ids@ =~= weight_numbers(start.len(), i as nat, soft));
    }
    let at_end: bool = match soft {
        Some(at) => at == n,
        None => false,
    };
    if at_end {
        decls.push(TensorDecl { kind: DeclKind::Weight, elems: soft_elems, dtype: DType::F16 });
    }
    proof {
        assert(decls@ =~= start + whole);
        lemma_keeps(start, whole);
    }
    ids
}

/// The inputs and weights of a graph, and their numbers.
pub struct GraphInputs {
    pub decls: Vec<TensorDecl>,
    /// The soft embedding of a conditioned canvas.
    pub soft: Option<TensorId>,
    pub rows: RowIds,
    pub shared: SharedIds,
    pub caches: CacheIds,
    pub weights: Vec<TensorId>,
}

/// All declarations of a graph before its scratch, in order.
pub open spec fn input_decls(
    cfg: Config,
    r: GraphRequest,
    caches: Seq<CacheDecl>,
    weights: Seq<WeightSpec>,
    soft_at: usize,
) -> Seq<TensorDecl> {
    leading_decls(cfg, r) + caches_below(caches, caches.len()) + weights_and_soft(
        weights,
        r.soft_place(soft_at),
        (cfg.vocab * cfg.n_embd) as usize,
    )
}

/// Declares the inputs and weights of a graph. The soft embedding of a conditioned canvas is declared
/// before weight `soft_at`.
pub fn declare_inputs(
    cfg: &Config,
    r: &GraphRequest,
    caches: &Vec<CacheDecl>,
    weights: &Vec<WeightSpec>,
    soft_at: usize,
) -> (g: GraphInputs)
    requires
        r.valid(*cfg),
        r.countable(*cfg),
        caches@.len() == cfg.layers@.len(),
        input_decls(*cfg, *r, caches@, weights@, soft_at).len() < usize::MAX,
        r.conditioned ==> soft_at <= weights@.len() && cfg.vocab * cfg.n_embd <= usize::MAX,
    ensures
        g.decls@ == input_decls(*cfg, *r, caches@, weights@, soft_at),
        g.soft == (if r.conditioned {
            Some(
                (leading_decls(*cfg, *r).len() + caches_below(caches@, caches@.len()).len()
                    + soft_at) as usize,
            )
        } else {
            None
        }),
        g.rows == RowIds::numbered(*cfg, *r),
        g.shared == SharedIds::numbered(row_decls(*cfg, *r).len() as int, *cfg, *r),
        g.rows.reads(g.decls@, *cfg, *r),
        g.shared.reads(g.decls@, *cfg, *r),
        g.caches.numbered(leading_decls(*cfg, *r).len(), caches@, caches@.len()),
        g.weights@ == weight_numbers(
            (leading_decls(*cfg, *r) + caches_below(caches@, caches@.len())).len(),
            weights@.len(),
            r.soft_place(soft_at),
        ),
        g.rows.below(leading_decls(*cfg, *r).len()),
        forall|t: TensorId|
            t < leading_decls(*cfg, *r).len() ==> g.rows.names(t) || #[trigger] g.shared.names(t),
{
    let sizes: OptionalSizes = optional_sizes(cfg, r);
    let (made, rows) = declare_rows(cfg, r, &sizes);
    let mut decls: Vec<TensorDecl> = made;
    let ghost s0 = decls@;
    let shared: SharedIds = declare_shared(&mut decls, cfg, r, sizes.per_layer);
    proof {
        rows.lemma_below(s0, *cfg, *r);
    }
    let cache_ids: CacheIds = declare_caches(&mut decls, caches);
    let lead: usize = decls.len();
    let place: Option<usize> = if r.conditioned {
        Some(soft_at)
    } else {
        None
    };
    let soft_elems: usize = product_if(r.conditioned, cfg.vocab, cfg.n_embd);
    let weight_ids: Vec<TensorId> = declare_weights_behind(
        &mut decls,
        weights,
        place,
        soft_elems,
    );
    let soft: Option<TensorId> = if r.conditioned {
        Some(lead + soft_at)
    } else {
        None
    };
    GraphInputs { decls, soft, rows, shared, caches: cache_ids, weights: weight_ids }
}

impl RowIds {
    /// Every number is less than `n`.
    pub open spec fn below(self, n: nat) -> bool {
        &&& self.tok_ids matches Some(id) ==> id < n
        &&& self.hidden < n
        &&& self.positions < n
        &&& self.positions4 matches Some(id) ==> id < n
        &&& self.mrope_history matches Some(id) ==> id < n
        &&& self.qwen_wide matches Some(id) ==> id < n
        &&& self.ple_embd matches Some(id) ==> id < n
        &&& self.ple_state matches Some(id) ==> id < n
    }

    proof fn lemma_below(self, decls: Seq<TensorDecl>, cfg: Config, r: GraphRequest)
        requires
            self.reads(decls, cfg, r),
        ensures
            self.below(decls.len()),
    {
        reveal(declares);
    }
}

/// The numbers of a graph's outputs, which are declared behind its scratch.
#[derive(Clone, Copy, Debug, PartialEq, Eq, Structural)]
pub struct OutputIds {
    pub logits: Option<TensorId>,
    pub h_out: Option<TensorId>,
    pub u_in: Option<TensorId>,
    pub tok_id: Option<TensorId>,
}

impl GraphInputs {
    /// The declarations, and the handles that a driver binds. Rows that the device gathers are not
    /// among them.
    pub fn handles(self, r: &GraphRequest, outputs: OutputIds) -> (made: (
        Vec<TensorDecl>,
        DecodeHandles,
    ))
        ensures
            made.0@ == self.decls@,
            made.1.hidden == self.rows.hidden,
            made.1.positions == self.rows.positions,
            made.1.positions4 == self.rows.positions4,
            made.1.mrope_history == self.rows.mrope_history,
            made.1.rope_freqs == self.shared.rope_freqs,
            made.1.yarn_ff == self.shared.yarn_ff,
            made.1.pl_tok_in == (if r.use_ids && r.gpu_ple {
                None
            } else {
                self.shared.per_layer
            }),
            made.1.logits == outputs.logits,
            made.1.h_out == outputs.h_out,
            made.1.tok_ids == self.rows.tok_ids,
            made.1.u_in == outputs.u_in,
            made.1.tok_id == outputs.tok_id,
            made.1.qwen_wide == self.rows.qwen_wide,
            made.1.ple_embd == self.rows.ple_embd,
            made.1.ple_state == self.rows.ple_state,
            made.1.k_cache@ == self.caches.k@,
            made.1.v_cache@ == self.caches.v@,
            made.1.qsa_k_cache@ == self.caches.qsa_raw@,
            made.1.qsa_block_cache@ == self.caches.qsa_block@,
            made.1.weights@ == self.weights@,
    {
        let pl_tok_in: Option<TensorId> = if r.use_ids && r.gpu_ple {
            None
        } else {
            self.shared.per_layer
        };
        let h: DecodeHandles = DecodeHandles {
            hidden: self.rows.hidden,
            positions: self.rows.positions,
            positions4: self.rows.positions4,
            mrope_history: self.rows.mrope_history,
            rope_freqs: self.shared.rope_freqs,
            yarn_ff: self.shared.yarn_ff,
            pl_tok_in,
            logits: outputs.logits,
            h_out: outputs.h_out,
            tok_ids: self.rows.tok_ids,
            u_in: outputs.u_in,
            tok_id: outputs.tok_id,
            qwen_wide: self.rows.qwen_wide,
            ple_embd: self.rows.ple_embd,
            ple_state: self.rows.ple_state,
            k_cache: self.caches.k,
            v_cache: self.caches.v,
            qsa_k_cache: self.caches.qsa_raw,
            qsa_block_cache: self.caches.qsa_block,
            weights: self.weights,
        };
        (self.decls, h)
    }
}

proof fn lemma_bases_grow(lead: nat, caches: Seq<CacheDecl>, a: nat, b: nat)
    requires
        a < b <= caches.len(),
    ensures
        cache_base(lead, caches, a) + layer_decls(caches[a as int]).len() <= cache_base(
            lead,
            caches,
            b,
        ),
        layer_decls(caches[a as int]).len() == 2 + (if caches[a as int].qsa_raw is Some {
            1int
        } else {
            0
        }) + (if caches[a as int].qsa_block is Some {
            1int
        } else {
            0
        }),
    decreases b,
{
    if a < b - 1 {
        lemma_bases_grow(lead, caches, a, (b - 1) as nat);
    }
}

proof fn lemma_rows_ascend(cfg: Config, r: GraphRequest)
    ensures
        ascends(RowIds::numbered(cfg, r).listed(), 0, row_decls(cfg, r).len() as int),
{
    reveal(RowIds::numbered);
    let ids = RowIds::numbered(cfg, r);
    let hidden = taken(r.use_ids || r.hash_gather, 1);
    let history = hidden + 2 + taken(r.positions4, 1);
    let wide = history + taken(r.history, 1);
    let embd = wide + taken(cfg.qwen4exp, 1);
    let state = embd + taken(r.span_has_ple, 1);
    let two = seq![ids.hidden, ids.positions];
    let l0 = one_listed(ids.tok_ids);
    lemma_ascends_join(l0, two, 0, hidden, hidden + 2);
    let l1 = l0 + two;
    lemma_one_joins(l1, r.positions4, 0, hidden + 2);
    let l2 = l1 + one_listed(ids.positions4);
    lemma_one_joins(l2, r.history, 0, history);
    let l3 = l2 + one_listed(ids.mrope_history);
    lemma_one_joins(l3, cfg.qwen4exp, 0, wide);
    let l4 = l3 + one_listed(ids.qwen_wide);
    lemma_one_joins(l4, r.span_has_ple, 0, embd);
    let l5 = l4 + one_listed(ids.ple_embd);
    lemma_one_joins(l5, r.span_has_ple, 0, state);
}

proof fn lemma_shared_ascends(first: int, cfg: Config, r: GraphRequest)
    requires
        0 <= first,
        first + shared_decls(cfg, r).len() <= usize::MAX,
    ensures
        ascends(
            SharedIds::numbered(first, cfg, r).listed(),
            first,
            first + shared_decls(cfg, r).len(),
        ),
{
    reveal(SharedIds::numbered);
    let ids = SharedIds::numbered(first, cfg, r);
    let yarn = first + taken(r.rope_freqs is Some, 1);
    let per_layer = yarn + taken(r.yarn_ff is Some, 1);
    let logits = per_layer + taken(cfg.n_embd_per_layer > 0, 1);
    let temp = logits + taken(r.conditioned, 1);
    let l0 = one_listed(ids.rope_freqs);
    lemma_one_joins(l0, r.yarn_ff is Some, first, yarn);
    let l1 = l0 + one_listed(ids.yarn_ff);
    lemma_one_joins(l1, cfg.n_embd_per_layer > 0, first, per_layer);
    let l2 = l1 + one_listed(ids.per_layer);
    lemma_one_joins(l2, r.conditioned, first, logits);
    let l3 = l2 + one_listed(ids.sc_logits);
    lemma_one_joins(l3, r.conditioned && r.scaled, first, temp);
}

impl CacheIds {
    /// The numbers of the first `n` layers' caches, in the order of their declaration.
    pub open spec fn listed(&self, n: nat) -> Seq<TensorId>
        decreases n,
    {
        if n == 0 {
            Seq::empty()
        } else {
            self.listed((n - 1) as nat) + seq![self.k@[n - 1], self.v@[n - 1]] + one_listed(
                self.qsa_raw@[n - 1],
            ) + one_listed(self.qsa_block@[n - 1])
        }
    }

    proof fn lemma_ascends(&self, lead: nat, caches: Seq<CacheDecl>, n: nat)
        requires
            self.numbered(lead, caches, caches.len()),
            n <= caches.len(),
        ensures
            ascends(self.listed(n), lead as int, cache_base(lead, caches, n)),
        decreases n,
    {
        if n > 0 {
            let m = (n - 1) as nat;
            let base = cache_base(lead, caches, m);
            let end = cache_base(lead, caches, n);
            self.lemma_ascends(lead, caches, m);
            assert(self.numbered_at(lead, caches, n - 1));
            let two = seq![self.k@[n - 1], self.v@[n - 1]];
            let raw = one_listed(self.qsa_raw@[n - 1]);
            let block = one_listed(self.qsa_block@[n - 1]);
            let third = base + 2 + taken(caches[n - 1].qsa_raw is Some, 1);
            lemma_ascends_join(self.listed(m), two, lead as int, base, base + 2);
            lemma_ascends_join(self.listed(m) + two, raw, lead as int, base + 2, third);
            lemma_ascends_join(self.listed(m) + two + raw, block, lead as int, third, end);
        }
    }
}

/// The caches of a graph are apart from each other and from the embedding history, and its weights
/// from each other and from the inputs of the n-gram embedding, as a binder needs it.
pub proof fn law_bound_tensors_are_apart(
    h: DecodeHandles,
    ids: CacheIds,
    lead: nat,
    caches: Seq<CacheDecl>,
    soft: Option<usize>,
)
    requires
        ids.numbered(lead, caches, caches.len()),
        h.k_cache@ == ids.k@,
        h.v_cache@ == ids.v@,
        h.qsa_k_cache@ == ids.qsa_raw@,
        h.qsa_block_cache@ == ids.qsa_block@,
        h.weights@ == weight_numbers(
            (lead + caches_below(caches, caches.len()).len()) as nat,
            h.weights@.len(),
            soft,
        ),
        lead + caches_below(caches, caches.len()).len() + h.weights@.len() < usize::MAX,
        h.qwen_wide matches Some(id) ==> id < lead,
        h.ple_embd matches Some(id) ==> id < lead,
        h.ple_state matches Some(id) ==> id < lead,
    ensures
        caches_distinct(h, caches.len()),
        h.weights@.no_duplicates(),
        forall|i: int|
            #![trigger h.weights@[i]]
            0 <= i < h.weights@.len() ==> h.qwen_wide != Some(h.weights@[i]) && h.ple_embd != Some(
                h.weights@[i],
            ) && h.ple_state != Some(h.weights@[i]),
{
    let n = caches.len();
    assert forall|a: int| 0 <= a < n implies #[trigger] ids.numbered_at(lead, caches, a) by {}
    assert forall|a: int, b: int|
        #![trigger h.k_cache@[a], h.k_cache@[b]]
        0 <= a < b < n implies h.k_cache@[a] != h.k_cache@[b] by {
        lemma_apart(ids, lead, caches, a, b);
    }
    assert forall|a: int, b: int|
        #![trigger h.v_cache@[a], h.v_cache@[b]]
        0 <= a < b < n implies h.v_cache@[a] != h.v_cache@[b] by {
        lemma_apart(ids, lead, caches, a, b);
    }
    assert forall|a: int, b: int|
        #![trigger h.k_cache@[a], h.v_cache@[b]]
        0 <= a < n && 0 <= b < n implies h.k_cache@[a] != h.v_cache@[b] by {
        lemma_apart(ids, lead, caches, a, b);
    }
    assert forall|a: int, b: int|
        #![trigger h.k_cache@[a], h.qsa_k_cache@[b]]
        0 <= a < n && 0 <= b < n implies h.qsa_k_cache@[b] != Some(h.k_cache@[a]) by {
        lemma_apart(ids, lead, caches, a, b);
    }
    assert forall|a: int, b: int|
        #![trigger h.k_cache@[a], h.qsa_block_cache@[b]]
        0 <= a < n && 0 <= b < n implies h.qsa_block_cache@[b] != Some(h.k_cache@[a]) by {
        lemma_apart(ids, lead, caches, a, b);
    }
    assert forall|a: int, b: int|
        #![trigger h.v_cache@[a], h.qsa_k_cache@[b]]
        0 <= a < n && 0 <= b < n implies h.qsa_k_cache@[b] != Some(h.v_cache@[a]) by {
        lemma_apart(ids, lead, caches, a, b);
    }
    assert forall|a: int, b: int|
        #![trigger h.v_cache@[a], h.qsa_block_cache@[b]]
        0 <= a < n && 0 <= b < n implies h.qsa_block_cache@[b] != Some(h.v_cache@[a]) by {
        lemma_apart(ids, lead, caches, a, b);
    }
    assert forall|a: int| 0 <= a < n implies h.ple_state != Some(#[trigger] h.k_cache@[a]) by {
        assert(ids.numbered_at(lead, caches, a));
    }
    assert forall|a: int| 0 <= a < n implies h.ple_state != Some(#[trigger] h.v_cache@[a]) by {
        assert(ids.numbered_at(lead, caches, a));
    }
    assert forall|i: int, j: int|
        0 <= i < h.weights@.len() && 0 <= j < h.weights@.len() && i != j implies h.weights@[i]
        != h.weights@[j] by {
        let k = (lead + caches_below(caches, n).len()) as nat;
        assert(h.weights@[i] == weight_numbers(k, h.weights@.len(), soft)[i]);
        assert(h.weights@[j] == weight_numbers(k, h.weights@.len(), soft)[j]);
    }
    assert forall|i: int|
        #![trigger h.weights@[i]]
        0 <= i < h.weights@.len() implies h.qwen_wide != Some(h.weights@[i]) && h.ple_embd != Some(
        h.weights@[i],
    ) && h.ple_state != Some(h.weights@[i]) by {
        let k = (lead + caches_below(caches, n).len()) as nat;
        assert(h.weights@[i] == weight_numbers(k, h.weights@.len(), soft)[i]);
    }
}

/// No two inputs or weights of a graph share a number. The inputs of a batch come first, then those
/// that a session's graphs share, the caches, and the weights; the soft embedding of a conditioned
/// canvas stands among the weights, and is none of them.
pub proof fn law_inputs_are_numbered_apart(
    weights: Seq<TensorId>,
    ids: CacheIds,
    cfg: Config,
    r: GraphRequest,
    caches: Seq<CacheDecl>,
    soft: Option<usize>,
)
    requires
        ids.numbered(leading_decls(cfg, r).len(), caches, caches.len()),
        weights == weight_numbers(
            (leading_decls(cfg, r).len() + caches_below(caches, caches.len()).len()) as nat,
            weights.len(),
            soft,
        ),
        leading_decls(cfg, r).len() + caches_below(caches, caches.len()).len() + weights.len()
            < usize::MAX,
        soft matches Some(at) ==> at <= weights.len(),
    ensures
        ({
            let rows = row_decls(cfg, r).len() as int;
            let all = RowIds::numbered(cfg, r).listed() + SharedIds::numbered(rows, cfg, r).listed()
                + ids.listed(caches.len()) + weights;
            let end = cache_base(leading_decls(cfg, r).len(), caches, caches.len()) + weights.len()
                + 1;
            ascends(all, 0, end) && all.no_duplicates()
        }),
        soft matches Some(at) ==> !weights.contains(
            nth(cache_base(leading_decls(cfg, r).len(), caches, caches.len()), at as int),
        ),
{
    let lead = leading_decls(cfg, r).len();
    let n = caches.len();
    let rows = row_decls(cfg, r).len() as int;
    let behind = cache_base(lead, caches, n);
    let end = behind + weights.len() + 1;
    assert(lead == rows + shared_decls(cfg, r).len());
    lemma_rows_ascend(cfg, r);
    lemma_shared_ascends(rows, cfg, r);
    ids.lemma_ascends(lead, caches, n);
    assert forall|i: int| 0 <= i < weights.len() implies #[trigger] weights[i] == (match soft {
        Some(at) => if i < at {
            behind + i
        } else {
            behind + i + 1
        },
        None => behind + i,
    }) by {
        assert(weights[i] == weight_numbers(behind as nat, weights.len(), soft)[i]);
    }
    assert(ascends(weights, behind, end));
    let l0 = RowIds::numbered(cfg, r).listed();
    let l1 = l0 + SharedIds::numbered(rows, cfg, r).listed();
    let l2 = l1 + ids.listed(n);
    lemma_ascends_join(
        l0,
        SharedIds::numbered(rows, cfg, r).listed(),
        0,
        rows,
        lead as int,
    );
    lemma_ascends_join(l1, ids.listed(n), 0, lead as int, behind);
    lemma_ascends_join(l2, weights, 0, behind, end);
    lemma_ascending_numbers_differ(l2 + weights, 0, end);
    if let Some(at) = soft {
        if weights.contains(nth(behind, at as int)) {
            let i = choose|i: int| 0 <= i < weights.len() && weights[i] == nth(behind, at as int);
            assert(weights[i] == (if i < at {
                behind + i
            } else {
                behind + i + 1
            }));
        }
    }
}

proof fn lemma_apart(ids: CacheIds, lead: nat, caches: Seq<CacheDecl>, a: int, b: int)
    requires
        ids.numbered(lead, caches, caches.len()),
        0 <= a < caches.len(),
        0 <= b < caches.len(),
    ensures
        a != b ==> ids.k@[a] != ids.k@[b] && ids.v@[a] != ids.v@[b],
        ids.k@[a] != ids.v@[b],
        ids.qsa_raw@[b] != Some(ids.k@[a]),
        ids.qsa_raw@[b] != Some(ids.v@[a]),
        ids.qsa_block@[b] != Some(ids.k@[a]),
        ids.qsa_block@[b] != Some(ids.v@[a]),
{
    assert(ids.numbered_at(lead, caches, a));
    assert(ids.numbered_at(lead, caches, b));
    if a < b {
        lemma_bases_grow(lead, caches, a as nat, b as nat);
    } else if b < a {
        lemma_bases_grow(lead, caches, b as nat, a as nat);
    }
}

/// The inputs of a one-row step have exactly the sizes of the buffers that a slot keeps for them.
pub proof fn law_step_inputs_fill_their_buffers(cfg: Config, r: GraphRequest)
    requires
        r.batch == 1,
    ensures
        (r.batch * cfg.n_embd) * 4 == cfg.n_embd * 4,
        (r.batch * cfg.hc_mult * cfg.n_embd) * 4 == wide_bytes(cfg),
        (r.batch * ((cfg.ple_ngram_size - 1) * cfg.ple_heads_per_ngram) * cfg.ple_head_dim) * 4
            == ple_embd_bytes(cfg),
        ((cfg.ple_conv_kernel - 1) * cfg.ple_ngram_size * cfg.hc_mult * cfg.n_embd) * 4
            == ple_state_bytes(cfg),
        cfg.n_embd_per_layer > 0 ==> (r.batch * cfg.layers@.len() * cfg.n_embd_per_layer) * 4
            == ipl_bytes(cfg),
{
}

/// Whether this batch needs positions with four components: the request has images, and its rows are
/// not those of plain rotation.
pub fn needs_positions4(
    table: Option<&Vec<i32>>,
    start_pos: usize,
    batch: usize,
    sections: [u32; 4],
    pairs: usize,
) -> (b: bool)
    ensures
        b == (match table {
            Some(t) => !is_plain_rope(
                t@,
                start_pos as int,
                batch as int,
                sections,
                pairs as int,
            ),
            None => false,
        }),
{
    match table {
        Some(t) => !mrope_rows_are_plain_rope(t, start_pos, batch, sections, pairs),
        None => false,
    }
}

} // verus!
