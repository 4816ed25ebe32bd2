//! The sizes that the operations of a graph are made of.

use crate::graph_ops::{MoeRule, Sections};
use crate::prompt::min;
use vstd::prelude::*;

verus! {

/// What a graph's sizes follow from.
#[derive(Clone, Copy, Debug, PartialEq, Eq, Structural)]
pub struct GraphSizes {
    /// The rows of the batch.
    pub batch: usize,
    /// The position of its first row.
    pub start_pos: usize,
    /// The rows of which logits are made.
    pub logits_rows: usize,
    pub n_layer: usize,
    pub n_embd: usize,
    pub vocab: usize,
    pub n_head: usize,
    /// The widest feed-forward block.
    pub n_ff: usize,
    pub n_embd_per_layer: usize,
    /// The longest head, and the most key heads, of any layer.
    pub max_head_dim: usize,
    pub max_n_kv: usize,
    pub head_dim: usize,
    pub rope_dim: usize,
    /// The residual streams.
    pub hc_mult: usize,
    pub hc_low_rank: usize,
    pub ple_ngram_size: usize,
    pub ple_heads_per_ngram: usize,
    pub ple_head_dim: usize,
    pub ple_conv_kernel: usize,
    /// The channels of a recurrent mixer's convolution.
    pub conv_channels: usize,
    pub d_inner: usize,
    pub n_khead: usize,
    pub head_k: usize,
    pub n_vhead: usize,
    pub head_v: usize,
    pub d_conv: usize,
    pub kda_head_dim: usize,
    pub q_lora_rank: usize,
    pub o_lora_rank: usize,
    pub o_group_count: usize,
    pub indexer_n_head: usize,
    pub indexer_head_size: usize,
    pub indexer_top_k: usize,
    pub swa_window: usize,
    pub kv_lora_rank: usize,
    pub qk_rope_dim: usize,
    pub head_k_mla: usize,
    pub v_head_dim: usize,
    /// The width of a shared expert.
    pub shexp_ff: usize,
    pub n_expert: usize,
    pub n_used: usize,
    pub n_ff_exp: usize,
    /// The tokens of a sparse layer's block; at least one.
    pub qsa_ratio: usize,
    /// The bytes of one packed index row.
    pub index_row_bytes: usize,
    pub sample_top_k: usize,
    /// The rounds in which the mixing of the residual streams is normed.
    pub hc_iters: usize,
    pub moe: MoeRule,
    pub sections: Sections,
}

/// The derived sizes of a graph.
#[derive(Clone, Copy, Debug, PartialEq, Eq, Structural)]
pub struct GraphDims {
    /// What they follow from.
    pub b: GraphSizes,
    /// The elements of all residual streams of a token.
    pub wide: usize,
    pub hc_two: usize,
    /// The weights that mix the residual streams of a token.
    pub hc_gates: usize,
    pub hc_square: usize,
    /// The rows of a batch, stream by stream.
    pub stream_rows: usize,
    /// The per-layer inputs of a token.
    pub per_layer: usize,
    /// The rows of a batch, layer by layer.
    pub layer_rows: usize,
    pub key_dim: usize,
    pub key_dim2: usize,
    pub value_dim: usize,
    pub kda_dim: usize,
    pub kda_packed: usize,
    /// The queries of a token with compressed attention.
    pub query_row: usize,
    /// The rows of a batch, head by head.
    pub head_rows: usize,
    pub index_head_rows: usize,
    pub index_row: usize,
    pub index_head2: usize,
    pub head_dim2: usize,
    pub o_row: usize,
    pub max_query_row: usize,
    pub max_query_row2: usize,
    pub max_kv_row: usize,
    pub max_kv_row2: usize,
    pub max_qkv_row: usize,
    pub latent_key: usize,
    pub latent_head: usize,
    pub latent_query_row: usize,
    pub latent_out: usize,
    /// One more than the last position.
    pub visible: usize,
    pub n_ff2: usize,
    pub index_packed_bytes: usize,
    pub sparse_end: usize,
    pub rope_row: usize,
    /// The embedding values of a token, and the taps of their dilated convolution.
    pub ple_in: usize,
    pub ple_kernel: usize,
    /// The queries of one output group.
    pub group_row: usize,
    /// The dimensions of a head that are not rotated.
    pub nope_dim: usize,
    /// The dimensions of an index head that are not rotated.
    pub index_nope_dim: usize,
    /// The keys that a token indexer selects.
    pub index_top_k: usize,
    /// Where the last rows, of which logits are made, begin.
    pub tail: usize,
    /// The most rows that a sparse row reads, and the most blocks it selects; at least one.
    pub sparse_rows: usize,
    pub sparse_blocks: usize,
    /// The words of a token's packed index queries.
    pub index_words: usize,
    /// The most compressed rows that are selected by score.
    pub index_blocks: usize,
    /// The most raw and compressed rows that a token with compressed attention reads.
    pub gather_rows: usize,
    /// The rule of a bank whose experts stand in no groups.
    pub moe_ungrouped: MoeRule,
}

impl GraphSizes {
    pub open spec fn wide(self) -> int {
        let b = self;
        b.hc_mult * b.n_embd
    }

    pub open spec fn hc_two(self) -> int {
        let b = self;
        2 + b.hc_mult
    }

    pub open spec fn hc_gates(self) -> int {
        let b = self;
        b.hc_two() * b.hc_mult
    }

    pub open spec fn hc_square(self) -> int {
        let b = self;
        b.hc_mult * b.hc_mult
    }

    pub open spec fn stream_rows(self) -> int {
        let b = self;
        b.batch * b.hc_mult
    }

    pub open spec fn per_layer(self) -> int {
        let b = self;
        b.n_layer * b.n_embd_per_layer
    }

    pub open spec fn layer_rows(self) -> int {
        let b = self;
        b.batch * b.n_layer
    }

    pub open spec fn key_dim(self) -> int {
        let b = self;
        b.n_khead * b.head_k
    }

    pub open spec fn key_dim2(self) -> int {
        let b = self;
        2 * b.key_dim()
    }

    pub open spec fn value_dim(self) -> int {
        let b = self;
        b.n_vhead * b.head_v
    }

    pub open spec fn kda_dim(self) -> int {
        let b = self;
        b.n_head * b.kda_head_dim
    }

    pub open spec fn kda_packed(self) -> int {
        let b = self;
        3 * b.kda_dim()
    }

    pub open spec fn query_row(self) -> int {
        let b = self;
        b.n_head * b.head_dim
    }

    pub open spec fn head_rows(self) -> int {
        let b = self;
        b.batch * b.n_head
    }

    pub open spec fn index_head_rows(self) -> int {
        let b = self;
        b.batch * b.indexer_n_head
    }

    pub open spec fn index_row(self) -> int {
        let b = self;
        b.indexer_n_head * b.indexer_head_size
    }

    pub open spec fn index_head2(self) -> int {
        let b = self;
        2 * b.indexer_head_size
    }

    pub open spec fn head_dim2(self) -> int {
        let b = self;
        2 * b.head_dim
    }

    pub open spec fn o_row(self) -> int {
        let b = self;
        b.o_group_count * b.o_lora_rank
    }

    pub open spec fn max_query_row(self) -> int {
        let b = self;
        b.n_head * b.max_head_dim
    }

    pub open spec fn max_query_row2(self) -> int {
        let b = self;
        2 * b.max_query_row()
    }

    pub open spec fn max_kv_row(self) -> int {
        let b = self;
        b.max_n_kv * b.max_head_dim
    }

    pub open spec fn max_kv_row2(self) -> int {
        let b = self;
        2 * b.max_kv_row()
    }

    pub open spec fn max_qkv_row(self) -> int {
        let b = self;
        b.max_query_row() + b.max_kv_row2()
    }

    pub open spec fn latent_key(self) -> int {
        let b = self;
        b.kv_lora_rank + b.qk_rope_dim
    }

    pub open spec fn latent_head(self) -> int {
        let b = self;
        b.head_k_mla + b.qk_rope_dim
    }

    pub open spec fn latent_query_row(self) -> int {
        let b = self;
        b.n_head * b.latent_head()
    }

    pub open spec fn latent_out(self) -> int {
        let b = self;
        b.n_head * b.v_head_dim
    }

    pub open spec fn visible(self) -> int {
        let b = self;
        b.start_pos + b.batch
    }

    pub open spec fn n_ff2(self) -> int {
        let b = self;
        2 * b.n_ff
    }

    pub open spec fn index_packed_bytes(self) -> int {
        let b = self;
        b.indexer_n_head * b.index_row_bytes
    }

    pub open spec fn sparse_end(self) -> int {
        let b = self;
        b.indexer_top_k + b.qsa_ratio
    }

    pub open spec fn rope_row(self) -> int {
        let b = self;
        b.most_heads() * b.rope_dim
    }

    /// The query heads, of attention or of an indexer, whichever are more.
    pub open spec fn most_heads(self) -> int {
        if self.n_head >= self.indexer_n_head {
            self.n_head as int
        } else {
            self.indexer_n_head as int
        }
    }

    pub open spec fn ple_heads(self) -> int {
        (self.ple_ngram_size - 1) * self.ple_heads_per_ngram
    }

    pub open spec fn ple_in(self) -> int {
        self.ple_heads() * self.ple_head_dim
    }

    pub open spec fn ple_kernel(self) -> int {
        (self.ple_conv_kernel - 1) * self.ple_ngram_size + 1
    }

    pub open spec fn index_blocks(self) -> int {
        min(self.indexer_top_k as int, self.visible() / 4)
    }

    pub open spec fn gather_rows(self) -> int {
        let window = if self.swa_window >= 1 {
            self.swa_window as int
        } else {
            1
        };
        let blocks = self.index_blocks();
        let heavy = self.visible() / 128;
        min(self.visible(), window) + (if heavy >= blocks {
            heavy
        } else {
            blocks
        })
    }

    pub open spec fn index_words(self) -> int {
        let bytes = self.index_packed_bytes();
        if bytes <= 4 {
            1
        } else {
            (bytes - 1) / 4 + 1
        }
    }

    pub open spec fn sparse_blocks(self) -> int {
        let blocks = self.indexer_top_k as int / self.qsa_ratio as int;
        if blocks >= 1 {
            blocks
        } else {
            1
        }
    }

    pub open spec fn tail(self) -> int {
        (self.batch - self.logits_rows) * self.n_embd
    }

    /// Every derived size fits the machine.
    pub open spec fn fits(self) -> bool {
        &&& self.batch >= 1
        &&& self.gather_rows() <= usize::MAX
        &&& self.qsa_ratio >= 1
        &&& self.wide() <= usize::MAX
        &&& self.hc_two() <= usize::MAX
        &&& self.hc_gates() <= usize::MAX
        &&& self.hc_square() <= usize::MAX
        &&& self.stream_rows() <= usize::MAX
        &&& self.per_layer() <= usize::MAX
        &&& self.layer_rows() <= usize::MAX
        &&& self.key_dim() <= usize::MAX
        &&& self.key_dim2() <= usize::MAX
        &&& self.value_dim() <= usize::MAX
        &&& self.kda_dim() <= usize::MAX
        &&& self.kda_packed() <= usize::MAX
        &&& self.query_row() <= usize::MAX
        &&& self.head_rows() <= usize::MAX
        &&& self.index_head_rows() <= usize::MAX
        &&& self.index_row() <= usize::MAX
        &&& self.index_head2() <= usize::MAX
        &&& self.head_dim2() <= usize::MAX
        &&& self.o_row() <= usize::MAX
        &&& self.max_query_row() <= usize::MAX
        &&& self.max_query_row2() <= usize::MAX
        &&& self.max_kv_row() <= usize::MAX
        &&& self.max_kv_row2() <= usize::MAX
        &&& self.max_qkv_row() <= usize::MAX
        &&& self.latent_key() <= usize::MAX
        &&& self.latent_head() <= usize::MAX
        &&& self.latent_query_row() <= usize::MAX
        &&& self.latent_out() <= usize::MAX
        &&& self.visible() <= usize::MAX
        &&& self.n_ff2() <= usize::MAX
        &&& self.index_packed_bytes() <= usize::MAX
        &&& self.sparse_end() <= usize::MAX
        &&& self.rope_row() <= usize::MAX
        &&& self.ple_ngram_size >= 1 ==> 0 <= self.ple_heads() <= usize::MAX && 0 <= self.ple_in()
            <= usize::MAX
        &&& self.ple_conv_kernel >= 1 ==> 0 <= self.ple_kernel() <= usize::MAX && (
        self.ple_conv_kernel - 1) * self.ple_ngram_size >= 0
        &&& self.logits_rows <= self.batch
        &&& 0 <= self.tail() <= usize::MAX
    }

    /// The derived sizes.
    pub open spec fn derived(self) -> GraphDims {
        GraphDims {
            b: self,
            wide: self.wide() as usize,
            hc_two: self.hc_two() as usize,
            hc_gates: self.hc_gates() as usize,
            hc_square: self.hc_square() as usize,
            stream_rows: self.stream_rows() as usize,
            per_layer: self.per_layer() as usize,
            layer_rows: self.layer_rows() as usize,
            key_dim: self.key_dim() as usize,
            key_dim2: self.key_dim2() as usize,
            value_dim: self.value_dim() as usize,
            kda_dim: self.kda_dim() as usize,
            kda_packed: self.kda_packed() as usize,
            query_row: self.query_row() as usize,
            head_rows: self.head_rows() as usize,
            index_head_rows: self.index_head_rows() as usize,
            index_row: self.index_row() as usize,
            index_head2: self.index_head2() as usize,
            head_dim2: self.head_dim2() as usize,
            o_row: self.o_row() as usize,
            max_query_row: self.max_query_row() as usize,
            max_query_row2: self.max_query_row2() as usize,
            max_kv_row: self.max_kv_row() as usize,
            max_kv_row2: self.max_kv_row2() as usize,
            max_qkv_row: self.max_qkv_row() as usize,
            latent_key: self.latent_key() as usize,
            latent_head: self.latent_head() as usize,
            latent_query_row: self.latent_query_row() as usize,
            latent_out: self.latent_out() as usize,
            visible: self.visible() as usize,
            n_ff2: self.n_ff2() as usize,
            index_packed_bytes: self.index_packed_bytes() as usize,
            sparse_end: self.sparse_end() as usize,
            rope_row: self.rope_row() as usize,
            ple_in: if self.ple_ngram_size >= 1 {
                self.ple_in() as usize
            } else {
                0
            },
            ple_kernel: if self.ple_conv_kernel >= 1 {
                self.ple_kernel() as usize
            } else {
                0
            },
            group_row: if self.o_group_count > 0 {
                (self.query_row() / (self.o_group_count as int)) as usize
            } else {
                0
            },
            nope_dim: if self.head_dim >= self.rope_dim {
                (self.head_dim - self.rope_dim) as usize
            } else {
                0
            },
            index_nope_dim: if self.indexer_head_size >= self.rope_dim {
                (self.indexer_head_size - self.rope_dim) as usize
            } else {
                0
            },
            index_top_k: min(self.indexer_top_k as int, self.visible()) as usize,
            tail: self.tail() as usize,
            sparse_rows: (self.indexer_top_k + self.qsa_ratio - 1) as usize,
            sparse_blocks: self.sparse_blocks() as usize,
            index_words: self.index_words() as usize,
            index_blocks: self.index_blocks() as usize,
            gather_rows: self.gather_rows() as usize,
            moe_ungrouped: self.moe.ungrouped(),
        }
    }

    /// See [`GraphSizes::derived`].
    pub fn dims(&self) -> (d: GraphDims)
        requires
            self.fits(),
        ensures
            d == self.derived(),
    {
        let b: GraphSizes = *self;
        let most_heads: usize = if b.n_head >= b.indexer_n_head {
            b.n_head
        } else {
            b.indexer_n_head
        };
        let wide: usize = b.hc_mult * b.n_embd;
        let hc_two: usize = 2 + b.hc_mult;
        let hc_gates: usize = hc_two * b.hc_mult;
        let hc_square: usize = b.hc_mult * b.hc_mult;
        let stream_rows: usize = b.batch * b.hc_mult;
        let per_layer: usize = b.n_layer * b.n_embd_per_layer;
        let layer_rows: usize = b.batch * b.n_layer;
        let key_dim: usize = b.n_khead * b.head_k;
        let key_dim2: usize = 2 * key_dim;
        let value_dim: usize = b.n_vhead * b.head_v;
        let kda_dim: usize = b.n_head * b.kda_head_dim;
        let kda_packed: usize = 3 * kda_dim;
        let query_row: usize = b.n_head * b.head_dim;
        let head_rows: usize = b.batch * b.n_head;
        let index_head_rows: usize = b.batch * b.indexer_n_head;
        let index_row: usize = b.indexer_n_head * b.indexer_head_size;
        let index_head2: usize = 2 * b.indexer_head_size;
        let head_dim2: usize = 2 * b.head_dim;
        let o_row: usize = b.o_group_count * b.o_lora_rank;
        let max_query_row: usize = b.n_head * b.max_head_dim;
        let max_query_row2: usize = 2 * max_query_row;
        let max_kv_row: usize = b.max_n_kv * b.max_head_dim;
        let max_kv_row2: usize = 2 * max_kv_row;
        let max_qkv_row: usize = max_query_row + max_kv_row2;
        let latent_key: usize = b.kv_lora_rank + b.qk_rope_dim;
        let latent_head: usize = b.head_k_mla + b.qk_rope_dim;
        let latent_query_row: usize = b.n_head * latent_head;
        let latent_out: usize = b.n_head * b.v_head_dim;
        let visible: usize = b.start_pos + b.batch;
        let n_ff2: usize = 2 * b.n_ff;
        let index_packed_bytes: usize = b.indexer_n_head * b.index_row_bytes;
        let sparse_end: usize = b.indexer_top_k + b.qsa_ratio;
        let rope_row: usize = most_heads * b.rope_dim;
        let ple_in: usize = if b.ple_ngram_size >= 1 {
            let heads: usize = (b.ple_ngram_size - 1) * b.ple_heads_per_ngram;
            heads * b.ple_head_dim
        } else {
            0
        };
        let ple_kernel: usize = if b.ple_conv_kernel >= 1 {
            (b.ple_conv_kernel - 1) * b.ple_ngram_size + 1
        } else {
            0
        };
        let group_row: usize = if b.o_group_count > 0 {
            query_row / b.o_group_count
        } else {
            0
        };
        let nope_dim: usize = if b.head_dim >= b.rope_dim {
            b.head_dim - b.rope_dim
        } else {
            0
        };
        let index_nope_dim: usize = if b.indexer_head_size >= b.rope_dim {
            b.indexer_head_size - b.rope_dim
        } else {
            0
        };
        let index_top_k: usize = if b.indexer_top_k < visible {
            b.indexer_top_k
        } else {
            visible
        };
        let tail: usize = (b.batch - b.logits_rows) * b.n_embd;
        let whole: usize = b.indexer_top_k / b.qsa_ratio;
        let sparse_blocks: usize = if whole >= 1 {
            whole
        } else {
            1
        };
        let index_words: usize = if index_packed_bytes <= 4 {
            1
        } else {
            (index_packed_bytes - 1) / 4 + 1
        };
        let quarter: usize = visible / 4;
        let index_blocks: usize = if b.indexer_top_k < quarter {
            b.indexer_top_k
        } else {
            quarter
        };
        let window: usize = if b.swa_window >= 1 {
            b.swa_window
        } else {
            1
        };
        let raw: usize = if visible < window {
            visible
        } else {
            window
        };
        let heavy: usize = visible / 128;
        let chosen: usize = if heavy >= index_blocks {
            heavy
        } else {
            index_blocks
        };
        let gather_rows: usize = raw + chosen;
        GraphDims {
            b,
            wide,
            hc_two,
            hc_gates,
            hc_square,
            stream_rows,
            per_layer,
            layer_rows,
            key_dim,
            key_dim2,
            value_dim,
            kda_dim,
            kda_packed,
            query_row,
            head_rows,
            index_head_rows,
            index_row,
            index_head2,
            head_dim2,
            o_row,
            max_query_row,
            max_query_row2,
            max_kv_row,
            max_kv_row2,
            max_qkv_row,
            latent_key,
            latent_head,
            latent_query_row,
            latent_out,
            visible,
            n_ff2,
            index_packed_bytes,
            sparse_end,
            rope_row,
            ple_in,
            ple_kernel,
            group_row,
            nope_dim,
            index_nope_dim,
            index_top_k,
            tail,
            sparse_rows: sparse_end - 1,
            sparse_blocks,
            index_words,
            index_blocks,
            gather_rows,
            moe_ungrouped: b.moe.without_groups(),
        }
    }
}

/// What a layer's sizes follow from.
#[derive(Clone, Copy, Debug, PartialEq, Eq, Structural)]
pub struct LayerSizes {
    pub layer: usize,
    pub head_dim: usize,
    pub n_kv: usize,
    pub n_ff: usize,
    pub rope_dim: usize,
}

/// The derived sizes of a layer.
#[derive(Clone, Copy, Debug, PartialEq, Eq, Structural)]
pub struct LayerWidths {
    /// What they follow from.
    pub b: LayerSizes,
    pub query_row: usize,
    pub kv_row: usize,
    /// Queries and keys, and queries, keys and values together.
    pub qk_row: usize,
    pub qkv_row: usize,
    /// Where keys and values begin in a joined projection.
    pub k_off: usize,
    pub v_off: usize,
    /// Queries that each stand before their gates.
    pub gated_row: usize,
    pub gated_head: usize,
    pub n_ff2: usize,
    /// Where the layer's own inputs begin among the per-layer inputs.
    pub per_layer_off: usize,
}

impl LayerSizes {
    pub open spec fn query_row(self, g: GraphSizes) -> int {
        g.n_head * self.head_dim
    }

    pub open spec fn kv_row(self) -> int {
        self.n_kv * self.head_dim
    }

    /// Every derived size fits the machine.
    pub open spec fn fits(self, g: GraphSizes) -> bool {
        let q = self.query_row(g);
        let k = self.kv_row();
        &&& q <= usize::MAX
        &&& k <= usize::MAX
        &&& q + 2 * k <= usize::MAX
        &&& 0 <= q * g.n_embd <= usize::MAX
        &&& 0 <= (q + k) * g.n_embd <= usize::MAX
        &&& 2 * q <= usize::MAX
        &&& 2 * self.head_dim <= usize::MAX
        &&& 2 * self.n_ff <= usize::MAX
        &&& self.layer * g.n_embd_per_layer <= usize::MAX
    }

    /// The derived sizes.
    pub open spec fn derived(self, g: GraphSizes) -> LayerWidths {
        let q = self.query_row(g);
        let k = self.kv_row();
        LayerWidths {
            b: self,
            query_row: q as usize,
            kv_row: k as usize,
            qk_row: (q + k) as usize,
            qkv_row: (q + 2 * k) as usize,
            k_off: (q * g.n_embd) as usize,
            v_off: ((q + k) * g.n_embd) as usize,
            gated_row: (2 * q) as usize,
            gated_head: (2 * self.head_dim) as usize,
            n_ff2: (2 * self.n_ff) as usize,
            per_layer_off: (self.layer * g.n_embd_per_layer) as usize,
        }
    }

    /// See [`LayerSizes::derived`].
    pub fn dims(&self, g: &GraphSizes) -> (d: LayerWidths)
        requires
            self.fits(*g),
        ensures
            d == self.derived(*g),
    {
        let query_row: usize = g.n_head * self.head_dim;
        let kv_row: usize = self.n_kv * self.head_dim;
        LayerWidths {
            b: *self,
            query_row,
            kv_row,
            qk_row: query_row + kv_row,
            qkv_row: query_row + 2 * kv_row,
            k_off: query_row * g.n_embd,
            v_off: (query_row + kv_row) * g.n_embd,
            gated_row: 2 * query_row,
            gated_head: 2 * self.head_dim,
            n_ff2: 2 * self.n_ff,
            per_layer_off: self.layer * g.n_embd_per_layer,
        }
    }
}

} // verus!
