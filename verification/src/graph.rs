//! A whole graph, from the model and the step it is built for: its tensors, its operations, and the
//! handles that a driver binds.

use crate::attention_plan::{
    default_spans, first_start, last_end, rows_below, single_rows, sparse_threshold, spans_reach,
    Reach,
};
use crate::bindings::DecodeHandles;
use crate::config::{Config, DType};
use crate::flow_build::{
    bound, frame_fits, input_if as known_if, law_a_graph_reads_only_what_is_there, layer_bound,
    layer_fits,
};
use crate::graph_build::{
    emit_graph, graph_ops, prefetch_hints, runs_bank, span_hints, Emitted, Frame, GraphFlags,
    LayerGraph, PrefetchHint, Results,
};
use crate::graph_dims::{GraphDims, GraphSizes, LayerSizes};
use crate::graph_flow::{has, sound};
use crate::graph_inputs::{
    cache_base, caches_below, declare_inputs, declares, input_decls, layer_decls, leading_decls,
    max_rope_pairs, most_pairs, needs_positions4, row_decls, weight_numbers, weights_and_soft,
    CacheDecl, CacheIds, DeclKind, GraphInputs, GraphRequest, LayerSpan, OutputIds, RowIds,
    SharedIds, TensorDecl, WeightSpec,
};
use crate::graph_layer::{
    layer_plan, layer_step, plan_layer, sparse_layer, LayerFacts, ModelFacts,
};
use crate::graph_mixers::{Caches, CompressedLayout};
use crate::graph_ops::{Clamp, Op, Sections};
use crate::graph_scratch::{
    declare_scratch, scratch_decls, scratch_end, Scratch, ScratchDecl, ScratchFlags,
};
use crate::numbering::{
    ascends, lemma_ascending_numbers_differ, lemma_ascends_join, one_listed, taken,
};
use crate::parallel_prefill::SequenceSpan;
use crate::rope::is_plain_rope;
use crate::scratch_numbers::law_scratch_tensors_have_numbers_of_their_own;
use crate::weight_handles::{
    declare_weights, declared_order, model_at, GraphWeights, HeadW, LayerW,
};
use crate::weight_names::{ModelWeight, WeightSlot};
use crate::weight_plan::{LayerShape, ModelShape, TensorId};
use vstd::prelude::*;

verus! {

/// What a graph reads of one layer besides its weights and caches.
#[derive(Clone, Copy, Debug, PartialEq, Eq, Structural)]
pub struct LayerTraits {
    pub sizes: LayerSizes,
    pub swa: bool,
    pub nope: bool,
    /// The layer whose caches are read; another one's where the layer has none of its own.
    pub kv_layer: usize,
    pub layout: CompressedLayout,
    /// The file holds a scale for the layer's output.
    pub prompt_scale: bool,
    pub canvas_scale: bool,
}

/// The sections of a rotation, each by its name.
pub open spec fn sections_of(sections: [u32; 4]) -> Sections {
    Sections {
        time: sections@[0],
        height: sections@[1],
        width: sections@[2],
        last: sections@[3],
    }
}

/// A model, as its graphs see it.
pub struct GraphModel {
    pub cfg: Config,
    pub shape: ModelShape,
    /// The sizes of the model; those of a batch are replaced by the step's.
    pub sizes: GraphSizes,
    pub layers: Vec<LayerTraits>,
    pub caches: Vec<CacheDecl>,
    /// The uploaded weights.
    pub weights: Vec<WeightSpec>,
    pub rope_sections: [u32; 4],
    pub softcap: bool,
    /// Queries stand before their gates.
    pub attn_out_gate: bool,
    /// The device reads a single row's linear-attention state from its convolution as it is.
    pub delta_strided: bool,
    /// The device norms and gates linear attention in one operation.
    pub delta_joined: bool,
    /// The experts of the next layer are fetched ahead.
    pub expert_prefetch: bool,
    pub max_ctx: usize,
    /// How many rotation divisors are bound, where they are.
    pub rope_freqs: Option<usize>,
    pub yarn_ff: Option<usize>,
    pub segmented: bool,
}

/// The step that a graph is built for.
#[derive(Clone, Copy)]
pub struct GraphStep<'a> {
    pub batch: usize,
    pub start_pos: usize,
    /// The rows of which logits are made.
    pub logits_rows: usize,
    /// The rows are those of a canvas.
    pub canvas: bool,
    /// The device norms the canvas, and conditions it if `Some(true)`.
    pub device_canvas: Option<bool>,
    /// The temperature of that is an input.
    pub scaled: bool,
    /// The rows that the head is applied to are read back.
    pub h_tap: bool,
    /// The device takes the likeliest token, or draws one.
    pub argmax: bool,
    pub draw: bool,
    /// The device embeds.
    pub use_ids: bool,
    /// The rows are those of independent sequences.
    pub independent: bool,
    /// Which rows are whose; `None` for one row each.
    pub spans: Option<&'a Vec<SequenceSpan>>,
    /// The layers to run; `None` for the whole model.
    pub span: Option<LayerSpan>,
    /// The positions of a request with images.
    pub mrope: Option<&'a Vec<i32>>,
    /// The rows are tokens to be verified.
    pub verify: bool,
}

impl<'a> GraphStep<'a> {
    pub open spec fn conditioned(&self) -> bool {
        self.device_canvas == Some(true)
    }

    /// Which rows are whose.
    pub open spec fn row_spans(&self) -> Seq<SequenceSpan> {
        if !self.independent {
            Seq::empty()
        } else {
            match self.spans {
                Some(spans) => spans@,
                None => single_rows(self.batch as nat, self.start_pos),
            }
        }
    }
}

impl GraphModel {
    pub open spec fn span(&self, step: GraphStep) -> LayerSpan {
        match step.span {
            Some(span) => span,
            None => LayerSpan { first: 0, end: self.cfg.layers@.len() as usize },
        }
    }

    /// Some layer of the span selects experts by token id.
    pub open spec fn hash_in(&self, span: LayerSpan) -> bool {
        exists|l: int| span.first <= l < span.end && (#[trigger] self.shape.layers@[l]).hash_moe
    }

    /// The step's graph runs layer `l`, and the layer's bank selects its experts by token id.
    pub open spec fn selects_by_id(&self, step: GraphStep, l: int) -> bool {
        let span = self.span(step);
        &&& span.first <= l < span.end
        &&& self.shape.layers@[l].hash_moe
        &&& self.shape.routed(l)
        &&& !self.shape.dual_moe
    }

    /// See [`GraphModel::selects_by_id`], layer by layer.
    pub open spec fn by_id(&self, step: GraphStep) -> Seq<bool> {
        Seq::new(self.shape.layers@.len(), |l: int| self.selects_by_id(step, l))
    }

    /// Some layer of the span has n-gram embeddings.
    pub open spec fn ple_in(&self, span: LayerSpan) -> bool {
        exists|l: int| span.first <= l < span.end && (#[trigger] self.shape.layers@[l]).ple
    }

    /// The rotated dimensions, layer by layer.
    pub open spec fn rope_dims(&self) -> Seq<usize> {
        Seq::new(self.layers@.len(), |l: int| self.layers@[l].sizes.rope_dim)
    }

    /// What the inputs of the step's graph follow from.
    pub open spec fn request(&self, step: GraphStep) -> GraphRequest {
        let span = self.span(step);
        GraphRequest {
            batch: step.batch,
            logits_rows: step.logits_rows,
            use_ids: step.use_ids,
            span: step.span,
            hash_gather: self.cfg.deepseek4 && self.hash_in(span),
            span_has_ple: self.cfg.qwen4exp && self.ple_in(span),
            positions4: match step.mrope {
                Some(table) => !is_plain_rope(
                    table@,
                    step.start_pos as int,
                    step.batch as int,
                    self.rope_sections,
                    most_pairs(
                        self.rope_dims(),
                        span.first as int,
                        span.end as int,
                        self.sizes.rope_dim,
                    ) as int,
                ),
                None => false,
            },
            history: step.mrope is Some,
            max_ctx: self.max_ctx,
            gpu_ple: self.shape.gpu_ple,
            rope_freqs: self.rope_freqs,
            yarn_ff: self.yarn_ff,
            conditioned: step.conditioned(),
            scaled: step.scaled,
        }
    }

    /// The sizes of the step's graph.
    pub open spec fn step_sizes(&self, step: GraphStep) -> GraphSizes {
        GraphSizes {
            batch: step.batch,
            start_pos: step.start_pos,
            logits_rows: step.logits_rows,
            sections: sections_of(self.rope_sections),
            ..self.sizes
        }
    }

    /// Which scratch tensors the step's graph has.
    pub open spec fn scratch_flags(&self, step: GraphStep) -> ScratchFlags {
        ScratchFlags {
            qwen4exp: self.shape.qwen4exp,
            latent: self.shape.deepseek2 || self.shape.bailingmoe3,
            deepseek32: self.shape.deepseek32,
            e2b: self.shape.e2b,
            conditioned: step.conditioned(),
            fuse_qkv: self.shape.fuse_qkv,
            fuse_gu: self.shape.fuse_gu,
            tail_only: 0 < step.logits_rows < step.batch,
        }
    }

    /// What decides between the ways the step's graph can be built.
    pub open spec fn flags(&self, step: GraphStep) -> GraphFlags {
        GraphFlags {
            gemma: self.shape.gemma,
            qwen4exp: self.shape.qwen4exp,
            deepseek4: self.shape.deepseek4,
            delta_strided: self.delta_strided && step.batch == 1,
            delta_joined: self.delta_joined,
            first: self.span(step).first == 0,
            last: self.span(step).end == self.cfg.layers@.len(),
            canvas: step.device_canvas,
            pl_gathered: step.use_ids && self.shape.gpu_ple,
            softcap: self.softcap,
        }
    }

    /// The flags of the model and of its layers do not contradict each other.
    pub open spec fn agrees(&self) -> bool {
        let n = self.cfg.layers@.len();
        let g = self.sizes;
        &&& n <= usize::MAX
        &&& self.shape.layers@.len() == n
        &&& self.layers@.len() == n
        &&& self.caches@.len() == n
        &&& self.sizes.n_layer == n
        &&& self.weights@.len() == declared_order(self.shape).len()
        &&& self.shape.consistent()
        &&& self.shape.qwen4exp == self.cfg.qwen4exp
        &&& self.shape.deepseek4 == self.cfg.deepseek4
        &&& self.shape.e2b == (self.cfg.n_embd_per_layer > 0)
        &&& self.sizes.n_embd == self.cfg.n_embd
        &&& self.sizes.vocab == self.cfg.vocab
        &&& self.sizes.hc_mult == self.cfg.hc_mult
        &&& self.shape.deepseek32 ==> !self.shape.is_lite && self.sizes.indexer_head_size
            > self.sizes.qk_rope_dim
        &&& self.shape.deepseek4 ==> self.sizes.hc_mult > 0 && self.sizes.o_group_count > 0
        &&& self.shape.deepseek2 || self.shape.bailingmoe3 ==> g.latent_query_row() > 0
            && g.latent_key() > 0
        &&& self.attn_out_gate ==> !self.shape.fuse_qkv && !self.shape.qkv_bias
            && self.shape.qk_norm
        &&& forall|l: int| 0 <= l < n ==> #[trigger] self.layer_agrees(l)
    }

    pub open spec fn layer_agrees(&self, l: int) -> bool {
        let layer = self.shape.layers@[l];
        &&& self.layers@[l].kv_layer < self.layers@.len()
        &&& layer.ple ==> self.shape.qwen4exp
        &&& layer.mla ==> self.shape.deepseek2 || self.shape.bailingmoe3
        &&& self.shape.qwen4exp && layer.hybrid_attention ==> self.caches@[l].qsa_raw is Some
            && self.caches@[l].qsa_block is Some
    }

    /// The step is one that the model's graphs can run: a canvas is made on the device only by models
    /// that have its weights, ids are embedded only where the table is uploaded, one architecture runs
    /// one row at a time, and independent sequences cover the batch.
    pub open spec fn runs(&self, step: GraphStep) -> bool {
        &&& self.request(step).valid(self.cfg)
        &&& self.shape.deepseek4 ==> step.batch == 1
        &&& step.use_ids ==> self.shape.gpu_embed
        &&& step.device_canvas is Some ==> self.shape.dual_moe
        &&& step.conditioned() ==> self.shape.diffusion_gemma
        &&& rows_below(step.row_spans(), step.row_spans().len()) == step.batch || !step.independent
    }

    /// The sizes of the step's graph fit the machine.
    pub open spec fn countable(&self, step: GraphStep) -> bool {
        let g = self.step_sizes(step);
        let r = self.request(step);
        let d = g.derived();
        &&& g.fits()
        &&& r.countable(self.cfg)
        &&& step.conditioned() ==> self.cfg.vocab * self.cfg.n_embd <= usize::MAX
        &&& leading_decls(self.cfg, r).len() + caches_below(self.caches@, self.caches@.len()).len()
            + self.weights@.len() + self.cfg.layers@.len() + 110 < usize::MAX
        &&& g.o_group_count * g.o_lora_rank * d.group_row <= usize::MAX
        &&& step.start_pos + step.batch <= usize::MAX
        &&& forall|i: int|
            0 <= i < step.row_spans().len() ==> (#[trigger] step.row_spans()[i]).start_pos
                + step.row_spans()[i].rows <= usize::MAX
    }

    /// The positions that the step reaches.
    pub open spec fn reach(&self, step: GraphStep) -> Reach {
        let spans = step.row_spans();
        if spans.len() == 0 {
            Reach { visible: (step.start_pos + step.batch) as usize, start: step.start_pos }
        } else {
            Reach {
                visible: last_end(spans, spans.len()) as usize,
                start: first_start(spans, spans.len()) as usize,
            }
        }
    }

    /// The layer keeps what block-sparse attention selects by.
    pub open spec fn indexed(&self, l: int) -> bool {
        self.shape.qwen4exp && self.shape.layers@[l].hybrid_attention && self.caches@[l].qsa_raw
            is Some && self.caches@[l].qsa_block is Some
    }

    /// What the machine's words and the kernels ask of the step in layer `l`.
    pub open spec fn plans(&self, step: GraphStep, l: int) -> bool {
        let g = self.step_sizes(step);
        let reach = self.reach(step);
        let t = self.layers@[l];
        let threshold = sparse_threshold(g.indexer_top_k as int, g.qsa_ratio as int);
        &&& t.sizes.fits(g)
        &&& g.indexer_top_k + g.qsa_ratio <= usize::MAX
        &&& self.indexed(l) && reach.visible > threshold && g.batch > 1 ==> reach.start + 1
            > threshold
        &&& self.indexed(l) && reach.visible > threshold && g.batch <= 1 ==> (
        reach.visible as int % g.qsa_ratio as int > 0 || g.indexer_top_k >= g.qsa_ratio)
        &&& self.shape.deepseek4 ==> t.layout.raw_rows > 0 && t.layout.raw_rows + g.start_pos
            < usize::MAX
    }

    fn layer_span(&self, step: &GraphStep) -> (span: LayerSpan)
        ensures
            span == self.span(*step),
    {
        match step.span {
            Some(span) => span,
            None => LayerSpan { first: 0, end: self.cfg.layers.len() },
        }
    }

    fn any_hash(&self, span: LayerSpan) -> (any: bool)
        requires
            span.first <= span.end <= self.shape.layers@.len(),
        ensures
            any == self.hash_in(span),
    {
        let mut l: usize = span.first;
        while l < span.end
            invariant
                span.first <= l <= span.end <= self.shape.layers@.len(),
                forall|k: int|
                    span.first <= k < l ==> !(#[trigger] self.shape.layers@[k]).hash_moe,
            decreases span.end - l,
        {
            if self.shape.layers[l].hash_moe {
                return true;
            }
            l = l + 1;
        }
        false
    }

    fn any_ple(&self, span: LayerSpan) -> (any: bool)
        requires
            span.first <= span.end <= self.shape.layers@.len(),
        ensures
            any == self.ple_in(span),
    {
        let mut l: usize = span.first;
        while l < span.end
            invariant
                span.first <= l <= span.end <= self.shape.layers@.len(),
                forall|k: int| span.first <= k < l ==> !(#[trigger] self.shape.layers@[k]).ple,
            decreases span.end - l,
        {
            if self.shape.layers[l].ple {
                return true;
            }
            l = l + 1;
        }
        false
    }

    fn selecting(&self, step: &GraphStep) -> (by_id: Vec<bool>)
        ensures
            by_id@ == self.by_id(*step),
    {
        let span: LayerSpan = self.layer_span(step);
        let mut by_id: Vec<bool> = Vec::new();
        let n: usize = self.shape.layers.len();
        let mut l: usize = 0;
        while l < n
            invariant
                l <= n == self.shape.layers@.len(),
                span == self.span(*step),
                by_id@ == self.by_id(*step).take(l as int),
            decreases n - l,
        {
            let layer: LayerShape = self.shape.layers[l];
            by_id.push(
                span.first <= l && l < span.end && layer.hash_moe && self.shape.moe && layer.moe
                    && !self.shape.dual_moe,
            );
            l = l + 1;
            assert(by_id@ =~= self.by_id(*step).take(l as int));
        }
        assert(by_id@ =~= self.by_id(*step));
        by_id
    }

    fn rotated(&self) -> (dims: Vec<usize>)
        ensures
            dims@ == self.rope_dims(),
    {
        let mut dims: Vec<usize> = Vec::new();
        let mut l: usize = 0;
        while l < self.layers.len()
            invariant
                l <= self.layers@.len(),
                dims@ == self.rope_dims().take(l as int),
            decreases self.layers@.len() - l,
        {
            dims.push(self.layers[l].sizes.rope_dim);
            l = l + 1;
            assert(dims@ =~= self.rope_dims().take(l as int));
        }
        assert(dims@ =~= self.rope_dims());
        dims
    }

    /// See [`GraphModel::request`].
    pub fn graph_request(&self, step: &GraphStep) -> (r: GraphRequest)
        requires
            self.shape.layers@.len() == self.cfg.layers@.len(),
            self.layers@.len() == self.cfg.layers@.len(),
            self.span(*step).first <= self.span(*step).end <= self.cfg.layers@.len(),
        ensures
            r == self.request(*step),
    {
        let span: LayerSpan = self.layer_span(step);
        let dims: Vec<usize> = self.rotated();
        let pairs: usize = max_rope_pairs(&dims, span, self.sizes.rope_dim);
        let conditioned: bool = matches!(step.device_canvas, Some(true));
        GraphRequest {
            batch: step.batch,
            logits_rows: step.logits_rows,
            use_ids: step.use_ids,
            span: step.span,
            hash_gather: self.cfg.deepseek4 && self.any_hash(span),
            span_has_ple: self.cfg.qwen4exp && self.any_ple(span),
            positions4: needs_positions4(
                step.mrope,
                step.start_pos,
                step.batch,
                self.rope_sections,
                pairs,
            ),
            history: step.mrope.is_some(),
            max_ctx: self.max_ctx,
            gpu_ple: self.shape.gpu_ple,
            rope_freqs: self.rope_freqs,
            yarn_ff: self.yarn_ff,
            conditioned,
            scaled: step.scaled,
        }
    }
}

/// The elements of a vector of ones that stands in for a weight: as wide as what is normed with it.
pub fn ones_elems(weight: ModelWeight, g: &GraphSizes) -> (elems: Option<usize>)
    requires
        g.wide() <= usize::MAX,
    ensures
        elems == (match weight {
            ModelWeight::VOnes => Some(g.max_head_dim),
            ModelWeight::RouterOnes => Some(g.n_embd),
            ModelWeight::QkOnes => Some(g.head_dim),
            ModelWeight::HcOnes => Some(g.wide() as usize),
            ModelWeight::QwenHcOnes => Some(g.n_embd),
            _ => None,
        }),
{
    match weight {
        ModelWeight::VOnes => Some(g.max_head_dim),
        ModelWeight::RouterOnes => Some(g.n_embd),
        ModelWeight::QkOnes => Some(g.head_dim),
        ModelWeight::HcOnes => Some(g.hc_mult * g.n_embd),
        ModelWeight::QwenHcOnes => Some(g.n_embd),
        _ => None,
    }
}

/// The numbers of a graph's results. The logits stand before the scratch, at `first`; the others
/// behind it, from `behind` on.
pub open spec fn results_at(step: GraphStep, first: int, behind: int) -> Results {
    let next = behind + if step.h_tap {
        1int
    } else {
        0
    };
    if step.logits_rows == 0 {
        Results { logits: None, rows: None, token: None, uniform: None }
    } else {
        Results {
            logits: Some(first as usize),
            rows: if step.h_tap {
                Some(behind as usize)
            } else {
                None
            },
            token: if step.argmax {
                Some(next as usize)
            } else if step.draw {
                Some((next + 1) as usize)
            } else {
                None
            },
            uniform: if !step.argmax && step.draw {
                Some(next as usize)
            } else {
                None
            },
        }
    }
}

fn number_results(step: &GraphStep, first: usize, behind: usize) -> (r: Results)
    requires
        behind + 3 <= usize::MAX,
    ensures
        r == results_at(*step, first as int, behind as int),
{
    if step.logits_rows == 0 {
        return Results { logits: None, rows: None, token: None, uniform: None };
    }
    let next: usize = if step.h_tap {
        behind + 1
    } else {
        behind
    };
    Results {
        logits: Some(first),
        rows: if step.h_tap {
            Some(behind)
        } else {
            None
        },
        token: if step.argmax {
            Some(next)
        } else if step.draw {
            Some(next + 1)
        } else {
            None
        },
        uniform: if !step.argmax && step.draw {
            Some(next)
        } else {
            None
        },
    }
}

/// Which rows are whose, and the positions that they reach.
fn reach_rows(m: &GraphModel, step: &GraphStep) -> (made: (Vec<SequenceSpan>, Reach))
    requires
        step.start_pos + step.batch <= usize::MAX,
        forall|i: int|
            0 <= i < step.row_spans().len() ==> (#[trigger] step.row_spans()[i]).start_pos
                + step.row_spans()[i].rows <= usize::MAX,
    ensures
        made.0@ == step.row_spans(),
        made.1 == m.reach(*step),
{
    let mut rows: Vec<SequenceSpan> = Vec::new();
    if step.independent {
        match step.spans {
            Some(given) => {
                let mut i: usize = 0;
                while i < given.len()
                    invariant
                        i <= given@.len(),
                        rows@ == given@.take(i as int),
                    decreases given@.len() - i,
                {
                    rows.push(given[i]);
                    i = i + 1;
                    assert(rows@ =~= given@.take(i as int));
                }
                assert(rows@ =~= given@);
            },
            None => {
                rows = default_spans(step.batch, step.start_pos);
            },
        }
    }
    assert(rows@ =~= step.row_spans());
    let reach: Reach = spans_reach(&rows, step.batch, step.start_pos);
    (rows, reach)
}

/// The tensors of a graph.
pub struct Tensors {
    /// Inputs and weights, by number.
    pub decls: Vec<TensorDecl>,
    /// The scratch, numbered from `base` on.
    pub scratch: Vec<ScratchDecl>,
    pub base: usize,
    pub results: Results,
    /// The handles that a driver binds.
    pub handles: DecodeHandles,
    pub rows: RowIds,
    pub shared: SharedIds,
    /// The soft embedding of a conditioned canvas.
    pub soft: Option<TensorId>,
    pub ids: Scratch,
    pub dims: GraphDims,
    pub head: HeadW,
    /// The weights of all layers of the model.
    pub layers: Vec<LayerW>,
    /// Which rows are whose, where they are those of independent sequences.
    pub spans: Vec<SequenceSpan>,
    pub reach: Reach,
}

/// A graph, and what a driver needs to run it.
pub struct Graph {
    pub tensors: Tensors,
    pub ops: Vec<Op>,
    /// The operation that runs each layer's routed bank.
    pub sources: Vec<Option<usize>>,
    pub hints: Vec<PrefetchHint>,
    pub layers: Vec<LayerGraph>,
    /// The rows are those of independent sequences, or tokens to be verified.
    pub independent: bool,
    pub verify: bool,
    /// No step of the graph may be recorded and replayed.
    pub no_replay: bool,
}

/// The layer's caches, by number.
pub open spec fn cache_pair(h: DecodeHandles, l: int) -> Caches {
    Caches { k: h.k_cache@[l], v: h.v_cache@[l] }
}

/// The numbers of a graph's caches.
pub open spec fn cache_ids(h: DecodeHandles) -> CacheIds {
    CacheIds {
        k: h.k_cache,
        v: h.v_cache,
        qsa_raw: h.qsa_k_cache,
        qsa_block: h.qsa_block_cache,
    }
}

impl GraphModel {
    /// What the layers of the step's graph are planned from.
    pub open spec fn facts(&self, step: GraphStep, head: HeadW, shared: SharedIds, s: Scratch) ->
        ModelFacts {
        ModelFacts {
            gemma: self.shape.gemma,
            gemma4: self.shape.gemma4,
            deepseek4: self.shape.deepseek4,
            bailingmoe3: self.shape.bailingmoe3,
            attn_out_gate: self.attn_out_gate,
            fuse_qkv: self.shape.fuse_qkv,
            canvas: step.canvas,
            swa_window: self.cfg.swa_window,
            rope_freqs: shared.rope_freqs,
            qk_ones: head.qk_ones,
            v_ones: head.v_ones,
            qkv: s.qkv,
            sparse: s.sparse,
        }
    }

    /// What layer `l` is planned from.
    pub open spec fn layer_facts(&self, l: int, h: DecodeHandles, s: Scratch) -> LayerFacts {
        let t = self.layers@[l];
        LayerFacts {
            sizes: t.sizes,
            swa: t.swa,
            nope: t.nope,
            own_kv: t.kv_layer == l,
            own: cache_pair(h, l),
            src: cache_pair(h, t.kv_layer as int),
            raw: h.qsa_k_cache@[l],
            block: h.qsa_block_cache@[l],
            ratio: self.shape.layers@[l].compress_ratio,
            layout: t.layout,
            prompt_scale: t.prompt_scale,
            canvas_scale: t.canvas_scale,
            selected: s.selected@[l],
        }
    }

    /// The layer's graph is the one planned from these facts.
    pub open spec fn planned(
        &self,
        step: GraphStep,
        m: ModelFacts,
        l: LayerFacts,
        w: LayerW,
        g: LayerGraph,
    ) -> bool {
        let sizes = self.step_sizes(step);
        &&& g.w == w
        &&& g.widths == l.sizes.derived(sizes)
        &&& g.plan == layer_plan(m, l, w, sizes, self.reach(step))
        &&& g.sparse == sparse_layer(m, l, w)
        &&& g.caches == l.own
        &&& g.ratio == l.ratio
        &&& g.layout == l.layout
        &&& layer_step(l, w, sizes, g.compressed)
        &&& g.clamp_routed == (if m.deepseek4 || m.bailingmoe3 {
            Clamp::Routed(l.sizes.layer)
        } else {
            Clamp::Off
        })
        &&& g.clamp_shared == (if m.deepseek4 || m.bailingmoe3 {
            Clamp::Shared(l.sizes.layer)
        } else {
            Clamp::Off
        })
        &&& g.selected == l.selected
        &&& g.scale == m.out_scale(l)
    }

    fn facts_of(&self, step: &GraphStep, head: &HeadW, shared: &SharedIds, s: &Scratch) -> (m:
        ModelFacts)
        ensures
            m == self.facts(*step, *head, *shared, *s),
    {
        ModelFacts {
            gemma: self.shape.gemma,
            gemma4: self.shape.gemma4,
            deepseek4: self.shape.deepseek4,
            bailingmoe3: self.shape.bailingmoe3,
            attn_out_gate: self.attn_out_gate,
            fuse_qkv: self.shape.fuse_qkv,
            canvas: step.canvas,
            swa_window: self.cfg.swa_window,
            rope_freqs: shared.rope_freqs,
            qk_ones: head.qk_ones,
            v_ones: head.v_ones,
            qkv: s.qkv,
            sparse: s.sparse,
        }
    }

    fn layer_facts_of(&self, l: usize, h: &DecodeHandles, s: &Scratch) -> (f: LayerFacts)
        requires
            l < self.layers@.len(),
            self.shape.layers@.len() == self.layers@.len(),
            self.layers@[l as int].kv_layer < self.layers@.len(),
            h.fits(self.layers@.len()),
            s.selected@.len() == self.layers@.len(),
        ensures
            f == self.layer_facts(l as int, *h, *s),
    {
        let t: LayerTraits = self.layers[l];
        LayerFacts {
            sizes: t.sizes,
            swa: t.swa,
            nope: t.nope,
            own_kv: t.kv_layer == l,
            own: Caches { k: h.k_cache[l], v: h.v_cache[l] },
            src: Caches { k: h.k_cache[t.kv_layer], v: h.v_cache[t.kv_layer] },
            raw: h.qsa_k_cache[l],
            block: h.qsa_block_cache[l],
            ratio: self.shape.layers[l].compress_ratio,
            layout: t.layout,
            prompt_scale: t.prompt_scale,
            canvas_scale: t.canvas_scale,
            selected: s.selected[l],
        }
    }

    /// Plans the layers of the step's span.
    fn plan_layers(&self, step: &GraphStep, t: &Tensors, m: &ModelFacts) -> (layers: Vec<
        LayerGraph,
    >)
        requires
            self.agrees(),
            self.span(*step).first <= self.span(*step).end <= self.cfg.layers@.len(),
            t.dims.b == self.step_sizes(*step),
            t.dims.b.qsa_ratio >= 1,
            t.reach == self.reach(*step),
            t.layers@.len() == self.layers@.len(),
            t.handles.fits(self.layers@.len()),
            t.ids.selected@.len() == self.layers@.len(),
            forall|l: int|
                self.span(*step).first <= l < self.span(*step).end ==> #[trigger] self.plans(
                    *step,
                    l,
                ),
            forall|l: int|
                0 <= l < self.layers@.len() ==> (sparse_layer(
                    *m,
                    self.layer_facts(l, t.handles, t.ids),
                    #[trigger] t.layers@[l],
                ) is Some ==> self.indexed(l)),
            forall|l: int|
                0 <= l < self.layers@.len() ==> ((#[trigger] t.layers@[l]).mixer is Dsv4
                    ==> self.shape.deepseek4),
        ensures
            layers@.len() == self.span(*step).end - self.span(*step).first,
            forall|k: int|
                0 <= k < layers@.len() ==> self.planned(
                    *step,
                    *m,
                    self.layer_facts(self.span(*step).first + k, t.handles, t.ids),
                    t.layers@[self.span(*step).first + k],
                    #[trigger] layers@[k],
                ),
    {
        let span: LayerSpan = self.layer_span(step);
        let mut layers: Vec<LayerGraph> = Vec::new();
        let mut l: usize = span.first;
        while l < span.end
            invariant
                self.agrees(),
                span == self.span(*step),
                span.first <= l <= span.end <= self.cfg.layers@.len(),
                t.dims.b == self.step_sizes(*step),
                t.dims.b.qsa_ratio >= 1,
                t.reach == self.reach(*step),
                t.layers@.len() == self.layers@.len(),
                t.handles.fits(self.layers@.len()),
                t.ids.selected@.len() == self.layers@.len(),
                forall|j: int| span.first <= j < span.end ==> #[trigger] self.plans(*step, j),
                forall|j: int|
                    0 <= j < self.layers@.len() ==> (sparse_layer(
                        *m,
                        self.layer_facts(j, t.handles, t.ids),
                        #[trigger] t.layers@[j],
                    ) is Some ==> self.indexed(j)),
                forall|j: int|
                    0 <= j < self.layers@.len() ==> ((#[trigger] t.layers@[j]).mixer is Dsv4
                        ==> self.shape.deepseek4),
                layers@.len() == l - span.first,
                forall|k: int|
                    0 <= k < layers@.len() ==> self.planned(
                        *step,
                        *m,
                        self.layer_facts(span.first + k, t.handles, t.ids),
                        t.layers@[span.first + k],
                        #[trigger] layers@[k],
                    ),
            decreases span.end - l,
        {
            assert(self.layer_agrees(l as int));
            assert(self.plans(*step, l as int));
            let f: LayerFacts = self.layer_facts_of(l, &t.handles, &t.ids);
            layers.push(plan_layer(m, &f, &t.layers[l], &t.dims.b, t.reach));
            l = l + 1;
        }
        layers
    }
}

impl Tensors {
    /// What a driver binds before the graph is run: the declared inputs, and the uniform draw.
    pub open spec fn inputs(&self) -> Set<TensorId> {
        Set::new(
            |t: TensorId|
                (t < self.decls@.len() && self.decls@[t as int].kind == DeclKind::Input)
                    || self.results.uniform == Some(t),
        )
    }

    /// What the graph's layers share.
    pub open spec fn frame(&self, m: GraphModel, step: GraphStep) -> Frame {
        Frame {
            d: self.dims,
            s: &self.ids,
            i: self.rows,
            h: self.shared,
            head: self.head,
            f: m.flags(step),
        }
    }
}

/// Where the soft embedding of a conditioned canvas stands among the weights: behind the weights of
/// its conditioning.
pub open spec fn soft_place(head: HeadW) -> usize {
    match head.sc_down {
        Some(id) => (id + 1) as usize,
        None => 0,
    }
}

/// A layer's cache declarations stand where its numbers say.
proof fn lemma_cache_kinds(caches: Seq<CacheDecl>, n: nat, l: int, j: int)
    requires
        n <= caches.len(),
        0 <= l < n,
        0 <= j < layer_decls(caches[l]).len(),
    ensures
        caches_below(caches, l as nat).len() + j < caches_below(caches, n).len(),
        caches_below(caches, n)[caches_below(caches, l as nat).len() + j].kind == DeclKind::Input,
    decreases n,
{
    if l < n - 1 {
        lemma_cache_kinds(caches, (n - 1) as nat, l, j);
    }
}

proof fn lemma_declared_inputs(decls: Seq<TensorDecl>)
    ensures
        forall|id: TensorId, elems: int, dtype: DType|
            #[trigger] declares(decls, id, DeclKind::Input, elems, dtype) ==> id < decls.len()
                && decls[id as int].kind == DeclKind::Input,
{
    reveal(declares);
}

/// Declaration `j` of layer `l`'s caches is an input.
proof fn lemma_cache_at(
    lead: Seq<TensorDecl>,
    caches: Seq<CacheDecl>,
    behind: Seq<TensorDecl>,
    l: int,
    j: int,
)
    requires
        0 <= l < caches.len(),
        0 <= j < layer_decls(caches[l]).len(),
    ensures
        ({
            let decls = lead + caches_below(caches, caches.len()) + behind;
            let id = cache_base(lead.len(), caches, l as nat) + j;
            id < decls.len() && decls[id].kind == DeclKind::Input
        }),
{
    lemma_cache_kinds(caches, caches.len(), l, j);
}

/// The caches of layer `l` are inputs.
proof fn lemma_caches_are_inputs(
    lead: Seq<TensorDecl>,
    caches: Seq<CacheDecl>,
    behind: Seq<TensorDecl>,
    c: CacheIds,
    l: int,
)
    requires
        c.numbered(lead.len(), caches, caches.len()),
        0 <= l < caches.len(),
    ensures
        ({
            let decls = lead + caches_below(caches, caches.len()) + behind;
            &&& c.k@[l] < decls.len() && decls[c.k@[l] as int].kind == DeclKind::Input
            &&& c.v@[l] < decls.len() && decls[c.v@[l] as int].kind == DeclKind::Input
            &&& c.qsa_raw@[l] matches Some(id) ==> id < decls.len() && decls[id as int].kind
                == DeclKind::Input
            &&& c.qsa_block@[l] matches Some(id) ==> id < decls.len() && decls[id as int].kind
                == DeclKind::Input
        }),
{
    assert(c.numbered_at(lead.len(), caches, l));
    lemma_cache_at(lead, caches, behind, l, 0);
    lemma_cache_at(lead, caches, behind, l, 1);
    if c.qsa_raw@[l] is Some {
        lemma_cache_at(lead, caches, behind, l, 2);
    }
    if c.qsa_block@[l] is Some {
        lemma_cache_at(lead, caches, behind, l, layer_decls(caches[l]).len() - 1);
    }
}

impl Tensors {
    /// The tensors are those that the model and the step call for, each under its number.
    #[verifier::opaque]
    pub open spec fn declared(&self, m: GraphModel, step: GraphStep) -> bool {
        let r = m.request(step);
        let lead = leading_decls(m.cfg, r).len();
        let caches = caches_below(m.caches@, m.caches@.len()).len();
        &&& self.decls@ == input_decls(m.cfg, r, m.caches@, m.weights@, soft_place(self.head))
        &&& self.rows == RowIds::numbered(m.cfg, r)
        &&& self.shared == SharedIds::numbered(row_decls(m.cfg, r).len() as int, m.cfg, r)
        &&& self.rows.reads(self.decls@, m.cfg, r)
        &&& self.shared.reads(self.decls@, m.cfg, r)
        &&& forall|t: TensorId|
            t < lead ==> self.rows.names(t) || #[trigger] self.shared.names(t)
        &&& cache_ids(self.handles).numbered(lead, m.caches@, m.caches@.len())
        &&& self.handles.weights@ == weight_numbers(
            lead + caches,
            m.weights@.len(),
            r.soft_place(soft_place(self.head)),
        )
        &&& self.soft == (if step.conditioned() {
            Some((lead + caches + soft_place(self.head)) as usize)
        } else {
            None
        })
        &&& self.head.reads(declared_order(m.shape), m.shape)
        &&& self.layers@.len() == m.cfg.layers@.len()
        &&& forall|l: int|
            0 <= l < self.layers@.len() ==> (#[trigger] self.layers@[l]).reads(
                declared_order(m.shape),
                m.shape,
                l,
            )
    }

    /// The scratch and the results stand behind the declared tensors.
    #[verifier::opaque]
    pub open spec fn scratched(&self, m: GraphModel, step: GraphStep) -> bool {
        let flags = m.scratch_flags(step);
        &&& self.dims == m.step_sizes(step).derived()
        &&& self.base == self.decls@.len() + (if step.logits_rows > 0 {
            1int
        } else {
            0
        })
        &&& self.scratch@ == scratch_decls(self.dims, flags, m.by_id(step))
        &&& self.ids.numbered(self.base as int, self.dims, flags, m.by_id(step))
        &&& self.base + self.scratch@.len() == scratch_end(
            self.base as int,
            self.dims,
            flags,
            m.by_id(step),
        )
        &&& self.results == results_at(
            step,
            self.decls@.len() as int,
            self.base + self.scratch@.len(),
        )
        &&& self.spans@ == step.row_spans()
        &&& self.reach == m.reach(step)
    }

    /// The handles are those of the graph's tensors; rows that the device gathers are not bound.
    #[verifier::opaque]
    pub open spec fn handed_out(&self, m: GraphModel, step: GraphStep) -> bool {
        let h = self.handles;
        &&& h.hidden == self.rows.hidden
        &&& h.positions == self.rows.positions
        &&& h.positions4 == self.rows.positions4
        &&& h.mrope_history == self.rows.mrope_history
        &&& h.rope_freqs == self.shared.rope_freqs
        &&& h.yarn_ff == self.shared.yarn_ff
        &&& h.pl_tok_in == (if step.use_ids && m.shape.gpu_ple {
            None
        } else {
            self.shared.per_layer
        })
        &&& h.logits == self.results.logits
        &&& h.h_out == self.results.rows
        &&& h.tok_ids == self.rows.tok_ids
        &&& h.u_in == self.results.uniform
        &&& h.tok_id == self.results.token
        &&& h.qwen_wide == self.rows.qwen_wide
        &&& h.ple_embd == self.rows.ple_embd
        &&& h.ple_state == self.rows.ple_state
    }
}

/// Whatever the graph's flags call for is there.
proof fn lemma_frame_fits(m: GraphModel, step: GraphStep, t: Tensors)
    requires
        m.agrees(),
        m.runs(step),
        m.countable(step),
        t.declared(m, step),
        t.scratched(m, step),
    ensures
        frame_fits(t.frame(m, step)),
{
    reveal(Tensors::declared);
    reveal(Tensors::scratched);
    t.ids.lemma_present(t.base as int, t.dims, m.scratch_flags(step), m.by_id(step));
    let x = t.frame(m, step);
    let g = m.step_sizes(step);
    assert(g.wide() == x.d.b.hc_mult * x.d.b.n_embd);
    assert(g.o_row() == x.d.b.o_group_count * x.d.b.o_lora_rank);
    assert(x.d.b.o_group_count * x.d.group_row <= usize::MAX) by {
        if g.o_group_count > 0 {
            let q = g.query_row();
            let n = g.o_group_count as int;
            assert(n * (q / n) <= q) by (nonlinear_arith)
                requires
                    n > 0,
                    q >= 0,
            ;
        } else {
            assert(g.o_group_count * x.d.group_row == 0) by (nonlinear_arith)
                requires
                    g.o_group_count == 0,
            ;
        }
    }
}

/// What the graph's blocks share is bound, or made by the graph.
proof fn lemma_bound(m: GraphModel, step: GraphStep, t: Tensors)
    requires
        m.agrees(),
        m.runs(step),
        t.declared(m, step),
    ensures
        bound(t.inputs(), t.frame(m, step)),
{
    reveal(Tensors::declared);
    lemma_declared_inputs(t.decls@);
}

/// The parts of a planned layer fit together, and its inputs are bound.
proof fn lemma_layer_fits(m: GraphModel, step: GraphStep, t: Tensors, l: int, g: LayerGraph)
    requires
        m.agrees(),
        m.runs(step),
        m.span(step).first <= l < m.span(step).end,
        t.declared(m, step),
        t.scratched(m, step),
        m.planned(
            step,
            m.facts(step, t.head, t.shared, t.ids),
            m.layer_facts(l, t.handles, t.ids),
            t.layers@[l],
            g,
        ),
    ensures
        layer_fits(t.frame(m, step), g),
        layer_bound(t.inputs(), g),
{
    reveal(Tensors::declared);
    reveal(Tensors::scratched);
    t.ids.lemma_present(t.base as int, t.dims, m.scratch_flags(step), m.by_id(step));
    let r = m.request(step);
    let lead = leading_decls(m.cfg, r);
    let behind = weights_and_soft(
        m.weights@,
        r.soft_place(soft_place(t.head)),
        (m.cfg.vocab * m.cfg.n_embd) as usize,
    );
    let c = cache_ids(t.handles);
    assert(m.layer_agrees(l));
    assert(m.shape.layer_consistent(l));
    assert(t.layers@[l].reads(declared_order(m.shape), m.shape, l));
    lemma_declared_inputs(t.decls@);
    lemma_caches_are_inputs(lead, m.caches@, behind, c, l);
    lemma_caches_are_inputs(lead, m.caches@, behind, c, m.layers@[l].kv_layer as int);
    assert(m.shape.layers@[l].hash_moe ==> m.hash_in(m.span(step)));
    assert(m.shape.layers@[l].ple ==> m.ple_in(m.span(step)));
}

/// A layer that is planned as a block-sparse one keeps what that selects by, and only one architecture
/// has compressed attention.
proof fn lemma_mixer_fits(m: GraphModel, step: GraphStep, t: Tensors, f: ModelFacts, l: int)
    requires
        m.agrees(),
        0 <= l < m.caches@.len(),
        t.declared(m, step),
    ensures
        sparse_layer(f, m.layer_facts(l, t.handles, t.ids), t.layers@[l]) is Some ==> m.indexed(l),
        t.layers@[l].mixer is Dsv4 ==> m.shape.deepseek4,
{
    reveal(Tensors::declared);
    let lead = leading_decls(m.cfg, m.request(step)).len();
    assert(cache_ids(t.handles).numbered_at(lead, m.caches@, l));
    assert(t.layers@[l].reads(declared_order(m.shape), m.shape, l));
}

/// What the layers are planned with is there.
proof fn lemma_planned_with(m: GraphModel, step: GraphStep, t: Tensors)
    requires
        m.agrees(),
        m.countable(step),
        t.declared(m, step),
        t.scratched(m, step),
    ensures
        t.dims.b == m.step_sizes(step),
        t.dims.b.qsa_ratio >= 1,
        t.reach == m.reach(step),
        t.layers@.len() == m.layers@.len(),
        t.handles.fits(m.layers@.len()),
        t.ids.selected@.len() == m.layers@.len(),
{
    reveal(Tensors::declared);
    reveal(Tensors::scratched);
    t.ids.lemma_present(t.base as int, t.dims, m.scratch_flags(step), m.by_id(step));
}

/// Results are asked for only of a graph that ends with the last layer, and the uniform draw is bound.
proof fn lemma_results(m: GraphModel, step: GraphStep, t: Tensors)
    requires
        m.runs(step),
        t.scratched(m, step),
    ensures
        t.results.logits is Some ==> m.flags(step).last,
        t.results.logits is None ==> t.results.rows is None && t.results.token is None,
        known_if(t.inputs(), t.results.uniform),
{
    reveal(Tensors::scratched);
}

impl Tensors {
    /// The numbers of the results and of the scratch, in the order of their declaration.
    pub open spec fn listed(&self, f: ScratchFlags) -> Seq<TensorId> {
        one_listed(self.results.logits) + self.ids.listed(f) + one_listed(self.results.rows)
            + one_listed(self.results.uniform) + one_listed(self.results.token)
    }
}

/// Behind the inputs and weights, no two tensors of a graph share a number: neither results nor
/// scratch tensors, but for the halves of a fused gate.
pub proof fn law_results_and_scratch_are_numbered_apart(
    m: GraphModel,
    step: GraphStep,
    t: Tensors,
)
    requires
        t.scratched(m, step),
        t.base + t.scratch@.len() + 3 <= usize::MAX,
    ensures
        ascends(
            t.listed(m.scratch_flags(step)),
            t.decls@.len() as int,
            t.base + t.scratch@.len() + 3,
        ),
        t.listed(m.scratch_flags(step)).no_duplicates(),
{
    reveal(Tensors::scratched);
    let f = m.scratch_flags(step);
    let first = t.decls@.len() as int;
    let base = t.base as int;
    let behind = base + t.scratch@.len();
    let r = t.results;
    let next = behind + taken(r.rows is Some, 1);
    let last = next + taken(r.uniform is Some, 1);
    law_scratch_tensors_have_numbers_of_their_own(t.ids, base, t.dims, f, m.by_id(step));
    let l0 = one_listed(r.logits);
    let l1 = l0 + t.ids.listed(f);
    let l2 = l1 + one_listed(r.rows);
    let l3 = l2 + one_listed(r.uniform);
    assert(ascends(l0, first, base));
    lemma_ascends_join(l0, t.ids.listed(f), first, base, behind);
    lemma_ascends_join(l1, one_listed(r.rows), first, behind, next);
    lemma_ascends_join(l2, one_listed(r.uniform), first, next, last);
    lemma_ascends_join(l3, one_listed(r.token), first, last, behind + 3);
    lemma_ascending_numbers_differ(t.listed(f), first, behind + 3);
}

/// The soft embedding stands among the weights.
proof fn lemma_soft_place(declared: Seq<WeightSlot>, m: ModelShape, head: HeadW)
    requires
        head.reads(declared, m),
    ensures
        head.sc_down matches Some(id) ==> id < declared.len(),
{
    reveal(model_at);
}

/// The numbers of inputs and weights fit the machine.
proof fn lemma_decl_count(m: GraphModel, step: GraphStep, soft_at: usize)
    requires
        m.countable(step),
        step.conditioned() ==> soft_at <= m.weights@.len(),
    ensures
        input_decls(m.cfg, m.request(step), m.caches@, m.weights@, soft_at).len()
            + m.cfg.layers@.len() + 108 < usize::MAX,
{
}

/// The scratch of a graph, and the results behind it.
struct Behind {
    dims: GraphDims,
    base: usize,
    scratch: Vec<ScratchDecl>,
    ids: Scratch,
    results: Results,
}

impl GraphModel {
    /// Declares the scratch and the results of a step's graph, behind `first` other tensors.
    fn lay_out_behind(&self, step: &GraphStep, first: usize) -> (b: Behind)
        requires
            self.shape.layers@.len() == self.cfg.layers@.len(),
            self.cfg.layers@.len() <= usize::MAX,
            self.sizes.n_layer == self.cfg.layers@.len(),
            self.step_sizes(*step).fits(),
            first + self.cfg.layers@.len() + 108 < usize::MAX,
        ensures
            b.dims == self.step_sizes(*step).derived(),
            b.base == first + (if step.logits_rows > 0 {
                1int
            } else {
                0
            }),
            b.scratch@ == scratch_decls(b.dims, self.scratch_flags(*step), self.by_id(*step)),
            b.ids.numbered(
                b.base as int,
                b.dims,
                self.scratch_flags(*step),
                self.by_id(*step),
            ),
            b.base + b.scratch@.len() == scratch_end(
                b.base as int,
                b.dims,
                self.scratch_flags(*step),
                self.by_id(*step),
            ),
            b.results == results_at(*step, first as int, b.base + b.scratch@.len()),
    {
        let sizes: GraphSizes = GraphSizes {
            batch: step.batch,
            start_pos: step.start_pos,
            logits_rows: step.logits_rows,
            sections: Sections {
                time: self.rope_sections[0],
                height: self.rope_sections[1],
                width: self.rope_sections[2],
                last: self.rope_sections[3],
            },
            ..self.sizes
        };
        let dims: GraphDims = sizes.dims();
        let base: usize = if step.logits_rows > 0 {
            first + 1
        } else {
            first
        };
        let flags: ScratchFlags = ScratchFlags {
            qwen4exp: self.shape.qwen4exp,
            latent: self.shape.deepseek2 || self.shape.bailingmoe3,
            deepseek32: self.shape.deepseek32,
            e2b: self.shape.e2b,
            conditioned: matches!(step.device_canvas, Some(true)),
            fuse_qkv: self.shape.fuse_qkv,
            fuse_gu: self.shape.fuse_gu,
            tail_only: step.logits_rows > 0 && step.logits_rows < step.batch,
        };
        let by_id: Vec<bool> = self.selecting(step);
        let (scratch, ids) = declare_scratch(base, &dims, &flags, &by_id);
        let results: Results = number_results(step, first, base + scratch.len());
        Behind { dims, base, scratch, ids, results }
    }

    /// Declares the tensors of a step's graph.
    fn lay_out(&self, step: &GraphStep) -> (t: Tensors)
        requires
            self.agrees(),
            self.runs(*step),
            self.countable(*step),
        ensures
            t.declared(*self, *step),
            t.scratched(*self, *step),
            t.handed_out(*self, *step),
    {
        let r: GraphRequest = self.graph_request(step);
        let w: GraphWeights = declare_weights(&self.shape);
        proof {
            lemma_soft_place(w.declared@, self.shape, w.head);
        }
        let soft_at: usize = match w.head.sc_down {
            Some(id) => id + 1,
            None => 0,
        };
        proof {
            lemma_decl_count(*self, *step, soft_at);
        }
        let inputs: GraphInputs = declare_inputs(
            &self.cfg,
            &r,
            &self.caches,
            &self.weights,
            soft_at,
        );
        let b: Behind = self.lay_out_behind(step, inputs.decls.len());
        let (spans, reach) = reach_rows(self, step);
        let rows: RowIds = inputs.rows;
        let shared: SharedIds = inputs.shared;
        let soft: Option<TensorId> = inputs.soft;
        let outputs: OutputIds = OutputIds {
            logits: b.results.logits,
            h_out: b.results.rows,
            u_in: b.results.uniform,
            tok_id: b.results.token,
        };
        let (decls, handles) = inputs.handles(&r, outputs);
        let t: Tensors = Tensors {
            decls,
            scratch: b.scratch,
            base: b.base,
            results: b.results,
            handles,
            rows,
            shared,
            soft,
            ids: b.ids,
            dims: b.dims,
            head: w.head,
            layers: w.layers,
            spans,
            reach,
        };
        proof {
            assert(t.declared(*self, *step)) by {
                reveal(Tensors::declared);
                let lead = leading_decls(self.cfg, r).len();
                let caches = self.caches@;
                let c = cache_ids(t.handles);
                assert forall|l: int| 0 <= l < caches.len() implies #[trigger] c.numbered_at(
                    lead,
                    caches,
                    l,
                ) by {
                    assert(inputs.caches.numbered_at(lead, caches, l));
                }
            }
            assert(t.scratched(*self, *step)) by {
                reveal(Tensors::scratched);
            }
            assert(t.handed_out(*self, *step)) by {
                reveal(Tensors::handed_out);
            }
        }
        t
    }

    /// Builds the graph of a step. No operation of it reads a tensor that is neither bound nor written
    /// by an operation before it, and the results that were asked for are written.
    pub fn build(&self, step: &GraphStep) -> (g: Graph)
        requires
            self.agrees(),
            self.runs(*step),
            self.countable(*step),
            forall|l: int|
                self.span(*step).first <= l < self.span(*step).end ==> #[trigger] self.plans(
                    *step,
                    l,
                ),
        ensures
            g.tensors.declared(*self, *step),
            g.tensors.scratched(*self, *step),
            g.tensors.handed_out(*self, *step),
            g.layers@.len() == self.span(*step).end - self.span(*step).first,
            forall|k: int|
                0 <= k < g.layers@.len() ==> self.planned(
                    *step,
                    self.facts(*step, g.tensors.head, g.tensors.shared, g.tensors.ids),
                    self.layer_facts(
                        self.span(*step).first + k,
                        g.tensors.handles,
                        g.tensors.ids,
                    ),
                    g.tensors.layers@[self.span(*step).first + k],
                    #[trigger] g.layers@[k],
                ),
            g.ops@ == graph_ops(g.tensors.frame(*self, *step), g.layers@, g.tensors.results),
            g.sources@.len() == g.layers@.len(),
            forall|k: int|
                0 <= k < g.layers@.len() ==> runs_bank(
                    g.tensors.frame(*self, *step),
                    g.layers@,
                    k,
                    #[trigger] g.sources@[k],
                ),
            g.hints@ == span_hints(
                self.expert_prefetch,
                g.tensors.dims,
                g.tensors.layers@,
                self.shape.layers@,
                self.span(*step).first as int,
                g.sources@,
            ),
            g.independent == step.independent,
            g.verify == step.verify,
            g.no_replay == (self.shape.diffusion_gemma || self.shape.qwen4exp || self.segmented),
            sound(g.tensors.inputs(), g.ops@),
            g.tensors.results.logits matches Some(t) ==> has(g.tensors.inputs(), g.ops@, t),
            g.tensors.results.rows matches Some(t) ==> has(g.tensors.inputs(), g.ops@, t),
            g.tensors.results.token matches Some(t) ==> has(g.tensors.inputs(), g.ops@, t),
    {
        let t: Tensors = self.lay_out(step);
        let facts: ModelFacts = self.facts_of(step, &t.head, &t.shared, &t.ids);
        proof {
            lemma_planned_with(*self, *step, t);
            assert forall|l: int| 0 <= l < self.layers@.len() && (sparse_layer(
                facts,
                self.layer_facts(l, t.handles, t.ids),
                #[trigger] t.layers@[l],
            ) is Some) implies self.indexed(l) by {
                lemma_mixer_fits(*self, *step, t, facts, l);
            }
            assert forall|l: int|
                0 <= l < self.layers@.len() && (#[trigger] t.layers@[l]).mixer is Dsv4 implies
                self.shape.deepseek4 by {
                lemma_mixer_fits(*self, *step, t, facts, l);
            }
        }
        let layers: Vec<LayerGraph> = self.plan_layers(step, &t, &facts);
        let span: LayerSpan = self.layer_span(step);
        let x: Frame = Frame {
            d: t.dims,
            s: &t.ids,
            i: t.rows,
            h: t.shared,
            head: t.head,
            f: GraphFlags {
                gemma: self.shape.gemma,
                qwen4exp: self.shape.qwen4exp,
                deepseek4: self.shape.deepseek4,
                delta_strided: self.delta_strided && step.batch == 1,
                delta_joined: self.delta_joined,
                first: span.first == 0,
                last: span.end == self.cfg.layers.len(),
                canvas: step.device_canvas,
                pl_gathered: step.use_ids && self.shape.gpu_ple,
                softcap: self.softcap,
            },
        };
        proof {
            lemma_frame_fits(*self, *step, t);
            lemma_bound(*self, *step, t);
            assert forall|k: int| 0 <= k < layers@.len() implies layer_fits(
                x,
                #[trigger] layers@[k],
            ) && layer_bound(t.inputs(), layers@[k]) by {
                lemma_layer_fits(*self, *step, t, span.first + k, layers@[k]);
            }
            lemma_results(*self, *step, t);
            law_a_graph_reads_only_what_is_there(t.inputs(), x, layers@, t.results);
        }
        let emitted: Emitted = emit_graph(&x, &layers, &t.results);
        let hints: Vec<PrefetchHint> = prefetch_hints(
            self.expert_prefetch,
            &t.dims,
            &t.layers,
            &self.shape.layers,
            span.first,
            &emitted.sources,
        );
        Graph {
            tensors: t,
            ops: emitted.ops,
            sources: emitted.sources,
            hints,
            layers,
            independent: step.independent,
            verify: step.verify,
            no_replay: self.shape.diffusion_gemma || self.shape.qwen4exp || self.segmented,
        }
    }
}

} // verus!
