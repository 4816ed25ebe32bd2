//! How each layer of a graph is built: its mask, its scales, its caches and what it selects.

use crate::attention_plan::{
    attn_mask, canvas_low, compressed_selected, compressed_step, compressed_visible, sparse_plan,
    sparse_step, sparse_threshold, AttnMask, CompressedStep, Reach, SparseStep,
};
use crate::graph_attention::{LayerPlan, SparseLayer};
use crate::graph_build::LayerGraph;
use crate::graph_dims::{GraphSizes, LayerSizes, LayerWidths};
use crate::graph_mixers::{Attend, Caches, CompressedLayout};
use crate::graph_ops::{Clamp, Scalar, Theta};
use crate::graph_scratch::SparseScratch;
use crate::prompt::min;
use crate::weight_handles::{LayerW, MixerW};
use crate::weight_plan::TensorId;
use vstd::prelude::*;

verus! {

/// What is known of a model, for all its layers.
#[derive(Clone, Copy, Debug, PartialEq, Eq, Structural)]
pub struct ModelFacts {
    pub gemma: bool,
    pub gemma4: bool,
    pub deepseek4: bool,
    pub bailingmoe3: bool,
    /// Queries stand before their gates.
    pub attn_out_gate: bool,
    pub fuse_qkv: bool,
    /// The graph is that of a canvas.
    pub canvas: bool,
    pub swa_window: usize,
    pub rope_freqs: Option<TensorId>,
    pub qk_ones: Option<usize>,
    pub v_ones: Option<usize>,
    /// The joined projection of several rows.
    pub qkv: Option<TensorId>,
    pub sparse: Option<SparseScratch>,
}

/// What is known of one layer.
#[derive(Clone, Copy, Debug, PartialEq, Eq, Structural)]
pub struct LayerFacts {
    pub sizes: LayerSizes,
    pub swa: bool,
    pub nope: bool,
    pub own_kv: bool,
    pub own: Caches,
    /// The caches that are read: the layer's own, or an earlier layer's.
    pub src: Caches,
    pub raw: Option<TensorId>,
    pub block: Option<TensorId>,
    pub ratio: usize,
    pub layout: CompressedLayout,
    /// The file holds a scale for the layer's output.
    pub prompt_scale: bool,
    pub canvas_scale: bool,
    pub selected: Option<TensorId>,
}

impl ModelFacts {
    /// The layer looks at a window only.
    pub open spec fn slides(self, l: LayerFacts) -> bool {
        (self.gemma || self.deepseek4) && l.swa
    }

    pub open spec fn mask(self, l: LayerFacts, start_pos: usize) -> AttnMask {
        if self.canvas {
            AttnMask::Canvas {
                lo: if self.slides(l) {
                    canvas_low(self.swa_window as int, start_pos as int) as usize
                } else {
                    0
                },
            }
        } else if self.slides(l) {
            AttnMask::SlidingWindow(self.swa_window)
        } else {
            AttnMask::Causal
        }
    }

    pub open spec fn attend(self, l: LayerFacts, start_pos: usize) -> Attend {
        Attend {
            mask: self.mask(l, start_pos),
            scale: if self.gemma4 {
                Scalar::One
            } else {
                Scalar::InvSqrt(l.sizes.head_dim)
            },
            theta: Theta::Layer(l.sizes.layer),
        }
    }

    /// The scale of the layer's output, where the file holds one.
    pub open spec fn out_scale(self, l: LayerFacts) -> Option<Scalar> {
        if self.canvas {
            if l.canvas_scale {
                Some(Scalar::CanvasScale(l.sizes.layer))
            } else {
                None
            }
        } else if l.prompt_scale {
            Some(Scalar::PromptScale(l.sizes.layer))
        } else {
            None
        }
    }
}

/// The parts of a block-sparse layer, where it is one.
pub open spec fn sparse_layer(m: ModelFacts, l: LayerFacts, w: LayerW) -> Option<SparseLayer> {
    match (w.mixer, m.sparse, l.raw, l.block) {
        (MixerW::Attn(a), Some(s), Some(raw), Some(block)) => match a.qsa {
            Some(qsa) => Some(SparseLayer { s, w: qsa, raw, block }),
            None => None,
        },
        _ => None,
    }
}

/// How a layer attends.
pub open spec fn layer_plan(
    m: ModelFacts,
    l: LayerFacts,
    w: LayerW,
    g: GraphSizes,
    reach: Reach,
) -> LayerPlan {
    LayerPlan {
        nope: l.nope,
        own_kv: l.own_kv,
        own: l.own,
        src: l.src,
        attend: m.attend(l, g.start_pos),
        freq_factors: if m.gemma4 && !m.slides(l) {
            m.rope_freqs
        } else {
            None
        },
        l2norm: if l.nope {
            None
        } else {
            m.qk_ones
        },
        v_ones: m.v_ones,
        fused: m.fuse_qkv,
        gated: m.attn_out_gate,
        qkv: m.qkv,
        visible: reach.visible,
        step: sparse_plan(
            sparse_layer(m, l, w) is Some,
            g.batch as int,
            reach,
            g.start_pos as int,
            g.indexer_top_k as int,
            g.qsa_ratio as int,
        ),
    }
}

/// The compressed rows of a layer after the batch's token; nothing where the layer's attention is of
/// another kind.
pub open spec fn layer_step(l: LayerFacts, w: LayerW, g: GraphSizes, step: CompressedStep) -> bool {
    if w.mixer is Dsv4 {
        &&& step.raw_row == g.start_pos as int % l.layout.raw_rows as int
        &&& step.block_row == (if l.ratio != 0 && (g.start_pos + 1) % (l.ratio as int) == 0 {
            Some((g.start_pos / l.ratio) as usize)
        } else {
            None
        })
        &&& step.visible == compressed_visible(g.start_pos as int, l.ratio as int)
        &&& step.selected == compressed_selected(
            step.visible as int,
            l.ratio as int,
            g.indexer_top_k as int,
        )
        &&& step.scored == (l.ratio == 4 && step.visible > g.indexer_top_k)
        &&& step.gathered == min(g.start_pos + 1, l.layout.raw_rows as int) + step.selected
    } else {
        step == (CompressedStep {
            raw_row: 0,
            block_row: None,
            visible: 0,
            selected: 0,
            scored: false,
            gathered: 0,
        })
    }
}

/// What the machine's words and the kernels ask of a layer: a batch does not cross the point where
/// selection begins, and a selection is not empty.
pub open spec fn plannable(
    m: ModelFacts,
    l: LayerFacts,
    w: LayerW,
    g: GraphSizes,
    reach: Reach,
) -> bool {
    let indexed = sparse_layer(m, l, w) is Some;
    let threshold = sparse_threshold(g.indexer_top_k as int, g.qsa_ratio as int);
    &&& l.sizes.fits(g)
    &&& g.qsa_ratio >= 1
    &&& g.indexer_top_k + g.qsa_ratio <= usize::MAX
    &&& indexed && reach.visible > threshold && g.batch > 1 ==> reach.start + 1 > threshold
    &&& indexed && reach.visible > threshold && g.batch <= 1 ==> (reach.visible as int
        % g.qsa_ratio as int > 0 || g.indexer_top_k >= g.qsa_ratio)
    &&& w.mixer is Dsv4 ==> l.layout.raw_rows > 0 && l.layout.raw_rows + g.start_pos < usize::MAX
}

/// Plans one layer of a graph.
pub fn plan_layer(
    m: &ModelFacts,
    l: &LayerFacts,
    w: &LayerW,
    g: &GraphSizes,
    reach: Reach,
) -> (made: LayerGraph)
    requires
        plannable(*m, *l, *w, *g, reach),
    ensures
        made.w == *w,
        made.widths == l.sizes.derived(*g),
        made.plan == layer_plan(*m, *l, *w, *g, reach),
        made.sparse == sparse_layer(*m, *l, *w),
        made.caches == l.own,
        made.ratio == l.ratio,
        made.layout == l.layout,
        layer_step(*l, *w, *g, made.compressed),
        made.clamp_routed == (if m.deepseek4 || m.bailingmoe3 {
            Clamp::Routed(l.sizes.layer)
        } else {
            Clamp::Off
        }),
        made.clamp_shared == (if m.deepseek4 || m.bailingmoe3 {
            Clamp::Shared(l.sizes.layer)
        } else {
            Clamp::Off
        }),
        made.selected == l.selected,
        made.scale == m.out_scale(*l),
{
    let layer: usize = l.sizes.layer;
    let slides: bool = (m.gemma || m.deepseek4) && l.swa;
    let sparse: Option<SparseLayer> = match (&w.mixer, m.sparse, l.raw, l.block) {
        (MixerW::Attn(a), Some(s), Some(raw), Some(block)) => match a.qsa {
            Some(qsa) => Some(SparseLayer { s, w: qsa, raw, block }),
            None => None,
        },
        _ => None,
    };
    let attend: Attend = Attend {
        mask: attn_mask(m.canvas, slides, m.swa_window, g.start_pos),
        scale: if m.gemma4 {
            Scalar::One
        } else {
            Scalar::InvSqrt(l.sizes.head_dim)
        },
        theta: Theta::Layer(layer),
    };
    let step: SparseStep = sparse_step(
        sparse.is_some(),
        g.batch,
        reach,
        g.start_pos,
        g.indexer_top_k,
        g.qsa_ratio,
    );
    let plan: LayerPlan = LayerPlan {
        nope: l.nope,
        own_kv: l.own_kv,
        own: l.own,
        src: l.src,
        attend,
        freq_factors: if m.gemma4 && !slides {
            m.rope_freqs
        } else {
            None
        },
        l2norm: if l.nope {
            None
        } else {
            m.qk_ones
        },
        v_ones: m.v_ones,
        fused: m.fuse_qkv,
        gated: m.attn_out_gate,
        qkv: m.qkv,
        visible: reach.visible,
        step,
    };
    let compressed: CompressedStep = match &w.mixer {
        MixerW::Dsv4(_) => compressed_step(
            g.start_pos,
            l.ratio,
            g.indexer_top_k,
            l.layout.raw_rows,
        ),
        _ => CompressedStep {
            raw_row: 0,
            block_row: None,
            visible: 0,
            selected: 0,
            scored: false,
            gathered: 0,
        },
    };
    let clamped: bool = m.deepseek4 || m.bailingmoe3;
    let scale: Option<Scalar> = if m.canvas {
        if l.canvas_scale {
            Some(Scalar::CanvasScale(layer))
        } else {
            None
        }
    } else if l.prompt_scale {
        Some(Scalar::PromptScale(layer))
    } else {
        None
    };
    let widths: LayerWidths = l.sizes.dims(g);
    LayerGraph {
        w: *w,
        widths,
        plan,
        sparse,
        caches: l.own,
        ratio: l.ratio,
        layout: l.layout,
        compressed,
        clamp_routed: if clamped {
            Clamp::Routed(layer)
        } else {
            Clamp::Off
        },
        clamp_shared: if clamped {
            Clamp::Shared(layer)
        } else {
            Clamp::Off
        },
        selected: l.selected,
        scale,
    }
}

} // verus!
