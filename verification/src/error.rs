//! Everything that a request can be refused for.

use crate::config::DType;
use crate::segmented_kv::PlaneKind;
use crate::text::{
    digits, dtype_name, optional, plane_name, push_dtype, push_number, push_optional, push_plane,
    push_signed, push_text, signed,
};
use vstd::prelude::*;

verus! {

/// Why a request was refused or a plan could not be made.
#[derive(Clone, Copy, Debug, PartialEq, Eq, Structural)]
pub enum Error {
    /// A token id names no row of the vocabulary.
    TokenOutOfRange { id: u32, vocab: usize },
    /// A recurrent layer has no fixed K or state allocation to snapshot.
    CheckpointLayerWithoutK { layer: usize },
    /// A recurrent layer has no fixed V or state allocation to snapshot.
    CheckpointLayerWithoutV { layer: usize },
    /// A session's checkpoint was made with a model-level history and is begun without one, or the
    /// other way round.
    CheckpointPleShapeChanged,
    /// A snapshot has a model-level history to copy and no place for it, or the other way round.
    CheckpointPleSourceDiffers,
    /// A restore has a model-level history to put back and no place for it, or the other way round.
    CheckpointPleTargetDiffers,
    /// More tokens are asked for than the session has rows.
    DepthExceedsSession { tokens: usize, max_ctx: usize },
    /// A session grows lazily although its model has no lazy layout.
    SegmentedForOtherModel,
    /// A layer's raw index cache is not allocated.
    MissingQsaRaw { layer: usize },
    /// A layer's block index cache is not allocated.
    MissingQsaBlock { layer: usize },
    /// A synthetic context is deeper than the session.
    SyntheticDepthExceedsSession { tokens: usize, max_ctx: usize },
    /// A stored session can only be restored into a lazily grown slot.
    RestoreNeedsSegments,
    /// A stored session has another geometry than the slot.
    RestoreGeometryDiffers {
        stored_ctx: usize,
        slot_ctx: usize,
        stored_k: DType,
        slot_k: DType,
        stored_v: DType,
        slot_v: DType,
    },
    /// A stored session is deeper than the slot.
    RestoreDepthExceedsSlot,
    /// A stored session has a checkpoint and the slot has none, or the other way round.
    RestoreCheckpointDiffers,
    /// Only a lazily grown slot can give its memory back.
    ReleaseNeedsSegments,
    /// A layer's raw index cache to be released is not allocated.
    ReleaseMissingQsaRaw { layer: usize },
    /// A layer's block index cache to be released is not allocated.
    ReleaseMissingQsaBlock { layer: usize },
    /// A layer has no plane of the wanted kind.
    NoPlaneGeometry { layer: usize, kind: PlaneKind },
    /// A forked K buffer has another length than its source.
    ForkGeometryDiffersK { layer: usize, forked: usize, src: usize },
    /// A forked V buffer has another length than its source.
    ForkGeometryDiffersV { layer: usize, forked: usize, src: usize },
    /// A forked raw index cache differs from its source.
    ForkQsaGeometryDiffers { layer: usize, forked_len: Option<usize>, src_len: Option<usize> },
    /// A forked block index cache differs from its source.
    ForkQsaBlockGeometryDiffers { layer: usize, forked_len: Option<usize>, src_len: Option<usize> },
    /// A new slot has no K or state buffer for a layer.
    LayerKNotAllocated { layer: usize },
    /// A new slot has no V or state buffer for a layer.
    LayerVNotAllocated { layer: usize },
    /// A prompt and its answer need more rows than the session has.
    RequestExceedsSession { prompt: usize, max_new: usize, max_ctx: usize },
    /// There is nothing to generate from.
    EmptyPrompt,
    /// The model takes no multimodal positions.
    MropeUnsupported,
    /// A multimodal prompt has another number of positions than four per token.
    MropeTableLength { values: usize, tokens: usize, expected: usize },
    /// No rotary section has any width.
    MropeSectionsEmpty,
    /// An image's token range overflows.
    ImageSpanOverflows { index: usize },
    /// An image is empty, overlaps the one before, or ends past the prompt.
    InvalidImageSpan { index: usize, start: usize, end: usize, prompt_len: usize },
    /// An image has another number of embedding values than its tokens need.
    ImageSpanValues { index: usize, values: usize, expected: usize },
    /// The position of the first generated token is negative.
    NegativeDecodeBase { base: i32 },
    /// A context has more tokens past its prompt than positions can count.
    MropeContextRange,
    /// The position of a generated token overflows.
    MropeDecodeOverflow,
    /// A generated token is further past its prompt than positions can count.
    MropeDecodeRange,
    /// A prefill call brings different numbers of prompts, slots and prepared states.
    PrefillShape { prompts: usize, slots: usize, prepared: usize },
    /// The model has no parallel prefill.
    PrefillUnsupported,
    /// Parallel prefill takes no multimodal positions.
    PrefillMultimodal,
    /// A prefill request's lists do not fit together.
    PrefillLayout,
    /// A lane has no prompt.
    PrefillLaneEmpty { lane: usize },
    /// A lane's prompt needs more rows than its slot has.
    PrefillLaneExceeds { lane: usize, prompt: usize, capacity: usize },
    /// A lane got no row of a batch.
    PrefillNoProgress { lane: usize, position: usize },
    /// A token step has different numbers of positions and prompt ends.
    StepLengths { positions: usize, ends: usize },
    /// The lanes that are sampled are not the last ones.
    SamplingNotSuffix,
    /// A token step brings different numbers of prompts, ends, checkpoints, slots and samplers.
    StepShape { prompts: usize, ends: usize, checkpoints: usize, slots: usize, samplers: usize },
    /// Parallel prefill embeds tokens on the device.
    PrefillNeedsEmbedding,
    /// The model has no parallel decode.
    DecodeUnsupported,
    /// Parallel decode takes no multimodal positions.
    DecodeMultimodal,
    /// Parallel decode embeds tokens on the device.
    DecodeNeedsEmbedding,
    /// A token step has no lane, too many, or another number of slots.
    DecodeLanes { lanes: usize },
    /// A token step has another number of samplers than lanes.
    DecodeSamplers { lanes: usize, samplers: usize },
    /// A token step has another number of prompt ends or checkpoints than lanes.
    DecodeLists { lanes: usize, ends: usize, checkpoints: usize },
    /// A lane has no token to feed after what is resident.
    DecodeLaneWithoutInput { lane: usize, depth: usize },
    /// A lane needs more rows than its slot has.
    DecodeLaneExceeds { lane: usize, capacity: usize },
    /// The primary has no token to feed, or not the rows for all steps.
    DecodePrimaryWithoutRoom { steps: usize, depth: usize },
    /// A lane's prompt end lies outside its tokens.
    DecodePromptEnd { lane: usize, end: usize, tokens: usize },
    /// The lanes are not in descending order of what is left of their prompts.
    DecodeOrder,
    /// Some lanes need dense attention and some sparse.
    DecodeMixed,
    /// The model keeps its caches in half precision or eight-bit blocks only.
    Qwen4KvFormats { k: DType, v: DType },
    /// The cache kernels are written for other head lengths.
    Dsv4KeyLengths { head_dim: usize, indexer: usize },
    /// A layer selects experts by token id and has no expert bank.
    Dsv4HashWithoutBank { layer: usize },
    /// A table of experts by token id has not one row per token.
    Dsv4HashTable { layer: usize, got: usize, n_used: usize, vocab: usize, want: usize },
    /// The number of residual streams is zero or too large.
    Dsv4Streams { count: usize, max: usize },
    /// The mixing of the residual streams is not iterated.
    Dsv4Sinkhorn,
    /// More dimensions are rotated than a head has.
    Dsv4RopeDim { rope_dim: usize, head_dim: usize },
    /// The heads do not fall into whole output groups.
    Dsv4OutputGroups { groups: usize, width: usize },
    /// Only dense models without per-layer embeddings verify speculated tokens.
    VerifyUnsupported,
    /// Only one family of models works on a canvas.
    CanvasUnsupported,
    /// A canvas does not fit behind the prompt.
    CanvasExceedsSession { prompt: usize, canvas: usize, max_ctx: usize },
    /// The logits of the last step are not those of the canvas.
    CanvasLogits { values: usize, rows: usize, vocab: usize },
    /// There is not one uniform draw for each row of the canvas.
    CanvasDraws { draws: usize, rows: usize },
    /// The session has nobody to gather embedding rows.
    NoPleWorker,
    /// The session has no buffer for gathered embedding rows.
    NoPleStaging,
    /// A parallel step got another number of embedding values than its rows need.
    ParallelPleValues { values: usize, expected: usize },
    /// A prefill chunk has no embedding rows.
    BatchedPleMissing,
    /// A prefill chunk got another number of embedding values than its rows need.
    BatchedPleValues { values: usize, expected: usize },
    /// A decode step got another number of embedding bytes than its buffer holds.
    PleBytes { bytes: usize, buffer: usize },
}

impl Error {
    /// What [`Error::message`] says.
    pub open spec fn text(self) -> Seq<char> {
        match self {
            Error::TokenOutOfRange { id, vocab } => {
                "token id "@
                    + digits(id as nat)
                    + " out of range for vocab size "@
                    + digits(vocab as nat)
            },
            Error::CheckpointLayerWithoutK { layer } => {
                "recurrent checkpoint layer "@
                    + digits(layer as nat)
                    + " has no fixed K/state allocation"@
            },
            Error::CheckpointLayerWithoutV { layer } => {
                "recurrent checkpoint layer "@
                    + digits(layer as nat)
                    + " has no fixed V/state allocation"@
            },
            Error::CheckpointPleShapeChanged =>
            "stable recurrent checkpoint PLE shape changed within one session"@,
            Error::CheckpointPleSourceDiffers =>
            "stable recurrent checkpoint PLE source differs from its allocation"@,
            Error::CheckpointPleTargetDiffers =>
            "stable recurrent checkpoint PLE target differs from its snapshot"@,
            Error::DepthExceedsSession { tokens, max_ctx } => {
                "KV depth "@
                    + digits(tokens as nat)
                    + " exceeds the session capacity "@
                    + digits(max_ctx as nat)
            },
            Error::SegmentedForOtherModel =>
            "segmented KV enabled for a non-Qwen session"@,
            Error::MissingQsaRaw { layer } => {
                "missing QSA raw cache for layer "@
                    + digits(layer as nat)
            },
            Error::MissingQsaBlock { layer } => {
                "missing QSA block cache for layer "@
                    + digits(layer as nat)
            },
            Error::SyntheticDepthExceedsSession { tokens, max_ctx } => {
                "synthetic depth "@
                    + digits(tokens as nat)
                    + " exceeds the session KV capacity "@
                    + digits(max_ctx as nat)
            },
            Error::RestoreNeedsSegments =>
            "cold session restore requires a segmented KV allocation"@,
            Error::RestoreGeometryDiffers { stored_ctx, slot_ctx, stored_k, slot_k, stored_v, slot_v } => {
                "cold session geometry differs from the resident slot (ctx "@
                    + digits(stored_ctx as nat)
                    + " vs "@
                    + digits(slot_ctx as nat)
                    + ", K "@
                    + dtype_name(stored_k)
                    + " vs "@
                    + dtype_name(slot_k)
                    + ", V "@
                    + dtype_name(stored_v)
                    + " vs "@
                    + dtype_name(slot_v)
                    + ")"@
            },
            Error::RestoreDepthExceedsSlot =>
            "cold session depth exceeds the resident slot capacity"@,
            Error::RestoreCheckpointDiffers =>
            "cold session checkpoint shape changed during restore"@,
            Error::ReleaseNeedsSegments =>
            "cold session release requires a segmented KV allocation"@,
            Error::ReleaseMissingQsaRaw { layer } => {
                "missing QSA raw cache at layer "@
                    + digits(layer as nat)
            },
            Error::ReleaseMissingQsaBlock { layer } => {
                "missing QSA block cache at layer "@
                    + digits(layer as nat)
            },
            Error::NoPlaneGeometry { layer, kind } => {
                "missing segmented KV geometry for layer "@
                    + digits(layer as nat)
                    + " "@
                    + plane_name(kind)
            },
            Error::ForkGeometryDiffersK { layer, forked, src } => {
                "forked KV slot geometry differs from its source at layer "@
                    + digits(layer as nat)
                    + " (k): "@
                    + digits(forked as nat)
                    + " bytes vs "@
                    + digits(src as nat)
                    + " — the fork and the original allocation disagree about this layer's cache row"@
            },
            Error::ForkGeometryDiffersV { layer, forked, src } => {
                "forked KV slot geometry differs from its source at layer "@
                    + digits(layer as nat)
                    + " (v): "@
                    + digits(forked as nat)
                    + " bytes vs "@
                    + digits(src as nat)
                    + " — the fork and the original allocation disagree about this layer's cache row"@
            },
            Error::ForkQsaGeometryDiffers { layer, forked_len, src_len } => {
                "forked QSA cache geometry differs from its source at layer "@
                    + digits(layer as nat)
                    + ": "@
                    + optional(forked_len)
                    + " vs "@
                    + optional(src_len)
            },
            Error::ForkQsaBlockGeometryDiffers { layer, forked_len, src_len } => {
                "forked QSA block cache geometry differs from its source at layer "@
                    + digits(layer as nat)
                    + ": "@
                    + optional(forked_len)
                    + " vs "@
                    + optional(src_len)
            },
            Error::LayerKNotAllocated { layer } => {
                "layer "@
                    + digits(layer as nat)
                    + " K/state buffer was not allocated"@
            },
            Error::LayerVNotAllocated { layer } => {
                "layer "@
                    + digits(layer as nat)
                    + " V/state buffer was not allocated"@
            },
            Error::RequestExceedsSession { prompt, max_new, max_ctx } => {
                "prompt "@
                    + digits(prompt as nat)
                    + " + gen "@
                    + digits(max_new as nat)
                    + " exceeds the session KV capacity "@
                    + digits(max_ctx as nat)
            },
            Error::EmptyPrompt =>
            "empty prompt: nothing to generate from"@,
            Error::MropeUnsupported =>
            "multimodal RoPE is currently supported only by qwen4exp"@,
            Error::MropeTableLength { values, tokens, expected } => {
                "multimodal position table has "@
                    + digits(values as nat)
                    + " values for "@
                    + digits(tokens as nat)
                    + " prompt tokens (expected "@
                    + digits(expected as nat)
                    + ")"@
            },
            Error::MropeSectionsEmpty =>
            "qwen4exp multimodal RoPE sections are empty"@,
            Error::ImageSpanOverflows { index } => {
                "image span #"@
                    + digits(index as nat)
                    + " overflows token indices"@
            },
            Error::InvalidImageSpan { index, start, end, prompt_len } => {
                "invalid image span #"@
                    + digits(index as nat)
                    + ": "@
                    + digits(start as nat)
                    + ".."@
                    + digits(end as nat)
                    + " for prompt length "@
                    + digits(prompt_len as nat)
            },
            Error::ImageSpanValues { index, values, expected } => {
                "image span #"@
                    + digits(index as nat)
                    + " has "@
                    + digits(values as nat)
                    + " embedding values, expected "@
                    + digits(expected as nat)
            },
            Error::NegativeDecodeBase { base } => {
                "multimodal decode base must be non-negative, got "@
                    + signed(base as int)
            },
            Error::MropeContextRange =>
            "multimodal context exceeds i32 position range"@,
            Error::MropeDecodeOverflow =>
            "multimodal decode position overflow"@,
            Error::MropeDecodeRange =>
            "multimodal decode position exceeds i32"@,
            Error::PrefillShape { prompts, slots, prepared } => {
                "parallel prefill has "@
                    + digits(prompts as nat)
                    + " prompts, "@
                    + digits(slots as nat)
                    + " slots and "@
                    + digits(prepared as nat)
                    + " prepared states"@
            },
            Error::PrefillUnsupported =>
            "parallel prefill currently supports qwen4exp only"@,
            Error::PrefillMultimodal =>
            "parallel prefill does not yet support multimodal position rows"@,
            Error::PrefillLayout =>
            "invalid parallel prefill request layout"@,
            Error::PrefillLaneEmpty { lane } => {
                "parallel prefill lane "@
                    + digits(lane as nat)
                    + " has an empty prompt"@
            },
            Error::PrefillLaneExceeds { lane, prompt, capacity } => {
                "parallel prefill lane "@
                    + digits(lane as nat)
                    + " prompt "@
                    + digits(prompt as nat)
                    + " exceeds its KV capacity "@
                    + digits(capacity as nat)
            },
            Error::PrefillNoProgress { lane, position } => {
                "parallel prefill lane "@
                    + digits(lane as nat)
                    + " made no progress at position "@
                    + digits(position as nat)
            },
            Error::StepLengths { positions, ends } => {
                "parallel token step has "@
                    + digits(positions as nat)
                    + " positions and "@
                    + digits(ends as nat)
                    + " prompt ends"@
            },
            Error::SamplingNotSuffix =>
            "parallel token sampling rows are not a contiguous suffix"@,
            Error::StepShape { prompts, ends, checkpoints, slots, samplers } => {
                "parallel token step has "@
                    + digits(prompts as nat)
                    + " prompts, "@
                    + digits(ends as nat)
                    + " prompt ends, "@
                    + digits(checkpoints as nat)
                    + " checkpoints, "@
                    + digits(slots as nat)
                    + " slots and "@
                    + digits(samplers as nat)
                    + " samplers"@
            },
            Error::PrefillNeedsEmbedding =>
            "parallel prefill requires Vulkan GPU embedding"@,
            Error::DecodeUnsupported =>
            "parallel decode currently supports qwen4exp only"@,
            Error::DecodeMultimodal =>
            "parallel decode does not yet support multimodal position rows"@,
            Error::DecodeNeedsEmbedding =>
            "parallel decode requires Vulkan GPU embedding"@,
            Error::DecodeLanes { lanes } => {
                "parallel decode requires 1..=8 slots; got "@
                    + digits(lanes as nat)
            },
            Error::DecodeSamplers { lanes, samplers } => {
                "parallel decode has "@
                    + digits(lanes as nat)
                    + " lanes but "@
                    + digits(samplers as nat)
                    + " samplers"@
            },
            Error::DecodeLists { lanes, ends, checkpoints } => {
                "parallel token step has "@
                    + digits(lanes as nat)
                    + " lanes, "@
                    + digits(ends as nat)
                    + " prompt ends and "@
                    + digits(checkpoints as nat)
                    + " checkpoints"@
            },
            Error::DecodeLaneWithoutInput { lane, depth } => {
                "parallel token lane "@
                    + digits(lane as nat)
                    + " has no input at cached depth "@
                    + digits(depth as nat)
            },
            Error::DecodeLaneExceeds { lane, capacity } => {
                "parallel token lane "@
                    + digits(lane as nat)
                    + " exceeds its KV capacity "@
                    + digits(capacity as nat)
            },
            Error::DecodePrimaryWithoutRoom { steps, depth } => {
                "parallel token primary has no room for "@
                    + digits(steps as nat)
                    + " step(s) at cached depth "@
                    + digits(depth as nat)
            },
            Error::DecodePromptEnd { lane, end, tokens } => {
                "parallel token lane "@
                    + digits(lane as nat)
                    + " has invalid prompt end "@
                    + digits(end as nat)
                    + " for "@
                    + digits(tokens as nat)
                    + " tokens"@
            },
            Error::DecodeOrder =>
            "parallel token lanes must be ordered by descending remaining prefill"@,
            Error::DecodeMixed =>
            "parallel decode cannot mix dense and sparse QSA rows in one graph"@,
            Error::Qwen4KvFormats { k, v } => {
                "qwen4exp supports F16 and Q8_0 KV; got k="@
                    + dtype_name(k)
                    + ", v="@
                    + dtype_name(v)
            },
            Error::Dsv4KeyLengths { head_dim, indexer } => {
                "arch=deepseek4 cache kernels require key_length=512 and attention.indexer.key_length=128; got "@
                    + digits(head_dim as nat)
                    + " and "@
                    + digits(indexer as nat)
            },
            Error::Dsv4HashWithoutBank { layer } => {
                "arch=deepseek4 (DeepSeek V4) layer "@
                    + digits(layer as nat)
                    + " is hash-routed but is not a MoE layer, so its `blk."@
                    + digits(layer as nat)
                    + ".ffn_gate_tid2eid` selection has no expert bank to select from"@
            },
            Error::Dsv4HashTable { layer, got, n_used, vocab, want } => {
                "arch=deepseek4 (DeepSeek V4): `blk."@
                    + digits(layer as nat)
                    + ".ffn_gate_tid2eid.weight` holds "@
                    + digits(got as nat)
                    + " entries, not expert_used_count*vocab = "@
                    + digits(n_used as nat)
                    + "*"@
                    + digits(vocab as nat)
                    + " = "@
                    + digits(want as nat)
                    + ". The hash gather indexes it by TOKEN ID, so a table that is not one row per vocabulary entry would read the wrong row — or past the end."@
            },
            Error::Dsv4Streams { count, max } => {
                "arch=deepseek4: deepseek4.hyper_connection.count = "@
                    + digits(count as nat)
                    + " is outside 1..="@
                    + digits(max as nat)
                    + " — every backend holds a token's whole hc x hc Sinkhorn matrix in a fixed-size array."@
            },
            Error::Dsv4Sinkhorn =>
            "arch=deepseek4: deepseek4.hyper_connection.sinkhorn_iterations = 0 — the reference's loop still runs one normalisation over `src` at 0, a shape no config asks for and one no backend here reproduces."@,
            Error::Dsv4RopeDim { rope_dim, head_dim } => {
                "arch=deepseek4: rope.dimension_count "@
                    + digits(rope_dim as nat)
                    + " exceeds attention.key_length "@
                    + digits(head_dim as nat)
                    + " — V4's head is [nope | rope] with the rotated dims LAST, so the rope width cannot exceed the head."@
            },
            Error::Dsv4OutputGroups { groups, width } => {
                "arch=deepseek4: attention.output_group_count "@
                    + digits(groups as nat)
                    + " must divide n_head*key_length "@
                    + digits(width as nat)
            },
            Error::VerifyUnsupported =>
            "speculative verify: dense non-E2B models only"@,
            Error::CanvasUnsupported =>
            "canvas denoise forward: diffusion-gemma models only"@,
            Error::CanvasExceedsSession { prompt, canvas, max_ctx } => {
                "denoise: prompt "@
                    + digits(prompt as nat)
                    + " + canvas "@
                    + digits(canvas as nat)
                    + " exceeds the session KV capacity "@
                    + digits(max_ctx as nat)
            },
            Error::CanvasLogits { values, rows, vocab } => {
                "denoise: sc_logits length "@
                    + digits(values as nat)
                    + " != "@
                    + digits(rows as nat)
                    + "*"@
                    + digits(vocab as nat)
                    + " (canvas rows * vocab)"@
            },
            Error::CanvasDraws { draws, rows } => {
                "denoise: u length "@
                    + digits(draws as nat)
                    + " != "@
                    + digits(rows as nat)
                    + " (canvas rows)"@
            },
            Error::NoPleWorker =>
            "qwen4exp session has no PLE worker"@,
            Error::NoPleStaging =>
            "qwen4exp session has no PLE staging buffer"@,
            Error::ParallelPleValues { values, expected } => {
                "parallel PLE produced "@
                    + digits(values as nat)
                    + " values, expected "@
                    + digits(expected as nat)
            },
            Error::BatchedPleMissing =>
            "qwen4exp prefill chunk has no prefetched PLE rows"@,
            Error::BatchedPleValues { values, expected } => {
                "qwen4exp batched PLE produced "@
                    + digits(values as nat)
                    + " values, expected "@
                    + digits(expected as nat)
            },
            Error::PleBytes { bytes, buffer } => {
                "qwen4exp PLE worker produced "@
                    + digits(bytes as nat)
                    + " bytes, staging buffer has "@
                    + digits(buffer as nat)
            },
        }
    }

    /// The message for people.
    pub fn message(self) -> (m: String)
        ensures
            m@ == self.text(),
    {
        let mut m: String = String::new();
        match self {
            Error::TokenOutOfRange { id, vocab } => {
                push_text(&mut m, "token id ");
                push_number(&mut m, id as u64);
                push_text(&mut m, " out of range for vocab size ");
                push_number(&mut m, vocab as u64);
            },
            Error::CheckpointLayerWithoutK { layer } => {
                push_text(&mut m, "recurrent checkpoint layer ");
                push_number(&mut m, layer as u64);
                push_text(&mut m, " has no fixed K/state allocation");
            },
            Error::CheckpointLayerWithoutV { layer } => {
                push_text(&mut m, "recurrent checkpoint layer ");
                push_number(&mut m, layer as u64);
                push_text(&mut m, " has no fixed V/state allocation");
            },
            Error::CheckpointPleShapeChanged => {
                push_text(
                    &mut m,
                    "stable recurrent checkpoint PLE shape changed within one session",
                );
            },
            Error::CheckpointPleSourceDiffers => {
                push_text(
                    &mut m,
                    "stable recurrent checkpoint PLE source differs from its allocation",
                );
            },
            Error::CheckpointPleTargetDiffers => {
                push_text(
                    &mut m,
                    "stable recurrent checkpoint PLE target differs from its snapshot",
                );
            },
            Error::DepthExceedsSession { tokens, max_ctx } => {
                push_text(&mut m, "KV depth ");
                push_number(&mut m, tokens as u64);
                push_text(&mut m, " exceeds the session capacity ");
                push_number(&mut m, max_ctx as u64);
            },
            Error::SegmentedForOtherModel => {
                push_text(&mut m, "segmented KV enabled for a non-Qwen session");
            },
            Error::MissingQsaRaw { layer } => {
                push_text(&mut m, "missing QSA raw cache for layer ");
                push_number(&mut m, layer as u64);
            },
            Error::MissingQsaBlock { layer } => {
                push_text(&mut m, "missing QSA block cache for layer ");
                push_number(&mut m, layer as u64);
            },
            Error::SyntheticDepthExceedsSession { tokens, max_ctx } => {
                push_text(&mut m, "synthetic depth ");
                push_number(&mut m, tokens as u64);
                push_text(&mut m, " exceeds the session KV capacity ");
                push_number(&mut m, max_ctx as u64);
            },
            Error::RestoreNeedsSegments => {
                push_text(&mut m, "cold session restore requires a segmented KV allocation");
            },
            Error::RestoreGeometryDiffers { stored_ctx, slot_ctx, stored_k, slot_k, stored_v, slot_v } => {
                push_text(&mut m, "cold session geometry differs from the resident slot (ctx ");
                push_number(&mut m, stored_ctx as u64);
                push_text(&mut m, " vs ");
                push_number(&mut m, slot_ctx as u64);
                push_text(&mut m, ", K ");
                push_dtype(&mut m, stored_k);
                push_text(&mut m, " vs ");
                push_dtype(&mut m, slot_k);
                push_text(&mut m, ", V ");
                push_dtype(&mut m, stored_v);
                push_text(&mut m, " vs ");
                push_dtype(&mut m, slot_v);
                push_text(&mut m, ")");
            },
            Error::RestoreDepthExceedsSlot => {
                push_text(&mut m, "cold session depth exceeds the resident slot capacity");
            },
            Error::RestoreCheckpointDiffers => {
                push_text(&mut m, "cold session checkpoint shape changed during restore");
            },
            Error::ReleaseNeedsSegments => {
                push_text(&mut m, "cold session release requires a segmented KV allocation");
            },
            Error::ReleaseMissingQsaRaw { layer } => {
                push_text(&mut m, "missing QSA raw cache at layer ");
                push_number(&mut m, layer as u64);
            },
            Error::ReleaseMissingQsaBlock { layer } => {
                push_text(&mut m, "missing QSA block cache at layer ");
                push_number(&mut m, layer as u64);
            },
            Error::NoPlaneGeometry { layer, kind } => {
                push_text(&mut m, "missing segmented KV geometry for layer ");
                push_number(&mut m, layer as u64);
                push_text(&mut m, " ");
                push_plane(&mut m, kind);
            },
            Error::ForkGeometryDiffersK { layer, forked, src } => {
                push_text(&mut m, "forked KV slot geometry differs from its source at layer ");
                push_number(&mut m, layer as u64);
                push_text(&mut m, " (k): ");
                push_number(&mut m, forked as u64);
                push_text(&mut m, " bytes vs ");
                push_number(&mut m, src as u64);
                push_text(
                    &mut m,
                    " — the fork and the original allocation disagree about this layer's cache row",
                );
            },
            Error::ForkGeometryDiffersV { layer, forked, src } => {
                push_text(&mut m, "forked KV slot geometry differs from its source at layer ");
                push_number(&mut m, layer as u64);
                push_text(&mut m, " (v): ");
                push_number(&mut m, forked as u64);
                push_text(&mut m, " bytes vs ");
                push_number(&mut m, src as u64);
                push_text(
                    &mut m,
                    " — the fork and the original allocation disagree about this layer's cache row",
                );
            },
            Error::ForkQsaGeometryDiffers { layer, forked_len, src_len } => {
                push_text(&mut m, "forked QSA cache geometry differs from its source at layer ");
                push_number(&mut m, layer as u64);
                push_text(&mut m, ": ");
                push_optional(&mut m, forked_len);
                push_text(&mut m, " vs ");
                push_optional(&mut m, src_len);
            },
            Error::ForkQsaBlockGeometryDiffers { layer, forked_len, src_len } => {
                push_text(
                    &mut m,
                    "forked QSA block cache geometry differs from its source at layer ",
                );
                push_number(&mut m, layer as u64);
                push_text(&mut m, ": ");
                push_optional(&mut m, forked_len);
                push_text(&mut m, " vs ");
                push_optional(&mut m, src_len);
            },
            Error::LayerKNotAllocated { layer } => {
                push_text(&mut m, "layer ");
                push_number(&mut m, layer as u64);
                push_text(&mut m, " K/state buffer was not allocated");
            },
            Error::LayerVNotAllocated { layer } => {
                push_text(&mut m, "layer ");
                push_number(&mut m, layer as u64);
                push_text(&mut m, " V/state buffer was not allocated");
            },
            Error::RequestExceedsSession { prompt, max_new, max_ctx } => {
                push_text(&mut m, "prompt ");
                push_number(&mut m, prompt as u64);
                push_text(&mut m, " + gen ");
                push_number(&mut m, max_new as u64);
                push_text(&mut m, " exceeds the session KV capacity ");
                push_number(&mut m, max_ctx as u64);
            },
            Error::EmptyPrompt => {
                push_text(&mut m, "empty prompt: nothing to generate from");
            },
            Error::MropeUnsupported => {
                push_text(&mut m, "multimodal RoPE is currently supported only by qwen4exp");
            },
            Error::MropeTableLength { values, tokens, expected } => {
                push_text(&mut m, "multimodal position table has ");
                push_number(&mut m, values as u64);
                push_text(&mut m, " values for ");
                push_number(&mut m, tokens as u64);
                push_text(&mut m, " prompt tokens (expected ");
                push_number(&mut m, expected as u64);
                push_text(&mut m, ")");
            },
            Error::MropeSectionsEmpty => {
                push_text(&mut m, "qwen4exp multimodal RoPE sections are empty");
            },
            Error::ImageSpanOverflows { index } => {
                push_text(&mut m, "image span #");
                push_number(&mut m, index as u64);
                push_text(&mut m, " overflows token indices");
            },
            Error::InvalidImageSpan { index, start, end, prompt_len } => {
                push_text(&mut m, "invalid image span #");
                push_number(&mut m, index as u64);
                push_text(&mut m, ": ");
                push_number(&mut m, start as u64);
                push_text(&mut m, "..");
                push_number(&mut m, end as u64);
                push_text(&mut m, " for prompt length ");
                push_number(&mut m, prompt_len as u64);
            },
            Error::ImageSpanValues { index, values, expected } => {
                push_text(&mut m, "image span #");
                push_number(&mut m, index as u64);
                push_text(&mut m, " has ");
                push_number(&mut m, values as u64);
                push_text(&mut m, " embedding values, expected ");
                push_number(&mut m, expected as u64);
            },
            Error::NegativeDecodeBase { base } => {
                push_text(&mut m, "multimodal decode base must be non-negative, got ");
                push_signed(&mut m, base);
            },
            Error::MropeContextRange => {
                push_text(&mut m, "multimodal context exceeds i32 position range");
            },
            Error::MropeDecodeOverflow => {
                push_text(&mut m, "multimodal decode position overflow");
            },
            Error::MropeDecodeRange => {
                push_text(&mut m, "multimodal decode position exceeds i32");
            },
            Error::PrefillShape { prompts, slots, prepared } => {
                push_text(&mut m, "parallel prefill has ");
                push_number(&mut m, prompts as u64);
                push_text(&mut m, " prompts, ");
                push_number(&mut m, slots as u64);
                push_text(&mut m, " slots and ");
                push_number(&mut m, prepared as u64);
                push_text(&mut m, " prepared states");
            },
            Error::PrefillUnsupported => {
                push_text(&mut m, "parallel prefill currently supports qwen4exp only");
            },
            Error::PrefillMultimodal => {
                push_text(&mut m, "parallel prefill does not yet support multimodal position rows");
            },
            Error::PrefillLayout => {
                push_text(&mut m, "invalid parallel prefill request layout");
            },
            Error::PrefillLaneEmpty { lane } => {
                push_text(&mut m, "parallel prefill lane ");
                push_number(&mut m, lane as u64);
                push_text(&mut m, " has an empty prompt");
            },
            Error::PrefillLaneExceeds { lane, prompt, capacity } => {
                push_text(&mut m, "parallel prefill lane ");
                push_number(&mut m, lane as u64);
                push_text(&mut m, " prompt ");
                push_number(&mut m, prompt as u64);
                push_text(&mut m, " exceeds its KV capacity ");
                push_number(&mut m, capacity as u64);
            },
            Error::PrefillNoProgress { lane, position } => {
                push_text(&mut m, "parallel prefill lane ");
                push_number(&mut m, lane as u64);
                push_text(&mut m, " made no progress at position ");
                push_number(&mut m, position as u64);
            },
            Error::StepLengths { positions, ends } => {
                push_text(&mut m, "parallel token step has ");
                push_number(&mut m, positions as u64);
                push_text(&mut m, " positions and ");
                push_number(&mut m, ends as u64);
                push_text(&mut m, " prompt ends");
            },
            Error::SamplingNotSuffix => {
                push_text(&mut m, "parallel token sampling rows are not a contiguous suffix");
            },
            Error::StepShape { prompts, ends, checkpoints, slots, samplers } => {
                push_text(&mut m, "parallel token step has ");
                push_number(&mut m, prompts as u64);
                push_text(&mut m, " prompts, ");
                push_number(&mut m, ends as u64);
                push_text(&mut m, " prompt ends, ");
                push_number(&mut m, checkpoints as u64);
                push_text(&mut m, " checkpoints, ");
                push_number(&mut m, slots as u64);
                push_text(&mut m, " slots and ");
                push_number(&mut m, samplers as u64);
                push_text(&mut m, " samplers");
            },
            Error::PrefillNeedsEmbedding => {
                push_text(&mut m, "parallel prefill requires Vulkan GPU embedding");
            },
            Error::DecodeUnsupported => {
                push_text(&mut m, "parallel decode currently supports qwen4exp only");
            },
            Error::DecodeMultimodal => {
                push_text(&mut m, "parallel decode does not yet support multimodal position rows");
            },
            Error::DecodeNeedsEmbedding => {
                push_text(&mut m, "parallel decode requires Vulkan GPU embedding");
            },
            Error::DecodeLanes { lanes } => {
                push_text(&mut m, "parallel decode requires 1..=8 slots; got ");
                push_number(&mut m, lanes as u64);
            },
            Error::DecodeSamplers { lanes, samplers } => {
                push_text(&mut m, "parallel decode has ");
                push_number(&mut m, lanes as u64);
                push_text(&mut m, " lanes but ");
                push_number(&mut m, samplers as u64);
                push_text(&mut m, " samplers");
            },
            Error::DecodeLists { lanes, ends, checkpoints } => {
                push_text(&mut m, "parallel token step has ");
                push_number(&mut m, lanes as u64);
                push_text(&mut m, " lanes, ");
                push_number(&mut m, ends as u64);
                push_text(&mut m, " prompt ends and ");
                push_number(&mut m, checkpoints as u64);
                push_text(&mut m, " checkpoints");
            },
            Error::DecodeLaneWithoutInput { lane, depth } => {
                push_text(&mut m, "parallel token lane ");
                push_number(&mut m, lane as u64);
                push_text(&mut m, " has no input at cached depth ");
                push_number(&mut m, depth as u64);
            },
            Error::DecodeLaneExceeds { lane, capacity } => {
                push_text(&mut m, "parallel token lane ");
                push_number(&mut m, lane as u64);
                push_text(&mut m, " exceeds its KV capacity ");
                push_number(&mut m, capacity as u64);
            },
            Error::DecodePrimaryWithoutRoom { steps, depth } => {
                push_text(&mut m, "parallel token primary has no room for ");
                push_number(&mut m, steps as u64);
                push_text(&mut m, " step(s) at cached depth ");
                push_number(&mut m, depth as u64);
            },
            Error::DecodePromptEnd { lane, end, tokens } => {
                push_text(&mut m, "parallel token lane ");
                push_number(&mut m, lane as u64);
                push_text(&mut m, " has invalid prompt end ");
                push_number(&mut m, end as u64);
                push_text(&mut m, " for ");
                push_number(&mut m, tokens as u64);
                push_text(&mut m, " tokens");
            },
            Error::DecodeOrder => {
                push_text(
                    &mut m,
                    "parallel token lanes must be ordered by descending remaining prefill",
                );
            },
            Error::DecodeMixed => {
                push_text(
                    &mut m,
                    "parallel decode cannot mix dense and sparse QSA rows in one graph",
                );
            },
            Error::Qwen4KvFormats { k, v } => {
                push_text(&mut m, "qwen4exp supports F16 and Q8_0 KV; got k=");
                push_dtype(&mut m, k);
                push_text(&mut m, ", v=");
                push_dtype(&mut m, v);
            },
            Error::Dsv4KeyLengths { head_dim, indexer } => {
                push_text(
                    &mut m,
                    "arch=deepseek4 cache kernels require key_length=512 and attention.indexer.key_length=128; got ",
                );
                push_number(&mut m, head_dim as u64);
                push_text(&mut m, " and ");
                push_number(&mut m, indexer as u64);
            },
            Error::Dsv4HashWithoutBank { layer } => {
                push_text(&mut m, "arch=deepseek4 (DeepSeek V4) layer ");
                push_number(&mut m, layer as u64);
                push_text(&mut m, " is hash-routed but is not a MoE layer, so its `blk.");
                push_number(&mut m, layer as u64);
                push_text(&mut m, ".ffn_gate_tid2eid` selection has no expert bank to select from");
            },
            Error::Dsv4HashTable { layer, got, n_used, vocab, want } => {
                push_text(&mut m, "arch=deepseek4 (DeepSeek V4): `blk.");
                push_number(&mut m, layer as u64);
                push_text(&mut m, ".ffn_gate_tid2eid.weight` holds ");
                push_number(&mut m, got as u64);
                push_text(&mut m, " entries, not expert_used_count*vocab = ");
                push_number(&mut m, n_used as u64);
                push_text(&mut m, "*");
                push_number(&mut m, vocab as u64);
                push_text(&mut m, " = ");
                push_number(&mut m, want as u64);
                push_text(
                    &mut m,
                    ". The hash gather indexes it by TOKEN ID, so a table that is not one row per vocabulary entry would read the wrong row — or past the end.",
                );
            },
            Error::Dsv4Streams { count, max } => {
                push_text(&mut m, "arch=deepseek4: deepseek4.hyper_connection.count = ");
                push_number(&mut m, count as u64);
                push_text(&mut m, " is outside 1..=");
                push_number(&mut m, max as u64);
                push_text(
                    &mut m,
                    " — every backend holds a token's whole hc x hc Sinkhorn matrix in a fixed-size array.",
                );
            },
            Error::Dsv4Sinkhorn => {
                push_text(
                    &mut m,
                    "arch=deepseek4: deepseek4.hyper_connection.sinkhorn_iterations = 0 — the reference's loop still runs one normalisation over `src` at 0, a shape no config asks for and one no backend here reproduces.",
                );
            },
            Error::Dsv4RopeDim { rope_dim, head_dim } => {
                push_text(&mut m, "arch=deepseek4: rope.dimension_count ");
                push_number(&mut m, rope_dim as u64);
                push_text(&mut m, " exceeds attention.key_length ");
                push_number(&mut m, head_dim as u64);
                push_text(
                    &mut m,
                    " — V4's head is [nope | rope] with the rotated dims LAST, so the rope width cannot exceed the head.",
                );
            },
            Error::Dsv4OutputGroups { groups, width } => {
                push_text(&mut m, "arch=deepseek4: attention.output_group_count ");
                push_number(&mut m, groups as u64);
                push_text(&mut m, " must divide n_head*key_length ");
                push_number(&mut m, width as u64);
            },
            Error::VerifyUnsupported => {
                push_text(&mut m, "speculative verify: dense non-E2B models only");
            },
            Error::CanvasUnsupported => {
                push_text(&mut m, "canvas denoise forward: diffusion-gemma models only");
            },
            Error::CanvasExceedsSession { prompt, canvas, max_ctx } => {
                push_text(&mut m, "denoise: prompt ");
                push_number(&mut m, prompt as u64);
                push_text(&mut m, " + canvas ");
                push_number(&mut m, canvas as u64);
                push_text(&mut m, " exceeds the session KV capacity ");
                push_number(&mut m, max_ctx as u64);
            },
            Error::CanvasLogits { values, rows, vocab } => {
                push_text(&mut m, "denoise: sc_logits length ");
                push_number(&mut m, values as u64);
                push_text(&mut m, " != ");
                push_number(&mut m, rows as u64);
                push_text(&mut m, "*");
                push_number(&mut m, vocab as u64);
                push_text(&mut m, " (canvas rows * vocab)");
            },
            Error::CanvasDraws { draws, rows } => {
                push_text(&mut m, "denoise: u length ");
                push_number(&mut m, draws as u64);
                push_text(&mut m, " != ");
                push_number(&mut m, rows as u64);
                push_text(&mut m, " (canvas rows)");
            },
            Error::NoPleWorker => {
                push_text(&mut m, "qwen4exp session has no PLE worker");
            },
            Error::NoPleStaging => {
                push_text(&mut m, "qwen4exp session has no PLE staging buffer");
            },
            Error::ParallelPleValues { values, expected } => {
                push_text(&mut m, "parallel PLE produced ");
                push_number(&mut m, values as u64);
                push_text(&mut m, " values, expected ");
                push_number(&mut m, expected as u64);
            },
            Error::BatchedPleMissing => {
                push_text(&mut m, "qwen4exp prefill chunk has no prefetched PLE rows");
            },
            Error::BatchedPleValues { values, expected } => {
                push_text(&mut m, "qwen4exp batched PLE produced ");
                push_number(&mut m, values as u64);
                push_text(&mut m, " values, expected ");
                push_number(&mut m, expected as u64);
            },
            Error::PleBytes { bytes, buffer } => {
                push_text(&mut m, "qwen4exp PLE worker produced ");
                push_number(&mut m, bytes as u64);
                push_text(&mut m, " bytes, staging buffer has ");
                push_number(&mut m, buffer as u64);
            },
        }
        assert(m@ =~= self.text());
        m
    }
}

} // verus!
