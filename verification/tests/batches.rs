//! Batches: their buffers, their rows, their bytes and their graphs.

use infr_llama::batch_io::{
    chunk_requests, chunk_sources, cohort_requests, logical_positions, sample_requests, step_source,
    RowSource,
};
use infr_llama::bindings::{Binding, Bound, DecodeHandles, SharedIo, StepIo};
use infr_llama::canvas::{CanvasKey, CanvasPlan};
use infr_llama::config::Config;
use infr_llama::device::{AllocRequest, BufferUsage, DeviceBuffer};
use infr_llama::gates::SamplePath;
use infr_llama::graph_inputs::{LayerSpan, SharedIds};
use infr_llama::graph_steps::{
    canvas_step, chunk_step, cohort_steps, decode_step, split_decode_steps, verify_step, CohortRows,
};
use infr_llama::parallel_prefill::SequenceSpan;
use infr_llama::prefill::Chunk;
use infr_llama::rope::ImageSpan;
use infr_llama::slot::CacheBuffers;
use infr_llama::staging::{read_ids, stage_ids, stage_positions, stage_rows};
use infr_llama::step_bindings::{
    bind_canvas, bind_chunk, bind_cohort, bind_span, bind_verify, CanvasIo, ChunkIo, CohortIo,
    VerifyIo,
};

fn config() -> Config {
    Config {
        layers: Vec::new(),
        qwen35: false,
        qwen4exp: true,
        bailingmoe3: false,
        deepseek4: false,
        n_embd: 8,
        n_embd_per_layer: 0,
        vocab: 10,
        hc_mult: 4,
        swa_window: 0,
        indexer_head_size: 0,
        indexer_top_k: 0,
        ple_ngram_size: 3,
        ple_heads_per_ngram: 2,
        ple_head_dim: 5,
        ple_conv_kernel: 4,
        ssm_d_conv: 1,
        recurrent_conv_channels: 0,
        recurrent_state_elems: 0,
    }
}

fn words(count: usize, usage: BufferUsage) -> AllocRequest {
    AllocRequest::Fixed { bytes: count * 4, usage }
}

#[test]
fn chunks_have_their_own_buffers() {
    let cfg = config();
    let r = chunk_requests(&cfg, 3, true, true);
    assert_eq!(r.input, words(3, BufferUsage::Staging));
    assert_eq!(r.resid, Some(words(24, BufferUsage::Activations)));
    assert_eq!(r.pos, words(3, BufferUsage::Staging));
    assert_eq!(r.pos4, Some(words(12, BufferUsage::Staging)));
    assert_eq!(r.wide, Some(words(96, BufferUsage::Activations)));
    assert_eq!(r.ple_embd, Some(words(60, BufferUsage::Staging)));
    let mut plain = config();
    plain.qwen4exp = false;
    let r = chunk_requests(&plain, 3, false, false);
    assert_eq!(r.input, words(24, BufferUsage::Staging));
    assert_eq!((r.resid, r.pos4, r.wide, r.ple_embd), (None, None, None, None));
}

#[test]
fn cohorts_have_their_own_buffers() {
    let r = cohort_requests(&config(), 2);
    assert_eq!(r.ids, words(2, BufferUsage::Staging));
    assert_eq!(r.hidden, words(16, BufferUsage::Activations));
    assert_eq!(r.wide, words(64, BufferUsage::Activations));
    assert_eq!(r.ple_embd, words(40, BufferUsage::Staging));
    let s = sample_requests(&config(), 2);
    assert_eq!(s.logits, words(20, BufferUsage::Activations));
    assert_eq!(s.chosen, words(2, BufferUsage::Readback));
    assert_eq!(s.uniforms, words(2, BufferUsage::Staging));
}

#[test]
fn rows_come_from_tokens_or_images() {
    let span = |start, n_tokens| ImageSpan { start, n_tokens, embed_values: n_tokens * 8 };
    let spans = vec![span(1, 2), span(2, 2)];
    let prompt = [10, 11, 12, 13, 14];
    let sources = chunk_sources(&prompt, Chunk { start: 1, end: 5 }, &spans);
    assert_eq!(
        sources,
        vec![
            RowSource::Image { span: 0, row: 0 },
            RowSource::Image { span: 1, row: 0 },
            RowSource::Image { span: 1, row: 1 },
            RowSource::Token { id: 14 },
        ]
    );
    assert_eq!(step_source(&spans, 12, 2), RowSource::Image { span: 0, row: 1 });
    assert_eq!(step_source(&spans, 10, 0), RowSource::Token { id: 10 });
}

#[test]
fn positions_are_logical_behind_images() {
    let chunk = Chunk { start: 1, end: 3 };
    assert_eq!(logical_positions(None, chunk), vec![1, 2]);
    let table = vec![0, 0, 0, 0, 7, 1, 1, 0, 9, 2, 2, 0];
    assert_eq!(logical_positions(Some(&table), chunk), vec![7, 9]);
}

#[test]
fn words_are_staged_as_they_stand_in_memory() {
    let ids = [1u32, 0x8000_0002, u32::MAX];
    let bytes: Vec<u8> = ids.iter().flat_map(|id| id.to_ne_bytes()).collect();
    assert_eq!(stage_ids(&ids), bytes);
    assert_eq!(read_ids(&bytes), Some(ids.to_vec()));
    assert_eq!(read_ids(&bytes[..5].to_vec()), None);
    let positions = vec![-1i32, 5];
    let bytes: Vec<u8> = positions.iter().flat_map(|p| p.to_ne_bytes()).collect();
    assert_eq!(stage_positions(&positions), bytes);
    let rows: Vec<u8> = [3u32, 4].iter().flat_map(|p| p.to_ne_bytes()).collect();
    assert_eq!(stage_rows(&vec![3, 4]), rows);
    assert!(stage_ids(&[]).is_empty());
}

#[test]
fn a_step_is_one_graph_or_two() {
    let step = decode_step(7, true, SamplePath::DeviceDraw, true, None);
    assert_eq!((step.batch, step.start_pos, step.logits_rows), (1, 7, 1));
    assert!(step.draw && !step.argmax && step.h_tap && step.use_ids);
    assert_eq!(step.span, None);
    let (front, back) = split_decode_steps(5, 7, true, SamplePath::DeviceArgmax, false, None);
    assert_eq!(front.span, Some(LayerSpan { first: 0, end: 1 }));
    assert_eq!(back.span, Some(LayerSpan { first: 1, end: 5 }));
    assert_eq!((front.logits_rows, back.logits_rows), (0, 1));
    assert!(front.use_ids && !back.use_ids);
    assert!(!front.argmax && back.argmax);
}

#[test]
fn only_the_first_span_embeds() {
    let chunk = Chunk { start: 4, end: 9 };
    let first = chunk_step(chunk, LayerSpan { first: 0, end: 2 }, true, None);
    let second = chunk_step(chunk, LayerSpan { first: 2, end: 4 }, true, None);
    assert_eq!((first.batch, first.start_pos, first.logits_rows), (5, 4, 0));
    assert!(first.use_ids && !second.use_ids);
}

#[test]
fn verification_and_canvas_make_logits_of_every_row() {
    let step = verify_step(6, 3, true, true, None);
    assert_eq!((step.batch, step.logits_rows), (3, 3));
    assert!(step.verify && step.argmax && step.h_tap && !step.use_ids);
    let plan = CanvasPlan {
        key: CanvasKey { rows: 4, prompt: 9, conditioned: true },
        on_device: true,
        from_pair: true,
        new_pair: Vec::new(),
        seed: None,
        new_graph: Vec::new(),
        write: Some(0),
    };
    let step = canvas_step(&plan, None);
    assert_eq!((step.batch, step.start_pos, step.logits_rows), (4, 9, 4));
    assert!(step.canvas && step.scaled);
    assert_eq!(step.device_canvas, Some(true));
}

#[test]
fn a_cohort_names_its_spans_where_rows_are_independent() {
    let spans = vec![SequenceSpan { row_start: 0, rows: 2, start_pos: 3 }];
    let rows = |independent| CohortRows { batch: 2, start_pos: 3, independent, spans: &spans };
    let (front, back) = cohort_steps(5, rows(true), 1, false, true);
    assert!(front.use_ids && front.independent && front.spans.is_some());
    assert_eq!((front.logits_rows, back.logits_rows), (0, 1));
    assert!(back.draw && !back.argmax);
    let (front, _) = cohort_steps(5, rows(false), 0, false, false);
    assert!(!front.independent && front.spans.is_none());
}

fn buf(id: usize) -> DeviceBuffer {
    DeviceBuffer { id, len_bytes: 16 }
}

fn handles() -> DecodeHandles {
    DecodeHandles {
        hidden: 0,
        positions: 1,
        positions4: Some(2),
        mrope_history: None,
        rope_freqs: None,
        yarn_ff: None,
        pl_tok_in: None,
        logits: Some(3),
        h_out: Some(4),
        tok_ids: Some(5),
        u_in: Some(6),
        tok_id: Some(7),
        qwen_wide: Some(8),
        ple_embd: Some(9),
        ple_state: None,
        k_cache: vec![10],
        v_cache: vec![11],
        qsa_k_cache: vec![None],
        qsa_block_cache: vec![None],
        weights: vec![12],
    }
}

fn shared() -> SharedIo {
    SharedIo {
        rope_freqs: None,
        yarn_ff: None,
        mrope_history: None,
        weights: vec![buf(112)],
        qwen_wide: Some(buf(108)),
        ple_embd: Some(buf(109)),
        ple_state: None,
    }
}

fn caches() -> CacheBuffers {
    CacheBuffers { k: vec![buf(110)], v: vec![buf(111)], qsa_raw: vec![None], qsa_block: vec![None] }
}

fn bound_to(list: &[Binding], id: usize) -> Option<usize> {
    list.iter().rev().find(|b| b.id == id).map(|b| match &b.to {
        Bound::One(buffer) => buffer.id,
        Bound::Rows(rows) => rows[0].id,
    })
}

#[test]
fn a_chunk_carries_its_rows_in_its_own_buffers() {
    let mut chunk = ChunkIo {
        input: buf(1),
        resid: Some(buf(2)),
        pos: buf(3),
        pos4: Some(buf(4)),
        ipl: None,
        wide: Some(buf(5)),
        ple_embd: Some(buf(6)),
    };
    let list = bind_chunk(&handles(), 1, &chunk, &shared(), &caches());
    assert_eq!(bound_to(&list, 5), Some(1));
    assert_eq!(bound_to(&list, 0), Some(2));
    assert_eq!(bound_to(&list, 2), Some(4));
    assert_eq!(bound_to(&list, 8), Some(5));
    assert_eq!(bound_to(&list, 9), Some(6));
    assert_eq!(bound_to(&list, 12), Some(112));
    chunk.resid = None;
    let list = bind_chunk(&handles(), 1, &chunk, &shared(), &caches());
    assert_eq!(bound_to(&list, 0), Some(1));
}

#[test]
fn the_other_kinds_of_work_are_bound_whole() {
    let step = StepIo {
        ids: buf(1),
        hidden: buf(2),
        positions: buf(3),
        ipl: None,
        logits: buf(4),
        token: buf(5),
        uniform: buf(6),
        h_tap: Some(buf(7)),
    };
    let list = bind_span(&handles(), 1, &step, Some(buf(8)), &shared(), &caches());
    let found: Vec<Option<usize>> = (0..8).map(|id| bound_to(&list, id)).collect();
    assert_eq!(
        found,
        vec![Some(2), Some(3), Some(8), Some(4), Some(7), Some(1), Some(6), Some(5)]
    );
    let v = VerifyIo {
        hidden: buf(1),
        positions: buf(2),
        logits: buf(3),
        chosen: Some(buf(4)),
        rows: None,
    };
    let list = bind_verify(&handles(), 1, &v, &shared(), &caches());
    assert_eq!(bound_to(&list, 3), Some(3));
    assert_eq!(bound_to(&list, 7), Some(4));
    assert_eq!(bound_to(&list, 4), None);
    let ids = SharedIds {
        rope_freqs: None,
        yarn_ff: None,
        per_layer: None,
        sc_logits: Some(20),
        temp_inv: Some(21),
    };
    let c = CanvasIo {
        hidden: buf(1),
        positions: buf(2),
        logits: buf(3),
        last_logits: Some(buf(4)),
        temperature: Some(buf(5)),
        soft: Some(buf(6)),
    };
    let list = bind_canvas(&handles(), &ids, Some(22), 1, &c, &shared(), &caches());
    assert_eq!((bound_to(&list, 20), bound_to(&list, 21), bound_to(&list, 22)), (Some(4), Some(5), Some(6)));
    let io = CohortIo {
        ids: buf(1),
        hidden: buf(2),
        positions: buf(3),
        logits: Some(buf(4)),
        chosen: Some(buf(5)),
        uniforms: None,
    };
    let batch = infr_llama::bindings::BatchIo { wide: buf(7), ple_embd: None };
    let none = Vec::new();
    let list = bind_cohort(&handles(), 1, &io, &shared(), &caches(), &batch, &none, None, true);
    assert_eq!(bound_to(&list, 8), Some(7));
    assert_eq!(bound_to(&list, 9), Some(109));
    assert_eq!(bound_to(&list, 10), Some(110));
    assert_eq!(bound_to(&list, 7), Some(5));
}
