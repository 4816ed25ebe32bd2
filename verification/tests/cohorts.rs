//! Prefill and decoding of several sessions at once, and of one.

use infr_llama::config::DType;
use infr_llama::decode::{ChainGate, DecodeLoop, LoopAction, StepResult};
use infr_llama::error::Error;
use infr_llama::parallel_decode::{
    check_step_shape, DecodeRequest, DecodeSupport, EndRule, ParallelDecode,
};
use infr_llama::parallel_prefill::{
    batch_positions, batch_tokens, check_parallel_prefill, check_prefill_shape, qsa_threshold,
    GenerationPhase, ParallelPrefill,
};
use infr_llama::prefill::{
    batched_prefill_ok, chunk_rows, decode_start, generation_progress, group_size, layer_spans,
    prefill_chunks, prefill_work, snapshot_due, Chunk, PrefillWork, SnapshotDue,
};
use infr_llama::prefix::recurrent_extension_start;
use infr_llama::prompt::{check_dense_request, PreparedParallelPrompt};

fn prepared(start: usize, checkpoint_boundary: Option<usize>) -> PreparedParallelPrompt {
    PreparedParallelPrompt { start, checkpoint_boundary }
}

#[test]
fn prefill_requests_are_checked_in_order() {
    assert!(check_prefill_shape(2, 2, 2).is_ok());
    assert_eq!(
        check_prefill_shape(2, 1, 2).unwrap_err().message(),
        "parallel prefill has 2 prompts, 1 slots and 2 prepared states"
    );
    let prompts = vec![vec![1, 2], vec![3]];
    let caps = vec![8, 8];
    let check = |model, images, prompts: &Vec<Vec<u32>>, caps: &Vec<usize>, primary: &[u32]| {
        check_parallel_prefill(model, images, prompts, caps, 2, primary, 100)
    };
    assert!(check(true, false, &prompts, &caps, &[1, 2]).is_ok());
    assert_eq!(check(false, false, &prompts, &caps, &[1, 2]), Err(Error::PrefillUnsupported));
    assert_eq!(check(true, true, &prompts, &caps, &[1, 2]), Err(Error::PrefillMultimodal));
    assert_eq!(check(true, false, &prompts, &caps, &[9]), Err(Error::PrefillLayout));
    assert_eq!(
        check(true, false, &vec![vec![1], vec![]], &caps, &[1]),
        Err(Error::PrefillLaneEmpty { lane: 1 })
    );
    assert_eq!(
        check(true, false, &vec![vec![1], vec![200]], &caps, &[1]),
        Err(Error::TokenOutOfRange { id: 200, vocab: 100 })
    );
    assert_eq!(
        check(true, false, &prompts, &vec![8, 1], &[1, 2]),
        Err(Error::PrefillLaneExceeds { lane: 1, prompt: 1, capacity: 1 })
    );
    assert_eq!(
        Error::PrefillNeedsEmbedding.message(),
        "parallel prefill requires Vulkan GPU embedding"
    );
}

#[test]
fn a_cohort_feeds_every_lane_to_its_target() {
    let prompts = vec![(0..10).collect::<Vec<u32>>(), (0..4).collect()];
    let lens = vec![10, 4];
    let lanes = vec![prepared(2, Some(5)), prepared(0, None)];
    let mut cohort = ParallelPrefill::new(&lens, &lanes, 4, 100);
    let first = cohort.next_step().unwrap().unwrap();
    assert_eq!(first.lanes, vec![0, 1]);
    assert_eq!(first.batch, 4);
    assert!(first.independent_rows);
    assert_eq!(batch_tokens(&prompts, &first), vec![2, 3, 0, 1]);
    assert_eq!(batch_positions(&first), vec![2, 3, 0, 1]);
    assert!(cohort.complete(&first).is_empty());
    let second = cohort.next_step().unwrap().unwrap();
    // The first lane stops at its checkpoint, the other takes what is left of it.
    assert_eq!(second.spans[0].rows, 1);
    assert_eq!(second.spans[1].rows, 1);
    assert_eq!(cohort.complete(&second), vec![0]);
    let mut steps = 2;
    while let Some(step) = cohort.next_step().unwrap() {
        cohort.complete(&step);
        steps += 1;
    }
    assert_eq!(steps, 3);
    assert_eq!(cohort.lanes[0].cursor, 9);
    assert_eq!(cohort.lanes[1].cursor, 3);
    assert_eq!(cohort.resident(0, &prompts[0]).unwrap(), prompts[0][..9].to_vec());
    let progress = cohort.progress(0, 10, 64);
    assert_eq!(progress.cached_prompt_tokens, 2);
    assert_eq!(progress.prefill_tokens, 7);
    assert!(cohort.feeds(0) && cohort.feeds(1));
    let idle = ParallelPrefill::new(&vec![4, 4], &vec![prepared(3, None), prepared(0, None)], 4, 9);
    assert!(!idle.feeds(0) && idle.feeds(1));
}

#[test]
fn dense_and_sparse_rows_are_never_mixed() {
    let lens = vec![12, 12];
    let lanes = vec![prepared(0, None), prepared(8, None)];
    let cohort = ParallelPrefill::new(&lens, &lanes, 64, 5);
    let step = cohort.next_step().unwrap().unwrap();
    assert_eq!(step.lanes, vec![0]);
    assert!(!step.independent_rows);
    assert_eq!(step.batch, 5);
    assert_eq!(qsa_threshold(&vec![0, 4, 2], 8), 11);
    assert_eq!(qsa_threshold(&vec![], 8), 11);
}

#[test]
fn a_lane_without_progress_is_an_error() {
    assert_eq!(
        Error::PrefillNoProgress { lane: 1, position: 7 }.message(),
        "parallel prefill lane 1 made no progress at position 7"
    );
}

fn decode_request() -> DecodeRequest {
    DecodeRequest {
        prompts: vec![vec![1, 2, 3], vec![4, 5]],
        prompt_ends: vec![3, 2],
        checkpoint_boundaries: vec![None, Some(2)],
        cached: vec![vec![1], vec![4]],
        capacities: vec![16, 16],
        samplers: 2,
        max_steps: 4,
    }
}

const SUPPORT: DecodeSupport =
    DecodeSupport { model: true, multimodal: false, gpu_embed: true, threshold: 100 };

#[test]
fn decode_requests_are_checked_in_order() {
    assert!(check_step_shape(2, 2, 2, 2, 2).is_ok());
    assert_eq!(
        check_step_shape(2, 2, 2, 2, 1).unwrap_err().message(),
        "parallel token step has 2 prompts, 2 prompt ends, 2 checkpoints, 2 slots and 1 samplers"
    );
    assert!(decode_request().check(SUPPORT).is_ok());
    let with = |f: &dyn Fn(&mut DecodeSupport)| {
        let mut s = SUPPORT;
        f(&mut s);
        decode_request().check(s)
    };
    assert_eq!(with(&|s| s.model = false), Err(Error::DecodeUnsupported));
    assert_eq!(with(&|s| s.multimodal = true), Err(Error::DecodeMultimodal));
    assert_eq!(with(&|s| s.gpu_embed = false), Err(Error::DecodeNeedsEmbedding));
    assert_eq!(with(&|s| s.threshold = 1), Ok(()));
    let change = |f: &dyn Fn(&mut DecodeRequest)| {
        let mut r = decode_request();
        f(&mut r);
        r.check(SUPPORT)
    };
    assert_eq!(
        change(&|r| {
            r.prompts = vec![vec![1]; 9];
            r.cached = vec![vec![]; 9];
            r.capacities = vec![4; 9];
        }),
        Err(Error::DecodeLanes { lanes: 9 })
    );
    assert_eq!(
        change(&|r| r.samplers = 3),
        Err(Error::DecodeSamplers { lanes: 2, samplers: 3 })
    );
    assert_eq!(
        change(&|r| r.prompt_ends = vec![3]),
        Err(Error::DecodeLists { lanes: 2, ends: 1, checkpoints: 2 })
    );
    assert_eq!(
        change(&|r| r.cached[1] = vec![4, 5]),
        Err(Error::DecodeLaneWithoutInput { lane: 1, depth: 2 })
    );
    assert_eq!(
        change(&|r| r.capacities[1] = 4),
        Err(Error::DecodeLaneExceeds { lane: 1, capacity: 4 })
    );
    assert_eq!(
        change(&|r| r.capacities[0] = 4),
        Err(Error::DecodePrimaryWithoutRoom { steps: 4, depth: 1 })
    );
    assert_eq!(
        change(&|r| r.prompt_ends[0] = 9),
        Err(Error::DecodePromptEnd { lane: 0, end: 9, tokens: 3 })
    );
    assert_eq!(
        change(&|r| {
            r.prompts[1] = vec![4, 5, 6, 7];
            r.prompt_ends[1] = 4;
        }),
        Err(Error::DecodeOrder)
    );
    assert_eq!(
        Error::DecodeMixed.message(),
        "parallel decode cannot mix dense and sparse QSA rows in one graph"
    );
}

#[test]
fn lanes_feed_their_prompts_before_they_sample() {
    let mut cohort = ParallelDecode::new(decode_request(), SUPPORT);
    let rule = EndRule { ignore: false, eos: 99, eos_ids: vec![98] };
    assert!(rule.is_eos(99) && rule.is_eos(98) && !rule.is_eos(1));
    let step = cohort.plan();
    assert_eq!(step.positions, vec![1, 1]);
    assert_eq!(step.ids, vec![2, 5]);
    assert_eq!(step.sample_from, 1);
    let outcome = cohort.finish(&rule, &vec![7], &vec![true], false);
    assert_eq!(outcome.snapshots, vec![1]);
    assert!(!outcome.stop);
    let step = cohort.plan();
    assert_eq!(step.ids, vec![3, 7]);
    assert_eq!(step.sample_from, 0);
    let outcome = cohort.finish(&rule, &vec![99, 8], &vec![true, true], false);
    assert!(outcome.stop);
    assert!(!cohort.more());
    assert_eq!(cohort.resident(0), vec![1, 2, 3]);
    assert_eq!(cohort.resident(1), vec![4, 5, 7]);
}

#[test]
fn a_prompt_is_cut_at_its_boundaries() {
    let cut = |start, end, rows, checkpoint, sparse| -> Vec<(usize, usize)> {
        prefill_chunks(start, end, rows, checkpoint, sparse).iter().map(|c| (c.start, c.end)).collect()
    };
    assert_eq!(cut(0, 10, 4, None, None), vec![(0, 4), (4, 8), (8, 10)]);
    assert_eq!(cut(0, 10, 4, Some(6), None), vec![(0, 4), (4, 6), (6, 10)]);
    assert_eq!(cut(0, 10, 4, None, Some(5)), vec![(0, 4), (4, 5), (5, 9), (9, 10)]);
    assert_eq!(cut(5, 5, 4, None, None), vec![]);
}

#[test]
fn work_is_ordered_span_by_span() {
    let executed = vec![
        PrefillWork::Execute { span: 0, chunk: 0 },
        PrefillWork::Execute { span: 0, chunk: 1 },
        PrefillWork::Execute { span: 1, chunk: 0 },
        PrefillWork::Execute { span: 1, chunk: 1 },
    ];
    assert_eq!(prefill_work(2, 2, 2, false), executed);
    let work = prefill_work(2, 2, 2, true);
    assert_eq!(
        work,
        vec![
            PrefillWork::Materialize { chunk: 0 },
            PrefillWork::Materialize { chunk: 1 },
            PrefillWork::Execute { span: 0, chunk: 0 },
            PrefillWork::Execute { span: 0, chunk: 1 },
            PrefillWork::Execute { span: 1, chunk: 0 },
            PrefillWork::Execute { span: 1, chunk: 1 },
        ]
    );
    let spans: Vec<(usize, usize)> = layer_spans(3, true).iter().map(|c| (c.start, c.end)).collect();
    assert_eq!(spans, vec![(0, 1), (1, 2), (2, 3)]);
    let whole: Vec<(usize, usize)> = layer_spans(3, false).iter().map(|c| (c.start, c.end)).collect();
    assert_eq!(whole, vec![(0, 3)]);
    assert_eq!(group_size(false, false, 3, 0), 1);
    assert_eq!(group_size(false, false, 3, 9), 9);
    assert_eq!(group_size(true, false, 3, 9), 9);
    assert_eq!(group_size(true, true, 3, 9), 3);
}

#[test]
fn snapshots_are_due_at_the_boundary() {
    assert_eq!(snapshot_due(4, Some(5), false, 0, false, false), SnapshotDue::Nothing);
    assert_eq!(snapshot_due(5, Some(5), false, 0, false, false), SnapshotDue::Everything);
    assert_eq!(
        snapshot_due(5, Some(5), true, 2, true, true),
        SnapshotDue::Layer { layer: 2, ple: true }
    );
    assert_eq!(snapshot_due(5, None, true, 2, true, true), SnapshotDue::Nothing);
}

#[test]
fn prefill_is_batched_where_kernels_allow() {
    assert!(batched_prefill_ok(false, false, DType::F16, DType::F16, false, false, false));
    assert!(!batched_prefill_ok(false, true, DType::F16, DType::F16, false, false, false));
    assert!(!batched_prefill_ok(false, false, DType::F16, DType::F16, true, false, false));
    assert!(batched_prefill_ok(false, false, DType::F16, DType::F16, true, false, true));
    assert_eq!(decode_start(10, 3, true), 9);
    assert_eq!(decode_start(10, 3, false), 3);
    assert_eq!(chunk_rows(false, 512, 128), 512);
    assert_eq!(chunk_rows(true, 512, 128), 128);
}

#[test]
fn progress_is_counted_within_the_prompt() {
    let p = generation_progress(GenerationPhase::Prefill, 10, 4, 100, 0, 64);
    assert_eq!(p.context_tokens, 10);
    assert_eq!(p.prefill_tokens, 6);
    let d = generation_progress(GenerationPhase::Decode, 10, 4, 6, 3, 64);
    assert_eq!(d.context_tokens, 13);
    assert_eq!(d.completion_tokens, 3);
}

const NO_CHAIN: ChainGate = ChainGate { can_chain: false, wanted: 0, device: 0, wants_logits: false };

#[test]
fn a_turn_feeds_samples_and_stops() {
    let rule = EndRule { ignore: false, eos: 9, eos_ids: vec![] };
    let mut turn = DecodeLoop::new(&[1, 2], 0, 3);
    assert_eq!(turn.next(false, NO_CHAIN), LoopAction::Step { pos: 0, token: 1, sample: false });
    turn.step(&rule, StepResult::Fed);
    assert_eq!(turn.next(false, NO_CHAIN), LoopAction::Step { pos: 1, token: 2, sample: true });
    turn.step(&rule, StepResult::Sampled { token: 5, abort: false });
    assert_eq!(turn.next(false, NO_CHAIN), LoopAction::Step { pos: 2, token: 5, sample: true });
    turn.step(&rule, StepResult::Sampled { token: 9, abort: false });
    assert_eq!(turn.next(false, NO_CHAIN), LoopAction::Stop);
    assert_eq!(turn.resident(), vec![1, 2, 5]);
    let counts = turn.counts(0);
    assert_eq!(counts.n_prompt, 2);
    assert_eq!(counts.n_cached, 0);
    assert_eq!(turn.next(true, NO_CHAIN), LoopAction::Stop);
}

#[test]
fn nothing_is_sampled_when_nothing_is_asked_for() {
    let rule = EndRule { ignore: true, eos: 9, eos_ids: vec![] };
    let mut turn = DecodeLoop::new(&[1, 2, 3], 1, 0);
    turn.step(&rule, StepResult::Fed);
    assert_eq!(turn.next(false, NO_CHAIN), LoopAction::Stop);
    assert_eq!(turn.resident(), vec![1, 2]);
    assert!(turn.out.is_empty());
}

#[test]
fn tokens_are_chained_up_to_every_limit() {
    let rule = EndRule { ignore: true, eos: 9, eos_ids: vec![] };
    let gate = ChainGate { can_chain: true, wanted: 8, device: 5, wants_logits: false };
    let mut turn = DecodeLoop::new(&[1], 0, 7);
    assert_eq!(turn.next(false, gate), LoopAction::Chain { pos: 0, token: 1, n: 5 });
    for token in 10..15 {
        assert!(!turn.chained(&rule, token, false));
    }
    assert_eq!(turn.next(false, gate), LoopAction::Chain { pos: 5, token: 14, n: 2 });
    let waiting = ChainGate { wants_logits: true, ..gate };
    assert_eq!(
        turn.next(false, waiting),
        LoopAction::Step { pos: 5, token: 14, sample: true }
    );
    assert_eq!(DecodeLoop::uniform_slot(65, true), 1);
    assert_eq!(DecodeLoop::uniform_slot(65, false), 0);
}

#[test]
fn forced_tokens_that_are_not_fed_are_not_resident() {
    let mut turn = DecodeLoop::new(&[1, 2], 1, 9);
    turn.step_constrained(&vec![20, 21], false, true);
    assert_eq!(turn.resident(), vec![1, 2]);
    assert_eq!(turn.next(false, NO_CHAIN), LoopAction::Stop);
    let mut turn = DecodeLoop::new(&[1, 2], 1, 9);
    assert!(turn.snapshot_due(Some(2)));
    assert!(!turn.snapshot_due(Some(1)));
    turn.stop();
    assert_eq!(turn.next(false, NO_CHAIN), LoopAction::Stop);
    assert_eq!(Chunk { start: 1, end: 2 }.end, 2);
}

#[test]
fn an_accepted_turn_stays_within_its_context() {
    let rule = EndRule { ignore: true, eos: 9, eos_ids: vec![] };
    assert!(check_dense_request(&[1, 2], 3, 5, 10, false, false).is_err());
    assert!(check_dense_request(&[1, 2], 3, 6, 10, false, false).is_ok());
    let mut turn = DecodeLoop::new(&[1, 2], 0, 3);
    let mut token = 4;
    while let LoopAction::Step { sample, .. } = turn.next(false, NO_CHAIN) {
        token += 1;
        let sampled = StepResult::Sampled { token, abort: false };
        turn.step(&rule, if sample { sampled } else { StepResult::Fed });
    }
    assert_eq!(turn.out, vec![6, 7, 8]);
    assert_eq!(turn.resident(), vec![1, 2, 6, 7]);
}

#[test]
fn a_turn_records_its_prompt_and_what_it_fed() {
    let rule = EndRule { ignore: false, eos: 9, eos_ids: vec![] };
    let gate = ChainGate { can_chain: true, wanted: 8, device: 8, wants_logits: false };
    let mut turn = DecodeLoop::new(&[1, 2, 3], 1, 5);
    assert_eq!(turn.resident(), vec![1]);
    turn.step(&rule, StepResult::Fed);
    assert_eq!(turn.resident(), vec![1, 2]);
    turn.step(&rule, StepResult::Sampled { token: 4, abort: false });
    assert_eq!(turn.resident(), vec![1, 2, 3]);
    assert_eq!(turn.next(false, gate), LoopAction::Chain { pos: 3, token: 4, n: 4 });
    assert!(!turn.chained(&rule, 5, false));
    assert_eq!(turn.resident(), vec![1, 2, 3, 4]);
    assert!(turn.chained(&rule, 9, false));
    assert_eq!(turn.out, vec![4, 5, 9]);
    assert_eq!(turn.resident(), vec![1, 2, 3, 4, 5]);
    let again = [1, 2, 3, 4, 5, 9, 11];
    assert_eq!(recurrent_extension_start(&turn.resident(), &again), Some(5));
}

#[test]
fn cohorts_stay_within_their_contexts() {
    let request = decode_request();
    let capacities = request.capacities.clone();
    let mut cohort = ParallelDecode::new(request, SUPPORT);
    let rule = EndRule { ignore: true, eos: 99, eos_ids: vec![] };
    while cohort.more() {
        let rows = capacities.len() - cohort.plan().sample_from;
        cohort.finish(&rule, &vec![7; rows], &vec![true; rows], false);
    }
    assert!((0..capacities.len()).all(|lane| cohort.resident(lane).len() <= capacities[lane]));
    // One step feeds the rest of the first prompt; every other step generates.
    assert_eq!(cohort.lanes[0].generated.len(), 3);
    assert_eq!(cohort.lanes[1].generated.len(), 4);
    assert_eq!(cohort.resident(0), vec![1, 2, 3, 7, 7]);
    assert_eq!(cohort.resident(1), vec![4, 5, 7, 7, 7]);
}

#[test]
fn batches_stay_on_one_side_of_the_sparse_depth() {
    let threshold = qsa_threshold(&vec![0, 4, 2], 8);
    assert_eq!(threshold, 11);
    let one_sided = |start: usize, end: usize| end <= threshold || start >= threshold;
    for rows in 1..20 {
        let chunks = prefill_chunks(3, 40, rows, Some(17), Some(threshold));
        assert!(chunks.iter().all(|c| one_sided(c.start, c.end)));
    }
    let lanes = vec![prepared(2, None), prepared(0, Some(6)), prepared(15, None)];
    let mut cohort = ParallelPrefill::new(&vec![30, 18, 40], &lanes, 7, threshold);
    while let Some(step) = cohort.next_step().unwrap() {
        let start = step.spans.iter().map(|s| s.start_pos).min().unwrap();
        let end = step.spans.iter().map(|s| s.start_pos + s.rows).max().unwrap();
        assert!(one_sided(start, end));
        cohort.complete(&step);
    }
}
