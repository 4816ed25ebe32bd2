//! Resident prefixes, token checks and the shape of requests.

use infr_llama::error::Error;
use infr_llama::parallel_decode::sampling_suffix_start;
use infr_llama::parallel_prefill::{parallel_prefill_progress, GenerationPhase};
use infr_llama::prefix::{
    checkpoint_extension_start, common_prefix_len, live_prefix_len, longest_prefix,
    recurrent_extension_start, resident_after_gen, same_tokens, validate_token_ids,
};
use infr_llama::prompt::{check_dense_request, dense_request_exceeds_capacity};
use infr_llama::rope::mrope_rows_are_plain_rope;
use infr_llama::share::allocate_parallel_prefill_rows;

#[test]
fn generated_mrope_rows_collapse_to_plain_rope() {
    let positions = [3, 4, 5, 0, 100, 100, 100, 0, 101, 101, 101, 0];
    assert!(mrope_rows_are_plain_rope(&positions, 1, 2, [11, 11, 10, 0], 32));
}

#[test]
fn image_mrope_rows_keep_four_dimensional_rope() {
    let positions = [100, 4, 7, 0];
    assert!(!mrope_rows_are_plain_rope(&positions, 0, 1, [11, 11, 10, 0], 32));
}

#[test]
fn plain_rope_requires_consecutive_logical_positions() {
    let positions = [100, 100, 100, 0, 102, 102, 102, 0];
    assert!(!mrope_rows_are_plain_rope(&positions, 0, 2, [11, 11, 10, 0], 32));
}

#[test]
fn plain_rope_refuses_what_it_cannot_read() {
    let positions = [7, 7, 7, 0];
    assert!(mrope_rows_are_plain_rope(&positions, 0, 1, [11, 11, 10, 0], 32));
    assert!(!mrope_rows_are_plain_rope(&positions, 0, 0, [11, 11, 10, 0], 32));
    assert!(!mrope_rows_are_plain_rope(&positions, 0, 1, [11, 11, 10, 0], 0));
    assert!(!mrope_rows_are_plain_rope(&positions, 0, 1, [0, 0, 0, 0], 32));
    assert!(!mrope_rows_are_plain_rope(&positions, 1, 1, [11, 11, 10, 0], 32));
    assert!(!mrope_rows_are_plain_rope(&positions, usize::MAX, 1, [11, 11, 10, 0], 32));
    assert!(!mrope_rows_are_plain_rope(&positions, usize::MAX / 2, 1, [11, 11, 10, 0], 32));
    let negative = [-1, -1, -1, 0];
    assert!(!mrope_rows_are_plain_rope(&negative, 0, 1, [11, 11, 10, 0], 32));
}

#[test]
fn parallel_token_steps_do_not_double_count_the_uncached_prompt_tail() {
    let prompt_tokens = 88_803usize;
    let cached_tokens = 88_751usize;
    let generated_tokens = 75_036usize;
    let max_steps =
        prompt_tokens.saturating_sub(1).saturating_sub(cached_tokens) + generated_tokens;
    let context_limit = 163_840;

    assert_eq!(max_steps, 75_087);
    assert!(dense_request_exceeds_capacity(prompt_tokens, max_steps, context_limit, false));
    assert!(!dense_request_exceeds_capacity(prompt_tokens, max_steps, context_limit, true));
    assert!(cached_tokens + max_steps <= context_limit);
}

#[test]
fn a_request_needs_one_row_more_than_its_tokens() {
    assert!(!dense_request_exceeds_capacity(10, 5, 16, false));
    assert!(dense_request_exceeds_capacity(10, 6, 16, false));
    assert!(dense_request_exceeds_capacity(usize::MAX, usize::MAX, 16, false));
}

#[test]
fn parallel_prefill_progress_reports_cached_and_evaluated_tokens() {
    let progress = parallel_prefill_progress(4_096, 1_024, 2_560, 32_768);
    assert_eq!(progress.phase, GenerationPhase::Prefill);
    assert_eq!(progress.prompt_tokens, 4_096);
    assert_eq!(progress.cached_prompt_tokens, 1_024);
    assert_eq!(progress.prefill_tokens, 1_536);
    assert_eq!(progress.context_tokens, 2_560);
    assert_eq!(progress.context_limit, 32_768);
}

#[test]
fn progress_never_counts_below_the_cached_prefix() {
    let progress = parallel_prefill_progress(100, 60, 40, 128);
    assert_eq!(progress.prefill_tokens, 0);
    assert_eq!(progress.completion_tokens, 0);
}

#[test]
fn parallel_prefill_redistributes_unused_rows() {
    assert_eq!(allocate_parallel_prefill_rows(&[10, 2_000], 1_024), [10, 1_014]);
    assert_eq!(allocate_parallel_prefill_rows(&[2_000, 2_000], 1_025), [513, 512]);
    assert_eq!(allocate_parallel_prefill_rows(&[10, 20], 1_024), [10, 20]);
    assert!(allocate_parallel_prefill_rows(&[], 1_024).is_empty());
}

#[test]
fn rows_are_shared_out_to_the_last_one() {
    assert_eq!(allocate_parallel_prefill_rows(&[5, 5, 5], 4), [2, 2, 0]);
    assert_eq!(allocate_parallel_prefill_rows(&[1, 100, 100], 31), [1, 15, 15]);
    assert_eq!(allocate_parallel_prefill_rows(&[0, 7], 3), [0, 3]);
    assert_eq!(allocate_parallel_prefill_rows(&[3, 3], 0), [0, 0]);
}

#[test]
fn a_short_lane_has_no_fewer_rows_than_a_later_one() {
    let available = [2, 9, 4, 30, 11];
    for ubatch in 0..60 {
        let rows = allocate_parallel_prefill_rows(&available, ubatch);
        for i in 0..rows.len() {
            assert!(rows[i] == available[i] || rows[i..].iter().all(|&later| rows[i] >= later));
        }
    }
}

#[test]
fn token_step_samples_only_a_contiguous_suffix() {
    assert_eq!(sampling_suffix_start(&[10, 20, 30], &[15, 21, 31]).unwrap(), 1);
    assert_eq!(sampling_suffix_start(&[10, 20], &[15, 25]).unwrap(), 2);
    assert!(sampling_suffix_start(&[20, 10], &[21, 15]).is_err());
    assert!(sampling_suffix_start(&[10], &[11, 12]).is_err());
}

#[test]
fn sampling_refusals_say_why() {
    let lengths = sampling_suffix_start(&[10], &[11, 12]).unwrap_err();
    assert_eq!(lengths.message(), "parallel token step has 1 positions and 2 prompt ends");
    let order = sampling_suffix_start(&[20, 10], &[21, 15]).unwrap_err();
    assert_eq!(order.message(), "parallel token sampling rows are not a contiguous suffix");
}

#[test]
fn recurrent_empty_cache_never_reuses_device_state() {
    assert_eq!(recurrent_extension_start(&[], &[10, 20, 30]), None);
}

#[test]
fn recurrent_state_reuses_only_a_nonempty_exact_extension() {
    assert_eq!(recurrent_extension_start(&[10, 20], &[10, 20, 30]), Some(2));
    assert_eq!(recurrent_extension_start(&[10, 20], &[10, 20]), None);
    assert_eq!(recurrent_extension_start(&[10, 20], &[10, 99, 30]), None);
}

#[test]
fn recurrent_checkpoint_requires_a_nonempty_strict_extension() {
    assert_eq!(checkpoint_extension_start(&[10, 20], &[10, 20, 30]), Some(2));
    assert_eq!(checkpoint_extension_start(&[], &[10]), None);
    assert_eq!(checkpoint_extension_start(&[10, 20], &[10, 20]), None);
    assert_eq!(checkpoint_extension_start(&[10, 20], &[10, 99, 30]), None);
}

#[test]
fn prefixes_are_counted_from_the_front() {
    assert_eq!(common_prefix_len(&[1, 2, 3], &[1, 2, 4]), 2);
    assert_eq!(common_prefix_len(&[1, 2, 4], &[1, 2, 3]), 2);
    assert_eq!(common_prefix_len(&[], &[1]), 0);
    assert_eq!(common_prefix_len(&[1, 2], &[1, 2, 3]), 2);
    assert!(same_tokens(&[1, 2], &[1, 2]));
    assert!(!same_tokens(&[1, 2], &[1, 2, 3]));
    assert_eq!(live_prefix_len(&[1, 2, 3], &[1, 2]), Some(2));
    assert_eq!(live_prefix_len(&[1, 2, 3], &[1, 9]), None);
    assert_eq!(longest_prefix(Some(2), Some(5)), Some(5));
    assert_eq!(longest_prefix(None, Some(5)), Some(5));
    assert_eq!(longest_prefix(None, None), None);
}

#[test]
fn resident_max_new_zero_excludes_unfed_frontier() {
    let prompt = [10u32, 11, 12, 13];
    let plen = prompt.len();
    let cached = resident_after_gen(&prompt, Some(plen - 2));
    assert_eq!(cached, &prompt[..plen - 1]);
}

#[test]
fn resident_single_token_prompt_max_new_zero_is_empty() {
    let prompt = [42u32];
    assert!(resident_after_gen(&prompt, None).is_empty());
}

#[test]
fn resident_normal_gen_excludes_last_sampled() {
    let prompt = [1u32, 2, 3];
    let out = [4u32, 5, 6];
    let mut cur = prompt.to_vec();
    cur.extend_from_slice(&out[..out.len() - 1]);
    let last = cur.len() - 1;
    let cached = resident_after_gen(&cur, Some(last));
    let mut expect = prompt.to_vec();
    expect.extend_from_slice(&out[..out.len() - 1]);
    assert_eq!(cached, expect);
}

#[test]
fn resident_constrained_break_excludes_unfed_forced() {
    let prompt = [1u32, 2];
    let prev_fed = [7u32];
    let forced = [20u32, 21, 22];
    let mut cur = prompt.to_vec();
    cur.extend_from_slice(&prev_fed);
    let last = cur.len() - 1;
    cur.extend_from_slice(&forced);
    let cached = resident_after_gen(&cur, Some(last));
    let mut expect = prompt.to_vec();
    expect.extend_from_slice(&prev_fed);
    assert_eq!(cached, expect);
}

#[test]
fn resident_clamps_to_cur_len() {
    assert_eq!(resident_after_gen(&[1, 2, 3], Some(99)), vec![1, 2, 3]);
}

#[test]
fn validate_token_ids_accepts_in_range() {
    assert!(validate_token_ids(&[0, 1, 2, 99], 100).is_ok());
    assert!(validate_token_ids(&[], 100).is_ok());
}

#[test]
fn validate_token_ids_rejects_out_of_vocab() {
    let err = validate_token_ids(&[0, 1, 100], 100).unwrap_err();
    assert!(err.message().contains("out of range"));
}

#[test]
fn validate_token_ids_rejects_far_out_of_vocab() {
    assert!(validate_token_ids(&[u32::MAX], 100).is_err());
}

#[test]
fn the_first_bad_token_is_named() {
    let err = validate_token_ids(&[0, 300, 200], 100).unwrap_err();
    assert_eq!(err, Error::TokenOutOfRange { id: 300, vocab: 100 });
    assert_eq!(err.message(), "token id 300 out of range for vocab size 100");
}

#[test]
fn a_dense_request_is_refused_with_its_reason() {
    assert_eq!(
        check_dense_request(&[1, 2, 3], 10, 8, 100, false, false).unwrap_err().message(),
        "prompt 3 + gen 10 exceeds the session KV capacity 8"
    );
    assert_eq!(
        check_dense_request(&[], 1, 8, 100, false, false).unwrap_err().message(),
        "empty prompt: nothing to generate from"
    );
    assert_eq!(
        check_dense_request(&[1, 200], 1, 8, 100, false, false).unwrap_err(),
        Error::TokenOutOfRange { id: 200, vocab: 100 }
    );
    assert!(check_dense_request(&[1, 2], 5, 8, 100, false, false).is_ok());
}
