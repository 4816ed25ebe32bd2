//! Four-component positions of requests with images.

use infr_llama::error::Error;
use infr_llama::prefill::{chunk_has_image, Chunk};
use infr_llama::rope::{check_mrope_plan, position_row, position_table, ImageSpan, MropePlan};

const SECTIONS: [u32; 4] = [11, 11, 10, 0];

fn plan() -> MropePlan {
    MropePlan {
        prompt_pos4: vec![0, 0, 0, 0, 1, 1, 1, 0, 1, 1, 2, 0, 3, 3, 3, 0],
        spans: vec![ImageSpan { start: 1, n_tokens: 2, embed_values: 16 }],
        decode_base: 4,
    }
}

#[test]
fn a_sound_plan_is_accepted() {
    assert!(check_mrope_plan(&plan(), true, 4, SECTIONS, 8).is_ok());
}

#[test]
fn every_fault_of_a_plan_is_named() {
    let message = |plan: &MropePlan, supported, len, sections| {
        check_mrope_plan(plan, supported, len, sections, 8).unwrap_err().message()
    };
    assert_eq!(
        message(&plan(), false, 4, SECTIONS),
        "multimodal RoPE is currently supported only by qwen4exp"
    );
    assert_eq!(
        message(&plan(), true, 5, SECTIONS),
        "multimodal position table has 16 values for 5 prompt tokens (expected 20)"
    );
    assert_eq!(
        message(&plan(), true, 4, [0, 0, 0, 0]),
        "qwen4exp multimodal RoPE sections are empty"
    );
    let mut bad = plan();
    bad.spans[0].start = usize::MAX;
    assert_eq!(message(&bad, true, 4, SECTIONS), "image span #0 overflows token indices");
    let mut bad = plan();
    bad.spans[0].n_tokens = 4;
    assert_eq!(
        message(&bad, true, 4, SECTIONS),
        "invalid image span #0: 1..5 for prompt length 4"
    );
    let mut bad = plan();
    bad.spans[0].n_tokens = 0;
    assert_eq!(
        check_mrope_plan(&bad, true, 4, SECTIONS, 8),
        Err(Error::InvalidImageSpan { index: 0, start: 1, end: 1, prompt_len: 4 })
    );
    let mut bad = plan();
    bad.spans.push(ImageSpan { start: 2, n_tokens: 1, embed_values: 8 });
    assert_eq!(
        check_mrope_plan(&bad, true, 4, SECTIONS, 8),
        Err(Error::InvalidImageSpan { index: 1, start: 2, end: 3, prompt_len: 4 })
    );
    let mut bad = plan();
    bad.spans[0].embed_values = 15;
    assert_eq!(
        message(&bad, true, 4, SECTIONS),
        "image span #0 has 15 embedding values, expected 16"
    );
    let mut bad = plan();
    bad.decode_base = -1;
    assert_eq!(
        message(&bad, true, 4, SECTIONS),
        "multimodal decode base must be non-negative, got -1"
    );
}

#[test]
fn the_table_goes_on_in_plain_steps() {
    let table = position_table(&plan(), 4, 6).unwrap();
    assert_eq!(table[..16], plan().prompt_pos4[..]);
    assert_eq!(table[16..], [4, 4, 4, 0, 5, 5, 5, 0]);
    assert_eq!(position_row(&plan(), 4, 2).unwrap(), [1, 1, 2, 0]);
    assert_eq!(position_row(&plan(), 4, 5).unwrap(), [5, 5, 5, 0]);
}

#[test]
fn positions_stay_in_range() {
    let mut far = plan();
    far.decode_base = i32::MAX;
    assert_eq!(position_table(&far, 4, 6).unwrap_err(), Error::MropeDecodeOverflow);
    assert_eq!(position_row(&far, 4, 5).unwrap_err(), Error::MropeDecodeOverflow);
    assert_eq!(position_row(&plan(), 4, usize::MAX).unwrap_err(), Error::MropeDecodeRange);
    assert_eq!(
        Error::MropeContextRange.message(),
        "multimodal context exceeds i32 position range"
    );
}

#[test]
fn chunks_know_their_images() {
    let spans = plan().spans;
    assert!(chunk_has_image(&spans, Chunk { start: 0, end: 2 }));
    assert!(chunk_has_image(&spans, Chunk { start: 2, end: 4 }));
    assert!(!chunk_has_image(&spans, Chunk { start: 3, end: 4 }));
    assert!(!chunk_has_image(&spans, Chunk { start: 0, end: 1 }));
}
