//! The bytes that buffers of ids and positions are filled with, and read back as.
//!
//! Words are handed to a device as they stand in memory: four bytes each, in the order of the
//! machine.

use bytemuck::{cast_slice, cast_slice_mut};
use vstd::prelude::*;

verus! {

/// Byte `k` of a word of 32 bits, counted from its low end.
pub open spec fn byte_of(word: int, k: int) -> int {
    let low = word % 0x1_0000_0000;
    if k == 0 {
        low % 256
    } else if k == 1 {
        low / 256 % 256
    } else if k == 2 {
        low / 65536 % 256
    } else {
        low / 16777216
    }
}

/// The bytes hold the words one after the other, each from its low end on if `little`, and from its
/// high end on otherwise.
pub open spec fn lays_out(bytes: Seq<u8>, words: Seq<int>, little: bool) -> bool {
    &&& bytes.len() == 4 * words.len()
    &&& forall|i: int, k: int|
        0 <= i < words.len() && 0 <= k < 4 ==> (#[trigger] bytes[4 * i + k]) == byte_of(
            #[trigger] words[i],
            if little {
                k
            } else {
                3 - k
            },
        )
}

/// The bytes hold the words in one of the two orders that a machine may have.
pub open spec fn holds(bytes: Seq<u8>, words: Seq<int>) -> bool {
    lays_out(bytes, words, true) || lays_out(bytes, words, false)
}

pub open spec fn signed_words(words: Seq<i32>) -> Seq<int> {
    Seq::new(words.len(), |i: int| words[i] as int)
}

pub open spec fn unsigned_words(words: Seq<u32>) -> Seq<int> {
    Seq::new(words.len(), |i: int| words[i] as int)
}

/// `bytemuck::cast_slice`, from words to bytes: the same memory, seen as bytes. A cast to bytes needs
/// no alignment and leaves no remainder, so it does not fail. Which end of a word comes first is up to
/// the machine, and is left unsaid.
#[verifier::external_body]
fn words_as_bytes(words: &Vec<i32>) -> (bytes: Vec<u8>)
    ensures
        holds(bytes@, signed_words(words@)),
{
    cast_slice::<i32, u8>(words.as_slice()).to_vec()
}

/// `bytemuck::cast_slice_mut`, on `count` words that are overwritten as bytes: the words are what the
/// bytes hold. Which end of a word comes first is up to the machine, and is left unsaid.
#[verifier::external_body]
fn words_from_bytes(bytes: &Vec<u8>, count: usize) -> (words: Vec<u32>)
    requires
        bytes@.len() == 4 * count,
    ensures
        words@.len() == count,
        holds(bytes@, unsigned_words(words@)),
{
    let mut words: Vec<u32> = vec![0; count];
    cast_slice_mut::<u32, u8>(words.as_mut_slice()).copy_from_slice(bytes.as_slice());
    words
}

/// A word of 32 bits, as the signed number with the same bits.
pub open spec fn as_signed(word: u32) -> int {
    if word < 0x8000_0000 {
        word as int
    } else {
        word - 0x1_0000_0000
    }
}

proof fn lemma_same_bytes(bytes: Seq<u8>, a: Seq<int>, b: Seq<int>)
    requires
        holds(bytes, a),
        a.len() == b.len(),
        forall|i: int| 0 <= i < a.len() ==> #[trigger] a[i] % 0x1_0000_0000 == b[i] % 0x1_0000_0000,
    ensures
        holds(bytes, b),
{
    let little = lays_out(bytes, a, true);
    assert(lays_out(bytes, a, little));
    assert forall|i: int, k: int| 0 <= i < b.len() && 0 <= k < 4 implies (#[trigger] bytes[4 * i
        + k]) == byte_of(
        #[trigger] b[i],
        if little {
            k
        } else {
            3 - k
        },
    ) by {
        assert(a[i] % 0x1_0000_0000 == b[i] % 0x1_0000_0000);
    }
    assert(lays_out(bytes, b, little));
}

/// The bytes of a list of token ids.
pub fn stage_ids(ids: &[u32]) -> (bytes: Vec<u8>)
    ensures
        holds(bytes@, unsigned_words(ids@)),
{
    let mut words: Vec<i32> = Vec::new();
    let mut i: usize = 0;
    while i < ids.len()
        invariant
            i <= ids@.len(),
            words@.len() == i,
            forall|j: int| 0 <= j < i ==> #[trigger] words@[j] == as_signed(ids@[j]),
        decreases ids@.len() - i,
    {
        let id: u32 = ids[i];
        let word: i32 = if id < 0x8000_0000 {
            id as i32
        } else {
            (id - 0x8000_0000) as i32 + i32::MIN
        };
        words.push(word);
        i = i + 1;
    }
    let bytes: Vec<u8> = words_as_bytes(&words);
    proof {
        assert forall|j: int| 0 <= j < ids@.len() implies #[trigger] signed_words(words@)[j]
            % 0x1_0000_0000 == unsigned_words(ids@)[j] % 0x1_0000_0000 by {
            assert(words@[j] == as_signed(ids@[j]));
        }
        lemma_same_bytes(bytes@, signed_words(words@), unsigned_words(ids@));
    }
    bytes
}

pub open spec fn row_words(rows: Seq<usize>) -> Seq<int> {
    Seq::new(rows.len(), |i: int| rows[i] as int)
}

/// The bytes of a list of rows, of each the low 32 bits.
pub fn stage_rows(rows: &Vec<usize>) -> (bytes: Vec<u8>)
    ensures
        holds(bytes@, row_words(rows@)),
{
    let mut low: Vec<u32> = Vec::new();
    let mut i: usize = 0;
    while i < rows.len()
        invariant
            i <= rows@.len(),
            low@.len() == i,
            forall|j: int| 0 <= j < i ==> #[trigger] low@[j] == (rows@[j] as int) % 0x1_0000_0000,
        decreases rows@.len() - i,
    {
        low.push(((rows[i] as u64) % 0x1_0000_0000) as u32);
        i = i + 1;
    }
    let bytes: Vec<u8> = stage_ids(low.as_slice());
    proof {
        assert forall|j: int| 0 <= j < low@.len() implies #[trigger] unsigned_words(low@)[j]
            % 0x1_0000_0000 == row_words(rows@)[j] % 0x1_0000_0000 by {
            assert(low@[j] == (rows@[j] as int) % 0x1_0000_0000);
        }
        lemma_same_bytes(bytes@, unsigned_words(low@), row_words(rows@));
    }
    bytes
}

/// The bytes of a list of positions.
pub fn stage_positions(positions: &Vec<i32>) -> (bytes: Vec<u8>)
    ensures
        holds(bytes@, signed_words(positions@)),
{
    words_as_bytes(positions)
}

/// The token ids that a device wrote; nothing if the bytes are not whole words.
pub fn read_ids(bytes: &Vec<u8>) -> (ids: Option<Vec<u32>>)
    ensures
        ids is Some == (bytes@.len() % 4 == 0),
        ids matches Some(list) ==> holds(bytes@, unsigned_words(list@)),
{
    if bytes.len() % 4 == 0 {
        let count: usize = bytes.len() / 4;
        Some(words_from_bytes(bytes, count))
    } else {
        None
    }
}

/// Bytes hold one list of words only: what is read back in the order in which it was written is what
/// was written.
pub proof fn law_words_are_read_back(bytes: Seq<u8>, a: Seq<u32>, b: Seq<u32>, little: bool)
    requires
        lays_out(bytes, unsigned_words(a), little),
        lays_out(bytes, unsigned_words(b), little),
    ensures
        a == b,
{
    let x = unsigned_words(a);
    let y = unsigned_words(b);
    assert forall|i: int| 0 <= i < a.len() implies a[i] == b[i] by {
        let at = |k: int|
            if little {
                k
            } else {
                3 - k
            };
        assert(bytes[4 * i + at(0)] == byte_of(x[i], 0) && bytes[4 * i + at(0)] == byte_of(y[i], 0));
        assert(bytes[4 * i + at(1)] == byte_of(x[i], 1) && bytes[4 * i + at(1)] == byte_of(y[i], 1));
        assert(bytes[4 * i + at(2)] == byte_of(x[i], 2) && bytes[4 * i + at(2)] == byte_of(y[i], 2));
        assert(bytes[4 * i + at(3)] == byte_of(x[i], 3) && bytes[4 * i + at(3)] == byte_of(y[i], 3));
        assert(x[i] == a[i] && y[i] == b[i]);
    }
    assert(a =~= b);
}

} // verus!
