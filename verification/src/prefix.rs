//! Token streams: shared prefixes, the resident part of a turn, and the vocabulary check.

use crate::error::Error;
use vstd::prelude::*;

verus! {

/// The length of the longest common prefix of two token streams.
pub open spec fn shared_prefix(left: Seq<u32>, right: Seq<u32>) -> nat
    decreases left.len(),
{
    if left.len() > 0 && right.len() > 0 && left[0] == right[0] {
        1 + shared_prefix(left.skip(1), right.skip(1))
    } else {
        0
    }
}

/// `prefix` is the beginning of `whole`.
pub open spec fn begins_with(whole: Seq<u32>, prefix: Seq<u32>) -> bool {
    prefix.len() <= whole.len() && whole.take(prefix.len() as int) == prefix
}

/// The shared prefix is the one length on which both streams agree and past which they do not.
pub proof fn lemma_shared_prefix_is_maximal(left: Seq<u32>, right: Seq<u32>, n: nat)
    requires
        n <= left.len(),
        n <= right.len(),
        forall|i: int| 0 <= i < n ==> left[i] == right[i],
        n == left.len() || n == right.len() || left[n as int] != right[n as int],
    ensures
        shared_prefix(left, right) == n,
    decreases n,
{
    if n > 0 {
        let l = left.skip(1);
        let r = right.skip(1);
        assert forall|i: int| 0 <= i < n - 1 implies l[i] == r[i] by {
            assert(left[i + 1] == right[i + 1]);
        }
        if n < left.len() && n < right.len() {
            assert(l[n - 1] == left[n as int]);
            assert(r[n - 1] == right[n as int]);
        }
        lemma_shared_prefix_is_maximal(l, r, (n - 1) as nat);
    }
}

/// Both streams agree below the shared prefix and differ, or one ends, at it.
pub proof fn lemma_shared_prefix_agrees(left: Seq<u32>, right: Seq<u32>)
    ensures
        shared_prefix(left, right) <= left.len(),
        shared_prefix(left, right) <= right.len(),
        forall|i: int| 0 <= i < shared_prefix(left, right) ==> left[i] == right[i],
        shared_prefix(left, right) < left.len() && shared_prefix(left, right) < right.len()
            ==> left[shared_prefix(left, right) as int] != right[shared_prefix(left, right) as int],
    decreases left.len(),
{
    if left.len() > 0 && right.len() > 0 && left[0] == right[0] {
        let l = left.skip(1);
        let r = right.skip(1);
        lemma_shared_prefix_agrees(l, r);
        let n = shared_prefix(left, right);
        assert forall|i: int| 0 <= i < n implies left[i] == right[i] by {
            if i > 0 {
                assert(l[i - 1] == r[i - 1]);
            }
        }
        if n < left.len() && n < right.len() {
            assert(l[n - 1] == left[n as int]);
            assert(r[n - 1] == right[n as int]);
        }
    }
}

/// A stream shares all of its tokens with another exactly when the other begins with it.
pub proof fn lemma_full_shared_prefix(left: Seq<u32>, right: Seq<u32>)
    ensures
        (shared_prefix(left, right) == left.len()) == begins_with(right, left),
{
    lemma_shared_prefix_agrees(left, right);
    let n = shared_prefix(left, right);
    if n == left.len() {
        assert(right.take(left.len() as int) =~= left);
    }
    if begins_with(right, left) {
        if n < left.len() {
            assert(right.take(left.len() as int)[n as int] == right[n as int]);
        }
    }
}

/// Sharing a prefix does not depend on the order of the two streams.
pub proof fn law_shared_prefix_is_symmetric(left: Seq<u32>, right: Seq<u32>)
    ensures
        shared_prefix(left, right) == shared_prefix(right, left),
{
    lemma_shared_prefix_agrees(right, left);
    lemma_shared_prefix_is_maximal(left, right, shared_prefix(right, left));
}

/// Whether two streams are the same.
pub fn same_tokens(left: &[u32], right: &[u32]) -> (same: bool)
    ensures
        same == (left@ == right@),
{
    let n: usize = common_prefix_len(left, right);
    proof {
        lemma_shared_prefix_agrees(left@, right@);
        if n == left@.len() && n == right@.len() {
            assert(left@ =~= right@);
        }
    }
    n == left.len() && n == right.len()
}

/// Length of the longest common prefix of `left` and `right`.
pub fn common_prefix_len(left: &[u32], right: &[u32]) -> (n: usize)
    ensures
        n == shared_prefix(left@, right@),
        n <= left@.len(),
        n <= right@.len(),
{
    let mut n: usize = 0;
    while n < left.len() && n < right.len() && left[n] == right[n]
        invariant
            n <= left@.len(),
            n <= right@.len(),
            forall|i: int| 0 <= i < n ==> left@[i] == right@[i],
        decreases left@.len() - n,
    {
        n = n + 1;
    }
    proof {
        lemma_shared_prefix_is_maximal(left@, right@, n as nat);
    }
    n
}

/// Where a recurrent session whose resident tokens are `cached` continues for `prompt`: at the end
/// of `cached`, when `cached` holds something and `prompt` goes on past it.
pub open spec fn extension_start(cached: Seq<u32>, prompt: Seq<u32>) -> Option<usize> {
    if cached.len() > 0 && cached.len() < prompt.len() && begins_with(prompt, cached) {
        Some(cached.len() as usize)
    } else {
        None
    }
}

/// The resident prefix from which a recurrent model can continue, if there is one.
///
/// An empty cache is never reusable: clearing the token list does not clear the recurrent state on
/// the device, so the state behind an empty list may be that of a discarded conversation.
pub fn recurrent_extension_start(cached: &[u32], prompt: &[u32]) -> (start: Option<usize>)
    ensures
        start == extension_start(cached@, prompt@),
{
    if cached.len() == 0 {
        return None;
    }
    let pfx: usize = common_prefix_len(cached, prompt);
    proof {
        lemma_full_shared_prefix(cached@, prompt@);
    }
    if pfx == cached.len() && pfx < prompt.len() {
        Some(pfx)
    } else {
        None
    }
}

/// The prefix that a checkpoint of `checkpoint` gives to `prompt`: all of it, when `prompt` is a
/// strict extension of a nonempty checkpoint.
pub fn checkpoint_extension_start(checkpoint: &[u32], prompt: &[u32]) -> (start: Option<usize>)
    ensures
        start == extension_start(checkpoint@, prompt@),
{
    let pfx: usize = common_prefix_len(checkpoint, prompt);
    proof {
        lemma_full_shared_prefix(checkpoint@, prompt@);
    }
    if checkpoint.len() > 0 && checkpoint.len() < prompt.len() && pfx == checkpoint.len() {
        Some(checkpoint.len())
    } else {
        None
    }
}

/// A recurrent continuation point is a nonempty proper prefix of the prompt, and the prompt up to
/// it is what is resident.
pub proof fn law_extension_is_a_proper_prefix(cached: Seq<u32>, prompt: Seq<u32>)
    requires
        cached.len() <= usize::MAX,
    ensures
        extension_start(cached, prompt) matches Some(n) ==> 0 < n < prompt.len() && prompt.take(
            n as int,
        ) == cached,
        cached.len() == 0 ==> extension_start(cached, prompt) is None,
{
}

/// Feeding a session its own resident tokens and at least one more always continues it.
pub proof fn law_appending_continues(cached: Seq<u32>, more: Seq<u32>)
    requires
        0 < cached.len() <= usize::MAX,
        more.len() > 0,
    ensures
        extension_start(cached, cached + more) == Some(cached.len() as usize),
{
    assert((cached + more).take(cached.len() as int) =~= cached);
}

/// The state that a live session can offer to `prompt`: its shared prefix, when that is the whole
/// of the resident tokens or the whole of the prompt.
pub open spec fn live_continuation(cached: Seq<u32>, prompt: Seq<u32>) -> Option<usize> {
    let score = shared_prefix(cached, prompt);
    if score > 0 && (score == cached.len() || score == prompt.len()) {
        Some(score as usize)
    } else {
        None
    }
}

/// The larger of two optional lengths; an absent one counts for nothing.
pub open spec fn longest(a: Option<usize>, b: Option<usize>) -> Option<usize> {
    match (a, b) {
        (Some(x), Some(y)) => Some(if x >= y { x } else { y }),
        (Some(x), None) => Some(x),
        (None, Some(y)) => Some(y),
        (None, None) => None,
    }
}

/// The longest state that can be continued for `prompt`, live or from a published checkpoint.
pub open spec fn continuation(
    cached: Seq<u32>,
    checkpoint: Option<Seq<u32>>,
    prompt: Seq<u32>,
) -> Option<usize> {
    longest(
        live_continuation(cached, prompt),
        match checkpoint {
            Some(tokens) => extension_start(tokens, prompt),
            None => None,
        },
    )
}

/// See [`live_continuation`].
pub fn live_prefix_len(cached: &[u32], prompt: &[u32]) -> (n: Option<usize>)
    ensures
        n == live_continuation(cached@, prompt@),
{
    let score: usize = common_prefix_len(cached, prompt);
    if score > 0 && (score == cached.len() || score == prompt.len()) {
        Some(score)
    } else {
        None
    }
}

/// See [`longest`].
pub fn longest_prefix(a: Option<usize>, b: Option<usize>) -> (n: Option<usize>)
    ensures
        n == longest(a, b),
{
    match (a, b) {
        (Some(x), Some(y)) => Some(if x >= y { x } else { y }),
        (Some(x), None) => Some(x),
        (None, Some(y)) => Some(y),
        (None, None) => None,
    }
}

/// Whatever can be continued is a nonempty prefix of the prompt that is resident or checkpointed.
pub proof fn law_continuation_is_a_resident_prefix(
    cached: Seq<u32>,
    checkpoint: Option<Seq<u32>>,
    prompt: Seq<u32>,
)
    requires
        cached.len() <= usize::MAX,
        checkpoint matches Some(tokens) ==> tokens.len() <= usize::MAX,
    ensures
        continuation(cached, checkpoint, prompt) matches Some(n) ==> 0 < n <= prompt.len() && (
        begins_with(cached, prompt.take(n as int)) || checkpoint == Some(prompt.take(n as int))),
{
    lemma_shared_prefix_agrees(cached, prompt);
    if let Some(n) = continuation(cached, checkpoint, prompt) {
        if live_continuation(cached, prompt) == Some(n) {
            assert(cached.take(n as int) =~= prompt.take(n as int));
        }
    }
}

/// The first id that names no row of a vocabulary of `vocab` entries.
pub open spec fn first_out_of_vocab(ids: Seq<u32>, vocab: usize) -> Option<u32>
    decreases ids.len(),
{
    if ids.len() == 0 {
        None
    } else if ids[0] >= vocab {
        Some(ids[0])
    } else {
        first_out_of_vocab(ids.skip(1), vocab)
    }
}

/// An id is found exactly when one is outside the vocabulary.
pub proof fn lemma_first_out_of_vocab(ids: Seq<u32>, vocab: usize)
    ensures
        first_out_of_vocab(ids, vocab) is None <==> forall|i: int|
            0 <= i < ids.len() ==> (#[trigger] ids[i]) < vocab,
        first_out_of_vocab(ids, vocab) matches Some(id) ==> id >= vocab && ids.contains(id),
    decreases ids.len(),
{
    if ids.len() > 0 && ids[0] < vocab {
        let rest = ids.skip(1);
        lemma_first_out_of_vocab(rest, vocab);
        if let Some(id) = first_out_of_vocab(rest, vocab) {
            let i = choose|i: int| 0 <= i < rest.len() && rest[i] == id;
            assert(ids[i + 1] == id);
        } else {
            assert forall|i: int| 0 <= i < ids.len() implies (#[trigger] ids[i]) < vocab by {
                if i > 0 {
                    assert(rest[i - 1] < vocab);
                }
            }
        }
    }
}

/// Checks that every id names a row of a vocabulary of `vocab` entries; the error names the first
/// id that does not.
pub fn validate_token_ids(ids: &[u32], vocab: usize) -> (checked: Result<(), Error>)
    ensures
        checked == (match first_out_of_vocab(ids@, vocab) {
            Some(id) => Err::<(), Error>(Error::TokenOutOfRange { id, vocab }),
            None => Ok(()),
        }),
        checked is Ok <==> forall|i: int| 0 <= i < ids@.len() ==> (#[trigger] ids@[i]) < vocab,
{
    let mut i: usize = 0;
    proof {
        lemma_first_out_of_vocab(ids@, vocab);
        assert(ids@.skip(0) =~= ids@);
    }
    while i < ids.len()
        invariant
            i <= ids@.len(),
            first_out_of_vocab(ids@, vocab) == first_out_of_vocab(ids@.skip(i as int), vocab),
            first_out_of_vocab(ids@, vocab) is None <==> forall|j: int|
                0 <= j < ids@.len() ==> (#[trigger] ids@[j]) < vocab,
        decreases ids@.len() - i,
    {
        assert(ids@.skip(i as int).skip(1) =~= ids@.skip(i + 1));
        if ids[i] as usize >= vocab {
            return Err(Error::TokenOutOfRange { id: ids[i], vocab });
        }
        i = i + 1;
    }
    Ok(())
}

/// The tokens whose rows are resident when the last row written is `last_written`.
pub open spec fn resident(cur: Seq<u32>, last_written: Option<usize>) -> Seq<u32> {
    match last_written {
        Some(p) => if p + 1 <= cur.len() {
            cur.take(p + 1)
        } else {
            cur
        },
        None => Seq::empty(),
    }
}

/// The tokens to record as resident after a turn. `cur` is the stream that was fed and
/// `last_written` the highest position whose row a kept token wrote.
///
/// A token that was sampled but never fed back, or queued past the point where the turn ended, has
/// no row: recording it would let the next turn attend a row that was never written.
pub fn resident_after_gen(cur: &[u32], last_written: Option<usize>) -> (kept: Vec<u32>)
    ensures
        kept@ == resident(cur@, last_written),
{
    match last_written {
        Some(p) => {
            let end: usize = if p < cur.len() {
                p + 1
            } else {
                cur.len()
            };
            first_tokens(cur, end)
        },
        None => Vec::new(),
    }
}

/// The first `n` tokens, copied.
pub fn first_tokens(tokens: &[u32], n: usize) -> (kept: Vec<u32>)
    requires
        n <= tokens@.len(),
    ensures
        kept@ == tokens@.take(n as int),
{
    let mut kept: Vec<u32> = Vec::new();
    let mut i: usize = 0;
    while i < n
        invariant
            i <= n <= tokens@.len(),
            kept@ == tokens@.take(i as int),
        decreases n - i,
    {
        kept.push(tokens[i]);
        i = i + 1;
        assert(kept@ =~= tokens@.take(i as int));
    }
    kept
}

/// The resident tokens are always a prefix of what was fed, and adding a row never removes one.
pub proof fn law_resident_grows_as_a_prefix(cur: Seq<u32>, earlier: usize, later: usize)
    requires
        earlier <= later,
    ensures
        begins_with(cur, resident(cur, Some(later))),
        begins_with(resident(cur, Some(later)), resident(cur, Some(earlier))),
        begins_with(cur, resident(cur, None)),
{
    let a = resident(cur, Some(earlier));
    let b = resident(cur, Some(later));
    assert(cur.take(b.len() as int) =~= b);
    assert(b.take(a.len() as int) =~= a);
    assert(cur.take(0) =~= Seq::<u32>::empty());
}

/// A turn that stops before its last prompt token is fed leaves exactly the rest of the prompt
/// resident, so the next turn with the same prompt still has that token to feed.
pub proof fn law_unfed_frontier_is_not_resident(prompt: Seq<u32>)
    requires
        2 <= prompt.len() <= usize::MAX,
    ensures
        resident(prompt, Some((prompt.len() - 2) as usize)) == prompt.drop_last(),
{
}

} // verus!
