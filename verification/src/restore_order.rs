//! That what a restore asks for is asked for once, in order, and belongs to the slot.

use crate::checkpoint::{
    lemma_first_index, lemma_recurrent_layers, recurrent_layers, TurnRecurrentCkpt,
};
use crate::config::Config;
use crate::seam_kv::SeamKv;
use crate::session_state::{
    committed_below, in_key_order, key_le, key_lt, key_rank, named_block, named_caches,
    named_checkpoint, named_k, named_layers, named_one, named_raw, named_state, named_unpublished,
    named_v, restore_list, sizes_of, strictly_ordered, KeyedSize, NamedBuffer, SessionBufferKey,
};
use vstd::prelude::*;

verus! {

/// No key occurs twice.
spec fn distinct(list: Seq<NamedBuffer>) -> bool {
    forall|i: int, j: int|
        0 <= i < j < list.len() ==> (#[trigger] list[i]).key != (#[trigger] list[j]).key
}

/// The kinds of all keys lie in a range.
spec fn kinds_in(list: Seq<NamedBuffer>, lo: int, hi: int) -> bool {
    forall|i: int| 0 <= i < list.len() ==> lo <= key_rank((#[trigger] list[i]).key).0 < hi
}

/// Every buffer is the slot's, under its key.
spec fn owned(slot: SeamKv, list: Seq<NamedBuffer>) -> bool {
    forall|i: int|
        0 <= i < list.len() ==> slot.buffer_named((#[trigger] list[i]).key) == Some(list[i].buffer)
}

proof fn lemma_join(
    slot: SeamKv,
    a: Seq<NamedBuffer>,
    b: Seq<NamedBuffer>,
    lo: int,
    mid: int,
    hi: int,
)
    requires
        lo <= mid <= hi,
        distinct(a),
        distinct(b),
        kinds_in(a, lo, mid),
        kinds_in(b, mid, hi),
        owned(slot, a),
        owned(slot, b),
    ensures
        distinct(a + b),
        kinds_in(a + b, lo, hi),
        owned(slot, a + b),
{
    let all = a + b;
    assert forall|i: int| 0 <= i < all.len() implies lo <= key_rank((#[trigger] all[i]).key).0 < hi
        && slot.buffer_named(all[i].key) == Some(all[i].buffer) by {
        if i < a.len() {
            assert(all[i] == a[i]);
        } else {
            assert(all[i] == b[i - a.len()]);
        }
    }
    assert forall|i: int, j: int| 0 <= i < j < all.len() implies (#[trigger] all[i]).key != (
    #[trigger] all[j]).key by {
        if j < a.len() {
            assert(all[i] == a[i] && all[j] == a[j]);
        } else if i >= a.len() {
            assert(all[i] == b[i - a.len()] && all[j] == b[j - a.len()]);
        } else {
            assert(all[i] == a[i] && all[j] == b[j - a.len()]);
        }
    }
}

proof fn lemma_raw(slot: SeamKv, n: nat)
    requires
        n <= slot.caches.qsa_raw@.len() <= u32::MAX,
    ensures
        distinct(named_raw(slot.caches.qsa_raw@, n)),
        kinds_in(named_raw(slot.caches.qsa_raw@, n), 2, 3),
        owned(slot, named_raw(slot.caches.qsa_raw@, n)),
        forall|i: int|
            0 <= i < named_raw(slot.caches.qsa_raw@, n).len() ==> key_rank(
                (#[trigger] named_raw(slot.caches.qsa_raw@, n)[i]).key,
            ).1 < n,
    decreases n,
{
    if n > 0 {
        lemma_raw(slot, (n - 1) as nat);
    }
}

proof fn lemma_block(slot: SeamKv, n: nat)
    requires
        n <= slot.caches.qsa_block@.len() <= u32::MAX,
    ensures
        distinct(named_block(slot.caches.qsa_block@, n)),
        kinds_in(named_block(slot.caches.qsa_block@, n), 3, 4),
        owned(slot, named_block(slot.caches.qsa_block@, n)),
        forall|i: int|
            0 <= i < named_block(slot.caches.qsa_block@, n).len() ==> key_rank(
                (#[trigger] named_block(slot.caches.qsa_block@, n)[i]).key,
            ).1 < n,
    decreases n,
{
    if n > 0 {
        lemma_block(slot, (n - 1) as nat);
    }
}

/// The checkpoint has distinct layers, and a key can name each.
spec fn nameable(ck: TurnRecurrentCkpt) -> bool {
    &&& ck.wf()
    &&& ck.layers@.no_duplicates()
    &&& forall|i: int| 0 <= i < ck.layers@.len() ==> (#[trigger] ck.layers@[i]) <= u32::MAX
}

proof fn lemma_layers(slot: SeamKv, ck: TurnRecurrentCkpt, n: nat)
    requires
        slot.turn_recurrent_ckpt == Some(ck),
        nameable(ck),
        n <= ck.layers@.len(),
    ensures
        distinct(named_layers(ck, n)),
        kinds_in(named_layers(ck, n), 5, 7),
        owned(slot, named_layers(ck, n)),
        forall|i: int|
            0 <= i < named_layers(ck, n).len() ==> exists|k: int|
                0 <= k < n && key_rank((#[trigger] named_layers(ck, n)[i]).key).1
                    == #[trigger] ck.layers@[k],
    decreases n,
{
    if n > 0 {
        lemma_layers(slot, ck, (n - 1) as nat);
        lemma_first_index(ck.layers@, ck.layers@[n - 1], (n - 1) as nat);
        let before = named_layers(ck, (n - 1) as nat);
        let layer = ck.layers@[n - 1] as u32;
        let two = seq![
            NamedBuffer { key: SessionBufferKey::CheckpointK(layer), buffer: ck.kbufs@[n - 1] },
            NamedBuffer { key: SessionBufferKey::CheckpointV(layer), buffer: ck.vbufs@[n - 1] },
        ];
        let all = before + two;
        assert(named_layers(ck, n) == all);
        assert forall|i: int| 0 <= i < all.len() implies exists|k: int|
            0 <= k < n && key_rank((#[trigger] all[i]).key).1 == #[trigger] ck.layers@[k] by {
            if i < before.len() {
                assert(all[i] == before[i]);
                let k = choose|k: int|
                    0 <= k < n - 1 && key_rank(before[i].key).1 == #[trigger] ck.layers@[k];
                assert(0 <= k < n);
            } else {
                assert(all[i] == two[i - before.len()]);
                assert(key_rank(all[i].key).1 == ck.layers@[n - 1]);
            }
        }
        assert forall|i: int| 0 <= i < all.len() implies 5 <= key_rank((#[trigger] all[i]).key).0
            < 7 && slot.buffer_named(all[i].key) == Some(all[i].buffer) by {
            if i < before.len() {
                assert(all[i] == before[i]);
            } else {
                assert(all[i] == two[i - before.len()]);
                assert(ck.layers@[n - 1] == layer as usize);
            }
        }
        assert forall|i: int, j: int| 0 <= i < j < all.len() implies (#[trigger] all[i]).key != (
        #[trigger] all[j]).key by {
            if j < before.len() {
                assert(all[i] == before[i] && all[j] == before[j]);
            } else if i < before.len() {
                assert(all[i] == before[i]);
                assert(all[j] == two[j - before.len()]);
                let k = choose|k: int|
                    0 <= k < n - 1 && key_rank(before[i].key).1 == #[trigger] ck.layers@[k];
                assert(ck.layers@[k] != ck.layers@[n - 1]);
            } else {
                assert(all[i] == two[0] && all[j] == two[1]);
            }
        }
    }
}

proof fn lemma_checkpoint(slot: SeamKv, ck: TurnRecurrentCkpt)
    requires
        slot.turn_recurrent_ckpt == Some(ck),
        nameable(ck),
    ensures
        distinct(named_checkpoint(ck)),
        kinds_in(named_checkpoint(ck), 5, 8),
        owned(slot, named_checkpoint(ck)),
{
    lemma_layers(slot, ck, ck.layers@.len());
    lemma_join(
        slot,
        named_layers(ck, ck.layers@.len()),
        named_one(SessionBufferKey::CheckpointPle, ck.ple_state),
        5,
        7,
        8,
    );
}

proof fn lemma_caches(slot: SeamKv, n: nat)
    requires
        slot.fits(n),
        n <= u32::MAX,
    ensures
        distinct(named_caches(slot)),
        kinds_in(named_caches(slot), 0, 5),
        owned(slot, named_caches(slot)),
{
    let a = named_k(slot.caches.k@);
    let b = named_v(slot.caches.v@);
    let c = named_raw(slot.caches.qsa_raw@, n);
    let d = named_block(slot.caches.qsa_block@, n);
    let e = named_one(SessionBufferKey::PleState, slot.ple_state_buf);
    lemma_raw(slot, n);
    lemma_block(slot, n);
    lemma_join(slot, a, b, 0, 1, 2);
    lemma_join(slot, a + b, c, 0, 2, 3);
    lemma_join(slot, a + b + c, d, 0, 3, 4);
    lemma_join(slot, a + b + c + d, e, 0, 4, 5);
}

/// An entry stands for a buffer of the slot: it has the buffer's key and its committed bytes.
pub open spec fn stands_for(
    entry: KeyedSize,
    slot: SeamKv,
    list: Seq<NamedBuffer>,
    committed: Seq<usize>,
    k: int,
) -> bool {
    &&& 0 <= k < list.len()
    &&& entry.key == list[k].key
    &&& entry.bytes == committed[k]
    &&& slot.buffer_named(entry.key) == Some(list[k].buffer)
}

/// A committed buffer comes from the list, behind the one before it.
proof fn lemma_committed(list: Seq<NamedBuffer>, committed: Seq<usize>, n: nat)
    requires
        distinct(list),
        n <= list.len() == committed.len(),
    ensures
        forall|i: int|
            0 <= i < committed_below(list, committed, n).len() ==> exists|k: int|
                0 <= k < n && (#[trigger] committed_below(list, committed, n)[i]).key == (
                #[trigger] list[k]).key && committed_below(list, committed, n)[i].committed_bytes
                    == committed[k] && committed[k] > 0,
        forall|i: int, j: int|
            0 <= i < j < committed_below(list, committed, n).len() ==> (
            #[trigger] committed_below(list, committed, n)[i]).key != (
            #[trigger] committed_below(list, committed, n)[j]).key,
    decreases n,
{
    if n > 0 {
        lemma_committed(list, committed, (n - 1) as nat);
        let before = committed_below(list, committed, (n - 1) as nat);
        let all = committed_below(list, committed, n);
        assert forall|i: int| 0 <= i < all.len() implies exists|k: int|
            0 <= k < n && (#[trigger] all[i]).key == (#[trigger] list[k]).key
                && all[i].committed_bytes == committed[k] && committed[k] > 0 by {
            if i < before.len() {
                assert(all[i] == before[i]);
                let k = choose|k: int|
                    0 <= k < n - 1 && before[i].key == (#[trigger] list[k]).key
                        && before[i].committed_bytes == committed[k] && committed[k] > 0;
                assert(0 <= k < n);
            } else {
                assert(all[i].key == list[n - 1].key);
            }
        }
        assert forall|i: int, j: int| 0 <= i < j < all.len() implies (#[trigger] all[i]).key != (
        #[trigger] all[j]).key by {
            assert(all[i] == before[i]);
            if j < before.len() {
                assert(all[j] == before[j]);
            } else {
                let k = choose|k: int|
                    0 <= k < n - 1 && before[i].key == (#[trigger] list[k]).key
                        && before[i].committed_bytes == committed[k] && committed[k] > 0;
                assert(list[k].key != list[n - 1].key);
            }
        }
    }
}

proof fn lemma_rank_is_injective(a: SessionBufferKey, b: SessionBufferKey)
    ensures
        key_rank(a) == key_rank(b) ==> a == b,
{
}

/// Of a slot's own buffers and those of an unpublished checkpoint, no two share a key.
proof fn lemma_names(slot: SeamKv, n: nat)
    requires
        slot.fits(n),
        n <= u32::MAX,
        slot.names_once(),
    ensures
        distinct(named_state(slot)),
        owned(slot, named_state(slot)),
        distinct(named_unpublished(slot)),
        owned(slot, named_unpublished(slot)),
        named_unpublished(slot).len() > 0 ==> kinds_in(named_state(slot), 0, 5) && kinds_in(
            named_unpublished(slot),
            5,
            8,
        ),
{
    lemma_caches(slot, n);
    let caches = named_caches(slot);
    match slot.turn_recurrent_ckpt {
        Some(ck) => {
            lemma_checkpoint(slot, ck);
            if ck.valid {
                lemma_join(slot, caches, named_checkpoint(ck), 0, 5, 8);
            } else {
                assert(named_state(slot) =~= caches);
            }
        },
        None => {
            assert(named_state(slot) =~= caches);
        },
    }
}

/// What a restore asks for has every key once.
proof fn lemma_list_keys(slot: SeamKv, n: nat, committed: Seq<usize>, unpublished: Seq<usize>)
    requires
        slot.fits(n),
        n <= u32::MAX,
        slot.names_once(),
        committed.len() == named_state(slot).len(),
        unpublished.len() == named_unpublished(slot).len(),
    ensures
        forall|i: int, j: int|
            0 <= i < j < restore_list(slot, committed, unpublished).len() ==> (
            #[trigger] restore_list(slot, committed, unpublished)[i]).key != (
            #[trigger] restore_list(slot, committed, unpublished)[j]).key,
{
    lemma_names(slot, n);
    let state = named_state(slot);
    let pending = named_unpublished(slot);
    lemma_committed(state, committed, committed.len());
    let stored = committed_below(state, committed, committed.len());
    let all = restore_list(slot, committed, unpublished);
    assert forall|i: int, j: int| 0 <= i < j < all.len() implies (#[trigger] all[i]).key != (
    #[trigger] all[j]).key by {
        if j < stored.len() {
            assert(all[i].key == stored[i].key && all[j].key == stored[j].key);
        } else if i >= stored.len() {
            assert(all[i].key == pending[i - stored.len()].key);
            assert(all[j].key == pending[j - stored.len()].key);
        } else {
            assert(all[i].key == stored[i].key);
            assert(all[j].key == pending[j - stored.len()].key);
            let k = choose|k: int|
                0 <= k < committed.len() && stored[i].key == (#[trigger] state[k]).key
                    && stored[i].committed_bytes == committed[k] && committed[k] > 0;
            assert(key_rank(state[k].key).0 < 5);
        }
    }
}

/// A list holds what another holds, in another order: an entry of the one is an entry of the other.
proof fn lemma_same_entries(a: Seq<KeyedSize>, b: Seq<KeyedSize>, i: int)
    requires
        a.to_multiset() == b.to_multiset(),
        0 <= i < a.len(),
    ensures
        b.contains(a[i]),
{
    a.to_multiset_ensures();
    b.to_multiset_ensures();
    assert(a.contains(a[i]));
    assert(a.to_multiset().count(a[i]) > 0);
    assert(b.to_multiset().count(a[i]) > 0);
}

/// Whatever the slot has committed, what a restore asks for ascends strictly by key: nothing is
/// asked for twice.
pub proof fn law_a_restore_asks_for_each_key_once(
    slot: SeamKv,
    n: nat,
    committed: Seq<usize>,
    unpublished: Seq<usize>,
    specs: Seq<KeyedSize>,
)
    requires
        slot.fits(n),
        n <= u32::MAX,
        slot.names_once(),
        committed.len() == named_state(slot).len(),
        unpublished.len() == named_unpublished(slot).len(),
        in_key_order(specs),
        specs.to_multiset() == restore_list(slot, committed, unpublished).to_multiset(),
    ensures
        strictly_ordered(specs),
{
    let all = restore_list(slot, committed, unpublished);
    lemma_list_keys(slot, n, committed, unpublished);
    assert(all.no_duplicates()) by {
        assert forall|i: int, j: int|
            0 <= i < all.len() && 0 <= j < all.len() && i != j implies all[i] != all[j] by {
            if i < j {
                assert(all[i].key != all[j].key);
            } else {
                assert(all[j].key != all[i].key);
            }
        }
    }
    all.lemma_multiset_has_no_duplicates();
    specs.lemma_multiset_has_no_duplicates_conv();
    assert forall|i: int, j: int| 0 <= i < j < specs.len() implies key_lt(
        #[trigger] specs[i].key,
        #[trigger] specs[j].key,
    ) by {
        assert(specs[i] != specs[j]);
        lemma_same_entries(specs, all, i);
        lemma_same_entries(specs, all, j);
        let x = choose|x: int| 0 <= x < all.len() && all[x] == specs[i];
        let y = choose|y: int| 0 <= y < all.len() && all[y] == specs[j];
        if x < y {
            assert(all[x].key != all[y].key);
        } else {
            assert(all[y].key != all[x].key);
        }
        lemma_rank_is_injective(specs[i].key, specs[j].key);
        assert(key_le(specs[i].key, specs[j].key));
    }
}

/// Whatever a restore asks for is a buffer of the slot, found again under its key, with the bytes
/// that are committed of it; and of a buffer outside an unpublished checkpoint some are.
pub proof fn law_a_restore_asks_for_the_slots_own_buffers(
    slot: SeamKv,
    n: nat,
    committed: Seq<usize>,
    unpublished: Seq<usize>,
    specs: Seq<KeyedSize>,
    i: int,
)
    requires
        slot.fits(n),
        n <= u32::MAX,
        slot.names_once(),
        committed.len() == named_state(slot).len(),
        unpublished.len() == named_unpublished(slot).len(),
        specs.to_multiset() == restore_list(slot, committed, unpublished).to_multiset(),
        0 <= i < specs.len(),
    ensures
        (specs[i].bytes > 0 && exists|k: int| #[trigger]
            stands_for(specs[i], slot, named_state(slot), committed, k)) || exists|k: int|
            #[trigger] stands_for(specs[i], slot, named_unpublished(slot), unpublished, k),
{
    let all = restore_list(slot, committed, unpublished);
    let state = named_state(slot);
    let pending = named_unpublished(slot);
    let stored = committed_below(state, committed, committed.len());
    lemma_names(slot, n);
    lemma_committed(state, committed, committed.len());
    lemma_same_entries(specs, all, i);
    let x = choose|x: int| 0 <= x < all.len() && all[x] == specs[i];
    if x < stored.len() {
        assert(all[x].key == stored[x].key);
        let k = choose|k: int|
            0 <= k < committed.len() && stored[x].key == (#[trigger] state[k]).key
                && stored[x].committed_bytes == committed[k] && committed[k] > 0;
        assert(stands_for(specs[i], slot, state, committed, k));
    } else {
        assert(all[x].key == pending[x - stored.len()].key);
        assert(stands_for(specs[i], slot, pending, unpublished, x - stored.len()));
    }
}

/// Whatever is listed as committed has bytes.
proof fn lemma_committed_bytes(list: Seq<NamedBuffer>, committed: Seq<usize>, n: nat)
    ensures
        forall|i: int|
            0 <= i < committed_below(list, committed, n).len() ==> (
            #[trigger] committed_below(list, committed, n)[i]).committed_bytes > 0,
    decreases n,
{
    if n > 0 {
        lemma_committed_bytes(list, committed, (n - 1) as nat);
    }
}

/// Without a checkpoint, or with a published one, a restore asks for what a save of the same slot
/// stores, and for nothing else; no buffer of it is empty.
pub proof fn law_a_restore_without_a_pending_checkpoint_asks_for_what_is_stored(
    slot: SeamKv,
    committed: Seq<usize>,
    unpublished: Seq<usize>,
)
    requires
        slot.turn_recurrent_ckpt matches Some(ck) ==> ck.valid,
        unpublished.len() == 0,
    ensures
        named_unpublished(slot).len() == 0,
        restore_list(slot, committed, unpublished) == sizes_of(
            committed_below(named_state(slot), committed, committed.len()),
        ),
        forall|i: int|
            0 <= i < restore_list(slot, committed, unpublished).len() ==> (
            #[trigger] restore_list(slot, committed, unpublished)[i]).bytes > 0,
{
    lemma_committed_bytes(named_state(slot), committed, committed.len());
    assert(restore_list(slot, committed, unpublished) =~= sizes_of(
        committed_below(named_state(slot), committed, committed.len()),
    ));
}

/// A restore asks for every buffer of a checkpoint that is not published yet, whatever is
/// committed of it.
pub proof fn law_a_restore_asks_for_a_pending_checkpoint(
    slot: SeamKv,
    ck: TurnRecurrentCkpt,
    committed: Seq<usize>,
    unpublished: Seq<usize>,
    specs: Seq<KeyedSize>,
)
    requires
        slot.turn_recurrent_ckpt == Some(ck),
        !ck.valid,
        unpublished.len() == named_unpublished(slot).len(),
        specs.to_multiset() == restore_list(slot, committed, unpublished).to_multiset(),
    ensures
        forall|i: int|
            0 <= i < ck.layers@.len() ==> asked(
                specs,
                SessionBufferKey::CheckpointK(#[trigger] ck.layers@[i] as u32),
            ) && asked(specs, SessionBufferKey::CheckpointV(ck.layers@[i] as u32)),
        ck.ple_state is Some ==> asked(specs, SessionBufferKey::CheckpointPle),
{
    let all = restore_list(slot, committed, unpublished);
    let pending = named_unpublished(slot);
    let n_stored = committed_below(named_state(slot), committed, committed.len()).len();
    assert forall|k: int| 0 <= k < pending.len() implies asked(
        specs,
        (#[trigger] pending[k]).key,
    ) by {
        assert(all[n_stored + k].key == pending[k].key);
        lemma_same_entries(all, specs, n_stored + k);
        let x = choose|x: int| 0 <= x < specs.len() && specs[x] == all[n_stored + k];
        assert(specs[x].key == pending[k].key);
    }
    let layers = named_layers(ck, ck.layers@.len());
    lemma_layer_places(ck, ck.layers@.len());
    assert forall|i: int| 0 <= i < ck.layers@.len() implies asked(
        specs,
        SessionBufferKey::CheckpointK(#[trigger] ck.layers@[i] as u32),
    ) && asked(specs, SessionBufferKey::CheckpointV(ck.layers@[i] as u32)) by {
        assert(pending[2 * i] == layers[2 * i]);
        assert(pending[2 * i + 1] == layers[2 * i + 1]);
    }
    if ck.ple_state is Some {
        assert(pending[layers.len() as int].key == SessionBufferKey::CheckpointPle);
    }
}

/// The key is listed.
pub open spec fn asked(specs: Seq<KeyedSize>, key: SessionBufferKey) -> bool {
    exists|x: int| 0 <= x < specs.len() && (#[trigger] specs[x]).key == key
}

/// Where a checkpoint's layers stand in its list.
proof fn lemma_layer_places(ck: TurnRecurrentCkpt, n: nat)
    ensures
        named_layers(ck, n).len() == 2 * n,
        forall|i: int|
            0 <= i < n ==> named_layers(ck, n)[2 * i].key == SessionBufferKey::CheckpointK(
                #[trigger] ck.layers@[i] as u32,
            ) && named_layers(ck, n)[2 * i + 1].key == SessionBufferKey::CheckpointV(
                ck.layers@[i] as u32,
            ),
    decreases n,
{
    if n > 0 {
        lemma_layer_places(ck, (n - 1) as nat);
    }
}

/// A checkpoint of a model's recurrent layers has each of them once.
pub proof fn law_a_checkpoint_has_each_recurrent_layer_once(cfg: Config)
    requires
        cfg.layers@.len() <= usize::MAX,
    ensures
        recurrent_layers(cfg).no_duplicates(),
{
    lemma_recurrent_layers(cfg, cfg.layers@.len());
}

} // verus!
