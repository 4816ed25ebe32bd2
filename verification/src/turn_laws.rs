//! That a turn makes use of everything that is there: no prefix that could be kept is fed again,
//! and nothing is refused or started over without a cause.

use crate::config::{Config, KvFormat};
use crate::device::{AllocRequest, BufferUsage, DeviceBuffer, DeviceOp};
use crate::prefix::{
    begins_with, continuation, first_out_of_vocab, lemma_first_out_of_vocab,
    lemma_full_shared_prefix, lemma_shared_prefix_agrees, resident,
};
use crate::prompt::{
    boundary_of, exceeds_capacity, prefix_start, request_refused, ring_start, TurnCheckpoint,
};
use crate::seam_kv::{
    rollback_requests, seed_len, seeds, synthetic_zeros, zeros_of, zeros_present, SeamKv,
};
use vstd::prelude::*;

verus! {

/// Whatever could be continued is: a live conversation that the prompt extends, a live one that
/// holds the whole prompt, and a checkpoint that the prompt extends. Of several the longest is
/// taken, and without any there is nothing to continue.
pub proof fn law_the_longest_continuation_is_found(
    cached: Seq<u32>,
    checkpoint: Option<Seq<u32>>,
    prompt: Seq<u32>,
)
    requires
        cached.len() <= usize::MAX,
        checkpoint matches Some(tokens) ==> tokens.len() <= usize::MAX,
    ensures
        ({
            let found = continuation(cached, checkpoint, prompt);
            let live = cached.len() > 0 && begins_with(prompt, cached);
            let held = prompt.len() > 0 && begins_with(cached, prompt);
            let kept = checkpoint matches Some(tokens) && 0 < tokens.len() < prompt.len()
                && begins_with(prompt, tokens);
            &&& live ==> found is Some && found->Some_0 >= cached.len()
            &&& held ==> found is Some && found->Some_0 == prompt.len()
            &&& kept ==> found is Some && found->Some_0 >= (checkpoint->Some_0).len()
            &&& found is Some ==> live || held || kept
        }),
{
    lemma_shared_prefix_agrees(cached, prompt);
    lemma_full_shared_prefix(cached, prompt);
    lemma_full_shared_prefix(prompt, cached);
    crate::prefix::law_shared_prefix_is_symmetric(cached, prompt);
}

/// A per-token cache keeps every row that it can: of all tokens but the prompt's last, those up to
/// the first that differs.
pub proof fn law_the_kept_prefix_is_the_longest(cached: Seq<u32>, prompt: Seq<u32>)
    requires
        prompt.len() > 0,
    ensures
        ({
            let n = prefix_start(cached, prompt);
            &&& 0 <= n < prompt.len() && n <= cached.len()
            &&& forall|i: int| 0 <= i < n ==> cached[i] == prompt[i]
            &&& n + 1 == prompt.len() || n == cached.len() || cached[n] != prompt[n]
        }),
{
    lemma_shared_prefix_agrees(cached, prompt);
}

/// A published checkpoint is taken up by every prompt that goes on behind it, and by no other.
pub proof fn law_a_checkpoint_serves_every_longer_prompt(
    slot: SeamKv,
    tokens: Seq<u32>,
    more: Seq<u32>,
    prompt: Seq<u32>,
)
    requires
        slot.published() == Some(tokens),
        0 < tokens.len() <= usize::MAX,
        more.len() > 0,
    ensures
        slot.checkpoint_start(tokens + more) == Some(tokens.len() as usize),
        slot.checkpoint_start(prompt) is Some ==> prompt.len() > tokens.len() && prompt.take(
            tokens.len() as int,
        ) == tokens,
        slot.checkpoint_start(tokens) is None,
{
    assert((tokens + more).take(tokens.len() as int) =~= tokens);
}

/// A request fits a session exactly where its prompt and its answer leave one row free; a parallel
/// token step is not bounded here.
pub proof fn law_a_request_leaves_a_row_free(prompt: int, max_new: int, limit: int)
    requires
        0 <= prompt,
        0 <= max_new,
        prompt + max_new < usize::MAX,
    ensures
        exceeds_capacity(prompt, max_new, limit, false) <==> prompt + max_new >= limit,
        !exceeds_capacity(prompt, max_new, limit, true),
{
}

/// A request is let through exactly where it fits and, but for a canvas step, holds a prompt of
/// tokens of the vocabulary.
pub proof fn law_only_a_sound_request_is_let_through(
    prompt: Seq<u32>,
    max_new: usize,
    max_ctx: usize,
    vocab: usize,
    parallel_token_step: bool,
    denoise: bool,
)
    requires
        prompt.len() + max_new < usize::MAX,
    ensures
        request_refused(prompt, max_new, max_ctx, vocab, parallel_token_step, denoise) is None <==> (
        parallel_token_step || prompt.len() + max_new < max_ctx) && (denoise || (prompt.len() > 0
            && forall|i: int| 0 <= i < prompt.len() ==> #[trigger] prompt[i] < vocab)),
{
    lemma_first_out_of_vocab(prompt, vocab);
}

/// The token that is named as foreign is the first that the vocabulary does not hold.
pub proof fn law_the_first_foreign_token_is_named(ids: Seq<u32>, vocab: usize, at: int)
    requires
        0 <= at < ids.len(),
        ids[at] >= vocab,
        forall|i: int| 0 <= i < at ==> #[trigger] ids[i] < vocab,
    ensures
        first_out_of_vocab(ids, vocab) == Some(ids[at]),
    decreases at,
{
    if at > 0 {
        assert(ids[0] < vocab);
        let rest = ids.skip(1);
        assert forall|i: int| 0 <= i < at - 1 implies #[trigger] rest[i] < vocab by {
            assert(ids[i + 1] < vocab);
        }
        law_the_first_foreign_token_is_named(rest, vocab, at - 1);
    }
}

/// A fed token is recorded as resident exactly where its row was written.
pub proof fn law_exactly_the_written_rows_are_resident(cur: Seq<u32>, written: usize, at: int)
    requires
        0 <= at < cur.len(),
    ensures
        at < resident(cur, Some(written)).len() <==> at <= written,
        at <= written ==> resident(cur, Some(written))[at] == cur[at],
        resident(cur, None).len() == 0,
{
}

/// A snapshot is taken of a recurrent model wherever its boundary lies inside what is newly fed and
/// inside the context, and nowhere else.
pub proof fn law_a_snapshot_is_taken_inside_what_is_fed(
    checkpoint: Option<TurnCheckpoint>,
    cfg: Config,
    start: usize,
    prompt_len: nat,
    max_ctx: usize,
    at: usize,
)
    ensures
        boundary_of(checkpoint, cfg, start, prompt_len, max_ctx) == Some(at) <==> checkpoint == Some(
            TurnCheckpoint::Boundary(at),
        ) && (cfg.qwen35 || cfg.qwen4exp || cfg.bailingmoe3) && start < at < prompt_len && at
            <= max_ctx,
{
}

/// A rewind starts over only where a ring has lost a position of the window before it.
pub proof fn law_only_a_lost_window_starts_over(
    slot: SeamKv,
    cfg: Config,
    rows: Seq<usize>,
    start: usize,
)
    requires
        ring_start(slot, cfg, rows, start) != start,
    ensures
        slot.kv_ring,
        start < slot.cached@.len(),
        ring_start(slot, cfg, rows, start) == 0,
        exists|l: int|
            0 <= l < cfg.layers@.len() && (#[trigger] cfg.layers@[l]).swa && rows[l] < slot.max_ctx
                && start - cfg.swa_window < slot.cached@.len() - rows[l],
{
}

/// A slot is seeded with all that it is asked for, that the source holds and that it has room for.
pub proof fn law_seeding_takes_all_that_it_can(src: SeamKv, to: SeamKv, p: usize, n: nat)
    ensures
        seed_len(src, to, p) <= p,
        seed_len(src, to, p) <= src.cached@.len(),
        seed_len(src, to, p) <= to.max_ctx,
        n <= p && n <= src.cached@.len() && n <= to.max_ctx ==> n <= seed_len(src, to, p),
{
}

/// A slot is seeded exactly where the model keeps a row for each token, there is something to take,
/// and no ring of the source has lost a row.
pub proof fn law_a_slot_is_seeded_where_every_row_is_there(
    cfg: Config,
    src: SeamKv,
    to: SeamKv,
    p: usize,
    rows: Seq<usize>,
)
    ensures
        seeds(cfg, src, to, p, rows) <==> {
            &&& !cfg.qwen35 && !cfg.qwen4exp && !cfg.bailingmoe3 && !cfg.deepseek4
            &&& p > 0 && src.cached@.len() > 0 && to.max_ctx > 0
            &&& to.kv_ring ==> forall|l: int|
                0 <= l < cfg.layers@.len() && (#[trigger] cfg.layers@[l]).swa ==> src.cached@.len()
                    <= rows[l]
        },
{
}

/// The buffer is zeroed whole by one of the operations.
pub open spec fn cleared(ops: Seq<DeviceOp>, buffer: DeviceBuffer) -> bool {
    ops.contains(DeviceOp::Zero { buffer, bytes: buffer.len_bytes })
}

proof fn lemma_zeros_present(bufs: Seq<Option<DeviceBuffer>>, n: nat, l: int)
    requires
        0 <= l < n <= bufs.len(),
        bufs[l] is Some,
    ensures
        cleared(zeros_present(bufs, n), bufs[l]->Some_0),
    decreases n,
{
    let rest = zeros_present(bufs, (n - 1) as nat);
    if l == n - 1 {
        assert(zeros_present(bufs, n)[rest.len() as int] == (DeviceOp::Zero {
            buffer: bufs[l]->Some_0,
            bytes: (bufs[l]->Some_0).len_bytes,
        }));
    } else {
        lemma_zeros_present(bufs, (n - 1) as nat, l);
        let op = DeviceOp::Zero {
            buffer: bufs[l]->Some_0,
            bytes: (bufs[l]->Some_0).len_bytes,
        };
        let i = choose|i: int| 0 <= i < rest.len() && rest[i] == op;
        assert(zeros_present(bufs, n)[i] == op);
    }
}

/// A history that is made up holds nothing of an earlier one: where it is not fed, every cache of a
/// compressed layer, and every index cache that is not segmented, is zeroed whole.
pub proof fn law_a_synthetic_history_is_blank(cfg: Config, slot: SeamKv, l: int)
    ensures
        !cfg.recurrent() && cfg.deepseek4 ==> {
            &&& 0 <= l < slot.caches.k@.len() ==> cleared(
                synthetic_zeros(cfg, slot),
                slot.caches.k@[l],
            )
            &&& 0 <= l < slot.caches.v@.len() ==> cleared(
                synthetic_zeros(cfg, slot),
                slot.caches.v@[l],
            )
        },
        cfg.qwen4exp && !slot.segmented_kv.enabled ==> {
            &&& 0 <= l < slot.caches.qsa_raw@.len() && slot.caches.qsa_raw@[l] is Some ==> cleared(
                synthetic_zeros(cfg, slot),
                slot.caches.qsa_raw@[l]->Some_0,
            )
            &&& 0 <= l < slot.caches.qsa_block@.len() && slot.caches.qsa_block@[l] is Some
                ==> cleared(synthetic_zeros(cfg, slot), slot.caches.qsa_block@[l]->Some_0)
        },
{
    let ops = synthetic_zeros(cfg, slot);
    let c = slot.caches;
    if !cfg.recurrent() && cfg.deepseek4 {
        if 0 <= l < c.k@.len() {
            assert(zeros_of(c.k@)[l] == ops[l]);
        }
        if 0 <= l < c.v@.len() {
            assert(zeros_of(c.v@)[l] == ops[c.k@.len() + l]);
        }
    }
    if cfg.qwen4exp && !slot.segmented_kv.enabled {
        let a = crate::seam_kv::reset_ops(cfg, slot);
        let raw = zeros_present(c.qsa_raw@, c.qsa_raw@.len());
        let block = zeros_present(c.qsa_block@, c.qsa_block@.len());
        assert(ops == a + (raw + block));
        if 0 <= l < c.qsa_raw@.len() && c.qsa_raw@[l] is Some {
            lemma_zeros_present(c.qsa_raw@, c.qsa_raw@.len(), l);
            let b = c.qsa_raw@[l]->Some_0;
            let op = DeviceOp::Zero { buffer: b, bytes: b.len_bytes };
            let i = choose|i: int| 0 <= i < raw.len() && raw[i] == op;
            assert(ops[a.len() + i] == op);
        }
        if 0 <= l < c.qsa_block@.len() && c.qsa_block@[l] is Some {
            lemma_zeros_present(c.qsa_block@, c.qsa_block@.len(), l);
            let b = c.qsa_block@[l]->Some_0;
            let op = DeviceOp::Zero { buffer: b, bytes: b.len_bytes };
            let i = choose|i: int| 0 <= i < block.len() && block[i] == op;
            assert(ops[a.len() + raw.len() + i] == op);
        }
    }
}

/// What is asked for is as large as the buffer, and never empty.
pub open spec fn has_room(request: AllocRequest, buffer: DeviceBuffer) -> bool {
    request matches AllocRequest::Fixed { bytes, usage } && usage == BufferUsage::KvCache && (bytes
        == buffer.len_bytes || (buffer.len_bytes == 0 && bytes == 1))
}

/// A set-aside state is as large as the state it is set aside from: two buffers for each layer, in
/// the order of the layers.
pub proof fn law_a_rollback_has_room_for_the_state(
    layers: Seq<usize>,
    k: Seq<DeviceBuffer>,
    v: Seq<DeviceBuffer>,
    n: nat,
    i: int,
)
    requires
        0 <= i < n <= layers.len(),
    ensures
        rollback_requests(layers, k, v, n).len() == 2 * n,
        has_room(rollback_requests(layers, k, v, n)[2 * i], k[layers[i] as int]),
        has_room(rollback_requests(layers, k, v, n)[2 * i + 1], v[layers[i] as int]),
    decreases n,
{
    if n > 1 {
        law_a_rollback_has_room_for_the_state(
            layers,
            k,
            v,
            (n - 1) as nat,
            if i < n - 1 {
                i
            } else {
                0
            },
        );
    } else {
        assert(rollback_requests(layers, k, v, 0).len() == 0);
    }
}

/// A packed row has room for all of its elements and no block to spare.
pub proof fn law_a_packed_row_is_the_least_that_holds_its_elements(f: KvFormat, elems: nat)
    requires
        f.valid(),
    ensures
        exists|blocks: nat|
            f.size(elems) == #[trigger] (blocks * f.block_bytes) && elems <= blocks * f.block_elems
                && (blocks == 0 || (blocks - 1) * f.block_elems < elems),
{
    let b = f.block_elems as int;
    let a = elems + b - 1;
    vstd::arithmetic::div_mod::lemma_fundamental_div_mod(a, b);
    vstd::arithmetic::div_mod::lemma_mod_bound(a, b);
    let q = a / b;
    assert(q >= 0 && elems <= q * b && (q == 0 || (q - 1) * b < elems)) by (nonlinear_arith)
        requires
            a == b * q + a % b,
            0 <= a % b < b,
            a == elems + b - 1,
            b >= 1,
            elems >= 0,
    ;
    let blocks = q as nat;
    assert(f.size(elems) == blocks * f.block_bytes);
}

} // verus!
