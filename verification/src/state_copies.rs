//! What the copies of slots and checkpoints do: seeding moves rows one way, a snapshot followed by
//! a rollback gives state back, and a reset leaves none.

use crate::config::Config;
use crate::device::{DeviceBuffer, DeviceOp};
use crate::device_memory::{
    among, carried_out, disjoint, distinct, effect, first_bytes, lemma_carried_append,
    lemma_carried_one, lemma_carried_two, overwritten, sized, Memory,
};
use crate::seam_kv::{put_back, seed_copies, set_aside, SeamKv};
use crate::slot::CacheBuffers;
use vstd::prelude::*;

verus! {

/// The caches of two slots are four lists of buffers, no two of them one.
pub open spec fn slots_apart(a: CacheBuffers, b: CacheBuffers) -> bool {
    &&& distinct(b.k@)
    &&& distinct(b.v@)
    &&& disjoint(b.k@, b.v@)
    &&& disjoint(a.k@, b.k@)
    &&& disjoint(a.k@, b.v@)
    &&& disjoint(a.v@, b.k@)
    &&& disjoint(a.v@, b.v@)
}

/// What the seeding of the first `n` layers leaves behind.
spec fn seeded(cfg: Config, from: SeamKv, to: SeamKv, p: nat, n: nat, mem: Memory, after: Memory) -> bool {
    &&& forall|l: int|
        #![trigger to.caches.k@[l]]
        0 <= l < n ==> after[to.caches.k@[l].id] == overwritten(
            mem[to.caches.k@[l].id],
            first_bytes(
                mem[from.caches.k@[l].id],
                to.k_fmt.size(p * (cfg.layers@[l].k_row as nat)) as usize as nat,
            ),
        )
    &&& forall|l: int|
        #![trigger to.caches.v@[l]]
        0 <= l < n && cfg.layers@[l].v_row > 0 ==> after[to.caches.v@[l].id] == overwritten(
            mem[to.caches.v@[l].id],
            first_bytes(
                mem[from.caches.v@[l].id],
                to.v_fmt.size(p * (cfg.layers@[l].v_row as nat)) as usize as nat,
            ),
        )
    &&& forall|id: usize|
        !among(id, to.caches.k@.take(n as int)) && !among(id, to.caches.v@.take(n as int))
            ==> #[trigger] after[id] == mem[id]
}

proof fn lemma_not_among(bufs: Seq<DeviceBuffer>, id: usize, n: int)
    requires
        0 <= n < bufs.len(),
        !among(id, bufs.take(n + 1)),
    ensures
        !among(id, bufs.take(n)),
        bufs[n].id != id,
{
    assert(bufs.take(n + 1)[n] == bufs[n]);
    if among(id, bufs.take(n)) {
        let i = choose|i: int| 0 <= i < n && (#[trigger] bufs.take(n)[i]).id == id;
        assert(bufs.take(n + 1)[i].id == id);
    }
}

proof fn lemma_apart_from(bufs: Seq<DeviceBuffer>, n: int, b: DeviceBuffer)
    requires
        0 <= n <= bufs.len(),
        forall|i: int| 0 <= i < n ==> (#[trigger] bufs[i]).id != b.id,
    ensures
        !among(b.id, bufs.take(n)),
{
    if among(b.id, bufs.take(n)) {
        let i = choose|i: int| 0 <= i < n && (#[trigger] bufs.take(n)[i]).id == b.id;
        assert(bufs[i].id == b.id);
    }
}

proof fn lemma_seeded(cfg: Config, from: SeamKv, to: SeamKv, p: nat, n: nat, mem: Memory)
    requires
        n <= cfg.layers@.len(),
        from.caches.fits(cfg.layers@.len()),
        to.caches.fits(cfg.layers@.len()),
        slots_apart(from.caches, to.caches),
    ensures
        seeded(cfg, from, to, p, n, mem, carried_out(mem, seed_copies(cfg, from, to, p, n))),
    decreases n,
{
    if n > 0 {
        let m = (n - 1) as nat;
        lemma_seeded(cfg, from, to, p, m, mem);
        let before = seed_copies(cfg, from, to, p, m);
        let mid = carried_out(mem, before);
        let all = seed_copies(cfg, from, to, p, n);
        let k = DeviceOp::Copy {
            src: from.caches.k@[n - 1],
            dst: to.caches.k@[n - 1],
            bytes: to.k_fmt.size(p * (cfg.layers@[n - 1].k_row as nat)) as usize,
        };
        let v = DeviceOp::Copy {
            src: from.caches.v@[n - 1],
            dst: to.caches.v@[n - 1],
            bytes: to.v_fmt.size(p * (cfg.layers@[n - 1].v_row as nat)) as usize,
        };
        let with_v = cfg.layers@[n - 1].v_row > 0;
        let last = if with_v {
            seq![k, v]
        } else {
            seq![k]
        };
        assert(all =~= before + last);
        lemma_carried_append(mem, before, last);
        lemma_carried_one(mid, k);
        lemma_carried_two(mid, k, v);
        let after = carried_out(mem, all);
        assert(after == (if with_v {
            effect(effect(mid, k), v)
        } else {
            effect(mid, k)
        }));
        let (tk, tv) = (to.caches.k@, to.caches.v@);
        let (fk, fv) = (from.caches.k@[n - 1], from.caches.v@[n - 1]);
        assert(tk[n - 1].id != tv[n - 1].id);
        assert(fv.id != tk[n - 1].id && fk.id != tv[n - 1].id);
        lemma_apart_from(tk, n - 1, tk[n - 1]);
        lemma_apart_from(tv, n - 1, tk[n - 1]);
        lemma_apart_from(tk, n - 1, tv[n - 1]);
        lemma_apart_from(tv, n - 1, tv[n - 1]);
        lemma_apart_from(tk, n - 1, fk);
        lemma_apart_from(tv, n - 1, fk);
        lemma_apart_from(tk, n - 1, fv);
        lemma_apart_from(tv, n - 1, fv);
        assert(mid[tk[n - 1].id] == mem[tk[n - 1].id] && mid[tv[n - 1].id] == mem[tv[n - 1].id]);
        assert(mid[fk.id] == mem[fk.id] && mid[fv.id] == mem[fv.id]);
        assert forall|l: int| #![trigger tk[l]] 0 <= l < n implies after[tk[l].id] == overwritten(
            mem[tk[l].id],
            first_bytes(
                mem[from.caches.k@[l].id],
                to.k_fmt.size(p * (cfg.layers@[l].k_row as nat)) as usize as nat,
            ),
        ) by {
            assert(tk[l].id != tv[n - 1].id);
            if l < n - 1 {
                assert(tk[l].id != tk[n - 1].id);
            }
        }
        assert forall|l: int|
            #![trigger tv[l]]
            0 <= l < n && cfg.layers@[l].v_row > 0 implies after[tv[l].id] == overwritten(
            mem[tv[l].id],
            first_bytes(
                mem[from.caches.v@[l].id],
                to.v_fmt.size(p * (cfg.layers@[l].v_row as nat)) as usize as nat,
            ),
        ) by {
            assert(tk[n - 1].id != tv[l].id);
            if l < n - 1 {
                assert(tv[l].id != tv[n - 1].id);
            }
        }
        assert forall|id: usize|
            !among(id, tk.take(n as int)) && !among(id, tv.take(n as int)) implies #[trigger] after[id]
            == mem[id] by {
            lemma_not_among(tk, id, n - 1);
            lemma_not_among(tv, id, n - 1);
            assert(mid[id] == mem[id]);
        }
    }
}

/// After a seed plan is carried out, on any memory, the first rows of every layer of the seeded
/// slot are those that the source had, and nothing but the seeded slot's caches has changed: the
/// source keeps every byte.
pub proof fn law_seeding_gives_the_slot_the_sources_rows(
    cfg: Config,
    from: SeamKv,
    to: SeamKv,
    rows: nat,
    mem: Memory,
    l: int,
)
    requires
        from.caches.fits(cfg.layers@.len()),
        to.caches.fits(cfg.layers@.len()),
        slots_apart(from.caches, to.caches),
        sized(mem, from.caches.k@),
        sized(mem, from.caches.v@),
        sized(mem, to.caches.k@),
        sized(mem, to.caches.v@),
        0 <= l < cfg.layers@.len(),
        to.k_fmt.size(rows * (cfg.layers@[l].k_row as nat)) <= from.caches.k@[l].len_bytes,
        to.k_fmt.size(rows * (cfg.layers@[l].k_row as nat)) <= to.caches.k@[l].len_bytes,
        to.v_fmt.size(rows * (cfg.layers@[l].v_row as nat)) <= from.caches.v@[l].len_bytes,
        to.v_fmt.size(rows * (cfg.layers@[l].v_row as nat)) <= to.caches.v@[l].len_bytes,
    ensures
        ({
            let after = carried_out(mem, seed_copies(cfg, from, to, rows, cfg.layers@.len()));
            let k = to.k_fmt.size(rows * (cfg.layers@[l].k_row as nat)) as int;
            let v = to.v_fmt.size(rows * (cfg.layers@[l].v_row as nat)) as int;
            &&& after[to.caches.k@[l].id].take(k) == mem[from.caches.k@[l].id].take(k)
            &&& cfg.layers@[l].v_row > 0 ==> after[to.caches.v@[l].id].take(v)
                == mem[from.caches.v@[l].id].take(v)
            &&& after[to.caches.k@[l].id].skip(k) == mem[to.caches.k@[l].id].skip(k)
            &&& after[from.caches.k@[l].id] == mem[from.caches.k@[l].id]
            &&& after[from.caches.v@[l].id] == mem[from.caches.v@[l].id]
            &&& forall|id: usize|
                !among(id, to.caches.k@) && !among(id, to.caches.v@) ==> #[trigger] after[id]
                    == mem[id]
        }),
{
    let n = cfg.layers@.len();
    lemma_seeded(cfg, from, to, rows, n, mem);
    let after = carried_out(mem, seed_copies(cfg, from, to, rows, n));
    let (tk, tv) = (to.caches.k@, to.caches.v@);
    assert(tk.take(n as int) =~= tk && tv.take(n as int) =~= tv);
    let k = to.k_fmt.size(rows * (cfg.layers@[l].k_row as nat)) as int;
    let v = to.v_fmt.size(rows * (cfg.layers@[l].v_row as nat)) as int;
    lemma_apart_from(tk, n as int, from.caches.k@[l]);
    lemma_apart_from(tv, n as int, from.caches.k@[l]);
    lemma_apart_from(tk, n as int, from.caches.v@[l]);
    lemma_apart_from(tv, n as int, from.caches.v@[l]);
    assert(mem[tk[l].id].len() == tk[l].len_bytes && mem[tv[l].id].len() == tv[l].len_bytes);
    assert(mem[from.caches.k@[l].id].len() == from.caches.k@[l].len_bytes);
    assert(mem[from.caches.v@[l].id].len() == from.caches.v@[l].len_bytes);
    assert(after[tk[l].id].take(k) =~= mem[from.caches.k@[l].id].take(k));
    assert(after[tk[l].id].skip(k) =~= mem[tk[l].id].skip(k));
    if cfg.layers@[l].v_row > 0 {
        assert(after[tv[l].id].take(v) =~= mem[from.caches.v@[l].id].take(v));
    }
}

/// The buffers of the listed layers.
pub open spec fn picked(bufs: Seq<DeviceBuffer>, layers: Seq<usize>) -> Seq<DeviceBuffer> {
    Seq::new(layers.len(), |i: int| bufs[layers[i] as int])
}

/// Pairs of copies: whole buffers of `a` onto `b`, and of `c` onto `d`.
spec fn paired(
    a: Seq<DeviceBuffer>,
    b: Seq<DeviceBuffer>,
    c: Seq<DeviceBuffer>,
    d: Seq<DeviceBuffer>,
    n: nat,
) -> Seq<DeviceOp>
    decreases n,
{
    if n == 0 {
        Seq::empty()
    } else {
        paired(a, b, c, d, (n - 1) as nat) + seq![
            DeviceOp::Copy { src: a[n - 1], dst: b[n - 1], bytes: a[n - 1].len_bytes },
            DeviceOp::Copy { src: c[n - 1], dst: d[n - 1], bytes: c[n - 1].len_bytes },
        ]
    }
}

/// The targets are different buffers, and none of them is read.
spec fn one_way(
    a: Seq<DeviceBuffer>,
    b: Seq<DeviceBuffer>,
    c: Seq<DeviceBuffer>,
    d: Seq<DeviceBuffer>,
) -> bool {
    &&& a.len() == b.len() == c.len() == d.len()
    &&& distinct(b)
    &&& distinct(d)
    &&& disjoint(b, d)
    &&& disjoint(a, b)
    &&& disjoint(a, d)
    &&& disjoint(c, b)
    &&& disjoint(c, d)
}

proof fn lemma_paired(
    a: Seq<DeviceBuffer>,
    b: Seq<DeviceBuffer>,
    c: Seq<DeviceBuffer>,
    d: Seq<DeviceBuffer>,
    n: nat,
    mem: Memory,
)
    requires
        one_way(a, b, c, d),
        n <= a.len(),
        sized(mem, a),
        sized(mem, b),
        sized(mem, c),
        sized(mem, d),
        forall|i: int| 0 <= i < a.len() ==> (#[trigger] a[i]).len_bytes == b[i].len_bytes,
        forall|i: int| 0 <= i < c.len() ==> (#[trigger] c[i]).len_bytes == d[i].len_bytes,
    ensures
        ({
            let after = carried_out(mem, paired(a, b, c, d, n));
            &&& forall|i: int| #![trigger b[i]] 0 <= i < n ==> after[b[i].id] == mem[a[i].id]
            &&& forall|i: int| #![trigger d[i]] 0 <= i < n ==> after[d[i].id] == mem[c[i].id]
            &&& forall|id: usize|
                !among(id, b.take(n as int)) && !among(id, d.take(n as int))
                    ==> #[trigger] after[id] == mem[id]
        }),
    decreases n,
{
    if n > 0 {
        let m = (n - 1) as nat;
        lemma_paired(a, b, c, d, m, mem);
        let before = paired(a, b, c, d, m);
        let mid = carried_out(mem, before);
        let first = DeviceOp::Copy { src: a[n - 1], dst: b[n - 1], bytes: a[n - 1].len_bytes };
        let second = DeviceOp::Copy { src: c[n - 1], dst: d[n - 1], bytes: c[n - 1].len_bytes };
        lemma_carried_append(mem, before, seq![first, second]);
        lemma_carried_two(mid, first, second);
        let after = carried_out(mem, paired(a, b, c, d, n));
        assert(after == effect(effect(mid, first), second));
        lemma_apart_from(b, n - 1, b[n - 1]);
        lemma_apart_from(d, n - 1, b[n - 1]);
        lemma_apart_from(b, n - 1, d[n - 1]);
        lemma_apart_from(d, n - 1, d[n - 1]);
        lemma_apart_from(b, n - 1, a[n - 1]);
        lemma_apart_from(d, n - 1, a[n - 1]);
        lemma_apart_from(b, n - 1, c[n - 1]);
        lemma_apart_from(d, n - 1, c[n - 1]);
        assert(mid[b[n - 1].id] == mem[b[n - 1].id] && mid[d[n - 1].id] == mem[d[n - 1].id]);
        assert(mid[a[n - 1].id] == mem[a[n - 1].id] && mid[c[n - 1].id] == mem[c[n - 1].id]);
        assert(mem[a[n - 1].id].len() == a[n - 1].len_bytes);
        assert(mem[b[n - 1].id].len() == b[n - 1].len_bytes);
        assert(mem[c[n - 1].id].len() == c[n - 1].len_bytes);
        assert(mem[d[n - 1].id].len() == d[n - 1].len_bytes);
        assert(b[n - 1].id != d[n - 1].id && c[n - 1].id != b[n - 1].id);
        lemma_whole(mem[b[n - 1].id], mem[a[n - 1].id]);
        lemma_whole(mem[d[n - 1].id], mem[c[n - 1].id]);
        assert forall|i: int| #![trigger b[i]] 0 <= i < n implies after[b[i].id] == mem[a[i].id] by {
            assert(b[i].id != d[n - 1].id);
            if i < n - 1 {
                assert(b[i].id != b[n - 1].id);
            }
        }
        assert forall|i: int| #![trigger d[i]] 0 <= i < n implies after[d[i].id] == mem[c[i].id] by {
            assert(b[n - 1].id != d[i].id);
            if i < n - 1 {
                assert(d[i].id != d[n - 1].id);
            }
        }
        assert forall|id: usize|
            !among(id, b.take(n as int)) && !among(id, d.take(n as int)) implies #[trigger] after[id]
            == mem[id] by {
            lemma_not_among(b, id, n - 1);
            lemma_not_among(d, id, n - 1);
            assert(mid[id] == mem[id]);
        }
    }
}

/// A buffer that is written over whole holds what was written.
pub proof fn lemma_whole(old_bytes: Seq<u8>, new_bytes: Seq<u8>)
    requires
        old_bytes.len() == new_bytes.len(),
    ensures
        overwritten(old_bytes, first_bytes(new_bytes, new_bytes.len())) == new_bytes,
{
    assert(new_bytes.take(new_bytes.len() as int) =~= new_bytes);
    assert(overwritten(old_bytes, new_bytes) =~= new_bytes);
}

proof fn lemma_set_aside(
    layers: Seq<usize>,
    fk: Seq<DeviceBuffer>,
    fv: Seq<DeviceBuffer>,
    tk: Seq<DeviceBuffer>,
    tv: Seq<DeviceBuffer>,
    n: nat,
)
    requires
        n <= layers.len(),
    ensures
        set_aside(layers, fk, fv, tk, tv, n) == paired(picked(fk, layers), tk, picked(fv, layers), tv, n),
    decreases n,
{
    if n > 0 {
        lemma_set_aside(layers, fk, fv, tk, tv, (n - 1) as nat);
    }
}

proof fn lemma_put_back(
    layers: Seq<usize>,
    fk: Seq<DeviceBuffer>,
    fv: Seq<DeviceBuffer>,
    tk: Seq<DeviceBuffer>,
    tv: Seq<DeviceBuffer>,
    n: nat,
)
    requires
        n <= layers.len(),
    ensures
        put_back(layers, fk, fv, tk, tv, n) == paired(fk, picked(tk, layers), fv, picked(tv, layers), n),
    decreases n,
{
    if n > 0 {
        lemma_put_back(layers, fk, fv, tk, tv, (n - 1) as nat);
    }
}

/// A snapshot of the listed layers' state stands in buffers of its own, each as long as what it is
/// a snapshot of.
pub open spec fn snapshot_fits(
    layers: Seq<usize>,
    kbufs: Seq<DeviceBuffer>,
    vbufs: Seq<DeviceBuffer>,
    caches: CacheBuffers,
) -> bool {
    &&& layers.no_duplicates()
    &&& kbufs.len() == layers.len()
    &&& vbufs.len() == layers.len()
    &&& caches.k@.len() == caches.v@.len()
    &&& forall|i: int|
        #![trigger layers[i]]
        0 <= i < layers.len() ==> {
            &&& layers[i] < caches.k@.len()
            &&& kbufs[i].len_bytes == caches.k@[layers[i] as int].len_bytes
            &&& vbufs[i].len_bytes == caches.v@[layers[i] as int].len_bytes
        }
    &&& distinct(kbufs)
    &&& distinct(vbufs)
    &&& disjoint(kbufs, vbufs)
    &&& distinct(caches.k@)
    &&& distinct(caches.v@)
    &&& disjoint(caches.k@, caches.v@)
    &&& disjoint(caches.k@, kbufs)
    &&& disjoint(caches.k@, vbufs)
    &&& disjoint(caches.v@, kbufs)
    &&& disjoint(caches.v@, vbufs)
}

proof fn lemma_picked(
    layers: Seq<usize>,
    kbufs: Seq<DeviceBuffer>,
    vbufs: Seq<DeviceBuffer>,
    caches: CacheBuffers,
)
    requires
        snapshot_fits(layers, kbufs, vbufs, caches),
    ensures
        one_way(picked(caches.k@, layers), kbufs, picked(caches.v@, layers), vbufs),
        one_way(kbufs, picked(caches.k@, layers), vbufs, picked(caches.v@, layers)),
        forall|i: int|
            0 <= i < layers.len() ==> (#[trigger] picked(caches.k@, layers)[i])
                == caches.k@[layers[i] as int],
        forall|i: int|
            0 <= i < layers.len() ==> (#[trigger] picked(caches.v@, layers)[i])
                == caches.v@[layers[i] as int],
{
    let pk = picked(caches.k@, layers);
    let pv = picked(caches.v@, layers);
    assert forall|i: int| 0 <= i < layers.len() implies #[trigger] pk[i] == caches.k@[layers[i] as int]
        && pv[i] == caches.v@[layers[i] as int] && layers[i] < caches.k@.len() by {}
    assert forall|i: int, j: int|
        0 <= i < pk.len() && 0 <= j < pk.len() && i != j implies (#[trigger] pk[i]).id != (
    #[trigger] pk[j]).id by {
        assert(layers[i] != layers[j]);
        assert(caches.k@[layers[i] as int].id != caches.k@[layers[j] as int].id);
    }
    assert forall|i: int, j: int|
        0 <= i < pv.len() && 0 <= j < pv.len() && i != j implies (#[trigger] pv[i]).id != (
    #[trigger] pv[j]).id by {
        assert(layers[i] != layers[j]);
        assert(pv[i] == caches.v@[layers[i] as int] && pv[j] == caches.v@[layers[j] as int]);
        assert(caches.v@[layers[i] as int].id != caches.v@[layers[j] as int].id);
    }
}

/// What a device does between a snapshot and a rollback: anything, but to the snapshot itself.
pub open spec fn leaves(bufs: Seq<DeviceBuffer>, before: Memory, after: Memory) -> bool {
    forall|i: int| 0 <= i < bufs.len() ==> after[(#[trigger] bufs[i]).id] == before[bufs[i].id]
}

/// Taking a rollback point leaves every cache of the slot as it is. Rolling back later, whatever
/// was done to the caches in between, gives each rolled-back layer the state that it had when the
/// rollback point was taken, and changes nothing else.
pub proof fn law_rollback_gives_the_state_back(
    layers: Seq<usize>,
    kbufs: Seq<DeviceBuffer>,
    vbufs: Seq<DeviceBuffer>,
    caches: CacheBuffers,
    mem: Memory,
    later: Memory,
    i: int,
)
    requires
        snapshot_fits(layers, kbufs, vbufs, caches),
        sized(mem, kbufs),
        sized(mem, vbufs),
        sized(mem, caches.k@),
        sized(mem, caches.v@),
        sized(later, caches.k@),
        sized(later, caches.v@),
        ({
            let aside = carried_out(
                mem,
                set_aside(layers, caches.k@, caches.v@, kbufs, vbufs, layers.len()),
            );
            leaves(kbufs, aside, later) && leaves(vbufs, aside, later)
        }),
        0 <= i < layers.len(),
    ensures
        ({
            let aside = carried_out(
                mem,
                set_aside(layers, caches.k@, caches.v@, kbufs, vbufs, layers.len()),
            );
            &&& leaves(caches.k@, mem, aside)
            &&& leaves(caches.v@, mem, aside)
        }),
        ({
            let back = carried_out(
                later,
                put_back(layers, kbufs, vbufs, caches.k@, caches.v@, layers.len()),
            );
            let l = layers[i] as int;
            &&& back[caches.k@[l].id] == mem[caches.k@[l].id]
            &&& back[caches.v@[l].id] == mem[caches.v@[l].id]
            &&& leaves(kbufs, later, back)
            &&& leaves(vbufs, later, back)
            &&& forall|other: int|
                0 <= other < caches.k@.len() && !layers.contains(other as usize)
                    ==> back[(#[trigger] caches.k@[other]).id] == later[caches.k@[other].id]
            &&& forall|other: int|
                0 <= other < caches.v@.len() && !layers.contains(other as usize)
                    ==> back[(#[trigger] caches.v@[other]).id] == later[caches.v@[other].id]
        }),
{
    lemma_snapshot_unread(layers, kbufs, vbufs, caches, mem);
    lemma_state_back(layers, kbufs, vbufs, caches, later);
    let aside = carried_out(
        mem,
        set_aside(layers, caches.k@, caches.v@, kbufs, vbufs, layers.len()),
    );
    assert(aside[kbufs[i].id] == mem[caches.k@[layers[i] as int].id]);
    assert(aside[vbufs[i].id] == mem[caches.v@[layers[i] as int].id]);
}

/// A snapshot of the listed layers: the snapshot's buffers hold their state, and the caches are as
/// they were.
proof fn lemma_snapshot_unread(
    layers: Seq<usize>,
    kbufs: Seq<DeviceBuffer>,
    vbufs: Seq<DeviceBuffer>,
    caches: CacheBuffers,
    mem: Memory,
)
    requires
        snapshot_fits(layers, kbufs, vbufs, caches),
        sized(mem, kbufs),
        sized(mem, vbufs),
        sized(mem, caches.k@),
        sized(mem, caches.v@),
    ensures
        ({
            let aside = carried_out(
                mem,
                set_aside(layers, caches.k@, caches.v@, kbufs, vbufs, layers.len()),
            );
            &&& leaves(caches.k@, mem, aside)
            &&& leaves(caches.v@, mem, aside)
            &&& forall|i: int|
                0 <= i < layers.len() ==> aside[(#[trigger] kbufs[i]).id]
                    == mem[caches.k@[layers[i] as int].id]
            &&& forall|i: int|
                0 <= i < layers.len() ==> aside[(#[trigger] vbufs[i]).id]
                    == mem[caches.v@[layers[i] as int].id]
        }),
{
    let n = layers.len();
    let pk = picked(caches.k@, layers);
    let pv = picked(caches.v@, layers);
    lemma_picked(layers, kbufs, vbufs, caches);
    lemma_set_aside(layers, caches.k@, caches.v@, kbufs, vbufs, n);
    assert forall|i: int| 0 <= i < pk.len() implies mem[(#[trigger] pk[i]).id].len() == pk[i].len_bytes
        && pk[i].len_bytes == kbufs[i].len_bytes by {
        let l = layers[i];
        assert(pk[i] == caches.k@[l as int]);
    }
    assert forall|i: int| 0 <= i < pv.len() implies mem[(#[trigger] pv[i]).id].len() == pv[i].len_bytes
        && pv[i].len_bytes == vbufs[i].len_bytes by {
        let l = layers[i];
        assert(pv[i] == caches.v@[l as int]);
    }
    lemma_paired(pk, kbufs, pv, vbufs, n, mem);
    assert(kbufs.take(n as int) =~= kbufs && vbufs.take(n as int) =~= vbufs);
    let aside = carried_out(mem, set_aside(layers, caches.k@, caches.v@, kbufs, vbufs, n));
    assert forall|j: int| 0 <= j < caches.k@.len() implies aside[(#[trigger] caches.k@[j]).id]
        == mem[caches.k@[j].id] by {
        lemma_apart_from(kbufs, n as int, caches.k@[j]);
        lemma_apart_from(vbufs, n as int, caches.k@[j]);
    }
    assert forall|j: int| 0 <= j < caches.v@.len() implies aside[(#[trigger] caches.v@[j]).id]
        == mem[caches.v@[j].id] by {
        lemma_apart_from(kbufs, n as int, caches.v@[j]);
        lemma_apart_from(vbufs, n as int, caches.v@[j]);
    }
}

/// Putting a snapshot back: the listed layers hold what the snapshot holds, and nothing else
/// changes.
pub proof fn lemma_state_back(
    layers: Seq<usize>,
    kbufs: Seq<DeviceBuffer>,
    vbufs: Seq<DeviceBuffer>,
    caches: CacheBuffers,
    mem: Memory,
)
    requires
        snapshot_fits(layers, kbufs, vbufs, caches),
        sized(mem, caches.k@),
        sized(mem, caches.v@),
        sized(mem, kbufs),
        sized(mem, vbufs),
    ensures
        ({
            let back = carried_out(
                mem,
                put_back(layers, kbufs, vbufs, caches.k@, caches.v@, layers.len()),
            );
            &&& forall|i: int|
                #![trigger layers[i]]
                0 <= i < layers.len() ==> back[caches.k@[layers[i] as int].id] == mem[kbufs[i].id]
                    && back[caches.v@[layers[i] as int].id] == mem[vbufs[i].id]
            &&& forall|id: usize|
                !among(id, picked(caches.k@, layers)) && !among(id, picked(caches.v@, layers))
                    ==> #[trigger] back[id] == mem[id]
            &&& leaves(kbufs, mem, back)
            &&& leaves(vbufs, mem, back)
            &&& forall|other: int|
                0 <= other < caches.k@.len() && !layers.contains(other as usize)
                    ==> back[(#[trigger] caches.k@[other]).id] == mem[caches.k@[other].id]
            &&& forall|other: int|
                0 <= other < caches.v@.len() && !layers.contains(other as usize)
                    ==> back[(#[trigger] caches.v@[other]).id] == mem[caches.v@[other].id]
        }),
{
    let n = layers.len();
    let pk = picked(caches.k@, layers);
    let pv = picked(caches.v@, layers);
    lemma_picked(layers, kbufs, vbufs, caches);
    lemma_put_back(layers, kbufs, vbufs, caches.k@, caches.v@, n);
    assert forall|i: int| 0 <= i < pk.len() implies mem[(#[trigger] pk[i]).id].len() == pk[i].len_bytes by {
        let l = layers[i];
        assert(pk[i] == caches.k@[l as int]);
    }
    assert forall|i: int| 0 <= i < pv.len() implies mem[(#[trigger] pv[i]).id].len() == pv[i].len_bytes by {
        let l = layers[i];
        assert(pv[i] == caches.v@[l as int]);
    }
    assert forall|i: int| 0 <= i < kbufs.len() implies (#[trigger] kbufs[i]).len_bytes
        == pk[i].len_bytes by {
        let l = layers[i];
    }
    assert forall|i: int| 0 <= i < vbufs.len() implies (#[trigger] vbufs[i]).len_bytes
        == pv[i].len_bytes by {
        let l = layers[i];
    }
    lemma_paired(kbufs, pk, vbufs, pv, n, mem);
    assert(pk.take(n as int) =~= pk && pv.take(n as int) =~= pv);
    let back = carried_out(mem, put_back(layers, kbufs, vbufs, caches.k@, caches.v@, n));
    assert forall|i: int| #![trigger layers[i]] 0 <= i < n implies back[caches.k@[layers[i] as int].id]
        == mem[kbufs[i].id] && back[caches.v@[layers[i] as int].id] == mem[vbufs[i].id] by {
        assert(pk[i] == caches.k@[layers[i] as int] && pv[i] == caches.v@[layers[i] as int]);
    }
    assert forall|j: int| 0 <= j < kbufs.len() implies back[(#[trigger] kbufs[j]).id]
        == mem[kbufs[j].id] by {
        lemma_apart_from(pk, n as int, kbufs[j]);
        lemma_apart_from(pv, n as int, kbufs[j]);
    }
    assert forall|j: int| 0 <= j < vbufs.len() implies back[(#[trigger] vbufs[j]).id]
        == mem[vbufs[j].id] by {
        lemma_apart_from(pk, n as int, vbufs[j]);
        lemma_apart_from(pv, n as int, vbufs[j]);
    }
    assert forall|other: int|
        0 <= other < caches.k@.len() && !layers.contains(other as usize) implies back[(
    #[trigger] caches.k@[other]).id] == mem[caches.k@[other].id] by {
        assert forall|i: int| 0 <= i < n implies (#[trigger] pk[i]).id != caches.k@[other].id
            && pv[i].id != caches.k@[other].id by {
            assert(layers[i] < caches.k@.len() && layers.contains(layers[i]));
            assert(pv[i] == caches.v@[layers[i] as int]);
        }
        assert forall|i: int| 0 <= i < n implies (#[trigger] pv[i]).id != caches.k@[other].id by {
            let p = pk[i];
        }
        lemma_apart_from(pk, n as int, caches.k@[other]);
        lemma_apart_from(pv, n as int, caches.k@[other]);
    }
    assert forall|other: int|
        0 <= other < caches.v@.len() && !layers.contains(other as usize) implies back[(
    #[trigger] caches.v@[other]).id] == mem[caches.v@[other].id] by {
        assert forall|i: int| 0 <= i < n implies (#[trigger] pv[i]).id != caches.v@[other].id
            && pk[i].id != caches.v@[other].id by {
            assert(layers[i] < caches.k@.len() && layers.contains(layers[i]));
            assert(pk[i] == caches.k@[layers[i] as int]);
        }
        assert forall|i: int| 0 <= i < n implies (#[trigger] pk[i]).id != caches.v@[other].id by {
            let p = pv[i];
        }
        lemma_apart_from(pk, n as int, caches.v@[other]);
        lemma_apart_from(pv, n as int, caches.v@[other]);
    }
}

} // verus!
