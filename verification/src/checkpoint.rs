//! Snapshots of recurrent state: the rolling checkpoint of a conversation, and the rollback point
//! of speculative decoding.
//!
//! The copies themselves are made by a device. Each operation here is split at that point: one
//! function says what to allocate or copy, and another records that it was done.

use crate::config::Config;
use crate::device::{at_least_one, nonzero, whole_copy, AllocRequest, BufferUsage, DeviceBuffer, DeviceOp};
use crate::error::Error;
use crate::prefix::first_tokens;
use vstd::prelude::*;

verus! {

/// The recurrent layers among the first `n`, ascending.
pub open spec fn recurrent_below(cfg: Config, n: nat) -> Seq<usize>
    decreases n,
{
    if n == 0 {
        Seq::empty()
    } else if cfg.layers@[n - 1].recurrent {
        recurrent_below(cfg, (n - 1) as nat).push((n - 1) as usize)
    } else {
        recurrent_below(cfg, (n - 1) as nat)
    }
}

/// The recurrent layers of a model, ascending.
pub open spec fn recurrent_layers(cfg: Config) -> Seq<usize> {
    recurrent_below(cfg, cfg.layers@.len())
}

/// The listed layers are exactly the recurrent ones, each once and in order.
pub proof fn lemma_recurrent_layers(cfg: Config, n: nat)
    requires
        n <= cfg.layers@.len() <= usize::MAX,
    ensures
        recurrent_below(cfg, n).len() <= n,
        forall|i: int|
            0 <= i < recurrent_below(cfg, n).len() ==> (#[trigger] recurrent_below(cfg, n)[i]) < n
                && cfg.layers@[recurrent_below(cfg, n)[i] as int].recurrent,
        forall|i: int, j: int|
            #![trigger recurrent_below(cfg, n)[i], recurrent_below(cfg, n)[j]]
            0 <= i < j < recurrent_below(cfg, n).len() ==> recurrent_below(cfg, n)[i]
                < recurrent_below(cfg, n)[j],
        forall|l: int|
            0 <= l < n && (#[trigger] cfg.layers@[l]).recurrent ==> recurrent_below(
                cfg,
                n,
            ).contains(l as usize),
    decreases n,
{
    if n > 0 {
        lemma_recurrent_layers(cfg, (n - 1) as nat);
        let before = recurrent_below(cfg, (n - 1) as nat);
        let all = recurrent_below(cfg, n);
        assert forall|l: int| 0 <= l < n && (#[trigger] cfg.layers@[l]).recurrent implies
            all.contains(l as usize) by {
            if l < n - 1 {
                assert(before.contains(l as usize));
                let i = choose|i: int| 0 <= i < before.len() && before[i] == l as usize;
                assert(all[i] == l as usize);
            } else {
                assert(all[all.len() - 1] == l as usize);
            }
        }
    }
}

/// The recurrent layers of a model, ascending.
pub fn list_recurrent_layers(cfg: &Config) -> (layers: Vec<usize>)
    ensures
        layers@ == recurrent_layers(*cfg),
{
    let mut layers: Vec<usize> = Vec::new();
    let n: usize = cfg.layers.len();
    let mut l: usize = 0;
    while l < n
        invariant
            l <= n == cfg.layers@.len(),
            layers@ == recurrent_below(*cfg, l as nat),
        decreases n - l,
    {
        if cfg.layers[l].recurrent {
            layers.push(l);
        }
        l = l + 1;
    }
    layers
}

/// The first recurrent layer among the first `n` that has no fixed allocation to snapshot.
pub open spec fn missing_state(
    cfg: Config,
    k_len: Seq<Option<usize>>,
    v_len: Seq<Option<usize>>,
    n: nat,
) -> Option<Error>
    decreases n,
{
    if n == 0 {
        None
    } else if let Some(e) = missing_state(cfg, k_len, v_len, (n - 1) as nat) {
        Some(e)
    } else if !cfg.layers@[n - 1].recurrent {
        None
    } else if k_len[n - 1] is None {
        Some(Error::CheckpointLayerWithoutK { layer: (n - 1) as usize })
    } else if v_len[n - 1] is None {
        Some(Error::CheckpointLayerWithoutV { layer: (n - 1) as usize })
    } else {
        None
    }
}

/// A cache allocation of a given length.
pub open spec fn state_request(bytes: usize) -> AllocRequest {
    AllocRequest::Fixed { bytes: nonzero(bytes), usage: BufferUsage::KvCache }
}

/// The allocations that hold the K and V state of the recurrent layers among the first `n`.
pub open spec fn state_requests(
    cfg: Config,
    k_len: Seq<Option<usize>>,
    v_len: Seq<Option<usize>>,
    n: nat,
) -> Seq<AllocRequest>
    decreases n,
{
    if n == 0 {
        Seq::empty()
    } else {
        let before = state_requests(cfg, k_len, v_len, (n - 1) as nat);
        if cfg.layers@[n - 1].recurrent {
            before + seq![
                state_request(k_len[n - 1].unwrap_or(0)),
                state_request(v_len[n - 1].unwrap_or(0)),
            ]
        } else {
            before
        }
    }
}

proof fn lemma_state_requests_len(
    cfg: Config,
    k_len: Seq<Option<usize>>,
    v_len: Seq<Option<usize>>,
    n: nat,
)
    ensures
        state_requests(cfg, k_len, v_len, n).len() == 2 * recurrent_below(cfg, n).len(),
    decreases n,
{
    if n > 0 {
        lemma_state_requests_len(cfg, k_len, v_len, (n - 1) as nat);
    }
}

/// The allocations of a whole checkpoint: the layers' state, then the model-level history.
pub open spec fn checkpoint_requests(
    cfg: Config,
    k_len: Seq<Option<usize>>,
    v_len: Seq<Option<usize>>,
    ple_len: Option<usize>,
) -> Seq<AllocRequest> {
    let layers = state_requests(cfg, k_len, v_len, cfg.layers@.len());
    match ple_len {
        Some(bytes) => layers.push(state_request(bytes)),
        None => layers,
    }
}

/// Recurrent state at one stable boundary of a conversation.
///
/// The buffers are allocated once for a slot and reused. A checkpoint is published, that is valid,
/// only when every recurrent layer and the model-level history were copied for its tokens.
pub struct TurnRecurrentCkpt {
    pub kbufs: Vec<DeviceBuffer>,
    pub vbufs: Vec<DeviceBuffer>,
    /// History of the model-level n-gram convolution, where the model has one.
    pub ple_state: Option<DeviceBuffer>,
    pub layers: Vec<usize>,
    pub tokens: Vec<u32>,
    pub copied: Vec<bool>,
    pub ple_copied: bool,
    pub valid: bool,
}

/// One step of taking a snapshot.
#[derive(Clone, Copy, Debug, PartialEq, Eq, Structural)]
pub enum SnapshotStep {
    /// Copy the state of the layer at `index` of the checkpoint.
    Layer { index: usize, k: DeviceOp, v: DeviceOp },
    /// Copy the model-level history.
    Ple { op: DeviceOp },
    /// Nothing is left to copy.
    Publish,
}

/// Every flag is set.
pub open spec fn all_set(flags: Seq<bool>) -> bool {
    forall|i: int| 0 <= i < flags.len() ==> #[trigger] flags[i]
}

/// The first flag that is not set, or the length.
pub open spec fn first_unset(flags: Seq<bool>) -> nat
    decreases flags.len(),
{
    if flags.len() == 0 || !flags[0] {
        0
    } else {
        1 + first_unset(flags.skip(1))
    }
}

proof fn lemma_first_unset(flags: Seq<bool>, n: nat)
    requires
        n <= flags.len(),
        forall|i: int| 0 <= i < n ==> #[trigger] flags[i],
        n < flags.len() ==> !flags[n as int],
    ensures
        first_unset(flags) == n,
    decreases n,
{
    if n > 0 {
        assert(flags[0]);
        assert forall|i: int| 0 <= i < n - 1 implies #[trigger] flags.skip(1)[i] by {
            assert(flags[i + 1]);
        }
        lemma_first_unset(flags.skip(1), (n - 1) as nat);
    }
}

/// The first position of a value, or the length.
pub open spec fn first_index(s: Seq<usize>, x: usize) -> nat
    decreases s.len(),
{
    if s.len() == 0 || s[0] == x {
        0
    } else {
        1 + first_index(s.skip(1), x)
    }
}

pub proof fn lemma_first_index(s: Seq<usize>, x: usize, n: nat)
    requires
        n <= s.len(),
        forall|i: int| 0 <= i < n ==> #[trigger] s[i] != x,
        n < s.len() ==> s[n as int] == x,
    ensures
        first_index(s, x) == n,
    decreases n,
{
    if n > 0 {
        assert(s[0] != x);
        assert forall|i: int| 0 <= i < n - 1 implies #[trigger] s.skip(1)[i] != x by {
            assert(s[i + 1] != x);
        }
        lemma_first_index(s.skip(1), x, (n - 1) as nat);
    }
}

/// The position of a layer in a list of layers.
pub fn position_of(layers: &Vec<usize>, layer: usize) -> (at: Option<usize>)
    ensures
        match at {
            Some(i) => i == first_index(layers@, layer) && i < layers@.len(),
            None => first_index(layers@, layer) >= layers@.len(),
        },
{
    let mut i: usize = 0;
    while i < layers.len()
        invariant
            i <= layers@.len(),
            forall|j: int| 0 <= j < i ==> #[trigger] layers@[j] != layer,
        decreases layers@.len() - i,
    {
        if layers[i] == layer {
            proof {
                lemma_first_index(layers@, layer, i as nat);
            }
            return Some(i);
        }
        i = i + 1;
    }
    proof {
        lemma_first_index(layers@, layer, i as nat);
    }
    None
}

/// A list with every flag off.
pub open spec fn all_off(n: nat) -> Seq<bool> {
    Seq::new(n, |i: int| false)
}

fn flags_off(n: usize) -> (flags: Vec<bool>)
    ensures
        flags@ == all_off(n as nat),
{
    let mut flags: Vec<bool> = Vec::new();
    let mut i: usize = 0;
    while i < n
        invariant
            i <= n,
            flags@ == all_off(i as nat),
        decreases n - i,
    {
        flags.push(false);
        i = i + 1;
        assert(flags@ =~= all_off(i as nat));
    }
    flags
}

/// Every second buffer of a list, beginning at `first`: how many there are is `n`.
pub open spec fn every_second(bufs: Seq<DeviceBuffer>, first: int, n: nat) -> Seq<DeviceBuffer> {
    Seq::new(n, |i: int| bufs[2 * i + first])
}

impl TurnRecurrentCkpt {
    /// The lists of the checkpoint describe the same layers.
    pub open spec fn wf(&self) -> bool {
        &&& self.kbufs@.len() == self.layers@.len()
        &&& self.vbufs@.len() == self.layers@.len()
        &&& self.copied@.len() == self.layers@.len()
    }

    /// The checkpoint's layers are layers of a model with `n` of them.
    pub open spec fn fits(&self, n: nat) -> bool {
        self.wf() && forall|i: int|
            0 <= i < self.layers@.len() ==> (#[trigger] self.layers@[i]) < n
    }

    /// Everything that a checkpoint of its tokens needs has been copied.
    pub open spec fn complete(&self) -> bool {
        self.tokens@.len() > 0 && all_set(self.copied@) && self.ple_copied
    }

    /// The buffers and layers of two checkpoints are the same.
    pub open spec fn same_buffers(&self, other: &TurnRecurrentCkpt) -> bool {
        self.kbufs@ == other.kbufs@ && self.vbufs@ == other.vbufs@ && self.ple_state
            == other.ple_state && self.layers@ == other.layers@
    }

    /// Withdraws the checkpoint; the buffers stay.
    pub fn invalidate(&mut self)
        ensures
            final(self).same_buffers(old(self)),
            !final(self).valid,
            final(self).tokens@.len() == 0,
            final(self).copied@ == all_off(old(self).copied@.len()),
            !final(self).ple_copied,
    {
        self.valid = false;
        self.tokens = Vec::new();
        let n: usize = self.copied.len();
        self.copied = flags_off(n);
        self.ple_copied = false;
    }

    /// Decides a checkpoint: says what to allocate, or why a checkpoint cannot be begun. `k_len`
    /// and `v_len` are the lengths of each layer's fixed state, absent where there is none.
    ///
    /// Nothing is allocated for a slot that already has its buffers, nor for a model without
    /// recurrent layers.
    pub fn begin_sized(
        slot: &Option<TurnRecurrentCkpt>,
        cfg: &Config,
        k_len: &Vec<Option<usize>>,
        v_len: &Vec<Option<usize>>,
        ple_len: Option<usize>,
    ) -> (requests: Result<Vec<AllocRequest>, Error>)
        requires
            slot is None ==> k_len@.len() == cfg.layers@.len(),
            slot is None ==> v_len@.len() == cfg.layers@.len(),
        ensures
            match TurnRecurrentCkpt::begun(*slot, *cfg, k_len@, v_len@, ple_len) {
                Ok(list) => requests matches Ok(made) && made@ == list,
                Err(e) => requests == Err::<Vec<AllocRequest>, Error>(e),
            },
    {
        let mut list: Vec<AllocRequest> = Vec::new();
        if let Some(ck) = slot {
            if ck.ple_state.is_some() != ple_len.is_some() {
                return Err(Error::CheckpointPleShapeChanged);
            }
            assert(list@ =~= Seq::<AllocRequest>::empty());
            return Ok(list);
        }
        let n: usize = cfg.layers.len();
        let mut any: bool = false;
        let mut l: usize = 0;
        while l < n
            invariant
                l <= n == cfg.layers@.len() == k_len@.len() == v_len@.len(),
                slot is None,
                missing_state(*cfg, k_len@, v_len@, l as nat) is None,
                list@ == state_requests(*cfg, k_len@, v_len@, l as nat),
                any == (recurrent_below(*cfg, l as nat).len() > 0),
            decreases n - l,
        {
            if cfg.layers[l].recurrent {
                any = true;
                match k_len[l] {
                    None => {
                        proof {
                            lemma_missing_stays(*cfg, k_len@, v_len@, (l + 1) as nat, n as nat);
                        }
                        return Err(Error::CheckpointLayerWithoutK { layer: l });
                    },
                    Some(kb) => match v_len[l] {
                        None => {
                            proof {
                                lemma_missing_stays(
                                    *cfg,
                                    k_len@,
                                    v_len@,
                                    (l + 1) as nat,
                                    n as nat,
                                );
                            }
                            return Err(Error::CheckpointLayerWithoutV { layer: l });
                        },
                        Some(vb) => {
                            list.push(
                                AllocRequest::Fixed {
                                    bytes: at_least_one(kb),
                                    usage: BufferUsage::KvCache,
                                },
                            );
                            list.push(
                                AllocRequest::Fixed {
                                    bytes: at_least_one(vb),
                                    usage: BufferUsage::KvCache,
                                },
                            );
                        },
                    },
                }
            }
            l = l + 1;
            assert(list@ =~= state_requests(*cfg, k_len@, v_len@, l as nat));
        }
        if !any {
            let none: Vec<AllocRequest> = Vec::new();
            assert(none@ =~= Seq::<AllocRequest>::empty());
            return Ok(none);
        }
        if let Some(bytes) = ple_len {
            list.push(AllocRequest::Fixed { bytes: at_least_one(bytes), usage: BufferUsage::KvCache });
        }
        Ok(list)
    }

    /// [`TurnRecurrentCkpt::begin_sized`] for a slot whose buffers all exist.
    pub fn begin(
        slot: &Option<TurnRecurrentCkpt>,
        cfg: &Config,
        src_k: &Vec<DeviceBuffer>,
        src_v: &Vec<DeviceBuffer>,
        src_ple: Option<DeviceBuffer>,
    ) -> (requests: Result<Vec<AllocRequest>, Error>)
        requires
            src_k@.len() == cfg.layers@.len(),
            src_v@.len() == cfg.layers@.len(),
        ensures
            requests is Err <==> (slot matches Some(ck) && (ck.ple_state is Some) != (
            src_ple is Some)),
            requests matches Err(e) ==> e == Error::CheckpointPleShapeChanged,
            requests matches Ok(list) ==> list@ == (if slot is Some || recurrent_layers(
                *cfg,
            ).len() == 0 {
                Seq::empty()
            } else {
                checkpoint_requests(
                    *cfg,
                    all_lengths(src_k@),
                    all_lengths(src_v@),
                    length_of(src_ple),
                )
            }),
    {
        let k_len: Vec<Option<usize>> = lengths(src_k);
        let v_len: Vec<Option<usize>> = lengths(src_v);
        let ple_len: Option<usize> = match src_ple {
            Some(b) => Some(b.len_bytes),
            None => None,
        };
        proof {
            lemma_nothing_missing(*cfg, k_len@, v_len@, cfg.layers@.len());
        }
        TurnRecurrentCkpt::begin_sized(slot, cfg, &k_len, &v_len, ple_len)
    }

    /// What [`TurnRecurrentCkpt::begin_sized`] answers.
    pub open spec fn begun(
        slot: Option<TurnRecurrentCkpt>,
        cfg: Config,
        k_len: Seq<Option<usize>>,
        v_len: Seq<Option<usize>>,
        ple_len: Option<usize>,
    ) -> Result<Seq<AllocRequest>, Error> {
        match slot {
            Some(ck) => if (ck.ple_state is Some) != (ple_len is Some) {
                Err(Error::CheckpointPleShapeChanged)
            } else {
                Ok(Seq::empty())
            },
            None => match missing_state(cfg, k_len, v_len, cfg.layers@.len()) {
                Some(e) => Err(e),
                None => Ok(
                    if recurrent_layers(cfg).len() == 0 {
                        Seq::empty()
                    } else {
                        checkpoint_requests(cfg, k_len, v_len, ple_len)
                    },
                ),
            },
        }
    }

    /// [`TurnRecurrentCkpt::begin_sized`] while segmented planes are not bound yet. A recurrent
    /// layer already has its fixed allocation; an unbound plane is no checkpoint state.
    pub fn begin_before_dynamic_kv(
        slot: &Option<TurnRecurrentCkpt>,
        cfg: &Config,
        src_k: &Vec<Option<DeviceBuffer>>,
        src_v: &Vec<Option<DeviceBuffer>>,
        src_ple: Option<DeviceBuffer>,
    ) -> (requests: Result<Vec<AllocRequest>, Error>)
        requires
            slot is None ==> src_k@.len() == cfg.layers@.len(),
            slot is None ==> src_v@.len() == cfg.layers@.len(),
        ensures
            match TurnRecurrentCkpt::begun(
                *slot,
                *cfg,
                bound_lengths(src_k@),
                bound_lengths(src_v@),
                length_of(src_ple),
            ) {
                Ok(list) => requests matches Ok(made) && made@ == list,
                Err(e) => requests == Err::<Vec<AllocRequest>, Error>(e),
            },
    {
        let k_len: Vec<Option<usize>> = optional_lengths(src_k);
        let v_len: Vec<Option<usize>> = optional_lengths(src_v);
        let ple_len: Option<usize> = match src_ple {
            Some(b) => Some(b.len_bytes),
            None => None,
        };
        TurnRecurrentCkpt::begin_sized(slot, cfg, &k_len, &v_len, ple_len)
    }

    /// The checkpoint that [`TurnRecurrentCkpt::adopt`] makes of fresh buffers.
    pub open spec fn made_of(
        &self,
        cfg: Config,
        with_ple: bool,
        allocated: Seq<DeviceBuffer>,
    ) -> bool {
        let n = recurrent_layers(cfg).len();
        &&& self.layers@ == recurrent_layers(cfg)
        &&& self.kbufs@ == every_second(allocated, 0, n)
        &&& self.vbufs@ == every_second(allocated, 1, n)
        &&& self.ple_state == (if with_ple {
            Some(allocated.last())
        } else {
            None::<DeviceBuffer>
        })
    }

    /// Starts replacing the checkpoint with `tokens`. `allocated` are the buffers for the requests
    /// of [`TurnRecurrentCkpt::begin_sized`], in their order. The checkpoint is not valid until
    /// everything was copied.
    pub fn adopt(
        slot: &mut Option<TurnRecurrentCkpt>,
        cfg: &Config,
        with_ple: bool,
        allocated: &Vec<DeviceBuffer>,
        tokens: &[u32],
    )
        requires
            (*old(slot)) is None && recurrent_layers(*cfg).len() > 0 ==> allocated@.len() == 2
                * recurrent_layers(*cfg).len() + (if with_ple {
                1int
            } else {
                0int
            }),
            (*old(slot)) matches Some(ck) ==> ck.ple_state is Some == with_ple,
        ensures
            (*final(slot)) is Some <==> (*old(slot)) is Some || recurrent_layers(*cfg).len() > 0,
            (*final(slot)) matches Some(ck) ==> {
                &&& ck.tokens@ == tokens@
                &&& !ck.valid
                &&& ck.ple_copied == !with_ple
                &&& match *old(slot) {
                    Some(before) => ck.same_buffers(&before) && ck.copied@ == all_off(
                        before.copied@.len(),
                    ),
                    None => ck.made_of(*cfg, with_ple, allocated@) && ck.copied@ == all_off(
                        recurrent_layers(*cfg).len(),
                    ),
                }
            },
    {
        if slot.is_none() {
            let layers: Vec<usize> = list_recurrent_layers(cfg);
            if layers.len() == 0 {
                return ;
            }
            let n: usize = layers.len();
            let m: usize = allocated.len();
            let mut kbufs: Vec<DeviceBuffer> = Vec::new();
            let mut vbufs: Vec<DeviceBuffer> = Vec::new();
            let mut i: usize = 0;
            while i < n
                invariant
                    i <= n,
                    2 * n <= m == allocated@.len(),
                    kbufs@ == every_second(allocated@, 0, i as nat),
                    vbufs@ == every_second(allocated@, 1, i as nat),
                decreases n - i,
            {
                kbufs.push(allocated[2 * i]);
                vbufs.push(allocated[2 * i + 1]);
                i = i + 1;
                assert(kbufs@ =~= every_second(allocated@, 0, i as nat));
                assert(vbufs@ =~= every_second(allocated@, 1, i as nat));
            }
            let ple_state: Option<DeviceBuffer> = if with_ple {
                Some(allocated[allocated.len() - 1])
            } else {
                None
            };
            *slot =
            Some(
                TurnRecurrentCkpt {
                    kbufs,
                    vbufs,
                    ple_state,
                    layers,
                    tokens: first_tokens(tokens, tokens.len()),
                    copied: flags_off(n),
                    ple_copied: !with_ple,
                    valid: false,
                },
            );
            assert(tokens@.take(tokens@.len() as int) =~= tokens@);
        } else if let Some(ck) = slot.as_mut() {
            ck.tokens = first_tokens(tokens, tokens.len());
            let n: usize = ck.copied.len();
            ck.copied = flags_off(n);
            ck.ple_copied = !with_ple;
            ck.valid = false;
            assert(tokens@.take(tokens@.len() as int) =~= tokens@);
        }
    }

    /// The step that snapshots the layer at `index`.
    pub open spec fn layer_step_of(
        &self,
        src_k: Seq<DeviceBuffer>,
        src_v: Seq<DeviceBuffer>,
        index: int,
    ) -> SnapshotStep {
        let layer = self.layers@[index] as int;
        SnapshotStep::Layer {
            index: index as usize,
            k: whole_copy(src_k[layer], self.kbufs@[index]),
            v: whole_copy(src_v[layer], self.vbufs@[index]),
        }
    }

    /// What is to be copied for one layer of the model, if it is a checkpointed layer that has not
    /// been copied yet.
    pub fn snapshot_layer(
        &self,
        src_k: &Vec<DeviceBuffer>,
        src_v: &Vec<DeviceBuffer>,
        layer: usize,
    ) -> (step: Option<SnapshotStep>)
        requires
            self.fits(src_k@.len()),
            self.fits(src_v@.len()),
        ensures
            step == ({
                let i = first_index(self.layers@, layer) as int;
                if i < self.layers@.len() && !self.copied@[i] {
                    Some(self.layer_step_of(src_k@, src_v@, i))
                } else {
                    None
                }
            }),
    {
        match position_of(&self.layers, layer) {
            Some(i) => self.snapshot_index(src_k, src_v, i),
            None => None,
        }
    }

    /// What is to be copied for the checkpointed layer at `i`, if it has not been copied yet.
    pub fn snapshot_index(
        &self,
        src_k: &Vec<DeviceBuffer>,
        src_v: &Vec<DeviceBuffer>,
        i: usize,
    ) -> (step: Option<SnapshotStep>)
        requires
            self.fits(src_k@.len()),
            self.fits(src_v@.len()),
            i < self.layers@.len(),
        ensures
            step == (if self.copied@[i as int] {
                None
            } else {
                Some(self.layer_step_of(src_k@, src_v@, i as int))
            }),
    {
        if self.copied[i] {
            return None;
        }
        let layer: usize = self.layers[i];
        assert(self.layers@[i as int] < src_k@.len());
        let k: DeviceBuffer = src_k[layer];
        let v: DeviceBuffer = src_v[layer];
        Some(
            SnapshotStep::Layer {
                index: i,
                k: DeviceOp::Copy { src: k, dst: self.kbufs[i], bytes: k.len_bytes },
                v: DeviceOp::Copy { src: v, dst: self.vbufs[i], bytes: v.len_bytes },
            },
        )
    }

    /// The step that [`TurnRecurrentCkpt::snapshot_ple`] takes.
    pub open spec fn ple_step_of(&self, src: Option<DeviceBuffer>) -> Result<SnapshotStep, Error> {
        match (self.ple_state, src) {
            (Some(dst), Some(src)) => if self.ple_copied {
                Ok(SnapshotStep::Publish)
            } else {
                Ok(SnapshotStep::Ple { op: whole_copy(src, dst) })
            },
            (None, None) => Ok(SnapshotStep::Publish),
            _ => Err(Error::CheckpointPleSourceDiffers),
        }
    }

    /// What is to be copied for the model-level history.
    pub fn snapshot_ple(&self, src: Option<DeviceBuffer>) -> (step: Result<SnapshotStep, Error>)
        ensures
            step == self.ple_step_of(src),
    {
        match (self.ple_state, src) {
            (Some(dst), Some(from)) => {
                if self.ple_copied {
                    Ok(SnapshotStep::Publish)
                } else {
                    Ok(
                        SnapshotStep::Ple {
                            op: DeviceOp::Copy { src: from, dst, bytes: from.len_bytes },
                        },
                    )
                }
            },
            (None, None) => Ok(SnapshotStep::Publish),
            (Some(_), None) => Err(Error::CheckpointPleSourceDiffers),
            (None, Some(_)) => Err(Error::CheckpointPleSourceDiffers),
        }
    }

    /// The next step of a whole snapshot: the first layer that is not copied, then the model-level
    /// history, then nothing.
    pub fn snapshot_all(
        &self,
        src_k: &Vec<DeviceBuffer>,
        src_v: &Vec<DeviceBuffer>,
        src_ple: Option<DeviceBuffer>,
    ) -> (step: Result<SnapshotStep, Error>)
        requires
            self.fits(src_k@.len()),
            self.fits(src_v@.len()),
        ensures
            step == (if first_unset(self.copied@) < self.layers@.len() {
                Ok(self.layer_step_of(src_k@, src_v@, first_unset(self.copied@) as int))
            } else {
                self.ple_step_of(src_ple)
            }),
    {
        let mut i: usize = 0;
        while i < self.layers.len()
            invariant
                self.fits(src_k@.len()),
                self.fits(src_v@.len()),
                i <= self.layers@.len(),
                forall|j: int| 0 <= j < i ==> #[trigger] self.copied@[j],
            decreases self.layers@.len() - i,
        {
            if let Some(step) = self.snapshot_index(src_k, src_v, i) {
                proof {
                    lemma_first_unset(self.copied@, i as nat);
                }
                return Ok(step);
            }
            i = i + 1;
        }
        proof {
            lemma_first_unset(self.copied@, i as nat);
        }
        self.snapshot_ple(src_ple)
    }

    /// Publishes the checkpoint if everything has been copied, and withdraws it otherwise.
    pub fn refresh_valid(&mut self)
        ensures
            final(self).same_buffers(old(self)),
            final(self).tokens@ == old(self).tokens@,
            final(self).copied@ == old(self).copied@,
            final(self).ple_copied == old(self).ple_copied,
            final(self).valid == old(self).complete(),
    {
        let mut done: bool = self.tokens.len() > 0 && self.ple_copied;
        let mut i: usize = 0;
        while i < self.copied.len()
            invariant
                self == old(self),
                i <= self.copied@.len(),
                done == (self.tokens@.len() > 0 && self.ple_copied && forall|j: int|
                    0 <= j < i ==> #[trigger] self.copied@[j]),
            decreases self.copied@.len() - i,
        {
            if !self.copied[i] {
                done = false;
            }
            i = i + 1;
        }
        self.valid = done;
    }

    /// Records that a step was carried out.
    pub fn record(&mut self, step: SnapshotStep)
        requires
            old(self).wf(),
            step matches SnapshotStep::Layer { index, .. } ==> index < old(self).layers@.len(),
        ensures
            final(self).same_buffers(old(self)),
            final(self).tokens@ == old(self).tokens@,
            final(self).copied@ == (match step {
                SnapshotStep::Layer { index, .. } => old(self).copied@.update(index as int, true),
                _ => old(self).copied@,
            }),
            final(self).ple_copied == (old(self).ple_copied || step is Ple),
            final(self).valid == final(self).complete(),
    {
        match step {
            SnapshotStep::Layer { index, .. } => {
                self.copied.set(index, true);
            },
            SnapshotStep::Ple { .. } => {
                self.ple_copied = true;
            },
            SnapshotStep::Publish => {},
        }
        self.refresh_valid();
    }

    /// Takes the buffers over from a session that was restored from outside: all of it counts as
    /// copied for `tokens`.
    pub fn restored(&mut self, tokens: Vec<u32>)
        ensures
            final(self).same_buffers(old(self)),
            final(self).tokens@ == tokens@,
            final(self).copied@ == Seq::new(old(self).copied@.len(), |i: int| true),
            final(self).ple_copied,
            final(self).valid,
    {
        let n: usize = self.copied.len();
        let mut copied: Vec<bool> = Vec::new();
        let mut i: usize = 0;
        while i < n
            invariant
                i <= n,
                copied@ == Seq::new(i as nat, |j: int| true),
            decreases n - i,
        {
            copied.push(true);
            i = i + 1;
            assert(copied@ =~= Seq::new(i as nat, |j: int| true));
        }
        self.tokens = tokens;
        self.copied = copied;
        self.ple_copied = true;
        self.valid = true;
    }
}

/// How many flags are not set.
pub open spec fn unset_count(flags: Seq<bool>) -> nat
    decreases flags.len(),
{
    if flags.len() == 0 {
        0
    } else {
        unset_count(flags.drop_last()) + (if flags.last() {
            0nat
        } else {
            1nat
        })
    }
}

proof fn lemma_set_one(flags: Seq<bool>, i: int)
    requires
        0 <= i < flags.len(),
        !flags[i],
    ensures
        unset_count(flags.update(i, true)) + 1 == unset_count(flags),
    decreases flags.len(),
{
    let set = flags.update(i, true);
    if i == flags.len() - 1 {
        assert(set.drop_last() =~= flags.drop_last());
    } else {
        lemma_set_one(flags.drop_last(), i);
        assert(set.drop_last() =~= flags.drop_last().update(i, true));
    }
}

proof fn lemma_none_unset(flags: Seq<bool>)
    ensures
        unset_count(flags) == 0 <==> all_set(flags),
        first_unset(flags) <= flags.len(),
        first_unset(flags) < flags.len() ==> !flags[first_unset(flags) as int],
        first_unset(flags) == flags.len() <==> all_set(flags),
    decreases flags.len(),
{
    if flags.len() > 0 {
        lemma_none_unset(flags.drop_last());
        lemma_none_unset(flags.skip(1));
        if all_set(flags.drop_last()) && flags.last() {
            assert forall|i: int| 0 <= i < flags.len() implies #[trigger] flags[i] by {
                if i < flags.len() - 1 {
                    assert(flags.drop_last()[i]);
                }
            }
        }
        if all_set(flags) {
            assert forall|i: int| 0 <= i < flags.len() - 1 implies #[trigger] flags.drop_last()[i] by {
                assert(flags[i]);
            }
            assert forall|i: int| 0 <= i < flags.len() - 1 implies #[trigger] flags.skip(1)[i] by {
                assert(flags[i + 1]);
            }
            assert(flags[flags.len() - 1]);
            assert(flags[0]);
        }
        if flags[0] && all_set(flags.skip(1)) {
            assert forall|i: int| 0 <= i < flags.len() implies #[trigger] flags[i] by {
                if i > 0 {
                    assert(flags.skip(1)[i - 1]);
                }
            }
        }
    }
}

/// A checkpoint that was begun is published by exactly the copies that are missing: each step of a
/// snapshot that is not the last leaves one copy less to make, and the last leaves the checkpoint
/// valid exactly when it is of any tokens at all.
pub proof fn law_snapshot_ends_published(
    ck: TurnRecurrentCkpt,
    next: TurnRecurrentCkpt,
    src_k: Seq<DeviceBuffer>,
    src_v: Seq<DeviceBuffer>,
    src_ple: Option<DeviceBuffer>,
    step: SnapshotStep,
)
    requires
        ck.wf(),
        ck.layers@.len() <= usize::MAX,
        ck.ple_state is None ==> ck.ple_copied,
        (if first_unset(ck.copied@) < ck.layers@.len() {
            Ok(ck.layer_step_of(src_k, src_v, first_unset(ck.copied@) as int))
        } else {
            ck.ple_step_of(src_ple)
        }) == Ok::<SnapshotStep, Error>(step),
        next.same_buffers(&ck),
        next.tokens@ == ck.tokens@,
        next.copied@ == (match step {
            SnapshotStep::Layer { index, .. } => ck.copied@.update(index as int, true),
            _ => ck.copied@,
        }),
        next.ple_copied == (ck.ple_copied || step is Ple),
        next.valid == next.complete(),
    ensures
        next.wf(),
        step is Publish ==> next.valid == (next.tokens@.len() > 0),
        step !is Publish ==> unset_count(next.copied@) + (if next.ple_copied {
            0nat
        } else {
            1nat
        }) + 1 == unset_count(ck.copied@) + (if ck.ple_copied {
            0nat
        } else {
            1nat
        }),
{
    lemma_none_unset(ck.copied@);
    if first_unset(ck.copied@) < ck.layers@.len() {
        lemma_set_one(ck.copied@, first_unset(ck.copied@) as int);
    }
}

/// The length of a buffer that may be absent.
pub open spec fn length_of(buf: Option<DeviceBuffer>) -> Option<usize> {
    match buf {
        Some(b) => Some(b.len_bytes),
        None => None,
    }
}

/// The lengths of buffers that all exist.
pub open spec fn all_lengths(bufs: Seq<DeviceBuffer>) -> Seq<Option<usize>> {
    Seq::new(bufs.len(), |i: int| Some(bufs[i].len_bytes))
}

/// The lengths of buffers that may be absent.
pub open spec fn bound_lengths(bufs: Seq<Option<DeviceBuffer>>) -> Seq<Option<usize>> {
    Seq::new(bufs.len(), |i: int| length_of(bufs[i]))
}

fn lengths(bufs: &Vec<DeviceBuffer>) -> (out: Vec<Option<usize>>)
    ensures
        out@ == all_lengths(bufs@),
{
    let mut out: Vec<Option<usize>> = Vec::new();
    let mut i: usize = 0;
    while i < bufs.len()
        invariant
            i <= bufs@.len(),
            out@ == all_lengths(bufs@.take(i as int)),
        decreases bufs@.len() - i,
    {
        out.push(Some(bufs[i].len_bytes));
        i = i + 1;
        assert(out@ =~= all_lengths(bufs@.take(i as int)));
    }
    assert(bufs@.take(i as int) =~= bufs@);
    out
}

fn optional_lengths(bufs: &Vec<Option<DeviceBuffer>>) -> (out: Vec<Option<usize>>)
    ensures
        out@ == bound_lengths(bufs@),
{
    let mut out: Vec<Option<usize>> = Vec::new();
    let mut i: usize = 0;
    while i < bufs.len()
        invariant
            i <= bufs@.len(),
            out@ == bound_lengths(bufs@.take(i as int)),
        decreases bufs@.len() - i,
    {
        out.push(
            match bufs[i] {
                Some(b) => Some(b.len_bytes),
                None => None,
            },
        );
        i = i + 1;
        assert(out@ =~= bound_lengths(bufs@.take(i as int)));
    }
    assert(bufs@.take(i as int) =~= bufs@);
    out
}

proof fn lemma_missing_stays(
    cfg: Config,
    k_len: Seq<Option<usize>>,
    v_len: Seq<Option<usize>>,
    n: nat,
    m: nat,
)
    requires
        n <= m,
        missing_state(cfg, k_len, v_len, n) is Some,
    ensures
        missing_state(cfg, k_len, v_len, m) == missing_state(cfg, k_len, v_len, n),
    decreases m,
{
    if n < m {
        lemma_missing_stays(cfg, k_len, v_len, n, (m - 1) as nat);
    }
}

proof fn lemma_nothing_missing(
    cfg: Config,
    k_len: Seq<Option<usize>>,
    v_len: Seq<Option<usize>>,
    n: nat,
)
    requires
        n <= k_len.len(),
        n <= v_len.len(),
        forall|i: int| 0 <= i < k_len.len() ==> #[trigger] k_len[i] is Some,
        forall|i: int| 0 <= i < v_len.len() ==> #[trigger] v_len[i] is Some,
    ensures
        missing_state(cfg, k_len, v_len, n) is None,
    decreases n,
{
    if n > 0 {
        lemma_nothing_missing(cfg, k_len, v_len, (n - 1) as nat);
    }
}

} // verus!
