//! Verifying speculated tokens, and checking the embedding rows that a step was handed.

use crate::batch_io::{ple_countable, ple_row, ple_values};
use crate::config::Config;
use crate::device::{AllocRequest, BufferUsage};
use crate::error::Error;
use crate::seam_kv::SeamKv;
use vstd::prelude::*;

verus! {

/// What a verification step is run with.
pub struct VerifyPlan {
    /// The rows that are fed: the tokens that are not resident.
    pub rows: usize,
    /// The embedded rows, the positions, the logits of every row, and, where asked for, the rows that
    /// the head is applied to and the tokens that the device chose.
    pub buffers: Vec<AllocRequest>,
}

/// What a verification step is asked for.
#[derive(Clone, Copy, Debug, PartialEq, Eq, Structural)]
pub struct VerifyRequest {
    pub moe: bool,
    /// The model has per-layer embeddings.
    pub per_layer: bool,
    pub prompt_len: usize,
    pub start: usize,
    pub n_embd: usize,
    pub vocab: usize,
    pub wants_rows: bool,
    pub device_ids: bool,
}

impl VerifyRequest {
    pub open spec fn rows(self) -> int {
        self.prompt_len - self.start
    }

    pub open spec fn sizes_fit(self) -> bool {
        &&& self.start <= self.prompt_len
        &&& self.rows() * self.n_embd <= usize::MAX
        &&& self.rows() * self.n_embd * 4 <= usize::MAX
        &&& self.rows() * self.vocab <= usize::MAX
        &&& self.rows() * self.vocab * 4 <= usize::MAX
        &&& self.rows() * 4 <= usize::MAX
    }

    pub open spec fn buffers(self) -> Seq<AllocRequest> {
        let rows = self.rows();
        let embedded = AllocRequest::Fixed {
            bytes: (rows * self.n_embd * 4) as usize,
            usage: BufferUsage::Staging,
        };
        seq![
            embedded,
            AllocRequest::Fixed { bytes: (rows * 4) as usize, usage: BufferUsage::Staging },
            AllocRequest::Fixed {
                bytes: (rows * self.vocab * 4) as usize,
                usage: BufferUsage::Staging,
            },
        ] + (if self.wants_rows {
            seq![embedded]
        } else {
            Seq::empty()
        }) + (if self.device_ids {
            seq![
                AllocRequest::Fixed { bytes: (rows * 4) as usize, usage: BufferUsage::Readback },
            ]
        } else {
            Seq::empty()
        })
    }

    /// Plans the verification of the tokens that are not resident, the head on every row.
    pub fn plan(self) -> (plan: Result<VerifyPlan, Error>)
        requires
            self.sizes_fit(),
        ensures
            plan matches Err(e) ==> (self.moe || self.per_layer) && e == Error::VerifyUnsupported,
            plan matches Ok(p) ==> !self.moe && !self.per_layer && p.rows == self.rows()
                && p.buffers@ == self.buffers(),
    {
        if self.moe || self.per_layer {
            return Err(Error::VerifyUnsupported);
        }
        let rows: usize = self.prompt_len - self.start;
        let embedded: AllocRequest = AllocRequest::Fixed {
            bytes: rows * self.n_embd * 4,
            usage: BufferUsage::Staging,
        };
        let mut buffers: Vec<AllocRequest> = Vec::new();
        buffers.push(embedded);
        buffers.push(AllocRequest::Fixed { bytes: rows * 4, usage: BufferUsage::Staging });
        buffers.push(
            AllocRequest::Fixed { bytes: rows * self.vocab * 4, usage: BufferUsage::Staging },
        );
        if self.wants_rows {
            buffers.push(embedded);
        }
        if self.device_ids {
            buffers.push(AllocRequest::Fixed { bytes: rows * 4, usage: BufferUsage::Readback });
        }
        assert(buffers@ =~= self.buffers());
        Ok(VerifyPlan { rows, buffers })
    }
}

impl SeamKv {
    /// Records a verification step: every token behind the first `start` is resident now.
    pub fn verified(&mut self, prompt: &[u32], start: usize)
        requires
            start <= prompt@.len(),
        ensures
            final(self).same_buffers(old(self)),
            final(self).segmented_kv == old(self).segmented_kv,
            final(self).mtp_delta_ckpt == old(self).mtp_delta_ckpt,
            final(self).turn_recurrent_ckpt == old(self).turn_recurrent_ckpt,
            final(self).cached@ == old(self).cached@ + prompt@.skip(start as int),
            old(self).within_context() && old(self).cached@.len() == start && prompt@.len()
                <= old(self).max_ctx ==> final(self).within_context(),
    {
        let ghost before = self.cached@;
        let mut i: usize = start;
        while i < prompt.len()
            invariant
                start <= i <= prompt@.len(),
                self.same_buffers(old(self)),
                self.segmented_kv == old(self).segmented_kv,
                self.mtp_delta_ckpt == old(self).mtp_delta_ckpt,
                self.turn_recurrent_ckpt == old(self).turn_recurrent_ckpt,
                self.cached@ == before + prompt@.subrange(start as int, i as int),
            decreases prompt@.len() - i,
        {
            self.cached.push(prompt[i]);
            i = i + 1;
            assert(self.cached@ =~= before + prompt@.subrange(start as int, i as int));
        }
        assert(self.cached@ =~= before + prompt@.skip(start as int));
    }
}

/// A verified prompt is resident as a whole, so that the next call's shared prefix finds the rejected
/// tail and overwrites it.
pub proof fn law_a_verified_prompt_is_resident(cached: Seq<u32>, prompt: Seq<u32>, start: int)
    requires
        0 <= start <= prompt.len(),
        cached == prompt.take(start),
    ensures
        cached + prompt.skip(start) == prompt,
{
    assert(cached + prompt.skip(start) =~= prompt);
}

/// Checks the embedding rows of a parallel step.
pub fn check_parallel_ple(cfg: &Config, values: usize, rows: usize) -> (r: Result<(), Error>)
    requires
        ple_countable(*cfg, rows as int),
    ensures
        r == (if values != rows * ple_row(*cfg) {
            Err::<(), Error>(
                Error::ParallelPleValues {
                    values,
                    expected: (rows * ple_row(*cfg)) as usize,
                },
            )
        } else {
            Ok(())
        }),
{
    let expected: usize = ple_values(cfg, rows);
    if values != expected {
        Err(Error::ParallelPleValues { values, expected })
    } else {
        Ok(())
    }
}

/// Checks the embedding rows of a prefill chunk.
pub fn check_batched_ple(cfg: &Config, values: Option<usize>, rows: usize) -> (r: Result<(), Error>)
    requires
        ple_countable(*cfg, rows as int),
    ensures
        r == (match values {
            None => Err::<(), Error>(Error::BatchedPleMissing),
            Some(v) => if v != rows * ple_row(*cfg) {
                Err::<(), Error>(
                    Error::BatchedPleValues {
                        values: v,
                        expected: (rows * ple_row(*cfg)) as usize,
                    },
                )
            } else {
                Ok(())
            },
        }),
{
    let expected: usize = ple_values(cfg, rows);
    match values {
        None => Err(Error::BatchedPleMissing),
        Some(v) => if v != expected {
            Err(Error::BatchedPleValues { values: v, expected })
        } else {
            Ok(())
        },
    }
}

/// Checks the embedding rows of a decode step against the buffer that they are written to.
pub fn check_step_ple(values: usize, buffer: Option<usize>) -> (r: Result<(), Error>)
    requires
        values * 4 <= usize::MAX,
    ensures
        r == (match buffer {
            None => Err::<(), Error>(Error::NoPleStaging),
            Some(b) => if values * 4 != b {
                Err::<(), Error>(Error::PleBytes { bytes: (values * 4) as usize, buffer: b })
            } else {
                Ok(())
            },
        }),
{
    match buffer {
        None => Err(Error::NoPleStaging),
        Some(b) => if values * 4 != b {
            Err(Error::PleBytes { bytes: values * 4, buffer: b })
        } else {
            Ok(())
        },
    }
}

} // verus!
