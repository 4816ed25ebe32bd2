//! Steps over a canvas: a block of tokens behind the prompt that is rewritten as a whole.
//!
//! A step reads the prompt's rows and writes the canvas rows behind them; the resident tokens do not
//! change. Where the device keeps two logits buffers, every step writes one and reads the other, which
//! the step before it wrote.

use crate::device::{AllocRequest, BufferUsage};
use crate::error::Error;
use crate::gates::BackendKind;
use crate::prefix::{first_out_of_vocab, validate_token_ids};
use vstd::prelude::*;

verus! {

/// What a compiled canvas graph was built for.
#[derive(Clone, Copy, Debug, PartialEq, Eq, Structural)]
pub struct CanvasKey {
    pub rows: usize,
    pub prompt: usize,
    /// The graph conditions on the last step's logits.
    pub conditioned: bool,
}

/// What a session keeps between canvas steps.
#[derive(Clone, Copy, Debug, PartialEq, Eq, Structural)]
pub struct CanvasState {
    /// The graph that is compiled, if one is.
    pub key: Option<CanvasKey>,
    /// The pair of logits buffers is allocated.
    pub paired: bool,
    /// Which buffer of the pair the next step writes.
    pub write: usize,
}

/// One canvas step, as it was asked for.
pub struct CanvasRequest<'a> {
    pub diffusion_gemma: bool,
    pub backend: BackendKind,
    pub canvas: &'a [u32],
    pub vocab: usize,
    pub n_embd: usize,
    /// The resident tokens of the prompt.
    pub prompt: usize,
    pub max_ctx: usize,
    /// How many logits of the last step the caller hands back, if any.
    pub last_logits: Option<usize>,
}

/// How one canvas step is run.
pub struct CanvasPlan {
    pub key: CanvasKey,
    /// Conditioning and the norm of the canvas run on the device.
    pub on_device: bool,
    /// The last step's logits are read from the pair, with the temperature as an input of its own.
    pub from_pair: bool,
    /// The pair and the temperature's buffer are to be allocated.
    pub new_pair: Vec<AllocRequest>,
    /// The buffer of the pair that must first be filled with the caller's logits.
    pub seed: Option<usize>,
    /// The buffers of a newly compiled graph: rows, positions, and logits in and out where the graph
    /// has its own. Empty if the compiled graph is still good.
    pub new_graph: Vec<AllocRequest>,
    /// The buffer of the pair that is written; `None` if the graph has its own.
    pub write: Option<usize>,
}

impl CanvasState {
    /// A session that has seen no canvas.
    pub fn new() -> (s: CanvasState)
        ensures
            s == (CanvasState { key: None, paired: false, write: 0 }),
            s.wf(),
    {
        CanvasState { key: None, paired: false, write: 0 }
    }

    pub open spec fn wf(self) -> bool {
        self.write <= 1
    }

    /// The buffer of the pair that the next step reads.
    pub open spec fn read(self) -> usize {
        (1 - self.write) as usize
    }
}

pub open spec fn staging(bytes: int) -> AllocRequest {
    AllocRequest::Fixed { bytes: bytes as usize, usage: BufferUsage::Staging }
}

impl<'a> CanvasRequest<'a> {
    /// Every buffer of the step has a length that fits a machine word.
    pub open spec fn sizes_fit(&self) -> bool {
        &&& self.canvas@.len() * self.vocab <= usize::MAX
        &&& self.canvas@.len() * self.vocab * 4 <= usize::MAX
        &&& self.canvas@.len() * self.n_embd <= usize::MAX
        &&& self.canvas@.len() * self.n_embd * 4 <= usize::MAX
        &&& self.canvas@.len() * 4 <= usize::MAX
        &&& self.prompt + self.canvas@.len() <= usize::MAX
    }

    /// The device conditions the canvas.
    pub open spec fn on_device(&self) -> bool {
        self.backend == BackendKind::Vulkan || self.backend == BackendKind::Metal
    }

    /// The session keeps a pair of logits buffers.
    pub open spec fn pairs(&self) -> bool {
        self.backend == BackendKind::Vulkan
    }

    pub open spec fn conditioned(&self) -> bool {
        self.on_device() && self.last_logits is Some
    }

    pub open spec fn key(&self) -> CanvasKey {
        CanvasKey {
            rows: self.canvas@.len() as usize,
            prompt: self.prompt,
            conditioned: self.conditioned(),
        }
    }

    /// Why the step is refused, if it is. The values of the last step's logits matter only where they
    /// are read from the caller, and so does their number.
    pub open spec fn refusal(&self) -> Option<Error> {
        if !self.diffusion_gemma {
            Some(Error::CanvasUnsupported)
        } else if let Some(id) = first_out_of_vocab(self.canvas@, self.vocab) {
            Some(Error::TokenOutOfRange { id, vocab: self.vocab })
        } else if self.prompt + self.canvas@.len() > self.max_ctx {
            Some(
                Error::CanvasExceedsSession {
                    prompt: self.prompt,
                    canvas: self.canvas@.len() as usize,
                    max_ctx: self.max_ctx,
                },
            )
        } else if !self.pairs() && self.last_logits is Some && self.last_logits->Some_0
            != self.canvas@.len() * self.vocab {
            Some(
                Error::CanvasLogits {
                    values: self.last_logits->Some_0,
                    rows: self.canvas@.len() as usize,
                    vocab: self.vocab,
                },
            )
        } else {
            None
        }
    }

    /// The allocations of a pair: two logits buffers and the temperature.
    pub open spec fn pair_buffers(&self) -> Seq<AllocRequest> {
        let logits = staging(self.canvas@.len() * self.vocab * 4);
        seq![logits, logits, staging(4)]
    }

    /// The allocations of a newly compiled graph.
    pub open spec fn graph_buffers(&self) -> Seq<AllocRequest> {
        let logits = staging(self.canvas@.len() * self.vocab * 4);
        seq![staging(self.canvas@.len() * self.n_embd * 4), staging((self.canvas@.len() * 4) as int)] + (
        if self.pairs() {
            Seq::empty()
        } else {
            seq![logits]
        }) + (if self.conditioned() && !self.pairs() {
            seq![logits]
        } else {
            Seq::empty()
        })
    }

    fn check(&self) -> (r: Result<(), Error>)
        requires
            self.sizes_fit(),
        ensures
            r == (match self.refusal() {
                Some(e) => Err::<(), Error>(e),
                None => Ok(()),
            }),
    {
        if !self.diffusion_gemma {
            return Err(Error::CanvasUnsupported);
        }
        match validate_token_ids(self.canvas, self.vocab) {
            Ok(_) => {},
            Err(e) => return Err(e),
        }
        let rows: usize = self.canvas.len();
        if self.prompt + rows > self.max_ctx {
            return Err(
                Error::CanvasExceedsSession {
                    prompt: self.prompt,
                    canvas: rows,
                    max_ctx: self.max_ctx,
                },
            );
        }
        if self.backend != BackendKind::Vulkan {
            if let Some(values) = self.last_logits {
                if values != rows * self.vocab {
                    return Err(Error::CanvasLogits { values, rows, vocab: self.vocab });
                }
            }
        }
        Ok(())
    }

    fn list_pair(&self) -> (v: Vec<AllocRequest>)
        requires
            self.sizes_fit(),
        ensures
            v@ == self.pair_buffers(),
    {
        let logits: AllocRequest = AllocRequest::Fixed {
            bytes: self.canvas.len() * self.vocab * 4,
            usage: BufferUsage::Staging,
        };
        let scalar: AllocRequest = AllocRequest::Fixed { bytes: 4, usage: BufferUsage::Staging };
        let v: Vec<AllocRequest> = vec![logits, logits, scalar];
        assert(v@ =~= self.pair_buffers());
        v
    }

    fn list_graph(&self) -> (v: Vec<AllocRequest>)
        requires
            self.sizes_fit(),
        ensures
            v@ == self.graph_buffers(),
    {
        let rows: usize = self.canvas.len();
        let mut v: Vec<AllocRequest> = Vec::new();
        v.push(
            AllocRequest::Fixed { bytes: rows * self.n_embd * 4, usage: BufferUsage::Staging },
        );
        v.push(AllocRequest::Fixed { bytes: rows * 4, usage: BufferUsage::Staging });
        let logits: AllocRequest = AllocRequest::Fixed {
            bytes: rows * self.vocab * 4,
            usage: BufferUsage::Staging,
        };
        if self.backend != BackendKind::Vulkan {
            v.push(logits);
            if self.backend == BackendKind::Metal && self.last_logits.is_some() {
                v.push(logits);
            }
        }
        assert(v@ =~= self.graph_buffers());
        v
    }

    /// Plans one canvas step.
    pub fn plan(&self, state: &CanvasState) -> (plan: Result<CanvasPlan, Error>)
        requires
            self.sizes_fit(),
            state.wf(),
        ensures
            plan matches Err(e) ==> self.refusal() == Some(e),
            plan matches Ok(p) ==> {
                &&& self.refusal() is None
                &&& p.key == self.key()
                &&& p.on_device == self.on_device()
                &&& p.from_pair == (self.conditioned() && self.pairs())
                &&& p.new_pair@ == (if self.pairs() && !state.paired {
                    self.pair_buffers()
                } else {
                    Seq::empty()
                })
                &&& p.seed == (if self.conditioned() && self.pairs() && !state.paired {
                    Some(state.read())
                } else {
                    None
                })
                &&& p.new_graph@ == (if state.key == Some(self.key()) {
                    Seq::empty()
                } else {
                    self.graph_buffers()
                })
                &&& p.write == (if self.pairs() {
                    Some(state.write)
                } else {
                    None
                })
            },
    {
        match self.check() {
            Ok(_) => {},
            Err(e) => return Err(e),
        }
        let pairs: bool = self.backend == BackendKind::Vulkan;
        let on_device: bool = pairs || self.backend == BackendKind::Metal;
        let conditioned: bool = on_device && self.last_logits.is_some();
        let key: CanvasKey = CanvasKey {
            rows: self.canvas.len(),
            prompt: self.prompt,
            conditioned,
        };
        let new_pair: Vec<AllocRequest> = if pairs && !state.paired {
            self.list_pair()
        } else {
            Vec::new()
        };
        let seed: Option<usize> = if conditioned && pairs && !state.paired {
            Some(1 - state.write)
        } else {
            None
        };
        let same: bool = match state.key {
            Some(old) => old == key,
            None => false,
        };
        let new_graph: Vec<AllocRequest> = if same {
            Vec::new()
        } else {
            self.list_graph()
        };
        let write: Option<usize> = if pairs {
            Some(state.write)
        } else {
            None
        };
        Ok(
            CanvasPlan {
                key,
                on_device,
                from_pair: conditioned && pairs,
                new_pair,
                seed,
                new_graph,
                write,
            },
        )
    }
}

/// The state after a step was run: its graph is compiled, the pair is there, and its output is what
/// the next step reads.
pub open spec fn after_step(state: CanvasState, key: CanvasKey, pairs: bool) -> CanvasState {
    CanvasState {
        key: Some(key),
        paired: state.paired || pairs,
        write: if pairs {
            state.read()
        } else {
            state.write
        },
    }
}

impl CanvasState {
    /// Records a step that was run.
    pub fn finish(&mut self, plan: &CanvasPlan)
        requires
            old(self).wf(),
        ensures
            *final(self) == after_step(*old(self), plan.key, plan.write is Some),
            final(self).wf(),
    {
        self.key = Some(plan.key);
        if plan.write.is_some() {
            self.paired = true;
            self.write = 1 - self.write;
        }
    }
}

/// Checks that there is one uniform draw for each row.
pub fn check_draws(draws: usize, rows: usize) -> (r: Result<(), Error>)
    ensures
        r == (if draws != rows {
            Err::<(), Error>(Error::CanvasDraws { draws, rows })
        } else {
            Ok(())
        }),
{
    if draws != rows {
        Err(Error::CanvasDraws { draws, rows })
    } else {
        Ok(())
    }
}

/// The positions of `rows` rows that follow `start` others.
pub open spec fn consecutive(start: usize, rows: nat) -> Seq<usize> {
    Seq::new(rows, |i: int| (start + i) as usize)
}

/// See [`consecutive`].
pub fn row_positions(start: usize, rows: usize) -> (positions: Vec<usize>)
    requires
        start + rows <= usize::MAX,
    ensures
        positions@ == consecutive(start, rows as nat),
{
    let mut positions: Vec<usize> = Vec::new();
    let mut i: usize = 0;
    while i < rows
        invariant
            i <= rows,
            start + rows <= usize::MAX,
            positions@ == consecutive(start, i as nat),
        decreases rows - i,
    {
        positions.push(start + i);
        i = i + 1;
        assert(positions@ =~= consecutive(start, i as nat));
    }
    positions
}

/// A conditioned step reads the very buffer that the step before it wrote.
pub proof fn law_a_step_reads_what_the_last_one_wrote(state: CanvasState, key: CanvasKey)
    requires
        state.wf(),
    ensures
        after_step(state, key, true).read() == state.write,
        after_step(state, key, true).write != state.write,
{
}

/// The graph of a step stays compiled, so that a step of the same shape after it compiles nothing.
pub proof fn law_a_step_leaves_its_graph_compiled(state: CanvasState, key: CanvasKey, pairs: bool)
    ensures
        after_step(state, key, pairs).key == Some(key),
{
}

} // verus!
