//! What the runner reads of a model and of the formats its caches are kept in.

use vstd::arithmetic::div_mod::*;
use vstd::arithmetic::mul::*;
use vstd::prelude::*;

verus! {

/// Element types of weights and caches.
#[derive(Clone, Copy, Debug, PartialEq, Eq, Structural)]
pub enum DType {
    F32,
    F16,
    Bf16,
    I32,
    U32,
    I2S,
    Iq4Nl,
    Q4_0,
    Q4_1,
    Q5_0,
    Q5_1,
    Q8_0,
    Turbo2,
    Turbo3,
    Turbo4,
    /// Any other weight type, told apart by its number in the file format.
    Other(u32),
}

/// How one side of a cache is stored: `block_elems` elements take `block_bytes` bytes.
#[derive(Clone, Copy, Debug, PartialEq, Eq, Structural)]
pub struct KvFormat {
    pub dtype: DType,
    pub block_elems: usize,
    pub block_bytes: usize,
}

/// `a` divided by `b`, rounded up.
pub open spec fn ceil_div(a: nat, b: nat) -> nat
    recommends
        b > 0,
{
    (a + b - 1) as nat / b
}

/// `a` divided by `b`, rounded up.
pub fn div_ceil(a: usize, b: usize) -> (q: usize)
    requires
        b > 0,
    ensures
        q == ceil_div(a as nat, b as nat),
{
    let q: usize = a / b;
    let r: usize = a % b;
    proof {
        lemma_ceil_div(a as nat, b as nat);
    }
    if r == 0 {
        q
    } else {
        proof {
            assert(q < usize::MAX) by (nonlinear_arith)
                requires
                    b >= 1,
                    q == a / b,
                    r == a % b,
                    r != 0,
                    a <= usize::MAX,
            ;
        }
        q + 1
    }
}

/// Rounding up adds one exactly when something is left over.
pub proof fn lemma_ceil_div(a: nat, b: nat)
    requires
        b > 0,
    ensures
        ceil_div(a, b) == a / b + (if a % b == 0 {
            0int
        } else {
            1int
        }),
{
    lemma_fundamental_div_mod(a as int, b as int);
    let q = (a / b) as int;
    let r = (a % b) as int;
    if r == 0 {
        assert((a + b - 1) as int == q * (b as int) + (b - 1)) by (nonlinear_arith)
            requires
                a as int == b as int * q + r,
                r == 0,
        ;
        assert(0 <= b - 1 < b);
        lemma_fundamental_div_mod_converse((a + b - 1) as int, b as int, q, b - 1);
    } else {
        assert((a + b - 1) as int == (q + 1) * (b as int) + (r - 1)) by (nonlinear_arith)
            requires
                a as int == b as int * q + r,
        ;
        lemma_fundamental_div_mod_converse((a + b - 1) as int, b as int, q + 1, r - 1);
    }
}

/// Rounding up is monotone in the number divided.
pub proof fn lemma_ceil_div_monotone(a: nat, c: nat, b: nat)
    requires
        b > 0,
        a <= c,
    ensures
        ceil_div(a, b) <= ceil_div(c, b),
{
    lemma_div_is_ordered((a + b - 1) as int, (c + b - 1) as int, b as int);
}

/// The rounded-up quotient is the least number of blocks that hold `a`.
pub proof fn lemma_ceil_div_is_least_cover(a: nat, b: nat, n: nat)
    requires
        b > 0,
    ensures
        (a <= n * b) == (ceil_div(a, b) <= n),
{
    lemma_ceil_div(a, b);
    lemma_fundamental_div_mod(a as int, b as int);
    let q = (a / b) as int;
    let r = (a % b) as int;
    assert((a <= n * b) == (q + (if r == 0 {
        0int
    } else {
        1int
    }) <= n)) by (nonlinear_arith)
        requires
            a as int == b as int * q + r,
            0 <= r < b,
            b > 0,
            n >= 0,
    ;
}

/// An exact multiple divides exactly.
pub proof fn lemma_ceil_div_multiple(n: nat, b: nat)
    requires
        b > 0,
    ensures
        ceil_div(n * b, b) == n,
{
    lemma_ceil_div(n * b, b);
    lemma_div_by_multiple(n as int, b as int);
    lemma_mod_multiples_basic(n as int, b as int);
}

impl KvFormat {
    /// Blocks are never empty.
    pub open spec fn valid(self) -> bool {
        self.block_elems > 0
    }

    /// Bytes that `elems` elements take.
    pub open spec fn size(self, elems: nat) -> nat {
        ceil_div(elems, self.block_elems as nat) * (self.block_bytes as nat)
    }

    /// Half-precision floats.
    pub fn half() -> (f: KvFormat)
        ensures
            f == (KvFormat { dtype: DType::F16, block_elems: 1, block_bytes: 2 }),
    {
        KvFormat { dtype: DType::F16, block_elems: 1, block_bytes: 2 }
    }

    /// Single-precision floats.
    pub fn single() -> (f: KvFormat)
        ensures
            f == (KvFormat { dtype: DType::F32, block_elems: 1, block_bytes: 4 }),
    {
        KvFormat { dtype: DType::F32, block_elems: 1, block_bytes: 4 }
    }

    /// Blocks of thirty-two bytes with a two-byte scale.
    pub fn block8() -> (f: KvFormat)
        ensures
            f == (KvFormat { dtype: DType::Q8_0, block_elems: 32, block_bytes: 34 }),
    {
        KvFormat { dtype: DType::Q8_0, block_elems: 32, block_bytes: 34 }
    }
}

/// Bytes that `elems` cache elements take in a format.
pub fn kv_fmt_bytes(format: KvFormat, elems: usize) -> (bytes: usize)
    requires
        format.valid(),
        format.size(elems as nat) <= usize::MAX,
    ensures
        bytes == format.size(elems as nat),
{
    div_ceil(elems, format.block_elems) * format.block_bytes
}

/// More elements never take fewer bytes.
pub proof fn lemma_size_monotone(format: KvFormat, a: nat, b: nat)
    requires
        format.valid(),
        a <= b,
    ensures
        format.size(a) <= format.size(b),
{
    lemma_ceil_div_monotone(a, b, format.block_elems as nat);
    lemma_mul_inequality(
        ceil_div(a, format.block_elems as nat) as int,
        ceil_div(b, format.block_elems as nat) as int,
        format.block_bytes as int,
    );
}

/// `n` whole runs take `n` times the bytes of one, when a run is made of whole blocks.
pub proof fn lemma_size_of_runs(format: KvFormat, run: nat, n: nat)
    requires
        format.valid(),
        run % (format.block_elems as nat) == 0,
    ensures
        format.size(n * run) == n * format.size(run),
{
    let be = format.block_elems as nat;
    let bb = format.block_bytes as nat;
    let k = run / be;
    lemma_fundamental_div_mod(run as int, be as int);
    lemma_mul_is_commutative(be as int, k as int);
    assert(run == k * be);
    lemma_ceil_div_multiple(k, be);
    lemma_mul_is_associative(n as int, k as int, be as int);
    lemma_ceil_div_multiple(n * k, be);
    lemma_mul_is_associative(n as int, k as int, bb as int);
}

/// What the runner reads of one layer.
#[derive(Clone, Copy, Debug, PartialEq, Eq, Structural)]
pub struct LayerConfig {
    /// The mixer keeps a fixed-size recurrent state in place of per-token rows.
    pub recurrent: bool,
    /// A full-attention layer of a hybrid model.
    pub hybrid_attention: bool,
    /// A full-attention layer of the first hybrid generation, whose other layers are rolled back by
    /// speculative decoding.
    pub qwen35_attention: bool,
    /// A sliding-window attention layer.
    pub swa: bool,
    /// The layer that carries the per-layer n-gram embedding.
    pub ple: bool,
    /// Elements of one token's K row and V row; zero where the layer caches none.
    pub k_row: usize,
    pub v_row: usize,
    /// Tokens per compressed block; zero where the layer compresses nothing.
    pub compress_ratio: usize,
}

/// What the runner reads of a model.
#[derive(Debug)]
pub struct Config {
    pub layers: Vec<LayerConfig>,
    pub qwen35: bool,
    pub qwen4exp: bool,
    pub bailingmoe3: bool,
    pub deepseek4: bool,
    pub n_embd: usize,
    pub n_embd_per_layer: usize,
    pub vocab: usize,
    pub hc_mult: usize,
    pub swa_window: usize,
    pub indexer_head_size: usize,
    pub indexer_top_k: usize,
    pub ple_ngram_size: usize,
    pub ple_heads_per_ngram: usize,
    pub ple_head_dim: usize,
    pub ple_conv_kernel: usize,
    /// Taps of the recurrent mixers' causal convolution.
    pub ssm_d_conv: usize,
    /// Channels of that convolution, and elements of one layer's recurrent state.
    pub recurrent_conv_channels: usize,
    pub recurrent_state_elems: usize,
}

impl Config {
    /// Whether any mixer of this architecture keeps recurrent state.
    pub open spec fn recurrent(&self) -> bool {
        self.qwen35 || self.qwen4exp || self.bailingmoe3
    }

    /// See [`Config::recurrent`].
    pub fn recurrent_model(&self) -> (r: bool)
        ensures
            r == self.recurrent(),
    {
        self.qwen35 || self.qwen4exp || self.bailingmoe3
    }

    /// Bytes of one layer's convolution history.
    pub open spec fn conv_state_bytes(&self) -> int {
        (self.ssm_d_conv - 1) * self.recurrent_conv_channels * 4
    }

    /// Bytes of one layer's recurrent state.
    pub open spec fn mixer_state_bytes(&self) -> int {
        self.recurrent_state_elems * 4
    }

    /// The fixed recurrent state can be sized on this machine.
    pub open spec fn state_fits(&self) -> bool {
        &&& self.ssm_d_conv >= 1
        &&& self.conv_state_bytes() <= usize::MAX
        &&& self.mixer_state_bytes() <= usize::MAX
    }

    /// See [`Config::conv_state_bytes`].
    pub fn conv_bytes(&self) -> (bytes: usize)
        requires
            self.state_fits(),
        ensures
            bytes == self.conv_state_bytes(),
    {
        proof {
            let taps = self.ssm_d_conv - 1;
            let ch = self.recurrent_conv_channels as int;
            assert(0 <= taps * ch <= taps * ch * 4) by (nonlinear_arith)
                requires
                    taps >= 0,
                    ch >= 0,
            ;
        }
        (self.ssm_d_conv - 1) * self.recurrent_conv_channels * 4
    }

    /// See [`Config::mixer_state_bytes`].
    pub fn state_bytes(&self) -> (bytes: usize)
        requires
            self.state_fits(),
        ensures
            bytes == self.mixer_state_bytes(),
    {
        self.recurrent_state_elems * 4
    }

    /// Number of layers.
    pub fn n_layer(&self) -> (n: usize)
        ensures
            n == self.layers@.len(),
    {
        self.layers.len()
    }
}

} // verus!
