//! How the tensors of the file become the bytes of an upload.
//!
//! Most tensors are handed over as they are mapped. Some are rewritten on the way: the query and key
//! projections of models that rotate halves are put into the order of interleaved rotation, types
//! without a kernel are converted, and the taps of a dilated convolution are spread.

use crate::config::DType;
use crate::tensor_scan::{find_from, find_tensor, present, TensorInfo};
use crate::text::{digits, push_number, push_text};
use vstd::arithmetic::div_mod::*;
use vstd::arithmetic::mul::*;
use vstd::prelude::*;
use vstd::string::StrSliceExecFns;

verus! {

/// The text ends with the suffix.
pub open spec fn ends(text: Seq<char>, suffix: Seq<char>) -> bool {
    suffix.len() <= text.len() && text.subrange(text.len() - suffix.len(), text.len() as int)
        == suffix
}

/// The text holds the part somewhere.
pub open spec fn holds(text: Seq<char>, part: Seq<char>) -> bool {
    exists|i: int| #[trigger] holds_at(text, part, i)
}

pub open spec fn holds_at(text: Seq<char>, part: Seq<char>, i: int) -> bool {
    0 <= i && i + part.len() <= text.len() && text.subrange(i, i + part.len()) == part
}

/// See [`ends`].
pub fn ends_with(text: &String, suffix: &str) -> (b: bool)
    ensures
        b == ends(text@, suffix@),
{
    let n: usize = text.as_str().unicode_len();
    let m: usize = suffix.unicode_len();
    if m > n {
        return false;
    }
    let tail: String = String::from_str(text.as_str().substring_char(n - m, n));
    tail == String::from_str(suffix)
}

/// See [`holds`].
pub fn contains(text: &String, part: &str) -> (b: bool)
    ensures
        b == holds(text@, part@),
{
    let n: usize = text.as_str().unicode_len();
    let m: usize = part.unicode_len();
    if m > n {
        return false;
    }
    let wanted: String = String::from_str(part);
    let mut i: usize = 0;
    while i <= n - m
        invariant
            i <= n - m + 1,
            m <= n,
            n == text@.len(),
            m == part@.len(),
            wanted@ == part@,
            forall|j: int| 0 <= j < i ==> !#[trigger] holds_at(text@, part@, j),
        decreases n - m + 1 - i,
    {
        let here: String = String::from_str(text.as_str().substring_char(i, i + m));
        if here == wanted {
            assert(holds_at(text@, part@, i as int));
            return true;
        }
        if i == n - m {
            assert forall|j: int| !#[trigger] holds_at(text@, part@, j) by {
                if j == i {
                    assert(text@.subrange(i as int, i + m) == here@);
                }
            }
            return false;
        }
        i = i + 1;
    }
    false
}

/// What the rewriting rules need to know of a model.
#[derive(Clone, Copy, Debug, PartialEq, Eq, Structural)]
pub struct LoadRules {
    /// Queries and keys are stored in rotate-half order.
    pub permute_qk_neox: bool,
    pub n_head: usize,
    pub n_kv: usize,
    pub qwen4exp: bool,
    pub deepseek2: bool,
    pub bailingmoe3: bool,
    pub deepseek4: bool,
}

/// How many heads' rows are reordered in the named tensor, if any are.
pub open spec fn permuted_heads(rules: LoadRules, name: Seq<char>) -> Option<usize> {
    if !rules.permute_qk_neox {
        None
    } else if ends(name, "attn_q.weight"@) || ends(name, "attn_q.bias"@) {
        Some(rules.n_head)
    } else if ends(name, "attn_k.weight"@) || ends(name, "attn_k.bias"@) {
        Some(rules.n_kv)
    } else {
        None
    }
}

/// See [`permuted_heads`].
pub fn qk_perm_heads(rules: &LoadRules, name: &String) -> (heads: Option<usize>)
    ensures
        heads == permuted_heads(*rules, name@),
{
    if !rules.permute_qk_neox {
        None
    } else if ends_with(name, "attn_q.weight") || ends_with(name, "attn_q.bias") {
        Some(rules.n_head)
    } else if ends_with(name, "attn_k.weight") || ends_with(name, "attn_k.bias") {
        Some(rules.n_kv)
    } else {
        None
    }
}

/// The bytes of one row of the named tensor: a bias holds one single-precision number per row, a
/// weight `weight_row` bytes.
pub fn row_bytes(name: &String, weight_row: usize) -> (bytes: usize)
    ensures
        bytes == (if ends(name@, ".bias"@) {
            4
        } else {
            weight_row
        }),
{
    if ends_with(name, ".bias") {
        4
    } else {
        weight_row
    }
}

/// Where dimension `j` of a head comes from: interleaved pairs come from the two halves of the
/// rotated part, and the rest stays.
pub open spec fn source_dim(j: int, rope_dim: int) -> int {
    if j < rope_dim {
        if j % 2 == 0 {
            j / 2
        } else {
            j / 2 + rope_dim / 2
        }
    } else {
        j
    }
}

/// Where dimension `s` of a head goes.
pub open spec fn target_dim(s: int, rope_dim: int) -> int {
    if s < rope_dim / 2 {
        2 * s
    } else if s < rope_dim {
        2 * (s - rope_dim / 2) + 1
    } else {
        s
    }
}

/// Byte `i` of the reordered rows.
pub open spec fn permuted_byte(
    src: Seq<u8>,
    head_dim: int,
    rope_dim: int,
    row_b: int,
    i: int,
) -> u8 {
    let row = i / row_b;
    let from = row / head_dim * head_dim + source_dim(row % head_dim, rope_dim);
    src[from * row_b + i % row_b]
}

/// The rows of `heads` heads, reordered within each head; what follows them is zero.
pub open spec fn permuted(
    src: Seq<u8>,
    heads: int,
    head_dim: int,
    rope_dim: int,
    row_b: int,
) -> Seq<u8> {
    Seq::new(
        src.len(),
        |i: int|
            if i < heads * head_dim * row_b {
                permuted_byte(src, head_dim, rope_dim, row_b, i)
            } else {
                0u8
            },
    )
}

proof fn lemma_row_in_range(r: int, rows: int, heads: int, head_dim: int, sj: int, row_b: int)
    requires
        0 <= r < rows,
        rows == heads * head_dim,
        head_dim > 0,
        0 <= sj < head_dim,
        row_b >= 0,
    ensures
        0 <= r / head_dim * head_dim + sj < rows,
        (r / head_dim * head_dim + sj) * row_b + row_b <= rows * row_b,
        0 <= (r / head_dim * head_dim + sj) * row_b,
{
    let h = r / head_dim;
    lemma_fundamental_div_mod(r, head_dim);
    lemma_mul_is_commutative(head_dim, h);
    lemma_div_pos_is_pos(r, head_dim);
    assert(h < heads) by (nonlinear_arith)
        requires
            h * head_dim <= r,
            r < heads * head_dim,
            head_dim > 0,
    ;
    assert(h * head_dim + head_dim <= heads * head_dim) by (nonlinear_arith)
        requires
            h < heads,
            head_dim > 0,
    ;
    assert(0 <= h * head_dim) by (nonlinear_arith)
        requires
            h >= 0,
            head_dim > 0,
    ;
    let from = h * head_dim + sj;
    assert(from * row_b + row_b <= rows * row_b) by (nonlinear_arith)
        requires
            from + 1 <= rows,
            row_b >= 0,
    ;
    assert(0 <= from * row_b) by (nonlinear_arith)
        requires
            from >= 0,
            row_b >= 0,
    ;
}

proof fn lemma_byte_of_row(r: int, row_b: int, b: int)
    requires
        0 <= r,
        0 <= b < row_b,
    ensures
        (r * row_b + b) / row_b == r,
        (r * row_b + b) % row_b == b,
{
    lemma_fundamental_div_mod_converse(r * row_b + b, row_b, r, b);
}

fn append_row(out: &mut Vec<u8>, src: &Vec<u8>, from: usize, row_b: usize)
    requires
        from + row_b <= src@.len(),
    ensures
        final(out)@ == old(out)@ + src@.subrange(from as int, from + row_b),
{
    let ghost start = out@;
    let n: usize = src.len();
    let mut b: usize = 0;
    while b < row_b
        invariant
            b <= row_b,
            from + row_b <= n == src@.len(),
            out@ == start + src@.subrange(from as int, from + b),
        decreases row_b - b,
    {
        out.push(src[from + b]);
        b = b + 1;
        assert(out@ =~= start + src@.subrange(from as int, from + b));
    }
}

/// Reorders the rows of each head from rotate-half order to interleaved order.
pub fn permute_rows(
    src: &Vec<u8>,
    heads: usize,
    head_dim: usize,
    rope_dim: usize,
    row_b: usize,
) -> (out: Vec<u8>)
    requires
        heads * head_dim <= usize::MAX,
        heads * head_dim * row_b <= src@.len(),
        forall|j: int|
            0 <= j < head_dim ==> #[trigger] source_dim(j, rope_dim as int) < head_dim,
    ensures
        out@ == permuted(
            src@,
            heads as int,
            head_dim as int,
            rope_dim as int,
            row_b as int,
        ),
{
    let n: usize = src.len();
    let rows: usize = heads * head_dim;
    let ghost whole = permuted(
        src@,
        heads as int,
        head_dim as int,
        rope_dim as int,
        row_b as int,
    );
    let mut out: Vec<u8> = Vec::new();
    let mut r: usize = 0;
    assert(0 * row_b == 0) by (nonlinear_arith);
    while r < rows
        invariant
            r <= rows,
            rows == heads * head_dim,
            rows * row_b <= src@.len(),
            n == src@.len(),
            forall|j: int|
                0 <= j < head_dim ==> #[trigger] source_dim(j, rope_dim as int) < head_dim,
            whole == permuted(
                src@,
                heads as int,
                head_dim as int,
                rope_dim as int,
                row_b as int,
            ),
            out@.len() == r * row_b,
            forall|i: int| 0 <= i < out@.len() ==> #[trigger] out@[i] == whole[i],
        decreases rows - r,
    {
        proof {
            assert(head_dim > 0) by (nonlinear_arith)
                requires
                    0 <= r < heads * head_dim,
                    head_dim >= 0,
            ;
        }
        let h: usize = r / head_dim;
        let j: usize = r % head_dim;
        let sj: usize = if j < rope_dim {
            if j % 2 == 0 {
                j / 2
            } else {
                proof {
                    assert(source_dim(j as int, rope_dim as int) < head_dim);
                }
                j / 2 + rope_dim / 2
            }
        } else {
            j
        };
        proof {
            assert(sj == source_dim(j as int, rope_dim as int));
            lemma_row_in_range(
                r as int,
                rows as int,
                heads as int,
                head_dim as int,
                sj as int,
                row_b as int,
            );
            assert(h * head_dim <= rows);
        }
        let from: usize = (h * head_dim + sj) * row_b;
        let ghost before = out@;
        append_row(&mut out, src, from, row_b);
        proof {
            assert((r + 1) * row_b == r * row_b + row_b) by (nonlinear_arith);
            assert((r + 1) * row_b <= rows * row_b) by (nonlinear_arith)
                requires
                    r + 1 <= rows,
                    row_b >= 0,
            ;
            assert forall|i: int| 0 <= i < out@.len() implies #[trigger] out@[i] == whole[i] by {
                if i < before.len() {
                    assert(out@[i] == before[i]);
                } else {
                    let b = i - before.len();
                    lemma_byte_of_row(r as int, row_b as int, b);
                    assert(out@[i] == src@[from + b]);
                }
            }
        }
        r = r + 1;
    }
    let ghost moved = out@.len();
    while out.len() < n
        invariant
            moved == rows * row_b <= out@.len() <= n,
            n == src@.len(),
            rows == heads * head_dim,
            whole == permuted(
                src@,
                heads as int,
                head_dim as int,
                rope_dim as int,
                row_b as int,
            ),
            forall|i: int| 0 <= i < out@.len() ==> #[trigger] out@[i] == whole[i],
        decreases n - out@.len(),
    {
        out.push(0);
    }
    assert(out@ =~= whole);
    out
}

/// The reordering of a head is a permutation of its dimensions: no row is lost and none is used
/// twice.
pub proof fn law_reordering_is_a_permutation(head_dim: int, rope_dim: int, d: int)
    requires
        0 <= rope_dim <= head_dim,
        rope_dim % 2 == 0,
        0 <= d < head_dim,
    ensures
        0 <= source_dim(d, rope_dim) < head_dim,
        0 <= target_dim(d, rope_dim) < head_dim,
        target_dim(source_dim(d, rope_dim), rope_dim) == d,
        source_dim(target_dim(d, rope_dim), rope_dim) == d,
{
}

/// In interleaved order the two rows of rotation pair `p` stand side by side; in rotate-half order
/// they stand half the rotated part apart.
pub proof fn law_pairs_become_neighbours(rope_dim: int, p: int)
    requires
        0 <= p < rope_dim / 2,
    ensures
        source_dim(2 * p, rope_dim) == p,
        source_dim(2 * p + 1, rope_dim) == p + rope_dim / 2,
{
}

/// A convolution with `taps` taps, `stride` apart, as one with adjacent taps.
pub open spec fn dilated_taps(taps: int, stride: int) -> int {
    (taps - 1) * stride + 1
}

/// Value `i` of the spread taps: every `stride`-th one is a tap, the rest is zero.
pub open spec fn dilated_value(src: Seq<u32>, taps: int, stride: int, i: int) -> u32 {
    let wide = dilated_taps(taps, stride);
    let at = i % wide;
    if at % stride == 0 {
        src[i / wide * taps + at / stride]
    } else {
        0u32
    }
}

/// The values do not make up the channels.
#[derive(Clone, Copy, Debug, PartialEq, Eq, Structural)]
pub struct TapMismatch {
    pub values: usize,
    pub channels: usize,
    pub taps: usize,
}

impl TapMismatch {
    pub open spec fn text(self, name: Seq<char>) -> Seq<char> {
        name + ": "@ + digits(self.values as nat) + " values do not match "@ + digits(
            self.channels as nat,
        ) + " channels x "@ + digits(self.taps as nat) + " taps"@
    }

    /// What to say of it.
    pub fn message(self, name: &String) -> (m: String)
        ensures
            m@ == self.text(name@),
    {
        let mut m: String = String::from_str(name.as_str());
        push_text(&mut m, ": ");
        push_number(&mut m, self.values as u64);
        push_text(&mut m, " values do not match ");
        push_number(&mut m, self.channels as u64);
        push_text(&mut m, " channels x ");
        push_number(&mut m, self.taps as u64);
        push_text(&mut m, " taps");
        m
    }
}

proof fn lemma_wide(taps: int, stride: int)
    requires
        taps >= 1,
        stride >= 1,
    ensures
        dilated_taps(taps, stride) >= taps >= 1,
        dilated_taps(taps, stride) <= taps * stride,
{
    assert((taps - 1) * stride >= taps - 1) by (nonlinear_arith)
        requires
            taps >= 1,
            stride >= 1,
    ;
    assert((taps - 1) * stride == taps * stride - stride) by (nonlinear_arith);
}

proof fn lemma_tap_index(i: int, channels: int, taps: int, stride: int)
    requires
        taps >= 1,
        stride >= 1,
        0 <= i < channels * dilated_taps(taps, stride),
    ensures
        0 <= i / dilated_taps(taps, stride) < channels,
        0 <= i % dilated_taps(taps, stride) / stride < taps,
        0 <= i / dilated_taps(taps, stride) * taps + i % dilated_taps(taps, stride) / stride
            < channels * taps,
        i / dilated_taps(taps, stride) * taps >= 0,
{
    let wide = dilated_taps(taps, stride);
    lemma_wide(taps, stride);
    lemma_fundamental_div_mod(i, wide);
    lemma_mod_bound(i, wide);
    let q = i / wide;
    let at = i % wide;
    lemma_div_pos_is_pos(i, wide);
    assert(q < channels) by (nonlinear_arith)
        requires
            wide * q <= i,
            i < channels * wide,
            wide > 0,
    ;
    lemma_div_pos_is_pos(at, stride);
    lemma_fundamental_div_mod(at, stride);
    lemma_mod_bound(at, stride);
    let t = at / stride;
    assert(t < taps) by (nonlinear_arith)
        requires
            stride * t <= at,
            at <= (taps - 1) * stride,
            stride > 0,
    ;
    assert(q * taps + taps <= channels * taps) by (nonlinear_arith)
        requires
            q + 1 <= channels,
            taps >= 1,
    ;
    assert(q * taps >= 0) by (nonlinear_arith)
        requires
            q >= 0,
            taps >= 1,
    ;
}

/// Spreads the taps of a dilated convolution, given as bit patterns: the same convolution with
/// adjacent taps, zero between the old ones.
pub fn expand_taps(src: &Vec<u32>, channels: usize, taps: usize, stride: usize) -> (out: Result<
    Vec<u32>,
    TapMismatch,
>)
    requires
        taps >= 1,
        stride >= 1,
        channels * taps <= usize::MAX,
        dilated_taps(taps as int, stride as int) <= usize::MAX,
        channels * dilated_taps(taps as int, stride as int) <= usize::MAX,
    ensures
        out matches Err(e) ==> src@.len() != channels * taps && e == (TapMismatch {
            values: src@.len() as usize,
            channels,
            taps,
        }),
        out matches Ok(values) ==> src@.len() == channels * taps && values@ == Seq::new(
            (channels * dilated_taps(taps as int, stride as int)) as nat,
            |i: int| dilated_value(src@, taps as int, stride as int, i),
        ),
{
    let n: usize = src.len();
    if n != channels * taps {
        return Err(TapMismatch { values: n, channels, taps });
    }
    proof {
        lemma_wide(taps as int, stride as int);
        assert((taps - 1) * stride >= 0) by (nonlinear_arith)
            requires
                taps >= 1,
                stride >= 1,
        ;
    }
    let wide: usize = (taps - 1) * stride + 1;
    let total: usize = channels * wide;
    let mut out: Vec<u32> = Vec::new();
    let mut i: usize = 0;
    while i < total
        invariant
            i <= total,
            taps >= 1,
            stride >= 1,
            wide == dilated_taps(taps as int, stride as int),
            wide >= 1,
            total == channels * wide,
            src@.len() == channels * taps,
            src@.len() <= usize::MAX,
            out@.len() == i,
            forall|j: int|
                0 <= j < i ==> #[trigger] out@[j] == dilated_value(
                    src@,
                    taps as int,
                    stride as int,
                    j,
                ),
        decreases total - i,
    {
        let at: usize = i % wide;
        proof {
            lemma_tap_index(i as int, channels as int, taps as int, stride as int);
        }
        if at % stride == 0 {
            let ch: usize = i / wide;
            let tap: usize = at / stride;
            out.push(src[ch * taps + tap]);
        } else {
            out.push(0);
        }
        i = i + 1;
    }
    assert(out@ =~= Seq::new(
        (channels * dilated_taps(taps as int, stride as int)) as nat,
        |i: int| dilated_value(src@, taps as int, stride as int, i),
    ));
    Ok(out)
}

/// Tap `tap` of channel `ch` stands `stride` times as far from the channel's beginning as before.
pub proof fn law_taps_are_spread_in_order(src: Seq<u32>, taps: int, stride: int, ch: int, tap: int)
    requires
        0 <= ch,
        0 <= tap < taps,
        stride >= 1,
    ensures
        dilated_value(src, taps, stride, ch * dilated_taps(taps, stride) + tap * stride) == src[ch
            * taps + tap],
{
    let wide = dilated_taps(taps, stride);
    lemma_wide(taps, stride);
    let at = tap * stride;
    assert(0 <= at < wide) by (nonlinear_arith)
        requires
            0 <= tap <= taps - 1,
            stride >= 1,
            at == tap * stride,
            wide == (taps - 1) * stride + 1,
    ;
    lemma_fundamental_div_mod_converse(ch * wide + at, wide, ch, at);
    lemma_fundamental_div_mod_converse(at, stride, tap, 0);
}

/// How the bytes of an upload are made.
#[derive(Clone, Copy, Debug, PartialEq, Eq, Structural)]
pub enum LoadForm {
    /// Converted to half precision, rows reordered where a part says so, and joined.
    HalfPrecision,
    /// Converted to single precision.
    SinglePrecision,
    /// Converted to single precision, and its taps spread.
    DilatedTaps,
    /// The file's bytes as they are mapped.
    Mapped,
    /// The file's bytes of several tensors, as views.
    Views,
    /// Copied, rows reordered where a part says so, and joined.
    Rewritten,
}

/// One tensor of an upload.
#[derive(Clone, Copy, Debug, PartialEq, Eq, Structural)]
pub struct LoadPart {
    /// Its number in the file.
    pub tensor: usize,
    /// How many heads' rows are reordered, if any are.
    pub heads: Option<usize>,
}

/// How one weight is uploaded.
pub struct LoadPlan {
    pub form: LoadForm,
    pub parts: Vec<LoadPart>,
    /// The type of the uploaded bytes.
    pub dtype: DType,
    /// How many elements the file holds of it.
    pub numel: usize,
}

/// Why a weight cannot be uploaded.
#[derive(Clone, Copy, Debug, PartialEq, Eq, Structural)]
pub enum LoadFault {
    /// The tensor with this number in the list of names is not in the file.
    NotFound { index: usize },
    /// The tensors to be joined have different types.
    DtypeMismatch,
}

/// The texts of a list of names.
pub open spec fn name_list(names: Seq<String>) -> Seq<Seq<char>> {
    names.map_values(|s: String| s@)
}

pub open spec fn quoted(names: Seq<Seq<char>>, n: nat) -> Seq<char>
    decreases n,
{
    if n == 0 {
        Seq::empty()
    } else if n == 1 {
        "\""@ + names[0] + "\""@
    } else {
        quoted(names, (n - 1) as nat) + ", \""@ + names[n - 1] + "\""@
    }
}

impl LoadFault {
    pub open spec fn text(self, names: Seq<Seq<char>>) -> Seq<char> {
        match self {
            LoadFault::NotFound { index } => "tensor not found: "@ + names[index as int],
            LoadFault::DtypeMismatch => "wload concat dtype mismatch: ["@ + quoted(
                names,
                names.len(),
            ) + "]"@,
        }
    }

    /// What to say of it.
    pub fn message(self, names: &Vec<String>) -> (m: String)
        requires
            self matches LoadFault::NotFound { index } ==> index < names@.len(),
        ensures
            m@ == self.text(name_list(names@)),
    {
        match self {
            LoadFault::NotFound { index } => {
                let mut m: String = String::from_str("tensor not found: ");
                push_text(&mut m, names[index].as_str());
                m
            },
            LoadFault::DtypeMismatch => {
                let mut m: String = String::from_str("wload concat dtype mismatch: [");
                let ghost start = m@;
                assert(start =~= start + quoted(name_list(names@), 0));
                let mut i: usize = 0;
                while i < names.len()
                    invariant
                        i <= names@.len(),
                        m@ == start + quoted(name_list(names@), i as nat),
                    decreases names@.len() - i,
                {
                    let ghost before = m@;
                    if i == 0 {
                        push_text(&mut m, "\"");
                    } else {
                        push_text(&mut m, ", \"");
                    }
                    push_text(&mut m, names[i].as_str());
                    push_text(&mut m, "\"");
                    i = i + 1;
                    assert(m@ =~= start + quoted(name_list(names@), i as nat));
                }
                push_text(&mut m, "]");
                assert(m@ =~= self.text(name_list(names@)));
                m
            },
        }
    }
}

/// The tensor that a name finds.
pub open spec fn named(tensors: Seq<TensorInfo>, name: Seq<char>) -> TensorInfo {
    tensors[find_from(tensors, name, 0)->Some_0]
}

/// What is wrong with the first `n` names, if anything is: the first that is not there, or whose
/// type is not the first one's.
pub open spec fn load_fault(tensors: Seq<TensorInfo>, names: Seq<Seq<char>>, n: nat) -> Option<
    LoadFault,
>
    decreases n,
{
    if n == 0 {
        None
    } else if let Some(e) = load_fault(tensors, names, (n - 1) as nat) {
        Some(e)
    } else if !present(tensors, names[n - 1]) {
        Some(LoadFault::NotFound { index: (n - 1) as usize })
    } else if named(tensors, names[n - 1]).dtype != named(tensors, names[0]).dtype {
        Some(LoadFault::DtypeMismatch)
    } else {
        None
    }
}

/// The elements of the first `n` named tensors.
pub open spec fn numel_below(tensors: Seq<TensorInfo>, names: Seq<Seq<char>>, n: nat) -> int
    decreases n,
{
    if n == 0 {
        0
    } else {
        numel_below(tensors, names, (n - 1) as nat) + named(tensors, names[n - 1]).numel
    }
}

/// The model needs the tensor in single precision: its kernels read no other type.
pub open spec fn needs_single(rules: LoadRules, name: Seq<char>) -> bool {
    ||| (rules.deepseek2 || rules.bailingmoe3) && (ends(name, "attn_k_b.weight"@) || ends(
        name,
        "attn_v_b.weight"@,
    ))
    ||| rules.deepseek4 && (holds(name, "_compressor_ape.weight"@) || holds(
        name,
        "_compressor_norm.weight"@,
    ))
}

/// Some of the named tensors has rows to reorder.
pub open spec fn any_permuted(rules: LoadRules, names: Seq<Seq<char>>) -> bool {
    exists|i: int|
        0 <= i < names.len() && permuted_heads(rules, #[trigger] names[i]) is Some
}

/// How the named tensors are uploaded.
pub open spec fn load_form(
    tensors: Seq<TensorInfo>,
    rules: LoadRules,
    names: Seq<Seq<char>>,
) -> LoadForm {
    if named(tensors, names[0]).dtype == DType::I2S {
        LoadForm::HalfPrecision
    } else if names.len() == 1 && rules.qwen4exp && ends(names[0], "ple_conv1d.weight"@) {
        LoadForm::DilatedTaps
    } else if names.len() == 1 && needs_single(rules, names[0]) {
        LoadForm::SinglePrecision
    } else if any_permuted(rules, names) {
        LoadForm::Rewritten
    } else if names.len() == 1 {
        LoadForm::Mapped
    } else {
        LoadForm::Views
    }
}

/// The type of the bytes that a form makes of `dtype`.
pub open spec fn form_dtype(form: LoadForm, dtype: DType) -> DType {
    match form {
        LoadForm::HalfPrecision => DType::F16,
        LoadForm::SinglePrecision | LoadForm::DilatedTaps => DType::F32,
        _ => dtype,
    }
}

pub open spec fn part_of(tensors: Seq<TensorInfo>, rules: LoadRules, name: Seq<char>) -> LoadPart {
    LoadPart {
        tensor: find_from(tensors, name, 0)->Some_0 as usize,
        heads: permuted_heads(rules, name),
    }
}

fn choose_form(first: DType, rules: &LoadRules, names: &Vec<String>, any: bool, Ghost(tensors): Ghost<
    Seq<TensorInfo>,
>) -> (form: LoadForm)
    requires
        names@.len() >= 1,
        first == named(tensors, names@[0]@).dtype,
        any == any_permuted(*rules, name_list(names@)),
    ensures
        form == load_form(tensors, *rules, name_list(names@)),
{
    let name: &String = &names[0];
    let alone: bool = names.len() == 1;
    assert(name_list(names@)[0] == names@[0]@);
    if first == DType::I2S {
        LoadForm::HalfPrecision
    } else if alone && rules.qwen4exp && ends_with(name, "ple_conv1d.weight") {
        LoadForm::DilatedTaps
    } else if alone && (((rules.deepseek2 || rules.bailingmoe3) && (ends_with(
        name,
        "attn_k_b.weight",
    ) || ends_with(name, "attn_v_b.weight"))) || (rules.deepseek4 && (contains(
        name,
        "_compressor_ape.weight",
    ) || contains(name, "_compressor_norm.weight")))) {
        LoadForm::SinglePrecision
    } else if any {
        LoadForm::Rewritten
    } else if alone {
        LoadForm::Mapped
    } else {
        LoadForm::Views
    }
}

/// Decides how one weight, made of the named tensors, is uploaded.
pub fn load_plan(tensors: &Vec<TensorInfo>, rules: &LoadRules, names: &Vec<String>) -> (plan: Result<
    LoadPlan,
    LoadFault,
>)
    requires
        names@.len() >= 1,
        load_fault(tensors@, name_list(names@), names@.len()) is None ==> forall|n: nat|
            n <= names@.len() ==> #[trigger] numel_below(tensors@, name_list(names@), n)
                <= usize::MAX,
    ensures
        plan matches Err(e) ==> load_fault(tensors@, name_list(names@), names@.len()) == Some(e),
        plan matches Ok(p) ==> {
            let texts = name_list(names@);
            let form = load_form(tensors@, *rules, texts);
            &&& load_fault(tensors@, texts, names@.len()) is None
            &&& p.form == form
            &&& p.dtype == form_dtype(form, named(tensors@, texts[0]).dtype)
            &&& p.numel == numel_below(tensors@, texts, names@.len())
            &&& p.parts@ == Seq::new(
                names@.len(),
                |i: int| part_of(tensors@, *rules, texts[i]),
            )
        },
{
    let ghost texts = name_list(names@);
    let n: usize = names.len();
    let mut parts: Vec<LoadPart> = Vec::new();
    let mut any: bool = false;
    let mut first: DType = DType::F32;
    let mut i: usize = 0;
    while i < n
        invariant
            i <= n == names@.len(),
            texts == name_list(names@),
            load_fault(tensors@, texts, i as nat) is None,
            parts@.len() == i,
            forall|j: int|
                0 <= j < i ==> #[trigger] parts@[j] == part_of(tensors@, *rules, texts[j])
                    && parts@[j].tensor < tensors@.len() && find_from(tensors@, texts[j], 0)
                    == Some(parts@[j].tensor as int),
            any == (exists|j: int|
                0 <= j < i && permuted_heads(*rules, #[trigger] texts[j]) is Some),
            i > 0 ==> first == named(tensors@, texts[0]).dtype,
        decreases n - i,
    {
        assert(texts[i as int] == names@[i as int]@);
        match find_tensor(tensors, &names[i]) {
            None => {
                proof {
                    lemma_load_fault_stays(tensors@, texts, (i + 1) as nat, n as nat);
                }
                return Err(LoadFault::NotFound { index: i });
            },
            Some(t) => {
                let dtype: DType = tensors[t].dtype;
                if i == 0 {
                    first = dtype;
                }
                if dtype != first {
                    proof {
                        lemma_load_fault_stays(tensors@, texts, (i + 1) as nat, n as nat);
                    }
                    return Err(LoadFault::DtypeMismatch);
                }
                let heads: Option<usize> = qk_perm_heads(rules, &names[i]);
                if heads.is_some() {
                    any = true;
                }
                parts.push(LoadPart { tensor: t, heads });
            },
        }
        i = i + 1;
    }
    let mut numel: usize = 0;
    let mut k: usize = 0;
    while k < n
        invariant
            k <= n == names@.len(),
            n == parts@.len(),
            texts == name_list(names@),
            forall|m: nat|
                m <= names@.len() ==> #[trigger] numel_below(tensors@, texts, m) <= usize::MAX,
            forall|j: int|
                0 <= j < n ==> #[trigger] parts@[j] == part_of(tensors@, *rules, texts[j])
                    && parts@[j].tensor < tensors@.len() && find_from(tensors@, texts[j], 0)
                    == Some(parts@[j].tensor as int),
            numel == numel_below(tensors@, texts, k as nat),
        decreases n - k,
    {
        let part: LoadPart = parts[k];
        assert(parts@[k as int].tensor < tensors@.len());
        assert(numel_below(tensors@, texts, (k + 1) as nat) <= usize::MAX);
        numel = numel + tensors[part.tensor].numel;
        k = k + 1;
    }
    let form: LoadForm = choose_form(first, rules, names, any, Ghost(tensors@));
    let dtype: DType = match form {
        LoadForm::HalfPrecision => DType::F16,
        LoadForm::SinglePrecision => DType::F32,
        LoadForm::DilatedTaps => DType::F32,
        _ => first,
    };
    assert(parts@ =~= Seq::new(n as nat, |i: int| part_of(tensors@, *rules, texts[i])));
    Ok(LoadPlan { form, parts, dtype, numel })
}

proof fn lemma_load_fault_stays(
    tensors: Seq<TensorInfo>,
    names: Seq<Seq<char>>,
    n: nat,
    m: nat,
)
    requires
        n <= m,
        load_fault(tensors, names, n) is Some,
    ensures
        load_fault(tensors, names, m) == load_fault(tensors, names, n),
    decreases m,
{
    if n < m {
        lemma_load_fault_stays(tensors, names, n, (m - 1) as nat);
    }
}

} // verus!
