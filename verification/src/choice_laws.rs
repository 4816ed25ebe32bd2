//! What decides how a session keeps, chooses and loads things: nothing is done on the device, fused
//! or reordered without every condition for it, and where all hold it is done.

use crate::checkpoint::{
    checkpoint_requests, recurrent_below, recurrent_layers, state_requests,
};
use crate::config::{Config, DType};
use crate::device::AllocRequest;
use crate::gates::{BackendKind, KvFormats, KvRequest, ReplayRequest, SamplePath, SampleRequest};
use crate::room_laws::size_of;
use crate::tensor_scan::{find_from, gate_up_agree, layer_tensor, TensorInfo};
use crate::weight_load::{
    ends, form_dtype, load_form, named, needs_single, permuted, permuted_heads, LoadForm,
    LoadRules,
};
use vstd::arithmetic::div_mod::lemma_fundamental_div_mod_converse;
use vstd::prelude::*;

verus! {

/// A step is replayed exactly where the backend replays, nothing that a recording would bake in
/// moves, the model's graph can be recorded, and its caches and heads have recorded kernels.
pub proof fn law_a_step_is_replayed_where_nothing_moves(r: ReplayRequest)
    ensures
        r.spec_replays() <==> {
            &&& r.backend_replays && !r.replay_disabled
            &&& !(r.experts_paged || r.layers_streamed || r.segmented || r.h_tap)
            &&& !(r.diffusion_gemma || r.deepseek2 || r.bailingmoe3 || r.deepseek4 || r.qwen4exp)
            &&& r.rope_freqs ==> r.qk_norm
            &&& r.k_static || r.v_static ==> r.formats == KvFormats {
                k: DType::Q8_0,
                v: DType::Q8_0,
            }
            &&& forall|l: int|
                0 <= l < r.head_dims@.len() ==> (#[trigger] r.head_dims@[l]) % 4 == 0
                    && r.head_dims@[l] <= 512
        },
{
}

/// The device takes the largest logit only of a request that asks for it, and draws only among as
/// many candidates as it can; whatever it does not choose the host chooses, and what the host must
/// see the device never chooses.
pub proof fn law_the_device_chooses_what_it_can(r: SampleRequest)
    ensures
        ({
            let greedy = !r.warm || r.top_k == 1;
            let seen = r.constrained || r.penalized;
            &&& r.spec_path() == SamplePath::DeviceArgmax <==> greedy && !seen && r.argmax_option
            &&& r.spec_path() == SamplePath::DeviceDraw <==> !greedy && !seen && r.top_k >= 2
                && r.top_k <= r.max_candidates && r.device_draws && r.draw_option
        }),
{
}

/// A cache is kept in the format that is asked for where the backend is known and the model's rows
/// fit its blocks; half precision is always kept as asked.
pub proof fn law_a_cache_is_kept_as_asked(r: KvRequest, d: DType)
    requires
        r.backend != BackendKind::Other,
    ensures
        r.format(Some(DType::F16)) == DType::F16,
        d == DType::F32 || d == DType::Bf16 ==> r.format(Some(d)) == d,
        r.rows_aligned && (d == DType::Q8_0 || d == DType::Q4_0 || d == DType::Q4_1 || d == DType::Q5_0
            || d == DType::Q5_1 || d == DType::Iq4Nl) ==> r.format(Some(d)) == d,
        (forall|l: int| 0 <= l < r.head_dims@.len() ==> (#[trigger] r.head_dims@[l]) % 128 == 0) && (d
            == DType::Turbo2 || d == DType::Turbo3 || d == DType::Turbo4) ==> r.format(Some(d)) == d,
        r.format(None) == DType::Q8_0 <==> r.rows_aligned && (r.force_q8 || (r.auto_q8 && r.backend
            == BackendKind::Vulkan)),
        r.format(None) == DType::Q8_0 || r.format(None) == DType::F16,
        r.backend != BackendKind::Metal ==> r.formats() == (KvFormats {
            k: r.format(r.type_k),
            v: r.format(r.type_v),
        }),
{
}

/// What is found under a name is the first tensor of that name, and it is found where there is one.
pub proof fn law_the_first_tensor_of_a_name_is_found(
    tensors: Seq<TensorInfo>,
    name: Seq<char>,
    from: nat,
)
    ensures
        match find_from(tensors, name, from) {
            Some(i) => from <= i < tensors.len() && tensors[i].name@ == name && forall|j: int|
                from <= j < i ==> (#[trigger] tensors[j]).name@ != name,
            None => forall|j: int| from <= j < tensors.len() ==> (#[trigger] tensors[j]).name@ != name,
        },
    decreases tensors.len() - from,
{
    if from < tensors.len() && tensors[from as int].name@ != name {
        law_the_first_tensor_of_a_name_is_found(tensors, name, from + 1);
    }
}

/// The two halves of a feed-forward block are joined only where the file holds both, and in one
/// type.
pub proof fn law_only_halves_of_one_type_are_joined(tensors: Seq<TensorInfo>, l: nat)
    requires
        gate_up_agree(tensors, l),
    ensures
        exists|i: int, j: int|
            0 <= i < tensors.len() && 0 <= j < tensors.len() && (#[trigger] tensors[i]).name@
                == layer_tensor(l, "ffn_gate.weight"@) && (#[trigger] tensors[j]).name@
                == layer_tensor(l, "ffn_up.weight"@) && tensors[i].dtype == tensors[j].dtype,
{
    let a = layer_tensor(l, "ffn_gate.weight"@);
    let b = layer_tensor(l, "ffn_up.weight"@);
    law_the_first_tensor_of_a_name_is_found(tensors, a, 0);
    law_the_first_tensor_of_a_name_is_found(tensors, b, 0);
    let i = find_from(tensors, a, 0)->Some_0;
    let j = find_from(tensors, b, 0)->Some_0;
    assert(tensors[i].name@ == a && tensors[j].name@ == b);
}

/// Where a file stores heads by halves, the rows of its queries and of its keys are reordered, head
/// by head, and those of its values are not.
pub proof fn law_queries_and_keys_are_reordered(rules: LoadRules, prefix: Seq<char>)
    ensures
        rules.permute_qk_neox ==> {
            &&& permuted_heads(rules, prefix + "attn_q.weight"@) == Some(rules.n_head)
            &&& permuted_heads(rules, prefix + "attn_q.bias"@) == Some(rules.n_head)
            &&& permuted_heads(rules, prefix + "attn_k.weight"@) == Some(rules.n_kv)
            &&& permuted_heads(rules, prefix + "attn_k.bias"@) == Some(rules.n_kv)
        },
        permuted_heads(rules, prefix + "attn_v.weight"@) is None,
        permuted_heads(rules, prefix + "attn_output.weight"@) is None,
        !rules.permute_qk_neox ==> forall|name: Seq<char>| permuted_heads(rules, name) is None,
{
    reveal_strlit("attn_q.weight");
    reveal_strlit("attn_q.bias");
    reveal_strlit("attn_k.weight");
    reveal_strlit("attn_k.bias");
    reveal_strlit("attn_v.weight");
    reveal_strlit("attn_output.weight");
    lemma_ends(prefix, "attn_q.weight"@);
    lemma_ends(prefix, "attn_q.bias"@);
    lemma_ends(prefix, "attn_k.weight"@);
    lemma_ends(prefix, "attn_k.bias"@);
    lemma_other_end(prefix + "attn_k.weight"@, "attn_q.weight"@, 5, 'k');
    lemma_other_end(prefix + "attn_k.weight"@, "attn_q.bias"@, 10, 't');
    if prefix.len() >= 2 {
        lemma_other_end(prefix + "attn_k.bias"@, "attn_q.weight"@, 12, 's');
    }
    lemma_other_end(prefix + "attn_k.bias"@, "attn_q.bias"@, 5, 'k');
    let v = prefix + "attn_v.weight"@;
    lemma_other_end(v, "attn_q.weight"@, 5, 'v');
    lemma_other_end(v, "attn_k.weight"@, 5, 'v');
    lemma_other_end(v, "attn_q.bias"@, 10, 't');
    lemma_other_end(v, "attn_k.bias"@, 10, 't');
    let o = prefix + "attn_output.weight"@;
    lemma_other_end(o, "attn_q.weight"@, 5, 't');
    lemma_other_end(o, "attn_k.weight"@, 5, 't');
    lemma_other_end(o, "attn_q.bias"@, 10, 't');
    lemma_other_end(o, "attn_k.bias"@, 10, 't');
}

proof fn lemma_ends(prefix: Seq<char>, suffix: Seq<char>)
    ensures
        ends(prefix + suffix, suffix),
{
    let text = prefix + suffix;
    assert(text.subrange(text.len() - suffix.len(), text.len() as int) =~= suffix);
}

/// A text does not end with a suffix that differs from its end in one place.
proof fn lemma_other_end(text: Seq<char>, suffix: Seq<char>, at: int, there: char)
    requires
        0 <= at < suffix.len() <= text.len(),
        text[text.len() - suffix.len() + at] == there,
        suffix[at] != there,
    ensures
        !ends(text, suffix),
{
    let end = text.subrange(text.len() - suffix.len(), text.len() as int);
    assert(end[at] == there);
}

/// The rows of each head are reordered within the head: of each rotation pair, the two rows that
/// stood half the rotated part apart come to stand side by side, and the rows that are not rotated
/// stay.
pub proof fn law_rotated_rows_come_to_stand_in_pairs(
    src: Seq<u8>,
    heads: int,
    head_dim: int,
    rope_dim: int,
    row_b: int,
    h: int,
    d: int,
    b: int,
)
    requires
        0 <= h < heads,
        0 < rope_dim <= head_dim,
        rope_dim % 2 == 0,
        0 <= d < head_dim,
        0 <= b < row_b,
        src.len() == heads * head_dim * row_b,
    ensures
        ({
            let out = permuted(src, heads, head_dim, rope_dim, row_b);
            let at = |row: int| (h * head_dim + row) * row_b + b;
            &&& out.len() == src.len()
            &&& 2 * d + 1 < rope_dim ==> out[at(2 * d)] == src[at(d)]
            &&& 2 * d + 1 < rope_dim ==> out[at(2 * d + 1)] == src[at(d + rope_dim / 2)]
            &&& d >= rope_dim ==> out[at(d)] == src[at(d)]
        }),
{
    if 2 * d + 1 < rope_dim {
        lemma_row(src, heads, head_dim, rope_dim, row_b, h, 2 * d, b);
        lemma_row(src, heads, head_dim, rope_dim, row_b, h, 2 * d + 1, b);
    }
    if d >= rope_dim {
        lemma_row(src, heads, head_dim, rope_dim, row_b, h, d, b);
    }
}

proof fn lemma_row(
    src: Seq<u8>,
    heads: int,
    head_dim: int,
    rope_dim: int,
    row_b: int,
    h: int,
    j: int,
    b: int,
)
    requires
        0 <= h < heads,
        0 < rope_dim <= head_dim,
        0 <= j < head_dim,
        0 <= b < row_b,
        src.len() == heads * head_dim * row_b,
    ensures
        permuted(src, heads, head_dim, rope_dim, row_b)[(h * head_dim + j) * row_b + b] == src[(h
            * head_dim + crate::weight_load::source_dim(j, rope_dim)) * row_b + b],
{
    let row = h * head_dim + j;
    let i = row * row_b + b;
    assert(0 <= row < heads * head_dim) by (nonlinear_arith)
        requires
            row == h * head_dim + j,
            0 <= h < heads,
            0 <= j < head_dim,
    ;
    assert(0 <= i < heads * head_dim * row_b) by (nonlinear_arith)
        requires
            i == row * row_b + b,
            0 <= row < heads * head_dim,
            0 <= b < row_b,
    ;
    lemma_fundamental_div_mod_converse(i, row_b, row, b);
    lemma_fundamental_div_mod_converse(row, head_dim, h, j);
}

/// The file's own bytes are uploaded only where nothing is to be converted or reordered, and then
/// in the file's own type.
pub proof fn law_own_bytes_are_uploaded_unchanged(
    tensors: Seq<TensorInfo>,
    rules: LoadRules,
    names: Seq<Seq<char>>,
)
    requires
        names.len() > 0,
    ensures
        ({
            let form = load_form(tensors, rules, names);
            let dtype = named(tensors, names[0]).dtype;
            &&& form == LoadForm::Mapped || form == LoadForm::Views ==> {
                &&& forall|i: int|
                    0 <= i < names.len() ==> permuted_heads(rules, #[trigger] names[i]) is None
                &&& dtype != DType::I2S
                &&& names.len() == 1 ==> !needs_single(rules, names[0])
                &&& form_dtype(form, dtype) == dtype
            }
            &&& form == LoadForm::Mapped ==> names.len() == 1
            &&& form == LoadForm::Views ==> names.len() > 1
            &&& form == LoadForm::Rewritten ==> form_dtype(form, dtype) == dtype && exists|i: int|
                0 <= i < names.len() && permuted_heads(rules, #[trigger] names[i]) is Some
            &&& dtype == DType::I2S ==> form_dtype(form, dtype) == DType::F16
            &&& form == LoadForm::SinglePrecision ==> form_dtype(form, dtype) == DType::F32 && names.len()
                == 1 && needs_single(rules, names[0])
            &&& form == LoadForm::DilatedTaps ==> form_dtype(form, dtype) == DType::F32 && names.len()
                == 1 && rules.qwen4exp && ends(names[0], "ple_conv1d.weight"@)
        }),
{
}

/// A checkpoint asks for room for the state of every recurrent layer, in the order of the layers,
/// and for that of the n-gram rows behind them.
pub proof fn law_a_checkpoint_has_room_for_every_state(
    cfg: Config,
    k_len: Seq<Option<usize>>,
    v_len: Seq<Option<usize>>,
    ple_len: Option<usize>,
    i: int,
)
    requires
        cfg.layers@.len() <= usize::MAX,
        0 <= i < recurrent_layers(cfg).len(),
    ensures
        ({
            let list = checkpoint_requests(cfg, k_len, v_len, ple_len);
            let l = recurrent_layers(cfg)[i] as int;
            &&& list.len() == 2 * recurrent_layers(cfg).len() + (if ple_len is Some {
                1int
            } else {
                0
            })
            &&& roomy(list[2 * i], k_len[l])
            &&& roomy(list[2 * i + 1], v_len[l])
            &&& ple_len is Some ==> roomy(list.last(), ple_len)
            &&& cfg.layers@[l].recurrent
        }),
{
    lemma_state_requests(cfg, k_len, v_len, cfg.layers@.len(), i);
}

/// What is asked for is as large as the state, and never empty.
pub open spec fn roomy(r: AllocRequest, len: Option<usize>) -> bool {
    len matches Some(n) ==> size_of(r) == n || (n == 0 && size_of(r) == 1)
}

proof fn lemma_state_requests(
    cfg: Config,
    k_len: Seq<Option<usize>>,
    v_len: Seq<Option<usize>>,
    n: nat,
    i: int,
)
    requires
        n <= cfg.layers@.len() <= usize::MAX,
        0 <= i < recurrent_below(cfg, n).len(),
    ensures
        ({
            let list = state_requests(cfg, k_len, v_len, n);
            let l = recurrent_below(cfg, n)[i] as int;
            &&& list.len() == 2 * recurrent_below(cfg, n).len()
            &&& roomy(list[2 * i], k_len[l])
            &&& roomy(list[2 * i + 1], v_len[l])
            &&& 0 <= l < n && cfg.layers@[l].recurrent
        }),
    decreases n,
{
    let m = (n - 1) as nat;
    let rest = recurrent_below(cfg, m);
    if rest.len() > 0 {
        lemma_state_requests(
            cfg,
            k_len,
            v_len,
            m,
            if i < rest.len() {
                i
            } else {
                0
            },
        );
    } else {
        lemma_no_requests(cfg, k_len, v_len, m);
    }
}

proof fn lemma_no_requests(
    cfg: Config,
    k_len: Seq<Option<usize>>,
    v_len: Seq<Option<usize>>,
    n: nat,
)
    requires
        recurrent_below(cfg, n).len() == 0,
    ensures
        state_requests(cfg, k_len, v_len, n).len() == 0,
    decreases n,
{
    if n > 0 {
        lemma_no_requests(cfg, k_len, v_len, (n - 1) as nat);
    }
}

} // verus!
