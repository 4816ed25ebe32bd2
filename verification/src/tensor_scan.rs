//! What a model file holds, and what follows from it for every request of a session.

use crate::config::DType;
use crate::text::{digits, push_number, push_text};
use vstd::prelude::*;

verus! {

/// A tensor of the model file.
pub struct TensorInfo {
    pub name: String,
    pub dtype: DType,
    /// The product of its dimensions.
    pub numel: usize,
}

/// The name of a tensor of layer `l`.
pub open spec fn layer_tensor(l: nat, suffix: Seq<char>) -> Seq<char> {
    "blk."@ + digits(l) + "."@ + suffix
}

/// See [`layer_tensor`].
pub fn layer_tensor_name(l: usize, suffix: &str) -> (name: String)
    ensures
        name@ == layer_tensor(l as nat, suffix@),
{
    let mut name: String = String::from_str("blk.");
    push_number(&mut name, l as u64);
    push_text(&mut name, ".");
    push_text(&mut name, suffix);
    name
}

/// The number of the first tensor with the name, among those from number `from` on.
pub open spec fn find_from(tensors: Seq<TensorInfo>, name: Seq<char>, from: nat) -> Option<int>
    decreases tensors.len() - from,
{
    if from >= tensors.len() {
        None
    } else if tensors[from as int].name@ == name {
        Some(from as int)
    } else {
        find_from(tensors, name, from + 1)
    }
}

/// The type of the first tensor with the name.
pub open spec fn dtype_of(tensors: Seq<TensorInfo>, name: Seq<char>) -> Option<DType> {
    match find_from(tensors, name, 0) {
        Some(i) => Some(tensors[i].dtype),
        None => None,
    }
}

/// A tensor with the name is there.
pub open spec fn present(tensors: Seq<TensorInfo>, name: Seq<char>) -> bool {
    find_from(tensors, name, 0) is Some
}

/// The number of the first tensor with the name.
pub fn find_tensor(tensors: &Vec<TensorInfo>, name: &String) -> (found: Option<usize>)
    ensures
        found is Some == present(tensors@, name@),
        found matches Some(i) ==> i < tensors@.len() && tensors@[i as int].name@ == name@
            && find_from(tensors@, name@, 0) == Some(i as int),
{
    let mut i: usize = 0;
    while i < tensors.len()
        invariant
            i <= tensors@.len(),
            find_from(tensors@, name@, 0) == find_from(tensors@, name@, i as nat),
        decreases tensors@.len() - i,
    {
        if tensors[i].name == *name {
            return Some(i);
        }
        i = i + 1;
    }
    None
}

/// See [`dtype_of`].
pub fn find_dtype(tensors: &Vec<TensorInfo>, name: &String) -> (dtype: Option<DType>)
    ensures
        dtype == dtype_of(tensors@, name@),
{
    match find_tensor(tensors, name) {
        Some(i) => Some(tensors[i].dtype),
        None => None,
    }
}

fn layer_dtype(tensors: &Vec<TensorInfo>, l: usize, suffix: &str) -> (dtype: Option<DType>)
    ensures
        dtype == dtype_of(tensors@, layer_tensor(l as nat, suffix@)),
{
    let name: String = layer_tensor_name(l, suffix);
    find_dtype(tensors, &name)
}

/// The type is one of those listed.
pub open spec fn listed(types: Seq<DType>, dtype: Option<DType>) -> bool {
    dtype matches Some(d) && types.contains(d)
}

fn is_listed(types: &Vec<DType>, dtype: Option<DType>) -> (b: bool)
    ensures
        b == listed(types@, dtype),
{
    match dtype {
        Some(d) => {
            let mut i: usize = 0;
            while i < types.len()
                invariant
                    i <= types@.len(),
                    dtype == Some(d),
                    forall|j: int| 0 <= j < i ==> types@[j] != d,
                decreases types@.len() - i,
            {
                if types[i] == d {
                    return true;
                }
                i = i + 1;
            }
            false
        },
        None => false,
    }
}

/// Both projections into layer `l`'s feed-forward block can be joined: they are there, in one type.
pub open spec fn gate_up_agree(tensors: Seq<TensorInfo>, l: nat) -> bool {
    let gate = dtype_of(tensors, layer_tensor(l, "ffn_gate.weight"@));
    gate is Some && gate == dtype_of(tensors, layer_tensor(l, "ffn_up.weight"@))
}

/// Whether both projections into a feed-forward block are uploaded as one tensor: the backend asks
/// for it, and they agree on every layer.
pub fn fuse_gu_decision(combined_gu: bool, tensors: &Vec<TensorInfo>, n_layer: usize) -> (fuse: bool)
    ensures
        fuse == (combined_gu && forall|l: nat|
            l < n_layer ==> #[trigger] gate_up_agree(tensors@, l)),
{
    if !combined_gu {
        return false;
    }
    let mut l: usize = 0;
    while l < n_layer
        invariant
            l <= n_layer,
            forall|k: nat| k < l ==> #[trigger] gate_up_agree(tensors@, k),
        decreases n_layer - l,
    {
        let gate: Option<DType> = layer_dtype(tensors, l, "ffn_gate.weight");
        let up: Option<DType> = layer_dtype(tensors, l, "ffn_up.weight");
        let agree: bool = match (gate, up) {
            (Some(a), Some(b)) => a == b,
            _ => false,
        };
        assert(agree == gate_up_agree(tensors@, l as nat));
        if !agree {
            return false;
        }
        l = l + 1;
    }
    true
}

/// What the scans need to know of a layer.
#[derive(Clone, Copy, Debug, PartialEq, Eq, Structural)]
pub struct LayerDims {
    pub head_dim: usize,
    pub n_kv: usize,
    /// The layer writes its own cache.
    pub own_kv: bool,
    /// The layer holds an expert bank.
    pub moe: bool,
    /// The layer selects experts by token id.
    pub hash_moe: bool,
}

/// What the scans need to know of a model.
pub struct ScanConfig {
    pub layers: Vec<LayerDims>,
    pub head_dim: usize,
    pub n_kv: usize,
    pub n_embd: usize,
    pub n_embd_per_layer: usize,
    pub moe: bool,
    pub dual_moe: bool,
    pub gemma4: bool,
    pub diffusion_gemma: bool,
    pub deepseek4: bool,
    pub rope_scaling_yarn: bool,
    pub rope_dim: usize,
    pub qk_rope_dim: usize,
}

/// What the backend and the engine's options allow.
pub struct ScanSupport {
    pub combined_gu: bool,
    pub qkv_fuse: bool,
    pub embed_gather: bool,
    pub gpu_embed: bool,
    /// Types that the backend multiplies without conversion.
    pub native_dense: Vec<DType>,
    /// Types of expert banks that the backend multiplies in batches.
    pub moe_mmq: Vec<DType>,
    /// Types of tables that the backend gathers rows from.
    pub gathers: Vec<DType>,
}

/// The three projections of layer `l` can be joined: all are there, in one type that the backend
/// multiplies without conversion and that is not half precision, and the layer has the model's
/// dimensions and a cache of its own.
pub open spec fn qkv_agree(
    tensors: Seq<TensorInfo>,
    c: ScanConfig,
    native_dense: Seq<DType>,
    l: nat,
) -> bool {
    let q = dtype_of(tensors, layer_tensor(l, "attn_q.weight"@));
    let dims = c.layers@[l as int];
    &&& q is Some
    &&& q == dtype_of(tensors, layer_tensor(l, "attn_k.weight"@))
    &&& q == dtype_of(tensors, layer_tensor(l, "attn_v.weight"@))
    &&& listed(native_dense, q)
    &&& q != Some(DType::F16)
    &&& dims.head_dim == c.head_dim
    &&& dims.n_kv == c.n_kv
    &&& dims.own_kv
}

/// Whether the three attention projections are uploaded as one tensor: the backend asks for it, the
/// option is on, and they agree on every layer.
pub fn fuse_qkv_decision(tensors: &Vec<TensorInfo>, c: &ScanConfig, support: &ScanSupport) -> (fuse:
    bool)
    ensures
        fuse == (support.combined_gu && support.qkv_fuse && forall|l: nat|
            l < c.layers@.len() ==> #[trigger] qkv_agree(
                tensors@,
                *c,
                support.native_dense@,
                l,
            )),
{
    if !support.combined_gu || !support.qkv_fuse {
        return false;
    }
    let n: usize = c.layers.len();
    let mut l: usize = 0;
    while l < n
        invariant
            l <= n == c.layers@.len(),
            forall|k: nat|
                k < l ==> #[trigger] qkv_agree(tensors@, *c, support.native_dense@, k),
        decreases n - l,
    {
        let q: Option<DType> = layer_dtype(tensors, l, "attn_q.weight");
        let k: Option<DType> = layer_dtype(tensors, l, "attn_k.weight");
        let v: Option<DType> = layer_dtype(tensors, l, "attn_v.weight");
        let dims: LayerDims = c.layers[l];
        let same: bool = match (q, k, v) {
            (Some(a), Some(b), Some(d)) => a == b && a == d && a != DType::F16,
            _ => false,
        };
        let agree: bool = same && is_listed(&support.native_dense, q) && dims.head_dim
            == c.head_dim && dims.n_kv == c.n_kv && dims.own_kv;
        assert(agree == qkv_agree(tensors@, *c, support.native_dense@, l as nat));
        if !agree {
            return false;
        }
        l = l + 1;
    }
    true
}

/// The expert banks of layer `l` can be multiplied in batches.
pub open spec fn banks_ok(tensors: Seq<TensorInfo>, dual: bool, moe_mmq: Seq<DType>, l: nat) -> bool {
    if dual {
        listed(moe_mmq, dtype_of(tensors, layer_tensor(l, "ffn_gate_up_exps.weight"@)))
            && listed(moe_mmq, dtype_of(tensors, layer_tensor(l, "ffn_down_exps.weight"@)))
    } else {
        listed(moe_mmq, dtype_of(tensors, layer_tensor(l, "ffn_gate_exps.weight"@))) && listed(
            moe_mmq,
            dtype_of(tensors, layer_tensor(l, "ffn_up_exps.weight"@)),
        ) && listed(moe_mmq, dtype_of(tensors, layer_tensor(l, "ffn_down_exps.weight"@)))
    }
}

/// Whether an expert model can be prefilled in batches: at least one layer holds a bank, and every
/// bank can be multiplied in batches. A file without any bank does not qualify.
pub open spec fn experts_batch(tensors: Seq<TensorInfo>, c: ScanConfig, moe_mmq: Seq<DType>) -> bool {
    &&& c.moe
    &&& exists|l: int| 0 <= l < c.layers@.len() && (#[trigger] c.layers@[l]).moe
    &&& forall|l: int|
        0 <= l < c.layers@.len() && (#[trigger] c.layers@[l]).moe ==> banks_ok(
            tensors,
            c.dual_moe,
            moe_mmq,
            l as nat,
        )
}

fn check_banks(tensors: &Vec<TensorInfo>, dual: bool, moe_mmq: &Vec<DType>, l: usize) -> (ok: bool)
    ensures
        ok == banks_ok(tensors@, dual, moe_mmq@, l as nat),
{
    if dual {
        is_listed(moe_mmq, layer_dtype(tensors, l, "ffn_gate_up_exps.weight")) && is_listed(
            moe_mmq,
            layer_dtype(tensors, l, "ffn_down_exps.weight"),
        )
    } else {
        is_listed(moe_mmq, layer_dtype(tensors, l, "ffn_gate_exps.weight")) && is_listed(
            moe_mmq,
            layer_dtype(tensors, l, "ffn_up_exps.weight"),
        ) && is_listed(moe_mmq, layer_dtype(tensors, l, "ffn_down_exps.weight"))
    }
}

/// See [`experts_batch`].
pub fn moe_batched_ok(tensors: &Vec<TensorInfo>, c: &ScanConfig, moe_mmq: &Vec<DType>) -> (ok: bool)
    ensures
        ok == experts_batch(tensors@, *c, moe_mmq@),
{
    if !c.moe {
        return false;
    }
    let n: usize = c.layers.len();
    let mut seen: bool = false;
    let mut l: usize = 0;
    while l < n
        invariant
            l <= n == c.layers@.len(),
            seen == (exists|k: int| 0 <= k < l && (#[trigger] c.layers@[k]).moe),
            forall|k: int|
                0 <= k < l && (#[trigger] c.layers@[k]).moe ==> banks_ok(
                    tensors@,
                    c.dual_moe,
                    moe_mmq@,
                    k as nat,
                ),
        decreases n - l,
    {
        if c.layers[l].moe {
            if !check_banks(tensors, c.dual_moe, moe_mmq, l) {
                assert(c.layers@[l as int].moe);
                return false;
            }
            seen = true;
            assert(c.layers@[l as int].moe);
        }
        l = l + 1;
    }
    seen
}

/// The layers' own value projections.
pub open spec fn value_projections(tensors: Seq<TensorInfo>, n: nat) -> Seq<bool> {
    Seq::new(n, |l: int| present(tensors, layer_tensor(l as nat, "attn_v.weight"@)))
}

fn list_value_projections(tensors: &Vec<TensorInfo>, n: usize) -> (has: Vec<bool>)
    ensures
        has@ == value_projections(tensors@, n as nat),
{
    let mut has: Vec<bool> = Vec::new();
    let mut l: usize = 0;
    while l < n
        invariant
            l <= n,
            has@ == value_projections(tensors@, l as nat),
        decreases n - l,
    {
        let name: String = layer_tensor_name(l, "attn_v.weight");
        has.push(find_tensor(tensors, &name).is_some());
        l = l + 1;
        assert(has@ =~= value_projections(tensors@, l as nat));
    }
    has
}

/// The output scales that the file holds: for each layer, the name of the tensor to read.
pub open spec fn scale_tensors(tensors: Seq<TensorInfo>, suffix: Seq<char>, n: nat) -> Seq<
    Option<Seq<char>>,
> {
    Seq::new(
        n,
        |l: int|
            if present(tensors, layer_tensor(l as nat, suffix)) {
                Some(layer_tensor(l as nat, suffix))
            } else {
                None
            },
    )
}

/// A list of optional names, as text.
pub open spec fn name_texts(names: Seq<Option<String>>) -> Seq<Option<Seq<char>>> {
    names.map_values(
        |name: Option<String>|
            match name {
                Some(s) => Some(s@),
                None => None,
            },
    )
}

fn list_scales(tensors: &Vec<TensorInfo>, suffix: &str, n: usize) -> (names: Vec<Option<String>>)
    ensures
        name_texts(names@) == scale_tensors(tensors@, suffix@, n as nat),
{
    let mut names: Vec<Option<String>> = Vec::new();
    assert(name_texts(names@) =~= scale_tensors(tensors@, suffix@, 0));
    let mut l: usize = 0;
    while l < n
        invariant
            l <= n,
            name_texts(names@) == scale_tensors(tensors@, suffix@, l as nat),
        decreases n - l,
    {
        let ghost before = names@;
        let name: String = layer_tensor_name(l, suffix);
        let found: bool = find_tensor(tensors, &name).is_some();
        let entry: Option<String> = if found {
            Some(name)
        } else {
            None
        };
        names.push(entry);
        l = l + 1;
        assert(name_texts(names@) =~= name_texts(before).push(
            match entry {
                Some(s) => Some(s@),
                None => None,
            },
        ));
        assert(name_texts(names@) =~= scale_tensors(tensors@, suffix@, l as nat));
    }
    names
}

/// The tensor that scales a layer's output while a prompt is read.
pub open spec fn prompt_scale(diffusion_gemma: bool) -> Seq<char> {
    if diffusion_gemma {
        "enc_layer_output_scale.weight"@
    } else {
        "layer_output_scale.weight"@
    }
}

/// How many rotation pairs have a long-context divisor, where the model has them.
pub open spec fn yarn_pairs(c: ScanConfig) -> Option<usize> {
    let dim = if c.deepseek4 {
        c.rope_dim
    } else {
        c.qk_rope_dim
    };
    if c.rope_scaling_yarn && dim > 0 {
        Some((dim / 2) as usize)
    } else {
        None
    }
}

/// What is derived once for a session: pure in the file, the backend and the options.
pub struct SessionStable {
    pub has_wv: Vec<bool>,
    /// The tensor that scales each layer's output while a prompt is read.
    pub out_scale: Vec<Option<String>>,
    /// The tensor that scales each layer's output on a canvas.
    pub dec_out_scale: Vec<Option<String>>,
    /// The rotation divisors are read from the file.
    pub rope_freqs: bool,
    /// How many long-context rotation divisors are computed.
    pub yarn_pairs: Option<usize>,
    pub fuse_gu: bool,
    pub fuse_qkv: bool,
    pub moe_batched_ok: bool,
}

/// Scans the file once for a session.
pub fn session_stable(tensors: &Vec<TensorInfo>, c: &ScanConfig, support: &ScanSupport) -> (stable:
    SessionStable)
    ensures
        stable.has_wv@ == value_projections(tensors@, c.layers@.len()),
        name_texts(stable.out_scale@) == scale_tensors(
            tensors@,
            prompt_scale(c.diffusion_gemma),
            c.layers@.len(),
        ),
        name_texts(stable.dec_out_scale@) == scale_tensors(
            tensors@,
            "layer_output_scale.weight"@,
            c.layers@.len(),
        ),
        stable.rope_freqs == (c.gemma4 && present(tensors@, "rope_freqs.weight"@)),
        stable.yarn_pairs == yarn_pairs(*c),
        stable.fuse_gu == (support.combined_gu && forall|l: nat|
            l < c.layers@.len() ==> #[trigger] gate_up_agree(tensors@, l)),
        stable.fuse_qkv == (support.combined_gu && support.qkv_fuse && forall|l: nat|
            l < c.layers@.len() ==> #[trigger] qkv_agree(
                tensors@,
                *c,
                support.native_dense@,
                l,
            )),
        stable.moe_batched_ok == experts_batch(tensors@, *c, support.moe_mmq@),
{
    let n: usize = c.layers.len();
    let has_wv: Vec<bool> = list_value_projections(tensors, n);
    let suffix: &str = if c.diffusion_gemma {
        "enc_layer_output_scale.weight"
    } else {
        "layer_output_scale.weight"
    };
    let out_scale: Vec<Option<String>> = list_scales(tensors, suffix, n);
    let dec_out_scale: Vec<Option<String>> = list_scales(tensors, "layer_output_scale.weight", n);
    let freqs: String = String::from_str("rope_freqs.weight");
    let rope_freqs: bool = c.gemma4 && find_tensor(tensors, &freqs).is_some();
    let dim: usize = if c.deepseek4 {
        c.rope_dim
    } else {
        c.qk_rope_dim
    };
    let pairs: Option<usize> = if c.rope_scaling_yarn && dim > 0 {
        Some(dim / 2)
    } else {
        None
    };
    SessionStable {
        has_wv,
        out_scale,
        dec_out_scale,
        rope_freqs,
        yarn_pairs: pairs,
        fuse_gu: fuse_gu_decision(support.combined_gu, tensors, n),
        fuse_qkv: fuse_qkv_decision(tensors, c, support),
        moe_batched_ok: moe_batched_ok(tensors, c, &support.moe_mmq),
    }
}

/// Where embedding rows are looked up.
#[derive(Clone, Copy, Debug, PartialEq, Eq, Structural)]
pub struct EmbedGates {
    /// The head has a tensor of its own.
    pub untied_lm: bool,
    /// The device gathers the embedding rows.
    pub gpu_embed: bool,
    /// The device gathers the per-layer embedding rows too.
    pub gpu_ple: bool,
    /// Some layer selects experts by token id, so the ids are needed either way.
    pub hash_ids: bool,
}

/// The device can gather rows of the named table.
pub open spec fn gatherable(
    tensors: Seq<TensorInfo>,
    gathers: Seq<DType>,
    name: Seq<char>,
    width: int,
) -> bool {
    width % 32 == 0 && listed(gathers, dtype_of(tensors, name))
}

pub open spec fn device_embeds(
    tensors: Seq<TensorInfo>,
    c: ScanConfig,
    support: ScanSupport,
) -> bool {
    support.embed_gather && support.gpu_embed && gatherable(
        tensors,
        support.gathers@,
        "token_embd.weight"@,
        c.n_embd as int,
    )
}

/// Decides where embedding rows are looked up.
pub fn embed_gates(tensors: &Vec<TensorInfo>, c: &ScanConfig, support: &ScanSupport) -> (gates:
    EmbedGates)
    requires
        c.layers@.len() * c.n_embd_per_layer <= usize::MAX,
    ensures
        gates.untied_lm == present(tensors@, "output.weight"@),
        gates.gpu_embed == device_embeds(tensors@, *c, *support),
        gates.gpu_ple == (gates.gpu_embed && c.n_embd_per_layer > 0 && gatherable(
            tensors@,
            support.gathers@,
            "per_layer_token_embd.weight"@,
            c.layers@.len() * c.n_embd_per_layer,
        )),
        gates.hash_ids == (c.deepseek4 && exists|l: int|
            0 <= l < c.layers@.len() && (#[trigger] c.layers@[l]).hash_moe),
{
    let output: String = String::from_str("output.weight");
    let untied_lm: bool = find_tensor(tensors, &output).is_some();
    let table: String = String::from_str("token_embd.weight");
    let gpu_embed: bool = support.embed_gather && c.n_embd % 32 == 0 && is_listed(
        &support.gathers,
        find_dtype(tensors, &table),
    ) && support.gpu_embed;
    let per_layer: String = String::from_str("per_layer_token_embd.weight");
    let n: usize = c.layers.len();
    let width: usize = n * c.n_embd_per_layer;
    let gpu_ple: bool = gpu_embed && c.n_embd_per_layer > 0 && width % 32 == 0 && is_listed(
        &support.gathers,
        find_dtype(tensors, &per_layer),
    );
    let mut hashed: bool = false;
    let mut l: usize = 0;
    while l < n
        invariant
            l <= n == c.layers@.len(),
            hashed == (exists|k: int| 0 <= k < l && (#[trigger] c.layers@[k]).hash_moe),
        decreases n - l,
    {
        if c.layers[l].hash_moe {
            hashed = true;
            assert(c.layers@[l as int].hash_moe);
        }
        l = l + 1;
    }
    EmbedGates { untied_lm, gpu_embed, gpu_ple, hash_ids: c.deepseek4 && hashed }
}

/// Of layer `l`: whether the file has one bank for the two inner projections of its experts, and
/// whether it has a bias for its router.
pub fn layer_banks(tensors: &Vec<TensorInfo>, l: usize) -> (r: (bool, bool))
    ensures
        r.0 == present(tensors@, layer_tensor(l as nat, "ffn_gate_up_exps.weight"@)),
        r.1 == present(tensors@, layer_tensor(l as nat, "exp_probs_b.bias"@)),
{
    let joined: String = layer_tensor_name(l, "ffn_gate_up_exps.weight");
    let bias: String = layer_tensor_name(l, "exp_probs_b.bias");
    (find_tensor(tensors, &joined).is_some(), find_tensor(tensors, &bias).is_some())
}

/// A model without a bank is never prefilled as an expert model, whatever its metadata says.
pub proof fn law_no_bank_no_expert_batch(tensors: Seq<TensorInfo>, c: ScanConfig, moe_mmq: Seq<DType>)
    requires
        forall|l: int| 0 <= l < c.layers@.len() ==> !(#[trigger] c.layers@[l]).moe,
    ensures
        !experts_batch(tensors, c, moe_mmq),
{
}

} // verus!
