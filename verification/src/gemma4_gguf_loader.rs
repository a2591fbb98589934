//! Loading a Gemma-4 file.
//!
//! Only dense layers are served: a file whose layers route experts is
//! refused by name before any tensor is read.

use crate::gemma4_engine::{
    Gemma4AttnWeights, Gemma4Engine, Gemma4Hparams, Gemma4LayerWeights, Gemma4Weights,
    GEMMA4_ARCHES,
};
use crate::gguf::{
    f32_or, missing_u64, u64_or, value_chars, value_text, GgufFile, GgufValue, ARCH_KEY, EPS_1E_6,
    THETA_1E4, THETA_1E6,
};
use crate::load_error::{LoadError, LoadFault};
use crate::mtp_blocks::{trunk_fault, trunk_layers, trunk_of};
use crate::text::{
    arch_key, arch_key_text, block_name, block_name_text, contains_name, decimal, decimal_text,
    has_name,
};
use crate::weights::{
    first_fault, is_optional_vector, load_f32_vec, load_f32_vec_optional, load_weight_matrix,
    matrix_fault, optional_vector_fault, vector_fault, vector_of, WeightMatrix, ONE_BITS,
};
use vstd::prelude::*;
use vstd::string::StringExecFns;

verus! {

/// Whether every item of a list is an unsigned integer.
pub open spec fn all_unsigned(items: Seq<GgufValue>) -> bool {
    forall|i: int| 0 <= i < items.len() ==> (#[trigger] items[i]).unsigned() is Some
}

/// The numbers under a key: a list of them, or one alone.
pub open spec fn usize_array(file: GgufFile, key: Seq<char>) -> Option<Seq<usize>> {
    match file.meta(key) {
        None => None,
        Some(GgufValue::Array(items)) => if all_unsigned(items@) {
            Some(Seq::new(items@.len(), |i: int| items@[i].unsigned()->0 as usize))
        } else {
            None
        },
        Some(v) => match v.unsigned() {
            Some(n) => Some(seq![n as usize]),
            None => None,
        },
    }
}

/// Reads the numbers under a key.
pub fn meta_usize_array(file: &GgufFile, key: &str) -> (numbers: Option<Vec<usize>>)
    ensures
        numbers is Some <==> usize_array(*file, key@) is Some,
        numbers is Some ==> numbers->0@ == usize_array(*file, key@)->0,
{
    match file.metadata(key) {
        None => None,
        Some(GgufValue::Array(items)) => {
            let mut out: Vec<usize> = Vec::new();
            let mut i: usize = 0;
            while i < items.len()
                invariant
                    i <= items@.len(),
                    file.meta(key@) == Some(GgufValue::Array(*items)),
                    out@.len() == i,
                    forall|j: int| 0 <= j < i ==> (#[trigger] items@[j]).unsigned() is Some,
                    forall|j: int|
                        0 <= j < i ==> #[trigger] out@[j] == items@[j].unsigned()->0 as usize,
                decreases items@.len() - i,
            {
                match items[i].as_u64() {
                    Some(n) => out.push(n as usize),
                    None => {
                        return None;
                    },
                }
                i += 1;
            }
            assert(out@ =~= Seq::new(
                items@.len(),
                |i: int| items@[i].unsigned()->0 as usize,
            ));
            Some(out)
        },
        Some(v) => match v.as_u64() {
            Some(n) => {
                let mut out: Vec<usize> = Vec::new();
                out.push(n as usize);
                assert(out@ =~= seq![n as usize]);
                Some(out)
            },
            None => None,
        },
    }
}

/// The refusal of an item that is no truth value, between the key and
/// the item.
pub const NOT_A_BOOL: &'static str = ": expected bool array element, got ";

/// The refusal of a list of another length, between the key and the
/// length.
pub const NOT_N_BOOLS: &'static str = ": expected bool array of length ";

/// A list item as a truth value: one, or a number that is not zero.
pub open spec fn truth_like(v: GgufValue) -> Option<bool> {
    match v {
        GgufValue::Bool(b) => Some(b),
        GgufValue::U8(n) => Some(n != 0),
        GgufValue::U32(n) => Some(n != 0),
        GgufValue::U64(n) => Some(n != 0),
        GgufValue::I32(n) => Some(n != 0),
        _ => None,
    }
}

/// The first of the first `n` items that is no truth value.
pub open spec fn first_not_truth_like(items: Seq<GgufValue>, n: nat) -> Option<nat>
    decreases n,
{
    if n == 0 || n > items.len() {
        None
    } else {
        match first_not_truth_like(items, (n - 1) as nat) {
            Some(i) => Some(i),
            None => if truth_like(items[n - 1]) is None {
                Some((n - 1) as nat)
            } else {
                None
            },
        }
    }
}

proof fn first_not_truth_like_stays(items: Seq<GgufValue>, k: nat, n: nat)
    requires
        k <= n <= items.len(),
        first_not_truth_like(items, k) is Some,
    ensures
        first_not_truth_like(items, n) == first_not_truth_like(items, k),
    decreases n,
{
    if k < n {
        first_not_truth_like_stays(items, k, (n - 1) as nat);
    }
}

/// Why the truth values under a key cannot be read.
pub open spec fn bool_array_fault(file: GgufFile, key: Seq<char>, n: usize) -> Option<LoadFault> {
    match file.meta(key) {
        None => Some(LoadFault::MissingHparam(key)),
        Some(GgufValue::Array(items)) if items@.len() == n => match first_not_truth_like(
            items@,
            n as nat,
        ) {
            Some(i) => Some(
                LoadFault::MissingHparam(key + NOT_A_BOOL@ + value_chars(items@[i as int])),
            ),
            None => None,
        },
        Some(_) => Some(LoadFault::MissingHparam(key + NOT_N_BOOLS@ + decimal(n as nat))),
    }
}

/// The truth values under a key that can be read.
pub open spec fn bool_array_is(file: GgufFile, key: Seq<char>, n: usize, flags: Seq<bool>) -> bool {
    &&& file.meta(key) is Some
    &&& file.meta(key)->0 is Array
    &&& flags.len() == n
    &&& forall|i: int|
        0 <= i < n ==> truth_like(file.meta(key)->0->Array_0@[i]) == Some(#[trigger] flags[i])
}

/// Reads the `n` truth values under a key.
pub fn meta_bool_array(file: &GgufFile, key: &str, n: usize) -> (flags: Result<
    Vec<bool>,
    LoadError,
>)
    ensures
        match bool_array_fault(*file, key@, n) {
            Some(fault) => flags is Err && flags->Err_0@ == fault,
            None => flags is Ok && bool_array_is(*file, key@, n, flags->Ok_0@),
        },
{
    match file.metadata(key) {
        None => Err(LoadError::MissingHparam(String::from_str(key))),
        Some(GgufValue::Array(items)) => {
            if items.len() != n {
                return Err(
                    LoadError::MissingHparam(
                        String::from_str(key).concat(NOT_N_BOOLS).concat(
                            decimal_text(n as u64).as_str(),
                        ),
                    ),
                );
            }
            let mut out: Vec<bool> = Vec::new();
            let mut i: usize = 0;
            while i < n
                invariant
                    i <= n,
                    n == items@.len(),
                    file.meta(key@) == Some(GgufValue::Array(*items)),
                    first_not_truth_like(items@, i as nat) is None,
                    out@.len() == i,
                    forall|j: int| 0 <= j < i ==> truth_like(items@[j]) == Some(#[trigger] out@[j]),
                decreases n - i,
            {
                let flag: Option<bool> = match &items[i] {
                    GgufValue::Bool(b) => Some(*b),
                    GgufValue::U8(u) => Some(*u != 0),
                    GgufValue::U32(u) => Some(*u != 0),
                    GgufValue::U64(u) => Some(*u != 0),
                    GgufValue::I32(u) => Some(*u != 0),
                    _ => None,
                };
                match flag {
                    Some(b) => out.push(b),
                    None => {
                        proof {
                            assert(first_not_truth_like(items@, (i + 1) as nat) == Some(i as nat));
                            first_not_truth_like_stays(items@, (i + 1) as nat, n as nat);
                        }
                        return Err(
                            LoadError::MissingHparam(
                                String::from_str(key).concat(NOT_A_BOOL).concat(
                                    value_text(&items[i]).as_str(),
                                ),
                            ),
                        );
                    },
                }
                i += 1;
            }
            Ok(out)
        },
        Some(_) => Err(
            LoadError::MissingHparam(
                String::from_str(key).concat(NOT_N_BOOLS).concat(decimal_text(n as u64).as_str()),
            ),
        ),
    }
}

/// The refusal of a list of feed-forward widths of another length, round
/// the layer count and the length.
pub const FFN_COUNT: [&'static str; 2] = [
    ": expected 1 or ",
    " feed_forward_length entries, got ",
];

/// Why the feed-forward widths cannot be read.
pub open spec fn ffn_fault(file: GgufFile, arch: Seq<char>, n_layer: usize) -> Option<LoadFault> {
    let key = arch_key(arch, "feed_forward_length"@);
    match usize_array(file, key) {
        None => Some(LoadFault::MissingHparam(key)),
        Some(dims) => if dims.len() != 1 && dims.len() != n_layer {
            Some(
                LoadFault::MissingHparam(
                    key + FFN_COUNT@[0]@ + decimal(n_layer as nat) + FFN_COUNT@[1]@ + decimal(
                        dims.len(),
                    ),
                ),
            )
        } else {
            None
        },
    }
}

/// The feed-forward width of each layer: as listed, or the one declared
/// for all.
pub open spec fn ffn_dims_of(file: GgufFile, arch: Seq<char>, n_layer: usize) -> Seq<usize> {
    let dims = usize_array(file, arch_key(arch, "feed_forward_length"@))->0;
    if dims.len() == 1 {
        Seq::new(n_layer as nat, |i: int| dims[0])
    } else {
        dims
    }
}

/// Why a file is refused before any tensor is read.
pub open spec fn hparams_fault(file: GgufFile) -> Option<LoadFault> {
    match file.meta_str(ARCH_KEY@) {
        None => Some(LoadFault::MissingHparam(ARCH_KEY@)),
        Some(arch) => if !has_name(GEMMA4_ARCHES@, arch) {
            Some(LoadFault::UnsupportedArchitecture(arch))
        } else {
            let blocks = file.meta_u64(arch_key(arch, "block_count"@))->0 as usize;
            let n_layer = trunk_of(file, arch, blocks).n_layers;
            first_fault(
                missing_u64(file, arch_key(arch, "block_count"@)),
                first_fault(
                    trunk_fault(file, arch, blocks),
                    first_fault(
                        missing_u64(file, arch_key(arch, "embedding_length"@)),
                        first_fault(
                            ffn_fault(file, arch, n_layer),
                            first_fault(
                                missing_u64(file, arch_key(arch, "attention.head_count"@)),
                                first_fault(
                                    missing_u64(file, arch_key(arch, "attention.key_length"@)),
                                    first_fault(
                                        missing_u64(
                                            file,
                                            arch_key(arch, "attention.sliding_window"@),
                                        ),
                                        bool_array_fault(
                                            file,
                                            arch_key(arch, "attention.sliding_window_pattern"@),
                                            n_layer,
                                        ),
                                    ),
                                ),
                            ),
                        ),
                    ),
                ),
            )
        },
    }
}

/// Whether a bit pattern is that of a float above zero.
pub open spec fn positive_float(bits: u32) -> bool {
    0 < bits <= 0x7f80_0000
}

/// How many layers keep a cache: all but the declared shared ones, where
/// those are some but not all.
pub open spec fn kv_layers(n_layer: usize, shared: usize) -> usize {
    if 0 < shared < n_layer {
        (n_layer - shared) as usize
    } else {
        n_layer
    }
}

/// What the hyperparameters of a file that is not refused are.
pub open spec fn hparams_are(file: GgufFile, hp: Gemma4Hparams) -> bool {
    let arch = hp.arch@;
    &&& file.meta_str(ARCH_KEY@) == Some(arch)
    &&& hp.n_layer == trunk_of(
        file,
        arch,
        file.meta_u64(arch_key(arch, "block_count"@))->0 as usize,
    ).n_layers
    &&& hp.hidden_dim == file.meta_u64(arch_key(arch, "embedding_length"@))->0 as usize
    &&& hp.ffn_dims@ == ffn_dims_of(file, arch, hp.n_layer)
    &&& hp.n_heads == file.meta_u64(arch_key(arch, "attention.head_count"@))->0 as usize
    &&& hp.n_kv_heads == u64_or(file.meta_u64(arch_key(arch, "attention.head_count_kv"@)), 1)
    &&& hp.head_dim_full == file.meta_u64(arch_key(arch, "attention.key_length"@))->0 as usize
    &&& hp.head_dim_swa == u64_or(
        file.meta_u64(arch_key(arch, "attention.key_length_swa"@)),
        hp.head_dim_full as int,
    )
    &&& hp.sliding_window == file.meta_u64(arch_key(arch, "attention.sliding_window"@))->0 as usize
    &&& bool_array_is(
        file,
        arch_key(arch, "attention.sliding_window_pattern"@),
        hp.n_layer,
        hp.is_swa@,
    )
    &&& hp.n_layer_kv_from_start == kv_layers(
        hp.n_layer,
        u64_or(file.meta_u64(arch_key(arch, "attention.shared_kv_layers"@)), 0),
    )
    &&& hp.embd_per_layer == u64_or(
        file.meta_u64(arch_key(arch, "embedding_length_per_layer_input"@)),
        0,
    )
    &&& hp.rms_norm_eps == f32_or(
        file.meta_f32(arch_key(arch, "attention.layer_norm_rms_epsilon"@)),
        EPS_1E_6,
    )
    &&& hp.rope_theta == f32_or(file.meta_f32(arch_key(arch, "rope.freq_base"@)), THETA_1E6)
    &&& hp.rope_theta_swa == f32_or(
        file.meta_f32(arch_key(arch, "rope.freq_base_swa"@)),
        THETA_1E4,
    )
    &&& hp.final_logit_softcap == (match file.meta_f32(
        arch_key(arch, "final_logit_softcapping"@),
    ) {
        Some(bits) if positive_float(bits) => Some(bits),
        _ => None,
    })
    &&& hp.attention_scale == ONE_BITS
}

/// The hyperparameters of a file fit together.
pub proof fn read_hparams_are_well_formed(file: GgufFile, hp: Gemma4Hparams)
    requires
        hparams_fault(file) is None,
        hparams_are(file, hp),
    ensures
        hp.well_formed(),
{
}

fn read_ffn_dims(file: &GgufFile, arch: &str, n_layer: usize) -> (dims: Result<
    Vec<usize>,
    LoadError,
>)
    ensures
        match ffn_fault(*file, arch@, n_layer) {
            Some(fault) => dims is Err && dims->Err_0@ == fault,
            None => dims is Ok && dims->Ok_0@ == ffn_dims_of(*file, arch@, n_layer),
        },
{
    let key = arch_key_text(arch, "feed_forward_length");
    match meta_usize_array(file, key.as_str()) {
        None => Err(LoadError::MissingHparam(key)),
        Some(dims) => {
            if dims.len() != 1 && dims.len() != n_layer {
                return Err(
                    LoadError::MissingHparam(
                        key.concat(FFN_COUNT[0]).concat(
                            decimal_text(n_layer as u64).as_str(),
                        ).concat(FFN_COUNT[1]).concat(decimal_text(dims.len() as u64).as_str()),
                    ),
                );
            }
            if dims.len() == 1 {
                let all: Vec<usize> = vec![dims[0]; n_layer];
                assert(all@ =~= Seq::new(n_layer as nat, |i: int| dims@[0]));
                Ok(all)
            } else {
                Ok(dims)
            }
        },
    }
}

/// Reads the hyperparameters of a Gemma-4 file.
pub fn read_gemma4_hparams(file: &GgufFile) -> (hp: Result<Gemma4Hparams, LoadError>)
    ensures
        match hparams_fault(*file) {
            Some(fault) => hp is Err && hp->Err_0@ == fault,
            None => hp is Ok && hparams_are(*file, hp->Ok_0) && hp->Ok_0.well_formed(),
        },
{
    let arch = file.required_str(ARCH_KEY)?;
    if !contains_name(&GEMMA4_ARCHES, arch) {
        return Err(LoadError::UnsupportedArchitecture(String::from_str(arch)));
    }
    let block_count = file.required_u64(arch_key_text(arch, "block_count").as_str())?;
    let trunk = trunk_layers(file, arch, block_count as usize)?;
    let n_layer = trunk.n_layers;
    let hidden_dim = file.required_u64(arch_key_text(arch, "embedding_length").as_str())?;
    let ffn_dims = read_ffn_dims(file, arch, n_layer)?;
    let n_heads = file.required_u64(arch_key_text(arch, "attention.head_count").as_str())?;
    let n_kv_heads = file.usize_or(arch_key_text(arch, "attention.head_count_kv").as_str(), 1);
    let full = file.required_u64(arch_key_text(arch, "attention.key_length").as_str())?;
    let head_dim_full: usize = full as usize;
    let head_dim_swa = file.usize_or(
        arch_key_text(arch, "attention.key_length_swa").as_str(),
        head_dim_full,
    );
    let sliding_window = file.required_u64(
        arch_key_text(arch, "attention.sliding_window").as_str(),
    )?;
    let is_swa = meta_bool_array(
        file,
        arch_key_text(arch, "attention.sliding_window_pattern").as_str(),
        n_layer,
    )?;
    let shared_kv = file.usize_or(arch_key_text(arch, "attention.shared_kv_layers").as_str(), 0);
    let n_layer_kv_from_start: usize = if shared_kv > 0 && shared_kv < n_layer {
        n_layer - shared_kv
    } else {
        n_layer
    };
    let embd_per_layer = file.usize_or(
        arch_key_text(arch, "embedding_length_per_layer_input").as_str(),
        0,
    );
    let final_logit_softcap = match file.metadata_f32(
        arch_key_text(arch, "final_logit_softcapping").as_str(),
    ) {
        Some(bits) => if bits > 0 && bits <= 0x7f80_0000 {
            Some(bits)
        } else {
            None
        },
        None => None,
    };
    let rms_norm_eps = file.bits_or(
        arch_key_text(arch, "attention.layer_norm_rms_epsilon").as_str(),
        EPS_1E_6,
    );
    let rope_theta = file.bits_or(arch_key_text(arch, "rope.freq_base").as_str(), THETA_1E6);
    let rope_theta_swa = file.bits_or(
        arch_key_text(arch, "rope.freq_base_swa").as_str(),
        THETA_1E4,
    );
    Ok(
        Gemma4Hparams {
            arch: String::from_str(arch),
            n_layer,
            hidden_dim: hidden_dim as usize,
            ffn_dims,
            n_heads: n_heads as usize,
            n_kv_heads,
            head_dim_full,
            head_dim_swa,
            sliding_window: sliding_window as usize,
            is_swa,
            n_layer_kv_from_start,
            embd_per_layer,
            rms_norm_eps,
            rope_theta,
            rope_theta_swa,
            final_logit_softcap,
            attention_scale: ONE_BITS,
        },
    )
}

/// The refusal of a layer that routes experts, round the counts, the
/// layer, and whether its expert tensor is there.
pub const MOE_LAYER: [&'static str; 5] = [
    "this is a MoE Gemma-4 checkpoint (",
    " experts, ",
    " active per token, blk.",
    ".ffn_gate_exps.weight ",
    "), and ferrox loads only the dense Gemma-4 feed-forward. The routing arithmetic is \
     implemented (ferrox_moe::route_gemma4_moe) but the loader cannot place it: Gemma-4's router \
     needs a learned input scale and a per-expert output scale, and its feed-forward needs three \
     separate norms, none of whose GGUF tensor names are known here. Loading it as dense would \
     drop the per-expert scale and collapse the norms, which produces fluent, wrong output rather \
     than an error. Report the tensor names in this file to have them wired up",
];

/// Whether a tensor is there, in words.
pub open spec fn presence_chars(there: bool) -> Seq<char> {
    if there {
        "present"@
    } else {
        "absent"@
    }
}

/// Why a layer that routes experts is refused: the file declares experts
/// or has an expert tensor for the layer.
pub open spec fn moe_layer_fault(file: GgufFile, hp: Gemma4Hparams, il: nat) -> Option<LoadFault> {
    let found = file.has(block_name(il, "ffn_gate_exps.weight"@));
    let declared = file.meta_u64(arch_key(hp.arch@, "expert_count"@));
    let active = file.meta_u64(arch_key(hp.arch@, "expert_used_count"@));
    let count = if declared is Some {
        declared->0
    } else {
        0
    };
    if count == 0 && !found {
        None
    } else {
        Some(
            LoadFault::UnsupportedFeature(
                hp.arch@,
                MOE_LAYER@[0]@ + decimal(count as nat) + MOE_LAYER@[1]@ + decimal(
                    (if active is Some {
                        active->0
                    } else {
                        0
                    }) as nat,
                ) + MOE_LAYER@[2]@ + decimal(il) + MOE_LAYER@[3]@ + presence_chars(found)
                    + MOE_LAYER@[4]@,
            ),
        )
    }
}

/// Refuses a layer that routes experts.
pub fn refuse_moe_layer(file: &GgufFile, hp: &Gemma4Hparams, il: usize) -> (r: Result<
    (),
    LoadError,
>)
    ensures
        match moe_layer_fault(*file, *hp, il as nat) {
            Some(fault) => r is Err && r->Err_0@ == fault,
            None => r is Ok,
        },
{
    let found = file.has_tensor(block_name_text(il, "ffn_gate_exps.weight").as_str());
    let declared = match file.metadata_u64(
        arch_key_text(hp.arch.as_str(), "expert_count").as_str(),
    ) {
        Some(n) => n,
        None => 0,
    };
    if declared == 0 && !found {
        return Ok(());
    }
    let active = match file.metadata_u64(
        arch_key_text(hp.arch.as_str(), "expert_used_count").as_str(),
    ) {
        Some(n) => n,
        None => 0,
    };
    Err(
        LoadError::UnsupportedFeature(
            String::from_str(hp.arch.as_str()),
            String::from_str(MOE_LAYER[0]).concat(decimal_text(declared).as_str()).concat(
                MOE_LAYER[1],
            ).concat(decimal_text(active).as_str()).concat(MOE_LAYER[2]).concat(
                decimal_text(il as u64).as_str(),
            ).concat(MOE_LAYER[3]).concat(
                if found {
                    "present"
                } else {
                    "absent"
                },
            ).concat(MOE_LAYER[4]),
        ),
    )
}

/// Whether a layer's K projection is read: it keeps a cache, or the file
/// has one all the same.
pub open spec fn reads_k(file: GgufFile, hp: Gemma4Hparams, il: nat) -> bool {
    hp.keeps_kv(il as int) || file.has(block_name(il, "attn_k.weight"@))
}

/// Why a layer's K projection and norm cannot be loaded.
pub open spec fn k_fault(file: GgufFile, hp: Gemma4Hparams, il: nat) -> Option<LoadFault> {
    if reads_k(file, hp, il) {
        first_fault(
            matrix_fault(file, block_name(il, "attn_k.weight"@)),
            vector_fault(file, block_name(il, "attn_k_norm.weight"@)),
        )
    } else {
        None
    }
}

/// Why an optional matrix cannot be loaded; a missing one is no fault.
pub open spec fn optional_matrix_fault(file: GgufFile, name: Seq<char>) -> Option<LoadFault> {
    if file.has(name) {
        matrix_fault(file, name)
    } else {
        None
    }
}

/// Why a layer's per-layer input weights cannot be loaded.
pub open spec fn per_layer_fault(file: GgufFile, hp: Gemma4Hparams, il: nat) -> Option<LoadFault> {
    if hp.embd_per_layer > 0 {
        first_fault(
            matrix_fault(file, block_name(il, "inp_gate.weight"@)),
            first_fault(
                matrix_fault(file, block_name(il, "proj.weight"@)),
                vector_fault(file, block_name(il, "post_norm.weight"@)),
            ),
        )
    } else {
        None
    }
}

/// Why the tensors that every layer must have cannot be loaded.
pub open spec fn plain_tensors_fault(file: GgufFile, il: nat) -> Option<LoadFault> {
    first_fault(
        vector_fault(file, block_name(il, "attn_norm.weight"@)),
        first_fault(
            matrix_fault(file, block_name(il, "attn_q.weight"@)),
            first_fault(
                matrix_fault(file, block_name(il, "attn_output.weight"@)),
                first_fault(
                    vector_fault(file, block_name(il, "attn_q_norm.weight"@)),
                    first_fault(
                        vector_fault(file, block_name(il, "post_attention_norm.weight"@)),
                        first_fault(
                            vector_fault(file, block_name(il, "ffn_norm.weight"@)),
                            first_fault(
                                matrix_fault(file, block_name(il, "ffn_gate.weight"@)),
                                first_fault(
                                    matrix_fault(file, block_name(il, "ffn_up.weight"@)),
                                    first_fault(
                                        matrix_fault(file, block_name(il, "ffn_down.weight"@)),
                                        vector_fault(file, block_name(il, "post_ffw_norm.weight"@)),
                                    ),
                                ),
                            ),
                        ),
                    ),
                ),
            ),
        ),
    )
}

/// Why a layer cannot be loaded.
pub open spec fn layer_fault(file: GgufFile, hp: Gemma4Hparams, il: nat) -> Option<LoadFault> {
    first_fault(
        moe_layer_fault(file, hp, il),
        first_fault(
            k_fault(file, hp, il),
            first_fault(
                optional_matrix_fault(file, block_name(il, "attn_v.weight"@)),
                first_fault(
                    optional_vector_fault(file, block_name(il, "layer_output_scale.weight"@)),
                    first_fault(per_layer_fault(file, hp, il), plain_tensors_fault(file, il)),
                ),
            ),
        ),
    )
}

/// Whether `w` is the tensor `name` exactly where it is wanted.
pub open spec fn is_matrix_where(
    file: GgufFile,
    name: Seq<char>,
    wanted: bool,
    w: Option<WeightMatrix>,
) -> bool {
    &&& w is Some <==> wanted
    &&& wanted ==> w->0.is_tensor(file, name)
}

/// Whether `v` holds the tensor `name` exactly where it is wanted.
pub open spec fn is_vector_where(
    file: GgufFile,
    name: Seq<char>,
    wanted: bool,
    v: Option<Vec<u32>>,
) -> bool {
    &&& v is Some <==> wanted
    &&& wanted ==> v->0@ == vector_of(file, name)
}

/// What a layer's output scale is: the first element of its tensor, one
/// where that is empty, and none where the file has no such tensor.
pub open spec fn out_scale_of(file: GgufFile, il: nat) -> Option<u32> {
    let name = block_name(il, "layer_output_scale.weight"@);
    if file.has(name) {
        Some(
            if vector_of(file, name).len() > 0 {
                vector_of(file, name)[0]
            } else {
                ONE_BITS
            },
        )
    } else {
        None
    }
}

/// What a layer is.
pub open spec fn layer_is(file: GgufFile, hp: Gemma4Hparams, il: nat, w: Gemma4LayerWeights) -> bool {
    let own = reads_k(file, hp, il);
    let inputs = hp.embd_per_layer > 0;
    &&& w.attn_norm@ == vector_of(file, block_name(il, "attn_norm.weight"@))
    &&& w.attn.q_proj.is_tensor(file, block_name(il, "attn_q.weight"@))
    &&& is_matrix_where(file, block_name(il, "attn_k.weight"@), own, w.attn.k_proj)
    &&& is_vector_where(file, block_name(il, "attn_k_norm.weight"@), own, w.attn.k_norm)
    &&& is_matrix_where(
        file,
        block_name(il, "attn_v.weight"@),
        file.has(block_name(il, "attn_v.weight"@)),
        w.attn.v_proj,
    )
    &&& w.attn.o_proj.is_tensor(file, block_name(il, "attn_output.weight"@))
    &&& w.attn.q_norm@ == vector_of(file, block_name(il, "attn_q_norm.weight"@))
    &&& w.attn.post_attn_norm@ == vector_of(file, block_name(il, "post_attention_norm.weight"@))
    &&& w.ffn_norm@ == vector_of(file, block_name(il, "ffn_norm.weight"@))
    &&& w.ffn_gate.is_tensor(file, block_name(il, "ffn_gate.weight"@))
    &&& w.ffn_up.is_tensor(file, block_name(il, "ffn_up.weight"@))
    &&& w.ffn_down.is_tensor(file, block_name(il, "ffn_down.weight"@))
    &&& w.ffn_post_norm@ == vector_of(file, block_name(il, "post_ffw_norm.weight"@))
    &&& is_matrix_where(
        file,
        block_name(il, "inp_gate.weight"@),
        inputs,
        w.per_layer_inp_gate,
    )
    &&& is_matrix_where(file, block_name(il, "proj.weight"@), inputs, w.per_layer_proj)
    &&& is_vector_where(file, block_name(il, "post_norm.weight"@), inputs, w.per_layer_post_norm)
    &&& w.out_scale == out_scale_of(file, il)
}

fn load_matrix_where(file: &GgufFile, name: &str, wanted: bool) -> (w: Result<
    Option<WeightMatrix>,
    LoadError,
>)
    ensures
        match (if wanted {
            matrix_fault(*file, name@)
        } else {
            None
        }) {
            Some(fault) => w is Err && w->Err_0@ == fault,
            None => w is Ok && is_matrix_where(*file, name@, wanted, w->Ok_0),
        },
{
    if wanted {
        Ok(Some(load_weight_matrix(file, name)?))
    } else {
        Ok(None)
    }
}

fn load_vec_where(file: &GgufFile, name: &str, wanted: bool) -> (v: Result<
    Option<Vec<u32>>,
    LoadError,
>)
    ensures
        match (if wanted {
            vector_fault(*file, name@)
        } else {
            None
        }) {
            Some(fault) => v is Err && v->Err_0@ == fault,
            None => v is Ok && is_vector_where(*file, name@, wanted, v->Ok_0),
        },
{
    if wanted {
        Ok(Some(load_f32_vec(file, name)?))
    } else {
        Ok(None)
    }
}

/// Loads a layer.
pub fn load_layer(file: &GgufFile, hp: &Gemma4Hparams, il: usize) -> (w: Result<
    Gemma4LayerWeights,
    LoadError,
>)
    ensures
        match layer_fault(*file, *hp, il as nat) {
            Some(fault) => w is Err && w->Err_0@ == fault,
            None => w is Ok && layer_is(*file, *hp, il as nat, w->Ok_0),
        },
{
    refuse_moe_layer(file, hp, il)?;
    let k_name = block_name_text(il, "attn_k.weight");
    let own = hp.has_kv(il) || file.has_tensor(k_name.as_str());
    let k_proj = load_matrix_where(file, k_name.as_str(), own)?;
    let k_norm = load_vec_where(file, block_name_text(il, "attn_k_norm.weight").as_str(), own)?;
    let v_name = block_name_text(il, "attn_v.weight");
    let has_v = file.has_tensor(v_name.as_str());
    let v_proj = load_matrix_where(file, v_name.as_str(), has_v)?;
    let scale = load_f32_vec_optional(
        file,
        block_name_text(il, "layer_output_scale.weight").as_str(),
    )?;
    let out_scale = match scale {
        Some(v) => if v.len() > 0 {
            Some(v[0])
        } else {
            Some(ONE_BITS)
        },
        None => None,
    };
    let inputs = hp.embd_per_layer > 0;
    let per_layer_inp_gate = load_matrix_where(
        file,
        block_name_text(il, "inp_gate.weight").as_str(),
        inputs,
    )?;
    let per_layer_proj = load_matrix_where(
        file,
        block_name_text(il, "proj.weight").as_str(),
        inputs,
    )?;
    let per_layer_post_norm = load_vec_where(
        file,
        block_name_text(il, "post_norm.weight").as_str(),
        inputs,
    )?;
    let attn_norm = load_f32_vec(file, block_name_text(il, "attn_norm.weight").as_str())?;
    let q_proj = load_weight_matrix(file, block_name_text(il, "attn_q.weight").as_str())?;
    let o_proj = load_weight_matrix(file, block_name_text(il, "attn_output.weight").as_str())?;
    let q_norm = load_f32_vec(file, block_name_text(il, "attn_q_norm.weight").as_str())?;
    let post_attn_norm = load_f32_vec(
        file,
        block_name_text(il, "post_attention_norm.weight").as_str(),
    )?;
    let ffn_norm = load_f32_vec(file, block_name_text(il, "ffn_norm.weight").as_str())?;
    let ffn_gate = load_weight_matrix(file, block_name_text(il, "ffn_gate.weight").as_str())?;
    let ffn_up = load_weight_matrix(file, block_name_text(il, "ffn_up.weight").as_str())?;
    let ffn_down = load_weight_matrix(file, block_name_text(il, "ffn_down.weight").as_str())?;
    let ffn_post_norm = load_f32_vec(file, block_name_text(il, "post_ffw_norm.weight").as_str())?;
    Ok(
        Gemma4LayerWeights {
            attn_norm,
            attn: Gemma4AttnWeights {
                q_proj,
                k_proj,
                v_proj,
                o_proj,
                q_norm,
                k_norm,
                post_attn_norm,
            },
            ffn_norm,
            ffn_gate,
            ffn_up,
            ffn_down,
            ffn_post_norm,
            per_layer_inp_gate,
            per_layer_proj,
            per_layer_post_norm,
            out_scale,
        },
    )
}

/// The first fault of the first `n` layers.
pub open spec fn layers_fault(file: GgufFile, hp: Gemma4Hparams, n: nat) -> Option<LoadFault>
    decreases n,
{
    if n == 0 {
        None
    } else {
        first_fault(
            layers_fault(file, hp, (n - 1) as nat),
            layer_fault(file, hp, (n - 1) as nat),
        )
    }
}

proof fn layers_fault_stays(file: GgufFile, hp: Gemma4Hparams, k: nat, n: nat)
    requires
        k <= n,
        layers_fault(file, hp, k) is Some,
    ensures
        layers_fault(file, hp, n) == layers_fault(file, hp, k),
    decreases n,
{
    if k < n {
        layers_fault_stays(file, hp, k, (n - 1) as nat);
    }
}

/// Why the per-layer input tables cannot be loaded.
pub open spec fn tables_fault(file: GgufFile, hp: Gemma4Hparams) -> Option<LoadFault> {
    if hp.embd_per_layer > 0 {
        first_fault(
            matrix_fault(file, "per_layer_token_embd.weight"@),
            first_fault(
                matrix_fault(file, "per_layer_model_proj.weight"@),
                vector_fault(file, "per_layer_proj_norm.weight"@),
            ),
        )
    } else {
        None
    }
}

/// Why a file with these hyperparameters cannot be loaded.
pub open spec fn weights_fault(file: GgufFile, hp: Gemma4Hparams) -> Option<LoadFault> {
    first_fault(
        matrix_fault(file, "token_embd.weight"@),
        first_fault(
            tables_fault(file, hp),
            first_fault(
                optional_vector_fault(file, "rope_freqs.weight"@),
                first_fault(
                    layers_fault(file, hp, hp.n_layer as nat),
                    vector_fault(file, "output_norm.weight"@),
                ),
            ),
        ),
    )
}

/// The tensor that the output head is.
pub open spec fn head_name(file: GgufFile) -> Seq<char> {
    if matrix_fault(file, "output.weight"@) is None {
        "output.weight"@
    } else {
        "token_embd.weight"@
    }
}

/// What the weights of a file with these hyperparameters are.
pub open spec fn weights_are(file: GgufFile, hp: Gemma4Hparams, w: Gemma4Weights) -> bool {
    let inputs = hp.embd_per_layer > 0;
    &&& w.token_embd.is_tensor(file, "token_embd.weight"@)
    &&& is_matrix_where(file, "per_layer_token_embd.weight"@, inputs, w.per_layer_token_embd)
    &&& is_matrix_where(file, "per_layer_model_proj.weight"@, inputs, w.per_layer_model_proj)
    &&& is_vector_where(file, "per_layer_proj_norm.weight"@, inputs, w.per_layer_proj_norm)
    &&& w.layers@.len() == hp.n_layer
    &&& forall|il: int|
        0 <= il < hp.n_layer ==> layer_is(file, hp, il as nat, #[trigger] w.layers@[il])
    &&& w.output_norm@ == vector_of(file, "output_norm.weight"@)
    &&& w.output_head.is_tensor(file, head_name(file))
    &&& is_optional_vector(file, "rope_freqs.weight"@, w.rope_freqs)
}

/// Loads what the hyperparameters describe.
pub fn load_gemma4_weights(file: &GgufFile, hp: &Gemma4Hparams) -> (w: Result<
    Gemma4Weights,
    LoadError,
>)
    ensures
        match weights_fault(*file, *hp) {
            Some(fault) => w is Err && w->Err_0@ == fault,
            None => w is Ok && weights_are(*file, *hp, w->Ok_0),
        },
{
    let token_embd = load_weight_matrix(file, "token_embd.weight")?;
    let output_head = match load_weight_matrix(file, "output.weight") {
        Ok(w) => w,
        Err(_) => load_weight_matrix(file, "token_embd.weight")?,
    };
    let inputs = hp.embd_per_layer > 0;
    let per_layer_token_embd = load_matrix_where(file, "per_layer_token_embd.weight", inputs)?;
    let per_layer_model_proj = load_matrix_where(file, "per_layer_model_proj.weight", inputs)?;
    let per_layer_proj_norm = load_vec_where(file, "per_layer_proj_norm.weight", inputs)?;
    let rope_freqs = load_f32_vec_optional(file, "rope_freqs.weight")?;
    let mut layers: Vec<Gemma4LayerWeights> = Vec::new();
    let mut il: usize = 0;
    while il < hp.n_layer
        invariant
            il <= hp.n_layer,
            layers@.len() == il,
            forall|i: int|
                0 <= i < il ==> layer_is(*file, *hp, i as nat, #[trigger] layers@[i]),
            layers_fault(*file, *hp, il as nat) is None,
            weights_fault(*file, *hp) == first_fault(
                layers_fault(*file, *hp, hp.n_layer as nat),
                vector_fault(*file, "output_norm.weight"@),
            ),
        decreases hp.n_layer - il,
    {
        match load_layer(file, hp, il) {
            Ok(layer) => layers.push(layer),
            Err(e) => {
                proof {
                    assert(layers_fault(*file, *hp, (il + 1) as nat) == layer_fault(
                        *file,
                        *hp,
                        il as nat,
                    ));
                    layers_fault_stays(*file, *hp, (il + 1) as nat, hp.n_layer as nat);
                }
                return Err(e);
            },
        }
        il += 1;
    }
    let output_norm = load_f32_vec(file, "output_norm.weight")?;
    Ok(
        Gemma4Weights {
            token_embd,
            per_layer_token_embd,
            per_layer_model_proj,
            per_layer_proj_norm,
            layers,
            output_norm,
            output_head,
            rope_freqs,
        },
    )
}

/// Loads a Gemma-4 file: the hyperparameters, then what they describe.
/// The caller looks up the kernels that the engine's matrices need.
pub fn load_gemma4_engine(file: &GgufFile) -> (e: Result<Gemma4Engine, LoadError>)
    ensures
        hparams_fault(*file) is Some ==> e is Err && e->Err_0@ == hparams_fault(*file)->0,
        e is Ok ==> hparams_fault(*file) is None && hparams_are(*file, e->Ok_0.hp)
            && e->Ok_0.hp.well_formed() && weights_fault(*file, e->Ok_0.hp) is None
            && weights_are(*file, e->Ok_0.hp, e->Ok_0.weights),
        hparams_fault(*file) is None && e is Err ==> exists|hp: Gemma4Hparams| #[trigger]
            hparams_are(*file, hp) && weights_fault(*file, hp) == Some(e->Err_0@),
{
    let hp = read_gemma4_hparams(file)?;
    let weights = load_gemma4_weights(file, &hp)?;
    Ok(Gemma4Engine { weights, hp })
}

/// A loaded engine can run a token's pass wherever the layers without a
/// cache find one of their own head width: the layers that keep a cache
/// always have a K projection and its norm.
pub proof fn loaded_engine_runs(file: GgufFile, e: Gemma4Engine)
    requires
        weights_are(file, e.hp, e.weights),
        forall|il: int|
            0 <= il < e.hp.n_layer && !e.hp.keeps_kv(il) ==> e.hp.reuse(il) >= 0
                && #[trigger] e.hp.head_width(e.hp.reuse(il)) == e.hp.head_width(il),
    ensures
        e.runnable(),
{
    assert forall|il: int| 0 <= il < e.hp.n_layer implies (if e.hp.keeps_kv(il) {
        (#[trigger] e.weights.layers@[il]).attn.k_proj is Some
            && e.weights.layers@[il].attn.k_norm is Some
    } else {
        &&& e.hp.reuse(il) >= 0
        &&& e.hp.head_width(e.hp.reuse(il)) == e.hp.head_width(il)
    }) by {
        assert(layer_is(file, e.hp, il as nat, e.weights.layers@[il]));
        if !e.hp.keeps_kv(il) {
            assert(e.hp.head_width(e.hp.reuse(il)) == e.hp.head_width(il));
        }
    }
}

proof fn layers_fail_alike(file: GgufFile, a: Gemma4Hparams, b: Gemma4Hparams, n: nat)
    requires
        hparams_are(file, a),
        hparams_are(file, b),
    ensures
        layers_fault(file, a, n) == layers_fault(file, b, n),
    decreases n,
{
    if n > 0 {
        layers_fail_alike(file, a, b, (n - 1) as nat);
        assert(layer_fault(file, a, (n - 1) as nat) == layer_fault(file, b, (n - 1) as nat));
    }
}

/// A file determines its hyperparameters: two readings of it are refused
/// alike.
pub proof fn one_reading_of_a_file(file: GgufFile, a: Gemma4Hparams, b: Gemma4Hparams)
    requires
        hparams_are(file, a),
        hparams_are(file, b),
    ensures
        weights_fault(file, a) == weights_fault(file, b),
{
    layers_fail_alike(file, a, b, a.n_layer as nat);
}

/// Each setting of a file that is read is what stands under its own key;
/// what is windowed and what is full are not exchanged: the windowed
/// heads are `key_length_swa` wide and rotate with `freq_base_swa`, the
/// full ones `key_length` and `freq_base`.
pub proof fn gemma4_settings_are_their_keys(file: GgufFile, hp: Gemma4Hparams)
    requires
        hparams_fault(file) is None,
        hparams_are(file, hp),
    ensures
        file.meta_str("general.architecture"@) == Some(hp.arch@),
        hp.arch@ == "gemma4"@ || hp.arch@ == "gemma4-assistant"@,
        file.meta_u64(hp.arch@ + "."@ + "embedding_length"@) matches Some(n) && hp.hidden_dim
            == n as usize,
        file.meta_u64(hp.arch@ + "."@ + "attention.head_count"@) matches Some(n) && hp.n_heads
            == n as usize,
        match file.meta_u64(hp.arch@ + "."@ + "attention.head_count_kv"@) {
            Some(n) => hp.n_kv_heads == n as usize,
            None => hp.n_kv_heads == 1,
        },
        file.meta_u64(hp.arch@ + "."@ + "attention.key_length"@) matches Some(n)
            && hp.head_dim_full == n as usize,
        match file.meta_u64(hp.arch@ + "."@ + "attention.key_length_swa"@) {
            Some(n) => hp.head_dim_swa == n as usize,
            None => hp.head_dim_swa == hp.head_dim_full,
        },
        file.meta_u64(hp.arch@ + "."@ + "attention.sliding_window"@) matches Some(n)
            && hp.sliding_window == n as usize,
        match file.meta_u64(hp.arch@ + "."@ + "embedding_length_per_layer_input"@) {
            Some(n) => hp.embd_per_layer == n as usize,
            None => hp.embd_per_layer == 0,
        },
        match file.meta_f32(hp.arch@ + "."@ + "attention.layer_norm_rms_epsilon"@) {
            Some(bits) => hp.rms_norm_eps == bits,
            None => hp.rms_norm_eps == EPS_1E_6,
        },
        match file.meta_f32(hp.arch@ + "."@ + "rope.freq_base"@) {
            Some(bits) => hp.rope_theta == bits,
            None => hp.rope_theta == THETA_1E6,
        },
        match file.meta_f32(hp.arch@ + "."@ + "rope.freq_base_swa"@) {
            Some(bits) => hp.rope_theta_swa == bits,
            None => hp.rope_theta_swa == THETA_1E4,
        },
        file.meta_f32(hp.arch@ + "."@ + "final_logit_softcapping"@) is None
            ==> hp.final_logit_softcap is None,
        file.meta_f32(hp.arch@ + "."@ + "final_logit_softcapping"@) matches Some(bits) ==> if 0
            < bits <= 0x7f80_0000 {
            hp.final_logit_softcap == Some(bits)
        } else {
            hp.final_logit_softcap is None
        },
        hp.attention_scale == ONE_BITS,
        match file.meta_u64(hp.arch@ + "."@ + "attention.shared_kv_layers"@) {
            None => hp.n_layer_kv_from_start == hp.n_layer,
            Some(n) => if 0 < n as usize && (n as usize) < hp.n_layer {
                hp.n_layer_kv_from_start + n as usize == hp.n_layer
            } else {
                hp.n_layer_kv_from_start == hp.n_layer
            },
        },
        file.meta_u64(hp.arch@ + "."@ + "block_count"@) is Some,
        file.meta(hp.arch@ + "."@ + "nextn_predict_layers"@) is None ==> hp.n_layer
            == file.meta_u64(hp.arch@ + "."@ + "block_count"@)->0 as usize,
{
    assert(GEMMA4_ARCHES@[0]@ == "gemma4"@);
    assert(GEMMA4_ARCHES@[1]@ == "gemma4-assistant"@);
}

/// Which layers are windowed is what the pattern says, layer by layer:
/// one flag for each, where a number other than zero counts as a yes.
pub proof fn the_pattern_says_which_layers_are_windowed(
    file: GgufFile,
    hp: Gemma4Hparams,
    il: int,
)
    requires
        hparams_fault(file) is None,
        hparams_are(file, hp),
        0 <= il < hp.n_layer,
    ensures
        hp.is_swa@.len() == hp.n_layer,
        file.meta(hp.arch@ + "."@ + "attention.sliding_window_pattern"@) matches Some(
            GgufValue::Array(items),
        ) && items@.len() == hp.n_layer && match items@[il] {
            GgufValue::Bool(b) => hp.is_swa@[il] == b,
            GgufValue::U8(n) => hp.is_swa@[il] == (n != 0),
            GgufValue::U32(n) => hp.is_swa@[il] == (n != 0),
            GgufValue::U64(n) => hp.is_swa@[il] == (n != 0),
            GgufValue::I32(n) => hp.is_swa@[il] == (n != 0),
            _ => false,
        },
{
    let _ = hp.is_swa@[il];
}

/// A layer's feed-forward width is the one listed for it, or the one
/// declared for all.
pub proof fn feed_forward_widths_are_listed_by_layer(file: GgufFile, hp: Gemma4Hparams, il: int)
    requires
        hparams_fault(file) is None,
        hparams_are(file, hp),
        0 <= il < hp.n_layer,
    ensures
        hp.ffn_dims@.len() == hp.n_layer,
        file.meta(hp.arch@ + "."@ + "feed_forward_length"@) matches Some(v) && match v {
            GgufValue::Array(items) => {
                &&& items@.len() == 1 || items@.len() == hp.n_layer
                &&& items@.len() == 1 ==> items@[0].unsigned() is Some && hp.ffn_dims@[il]
                    == items@[0].unsigned()->0 as usize
                &&& items@.len() != 1 ==> items@[il].unsigned() is Some && hp.ffn_dims@[il]
                    == items@[il].unsigned()->0 as usize
            },
            _ => v.unsigned() is Some && hp.ffn_dims@[il] == v.unsigned()->0 as usize,
        },
{
    let key = arch_key(hp.arch@, "feed_forward_length"@);
    assert(ffn_fault(file, hp.arch@, hp.n_layer) is None);
    match file.meta(key) {
        Some(GgufValue::Array(items)) => {
            assert(all_unsigned(items@));
            if items@.len() == 1 {
                assert(items@[0].unsigned() is Some);
            } else {
                assert(items@[il].unsigned() is Some);
            }
        },
        _ => {},
    }
}

/// What a file must hold to be read: an architecture of this engine, the
/// counts that it requires, a feed-forward width for all layers or one
/// for each, and a flag for each layer.
pub proof fn what_a_gemma4_file_must_declare(file: GgufFile)
    ensures
        hparams_fault(file) is None ==> {
            let arch = file.meta_str("general.architecture"@)->0;
            &&& file.meta_str("general.architecture"@) is Some
            &&& arch == "gemma4"@ || arch == "gemma4-assistant"@
            &&& file.meta_u64(arch + "."@ + "block_count"@) is Some
            &&& file.meta_u64(arch + "."@ + "embedding_length"@) is Some
            &&& file.meta(arch + "."@ + "feed_forward_length"@) is Some
            &&& file.meta_u64(arch + "."@ + "attention.head_count"@) is Some
            &&& file.meta_u64(arch + "."@ + "attention.key_length"@) is Some
            &&& file.meta_u64(arch + "."@ + "attention.sliding_window"@) is Some
            &&& file.meta(arch + "."@ + "attention.sliding_window_pattern"@) is Some
        },
        file.meta_str("general.architecture"@) is None ==> hparams_fault(file) == Some(
            LoadFault::MissingHparam("general.architecture"@),
        ),
        file.meta_str("general.architecture"@) matches Some(arch) ==> arch != "gemma4"@ && arch
            != "gemma4-assistant"@ ==> hparams_fault(file) == Some(
            LoadFault::UnsupportedArchitecture(arch),
        ),
{
    assert(GEMMA4_ARCHES@[0]@ == "gemma4"@);
    assert(GEMMA4_ARCHES@[1]@ == "gemma4-assistant"@);
}

/// A layer that routes experts is refused, and only such a one: where
/// the file declares experts, or holds an expert tensor for the layer.
pub proof fn only_dense_layers_are_served(file: GgufFile, hp: Gemma4Hparams, il: nat)
    ensures
        moe_layer_fault(file, hp, il) is Some <==> file.has("blk."@ + decimal(il) + "."@ + "ffn_gate_exps.weight"@) || (file.meta_u64(
            hp.arch@ + "."@ + "expert_count"@,
        ) is Some && file.meta_u64(hp.arch@ + "."@ + "expert_count"@)->0 > 0),
        moe_layer_fault(file, hp, il) is Some ==> layer_fault(file, hp, il) == moe_layer_fault(
            file,
            hp,
            il,
        ),
{
}

/// A layer is loaded by name: each projection and norm is the tensor so
/// named of the layer's own block, keys from `attn_k` and values from
/// `attn_v`. Keys are there where the layer keeps a cache or the file has
/// them all the same, values where the file has them, and the per-layer
/// input's weights where the model has such inputs.
pub proof fn a_gemma4_layer_is_loaded_by_name(
    file: GgufFile,
    hp: Gemma4Hparams,
    il: nat,
    w: Gemma4LayerWeights,
)
    requires
        layer_is(file, hp, il, w),
    ensures
        w.attn_norm@ == vector_of(file, "blk."@ + decimal(il) + "."@ + "attn_norm.weight"@),
        w.attn.q_proj.is_tensor(file, "blk."@ + decimal(il) + "."@ + "attn_q.weight"@),
        w.attn.q_norm@ == vector_of(file, "blk."@ + decimal(il) + "."@ + "attn_q_norm.weight"@),
        w.attn.o_proj.is_tensor(file, "blk."@ + decimal(il) + "."@ + "attn_output.weight"@),
        w.attn.post_attn_norm@ == vector_of(file, "blk."@ + decimal(il) + "."@ + "post_attention_norm.weight"@),
        w.attn.k_proj is Some <==> il < hp.n_layer_kv_from_start || file.has("blk."@ + decimal(il) + "."@ + "attn_k.weight"@),
        w.attn.k_norm is Some <==> w.attn.k_proj is Some,
        w.attn.k_proj is Some ==> w.attn.k_proj->0.is_tensor(file, "blk."@ + decimal(il) + "."@ + "attn_k.weight"@),
        w.attn.k_norm is Some ==> w.attn.k_norm->0@ == vector_of(file, "blk."@ + decimal(il) + "."@ + "attn_k_norm.weight"@),
        w.attn.v_proj is Some <==> file.has("blk."@ + decimal(il) + "."@ + "attn_v.weight"@),
        w.attn.v_proj is Some ==> w.attn.v_proj->0.is_tensor(file, "blk."@ + decimal(il) + "."@ + "attn_v.weight"@),
        w.ffn_norm@ == vector_of(file, "blk."@ + decimal(il) + "."@ + "ffn_norm.weight"@),
        w.ffn_gate.is_tensor(file, "blk."@ + decimal(il) + "."@ + "ffn_gate.weight"@),
        w.ffn_up.is_tensor(file, "blk."@ + decimal(il) + "."@ + "ffn_up.weight"@),
        w.ffn_down.is_tensor(file, "blk."@ + decimal(il) + "."@ + "ffn_down.weight"@),
        w.ffn_post_norm@ == vector_of(file, "blk."@ + decimal(il) + "."@ + "post_ffw_norm.weight"@),
        w.per_layer_inp_gate is Some <==> hp.embd_per_layer > 0,
        w.per_layer_proj is Some <==> hp.embd_per_layer > 0,
        w.per_layer_post_norm is Some <==> hp.embd_per_layer > 0,
        hp.embd_per_layer > 0 ==> {
            &&& w.per_layer_inp_gate->0.is_tensor(file, "blk."@ + decimal(il) + "."@ + "inp_gate.weight"@)
            &&& w.per_layer_proj->0.is_tensor(file, "blk."@ + decimal(il) + "."@ + "proj.weight"@)
            &&& w.per_layer_post_norm->0@ == vector_of(file, "blk."@ + decimal(il) + "."@ + "post_norm.weight"@)
        },
        w.out_scale is Some <==> file.has("blk."@ + decimal(il) + "."@ + "layer_output_scale.weight"@),
        w.out_scale is Some ==> if vector_of(file, "blk."@ + decimal(il) + "."@ + "layer_output_scale.weight"@).len() > 0 {
            w.out_scale->0 == vector_of(file, "blk."@ + decimal(il) + "."@ + "layer_output_scale.weight"@)[0]
        } else {
            w.out_scale->0 == ONE_BITS
        },
{
}

/// What the weights round the layers are: each the tensor of its name;
/// the output head the embedding where `output.weight` cannot be had, and
/// the per-layer input's tables there where the model has such inputs.
pub proof fn gemma4_weights_are_their_file(file: GgufFile, hp: Gemma4Hparams, w: Gemma4Weights)
    requires
        weights_are(file, hp, w),
    ensures
        w.token_embd.is_tensor(file, "token_embd.weight"@),
        w.output_norm@ == vector_of(file, "output_norm.weight"@),
        file.has("output.weight"@) && file.tensor("output.weight"@)->0.shape@.len() == 2
            ==> w.output_head.is_tensor(file, "output.weight"@),
        !file.has("output.weight"@) ==> w.output_head.is_tensor(file, "token_embd.weight"@),
        w.rope_freqs is Some <==> file.has("rope_freqs.weight"@),
        w.rope_freqs is Some ==> w.rope_freqs->0@ == vector_of(file, "rope_freqs.weight"@),
        w.per_layer_token_embd is Some <==> hp.embd_per_layer > 0,
        w.per_layer_model_proj is Some <==> hp.embd_per_layer > 0,
        w.per_layer_proj_norm is Some <==> hp.embd_per_layer > 0,
        hp.embd_per_layer > 0 ==> {
            &&& w.per_layer_token_embd->0.is_tensor(file, "per_layer_token_embd.weight"@)
            &&& w.per_layer_model_proj->0.is_tensor(file, "per_layer_model_proj.weight"@)
            &&& w.per_layer_proj_norm->0@ == vector_of(file, "per_layer_proj_norm.weight"@)
        },
        w.layers@.len() == hp.n_layer,
        forall|il: int|
            0 <= il < hp.n_layer ==> layer_is(file, hp, il as nat, #[trigger] w.layers@[il]),
{
}

/// Which files the loader reads: those of the two architectures that
/// declare every count, one feed-forward width or one for each layer, and
/// for each layer whether it is windowed.
pub proof fn which_files_are_read(file: GgufFile, arch: Seq<char>, blocks: usize)
    requires
        file.meta_str("general.architecture"@) == Some(arch),
        blocks == file.meta_u64(arch + "."@ + "block_count"@)->0 as usize,
    ensures
        hparams_fault(file) is None <==> {
            let layers = trunk_of(file, arch, blocks).n_layers;
            &&& arch == "gemma4"@ || arch == "gemma4-assistant"@
            &&& trunk_fault(file, arch, blocks) is None
            &&& file.meta_u64(arch + "."@ + "block_count"@) is Some
            &&& file.meta_u64(arch + "."@ + "embedding_length"@) is Some
            &&& file.meta_u64(arch + "."@ + "attention.head_count"@) is Some
            &&& file.meta_u64(arch + "."@ + "attention.key_length"@) is Some
            &&& file.meta_u64(arch + "."@ + "attention.sliding_window"@) is Some
            &&& match file.meta(arch + "."@ + "feed_forward_length"@) {
                Some(GgufValue::Array(items)) => (items@.len() == 1 || items@.len() == layers)
                    && forall|i: int|
                    0 <= i < items@.len() ==> (#[trigger] items@[i]).unsigned() is Some,
                Some(v) => v.unsigned() is Some,
                None => false,
            }
            &&& match file.meta(arch + "."@ + "attention.sliding_window_pattern"@) {
                Some(GgufValue::Array(items)) => items@.len() == layers && forall|i: int|
                    0 <= i < items@.len() ==> truth_like(#[trigger] items@[i]) is Some,
                _ => false,
            }
        },
{
    let t = GEMMA4_ARCHES@;
    assert(t[0]@ == "gemma4"@);
    assert(t[1]@ == "gemma4-assistant"@);
    match file.meta(arch + "."@ + "attention.sliding_window_pattern"@) {
        Some(GgufValue::Array(items)) => {
            all_are_truth_like(items@, items@.len());
        },
        _ => {},
    }
}

proof fn all_are_truth_like(items: Seq<GgufValue>, n: nat)
    requires
        n <= items.len(),
    ensures
        first_not_truth_like(items, n) is None <==> forall|i: int|
            0 <= i < n ==> truth_like(#[trigger] items[i]) is Some,
    decreases n,
{
    if n > 0 {
        all_are_truth_like(items, (n - 1) as nat);
        let _ = items[n - 1];
    }
}

/// What stands for a truth value: itself, and a number, which is true
/// unless it is zero. A float, a text and a list do not.
pub proof fn what_stands_for_a_truth_value(v: GgufValue)
    ensures
        v matches GgufValue::Bool(b) ==> truth_like(v) == Some(b),
        v matches GgufValue::U8(n) ==> truth_like(v) == Some(n != 0),
        v matches GgufValue::U32(n) ==> truth_like(v) == Some(n != 0),
        v matches GgufValue::U64(n) ==> truth_like(v) == Some(n != 0),
        v matches GgufValue::I32(n) ==> truth_like(v) == Some(n != 0),
        v is Array || v is String || v is F32 ==> truth_like(v) is None,
{
}

/// Which tensors a layer must have: no experts; K and its norm where the
/// layer keeps its keys or the file has a K projection for it; the three
/// of the per-layer input where there is one; and the projections and
/// norms that every layer has.
pub proof fn what_a_layer_must_have(file: GgufFile, hp: Gemma4Hparams, il: nat)
    ensures
        layer_fault(file, hp, il) is None <==> {
            &&& !file.has("blk."@ + decimal(il) + "."@ + "ffn_gate_exps.weight"@)
            &&& file.meta_u64(hp.arch@ + "."@ + "expert_count"@) matches Some(n) ==> n == 0
            &&& il < hp.n_layer_kv_from_start || file.has("blk."@ + decimal(il) + "."@ + "attn_k.weight"@) ==> matrix_fault(file, "blk."@ + decimal(il) + "."@ + "attn_k.weight"@) is None && vector_fault(file, "blk."@ + decimal(il) + "."@ + "attn_k_norm.weight"@) is None
            &&& file.has("blk."@ + decimal(il) + "."@ + "attn_v.weight"@) ==> matrix_fault(file, "blk."@ + decimal(il) + "."@ + "attn_v.weight"@) is None
            &&& optional_vector_fault(file, "blk."@ + decimal(il) + "."@ + "layer_output_scale.weight"@) is None
            &&& hp.embd_per_layer > 0 ==> matrix_fault(file, "blk."@ + decimal(il) + "."@ + "inp_gate.weight"@) is None && matrix_fault(file, "blk."@ + decimal(il) + "."@ + "proj.weight"@) is None && vector_fault(file, "blk."@ + decimal(il) + "."@ + "post_norm.weight"@) is None
            &&& vector_fault(file, "blk."@ + decimal(il) + "."@ + "attn_norm.weight"@) is None
            &&& matrix_fault(file, "blk."@ + decimal(il) + "."@ + "attn_q.weight"@) is None
            &&& vector_fault(file, "blk."@ + decimal(il) + "."@ + "attn_q_norm.weight"@) is None
            &&& matrix_fault(file, "blk."@ + decimal(il) + "."@ + "attn_output.weight"@) is None
            &&& vector_fault(file, "blk."@ + decimal(il) + "."@ + "post_attention_norm.weight"@) is None
            &&& vector_fault(file, "blk."@ + decimal(il) + "."@ + "ffn_norm.weight"@) is None
            &&& matrix_fault(file, "blk."@ + decimal(il) + "."@ + "ffn_gate.weight"@) is None
            &&& matrix_fault(file, "blk."@ + decimal(il) + "."@ + "ffn_up.weight"@) is None
            &&& matrix_fault(file, "blk."@ + decimal(il) + "."@ + "ffn_down.weight"@) is None
            &&& vector_fault(file, "blk."@ + decimal(il) + "."@ + "post_ffw_norm.weight"@) is None
        },
{
}

/// Which files' weights load: the embedding, the last norm and, where
/// there is a per-layer input, its tables are there, and every layer
/// loads; the first layer that does not is reported.
pub proof fn which_weights_load(file: GgufFile, hp: Gemma4Hparams)
    ensures
        weights_fault(file, hp) is None <==> {
            &&& matrix_fault(file, "token_embd.weight"@) is None
            &&& hp.embd_per_layer > 0 ==> matrix_fault(file, "per_layer_token_embd.weight"@) is None
                && matrix_fault(file, "per_layer_model_proj.weight"@) is None && vector_fault(
                file,
                "per_layer_proj_norm.weight"@,
            ) is None
            &&& optional_vector_fault(file, "rope_freqs.weight"@) is None
            &&& vector_fault(file, "output_norm.weight"@) is None
            &&& forall|il: nat| il < hp.n_layer ==> #[trigger] layer_fault(file, hp, il) is None
        },
{
    layers_load_one_by_one(file, hp, hp.n_layer as nat);
}

/// Layers load where each of them does.
#[verifier::rlimit(40)]
#[verifier::spinoff_prover]
pub proof fn layers_load_one_by_one(file: GgufFile, hp: Gemma4Hparams, n: nat)
    ensures
        layers_fault(file, hp, n) is None <==> forall|il: nat|
            il < n ==> #[trigger] layer_fault(file, hp, il) is None,
        layers_fault(file, hp, n) matches Some(fault) ==> exists|il: nat|
            il < n && #[trigger] layer_fault(file, hp, il) == Some(fault) && forall|k: nat|
                k < il ==> #[trigger] layer_fault(file, hp, k) is None,
    decreases n,
{
    if n > 0 {
        let m = (n - 1) as nat;
        layers_load_one_by_one(file, hp, m);
        let last = layer_fault(file, hp, m);
        assert(layers_fault(file, hp, n) == first_fault(layers_fault(file, hp, m), last));
        if layers_fault(file, hp, m) is None && last is None {
            assert forall|il: nat| il < n implies #[trigger] layer_fault(file, hp, il) is None by {
            }
        }
    }
}

/// Of several tensors that are missing, the first of those read is named.
pub proof fn the_first_missing_tensor_is_named(file: GgufFile, il: nat)
    ensures
        !file.has("blk."@ + decimal(il) + "."@ + "attn_norm.weight"@) ==> plain_tensors_fault(file, il) == Some(
            LoadFault::TensorNotFound("blk."@ + decimal(il) + "."@ + "attn_norm.weight"@),
        ),
        vector_fault(file, "blk."@ + decimal(il) + "."@ + "attn_norm.weight"@) is None && !file.has("blk."@ + decimal(il) + "."@ + "attn_q.weight"@) ==> plain_tensors_fault(file, il) == Some(
            LoadFault::TensorNotFound("blk."@ + decimal(il) + "."@ + "attn_q.weight"@),
        ),
        vector_fault(file, "blk."@ + decimal(il) + "."@ + "attn_norm.weight"@) is None && matrix_fault(file, "blk."@ + decimal(il) + "."@ + "attn_q.weight"@) is None && !file.has("blk."@ + decimal(il) + "."@ + "attn_output.weight"@) ==> plain_tensors_fault(file, il) == Some(
            LoadFault::TensorNotFound("blk."@ + decimal(il) + "."@ + "attn_output.weight"@),
        ),
        vector_fault(file, "blk."@ + decimal(il) + "."@ + "attn_norm.weight"@) is None && matrix_fault(file, "blk."@ + decimal(il) + "."@ + "attn_q.weight"@) is None && matrix_fault(file, "blk."@ + decimal(il) + "."@ + "attn_output.weight"@) is None && !file.has("blk."@ + decimal(il) + "."@ + "attn_q_norm.weight"@) ==> plain_tensors_fault(file, il) == Some(
            LoadFault::TensorNotFound("blk."@ + decimal(il) + "."@ + "attn_q_norm.weight"@),
        ),
        vector_fault(file, "blk."@ + decimal(il) + "."@ + "attn_norm.weight"@) is None && matrix_fault(file, "blk."@ + decimal(il) + "."@ + "attn_q.weight"@) is None && matrix_fault(file, "blk."@ + decimal(il) + "."@ + "attn_output.weight"@) is None && vector_fault(file, "blk."@ + decimal(il) + "."@ + "attn_q_norm.weight"@) is None && !file.has("blk."@ + decimal(il) + "."@ + "post_attention_norm.weight"@) ==> plain_tensors_fault(file, il) == Some(
            LoadFault::TensorNotFound("blk."@ + decimal(il) + "."@ + "post_attention_norm.weight"@),
        ),
        vector_fault(file, "blk."@ + decimal(il) + "."@ + "attn_norm.weight"@) is None && matrix_fault(file, "blk."@ + decimal(il) + "."@ + "attn_q.weight"@) is None && matrix_fault(file, "blk."@ + decimal(il) + "."@ + "attn_output.weight"@) is None && vector_fault(file, "blk."@ + decimal(il) + "."@ + "attn_q_norm.weight"@) is None && vector_fault(file, "blk."@ + decimal(il) + "."@ + "post_attention_norm.weight"@) is None && !file.has("blk."@ + decimal(il) + "."@ + "ffn_norm.weight"@) ==> plain_tensors_fault(file, il) == Some(
            LoadFault::TensorNotFound("blk."@ + decimal(il) + "."@ + "ffn_norm.weight"@),
        ),
        vector_fault(file, "blk."@ + decimal(il) + "."@ + "attn_norm.weight"@) is None && matrix_fault(file, "blk."@ + decimal(il) + "."@ + "attn_q.weight"@) is None && matrix_fault(file, "blk."@ + decimal(il) + "."@ + "attn_output.weight"@) is None && vector_fault(file, "blk."@ + decimal(il) + "."@ + "attn_q_norm.weight"@) is None && vector_fault(file, "blk."@ + decimal(il) + "."@ + "post_attention_norm.weight"@) is None && vector_fault(file, "blk."@ + decimal(il) + "."@ + "ffn_norm.weight"@) is None && !file.has("blk."@ + decimal(il) + "."@ + "ffn_gate.weight"@) ==> plain_tensors_fault(file, il) == Some(
            LoadFault::TensorNotFound("blk."@ + decimal(il) + "."@ + "ffn_gate.weight"@),
        ),
        vector_fault(file, "blk."@ + decimal(il) + "."@ + "attn_norm.weight"@) is None && matrix_fault(file, "blk."@ + decimal(il) + "."@ + "attn_q.weight"@) is None && matrix_fault(file, "blk."@ + decimal(il) + "."@ + "attn_output.weight"@) is None && vector_fault(file, "blk."@ + decimal(il) + "."@ + "attn_q_norm.weight"@) is None && vector_fault(file, "blk."@ + decimal(il) + "."@ + "post_attention_norm.weight"@) is None && vector_fault(file, "blk."@ + decimal(il) + "."@ + "ffn_norm.weight"@) is None && matrix_fault(file, "blk."@ + decimal(il) + "."@ + "ffn_gate.weight"@) is None && !file.has("blk."@ + decimal(il) + "."@ + "ffn_up.weight"@) ==> plain_tensors_fault(file, il) == Some(
            LoadFault::TensorNotFound("blk."@ + decimal(il) + "."@ + "ffn_up.weight"@),
        ),
        vector_fault(file, "blk."@ + decimal(il) + "."@ + "attn_norm.weight"@) is None && matrix_fault(file, "blk."@ + decimal(il) + "."@ + "attn_q.weight"@) is None && matrix_fault(file, "blk."@ + decimal(il) + "."@ + "attn_output.weight"@) is None && vector_fault(file, "blk."@ + decimal(il) + "."@ + "attn_q_norm.weight"@) is None && vector_fault(file, "blk."@ + decimal(il) + "."@ + "post_attention_norm.weight"@) is None && vector_fault(file, "blk."@ + decimal(il) + "."@ + "ffn_norm.weight"@) is None && matrix_fault(file, "blk."@ + decimal(il) + "."@ + "ffn_gate.weight"@) is None && matrix_fault(file, "blk."@ + decimal(il) + "."@ + "ffn_up.weight"@) is None && !file.has("blk."@ + decimal(il) + "."@ + "ffn_down.weight"@) ==> plain_tensors_fault(file, il) == Some(
            LoadFault::TensorNotFound("blk."@ + decimal(il) + "."@ + "ffn_down.weight"@),
        ),
        vector_fault(file, "blk."@ + decimal(il) + "."@ + "attn_norm.weight"@) is None && matrix_fault(file, "blk."@ + decimal(il) + "."@ + "attn_q.weight"@) is None && matrix_fault(file, "blk."@ + decimal(il) + "."@ + "attn_output.weight"@) is None && vector_fault(file, "blk."@ + decimal(il) + "."@ + "attn_q_norm.weight"@) is None && vector_fault(file, "blk."@ + decimal(il) + "."@ + "post_attention_norm.weight"@) is None && vector_fault(file, "blk."@ + decimal(il) + "."@ + "ffn_norm.weight"@) is None && matrix_fault(file, "blk."@ + decimal(il) + "."@ + "ffn_gate.weight"@) is None && matrix_fault(file, "blk."@ + decimal(il) + "."@ + "ffn_up.weight"@) is None && matrix_fault(file, "blk."@ + decimal(il) + "."@ + "ffn_down.weight"@) is None && !file.has("blk."@ + decimal(il) + "."@ + "post_ffw_norm.weight"@) ==> plain_tensors_fault(file, il) == Some(
            LoadFault::TensorNotFound("blk."@ + decimal(il) + "."@ + "post_ffw_norm.weight"@),
        ),
{
}

} // verus!
