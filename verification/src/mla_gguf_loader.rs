//! Loading a DeepSeek-2, Mistral-4 or PLM file for the MLA engine.
//!
//! The three architectures share one attention; what they decide
//! differently is one table, [`crate::mla_arch`]. A layer's Q is low-rank
//! (`attn_q_a`, `attn_q_b`) or direct (`attn_q`); its K/V decompression
//! is one combined tensor or a pair cut per head; its feed-forward is
//! dense up to `leading_dense_block_count` and a mixture of experts
//! after it. A file that declares a RoPE scaling or an attention
//! temperature is refused: the engine has neither.

use crate::engine::{
    MlaConfig, MlaDenseFfn, MlaEngine, MlaLayerFfn, MlaLayerWeights, MlaMoeFfn, MlaMoeRuntime,
    MlaRopeConfig,
};
use crate::gguf::{
    either, f32_or, larger, missing_u64, nonzero_float, smaller, u64_or, GgufFile, GgufValue,
    ARCH_KEY, EPS_1E_6, THETA_1E4,
};
use crate::load_error::{GgufError, LoadError, LoadFault};
use crate::mla::{MlaAttnWeights, MlaKvB};
use crate::mla_arch::{
    is_lite, lite, mla_arch, mla_row, what_an_mla_architecture_decides, GluAct, MlaArch,
    MlaOutputHead, QProjRule,
};
use crate::mla_q_proj::MlaQProj;
use crate::mtp_blocks::{trunk_fault, trunk_layers, trunk_of};
use crate::text::{
    arch_key, arch_key_text, block_name, block_name_text, bool_chars, bool_text, decimal,
    decimal_text, str_eq, written_out, written_out_text,
};
use crate::weights::{
    are_parts, first_fault, is_optional_vector, load_f32_vec, load_f32_vec_optional,
    load_weight_matrix, matrix_fault, ones, optional_vector_fault, parts_fault, presence_fault,
    require_tensor, split_expert_tensor, vector_fault, vector_of, ExpertWeights, WeightMatrix,
    ONE_BITS,
};
use vstd::prelude::*;
use vstd::string::StringExecFns;

verus! {

/// How routed experts are scored.
#[derive(Debug, Clone, Copy, PartialEq, Eq, Structural)]
pub enum GatingFunction {
    Softmax,
    Sigmoid,
}

/// Hyperparameters read from the `{arch}.*` metadata. The four floats
/// are bit patterns.
#[derive(Debug)]
pub struct Deepseek2Hparams {
    pub arch: String,
    /// The architecture's row of the decision table.
    pub row: MlaArch,
    pub n_layer: usize,
    pub hidden_dim: usize,
    pub ffn_dim: usize,
    pub n_heads: usize,
    /// `Some` for a low-rank Q, `None` for a direct one.
    pub q_lora_rank: Option<usize>,
    pub kv_lora_rank: usize,
    pub qk_nope_head_dim: usize,
    pub qk_rope_head_dim: usize,
    pub v_head_dim: usize,
    pub rms_norm_eps: u32,
    pub rope_theta: u32,
    /// The layers below this one are dense; the others route experts.
    pub leading_dense_block_count: usize,
    pub n_expert: usize,
    pub n_expert_used: usize,
    pub n_shared_experts: usize,
    pub expert_ffn_dim: usize,
    pub gating: GatingFunction,
    pub norm_topk_prob: bool,
    pub expert_weights_scale: u32,
}

/// The refusal of a key length that leaves no width beside the rotated
/// one, round the key length and the rotated width.
pub const KEY_TOO_SHORT: [&'static str; 3] = [
    " (",
    ") must exceed rope.dimension_count (",
    ")",
];

/// The refusal of a RoPE scaling, round the key and the scaling.
pub const ROPE_SCALING: [&'static str; 3] = [
    "`",
    " = \"",
    "\"`: llama.cpp's deepseek2 graph rewrites the `pe` frequencies through `ggml_rope_ext` and \
     folds YaRN's mscale into `kq_scale` (src/models/deepseek2.cpp:312-328); the MLA engine has \
     plain RoPE and `1/sqrt(n_embd_head_k)` only, so it stops rather than run this file at factor 1",
];

/// The refusal of an attention temperature, round the key and the scale.
pub const TEMPERATURE: [&'static str; 3] = [
    "`",
    " = ",
    "`",
];

/// What is said of the length that an attention temperature starts at,
/// round the key and the length.
pub const TEMPERATURE_FLOOR: [&'static str; 3] = [" (floor `", " = ", "`)"];

/// Why an attention temperature is refused.
pub const NO_TEMPERATURE: &'static str = ": llama.cpp's deepseek2 graph multiplies Q by a \
     per-position temperature (src/models/deepseek2.cpp:46-47, 595-598, 632-635; \
     `crate::attn_temperature`) and the MLA engine has no per-position Q scale. Implemented on the \
     generic path for `mistral3`; this engine refuses rather than run Mistral-Large-3 at \
     temperature 1";

/// The vocabulary size a file declares: the key, else the length of its
/// token list, else zero.
pub open spec fn declared_vocab(file: GgufFile, arch: Seq<char>) -> usize {
    match file.meta_u64(arch_key(arch, "vocab_size"@)) {
        Some(n) => n as usize,
        None => match file.meta("tokenizer.ggml.tokens"@) {
            Some(GgufValue::Array(items)) => items@.len() as usize,
            _ => 0,
        },
    }
}

/// Whether this file's Q is low-rank by its architecture's rule, so that
/// its rank must be read.
pub open spec fn reads_q_rank(row: MlaArch, n_layer: usize, n_vocab: usize) -> bool {
    row.q_proj == QProjRule::LoraUnlessLite && !lite(n_layer as int, n_vocab as int)
}

/// The rotated width: `rope.dimension_count`, else the older spelling.
pub open spec fn rope_width(file: GgufFile, arch: Seq<char>) -> Option<u64> {
    either(
        file.meta_u64(arch_key(arch, "rope.dimension_count"@)),
        file.meta_u64(arch_key(arch, "attention.qk_rope_head_dim"@)),
    )
}

/// The per-head key length and the suffix of the key that declares it.
pub open spec fn key_length(file: GgufFile, arch: Seq<char>) -> Option<(u64, Seq<char>)> {
    match file.meta_u64(arch_key(arch, "attention.key_length_mla"@)) {
        Some(n) => Some((n, "attention.key_length_mla"@)),
        None => match file.meta_u64(arch_key(arch, "attention.key_length"@)) {
            Some(n) => Some((n, "attention.key_length"@)),
            None => None,
        },
    }
}

/// The unrotated width of a file that is not refused: what the key
/// length leaves beside the rotated width, else its own key.
pub open spec fn nope_width(file: GgufFile, arch: Seq<char>) -> usize {
    match key_length(file, arch) {
        Some((n, _)) => (n as usize - rope_width(file, arch)->0 as usize) as usize,
        None => file.meta_u64(arch_key(arch, "attention.qk_nope_head_dim"@))->0 as usize,
    }
}

/// The value width of a file that is not refused.
pub open spec fn value_width(file: GgufFile, arch: Seq<char>) -> usize {
    u64_or(
        either(
            file.meta_u64(arch_key(arch, "attention.value_length_mla"@)),
            either(
                file.meta_u64(arch_key(arch, "attention.value_length"@)),
                file.meta_u64(arch_key(arch, "attention.v_head_dim"@)),
            ),
        ),
        nope_width(file, arch) as int,
    )
}

/// How the file's experts are scored: as declared, and where nothing
/// (or nothing known) is declared, by softmax but for the one checkpoint
/// recognised by its layer count and vocabulary.
pub open spec fn gating_of(file: GgufFile, arch: Seq<char>, n_layer: usize) -> GatingFunction {
    let declared = file.meta_u64(arch_key(arch, "expert_gating_func"@));
    if declared == Some(2u64) {
        GatingFunction::Sigmoid
    } else if declared == Some(1u64) {
        GatingFunction::Softmax
    } else if (n_layer == 47 || n_layer == 48) && file.has("token_embd.weight"@) && {
        let shape = file.tensor("token_embd.weight"@)->0.shape@;
        shape.len() > 0 && shape.last() == 154880
    } {
        GatingFunction::Sigmoid
    } else {
        GatingFunction::Softmax
    }
}

/// The architectures whose graph reads an attention temperature.
pub open spec fn reads_temperature(arch: Seq<char>) -> bool {
    arch == "deepseek2"@ || arch == "mistral4"@
}

/// The trunk layer count of a file that is not refused.
pub open spec fn trunk_count(file: GgufFile, arch: Seq<char>) -> usize {
    trunk_of(
        file,
        arch,
        file.meta_u64(arch_key(arch, "block_count"@))->0 as usize,
    ).n_layers
}

/// Why the widths of a head cannot be read.
pub open spec fn head_width_fault(file: GgufFile, arch: Seq<char>) -> Option<LoadFault> {
    if rope_width(file, arch) is None {
        Some(LoadFault::MissingHparam(arch_key(arch, "attention.qk_rope_head_dim"@)))
    } else {
        match key_length(file, arch) {
            Some((n, key)) => if n as usize > rope_width(file, arch)->0 as usize {
                None
            } else {
                Some(
                    LoadFault::MissingHparam(
                        arch_key(arch, key) + KEY_TOO_SHORT@[0]@ + decimal(n as nat)
                            + KEY_TOO_SHORT@[1]@ + decimal(
                            rope_width(file, arch)->0 as usize as nat,
                        ) + KEY_TOO_SHORT@[2]@,
                    ),
                )
            },
            None => missing_u64(file, arch_key(arch, "attention.qk_nope_head_dim"@)),
        }
    }
}

/// Why a file's RoPE scaling is refused: it declares one that is not
/// `none`.
pub open spec fn scaling_fault(file: GgufFile, arch: Seq<char>) -> Option<LoadFault> {
    let key = arch_key(arch, "rope.scaling.type"@);
    match file.meta_str(key) {
        Some(kind) if kind != "none"@ => Some(
            LoadFault::UnsupportedFeature(
                arch,
                ROPE_SCALING@[0]@ + key + ROPE_SCALING@[1]@ + kind + ROPE_SCALING@[2]@,
            ),
        ),
        _ => None,
    }
}

/// What is said of the length under `key`; nothing, where there is none.
pub open spec fn floor_chars(key: Seq<char>, length: Option<u64>) -> Seq<char> {
    match length {
        Some(n) => TEMPERATURE_FLOOR@[0]@ + key + TEMPERATURE_FLOOR@[1]@ + decimal(n as nat)
            + TEMPERATURE_FLOOR@[2]@,
        None => seq![],
    }
}

/// Why a file's attention temperature is refused: its architecture reads
/// one, and the file declares one that is not zero.
pub open spec fn temperature_fault(file: GgufFile, arch: Seq<char>) -> Option<LoadFault> {
    let key = arch_key(arch, "attention.temperature_scale"@);
    let floor = arch_key(arch, "attention.temperature_length"@);
    match file.meta_f32(key) {
        Some(bits) if reads_temperature(arch) && nonzero_float(bits) => Some(
            LoadFault::UnsupportedFeature(
                arch,
                TEMPERATURE@[0]@ + key + TEMPERATURE@[1]@ + written_out(
                    file.meta_f32_text(key)->0,
                ) + TEMPERATURE@[2]@ + floor_chars(floor, file.meta_u64(floor)) + NO_TEMPERATURE@,
            ),
        ),
        _ => None,
    }
}

/// The first of the keys every file must hold that this one lacks.
pub open spec fn required_key_fault(file: GgufFile, arch: Seq<char>) -> Option<LoadFault> {
    first_fault(
        missing_u64(file, arch_key(arch, "embedding_length"@)),
        first_fault(
            missing_u64(file, arch_key(arch, "feed_forward_length"@)),
            missing_u64(file, arch_key(arch, "attention.head_count"@)),
        ),
    )
}

/// Why the low-rank widths cannot be read.
pub open spec fn rank_fault(file: GgufFile, arch: Seq<char>, row: MlaArch) -> Option<LoadFault> {
    first_fault(
        if reads_q_rank(row, trunk_count(file, arch), declared_vocab(file, arch)) {
            missing_u64(file, arch_key(arch, "attention.q_lora_rank"@))
        } else {
            None
        },
        missing_u64(file, arch_key(arch, "attention.kv_lora_rank"@)),
    )
}

/// Why a file is refused before any tensor is read, in the order in
/// which the reasons are looked for.
pub open spec fn hparams_fault(file: GgufFile) -> Option<LoadFault> {
    match file.meta_str(ARCH_KEY@) {
        None => Some(LoadFault::MissingHparam(ARCH_KEY@)),
        Some(arch) => match mla_row(arch) {
            None => Some(LoadFault::UnsupportedArchitecture(arch)),
            Some(row) => first_fault(
                missing_u64(file, arch_key(arch, "block_count"@)),
                first_fault(
                    trunk_fault(
                        file,
                        arch,
                        file.meta_u64(arch_key(arch, "block_count"@))->0 as usize,
                    ),
                    first_fault(
                        required_key_fault(file, arch),
                        first_fault(
                            rank_fault(file, arch, row),
                            first_fault(
                                head_width_fault(file, arch),
                                first_fault(
                                    scaling_fault(file, arch),
                                    temperature_fault(file, arch),
                                ),
                            ),
                        ),
                    ),
                ),
            ),
        },
    }
}

/// What the hyperparameters of a file that is not refused are.
pub open spec fn hparams_are(file: GgufFile, hp: Deepseek2Hparams) -> bool {
    let arch = hp.arch@;
    let n_layer = trunk_count(file, arch);
    let ffn_dim = file.meta_u64(arch_key(arch, "feed_forward_length"@))->0 as usize;
    let n_expert = u64_or(file.meta_u64(arch_key(arch, "expert_count"@)), 0);
    &&& file.meta_str(ARCH_KEY@) == Some(arch)
    &&& mla_row(arch) == Some(hp.row)
    &&& hp.n_layer == n_layer
    &&& hp.hidden_dim == file.meta_u64(arch_key(arch, "embedding_length"@))->0 as usize
    &&& hp.ffn_dim == ffn_dim
    &&& hp.n_heads == file.meta_u64(arch_key(arch, "attention.head_count"@))->0 as usize
    &&& hp.q_lora_rank == (if reads_q_rank(hp.row, n_layer, declared_vocab(file, arch))
        && file.meta_u64(arch_key(arch, "attention.q_lora_rank"@))->0 as usize != 0 {
        Some(file.meta_u64(arch_key(arch, "attention.q_lora_rank"@))->0 as usize)
    } else {
        None
    })
    &&& hp.kv_lora_rank == file.meta_u64(arch_key(arch, "attention.kv_lora_rank"@))->0 as usize
    &&& hp.qk_nope_head_dim == nope_width(file, arch)
    &&& hp.qk_rope_head_dim == rope_width(file, arch)->0 as usize
    &&& hp.v_head_dim == value_width(file, arch)
    &&& hp.rms_norm_eps == f32_or(
        file.meta_f32(arch_key(arch, "attention.layer_norm_rms_epsilon"@)),
        EPS_1E_6,
    )
    &&& hp.rope_theta == f32_or(file.meta_f32(arch_key(arch, "rope.freq_base"@)), THETA_1E4)
    &&& hp.leading_dense_block_count == smaller(
        u64_or(file.meta_u64(arch_key(arch, "leading_dense_block_count"@)), n_layer as int),
        n_layer,
    )
    &&& hp.n_expert == n_expert
    &&& hp.n_expert_used == smaller(
        u64_or(
            file.meta_u64(arch_key(arch, "expert_used_count"@)),
            if n_expert > 0 {
                6
            } else {
                0
            },
        ),
        larger(n_expert, 1),
    )
    &&& hp.n_shared_experts == larger(
        u64_or(file.meta_u64(arch_key(arch, "expert_shared_count"@)), 1),
        1,
    )
    &&& hp.expert_ffn_dim == u64_or(
        file.meta_u64(arch_key(arch, "expert_feed_forward_length"@)),
        ffn_dim as int,
    )
    &&& hp.gating == gating_of(file, arch, n_layer)
    &&& hp.norm_topk_prob == (file.meta_u64(arch_key(arch, "expert_weights_norm"@)) != Some(0u64))
    &&& hp.expert_weights_scale == f32_or(
        file.meta_f32(arch_key(arch, "expert_weights_scale"@)),
        ONE_BITS,
    )
}

fn read_vocab(file: &GgufFile, arch: &str) -> (n: usize)
    ensures
        n == declared_vocab(*file, arch@),
{
    match file.metadata_u64(arch_key_text(arch, "vocab_size").as_str()) {
        Some(n) => n as usize,
        None => match file.metadata("tokenizer.ggml.tokens") {
            Some(GgufValue::Array(items)) => items.len(),
            _ => 0,
        },
    }
}

fn read_rope_width(file: &GgufFile, arch: &str) -> (n: Result<usize, LoadError>)
    ensures
        match rope_width(*file, arch@) {
            Some(w) => n is Ok && n->Ok_0 == w as usize,
            None => n is Err && n->Err_0@ == LoadFault::MissingHparam(
                arch_key(arch@, "attention.qk_rope_head_dim"@),
            ),
        },
{
    match file.metadata_u64(arch_key_text(arch, "rope.dimension_count").as_str()) {
        Some(n) => Ok(n as usize),
        None => {
            let n = file.required_u64(
                arch_key_text(arch, "attention.qk_rope_head_dim").as_str(),
            )?;
            Ok(n as usize)
        },
    }
}

fn read_nope_width(file: &GgufFile, arch: &str, rope: usize) -> (n: Result<usize, LoadError>)
    requires
        rope_width(*file, arch@) is Some,
        rope == rope_width(*file, arch@)->0 as usize,
    ensures
        match head_width_fault(*file, arch@) {
            Some(fault) => n is Err && n->Err_0@ == fault,
            None => n is Ok && n->Ok_0 == nope_width(*file, arch@),
        },
{
    let mla_key = arch_key_text(arch, "attention.key_length_mla");
    let plain_key = arch_key_text(arch, "attention.key_length");
    let (declared, key) = match file.metadata_u64(mla_key.as_str()) {
        Some(n) => (Some(n), mla_key),
        None => (file.metadata_u64(plain_key.as_str()), plain_key),
    };
    match declared {
        Some(n) => {
            let width: usize = n as usize;
            if width > rope {
                Ok(width - rope)
            } else {
                Err(
                    LoadError::MissingHparam(
                        key.concat(KEY_TOO_SHORT[0]).concat(decimal_text(n).as_str()).concat(
                            KEY_TOO_SHORT[1],
                        ).concat(decimal_text(rope as u64).as_str()).concat(KEY_TOO_SHORT[2]),
                    ),
                )
            }
        },
        None => {
            let n = file.required_u64(
                arch_key_text(arch, "attention.qk_nope_head_dim").as_str(),
            )?;
            Ok(n as usize)
        },
    }
}

fn read_value_width(file: &GgufFile, arch: &str, nope: usize) -> (n: usize)
    requires
        nope == nope_width(*file, arch@),
    ensures
        n == value_width(*file, arch@),
{
    match file.metadata_u64(arch_key_text(arch, "attention.value_length_mla").as_str()) {
        Some(n) => n as usize,
        None => match file.metadata_u64(arch_key_text(arch, "attention.value_length").as_str()) {
            Some(n) => n as usize,
            None => file.usize_or(arch_key_text(arch, "attention.v_head_dim").as_str(), nope),
        },
    }
}

fn read_gating(file: &GgufFile, arch: &str, n_layer: usize) -> (g: GatingFunction)
    ensures
        g == gating_of(*file, arch@, n_layer),
{
    match file.metadata_u64(arch_key_text(arch, "expert_gating_func").as_str()) {
        Some(2) => GatingFunction::Sigmoid,
        Some(1) => GatingFunction::Softmax,
        _ => {
            if n_layer == 47 || n_layer == 48 {
                match file.find_tensor("token_embd.weight") {
                    Some(t) => {
                        let dims = t.shape.len();
                        if dims > 0 && t.shape[dims - 1] == 154880 {
                            GatingFunction::Sigmoid
                        } else {
                            GatingFunction::Softmax
                        }
                    },
                    None => GatingFunction::Softmax,
                }
            } else {
                GatingFunction::Softmax
            }
        },
    }
}

fn refuse_scaling(file: &GgufFile, arch: &str) -> (r: Result<(), LoadError>)
    ensures
        match scaling_fault(*file, arch@) {
            Some(fault) => r is Err && r->Err_0@ == fault,
            None => r is Ok,
        },
{
    let key = arch_key_text(arch, "rope.scaling.type");
    match file.metadata_str(key.as_str()) {
        Some(kind) => {
            if str_eq(kind, "none") {
                Ok(())
            } else {
                Err(
                    LoadError::UnsupportedFeature(
                        String::from_str(arch),
                        String::from_str(ROPE_SCALING[0]).concat(key.as_str()).concat(
                            ROPE_SCALING[1],
                        ).concat(kind).concat(ROPE_SCALING[2]),
                    ),
                )
            }
        },
        None => Ok(()),
    }
}

fn floor_text(key: &str, length: Option<u64>) -> (t: String)
    ensures
        t@ == floor_chars(key@, length),
{
    match length {
        Some(n) => String::from_str(TEMPERATURE_FLOOR[0]).concat(key).concat(
            TEMPERATURE_FLOOR[1],
        ).concat(decimal_text(n).as_str()).concat(TEMPERATURE_FLOOR[2]),
        None => String::new(),
    }
}

fn refuse_temperature(file: &GgufFile, arch: &str) -> (r: Result<(), LoadError>)
    ensures
        match temperature_fault(*file, arch@) {
            Some(fault) => r is Err && r->Err_0@ == fault,
            None => r is Ok,
        },
{
    if !(str_eq(arch, "deepseek2") || str_eq(arch, "mistral4")) {
        return Ok(());
    }
    let key = arch_key_text(arch, "attention.temperature_scale");
    match file.metadata_float(key.as_str()) {
        Some((bits, text)) => {
            if bits != 0 && bits != 0x8000_0000 {
                let floor = arch_key_text(arch, "attention.temperature_length");
                let why = String::from_str(TEMPERATURE[0]).concat(key.as_str()).concat(
                    TEMPERATURE[1],
                ).concat(written_out_text(text).as_str()).concat(TEMPERATURE[2]).concat(
                    floor_text(floor.as_str(), file.metadata_u64(floor.as_str())).as_str(),
                ).concat(NO_TEMPERATURE);
                Err(LoadError::UnsupportedFeature(String::from_str(arch), why))
            } else {
                Ok(())
            }
        },
        None => Ok(()),
    }
}

/// Reads the hyperparameters of a DeepSeek-2, Mistral-4 or PLM file.
pub fn read_deepseek2_hparams(file: &GgufFile) -> (hp: Result<Deepseek2Hparams, LoadError>)
    ensures
        match hparams_fault(*file) {
            Some(fault) => hp is Err && hp->Err_0@ == fault,
            None => hp is Ok && hparams_are(*file, hp->Ok_0),
        },
        hp is Ok ==> {
            let read = hp->Ok_0;
            let mla = file.meta_u64(read.arch@ + "."@ + "attention.key_length_mla"@);
            let plain = file.meta_u64(read.arch@ + "."@ + "attention.key_length"@);
            &&& mla is Some ==> read.qk_nope_head_dim + read.qk_rope_head_dim == mla->0 as usize
            &&& mla is None && plain is Some ==> read.qk_nope_head_dim + read.qk_rope_head_dim
                == plain->0 as usize
        },
{
    let arch = file.required_str(ARCH_KEY)?;
    let row = match mla_arch(arch) {
        Some(row) => row,
        None => {
            return Err(LoadError::UnsupportedArchitecture(String::from_str(arch)));
        },
    };
    let block_count = file.required_u64(arch_key_text(arch, "block_count").as_str())?;
    let trunk = trunk_layers(file, arch, block_count as usize)?;
    let n_layer = trunk.n_layers;
    let hidden_dim = file.required_u64(arch_key_text(arch, "embedding_length").as_str())?;
    let declared_ffn = file.required_u64(arch_key_text(arch, "feed_forward_length").as_str())?;
    let ffn_dim: usize = declared_ffn as usize;
    let n_heads = file.required_u64(arch_key_text(arch, "attention.head_count").as_str())?;
    let n_vocab = read_vocab(file, arch);
    let low_rank = match row.q_proj {
        QProjRule::Direct => false,
        QProjRule::LoraUnlessLite => !is_lite(n_layer, n_vocab),
    };
    let q_lora_rank: Option<usize> = if low_rank {
        let rank = file.required_u64(arch_key_text(arch, "attention.q_lora_rank").as_str())?;
        if rank as usize == 0 {
            None
        } else {
            Some(rank as usize)
        }
    } else {
        None
    };
    let kv_lora_rank = file.required_u64(arch_key_text(arch, "attention.kv_lora_rank").as_str())?;
    let qk_rope_head_dim = read_rope_width(file, arch)?;
    let qk_nope_head_dim = read_nope_width(file, arch, qk_rope_head_dim)?;
    let v_head_dim = read_value_width(file, arch, qk_nope_head_dim);
    let leading_dense = file.usize_or(
        arch_key_text(arch, "leading_dense_block_count").as_str(),
        n_layer,
    );
    let n_expert = file.usize_or(arch_key_text(arch, "expert_count").as_str(), 0);
    let n_expert_used = file.usize_or(
        arch_key_text(arch, "expert_used_count").as_str(),
        if n_expert > 0 {
            6
        } else {
            0
        },
    );
    let n_shared_experts = file.usize_or(arch_key_text(arch, "expert_shared_count").as_str(), 1);
    let expert_ffn_dim = file.usize_or(
        arch_key_text(arch, "expert_feed_forward_length").as_str(),
        ffn_dim,
    );
    let rms_norm_eps = file.bits_or(
        arch_key_text(arch, "attention.layer_norm_rms_epsilon").as_str(),
        EPS_1E_6,
    );
    let rope_theta = file.bits_or(arch_key_text(arch, "rope.freq_base").as_str(), THETA_1E4);
    refuse_scaling(file, arch)?;
    let gating = read_gating(file, arch, n_layer);
    let norm_topk_prob = match file.metadata_u64(
        arch_key_text(arch, "expert_weights_norm").as_str(),
    ) {
        Some(n) => n != 0,
        None => true,
    };
    let expert_weights_scale = file.bits_or(
        arch_key_text(arch, "expert_weights_scale").as_str(),
        ONE_BITS,
    );
    refuse_temperature(file, arch)?;
    let used_limit: usize = if n_expert >= 1 {
        n_expert
    } else {
        1
    };
    Ok(
        Deepseek2Hparams {
            arch: String::from_str(arch),
            row,
            n_layer,
            hidden_dim: hidden_dim as usize,
            ffn_dim,
            n_heads: n_heads as usize,
            q_lora_rank,
            kv_lora_rank: kv_lora_rank as usize,
            qk_nope_head_dim,
            qk_rope_head_dim,
            v_head_dim,
            rms_norm_eps,
            rope_theta,
            leading_dense_block_count: if leading_dense <= n_layer {
                leading_dense
            } else {
                n_layer
            },
            n_expert,
            n_expert_used: if n_expert_used <= used_limit {
                n_expert_used
            } else {
                used_limit
            },
            n_shared_experts: if n_shared_experts >= 1 {
                n_shared_experts
            } else {
                1
            },
            expert_ffn_dim,
            gating,
            norm_topk_prob,
            expert_weights_scale,
        },
    )
}

/// The name of a Q projection rule, as messages write it.
pub open spec fn rule_chars(rule: QProjRule) -> Seq<char> {
    match rule {
        QProjRule::LoraUnlessLite => "LoraUnlessLite"@,
        QProjRule::Direct => "Direct"@,
    }
}

fn rule_text(rule: QProjRule) -> (t: &'static str)
    ensures
        t@ == rule_chars(rule),
{
    match rule {
        QProjRule::LoraUnlessLite => "LoraUnlessLite",
        QProjRule::Direct => "Direct",
    }
}

/// The refusal of a low-rank tensor beside a direct Q, round the rule.
pub const STRAY_LOW_RANK: [&'static str; 2] = [
    " is present but this file projects Q directly (",
    ", `crate::mla_arch`): llama.cpp creates `attn_q` OR the low-rank pair, never both \
     (src/models/deepseek2.cpp:104-115; plm.cpp:32)",
];

/// The refusal of a K/V pair whose heads have other shapes than the keys
/// say, round the two names, the head, the four widths found and the
/// four expected.
pub const PAIR_SHAPE: [&'static str; 11] = [
    " / ",
    " head ",
    ": k_b is ",
    "x",
    ", v_b is ",
    "x",
    "; expected k_b [kv_lora_rank ",
    ", qk_nope ",
    "] and v_b [v_head ",
    ", kv_lora_rank ",
    "] (deepseek2.cpp:120-122)",
];

/// The refusal of a layer with neither form of K/V decompression, round
/// the names of the pair.
pub const NO_KV_B: [&'static str; 3] = [" (or the split ", " / ", ")"];

/// The refusal of a layer with a mix of the two forms, round the layer
/// and which of the three tensors it has.
pub const MIXED_KV_B: [&'static str; 5] = [
    "layer ",
    " carries attn_kv_b=",
    ", attn_k_b=",
    ", attn_v_b=",
    ": llama.cpp creates the combined tensor OR the split pair (deepseek2.cpp:118-123), never a mix",
];

/// Why a tensor that a direct Q must not have beside it is refused.
pub open spec fn stray_fault(file: GgufFile, hp: Deepseek2Hparams, name: Seq<char>) -> Option<
    LoadFault,
> {
    if file.has(name) {
        Some(
            LoadFault::UnsupportedFeature(
                hp.arch@,
                name + STRAY_LOW_RANK@[0]@ + rule_chars(hp.row.q_proj) + STRAY_LOW_RANK@[1]@,
            ),
        )
    } else {
        None
    }
}

/// Why a layer's Q projection cannot be loaded.
pub open spec fn q_fault(file: GgufFile, hp: Deepseek2Hparams, l: nat) -> Option<LoadFault> {
    match hp.q_lora_rank {
        Some(_) => first_fault(
            matrix_fault(file, block_name(l, "attn_q_a.weight"@)),
            first_fault(
                optional_vector_fault(file, block_name(l, "attn_q_a_norm.weight"@)),
                matrix_fault(file, block_name(l, "attn_q_b.weight"@)),
            ),
        ),
        None => first_fault(
            stray_fault(file, hp, block_name(l, "attn_q_a.weight"@)),
            first_fault(
                stray_fault(file, hp, block_name(l, "attn_q_b.weight"@)),
                first_fault(
                    stray_fault(file, hp, block_name(l, "attn_q_a_norm.weight"@)),
                    matrix_fault(file, block_name(l, "attn_q.weight"@)),
                ),
            ),
        ),
    }
}

/// Whether `v` is the optional norm `name`, or all ones where the file
/// has none.
pub open spec fn is_norm_or_ones(file: GgufFile, name: Seq<char>, width: nat, v: Seq<u32>) -> bool {
    v == (if file.has(name) {
        vector_of(file, name)
    } else {
        Seq::new(width, |i: int| ONE_BITS)
    })
}

/// What a layer's Q projection is.
pub open spec fn q_is(file: GgufFile, hp: Deepseek2Hparams, l: nat, q: MlaQProj) -> bool {
    match hp.q_lora_rank {
        Some(rank) => match q {
            MlaQProj::LowRank { a, norm, b } => {
                &&& a.is_tensor(file, block_name(l, "attn_q_a.weight"@))
                &&& is_norm_or_ones(
                    file,
                    block_name(l, "attn_q_a_norm.weight"@),
                    rank as nat,
                    norm@,
                )
                &&& b.is_tensor(file, block_name(l, "attn_q_b.weight"@))
            },
            _ => false,
        },
        None => match q {
            MlaQProj::Direct(w) => w.is_tensor(file, block_name(l, "attn_q.weight"@)),
            _ => false,
        },
    }
}

fn refuse_stray(file: &GgufFile, hp: &Deepseek2Hparams, name: &str) -> (r: Result<(), LoadError>)
    ensures
        match stray_fault(*file, *hp, name@) {
            Some(fault) => r is Err && r->Err_0@ == fault,
            None => r is Ok,
        },
{
    if file.has_tensor(name) {
        Err(
            LoadError::UnsupportedFeature(
                String::from_str(hp.arch.as_str()),
                String::from_str(name).concat(STRAY_LOW_RANK[0]).concat(
                    rule_text(hp.row.q_proj),
                ).concat(STRAY_LOW_RANK[1]),
            ),
        )
    } else {
        Ok(())
    }
}

fn norm_or_ones(file: &GgufFile, name: &str, width: usize) -> (v: Result<Vec<u32>, LoadError>)
    ensures
        match optional_vector_fault(*file, name@) {
            Some(fault) => v is Err && v->Err_0@ == fault,
            None => v is Ok && is_norm_or_ones(*file, name@, width as nat, v->Ok_0@),
        },
{
    match load_f32_vec_optional(file, name)? {
        Some(v) => Ok(v),
        None => Ok(ones(width)),
    }
}

fn load_q_proj(file: &GgufFile, l: usize, hp: &Deepseek2Hparams) -> (q: Result<
    MlaQProj,
    LoadError,
>)
    ensures
        match q_fault(*file, *hp, l as nat) {
            Some(fault) => q is Err && q->Err_0@ == fault,
            None => q is Ok && q_is(*file, *hp, l as nat, q->Ok_0),
        },
{
    match hp.q_lora_rank {
        Some(rank) => {
            let a = load_weight_matrix(file, block_name_text(l, "attn_q_a.weight").as_str())?;
            let norm = norm_or_ones(
                file,
                block_name_text(l, "attn_q_a_norm.weight").as_str(),
                rank,
            )?;
            let b = load_weight_matrix(file, block_name_text(l, "attn_q_b.weight").as_str())?;
            Ok(MlaQProj::LowRank { a, norm, b })
        },
        None => {
            refuse_stray(file, hp, block_name_text(l, "attn_q_a.weight").as_str())?;
            refuse_stray(file, hp, block_name_text(l, "attn_q_b.weight").as_str())?;
            refuse_stray(file, hp, block_name_text(l, "attn_q_a_norm.weight").as_str())?;
            let w = load_weight_matrix(file, block_name_text(l, "attn_q.weight").as_str())?;
            Ok(MlaQProj::Direct(w))
        },
    }
}

/// Whether the first head of the K/V pair has the widths the keys say.
/// Every head of a tensor has the same ones.
pub open spec fn pair_fits(file: GgufFile, hp: Deepseek2Hparams, k_b: Seq<char>, v_b: Seq<char>) -> bool {
    &&& file.tensor(k_b)->0.shape@[1] as usize == hp.kv_lora_rank
    &&& file.tensor(k_b)->0.shape@[0] as usize == hp.qk_nope_head_dim
    &&& file.tensor(v_b)->0.shape@[1] as usize == hp.v_head_dim
    &&& file.tensor(v_b)->0.shape@[0] as usize == hp.kv_lora_rank
}

/// The refusal of a K/V pair whose heads do not fit.
pub open spec fn pair_refusal(
    file: GgufFile,
    hp: Deepseek2Hparams,
    k_b: Seq<char>,
    v_b: Seq<char>,
) -> Seq<char> {
    k_b + PAIR_SHAPE@[0]@ + v_b + PAIR_SHAPE@[1]@ + decimal(0) + PAIR_SHAPE@[2]@ + decimal(
        file.tensor(k_b)->0.shape@[1] as usize as nat,
    ) + PAIR_SHAPE@[3]@ + decimal(file.tensor(k_b)->0.shape@[0] as usize as nat)
        + PAIR_SHAPE@[4]@ + decimal(file.tensor(v_b)->0.shape@[1] as usize as nat)
        + PAIR_SHAPE@[5]@ + decimal(file.tensor(v_b)->0.shape@[0] as usize as nat)
        + PAIR_SHAPE@[6]@ + decimal(hp.kv_lora_rank as nat) + PAIR_SHAPE@[7]@ + decimal(
        hp.qk_nope_head_dim as nat,
    ) + PAIR_SHAPE@[8]@ + decimal(hp.v_head_dim as nat) + PAIR_SHAPE@[9]@ + decimal(
        hp.kv_lora_rank as nat,
    ) + PAIR_SHAPE@[10]@
}

/// Why a layer's K/V decompression cannot be loaded: the file must have
/// the combined tensor alone, or both halves of the pair and no combined
/// tensor, and the pair must fit.
pub open spec fn kv_b_fault(file: GgufFile, hp: Deepseek2Hparams, l: nat) -> Option<LoadFault> {
    let combined = block_name(l, "attn_kv_b.weight"@);
    let k_b = block_name(l, "attn_k_b.weight"@);
    let v_b = block_name(l, "attn_v_b.weight"@);
    if file.has(combined) && !file.has(k_b) && !file.has(v_b) {
        matrix_fault(file, combined)
    } else if !file.has(combined) && file.has(k_b) && file.has(v_b) {
        first_fault(
            parts_fault(file, k_b, hp.n_heads),
            first_fault(
                parts_fault(file, v_b, hp.n_heads),
                if hp.n_heads == 0 || pair_fits(file, hp, k_b, v_b) {
                    None
                } else {
                    Some(
                        LoadFault::UnsupportedFeature(
                            hp.arch@,
                            pair_refusal(file, hp, k_b, v_b),
                        ),
                    )
                },
            ),
        )
    } else if !file.has(combined) && !file.has(k_b) && !file.has(v_b) {
        Some(
            LoadFault::TensorNotFound(
                combined + NO_KV_B@[0]@ + k_b + NO_KV_B@[1]@ + v_b + NO_KV_B@[2]@,
            ),
        )
    } else {
        Some(
            LoadFault::UnsupportedFeature(
                hp.arch@,
                MIXED_KV_B@[0]@ + decimal(l) + MIXED_KV_B@[1]@ + bool_chars(file.has(combined))
                    + MIXED_KV_B@[2]@ + bool_chars(file.has(k_b)) + MIXED_KV_B@[3]@ + bool_chars(
                    file.has(v_b),
                ) + MIXED_KV_B@[4]@,
            ),
        )
    }
}

/// What a layer's K/V decompression is.
pub open spec fn kv_b_is(file: GgufFile, hp: Deepseek2Hparams, l: nat, kv_b: MlaKvB) -> bool {
    let combined = block_name(l, "attn_kv_b.weight"@);
    match kv_b {
        MlaKvB::Combined(w) => file.has(combined) && w.is_tensor(file, combined),
        MlaKvB::Split { k_b, v_b } => {
            &&& !file.has(combined)
            &&& are_parts(file, k_b@, block_name(l, "attn_k_b.weight"@), hp.n_heads)
            &&& are_parts(file, v_b@, block_name(l, "attn_v_b.weight"@), hp.n_heads)
        },
    }
}

fn load_kv_b(file: &GgufFile, l: usize, hp: &Deepseek2Hparams) -> (kv_b: Result<MlaKvB, LoadError>)
    ensures
        match kv_b_fault(*file, *hp, l as nat) {
            Some(fault) => kv_b is Err && kv_b->Err_0@ == fault,
            None => kv_b is Ok && kv_b_is(*file, *hp, l as nat, kv_b->Ok_0),
        },
{
    let combined = block_name_text(l, "attn_kv_b.weight");
    let k_name = block_name_text(l, "attn_k_b.weight");
    let v_name = block_name_text(l, "attn_v_b.weight");
    let has_combined = file.has_tensor(combined.as_str());
    let has_k = file.has_tensor(k_name.as_str());
    let has_v = file.has_tensor(v_name.as_str());
    if has_combined && !has_k && !has_v {
        let w = load_weight_matrix(file, combined.as_str())?;
        Ok(MlaKvB::Combined(w))
    } else if !has_combined && has_k && has_v {
        let k_b = split_expert_tensor(file, k_name.as_str(), hp.n_heads)?;
        let v_b = split_expert_tensor(file, v_name.as_str(), hp.n_heads)?;
        if hp.n_heads > 0 {
            let k_rows = k_b[0].rows();
            let k_cols = k_b[0].cols();
            let v_rows = v_b[0].rows();
            let v_cols = v_b[0].cols();
            if k_rows != hp.kv_lora_rank || k_cols != hp.qk_nope_head_dim || v_rows
                != hp.v_head_dim || v_cols != hp.kv_lora_rank {
                let found = k_name.concat(PAIR_SHAPE[0]).concat(v_name.as_str()).concat(
                    PAIR_SHAPE[1],
                ).concat(decimal_text(0).as_str()).concat(PAIR_SHAPE[2]).concat(
                    decimal_text(k_rows as u64).as_str(),
                ).concat(PAIR_SHAPE[3]).concat(decimal_text(k_cols as u64).as_str()).concat(
                    PAIR_SHAPE[4],
                ).concat(decimal_text(v_rows as u64).as_str()).concat(PAIR_SHAPE[5]).concat(
                    decimal_text(v_cols as u64).as_str(),
                );
                let why = found.concat(PAIR_SHAPE[6]).concat(
                    decimal_text(hp.kv_lora_rank as u64).as_str(),
                ).concat(PAIR_SHAPE[7]).concat(
                    decimal_text(hp.qk_nope_head_dim as u64).as_str(),
                ).concat(PAIR_SHAPE[8]).concat(decimal_text(hp.v_head_dim as u64).as_str()).concat(
                    PAIR_SHAPE[9],
                ).concat(decimal_text(hp.kv_lora_rank as u64).as_str()).concat(PAIR_SHAPE[10]);
                return Err(
                    LoadError::UnsupportedFeature(String::from_str(hp.arch.as_str()), why),
                );
            }
        }
        Ok(MlaKvB::Split { k_b, v_b })
    } else if !has_combined && !has_k && !has_v {
        Err(
            LoadError::Gguf(
                GgufError::TensorNotFound(
                    combined.concat(NO_KV_B[0]).concat(k_name.as_str()).concat(NO_KV_B[1]).concat(
                        v_name.as_str(),
                    ).concat(NO_KV_B[2]),
                ),
            ),
        )
    } else {
        Err(
            LoadError::UnsupportedFeature(
                String::from_str(hp.arch.as_str()),
                String::from_str(MIXED_KV_B[0]).concat(decimal_text(l as u64).as_str()).concat(
                    MIXED_KV_B[1],
                ).concat(bool_text(has_combined)).concat(MIXED_KV_B[2]).concat(
                    bool_text(has_k),
                ).concat(MIXED_KV_B[3]).concat(bool_text(has_v)).concat(MIXED_KV_B[4]),
            ),
        )
    }
}

/// Why a layer's attention cannot be loaded.
pub open spec fn attn_fault(file: GgufFile, hp: Deepseek2Hparams, l: nat) -> Option<LoadFault> {
    first_fault(
        q_fault(file, hp, l),
        first_fault(
            matrix_fault(file, block_name(l, "attn_kv_a_mqa.weight"@)),
            first_fault(
                matrix_fault(file, block_name(l, "attn_output.weight"@)),
                first_fault(
                    kv_b_fault(file, hp, l),
                    optional_vector_fault(file, block_name(l, "attn_kv_a_norm.weight"@)),
                ),
            ),
        ),
    )
}

/// What a layer's attention is.
pub open spec fn attn_is(file: GgufFile, hp: Deepseek2Hparams, l: nat, w: MlaAttnWeights) -> bool {
    &&& q_is(file, hp, l, w.q)
    &&& w.kv_a_proj_with_mqa.is_tensor(file, block_name(l, "attn_kv_a_mqa.weight"@))
    &&& is_norm_or_ones(
        file,
        block_name(l, "attn_kv_a_norm.weight"@),
        hp.kv_lora_rank as nat,
        w.kv_a_layernorm@,
    )
    &&& kv_b_is(file, hp, l, w.kv_b)
    &&& w.o_proj.is_tensor(file, block_name(l, "attn_output.weight"@))
    &&& w.g_proj is None
}

/// Loads a layer's attention.
pub fn load_mla_attn(file: &GgufFile, l: usize, hp: &Deepseek2Hparams) -> (w: Result<
    MlaAttnWeights,
    LoadError,
>)
    ensures
        match attn_fault(*file, *hp, l as nat) {
            Some(fault) => w is Err && w->Err_0@ == fault,
            None => w is Ok && attn_is(*file, *hp, l as nat, w->Ok_0),
        },
{
    let q = load_q_proj(file, l, hp)?;
    let kv_a = load_weight_matrix(file, block_name_text(l, "attn_kv_a_mqa.weight").as_str())?;
    let o_proj = load_weight_matrix(file, block_name_text(l, "attn_output.weight").as_str())?;
    let kv_b = load_kv_b(file, l, hp)?;
    let kv_a_norm = norm_or_ones(
        file,
        block_name_text(l, "attn_kv_a_norm.weight").as_str(),
        hp.kv_lora_rank,
    )?;
    Ok(
        MlaAttnWeights {
            q,
            kv_a_proj_with_mqa: kv_a,
            kv_a_layernorm: kv_a_norm,
            kv_b,
            o_proj,
            g_proj: None,
        },
    )
}

/// The refusal of a gate beside an ungated feed-forward.
pub const STRAY_GATE: &'static str = " is present but this architecture's dense FFN is ungated (ReluSqr: \
     LLM_FFN_RELU_SQR under LLM_FFN_SEQ with a null gate, plm.cpp:181-187)";

/// Why a layer's dense feed-forward cannot be loaded.
pub open spec fn dense_fault(file: GgufFile, hp: Deepseek2Hparams, l: nat) -> Option<LoadFault> {
    let gate = block_name(l, "ffn_gate.weight"@);
    let up = block_name(l, "ffn_up.weight"@);
    first_fault(
        if hp.row.dense_act.ungated() {
            if file.has(gate) {
                Some(LoadFault::UnsupportedFeature(hp.arch@, gate + STRAY_GATE@))
            } else {
                matrix_fault(file, up)
            }
        } else {
            matrix_fault(file, gate)
        },
        first_fault(
            matrix_fault(file, up),
            matrix_fault(file, block_name(l, "ffn_down.weight"@)),
        ),
    )
}

/// What a layer's dense feed-forward is; where there is no gate, the
/// gate is the `ffn_up` tensor again.
pub open spec fn dense_is(file: GgufFile, hp: Deepseek2Hparams, l: nat, w: MlaDenseFfn) -> bool {
    let up = block_name(l, "ffn_up.weight"@);
    &&& w.act == hp.row.dense_act
    &&& w.weights.gate.is_tensor(
        file,
        if hp.row.dense_act.ungated() {
            up
        } else {
            block_name(l, "ffn_gate.weight"@)
        },
    )
    &&& w.weights.up.is_tensor(file, up)
    &&& w.weights.down.is_tensor(file, block_name(l, "ffn_down.weight"@))
}

/// Loads a layer's dense feed-forward.
pub fn load_dense_ffn(file: &GgufFile, l: usize, hp: &Deepseek2Hparams) -> (w: Result<
    MlaDenseFfn,
    LoadError,
>)
    ensures
        match dense_fault(*file, *hp, l as nat) {
            Some(fault) => w is Err && w->Err_0@ == fault,
            None => w is Ok && dense_is(*file, *hp, l as nat, w->Ok_0),
        },
{
    let act = hp.row.dense_act;
    let gate_name = block_name_text(l, "ffn_gate.weight");
    let up_name = block_name_text(l, "ffn_up.weight");
    let gate = if act.is_ungated() {
        if file.has_tensor(gate_name.as_str()) {
            return Err(
                LoadError::UnsupportedFeature(
                    String::from_str(hp.arch.as_str()),
                    gate_name.concat(STRAY_GATE),
                ),
            );
        }
        load_weight_matrix(file, up_name.as_str())?
    } else {
        load_weight_matrix(file, gate_name.as_str())?
    };
    let up = load_weight_matrix(file, up_name.as_str())?;
    let down = load_weight_matrix(file, block_name_text(l, "ffn_down.weight").as_str())?;
    Ok(MlaDenseFfn { weights: ExpertWeights { gate, up, down }, act })
}

/// The first of a routed layer's tensors that the file lacks.
pub open spec fn moe_presence_fault(file: GgufFile, l: nat) -> Option<LoadFault> {
    first_fault(
        presence_fault(file, block_name(l, "ffn_gate_inp.weight"@)),
        first_fault(
            presence_fault(file, block_name(l, "ffn_gate_exps.weight"@)),
            first_fault(
                presence_fault(file, block_name(l, "ffn_up_exps.weight"@)),
                first_fault(
                    presence_fault(file, block_name(l, "ffn_down_exps.weight"@)),
                    first_fault(
                        presence_fault(file, block_name(l, "ffn_gate_shexp.weight"@)),
                        first_fault(
                            presence_fault(file, block_name(l, "ffn_up_shexp.weight"@)),
                            presence_fault(file, block_name(l, "ffn_down_shexp.weight"@)),
                        ),
                    ),
                ),
            ),
        ),
    )
}

/// Why the shared expert cannot be loaded.
pub open spec fn shared_fault(file: GgufFile, l: nat) -> Option<LoadFault> {
    first_fault(
        matrix_fault(file, block_name(l, "ffn_gate_shexp.weight"@)),
        first_fault(
            matrix_fault(file, block_name(l, "ffn_up_shexp.weight"@)),
            matrix_fault(file, block_name(l, "ffn_down_shexp.weight"@)),
        ),
    )
}

/// Why a layer's routed feed-forward cannot be loaded: a missing tensor
/// first, whichever it is, and then what does not fit.
pub open spec fn moe_fault(file: GgufFile, hp: Deepseek2Hparams, l: nat) -> Option<LoadFault> {
    first_fault(
        moe_presence_fault(file, l),
        first_fault(
            parts_fault(file, block_name(l, "ffn_gate_exps.weight"@), hp.n_expert),
            first_fault(
                parts_fault(file, block_name(l, "ffn_up_exps.weight"@), hp.n_expert),
                first_fault(
                    parts_fault(file, block_name(l, "ffn_down_exps.weight"@), hp.n_expert),
                    first_fault(
                        shared_fault(file, l),
                        first_fault(
                            optional_vector_fault(file, block_name(l, "exp_probs_b.bias"@)),
                            matrix_fault(file, block_name(l, "ffn_gate_inp.weight"@)),
                        ),
                    ),
                ),
            ),
        ),
    )
}

/// Whether `experts` are the experts of a layer, expert `i` taking part
/// `i` of each of the three tensors.
pub open spec fn experts_are(file: GgufFile, l: nat, n: usize, experts: Seq<ExpertWeights>) -> bool {
    &&& experts.len() == n
    &&& forall|i: int|
        0 <= i < n ==> {
            let e = #[trigger] experts[i];
            &&& e.gate.is_part(file, block_name(l, "ffn_gate_exps.weight"@), i, n as int)
            &&& e.up.is_part(file, block_name(l, "ffn_up_exps.weight"@), i, n as int)
            &&& e.down.is_part(file, block_name(l, "ffn_down_exps.weight"@), i, n as int)
        }
}

/// Whether `e` is the shared expert of a layer.
pub open spec fn shared_is(file: GgufFile, l: nat, e: ExpertWeights) -> bool {
    &&& e.gate.is_tensor(file, block_name(l, "ffn_gate_shexp.weight"@))
    &&& e.up.is_tensor(file, block_name(l, "ffn_up_shexp.weight"@))
    &&& e.down.is_tensor(file, block_name(l, "ffn_down_shexp.weight"@))
}

/// What a layer's routed feed-forward is.
pub open spec fn moe_is(file: GgufFile, hp: Deepseek2Hparams, l: nat, w: MlaMoeFfn) -> bool {
    &&& w.router.is_tensor(file, block_name(l, "ffn_gate_inp.weight"@))
    &&& experts_are(file, l, hp.n_expert, w.experts@)
    &&& shared_is(file, l, w.shared_expert)
    &&& is_optional_vector(file, block_name(l, "exp_probs_b.bias"@), w.exp_probs_bias)
}

/// Pairs the parts of a layer's three expert tensors into its experts.
pub fn join_experts(
    file: &GgufFile,
    l: usize,
    n: usize,
    gates: Vec<WeightMatrix>,
    ups: Vec<WeightMatrix>,
    downs: Vec<WeightMatrix>,
) -> (experts: Vec<ExpertWeights>)
    requires
        are_parts(*file, gates@, block_name(l as nat, "ffn_gate_exps.weight"@), n),
        are_parts(*file, ups@, block_name(l as nat, "ffn_up_exps.weight"@), n),
        are_parts(*file, downs@, block_name(l as nat, "ffn_down_exps.weight"@), n),
    ensures
        experts_are(*file, l as nat, n, experts@),
{
    let mut gates = gates;
    let mut ups = ups;
    let mut downs = downs;
    let ghost all_gates = gates@;
    let ghost all_ups = ups@;
    let ghost all_downs = downs@;
    let mut reversed: Vec<ExpertWeights> = Vec::new();
    let mut left: usize = n;
    while left > 0
        invariant
            left <= n,
            are_parts(*file, all_gates, block_name(l as nat, "ffn_gate_exps.weight"@), n),
            are_parts(*file, all_ups, block_name(l as nat, "ffn_up_exps.weight"@), n),
            are_parts(*file, all_downs, block_name(l as nat, "ffn_down_exps.weight"@), n),
            gates@ == all_gates.take(left as int),
            ups@ == all_ups.take(left as int),
            downs@ == all_downs.take(left as int),
            reversed@.len() == n - left,
            forall|i: int|
                0 <= i < n - left ==> {
                    let e = #[trigger] reversed@[i];
                    &&& e.gate == all_gates[n - 1 - i]
                    &&& e.up == all_ups[n - 1 - i]
                    &&& e.down == all_downs[n - 1 - i]
                },
        decreases left,
    {
        match (gates.pop(), ups.pop(), downs.pop()) {
            (Some(gate), Some(up), Some(down)) => {
                reversed.push(ExpertWeights { gate, up, down });
            },
            _ => {},
        }
        left -= 1;
        assert(gates@ =~= all_gates.take(left as int));
        assert(ups@ =~= all_ups.take(left as int));
        assert(downs@ =~= all_downs.take(left as int));
    }
    let mut experts: Vec<ExpertWeights> = Vec::new();
    let ghost all_reversed = reversed@;
    let mut done: usize = 0;
    while done < n
        invariant
            done <= n,
            reversed@ == all_reversed.take(n - done),
            all_reversed.len() == n,
            are_parts(*file, all_gates, block_name(l as nat, "ffn_gate_exps.weight"@), n),
            are_parts(*file, all_ups, block_name(l as nat, "ffn_up_exps.weight"@), n),
            are_parts(*file, all_downs, block_name(l as nat, "ffn_down_exps.weight"@), n),
            forall|i: int|
                0 <= i < n ==> {
                    let e = #[trigger] all_reversed[i];
                    &&& e.gate == all_gates[n - 1 - i]
                    &&& e.up == all_ups[n - 1 - i]
                    &&& e.down == all_downs[n - 1 - i]
                },
            experts@.len() == done,
            forall|i: int|
                0 <= i < done ==> {
                    let e = #[trigger] experts@[i];
                    &&& e.gate == all_gates[i]
                    &&& e.up == all_ups[i]
                    &&& e.down == all_downs[i]
                },
        decreases n - done,
    {
        match reversed.pop() {
            Some(e) => {
                assert(e == all_reversed[n - done - 1]);
                experts.push(e);
            },
            None => {},
        }
        done += 1;
        assert(reversed@ =~= all_reversed.take(n - done));
    }
    assert forall|i: int| 0 <= i < n implies {
        let e = #[trigger] experts@[i];
        &&& e.gate.is_part(*file, block_name(l as nat, "ffn_gate_exps.weight"@), i, n as int)
        &&& e.up.is_part(*file, block_name(l as nat, "ffn_up_exps.weight"@), i, n as int)
        &&& e.down.is_part(*file, block_name(l as nat, "ffn_down_exps.weight"@), i, n as int)
    } by {
        assert(all_gates[i].is_part(
            *file,
            block_name(l as nat, "ffn_gate_exps.weight"@),
            i,
            n as int,
        ));
        assert(all_ups[i].is_part(*file, block_name(l as nat, "ffn_up_exps.weight"@), i, n as int));
        assert(all_downs[i].is_part(
            *file,
            block_name(l as nat, "ffn_down_exps.weight"@),
            i,
            n as int,
        ));
    }
    experts
}

/// Loads a layer's shared expert.
pub fn load_shared_expert(file: &GgufFile, l: usize) -> (e: Result<ExpertWeights, LoadError>)
    ensures
        match shared_fault(*file, l as nat) {
            Some(fault) => e is Err && e->Err_0@ == fault,
            None => e is Ok && shared_is(*file, l as nat, e->Ok_0),
        },
{
    let gate = load_weight_matrix(file, block_name_text(l, "ffn_gate_shexp.weight").as_str())?;
    let up = load_weight_matrix(file, block_name_text(l, "ffn_up_shexp.weight").as_str())?;
    let down = load_weight_matrix(file, block_name_text(l, "ffn_down_shexp.weight").as_str())?;
    Ok(ExpertWeights { gate, up, down })
}

/// Loads a layer's routed feed-forward. Every one of its tensors must be
/// there: nothing falls back to a dense block.
pub fn load_moe_ffn(file: &GgufFile, l: usize, hp: &Deepseek2Hparams) -> (w: Result<
    MlaMoeFfn,
    LoadError,
>)
    ensures
        match moe_fault(*file, *hp, l as nat) {
            Some(fault) => w is Err && w->Err_0@ == fault,
            None => w is Ok && moe_is(*file, *hp, l as nat, w->Ok_0),
        },
{
    let router_name = block_name_text(l, "ffn_gate_inp.weight");
    let gate_name = block_name_text(l, "ffn_gate_exps.weight");
    let up_name = block_name_text(l, "ffn_up_exps.weight");
    let down_name = block_name_text(l, "ffn_down_exps.weight");
    require_tensor(file, router_name.as_str())?;
    require_tensor(file, gate_name.as_str())?;
    require_tensor(file, up_name.as_str())?;
    require_tensor(file, down_name.as_str())?;
    require_tensor(file, block_name_text(l, "ffn_gate_shexp.weight").as_str())?;
    require_tensor(file, block_name_text(l, "ffn_up_shexp.weight").as_str())?;
    require_tensor(file, block_name_text(l, "ffn_down_shexp.weight").as_str())?;
    let gates = split_expert_tensor(file, gate_name.as_str(), hp.n_expert)?;
    let ups = split_expert_tensor(file, up_name.as_str(), hp.n_expert)?;
    let downs = split_expert_tensor(file, down_name.as_str(), hp.n_expert)?;
    let experts = join_experts(file, l, hp.n_expert, gates, ups, downs);
    let shared_expert = load_shared_expert(file, l)?;
    let exp_probs_bias = load_f32_vec_optional(
        file,
        block_name_text(l, "exp_probs_b.bias").as_str(),
    )?;
    let router = load_weight_matrix(file, router_name.as_str())?;
    Ok(MlaMoeFfn { router, experts, shared_expert, exp_probs_bias })
}

/// Whether a layer is dense: it is in the leading dense blocks, or the
/// file has no experts.
pub open spec fn dense_layer(hp: Deepseek2Hparams, l: nat) -> bool {
    l < hp.leading_dense_block_count || hp.n_expert == 0
}

/// Why a layer cannot be loaded.
pub open spec fn layer_fault(file: GgufFile, hp: Deepseek2Hparams, l: nat) -> Option<LoadFault> {
    first_fault(
        if dense_layer(hp, l) {
            dense_fault(file, hp, l)
        } else {
            moe_fault(file, hp, l)
        },
        first_fault(
            vector_fault(file, block_name(l, "attn_norm.weight"@)),
            first_fault(
                attn_fault(file, hp, l),
                vector_fault(file, block_name(l, "ffn_norm.weight"@)),
            ),
        ),
    )
}

/// What a layer is.
pub open spec fn layer_is(file: GgufFile, hp: Deepseek2Hparams, l: nat, w: MlaLayerWeights) -> bool {
    &&& w.attn_norm@ == vector_of(file, block_name(l, "attn_norm.weight"@))
    &&& attn_is(file, hp, l, w.attn)
    &&& w.ffn_norm@ == vector_of(file, block_name(l, "ffn_norm.weight"@))
    &&& match w.ffn {
        MlaLayerFfn::Dense(d) => dense_layer(hp, l) && dense_is(file, hp, l, d),
        MlaLayerFfn::Moe(m) => !dense_layer(hp, l) && moe_is(file, hp, l, m),
    }
}

/// Loads a layer.
pub fn load_layer(file: &GgufFile, l: usize, hp: &Deepseek2Hparams) -> (w: Result<
    MlaLayerWeights,
    LoadError,
>)
    ensures
        match layer_fault(*file, *hp, l as nat) {
            Some(fault) => w is Err && w->Err_0@ == fault,
            None => w is Ok && layer_is(*file, *hp, l as nat, w->Ok_0),
        },
{
    let ffn = if l < hp.leading_dense_block_count || hp.n_expert == 0 {
        MlaLayerFfn::Dense(load_dense_ffn(file, l, hp)?)
    } else {
        MlaLayerFfn::Moe(load_moe_ffn(file, l, hp)?)
    };
    let attn_norm = load_f32_vec(file, block_name_text(l, "attn_norm.weight").as_str())?;
    let attn = load_mla_attn(file, l, hp)?;
    let ffn_norm = load_f32_vec(file, block_name_text(l, "ffn_norm.weight").as_str())?;
    Ok(MlaLayerWeights { attn_norm, attn, ffn_norm, ffn })
}

/// The refusal of a file whose experts are never used, round the
/// architecture and the expert count.
pub const NO_EXPERT_USED: [&'static str; 2] = [
    ": expert_count=",
    " but expert_used_count is 0",
];

/// The refusal of a file with no layer.
pub const NO_LAYERS: &'static str = ": no layers to load";

/// The refusal of an output head beside a tied one, round the
/// architecture and where its row is read from.
pub const STRAY_OUTPUT: [&'static str; 3] = [
    "output.weight is present but `",
    "`'s lm_head is `token_embd` DUPLICATED (",
    "): llama.cpp never creates the tensor and its loader refuses the file for it \
     (llama-model-loader.cpp:1309-1313)",
];

/// Why the counts a file declares are refused.
pub open spec fn counts_fault(hp: Deepseek2Hparams) -> Option<LoadFault> {
    if hp.n_expert > 0 && hp.leading_dense_block_count < hp.n_layer && hp.n_expert_used == 0 {
        Some(
            LoadFault::UnsupportedArchitecture(
                hp.arch@ + NO_EXPERT_USED@[0]@ + decimal(hp.n_expert as nat) + NO_EXPERT_USED@[1]@,
            ),
        )
    } else if hp.n_layer == 0 {
        Some(LoadFault::UnsupportedArchitecture(hp.arch@ + NO_LAYERS@))
    } else {
        None
    }
}

/// Why the output head cannot be loaded.
pub open spec fn head_fault(file: GgufFile, hp: Deepseek2Hparams) -> Option<LoadFault> {
    match hp.row.output_head {
        MlaOutputHead::OutputOrTied => if matrix_fault(file, "output.weight"@) is None {
            None
        } else {
            matrix_fault(file, "token_embd.weight"@)
        },
        MlaOutputHead::TiedOnly => if file.has("output.weight"@) {
            Some(
                LoadFault::UnsupportedFeature(
                    hp.arch@,
                    STRAY_OUTPUT@[0]@ + hp.arch@ + STRAY_OUTPUT@[1]@ + hp.row.lines@
                        + STRAY_OUTPUT@[2]@,
                ),
            )
        } else {
            matrix_fault(file, "token_embd.weight"@)
        },
    }
}

/// The tensor that the output head is.
pub open spec fn head_name(file: GgufFile, hp: Deepseek2Hparams) -> Seq<char> {
    if hp.row.output_head == MlaOutputHead::OutputOrTied && matrix_fault(
        file,
        "output.weight"@,
    ) is None {
        "output.weight"@
    } else {
        "token_embd.weight"@
    }
}

/// The first fault of the first `n` layers.
pub open spec fn layers_fault(file: GgufFile, hp: Deepseek2Hparams, n: nat) -> Option<LoadFault>
    decreases n,
{
    if n == 0 {
        None
    } else {
        first_fault(
            layers_fault(file, hp, (n - 1) as nat),
            layer_fault(file, hp, (n - 1) as nat),
        )
    }
}

proof fn layers_fault_stays(file: GgufFile, hp: Deepseek2Hparams, k: nat, n: nat)
    requires
        k <= n,
        layers_fault(file, hp, k) is Some,
    ensures
        layers_fault(file, hp, n) == layers_fault(file, hp, k),
    decreases n,
{
    if k < n {
        layers_fault_stays(file, hp, k, (n - 1) as nat);
    }
}

/// Why a file with these hyperparameters cannot be loaded.
pub open spec fn weights_fault(file: GgufFile, hp: Deepseek2Hparams) -> Option<LoadFault> {
    first_fault(
        counts_fault(hp),
        first_fault(
            matrix_fault(file, "token_embd.weight"@),
            first_fault(
                vector_fault(file, "output_norm.weight"@),
                first_fault(head_fault(file, hp), layers_fault(file, hp, hp.n_layer as nat)),
            ),
        ),
    )
}

/// Whether some layer routes.
pub open spec fn routes(hp: Deepseek2Hparams) -> bool {
    hp.n_expert > 0 && hp.leading_dense_block_count < hp.n_layer
}

/// What the engine of a file with these hyperparameters is.
pub open spec fn engine_is(file: GgufFile, hp: Deepseek2Hparams, e: MlaEngine) -> bool {
    &&& e.embedding.is_tensor(file, "token_embd.weight"@)
    &&& e.final_norm@ == vector_of(file, "output_norm.weight"@)
    &&& e.output_head.is_tensor(file, head_name(file, hp))
    &&& e.layers@.len() == hp.n_layer
    &&& forall|l: int|
        0 <= l < hp.n_layer ==> layer_is(file, hp, l as nat, #[trigger] e.layers@[l])
    &&& e.mla_cfg == (MlaConfig {
        num_heads: hp.n_heads,
        q_lora_rank: if hp.q_lora_rank is Some {
            hp.q_lora_rank->0
        } else {
            0
        },
        kv_lora_rank: hp.kv_lora_rank,
        qk_nope_head_dim: hp.qk_nope_head_dim,
        qk_rope_head_dim: hp.qk_rope_head_dim,
        v_head_dim: hp.v_head_dim,
        use_output_gate: false,
        rope: Some(MlaRopeConfig { theta: hp.rope_theta }),
    })
    &&& e.rms_norm_eps == hp.rms_norm_eps
    &&& e.hidden_dim == hp.hidden_dim
    &&& e.moe == (if routes(hp) {
        Some(
            MlaMoeRuntime {
                n_experts_active: hp.n_expert_used,
                gating: hp.gating,
                norm_topk_prob: hp.norm_topk_prob,
                expert_weights_scale: hp.expert_weights_scale,
            },
        )
    } else {
        None
    })
}

fn load_output_head(file: &GgufFile, hp: &Deepseek2Hparams) -> (w: Result<WeightMatrix, LoadError>)
    ensures
        match head_fault(*file, *hp) {
            Some(fault) => w is Err && w->Err_0@ == fault,
            None => w is Ok && w->Ok_0.is_tensor(*file, head_name(*file, *hp)),
        },
{
    match hp.row.output_head {
        MlaOutputHead::OutputOrTied => match load_weight_matrix(file, "output.weight") {
            Ok(w) => Ok(w),
            Err(_) => load_weight_matrix(file, "token_embd.weight"),
        },
        MlaOutputHead::TiedOnly => {
            if file.has_tensor("output.weight") {
                return Err(
                    LoadError::UnsupportedFeature(
                        String::from_str(hp.arch.as_str()),
                        String::from_str(STRAY_OUTPUT[0]).concat(hp.arch.as_str()).concat(
                            STRAY_OUTPUT[1],
                        ).concat(hp.row.lines).concat(STRAY_OUTPUT[2]),
                    ),
                );
            }
            load_weight_matrix(file, "token_embd.weight")
        },
    }
}

fn refuse_counts(hp: &Deepseek2Hparams) -> (r: Result<(), LoadError>)
    ensures
        match counts_fault(*hp) {
            Some(fault) => r is Err && r->Err_0@ == fault,
            None => r is Ok,
        },
{
    if hp.n_expert > 0 && hp.leading_dense_block_count < hp.n_layer && hp.n_expert_used == 0 {
        return Err(
            LoadError::UnsupportedArchitecture(
                String::from_str(hp.arch.as_str()).concat(NO_EXPERT_USED[0]).concat(
                    decimal_text(hp.n_expert as u64).as_str(),
                ).concat(NO_EXPERT_USED[1]),
            ),
        );
    }
    if hp.n_layer == 0 {
        return Err(
            LoadError::UnsupportedArchitecture(
                String::from_str(hp.arch.as_str()).concat(NO_LAYERS),
            ),
        );
    }
    Ok(())
}

/// Loads what the hyperparameters describe.
pub fn load_mla_weights(file: &GgufFile, hp: &Deepseek2Hparams) -> (e: Result<MlaEngine, LoadError>)
    ensures
        match weights_fault(*file, *hp) {
            Some(fault) => e is Err && e->Err_0@ == fault,
            None => e is Ok && engine_is(*file, *hp, e->Ok_0),
        },
{
    refuse_counts(hp)?;
    let embedding = load_weight_matrix(file, "token_embd.weight")?;
    let final_norm = load_f32_vec(file, "output_norm.weight")?;
    let output_head = load_output_head(file, hp)?;
    let mut layers: Vec<MlaLayerWeights> = Vec::new();
    let mut has_moe = false;
    let mut i: usize = 0;
    while i < hp.n_layer
        invariant
            i <= hp.n_layer,
            layers@.len() == i,
            forall|l: int|
                0 <= l < i ==> layer_is(*file, *hp, l as nat, #[trigger] layers@[l]),
            layers_fault(*file, *hp, i as nat) is None,
            weights_fault(*file, *hp) == layers_fault(*file, *hp, hp.n_layer as nat),
            has_moe == (hp.n_expert > 0 && hp.leading_dense_block_count < i),
        decreases hp.n_layer - i,
    {
        let layer = match load_layer(file, i, hp) {
            Ok(layer) => layer,
            Err(e) => {
                proof {
                    assert(layers_fault(*file, *hp, (i + 1) as nat) == layer_fault(
                        *file,
                        *hp,
                        i as nat,
                    ));
                    layers_fault_stays(*file, *hp, (i + 1) as nat, hp.n_layer as nat);
                }
                return Err(e);
            },
        };
        match &layer.ffn {
            MlaLayerFfn::Moe(_) => {
                has_moe = true;
            },
            MlaLayerFfn::Dense(_) => {},
        }
        layers.push(layer);
        i += 1;
    }
    let moe = if has_moe {
        Some(
            MlaMoeRuntime {
                n_experts_active: hp.n_expert_used,
                gating: hp.gating,
                norm_topk_prob: hp.norm_topk_prob,
                expert_weights_scale: hp.expert_weights_scale,
            },
        )
    } else {
        None
    };
    Ok(
        MlaEngine {
            embedding,
            layers,
            final_norm,
            output_head,
            mla_cfg: MlaConfig {
                num_heads: hp.n_heads,
                q_lora_rank: match hp.q_lora_rank {
                    Some(rank) => rank,
                    None => 0,
                },
                kv_lora_rank: hp.kv_lora_rank,
                qk_nope_head_dim: hp.qk_nope_head_dim,
                qk_rope_head_dim: hp.qk_rope_head_dim,
                v_head_dim: hp.v_head_dim,
                use_output_gate: false,
                rope: Some(MlaRopeConfig { theta: hp.rope_theta }),
            },
            rms_norm_eps: hp.rms_norm_eps,
            hidden_dim: hp.hidden_dim,
            moe,
        },
    )
}

/// Loads a DeepSeek-2, Mistral-4 or PLM file: the hyperparameters, then
/// what they describe.
pub fn load_mla_engine(file: &GgufFile) -> (e: Result<MlaEngine, LoadError>)
    ensures
        hparams_fault(*file) is Some ==> e is Err && e->Err_0@ == hparams_fault(*file)->0,
        hparams_fault(*file) is None ==> exists|hp: Deepseek2Hparams|
            #[trigger] hparams_are(*file, hp) && match weights_fault(*file, hp) {
                Some(fault) => e is Err && e->Err_0@ == fault,
                None => e is Ok && engine_is(*file, hp, e->Ok_0),
            },
{
    let hp = read_deepseek2_hparams(file)?;
    load_mla_weights(file, &hp)
}

/// The widths of a head. A file that declares
/// `attention.key_length_mla` has heads of that length, rotated and
/// unrotated part together, whatever `attention.key_length` says; without
/// it `attention.key_length` is the length of both; without either the
/// unrotated width has a key of its own.
pub proof fn a_declared_key_length_is_the_whole_head(file: GgufFile, hp: Deepseek2Hparams)
    requires
        hparams_fault(file) is None,
        hparams_are(file, hp),
    ensures
        ({
            let mla = file.meta_u64(hp.arch@ + "."@ + "attention.key_length_mla"@);
            let plain = file.meta_u64(hp.arch@ + "."@ + "attention.key_length"@);
            let nope = file.meta_u64(hp.arch@ + "."@ + "attention.qk_nope_head_dim"@);
            &&& mla is Some ==> hp.qk_nope_head_dim + hp.qk_rope_head_dim == mla->0 as usize
                && hp.qk_nope_head_dim > 0
            &&& mla is None && plain is Some ==> hp.qk_nope_head_dim + hp.qk_rope_head_dim
                == plain->0 as usize && hp.qk_nope_head_dim > 0
            &&& mla is None && plain is None ==> nope is Some && hp.qk_nope_head_dim
                == nope->0 as usize
        }),
        ({
            let count = file.meta_u64(hp.arch@ + "."@ + "rope.dimension_count"@);
            let older = file.meta_u64(hp.arch@ + "."@ + "attention.qk_rope_head_dim"@);
            &&& count is Some ==> hp.qk_rope_head_dim == count->0 as usize
            &&& count is None ==> older is Some && hp.qk_rope_head_dim == older->0 as usize
        }),
        ({
            let mla = file.meta_u64(hp.arch@ + "."@ + "attention.value_length_mla"@);
            let plain = file.meta_u64(hp.arch@ + "."@ + "attention.value_length"@);
            let older = file.meta_u64(hp.arch@ + "."@ + "attention.v_head_dim"@);
            &&& mla is Some ==> hp.v_head_dim == mla->0 as usize
            &&& mla is None && plain is Some ==> hp.v_head_dim == plain->0 as usize
            &&& mla is None && plain is None && older is Some ==> hp.v_head_dim
                == older->0 as usize
            &&& mla is None && plain is None && older is None ==> hp.v_head_dim
                == hp.qk_nope_head_dim
        }),
{
    let arch = hp.arch@;
    assert(head_width_fault(file, arch) is None);
}

/// Two files that declare the same `attention.key_length_mla` and the
/// same rotated width have heads of the same widths, whatever else they
/// declare of a head's keys.
pub proof fn the_mla_key_length_decides_alone(
    a: GgufFile,
    b: GgufFile,
    x: Deepseek2Hparams,
    y: Deepseek2Hparams,
)
    requires
        hparams_fault(a) is None,
        hparams_are(a, x),
        hparams_fault(b) is None,
        hparams_are(b, y),
        a.meta_u64(x.arch@ + "."@ + "attention.key_length_mla"@) is Some,
        a.meta_u64(x.arch@ + "."@ + "attention.key_length_mla"@) == b.meta_u64(
            y.arch@ + "."@ + "attention.key_length_mla"@,
        ),
        x.qk_rope_head_dim == y.qk_rope_head_dim,
    ensures
        x.qk_nope_head_dim == y.qk_nope_head_dim,
{
    a_declared_key_length_is_the_whole_head(a, x);
    a_declared_key_length_is_the_whole_head(b, y);
}

/// The other widths and counts of a file that is read: each is the number
/// under its own key, and what is not declared takes the value that the
/// rest of the file, or the format, gives it.
pub proof fn counts_are_those_of_their_keys(file: GgufFile, hp: Deepseek2Hparams)
    requires
        hparams_fault(file) is None,
        hparams_are(file, hp),
    ensures
        file.meta_str("general.architecture"@) == Some(hp.arch@),
        file.meta_u64(hp.arch@ + "."@ + "embedding_length"@) is Some,
        hp.hidden_dim == file.meta_u64(hp.arch@ + "."@ + "embedding_length"@)->0 as usize,
        file.meta_u64(hp.arch@ + "."@ + "feed_forward_length"@) is Some,
        hp.ffn_dim == file.meta_u64(hp.arch@ + "."@ + "feed_forward_length"@)->0 as usize,
        file.meta_u64(hp.arch@ + "."@ + "attention.head_count"@) is Some,
        hp.n_heads == file.meta_u64(hp.arch@ + "."@ + "attention.head_count"@)->0 as usize,
        file.meta_u64(hp.arch@ + "."@ + "attention.kv_lora_rank"@) is Some,
        hp.kv_lora_rank == file.meta_u64(hp.arch@ + "."@ + "attention.kv_lora_rank"@)->0 as usize,
        hp.q_lora_rank is Some ==> file.meta_u64(
            hp.arch@ + "."@ + "attention.q_lora_rank"@,
        ) is Some && hp.q_lora_rank->0 == file.meta_u64(
            hp.arch@ + "."@ + "attention.q_lora_rank"@,
        )->0 as usize && hp.q_lora_rank->0 > 0,
        match file.meta_u64(hp.arch@ + "."@ + "leading_dense_block_count"@) {
            Some(n) => hp.leading_dense_block_count == if n as usize <= hp.n_layer {
                n as usize
            } else {
                hp.n_layer
            },
            None => hp.leading_dense_block_count == hp.n_layer,
        },
        match file.meta_u64(hp.arch@ + "."@ + "expert_count"@) {
            Some(n) => hp.n_expert == n as usize,
            None => hp.n_expert == 0,
        },
        hp.n_expert_used <= hp.n_expert || hp.n_expert_used <= 1,
        match file.meta_u64(hp.arch@ + "."@ + "expert_used_count"@) {
            Some(n) => n as usize <= hp.n_expert ==> hp.n_expert_used == n as usize,
            None => hp.n_expert >= 6 ==> hp.n_expert_used == 6,
        },
        match file.meta_u64(hp.arch@ + "."@ + "expert_shared_count"@) {
            Some(n) => n as usize >= 1 ==> hp.n_shared_experts == n as usize,
            None => hp.n_shared_experts == 1,
        },
        hp.n_shared_experts >= 1,
        match file.meta_u64(hp.arch@ + "."@ + "expert_feed_forward_length"@) {
            Some(n) => hp.expert_ffn_dim == n as usize,
            None => hp.expert_ffn_dim == hp.ffn_dim,
        },
        match file.meta_f32(hp.arch@ + "."@ + "attention.layer_norm_rms_epsilon"@) {
            Some(bits) => hp.rms_norm_eps == bits,
            None => hp.rms_norm_eps == EPS_1E_6,
        },
        match file.meta_f32(hp.arch@ + "."@ + "rope.freq_base"@) {
            Some(bits) => hp.rope_theta == bits,
            None => hp.rope_theta == THETA_1E4,
        },
        match file.meta_f32(hp.arch@ + "."@ + "expert_weights_scale"@) {
            Some(bits) => hp.expert_weights_scale == bits,
            None => hp.expert_weights_scale == ONE_BITS,
        },
        !hp.norm_topk_prob <==> file.meta_u64(hp.arch@ + "."@ + "expert_weights_norm"@) == Some(
            0u64,
        ),
        file.meta_u64(hp.arch@ + "."@ + "expert_gating_func"@) == Some(1u64) ==> hp.gating
            == GatingFunction::Softmax,
        file.meta_u64(hp.arch@ + "."@ + "expert_gating_func"@) == Some(2u64) ==> hp.gating
            == GatingFunction::Sigmoid,
{
    let arch = hp.arch@;
    assert(mla_row(arch) is Some);
    assert(required_key_fault(file, arch) is None);
    assert(rank_fault(file, arch, hp.row) is None);
}

/// A layer of the trunk is one of the file's blocks that are no
/// prediction blocks.
pub proof fn prediction_blocks_are_no_layers(file: GgufFile, hp: Deepseek2Hparams)
    requires
        hparams_fault(file) is None,
        hparams_are(file, hp),
    ensures
        file.meta_u64(hp.arch@ + "."@ + "block_count"@) is Some,
        file.meta(hp.arch@ + "."@ + "nextn_predict_layers"@) is None ==> hp.n_layer
            == file.meta_u64(hp.arch@ + "."@ + "block_count"@)->0 as usize,
        file.meta_u64(hp.arch@ + "."@ + "nextn_predict_layers"@) is Some ==> hp.n_layer
            + file.meta_u64(hp.arch@ + "."@ + "nextn_predict_layers"@)->0 as usize
            == file.meta_u64(hp.arch@ + "."@ + "block_count"@)->0 as usize,
{
    let arch = hp.arch@;
    assert(mla_row(arch) is Some);
}

/// A layer's attention comes from the tensors that carry its names: each
/// projection and norm from its own, with no two exchanged. A direct Q is
/// `attn_q`; a low-rank one goes down through `attn_q_a` and up through
/// `attn_q_b`.
pub proof fn attention_is_loaded_by_name(
    file: GgufFile,
    hp: Deepseek2Hparams,
    l: nat,
    w: MlaAttnWeights,
)
    requires
        attn_fault(file, hp, l) is None,
        attn_is(file, hp, l, w),
    ensures
        w.kv_a_proj_with_mqa.is_tensor(
            file,
            "blk."@ + decimal(l) + "."@ + "attn_kv_a_mqa.weight"@,
        ),
        w.o_proj.is_tensor(file, "blk."@ + decimal(l) + "."@ + "attn_output.weight"@),
        file.has("blk."@ + decimal(l) + "."@ + "attn_kv_a_norm.weight"@) ==> w.kv_a_layernorm@
            == vector_of(file, "blk."@ + decimal(l) + "."@ + "attn_kv_a_norm.weight"@),
        !file.has("blk."@ + decimal(l) + "."@ + "attn_kv_a_norm.weight"@) ==> {
            &&& w.kv_a_layernorm@.len() == hp.kv_lora_rank
            &&& forall|i: int|
                0 <= i < hp.kv_lora_rank ==> #[trigger] w.kv_a_layernorm@[i] == ONE_BITS
        },
        match w.q {
            MlaQProj::LowRank { a, norm, b } => {
                &&& hp.q_lora_rank is Some
                &&& a.is_tensor(file, "blk."@ + decimal(l) + "."@ + "attn_q_a.weight"@)
                &&& b.is_tensor(file, "blk."@ + decimal(l) + "."@ + "attn_q_b.weight"@)
                &&& file.has("blk."@ + decimal(l) + "."@ + "attn_q_a_norm.weight"@) ==> norm@
                    == vector_of(file, "blk."@ + decimal(l) + "."@ + "attn_q_a_norm.weight"@)
            },
            MlaQProj::Direct(q) => {
                &&& hp.q_lora_rank is None
                &&& q.is_tensor(file, "blk."@ + decimal(l) + "."@ + "attn_q.weight"@)
            },
        },
        match w.kv_b {
            MlaKvB::Combined(kv_b) => kv_b.is_tensor(
                file,
                "blk."@ + decimal(l) + "."@ + "attn_kv_b.weight"@,
            ),
            MlaKvB::Split { k_b, v_b } => {
                &&& k_b@.len() == hp.n_heads && v_b@.len() == hp.n_heads
                &&& forall|h: int|
                    0 <= h < hp.n_heads ==> (#[trigger] k_b@[h]).is_part(
                        file,
                        "blk."@ + decimal(l) + "."@ + "attn_k_b.weight"@,
                        h,
                        hp.n_heads as int,
                    )
                &&& forall|h: int|
                    0 <= h < hp.n_heads ==> (#[trigger] v_b@[h]).is_part(
                        file,
                        "blk."@ + decimal(l) + "."@ + "attn_v_b.weight"@,
                        h,
                        hp.n_heads as int,
                    )
                &&& hp.n_heads > 0 ==> k_b@[0].n_rows() == hp.kv_lora_rank && k_b@[0].n_cols()
                    == hp.qk_nope_head_dim && v_b@[0].n_rows() == hp.v_head_dim
                    && v_b@[0].n_cols() == hp.kv_lora_rank
            },
        },
{
    match w.kv_b {
        MlaKvB::Combined(_) => {},
        MlaKvB::Split { k_b, v_b } => {
            if hp.n_heads > 0 {
                assert(k_b@[0].is_part(
                    file,
                    block_name(l, "attn_k_b.weight"@),
                    0,
                    hp.n_heads as int,
                ));
                assert(v_b@[0].is_part(
                    file,
                    block_name(l, "attn_v_b.weight"@),
                    0,
                    hp.n_heads as int,
                ));
            }
        },
    }
}

/// A layer is loaded by name: its norms, and its feed-forward, which is
/// dense in the leading dense blocks and in a file without experts and
/// routed elsewhere. Of each expert the three matrices are the expert's
/// own parts of the three tensors so named; a dense block without a gate
/// has its up matrix in that place.
pub proof fn a_layer_is_loaded_by_name(
    file: GgufFile,
    hp: Deepseek2Hparams,
    l: nat,
    w: MlaLayerWeights,
)
    requires
        layer_is(file, hp, l, w),
    ensures
        w.attn_norm@ == vector_of(file, "blk."@ + decimal(l) + "."@ + "attn_norm.weight"@),
        w.ffn_norm@ == vector_of(file, "blk."@ + decimal(l) + "."@ + "ffn_norm.weight"@),
        match w.ffn {
            MlaLayerFfn::Dense(d) => {
                &&& l < hp.leading_dense_block_count || hp.n_expert == 0
                &&& d.act == hp.row.dense_act
                &&& d.act == GluAct::Swiglu ==> d.weights.gate.is_tensor(
                    file,
                    "blk."@ + decimal(l) + "."@ + "ffn_gate.weight"@,
                )
                &&& d.act == GluAct::ReluSqr ==> d.weights.gate.is_tensor(
                    file,
                    "blk."@ + decimal(l) + "."@ + "ffn_up.weight"@,
                )
                &&& d.weights.up.is_tensor(file, "blk."@ + decimal(l) + "."@ + "ffn_up.weight"@)
                &&& d.weights.down.is_tensor(
                    file,
                    "blk."@ + decimal(l) + "."@ + "ffn_down.weight"@,
                )
            },
            MlaLayerFfn::Moe(m) => {
                &&& hp.leading_dense_block_count <= l && hp.n_expert > 0
                &&& m.router.is_tensor(
                    file,
                    "blk."@ + decimal(l) + "."@ + "ffn_gate_inp.weight"@,
                )
                &&& m.experts@.len() == hp.n_expert
                &&& forall|i: int|
                    0 <= i < hp.n_expert ==> {
                        let x = #[trigger] m.experts@[i];
                        &&& x.gate.is_part(
                            file,
                            "blk."@ + decimal(l) + "."@ + "ffn_gate_exps.weight"@,
                            i,
                            hp.n_expert as int,
                        )
                        &&& x.up.is_part(
                            file,
                            "blk."@ + decimal(l) + "."@ + "ffn_up_exps.weight"@,
                            i,
                            hp.n_expert as int,
                        )
                        &&& x.down.is_part(
                            file,
                            "blk."@ + decimal(l) + "."@ + "ffn_down_exps.weight"@,
                            i,
                            hp.n_expert as int,
                        )
                    }
                &&& m.shared_expert.gate.is_tensor(
                    file,
                    "blk."@ + decimal(l) + "."@ + "ffn_gate_shexp.weight"@,
                )
                &&& m.shared_expert.up.is_tensor(
                    file,
                    "blk."@ + decimal(l) + "."@ + "ffn_up_shexp.weight"@,
                )
                &&& m.shared_expert.down.is_tensor(
                    file,
                    "blk."@ + decimal(l) + "."@ + "ffn_down_shexp.weight"@,
                )
                &&& m.exp_probs_bias is Some <==> file.has(
                    "blk."@ + decimal(l) + "."@ + "exp_probs_b.bias"@,
                )
                &&& m.exp_probs_bias is Some ==> m.exp_probs_bias->0@ == vector_of(
                    file,
                    "blk."@ + decimal(l) + "."@ + "exp_probs_b.bias"@,
                )
            },
        },
{
}

/// What the engine takes from the file and from its hyperparameters: the
/// three weights round the layers by name, each width and count for what
/// it is, and the routing only where some layer routes. The output head
/// is `output.weight` where that can be had and the architecture has one,
/// and the embedding otherwise.
pub proof fn an_engine_is_its_file(file: GgufFile, hp: Deepseek2Hparams, e: MlaEngine)
    requires
        weights_fault(file, hp) is None,
        engine_is(file, hp, e),
    ensures
        e.embedding.is_tensor(file, "token_embd.weight"@),
        e.final_norm@ == vector_of(file, "output_norm.weight"@),
        hp.row.output_head == MlaOutputHead::TiedOnly ==> !file.has("output.weight"@)
            && e.output_head.is_tensor(file, "token_embd.weight"@),
        !file.has("output.weight"@) ==> e.output_head.is_tensor(file, "token_embd.weight"@),
        hp.row.output_head == MlaOutputHead::OutputOrTied && file.has("output.weight"@)
            && matrix_fault(file, "output.weight"@) is None ==> e.output_head.is_tensor(
            file,
            "output.weight"@,
        ),
        e.layers@.len() == hp.n_layer,
        forall|l: int|
            0 <= l < hp.n_layer ==> layer_is(file, hp, l as nat, #[trigger] e.layers@[l]),
        e.mla_cfg.num_heads == hp.n_heads,
        e.mla_cfg.kv_lora_rank == hp.kv_lora_rank,
        e.mla_cfg.qk_nope_head_dim == hp.qk_nope_head_dim,
        e.mla_cfg.qk_rope_head_dim == hp.qk_rope_head_dim,
        e.mla_cfg.v_head_dim == hp.v_head_dim,
        e.mla_cfg.rope == Some(MlaRopeConfig { theta: hp.rope_theta }),
        !e.mla_cfg.use_output_gate,
        hp.q_lora_rank is Some ==> e.mla_cfg.q_lora_rank == hp.q_lora_rank->0,
        hp.q_lora_rank is None ==> e.mla_cfg.q_lora_rank == 0,
        e.hidden_dim == hp.hidden_dim,
        e.rms_norm_eps == hp.rms_norm_eps,
        e.moe is Some <==> exists|l: int| 0 <= l < hp.n_layer && (#[trigger] e.layers@[l]).ffn is Moe,
        e.moe is Some ==> {
            &&& e.moe->0.n_experts_active == hp.n_expert_used
            &&& e.moe->0.n_experts_active > 0
            &&& e.moe->0.gating == hp.gating
            &&& e.moe->0.norm_topk_prob == hp.norm_topk_prob
            &&& e.moe->0.expert_weights_scale == hp.expert_weights_scale
        },
{
    if hp.n_expert > 0 && hp.leading_dense_block_count < hp.n_layer {
        let l = hp.leading_dense_block_count as int;
        assert(layer_is(file, hp, l as nat, e.layers@[l]));
        assert(e.layers@[l].ffn is Moe);
    } else {
        assert forall|l: int| 0 <= l < hp.n_layer implies (#[trigger] e.layers@[l]).ffn is Dense by {
            assert(layer_is(file, hp, l as nat, e.layers@[l]));
        }
    }
}

/// Which Q an architecture has: `plm` projects Q directly, always;
/// `deepseek2` and `mistral4` through a declared rank, but for a lite
/// checkpoint and a rank of zero.
pub proof fn a_low_rank_q_is_declared(file: GgufFile, hp: Deepseek2Hparams)
    requires
        hparams_fault(file) is None,
        hparams_are(file, hp),
    ensures
        hp.arch@ == "plm"@ ==> hp.q_lora_rank is None && hp.row.dense_act == GluAct::ReluSqr
            && hp.row.output_head == MlaOutputHead::TiedOnly,
        hp.arch@ == "deepseek2"@ || hp.arch@ == "mistral4"@ ==> {
            let rank = file.meta_u64(hp.arch@ + "."@ + "attention.q_lora_rank"@);
            &&& hp.row.dense_act == GluAct::Swiglu
            &&& hp.row.output_head == MlaOutputHead::OutputOrTied
            &&& hp.n_layer == 26 || hp.n_layer == 27 ==> hp.q_lora_rank is None
            &&& hp.n_layer != 26 && hp.n_layer != 27 && hp.n_layer != 48 ==> rank is Some && (
            hp.q_lora_rank == if rank->0 as usize == 0 {
                None
            } else {
                Some(rank->0 as usize)
            })
        },
        hp.arch@ == "plm"@ || hp.arch@ == "deepseek2"@ || hp.arch@ == "mistral4"@,
{
    reveal_strlit("mistral4");
    reveal_strlit("deepseek2");
    reveal_strlit("plm");
    assert("mistral4"@.len() == 8 && "deepseek2"@.len() == 9 && "plm"@.len() == 3);
    assert(rank_fault(file, hp.arch@, hp.row) is None);
}

spec fn same_reading(a: Deepseek2Hparams, b: Deepseek2Hparams) -> bool {
    &&& a.arch@ == b.arch@
    &&& a.row == b.row
    &&& a.n_layer == b.n_layer
    &&& a.hidden_dim == b.hidden_dim
    &&& a.ffn_dim == b.ffn_dim
    &&& a.n_heads == b.n_heads
    &&& a.q_lora_rank == b.q_lora_rank
    &&& a.kv_lora_rank == b.kv_lora_rank
    &&& a.qk_nope_head_dim == b.qk_nope_head_dim
    &&& a.qk_rope_head_dim == b.qk_rope_head_dim
    &&& a.v_head_dim == b.v_head_dim
    &&& a.rms_norm_eps == b.rms_norm_eps
    &&& a.rope_theta == b.rope_theta
    &&& a.leading_dense_block_count == b.leading_dense_block_count
    &&& a.n_expert == b.n_expert
    &&& a.n_expert_used == b.n_expert_used
    &&& a.n_shared_experts == b.n_shared_experts
    &&& a.expert_ffn_dim == b.expert_ffn_dim
    &&& a.gating == b.gating
    &&& a.norm_topk_prob == b.norm_topk_prob
    &&& a.expert_weights_scale == b.expert_weights_scale
}

proof fn layers_fail_alike(file: GgufFile, a: Deepseek2Hparams, b: Deepseek2Hparams, n: nat)
    requires
        same_reading(a, b),
    ensures
        layers_fault(file, a, n) == layers_fault(file, b, n),
    decreases n,
{
    if n > 0 {
        layers_fail_alike(file, a, b, (n - 1) as nat);
        assert(layer_fault(file, a, (n - 1) as nat) == layer_fault(file, b, (n - 1) as nat));
    }
}

/// A file determines its hyperparameters: two readings of it are refused
/// alike, and whatever loads from one is what loads from the other.
pub proof fn one_reading_of_a_file(file: GgufFile, a: Deepseek2Hparams, b: Deepseek2Hparams)
    requires
        hparams_are(file, a),
        hparams_are(file, b),
    ensures
        weights_fault(file, a) == weights_fault(file, b),
        forall|e: MlaEngine| engine_is(file, a, e) ==> engine_is(file, b, e),
{
    assert(same_reading(a, b));
    layers_fail_alike(file, a, b, a.n_layer as nat);
}

/// Which files the loader reads: those of the three architectures that
/// declare every count, a rank for Q where Q is low-rank, the rotated
/// width, a key length above it or else the unrotated width, no scaling of
/// the rotation, and no attention temperature where one would be read.
pub proof fn which_files_are_read(file: GgufFile, arch: Seq<char>, blocks: usize, vocab: usize)
    requires
        file.meta_str("general.architecture"@) == Some(arch),
        blocks == file.meta_u64(arch + "."@ + "block_count"@)->0 as usize,
        file.meta_u64(arch + "."@ + "vocab_size"@) matches Some(n) ==> vocab == n as usize,
        file.meta_u64(arch + "."@ + "vocab_size"@) is None ==> match file.meta("tokenizer.ggml.tokens"@) {
            Some(GgufValue::Array(items)) => vocab == items@.len() as usize,
            _ => vocab == 0,
        },
    ensures
        hparams_fault(file) is None <==> {
            let layers = trunk_of(file, arch, blocks).n_layers;
            let rope = if file.meta_u64(arch + "."@ + "rope.dimension_count"@) is Some {
                file.meta_u64(arch + "."@ + "rope.dimension_count"@)
            } else {
                file.meta_u64(arch + "."@ + "attention.qk_rope_head_dim"@)
            };
            let key = if file.meta_u64(arch + "."@ + "attention.key_length_mla"@) is Some {
                file.meta_u64(arch + "."@ + "attention.key_length_mla"@)
            } else {
                file.meta_u64(arch + "."@ + "attention.key_length"@)
            };
            let temperature = file.meta_f32(arch + "."@ + "attention.temperature_scale"@);
            let scaling = file.meta_str(arch + "."@ + "rope.scaling.type"@);
            &&& arch == "deepseek2"@ || arch == "mistral4"@ || arch == "plm"@
            &&& file.meta_u64(arch + "."@ + "block_count"@) is Some
            &&& trunk_fault(file, arch, blocks) is None
            &&& file.meta_u64(arch + "."@ + "embedding_length"@) is Some
            &&& file.meta_u64(arch + "."@ + "feed_forward_length"@) is Some
            &&& file.meta_u64(arch + "."@ + "attention.head_count"@) is Some
            &&& file.meta_u64(arch + "."@ + "attention.kv_lora_rank"@) is Some
            &&& arch == "plm"@ || layers == 26 || layers == 27 || (layers == 48 && vocab == 128256)
                || file.meta_u64(arch + "."@ + "attention.q_lora_rank"@) is Some
            &&& rope is Some
            &&& key is Some ==> key->0 as usize > rope->0 as usize
            &&& key is None ==> file.meta_u64(arch + "."@ + "attention.qk_nope_head_dim"@) is Some
            &&& scaling is None || scaling == Some("none"@)
            &&& arch == "plm"@ || temperature is None || temperature == Some(0u32) || temperature
                == Some(0x8000_0000u32)
        },
        arch != "deepseek2"@ && arch != "mistral4"@ && arch != "plm"@ ==> hparams_fault(file)
            == Some(LoadFault::UnsupportedArchitecture(arch)),
{
    what_an_mla_architecture_decides(arch);
    reveal_strlit("mistral4");
    reveal_strlit("deepseek2");
    reveal_strlit("plm");
    assert("mistral4"@.len() == 8 && "deepseek2"@.len() == 9 && "plm"@.len() == 3);
}

/// How experts are scored: as declared; where nothing that is known is
/// declared, by softmax, but for the checkpoints of two layer counts and
/// one vocabulary, which the shape of the embedding shows.
pub proof fn how_experts_are_scored(file: GgufFile, hp: Deepseek2Hparams)
    requires
        hparams_are(file, hp),
    ensures
        ({
            let declared = file.meta_u64(hp.arch@ + "."@ + "expert_gating_func"@);
            let shape = file.tensor("token_embd.weight"@)->0.shape@;
            let known = (hp.n_layer == 47 || hp.n_layer == 48) && file.has("token_embd.weight"@)
                && shape.len() > 0 && shape.last() == 154880;
            hp.gating == GatingFunction::Sigmoid <==> declared == Some(2u64) || (declared != Some(
                1u64,
            ) && known)
        }),
        hp.gating == GatingFunction::Sigmoid || hp.gating == GatingFunction::Softmax,
{
}

/// How many experts are used: as many as declared, six where nothing is
/// and there are experts, but never more than there are, or than one
/// where there are none; and at least one shared expert is counted.
pub proof fn how_many_experts_are_used(file: GgufFile, hp: Deepseek2Hparams)
    requires
        hparams_are(file, hp),
    ensures
        ({
            let wanted = match file.meta_u64(hp.arch@ + "."@ + "expert_used_count"@) {
                Some(n) => n as usize as int,
                None => if hp.n_expert > 0 {
                    6
                } else {
                    0
                },
            };
            let most = if hp.n_expert > 1 {
                hp.n_expert as int
            } else {
                1
            };
            &&& wanted <= most ==> hp.n_expert_used == wanted
            &&& wanted > most ==> hp.n_expert_used == most
        }),
        file.meta_u64(hp.arch@ + "."@ + "expert_shared_count"@) matches Some(n) ==> hp.n_shared_experts == if n as usize == 0 {
            1
        } else {
            n as usize
        },
{
}

/// Which tensors a layer's attention must have: the two-step query
/// projection where Q is low-rank and the one-step one, without any of the
/// other's tensors, where it is not; the output projection; the compressed
/// keys and values; and their decompression, in one tensor or in two, but
/// not in both.
pub proof fn what_a_layers_attention_must_have(file: GgufFile, hp: Deepseek2Hparams, l: nat)
    ensures
        attn_fault(file, hp, l) is None <==> {
            let k_b = file.tensor("blk."@ + decimal(l) + "."@ + "attn_k_b.weight"@)->0.shape@;
            let v_b = file.tensor("blk."@ + decimal(l) + "."@ + "attn_v_b.weight"@)->0.shape@;
            &&& hp.q_lora_rank is Some ==> matrix_fault(file, "blk."@ + decimal(l) + "."@ + "attn_q_a.weight"@) is None && optional_vector_fault(file, "blk."@ + decimal(l) + "."@ + "attn_q_a_norm.weight"@) is None && matrix_fault(file, "blk."@ + decimal(l) + "."@ + "attn_q_b.weight"@) is None
            &&& hp.q_lora_rank is None ==> !file.has("blk."@ + decimal(l) + "."@ + "attn_q_a.weight"@) && !file.has("blk."@ + decimal(l) + "."@ + "attn_q_b.weight"@) && !file.has("blk."@ + decimal(l) + "."@ + "attn_q_a_norm.weight"@) && matrix_fault(file, "blk."@ + decimal(l) + "."@ + "attn_q.weight"@) is None
            &&& matrix_fault(file, "blk."@ + decimal(l) + "."@ + "attn_kv_a_mqa.weight"@) is None
            &&& matrix_fault(file, "blk."@ + decimal(l) + "."@ + "attn_output.weight"@) is None
            &&& optional_vector_fault(file, "blk."@ + decimal(l) + "."@ + "attn_kv_a_norm.weight"@) is None
            &&& (file.has("blk."@ + decimal(l) + "."@ + "attn_kv_b.weight"@) && !file.has("blk."@ + decimal(l) + "."@ + "attn_k_b.weight"@) && !file.has("blk."@ + decimal(l) + "."@ + "attn_v_b.weight"@) && matrix_fault(file, "blk."@ + decimal(l) + "."@ + "attn_kv_b.weight"@) is None) || (!file.has("blk."@ + decimal(l) + "."@ + "attn_kv_b.weight"@) && parts_fault(file, "blk."@ + decimal(l) + "."@ + "attn_k_b.weight"@, hp.n_heads) is None && parts_fault(file, "blk."@ + decimal(l) + "."@ + "attn_v_b.weight"@, hp.n_heads) is None && (hp.n_heads == 0 || (
            k_b[0] as usize == hp.qk_nope_head_dim && k_b[1] as usize == hp.kv_lora_rank
                && v_b[0] as usize == hp.kv_lora_rank && v_b[1] as usize == hp.v_head_dim)))
        },
{
}

/// Which tensors a layer must have beside its attention's: two norms, and
/// those of its own kind of feed-forward block. A dense one has a gate
/// exactly where its activation takes one.
pub proof fn what_a_layer_must_have(file: GgufFile, hp: Deepseek2Hparams, l: nat)
    ensures
        layer_fault(file, hp, l) is None <==> {
            &&& attn_fault(file, hp, l) is None
            &&& vector_fault(file, "blk."@ + decimal(l) + "."@ + "attn_norm.weight"@) is None
            &&& vector_fault(file, "blk."@ + decimal(l) + "."@ + "ffn_norm.weight"@) is None
            &&& l < hp.leading_dense_block_count || hp.n_expert == 0 ==> {
                &&& hp.row.dense_act == GluAct::ReluSqr ==> !file.has("blk."@ + decimal(l) + "."@ + "ffn_gate.weight"@)
                &&& hp.row.dense_act == GluAct::Swiglu ==> matrix_fault(file, "blk."@ + decimal(l) + "."@ + "ffn_gate.weight"@) is None
                &&& matrix_fault(file, "blk."@ + decimal(l) + "."@ + "ffn_up.weight"@) is None
                &&& matrix_fault(file, "blk."@ + decimal(l) + "."@ + "ffn_down.weight"@) is None
            }
            &&& !(l < hp.leading_dense_block_count || hp.n_expert == 0) ==> {
                &&& matrix_fault(file, "blk."@ + decimal(l) + "."@ + "ffn_gate_inp.weight"@) is None
                &&& parts_fault(file, "blk."@ + decimal(l) + "."@ + "ffn_gate_exps.weight"@, hp.n_expert) is None
                &&& parts_fault(file, "blk."@ + decimal(l) + "."@ + "ffn_up_exps.weight"@, hp.n_expert) is None
                &&& parts_fault(file, "blk."@ + decimal(l) + "."@ + "ffn_down_exps.weight"@, hp.n_expert) is None
                &&& matrix_fault(file, "blk."@ + decimal(l) + "."@ + "ffn_gate_shexp.weight"@) is None
                &&& matrix_fault(file, "blk."@ + decimal(l) + "."@ + "ffn_up_shexp.weight"@) is None
                &&& matrix_fault(file, "blk."@ + decimal(l) + "."@ + "ffn_down_shexp.weight"@) is None
                &&& optional_vector_fault(file, "blk."@ + decimal(l) + "."@ + "exp_probs_b.bias"@) is None
            }
        },
{
}

/// Which files' weights load: there is a layer at all, and an expert to
/// use where a layer routes; the embedding, the last norm and the head are
/// there; and every layer loads. Otherwise the first layer that does not
/// is the one reported.
pub proof fn which_weights_load(file: GgufFile, hp: Deepseek2Hparams)
    ensures
        weights_fault(file, hp) is None <==> {
            &&& hp.n_layer > 0
            &&& hp.n_expert > 0 && hp.leading_dense_block_count < hp.n_layer ==> hp.n_expert_used
                > 0
            &&& matrix_fault(file, "token_embd.weight"@) is None
            &&& vector_fault(file, "output_norm.weight"@) is None
            &&& hp.row.output_head == MlaOutputHead::TiedOnly ==> !file.has("output.weight"@)
            &&& forall|l: nat| l < hp.n_layer ==> #[trigger] layer_fault(file, hp, l) is None
        },
{
    layers_load_one_by_one(file, hp, hp.n_layer as nat);
}

/// Layers load where each of them does.
#[verifier::rlimit(40)]
#[verifier::spinoff_prover]
pub proof fn layers_load_one_by_one(file: GgufFile, hp: Deepseek2Hparams, n: nat)
    ensures
        layers_fault(file, hp, n) is None <==> forall|l: nat|
            l < n ==> #[trigger] layer_fault(file, hp, l) is None,
        layers_fault(file, hp, n) matches Some(fault) ==> exists|l: nat|
            l < n && #[trigger] layer_fault(file, hp, l) == Some(fault) && forall|k: nat|
                k < l ==> #[trigger] layer_fault(file, hp, k) is None,
    decreases n,
{
    if n > 0 {
        let m = (n - 1) as nat;
        layers_load_one_by_one(file, hp, m);
        let last = layer_fault(file, hp, m);
        assert(layers_fault(file, hp, n) == first_fault(layers_fault(file, hp, m), last));
        if layers_fault(file, hp, m) is None && last is None {
            assert forall|l: nat| l < n implies #[trigger] layer_fault(file, hp, l) is None by {
            }
        }
    }
}

/// Of several keys that are missing, the first of those read is named.
pub proof fn the_first_missing_key_is_named(file: GgufFile, arch: Seq<char>)
    ensures
        file.meta_u64(arch + "."@ + "embedding_length"@) is None ==> required_key_fault(file, arch) == Some(
            LoadFault::MissingHparam(arch + "."@ + "embedding_length"@),
        ),
        file.meta_u64(arch + "."@ + "embedding_length"@) is Some && file.meta_u64(arch + "."@ + "feed_forward_length"@) is None ==> required_key_fault(file, arch) == Some(
            LoadFault::MissingHparam(arch + "."@ + "feed_forward_length"@),
        ),
        file.meta_u64(arch + "."@ + "embedding_length"@) is Some && file.meta_u64(arch + "."@ + "feed_forward_length"@) is Some && file.meta_u64(arch + "."@ + "attention.head_count"@) is None ==> required_key_fault(file, arch) == Some(
            LoadFault::MissingHparam(arch + "."@ + "attention.head_count"@),
        ),
{
}

/// Of several tensors that are missing, the first of those read is named.
pub proof fn the_first_missing_tensor_is_named(file: GgufFile, hp: Deepseek2Hparams, l: nat)
    ensures
        !file.has("blk."@ + decimal(l) + "."@ + "ffn_gate_inp.weight"@) ==> moe_fault(file, hp, l) == Some(
            LoadFault::TensorNotFound("blk."@ + decimal(l) + "."@ + "ffn_gate_inp.weight"@),
        ),
        file.has("blk."@ + decimal(l) + "."@ + "ffn_gate_inp.weight"@) && !file.has("blk."@ + decimal(l) + "."@ + "ffn_gate_exps.weight"@) ==> moe_fault(file, hp, l) == Some(
            LoadFault::TensorNotFound("blk."@ + decimal(l) + "."@ + "ffn_gate_exps.weight"@),
        ),
        file.has("blk."@ + decimal(l) + "."@ + "ffn_gate_inp.weight"@) && file.has("blk."@ + decimal(l) + "."@ + "ffn_gate_exps.weight"@) && !file.has("blk."@ + decimal(l) + "."@ + "ffn_up_exps.weight"@) ==> moe_fault(file, hp, l) == Some(
            LoadFault::TensorNotFound("blk."@ + decimal(l) + "."@ + "ffn_up_exps.weight"@),
        ),
        file.has("blk."@ + decimal(l) + "."@ + "ffn_gate_inp.weight"@) && file.has("blk."@ + decimal(l) + "."@ + "ffn_gate_exps.weight"@) && file.has("blk."@ + decimal(l) + "."@ + "ffn_up_exps.weight"@) && !file.has("blk."@ + decimal(l) + "."@ + "ffn_down_exps.weight"@) ==> moe_fault(file, hp, l) == Some(
            LoadFault::TensorNotFound("blk."@ + decimal(l) + "."@ + "ffn_down_exps.weight"@),
        ),
        file.has("blk."@ + decimal(l) + "."@ + "ffn_gate_inp.weight"@) && file.has("blk."@ + decimal(l) + "."@ + "ffn_gate_exps.weight"@) && file.has("blk."@ + decimal(l) + "."@ + "ffn_up_exps.weight"@) && file.has("blk."@ + decimal(l) + "."@ + "ffn_down_exps.weight"@) && !file.has("blk."@ + decimal(l) + "."@ + "ffn_gate_shexp.weight"@) ==> moe_fault(file, hp, l) == Some(
            LoadFault::TensorNotFound("blk."@ + decimal(l) + "."@ + "ffn_gate_shexp.weight"@),
        ),
        file.has("blk."@ + decimal(l) + "."@ + "ffn_gate_inp.weight"@) && file.has("blk."@ + decimal(l) + "."@ + "ffn_gate_exps.weight"@) && file.has("blk."@ + decimal(l) + "."@ + "ffn_up_exps.weight"@) && file.has("blk."@ + decimal(l) + "."@ + "ffn_down_exps.weight"@) && file.has("blk."@ + decimal(l) + "."@ + "ffn_gate_shexp.weight"@) && !file.has("blk."@ + decimal(l) + "."@ + "ffn_up_shexp.weight"@) ==> moe_fault(file, hp, l) == Some(
            LoadFault::TensorNotFound("blk."@ + decimal(l) + "."@ + "ffn_up_shexp.weight"@),
        ),
        file.has("blk."@ + decimal(l) + "."@ + "ffn_gate_inp.weight"@) && file.has("blk."@ + decimal(l) + "."@ + "ffn_gate_exps.weight"@) && file.has("blk."@ + decimal(l) + "."@ + "ffn_up_exps.weight"@) && file.has("blk."@ + decimal(l) + "."@ + "ffn_down_exps.weight"@) && file.has("blk."@ + decimal(l) + "."@ + "ffn_gate_shexp.weight"@) && file.has("blk."@ + decimal(l) + "."@ + "ffn_up_shexp.weight"@) && !file.has("blk."@ + decimal(l) + "."@ + "ffn_down_shexp.weight"@) ==> moe_fault(file, hp, l) == Some(
            LoadFault::TensorNotFound("blk."@ + decimal(l) + "."@ + "ffn_down_shexp.weight"@),
        ),
{
}

} // verus!
