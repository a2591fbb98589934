//! Which rotary scaling an MLA file asks for.
//!
//! A file may declare YaRN scaling of its rotated slices, or none; any
//! other kind is refused, and so is YaRN without the context length it
//! was trained at. What is read here is what the factors are computed
//! from.

use crate::gguf::{f32_or, GgufFile};
use crate::load_error::{LoadError, LoadFault};
use crate::text::{arch_key, arch_key_text, decimal, decimal_text, eq_ignore_ascii_case, same_letters};
use crate::weights::ONE_BITS;
use vstd::prelude::*;
use vstd::string::StringExecFns;

verus! {

/// Whether an architecture's loader reads the log multiplier, and whether
/// it takes the rule of the DeepSeek-V2 graph for it.
#[derive(Debug, Clone, Copy, PartialEq, Eq, Structural)]
pub enum YarnLogMul {
    NotRead,
    Read { deepseek2_mscale_rule: bool },
}

/// What the factors of a scaled file are computed from; the floats are
/// bit patterns.
#[derive(Debug, Clone, Copy, PartialEq, Eq, Structural)]
pub struct YarnKeys {
    pub original_context_length: usize,
    /// As the file writes it; `None` where it is absent or not read.
    pub log_multiplier: Option<u32>,
    /// The magnitude follows the multiplier where that is not one.
    pub deepseek2_mscale_rule: bool,
    pub attn_factor: u32,
}

/// What is said of another kind of scaling, round the architecture and
/// the kind.
pub const SAID_KIND: [&'static str; 3] = [
    "`",
    ".rope.scaling.type = \"",
    "\"`: the MLA engine implements YaRN (`crate::mla_yarn`) and no other scaling; no MLA \
     converter writes one",
];

/// What is said of YaRN without its context length, round the
/// architecture.
pub const SAID_NO_CONTEXT: [&'static str; 2] = [
    "`",
    ".rope.scaling.type = yarn` without `rope.scaling.original_context_length`: llama.cpp \
     would floor the YaRN ramp on `context_length`, the EXTENDED length \
     (llama-model.cpp:1164-1165); every converter writes the key (conversion/base.py:1235) \
     and ferrox does not guess it",
];

/// What is said of a slice without whole bands, round its width.
pub const SAID_BANDS: [&'static str; 2] = [
    "YaRN on a `pe` slice of width ",
    ", which has no whole bands",
];

/// The scaling that a file declares; none, where it says so.
pub open spec fn scaling_kind(file: GgufFile, arch: Seq<char>) -> Option<Seq<char>> {
    match file.meta_str(arch_key(arch, "rope.scaling.type"@)) {
        Some(kind) => if same_letters(kind, "none"@) {
            None
        } else {
            Some(kind)
        },
        None => None,
    }
}

/// The context length that a file was trained at.
pub open spec fn original_context(file: GgufFile, arch: Seq<char>) -> Option<u64> {
    file.meta_u64(arch_key(arch, "rope.scaling.original_context_length"@))
}

/// Why a file's scaling is refused, where `scaled` says whether its
/// factor scales anything.
pub open spec fn yarn_fault(file: GgufFile, arch: Seq<char>, qk_rope_head_dim: usize, scaled: bool) -> Option<
    LoadFault,
> {
    match scaling_kind(file, arch) {
        None => None,
        Some(kind) => if !same_letters(kind, "yarn"@) {
            Some(
                LoadFault::UnsupportedFeature(
                    arch,
                    SAID_KIND@[0]@ + arch + SAID_KIND@[1]@ + kind + SAID_KIND@[2]@,
                ),
            )
        } else if original_context(file, arch) is None {
            Some(
                LoadFault::UnsupportedFeature(
                    arch,
                    SAID_NO_CONTEXT@[0]@ + arch + SAID_NO_CONTEXT@[1]@,
                ),
            )
        } else if scaled && (qk_rope_head_dim == 0 || qk_rope_head_dim % 2 != 0) {
            Some(
                LoadFault::UnsupportedFeature(
                    arch,
                    SAID_BANDS@[0]@ + decimal(qk_rope_head_dim as nat) + SAID_BANDS@[1]@,
                ),
            )
        } else {
            None
        },
    }
}

/// What the factors of a file are computed from; `None` for a file that
/// is not scaled.
pub open spec fn yarn_keys(file: GgufFile, arch: Seq<char>, log_mul: YarnLogMul, scaled: bool) -> Option<
    YarnKeys,
> {
    if scaling_kind(file, arch) is None || !scaled {
        None
    } else {
        Some(
            YarnKeys {
                original_context_length: original_context(file, arch)->0 as usize,
                log_multiplier: match log_mul {
                    YarnLogMul::NotRead => None,
                    YarnLogMul::Read { .. } => file.meta_f32(
                        arch_key(arch, "rope.scaling.yarn_log_multiplier"@),
                    ),
                },
                deepseek2_mscale_rule: log_mul == (YarnLogMul::Read {
                    deepseek2_mscale_rule: true,
                }),
                attn_factor: f32_or(
                    file.meta_f32(arch_key(arch, "rope.scaling.attn_factor"@)),
                    ONE_BITS,
                ),
            },
        )
    }
}

/// Reads the scaling of a file. `scaled` says whether the factor that the
/// file declares scales anything: one that does not leaves the file a
/// plain one.
pub fn resolve_mla_yarn(
    file: &GgufFile,
    arch: &str,
    log_mul: YarnLogMul,
    qk_rope_head_dim: usize,
    scaled: bool,
) -> (r: Result<Option<YarnKeys>, LoadError>)
    ensures
        match yarn_fault(*file, arch@, qk_rope_head_dim, scaled) {
            Some(fault) => r is Err && r->Err_0@ == fault,
            None => r == Ok::<Option<YarnKeys>, LoadError>(
                yarn_keys(*file, arch@, log_mul, scaled),
            ),
        },
{
    let kind = match file.metadata_str(arch_key_text(arch, "rope.scaling.type").as_str()) {
        Some(kind) => kind,
        None => {
            return Ok(None);
        },
    };
    if eq_ignore_ascii_case(kind, "none") {
        return Ok(None);
    }
    if !eq_ignore_ascii_case(kind, "yarn") {
        return Err(
            LoadError::UnsupportedFeature(
                String::from_str(arch),
                String::from_str(SAID_KIND[0]).concat(arch).concat(SAID_KIND[1]).concat(
                    kind,
                ).concat(SAID_KIND[2]),
            ),
        );
    }
    let original_context_length: usize = match file.metadata_u64(
        arch_key_text(arch, "rope.scaling.original_context_length").as_str(),
    ) {
        Some(n) => n as usize,
        None => {
            return Err(
                LoadError::UnsupportedFeature(
                    String::from_str(arch),
                    String::from_str(SAID_NO_CONTEXT[0]).concat(arch).concat(SAID_NO_CONTEXT[1]),
                ),
            );
        },
    };
    if !scaled {
        return Ok(None);
    }
    if qk_rope_head_dim == 0 || qk_rope_head_dim % 2 != 0 {
        return Err(
            LoadError::UnsupportedFeature(
                String::from_str(arch),
                String::from_str(SAID_BANDS[0]).concat(
                    decimal_text(qk_rope_head_dim as u64).as_str(),
                ).concat(SAID_BANDS[1]),
            ),
        );
    }
    let log_multiplier = match log_mul {
        YarnLogMul::NotRead => None,
        YarnLogMul::Read { .. } => file.metadata_f32(
            arch_key_text(arch, "rope.scaling.yarn_log_multiplier").as_str(),
        ),
    };
    let deepseek2_mscale_rule = match log_mul {
        YarnLogMul::Read { deepseek2_mscale_rule } => deepseek2_mscale_rule,
        YarnLogMul::NotRead => false,
    };
    let attn_factor = file.bits_or(
        arch_key_text(arch, "rope.scaling.attn_factor").as_str(),
        ONE_BITS,
    );
    Ok(
        Some(
            YarnKeys {
                original_context_length,
                log_multiplier,
                deepseek2_mscale_rule,
                attn_factor,
            },
        ),
    )
}

/// Which scalings are served: none, whether unsaid or said in whatever
/// letters, and YaRN with the context length it was trained at and, where
/// it scales anything, a rotated width of whole bands. Every other is
/// refused.
pub proof fn which_scalings_are_served(
    file: GgufFile,
    arch: Seq<char>,
    qk_rope_head_dim: usize,
    scaled: bool,
)
    ensures
        file.meta_str(arch + "."@ + "rope.scaling.type"@) is None ==> yarn_fault(
            file,
            arch,
            qk_rope_head_dim,
            scaled,
        ) is None,
        file.meta_str(arch + "."@ + "rope.scaling.type"@) matches Some(kind) ==> (yarn_fault(
            file,
            arch,
            qk_rope_head_dim,
            scaled,
        ) is None <==> same_letters(kind, "none"@) || (same_letters(kind, "yarn"@)
            && file.meta_u64(arch + "."@ + "rope.scaling.original_context_length"@) is Some && (
        scaled ==> qk_rope_head_dim > 0 && qk_rope_head_dim % 2 == 0))),
{
}

/// What is read of a scaled file: the context length it was trained at,
/// the log multiplier only where the architecture's loader reads one, and
/// the attention factor, one where it is not declared. A file whose
/// factor scales nothing, or that declares no scaling, is a plain one.
pub proof fn yarn_keys_are_their_keys(
    file: GgufFile,
    arch: Seq<char>,
    log_mul: YarnLogMul,
    qk_rope_head_dim: usize,
    scaled: bool,
)
    requires
        yarn_fault(file, arch, qk_rope_head_dim, scaled) is None,
    ensures
        !scaled ==> yarn_keys(file, arch, log_mul, scaled) is None,
        file.meta_str(arch + "."@ + "rope.scaling.type"@) is None ==> yarn_keys(
            file,
            arch,
            log_mul,
            scaled,
        ) is None,
        scaled ==> (file.meta_str(arch + "."@ + "rope.scaling.type"@) matches Some(kind)
            ==> !same_letters(kind, "none"@) ==> {
            let keys = yarn_keys(file, arch, log_mul, scaled);
            let length = file.meta_u64(
                arch + "."@ + "rope.scaling.original_context_length"@,
            );
            &&& keys is Some
            &&& length is Some
            &&& keys->0.original_context_length == length->0 as usize
            &&& log_mul is NotRead ==> keys->0.log_multiplier is None
                && !keys->0.deepseek2_mscale_rule
            &&& log_mul matches YarnLogMul::Read { deepseek2_mscale_rule } ==> {
                &&& keys->0.log_multiplier == file.meta_f32(
                    arch + "."@ + "rope.scaling.yarn_log_multiplier"@,
                )
                &&& keys->0.deepseek2_mscale_rule == deepseek2_mscale_rule
            }
            &&& match file.meta_f32(arch + "."@ + "rope.scaling.attn_factor"@) {
                Some(bits) => keys->0.attn_factor == bits,
                None => keys->0.attn_factor == ONE_BITS,
            }
        }),
{
}

} // verus!
