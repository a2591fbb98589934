//! What is known of an architecture: which engine runs it, how it
//! rotates, and which norm it applies.

use crate::text::{contains_name, has_name, str_eq};
use vstd::prelude::*;

verus! {

/// The pairing of a rotary embedding.
#[derive(Debug, Clone, Copy, PartialEq, Eq, Structural)]
pub enum RopeLayout {
    /// Neighbouring elements.
    Norm,
    /// Elements half a head apart.
    Neox,
}

/// What the norms of Q and K run over.
#[derive(Debug, Clone, Copy, PartialEq, Eq, Structural)]
pub enum QkNormStyle {
    WholeVector,
    PerHead,
}

/// What a decoder remembers.
#[derive(Debug, Clone, Copy, PartialEq, Eq, Structural)]
pub enum MemoryKind {
    KvGqa,
    KvMla,
    Recurrent,
}

/// The family of a decoder.
#[derive(Debug, Clone, Copy, PartialEq, Eq, Structural)]
pub enum DecoderFamily {
    StandardGqa,
    GemmaFamily,
    Mla,
    Dedicated,
    Hybrid,
    Recurrent,
    EncoderDecoder,
}

/// How an architecture is run.
#[derive(Debug, Clone, Copy)]
pub enum ArchPath {
    /// On the generic decoder.
    GenericGqa { rope: RopeLayout },
    /// On the generic decoder, in tests only.
    TestFixture { rope: RopeLayout },
    /// Not at all.
    Deferred { reason: &'static str },
    /// On an engine of its own.
    DedicatedOnly { reason: &'static str },
}

/// What is known of an architecture.
#[derive(Debug, Clone, Copy)]
pub struct ArchProfile {
    pub path: ArchPath,
    pub family: DecoderFamily,
}

/// The architectures of the generic decoder, with their rotation.
pub const GENERIC_ROWS: [(&'static str, RopeLayout, DecoderFamily); 34] = [
    ("llama", RopeLayout::Norm, DecoderFamily::StandardGqa),
    ("mistral3", RopeLayout::Norm, DecoderFamily::StandardGqa),
    ("arcee", RopeLayout::Norm, DecoderFamily::StandardGqa),
    ("ernie4_5", RopeLayout::Norm, DecoderFamily::StandardGqa),
    ("ernie4_5-moe", RopeLayout::Norm, DecoderFamily::StandardGqa),
    ("qwen3", RopeLayout::Neox, DecoderFamily::StandardGqa),
    ("qwen3moe", RopeLayout::Neox, DecoderFamily::StandardGqa),
    ("gemma2", RopeLayout::Neox, DecoderFamily::GemmaFamily),
    ("gemma3", RopeLayout::Neox, DecoderFamily::GemmaFamily),
    ("phi3", RopeLayout::Neox, DecoderFamily::StandardGqa),
    ("olmo", RopeLayout::Norm, DecoderFamily::StandardGqa),
    ("olmo2", RopeLayout::Neox, DecoderFamily::StandardGqa),
    ("olmoe", RopeLayout::Neox, DecoderFamily::StandardGqa),
    ("exaone4", RopeLayout::Neox, DecoderFamily::StandardGqa),
    ("exaone-moe", RopeLayout::Neox, DecoderFamily::StandardGqa),
    ("glm4", RopeLayout::Norm, DecoderFamily::StandardGqa),
    ("glm4moe", RopeLayout::Neox, DecoderFamily::StandardGqa),
    ("gpt-oss", RopeLayout::Neox, DecoderFamily::StandardGqa),
    ("seed_oss", RopeLayout::Neox, DecoderFamily::StandardGqa),
    ("grok", RopeLayout::Neox, DecoderFamily::StandardGqa),
    ("dots1", RopeLayout::Neox, DecoderFamily::StandardGqa),
    ("mimo2", RopeLayout::Neox, DecoderFamily::StandardGqa),
    ("nanbeige", RopeLayout::Norm, DecoderFamily::StandardGqa),
    ("hrm-text", RopeLayout::Neox, DecoderFamily::StandardGqa),
    ("deci", RopeLayout::Norm, DecoderFamily::StandardGqa),
    ("openelm", RopeLayout::Neox, DecoderFamily::StandardGqa),
    ("plamo3", RopeLayout::Neox, DecoderFamily::StandardGqa),
    ("laguna", RopeLayout::Neox, DecoderFamily::StandardGqa),
    ("step35", RopeLayout::Neox, DecoderFamily::StandardGqa),
    ("dbrx", RopeLayout::Neox, DecoderFamily::StandardGqa),
    ("orion", RopeLayout::Neox, DecoderFamily::StandardGqa),
    ("nemotron", RopeLayout::Neox, DecoderFamily::StandardGqa),
    ("talkie", RopeLayout::Neox, DecoderFamily::StandardGqa),
    ("bitnet", RopeLayout::Neox, DecoderFamily::StandardGqa),
];

/// The architectures that need an engine of their own, with the reason.
pub const DEDICATED_ROWS: [(&'static str, DecoderFamily, &'static str); 22] = [
    ("deepseek2", DecoderFamily::Mla, "latent attention runs on the MLA engine"),
    ("mistral4", DecoderFamily::Mla, "latent attention runs on the MLA engine"),
    ("plm", DecoderFamily::Mla, "latent attention runs on the MLA engine"),
    ("deepseek32", DecoderFamily::Dedicated, "sparse attention runs on an engine of its own"),
    ("deepseek4", DecoderFamily::Dedicated, "sparse attention runs on an engine of its own"),
    ("glm-dsa", DecoderFamily::Dedicated, "sparse attention runs on the GLM-5.2 engine"),
    ("gemma4", DecoderFamily::GemmaFamily, "shared K/V layers run on the Gemma-4 engine"),
    ("gemma4-assistant", DecoderFamily::GemmaFamily, "shared K/V layers run on the Gemma-4 engine"),
    ("mamba", DecoderFamily::Recurrent, "a recurrent state is no K/V cache"),
    ("mamba2", DecoderFamily::Recurrent, "a recurrent state is no K/V cache"),
    ("falcon-h1", DecoderFamily::Hybrid, "every layer is recurrent beside its attention"),
    ("jamba", DecoderFamily::Hybrid, "some layers are recurrent"),
    ("lfm2", DecoderFamily::Hybrid, "some layers are recurrent"),
    ("lfm2moe", DecoderFamily::Hybrid, "some layers are recurrent"),
    ("nemotron-h", DecoderFamily::Hybrid, "some layers are recurrent"),
    ("plamo2", DecoderFamily::Hybrid, "some layers are recurrent"),
    ("granite-hybrid", DecoderFamily::Hybrid, "some layers are recurrent"),
    ("kimi-linear", DecoderFamily::Hybrid, "some layers are recurrent"),
    ("qwen35", DecoderFamily::Hybrid, "some layers are recurrent"),
    ("qwen35moe", DecoderFamily::Hybrid, "some layers are recurrent"),
    ("qwen3next", DecoderFamily::Hybrid, "some layers are recurrent"),
    ("t5", DecoderFamily::EncoderDecoder, "an encoder runs before the decoder"),
];

/// Architectures of the generic decoder whose graphs are held against
/// recorded runs.
pub const AUDITED_GENERIC_GQA: [&'static str; 4] = ["glm4", "glm4moe", "mimo2", "nanbeige"];

/// Architectures that norm the output of each branch and not its input.
pub const POST_NORM_ONLY_ARCHITECTURES: [&'static str; 2] = ["olmo2", "exaone4"];

/// Architectures whose norm is a layer norm with neither weight nor bias.
pub const NON_PARAMETRIC_LAYER_NORM: [&'static str; 1] = ["olmo"];

/// Architectures whose norm is a root-mean-square norm without a weight.
pub const NON_PARAMETRIC_RMS_NORM: [&'static str; 1] = ["talkie"];

/// Architectures whose norm is a layer norm with a weight and no bias.
pub const WEIGHTED_LAYER_NORM: [&'static str; 1] = ["dbrx"];

/// Architectures whose norm is a layer norm with a weight and a bias.
pub const BIASED_LAYER_NORM: [&'static str; 2] = ["orion", "nemotron"];

/// The first row of the generic decoder with this name, from row `i` on.
pub open spec fn generic_row(arch: Seq<char>, i: int) -> Option<int>
    decreases GENERIC_ROWS@.len() - i,
{
    if i < 0 || i >= GENERIC_ROWS@.len() {
        None
    } else if GENERIC_ROWS@[i].0@ == arch {
        Some(i)
    } else {
        generic_row(arch, i + 1)
    }
}

/// The first dedicated row with this name, from row `i` on.
pub open spec fn dedicated_row(arch: Seq<char>, i: int) -> Option<int>
    decreases DEDICATED_ROWS@.len() - i,
{
    if i < 0 || i >= DEDICATED_ROWS@.len() {
        None
    } else if DEDICATED_ROWS@[i].0@ == arch {
        Some(i)
    } else {
        dedicated_row(arch, i + 1)
    }
}

/// What is known of `arch`.
pub open spec fn profile_of(arch: Seq<char>) -> Option<ArchProfile> {
    match generic_row(arch, 0) {
        Some(i) => Some(
            ArchProfile {
                path: ArchPath::GenericGqa { rope: GENERIC_ROWS@[i].1 },
                family: GENERIC_ROWS@[i].2,
            },
        ),
        None => match dedicated_row(arch, 0) {
            Some(i) => Some(
                ArchProfile {
                    path: ArchPath::DedicatedOnly { reason: DEDICATED_ROWS@[i].2 },
                    family: DEDICATED_ROWS@[i].1,
                },
            ),
            None => None,
        },
    }
}

/// What is known of `arch`; nothing, where it is in no table.
pub fn resolve_profile(arch: &str) -> (profile: Option<ArchProfile>)
    ensures
        profile == profile_of(arch@),
{
    let mut i: usize = 0;
    while i < GENERIC_ROWS.len()
        invariant
            i <= GENERIC_ROWS@.len(),
            generic_row(arch@, 0) == generic_row(arch@, i as int),
        decreases GENERIC_ROWS@.len() - i,
    {
        let row = GENERIC_ROWS[i];
        if str_eq(row.0, arch) {
            return Some(
                ArchProfile { path: ArchPath::GenericGqa { rope: row.1 }, family: row.2 },
            );
        }
        i += 1;
    }
    i = 0;
    while i < DEDICATED_ROWS.len()
        invariant
            i <= DEDICATED_ROWS@.len(),
            generic_row(arch@, 0) is None,
            dedicated_row(arch@, 0) == dedicated_row(arch@, i as int),
        decreases DEDICATED_ROWS@.len() - i,
    {
        let row = DEDICATED_ROWS[i];
        if str_eq(row.0, arch) {
            return Some(
                ArchProfile { path: ArchPath::DedicatedOnly { reason: row.2 }, family: row.1 },
            );
        }
        i += 1;
    }
    None
}

/// Whether `arch` runs on the generic decoder.
pub open spec fn runs_generic(arch: Seq<char>) -> bool {
    profile_of(arch) matches Some(p) && p.path is GenericGqa
}

/// A row of the generic table makes its architecture run on the generic
/// decoder.
pub proof fn generic_rows_run(i: int)
    requires
        0 <= i < GENERIC_ROWS@.len(),
    ensures
        runs_generic(GENERIC_ROWS@[i].0@),
{
    later_row_is_found(GENERIC_ROWS@[i].0@, 0, i);
}

proof fn later_row_is_found(arch: Seq<char>, k: int, i: int)
    requires
        0 <= k <= i < GENERIC_ROWS@.len(),
        GENERIC_ROWS@[i].0@ == arch,
    ensures
        generic_row(arch, k) is Some,
    decreases i - k,
{
    if GENERIC_ROWS@[k].0@ != arch {
        later_row_is_found(arch, k + 1, i);
    }
}

/// Whether `arch` norms the output of each branch and not its input.
pub fn is_post_norm_only(arch: &str) -> (yes: bool)
    ensures
        yes == has_name(POST_NORM_ONLY_ARCHITECTURES@, arch@),
{
    contains_name(POST_NORM_ONLY_ARCHITECTURES.as_slice(), arch)
}

/// Whether the norm of `arch` is a layer norm without parameters.
pub fn uses_non_parametric_layer_norm(arch: &str) -> (yes: bool)
    ensures
        yes == has_name(NON_PARAMETRIC_LAYER_NORM@, arch@),
{
    contains_name(NON_PARAMETRIC_LAYER_NORM.as_slice(), arch)
}

/// Whether the norm of `arch` is a root-mean-square norm without a
/// weight.
pub fn uses_non_parametric_rms_norm(arch: &str) -> (yes: bool)
    ensures
        yes == has_name(NON_PARAMETRIC_RMS_NORM@, arch@),
{
    contains_name(NON_PARAMETRIC_RMS_NORM.as_slice(), arch)
}

/// Whether the norm of `arch` is a layer norm with a weight and no bias.
pub fn uses_weighted_layer_norm(arch: &str) -> (yes: bool)
    ensures
        yes == has_name(WEIGHTED_LAYER_NORM@, arch@),
{
    contains_name(WEIGHTED_LAYER_NORM.as_slice(), arch)
}

/// Whether the norm of `arch` is a layer norm with a weight and a bias.
pub fn uses_biased_layer_norm(arch: &str) -> (yes: bool)
    ensures
        yes == has_name(BIASED_LAYER_NORM@, arch@),
{
    contains_name(BIASED_LAYER_NORM.as_slice(), arch)
}

/// No architecture is on two of the lists that name a norm, nor on one of
/// them and among those without a norm before a branch: each is answered
/// one way, whatever the order of the questions.
pub proof fn norm_lists_are_disjoint(arch: Seq<char>)
    ensures
        has_name(NON_PARAMETRIC_LAYER_NORM@, arch) ==> !has_name(NON_PARAMETRIC_RMS_NORM@, arch)
            && !has_name(WEIGHTED_LAYER_NORM@, arch) && !has_name(BIASED_LAYER_NORM@, arch)
            && !has_name(POST_NORM_ONLY_ARCHITECTURES@, arch),
        has_name(NON_PARAMETRIC_RMS_NORM@, arch) ==> !has_name(WEIGHTED_LAYER_NORM@, arch)
            && !has_name(BIASED_LAYER_NORM@, arch) && !has_name(
            POST_NORM_ONLY_ARCHITECTURES@,
            arch,
        ),
        has_name(WEIGHTED_LAYER_NORM@, arch) ==> !has_name(BIASED_LAYER_NORM@, arch) && !has_name(
            POST_NORM_ONLY_ARCHITECTURES@,
            arch,
        ),
        has_name(BIASED_LAYER_NORM@, arch) ==> !has_name(POST_NORM_ONLY_ARCHITECTURES@, arch),
{
    reveal_strlit("olmo");
    reveal_strlit("talkie");
    reveal_strlit("dbrx");
    reveal_strlit("orion");
    reveal_strlit("nemotron");
    reveal_strlit("olmo2");
    reveal_strlit("exaone4");
    assert("olmo"@[0] == 'o' && "dbrx"@[0] == 'd' && "talkie"@[0] == 't' && "orion"@[0] == 'o'
        && "nemotron"@[0] == 'n' && "exaone4"@[0] == 'e');
    assert("olmo"@.len() == 4 && "olmo2"@.len() == 5 && "orion"@.len() == 5);
    assert("orion"@[1] == 'r' && "olmo2"@[1] == 'l' && "olmo2"@[0] == 'o');
}

proof fn generic_row_is(arch: Seq<char>, k: int)
    requires
        0 <= k,
    ensures
        generic_row(arch, k) matches Some(i) ==> k <= i < GENERIC_ROWS@.len()
            && GENERIC_ROWS@[i].0@ == arch,
        generic_row(arch, k) is None ==> forall|i: int|
            k <= i < GENERIC_ROWS@.len() ==> (#[trigger] GENERIC_ROWS@[i]).0@ != arch,
    decreases GENERIC_ROWS@.len() - k,
{
    if k < GENERIC_ROWS@.len() && GENERIC_ROWS@[k].0@ != arch {
        generic_row_is(arch, k + 1);
    }
}

proof fn dedicated_row_is(arch: Seq<char>, k: int)
    requires
        0 <= k,
    ensures
        dedicated_row(arch, k) matches Some(i) ==> k <= i < DEDICATED_ROWS@.len()
            && DEDICATED_ROWS@[i].0@ == arch,
        dedicated_row(arch, k) is None ==> forall|i: int|
            k <= i < DEDICATED_ROWS@.len() ==> (#[trigger] DEDICATED_ROWS@[i]).0@ != arch,
    decreases DEDICATED_ROWS@.len() - k,
{
    if k < DEDICATED_ROWS@.len() && DEDICATED_ROWS@[k].0@ != arch {
        dedicated_row_is(arch, k + 1);
    }
}

/// How each architecture of the generic decoder rotates: neighbours in
/// pairs, or elements half a head apart. No other architecture runs on
/// the generic decoder, and each of these does.
pub proof fn how_a_generic_architecture_rotates(arch: Seq<char>)
    ensures
        profile_of(arch) matches Some(p) ==> (p.path matches ArchPath::GenericGqa { rope } ==> {
            &&& rope == RopeLayout::Norm ==> {
                ||| arch == "llama"@
                ||| arch == "mistral3"@
                ||| arch == "arcee"@
                ||| arch == "ernie4_5"@
                ||| arch == "ernie4_5-moe"@
                ||| arch == "olmo"@
                ||| arch == "glm4"@
                ||| arch == "nanbeige"@
                ||| arch == "deci"@
            }
            &&& rope == RopeLayout::Neox ==> {
                ||| arch == "qwen3"@
                ||| arch == "qwen3moe"@
                ||| arch == "gemma2"@
                ||| arch == "gemma3"@
                ||| arch == "phi3"@
                ||| arch == "olmo2"@
                ||| arch == "olmoe"@
                ||| arch == "exaone4"@
                ||| arch == "exaone-moe"@
                ||| arch == "glm4moe"@
                ||| arch == "gpt-oss"@
                ||| arch == "seed_oss"@
                ||| arch == "grok"@
                ||| arch == "dots1"@
                ||| arch == "mimo2"@
                ||| arch == "hrm-text"@
                ||| arch == "openelm"@
                ||| arch == "plamo3"@
                ||| arch == "laguna"@
                ||| arch == "step35"@
                ||| arch == "dbrx"@
                ||| arch == "orion"@
                ||| arch == "nemotron"@
                ||| arch == "talkie"@
                ||| arch == "bitnet"@
            }
            &&& p.family == DecoderFamily::StandardGqa || p.family == DecoderFamily::GemmaFamily
            &&& p.family == DecoderFamily::GemmaFamily ==> {
                ||| arch == "gemma2"@
                ||| arch == "gemma3"@
            }
        }),
        ({
            ||| arch == "llama"@
            ||| arch == "mistral3"@
            ||| arch == "arcee"@
            ||| arch == "ernie4_5"@
            ||| arch == "ernie4_5-moe"@
            ||| arch == "qwen3"@
            ||| arch == "qwen3moe"@
            ||| arch == "gemma2"@
            ||| arch == "gemma3"@
            ||| arch == "phi3"@
            ||| arch == "olmo"@
            ||| arch == "olmo2"@
            ||| arch == "olmoe"@
            ||| arch == "exaone4"@
            ||| arch == "exaone-moe"@
            ||| arch == "glm4"@
            ||| arch == "glm4moe"@
            ||| arch == "gpt-oss"@
            ||| arch == "seed_oss"@
            ||| arch == "grok"@
            ||| arch == "dots1"@
            ||| arch == "mimo2"@
            ||| arch == "nanbeige"@
            ||| arch == "hrm-text"@
            ||| arch == "deci"@
            ||| arch == "openelm"@
            ||| arch == "plamo3"@
            ||| arch == "laguna"@
            ||| arch == "step35"@
            ||| arch == "dbrx"@
            ||| arch == "orion"@
            ||| arch == "nemotron"@
            ||| arch == "talkie"@
            ||| arch == "bitnet"@
        }) ==> runs_generic(arch),
{
    generic_row_is(arch, 0);
    let t = GENERIC_ROWS@;
    assert(t.len() == 34);
    assert(t[0].0@ == "llama"@);
    assert(t[1].0@ == "mistral3"@);
    assert(t[2].0@ == "arcee"@);
    assert(t[3].0@ == "ernie4_5"@);
    assert(t[4].0@ == "ernie4_5-moe"@);
    assert(t[5].0@ == "qwen3"@);
    assert(t[6].0@ == "qwen3moe"@);
    assert(t[7].0@ == "gemma2"@);
    assert(t[8].0@ == "gemma3"@);
    assert(t[9].0@ == "phi3"@);
    assert(t[10].0@ == "olmo"@);
    assert(t[11].0@ == "olmo2"@);
    assert(t[12].0@ == "olmoe"@);
    assert(t[13].0@ == "exaone4"@);
    assert(t[14].0@ == "exaone-moe"@);
    assert(t[15].0@ == "glm4"@);
    assert(t[16].0@ == "glm4moe"@);
    assert(t[17].0@ == "gpt-oss"@);
    assert(t[18].0@ == "seed_oss"@);
    assert(t[19].0@ == "grok"@);
    assert(t[20].0@ == "dots1"@);
    assert(t[21].0@ == "mimo2"@);
    assert(t[22].0@ == "nanbeige"@);
    assert(t[23].0@ == "hrm-text"@);
    assert(t[24].0@ == "deci"@);
    assert(t[25].0@ == "openelm"@);
    assert(t[26].0@ == "plamo3"@);
    assert(t[27].0@ == "laguna"@);
    assert(t[28].0@ == "step35"@);
    assert(t[29].0@ == "dbrx"@);
    assert(t[30].0@ == "orion"@);
    assert(t[31].0@ == "nemotron"@);
    assert(t[32].0@ == "talkie"@);
    assert(t[33].0@ == "bitnet"@);
}

/// Which engine an architecture that needs one of its own belongs to: the
/// families and their members. An architecture that no table holds is not
/// known.
pub proof fn which_family_a_dedicated_architecture_is_of(arch: Seq<char>)
    ensures
        profile_of(arch) matches Some(p) ==> (p.path is DedicatedOnly ==> {
            &&& p.family == DecoderFamily::Mla ==> {
                ||| arch == "deepseek2"@
                ||| arch == "mistral4"@
                ||| arch == "plm"@
            }
            &&& p.family == DecoderFamily::Dedicated ==> {
                ||| arch == "deepseek32"@
                ||| arch == "deepseek4"@
                ||| arch == "glm-dsa"@
            }
            &&& p.family == DecoderFamily::GemmaFamily ==> {
                ||| arch == "gemma4"@
                ||| arch == "gemma4-assistant"@
            }
            &&& p.family == DecoderFamily::Recurrent ==> {
                ||| arch == "mamba"@
                ||| arch == "mamba2"@
            }
            &&& p.family == DecoderFamily::Hybrid ==> {
                ||| arch == "falcon-h1"@
                ||| arch == "jamba"@
                ||| arch == "lfm2"@
                ||| arch == "lfm2moe"@
                ||| arch == "nemotron-h"@
                ||| arch == "plamo2"@
                ||| arch == "granite-hybrid"@
                ||| arch == "kimi-linear"@
                ||| arch == "qwen35"@
                ||| arch == "qwen35moe"@
                ||| arch == "qwen3next"@
            }
            &&& p.family == DecoderFamily::EncoderDecoder ==> {
                ||| arch == "t5"@
            }
            &&& p.family != DecoderFamily::StandardGqa
        }),
        profile_of(arch) matches Some(p) ==> p.path is GenericGqa || p.path is DedicatedOnly,
        ({
            ||| arch == "deepseek2"@
            ||| arch == "mistral4"@
            ||| arch == "plm"@
            ||| arch == "deepseek32"@
            ||| arch == "deepseek4"@
            ||| arch == "glm-dsa"@
            ||| arch == "gemma4"@
            ||| arch == "gemma4-assistant"@
            ||| arch == "mamba"@
            ||| arch == "mamba2"@
            ||| arch == "falcon-h1"@
            ||| arch == "jamba"@
            ||| arch == "lfm2"@
            ||| arch == "lfm2moe"@
            ||| arch == "nemotron-h"@
            ||| arch == "plamo2"@
            ||| arch == "granite-hybrid"@
            ||| arch == "kimi-linear"@
            ||| arch == "qwen35"@
            ||| arch == "qwen35moe"@
            ||| arch == "qwen3next"@
            ||| arch == "t5"@
        }) ==> profile_of(arch) is Some,
{
    generic_row_is(arch, 0);
    dedicated_row_is(arch, 0);
    let t = DEDICATED_ROWS@;
    assert(t.len() == 22);
    assert(t[0].0@ == "deepseek2"@);
    assert(t[1].0@ == "mistral4"@);
    assert(t[2].0@ == "plm"@);
    assert(t[3].0@ == "deepseek32"@);
    assert(t[4].0@ == "deepseek4"@);
    assert(t[5].0@ == "glm-dsa"@);
    assert(t[6].0@ == "gemma4"@);
    assert(t[7].0@ == "gemma4-assistant"@);
    assert(t[8].0@ == "mamba"@);
    assert(t[9].0@ == "mamba2"@);
    assert(t[10].0@ == "falcon-h1"@);
    assert(t[11].0@ == "jamba"@);
    assert(t[12].0@ == "lfm2"@);
    assert(t[13].0@ == "lfm2moe"@);
    assert(t[14].0@ == "nemotron-h"@);
    assert(t[15].0@ == "plamo2"@);
    assert(t[16].0@ == "granite-hybrid"@);
    assert(t[17].0@ == "kimi-linear"@);
    assert(t[18].0@ == "qwen35"@);
    assert(t[19].0@ == "qwen35moe"@);
    assert(t[20].0@ == "qwen3next"@);
    assert(t[21].0@ == "t5"@);
}

} // verus!
