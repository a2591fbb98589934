//! Which engine runs an architecture, decided when a file is loaded.

use crate::capability::{profile_of, resolve_profile, ArchPath, ArchProfile, DecoderFamily};
use crate::decoder::Decoder;
use crate::engine::MlaEngine;
use crate::gemma4_engine::{Gemma4Engine, Gemma4Hparams, GEMMA4_ARCHES};
use crate::gguf::{quoted_chars, quoted_text, GgufFile, ARCH_KEY};
use crate::glm52_decoder::Glm52Engine;
use crate::glm52_gguf_loader::Glm52FileMeta;
use crate::kimi_decoder::KimiEngine;
use crate::load_error::{LoadError, LoadFault};
use crate::mla_gguf_loader::Deepseek2Hparams;
use crate::text::{contains_name, has_name, str_eq};
use vstd::prelude::*;
use vstd::string::StringExecFns;

verus! {

/// Why no engine runs an architecture.
#[derive(Debug)]
pub enum EngineSelectError {
    OutOfScope(String, &'static str),
    DedicatedUnavailable(String, &'static str),
    Unknown(String),
}

/// The model of an [`EngineSelectError`].
pub enum SelectFault {
    OutOfScope(Seq<char>, Seq<char>),
    DedicatedUnavailable(Seq<char>, Seq<char>),
    Unknown(Seq<char>),
}

impl View for EngineSelectError {
    type V = SelectFault;

    open spec fn view(&self) -> SelectFault {
        match self {
            EngineSelectError::OutOfScope(arch, why) => SelectFault::OutOfScope(arch@, why@),
            EngineSelectError::DedicatedUnavailable(arch, why) => SelectFault::DedicatedUnavailable(
                arch@,
                why@,
            ),
            EngineSelectError::Unknown(arch) => SelectFault::Unknown(arch@),
        }
    }
}

/// What a refusal says.
pub open spec fn select_fault_chars(fault: SelectFault) -> Seq<char> {
    match fault {
        SelectFault::OutOfScope(arch, why) => "architecture "@ + quoted_chars(arch)
            + " is outside the text-generation scope ("@ + why + ")"@,
        SelectFault::DedicatedUnavailable(arch, why) => "architecture "@ + quoted_chars(arch)
            + " requires a dedicated engine that is not wired for serve yet: "@ + why,
        SelectFault::Unknown(arch) => "unknown or unsupported architecture "@ + quoted_chars(arch),
    }
}

impl EngineSelectError {
    /// What the refusal says.
    pub fn message(&self) -> (t: String)
        ensures
            t@ == select_fault_chars(self@),
    {
        match self {
            EngineSelectError::OutOfScope(arch, why) => String::from_str("architecture ").concat(
                quoted_text(arch.as_str()).as_str(),
            ).concat(" is outside the text-generation scope (").concat(why).concat(")"),
            EngineSelectError::DedicatedUnavailable(arch, why) => String::from_str(
                "architecture ",
            ).concat(quoted_text(arch.as_str()).as_str()).concat(
                " requires a dedicated engine that is not wired for serve yet: ",
            ).concat(why),
            EngineSelectError::Unknown(arch) => String::from_str(
                "unknown or unsupported architecture ",
            ).concat(quoted_text(arch.as_str()).as_str()),
        }
    }
}

/// The kind of engine that runs an architecture.
#[derive(Debug, Clone, Copy, PartialEq, Eq, Structural)]
pub enum SelectedEngineKind {
    GenericDecoder,
    DedicatedStack,
    Mla,
    Gemma4,
    RecurrentHybrid,
    EncoderDecoder,
}

/// The kind of engine for an architecture of which this much is known, or
/// why there is none.
pub open spec fn kind_for(arch: Seq<char>, profile: Option<ArchProfile>) -> Result<
    SelectedEngineKind,
    SelectFault,
> {
    match profile {
        None => Err(SelectFault::Unknown(arch)),
        Some(p) => match p.path {
            ArchPath::GenericGqa { .. } | ArchPath::TestFixture { .. } => Ok(
                SelectedEngineKind::GenericDecoder,
            ),
            ArchPath::Deferred { reason } => Err(SelectFault::OutOfScope(arch, reason@)),
            ArchPath::DedicatedOnly { reason } => match p.family {
                DecoderFamily::Dedicated => Ok(SelectedEngineKind::DedicatedStack),
                DecoderFamily::Mla => Ok(SelectedEngineKind::Mla),
                DecoderFamily::Hybrid | DecoderFamily::Recurrent => Ok(
                    SelectedEngineKind::RecurrentHybrid,
                ),
                DecoderFamily::EncoderDecoder => Ok(SelectedEngineKind::EncoderDecoder),
                DecoderFamily::GemmaFamily => if has_name(GEMMA4_ARCHES@, arch) {
                    Ok(SelectedEngineKind::Gemma4)
                } else {
                    Err(SelectFault::DedicatedUnavailable(arch, reason@))
                },
                DecoderFamily::StandardGqa => Err(
                    SelectFault::DedicatedUnavailable(arch, reason@),
                ),
            },
        },
    }
}

fn is_gemma4_arch(arch: &str) -> (yes: bool)
    ensures
        yes == has_name(GEMMA4_ARCHES@, arch@),
{
    contains_name(GEMMA4_ARCHES.as_slice(), arch)
}

fn is_glm52_arch(arch: &str) -> (yes: bool)
    ensures
        yes == (arch@ == "glm-dsa"@),
{
    str_eq(arch, "glm-dsa")
}

/// The kind of engine for an architecture of which this much is known.
pub fn select_for_profile(arch: &str, profile: Option<ArchProfile>) -> (r: Result<
    SelectedEngineKind,
    EngineSelectError,
>)
    ensures
        match kind_for(arch@, profile) {
            Ok(kind) => r == Ok::<SelectedEngineKind, EngineSelectError>(kind),
            Err(fault) => r is Err && r->Err_0@ == fault,
        },
{
    let p = match profile {
        Some(p) => p,
        None => {
            return Err(EngineSelectError::Unknown(String::from_str(arch)));
        },
    };
    match p.path {
        ArchPath::GenericGqa { .. } | ArchPath::TestFixture { .. } => Ok(
            SelectedEngineKind::GenericDecoder,
        ),
        ArchPath::Deferred { reason } => Err(
            EngineSelectError::OutOfScope(String::from_str(arch), reason),
        ),
        ArchPath::DedicatedOnly { reason } => match p.family {
            DecoderFamily::Dedicated => Ok(SelectedEngineKind::DedicatedStack),
            DecoderFamily::Mla => Ok(SelectedEngineKind::Mla),
            DecoderFamily::Hybrid | DecoderFamily::Recurrent => Ok(
                SelectedEngineKind::RecurrentHybrid,
            ),
            DecoderFamily::EncoderDecoder => Ok(SelectedEngineKind::EncoderDecoder),
            DecoderFamily::GemmaFamily => if is_gemma4_arch(arch) {
                Ok(SelectedEngineKind::Gemma4)
            } else {
                Err(EngineSelectError::DedicatedUnavailable(String::from_str(arch), reason))
            },
            DecoderFamily::StandardGqa => Err(
                EngineSelectError::DedicatedUnavailable(String::from_str(arch), reason),
            ),
        },
    }
}

/// The kind of engine that `arch` runs on.
pub fn select_engine_kind(arch: &str) -> (r: Result<SelectedEngineKind, EngineSelectError>)
    ensures
        match kind_for(arch@, profile_of(arch@)) {
            Ok(kind) => r == Ok::<SelectedEngineKind, EngineSelectError>(kind),
            Err(fault) => r is Err && r->Err_0@ == fault,
        },
{
    select_for_profile(arch, resolve_profile(arch))
}

/// Where an architecture goes that the generic decoder does not run: a
/// word for each kind of engine, the GLM-5.2 stack before the others of
/// its kind.
pub const GO_ELSEWHERE: [&'static str; 6] = [
    "use load_glm52_engine_from_path / ServedEngine::Glm52 — not generic Decoder",
    "use the dedicated Kimi/GLM/DeepSeek loader, not generic Decoder",
    "use load_mla_engine_from_path / ServedEngine::Mla — not generic Decoder",
    "use load_gemma4_engine_from_path / ServedEngine::Gemma4 — not generic Decoder",
    "recurrent/hybrid SSM engine stub present — not yet on the serve path",
    "T5 encoder-decoder engine stub present — not yet on the serve path",
];

/// Why the generic decoder does not run `arch`.
pub open spec fn generic_fault(arch: Seq<char>, kind: Result<SelectedEngineKind, SelectFault>) -> Option<
    SelectFault,
> {
    match kind {
        Err(fault) => Some(fault),
        Ok(SelectedEngineKind::GenericDecoder) => None,
        Ok(other) => Some(
            SelectFault::DedicatedUnavailable(
                arch,
                match other {
                    SelectedEngineKind::DedicatedStack => if arch == "glm-dsa"@ {
                        GO_ELSEWHERE@[0]@
                    } else {
                        GO_ELSEWHERE@[1]@
                    },
                    SelectedEngineKind::Mla => GO_ELSEWHERE@[2]@,
                    SelectedEngineKind::Gemma4 => GO_ELSEWHERE@[3]@,
                    SelectedEngineKind::RecurrentHybrid => GO_ELSEWHERE@[4]@,
                    _ => GO_ELSEWHERE@[5]@,
                },
            ),
        ),
    }
}

/// Refuses an architecture that needs another engine than the generic
/// decoder.
pub fn ensure_generic_decoder(arch: &str) -> (r: Result<(), EngineSelectError>)
    ensures
        match generic_fault(arch@, kind_for(arch@, profile_of(arch@))) {
            Some(fault) => r is Err && r->Err_0@ == fault,
            None => r is Ok,
        },
{
    let why: &'static str = match select_engine_kind(arch)? {
        SelectedEngineKind::GenericDecoder => {
            return Ok(());
        },
        SelectedEngineKind::DedicatedStack => if is_glm52_arch(arch) {
            GO_ELSEWHERE[0]
        } else {
            GO_ELSEWHERE[1]
        },
        SelectedEngineKind::Mla => GO_ELSEWHERE[2],
        SelectedEngineKind::Gemma4 => GO_ELSEWHERE[3],
        SelectedEngineKind::RecurrentHybrid => GO_ELSEWHERE[4],
        SelectedEngineKind::EncoderDecoder => GO_ELSEWHERE[5],
    };
    Err(EngineSelectError::DedicatedUnavailable(String::from_str(arch), why))
}

/// The generic decoder takes exactly the architectures that it is
/// selected for.
pub proof fn generic_where_selected(arch: Seq<char>)
    ensures
        generic_fault(arch, kind_for(arch, profile_of(arch))) is None <==> kind_for(
            arch,
            profile_of(arch),
        ) == Ok::<SelectedEngineKind, SelectFault>(SelectedEngineKind::GenericDecoder),
{
}

/// An engine that serves.
#[derive(Debug)]
pub enum ServedEngine {
    Decoder(Box<Decoder>),
    Kimi(KimiEngine),
    Glm52(Glm52Engine),
    Mla(MlaEngine),
    Gemma4(Box<Gemma4Engine>),
}

impl ServedEngine {
    /// How many tokens the engine scores.
    pub open spec fn scores(&self) -> usize {
        match self {
            ServedEngine::Decoder(d) => d.vocab_size,
            ServedEngine::Kimi(k) => k.weights.output_head.n_rows(),
            ServedEngine::Glm52(g) => g.weights.output_head.n_rows(),
            ServedEngine::Mla(m) => m.output_head.n_rows(),
            ServedEngine::Gemma4(g) => g.weights.output_head.n_rows(),
        }
    }

    /// How many tokens the engine scores.
    pub fn vocab_size(&self) -> (n: usize)
        ensures
            n == self.scores(),
    {
        match self {
            ServedEngine::Decoder(d) => d.vocab_size,
            ServedEngine::Kimi(k) => k.vocab_size(),
            ServedEngine::Glm52(g) => g.vocab_size(),
            ServedEngine::Mla(m) => m.vocab_size(),
            ServedEngine::Gemma4(g) => g.vocab_size(),
        }
    }
}

/// What is said of a file that another engine runs, for each kind of
/// engine, by a loader of MLA files.
pub const NOT_MLA: [&'static str; 6] = [
    "generic decoder arch, not MLA",
    "dedicated non-MLA stack",
    "",
    "gemma4 dedicated, not MLA",
    "hybrid/recurrent, not MLA",
    "encoder-decoder, not MLA",
];

/// The same, by a loader of GLM-5.2 files.
pub const NOT_GLM52: [&'static str; 6] = [
    "generic decoder arch, not GLM DSA",
    "",
    "MLA arch, not GLM DSA",
    "gemma4 dedicated, not GLM DSA",
    "hybrid/recurrent, not GLM DSA",
    "encoder-decoder, not GLM DSA",
];

/// The same, by a loader of Gemma-4 files.
pub const NOT_GEMMA4: [&'static str; 6] = [
    "generic decoder arch, not Gemma4",
    "dedicated non-Gemma4 stack",
    "MLA arch, not Gemma4",
    "",
    "hybrid/recurrent, not Gemma4",
    "encoder-decoder, not Gemma4",
];

/// What a loader of GLM-5.2 files says of another architecture.
pub const SAID_NOT_GLM52: &'static str = "not a GLM-5.2 architecture (expected glm-dsa)";

/// What a loader of Gemma-4 files says of another architecture.
pub const SAID_NOT_GEMMA4: &'static str = "not a gemma4 / gemma4-assistant architecture";

/// The place of a kind in those lists.
pub open spec fn place_of(kind: SelectedEngineKind) -> int {
    match kind {
        SelectedEngineKind::GenericDecoder => 0,
        SelectedEngineKind::DedicatedStack => 1,
        SelectedEngineKind::Mla => 2,
        SelectedEngineKind::Gemma4 => 3,
        SelectedEngineKind::RecurrentHybrid => 4,
        SelectedEngineKind::EncoderDecoder => 5,
    }
}

/// Why a loader for one kind of engine refuses `arch`.
pub open spec fn kind_fault(
    arch: Seq<char>,
    wanted: SelectedEngineKind,
    said: Seq<&'static str>,
) -> Option<LoadFault> {
    match kind_for(arch, profile_of(arch)) {
        Ok(kind) => if kind == wanted {
            None
        } else {
            Some(LoadFault::DedicatedArchitectureRequired(arch, said[place_of(kind)]@))
        },
        Err(SelectFault::Unknown(a)) => Some(LoadFault::UnsupportedArchitecture(a)),
        Err(SelectFault::OutOfScope(a, why)) => Some(LoadFault::UnsupportedFeature(a, why)),
        Err(SelectFault::DedicatedUnavailable(a, why)) => Some(
            LoadFault::DedicatedArchitectureRequired(a, why),
        ),
    }
}

fn check_kind(arch: &str, wanted: SelectedEngineKind, said: &[&'static str; 6]) -> (r: Result<
    (),
    LoadError,
>)
    ensures
        match kind_fault(arch@, wanted, said@) {
            Some(fault) => r is Err && r->Err_0@ == fault,
            None => r is Ok,
        },
{
    match select_engine_kind(arch) {
        Ok(kind) => {
            if kind == wanted {
                return Ok(());
            }
            let at: usize = match kind {
                SelectedEngineKind::GenericDecoder => 0,
                SelectedEngineKind::DedicatedStack => 1,
                SelectedEngineKind::Mla => 2,
                SelectedEngineKind::Gemma4 => 3,
                SelectedEngineKind::RecurrentHybrid => 4,
                SelectedEngineKind::EncoderDecoder => 5,
            };
            Err(LoadError::DedicatedArchitectureRequired(String::from_str(arch), said[at]))
        },
        Err(EngineSelectError::Unknown(a)) => Err(LoadError::UnsupportedArchitecture(a)),
        Err(EngineSelectError::OutOfScope(a, why)) => Err(
            LoadError::UnsupportedFeature(a, String::from_str(why)),
        ),
        Err(EngineSelectError::DedicatedUnavailable(a, why)) => Err(
            LoadError::DedicatedArchitectureRequired(a, why),
        ),
    }
}

/// The architecture that a file declares; `unknown` where it declares
/// none.
pub open spec fn declared_arch(file: GgufFile) -> Seq<char> {
    match file.meta_str(ARCH_KEY@) {
        Some(arch) => arch,
        None => "unknown"@,
    }
}

fn arch_of(file: &GgufFile) -> (arch: &str)
    ensures
        arch@ == declared_arch(*file),
{
    match file.metadata_str(ARCH_KEY) {
        Some(arch) => arch,
        None => "unknown",
    }
}

/// Why an MLA file is refused before it is read.
pub open spec fn mla_gate(file: GgufFile) -> Option<LoadFault> {
    kind_fault(declared_arch(file), SelectedEngineKind::Mla, NOT_MLA@)
}

/// Why a GLM-5.2 file is refused before it is read.
pub open spec fn glm52_gate(file: GgufFile) -> Option<LoadFault> {
    let arch = declared_arch(file);
    if arch != "glm-dsa"@ {
        Some(LoadFault::DedicatedArchitectureRequired(arch, SAID_NOT_GLM52@))
    } else {
        kind_fault(arch, SelectedEngineKind::DedicatedStack, NOT_GLM52@)
    }
}

/// Why a Gemma-4 file is refused before it is read.
pub open spec fn gemma4_gate(file: GgufFile) -> Option<LoadFault> {
    let arch = declared_arch(file);
    if !has_name(GEMMA4_ARCHES@, arch) {
        Some(LoadFault::DedicatedArchitectureRequired(arch, SAID_NOT_GEMMA4@))
    } else {
        kind_fault(arch, SelectedEngineKind::Gemma4, NOT_GEMMA4@)
    }
}

/// What loading an MLA file gives.
pub open spec fn mla_loads(file: GgufFile, e: Result<MlaEngine, LoadError>) -> bool {
    match crate::mla_gguf_loader::hparams_fault(file) {
        Some(fault) => e is Err && e->Err_0@ == fault,
        None => exists|hp: Deepseek2Hparams| #[trigger]
            crate::mla_gguf_loader::hparams_are(file, hp)
                && match crate::mla_gguf_loader::weights_fault(file, hp) {
                Some(fault) => e is Err && e->Err_0@ == fault,
                None => e is Ok && crate::mla_gguf_loader::engine_is(file, hp, e->Ok_0),
            },
    }
}

/// What loading a GLM-5.2 file gives.
pub open spec fn glm52_loads(file: GgufFile, e: Result<Glm52Engine, LoadError>) -> bool {
    match crate::glm52_gguf_loader::hparams_fault(file) {
        Some(fault) => e is Err && e->Err_0@ == fault,
        None => exists|m: Glm52FileMeta| #[trigger]
            crate::glm52_gguf_loader::meta_is(file, m)
                && match crate::glm52_gguf_loader::weights_fault(
                file,
                crate::glm52_gguf_loader::sizes_of(file, m.arch@),
                m.leading_dense,
                m.n_layer,
            ) {
                Some(fault) => e is Err && e->Err_0@ == fault,
                None => e is Ok && crate::glm52_gguf_loader::engine_is(
                    file,
                    crate::glm52_gguf_loader::sizes_of(file, m.arch@),
                    m,
                    e->Ok_0,
                ),
            },
    }
}

/// What loading a Gemma-4 file gives.
pub open spec fn gemma4_loads(file: GgufFile, e: Result<Gemma4Engine, LoadError>) -> bool {
    match crate::gemma4_gguf_loader::hparams_fault(file) {
        Some(fault) => e is Err && e->Err_0@ == fault,
        None => exists|hp: Gemma4Hparams| #[trigger]
            crate::gemma4_gguf_loader::hparams_are(file, hp)
                && match crate::gemma4_gguf_loader::weights_fault(file, hp) {
                Some(fault) => e is Err && e->Err_0@ == fault,
                None => e is Ok && e->Ok_0.hp == hp && crate::gemma4_gguf_loader::weights_are(
                    file,
                    hp,
                    e->Ok_0.weights,
                ),
            },
    }
}

/// Loads an opened MLA file for serving.
pub fn serve_mla(file: &GgufFile) -> (r: Result<ServedEngine, LoadError>)
    ensures
        match mla_gate(*file) {
            Some(fault) => r is Err && r->Err_0@ == fault,
            None => match r {
                Ok(ServedEngine::Mla(e)) => mla_loads(*file, Ok(e)),
                Err(e) => mla_loads(*file, Err(e)),
                _ => false,
            },
        },
{
    check_kind(arch_of(file), SelectedEngineKind::Mla, &NOT_MLA)?;
    let e = crate::mla_gguf_loader::load_mla_engine(file)?;
    Ok(ServedEngine::Mla(e))
}

/// Loads an opened GLM-5.2 file for serving.
pub fn serve_glm52(file: &GgufFile) -> (r: Result<ServedEngine, LoadError>)
    requires
        file.complete(),
        crate::glm52_gguf_loader::file_sizes_fit(*file),
    ensures
        match glm52_gate(*file) {
            Some(fault) => r is Err && r->Err_0@ == fault,
            None => match r {
                Ok(ServedEngine::Glm52(e)) => glm52_loads(*file, Ok(e)),
                Err(e) => glm52_loads(*file, Err(e)),
                _ => false,
            },
        },
{
    let arch = arch_of(file);
    if !is_glm52_arch(arch) {
        return Err(
            LoadError::DedicatedArchitectureRequired(String::from_str(arch), SAID_NOT_GLM52),
        );
    }
    check_kind(arch, SelectedEngineKind::DedicatedStack, &NOT_GLM52)?;
    let e = crate::glm52_gguf_loader::load_glm52_engine(file)?;
    Ok(ServedEngine::Glm52(e))
}

/// Loads an opened Gemma-4 file for serving.
pub fn serve_gemma4(file: &GgufFile) -> (r: Result<ServedEngine, LoadError>)
    ensures
        match gemma4_gate(*file) {
            Some(fault) => r is Err && r->Err_0@ == fault,
            None => match r {
                Ok(ServedEngine::Gemma4(e)) => gemma4_loads(*file, Ok(*e)),
                Err(e) => gemma4_loads(*file, Err(e)),
                _ => false,
            },
        },
{
    let arch = arch_of(file);
    if !is_gemma4_arch(arch) {
        return Err(
            LoadError::DedicatedArchitectureRequired(String::from_str(arch), SAID_NOT_GEMMA4),
        );
    }
    check_kind(arch, SelectedEngineKind::Gemma4, &NOT_GEMMA4)?;
    let e = crate::gemma4_gguf_loader::load_gemma4_engine(file)?;
    Ok(ServedEngine::Gemma4(Box::new(e)))
}

/// Which engine runs an architecture of which this much is known. One of
/// the generic decoder runs there, one out of scope nowhere; one that
/// needs an engine of its own runs on that of its family, and nowhere
/// where the family has none for it.
pub proof fn an_architecture_runs_on_its_familys_engine(arch: Seq<char>, p: ArchProfile)
    ensures
        p.path is GenericGqa || p.path is TestFixture ==> kind_for(arch, Some(p)) == Ok::<
            SelectedEngineKind,
            SelectFault,
        >(SelectedEngineKind::GenericDecoder),
        p.path matches ArchPath::Deferred { reason } ==> kind_for(arch, Some(p)) == Err::<
            SelectedEngineKind,
            SelectFault,
        >(SelectFault::OutOfScope(arch, reason@)),
        p.path matches ArchPath::DedicatedOnly { reason } ==> match p.family {
            DecoderFamily::Dedicated => kind_for(arch, Some(p)) == Ok::<
                SelectedEngineKind,
                SelectFault,
            >(SelectedEngineKind::DedicatedStack),
            DecoderFamily::Mla => kind_for(arch, Some(p)) == Ok::<SelectedEngineKind, SelectFault>(
                SelectedEngineKind::Mla,
            ),
            DecoderFamily::Hybrid => kind_for(arch, Some(p)) == Ok::<
                SelectedEngineKind,
                SelectFault,
            >(SelectedEngineKind::RecurrentHybrid),
            DecoderFamily::Recurrent => kind_for(arch, Some(p)) == Ok::<
                SelectedEngineKind,
                SelectFault,
            >(SelectedEngineKind::RecurrentHybrid),
            DecoderFamily::EncoderDecoder => kind_for(arch, Some(p)) == Ok::<
                SelectedEngineKind,
                SelectFault,
            >(SelectedEngineKind::EncoderDecoder),
            DecoderFamily::GemmaFamily => if arch == "gemma4"@ || arch == "gemma4-assistant"@ {
                kind_for(arch, Some(p)) == Ok::<SelectedEngineKind, SelectFault>(
                    SelectedEngineKind::Gemma4,
                )
            } else {
                kind_for(arch, Some(p)) == Err::<SelectedEngineKind, SelectFault>(
                    SelectFault::DedicatedUnavailable(arch, reason@),
                )
            },
            DecoderFamily::StandardGqa => kind_for(arch, Some(p)) == Err::<
                SelectedEngineKind,
                SelectFault,
            >(SelectFault::DedicatedUnavailable(arch, reason@)),
        },
        kind_for(arch, None) == Err::<SelectedEngineKind, SelectFault>(SelectFault::Unknown(arch)),
{
    assert(GEMMA4_ARCHES@[0]@ == "gemma4"@);
    assert(GEMMA4_ARCHES@[1]@ == "gemma4-assistant"@);
}

/// A loader takes the architectures that run on its engine and no others,
/// and refuses each of the others for what it is: an unknown one as
/// unsupported, one out of scope for its reason, one of another engine as
/// needing that.
pub proof fn a_loader_takes_its_own_engines_files(
    arch: Seq<char>,
    wanted: SelectedEngineKind,
    said: Seq<&'static str>,
)
    ensures
        kind_fault(arch, wanted, said) is None <==> kind_for(arch, profile_of(arch)) == Ok::<
            SelectedEngineKind,
            SelectFault,
        >(wanted),
        profile_of(arch) is None ==> kind_fault(arch, wanted, said) == Some(
            LoadFault::UnsupportedArchitecture(arch),
        ),
        kind_for(arch, profile_of(arch)) matches Ok(kind) ==> kind != wanted ==> (kind_fault(
            arch,
            wanted,
            said,
        ) matches Some(LoadFault::DedicatedArchitectureRequired(of, _)) && of == arch),
{
}

/// Which files the three loaders for serving take: only a file of an
/// architecture that their engine runs, and the GLM-5.2 and Gemma-4 ones
/// only those that name the architecture itself. A file that declares
/// none is taken by none of them.
pub proof fn who_serves_a_file(file: GgufFile)
    ensures
        mla_gate(file) is None <==> kind_for(declared_arch(file), profile_of(declared_arch(file)))
            == Ok::<SelectedEngineKind, SelectFault>(SelectedEngineKind::Mla),
        file.meta_str("general.architecture"@) == Some("glm-dsa"@) && kind_for(
            "glm-dsa"@,
            profile_of("glm-dsa"@),
        ) == Ok::<SelectedEngineKind, SelectFault>(SelectedEngineKind::DedicatedStack)
            ==> glm52_gate(file) is None,
        file.meta_str("general.architecture"@) matches Some(arch) ==> (arch == "gemma4"@ || arch
            == "gemma4-assistant"@) && kind_for(arch, profile_of(arch)) == Ok::<
            SelectedEngineKind,
            SelectFault,
        >(SelectedEngineKind::Gemma4) ==> gemma4_gate(file) is None,
        glm52_gate(file) is None ==> file.meta_str("general.architecture"@) == Some("glm-dsa"@),
        gemma4_gate(file) is None ==> (file.meta_str("general.architecture"@) matches Some(arch)
            && (arch == "gemma4"@ || arch == "gemma4-assistant"@)),
        glm52_gate(file) is None ==> kind_for("glm-dsa"@, profile_of("glm-dsa"@)) == Ok::<
            SelectedEngineKind,
            SelectFault,
        >(SelectedEngineKind::DedicatedStack),
        gemma4_gate(file) is None ==> kind_for(
            declared_arch(file),
            profile_of(declared_arch(file)),
        ) == Ok::<SelectedEngineKind, SelectFault>(SelectedEngineKind::Gemma4),
        file.meta_str("general.architecture"@) matches Some(arch) ==> declared_arch(file) == arch,
        file.meta_str("general.architecture"@) is None ==> declared_arch(file) == "unknown"@,
{
    assert(GEMMA4_ARCHES@[0]@ == "gemma4"@);
    assert(GEMMA4_ARCHES@[1]@ == "gemma4-assistant"@);
    reveal_strlit("unknown");
    reveal_strlit("glm-dsa");
    reveal_strlit("gemma4");
    reveal_strlit("gemma4-assistant");
    assert("unknown"@[0] == 'u' && "glm-dsa"@[0] == 'g' && "gemma4"@[0] == 'g'
        && "gemma4-assistant"@[0] == 'g');
}

/// How many tokens an engine scores: one for each row of its output head,
/// and on the generic decoder as many as its vocabulary has.
pub proof fn an_engine_scores_its_heads_rows(e: ServedEngine)
    ensures
        e matches ServedEngine::Decoder(d) ==> e.scores() == d.vocab_size,
        e matches ServedEngine::Kimi(k) ==> e.scores() == k.weights.output_head.n_rows(),
        e matches ServedEngine::Glm52(g) ==> e.scores() == g.weights.output_head.n_rows(),
        e matches ServedEngine::Mla(m) ==> e.scores() == m.output_head.n_rows(),
        e matches ServedEngine::Gemma4(g) ==> e.scores() == g.weights.output_head.n_rows(),
{
}

/// Where a refusal sends a file: the generic decoder names the loader of
/// the engine that the architecture runs on, and a dedicated loader says
/// what the architecture is instead.
pub proof fn where_a_refusal_sends_a_file(arch: Seq<char>)
    ensures
        generic_fault(arch, Ok(SelectedEngineKind::GenericDecoder)) is None,
        generic_fault(arch, Ok(SelectedEngineKind::DedicatedStack)) == Some(
            SelectFault::DedicatedUnavailable(
                arch,
                if arch == "glm-dsa"@ {
                    "use load_glm52_engine_from_path / ServedEngine::Glm52 — not generic Decoder"@
                } else {
                    "use the dedicated Kimi/GLM/DeepSeek loader, not generic Decoder"@
                },
            ),
        ),
        generic_fault(arch, Ok(SelectedEngineKind::Mla)) == Some(
            SelectFault::DedicatedUnavailable(
                arch,
                "use load_mla_engine_from_path / ServedEngine::Mla — not generic Decoder"@,
            ),
        ),
        generic_fault(arch, Ok(SelectedEngineKind::Gemma4)) == Some(
            SelectFault::DedicatedUnavailable(
                arch,
                "use load_gemma4_engine_from_path / ServedEngine::Gemma4 — not generic Decoder"@,
            ),
        ),
        generic_fault(arch, Ok(SelectedEngineKind::RecurrentHybrid)) == Some(
            SelectFault::DedicatedUnavailable(
                arch,
                "recurrent/hybrid SSM engine stub present — not yet on the serve path"@,
            ),
        ),
        generic_fault(arch, Ok(SelectedEngineKind::EncoderDecoder)) == Some(
            SelectFault::DedicatedUnavailable(
                arch,
                "T5 encoder-decoder engine stub present — not yet on the serve path"@,
            ),
        ),
        kind_for(arch, profile_of(arch)) == Ok::<SelectedEngineKind, SelectFault>(
            SelectedEngineKind::GenericDecoder,
        ) ==> kind_fault(arch, SelectedEngineKind::Mla, NOT_MLA@) == Some(
            LoadFault::DedicatedArchitectureRequired(arch, "generic decoder arch, not MLA"@),
        ),
        kind_for(arch, profile_of(arch)) == Ok::<SelectedEngineKind, SelectFault>(
            SelectedEngineKind::Gemma4,
        ) ==> kind_fault(arch, SelectedEngineKind::Mla, NOT_MLA@) == Some(
            LoadFault::DedicatedArchitectureRequired(arch, "gemma4 dedicated, not MLA"@),
        ),
        kind_for(arch, profile_of(arch)) == Ok::<SelectedEngineKind, SelectFault>(
            SelectedEngineKind::RecurrentHybrid,
        ) ==> kind_fault(arch, SelectedEngineKind::Mla, NOT_MLA@) == Some(
            LoadFault::DedicatedArchitectureRequired(arch, "hybrid/recurrent, not MLA"@),
        ),
{
    let g = GO_ELSEWHERE@;
    assert(g[0]@ == "use load_glm52_engine_from_path / ServedEngine::Glm52 — not generic Decoder"@);
    assert(g[1]@ == "use the dedicated Kimi/GLM/DeepSeek loader, not generic Decoder"@);
    assert(g[2]@ == "use load_mla_engine_from_path / ServedEngine::Mla — not generic Decoder"@);
    assert(g[3]@
        == "use load_gemma4_engine_from_path / ServedEngine::Gemma4 — not generic Decoder"@);
    assert(g[4]@ == "recurrent/hybrid SSM engine stub present — not yet on the serve path"@);
    assert(g[5]@ == "T5 encoder-decoder engine stub present — not yet on the serve path"@);
    assert(NOT_MLA@[0]@ == "generic decoder arch, not MLA"@);
    assert(NOT_MLA@[3]@ == "gemma4 dedicated, not MLA"@);
    assert(NOT_MLA@[4]@ == "hybrid/recurrent, not MLA"@);
}

/// What serving a file gives: the fault of its hyperparameters where there
/// is one; else that of its weights; else the engine that the file is.
pub proof fn a_served_file_is_its_loaders(
    file: GgufFile,
    mla: Result<MlaEngine, LoadError>,
    hp: Deepseek2Hparams,
    gemma4: Result<Gemma4Engine, LoadError>,
    settings: Gemma4Hparams,
    glm52: Result<Glm52Engine, LoadError>,
    m: Glm52FileMeta,
)
    requires
        mla_loads(file, mla),
        crate::mla_gguf_loader::hparams_fault(file) is None
            ==> crate::mla_gguf_loader::hparams_are(file, hp),
        gemma4_loads(file, gemma4),
        crate::gemma4_gguf_loader::hparams_fault(file) is None
            ==> crate::gemma4_gguf_loader::hparams_are(file, settings),
        glm52_loads(file, glm52),
        crate::glm52_gguf_loader::hparams_fault(file) is None
            ==> crate::glm52_gguf_loader::meta_is(file, m),
    ensures
        match crate::mla_gguf_loader::hparams_fault(file) {
            Some(fault) => mla is Err && mla->Err_0@ == fault,
            None => match crate::mla_gguf_loader::weights_fault(file, hp) {
                Some(fault) => mla is Err && mla->Err_0@ == fault,
                None => mla is Ok && crate::mla_gguf_loader::engine_is(file, hp, mla->Ok_0),
            },
        },
        match crate::gemma4_gguf_loader::hparams_fault(file) {
            Some(fault) => gemma4 is Err && gemma4->Err_0@ == fault,
            None => match crate::gemma4_gguf_loader::weights_fault(file, settings) {
                Some(fault) => gemma4 is Err && gemma4->Err_0@ == fault,
                None => gemma4 is Ok && crate::gemma4_gguf_loader::hparams_are(
                    file,
                    gemma4->Ok_0.hp,
                ) && crate::gemma4_gguf_loader::weights_are(
                    file,
                    gemma4->Ok_0.hp,
                    gemma4->Ok_0.weights,
                ),
            },
        },
        match crate::glm52_gguf_loader::hparams_fault(file) {
            Some(fault) => glm52 is Err && glm52->Err_0@ == fault,
            None => match crate::glm52_gguf_loader::weights_fault(
                file,
                crate::glm52_gguf_loader::sizes_of(file, m.arch@),
                m.leading_dense,
                m.n_layer,
            ) {
                Some(fault) => glm52 is Err && glm52->Err_0@ == fault,
                None => glm52 is Ok && crate::glm52_gguf_loader::engine_is(
                    file,
                    crate::glm52_gguf_loader::sizes_of(file, m.arch@),
                    m,
                    glm52->Ok_0,
                ),
            },
        },
{
    if crate::mla_gguf_loader::hparams_fault(file) is None {
        let read = choose|read: Deepseek2Hparams| #[trigger]
            crate::mla_gguf_loader::hparams_are(file, read)
                && match crate::mla_gguf_loader::weights_fault(file, read) {
                Some(fault) => mla is Err && mla->Err_0@ == fault,
                None => mla is Ok && crate::mla_gguf_loader::engine_is(file, read, mla->Ok_0),
            };
        crate::mla_gguf_loader::one_reading_of_a_file(file, read, hp);
    }
    if crate::gemma4_gguf_loader::hparams_fault(file) is None {
        let read = choose|read: Gemma4Hparams| #[trigger]
            crate::gemma4_gguf_loader::hparams_are(file, read)
                && match crate::gemma4_gguf_loader::weights_fault(file, read) {
                Some(fault) => gemma4 is Err && gemma4->Err_0@ == fault,
                None => gemma4 is Ok && gemma4->Ok_0.hp == read
                    && crate::gemma4_gguf_loader::weights_are(file, read, gemma4->Ok_0.weights),
            };
        crate::gemma4_gguf_loader::one_reading_of_a_file(file, read, settings);
    }
    if crate::glm52_gguf_loader::hparams_fault(file) is None {
        let read = choose|read: Glm52FileMeta| #[trigger]
            crate::glm52_gguf_loader::meta_is(file, read)
                && match crate::glm52_gguf_loader::weights_fault(
                file,
                crate::glm52_gguf_loader::sizes_of(file, read.arch@),
                read.leading_dense,
                read.n_layer,
            ) {
                Some(fault) => glm52 is Err && glm52->Err_0@ == fault,
                None => glm52 is Ok && crate::glm52_gguf_loader::engine_is(
                    file,
                    crate::glm52_gguf_loader::sizes_of(file, read.arch@),
                    read,
                    glm52->Ok_0,
                ),
            };
        crate::glm52_gguf_loader::one_reading_of_a_file(file, read, m);
    }
}

} // verus!
