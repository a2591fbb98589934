//! Reading a LoRA adapter file.
//!
//! Every tensor of the file is one half of a pair, `<base>.lora_a` or
//! `<base>.lora_b`, or a norm, which is skipped. The pairs come out in
//! the order of their base names. Whether a pair fits a base model is
//! decided where it is attached.

use crate::gguf::{
    dims_chars, dims_text, element_count, f32_or, first_tensor, first_tensor_is_a_tensor,
    quoted_chars, quoted_text, GgufFile, GgufValue, TensorInfo, ARCH_KEY,
};
use crate::load_error::{fault_chars, LoadError, LoadFault};
use crate::text::{
    before, before_is_total, before_is_transitive, decimal, decimal_text, ends_with, is_before,
    str_eq, strip_suffix,
};
use crate::weights::{load_f32_vec, vector_fault, vector_of};
use vstd::prelude::*;
use vstd::string::StringExecFns;

verus! {

/// A tensor of the adapter file; the elements are bit patterns.
#[derive(Debug)]
pub struct LoraTensor {
    /// `[rows, cols]`.
    pub shape: [usize; 2],
    pub data: Vec<u32>,
}

/// The model of a [`LoraTensor`].
pub struct LoraMatrix {
    pub rows: usize,
    pub cols: usize,
    pub data: Seq<u32>,
}

impl View for LoraTensor {
    type V = LoraMatrix;

    open spec fn view(&self) -> LoraMatrix {
        LoraMatrix { rows: self.shape@[0], cols: self.shape@[1], data: self.data@ }
    }
}

impl LoraMatrix {
    /// Whether there is an element for every place.
    pub open spec fn complete(&self) -> bool {
        self.data.len() == self.rows * self.cols
    }
}

impl LoraTensor {
    /// The number of rows.
    pub fn rows(&self) -> (n: usize)
        ensures
            n == self@.rows,
    {
        self.shape[0]
    }

    /// The number of columns.
    pub fn cols(&self) -> (n: usize)
        ensures
            n == self@.cols,
    {
        self.shape[1]
    }
}

/// The two halves that adapt one base tensor.
#[derive(Debug)]
pub struct LoraPair {
    pub a: LoraTensor,
    pub b: LoraTensor,
}

/// A pair with the name of the base tensor it adapts.
#[derive(Debug)]
pub struct NamedPair {
    pub name: String,
    pub pair: LoraPair,
}

/// A parsed adapter file, not yet held against a base model.
#[derive(Debug)]
pub struct LoraAdapter {
    pub path: String,
    /// The architecture that the adapter is for.
    pub arch: String,
    /// A bit pattern; that of zero where the file carries none.
    pub alpha: u32,
    pub task_name: String,
    pub prompt_prefix: String,
    /// The pairs, in the order of their names.
    pub pairs: Vec<NamedPair>,
    /// The norms that the file carries and that are skipped.
    pub skipped_norms: Vec<String>,
}

impl LoraAdapter {
    /// The pairs come in the order of their names, each name once.
    pub open spec fn sorted(&self) -> bool {
        forall|i: int, j: int|
            0 <= i < j < self.pairs@.len() ==> before(
                (#[trigger] self.pairs@[i]).name@,
                (#[trigger] self.pairs@[j]).name@,
            )
    }

    /// Every tensor has an element for every place.
    pub open spec fn complete(&self) -> bool {
        forall|i: int|
            0 <= i < self.pairs@.len() ==> (#[trigger] self.pairs@[i]).pair.a@.complete()
                && self.pairs@[i].pair.b@.complete()
    }
}

/// Why an adapter file, or its match against a base model, was refused.
#[derive(Debug)]
pub enum LoraError {
    Load(LoadError),
    NotAnAdapter { path: String, got: String },
    NotLora { path: String, got: String },
    ArchMismatch { path: String, adapter: String, base: String },
    UnexpectedSuffix { path: String, name: String },
    MissingComponent { path: String, name: String },
    Alora { path: String, n: usize },
    NotTwoD { path: String, name: String, shape: Vec<u64> },
    NotInBase { path: String, name: String },
    Shape { path: String, name: String, rows: usize, cols: usize, a: [usize; 2], b: [usize; 2] },
    NotTransposed { path: String, name: String, a: [usize; 2], b: [usize; 2] },
    RoutedExperts { path: String, name: String },
    NoProjection { path: String, name: String },
    TiedHead { path: String },
    StoredExperts { path: String, name: String },
}

/// The model of a [`LoraError`].
pub enum LoraFault {
    Load(LoadFault),
    NotAnAdapter { path: Seq<char>, got: Seq<char> },
    NotLora { path: Seq<char>, got: Seq<char> },
    ArchMismatch { path: Seq<char>, adapter: Seq<char>, base: Seq<char> },
    UnexpectedSuffix { path: Seq<char>, name: Seq<char> },
    MissingComponent { path: Seq<char>, name: Seq<char> },
    Alora { path: Seq<char>, n: nat },
    NotTwoD { path: Seq<char>, name: Seq<char>, shape: Seq<u64> },
    NotInBase { path: Seq<char>, name: Seq<char> },
    Shape {
        path: Seq<char>,
        name: Seq<char>,
        rows: nat,
        cols: nat,
        a: (usize, usize),
        b: (usize, usize),
    },
    NotTransposed { path: Seq<char>, name: Seq<char>, a: (usize, usize), b: (usize, usize) },
    RoutedExperts { path: Seq<char>, name: Seq<char> },
    NoProjection { path: Seq<char>, name: Seq<char> },
    TiedHead { path: Seq<char> },
    StoredExperts { path: Seq<char>, name: Seq<char> },
}

impl View for LoraError {
    type V = LoraFault;

    open spec fn view(&self) -> LoraFault {
        match self {
            LoraError::Load(e) => LoraFault::Load(e@),
            LoraError::NotAnAdapter { path, got } => LoraFault::NotAnAdapter {
                path: path@,
                got: got@,
            },
            LoraError::NotLora { path, got } => LoraFault::NotLora { path: path@, got: got@ },
            LoraError::ArchMismatch { path, adapter, base } => LoraFault::ArchMismatch {
                path: path@,
                adapter: adapter@,
                base: base@,
            },
            LoraError::UnexpectedSuffix { path, name } => LoraFault::UnexpectedSuffix {
                path: path@,
                name: name@,
            },
            LoraError::MissingComponent { path, name } => LoraFault::MissingComponent {
                path: path@,
                name: name@,
            },
            LoraError::Alora { path, n } => LoraFault::Alora { path: path@, n: *n as nat },
            LoraError::NotTwoD { path, name, shape } => LoraFault::NotTwoD {
                path: path@,
                name: name@,
                shape: shape@,
            },
            LoraError::NotInBase { path, name } => LoraFault::NotInBase {
                path: path@,
                name: name@,
            },
            LoraError::Shape { path, name, rows, cols, a, b } => LoraFault::Shape {
                path: path@,
                name: name@,
                rows: *rows as nat,
                cols: *cols as nat,
                a: (a@[0], a@[1]),
                b: (b@[0], b@[1]),
            },
            LoraError::NotTransposed { path, name, a, b } => LoraFault::NotTransposed {
                path: path@,
                name: name@,
                a: (a@[0], a@[1]),
                b: (b@[0], b@[1]),
            },
            LoraError::RoutedExperts { path, name } => LoraFault::RoutedExperts {
                path: path@,
                name: name@,
            },
            LoraError::NoProjection { path, name } => LoraFault::NoProjection {
                path: path@,
                name: name@,
            },
            LoraError::TiedHead { path } => LoraFault::TiedHead { path: path@ },
            LoraError::StoredExperts { path, name } => LoraFault::StoredExperts {
                path: path@,
                name: name@,
            },
        }
    }
}

/// What is said of an activated adapter, round its token count.
pub const SAID_ALORA: [&'static str; 2] = [
    ": this is an activated LoRA (`adapter.alora.invocation_tokens`, ",
    " tokens), which llama.cpp applies only from the invocation sequence onward \
     (server-context.cpp:1752-1800); ferrox applies an adapter to every position and refuses \
     rather than activate it early",
];

/// What is said of a pair of the wrong sizes, round the name, the two
/// base sizes and the sizes of the halves.
pub const SAID_SHAPE: [&'static str; 4] = [
    "' has incorrect shape (hint: maybe wrong base model?): base is [",
    " x ",
    "], lora_a is ",
    ", lora_b is ",
];

/// What is said of a pair of the older layout, round the name and the
/// sizes of the halves.
pub const SAID_NOT_TRANSPOSED: [&'static str; 3] = [
    ": lora_a tensor for '",
    "' is not transposed (hint: adapter from \"finetune\" example is no longer supported): lora_a \
     is ",
    ", lora_b is ",
];

/// What is said of a routed expert's tensor, after its name.
pub const SAID_ROUTED: &'static str = "' adapts a routed-expert tensor; llama.cpp applies that through \
     `build_lora_mm_id` (llama-graph.cpp:1517-1550) and ferrox has no per-expert delta, so the \
     adapter is refused rather than applied to the dense projections only";

/// What is said of a tensor that is no projection, after its name.
pub const SAID_NO_PROJECTION: &'static str = "' adapts a tensor ferrox holds under no projection \
     (norms, biases and side tables are not `WeightMatrix`), so the delta would be dropped; \
     refused rather than applied partially";

/// What is said of an adapted embedding that is also the output head.
pub const SAID_TIED: &'static str = ": 'token_embd.weight' is adapted but the base model ties its \
     output head to the embedding (no `output.weight`); llama.cpp builds \
     `build_lora_mm(model.output, ..)` (llama-graph.cpp:1490) over the FLIPPED embedding pair \
     there and aborts with `ggml.c:3282: GGML_ASSERT(ggml_can_mul_mat(a, b))` (measured), so no \
     engine serves this combination";

/// What is said of experts that are leased for each use, after the name.
pub const SAID_STORED: &'static str = "' targets a store-backed expert layer, whose weights are leased \
     per use; run with resident experts to attach an adapter";

/// Two sizes in brackets.
pub open spec fn pair_chars(p: (usize, usize)) -> Seq<char> {
    "["@ + decimal(p.0 as nat) + ", "@ + decimal(p.1 as nat) + "]"@
}

fn pair_text(p: &[usize; 2]) -> (t: String)
    ensures
        t@ == pair_chars((p@[0], p@[1])),
{
    String::from_str("[").concat(decimal_text(p[0] as u64).as_str()).concat(", ").concat(
        decimal_text(p[1] as u64).as_str(),
    ).concat("]")
}

/// What a refusal says.
pub open spec fn lora_fault_chars(fault: LoraFault) -> Seq<char> {
    match fault {
        LoraFault::Load(e) => fault_chars(e),
        LoraFault::NotAnAdapter { path, got } => path
            + ": expect general.type to be 'adapter', but got: "@ + quoted_chars(got),
        LoraFault::NotLora { path, got } => path
            + ": expect adapter.type to be 'lora', but got: "@ + quoted_chars(got),
        LoraFault::ArchMismatch { path, adapter, base } => path
            + ": model arch and LoRA arch mismatch (adapter declares "@ + quoted_chars(adapter)
            + ", base is "@ + quoted_chars(base) + ")"@,
        LoraFault::UnexpectedSuffix { path, name } => path + ": LoRA tensor '"@ + name
            + "' has unexpected suffix (want .lora_a or .lora_b)"@,
        LoraFault::MissingComponent { path, name } => path + ": LoRA tensor pair for '"@ + name
            + "' is missing one component"@,
        LoraFault::Alora { path, n } => path + SAID_ALORA@[0]@ + decimal(n) + SAID_ALORA@[1]@,
        LoraFault::NotTwoD { path, name, shape } => path + ": LoRA tensor '"@ + name
            + "' is not 2-D (shape "@ + dims_chars(shape) + ")"@,
        LoraFault::NotInBase { path, name } => path + ": LoRA tensor '"@ + name
            + "' does not exist in base model (hint: maybe wrong base model?)"@,
        LoraFault::Shape { path, name, rows, cols, a, b } => path + ": tensor '"@ + name
            + SAID_SHAPE@[0]@ + decimal(rows) + SAID_SHAPE@[1]@ + decimal(cols) + SAID_SHAPE@[2]@
            + pair_chars(a) + SAID_SHAPE@[3]@ + pair_chars(b),
        LoraFault::NotTransposed { path, name, a, b } => path + SAID_NOT_TRANSPOSED@[0]@ + name
            + SAID_NOT_TRANSPOSED@[1]@ + pair_chars(a) + SAID_NOT_TRANSPOSED@[2]@ + pair_chars(b),
        LoraFault::RoutedExperts { path, name } => path + ": '"@ + name + SAID_ROUTED@,
        LoraFault::NoProjection { path, name } => path + ": '"@ + name + SAID_NO_PROJECTION@,
        LoraFault::TiedHead { path } => path + SAID_TIED@,
        LoraFault::StoredExperts { path, name } => path + ": '"@ + name + SAID_STORED@,
    }
}

impl LoraError {
    /// What the refusal says.
    pub fn message(&self) -> (t: String)
        ensures
            t@ == lora_fault_chars(self@),
    {
        match self {
            LoraError::Load(e) => e.message(),
            LoraError::NotAnAdapter { path, got } => String::from_str(path.as_str()).concat(
                ": expect general.type to be 'adapter', but got: ",
            ).concat(quoted_text(got.as_str()).as_str()),
            LoraError::NotLora { path, got } => String::from_str(path.as_str()).concat(
                ": expect adapter.type to be 'lora', but got: ",
            ).concat(quoted_text(got.as_str()).as_str()),
            LoraError::ArchMismatch { path, adapter, base } => String::from_str(
                path.as_str(),
            ).concat(": model arch and LoRA arch mismatch (adapter declares ").concat(
                quoted_text(adapter.as_str()).as_str(),
            ).concat(", base is ").concat(quoted_text(base.as_str()).as_str()).concat(")"),
            LoraError::UnexpectedSuffix { path, name } => String::from_str(path.as_str()).concat(
                ": LoRA tensor '",
            ).concat(name.as_str()).concat("' has unexpected suffix (want .lora_a or .lora_b)"),
            LoraError::MissingComponent { path, name } => String::from_str(path.as_str()).concat(
                ": LoRA tensor pair for '",
            ).concat(name.as_str()).concat("' is missing one component"),
            LoraError::Alora { path, n } => String::from_str(path.as_str()).concat(
                SAID_ALORA[0],
            ).concat(decimal_text(*n as u64).as_str()).concat(SAID_ALORA[1]),
            LoraError::NotTwoD { path, name, shape } => String::from_str(path.as_str()).concat(
                ": LoRA tensor '",
            ).concat(name.as_str()).concat("' is not 2-D (shape ").concat(
                dims_text(shape).as_str(),
            ).concat(")"),
            LoraError::NotInBase { path, name } => String::from_str(path.as_str()).concat(
                ": LoRA tensor '",
            ).concat(name.as_str()).concat(
                "' does not exist in base model (hint: maybe wrong base model?)",
            ),
            LoraError::Shape { path, name, rows, cols, a, b } => String::from_str(
                path.as_str(),
            ).concat(": tensor '").concat(name.as_str()).concat(SAID_SHAPE[0]).concat(
                decimal_text(*rows as u64).as_str(),
            ).concat(SAID_SHAPE[1]).concat(decimal_text(*cols as u64).as_str()).concat(
                SAID_SHAPE[2],
            ).concat(pair_text(a).as_str()).concat(SAID_SHAPE[3]).concat(pair_text(b).as_str()),
            LoraError::NotTransposed { path, name, a, b } => String::from_str(
                path.as_str(),
            ).concat(SAID_NOT_TRANSPOSED[0]).concat(name.as_str()).concat(
                SAID_NOT_TRANSPOSED[1],
            ).concat(pair_text(a).as_str()).concat(SAID_NOT_TRANSPOSED[2]).concat(
                pair_text(b).as_str(),
            ),
            LoraError::RoutedExperts { path, name } => String::from_str(path.as_str()).concat(
                ": '",
            ).concat(name.as_str()).concat(SAID_ROUTED),
            LoraError::NoProjection { path, name } => String::from_str(path.as_str()).concat(
                ": '",
            ).concat(name.as_str()).concat(SAID_NO_PROJECTION),
            LoraError::TiedHead { path } => String::from_str(path.as_str()).concat(SAID_TIED),
            LoraError::StoredExperts { path, name } => String::from_str(path.as_str()).concat(
                ": '",
            ).concat(name.as_str()).concat(SAID_STORED),
        }
    }
}

/// The base name and the half that a tensor name stands for; `true` for
/// `lora_a`.
pub open spec fn half_of(name: Seq<char>) -> Option<(Seq<char>, bool)> {
    if ".lora_a"@.is_suffix_of(name) {
        Some((name.take(name.len() - ".lora_a"@.len()), true))
    } else if ".lora_b"@.is_suffix_of(name) {
        Some((name.take(name.len() - ".lora_b"@.len()), false))
    } else {
        None
    }
}

/// Whether a tensor is a norm, which is skipped.
pub open spec fn is_skipped_norm(name: Seq<char>) -> bool {
    half_of(name) is None && "_norm.weight"@.is_suffix_of(name)
}

/// Why a tensor of the file is refused.
pub open spec fn tensor_fault(file: GgufFile, path: Seq<char>, t: TensorInfo) -> Option<LoraFault> {
    let name = t.name@;
    match half_of(name) {
        None => if is_skipped_norm(name) {
            None
        } else {
            Some(LoraFault::UnexpectedSuffix { path, name })
        },
        Some(_) => if t.shape@.len() != 2 {
            Some(LoraFault::NotTwoD { path, name, shape: t.shape@ })
        } else {
            match vector_fault(file, name) {
                Some(fault) => Some(LoraFault::Load(fault)),
                None => None,
            }
        },
    }
}

/// The first fault of the first `n` tensors of the file.
pub open spec fn scan_fault(file: GgufFile, path: Seq<char>, n: nat) -> Option<LoraFault>
    decreases n,
{
    if n == 0 {
        None
    } else {
        match scan_fault(file, path, (n - 1) as nat) {
            Some(fault) => Some(fault),
            None => tensor_fault(file, path, file.tensors@[n - 1]),
        }
    }
}

proof fn scan_fault_stays(file: GgufFile, path: Seq<char>, k: nat, n: nat)
    requires
        k <= n,
        scan_fault(file, path, k) is Some,
    ensures
        scan_fault(file, path, n) == scan_fault(file, path, k),
    decreases n,
{
    if k < n {
        scan_fault_stays(file, path, k, (n - 1) as nat);
    }
}

/// The halves found for one base name.
pub struct Halves {
    pub a: Option<LoraMatrix>,
    pub b: Option<LoraMatrix>,
}

impl Halves {
    /// Both halves are there.
    pub open spec fn whole(&self) -> bool {
        self.a is Some && self.b is Some
    }
}

/// What a tensor of the file holds: its own dimensions, and the elements
/// under its name.
pub open spec fn matrix_of(file: GgufFile, t: TensorInfo) -> LoraMatrix {
    LoraMatrix {
        rows: t.shape@[1] as usize,
        cols: t.shape@[0] as usize,
        data: vector_of(file, t.name@),
    }
}

/// The halves that the first `n` tensors of the file give, by base name;
/// of two tensors for the same half the later one counts.
pub open spec fn halves_of(file: GgufFile, n: nat) -> Map<Seq<char>, Halves>
    decreases n,
{
    if n == 0 {
        Map::empty()
    } else {
        let earlier = halves_of(file, (n - 1) as nat);
        let t = file.tensors@[n - 1];
        match half_of(t.name@) {
            None => earlier,
            Some((base, is_a)) => {
                let found = if earlier.dom().contains(base) {
                    earlier[base]
                } else {
                    Halves { a: None, b: None }
                };
                earlier.insert(
                    base,
                    if is_a {
                        Halves { a: Some(matrix_of(file, t)), b: found.b }
                    } else {
                        Halves { a: found.a, b: Some(matrix_of(file, t)) }
                    },
                )
            },
        }
    }
}

/// The norms among the first `n` tensors, in file order.
pub open spec fn norms_of(file: GgufFile, n: nat) -> Seq<Seq<char>>
    decreases n,
{
    if n == 0 {
        seq![]
    } else {
        let name = file.tensors@[n - 1].name@;
        let earlier = norms_of(file, (n - 1) as nat);
        if is_skipped_norm(name) {
            earlier.push(name)
        } else {
            earlier
        }
    }
}

/// The characters of each of `names`.
pub open spec fn texts(names: Seq<String>) -> Seq<Seq<char>> {
    Seq::new(names.len(), |i: int| names[i]@)
}

/// A string of the metadata, or the empty one.
pub open spec fn str_or_empty(file: GgufFile, key: Seq<char>) -> Seq<char> {
    match file.meta_str(key) {
        Some(s) => s,
        None => seq![],
    }
}

/// Why a file is refused before its tensors are read.
pub open spec fn header_fault(file: GgufFile, path: Seq<char>) -> Option<LoraFault> {
    if str_or_empty(file, "general.type"@) != "adapter"@ {
        Some(LoraFault::NotAnAdapter { path, got: str_or_empty(file, "general.type"@) })
    } else if str_or_empty(file, "adapter.type"@) != "lora"@ {
        Some(LoraFault::NotLora { path, got: str_or_empty(file, "adapter.type"@) })
    } else {
        match file.meta("adapter.alora.invocation_tokens"@) {
            Some(GgufValue::Array(items)) => Some(LoraFault::Alora { path, n: items@.len() }),
            Some(_) => Some(LoraFault::Alora { path, n: 1 }),
            None => None,
        }
    }
}

/// Whether `name` is the first base name, in order, that lacks a half.
pub open spec fn first_incomplete(m: Map<Seq<char>, Halves>, name: Seq<char>) -> bool {
    &&& m.dom().contains(name)
    &&& !m[name].whole()
    &&& forall|other: Seq<char>|
        #[trigger] m.dom().contains(other) && !m[other].whole() ==> !before(other, name)
}

/// Whether the pairs are those of the halves found: one for each base
/// name, holding its two halves.
pub open spec fn pairs_are(m: Map<Seq<char>, Halves>, pairs: Seq<NamedPair>) -> bool {
    &&& forall|i: int|
        0 <= i < pairs.len() ==> {
            let p = #[trigger] pairs[i];
            &&& m.dom().contains(p.name@)
            &&& m[p.name@].a == Some(p.pair.a@)
            &&& m[p.name@].b == Some(p.pair.b@)
        }
    &&& forall|name: Seq<char>| #[trigger]
        m.dom().contains(name) ==> exists|i: int|
            0 <= i < pairs.len() && (#[trigger] pairs[i]).name@ == name
}

/// What an adapter read from a file that is not refused is.
pub open spec fn adapter_is(file: GgufFile, path: Seq<char>, a: LoraAdapter) -> bool {
    let n = file.tensors@.len();
    &&& a.path@ == path
    &&& a.arch@ == str_or_empty(file, ARCH_KEY@)
    &&& a.alpha == f32_or(file.meta_f32("adapter.lora.alpha"@), 0)
    &&& a.task_name@ == str_or_empty(file, "adapter.lora.task_name"@)
    &&& a.prompt_prefix@ == str_or_empty(file, "adapter.lora.prompt_prefix"@)
    &&& a.sorted()
    &&& pairs_are(halves_of(file, n), a.pairs@)
    &&& texts(a.skipped_norms@) == norms_of(file, n)
}

struct Found {
    base: String,
    a: Option<LoraTensor>,
    b: Option<LoraTensor>,
}

spec fn view_half(t: Option<LoraTensor>) -> Option<LoraMatrix> {
    match t {
        Some(t) => Some(t@),
        None => None,
    }
}

spec fn found_halves(f: Found) -> Halves {
    Halves { a: view_half(f.a), b: view_half(f.b) }
}

spec fn represents(found: Seq<Found>, m: Map<Seq<char>, Halves>) -> bool {
    &&& forall|i: int, j: int|
        0 <= i < j < found.len() ==> before(
            (#[trigger] found[i]).base@,
            (#[trigger] found[j]).base@,
        )
    &&& forall|i: int|
        0 <= i < found.len() ==> m.dom().contains((#[trigger] found[i]).base@)
            && m[found[i].base@] == found_halves(found[i])
    &&& forall|name: Seq<char>| #[trigger]
        m.dom().contains(name) ==> exists|i: int|
            0 <= i < found.len() && (#[trigger] found[i]).base@ == name
}

fn add_half(found: &mut Vec<Found>, base: &str, is_a: bool, tensor: LoraTensor, Ghost(m): Ghost<
    Map<Seq<char>, Halves>,
>)
    requires
        represents(old(found)@, m),
    ensures
        ({
            let was = if m.dom().contains(base@) {
                m[base@]
            } else {
                Halves { a: None, b: None }
            };
            represents(
                final(found)@,
                m.insert(
                    base@,
                    if is_a {
                        Halves { a: Some(tensor@), b: was.b }
                    } else {
                        Halves { a: was.a, b: Some(tensor@) }
                    },
                ),
            )
        }),
{
    let ghost was = if m.dom().contains(base@) {
        m[base@]
    } else {
        Halves { a: None, b: None }
    };
    let ghost now = if is_a {
        Halves { a: Some(tensor@), b: was.b }
    } else {
        Halves { a: was.a, b: Some(tensor@) }
    };
    let ghost next = m.insert(base@, now);
    let ghost old_found = found@;
    let mut i: usize = 0;
    while i < found.len() && is_before(found[i].base.as_str(), base)
        invariant
            found@ == old_found,
            i <= found@.len(),
            forall|j: int| 0 <= j < i ==> before((#[trigger] found@[j]).base@, base@),
        decreases found@.len() - i,
    {
        i += 1;
    }
    proof {
        assert forall|j: int| 0 <= j < i implies (#[trigger] old_found[j]).base@ != base@ by {
            before_is_total(old_found[j].base@, base@);
        }
    }
    if i < found.len() && str_eq(found[i].base.as_str(), base) {
        let entry = found.remove(i);
        let ghost removed = found@;
        assert(entry == old_found[i as int]);
        let merged = if is_a {
            Found { base: entry.base, a: Some(tensor), b: entry.b }
        } else {
            Found { base: entry.base, a: entry.a, b: Some(tensor) }
        };
        found.insert(i, merged);
        proof {
            let after = found@;
            assert(after.len() == old_found.len());
            assert forall|j: int| 0 <= j < after.len() && j != i implies #[trigger] after[j]
                == old_found[j] by {
                if j < i {
                    assert(removed[j] == old_found[j]);
                } else {
                    assert(removed[j - 1] == old_found[j]);
                }
            }
            assert(after[i as int].base@ == base@);
            assert forall|j: int| 0 <= j < after.len() implies (#[trigger] after[j]).base@
                == old_found[j].base@ by {}
            assert(m.dom().contains(base@));
            assert(m[base@] == found_halves(old_found[i as int]));
            assert(found_halves(after[i as int]) == now);
            assert forall|j: int| 0 <= j < after.len() implies next.dom().contains(
                (#[trigger] after[j]).base@,
            ) && next[after[j].base@] == found_halves(after[j]) by {
                if j != i {
                    assert(after[j] == old_found[j]);
                    if old_found[j].base@ == base@ {
                        if j < i {
                            before_is_total(old_found[j].base@, old_found[i as int].base@);
                        } else {
                            before_is_total(old_found[i as int].base@, old_found[j].base@);
                        }
                    }
                }
            }
            assert forall|name: Seq<char>| #[trigger] next.dom().contains(name) implies exists|
                j: int,
            | 0 <= j < after.len() && (#[trigger] after[j]).base@ == name by {
                if name == base@ {
                    assert(after[i as int].base@ == name);
                } else {
                    assert(m.dom().contains(name));
                    let j = choose|j: int|
                        0 <= j < old_found.len() && (#[trigger] old_found[j]).base@ == name;
                    assert(after[j].base@ == name);
                }
            }
            assert forall|p: int, q: int| 0 <= p < q < after.len() implies before(
                (#[trigger] after[p]).base@,
                (#[trigger] after[q]).base@,
            ) by {
                assert(before(old_found[p].base@, old_found[q].base@));
            }
        }
    } else {
        let fresh = if is_a {
            Found { base: String::from_str(base), a: Some(tensor), b: None }
        } else {
            Found { base: String::from_str(base), a: None, b: Some(tensor) }
        };
        proof {
            assert forall|j: int| i <= j < old_found.len() implies before(
                base@,
                (#[trigger] old_found[j]).base@,
            ) by {
                before_is_total(base@, old_found[i as int].base@);
                if j > i {
                    before_is_transitive(base@, old_found[i as int].base@, old_found[j].base@);
                }
            }
            assert(!m.dom().contains(base@)) by {
                if m.dom().contains(base@) {
                    let j = choose|j: int|
                        0 <= j < old_found.len() && (#[trigger] old_found[j]).base@ == base@;
                    if j >= i {
                        before_is_total(base@, old_found[j].base@);
                    }
                }
            }
        }
        found.insert(i, fresh);
        proof {
            let after = found@;
            assert forall|j: int| 0 <= j < after.len() implies #[trigger] after[j] == (if j < i {
                old_found[j]
            } else if j == i {
                fresh
            } else {
                old_found[j - 1]
            }) by {}
            assert forall|j: int| 0 <= j < after.len() implies next.dom().contains(
                (#[trigger] after[j]).base@,
            ) && next[after[j].base@] == found_halves(after[j]) by {
                if j < i {
                    assert(after[j] == old_found[j]);
                } else if j > i {
                    assert(after[j] == old_found[j - 1]);
                    before_is_total(base@, old_found[j - 1].base@);
                }
            }
            assert forall|name: Seq<char>| #[trigger] next.dom().contains(name) implies exists|
                j: int,
            | 0 <= j < after.len() && (#[trigger] after[j]).base@ == name by {
                if name == base@ {
                    assert(after[i as int].base@ == name);
                } else {
                    assert(m.dom().contains(name));
                    let j = choose|j: int|
                        0 <= j < old_found.len() && (#[trigger] old_found[j]).base@ == name;
                    if j < i {
                        assert(after[j].base@ == name);
                    } else {
                        assert(after[j + 1].base@ == name);
                    }
                }
            }
            assert forall|p: int, q: int| 0 <= p < q < after.len() implies before(
                (#[trigger] after[p]).base@,
                (#[trigger] after[q]).base@,
            ) by {
                let op = if p < i {
                    p
                } else {
                    p - 1
                };
                let oq = if q < i {
                    q
                } else {
                    q - 1
                };
                if p != i && q != i {
                    assert(before(old_found[op].base@, old_found[oq].base@));
                } else if p == i {
                    assert(before(base@, old_found[oq].base@));
                }
            }
        }
    }
}

fn meta_string(file: &GgufFile, key: &str) -> (s: String)
    ensures
        s@ == str_or_empty(*file, key@),
{
    match file.metadata_str(key) {
        Some(s) => String::from_str(s),
        None => String::new(),
    }
}

fn copied_dims(v: &Vec<u64>) -> (c: Vec<u64>)
    ensures
        c@ == v@,
{
    vstd::slice::slice_to_vec(v.as_slice())
}

fn check_header(path: &str, file: &GgufFile) -> (r: Result<(), LoraError>)
    ensures
        match header_fault(*file, path@) {
            Some(fault) => r is Err && r->Err_0@ == fault,
            None => r is Ok,
        },
{
    let general_type = meta_string(file, "general.type");
    if !str_eq(general_type.as_str(), "adapter") {
        return Err(LoraError::NotAnAdapter { path: String::from_str(path), got: general_type });
    }
    let adapter_type = meta_string(file, "adapter.type");
    if !str_eq(adapter_type.as_str(), "lora") {
        return Err(LoraError::NotLora { path: String::from_str(path), got: adapter_type });
    }
    match file.metadata("adapter.alora.invocation_tokens") {
        Some(GgufValue::Array(items)) => Err(
            LoraError::Alora { path: String::from_str(path), n: items.len() },
        ),
        Some(_) => Err(LoraError::Alora { path: String::from_str(path), n: 1 }),
        None => Ok(()),
    }
}

fn read_half(path: &str, file: &GgufFile, t: &TensorInfo) -> (r: Result<LoraTensor, LoraError>)
    requires
        half_of(t.name@) is Some,
    ensures
        match tensor_fault(*file, path@, *t) {
            Some(fault) => r is Err && r->Err_0@ == fault,
            None => r is Ok && r->Ok_0@ == matrix_of(*file, *t),
        },
{
    let name = t.name.as_str();
    if t.shape.len() != 2 {
        return Err(
            LoraError::NotTwoD {
                path: String::from_str(path),
                name: String::from_str(name),
                shape: copied_dims(&t.shape),
            },
        );
    }
    match load_f32_vec(file, name) {
        Ok(data) => Ok(
            LoraTensor { shape: [t.shape[1] as usize, t.shape[0] as usize], data },
        ),
        Err(e) => Err(LoraError::Load(e)),
    }
}

fn scan(path: &str, file: &GgufFile) -> (r: Result<(Vec<Found>, Vec<String>), LoraError>)
    ensures
        match scan_fault(*file, path@, file.tensors@.len()) {
            Some(fault) => r is Err && r->Err_0@ == fault,
            None => {
                &&& r is Ok
                &&& represents(r->Ok_0.0@, halves_of(*file, file.tensors@.len()))
                &&& texts(r->Ok_0.1@) == norms_of(*file, file.tensors@.len())
            },
        },
{
    let mut found: Vec<Found> = Vec::new();
    let mut norms: Vec<String> = Vec::new();
    let n = file.tensors.len();
    let mut i: usize = 0;
    assert(texts(norms@) =~= norms_of(*file, 0));
    while i < n
        invariant
            i <= n,
            n == file.tensors@.len(),
            scan_fault(*file, path@, i as nat) is None,
            represents(found@, halves_of(*file, i as nat)),
            texts(norms@) == norms_of(*file, i as nat),
        decreases n - i,
    {
        let t = &file.tensors[i];
        let name = t.name.as_str();
        let ghost fault = tensor_fault(*file, path@, *t);
        proof {
            assert(scan_fault(*file, path@, (i + 1) as nat) == fault);
            if fault is Some {
                scan_fault_stays(*file, path@, (i + 1) as nat, n as nat);
            }
        }
        let half = match strip_suffix(name, ".lora_a") {
            Some(base) => Some((base, true)),
            None => match strip_suffix(name, ".lora_b") {
                Some(base) => Some((base, false)),
                None => None,
            },
        };
        match half {
            Some((base, is_a)) => {
                let tensor = read_half(path, file, t)?;
                let ghost m = halves_of(*file, i as nat);
                add_half(&mut found, base, is_a, tensor, Ghost(m));
            },
            None => {
                if !ends_with(name, "_norm.weight") {
                    return Err(
                        LoraError::UnexpectedSuffix {
                            path: String::from_str(path),
                            name: String::from_str(name),
                        },
                    );
                }
                let ghost was = norms@;
                norms.push(String::from_str(name));
                assert(texts(norms@) =~= texts(was).push(name@));
            },
        }
        i += 1;
    }
    Ok((found, norms))
}

fn pair_up(path: &str, found: Vec<Found>, Ghost(m): Ghost<Map<Seq<char>, Halves>>) -> (r: Result<
    Vec<NamedPair>,
    LoraError,
>)
    requires
        represents(found@, m),
    ensures
        match r {
            Ok(pairs) => {
                &&& pairs_are(m, pairs@)
                &&& forall|i: int, j: int|
                    0 <= i < j < pairs@.len() ==> before(
                        (#[trigger] pairs@[i]).name@,
                        (#[trigger] pairs@[j]).name@,
                    )
                &&& forall|name: Seq<char>| #[trigger] m.dom().contains(name) ==> m[name].whole()
            },
            Err(e) => exists|name: Seq<char>| #[trigger]
                first_incomplete(m, name) && e@ == (LoraFault::MissingComponent {
                    path: path@,
                    name,
                }),
        },
{
    let mut found = found;
    let ghost all = found@;
    let n = found.len();
    let mut pairs: Vec<NamedPair> = Vec::new();
    let mut i: usize = 0;
    while i < n
        invariant
            i <= n,
            n == all.len(),
            represents(all, m),
            found@ == all.skip(i as int),
            pairs@.len() == i,
            forall|j: int|
                0 <= j < i ==> {
                    let p = #[trigger] pairs@[j];
                    &&& p.name@ == all[j].base@
                    &&& m[p.name@].a == Some(p.pair.a@)
                    &&& m[p.name@].b == Some(p.pair.b@)
                },
        decreases n - i,
    {
        let entry = found.remove(0);
        assert(entry == all[i as int]);
        assert(found@ =~= all.skip(i + 1));
        assert(m[all[i as int].base@] == found_halves(all[i as int]));
        match (entry.a, entry.b) {
            (Some(a), Some(b)) => {
                pairs.push(NamedPair { name: entry.base, pair: LoraPair { a, b } });
            },
            _ => {
                proof {
                    let name = entry.base@;
                    assert(m.dom().contains(name) && !m[name].whole());
                    assert forall|other: Seq<char>|
                        #[trigger] m.dom().contains(other) && !m[other].whole() implies !before(
                        other,
                        name,
                    ) by {
                        let j = choose|j: int|
                            0 <= j < all.len() && (#[trigger] all[j]).base@ == other;
                        if j < i {
                            assert(pairs@[j].name@ == other);
                        } else if j == i {
                            before_is_total(name, name);
                        } else {
                            assert(before(all[i as int].base@, all[j].base@));
                            before_is_total(name, other);
                        }
                    }
                    assert(first_incomplete(m, name));
                }
                return Err(
                    LoraError::MissingComponent { path: String::from_str(path), name: entry.base },
                );
            },
        }
        i += 1;
    }
    proof {
        assert forall|j: int, k: int| 0 <= j < k < pairs@.len() implies before(
            (#[trigger] pairs@[j]).name@,
            (#[trigger] pairs@[k]).name@,
        ) by {
            assert(before(all[j].base@, all[k].base@));
        }
        assert forall|name: Seq<char>| #[trigger] m.dom().contains(name) implies exists|j: int|
            0 <= j < pairs@.len() && (#[trigger] pairs@[j]).name@ == name by {
            let j = choose|j: int| 0 <= j < all.len() && (#[trigger] all[j]).base@ == name;
            assert(pairs@[j].name@ == name);
        }
        assert forall|name: Seq<char>| #[trigger] m.dom().contains(name) implies m[name].whole() by {
            let j = choose|j: int| 0 <= j < all.len() && (#[trigger] all[j]).base@ == name;
            assert(pairs@[j].name@ == name);
        }
        assert forall|j: int| 0 <= j < pairs@.len() implies {
            let p = #[trigger] pairs@[j];
            &&& m.dom().contains(p.name@)
            &&& m[p.name@].a == Some(p.pair.a@)
            &&& m[p.name@].b == Some(p.pair.b@)
        } by {
            assert(m.dom().contains(all[j].base@));
        }
    }
    Ok(pairs)
}

impl LoraAdapter {
    /// Parses an adapter file.
    pub fn from_file(path: &str, file: &GgufFile) -> (adapter: Result<Self, LoraError>)
        ensures
            match header_fault(*file, path@) {
                Some(fault) => adapter is Err && adapter->Err_0@ == fault,
                None => match scan_fault(*file, path@, file.tensors@.len()) {
                    Some(fault) => adapter is Err && adapter->Err_0@ == fault,
                    None => match adapter {
                        Ok(a) => adapter_is(*file, path@, a) && forall|name: Seq<char>| #[trigger]
                            halves_of(*file, file.tensors@.len()).dom().contains(name)
                                ==> halves_of(*file, file.tensors@.len())[name].whole(),
                        Err(e) => exists|name: Seq<char>| #[trigger]
                            first_incomplete(halves_of(*file, file.tensors@.len()), name) && e@
                                == (LoraFault::MissingComponent { path: path@, name }),
                    },
                },
            },
    {
        check_header(path, file)?;
        let (found, skipped_norms) = scan(path, file)?;
        let ghost m = halves_of(*file, file.tensors@.len());
        let pairs = pair_up(path, found, Ghost(m))?;
        Ok(
            LoraAdapter {
                path: String::from_str(path),
                arch: meta_string(file, ARCH_KEY),
                alpha: file.bits_or("adapter.lora.alpha", 0),
                task_name: meta_string(file, "adapter.lora.task_name"),
                prompt_prefix: meta_string(file, "adapter.lora.prompt_prefix"),
                pairs,
                skipped_norms,
            },
        )
    }
}

fn tensor_is_complete(t: &LoraTensor) -> (yes: bool)
    ensures
        yes == t@.complete(),
{
    let rows: u128 = t.rows() as u128;
    let cols: u128 = t.cols() as u128;
    assert(rows * cols <= u128::MAX) by (nonlinear_arith)
        requires
            0 <= rows <= u64::MAX,
            0 <= cols <= u64::MAX,
    ;
    t.data.len() as u128 == rows * cols
}

impl LoraAdapter {
    /// Whether every tensor has an element for every place.
    pub fn is_complete(&self) -> (yes: bool)
        ensures
            yes == self.complete(),
    {
        let mut i: usize = 0;
        while i < self.pairs.len()
            invariant
                i <= self.pairs@.len(),
                forall|j: int|
                    0 <= j < i ==> (#[trigger] self.pairs@[j]).pair.a@.complete()
                        && self.pairs@[j].pair.b@.complete(),
            decreases self.pairs@.len() - i,
        {
            let pair = &self.pairs[i].pair;
            if !tensor_is_complete(&pair.a) || !tensor_is_complete(&pair.b) {
                return false;
            }
            i += 1;
        }
        true
    }
}

/// Whether every name of the file stands for one tensor.
pub open spec fn distinct_names(file: GgufFile) -> bool {
    forall|i: int, j: int|
        0 <= i < j < file.tensors@.len() ==> (#[trigger] file.tensors@[i]).name@ != (
        #[trigger] file.tensors@[j]).name@
}

/// Whether every dimension of the file fits the machine.
pub open spec fn dimensions_fit(file: GgufFile) -> bool {
    forall|i: int, j: int|
        0 <= i < file.tensors@.len() && 0 <= j < file.tensors@[i].shape@.len()
            ==> #[trigger] file.tensors@[i].shape@[j] <= usize::MAX
}

proof fn halves_are_complete(file: GgufFile, path: Seq<char>, n: nat)
    requires
        n <= file.tensors@.len(),
        file.complete(),
        distinct_names(file),
        dimensions_fit(file),
        scan_fault(file, path, n) is None,
    ensures
        forall|name: Seq<char>| #[trigger]
            halves_of(file, n).dom().contains(name) ==> {
                let h = halves_of(file, n)[name];
                &&& h.a is Some ==> h.a->0.complete()
                &&& h.b is Some ==> h.b->0.complete()
            },
    decreases n,
{
    if n > 0 {
        halves_are_complete(file, path, (n - 1) as nat);
        let t = file.tensors@[n - 1];
        if half_of(t.name@) is Some {
            first_tensor_is_a_tensor(file.tensors@, t.name@);
            assert(file.tensor(t.name@) == Some(t)) by {
                let i = choose|i: int|
                    0 <= i < file.tensors@.len() && #[trigger] file.tensors@[i] == first_tensor(
                        file.tensors@,
                        t.name@,
                    )->0 && file.tensors@[i].name@ == t.name@;
                assert(i == n - 1) by {
                    if i < n - 1 {
                        assert(file.tensors@[i].name@ != file.tensors@[n - 1].name@);
                    } else if i > n - 1 {
                        assert(file.tensors@[n - 1].name@ != file.tensors@[i].name@);
                    }
                }
            }
            assert(t.shape@.len() == 2);
            let s = t.shape@;
            assert(s.drop_last().drop_last() =~= seq![]);
            assert(element_count(s.drop_last().drop_last()) == 1);
            assert(element_count(s.drop_last()) == s[0] as nat) by {
                assert(s.drop_last().last() == s[0]);
            }
            assert(element_count(s) == s[0] as nat * s[1] as nat);
            assert(s[0] as nat * s[1] as nat == s[1] as nat * s[0] as nat) by (nonlinear_arith);
            assert(file.tensors@[n - 1].shape@[0] <= usize::MAX);
            assert(file.tensors@[n - 1].shape@[1] <= usize::MAX);
            assert(matrix_of(file, t).complete());
        }
    }
}

/// The adapter read from a file whose tensors carry what their dimensions
/// say, each name standing for one of them, is complete.
pub proof fn complete_files_give_complete_adapters(file: GgufFile, path: Seq<char>, a: LoraAdapter)
    requires
        file.complete(),
        distinct_names(file),
        dimensions_fit(file),
        scan_fault(file, path, file.tensors@.len()) is None,
        adapter_is(file, path, a),
    ensures
        a.complete(),
{
    halves_are_complete(file, path, file.tensors@.len());
    let m = halves_of(file, file.tensors@.len());
    assert forall|i: int| 0 <= i < a.pairs@.len() implies (#[trigger] a.pairs@[i]).pair.a@.complete()
        && a.pairs@[i].pair.b@.complete() by {
        assert(m.dom().contains(a.pairs@[i].name@));
    }
}

/// A tensor named after a base tensor with `.lora_a` behind it is the
/// `a` half of that base tensor's pair, one with `.lora_b` its `b` half.
pub proof fn a_half_is_named_after_its_base(base: Seq<char>)
    ensures
        half_of(base + ".lora_a"@) == Some((base, true)),
        half_of(base + ".lora_b"@) == Some((base, false)),
{
    reveal_strlit(".lora_a");
    reveal_strlit(".lora_b");
    let a = base + ".lora_a"@;
    let b = base + ".lora_b"@;
    assert(a.take(a.len() - ".lora_a"@.len()) =~= base);
    assert(b.take(b.len() - ".lora_b"@.len()) =~= base);
    assert(a.subrange(a.len() - ".lora_a"@.len(), a.len() as int) =~= ".lora_a"@);
    assert(b.subrange(b.len() - ".lora_b"@.len(), b.len() as int) =~= ".lora_b"@);
    assert(b.last() == 'b');
    assert(".lora_a"@.last() == 'a');
    if ".lora_a"@.is_suffix_of(b) {
        assert(b.subrange(b.len() - ".lora_a"@.len(), b.len() as int).last() == 'a');
    }
}

proof fn a_halfs_name(name: Seq<char>)
    ensures
        half_of(name) matches Some((base, is_a)) ==> name == base + (if is_a {
            ".lora_a"@
        } else {
            ".lora_b"@
        }),
{
    if ".lora_a"@.is_suffix_of(name) {
        assert(name =~= name.take(name.len() - ".lora_a"@.len()) + ".lora_a"@);
    } else if ".lora_b"@.is_suffix_of(name) {
        assert(name =~= name.take(name.len() - ".lora_b"@.len()) + ".lora_b"@);
    }
}

proof fn half_is_found(file: GgufFile, n: nat, i: int, base: Seq<char>, is_a: bool)
    requires
        n <= file.tensors@.len(),
        0 <= i < n,
        distinct_names(file),
        half_of(file.tensors@[i].name@) == Some((base, is_a)),
    ensures
        halves_of(file, n).dom().contains(base),
        is_a ==> halves_of(file, n)[base].a == Some(matrix_of(file, file.tensors@[i])),
        !is_a ==> halves_of(file, n)[base].b == Some(matrix_of(file, file.tensors@[i])),
    decreases n,
{
    let t = file.tensors@[n - 1];
    if i < n - 1 {
        half_is_found(file, (n - 1) as nat, i, base, is_a);
        a_halfs_name(t.name@);
        a_halfs_name(file.tensors@[i].name@);
        assert(file.tensors@[i].name@ != file.tensors@[n - 1].name@);
    }
}

proof fn halves_come_from_tensors(file: GgufFile, n: nat, base: Seq<char>)
    requires
        n <= file.tensors@.len(),
        halves_of(file, n).dom().contains(base),
    ensures
        halves_of(file, n)[base].a matches Some(m) ==> exists|i: int|
            0 <= i < n && half_of((#[trigger] file.tensors@[i]).name@) == Some((base, true)) && m
                == matrix_of(file, file.tensors@[i]),
        halves_of(file, n)[base].b matches Some(m) ==> exists|i: int|
            0 <= i < n && half_of((#[trigger] file.tensors@[i]).name@) == Some((base, false)) && m
                == matrix_of(file, file.tensors@[i]),
    decreases n,
{
    if n > 0 {
        let earlier = halves_of(file, (n - 1) as nat);
        if earlier.dom().contains(base) {
            halves_come_from_tensors(file, (n - 1) as nat, base);
        }
        let t = file.tensors@[n - 1];
        assert(file.tensors@[n - 1] == t);
    }
}

/// The pair of a base tensor is the two tensors named after it: where the
/// file holds `<base>.lora_a` and `<base>.lora_b`, the adapter has a pair
/// for `<base>` whose `a` half is the one and whose `b` half the other,
/// with the dimensions and the elements that the file has under those
/// names.
pub proof fn a_pair_is_the_two_tensors_named_after_its_base(
    file: GgufFile,
    path: Seq<char>,
    adapter: LoraAdapter,
    base: Seq<char>,
    i: int,
    j: int,
) -> (k: int)
    requires
        adapter_is(file, path, adapter),
        distinct_names(file),
        0 <= i < file.tensors@.len(),
        0 <= j < file.tensors@.len(),
        file.tensors@[i].name@ == base + ".lora_a"@,
        file.tensors@[j].name@ == base + ".lora_b"@,
    ensures
        0 <= k < adapter.pairs@.len(),
        adapter.pairs@[k].name@ == base,
        ({
            let pair = adapter.pairs@[k].pair;
            &&& pair.a@.rows == file.tensors@[i].shape@[1] as usize
            &&& pair.a@.cols == file.tensors@[i].shape@[0] as usize
            &&& pair.a@.data == vector_of(file, base + ".lora_a"@)
            &&& pair.b@.rows == file.tensors@[j].shape@[1] as usize
            &&& pair.b@.cols == file.tensors@[j].shape@[0] as usize
            &&& pair.b@.data == vector_of(file, base + ".lora_b"@)
        }),
{
    let n = file.tensors@.len();
    a_half_is_named_after_its_base(base);
    half_is_found(file, n, i, base, true);
    half_is_found(file, n, j, base, false);
    let m = halves_of(file, n);
    assert(m.dom().contains(base));
    let k = choose|k: int|
        0 <= k < adapter.pairs@.len() && (#[trigger] adapter.pairs@[k]).name@ == base;
    assert(m[base].a == Some(adapter.pairs@[k].pair.a@));
    k
}

/// Every pair of an adapter comes from its file: its halves are tensors
/// of the file, the one named after its base tensor with `.lora_a`, the
/// other with `.lora_b`.
pub proof fn every_pair_comes_from_the_file(
    file: GgufFile,
    path: Seq<char>,
    adapter: LoraAdapter,
    k: int,
)
    requires
        adapter_is(file, path, adapter),
        0 <= k < adapter.pairs@.len(),
    ensures
        exists|i: int|
            0 <= i < file.tensors@.len() && (#[trigger] file.tensors@[i]).name@
                == adapter.pairs@[k].name@ + ".lora_a"@ && adapter.pairs@[k].pair.a@.rows
                == file.tensors@[i].shape@[1] as usize && adapter.pairs@[k].pair.a@.cols
                == file.tensors@[i].shape@[0] as usize,
        exists|i: int|
            0 <= i < file.tensors@.len() && (#[trigger] file.tensors@[i]).name@
                == adapter.pairs@[k].name@ + ".lora_b"@ && adapter.pairs@[k].pair.b@.rows
                == file.tensors@[i].shape@[1] as usize && adapter.pairs@[k].pair.b@.cols
                == file.tensors@[i].shape@[0] as usize,
        adapter.pairs@[k].pair.a@.data == vector_of(file, adapter.pairs@[k].name@ + ".lora_a"@),
        adapter.pairs@[k].pair.b@.data == vector_of(file, adapter.pairs@[k].name@ + ".lora_b"@),
{
    let n = file.tensors@.len();
    let base = adapter.pairs@[k].name@;
    let m = halves_of(file, n);
    assert(m.dom().contains(base));
    halves_come_from_tensors(file, n, base);
    let i = choose|i: int|
        0 <= i < n && half_of((#[trigger] file.tensors@[i]).name@) == Some((base, true)) && m[base].a
            == Some(matrix_of(file, file.tensors@[i]));
    let j = choose|j: int|
        0 <= j < n && half_of((#[trigger] file.tensors@[j]).name@) == Some((base, false))
            && m[base].b == Some(matrix_of(file, file.tensors@[j]));
    a_halfs_name(file.tensors@[i].name@);
    a_halfs_name(file.tensors@[j].name@);
}

/// What an adapter says of itself is what its file's keys say; what the
/// file does not say is empty, and the alpha zero. Its pairs stand in the
/// order of their names.
pub proof fn an_adapters_header_is_its_keys(file: GgufFile, path: Seq<char>, a: LoraAdapter)
    requires
        header_fault(file, path) is None,
        adapter_is(file, path, a),
    ensures
        file.meta_str("general.type"@) == Some("adapter"@),
        file.meta_str("adapter.type"@) == Some("lora"@),
        file.meta("adapter.alora.invocation_tokens"@) is None,
        a.path@ == path,
        match file.meta_str("general.architecture"@) {
            Some(arch) => a.arch@ == arch,
            None => a.arch@.len() == 0,
        },
        match file.meta_f32("adapter.lora.alpha"@) {
            Some(bits) => a.alpha == bits,
            None => a.alpha == 0,
        },
        match file.meta_str("adapter.lora.task_name"@) {
            Some(s) => a.task_name@ == s,
            None => a.task_name@.len() == 0,
        },
        match file.meta_str("adapter.lora.prompt_prefix"@) {
            Some(s) => a.prompt_prefix@ == s,
            None => a.prompt_prefix@.len() == 0,
        },
        forall|i: int, j: int|
            0 <= i < j < a.pairs@.len() ==> before(
                (#[trigger] a.pairs@[i]).name@,
                (#[trigger] a.pairs@[j]).name@,
            ),
{
    reveal_strlit("adapter");
    reveal_strlit("lora");
    assert("adapter"@.len() == 7 && "lora"@.len() == 4);
}

/// Which headers are refused: those that do not say `adapter` and `lora`,
/// and those with invocation tokens, in that order.
pub proof fn which_headers_are_refused(file: GgufFile, path: Seq<char>)
    ensures
        file.meta_str("general.type"@) != Some("adapter"@) ==> (header_fault(file, path)
            matches Some(LoraFault::NotAnAdapter { path: p, got }) && p == path),
        file.meta_str("general.type"@) == Some("adapter"@) && file.meta_str("adapter.type"@) != Some(
            "lora"@,
        ) ==> (header_fault(file, path) matches Some(LoraFault::NotLora { path: p, got }) && p
            == path),
        file.meta_str("general.type"@) == Some("adapter"@) && file.meta_str("adapter.type"@) == Some(
            "lora"@,
        ) ==> (header_fault(file, path) is None <==> file.meta(
            "adapter.alora.invocation_tokens"@,
        ) is None),
{
    reveal_strlit("adapter");
    reveal_strlit("lora");
    assert("adapter"@.len() == 7 && "lora"@.len() == 4);
}

/// What a tensor of an adapter file may be: a half, of two dimensions and
/// a type that can be read, or a norm, which is skipped; anything else is
/// refused.
pub proof fn what_an_adapters_tensor_may_be(file: GgufFile, path: Seq<char>, t: TensorInfo)
    ensures
        half_of(t.name@) is Some ==> (tensor_fault(file, path, t) is None <==> t.shape@.len() == 2
            && vector_fault(file, t.name@) is None),
        half_of(t.name@) is None ==> (tensor_fault(file, path, t) is None
            <==> "_norm.weight"@.is_suffix_of(t.name@)),
        is_skipped_norm(t.name@) ==> half_of(t.name@) is None,
{
}

/// The norms that were skipped are the file's norms, in file order, and
/// the first tensor that is refused is the one reported.
pub proof fn norms_are_skipped_in_file_order(file: GgufFile, path: Seq<char>, n: nat)
    requires
        n < file.tensors@.len(),
    ensures
        norms_of(file, 0).len() == 0,
        norms_of(file, n + 1) == if is_skipped_norm(file.tensors@[n as int].name@) {
            norms_of(file, n).push(file.tensors@[n as int].name@)
        } else {
            norms_of(file, n)
        },
        scan_fault(file, path, n) is Some ==> scan_fault(file, path, n + 1) == scan_fault(
            file,
            path,
            n,
        ),
        scan_fault(file, path, n) is None ==> scan_fault(file, path, n + 1) == tensor_fault(
            file,
            path,
            file.tensors@[n as int],
        ),
{
}

} // verus!
