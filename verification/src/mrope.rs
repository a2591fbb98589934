//! What is done with the sections of a multi-axis rotation in a text
//! model.
//!
//! With text positions such a rotation pairs elements half a head apart.
//! An architecture that rotates so anyway is served; one that pairs
//! neighbours would rotate the wrong pairs and is refused.

use crate::gguf::{GgufFile, GgufValue};
use crate::text::{arch_key, arch_key_text, str_eq};
use vstd::prelude::*;
use vstd::string::StringExecFns;

verus! {

/// What is done with a file that declares the sections.
#[derive(Debug, Clone, Copy, PartialEq, Eq, Structural)]
pub enum MropeOnText {
    /// The architecture rotates that way without them too: served.
    SameAsNeox,
    /// The architecture pairs neighbours without them: refused.
    RefusedNormBase,
}

/// The architectures of the generic decoder whose rotation the sections
/// switch, with the lines that do.
pub const MROPE_READERS: [(&'static str, MropeOnText, &'static str); 2] = [
    (
        "glm4moe",
        MropeOnText::SameAsNeox,
        "src/models/glm4-moe.cpp:6,145,188; llama-model.cpp:2700",
    ),
    (
        "glm4",
        MropeOnText::RefusedNormBase,
        "src/models/glm4.cpp:5,112-119; llama-model.cpp:2699; conversion/glm.py:53-85",
    ),
];

/// What is said of a refused file, round the architecture, the
/// architecture again, and the lines.
pub const SAID_MROPE: [&'static str; 4] = [
    "`",
    ".rope.dimension_sections` declares M-RoPE (a vision export's text tower): llama.cpp \
     rotates this file with LLAMA_ROPE_TYPE_MROPE over Q/K weights the converter permuted \
     to NEOX order, where the text-only `",
    "` rotates NORM (",
    "). ferrox decides the rotation per architecture, so it stops rather than rotate the \
     wrong pairs of every head; libllama's logits for such a file differ from the \
     unpermuted file's by 0.72 (measured on tests/fixtures/glm4_mrope_tiny.gguf)",
];

/// The unsigned integer at place `i` of a list; zero where there is none.
pub open spec fn section(items: Seq<GgufValue>, i: int) -> u64 {
    if i < items.len() {
        match items[i].unsigned() {
            Some(n) => n,
            None => 0,
        }
    } else {
        0
    }
}

/// Whether a file declares the sections: the first two are not zero.
pub open spec fn has_mrope(file: GgufFile, arch: Seq<char>) -> bool {
    match file.meta(arch_key(arch, "rope.dimension_sections"@)) {
        Some(GgufValue::Array(items)) => section(items@, 0) > 0 && section(items@, 1) > 0,
        _ => false,
    }
}

fn section_at(items: &Vec<GgufValue>, i: usize) -> (n: u64)
    ensures
        n == section(items@, i as int),
{
    if i < items.len() {
        match items[i].as_u64() {
            Some(n) => n,
            None => 0,
        }
    } else {
        0
    }
}

/// Whether a file declares the sections.
pub fn declares_mrope(file: &GgufFile, arch: &str) -> (yes: bool)
    ensures
        yes == has_mrope(*file, arch@),
{
    match file.metadata(arch_key_text(arch, "rope.dimension_sections").as_str()) {
        Some(GgufValue::Array(items)) => section_at(items, 0) > 0 && section_at(items, 1) > 0,
        _ => false,
    }
}

/// The row of `arch`, from row `i` on.
pub open spec fn mrope_row(arch: Seq<char>, i: int) -> Option<int>
    decreases 2 - i,
{
    if i < 0 || i >= 2 {
        None
    } else if MROPE_READERS@[i].0@ == arch {
        Some(i)
    } else {
        mrope_row(arch, i + 1)
    }
}

/// Why a file is refused for its sections.
pub open spec fn mrope_refused(file: GgufFile, arch: Seq<char>) -> Option<Seq<char>> {
    match mrope_row(arch, 0) {
        None => None,
        Some(i) => if MROPE_READERS@[i].1 != MropeOnText::RefusedNormBase || !has_mrope(file, arch) {
            None
        } else {
            Some(
                SAID_MROPE@[0]@ + arch + SAID_MROPE@[1]@ + arch + SAID_MROPE@[2]@
                    + MROPE_READERS@[i].2@ + SAID_MROPE@[3]@,
            )
        },
    }
}

/// Why a file is refused for its sections; `None` where it may be run.
pub fn mrope_refusal(file: &GgufFile, arch: &str) -> (why: Option<String>)
    ensures
        match mrope_refused(*file, arch@) {
            Some(said) => why is Some && why->0@ == said,
            None => why is None,
        },
{
    let mut i: usize = 0;
    while i < 2
        invariant
            i <= 2,
            mrope_row(arch@, 0) == mrope_row(arch@, i as int),
        decreases 2 - i,
    {
        let row = MROPE_READERS[i];
        if str_eq(row.0, arch) {
            if row.1 != MropeOnText::RefusedNormBase || !declares_mrope(file, arch) {
                return None;
            }
            return Some(
                String::from_str(SAID_MROPE[0]).concat(arch).concat(SAID_MROPE[1]).concat(
                    arch,
                ).concat(SAID_MROPE[2]).concat(row.2).concat(SAID_MROPE[3]),
            );
        }
        i += 1;
    }
    None
}

/// A file declares the sections exactly where it has a list under that
/// key whose first two entries are numbers above zero; a list that is
/// shorter, or another value, declares none.
pub proof fn two_sections_declare_the_rotation(file: GgufFile, arch: Seq<char>)
    ensures
        has_mrope(file, arch) <==> (file.meta(arch + "."@ + "rope.dimension_sections"@) matches Some(
            GgufValue::Array(items),
        ) && items@.len() >= 2 && items@[0].unsigned() is Some && items@[0].unsigned()->0 > 0
            && items@[1].unsigned() is Some && items@[1].unsigned()->0 > 0),
{
}

/// Only `glm4` is refused for the sections, and only where it declares
/// them: every other architecture may be run with them or without.
pub proof fn only_glm4_is_refused_for_its_sections(file: GgufFile, arch: Seq<char>)
    ensures
        mrope_refused(file, arch) is Some <==> arch == "glm4"@ && has_mrope(file, arch),
{
    reveal_with_fuel(mrope_row, 3);
    reveal_strlit("glm4");
    reveal_strlit("glm4moe");
    assert("glm4"@.len() == 4 && "glm4moe"@.len() == 7);
    assert(MROPE_READERS@[0].0@ == "glm4moe"@);
    assert(MROPE_READERS@[1].0@ == "glm4"@);
}

} // verus!
