//! What the architectures that the MLA engine serves decide differently:
//! how Q is projected, the activation of the dense layers, and where the
//! output head comes from. One table, which the loader reads.
//!
//! `mistral4` has no loader of its own: it is `deepseek2`'s row under a
//! second name ([`mistral4_is_deepseek2`]).

use crate::text::str_eq;
use vstd::prelude::*;

verus! {

/// How a row projects Q.
#[derive(Debug, Clone, Copy, PartialEq, Eq, Structural)]
pub enum QProjRule {
    /// `attention.q_lora_rank` is required and low-rank, unless the layer
    /// count is a lite one ([`is_lite`]): then the key is not read and Q
    /// is direct.
    LoraUnlessLite,
    /// Always direct; the key is never read.
    Direct,
}

/// What a row does with `output.weight`.
#[derive(Debug, Clone, Copy, PartialEq, Eq, Structural)]
pub enum MlaOutputHead {
    /// `output.weight` if the file has it, else `token_embd.weight`.
    OutputOrTied,
    /// `token_embd.weight` always; a file with an `output.weight` is
    /// refused.
    TiedOnly,
}

/// The activation of a dense feed-forward block.
#[derive(Debug, Clone, Copy, PartialEq, Eq, Structural)]
pub enum GluAct {
    /// The gated SiLU.
    Swiglu,
    /// The square of the ReLU, with no gate.
    ReluSqr,
}

impl GluAct {
    /// Whether the activation takes no gate.
    pub open spec fn ungated(&self) -> bool {
        *self == GluAct::ReluSqr
    }

    /// Whether the activation takes no gate.
    pub fn is_ungated(&self) -> (yes: bool)
        ensures
            yes == self.ungated(),
    {
        *self == GluAct::ReluSqr
    }
}

/// One architecture the MLA engine serves.
#[derive(Debug, Clone, Copy)]
pub struct MlaArch {
    pub name: &'static str,
    pub q_proj: QProjRule,
    /// The activation of the dense layers.
    pub dense_act: GluAct,
    pub output_head: MlaOutputHead,
    /// Where the row's decisions are read from.
    pub lines: &'static str,
}

/// Every architecture the MLA loader accepts, with its decisions.
pub const MLA_ENGINE_ARCHS: [(&'static str, QProjRule, GluAct, MlaOutputHead, &'static str); 3] = [
    (
        "deepseek2",
        QProjRule::LoraUnlessLite,
        GluAct::Swiglu,
        MlaOutputHead::OutputOrTied,
        "src/models/deepseek2.cpp:8,11-13,92-96,104-115,129-131",
    ),
    (
        "mistral4",
        QProjRule::LoraUnlessLite,
        GluAct::Swiglu,
        MlaOutputHead::OutputOrTied,
        "src/models/mistral4.cpp (deepseek2's loader and graph)",
    ),
    (
        "plm",
        QProjRule::Direct,
        GluAct::ReluSqr,
        MlaOutputHead::TiedOnly,
        "src/models/plm.cpp:23-24,32,39-40,181-187",
    ),
];

/// Row `i` of the table.
pub open spec fn mla_row_at(i: int) -> MlaArch {
    let row = MLA_ENGINE_ARCHS@[i];
    MlaArch { name: row.0, q_proj: row.1, dense_act: row.2, output_head: row.3, lines: row.4 }
}

/// The row of an architecture, if it has one.
pub open spec fn mla_row(arch: Seq<char>) -> Option<MlaArch> {
    if arch == "deepseek2"@ {
        Some(mla_row_at(0))
    } else if arch == "mistral4"@ {
        Some(mla_row_at(1))
    } else if arch == "plm"@ {
        Some(mla_row_at(2))
    } else {
        None
    }
}

/// The row of an architecture, or `None` for one the MLA engine does not
/// serve.
pub fn mla_arch(arch: &str) -> (row: Option<MlaArch>)
    ensures
        row == mla_row(arch@),
{
    let mut i: usize = 0;
    while i < MLA_ENGINE_ARCHS.len()
        invariant
            i <= 3,
            forall|j: int| 0 <= j < i ==> (#[trigger] MLA_ENGINE_ARCHS@[j]).0@ != arch@,
        decreases 3 - i,
    {
        let (name, q_proj, dense_act, output_head, lines) = MLA_ENGINE_ARCHS[i];
        if str_eq(name, arch) {
            proof {
                assert(i == 0 || i == 1 || i == 2);
                assert(i > 0 ==> MLA_ENGINE_ARCHS@[0].0@ != arch@);
                assert(i > 1 ==> MLA_ENGINE_ARCHS@[1].0@ != arch@);
            }
            return Some(MlaArch { name, q_proj, dense_act, output_head, lines });
        }
        i += 1;
    }
    proof {
        assert(MLA_ENGINE_ARCHS@[0].0@ != arch@);
        assert(MLA_ENGINE_ARCHS@[1].0@ != arch@);
        assert(MLA_ENGINE_ARCHS@[2].0@ != arch@);
    }
    None
}

/// Whether a trunk layer count and vocabulary are those of a lite
/// checkpoint.
pub open spec fn lite(n_layer: int, n_vocab: int) -> bool {
    n_layer == 27 || n_layer == 26 || (n_layer == 48 && n_vocab == 128256)
}

/// Whether a trunk layer count and vocabulary are those of a lite
/// checkpoint, which projects Q directly whatever its keys say.
pub fn is_lite(n_layer: usize, n_vocab: usize) -> (yes: bool)
    ensures
        yes == lite(n_layer as int, n_vocab as int),
{
    n_layer == 27 || n_layer == 26 || (n_layer == 48 && n_vocab == 128256)
}

/// `mistral4` decides everything as `deepseek2` does.
pub proof fn mistral4_is_deepseek2()
    ensures
        mla_row("mistral4"@) is Some,
        mla_row("deepseek2"@) is Some,
        mla_row("mistral4"@)->0.q_proj == mla_row("deepseek2"@)->0.q_proj,
        mla_row("mistral4"@)->0.dense_act == mla_row("deepseek2"@)->0.dense_act,
        mla_row("mistral4"@)->0.output_head == mla_row("deepseek2"@)->0.output_head,
{
    reveal_strlit("mistral4");
    reveal_strlit("deepseek2");
    reveal_strlit("plm");
    assert("mistral4"@.len() != "deepseek2"@.len());
}

/// What each architecture that the engine serves decides: `deepseek2` and
/// `mistral4` project Q through a low-rank pair unless they are lite, gate
/// their dense layers, and may have an output head of their own; `plm`
/// projects Q directly, has no gate, and only ever the tied head. No other
/// architecture is served.
pub proof fn what_an_mla_architecture_decides(arch: Seq<char>)
    ensures
        mla_row(arch) is Some <==> arch == "deepseek2"@ || arch == "mistral4"@ || arch == "plm"@,
        mla_row(arch) matches Some(row) ==> {
            &&& row.name@ == arch
            &&& arch != "plm"@ ==> row.q_proj == QProjRule::LoraUnlessLite && !row.dense_act.ungated()
                && row.output_head == MlaOutputHead::OutputOrTied
            &&& arch == "plm"@ ==> row.q_proj == QProjRule::Direct && row.dense_act.ungated()
                && row.output_head == MlaOutputHead::TiedOnly
        },
{
    reveal_strlit("mistral4");
    reveal_strlit("deepseek2");
    reveal_strlit("plm");
    assert("mistral4"@.len() == 8 && "deepseek2"@.len() == 9 && "plm"@.len() == 3);
    assert(MLA_ENGINE_ARCHS@[0].0@ == "deepseek2"@);
    assert(MLA_ENGINE_ARCHS@[1].0@ == "mistral4"@);
    assert(MLA_ENGINE_ARCHS@[2].0@ == "plm"@);
}

/// Whether a checkpoint is lite is said by its layer count alone, but for
/// the one count that takes a vocabulary with it.
pub proof fn which_checkpoints_are_lite(n_layer: int, n_vocab: int, other: int)
    ensures
        n_layer == 26 || n_layer == 27 ==> lite(n_layer, n_vocab),
        n_layer == 48 ==> (lite(n_layer, n_vocab) <==> n_vocab == 128256),
        n_layer != 26 && n_layer != 27 && n_layer != 48 ==> !lite(n_layer, n_vocab),
        n_layer != 48 ==> lite(n_layer, n_vocab) == lite(n_layer, other),
{
}

} // verus!
