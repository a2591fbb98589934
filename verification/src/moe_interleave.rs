//! How often a routed layer comes past the leading dense ones.
//!
//! Only a step of one is served: with it, every layer past the dense ones
//! routes.

use crate::text::{contains_name, decimal, decimal_text, has_name};
use vstd::prelude::*;
use vstd::string::StringExecFns;

verus! {

/// Architectures whose files must declare the step.
pub const INTERLEAVE_STEP_IS_REQUIRED: [&'static str; 1] = ["ernie4_5-moe"];

/// What is said of a missing step, round the architecture.
pub const SAID_MISSING: [&'static str; 2] = [
    "`",
    ".interleave_moe_layer_step` is missing. llama.cpp reads it as a REQUIRED key for this \
     architecture (src/models/ernie4-5.cpp:11) and asserts it is positive \
     (ernie4-5-moe.cpp:26), so a file without it is one llama.cpp will not load either. \
     Every real ERNIE-4.5 MoE export carries it (conversion/ernie.py:88)",
];

/// What is said of a step of zero, round the architecture.
pub const SAID_ZERO: [&'static str; 2] = [
    "`",
    ".interleave_moe_layer_step` is 0. llama.cpp asserts `hparams.n_moe_layer_step > 0` \
     (src/models/ernie4-5-moe.cpp:26) before building the graph, and a step of 0 would \
     divide by zero in its own layer rule at :64",
];

/// What is said of a step above one, round the architecture and the step.
pub const SAID_STEP: [&'static str; 3] = [
    "`",
    ".interleave_moe_layer_step` is ",
    ", and ferrox serves only 1. src/models/ernie4-5-moe.cpp:64 makes a layer MoE when `il \
     >= n_layer_dense_lead && (il + 1) % n_moe_layer_step == 0`, while \
     ModelConfig::layer_is_dense implements only the leading-dense prefix -- but NEITHER \
     does llama.cpp load such a file. Its tensor loader (src/models/ernie4-5.cpp:49) \
     creates the expert tensors as REQUIRED for EVERY layer at or past \
     `n_layer_dense_lead`, with no step in the condition, and creates the dense \
     `ffn_gate`/`ffn_up`/`ffn_down` for none of them. The loader and the graph therefore \
     agree only when the step changes nothing, so a checkpoint whose interleave really \
     interleaves cannot be loaded by llama.cpp and there is no reference to check ferrox \
     against. Both published ERNIE-4.5 MoE checkpoints carry a step of 1, which ferrox runs \
     and tests/one_match_arm_graphs.rs pins against libllama's own logits",
];

/// Why the step of a file cannot be served.
pub open spec fn step_refusal(arch: Seq<char>, step: Option<u64>) -> Option<Seq<char>> {
    match step {
        None => if has_name(INTERLEAVE_STEP_IS_REQUIRED@, arch) {
            Some(SAID_MISSING@[0]@ + arch + SAID_MISSING@[1]@)
        } else {
            None
        },
        Some(n) => if n == 1 {
            None
        } else if n == 0 {
            Some(SAID_ZERO@[0]@ + arch + SAID_ZERO@[1]@)
        } else {
            Some(SAID_STEP@[0]@ + arch + SAID_STEP@[1]@ + decimal(n as nat) + SAID_STEP@[2]@)
        },
    }
}

/// Why the step that a file declares, or leaves out, cannot be served;
/// `None` where it can.
pub fn interleave_step_refusal(arch: &str, step: Option<u64>) -> (why: Option<String>)
    ensures
        match step_refusal(arch@, step) {
            Some(said) => why is Some && why->0@ == said,
            None => why is None,
        },
{
    match step {
        None => if contains_name(INTERLEAVE_STEP_IS_REQUIRED.as_slice(), arch) {
            Some(String::from_str(SAID_MISSING[0]).concat(arch).concat(SAID_MISSING[1]))
        } else {
            None
        },
        Some(n) => if n == 1 {
            None
        } else if n == 0 {
            Some(String::from_str(SAID_ZERO[0]).concat(arch).concat(SAID_ZERO[1]))
        } else {
            Some(
                String::from_str(SAID_STEP[0]).concat(arch).concat(SAID_STEP[1]).concat(
                    decimal_text(n).as_str(),
                ).concat(SAID_STEP[2]),
            )
        },
    }
}

/// A step is served exactly where it is one, or left out by a file of an
/// architecture that does not ask for it.
pub proof fn only_a_step_of_one_is_served(arch: Seq<char>, step: Option<u64>)
    ensures
        step_refusal(arch, step) is None <==> step == Some(1u64) || (step is None && !has_name(
            INTERLEAVE_STEP_IS_REQUIRED@,
            arch,
        )),
{
}

/// The step is asked for by `ernie4_5-moe` alone: a file of that
/// architecture without one is refused, a file of any other is not.
pub proof fn who_must_declare_a_step(arch: Seq<char>)
    ensures
        step_refusal(arch, None) is Some <==> arch == "ernie4_5-moe"@,
        forall|n: u64| #[trigger] step_refusal(arch, Some(n)) is None <==> n == 1,
{
    assert(INTERLEAVE_STEP_IS_REQUIRED@[0]@ == "ernie4_5-moe"@);
}

} // verus!
