//! The width of a V head where it differs from that of a K head.

use crate::load_error::{LoadError, LoadFault};
use crate::text::{decimal, decimal_text, str_eq};
use vstd::prelude::*;
use vstd::string::StringExecFns;

verus! {

/// Architectures whose graph sizes K and V heads apart, with the lines
/// that do.
pub const SPLIT_KV_HEAD_DIM_ARCHS: [(&'static str, &'static str); 1] = [
    ("mimo2", "src/models/mimo2.cpp:47-48,52,132-140,152-154; conversion/mimo.py:154"),
];

/// What is said of widths that differ, round the two widths and the
/// architecture.
pub const SAID_SPLIT: [&'static str; 4] = [
    "split K/V head dims (key_length=",
    ", value_length=",
    "): llama.cpp's `",
    "` graph asserts the two equal (`n_embd_head_k() == n_embd_head_v()`), so a file \
     declaring them apart runs there no more than here; only `mimo2` sizes K and V heads \
     separately on the generic path (`ferrox_models::kv_head_dims`)",
];

/// The refusal of a width of zero.
pub const SAID_ZERO_WIDTH: &'static str = "attention.value_length is 0";

/// Whether `arch` may declare the two widths apart.
pub open spec fn splits(arch: Seq<char>) -> bool {
    SPLIT_KV_HEAD_DIM_ARCHS@[0].0@ == arch
}

/// Whether `arch` may declare the two widths apart.
pub fn admits_split_kv_head_dims(arch: &str) -> (yes: bool)
    ensures
        yes == splits(arch@),
{
    str_eq(SPLIT_KV_HEAD_DIM_ARCHS[0].0, arch)
}

/// The V width: the declared one, or that of K.
pub open spec fn v_width(head_dim: usize, value_length: Option<usize>) -> usize {
    match value_length {
        Some(v) => v,
        None => head_dim,
    }
}

/// Why a V width is refused.
pub open spec fn v_width_fault(arch: Seq<char>, head_dim: usize, value_length: Option<usize>) -> Option<
    LoadFault,
> {
    let v = v_width(head_dim, value_length);
    if v != head_dim && !splits(arch) {
        Some(
            LoadFault::UnsupportedFeature(
                arch,
                SAID_SPLIT@[0]@ + decimal(head_dim as nat) + SAID_SPLIT@[1]@ + decimal(v as nat)
                    + SAID_SPLIT@[2]@ + arch + SAID_SPLIT@[3]@,
            ),
        )
    } else if v == 0 {
        Some(LoadFault::UnsupportedFeature(arch, SAID_ZERO_WIDTH@))
    } else {
        None
    }
}

/// The V head width of a file: what it declares, or the K width; refused
/// where the two differ and the graph of `arch` takes them to be equal.
pub fn resolve_v_head_dim(arch: &str, head_dim: usize, value_length: Option<usize>) -> (r: Result<
    usize,
    LoadError,
>)
    ensures
        match v_width_fault(arch@, head_dim, value_length) {
            Some(fault) => r is Err && r->Err_0@ == fault,
            None => r == Ok::<usize, LoadError>(v_width(head_dim, value_length)),
        },
{
    let v_head_dim: usize = match value_length {
        Some(v) => v,
        None => head_dim,
    };
    if v_head_dim == head_dim || admits_split_kv_head_dims(arch) {
        if v_head_dim == 0 {
            return Err(
                LoadError::UnsupportedFeature(
                    String::from_str(arch),
                    String::from_str(SAID_ZERO_WIDTH),
                ),
            );
        }
        return Ok(v_head_dim);
    }
    Err(
        LoadError::UnsupportedFeature(
            String::from_str(arch),
            String::from_str(SAID_SPLIT[0]).concat(decimal_text(head_dim as u64).as_str()).concat(
                SAID_SPLIT[1],
            ).concat(decimal_text(v_head_dim as u64).as_str()).concat(SAID_SPLIT[2]).concat(
                arch,
            ).concat(SAID_SPLIT[3]),
        ),
    )
}

/// A V head is as wide as the file says, and as a K head where it says
/// nothing. Widths that differ are served for `mimo2` alone, and a width
/// of zero for no one.
pub proof fn which_value_widths_are_served(
    arch: Seq<char>,
    head_dim: usize,
    value_length: Option<usize>,
)
    ensures
        value_length is None ==> v_width(head_dim, value_length) == head_dim,
        value_length matches Some(v) ==> v_width(head_dim, value_length) == v,
        v_width_fault(arch, head_dim, value_length) is None <==> v_width(head_dim, value_length) > 0
            && (v_width(head_dim, value_length) == head_dim || arch == "mimo2"@),
{
    assert(SPLIT_KV_HEAD_DIM_ARCHS@[0].0@ == "mimo2"@);
}

} // verus!
