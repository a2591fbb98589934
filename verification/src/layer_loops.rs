//! Physical layers that run more than once.
//!
//! A model may walk its physical layers several times. Every logical
//! layer has its own cache and shares the weights of the physical layer
//! it runs; between two passes the residual is normed with the output
//! norm, unless the file skips that.

use crate::gguf::{u64_or, GgufFile};
use crate::load_error::{LoadError, LoadFault};
use crate::text::{arch_key, arch_key_text, str_eq};
use vstd::prelude::*;
use vstd::string::StringExecFns;

verus! {

/// Architectures whose graph loops, with the lines that do.
pub const LOOP_READERS: [(&'static str, &'static str); 1] = [
    ("nanbeige", "src/models/nanbeige.cpp:6-31,167-175"),
];

/// Several passes over the physical layers.
#[derive(Debug, Clone, Copy, PartialEq, Eq, Structural)]
pub struct LayerLoops {
    /// The blocks that the file holds tensors for.
    pub n_phys: usize,
    /// How many passes; at least two.
    pub n_loops: usize,
    /// No norm between passes.
    pub skip_loop_final_norm: bool,
}

impl LayerLoops {
    /// The number of logical layers fits the machine.
    pub open spec fn fits(&self) -> bool {
        self.n_phys * self.n_loops <= usize::MAX
    }

    /// Whether the residual is normed after logical layer `l`: the last
    /// layer of a pass, and not of the last one.
    pub open spec fn norm_after(&self, l: int) -> bool {
        &&& !self.skip_loop_final_norm
        &&& self.n_phys > 0
        &&& (l + 1) % (self.n_phys as int) == 0
        &&& l + 1 < self.n_phys * self.n_loops
    }

    /// How many logical layers there are.
    pub fn logical_layers(&self) -> (n: usize)
        requires
            self.fits(),
        ensures
            n == self.n_phys * self.n_loops,
    {
        self.n_phys * self.n_loops
    }

    /// The physical layer that logical layer `l` runs.
    pub fn physical(&self, l: usize) -> (p: usize)
        requires
            self.n_phys > 0,
        ensures
            p == l as int % self.n_phys as int,
            p < self.n_phys,
    {
        l % self.n_phys
    }

    /// Whether the residual is normed after logical layer `l`.
    pub fn loop_norm_after(&self, l: usize) -> (yes: bool)
        requires
            self.fits(),
            l < usize::MAX,
        ensures
            yes == self.norm_after(l as int),
    {
        !self.skip_loop_final_norm && self.n_phys > 0 && (l + 1) % self.n_phys == 0 && l + 1
            < self.logical_layers()
    }
}

/// Pass `k` runs every physical layer once, in order: its layer `i` is
/// physical layer `i`.
pub proof fn a_pass_runs_every_layer_in_order(loops: LayerLoops, k: int, i: int)
    requires
        0 <= k < loops.n_loops,
        0 <= i < loops.n_phys,
    ensures
        0 <= k * loops.n_phys + i < loops.n_phys * loops.n_loops,
        (k * loops.n_phys + i) % (loops.n_phys as int) == i,
{
    let n = loops.n_phys as int;
    assert(0 <= k * n + i < n * loops.n_loops) by (nonlinear_arith)
        requires
            0 <= k < loops.n_loops,
            0 <= i < n,
    ;
    vstd::arithmetic::div_mod::lemma_fundamental_div_mod_converse(k * n + i, n, k, i);
}

/// A norm stands between any two passes and nowhere else: after the last
/// layer of every pass but the last, unless the file skips it.
pub proof fn norms_stand_between_passes(loops: LayerLoops, k: int, i: int)
    requires
        0 <= k < loops.n_loops,
        0 <= i < loops.n_phys,
    ensures
        loops.norm_after(k * loops.n_phys + i) <==> !loops.skip_loop_final_norm && i
            == loops.n_phys - 1 && k < loops.n_loops - 1,
{
    let n = loops.n_phys as int;
    let l = k * n + i;
    if i == n - 1 {
        assert(l + 1 == (k + 1) * n + 0) by (nonlinear_arith)
            requires
                l == k * n + i,
                i == n - 1,
        ;
        vstd::arithmetic::div_mod::lemma_fundamental_div_mod_converse(l + 1, n, k + 1, 0);
        assert((k + 1) * n < n * loops.n_loops <==> k + 1 < loops.n_loops) by (nonlinear_arith)
            requires
                0 < n,
        ;
    } else {
        vstd::arithmetic::div_mod::lemma_fundamental_div_mod_converse(l + 1, n, k, i + 1);
    }
}

/// Whether the graph of `arch` loops.
pub open spec fn loop_reader(arch: Seq<char>) -> bool {
    LOOP_READERS@[0].0@ == arch
}

/// The refusal of no passes at all.
pub const SAID_NO_LOOPS: &'static str = "num_loops is 0; llama.cpp asserts it is at least 1";

/// How many passes a file declares.
pub open spec fn declared_loops(file: GgufFile, arch: Seq<char>) -> usize {
    u64_or(file.meta_u64(arch_key(arch, "num_loops"@)), 1)
}

/// Reads the passes over the layers: `None` for an architecture whose
/// graph does not loop, and for a file that declares one pass or nothing.
pub fn read_layer_loops(file: &GgufFile, arch: &str, n_phys: usize) -> (r: Result<
    Option<LayerLoops>,
    LoadError,
>)
    ensures
        if loop_reader(arch@) && declared_loops(*file, arch@) == 0 {
            r is Err && r->Err_0@ == LoadFault::UnsupportedFeature(arch@, SAID_NO_LOOPS@)
        } else if !loop_reader(arch@) || declared_loops(*file, arch@) == 1 {
            r is Ok && r->Ok_0 is None
        } else {
            r == Ok::<Option<LayerLoops>, LoadError>(
                Some(
                    LayerLoops {
                        n_phys,
                        n_loops: declared_loops(*file, arch@),
                        skip_loop_final_norm: file.meta_bool(
                            arch_key(arch@, "skip_loop_final_norm"@),
                        ) == Some(true),
                    },
                ),
            )
        },
{
    if !str_eq(LOOP_READERS[0].0, arch) {
        return Ok(None);
    }
    let n_loops: usize = match file.metadata_u64(arch_key_text(arch, "num_loops").as_str()) {
        Some(n) => n as usize,
        None => 1,
    };
    if n_loops == 0 {
        return Err(
            LoadError::UnsupportedFeature(
                String::from_str(arch),
                String::from_str(SAID_NO_LOOPS),
            ),
        );
    }
    if n_loops == 1 {
        return Ok(None);
    }
    let skip_loop_final_norm = match file.metadata_bool(
        arch_key_text(arch, "skip_loop_final_norm").as_str(),
    ) {
        Some(skip) => skip,
        None => false,
    };
    Ok(Some(LayerLoops { n_phys, n_loops, skip_loop_final_norm }))
}

/// What a file's passes are: those under `num_loops`, for the one
/// architecture whose graph loops.
pub proof fn declared_passes_are_their_key(file: GgufFile, arch: Seq<char>)
    ensures
        loop_reader(arch) <==> arch == "nanbeige"@,
        match file.meta_u64(arch + "."@ + "num_loops"@) {
            Some(n) => declared_loops(file, arch) == n as usize,
            None => declared_loops(file, arch) == 1,
        },
{
    assert(LOOP_READERS@[0].0@ == "nanbeige"@);
}

} // verus!
