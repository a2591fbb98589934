//! The attention and feed-forward shape of each layer.
//!
//! A file may give its head counts and its feed-forward width as one
//! number or as one for each layer. Only the architectures of
//! [`PER_LAYER_SHAPE_ARCHS`] index the numbers by layer; for any other one
//! a file whose layers differ is refused.

use crate::config::ModelConfig;
use crate::gguf::{dims_chars, list_text, value_chars, value_text, GgufFile, GgufValue};
use crate::load_error::{LoadError, LoadFault};
use crate::mtp_blocks::TrunkLayers;
use crate::norm::{NormModel, NormOp};
use crate::norm_sites::{
    post_norm_fault, post_norm_is, pre_norm_fault, pre_norm_of, site_view, NormSites,
};
use crate::text::{block_name, block_name_text, decimal, decimal_text, str_eq};
use crate::weights::{
    first_fault, load_weight_matrix, matrix_fault, ExpertWeights, WeightMatrix,
};
use vstd::prelude::*;
use vstd::string::StringExecFns;

verus! {

/// Architectures whose graph indexes the shapes by layer, with the lines
/// that do.
pub const PER_LAYER_SHAPE_ARCHS: [(&'static str, &'static str); 16] = [
    (
        "deci",
        "generic. deci.cpp:30-34 (loader) and :103-105 (graph): all three per layer, with \
         n_head == 0 an attention-free layer, n_head_kv == 0 a wo-only layer and n_ff == 0 \
         an FFN-free layer",
    ),
    (
        "openelm",
        "generic. openelm.cpp:26-28 (loader) and :67-69 (graph): all three per layer, \
         sizing one fused wqkv per layer",
    ),
    (
        "plamo3",
        "generic. plamo3.cpp:39-44 (loader) and :110-111 (graph); no published PLaMo-3 \
         export writes an array (conversion/plamo.py:27-30 writes scalars), so the seam is \
         latent there",
    ),
    (
        "laguna",
        "generic. laguna.cpp:87-88 (loader) and :176-177 (graph) read n_head(i) per layer; \
         KV heads uniform (:86). Closed with the gated attention (`crate::attn_gate`); the \
         second rotary width at :50 is `ModelConfig::rope_dim_swa` (`crate::swa_geometry`)",
    ),
    (
        "mimo2",
        "mimo2.cpp:47-49,111-112 read heads per layer (`swa_num_key_value_heads` on the \
         sliding layers, the converter's array). Closed with the split K/V head width \
         (`crate::kv_head_dims`, the V width :47-48 sizes apart from K's) and the value \
         scale (`crate::attn_value_scale`, :16,181); the sinks at :58 are \
         `AttnWeights::sinks`, the is_swa array at :12 is `crate::swa_layers` and the NEXTN \
         blocks at :19 are `crate::mtp_blocks`",
    ),
    (
        "step35",
        "generic. step35.cpp:76-78,208-209 (loader and graph) read heads and KV widths per \
         layer. Closed with the per-layer activation seam (`crate::act_layers`, the clamp \
         arrays at :28-29) and the two-valued rotary width (`crate::swa_geometry`, :9); the \
         gate at :96 is `crate::attn_gate`, the is_swa array at :26 `crate::swa_layers`, \
         the NEXTN blocks at :32 `crate::mtp_blocks`",
    ),
    (
        "nanbeige",
        "nanbeige.cpp:24-26 copies each physical layer's arrays to every logical slot; \
         `LayerShapes::replicated` does the same and `crate::layer_loops` is the seam the \
         row closed on",
    ),
    (
        "gemma4",
        "dedicated engine. gemma4.cpp:64-67,91 (loader) and :179-184 (graph)",
    ),
    (
        "gemma4-assistant",
        "dedicated engine. gemma4-assistant.cpp:53-55 (loader) and :134-138 (graph)",
    ),
    (
        "jamba",
        "hybrid: n_head_kv(i) == 0 marks a recurrent layer (jamba.cpp:12,48-49,122)",
    ),
    (
        "lfm2",
        "hybrid: n_head_kv(il) == 0 marks a recurrent layer (lfm2.cpp:10,72,130-132)",
    ),
    (
        "lfm2moe",
        "hybrid: n_head_kv(il) == 0 marks a recurrent layer (lfm2moe.cpp:13,63)",
    ),
    (
        "nemotron-h",
        "hybrid: n_head_kv(i) == 0 && n_ff(i) == 0 marks a recurrent layer \
         (nemotron-h.cpp:13,82-114,149,189)",
    ),
    (
        "plamo2",
        "hybrid: n_head_kv(i) == 0 marks a recurrent layer (plamo2.cpp:19,82-84,218-219)",
    ),
    (
        "granite-hybrid",
        "hybrid: n_head_kv(i) == 0 marks a recurrent layer \
         (granite-hybrid.cpp:23,93-95,207)",
    ),
    (
        "kimi-linear",
        "hybrid: n_head_kv(i) == 0 marks a KDA layer (kimi-linear.cpp:18)",
    ),
];

/// Whether `arch` is in the table, from row `i` on.
pub open spec fn in_table(arch: Seq<char>, i: int) -> bool
    decreases 16 - i,
{
    if i < 0 || i >= 16 {
        false
    } else {
        PER_LAYER_SHAPE_ARCHS@[i].0@ == arch || in_table(arch, i + 1)
    }
}

/// Whether the graph of `arch` indexes the shapes by layer.
pub fn per_layer_shapes_read_by_llama_cpp(arch: &str) -> (yes: bool)
    ensures
        yes == in_table(arch@, 0),
{
    let mut i: usize = 0;
    while i < 16
        invariant
            i <= 16,
            in_table(arch@, 0) == in_table(arch@, i as int),
        decreases 16 - i,
    {
        if str_eq(PER_LAYER_SHAPE_ARCHS[i].0, arch) {
            return true;
        }
        i += 1;
    }
    false
}

/// What a layer's attention is.
#[derive(Debug, Clone, Copy, PartialEq, Eq, Structural)]
pub enum AttnShape {
    /// Grouped-query attention.
    Gqa { n_heads: usize, n_kv_heads: usize },
    /// The output projection alone, with nothing cached.
    Linear,
    /// Nothing: the residual passes on as it is.
    Absent,
}

/// What is said of a layer with K/V heads and no query heads, round their
/// number.
pub const SAID_NO_QUERY: [&'static str; 2] = [
    "head_count 0 with head_count_kv ",
    ": deci.cpp:107 would skip attention while :44 sizes a zero-wide Q projection",
];

/// The shape that two head counts give, or why they give none.
pub open spec fn shape_of(n_heads: usize, n_kv_heads: usize) -> Result<AttnShape, Seq<char>> {
    if n_heads == 0 && n_kv_heads == 0 {
        Ok(AttnShape::Absent)
    } else if n_heads == 0 {
        Err(SAID_NO_QUERY@[0]@ + decimal(n_kv_heads as nat) + SAID_NO_QUERY@[1]@)
    } else if n_kv_heads == 0 {
        Ok(AttnShape::Linear)
    } else if n_heads % n_kv_heads != 0 {
        Err(
            "head_count "@ + decimal(n_heads as nat) + " is not a multiple of head_count_kv "@
                + decimal(n_kv_heads as nat),
        )
    } else {
        Ok(AttnShape::Gqa { n_heads, n_kv_heads })
    }
}

impl AttnShape {
    /// The shape that two head counts give.
    pub fn from_counts(n_heads: usize, n_kv_heads: usize) -> (r: Result<Self, String>)
        ensures
            match shape_of(n_heads, n_kv_heads) {
                Ok(shape) => r == Ok::<AttnShape, String>(shape),
                Err(why) => r is Err && r->Err_0@ == why,
            },
    {
        if n_heads == 0 && n_kv_heads == 0 {
            Ok(AttnShape::Absent)
        } else if n_heads == 0 {
            Err(
                String::from_str(SAID_NO_QUERY[0]).concat(
                    decimal_text(n_kv_heads as u64).as_str(),
                ).concat(SAID_NO_QUERY[1]),
            )
        } else if n_kv_heads == 0 {
            Ok(AttnShape::Linear)
        } else if n_heads % n_kv_heads != 0 {
            Err(
                String::from_str("head_count ").concat(
                    decimal_text(n_heads as u64).as_str(),
                ).concat(" is not a multiple of head_count_kv ").concat(
                    decimal_text(n_kv_heads as u64).as_str(),
                ),
            )
        } else {
            Ok(AttnShape::Gqa { n_heads, n_kv_heads })
        }
    }

    /// The K/V heads that a layer of this shape caches.
    pub open spec fn kv_heads(self) -> usize {
        match self {
            AttnShape::Gqa { n_kv_heads, .. } => n_kv_heads,
            AttnShape::Linear | AttnShape::Absent => 0,
        }
    }

    /// The query heads of a layer of this shape.
    pub open spec fn heads(self) -> usize {
        match self {
            AttnShape::Gqa { n_heads, .. } => n_heads,
            AttnShape::Linear | AttnShape::Absent => 0,
        }
    }

    /// The K/V heads that a layer of this shape caches: none, where it
    /// writes no history.
    pub fn n_kv_heads(self) -> (n: usize)
        ensures
            n == self.kv_heads(),
    {
        match self {
            AttnShape::Gqa { n_kv_heads, .. } => n_kv_heads,
            AttnShape::Linear | AttnShape::Absent => 0,
        }
    }

    /// The query heads of a layer of this shape.
    pub fn n_heads(self) -> (n: usize)
        ensures
            n == self.heads(),
    {
        match self {
            AttnShape::Gqa { n_heads, .. } => n_heads,
            AttnShape::Linear | AttnShape::Absent => 0,
        }
    }
}

/// A layer's shape.
#[derive(Debug, Clone, Copy, PartialEq, Eq, Structural)]
pub struct LayerShape {
    pub attention: AttnShape,
    /// The feed-forward width; zero where there is no such block.
    pub ffn_dim: usize,
}

/// The shapes of all layers, or the statement that they all agree.
#[derive(Debug, PartialEq, Eq)]
pub enum LayerShapes {
    /// Every layer has the shape of the model's configuration.
    Uniform,
    /// One shape for each layer, at least two of which differ.
    PerLayer(Vec<LayerShape>),
}

/// Whether two layers of a table differ.
pub open spec fn some_differ(v: Seq<LayerShape>) -> bool {
    exists|i: int, j: int|
        0 <= i < v.len() && 0 <= j < v.len() && #[trigger] v[i] != #[trigger] v[j]
}

impl LayerShapes {
    /// What holds of every value: layers that all agree are not written
    /// out one by one.
    pub open spec fn well_formed(self) -> bool {
        self matches LayerShapes::PerLayer(v) ==> some_differ(v@)
    }
}

impl Default for LayerShapes {
    fn default() -> (s: Self)
        ensures
            s is Uniform,
            s.well_formed(),
    {
        LayerShapes::Uniform
    }
}

/// Whether all entries are the same.
pub open spec fn all_same(s: Seq<u64>) -> bool {
    forall|i: int, j: int| 0 <= i < s.len() && 0 <= j < s.len() ==> #[trigger] s[i] == #[trigger] s[j]
}

/// Whether no list varies.
pub open spec fn uniform(heads: Seq<u64>, kv_heads: Seq<u64>, ffn: Option<Seq<u64>>) -> bool {
    all_same(heads) && all_same(kv_heads) && (ffn is Some ==> all_same(ffn->0))
}

/// The contents of a slice that may not be there.
pub open spec fn slice_view(ffn: Option<&[u64]>) -> Option<Seq<u64>> {
    match ffn {
        Some(f) => Some(f@),
        None => None,
    }
}

/// What is said of layers that differ where the graph reads the first
/// one, round the three lists.
pub const SAID_VARYING: [&'static str; 4] = [
    "per-layer head_count / head_count_kv / feed_forward_length arrays whose entries differ (heads ",
    ", kv ",
    ", ff ",
    "). llama.cpp reads these arrays for every architecture (llama-model.cpp:1149-1158) but this \
     one's graph takes layer 0 through LLAMA_LOAD_LOCALS (llama-model.h:760-767), so such a file \
     cannot load there either; `layer_shapes::PER_LAYER_SHAPE_ARCHS` lists the ones that index per \
     layer",
];

/// What is said of a layer with attention and no feed-forward block,
/// round its head count.
pub const SAID_DROPPED: [&'static str; 2] = [
    ": feed_forward_length 0 on a layer WITH attention (head_count ",
    "). deci.cpp:147-149 `continue`s before the residual add at :150-153, discarding the attention \
     output that :115-137 computed, and ferrox will not reproduce a dropped branch as the \
     reference. An FFN-free layer with head_count 0 is supported",
];

/// How a list that may not be there is written.
pub open spec fn list_chars(ffn: Option<Seq<u64>>) -> Seq<char> {
    match ffn {
        Some(f) => "Some("@ + dims_chars(f) + ")"@,
        None => "None"@,
    }
}

fn optional_list_text(ffn: Option<&[u64]>) -> (t: String)
    ensures
        t@ == list_chars(slice_view(ffn)),
{
    match ffn {
        Some(f) => String::from_str("Some(").concat(list_text(f).as_str()).concat(")"),
        None => String::from_str("None"),
    }
}

/// The feed-forward width of layer `il`.
pub open spec fn ffn_of(ffn: Option<Seq<u64>>, expert_ffn_dim: usize, il: int) -> usize {
    match ffn {
        Some(f) => f[il] as usize,
        None => expert_ffn_dim,
    }
}

/// Why layer `il` is refused.
pub open spec fn layer_fault(
    arch: Seq<char>,
    heads: Seq<u64>,
    kv_heads: Seq<u64>,
    ffn: Option<Seq<u64>>,
    expert_ffn_dim: usize,
    il: int,
) -> Option<LoadFault> {
    match shape_of(heads[il] as usize, kv_heads[il] as usize) {
        Err(why) => Some(
            LoadFault::UnsupportedFeature(arch, "blk."@ + decimal(il as nat) + ": "@ + why),
        ),
        Ok(shape) => if ffn_of(ffn, expert_ffn_dim, il) == 0 && shape != AttnShape::Absent {
            Some(
                LoadFault::UnsupportedFeature(
                    arch,
                    "blk."@ + decimal(il as nat) + SAID_DROPPED@[0]@ + decimal(heads[il] as nat)
                        + SAID_DROPPED@[1]@,
                ),
            )
        } else {
            None
        },
    }
}

/// The first fault of the first `n` layers.
pub open spec fn layers_fault(
    arch: Seq<char>,
    heads: Seq<u64>,
    kv_heads: Seq<u64>,
    ffn: Option<Seq<u64>>,
    expert_ffn_dim: usize,
    n: int,
) -> Option<LoadFault>
    decreases n,
{
    if n <= 0 {
        None
    } else {
        first_fault(
            layers_fault(arch, heads, kv_heads, ffn, expert_ffn_dim, n - 1),
            layer_fault(arch, heads, kv_heads, ffn, expert_ffn_dim, n - 1),
        )
    }
}

proof fn layers_fault_stays(
    arch: Seq<char>,
    heads: Seq<u64>,
    kv_heads: Seq<u64>,
    ffn: Option<Seq<u64>>,
    expert_ffn_dim: usize,
    k: int,
    n: int,
)
    requires
        k <= n,
        layers_fault(arch, heads, kv_heads, ffn, expert_ffn_dim, k) is Some,
    ensures
        layers_fault(arch, heads, kv_heads, ffn, expert_ffn_dim, n) == layers_fault(
            arch,
            heads,
            kv_heads,
            ffn,
            expert_ffn_dim,
            k,
        ),
    decreases n - k,
{
    if k < n {
        layers_fault_stays(arch, heads, kv_heads, ffn, expert_ffn_dim, k, n - 1);
    }
}

/// Why the shapes of a file are refused.
pub open spec fn shapes_fault(
    arch: Seq<char>,
    heads: Seq<u64>,
    kv_heads: Seq<u64>,
    ffn: Option<Seq<u64>>,
    expert_ffn_dim: usize,
) -> Option<LoadFault> {
    if uniform(heads, kv_heads, ffn) {
        None
    } else if !in_table(arch, 0) {
        Some(
            LoadFault::UnsupportedFeature(
                arch,
                SAID_VARYING@[0]@ + dims_chars(heads) + SAID_VARYING@[1]@ + dims_chars(kv_heads)
                    + SAID_VARYING@[2]@ + list_chars(ffn) + SAID_VARYING@[3]@,
            ),
        )
    } else {
        layers_fault(arch, heads, kv_heads, ffn, expert_ffn_dim, heads.len() as int)
    }
}

/// The shape of layer `il` of a file whose layers differ.
pub open spec fn layer_of(
    heads: Seq<u64>,
    kv_heads: Seq<u64>,
    ffn: Option<Seq<u64>>,
    expert_ffn_dim: usize,
    il: int,
) -> LayerShape {
    LayerShape {
        attention: shape_of(heads[il] as usize, kv_heads[il] as usize)->Ok_0,
        ffn_dim: ffn_of(ffn, expert_ffn_dim, il),
    }
}

/// Whether the layers of a file have one shape, whatever its lists say:
/// the head counts of layers that cache no heads make no difference.
pub open spec fn alike(
    heads: Seq<u64>,
    kv_heads: Seq<u64>,
    ffn: Option<Seq<u64>>,
    expert_ffn_dim: usize,
) -> bool {
    forall|i: int, j: int|
        0 <= i < heads.len() && 0 <= j < heads.len() ==> #[trigger] layer_of(
            heads,
            kv_heads,
            ffn,
            expert_ffn_dim,
            i,
        ) == #[trigger] layer_of(heads, kv_heads, ffn, expert_ffn_dim, j)
}

/// Whether the list of widths, where there is one, reaches as far as the
/// layers are read: up to the first one that is refused.
pub open spec fn widths_reach(
    arch: Seq<char>,
    heads: Seq<u64>,
    kv_heads: Seq<u64>,
    ffn: Option<Seq<u64>>,
    expert_ffn_dim: usize,
) -> bool {
    ffn matches Some(f) ==> forall|il: int|
        0 <= il < heads.len() && #[trigger] layers_fault(
            arch,
            heads,
            kv_heads,
            ffn,
            expert_ffn_dim,
            il,
        ) is None && shape_of(heads[il] as usize, kv_heads[il] as usize) is Ok ==> il < f.len()
}

fn one_shape(shapes: &Vec<LayerShape>) -> (yes: bool)
    ensures
        yes == !some_differ(shapes@),
{
    let mut i: usize = 1;
    while i < shapes.len()
        invariant
            1 <= i,
            shapes@.len() > 0 ==> i <= shapes@.len(),
            forall|j: int| 0 <= j < i && j < shapes@.len() ==> #[trigger] shapes@[j] == shapes@[0],
        decreases shapes@.len() - i,
    {
        if shapes[i - 1] != shapes[i] {
            assert(shapes@[i - 1] != shapes@[i as int]);
            return false;
        }
        i += 1;
    }
    true
}

fn same(s: &[u64]) -> (yes: bool)
    ensures
        yes == all_same(s@),
{
    let mut i: usize = 1;
    while i < s.len()
        invariant
            1 <= i,
            s@.len() > 0 ==> i <= s@.len(),
            forall|j: int| 0 <= j < i && j < s@.len() ==> #[trigger] s@[j] == s@[0],
        decreases s@.len() - i,
    {
        if s[i - 1] != s[i] {
            assert(s@[i - 1] != s@[i as int]);
            return false;
        }
        i += 1;
    }
    assert(all_same(s@));
    true
}

impl LayerShapes {
    /// Whether every layer has the shape of the model's configuration.
    pub fn is_uniform(&self) -> (yes: bool)
        ensures
            yes == (self is Uniform),
    {
        matches!(self, LayerShapes::Uniform)
    }

    /// The same shapes for several passes over the layers.
    pub fn replicated(self, n_loops: usize) -> (s: Self)
        requires
            match self {
                LayerShapes::PerLayer(v) => v@.len() * n_loops <= usize::MAX,
                LayerShapes::Uniform => true,
            },
        ensures
            match self {
                LayerShapes::Uniform => s is Uniform,
                LayerShapes::PerLayer(v) => match s {
                    LayerShapes::PerLayer(w) => if n_loops > 1 {
                        w@ == repeated(v@, n_loops as int)
                    } else {
                        w == v
                    },
                    LayerShapes::Uniform => false,
                },
            },
            self.well_formed() ==> s.well_formed(),
    {
        match self {
            LayerShapes::PerLayer(v) => {
                if n_loops <= 1 {
                    return LayerShapes::PerLayer(v);
                }
                let n = v.len();
                let mut out: Vec<LayerShape> = Vec::new();
                let mut pass: usize = 0;
                proof {
                    assert(0 * n == 0);
                }
                while pass < n_loops
                    invariant
                        pass <= n_loops,
                        n == v@.len(),
                        out@.len() == pass * n,
                        forall|i: int| 0 <= i < out@.len() ==> #[trigger] out@[i] == v@[i % n as int],
                    decreases n_loops - pass,
                {
                    let mut k: usize = 0;
                    while k < n
                        invariant
                            k <= n,
                            n == v@.len(),
                            out@.len() == pass * n + k,
                            forall|i: int|
                                0 <= i < out@.len() ==> #[trigger] out@[i] == v@[i % n as int],
                        decreases n - k,
                    {
                        proof {
                            vstd::arithmetic::div_mod::lemma_fundamental_div_mod_converse(
                                pass * n + k,
                                n as int,
                                pass as int,
                                k as int,
                            );
                        }
                        out.push(v[k]);
                        k += 1;
                    }
                    assert(pass * n + n == (pass + 1) * n) by (nonlinear_arith);
                    pass += 1;
                }
                assert(n_loops * n == n * n_loops) by (nonlinear_arith);
                assert(out@ =~= repeated(v@, n_loops as int));
                proof {
                    if some_differ(v@) {
                        let (i, j) = choose|i: int, j: int|
                            0 <= i < v@.len() && 0 <= j < v@.len() && #[trigger] v@[i]
                                != #[trigger] v@[j];
                        passes_repeat_shapes(v@, n_loops as int, 0, i);
                        passes_repeat_shapes(v@, n_loops as int, 0, j);
                        assert(out@[i] != out@[j]);
                    }
                }
                LayerShapes::PerLayer(out)
            },
            LayerShapes::Uniform => LayerShapes::Uniform,
        }
    }

    /// The shapes that a file's lists give. Where nothing varies they
    /// are uniform: where no list does, for any architecture, and where
    /// the lists vary and the shapes they make do not. Lists that vary are
    /// refused where the graph of `arch` does not index them. `ffn` may be
    /// absent, and every layer then has the experts' width.
    pub fn resolve(
        arch: &str,
        heads: &[u64],
        kv_heads: &[u64],
        ffn: Option<&[u64]>,
        expert_ffn_dim: usize,
    ) -> (r: Result<Self, LoadError>)
        requires
            kv_heads@.len() == heads@.len(),
            !uniform(heads@, kv_heads@, slice_view(ffn)) && in_table(arch@, 0) ==> widths_reach(
                arch@,
                heads@,
                kv_heads@,
                slice_view(ffn),
                expert_ffn_dim,
            ),
        ensures
            match shapes_fault(arch@, heads@, kv_heads@, slice_view(ffn), expert_ffn_dim) {
                Some(fault) => r is Err && r->Err_0@ == fault,
                None => match r {
                    Ok(LayerShapes::Uniform) => uniform(heads@, kv_heads@, slice_view(ffn))
                        || alike(heads@, kv_heads@, slice_view(ffn), expert_ffn_dim),
                    Ok(LayerShapes::PerLayer(v)) => {
                        &&& !uniform(heads@, kv_heads@, slice_view(ffn))
                        &&& !alike(heads@, kv_heads@, slice_view(ffn), expert_ffn_dim)
                        &&& v@.len() == heads@.len()
                        &&& forall|il: int|
                            0 <= il < v@.len() ==> #[trigger] v@[il] == layer_of(
                                heads@,
                                kv_heads@,
                                slice_view(ffn),
                                expert_ffn_dim,
                                il,
                            )
                    },
                    Err(_) => false,
                },
            },
            r matches Ok(shapes) ==> shapes.well_formed(),
    {
        let n = heads.len();
        let ghost widths = slice_view(ffn);
        let same_ffn = match ffn {
            Some(f) => same(f),
            None => true,
        };
        if same(heads) && same(kv_heads) && same_ffn {
            return Ok(LayerShapes::Uniform);
        }
        if !per_layer_shapes_read_by_llama_cpp(arch) {
            return Err(
                LoadError::UnsupportedFeature(
                    String::from_str(arch),
                    String::from_str(SAID_VARYING[0]).concat(list_text(heads).as_str()).concat(
                        SAID_VARYING[1],
                    ).concat(list_text(kv_heads).as_str()).concat(SAID_VARYING[2]).concat(
                        optional_list_text(ffn).as_str(),
                    ).concat(SAID_VARYING[3]),
                ),
            );
        }
        let mut shapes: Vec<LayerShape> = Vec::new();
        let mut il: usize = 0;
        while il < n
            invariant
                il <= n,
                n == heads@.len(),
                n == kv_heads@.len(),
                widths == slice_view(ffn),
                widths_reach(arch@, heads@, kv_heads@, widths, expert_ffn_dim),
                !uniform(heads@, kv_heads@, widths),
                in_table(arch@, 0),
                layers_fault(arch@, heads@, kv_heads@, widths, expert_ffn_dim, il as int) is None,
                shapes@.len() == il,
                forall|k: int|
                    0 <= k < il ==> #[trigger] shapes@[k] == layer_of(
                        heads@,
                        kv_heads@,
                        widths,
                        expert_ffn_dim,
                        k,
                    ),
            decreases n - il,
        {
            proof {
                if layer_fault(arch@, heads@, kv_heads@, widths, expert_ffn_dim, il as int) is Some {
                    layers_fault_stays(
                        arch@,
                        heads@,
                        kv_heads@,
                        widths,
                        expert_ffn_dim,
                        il + 1,
                        n as int,
                    );
                }
            }
            let attention = match AttnShape::from_counts(heads[il] as usize, kv_heads[il] as usize) {
                Ok(shape) => shape,
                Err(why) => {
                    return Err(
                        LoadError::UnsupportedFeature(
                            String::from_str(arch),
                            String::from_str("blk.").concat(
                                decimal_text(il as u64).as_str(),
                            ).concat(": ").concat(why.as_str()),
                        ),
                    );
                },
            };
            let ffn_dim: usize = match ffn {
                Some(f) => f[il] as usize,
                None => expert_ffn_dim,
            };
            if ffn_dim == 0 && attention != AttnShape::Absent {
                return Err(
                    LoadError::UnsupportedFeature(
                        String::from_str(arch),
                        String::from_str("blk.").concat(decimal_text(il as u64).as_str()).concat(
                            SAID_DROPPED[0],
                        ).concat(decimal_text(heads[il]).as_str()).concat(SAID_DROPPED[1]),
                    ),
                );
            }
            shapes.push(LayerShape { attention, ffn_dim });
            il += 1;
        }
        if one_shape(&shapes) {
            assert forall|i: int, j: int| 0 <= i < n && 0 <= j < n implies #[trigger] layer_of(
                heads@,
                kv_heads@,
                widths,
                expert_ffn_dim,
                i,
            ) == #[trigger] layer_of(heads@, kv_heads@, widths, expert_ffn_dim, j) by {
                assert(shapes@[i] == shapes@[j]);
            }
            return Ok(LayerShapes::Uniform);
        }
        Ok(LayerShapes::PerLayer(shapes))
    }
}

/// `v`, `n` times over.
pub open spec fn repeated(v: Seq<LayerShape>, n: int) -> Seq<LayerShape> {
    Seq::new((v.len() * n) as nat, |i: int| v[i % v.len() as int])
}

/// Passes over the layers repeat their shapes: a layer of any pass has
/// the shape of the layer a whole number of passes before it.
pub proof fn passes_repeat_shapes(v: Seq<LayerShape>, n: int, pass: int, il: int)
    requires
        0 <= pass < n,
        0 <= il < v.len(),
    ensures
        0 <= pass * v.len() + il < repeated(v, n).len(),
        repeated(v, n)[pass * v.len() + il] == v[il],
{
    let len = v.len() as int;
    assert(0 <= pass * len + il < len * n) by (nonlinear_arith)
        requires
            0 <= pass < n,
            0 <= il < len,
    ;
    vstd::arithmetic::div_mod::lemma_fundamental_div_mod_converse(pass * len + il, len, pass, il);
}

/// An architecture outside the table is served exactly where no list
/// varies.
pub proof fn only_uniform_files_outside_the_table(
    arch: Seq<char>,
    heads: Seq<u64>,
    kv_heads: Seq<u64>,
    ffn: Option<Seq<u64>>,
    expert_ffn_dim: usize,
)
    requires
        !in_table(arch, 0),
    ensures
        shapes_fault(arch, heads, kv_heads, ffn, expert_ffn_dim) is None <==> uniform(
            heads,
            kv_heads,
            ffn,
        ),
{
}

/// What is said of a list of the wrong length, round its length and the
/// number of layers.
pub const SAID_LENGTH: [&'static str; 3] = [
    "array of ",
    " entries for ",
    " layers; llama.cpp refuses this too (`key has wrong array length`, \
     llama-model-loader.cpp:464-465)",
];

/// The first of the first `n` items that is no unsigned integer.
pub open spec fn first_unread(items: Seq<GgufValue>, n: int) -> Option<int>
    decreases n,
{
    if n <= 0 {
        None
    } else if first_unread(items, n - 1) is Some {
        first_unread(items, n - 1)
    } else if items[n - 1].unsigned() is None {
        Some(n - 1)
    } else {
        None
    }
}

/// Why a key cannot be read as one number for each of `n_layers` layers.
pub open spec fn per_layer_fault(file: GgufFile, key: Seq<char>, n_layers: usize) -> Option<LoadFault> {
    match file.meta(key) {
        None => None,
        Some(GgufValue::Array(items)) => if items@.len() != n_layers {
            Some(
                LoadFault::UnsupportedFeature(
                    key,
                    SAID_LENGTH@[0]@ + decimal(items@.len()) + SAID_LENGTH@[1]@ + decimal(
                        n_layers as nat,
                    ) + SAID_LENGTH@[2]@,
                ),
            )
        } else {
            match first_unread(items@, n_layers as int) {
                Some(i) => Some(
                    LoadFault::UnsupportedFeature(
                        key,
                        "entry "@ + decimal(i as nat) + " is not an unsigned integer: "@
                            + value_chars(items@[i]),
                    ),
                ),
                None => None,
            }
        },
        Some(v) => if v.unsigned() is None {
            Some(LoadFault::MissingHparam(key))
        } else {
            None
        },
    }
}

/// The number for each of `n_layers` layers: a list's own entries, or the
/// one number for all; `None` where the key is not there.
pub open spec fn per_layer(file: GgufFile, key: Seq<char>, n_layers: usize) -> Option<Seq<u64>> {
    match file.meta(key) {
        None => None,
        Some(GgufValue::Array(items)) => Some(
            Seq::new(n_layers as nat, |i: int| items@[i].unsigned()->0),
        ),
        Some(v) => Some(Seq::new(n_layers as nat, |i: int| v.unsigned()->0)),
    }
}

proof fn unread_stays(items: Seq<GgufValue>, k: int, n: int)
    requires
        k <= n,
        first_unread(items, k) is Some,
    ensures
        first_unread(items, n) == first_unread(items, k),
    decreases n - k,
{
    if k < n {
        unread_stays(items, k, n - 1);
    }
}

/// Reads a key as one number for each of `n_layers` layers: a number
/// stands for all layers, a list must have one entry for each.
pub fn read_u64_per_layer(file: &GgufFile, key: &str, n_layers: usize) -> (r: Result<
    Option<Vec<u64>>,
    LoadError,
>)
    ensures
        match per_layer_fault(*file, key@, n_layers) {
            Some(fault) => r is Err && r->Err_0@ == fault,
            None => match r {
                Ok(Some(v)) => per_layer(*file, key@, n_layers) == Some(v@),
                Ok(None) => per_layer(*file, key@, n_layers) is None,
                Err(_) => false,
            },
        },
{
    let value = match file.metadata(key) {
        Some(value) => value,
        None => {
            return Ok(None);
        },
    };
    match value {
        GgufValue::Array(items) => {
            if items.len() != n_layers {
                return Err(
                    LoadError::UnsupportedFeature(
                        String::from_str(key),
                        String::from_str(SAID_LENGTH[0]).concat(
                            decimal_text(items.len() as u64).as_str(),
                        ).concat(SAID_LENGTH[1]).concat(
                            decimal_text(n_layers as u64).as_str(),
                        ).concat(SAID_LENGTH[2]),
                    ),
                );
            }
            let mut out: Vec<u64> = Vec::new();
            let mut il: usize = 0;
            while il < n_layers
                invariant
                    il <= n_layers,
                    items@.len() == n_layers,
                    file.meta(key@) == Some(GgufValue::Array(*items)),
                    first_unread(items@, il as int) is None,
                    out@.len() == il,
                    forall|j: int|
                        0 <= j < il ==> items@[j].unsigned() == Some(#[trigger] out@[j]),
                decreases n_layers - il,
            {
                match items[il].as_u64() {
                    Some(v) => {
                        out.push(v);
                    },
                    None => {
                        proof {
                            unread_stays(items@, il + 1, n_layers as int);
                        }
                        return Err(
                            LoadError::UnsupportedFeature(
                                String::from_str(key),
                                String::from_str("entry ").concat(
                                    decimal_text(il as u64).as_str(),
                                ).concat(" is not an unsigned integer: ").concat(
                                    value_text(&items[il]).as_str(),
                                ),
                            ),
                        );
                    },
                }
                il += 1;
            }
            assert(out@ =~= per_layer(*file, key@, n_layers)->0);
            Ok(Some(out))
        },
        scalar => match scalar.as_u64() {
            Some(v) => {
                let out: Vec<u64> = vec![v; n_layers];
                assert(out@ =~= per_layer(*file, key@, n_layers)->0);
                Ok(Some(out))
            },
            None => Err(LoadError::MissingHparam(String::from_str(key))),
        },
    }
}

/// Reads a key as one number for each layer of the trunk: the length is
/// held against all blocks, and the entries of the blocks behind the
/// trunk are left out.
pub fn read_u64_trunk_layers(file: &GgufFile, key: &str, trunk: &TrunkLayers) -> (r: Result<
    Option<Vec<u64>>,
    LoadError,
>)
    requires
        trunk.n_layers <= trunk.block_count,
    ensures
        match per_layer_fault(*file, key@, trunk.block_count) {
            Some(fault) => r is Err && r->Err_0@ == fault,
            None => match r {
                Ok(Some(v)) => match per_layer(*file, key@, trunk.block_count) {
                    Some(all) => v@ == all.take(trunk.n_layers as int),
                    None => false,
                },
                Ok(None) => per_layer(*file, key@, trunk.block_count) is None,
                Err(_) => false,
            },
        },
{
    match read_u64_per_layer(file, key, trunk.block_count)? {
        Some(mut v) => {
            let ghost all = v@;
            v.truncate(trunk.n_layers);
            assert(v@ =~= all.take(trunk.n_layers as int));
            Ok(Some(v))
        },
        None => Ok(None),
    }
}

/// A layer's attention weights.
#[derive(Debug)]
pub struct AttnWeights {
    pub q_proj: WeightMatrix,
    pub k_proj: WeightMatrix,
    pub v_proj: WeightMatrix,
    pub o_proj: WeightMatrix,
    pub norm_weight: NormOp,
    pub q_norm: Option<Vec<u32>>,
    pub k_norm: Option<Vec<u32>>,
    pub q_bias: Option<Vec<u32>>,
    pub k_bias: Option<Vec<u32>>,
    pub v_bias: Option<Vec<u32>>,
    pub post_attn_norm: Option<Vec<u32>>,
    pub post_ffn_norm: Option<Vec<u32>>,
    pub output_gate: Option<WeightMatrix>,
    pub sinks: Option<Vec<u32>>,
    pub attn_sub_norm: Option<Vec<u32>>,
}

fn no_rows(cols: usize) -> (w: WeightMatrix)
    ensures
        w.holds(seq![], 0, cols as int),
{
    WeightMatrix::F32 { data: Vec::new(), rows: 0, cols }
}

/// What is said of an output projection of the wrong size, round its rows,
/// its columns and the hidden width.
pub const SAID_WO_ONLY: [&'static str; 3] = [
    "a wo-only layer's projection is {n_embd, n_embd} (deci.cpp:39); this one is ",
    "x",
    " for hidden_dim ",
];

/// Why the output projection of a layer that has nothing else is refused.
pub open spec fn wo_fault(file: GgufFile, layer: usize, hidden_dim: usize) -> Option<LoadFault> {
    let name = block_name(layer as nat, "attn_output.weight"@);
    if matrix_fault(file, name) is Some {
        matrix_fault(file, name)
    } else {
        let rows: usize = file.tensor(name)->0.shape@[1] as usize;
        let cols: usize = file.tensor(name)->0.shape@[0] as usize;
        if rows != hidden_dim || cols != hidden_dim {
            Some(
                LoadFault::UnsupportedFeature(
                    name,
                    SAID_WO_ONLY@[0]@ + decimal(rows as nat) + SAID_WO_ONLY@[1]@ + decimal(
                        cols as nat,
                    ) + SAID_WO_ONLY@[2]@ + decimal(hidden_dim as nat),
                ),
            )
        } else {
            None
        }
    }
}

/// Why a layer without grouped-query attention cannot be loaded.
pub open spec fn non_gqa_fault(
    shape: AttnShape,
    file: GgufFile,
    layer: usize,
    sites: NormSites,
    hidden_dim: usize,
) -> Option<LoadFault> {
    let own = if shape is Linear {
        first_fault(
            pre_norm_fault(sites.function, site_view(sites.attn), file, Some(layer)),
            wo_fault(file, layer, hidden_dim),
        )
    } else {
        None
    };
    first_fault(own, post_norm_fault(site_view(sites.post_ffn), file, layer))
}

/// The weights of a layer without grouped-query attention: placeholders
/// with no rows for Q, K and V; the norm and the output projection for a
/// linear layer and nothing for an absent one; and the norm on the
/// feed-forward's output.
pub open spec fn non_gqa_is(
    shape: AttnShape,
    file: GgufFile,
    layer: usize,
    sites: NormSites,
    hidden_dim: usize,
    w: AttnWeights,
) -> bool {
    &&& w.q_proj.holds(seq![], 0, hidden_dim as int)
    &&& w.k_proj.holds(seq![], 0, hidden_dim as int)
    &&& w.v_proj.holds(seq![], 0, hidden_dim as int)
    &&& if shape is Linear {
        &&& w.norm_weight@ == pre_norm_of(
            sites.function,
            site_view(sites.attn),
            file,
            Some(layer),
        )
        &&& w.o_proj.is_tensor(file, block_name(layer as nat, "attn_output.weight"@))
    } else {
        &&& w.norm_weight@ == NormModel::Identity
        &&& w.o_proj.holds(seq![], 0, 0)
    }
    &&& post_norm_is(site_view(sites.post_ffn), file, layer, w.post_ffn_norm)
    &&& w.q_norm is None
    &&& w.k_norm is None
    &&& w.q_bias is None
    &&& w.k_bias is None
    &&& w.v_bias is None
    &&& w.post_attn_norm is None
    &&& w.output_gate is None
    &&& w.sinks is None
    &&& w.attn_sub_norm is None
}

/// Loads the attention of a layer without grouped-query attention.
pub fn load_non_gqa_attention(
    shape: AttnShape,
    file: &GgufFile,
    layer: usize,
    norm_sites: &NormSites,
    hidden_dim: usize,
) -> (w: Result<AttnWeights, LoadError>)
    requires
        !(shape is Gqa),
        norm_sites.attn is Some ==> norm_sites.attn->0.required,
    ensures
        match non_gqa_fault(shape, *file, layer, *norm_sites, hidden_dim) {
            Some(fault) => w is Err && w->Err_0@ == fault,
            None => w is Ok && non_gqa_is(shape, *file, layer, *norm_sites, hidden_dim, w->Ok_0),
        },
{
    let (norm_weight, o_proj) = match shape {
        AttnShape::Linear => {
            let norm = norm_sites.load_pre_norm(norm_sites.attn, file, Some(layer))?;
            let name = block_name_text(layer, "attn_output.weight");
            let o_proj = load_weight_matrix(file, name.as_str())?;
            if o_proj.rows() != hidden_dim || o_proj.cols() != hidden_dim {
                let said = String::from_str(SAID_WO_ONLY[0]).concat(
                    decimal_text(o_proj.rows() as u64).as_str(),
                ).concat(SAID_WO_ONLY[1]).concat(
                    decimal_text(o_proj.cols() as u64).as_str(),
                ).concat(SAID_WO_ONLY[2]).concat(decimal_text(hidden_dim as u64).as_str());
                return Err(LoadError::UnsupportedFeature(name, said));
            }
            (norm, o_proj)
        },
        _ => (NormOp::Identity, no_rows(0)),
    };
    let post_ffn_norm = NormSites::load_post_norm(norm_sites.post_ffn, file, layer)?;
    Ok(
        AttnWeights {
            q_proj: no_rows(hidden_dim),
            k_proj: no_rows(hidden_dim),
            v_proj: no_rows(hidden_dim),
            o_proj,
            norm_weight,
            q_norm: None,
            k_norm: None,
            q_bias: None,
            k_bias: None,
            v_bias: None,
            post_attn_norm: None,
            post_ffn_norm,
            output_gate: None,
            sinks: None,
            attn_sub_norm: None,
        },
    )
}

/// The placeholders of a layer without a feed-forward block. None of them
/// has a row, so that applying one by mistake gives nothing of the right
/// length.
pub fn absent_ffn(hidden_dim: usize) -> (w: ExpertWeights)
    ensures
        w.gate.holds(seq![], 0, hidden_dim as int),
        w.up.holds(seq![], 0, hidden_dim as int),
        w.down.holds(seq![], 0, 0),
{
    ExpertWeights { gate: no_rows(hidden_dim), up: no_rows(hidden_dim), down: no_rows(0) }
}

/// What is said of a projection of the wrong width, round the width found
/// and the layer's numbers.
pub const SAID_WIDTH: [&'static str; 6] = [
    " does not match this layer's head_count ",
    " / head_count_kv ",
    " x head_dim ",
    " / v_head_dim ",
    " (expected ",
    "); llama.cpp's check_tensor_dims refuses the same file",
];

/// The head counts and widths that a layer's projections are held
/// against.
pub struct GqaWidths {
    pub layer: usize,
    pub n_heads: usize,
    pub n_kv_heads: usize,
    pub head_dim: usize,
    pub v_head_dim: usize,
}

/// The refusal of one width of a projection.
pub open spec fn width_fault(g: GqaWidths, name: Seq<char>, got: usize, expected: int) -> Option<
    LoadFault,
> {
    if got == expected {
        None
    } else {
        Some(
            LoadFault::UnsupportedFeature(
                block_name(g.layer as nat, name + ".weight"@),
                decimal(got as nat) + SAID_WIDTH@[0]@ + decimal(g.n_heads as nat) + SAID_WIDTH@[1]@
                    + decimal(g.n_kv_heads as nat) + SAID_WIDTH@[2]@ + decimal(g.head_dim as nat)
                    + SAID_WIDTH@[3]@ + decimal(g.v_head_dim as nat) + SAID_WIDTH@[4]@ + decimal(
                    expected as nat,
                ) + SAID_WIDTH@[5]@,
            ),
        )
    }
}

/// The first width of a layer's projections that its shape does not
/// give: Q and K at the key width, V and the output's columns at the value
/// width.
pub open spec fn widths_fault(g: GqaWidths, hidden_dim: usize, attn: AttnWeights) -> Option<LoadFault> {
    first_fault(
        width_fault(g, "attn_q"@, attn.q_proj.n_rows(), g.n_heads * g.head_dim),
        first_fault(
            width_fault(g, "attn_k"@, attn.k_proj.n_rows(), g.n_kv_heads * g.head_dim),
            first_fault(
                width_fault(g, "attn_v"@, attn.v_proj.n_rows(), g.n_kv_heads * g.v_head_dim),
                first_fault(
                    width_fault(g, "attn_output (rows)"@, attn.o_proj.n_rows(), hidden_dim as int),
                    width_fault(
                        g,
                        "attn_output (cols)"@,
                        attn.o_proj.n_cols(),
                        g.n_heads * g.v_head_dim,
                    ),
                ),
            ),
        ),
    )
}

fn check_width(g: &GqaWidths, name: &str, got: usize, expected: usize) -> (r: Result<(), LoadError>)
    ensures
        match width_fault(*g, name@, got, expected as int) {
            Some(fault) => r is Err && r->Err_0@ == fault,
            None => r is Ok,
        },
{
    if got == expected {
        return Ok(());
    }
    let tensor = String::from_str(name).concat(".weight");
    Err(
        LoadError::UnsupportedFeature(
            block_name_text(g.layer, tensor.as_str()),
            decimal_text(got as u64).concat(SAID_WIDTH[0]).concat(
                decimal_text(g.n_heads as u64).as_str(),
            ).concat(SAID_WIDTH[1]).concat(decimal_text(g.n_kv_heads as u64).as_str()).concat(
                SAID_WIDTH[2],
            ).concat(decimal_text(g.head_dim as u64).as_str()).concat(SAID_WIDTH[3]).concat(
                decimal_text(g.v_head_dim as u64).as_str(),
            ).concat(SAID_WIDTH[4]).concat(decimal_text(expected as u64).as_str()).concat(
                SAID_WIDTH[5],
            ),
        ),
    )
}

/// Holds a layer's projections against its shape.
pub fn check_gqa_projection_widths(
    layer: usize,
    shape: AttnShape,
    head_dim: usize,
    v_head_dim: usize,
    hidden_dim: usize,
    attn: &AttnWeights,
) -> (r: Result<(), LoadError>)
    requires
        shape is Gqa,
        shape.heads() * head_dim <= usize::MAX,
        shape.kv_heads() * head_dim <= usize::MAX,
        shape.heads() * v_head_dim <= usize::MAX,
        shape.kv_heads() * v_head_dim <= usize::MAX,
    ensures
        match widths_fault(
            (GqaWidths {
                layer,
                n_heads: shape.heads(),
                n_kv_heads: shape.kv_heads(),
                head_dim,
                v_head_dim,
            }),
            hidden_dim,
            *attn,
        ) {
            Some(fault) => r is Err && r->Err_0@ == fault,
            None => r is Ok,
        },
{
    let n_heads = shape.n_heads();
    let n_kv_heads = shape.n_kv_heads();
    let g = GqaWidths { layer, n_heads, n_kv_heads, head_dim, v_head_dim };
    check_width(&g, "attn_q", attn.q_proj.rows(), n_heads * head_dim)?;
    check_width(&g, "attn_k", attn.k_proj.rows(), n_kv_heads * head_dim)?;
    check_width(&g, "attn_v", attn.v_proj.rows(), n_kv_heads * v_head_dim)?;
    check_width(&g, "attn_output (rows)", attn.o_proj.rows(), hidden_dim)?;
    check_width(&g, "attn_output (cols)", attn.o_proj.cols(), n_heads * v_head_dim)?;
    Ok(())
}

/// The size of a layer's cache.
#[derive(Debug, Clone, Copy, PartialEq, Eq, Structural)]
pub struct KvGeometry {
    pub n_kv_heads: usize,
    pub head_dim: usize,
    pub v_head_dim: usize,
}

/// The size of a layer's paged store.
#[derive(Debug, Clone, Copy, PartialEq, Eq, Structural)]
pub struct PagedGeometry {
    pub block_size: usize,
    pub blocks: usize,
    pub row: KvGeometry,
}

impl ModelConfig {
    /// There is a shape for every layer.
    pub open spec fn has_shapes(&self) -> bool {
        match self.layer_shapes {
            LayerShapes::Uniform => true,
            LayerShapes::PerLayer(v) => v@.len() >= self.n_layers,
        }
    }

    /// The shape of layer `il`.
    pub open spec fn shape(&self, il: int) -> LayerShape {
        match self.layer_shapes {
            LayerShapes::Uniform => LayerShape {
                attention: AttnShape::Gqa { n_heads: self.n_heads, n_kv_heads: self.n_kv_heads },
                ffn_dim: self.moe.expert_ffn_dim,
            },
            LayerShapes::PerLayer(v) => v@[il],
        }
    }

    /// The K/V heads of the first `n` layers together.
    pub open spec fn kv_heads_of(&self, n: int) -> int
        decreases n,
    {
        if n <= 0 {
            0
        } else {
            self.kv_heads_of(n - 1) + self.shape(n - 1).attention.kv_heads()
        }
    }

    /// The shape of layer `il`: every layer learns its head counts here.
    pub fn layer_shape(&self, il: usize) -> (shape: LayerShape)
        requires
            match self.layer_shapes {
                LayerShapes::Uniform => true,
                LayerShapes::PerLayer(v) => il < v@.len(),
            },
        ensures
            shape == self.shape(il as int),
    {
        match &self.layer_shapes {
            LayerShapes::Uniform => LayerShape {
                attention: AttnShape::Gqa { n_heads: self.n_heads, n_kv_heads: self.n_kv_heads },
                ffn_dim: self.moe.expert_ffn_dim,
            },
            LayerShapes::PerLayer(v) => v[il],
        }
    }

    /// The size of each layer's cache, by that layer's own shape.
    pub fn new_kv_caches(&self) -> (caches: Vec<KvGeometry>)
        requires
            self.has_shapes(),
        ensures
            caches@ == Seq::new(
                self.n_layers as nat,
                |il: int| KvGeometry {
                    n_kv_heads: self.shape(il).attention.kv_heads(),
                    head_dim: self.head_dim,
                    v_head_dim: self.v_head_dim,
                },
            ),
    {
        let mut caches: Vec<KvGeometry> = Vec::new();
        let mut il: usize = 0;
        while il < self.n_layers
            invariant
                self.has_shapes(),
                il <= self.n_layers,
                caches@.len() == il,
                forall|k: int|
                    0 <= k < il ==> #[trigger] caches@[k] == (KvGeometry {
                        n_kv_heads: self.shape(k).attention.kv_heads(),
                        head_dim: self.head_dim,
                        v_head_dim: self.v_head_dim,
                    }),
            decreases self.n_layers - il,
        {
            caches.push(
                KvGeometry {
                    n_kv_heads: self.layer_shape(il).attention.n_kv_heads(),
                    head_dim: self.head_dim,
                    v_head_dim: self.v_head_dim,
                },
            );
            il += 1;
        }
        caches
    }

    /// The size of each layer's cache, and how many positions it is made
    /// for.
    pub fn new_kv_caches_with_capacity(&self, max_seq_len: usize) -> (caches: Vec<
        (KvGeometry, usize),
    >)
        requires
            self.has_shapes(),
        ensures
            caches@ == Seq::new(
                self.n_layers as nat,
                |il: int|
                    (
                        KvGeometry {
                            n_kv_heads: self.shape(il).attention.kv_heads(),
                            head_dim: self.head_dim,
                            v_head_dim: self.v_head_dim,
                        },
                        max_seq_len,
                    ),
            ),
    {
        let sizes = self.new_kv_caches();
        let mut caches: Vec<(KvGeometry, usize)> = Vec::new();
        let mut il: usize = 0;
        while il < sizes.len()
            invariant
                il <= sizes@.len(),
                caches@.len() == il,
                forall|k: int| 0 <= k < il ==> #[trigger] caches@[k] == (sizes@[k], max_seq_len),
            decreases sizes@.len() - il,
        {
            caches.push((sizes[il], max_seq_len));
            il += 1;
        }
        caches
    }

    /// The size of each layer's paged store.
    pub fn new_paged_kv(&self, block_size: usize, blocks_per_layer: usize) -> (stores: Vec<
        PagedGeometry,
    >)
        requires
            self.has_shapes(),
        ensures
            stores@ == Seq::new(
                self.n_layers as nat,
                |il: int| PagedGeometry {
                    block_size,
                    blocks: blocks_per_layer,
                    row: KvGeometry {
                        n_kv_heads: self.shape(il).attention.kv_heads(),
                        head_dim: self.head_dim,
                        v_head_dim: self.v_head_dim,
                    },
                },
            ),
    {
        let sizes = self.new_kv_caches();
        let mut stores: Vec<PagedGeometry> = Vec::new();
        let mut il: usize = 0;
        while il < sizes.len()
            invariant
                il <= sizes@.len(),
                stores@.len() == il,
                forall|k: int|
                    0 <= k < il ==> #[trigger] stores@[k] == (PagedGeometry {
                        block_size,
                        blocks: blocks_per_layer,
                        row: sizes@[k],
                    }),
            decreases sizes@.len() - il,
        {
            stores.push(PagedGeometry { block_size, blocks: blocks_per_layer, row: sizes[il] });
            il += 1;
        }
        stores
    }

    /// The K/V heads of all layers together: what a memory budget for one
    /// token multiplies.
    pub fn kv_heads_all_layers(&self) -> (n: usize)
        requires
            self.has_shapes(),
            self.kv_heads_of(self.n_layers as int) <= usize::MAX,
        ensures
            n == self.kv_heads_of(self.n_layers as int),
    {
        let mut n: usize = 0;
        let mut il: usize = 0;
        while il < self.n_layers
            invariant
                self.has_shapes(),
                self.kv_heads_of(self.n_layers as int) <= usize::MAX,
                il <= self.n_layers,
                n == self.kv_heads_of(il as int),
            decreases self.n_layers - il,
        {
            proof {
                kv_heads_grow(*self, il + 1, self.n_layers as int);
            }
            n += self.layer_shape(il).attention.n_kv_heads();
            il += 1;
        }
        n
    }
}

proof fn kv_heads_grow(cfg: ModelConfig, k: int, n: int)
    requires
        k <= n,
    ensures
        cfg.kv_heads_of(k) <= cfg.kv_heads_of(n),
    decreases n - k,
{
    if k < n {
        kv_heads_grow(cfg, k, n - 1);
        if n <= 0 {
            assert(cfg.kv_heads_of(n - 1) == 0 && cfg.kv_heads_of(n) == 0);
        }
    }
}

/// In a uniform model the layers together have as many K/V heads as one,
/// times the layers.
pub proof fn uniform_heads_multiply(cfg: ModelConfig, n: int)
    requires
        cfg.layer_shapes is Uniform,
        0 <= n,
    ensures
        cfg.kv_heads_of(n) == n * cfg.n_kv_heads,
    decreases n,
{
    if n > 0 {
        uniform_heads_multiply(cfg, n - 1);
        assert((n - 1) * cfg.n_kv_heads + cfg.n_kv_heads == n * cfg.n_kv_heads) by (nonlinear_arith);
    } else {
        assert(0 * cfg.n_kv_heads == 0);
    }
}

/// In a model whose layers cache no more heads than the configuration
/// says, its count times the layers is never too few.
pub proof fn widest_layer_bounds_the_heads(cfg: ModelConfig, n: int)
    requires
        0 <= n,
        forall|il: int|
            0 <= il < n ==> (#[trigger] cfg.shape(il)).attention.kv_heads() <= cfg.n_kv_heads,
    ensures
        cfg.kv_heads_of(n) <= n * cfg.n_kv_heads,
    decreases n,
{
    if n > 0 {
        widest_layer_bounds_the_heads(cfg, n - 1);
        assert(cfg.shape(n - 1).attention.kv_heads() <= cfg.n_kv_heads);
        assert((n - 1) * cfg.n_kv_heads + cfg.n_kv_heads == n * cfg.n_kv_heads) by (nonlinear_arith);
    } else {
        assert(0 * cfg.n_kv_heads == 0);
    }
}

/// The shape that two head counts give. Both above zero, and the query
/// heads a multiple of the others: grouped-query attention with those
/// very counts; query heads alone: the output projection alone; neither:
/// no attention. Nothing else gives a shape.
pub proof fn head_counts_give_their_shape(n_heads: usize, n_kv_heads: usize)
    ensures
        n_heads > 0 && n_kv_heads > 0 && n_heads % n_kv_heads == 0 ==> shape_of(n_heads, n_kv_heads)
            == Ok::<AttnShape, Seq<char>>(AttnShape::Gqa { n_heads, n_kv_heads }),
        n_heads > 0 && n_kv_heads == 0 ==> shape_of(n_heads, n_kv_heads) == Ok::<
            AttnShape,
            Seq<char>,
        >(AttnShape::Linear),
        n_heads == 0 && n_kv_heads == 0 ==> shape_of(n_heads, n_kv_heads) == Ok::<
            AttnShape,
            Seq<char>,
        >(AttnShape::Absent),
        n_heads == 0 && n_kv_heads > 0 ==> shape_of(n_heads, n_kv_heads) is Err,
        n_heads > 0 && n_kv_heads > 0 && n_heads % n_kv_heads != 0 ==> shape_of(
            n_heads,
            n_kv_heads,
        ) is Err,
        shape_of(n_heads, n_kv_heads) matches Ok(shape) ==> {
            &&& shape is Gqa ==> shape.heads() == n_heads && shape.kv_heads() == n_kv_heads
            &&& !(shape is Gqa) ==> shape.heads() == 0 && shape.kv_heads() == 0
        },
{
}

/// The shape of a layer is made of that layer's own entries: its head
/// counts, and its feed-forward width, or the experts' where no widths
/// are listed.
pub proof fn a_layers_shape_is_its_own_entries(
    heads: Seq<u64>,
    kv_heads: Seq<u64>,
    ffn: Option<Seq<u64>>,
    expert_ffn_dim: usize,
    il: int,
)
    ensures
        ({
            let shape = layer_of(heads, kv_heads, ffn, expert_ffn_dim, il);
            let h = heads[il] as usize;
            let k = kv_heads[il] as usize;
            &&& ffn matches Some(f) ==> shape.ffn_dim == f[il] as usize
            &&& ffn is None ==> shape.ffn_dim == expert_ffn_dim
            &&& h > 0 && k > 0 && h % k == 0 ==> shape.attention == (AttnShape::Gqa {
                n_heads: h,
                n_kv_heads: k,
            })
            &&& h > 0 && k == 0 ==> shape.attention == AttnShape::Linear
            &&& h == 0 && k == 0 ==> shape.attention == AttnShape::Absent
        }),
{
}

/// Which layers are refused: one whose head counts give no shape, and one
/// with attention and no feed-forward block. Of a file's layers the first
/// such one is named.
pub proof fn the_first_bad_layer_is_named(
    arch: Seq<char>,
    heads: Seq<u64>,
    kv_heads: Seq<u64>,
    ffn: Option<Seq<u64>>,
    expert_ffn_dim: usize,
    n: int,
)
    requires
        0 <= n <= heads.len(),
    ensures
        layers_fault(arch, heads, kv_heads, ffn, expert_ffn_dim, n) is None <==> forall|il: int|
            0 <= il < n ==> {
                let shape = shape_of(#[trigger] heads[il] as usize, kv_heads[il] as usize);
                shape is Ok && (shape->Ok_0 == AttnShape::Absent || (match ffn {
                    Some(f) => f[il] as usize,
                    None => expert_ffn_dim,
                }) != 0)
            },
        layers_fault(arch, heads, kv_heads, ffn, expert_ffn_dim, n) is Some ==> exists|il: int|
            0 <= il < n && layers_fault(arch, heads, kv_heads, ffn, expert_ffn_dim, n)
                == #[trigger] layer_fault(arch, heads, kv_heads, ffn, expert_ffn_dim, il)
                && layers_fault(arch, heads, kv_heads, ffn, expert_ffn_dim, il) is None,
    decreases n,
{
    if n > 0 {
        the_first_bad_layer_is_named(arch, heads, kv_heads, ffn, expert_ffn_dim, n - 1);
        let _ = heads[n - 1];
        let head = layers_fault(arch, heads, kv_heads, ffn, expert_ffn_dim, n - 1);
        if head is None && layer_fault(arch, heads, kv_heads, ffn, expert_ffn_dim, n - 1) is Some {
            assert(layers_fault(arch, heads, kv_heads, ffn, expert_ffn_dim, n) == layer_fault(
                arch,
                heads,
                kv_heads,
                ffn,
                expert_ffn_dim,
                n - 1,
            ));
        }
    }
}

/// The architectures whose layers may differ.
pub proof fn whose_layers_may_differ(arch: Seq<char>)
    ensures
        in_table(arch, 0) <==> {
            ||| arch == "deci"@
            ||| arch == "openelm"@
            ||| arch == "plamo3"@
            ||| arch == "laguna"@
            ||| arch == "mimo2"@
            ||| arch == "step35"@
            ||| arch == "nanbeige"@
            ||| arch == "gemma4"@
            ||| arch == "gemma4-assistant"@
            ||| arch == "jamba"@
            ||| arch == "lfm2"@
            ||| arch == "lfm2moe"@
            ||| arch == "nemotron-h"@
            ||| arch == "plamo2"@
            ||| arch == "granite-hybrid"@
            ||| arch == "kimi-linear"@
        },
{
    reveal_with_fuel(in_table, 17);
    let t = PER_LAYER_SHAPE_ARCHS@;
    assert(t[0].0@ == "deci"@);
    assert(t[1].0@ == "openelm"@);
    assert(t[2].0@ == "plamo3"@);
    assert(t[3].0@ == "laguna"@);
    assert(t[4].0@ == "mimo2"@);
    assert(t[5].0@ == "step35"@);
    assert(t[6].0@ == "nanbeige"@);
    assert(t[7].0@ == "gemma4"@);
    assert(t[8].0@ == "gemma4-assistant"@);
    assert(t[9].0@ == "jamba"@);
    assert(t[10].0@ == "lfm2"@);
    assert(t[11].0@ == "lfm2moe"@);
    assert(t[12].0@ == "nemotron-h"@);
    assert(t[13].0@ == "plamo2"@);
    assert(t[14].0@ == "granite-hybrid"@);
    assert(t[15].0@ == "kimi-linear"@);
}

/// A key gives every layer its number: the one number it holds, or the
/// layer's own entry of its list, which must have one for each; a key
/// that is not there gives none.
pub proof fn a_key_gives_every_layer_its_number(file: GgufFile, key: Seq<char>, n_layers: usize, il: int)
    requires
        per_layer_fault(file, key, n_layers) is None,
        0 <= il < n_layers,
    ensures
        file.meta(key) is None <==> per_layer(file, key, n_layers) is None,
        file.meta(key) matches Some(v) ==> {
            let numbers = per_layer(file, key, n_layers)->0;
            &&& numbers.len() == n_layers
            &&& v matches GgufValue::Array(items) ==> items@.len() == n_layers
                && items@[il].unsigned() == Some(numbers[il])
            &&& !(v is Array) ==> v.unsigned() == Some(numbers[il])
        },
{
    match file.meta(key) {
        Some(GgufValue::Array(items)) => {
            all_are_read(items@, n_layers as int, il);
        },
        _ => {},
    }
}

proof fn all_are_read(items: Seq<GgufValue>, n: int, il: int)
    requires
        0 <= il < n,
        first_unread(items, n) is None,
    ensures
        items[il].unsigned() is Some,
    decreases n,
{
    if il < n - 1 {
        all_are_read(items, n - 1, il);
    }
}

/// When a key is refused: a list of another length than there are layers
/// or with an entry that is no count, and a value that is none.
pub proof fn which_per_layer_keys_are_refused(file: GgufFile, key: Seq<char>, n_layers: usize)
    ensures
        file.meta(key) is None ==> per_layer_fault(file, key, n_layers) is None,
        file.meta(key) matches Some(GgufValue::Array(items)) ==> items@.len() != n_layers
            ==> per_layer_fault(file, key, n_layers) is Some,
        file.meta(key) matches Some(v) ==> !(v is Array) ==> (per_layer_fault(file, key, n_layers)
            is None <==> v.unsigned() is Some),
{
}

/// A layer without grouped-query attention has no rows of Q, K or V. One
/// with the output projection alone has that of its own block, square,
/// and the norm before attention; one without attention has neither.
pub proof fn a_layer_without_heads_keeps_its_output_projection(
    shape: AttnShape,
    file: GgufFile,
    layer: usize,
    sites: NormSites,
    hidden_dim: usize,
    w: AttnWeights,
)
    requires
        non_gqa_fault(shape, file, layer, sites, hidden_dim) is None,
        non_gqa_is(shape, file, layer, sites, hidden_dim, w),
    ensures
        w.q_proj.n_rows() == 0 && w.k_proj.n_rows() == 0 && w.v_proj.n_rows() == 0,
        shape is Linear ==> {
            &&& w.o_proj.is_tensor(
                file,
                "blk."@ + decimal(layer as nat) + "."@ + "attn_output.weight"@,
            )
            &&& w.o_proj.n_rows() == hidden_dim
            &&& w.o_proj.n_cols() == hidden_dim
            &&& w.norm_weight@ == pre_norm_of(
                sites.function,
                site_view(sites.attn),
                file,
                Some(layer),
            )
        },
        !(shape is Linear) ==> w.o_proj.n_rows() == 0 && w.norm_weight@ == NormModel::Identity,
        post_norm_is(site_view(sites.post_ffn), file, layer, w.post_ffn_norm),
{
}

/// Which projections fit a layer: a Q row for each element of each query
/// head and a K row for each of each K/V head, at the key width; a V row
/// for each of each K/V head and an output column for each of each query
/// head, at the value width; and an output row for each hidden element.
pub proof fn which_projections_fit_a_layer(g: GqaWidths, hidden_dim: usize, attn: AttnWeights)
    ensures
        widths_fault(g, hidden_dim, attn) is None <==> {
            &&& attn.q_proj.n_rows() == g.n_heads * g.head_dim
            &&& attn.k_proj.n_rows() == g.n_kv_heads * g.head_dim
            &&& attn.v_proj.n_rows() == g.n_kv_heads * g.v_head_dim
            &&& attn.o_proj.n_rows() == hidden_dim
            &&& attn.o_proj.n_cols() == g.n_heads * g.v_head_dim
        },
        attn.q_proj.n_rows() != g.n_heads * g.head_dim ==> (widths_fault(g, hidden_dim, attn)
            matches Some(LoadFault::UnsupportedFeature(name, _)) && name == "blk."@ + decimal(
            g.layer as nat,
        ) + "."@ + ("attn_q"@ + ".weight"@)),
{
}

/// A uniform model's layers all have the shape of its configuration; any
/// other's have each their own.
pub proof fn a_layers_shape_in_a_model(cfg: ModelConfig, il: int)
    ensures
        cfg.layer_shapes is Uniform ==> {
            &&& cfg.shape(il).attention == (AttnShape::Gqa {
                n_heads: cfg.n_heads,
                n_kv_heads: cfg.n_kv_heads,
            })
            &&& cfg.shape(il).ffn_dim == cfg.moe.expert_ffn_dim
        },
        cfg.layer_shapes matches LayerShapes::PerLayer(v) ==> cfg.shape(il) == v@[il],
{
}

/// Each layer adds its own K/V heads to those of the layers before it.
pub proof fn every_layer_adds_its_heads(cfg: ModelConfig, n: int)
    requires
        0 <= n,
    ensures
        cfg.kv_heads_of(0) == 0,
        cfg.shape(n).attention matches AttnShape::Gqa { n_heads, n_kv_heads } ==> cfg.kv_heads_of(
            n + 1,
        ) == cfg.kv_heads_of(n) + n_kv_heads,
        !(cfg.shape(n).attention is Gqa) ==> cfg.kv_heads_of(n + 1) == cfg.kv_heads_of(n),
{
}

/// A file is uniform where each of its lists holds one number throughout;
/// such a file is taken whatever its architecture. Any other is taken
/// where its architecture's layers may differ and each layer has a shape.
/// Its layers are alike where each has the shape of the first.
pub proof fn when_layers_are_uniform(
    arch: Seq<char>,
    heads: Seq<u64>,
    kv_heads: Seq<u64>,
    ffn: Option<Seq<u64>>,
    expert_ffn_dim: usize,
)
    ensures
        uniform(heads, kv_heads, ffn) <==> {
            &&& forall|i: int| 0 <= i < heads.len() ==> #[trigger] heads[i] == heads[0]
            &&& forall|i: int| 0 <= i < kv_heads.len() ==> #[trigger] kv_heads[i] == kv_heads[0]
            &&& ffn matches Some(f) ==> forall|i: int| 0 <= i < f.len() ==> #[trigger] f[i] == f[0]
        },
        uniform(heads, kv_heads, ffn) ==> shapes_fault(
            arch,
            heads,
            kv_heads,
            ffn,
            expert_ffn_dim,
        ) is None,
        !uniform(heads, kv_heads, ffn) && in_table(arch, 0) ==> shapes_fault(
            arch,
            heads,
            kv_heads,
            ffn,
            expert_ffn_dim,
        ) == layers_fault(arch, heads, kv_heads, ffn, expert_ffn_dim, heads.len() as int),
        alike(heads, kv_heads, ffn, expert_ffn_dim) <==> forall|i: int|
            0 <= i < heads.len() ==> #[trigger] layer_of(heads, kv_heads, ffn, expert_ffn_dim, i)
                == layer_of(heads, kv_heads, ffn, expert_ffn_dim, 0),
{
    if uniform(heads, kv_heads, ffn) {
        if let Some(f) = ffn {
            assert(all_same(f));
        }
    }
}

} // verus!
