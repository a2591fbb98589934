//! The norm at one site of a decoder: before attention, before the
//! feed-forward block, or before the output head.

use crate::capability::{
    norm_lists_are_disjoint, uses_biased_layer_norm, uses_non_parametric_layer_norm, uses_non_parametric_rms_norm,
    uses_weighted_layer_norm, BIASED_LAYER_NORM, NON_PARAMETRIC_LAYER_NORM,
    NON_PARAMETRIC_RMS_NORM, WEIGHTED_LAYER_NORM,
};
use crate::text::has_name;
use vstd::prelude::*;

verus! {

/// The norm applied at a site; the parameters are bit patterns.
#[derive(Debug)]
pub enum NormOp {
    /// A root-mean-square norm with these weights.
    Rms(Vec<u32>),
    /// A layer norm without parameters.
    LayerNormNoParams,
    /// A root-mean-square norm without weights.
    RmsNoParams,
    /// A layer norm with these weights and no bias.
    LayerNorm(Vec<u32>),
    /// A layer norm with weights and a bias.
    LayerNormBias { weight: Vec<u32>, bias: Vec<u32> },
    /// No norm: the branch reads the residual as it is.
    Identity,
}

/// The model of a [`NormOp`].
pub enum NormModel {
    Rms(Seq<u32>),
    LayerNormNoParams,
    RmsNoParams,
    LayerNorm(Seq<u32>),
    LayerNormBias(Seq<u32>, Seq<u32>),
    Identity,
}

impl View for NormOp {
    type V = NormModel;

    open spec fn view(&self) -> NormModel {
        match self {
            NormOp::Rms(w) => NormModel::Rms(w@),
            NormOp::LayerNormNoParams => NormModel::LayerNormNoParams,
            NormOp::RmsNoParams => NormModel::RmsNoParams,
            NormOp::LayerNorm(w) => NormModel::LayerNorm(w@),
            NormOp::LayerNormBias { weight, bias } => NormModel::LayerNormBias(weight@, bias@),
            NormOp::Identity => NormModel::Identity,
        }
    }
}

impl NormOp {
    /// The weights that a fused kernel applies inside itself; `None`
    /// where the site has no root-mean-square weights, and no such kernel
    /// may run.
    pub fn rms_weights(&self) -> (w: Option<&[u32]>)
        ensures
            match self@ {
                NormModel::Rms(weights) => w is Some && w->0@ == weights,
                _ => w is None,
            },
    {
        match self {
            NormOp::Rms(w) => Some(w.as_slice()),
            NormOp::RmsNoParams | NormOp::LayerNormNoParams | NormOp::LayerNorm(_)
            | NormOp::LayerNormBias { .. } | NormOp::Identity => None,
        }
    }
}

/// One learned tensor of a norm site.
#[derive(Debug, Clone, Copy, PartialEq, Eq, Structural)]
pub enum NormParam {
    Weight,
    Bias,
}

impl NormParam {
    /// The suffix of the tensor's name.
    pub open spec fn suffix_chars(self) -> Seq<char> {
        match self {
            NormParam::Weight => "weight"@,
            NormParam::Bias => "bias"@,
        }
    }

    /// The suffix of the tensor's name.
    pub fn suffix(self) -> (s: &'static str)
        ensures
            s@ == self.suffix_chars(),
    {
        match self {
            NormParam::Weight => "weight",
            NormParam::Bias => "bias",
        }
    }
}

/// The norm function that an architecture applies.
#[derive(Debug, Clone, Copy, PartialEq, Eq, Structural)]
pub enum NormFunction {
    Rms,
    LayerNorm,
    LayerNormBias,
    LayerNormNoParams,
    RmsNoParams,
}

impl NormFunction {
    /// Whether the function has a weight.
    pub open spec fn weighted(self) -> bool {
        self is Rms || self is LayerNorm || self is LayerNormBias
    }

    /// Whether the function has a bias.
    pub open spec fn biased(self) -> bool {
        self is LayerNormBias
    }

    /// Whether the function has a weight: only then is one read.
    pub fn has_weight(self) -> (yes: bool)
        ensures
            yes == self.weighted(),
    {
        matches!(self, NormFunction::Rms | NormFunction::LayerNorm | NormFunction::LayerNormBias)
    }

    /// Whether the function has a bias: only then is one read.
    pub fn has_bias(self) -> (yes: bool)
        ensures
            yes == self.biased(),
    {
        matches!(self, NormFunction::LayerNormBias)
    }

    /// The norm with these parameters, as far as the function has them.
    pub open spec fn norm(self, weight: Seq<u32>, bias: Seq<u32>) -> NormModel {
        match self {
            NormFunction::Rms => NormModel::Rms(weight),
            NormFunction::LayerNorm => NormModel::LayerNorm(weight),
            NormFunction::LayerNormBias => NormModel::LayerNormBias(weight, bias),
            NormFunction::LayerNormNoParams => NormModel::LayerNormNoParams,
            NormFunction::RmsNoParams => NormModel::RmsNoParams,
        }
    }

    /// The norm with the parameters that were read: a weight where the
    /// function has one, and a bias where it has one.
    pub fn resolve(self, weight: Option<Vec<u32>>, bias: Option<Vec<u32>>) -> (op: NormOp)
        requires
            weight is Some <==> self.weighted(),
            bias is Some <==> self.biased(),
        ensures
            op@ == self.norm(
                (match weight {
                    Some(w) => w@,
                    None => seq![],
                }),
                (match bias {
                    Some(b) => b@,
                    None => seq![],
                }),
            ),
    {
        match (self, weight, bias) {
            (NormFunction::Rms, Some(w), _) => NormOp::Rms(w),
            (NormFunction::LayerNorm, Some(w), _) => NormOp::LayerNorm(w),
            (NormFunction::LayerNormBias, Some(weight), Some(bias)) => NormOp::LayerNormBias {
                weight,
                bias,
            },
            (NormFunction::LayerNormNoParams, _, _) => NormOp::LayerNormNoParams,
            _ => NormOp::RmsNoParams,
        }
    }
}

/// The norm function of `arch`, by the lists that name the exceptions.
pub open spec fn function_of(arch: Seq<char>) -> NormFunction {
    if has_name(NON_PARAMETRIC_LAYER_NORM@, arch) {
        NormFunction::LayerNormNoParams
    } else if has_name(NON_PARAMETRIC_RMS_NORM@, arch) {
        NormFunction::RmsNoParams
    } else if has_name(WEIGHTED_LAYER_NORM@, arch) {
        NormFunction::LayerNorm
    } else if has_name(BIASED_LAYER_NORM@, arch) {
        NormFunction::LayerNormBias
    } else {
        NormFunction::Rms
    }
}

/// The norm function of `arch`.
pub fn norm_function(arch: &str) -> (f: NormFunction)
    ensures
        f == function_of(arch@),
{
    if uses_non_parametric_layer_norm(arch) {
        NormFunction::LayerNormNoParams
    } else if uses_non_parametric_rms_norm(arch) {
        NormFunction::RmsNoParams
    } else if uses_weighted_layer_norm(arch) {
        NormFunction::LayerNorm
    } else if uses_biased_layer_norm(arch) {
        NormFunction::LayerNormBias
    } else {
        NormFunction::Rms
    }
}

/// Which norm an architecture applies, by name; every one that is not
/// named applies a root-mean-square norm with a weight.
pub proof fn which_norm_an_architecture_applies(arch: Seq<char>)
    ensures
        arch == "olmo"@ ==> function_of(arch) == NormFunction::LayerNormNoParams,
        arch == "talkie"@ ==> function_of(arch) == NormFunction::RmsNoParams,
        arch == "dbrx"@ ==> function_of(arch) == NormFunction::LayerNorm,
        arch == "orion"@ || arch == "nemotron"@ ==> function_of(arch)
            == NormFunction::LayerNormBias,
        arch != "olmo"@ && arch != "talkie"@ && arch != "dbrx"@ && arch != "orion"@ && arch
            != "nemotron"@ ==> function_of(arch) == NormFunction::Rms,
{
    assert(NON_PARAMETRIC_LAYER_NORM@[0]@ == "olmo"@);
    assert(NON_PARAMETRIC_RMS_NORM@[0]@ == "talkie"@);
    assert(WEIGHTED_LAYER_NORM@[0]@ == "dbrx"@);
    assert(BIASED_LAYER_NORM@[0]@ == "orion"@);
    assert(BIASED_LAYER_NORM@[1]@ == "nemotron"@);
    norm_lists_are_disjoint(arch);
}

/// A norm keeps the parameters it is given, each as what it is, and takes
/// none that its function does not have.
pub proof fn a_norm_keeps_its_parameters(f: NormFunction, weight: Seq<u32>, bias: Seq<u32>)
    ensures
        f == NormFunction::Rms ==> f.norm(weight, bias) == NormModel::Rms(weight),
        f == NormFunction::LayerNorm ==> f.norm(weight, bias) == NormModel::LayerNorm(weight),
        f == NormFunction::LayerNormBias ==> f.norm(weight, bias) == NormModel::LayerNormBias(
            weight,
            bias,
        ),
        f == NormFunction::LayerNormNoParams ==> f.norm(weight, bias)
            == NormModel::LayerNormNoParams,
        f == NormFunction::RmsNoParams ==> f.norm(weight, bias) == NormModel::RmsNoParams,
        f.weighted() <==> !(f is LayerNormNoParams) && !(f is RmsNoParams),
        f.biased() <==> f is LayerNormBias,
        NormParam::Weight.suffix_chars() == "weight"@,
        NormParam::Bias.suffix_chars() == "bias"@,
{
}

} // verus!
