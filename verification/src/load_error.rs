//! Why a file cannot be loaded.

use crate::gguf::GgmlType;
use crate::text::{decimal, decimal_text};
use vstd::prelude::*;
use vstd::string::StringExecFns;

verus! {

/// What is wrong with the file itself.
#[derive(Debug)]
pub enum GgufError {
    /// No tensor of this name.
    TensorNotFound(String),
}

/// Why a file was refused.
#[derive(Debug)]
pub enum LoadError {
    /// The file lacks something it must hold.
    Gguf(GgufError),
    /// A required metadata key is missing or unusable.
    MissingHparam(String),
    /// The architecture is not one this loader serves.
    UnsupportedArchitecture(String),
    /// The architecture is served, but not with this feature.
    UnsupportedFeature(String, String),
    /// The tensor's element type or shape is not one this loader reads.
    UnsupportedDtype(String, GgmlType),
    /// The architecture is served by another engine.
    DedicatedArchitectureRequired(String, &'static str),
    /// A kernel is missing while strict kernels are asked for.
    StrictKernels(String),
}

/// The model of a [`LoadError`].
pub enum LoadFault {
    TensorNotFound(Seq<char>),
    MissingHparam(Seq<char>),
    UnsupportedArchitecture(Seq<char>),
    UnsupportedFeature(Seq<char>, Seq<char>),
    UnsupportedDtype(Seq<char>, GgmlType),
    DedicatedArchitectureRequired(Seq<char>, Seq<char>),
    StrictKernels(Seq<char>),
}

impl View for LoadError {
    type V = LoadFault;

    open spec fn view(&self) -> LoadFault {
        match self {
            LoadError::Gguf(GgufError::TensorNotFound(name)) => LoadFault::TensorNotFound(name@),
            LoadError::MissingHparam(key) => LoadFault::MissingHparam(key@),
            LoadError::UnsupportedArchitecture(arch) => LoadFault::UnsupportedArchitecture(arch@),
            LoadError::UnsupportedFeature(arch, why) => LoadFault::UnsupportedFeature(arch@, why@),
            LoadError::UnsupportedDtype(name, dtype) => LoadFault::UnsupportedDtype(name@, *dtype),
            LoadError::DedicatedArchitectureRequired(arch, why) => {
                LoadFault::DedicatedArchitectureRequired(arch@, why@)
            },
            LoadError::StrictKernels(why) => LoadFault::StrictKernels(why@),
        }
    }
}

/// How an element type is written in a message.
pub open spec fn dtype_chars(dtype: GgmlType) -> Seq<char> {
    match dtype {
        GgmlType::F32 => "F32"@,
        GgmlType::F16 => "F16"@,
        GgmlType::BF16 => "BF16"@,
        GgmlType::Quant(n) => "Quant("@ + decimal(n as nat) + ")"@,
        GgmlType::Other(n) => "Other("@ + decimal(n as nat) + ")"@,
    }
}

fn dtype_text(dtype: GgmlType) -> (t: String)
    ensures
        t@ == dtype_chars(dtype),
{
    match dtype {
        GgmlType::F32 => String::from_str("F32"),
        GgmlType::F16 => String::from_str("F16"),
        GgmlType::BF16 => String::from_str("BF16"),
        GgmlType::Quant(n) => String::from_str("Quant(").concat(
            decimal_text(n as u64).as_str(),
        ).concat(")"),
        GgmlType::Other(n) => String::from_str("Other(").concat(
            decimal_text(n as u64).as_str(),
        ).concat(")"),
    }
}

/// What a refusal says.
pub open spec fn fault_chars(fault: LoadFault) -> Seq<char> {
    match fault {
        LoadFault::TensorNotFound(name) => "tensor not found: "@ + name,
        LoadFault::MissingHparam(key) => "missing hparam "@ + key,
        LoadFault::UnsupportedArchitecture(arch) => "unsupported architecture: "@ + arch,
        LoadFault::UnsupportedFeature(arch, why) => "unsupported feature for "@ + arch + ": "@
            + why,
        LoadFault::UnsupportedDtype(name, dtype) => "unsupported dtype for "@ + name + ": "@
            + dtype_chars(dtype),
        LoadFault::DedicatedArchitectureRequired(arch, why) => "architecture "@ + arch
            + " needs a dedicated loader: "@ + why,
        LoadFault::StrictKernels(why) => "strict kernels: "@ + why,
    }
}

impl LoadError {
    /// What the refusal says.
    pub fn message(&self) -> (t: String)
        ensures
            t@ == fault_chars(self@),
    {
        match self {
            LoadError::Gguf(GgufError::TensorNotFound(name)) => String::from_str(
                "tensor not found: ",
            ).concat(name.as_str()),
            LoadError::MissingHparam(key) => String::from_str("missing hparam ").concat(
                key.as_str(),
            ),
            LoadError::UnsupportedArchitecture(arch) => String::from_str(
                "unsupported architecture: ",
            ).concat(arch.as_str()),
            LoadError::UnsupportedFeature(arch, why) => String::from_str(
                "unsupported feature for ",
            ).concat(arch.as_str()).concat(": ").concat(why.as_str()),
            LoadError::UnsupportedDtype(name, dtype) => String::from_str(
                "unsupported dtype for ",
            ).concat(name.as_str()).concat(": ").concat(dtype_text(*dtype).as_str()),
            LoadError::DedicatedArchitectureRequired(arch, why) => String::from_str(
                "architecture ",
            ).concat(arch.as_str()).concat(" needs a dedicated loader: ").concat(why),
            LoadError::StrictKernels(why) => String::from_str("strict kernels: ").concat(
                why.as_str(),
            ),
        }
    }
}

} // verus!
