//! Plans made once, when a model is loaded: everything its forward pass
//! needs that does not change from token to token.

use crate::capability::{DecoderFamily, MemoryKind, QkNormStyle, RopeLayout};
use crate::config::{FfnActivation, ModelConfig, SwaLayers};
use vstd::prelude::*;
use vstd::slice::slice_to_vec;

verus! {

/// Which fused operations the backend offers.
#[derive(Debug, Clone, Copy, PartialEq, Eq, Structural)]
pub struct FusedOpCaps {
    pub metal_flash_attn: bool,
    pub metal_swiglu: bool,
    pub metal_matvec: bool,
    pub cuda_gqa: bool,
}

impl Default for FusedOpCaps {
    fn default() -> (caps: Self)
        ensures
            caps == (FusedOpCaps {
                metal_flash_attn: false,
                metal_swiglu: false,
                metal_matvec: false,
                cuda_gqa: false,
            }),
    {
        FusedOpCaps {
            metal_flash_attn: false,
            metal_swiglu: false,
            metal_matvec: false,
            cuda_gqa: false,
        }
    }
}

impl FusedOpCaps {
    /// What a backend offers whose Metal path is on or off, and whose
    /// Metal attention is: everything of Metal needs the path on, and
    /// nothing of CUDA is offered.
    pub fn for_metal(metal_on: bool, attention: bool) -> (caps: Self)
        ensures
            caps == (FusedOpCaps {
                metal_flash_attn: metal_on && attention,
                metal_swiglu: metal_on,
                metal_matvec: metal_on,
                cuda_gqa: false,
            }),
    {
        FusedOpCaps {
            metal_flash_attn: metal_on && attention,
            metal_swiglu: metal_on,
            metal_matvec: metal_on,
            cuda_gqa: false,
        }
    }
}

/// What a model remembers.
#[derive(Debug)]
pub struct MemoryPlan {
    pub kind: MemoryKind,
    pub swa_layers: SwaLayers,
    pub sliding_window: Option<usize>,
}

/// A model's plan; the floats are bit patterns.
#[derive(Debug)]
pub struct ExecutionPlan {
    pub family: DecoderFamily,
    pub rope: RopeLayout,
    pub qk_norm: QkNormStyle,
    pub ffn_activation: FfnActivation,
    pub memory: MemoryPlan,
    pub fused: FusedOpCaps,
    pub embedding_scale: Option<u32>,
    pub attention_scale: Option<u32>,
    pub rope_theta_swa: Option<u32>,
    pub attn_logit_softcap: Option<u32>,
    pub final_logit_softcap: Option<u32>,
}

/// The batch that a plan is kept for.
#[derive(Debug, Clone, Copy, PartialEq, Eq, Structural, Hash)]
pub struct PlanGeometry {
    pub n_tokens: usize,
    pub n_seqs: usize,
    pub flash_attn: bool,
}

impl ExecutionPlan {
    /// The plan of a configuration: its own choices, with the family and
    /// the memory of its architecture and what the backend offers.
    pub fn from_config(
        config: &ModelConfig,
        family: DecoderFamily,
        memory_kind: MemoryKind,
        fused: FusedOpCaps,
    ) -> (plan: Self)
        ensures
            plan.family == family,
            plan.rope == config.rope_layout,
            plan.qk_norm == config.qk_norm_style,
            plan.ffn_activation == config.ffn_activation,
            plan.memory.kind == memory_kind,
            plan.memory.swa_layers.layers@ == config.swa_layers.layers@,
            plan.memory.sliding_window == config.sliding_window,
            plan.fused == fused,
            plan.embedding_scale == config.embedding_scale,
            plan.attention_scale == config.attention_scale,
            plan.rope_theta_swa == config.rope_theta_swa,
            plan.attn_logit_softcap == config.attn_logit_softcap,
            plan.final_logit_softcap == config.final_logit_softcap,
    {
        ExecutionPlan {
            family,
            rope: config.rope_layout,
            qk_norm: config.qk_norm_style,
            ffn_activation: config.ffn_activation,
            memory: MemoryPlan {
                kind: memory_kind,
                swa_layers: SwaLayers { layers: slice_to_vec(config.swa_layers.layers.as_slice()) },
                sliding_window: config.sliding_window,
            },
            fused,
            embedding_scale: config.embedding_scale,
            attention_scale: config.attention_scale,
            rope_theta_swa: config.rope_theta_swa,
            attn_logit_softcap: config.attn_logit_softcap,
            final_logit_softcap: config.final_logit_softcap,
        }
    }
}

} // verus!
