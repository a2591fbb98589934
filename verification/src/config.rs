//! The configuration of a model on the generic decoder, as far as a
//! layer's shape and the execution plan depend on it.

use crate::capability::{QkNormStyle, RopeLayout};
use crate::layer_shapes::LayerShapes;
use vstd::prelude::*;

verus! {

/// The activation of a feed-forward block.
#[derive(Debug, Clone, Copy, PartialEq, Eq, Structural)]
pub enum FfnActivation {
    Silu,
    Gelu,
}

/// Which layers attend over a sliding window.
#[derive(Debug)]
pub struct SwaLayers {
    pub layers: Vec<bool>,
}

/// The experts of a model; one, where it is dense.
#[derive(Debug, Clone, Copy, PartialEq, Eq, Structural)]
pub struct MoeConfig {
    pub expert_ffn_dim: usize,
}

/// A model's configuration; the floats are bit patterns.
#[derive(Debug)]
pub struct ModelConfig {
    pub n_layers: usize,
    /// The head counts and the feed-forward width of the widest layer.
    pub n_heads: usize,
    pub n_kv_heads: usize,
    pub moe: MoeConfig,
    pub head_dim: usize,
    pub v_head_dim: usize,
    pub layer_shapes: LayerShapes,
    pub rope_layout: RopeLayout,
    pub qk_norm_style: QkNormStyle,
    pub ffn_activation: FfnActivation,
    pub swa_layers: SwaLayers,
    pub sliding_window: Option<usize>,
    pub embedding_scale: Option<u32>,
    pub attention_scale: Option<u32>,
    pub rope_theta_swa: Option<u32>,
    pub attn_logit_softcap: Option<u32>,
    pub final_logit_softcap: Option<u32>,
}

} // verus!
