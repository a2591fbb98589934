//! The GLM-5.2 decoder's weights, configuration and state.
//!
//! A layer's indexer is full (it chooses the positions that attention
//! reads) or shared (it reads those of the nearest full layer before
//! it); [`top_k_layer`] says which layer's choice a layer reads.

use crate::engine::MlaRopeConfig;
use crate::weights::{ExpertWeights, WeightMatrix};
use vstd::prelude::*;

verus! {

/// The dimensions of a GLM-5.2 attention.
#[derive(Debug, Clone, Copy, PartialEq, Eq, Structural)]
pub struct Glm52MlaConfig {
    pub num_heads: usize,
    pub q_lora_rank: usize,
    pub kv_lora_rank: usize,
    pub qk_nope_head_dim: usize,
    pub qk_rope_head_dim: usize,
    pub v_head_dim: usize,
    pub rope: MlaRopeConfig,
}

/// The dimensions of an indexer.
#[derive(Debug, Clone, Copy, PartialEq, Eq, Structural)]
pub struct IndexerConfig {
    pub n_heads: usize,
    pub head_dim: usize,
    pub rope_dim: usize,
    pub top_k: usize,
    /// A bit pattern.
    pub rope_theta: u32,
}

/// A full layer's indexer; the vectors are bit patterns.
#[derive(Debug)]
pub struct IndexerWeights {
    pub k_norm_weight: Vec<u32>,
    pub k_norm_bias: Vec<u32>,
    pub proj: WeightMatrix,
    pub attn_k: WeightMatrix,
    pub attn_q_b: WeightMatrix,
}

/// A layer's attention; the vectors are bit patterns.
#[derive(Debug)]
pub struct Glm52AttnWeights {
    pub q_a_proj: WeightMatrix,
    pub q_a_layernorm: Vec<u32>,
    pub q_b_proj: WeightMatrix,
    pub kv_a_proj_with_mqa: WeightMatrix,
    pub kv_a_layernorm: Vec<u32>,
    /// One `[qk_nope, kv_lora]` matrix for each head.
    pub wk_b: Vec<WeightMatrix>,
    /// One `[v_head, kv_lora]` matrix for each head.
    pub wv_b: Vec<WeightMatrix>,
    pub o_proj: WeightMatrix,
    pub indexer: Option<IndexerWeights>,
}

/// A dense feed-forward block.
#[derive(Debug)]
pub struct Glm52DenseFfnWeights {
    pub gate_proj: WeightMatrix,
    pub up_proj: WeightMatrix,
    pub down_proj: WeightMatrix,
}

/// A routed feed-forward block.
#[derive(Debug)]
pub struct Glm52MoeFfnWeights {
    pub router_weight: WeightMatrix,
    pub e_score_correction_bias: Vec<u32>,
    pub experts: Vec<ExpertWeights>,
    pub shared_expert: ExpertWeights,
}

/// A layer's feed-forward block.
#[derive(Debug)]
pub enum Glm52LayerFfn {
    Dense(Glm52DenseFfnWeights),
    Moe(Glm52MoeFfnWeights),
}

/// A layer's weights.
#[derive(Debug)]
pub struct Glm52DecoderLayerWeights {
    pub attn_norm_weight: Vec<u32>,
    pub attn: Glm52AttnWeights,
    pub ffn_norm_weight: Vec<u32>,
    pub ffn: Glm52LayerFfn,
    /// Whether the layer's indexer is full.
    pub is_full_indexer_layer: bool,
}

/// The decoder's weights.
#[derive(Debug)]
pub struct Glm52DecoderWeights {
    /// `[vocab_size, hidden_dim]`, held in place.
    pub embedding: WeightMatrix,
    pub layers: Vec<Glm52DecoderLayerWeights>,
    pub final_norm_weight: Vec<u32>,
    pub output_head: WeightMatrix,
}

/// The decoder's configuration.
#[derive(Debug, Clone, Copy, PartialEq, Eq, Structural)]
pub struct Glm52DecoderConfig {
    /// A bit pattern.
    pub rms_norm_eps: u32,
    pub mla: Glm52MlaConfig,
    pub indexer: IndexerConfig,
    pub n_experts_active: usize,
    pub moe_renormalize: bool,
    /// A bit pattern.
    pub routed_scaling_factor: u32,
}

/// The GLM-5.2 engine.
#[derive(Debug)]
pub struct Glm52Engine {
    pub weights: Glm52DecoderWeights,
    pub cfg: Glm52DecoderConfig,
}

impl Glm52Engine {
    /// How many tokens the engine scores.
    pub fn vocab_size(&self) -> (n: usize)
        ensures
            n == self.weights.output_head.n_rows(),
    {
        self.weights.output_head.rows()
    }
}

/// The rows that a layer's attention has cached: one for each token seen,
/// as bit patterns.
#[derive(Debug)]
pub struct Glm52AttnState {
    pub latent: Vec<Vec<u32>>,
    pub indexer_keys: Vec<Vec<u32>>,
}

/// The state of a sequence: one attention state for each layer.
#[derive(Debug)]
pub struct Glm52DecodeState {
    pub layer_states: Vec<Glm52AttnState>,
}

impl Glm52DecodeState {
    /// The state of a new sequence: every layer has cached nothing.
    pub fn new(weights: &Glm52DecoderWeights) -> (state: Self)
        ensures
            state.layer_states@.len() == weights.layers@.len(),
            forall|l: int|
                0 <= l < state.layer_states@.len() ==> (#[trigger] state.layer_states@[l]).latent@
                    == Seq::<Vec<u32>>::empty() && state.layer_states@[l].indexer_keys@ == Seq::<
                    Vec<u32>,
                >::empty(),
    {
        let mut layer_states: Vec<Glm52AttnState> = Vec::new();
        let mut l: usize = 0;
        while l < weights.layers.len()
            invariant
                l <= weights.layers@.len(),
                layer_states@.len() == l,
                forall|i: int|
                    0 <= i < l ==> (#[trigger] layer_states@[i]).latent@ == Seq::<
                        Vec<u32>,
                    >::empty() && layer_states@[i].indexer_keys@ == Seq::<Vec<u32>>::empty(),
            decreases weights.layers@.len() - l,
        {
            layer_states.push(Glm52AttnState { latent: Vec::new(), indexer_keys: Vec::new() });
            l += 1;
        }
        Glm52DecodeState { layer_states }
    }
}

/// Whether layer `source` is the nearest full layer at or before `l`.
pub open spec fn nearest_full(full: Seq<bool>, l: int, source: int) -> bool {
    &&& 0 <= source <= l
    &&& full[source]
    &&& forall|i: int| source < i <= l ==> !(#[trigger] full[i])
}

/// The layer whose chosen positions layer `l` reads: itself where its
/// indexer is full, else the nearest full layer before it. `None` where
/// there is none, which a model whose first layer is full never has.
pub fn top_k_layer(layers: &Vec<Glm52DecoderLayerWeights>, l: usize) -> (source: Option<usize>)
    requires
        l < layers@.len(),
    ensures
        match source {
            Some(s) => nearest_full(
                layers@.map_values(|w: Glm52DecoderLayerWeights| w.is_full_indexer_layer),
                l as int,
                s as int,
            ),
            None => forall|i: int| 0 <= i <= l ==> !(#[trigger] layers@[i]).is_full_indexer_layer,
        },
        layers@[0].is_full_indexer_layer ==> source is Some,
{
    let ghost full = layers@.map_values(|w: Glm52DecoderLayerWeights| w.is_full_indexer_layer);
    let mut i: usize = l;
    loop
        invariant
            i <= l,
            l < layers@.len(),
            full == layers@.map_values(|w: Glm52DecoderLayerWeights| w.is_full_indexer_layer),
            forall|k: int| i < k <= l ==> !(#[trigger] layers@[k]).is_full_indexer_layer,
        decreases i,
    {
        if layers[i].is_full_indexer_layer {
            assert forall|k: int| i < k <= l implies !(#[trigger] full[k]) by {
                assert(!layers@[k].is_full_indexer_layer);
            }
            return Some(i);
        }
        if i == 0 {
            return None;
        }
        i -= 1;
    }
}

/// A layer reads one other layer's choice and no second one: a full layer
/// its own, and a shared one that of the layer before it.
pub proof fn a_shared_layer_reads_what_the_one_before_reads(
    full: Seq<bool>,
    l: int,
    source: int,
    other: int,
)
    requires
        0 <= l < full.len(),
        nearest_full(full, l, source),
    ensures
        0 <= source <= l && full[source],
        full[l] ==> source == l,
        nearest_full(full, l, other) ==> other == source,
        l > 0 && !full[l] ==> nearest_full(full, l - 1, source),
        l + 1 < full.len() && !full[l + 1] ==> nearest_full(full, l + 1, source),
        l + 1 < full.len() && full[l + 1] ==> nearest_full(full, l + 1, l + 1),
{
}

} // verus!
