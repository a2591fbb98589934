//! The hybrid decoder of KDA and gated MLA layers: its weights, the state
//! a decode step keeps, and what each layer of a step does.
//!
//! A step carries block residuals: every `attn_res_block_size` layers,
//! from the first on, a layer opens a block with the hidden state it was
//! given and starts its own sum afresh. The residuals start empty with
//! every step.

use crate::engine::MlaConfig;
use crate::mla::MlaAttnWeights;
use crate::weights::WeightMatrix;
use vstd::prelude::*;

verus! {

/// The weights of a KDA layer's attention.
#[derive(Debug)]
pub struct KdaAttnWeights {
    pub q_proj: WeightMatrix,
    pub k_proj: WeightMatrix,
    pub v_proj: WeightMatrix,
    pub q_conv_weight: Vec<u32>,
    pub k_conv_weight: Vec<u32>,
    pub v_conv_weight: Vec<u32>,
    pub a_log: Vec<u32>,
    pub f_a_proj: WeightMatrix,
    pub f_b_proj: WeightMatrix,
    pub dt_bias: Vec<u32>,
    pub b_proj: WeightMatrix,
    pub g_proj: WeightMatrix,
    pub o_norm_weight: Vec<u32>,
    pub o_proj: WeightMatrix,
}

/// A layer's attention.
#[derive(Debug)]
pub enum KimiLayerAttention {
    Kda(Box<KdaAttnWeights>),
    Mla(Box<MlaAttnWeights>),
}

/// A dense feed-forward block.
#[derive(Debug)]
pub struct DenseMlpWeights {
    pub gate_proj: WeightMatrix,
    pub up_proj: WeightMatrix,
    pub down_proj: WeightMatrix,
}

/// One routed expert.
#[derive(Debug)]
pub struct KimiExpertWeights {
    pub w1: WeightMatrix,
    pub w2: WeightMatrix,
    pub w3: WeightMatrix,
}

/// Where a layer's routed experts are.
#[derive(Debug)]
pub enum KimiExpertBacking {
    Resident(Vec<KimiExpertWeights>),
    /// In the store that all such layers share.
    Stored,
}

/// A routed feed-forward block in a latent space.
#[derive(Debug)]
pub struct KimiLatentMoeWeights {
    pub router_weight: WeightMatrix,
    pub e_score_correction_bias: Vec<u32>,
    pub down_proj: WeightMatrix,
    pub up_proj: WeightMatrix,
    pub routed_expert_norm_weight: Option<Vec<u32>>,
    pub experts: KimiExpertBacking,
    pub shared_expert: DenseMlpWeights,
}

/// A layer's feed-forward block.
#[derive(Debug)]
pub enum KimiLayerFfn {
    Dense(Box<DenseMlpWeights>),
    Moe(Box<KimiLatentMoeWeights>),
}

/// A layer's weights.
#[derive(Debug)]
pub struct KimiDecoderLayerWeights {
    pub input_layernorm_weight: Vec<u32>,
    pub attn: KimiLayerAttention,
    pub post_attention_layernorm_weight: Vec<u32>,
    pub ffn: KimiLayerFfn,
    pub self_attention_res_norm_weight: Vec<u32>,
    pub self_attention_res_proj_weight: Vec<u32>,
    pub mlp_res_norm_weight: Vec<u32>,
    pub mlp_res_proj_weight: Vec<u32>,
}

/// The decoder's weights.
#[derive(Debug)]
pub struct KimiDecoderWeights {
    pub embedding: WeightMatrix,
    pub layers: Vec<KimiDecoderLayerWeights>,
    pub output_attn_res_norm_weight: Vec<u32>,
    pub output_attn_res_proj_weight: Vec<u32>,
    pub final_norm_weight: Vec<u32>,
    pub output_head: WeightMatrix,
}

impl KimiDecoderLayerWeights {
    /// The layer's experts are in the store.
    pub open spec fn stored(&self) -> bool {
        match self.ffn {
            KimiLayerFfn::Dense(_) => false,
            KimiLayerFfn::Moe(moe) => moe.experts is Stored,
        }
    }

    /// The layer's attention is recurrent.
    pub open spec fn recurs(&self) -> bool {
        self.attn is Kda
    }
}

impl KimiDecoderWeights {
    /// The first layer whose experts are in the store: its counters speak
    /// for the model. `None` where all experts are resident.
    pub fn expert_store_layer(&self) -> (layer: Option<usize>)
        ensures
            match layer {
                Some(l) => {
                    &&& l < self.layers@.len()
                    &&& self.layers@[l as int].stored()
                    &&& forall|i: int| 0 <= i < l ==> !(#[trigger] self.layers@[i]).stored()
                },
                None => forall|i: int|
                    0 <= i < self.layers@.len() ==> !(#[trigger] self.layers@[i]).stored(),
            },
    {
        let mut i: usize = 0;
        while i < self.layers.len()
            invariant
                i <= self.layers@.len(),
                forall|j: int| 0 <= j < i ==> !(#[trigger] self.layers@[j]).stored(),
            decreases self.layers@.len() - i,
        {
            match &self.layers[i].ffn {
                KimiLayerFfn::Moe(moe) => {
                    if matches!(moe.experts, KimiExpertBacking::Stored) {
                        return Some(i);
                    }
                },
                KimiLayerFfn::Dense(_) => {},
            }
            i += 1;
        }
        None
    }
}

/// How the routed layers route; the floats are bit patterns.
#[derive(Debug, Clone, Copy, PartialEq, Eq, Structural)]
pub struct KimiMoeConfig {
    pub n_experts_active: usize,
    pub moe_renormalize: bool,
    pub routed_scaling_factor: u32,
    pub situ_beta: u32,
    pub situ_linear_beta: u32,
    pub rms_norm_eps: u32,
}

/// The decoder's configuration; the floats are bit patterns.
#[derive(Debug, Clone, Copy, PartialEq, Eq, Structural)]
pub struct KimiDecoderConfig {
    pub attn_res_block_size: usize,
    pub rms_norm_eps: u32,
    pub situ_beta: u32,
    pub situ_linear_beta: u32,
    pub moe: KimiMoeConfig,
}

/// The dimensions of a KDA attention.
#[derive(Debug, Clone, Copy, PartialEq, Eq, Structural)]
pub struct KdaConfig {
    pub num_heads: usize,
    pub head_dim: usize,
    pub short_conv_kernel_size: usize,
    /// A bit pattern.
    pub gate_lower_bound: u32,
    pub use_full_rank_gate: bool,
}

/// What a layer keeps between steps.
#[derive(Debug)]
pub enum KimiLayerState {
    /// A recurrent state, by its place among those of the recurrent
    /// layers.
    Kda(usize),
    Mla { k_cache: Vec<u32>, v_cache: Vec<u32> },
}

/// What the decoder keeps between steps.
#[derive(Debug)]
pub struct KimiDecodeState {
    pub layer_states: Vec<KimiLayerState>,
}

/// How many of the first `n` layers are recurrent.
pub open spec fn recurrent_layers(layers: Seq<KimiDecoderLayerWeights>, n: int) -> int
    decreases n,
{
    if n <= 0 {
        0
    } else {
        recurrent_layers(layers, n - 1) + (if layers[n - 1].recurs() {
            1int
        } else {
            0int
        })
    }
}

/// Whether a state is the fresh one of layer `l`.
pub open spec fn fresh_state(layers: Seq<KimiDecoderLayerWeights>, l: int, state: KimiLayerState) -> bool {
    match state {
        KimiLayerState::Kda(at) => layers[l].recurs() && at == recurrent_layers(layers, l),
        KimiLayerState::Mla { k_cache, v_cache } => !layers[l].recurs() && k_cache@.len() == 0
            && v_cache@.len() == 0,
    }
}

impl KimiDecodeState {
    /// A fresh state, of the kind each layer's attention has.
    pub fn new(weights: &KimiDecoderWeights) -> (state: Self)
        ensures
            state.layer_states@.len() == weights.layers@.len(),
            forall|l: int|
                0 <= l < state.layer_states@.len() ==> fresh_state(
                    weights.layers@,
                    l,
                    #[trigger] state.layer_states@[l],
                ),
    {
        let mut layer_states: Vec<KimiLayerState> = Vec::new();
        let mut recurrent: usize = 0;
        let mut l: usize = 0;
        while l < weights.layers.len()
            invariant
                l <= weights.layers@.len(),
                recurrent <= l,
                recurrent == recurrent_layers(weights.layers@, l as int),
                layer_states@.len() == l,
                forall|j: int|
                    0 <= j < l ==> fresh_state(
                        weights.layers@,
                        j,
                        #[trigger] layer_states@[j],
                    ),
            decreases weights.layers@.len() - l,
        {
            match &weights.layers[l].attn {
                KimiLayerAttention::Kda(_) => {
                    layer_states.push(KimiLayerState::Kda(recurrent));
                    recurrent += 1;
                },
                KimiLayerAttention::Mla(_) => {
                    layer_states.push(
                        KimiLayerState::Mla { k_cache: Vec::new(), v_cache: Vec::new() },
                    );
                },
            }
            l += 1;
        }
        KimiDecodeState { layer_states }
    }
}

/// What one layer of a step does with the block residuals.
#[derive(Debug, Clone, Copy, PartialEq, Eq, Structural)]
pub struct KimiLayerStep {
    /// The attention's input is blended with the residuals there are.
    pub blends: bool,
    /// The layer opens a block: the hidden state it was given becomes a
    /// residual, and its own sum starts with the attention's output.
    pub opens_block: bool,
    /// How many residuals the feed-forward's input is blended with.
    pub residuals: usize,
}

/// The step of layer `l` where a block has `block` layers: all but the
/// first layer find residuals; a block is opened every `block` layers;
/// and by then there is one residual for each block opened.
pub open spec fn layer_step_of(l: int, block: int) -> (bool, bool, int) {
    (l > 0, l % block == 0, l / block + 1)
}

/// What every layer of a step over `n_layers` layers does.
pub fn kimi_token_steps(n_layers: usize, attn_res_block_size: usize) -> (steps: Vec<KimiLayerStep>)
    requires
        attn_res_block_size > 0,
    ensures
        steps@.len() == n_layers,
        forall|l: int|
            0 <= l < n_layers ==> {
                let s = #[trigger] steps@[l];
                (s.blends, s.opens_block, s.residuals as int) == layer_step_of(
                    l,
                    attn_res_block_size as int,
                )
            },
{
    let mut steps: Vec<KimiLayerStep> = Vec::new();
    let mut residuals: usize = 0;
    let mut l: usize = 0;
    while l < n_layers
        invariant
            l <= n_layers,
            attn_res_block_size > 0,
            residuals <= l,
            l == 0 ==> residuals == 0,
            l > 0 ==> residuals == (l - 1) as int / attn_res_block_size as int + 1,
            steps@.len() == l,
            forall|j: int|
                0 <= j < l ==> {
                    let s = #[trigger] steps@[j];
                    (s.blends, s.opens_block, s.residuals as int) == layer_step_of(
                        j,
                        attn_res_block_size as int,
                    )
                },
        decreases n_layers - l,
    {
        let blends = residuals > 0;
        let opens_block = l % attn_res_block_size == 0;
        proof {
            let size = attn_res_block_size as int;
            if l > 0 {
                next_block(l as int, size);
                vstd::arithmetic::div_mod::lemma_div_pos_is_pos((l - 1) as int, size);
            } else {
                vstd::arithmetic::div_mod::lemma_div_basics_1(size);
                vstd::arithmetic::div_mod::lemma_small_mod(0, size as nat);
            }
            block_count_bound(l as int, size);
        }
        if opens_block {
            residuals += 1;
        }
        steps.push(KimiLayerStep { blends, opens_block, residuals });
        l += 1;
    }
    steps
}

proof fn next_block(l: int, size: int)
    requires
        0 < l,
        0 < size,
    ensures
        l / size == (l - 1) / size + (if l % size == 0 {
            1int
        } else {
            0int
        }),
{
    let q = (l - 1) / size;
    let r = (l - 1) % size;
    vstd::arithmetic::div_mod::lemma_fundamental_div_mod(l - 1, size);
    if r + 1 == size {
        assert(l == (q + 1) * size + 0) by (nonlinear_arith)
            requires
                l - 1 == size * q + r,
                r + 1 == size,
        ;
        vstd::arithmetic::div_mod::lemma_fundamental_div_mod_converse(l, size, q + 1, 0);
    } else {
        assert(l == q * size + (r + 1)) by (nonlinear_arith)
            requires
                l - 1 == size * q + r,
        ;
        vstd::arithmetic::div_mod::lemma_fundamental_div_mod_converse(l, size, q, r + 1);
    }
}

proof fn block_count_bound(l: int, size: int)
    requires
        0 <= l,
        0 < size,
    ensures
        0 <= l / size <= l,
{
    vstd::arithmetic::div_mod::lemma_div_pos_is_pos(l, size);
    vstd::arithmetic::div_mod::lemma_div_nonincreasing(l, size);
}

/// Whether the hidden state that the last layer gives is blended once
/// more: it is, unless there is no layer.
pub fn blends_output(n_layers: usize) -> (yes: bool)
    ensures
        yes == (n_layers > 0),
{
    n_layers > 0
}

/// The first layer of a step opens a block, so that every later layer,
/// and every feed-forward block, finds a residual.
pub proof fn residuals_are_never_missing(l: int, block: int)
    requires
        0 <= l,
        0 < block,
    ensures
        layer_step_of(0, block).1,
        layer_step_of(l, block).2 >= 1,
        layer_step_of(l, block).0 <==> l > 0,
{
    vstd::arithmetic::div_mod::lemma_small_mod(0, block as nat);
    block_count_bound(l, block);
}

/// The engine of this decoder.
#[derive(Debug)]
pub struct KimiEngine {
    pub weights: KimiDecoderWeights,
    pub cfg: KimiDecoderConfig,
    pub mla_cfg: MlaConfig,
    pub kda_cfg: KdaConfig,
}

impl KimiEngine {
    /// How many tokens the engine scores.
    pub fn vocab_size(&self) -> (n: usize)
        ensures
            n == self.weights.output_head.n_rows(),
    {
        self.weights.output_head.rows()
    }

    /// A fresh state for a new request.
    pub fn new_state(&self) -> (state: KimiDecodeState)
        ensures
            state.layer_states@.len() == self.weights.layers@.len(),
            forall|l: int|
                0 <= l < state.layer_states@.len() ==> fresh_state(
                    self.weights.layers@,
                    l,
                    #[trigger] state.layer_states@[l],
                ),
    {
        KimiDecodeState::new(&self.weights)
    }
}

/// The blocks of a step: layer `j` of block `k` opens the block exactly
/// where it is the block's first, and finds behind it one residual for
/// each block opened so far, its own included.
pub proof fn a_blocks_first_layer_opens_it(k: int, j: int, block: int)
    requires
        0 <= k,
        0 <= j < block,
    ensures
        ({
            let (blends, opens, residuals) = layer_step_of(k * block + j, block);
            &&& opens <==> j == 0
            &&& residuals == k + 1
            &&& blends <==> !(k == 0 && j == 0)
        }),
{
    vstd::arithmetic::div_mod::lemma_fundamental_div_mod_converse(k * block + j, block, k, j);
    assert(k * block + j > 0 <==> !(k == 0 && j == 0)) by (nonlinear_arith)
        requires
            0 <= k,
            0 <= j < block,
    ;
}

/// From one layer to the next the residuals grow by one where the next
/// layer opens a block, and stay otherwise.
pub proof fn residuals_grow_with_the_blocks(l: int, block: int)
    requires
        0 <= l,
        0 < block,
    ensures
        layer_step_of(l + 1, block).2 == layer_step_of(l, block).2 + (if layer_step_of(
            l + 1,
            block,
        ).1 {
            1int
        } else {
            0int
        }),
        layer_step_of(0, block).2 == 1,
{
    next_block(l + 1, block);
    vstd::arithmetic::div_mod::lemma_div_basics_1(block);
}

/// The recurrent layers have states of their own, numbered in order from
/// zero without a gap: of two recurrent layers the earlier has the lower
/// number, and the next one after it the next number.
pub proof fn recurrent_states_are_numbered_in_order(
    layers: Seq<KimiDecoderLayerWeights>,
    a: int,
    b: int,
)
    requires
        0 <= a <= b <= layers.len(),
    ensures
        recurrent_layers(layers, 0) == 0,
        0 <= recurrent_layers(layers, a) <= a,
        recurrent_layers(layers, a) <= recurrent_layers(layers, b),
        a < b && layers[a].attn is Kda ==> recurrent_layers(layers, a) < recurrent_layers(
            layers,
            b,
        ),
        (forall|i: int| a <= i < b ==> !((#[trigger] layers[i]).attn is Kda)) ==> recurrent_layers(
            layers,
            a,
        ) == recurrent_layers(layers, b),
        b < layers.len() && layers[b].attn is Kda ==> recurrent_layers(layers, b + 1)
            == recurrent_layers(layers, b) + 1,
    decreases b,
{
    if a < b {
        recurrent_states_are_numbered_in_order(layers, a, b - 1);
        let _ = layers[b - 1];
    } else if a > 0 {
        recurrent_states_are_numbered_in_order(layers, a - 1, a - 1);
    }
}

/// A fresh state is of its layer's kind: a recurrent layer has a number
/// among the recurrent states, any other an empty cache.
pub proof fn a_fresh_state_is_of_its_layers_kind(
    layers: Seq<KimiDecoderLayerWeights>,
    l: int,
    state: KimiLayerState,
)
    requires
        fresh_state(layers, l, state),
    ensures
        state is Kda <==> layers[l].attn is Kda,
        state matches KimiLayerState::Kda(at) ==> at == recurrent_layers(layers, l),
        state matches KimiLayerState::Mla { k_cache, v_cache } ==> k_cache@.len() == 0
            && v_cache@.len() == 0,
{
}

/// A layer's experts are in the store exactly where it routes and says
/// so.
pub proof fn only_routed_layers_are_stored(w: KimiDecoderLayerWeights)
    ensures
        w.ffn is Dense ==> !w.stored(),
        w.ffn matches KimiLayerFfn::Moe(moe) ==> (w.stored() <==> moe.experts is Stored),
        w.recurs() <==> w.attn is Kda,
{
}

} // verus!
