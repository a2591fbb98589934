//! The Gemma-4 engine: hyperparameters, weights, the state of a
//! sequence, and what a token's pass does at each layer.
//!
//! Layers are windowed or full, with different head widths and rotation
//! bases. Only the first layers keep a K/V cache; a later one reads the
//! cache of the last windowed or the last full layer that keeps one
//! ([`Gemma4Hparams::kv_reuse_layer`]). [`layer_step`] gathers what a
//! layer's pass depends on.

use crate::weights::WeightMatrix;
use vstd::prelude::*;

verus! {

/// The architectures served by this engine.
pub const GEMMA4_ARCHES: [&'static str; 2] = ["gemma4", "gemma4-assistant"];

/// Hyperparameters read from the `{arch}.*` metadata. The floats are bit
/// patterns.
#[derive(Debug)]
pub struct Gemma4Hparams {
    pub arch: String,
    pub n_layer: usize,
    pub hidden_dim: usize,
    /// The feed-forward width of each layer.
    pub ffn_dims: Vec<usize>,
    pub n_heads: usize,
    pub n_kv_heads: usize,
    pub head_dim_full: usize,
    pub head_dim_swa: usize,
    pub sliding_window: usize,
    /// Which layers are windowed.
    pub is_swa: Vec<bool>,
    /// How many layers, from the first, keep a cache.
    pub n_layer_kv_from_start: usize,
    pub embd_per_layer: usize,
    pub rms_norm_eps: u32,
    pub rope_theta: u32,
    pub rope_theta_swa: u32,
    pub final_logit_softcap: Option<u32>,
    pub attention_scale: u32,
}

impl Gemma4Hparams {
    /// One entry for each layer, and some layer keeps a cache where there
    /// is one.
    pub open spec fn well_formed(&self) -> bool {
        &&& self.ffn_dims@.len() == self.n_layer
        &&& self.is_swa@.len() == self.n_layer
        &&& self.n_layer_kv_from_start <= self.n_layer
        &&& self.n_layer > 0 ==> self.n_layer_kv_from_start > 0
    }

    pub open spec fn swa(&self, il: int) -> bool {
        0 <= il < self.is_swa@.len() && self.is_swa@[il]
    }

    pub open spec fn head_width(&self, il: int) -> usize {
        if self.swa(il) {
            self.head_dim_swa
        } else {
            self.head_dim_full
        }
    }

    pub open spec fn keeps_kv(&self, il: int) -> bool {
        il < self.n_layer_kv_from_start
    }

    /// The layer whose cache a layer without one reads: the last but one
    /// of those that keep one for a windowed layer, the last for a full
    /// one.
    pub open spec fn reuse(&self, il: int) -> int {
        self.n_layer_kv_from_start - (if self.swa(il) {
            2int
        } else {
            1int
        })
    }

    /// The layer whose cache a layer's attention reads.
    pub open spec fn cache_layer(&self, il: int) -> int {
        if self.keeps_kv(il) {
            il
        } else {
            self.reuse(il)
        }
    }

    /// Whether a layer is windowed. A layer past the pattern is not.
    pub fn is_swa_layer(&self, il: usize) -> (yes: bool)
        ensures
            yes == self.swa(il as int),
    {
        il < self.is_swa.len() && self.is_swa[il]
    }

    /// The width of a layer's heads.
    pub fn head_dim(&self, il: usize) -> (n: usize)
        ensures
            n == self.head_width(il as int),
    {
        if self.is_swa_layer(il) {
            self.head_dim_swa
        } else {
            self.head_dim_full
        }
    }

    /// Whether a layer keeps a cache of its own.
    pub fn has_kv(&self, il: usize) -> (yes: bool)
        ensures
            yes == self.keeps_kv(il as int),
    {
        il < self.n_layer_kv_from_start
    }

    /// The layer whose cache a layer without one reads.
    pub fn kv_reuse_layer(&self, il: usize) -> (source: usize)
        requires
            !self.keeps_kv(il as int),
            self.reuse(il as int) >= 0,
        ensures
            source == self.reuse(il as int),
            self.keeps_kv(source as int),
            source < il,
    {
        let back: usize = if self.is_swa_layer(il) {
            2
        } else {
            1
        };
        self.n_layer_kv_from_start - back
    }

    /// The rotation base of a layer, a bit pattern.
    pub fn rope_theta_for(&self, il: usize) -> (theta: u32)
        ensures
            theta == (if self.swa(il as int) {
                self.rope_theta_swa
            } else {
                self.rope_theta
            }),
    {
        if self.is_swa_layer(il) {
            self.rope_theta_swa
        } else {
            self.rope_theta
        }
    }

    /// The feed-forward width of a layer: its own, else the last one
    /// declared, else the hidden width.
    pub fn ffn_dim(&self, il: usize) -> (n: usize)
        ensures
            n == (if il < self.ffn_dims@.len() {
                self.ffn_dims@[il as int]
            } else if self.ffn_dims@.len() > 0 {
                self.ffn_dims@.last()
            } else {
                self.hidden_dim
            }),
    {
        let declared = self.ffn_dims.len();
        if il < declared {
            self.ffn_dims[il]
        } else if declared > 0 {
            self.ffn_dims[declared - 1]
        } else {
            self.hidden_dim
        }
    }
}

/// A layer's attention; the vectors are bit patterns.
#[derive(Debug)]
pub struct Gemma4AttnWeights {
    pub q_proj: WeightMatrix,
    pub k_proj: Option<WeightMatrix>,
    pub v_proj: Option<WeightMatrix>,
    pub o_proj: WeightMatrix,
    pub q_norm: Vec<u32>,
    pub k_norm: Option<Vec<u32>>,
    pub post_attn_norm: Vec<u32>,
}

/// A layer's weights; the vectors are bit patterns.
#[derive(Debug)]
pub struct Gemma4LayerWeights {
    pub attn_norm: Vec<u32>,
    pub attn: Gemma4AttnWeights,
    pub ffn_norm: Vec<u32>,
    pub ffn_gate: WeightMatrix,
    pub ffn_up: WeightMatrix,
    pub ffn_down: WeightMatrix,
    pub ffn_post_norm: Vec<u32>,
    pub per_layer_inp_gate: Option<WeightMatrix>,
    pub per_layer_proj: Option<WeightMatrix>,
    pub per_layer_post_norm: Option<Vec<u32>>,
    pub out_scale: Option<u32>,
}

/// The engine's weights; the vectors are bit patterns.
#[derive(Debug)]
pub struct Gemma4Weights {
    pub token_embd: WeightMatrix,
    pub per_layer_token_embd: Option<WeightMatrix>,
    pub per_layer_model_proj: Option<WeightMatrix>,
    pub per_layer_proj_norm: Option<Vec<u32>>,
    pub layers: Vec<Gemma4LayerWeights>,
    pub output_norm: Vec<u32>,
    pub output_head: WeightMatrix,
    /// The frequency factors of the full layers' rotation.
    pub rope_freqs: Option<Vec<u32>>,
}

/// The Gemma-4 engine.
#[derive(Debug)]
pub struct Gemma4Engine {
    pub weights: Gemma4Weights,
    pub hp: Gemma4Hparams,
}

/// A layer's K/V cache; the rows are bit patterns.
#[derive(Debug)]
pub struct KvCache {
    pub n_kv_heads: usize,
    pub head_dim: usize,
    pub k: Vec<u32>,
    pub v: Vec<u32>,
}

/// The state of a sequence: a cache for each layer that keeps one.
#[derive(Debug)]
pub struct Gemma4DecodeState {
    pub kv: Vec<Option<KvCache>>,
}

impl Gemma4DecodeState {
    /// Whether the state has the caches that the engine's layers read:
    /// one of the right size for each layer that keeps one, none for the
    /// others.
    pub open spec fn serves(&self, hp: Gemma4Hparams) -> bool {
        &&& self.kv@.len() == hp.n_layer
        &&& forall|il: int|
            0 <= il < hp.n_layer ==> match #[trigger] self.kv@[il] {
                Some(c) => hp.keeps_kv(il) && c.n_kv_heads == hp.n_kv_heads && c.head_dim
                    == hp.head_width(il),
                None => !hp.keeps_kv(il),
            }
    }
}

impl KvCache {
    /// The length of a position's row of keys, and of values.
    pub open spec fn row_len(&self) -> int {
        self.n_kv_heads * self.head_dim
    }

    /// Whether the cache holds the keys and values of `n` positions.
    pub open spec fn holds_rows(&self, n: int) -> bool {
        self.k@.len() == n * self.row_len() && self.v@.len() == n * self.row_len()
    }

    /// Adds a position's keys and values.
    pub fn push(&mut self, k: &[u32], v: &[u32])
        requires
            k@.len() == old(self).row_len(),
            v@.len() == old(self).row_len(),
        ensures
            final(self).k@ == old(self).k@ + k@,
            final(self).v@ == old(self).v@ + v@,
            final(self).n_kv_heads == old(self).n_kv_heads,
            final(self).head_dim == old(self).head_dim,
            forall|n: int|
                #![trigger old(self).holds_rows(n)]
                old(self).holds_rows(n) ==> final(self).holds_rows(n + 1),
    {
        self.k.extend_from_slice(k);
        self.v.extend_from_slice(v);
        proof {
            assert(self.k@ =~= old(self).k@ + k@);
            assert(self.v@ =~= old(self).v@ + v@);
            let row = old(self).row_len();
            assert forall|n: int| #![trigger old(self).holds_rows(n)] old(self).holds_rows(
                n,
            ) implies self.holds_rows(n + 1) by {
                assert((n + 1) * row == n * row + row) by (nonlinear_arith);
            }
        }
    }
}

impl Gemma4DecodeState {
    /// Whether the state has the caches that the layers read.
    pub fn fits(&self, hp: &Gemma4Hparams) -> (yes: bool)
        ensures
            yes == self.serves(*hp),
    {
        if self.kv.len() != hp.n_layer {
            return false;
        }
        let mut il: usize = 0;
        while il < hp.n_layer
            invariant
                il <= hp.n_layer,
                self.kv@.len() == hp.n_layer,
                forall|i: int|
                    0 <= i < il ==> match #[trigger] self.kv@[i] {
                        Some(c) => hp.keeps_kv(i) && c.n_kv_heads == hp.n_kv_heads && c.head_dim
                            == hp.head_width(i),
                        None => !hp.keeps_kv(i),
                    },
            decreases hp.n_layer - il,
        {
            let right = match &self.kv[il] {
                Some(c) => hp.has_kv(il) && c.n_kv_heads == hp.n_kv_heads && c.head_dim
                    == hp.head_dim(il),
                None => !hp.has_kv(il),
            };
            if !right {
                return false;
            }
            il += 1;
        }
        true
    }

    /// Adds a token's keys and values to the cache of a layer that keeps
    /// one. No other cache changes.
    pub fn push(&mut self, hp: &Gemma4Hparams, il: usize, k: &[u32], v: &[u32])
        requires
            old(self).serves(*hp),
            il < hp.n_layer,
            hp.keeps_kv(il as int),
            k@.len() == hp.n_kv_heads * hp.head_width(il as int),
            v@.len() == hp.n_kv_heads * hp.head_width(il as int),
        ensures
            final(self).serves(*hp),
            final(self).kv@[il as int]->0.k@ == old(self).kv@[il as int]->0.k@ + k@,
            final(self).kv@[il as int]->0.v@ == old(self).kv@[il as int]->0.v@ + v@,
            forall|i: int|
                0 <= i < hp.n_layer && i != il ==> #[trigger] final(self).kv@[i] == old(self).kv@[i],
    {
        let ghost was = self.kv@;
        let slot = self.kv[il].take();
        match slot {
            Some(mut cache) => {
                cache.push(k, v);
                self.kv[il] = Some(cache);
            },
            None => {},
        }
        assert forall|i: int| 0 <= i < hp.n_layer implies match #[trigger] self.kv@[i] {
            Some(c) => hp.keeps_kv(i) && c.n_kv_heads == hp.n_kv_heads && c.head_dim
                == hp.head_width(i),
            None => !hp.keeps_kv(i),
        } by {
            assert(was[i] is Some <==> hp.keeps_kv(i));
        }
    }

    /// The cache that a layer's attention reads.
    pub fn cache(&self, hp: &Gemma4Hparams, il: usize) -> (c: Option<&KvCache>)
        requires
            self.serves(*hp),
            il < hp.n_layer,
            hp.n_layer_kv_from_start <= hp.n_layer,
            !hp.keeps_kv(il as int) ==> hp.reuse(il as int) >= 0,
        ensures
            c is Some,
            *c->0 == self.kv@[hp.cache_layer(il as int)]->0,
    {
        let at = if hp.has_kv(il) {
            il
        } else {
            hp.kv_reuse_layer(il)
        };
        assert(self.kv@[at as int] is Some);
        self.kv[at].as_ref()
    }
}

/// A role that a matrix has in the engine, for the record of kernels.
pub open spec fn layer_roles(w: Gemma4LayerWeights) -> Seq<&'static str> {
    seq!["attn_q"] + (if w.attn.k_proj is Some {
        seq!["attn_k"]
    } else {
        seq![]
    }) + (if w.attn.v_proj is Some {
        seq!["attn_v"]
    } else {
        seq![]
    }) + seq!["attn_o", "ffn_gate", "ffn_up", "ffn_down"] + (if w.per_layer_inp_gate is Some {
        seq!["per_layer_inp_gate"]
    } else {
        seq![]
    }) + (if w.per_layer_proj is Some {
        seq!["per_layer_proj"]
    } else {
        seq![]
    })
}

/// The roles of the matrices of the first `n` layers.
pub open spec fn layers_roles(layers: Seq<Gemma4LayerWeights>, n: int) -> Seq<&'static str>
    decreases n,
{
    if n <= 0 {
        seq![]
    } else {
        layers_roles(layers, n - 1) + layer_roles(layers[n - 1])
    }
}

/// The roles of the engine's matrices, in the order in which their
/// kernels are looked up.
pub open spec fn engine_roles(w: Gemma4Weights) -> Seq<&'static str> {
    seq!["token_embd", "output_head"] + (if w.per_layer_token_embd is Some {
        seq!["per_layer_token_embd"]
    } else {
        seq![]
    }) + (if w.per_layer_model_proj is Some {
        seq!["per_layer_model_proj"]
    } else {
        seq![]
    }) + layers_roles(w.layers@, w.layers@.len() as int)
}

fn push_layer_roles(w: &Gemma4LayerWeights, roles: &mut Vec<&'static str>)
    ensures
        final(roles)@ == old(roles)@ + layer_roles(*w),
{
    roles.push("attn_q");
    if w.attn.k_proj.is_some() {
        roles.push("attn_k");
    }
    if w.attn.v_proj.is_some() {
        roles.push("attn_v");
    }
    roles.push("attn_o");
    roles.push("ffn_gate");
    roles.push("ffn_up");
    roles.push("ffn_down");
    if w.per_layer_inp_gate.is_some() {
        roles.push("per_layer_inp_gate");
    }
    if w.per_layer_proj.is_some() {
        roles.push("per_layer_proj");
    }
    assert(roles@ =~= old(roles)@ + layer_roles(*w));
}

impl Gemma4Engine {
    /// The roles of the engine's matrices, in the order in which their
    /// kernels are looked up.
    pub fn probe_kernels(&self) -> (roles: Vec<&'static str>)
        ensures
            roles@ == engine_roles(self.weights),
    {
        let w = &self.weights;
        let mut roles: Vec<&'static str> = Vec::new();
        roles.push("token_embd");
        roles.push("output_head");
        if w.per_layer_token_embd.is_some() {
            roles.push("per_layer_token_embd");
        }
        if w.per_layer_model_proj.is_some() {
            roles.push("per_layer_model_proj");
        }
        let ghost head = roles@;
        let mut l: usize = 0;
        assert(roles@ =~= head + layers_roles(w.layers@, 0));
        while l < w.layers.len()
            invariant
                l <= w.layers@.len(),
                roles@ == head + layers_roles(w.layers@, l as int),
            decreases w.layers@.len() - l,
        {
            push_layer_roles(&w.layers[l], &mut roles);
            l += 1;
            assert(roles@ =~= head + layers_roles(w.layers@, l as int));
        }
        assert(roles@ =~= engine_roles(*w));
        roles
    }

    /// How many tokens the engine scores.
    pub fn vocab_size(&self) -> (n: usize)
        ensures
            n == self.weights.output_head.n_rows(),
    {
        self.weights.output_head.rows()
    }

    /// The state of a new sequence: an empty cache for each layer that
    /// keeps one.
    pub fn new_state(&self) -> (state: Gemma4DecodeState)
        ensures
            state.serves(self.hp),
            forall|il: int|
                0 <= il < state.kv@.len() ==> match #[trigger] state.kv@[il] {
                    Some(c) => c.k@.len() == 0 && c.v@.len() == 0,
                    None => true,
                },
    {
        let mut kv: Vec<Option<KvCache>> = Vec::new();
        let mut il: usize = 0;
        while il < self.hp.n_layer
            invariant
                il <= self.hp.n_layer,
                kv@.len() == il,
                forall|i: int|
                    0 <= i < il ==> match #[trigger] kv@[i] {
                        Some(c) => {
                            &&& self.hp.keeps_kv(i)
                            &&& c.n_kv_heads == self.hp.n_kv_heads
                            &&& c.head_dim == self.hp.head_width(i)
                            &&& c.k@.len() == 0
                            &&& c.v@.len() == 0
                        },
                        None => !self.hp.keeps_kv(i),
                    },
            decreases self.hp.n_layer - il,
        {
            if self.hp.has_kv(il) {
                kv.push(
                    Some(
                        KvCache {
                            n_kv_heads: self.hp.n_kv_heads,
                            head_dim: self.hp.head_dim(il),
                            k: Vec::new(),
                            v: Vec::new(),
                        },
                    ),
                );
            } else {
                kv.push(None);
            }
            il += 1;
        }
        Gemma4DecodeState { kv }
    }
}

/// Where a layer's keys and values come from.
#[derive(Debug, Clone, Copy, PartialEq, Eq, Structural)]
pub enum KvUse {
    /// The layer projects its own and adds them to its cache; V is its
    /// own projection or the rotated K.
    Own { v_is_k: bool },
    /// The layer reads the cache of another one.
    Reuse { layer: usize },
}

/// What a token's pass does at a layer.
#[derive(Debug, Clone, Copy, PartialEq, Eq, Structural)]
pub struct Gemma4LayerStep {
    pub head_dim: usize,
    /// The rotation base, a bit pattern.
    pub rope_theta: u32,
    /// Whether the rotation takes the frequency factors.
    pub freq_factors: bool,
    pub kv: KvUse,
    /// How many positions attention looks back over; `None` for all.
    pub window: Option<usize>,
    /// Whether the layer adds its per-layer input.
    pub per_layer_input: bool,
    /// What the layer's output is multiplied by, a bit pattern.
    pub out_scale: Option<u32>,
}

impl Gemma4Engine {
    /// Whether the engine computes per-layer inputs at all.
    pub open spec fn has_per_layer_inputs(&self) -> bool {
        &&& self.weights.per_layer_token_embd is Some
        &&& self.weights.per_layer_model_proj is Some
        &&& self.weights.per_layer_proj_norm is Some
    }

    /// What a token's pass does at layer `il`.
    pub open spec fn step_at(&self, il: int) -> Gemma4LayerStep {
        let w = self.weights.layers@[il];
        Gemma4LayerStep {
            head_dim: self.hp.head_width(il),
            rope_theta: if self.hp.swa(il) {
                self.hp.rope_theta_swa
            } else {
                self.hp.rope_theta
            },
            freq_factors: !self.hp.swa(il) && self.weights.rope_freqs is Some,
            kv: if self.hp.keeps_kv(il) {
                KvUse::Own { v_is_k: w.attn.v_proj is None }
            } else {
                KvUse::Reuse { layer: self.hp.reuse(il) as usize }
            },
            window: if self.hp.swa(il) {
                Some(self.hp.sliding_window)
            } else {
                None
            },
            per_layer_input: w.per_layer_inp_gate is Some && w.per_layer_proj is Some
                && w.per_layer_post_norm is Some && self.has_per_layer_inputs(),
            out_scale: w.out_scale,
        }
    }

    /// Whether a token's pass can run: every layer that keeps a cache has
    /// a K projection and its norm, and every other one finds a cache of
    /// its own head width.
    pub open spec fn runnable(&self) -> bool {
        &&& self.weights.layers@.len() == self.hp.n_layer
        &&& forall|il: int|
            0 <= il < self.hp.n_layer ==> if self.hp.keeps_kv(il) {
                (#[trigger] self.weights.layers@[il]).attn.k_proj is Some
                    && self.weights.layers@[il].attn.k_norm is Some
            } else {
                &&& self.hp.reuse(il) >= 0
                &&& self.hp.head_width(self.hp.reuse(il)) == self.hp.head_width(il)
            }
    }
}

impl Gemma4Engine {
    fn runs_layer(&self, il: usize) -> (yes: bool)
        requires
            il < self.weights.layers@.len(),
        ensures
            yes == if self.hp.keeps_kv(il as int) {
                self.weights.layers@[il as int].attn.k_proj is Some
                    && self.weights.layers@[il as int].attn.k_norm is Some
            } else {
                &&& self.hp.reuse(il as int) >= 0
                &&& self.hp.head_width(self.hp.reuse(il as int)) == self.hp.head_width(il as int)
            },
    {
        if self.hp.has_kv(il) {
            let attn = &self.weights.layers[il].attn;
            return attn.k_proj.is_some() && attn.k_norm.is_some();
        }
        let back: usize = if self.hp.is_swa_layer(il) {
            2
        } else {
            1
        };
        self.hp.n_layer_kv_from_start >= back && self.hp.head_dim(
            self.hp.n_layer_kv_from_start - back,
        ) == self.hp.head_dim(il)
    }

    /// Whether a token's pass can run.
    pub fn is_runnable(&self) -> (yes: bool)
        ensures
            yes == self.runnable(),
    {
        if self.weights.layers.len() != self.hp.n_layer {
            return false;
        }
        let mut il: usize = 0;
        while il < self.hp.n_layer
            invariant
                il <= self.hp.n_layer,
                self.weights.layers@.len() == self.hp.n_layer,
                forall|i: int|
                    0 <= i < il ==> if self.hp.keeps_kv(i) {
                        (#[trigger] self.weights.layers@[i]).attn.k_proj is Some
                            && self.weights.layers@[i].attn.k_norm is Some
                    } else {
                        &&& self.hp.reuse(i) >= 0
                        &&& self.hp.head_width(self.hp.reuse(i)) == self.hp.head_width(i)
                    },
            decreases self.hp.n_layer - il,
        {
            if !self.runs_layer(il) {
                return false;
            }
            il += 1;
        }
        true
    }
}

/// What a token's pass does at layer `il`.
pub fn layer_step(engine: &Gemma4Engine, il: usize) -> (step: Gemma4LayerStep)
    requires
        engine.runnable(),
        il < engine.hp.n_layer,
    ensures
        step == engine.step_at(il as int),
        il < engine.hp.is_swa@.len() && engine.hp.is_swa@[il as int] ==> {
            &&& step.rope_theta == engine.hp.rope_theta_swa
            &&& step.head_dim == engine.hp.head_dim_swa
            &&& step.window == Some(engine.hp.sliding_window)
            &&& !step.freq_factors
        },
        !(il < engine.hp.is_swa@.len() && engine.hp.is_swa@[il as int]) ==> {
            &&& step.rope_theta == engine.hp.rope_theta
            &&& step.head_dim == engine.hp.head_dim_full
            &&& step.window is None
            &&& step.freq_factors == (engine.weights.rope_freqs is Some)
        },
        step.out_scale == engine.weights.layers@[il as int].out_scale,
        step.kv is Own <==> il < engine.hp.n_layer_kv_from_start,
{
    let w = &engine.weights.layers[il];
    let swa = engine.hp.is_swa_layer(il);
    let kv = if engine.hp.has_kv(il) {
        KvUse::Own { v_is_k: w.attn.v_proj.is_none() }
    } else {
        assert(engine.weights.layers@[il as int] == *w);
        KvUse::Reuse { layer: engine.hp.kv_reuse_layer(il) }
    };
    Gemma4LayerStep {
        head_dim: engine.hp.head_dim(il),
        rope_theta: engine.hp.rope_theta_for(il),
        freq_factors: !swa && engine.weights.rope_freqs.is_some(),
        kv,
        window: if swa {
            Some(engine.hp.sliding_window)
        } else {
            None
        },
        per_layer_input: w.per_layer_inp_gate.is_some() && w.per_layer_proj.is_some()
            && w.per_layer_post_norm.is_some() && engine.weights.per_layer_token_embd.is_some()
            && engine.weights.per_layer_model_proj.is_some()
            && engine.weights.per_layer_proj_norm.is_some(),
        out_scale: w.out_scale,
    }
}

/// What a token's pass does at every layer, in order.
pub fn token_steps(engine: &Gemma4Engine) -> (steps: Vec<Gemma4LayerStep>)
    requires
        engine.runnable(),
    ensures
        steps@ == Seq::new(engine.hp.n_layer as nat, |il: int| engine.step_at(il)),
        forall|il: int|
            0 <= il < engine.hp.n_layer && il < engine.hp.is_swa@.len() ==> (
            #[trigger] steps@[il]).rope_theta == if engine.hp.is_swa@[il] {
                engine.hp.rope_theta_swa
            } else {
                engine.hp.rope_theta
            },
{
    let mut steps: Vec<Gemma4LayerStep> = Vec::new();
    let mut il: usize = 0;
    while il < engine.hp.n_layer
        invariant
            il <= engine.hp.n_layer,
            engine.runnable(),
            steps@.len() == il,
            forall|i: int| 0 <= i < il ==> #[trigger] steps@[i] == engine.step_at(i),
        decreases engine.hp.n_layer - il,
    {
        steps.push(layer_step(engine, il));
        il += 1;
    }
    assert(steps@ =~= Seq::new(engine.hp.n_layer as nat, |i: int| engine.step_at(i)));
    steps
}

/// A windowed layer's step is of the windowed kind throughout and a full
/// layer's of the full kind: its head width, its rotation base and its
/// window are those declared for its kind, and only a full layer's
/// rotation takes the frequency factors.
pub proof fn a_step_is_of_its_layers_kind(engine: Gemma4Engine, il: int)
    requires
        engine.runnable(),
        0 <= il < engine.hp.n_layer,
        engine.hp.is_swa@.len() == engine.hp.n_layer,
    ensures
        engine.hp.is_swa@[il] ==> {
            let step = engine.step_at(il);
            &&& step.head_dim == engine.hp.head_dim_swa
            &&& step.rope_theta == engine.hp.rope_theta_swa
            &&& step.window == Some(engine.hp.sliding_window)
            &&& !step.freq_factors
        },
        !engine.hp.is_swa@[il] ==> {
            let step = engine.step_at(il);
            &&& step.head_dim == engine.hp.head_dim_full
            &&& step.rope_theta == engine.hp.rope_theta
            &&& step.window is None
            &&& step.freq_factors == (engine.weights.rope_freqs is Some)
        },
{
}

/// Two layers of one kind rotate with the same base, over heads of the
/// same width, and look back equally far.
pub proof fn layers_of_one_kind_step_alike(engine: Gemma4Engine, i: int, j: int)
    requires
        engine.runnable(),
        engine.hp.is_swa@.len() == engine.hp.n_layer,
        0 <= i < engine.hp.n_layer,
        0 <= j < engine.hp.n_layer,
        engine.hp.is_swa@[i] == engine.hp.is_swa@[j],
    ensures
        engine.step_at(i).rope_theta == engine.step_at(j).rope_theta,
        engine.step_at(i).head_dim == engine.step_at(j).head_dim,
        engine.step_at(i).window == engine.step_at(j).window,
        engine.step_at(i).freq_factors == engine.step_at(j).freq_factors,
{
}

/// What is declared for the windowed layers changes no full layer's step:
/// two engines with the same weights, whose hyperparameters differ at
/// most in the windowed layers' rotation base, head width and window,
/// take the same step at every full layer; where they differ in the base
/// alone, their steps at a windowed layer differ in nothing else.
pub proof fn windowed_settings_leave_full_layers_alone(a: Gemma4Engine, b: Gemma4Engine, il: int)
    requires
        a.runnable(),
        b.runnable(),
        a.weights == b.weights,
        a.hp.n_layer == b.hp.n_layer,
        a.hp.is_swa == b.hp.is_swa,
        a.hp.is_swa@.len() == a.hp.n_layer,
        a.hp.head_dim_full == b.hp.head_dim_full,
        a.hp.rope_theta == b.hp.rope_theta,
        a.hp.n_layer_kv_from_start == b.hp.n_layer_kv_from_start,
        0 <= il < a.hp.n_layer,
    ensures
        !a.hp.is_swa@[il] ==> a.step_at(il) == b.step_at(il),
        a.hp.is_swa@[il] && a.hp.head_dim_swa == b.hp.head_dim_swa && a.hp.sliding_window
            == b.hp.sliding_window ==> b.step_at(il) == (Gemma4LayerStep {
            rope_theta: b.hp.rope_theta_swa,
            ..a.step_at(il)
        }),
{
}

/// What is declared for the full layers changes no windowed layer's step.
pub proof fn full_settings_leave_windowed_layers_alone(a: Gemma4Engine, b: Gemma4Engine, il: int)
    requires
        a.runnable(),
        b.runnable(),
        a.weights.layers == b.weights.layers,
        a.weights.per_layer_token_embd == b.weights.per_layer_token_embd,
        a.weights.per_layer_model_proj == b.weights.per_layer_model_proj,
        a.weights.per_layer_proj_norm == b.weights.per_layer_proj_norm,
        a.hp.n_layer == b.hp.n_layer,
        a.hp.is_swa == b.hp.is_swa,
        a.hp.is_swa@.len() == a.hp.n_layer,
        a.hp.head_dim_swa == b.hp.head_dim_swa,
        a.hp.rope_theta_swa == b.hp.rope_theta_swa,
        a.hp.sliding_window == b.hp.sliding_window,
        a.hp.n_layer_kv_from_start == b.hp.n_layer_kv_from_start,
        0 <= il < a.hp.n_layer,
    ensures
        a.hp.is_swa@[il] ==> a.step_at(il) == b.step_at(il),
{
}

/// Where a layer's keys and values come from. The first
/// `n_layer_kv_from_start` layers project their own, with the rotated
/// keys as values where there is no value projection; a later windowed
/// layer reads the last but one of those, a later full layer the last.
pub proof fn keys_and_values_are_own_or_of_the_last_that_keeps_them(engine: Gemma4Engine, il: int)
    requires
        engine.runnable(),
        0 <= il < engine.hp.n_layer,
        engine.hp.is_swa@.len() == engine.hp.n_layer,
    ensures
        il < engine.hp.n_layer_kv_from_start ==> engine.step_at(il).kv == (KvUse::Own {
            v_is_k: engine.weights.layers@[il].attn.v_proj is None,
        }) && engine.weights.layers@[il].attn.k_proj is Some
            && engine.weights.layers@[il].attn.k_norm is Some,
        il >= engine.hp.n_layer_kv_from_start ==> {
            let kv = engine.step_at(il).kv;
            &&& kv is Reuse
            &&& engine.hp.is_swa@[il] ==> kv->layer + 2 == engine.hp.n_layer_kv_from_start
            &&& !engine.hp.is_swa@[il] ==> kv->layer + 1 == engine.hp.n_layer_kv_from_start
        },
{
    let w = engine.weights.layers@[il];
}

/// A layer adds its per-layer input exactly where it has the three
/// weights of its own and the engine the three shared ones that this
/// takes, and its output is scaled by the layer's own scale.
pub proof fn per_layer_inputs_take_six_weights(engine: Gemma4Engine, il: int)
    requires
        engine.runnable(),
        0 <= il < engine.hp.n_layer,
    ensures
        engine.step_at(il).per_layer_input <==> {
            let w = engine.weights.layers@[il];
            &&& w.per_layer_inp_gate is Some
            &&& w.per_layer_proj is Some
            &&& w.per_layer_post_norm is Some
            &&& engine.weights.per_layer_token_embd is Some
            &&& engine.weights.per_layer_model_proj is Some
            &&& engine.weights.per_layer_proj_norm is Some
        },
        engine.step_at(il).out_scale == engine.weights.layers@[il].out_scale,
{
}

/// A layer that reads another one's cache reads one that is already
/// filled for the token, and of its own head width: the layer it reads
/// comes before it, keeps a cache, and every state that serves the model
/// holds that cache.
pub proof fn reused_cache_is_there(engine: Gemma4Engine, state: Gemma4DecodeState, il: int)
    requires
        engine.runnable(),
        state.serves(engine.hp),
        engine.hp.n_layer_kv_from_start <= engine.hp.n_layer,
        0 <= il < engine.hp.n_layer,
        !engine.hp.keeps_kv(il),
    ensures
        engine.step_at(il).kv is Reuse,
        0 <= engine.step_at(il).kv->layer < il,
        engine.hp.keeps_kv(engine.step_at(il).kv->layer as int),
        state.kv@[engine.step_at(il).kv->layer as int] is Some,
        state.kv@[engine.step_at(il).kv->layer as int]->0.head_dim == engine.step_at(il).head_dim,
{
    let source = engine.hp.reuse(il);
    assert(0 <= source < engine.hp.n_layer);
    assert(state.kv@[source] is Some);
}

/// Which cache a layer's attention reads: its own where it keeps one; else
/// that of the last layer that keeps one, or, for a windowed layer, of the
/// last but one. Layers of one kind without a cache read the same one.
pub proof fn which_cache_a_layer_reads(hp: Gemma4Hparams, i: int, j: int)
    requires
        0 <= i < hp.is_swa@.len(),
        0 <= j < hp.is_swa@.len(),
    ensures
        i < hp.n_layer_kv_from_start ==> hp.keeps_kv(i) && hp.cache_layer(i) == i,
        i >= hp.n_layer_kv_from_start ==> {
            &&& !hp.keeps_kv(i)
            &&& hp.is_swa@[i] ==> hp.cache_layer(i) == hp.n_layer_kv_from_start - 2
            &&& !hp.is_swa@[i] ==> hp.cache_layer(i) == hp.n_layer_kv_from_start - 1
        },
        i >= hp.n_layer_kv_from_start && j >= hp.n_layer_kv_from_start && hp.is_swa@[i]
            == hp.is_swa@[j] ==> hp.cache_layer(i) == hp.cache_layer(j),
        hp.swa(i) == hp.is_swa@[i],
        !hp.swa(hp.is_swa@.len() as int),
        hp.is_swa@[i] ==> hp.head_width(i) == hp.head_dim_swa,
        !hp.is_swa@[i] ==> hp.head_width(i) == hp.head_dim_full,
{
}

/// Which matrices are asked for a kernel: the embedding and the output
/// head, the tables of the per-layer input as far as they are there, and
/// then each layer's, layer by layer.
pub proof fn which_matrices_need_a_kernel(w: Gemma4Weights, x: Gemma4LayerWeights, n: int)
    requires
        0 <= n < w.layers@.len(),
    ensures
        engine_roles(w) == (seq!["token_embd", "output_head"] + (
        if w.per_layer_token_embd is Some {
            seq!["per_layer_token_embd"]
        } else {
            Seq::<&'static str>::empty()
        }) + (if w.per_layer_model_proj is Some {
            seq!["per_layer_model_proj"]
        } else {
            Seq::<&'static str>::empty()
        })) + layers_roles(w.layers@, w.layers@.len() as int),
        layers_roles(w.layers@, 0).len() == 0,
        layers_roles(w.layers@, n + 1) == layers_roles(w.layers@, n) + layer_roles(w.layers@[n]),
        layer_roles(x).contains("attn_q"),
        layer_roles(x).len() == 5 + (if x.attn.k_proj is Some {
            1int
        } else {
            0
        }) + (if x.attn.v_proj is Some {
            1int
        } else {
            0
        }) + (if x.per_layer_inp_gate is Some {
            1int
        } else {
            0
        }) + (if x.per_layer_proj is Some {
            1int
        } else {
            0
        }),
        x.attn.k_proj is Some && x.attn.v_proj is Some && x.per_layer_inp_gate is Some
            && x.per_layer_proj is Some ==> layer_roles(x) == seq![
            "attn_q",
            "attn_k",
            "attn_v",
            "attn_o",
            "ffn_gate",
            "ffn_up",
            "ffn_down",
            "per_layer_inp_gate",
            "per_layer_proj",
        ],
        x.attn.k_proj is None && x.attn.v_proj is None && x.per_layer_inp_gate is None
            && x.per_layer_proj is None ==> layer_roles(x) == seq![
            "attn_q",
            "attn_o",
            "ffn_gate",
            "ffn_up",
            "ffn_down",
        ],
{
    assert(layer_roles(x)[0] == "attn_q");
}

/// A cache of `n` rows holds `n` times one head width for each K/V head,
/// of keys and of values alike.
pub proof fn what_a_cache_of_rows_holds(c: KvCache, n: int)
    ensures
        c.holds_rows(n) <==> c.k@.len() == n * (c.n_kv_heads * c.head_dim) && c.v@.len() == n * (
        c.n_kv_heads * c.head_dim),
        c.row_len() == c.n_kv_heads * c.head_dim,
{
}

} // verus!
