//! Loading a Qwen3.5 or Qwen3-Next file: which of its layers are gated
//! delta nets (GDN) and which are full attention, and the weights of a
//! GDN layer.
//!
//! A whole engine is not assembled: [`try_load`] reads and checks what
//! the file holds and then always refuses, naming what is missing.

use crate::gguf::{
    f32_or, larger, missing_u64, u64_or, GgufFile, ARCH_KEY, EPS_1E_6, THETA_1E4,
};
use crate::load_error::{GgufError, LoadError, LoadFault};
use crate::mtp_blocks::{trunk_fault, trunk_layers, trunk_of};
use crate::text::{
    arch_key, arch_key_text, block_name, block_name_text, contains_name, decimal, decimal_text,
    has_name, str_eq,
};
use crate::weights::{
    first_fault, load_f32_vec, load_weight_matrix, matrix_fault, vector_fault, vector_of,
    WeightMatrix,
};
use vstd::prelude::*;
use vstd::string::StringExecFns;

verus! {

/// The architectures this loader accepts.
pub const HYBRID_GDN_ARCHES: [&'static str; 3] = ["qwen35", "qwen35moe", "qwen3next"];

/// Hyperparameters read from the `{arch}.*` metadata. The two floats are
/// bit patterns.
#[derive(Debug)]
pub struct HybridHparams {
    pub arch: String,
    pub n_layer: usize,
    pub hidden_dim: usize,
    pub ffn_dim: usize,
    pub n_heads: usize,
    pub n_kv_heads: usize,
    pub head_dim: usize,
    pub rms_norm_eps: u32,
    pub rope_theta: u32,
    /// The width of the depthwise convolution.
    pub ssm_conv_kernel: usize,
    /// The whole V width: V heads times V head width.
    pub ssm_inner_size: usize,
    /// The K head width.
    pub ssm_state_size: usize,
    /// The number of V heads.
    pub ssm_time_step_rank: usize,
    /// The number of K heads.
    pub ssm_group_count: usize,
    /// Every how many layers attention is full, where the file does not
    /// say which layers are recurrent.
    pub full_attention_interval: usize,
    pub n_expert: usize,
}

/// What a layer's tensors make it.
#[derive(Debug, Clone, Copy, PartialEq, Eq, Structural)]
pub enum HybridLayerKind {
    /// A gated delta net.
    Gdn,
    /// Full attention.
    FullAttn,
}

/// The first key that every file must hold and this one lacks.
pub open spec fn required_fault(file: GgufFile, arch: Seq<char>) -> Option<LoadFault> {
    first_fault(
        missing_u64(file, arch_key(arch, "embedding_length"@)),
        first_fault(
            missing_u64(file, arch_key(arch, "feed_forward_length"@)),
            first_fault(
                missing_u64(file, arch_key(arch, "attention.head_count"@)),
                first_fault(
                    missing_u64(file, arch_key(arch, "ssm.conv_kernel"@)),
                    first_fault(
                        missing_u64(file, arch_key(arch, "ssm.inner_size"@)),
                        first_fault(
                            missing_u64(file, arch_key(arch, "ssm.state_size"@)),
                            first_fault(
                                missing_u64(file, arch_key(arch, "ssm.time_step_rank"@)),
                                missing_u64(file, arch_key(arch, "ssm.group_count"@)),
                            ),
                        ),
                    ),
                ),
            ),
        ),
    )
}

/// Why a file is refused before any tensor is read.
pub open spec fn hybrid_fault(file: GgufFile) -> Option<LoadFault> {
    match file.meta_str(ARCH_KEY@) {
        None => Some(LoadFault::MissingHparam(ARCH_KEY@)),
        Some(arch) => if !has_name(HYBRID_GDN_ARCHES@, arch) {
            Some(LoadFault::UnsupportedArchitecture(arch))
        } else {
            first_fault(
                missing_u64(file, arch_key(arch, "block_count"@)),
                first_fault(
                    trunk_fault(
                        file,
                        arch,
                        file.meta_u64(arch_key(arch, "block_count"@))->0 as usize,
                    ),
                    required_fault(file, arch),
                ),
            )
        },
    }
}

/// What the hyperparameters of a file that is not refused are.
pub open spec fn hybrid_hparams_are(file: GgufFile, hp: HybridHparams) -> bool {
    let arch = hp.arch@;
    &&& file.meta_str(ARCH_KEY@) == Some(arch)
    &&& has_name(HYBRID_GDN_ARCHES@, arch)
    &&& hp.n_layer == trunk_of(
        file,
        arch,
        file.meta_u64(arch_key(arch, "block_count"@))->0 as usize,
    ).n_layers
    &&& hp.hidden_dim == file.meta_u64(arch_key(arch, "embedding_length"@))->0 as usize
    &&& hp.ffn_dim == file.meta_u64(arch_key(arch, "feed_forward_length"@))->0 as usize
    &&& hp.n_heads == file.meta_u64(arch_key(arch, "attention.head_count"@))->0 as usize
    &&& hp.n_kv_heads == u64_or(
        file.meta_u64(arch_key(arch, "attention.head_count_kv"@)),
        hp.n_heads as int,
    )
    &&& hp.head_dim == u64_or(
        file.meta_u64(arch_key(arch, "attention.key_length"@)),
        (hp.hidden_dim / larger(hp.n_heads, 1)) as int,
    )
    &&& hp.rms_norm_eps == f32_or(
        file.meta_f32(arch_key(arch, "attention.layer_norm_rms_epsilon"@)),
        EPS_1E_6,
    )
    &&& hp.rope_theta == f32_or(file.meta_f32(arch_key(arch, "rope.freq_base"@)), THETA_1E4)
    &&& hp.ssm_conv_kernel == file.meta_u64(arch_key(arch, "ssm.conv_kernel"@))->0 as usize
    &&& hp.ssm_inner_size == file.meta_u64(arch_key(arch, "ssm.inner_size"@))->0 as usize
    &&& hp.ssm_state_size == file.meta_u64(arch_key(arch, "ssm.state_size"@))->0 as usize
    &&& hp.ssm_time_step_rank == file.meta_u64(arch_key(arch, "ssm.time_step_rank"@))->0 as usize
    &&& hp.ssm_group_count == file.meta_u64(arch_key(arch, "ssm.group_count"@))->0 as usize
    &&& hp.full_attention_interval == u64_or(
        file.meta_u64(arch_key(arch, "full_attention_interval"@)),
        4,
    )
    &&& hp.n_expert == u64_or(file.meta_u64(arch_key(arch, "expert_count"@)), 0)
}

/// Reads the hyperparameters of a hybrid file.
pub fn read_hybrid_hparams(file: &GgufFile) -> (hp: Result<HybridHparams, LoadError>)
    ensures
        match hybrid_fault(*file) {
            Some(fault) => hp is Err && hp->Err_0@ == fault,
            None => hp is Ok && hybrid_hparams_are(*file, hp->Ok_0),
        },
{
    let arch = file.required_str(ARCH_KEY)?;
    if !contains_name(&HYBRID_GDN_ARCHES, arch) {
        return Err(LoadError::UnsupportedArchitecture(String::from_str(arch)));
    }
    let block_count = file.required_u64(arch_key_text(arch, "block_count").as_str())?;
    let trunk = trunk_layers(file, arch, block_count as usize)?;
    let hidden = file.required_u64(arch_key_text(arch, "embedding_length").as_str())?;
    let ffn = file.required_u64(arch_key_text(arch, "feed_forward_length").as_str())?;
    let heads = file.required_u64(arch_key_text(arch, "attention.head_count").as_str())?;
    let hidden_dim: usize = hidden as usize;
    let n_heads: usize = heads as usize;
    let n_kv_heads = file.usize_or(
        arch_key_text(arch, "attention.head_count_kv").as_str(),
        n_heads,
    );
    let divisor: usize = if n_heads >= 1 {
        n_heads
    } else {
        1
    };
    let head_dim = file.usize_or(
        arch_key_text(arch, "attention.key_length").as_str(),
        hidden_dim / divisor,
    );
    let conv_kernel = file.required_u64(arch_key_text(arch, "ssm.conv_kernel").as_str())?;
    let inner_size = file.required_u64(arch_key_text(arch, "ssm.inner_size").as_str())?;
    let state_size = file.required_u64(arch_key_text(arch, "ssm.state_size").as_str())?;
    let time_step_rank = file.required_u64(arch_key_text(arch, "ssm.time_step_rank").as_str())?;
    let group_count = file.required_u64(arch_key_text(arch, "ssm.group_count").as_str())?;
    let full_attention_interval = file.usize_or(
        arch_key_text(arch, "full_attention_interval").as_str(),
        4,
    );
    let n_expert = file.usize_or(arch_key_text(arch, "expert_count").as_str(), 0);
    let rms_norm_eps = file.bits_or(
        arch_key_text(arch, "attention.layer_norm_rms_epsilon").as_str(),
        EPS_1E_6,
    );
    let rope_theta = file.bits_or(arch_key_text(arch, "rope.freq_base").as_str(), THETA_1E4);
    Ok(
        HybridHparams {
            arch: String::from_str(arch),
            n_layer: trunk.n_layers,
            hidden_dim,
            ffn_dim: ffn as usize,
            n_heads,
            n_kv_heads,
            head_dim,
            rms_norm_eps,
            rope_theta,
            ssm_conv_kernel: conv_kernel as usize,
            ssm_inner_size: inner_size as usize,
            ssm_state_size: state_size as usize,
            ssm_time_step_rank: time_step_rank as usize,
            ssm_group_count: group_count as usize,
            full_attention_interval,
            n_expert,
        },
    )
}

/// The refusal of a layer that is neither kind, round its number.
pub const NEITHER_KIND: [&'static str; 2] = [
    "blk.",
    ": neither GDN (ssm_conv1d / attn_qkv+ssm_a) nor full-attn (attn_q) tensors found",
];

/// What a layer's tensors make it: a gated delta net with a convolution,
/// or with a fused projection and a decay; full attention with a Q
/// projection; otherwise nothing.
pub open spec fn layer_kind(file: GgufFile, l: nat) -> Option<HybridLayerKind> {
    if file.has(block_name(l, "ssm_conv1d.weight"@)) || (file.has(
        block_name(l, "attn_qkv.weight"@),
    ) && file.has(block_name(l, "ssm_a"@))) {
        Some(HybridLayerKind::Gdn)
    } else if file.has(block_name(l, "attn_q.weight"@)) {
        Some(HybridLayerKind::FullAttn)
    } else {
        None
    }
}

/// The refusal of a layer that is neither kind.
pub open spec fn neither_kind(l: nat) -> LoadFault {
    LoadFault::TensorNotFound(NEITHER_KIND@[0]@ + decimal(l) + NEITHER_KIND@[1]@)
}

/// Tells a layer's kind from the tensors the file has.
pub fn detect_layer_kind(file: &GgufFile, layer_idx: usize) -> (kind: Result<
    HybridLayerKind,
    LoadError,
>)
    ensures
        match layer_kind(*file, layer_idx as nat) {
            Some(k) => kind is Ok && kind->Ok_0 == k,
            None => kind is Err && kind->Err_0@ == neither_kind(layer_idx as nat),
        },
{
    let l = layer_idx;
    let has_conv = file.has_tensor(block_name_text(l, "ssm_conv1d.weight").as_str());
    let has_qkv = file.has_tensor(block_name_text(l, "attn_qkv.weight").as_str());
    let has_ssm_a = file.has_tensor(block_name_text(l, "ssm_a").as_str());
    let has_attn_q = file.has_tensor(block_name_text(l, "attn_q.weight").as_str());
    if has_conv || (has_qkv && has_ssm_a) {
        return Ok(HybridLayerKind::Gdn);
    }
    if has_attn_q {
        return Ok(HybridLayerKind::FullAttn);
    }
    Err(
        LoadError::Gguf(
            GgufError::TensorNotFound(
                String::from_str(NEITHER_KIND[0]).concat(decimal_text(l as u64).as_str()).concat(
                    NEITHER_KIND[1],
                ),
            ),
        ),
    )
}

/// The first layer below `n` that is neither kind.
pub open spec fn first_unknown_layer(file: GgufFile, n: nat) -> Option<nat>
    decreases n,
{
    if n == 0 {
        None
    } else {
        match first_unknown_layer(file, (n - 1) as nat) {
            Some(l) => Some(l),
            None => if layer_kind(file, (n - 1) as nat) is None {
                Some((n - 1) as nat)
            } else {
                None
            },
        }
    }
}

proof fn first_unknown_stays(file: GgufFile, k: nat, n: nat)
    requires
        k <= n,
        first_unknown_layer(file, k) is Some,
    ensures
        first_unknown_layer(file, n) == first_unknown_layer(file, k),
    decreases n,
{
    if k < n {
        first_unknown_stays(file, k, (n - 1) as nat);
    }
}

/// The kinds of the first `n` layers.
pub open spec fn kinds_are(file: GgufFile, n: nat, kinds: Seq<HybridLayerKind>) -> bool {
    &&& kinds.len() == n
    &&& forall|l: int| 0 <= l < n ==> layer_kind(file, l as nat) == Some(#[trigger] kinds[l])
}

/// Tells the kind of every trunk layer.
pub fn classify_layers(file: &GgufFile, hp: &HybridHparams) -> (kinds: Result<
    Vec<HybridLayerKind>,
    LoadError,
>)
    ensures
        match first_unknown_layer(*file, hp.n_layer as nat) {
            Some(l) => kinds is Err && kinds->Err_0@ == neither_kind(l),
            None => kinds is Ok && kinds_are(*file, hp.n_layer as nat, kinds->Ok_0@),
        },
{
    let mut out: Vec<HybridLayerKind> = Vec::new();
    let mut i: usize = 0;
    while i < hp.n_layer
        invariant
            i <= hp.n_layer,
            kinds_are(*file, i as nat, out@),
            first_unknown_layer(*file, i as nat) is None,
        decreases hp.n_layer - i,
    {
        match detect_layer_kind(file, i) {
            Ok(kind) => out.push(kind),
            Err(e) => {
                proof {
                    assert(first_unknown_layer(*file, (i + 1) as nat) == Some(i as nat));
                    first_unknown_stays(*file, (i + 1) as nat, hp.n_layer as nat);
                }
                return Err(e);
            },
        }
        i += 1;
    }
    Ok(out)
}

/// The geometry of a gated delta net.
#[derive(Debug, Clone, Copy, PartialEq, Eq, Structural)]
pub struct GdnConfig {
    pub hidden_dim: usize,
    pub num_key_heads: usize,
    pub num_value_heads: usize,
    pub key_head_dim: usize,
    pub value_head_dim: usize,
    pub conv_kernel_size: usize,
    /// A bit pattern.
    pub rms_norm_eps: u32,
}

impl GdnConfig {
    /// V heads are a whole multiple of K heads, and there is at least one
    /// of each.
    pub open spec fn well_formed(&self) -> bool {
        &&& self.num_key_heads > 0
        &&& self.num_value_heads > 0
        &&& self.num_value_heads % self.num_key_heads == 0
    }

    pub open spec fn key_width(&self) -> int {
        self.num_key_heads * self.key_head_dim
    }

    pub open spec fn value_width(&self) -> int {
        self.num_value_heads * self.value_head_dim
    }

    /// The width of the fused projection: Q and K, then V.
    pub open spec fn qkv_width(&self) -> int {
        2 * self.key_width() + self.value_width()
    }

    proof fn parts_fit(&self)
        requires
            self.qkv_width() <= usize::MAX,
        ensures
            0 <= self.key_width() <= usize::MAX,
            0 <= self.value_width() <= usize::MAX,
            2 * self.key_width() <= usize::MAX,
    {
        assert(self.key_width() >= 0) by (nonlinear_arith)
            requires
                self.key_width() == self.num_key_heads * self.key_head_dim,
        ;
        assert(self.value_width() >= 0) by (nonlinear_arith)
            requires
                self.value_width() == self.num_value_heads * self.value_head_dim,
        ;
    }

    /// The width of all K heads.
    pub fn key_dim(&self) -> (n: usize)
        requires
            self.key_width() <= usize::MAX,
        ensures
            n == self.key_width(),
    {
        self.num_key_heads * self.key_head_dim
    }

    /// The width of all V heads.
    pub fn value_dim(&self) -> (n: usize)
        requires
            self.value_width() <= usize::MAX,
        ensures
            n == self.value_width(),
    {
        self.num_value_heads * self.value_head_dim
    }

    /// The width of the fused projection.
    pub fn qkv_dim(&self) -> (n: usize)
        requires
            self.qkv_width() <= usize::MAX,
        ensures
            n == self.qkv_width(),
    {
        proof {
            self.parts_fit();
        }
        2 * self.key_dim() + self.value_dim()
    }

    /// How many V heads share one K head.
    pub fn heads_per_key_group(&self) -> (n: usize)
        requires
            self.well_formed(),
        ensures
            n * self.num_key_heads == self.num_value_heads,
            n > 0,
    {
        let n: usize = self.num_value_heads / self.num_key_heads;
        proof {
            let v = self.num_value_heads as int;
            let k = self.num_key_heads as int;
            vstd::arithmetic::div_mod::lemma_fundamental_div_mod(v, k);
            assert(n * k == v) by (nonlinear_arith)
                requires
                    v == k * (v / k) + v % k,
                    v % k == 0,
                    n == v / k,
            ;
            assert(n > 0) by (nonlinear_arith)
                requires
                    n * k == v,
                    v > 0,
                    k > 0,
                    n >= 0,
            ;
        }
        n
    }
}

/// The refusal of a geometry without heads, round the two counts.
pub const NO_HEADS: [&'static str; 3] = [
    "GDN head counts must be non-zero (ssm.group_count=",
    ", ssm.time_step_rank=",
    ")",
];

/// The refusal of V heads that do not share out over the K heads, round
/// the two counts.
pub const UNEVEN_HEADS: [&'static str; 3] = [
    "GDN V heads (",
    ", ssm.time_step_rank) must be a whole multiple of K heads (",
    ", ssm.group_count) — repeat_interleave has no integer replication factor otherwise",
];

/// The refusal of a V width that does not share out over the V heads,
/// round the width and the count.
pub const UNEVEN_WIDTH: [&'static str; 3] = [
    "cannot derive GDN value_head_dim: ssm.inner_size=",
    " is not a positive multiple of ssm.time_step_rank=",
    " (inner_size must be the total V width, num_value_heads × value_head_dim)",
];

/// Why the declared geometry is refused.
pub open spec fn geometry_fault(hp: HybridHparams) -> Option<LoadFault> {
    let v = hp.ssm_time_step_rank;
    let k = hp.ssm_group_count;
    if k == 0 || v == 0 {
        Some(
            LoadFault::UnsupportedFeature(
                hp.arch@,
                NO_HEADS@[0]@ + decimal(k as nat) + NO_HEADS@[1]@ + decimal(v as nat)
                    + NO_HEADS@[2]@,
            ),
        )
    } else if v % k != 0 {
        Some(
            LoadFault::UnsupportedFeature(
                hp.arch@,
                UNEVEN_HEADS@[0]@ + decimal(v as nat) + UNEVEN_HEADS@[1]@ + decimal(k as nat)
                    + UNEVEN_HEADS@[2]@,
            ),
        )
    } else if hp.ssm_inner_size == 0 || hp.ssm_inner_size % v != 0 {
        Some(
            LoadFault::UnsupportedFeature(
                hp.arch@,
                UNEVEN_WIDTH@[0]@ + decimal(hp.ssm_inner_size as nat) + UNEVEN_WIDTH@[1]@
                    + decimal(v as nat) + UNEVEN_WIDTH@[2]@,
            ),
        )
    } else {
        None
    }
}

/// The geometry that the hyperparameters declare: the V head width is
/// the V width shared out over the V heads.
pub open spec fn config_of(hp: HybridHparams) -> GdnConfig {
    GdnConfig {
        hidden_dim: hp.hidden_dim,
        num_key_heads: hp.ssm_group_count,
        num_value_heads: hp.ssm_time_step_rank,
        key_head_dim: hp.ssm_state_size,
        value_head_dim: hp.ssm_inner_size / hp.ssm_time_step_rank,
        conv_kernel_size: hp.ssm_conv_kernel,
        rms_norm_eps: hp.rms_norm_eps,
    }
}

/// Derives the geometry from the hyperparameters.
pub fn gdn_config_from_hparams(hp: &HybridHparams) -> (cfg: Result<GdnConfig, LoadError>)
    ensures
        match geometry_fault(*hp) {
            Some(fault) => cfg is Err && cfg->Err_0@ == fault,
            None => {
                &&& cfg is Ok
                &&& cfg->Ok_0 == config_of(*hp)
                &&& cfg->Ok_0.well_formed()
                &&& cfg->Ok_0.value_width() == hp.ssm_inner_size
            },
        },
{
    let v = hp.ssm_time_step_rank;
    let k = hp.ssm_group_count;
    if k == 0 || v == 0 {
        return Err(
            LoadError::UnsupportedFeature(
                String::from_str(hp.arch.as_str()),
                String::from_str(NO_HEADS[0]).concat(decimal_text(k as u64).as_str()).concat(
                    NO_HEADS[1],
                ).concat(decimal_text(v as u64).as_str()).concat(NO_HEADS[2]),
            ),
        );
    }
    if v % k != 0 {
        return Err(
            LoadError::UnsupportedFeature(
                String::from_str(hp.arch.as_str()),
                String::from_str(UNEVEN_HEADS[0]).concat(decimal_text(v as u64).as_str()).concat(
                    UNEVEN_HEADS[1],
                ).concat(decimal_text(k as u64).as_str()).concat(UNEVEN_HEADS[2]),
            ),
        );
    }
    if hp.ssm_inner_size == 0 || hp.ssm_inner_size % v != 0 {
        return Err(
            LoadError::UnsupportedFeature(
                String::from_str(hp.arch.as_str()),
                String::from_str(UNEVEN_WIDTH[0]).concat(
                    decimal_text(hp.ssm_inner_size as u64).as_str(),
                ).concat(UNEVEN_WIDTH[1]).concat(decimal_text(v as u64).as_str()).concat(
                    UNEVEN_WIDTH[2],
                ),
            ),
        );
    }
    let cfg = GdnConfig {
        hidden_dim: hp.hidden_dim,
        num_key_heads: k,
        num_value_heads: v,
        key_head_dim: hp.ssm_state_size,
        value_head_dim: hp.ssm_inner_size / v,
        conv_kernel_size: hp.ssm_conv_kernel,
        rms_norm_eps: hp.rms_norm_eps,
    };
    proof {
        let inner = hp.ssm_inner_size as int;
        vstd::arithmetic::div_mod::lemma_fundamental_div_mod(inner, v as int);
        assert(cfg.value_width() == inner);
    }
    Ok(cfg)
}

/// The weights of a GDN layer; the vectors are bit patterns.
#[derive(Debug)]
pub struct GdnWeights {
    pub attn_qkv: WeightMatrix,
    pub attn_gate: WeightMatrix,
    pub ssm_conv1d: Vec<u32>,
    pub ssm_dt: Vec<u32>,
    pub ssm_a: Vec<u32>,
    pub ssm_beta: WeightMatrix,
    pub ssm_alpha: WeightMatrix,
    pub ssm_norm: Vec<u32>,
    pub ssm_out: WeightMatrix,
}

/// Between the names of tensors of which one is wanted.
pub const OR: &'static str = " | ";

/// Why neither of two tensors can be read: the first the file has counts.
pub open spec fn either_vector_fault(file: GgufFile, a: Seq<char>, b: Seq<char>) -> Option<
    LoadFault,
> {
    if file.has(a) {
        vector_fault(file, a)
    } else if file.has(b) {
        vector_fault(file, b)
    } else {
        Some(LoadFault::TensorNotFound(a + OR@ + b))
    }
}

/// The first of two tensors that the file has.
pub open spec fn either_name(file: GgufFile, a: Seq<char>, b: Seq<char>) -> Seq<char> {
    if file.has(a) {
        a
    } else {
        b
    }
}

/// Reads the first of two tensors that the file has, with its name.
pub fn load_f32_vec_first_of(file: &GgufFile, a: &str, b: &str) -> (v: Result<
    (String, Vec<u32>),
    LoadError,
>)
    ensures
        match either_vector_fault(*file, a@, b@) {
            Some(fault) => v is Err && v->Err_0@ == fault,
            None => {
                &&& v is Ok
                &&& v->Ok_0.0@ == either_name(*file, a@, b@)
                &&& v->Ok_0.1@ == vector_of(*file, either_name(*file, a@, b@))
            },
        },
{
    if file.has_tensor(a) {
        let v = load_f32_vec(file, a)?;
        return Ok((String::from_str(a), v));
    }
    if file.has_tensor(b) {
        let v = load_f32_vec(file, b)?;
        return Ok((String::from_str(b), v));
    }
    Err(LoadError::Gguf(GgufError::TensorNotFound(String::from_str(a).concat(OR).concat(b))))
}

/// The refusal of a full-attention layer, round its number.
pub const NOT_GDN: [&'static str; 2] = [
    "blk.",
    " is FullAttn, not GDN — cannot load into GdnWeights",
];

/// The refusal of per-head vectors of another length, round the layer,
/// the two lengths and the V head count.
pub const HEAD_VECTORS: [&'static str; 4] = [
    "blk.",
    " ssm_dt/ssm_a length mismatch: dt=",
    ", a=",
    ", num_value_heads=",
];

/// The refusal of a norm of another length, round the layer, the length,
/// the V head width and what it was derived from.
pub const NORM_LENGTH: [&'static str; 6] = [
    "blk.",
    ".ssm_norm.weight has ",
    " elements, expected value_head_dim=",
    " (derived as ssm.inner_size=",
    " / ssm.time_step_rank=",
    ")",
];

/// The refusal of projections of another height, round the layer, the
/// heights found and expected, and the geometry.
pub const PROJECTIONS: [&'static str; 9] = [
    "blk.",
    " projection geometry mismatch: attn_qkv has ",
    " rows (expected 2*key_dim + value_dim = ",
    "), attn_gate has ",
    " rows (expected value_dim=",
    "); K heads=",
    ", V heads=",
    ", key_head_dim=",
    ", value_head_dim=",
];

/// The refusal of a convolution of another length, round the layer, the
/// lengths found and expected, and the two widths.
pub const CONV_LENGTH: [&'static str; 6] = [
    "blk.",
    ".ssm_conv1d.weight has ",
    " elements, expected ",
    " (qkv_dim=",
    " × kernel=",
    ")",
];

/// The first tensor of a GDN layer that cannot be read.
pub open spec fn gdn_tensors_fault(file: GgufFile, l: nat) -> Option<LoadFault> {
    first_fault(
        matrix_fault(file, block_name(l, "attn_qkv.weight"@)),
        first_fault(
            matrix_fault(file, block_name(l, "attn_gate.weight"@)),
            first_fault(
                vector_fault(file, block_name(l, "ssm_conv1d.weight"@)),
                first_fault(
                    either_vector_fault(
                        file,
                        block_name(l, "ssm_dt.bias"@),
                        block_name(l, "ssm_dt"@),
                    ),
                    first_fault(
                        vector_fault(file, block_name(l, "ssm_a"@)),
                        first_fault(
                            matrix_fault(file, block_name(l, "ssm_beta.weight"@)),
                            first_fault(
                                matrix_fault(file, block_name(l, "ssm_alpha.weight"@)),
                                first_fault(
                                    vector_fault(file, block_name(l, "ssm_norm.weight"@)),
                                    matrix_fault(file, block_name(l, "ssm_out.weight"@)),
                                ),
                            ),
                        ),
                    ),
                ),
            ),
        ),
    )
}

/// What the weights of a GDN layer are.
pub open spec fn gdn_weights_are(file: GgufFile, l: nat, w: GdnWeights) -> bool {
    &&& w.attn_qkv.is_tensor(file, block_name(l, "attn_qkv.weight"@))
    &&& w.attn_gate.is_tensor(file, block_name(l, "attn_gate.weight"@))
    &&& w.ssm_conv1d@ == vector_of(file, block_name(l, "ssm_conv1d.weight"@))
    &&& w.ssm_dt@ == vector_of(
        file,
        either_name(file, block_name(l, "ssm_dt.bias"@), block_name(l, "ssm_dt"@)),
    )
    &&& w.ssm_a@ == vector_of(file, block_name(l, "ssm_a"@))
    &&& w.ssm_beta.is_tensor(file, block_name(l, "ssm_beta.weight"@))
    &&& w.ssm_alpha.is_tensor(file, block_name(l, "ssm_alpha.weight"@))
    &&& w.ssm_norm@ == vector_of(file, block_name(l, "ssm_norm.weight"@))
    &&& w.ssm_out.is_tensor(file, block_name(l, "ssm_out.weight"@))
}

/// The lengths and heights of a GDN layer's tensors that its geometry
/// fixes.
pub struct GdnSizes {
    pub dt: nat,
    pub a: nat,
    pub norm: nat,
    pub qkv_rows: usize,
    pub gate_rows: usize,
    pub conv: nat,
}

/// The sizes found in a file.
pub open spec fn sizes_of(file: GgufFile, l: nat) -> GdnSizes {
    GdnSizes {
        dt: vector_of(
            file,
            either_name(file, block_name(l, "ssm_dt.bias"@), block_name(l, "ssm_dt"@)),
        ).len(),
        a: vector_of(file, block_name(l, "ssm_a"@)).len(),
        norm: vector_of(file, block_name(l, "ssm_norm.weight"@)).len(),
        qkv_rows: file.tensor(block_name(l, "attn_qkv.weight"@))->0.shape@[1] as usize,
        gate_rows: file.tensor(block_name(l, "attn_gate.weight"@))->0.shape@[1] as usize,
        conv: vector_of(file, block_name(l, "ssm_conv1d.weight"@)).len(),
    }
}

/// Why the heads or the projections of these sizes do not fit the
/// geometry. The head counts are checked before the projections.
pub open spec fn heads_fault(hp: HybridHparams, l: nat, s: GdnSizes) -> Option<LoadFault> {
    let cfg = config_of(hp);
    if s.dt != cfg.num_value_heads || s.a != cfg.num_value_heads {
        Some(
            LoadFault::UnsupportedFeature(
                hp.arch@,
                HEAD_VECTORS@[0]@ + decimal(l) + HEAD_VECTORS@[1]@ + decimal(s.dt)
                    + HEAD_VECTORS@[2]@ + decimal(s.a) + HEAD_VECTORS@[3]@ + decimal(
                    cfg.num_value_heads as nat,
                ),
            ),
        )
    } else if s.norm != cfg.value_head_dim {
        Some(
            LoadFault::UnsupportedFeature(
                hp.arch@,
                NORM_LENGTH@[0]@ + decimal(l) + NORM_LENGTH@[1]@ + decimal(s.norm)
                    + NORM_LENGTH@[2]@ + decimal(cfg.value_head_dim as nat) + NORM_LENGTH@[3]@
                    + decimal(hp.ssm_inner_size as nat) + NORM_LENGTH@[4]@ + decimal(
                    hp.ssm_time_step_rank as nat,
                ) + NORM_LENGTH@[5]@,
            ),
        )
    } else if s.qkv_rows != cfg.qkv_width() || s.gate_rows != cfg.value_width() {
        Some(
            LoadFault::UnsupportedFeature(
                hp.arch@,
                PROJECTIONS@[0]@ + decimal(l) + PROJECTIONS@[1]@ + decimal(s.qkv_rows as nat)
                    + PROJECTIONS@[2]@ + decimal(cfg.qkv_width() as nat) + PROJECTIONS@[3]@
                    + decimal(s.gate_rows as nat) + PROJECTIONS@[4]@ + decimal(
                    cfg.value_width() as nat,
                ) + PROJECTIONS@[5]@ + decimal(cfg.num_key_heads as nat) + PROJECTIONS@[6]@
                    + decimal(cfg.num_value_heads as nat) + PROJECTIONS@[7]@ + decimal(
                    cfg.key_head_dim as nat,
                ) + PROJECTIONS@[8]@ + decimal(cfg.value_head_dim as nat),
            ),
        )
    } else {
        None
    }
}

/// Why a convolution of this size does not fit the geometry.
pub open spec fn conv_fault(hp: HybridHparams, l: nat, s: GdnSizes) -> Option<LoadFault> {
    let cfg = config_of(hp);
    if s.conv != cfg.qkv_width() * cfg.conv_kernel_size {
        Some(
            LoadFault::UnsupportedFeature(
                hp.arch@,
                CONV_LENGTH@[0]@ + decimal(l) + CONV_LENGTH@[1]@ + decimal(s.conv)
                    + CONV_LENGTH@[2]@ + decimal(
                    (cfg.qkv_width() * cfg.conv_kernel_size) as nat,
                ) + CONV_LENGTH@[3]@ + decimal(cfg.qkv_width() as nat) + CONV_LENGTH@[4]@
                    + decimal(cfg.conv_kernel_size as nat) + CONV_LENGTH@[5]@,
            ),
        )
    } else {
        None
    }
}

/// Why tensors of these sizes do not fit the geometry. The convolution
/// is checked last, so that a wrong head width is named as such.
pub open spec fn sizes_fault(hp: HybridHparams, l: nat, s: GdnSizes) -> Option<LoadFault> {
    first_fault(heads_fault(hp, l, s), conv_fault(hp, l, s))
}

/// Whether the widths that a layer's tensors are held against are machine
/// numbers, as far as loading the layer gets to them.
pub open spec fn layer_widths_fit(file: GgufFile, hp: HybridHparams, l: nat) -> bool {
    let cfg = config_of(hp);
    layer_kind(file, l) == Some(HybridLayerKind::Gdn) && geometry_fault(hp) is None
        && gdn_tensors_fault(file, l) is None ==> {
        &&& cfg.qkv_width() <= usize::MAX
        &&& heads_fault(hp, l, sizes_of(file, l)) is None ==> cfg.qkv_width() * cfg.conv_kernel_size
            <= usize::MAX
    }
}

/// Why a GDN layer cannot be loaded.
pub open spec fn gdn_layer_fault(file: GgufFile, hp: HybridHparams, l: nat) -> Option<LoadFault> {
    match layer_kind(file, l) {
        None => Some(neither_kind(l)),
        Some(HybridLayerKind::FullAttn) => Some(
            LoadFault::UnsupportedFeature(hp.arch@, NOT_GDN@[0]@ + decimal(l) + NOT_GDN@[1]@),
        ),
        Some(HybridLayerKind::Gdn) => first_fault(
            geometry_fault(hp),
            first_fault(gdn_tensors_fault(file, l), sizes_fault(hp, l, sizes_of(file, l))),
        ),
    }
}

fn read_gdn_tensors(file: &GgufFile, l: usize) -> (w: Result<GdnWeights, LoadError>)
    ensures
        match gdn_tensors_fault(*file, l as nat) {
            Some(fault) => w is Err && w->Err_0@ == fault,
            None => w is Ok && gdn_weights_are(*file, l as nat, w->Ok_0),
        },
{
    let attn_qkv = load_weight_matrix(file, block_name_text(l, "attn_qkv.weight").as_str())?;
    let attn_gate = load_weight_matrix(file, block_name_text(l, "attn_gate.weight").as_str())?;
    let ssm_conv1d = load_f32_vec(file, block_name_text(l, "ssm_conv1d.weight").as_str())?;
    let (_, ssm_dt) = load_f32_vec_first_of(
        file,
        block_name_text(l, "ssm_dt.bias").as_str(),
        block_name_text(l, "ssm_dt").as_str(),
    )?;
    let ssm_a = load_f32_vec(file, block_name_text(l, "ssm_a").as_str())?;
    let ssm_beta = load_weight_matrix(file, block_name_text(l, "ssm_beta.weight").as_str())?;
    let ssm_alpha = load_weight_matrix(file, block_name_text(l, "ssm_alpha.weight").as_str())?;
    let ssm_norm = load_f32_vec(file, block_name_text(l, "ssm_norm.weight").as_str())?;
    let ssm_out = load_weight_matrix(file, block_name_text(l, "ssm_out.weight").as_str())?;
    Ok(
        GdnWeights {
            attn_qkv,
            attn_gate,
            ssm_conv1d,
            ssm_dt,
            ssm_a,
            ssm_beta,
            ssm_alpha,
            ssm_norm,
            ssm_out,
        },
    )
}

fn check_gdn_sizes(hp: &HybridHparams, cfg: &GdnConfig, l: usize, w: &GdnWeights, Ghost(s): Ghost<GdnSizes>) -> (r: Result<
    (),
    LoadError,
>)
    requires
        *cfg == config_of(*hp),
        cfg.qkv_width() <= usize::MAX,
        heads_fault(*hp, l as nat, s) is None ==> cfg.qkv_width() * cfg.conv_kernel_size
            <= usize::MAX,
        s.dt == w.ssm_dt@.len(),
        s.a == w.ssm_a@.len(),
        s.norm == w.ssm_norm@.len(),
        s.qkv_rows == w.attn_qkv.n_rows(),
        s.gate_rows == w.attn_gate.n_rows(),
        s.conv == w.ssm_conv1d@.len(),
    ensures
        match sizes_fault(*hp, l as nat, s) {
            Some(fault) => r is Err && r->Err_0@ == fault,
            None => r is Ok,
        },
{
    proof {
        cfg.parts_fit();
    }
    let qkv_dim = cfg.qkv_dim();
    let value_dim = cfg.value_dim();
    if w.ssm_dt.len() != cfg.num_value_heads || w.ssm_a.len() != cfg.num_value_heads {
        return Err(
            LoadError::UnsupportedFeature(
                String::from_str(hp.arch.as_str()),
                String::from_str(HEAD_VECTORS[0]).concat(decimal_text(l as u64).as_str()).concat(
                    HEAD_VECTORS[1],
                ).concat(decimal_text(w.ssm_dt.len() as u64).as_str()).concat(
                    HEAD_VECTORS[2],
                ).concat(decimal_text(w.ssm_a.len() as u64).as_str()).concat(
                    HEAD_VECTORS[3],
                ).concat(decimal_text(cfg.num_value_heads as u64).as_str()),
            ),
        );
    }
    if w.ssm_norm.len() != cfg.value_head_dim {
        return Err(
            LoadError::UnsupportedFeature(
                String::from_str(hp.arch.as_str()),
                String::from_str(NORM_LENGTH[0]).concat(decimal_text(l as u64).as_str()).concat(
                    NORM_LENGTH[1],
                ).concat(decimal_text(w.ssm_norm.len() as u64).as_str()).concat(
                    NORM_LENGTH[2],
                ).concat(decimal_text(cfg.value_head_dim as u64).as_str()).concat(
                    NORM_LENGTH[3],
                ).concat(decimal_text(hp.ssm_inner_size as u64).as_str()).concat(
                    NORM_LENGTH[4],
                ).concat(decimal_text(hp.ssm_time_step_rank as u64).as_str()).concat(
                    NORM_LENGTH[5],
                ),
            ),
        );
    }
    let qkv_rows = w.attn_qkv.rows();
    let gate_rows = w.attn_gate.rows();
    if qkv_rows != qkv_dim || gate_rows != value_dim {
        let found = String::from_str(PROJECTIONS[0]).concat(
            decimal_text(l as u64).as_str(),
        ).concat(PROJECTIONS[1]).concat(decimal_text(qkv_rows as u64).as_str()).concat(
            PROJECTIONS[2],
        ).concat(decimal_text(qkv_dim as u64).as_str()).concat(PROJECTIONS[3]).concat(
            decimal_text(gate_rows as u64).as_str(),
        ).concat(PROJECTIONS[4]).concat(decimal_text(value_dim as u64).as_str());
        let why = found.concat(PROJECTIONS[5]).concat(
            decimal_text(cfg.num_key_heads as u64).as_str(),
        ).concat(PROJECTIONS[6]).concat(decimal_text(cfg.num_value_heads as u64).as_str()).concat(
            PROJECTIONS[7],
        ).concat(decimal_text(cfg.key_head_dim as u64).as_str()).concat(PROJECTIONS[8]).concat(
            decimal_text(cfg.value_head_dim as u64).as_str(),
        );
        return Err(LoadError::UnsupportedFeature(String::from_str(hp.arch.as_str()), why));
    }
    assert(qkv_dim * cfg.conv_kernel_size <= usize::MAX);
    let expected_conv: usize = qkv_dim * cfg.conv_kernel_size;
    if w.ssm_conv1d.len() != expected_conv {
        return Err(
            LoadError::UnsupportedFeature(
                String::from_str(hp.arch.as_str()),
                String::from_str(CONV_LENGTH[0]).concat(decimal_text(l as u64).as_str()).concat(
                    CONV_LENGTH[1],
                ).concat(decimal_text(w.ssm_conv1d.len() as u64).as_str()).concat(
                    CONV_LENGTH[2],
                ).concat(decimal_text(expected_conv as u64).as_str()).concat(
                    CONV_LENGTH[3],
                ).concat(decimal_text(qkv_dim as u64).as_str()).concat(CONV_LENGTH[4]).concat(
                    decimal_text(cfg.conv_kernel_size as u64).as_str(),
                ).concat(CONV_LENGTH[5]),
            ),
        );
    }
    Ok(())
}

/// Loads one GDN layer, with its geometry.
pub fn load_gdn_layer_weights(file: &GgufFile, layer_idx: usize, hp: &HybridHparams) -> (loaded:
    Result<(GdnConfig, GdnWeights), LoadError>)
    requires
        layer_widths_fit(*file, *hp, layer_idx as nat),
    ensures
        match gdn_layer_fault(*file, *hp, layer_idx as nat) {
            Some(fault) => loaded is Err && loaded->Err_0@ == fault,
            None => {
                &&& loaded is Ok
                &&& loaded->Ok_0.0 == config_of(*hp)
                &&& loaded->Ok_0.0.well_formed()
                &&& gdn_weights_are(*file, layer_idx as nat, loaded->Ok_0.1)
                &&& loaded->Ok_0.1.attn_qkv.n_rows() == loaded->Ok_0.0.qkv_width()
                &&& loaded->Ok_0.1.attn_gate.n_rows() == loaded->Ok_0.0.value_width()
                &&& loaded->Ok_0.1.ssm_conv1d@.len() == loaded->Ok_0.0.qkv_width()
                    * loaded->Ok_0.0.conv_kernel_size
            },
        },
{
    let kind = detect_layer_kind(file, layer_idx)?;
    if kind != HybridLayerKind::Gdn {
        return Err(
            LoadError::UnsupportedFeature(
                String::from_str(hp.arch.as_str()),
                String::from_str(NOT_GDN[0]).concat(
                    decimal_text(layer_idx as u64).as_str(),
                ).concat(NOT_GDN[1]),
            ),
        );
    }
    let cfg = gdn_config_from_hparams(hp)?;
    let w = read_gdn_tensors(file, layer_idx)?;
    check_gdn_sizes(hp, &cfg, layer_idx, &w, Ghost(sizes_of(*file, layer_idx as nat)))?;
    Ok((cfg, w))
}

/// What a whole hybrid engine would still need.
pub const GAPS: [&'static str; 3] = [
    "HybridEngine layer assemble (GDN + full-attn residuals / post-norm / FFN)",
    "token_embd / output_norm / lm_head serve path",
    "hybrid KV + recurrent state scheduling",
];

/// What full-attention layers would need, round their number.
pub const FULL_ATTN_GAP: [&'static str; 2] = [
    "full-attn GQA decode for ",
    " layer(s) (attn_q path not wired into HybridEngine)",
];

/// What experts would need, round their number.
pub const MOE_GAP: [&'static str; 2] = ["MoE expert routing (expert_count=", ")"];

/// What the older layout would need.
pub const LEGACY_GAP: &'static str = "qwen3next legacy fused tensors (ssm_ba / ssm_in) if present";

/// The refusal of a file that reads well, round the three counts and
/// before the gaps.
pub const SERVE_GAP: [&'static str; 4] = [
    "hybrid GGUF hparams OK (n_layer=",
    ", GDN=",
    ", full_attn=",
    "); GDN layer weights loadable via load_gdn_layer_weights; serve blocked — missing: ",
];

/// How many of `kinds` are `kind`.
pub open spec fn count_of(kinds: Seq<HybridLayerKind>, kind: HybridLayerKind) -> nat
    decreases kinds.len(),
{
    if kinds.len() == 0 {
        0
    } else {
        count_of(kinds.drop_last(), kind) + (if kinds.last() == kind {
            1nat
        } else {
            0nat
        })
    }
}

/// How many of the layers are of a kind.
pub fn count_kind(kinds: &Vec<HybridLayerKind>, kind: HybridLayerKind) -> (n: usize)
    ensures
        n == count_of(kinds@, kind),
{
    let mut n: usize = 0;
    let mut i: usize = 0;
    assert(kinds@.take(0) =~= Seq::<HybridLayerKind>::empty());
    while i < kinds.len()
        invariant
            i <= kinds@.len(),
            n <= i,
            n == count_of(kinds@.take(i as int), kind),
        decreases kinds@.len() - i,
    {
        assert(kinds@.take(i + 1).drop_last() =~= kinds@.take(i as int));
        if kinds[i] == kind {
            n += 1;
        }
        i += 1;
    }
    assert(kinds@.take(i as int) =~= kinds@);
    n
}

/// The gaps of a file, one after another.
pub open spec fn gaps_chars(hp: HybridHparams, n_full: nat) -> Seq<char> {
    GAPS@[0]@ + "; "@ + GAPS@[1]@ + "; "@ + GAPS@[2]@ + (if n_full > 0 {
        "; "@ + FULL_ATTN_GAP@[0]@ + decimal(n_full) + FULL_ATTN_GAP@[1]@
    } else {
        seq![]
    }) + (if hp.n_expert > 0 {
        "; "@ + MOE_GAP@[0]@ + decimal(hp.n_expert as nat) + MOE_GAP@[1]@
    } else {
        seq![]
    }) + (if hp.arch@ == "qwen3next"@ {
        "; "@ + LEGACY_GAP@
    } else {
        seq![]
    })
}

/// The refusal of a file that reads well.
pub open spec fn serve_gap_chars(hp: HybridHparams, kinds: Seq<HybridLayerKind>) -> Seq<char> {
    SERVE_GAP@[0]@ + decimal(hp.n_layer as nat) + SERVE_GAP@[1]@ + decimal(
        count_of(kinds, HybridLayerKind::Gdn),
    ) + SERVE_GAP@[2]@ + decimal(count_of(kinds, HybridLayerKind::FullAttn)) + SERVE_GAP@[3]@
        + gaps_chars(hp, count_of(kinds, HybridLayerKind::FullAttn))
}

/// Writes what a whole hybrid engine would still need.
pub fn serve_gap_message(hp: &HybridHparams, kinds: &Vec<HybridLayerKind>) -> (t: String)
    ensures
        t@ == serve_gap_chars(*hp, kinds@),
{
    let n_gdn = count_kind(kinds, HybridLayerKind::Gdn);
    let n_full = count_kind(kinds, HybridLayerKind::FullAttn);
    let full_gap = if n_full > 0 {
        String::from_str("; ").concat(FULL_ATTN_GAP[0]).concat(
            decimal_text(n_full as u64).as_str(),
        ).concat(FULL_ATTN_GAP[1])
    } else {
        String::new()
    };
    let moe_gap = if hp.n_expert > 0 {
        String::from_str("; ").concat(MOE_GAP[0]).concat(
            decimal_text(hp.n_expert as u64).as_str(),
        ).concat(MOE_GAP[1])
    } else {
        String::new()
    };
    let legacy_gap = if str_eq(hp.arch.as_str(), "qwen3next") {
        String::from_str("; ").concat(LEGACY_GAP)
    } else {
        String::new()
    };
    let gaps = String::from_str(GAPS[0]).concat("; ").concat(GAPS[1]).concat("; ").concat(
        GAPS[2],
    ).concat(full_gap.as_str()).concat(moe_gap.as_str()).concat(legacy_gap.as_str());
    String::from_str(SERVE_GAP[0]).concat(decimal_text(hp.n_layer as u64).as_str()).concat(
        SERVE_GAP[1],
    ).concat(decimal_text(n_gdn as u64).as_str()).concat(SERVE_GAP[2]).concat(
        decimal_text(n_full as u64).as_str(),
    ).concat(SERVE_GAP[3]).concat(gaps.as_str())
}

/// An assembled hybrid engine. Nothing makes one.
#[derive(Debug)]
pub struct HybridEngine {
    _private: (),
}

/// The first layer of a kind.
pub open spec fn first_of_kind(kinds: Seq<HybridLayerKind>, kind: HybridLayerKind) -> int
    decreases kinds.len(),
{
    if kinds.len() == 0 || kinds[0] == kind {
        0
    } else {
        1 + first_of_kind(kinds.skip(1), kind)
    }
}

/// Whether `l` is the first GDN layer of a trunk whose layers are all of a
/// kind.
pub open spec fn first_gdn(file: GgufFile, n_layer: nat, l: nat) -> bool {
    &&& l < n_layer
    &&& first_unknown_layer(file, n_layer) is None
    &&& layer_kind(file, l) == Some(HybridLayerKind::Gdn)
    &&& forall|k: nat| k < l ==> #[trigger] layer_kind(file, k) != Some(HybridLayerKind::Gdn)
}

proof fn first_gdn_is(file: GgufFile, n_layer: nat, kinds: Seq<HybridLayerKind>, i: nat)
    requires
        kinds_are(file, n_layer, kinds),
        first_unknown_layer(file, n_layer) is None,
        i < kinds.len(),
        kinds[i as int] == HybridLayerKind::Gdn,
        forall|k: int| 0 <= k < i ==> #[trigger] kinds[k] != HybridLayerKind::Gdn,
    ensures
        first_gdn(file, n_layer, i),
{
    assert(layer_kind(file, i) == Some(kinds[i as int]));
    assert forall|k: nat| k < i implies #[trigger] layer_kind(file, k) != Some(
        HybridLayerKind::Gdn,
    ) by {
        assert(layer_kind(file, k) == Some(kinds[k as int]));
    }
}

/// Whether the widths of the one layer that [`try_load`] loads are machine
/// numbers, as far as loading gets to them.
pub open spec fn file_widths_fit(file: GgufFile) -> bool {
    hybrid_fault(file) is None ==> forall|hp: HybridHparams, l: nat|
        #![trigger hybrid_hparams_are(file, hp), first_gdn(file, hp.n_layer as nat, l)]
        hybrid_hparams_are(file, hp) && first_gdn(file, hp.n_layer as nat, l) ==> layer_widths_fit(
            file,
            hp,
            l,
        )
}

/// Whether [`load_gdn_layer_weights`] can be asked for a layer.
pub fn layer_fits(file: &GgufFile, layer_idx: usize, hp: &HybridHparams) -> (yes: bool)
    ensures
        yes == layer_widths_fit(*file, *hp, layer_idx as nat),
{
    match detect_layer_kind(file, layer_idx) {
        Ok(HybridLayerKind::Gdn) => {},
        _ => {
            return true;
        },
    }
    let cfg = match gdn_config_from_hparams(hp) {
        Ok(cfg) => cfg,
        Err(_) => {
            return true;
        },
    };
    let w = match read_gdn_tensors(file, layer_idx) {
        Ok(w) => w,
        Err(_) => {
            return true;
        },
    };
    let value: usize = hp.ssm_inner_size;
    let width = match cfg.num_key_heads.checked_mul(cfg.key_head_dim) {
        Some(n) => match n.checked_mul(2) {
            Some(n) => n.checked_add(value),
            None => None,
        },
        None => None,
    };
    let width: usize = match width {
        Some(n) => n,
        None => {
            return false;
        },
    };
    if w.ssm_dt.len() != cfg.num_value_heads || w.ssm_a.len() != cfg.num_value_heads
        || w.ssm_norm.len() != cfg.value_head_dim || w.attn_qkv.rows() != width
        || w.attn_gate.rows() != value {
        return true;
    }
    width.checked_mul(cfg.conv_kernel_size).is_some()
}

/// Whether [`try_load`] can be asked about a file.
pub fn file_fits(file: &GgufFile) -> (yes: bool)
    ensures
        yes == file_widths_fit(*file),
{
    let hp = match read_hybrid_hparams(file) {
        Ok(hp) => hp,
        Err(_) => {
            return true;
        },
    };
    let kinds = match classify_layers(file, &hp) {
        Ok(kinds) => kinds,
        Err(_) => {
            return true;
        },
    };
    let i = first_gdn_layer(&kinds);
    if i == kinds.len() {
        assert forall|l: nat| !first_gdn(*file, hp.n_layer as nat, l) by {
            if l < hp.n_layer {
                assert(kinds@[l as int] != HybridLayerKind::Gdn);
            }
        }
        return true;
    }
    let ghost il = i as nat;
    proof {
        first_gdn_is(*file, hp.n_layer as nat, kinds@, il);
        assert forall|l: nat| #[trigger] first_gdn(*file, hp.n_layer as nat, l) implies l == il by {
            if l < il {
                assert(layer_kind(*file, l) != Some(HybridLayerKind::Gdn));
            }
        }
    }
    layer_fits(file, i, &hp)
}

/// Why [`try_load`] refuses a file with these hyperparameters: a layer
/// that is neither kind, or the first GDN layer where it cannot be
/// loaded, or else what a whole engine would need.
pub open spec fn try_load_fault(file: GgufFile, hp: HybridHparams, fault: LoadFault) -> bool {
    match first_unknown_layer(file, hp.n_layer as nat) {
        Some(l) => fault == neither_kind(l),
        None => exists|kinds: Seq<HybridLayerKind>| #[trigger]
            kinds_are(file, hp.n_layer as nat, kinds) && {
                let first = first_of_kind(kinds, HybridLayerKind::Gdn);
                if first < kinds.len() && gdn_layer_fault(file, hp, first as nat) is Some {
                    fault == gdn_layer_fault(file, hp, first as nat)->0
                } else {
                    fault == LoadFault::UnsupportedFeature(hp.arch@, serve_gap_chars(hp, kinds))
                }
            },
    }
}

fn first_gdn_layer(kinds: &Vec<HybridLayerKind>) -> (i: usize)
    ensures
        i <= kinds@.len(),
        i < kinds@.len() ==> kinds@[i as int] == HybridLayerKind::Gdn,
        forall|k: int| 0 <= k < i ==> #[trigger] kinds@[k] != HybridLayerKind::Gdn,
        i == first_of_kind(kinds@, HybridLayerKind::Gdn),
{
    let mut i: usize = 0;
    assert(kinds@.skip(0) =~= kinds@);
    while i < kinds.len() && kinds[i] != HybridLayerKind::Gdn
        invariant
            i <= kinds@.len(),
            forall|k: int| 0 <= k < i ==> #[trigger] kinds@[k] != HybridLayerKind::Gdn,
            first_of_kind(kinds@, HybridLayerKind::Gdn) == i + first_of_kind(
                kinds@.skip(i as int),
                HybridLayerKind::Gdn,
            ),
        decreases kinds@.len() - i,
    {
        assert(kinds@.skip(i as int).skip(1) =~= kinds@.skip(i + 1));
        i += 1;
    }
    i
}

/// Reads and checks a hybrid file, and refuses it: a whole engine is not
/// assembled.
pub fn try_load(file: &GgufFile) -> (engine: Result<HybridEngine, LoadError>)
    requires
        file_widths_fit(*file),
    ensures
        engine is Err,
        hybrid_fault(*file) is Some ==> engine->Err_0@ == hybrid_fault(*file)->0,
        hybrid_fault(*file) is None ==> exists|hp: HybridHparams| #[trigger]
            hybrid_hparams_are(*file, hp) && try_load_fault(*file, hp, engine->Err_0@),
{
    let hp = read_hybrid_hparams(file)?;
    let kinds = classify_layers(file, &hp)?;
    let i = first_gdn_layer(&kinds);
    if i < kinds.len() {
        proof {
            first_gdn_is(*file, hp.n_layer as nat, kinds@, i as nat);
        }
        let _ = load_gdn_layer_weights(file, i, &hp)?;
    }
    Err(
        LoadError::UnsupportedFeature(
            String::from_str(hp.arch.as_str()),
            serve_gap_message(&hp, &kinds),
        ),
    )
}

/// Each number of a file that is read is what stands under its own key;
/// what is not declared takes the value that the rest of the file, or the
/// format, gives it.
pub proof fn hybrid_settings_are_their_keys(file: GgufFile, hp: HybridHparams)
    requires
        hybrid_fault(file) is None,
        hybrid_hparams_are(file, hp),
    ensures
        file.meta_str("general.architecture"@) == Some(hp.arch@),
        hp.arch@ == "qwen35"@ || hp.arch@ == "qwen35moe"@ || hp.arch@ == "qwen3next"@,
        file.meta_u64(hp.arch@ + "."@ + "embedding_length"@) matches Some(n) && hp.hidden_dim
            == n as usize,
        file.meta_u64(hp.arch@ + "."@ + "feed_forward_length"@) matches Some(n) && hp.ffn_dim
            == n as usize,
        file.meta_u64(hp.arch@ + "."@ + "attention.head_count"@) matches Some(n) && hp.n_heads
            == n as usize,
        match file.meta_u64(hp.arch@ + "."@ + "attention.head_count_kv"@) {
            Some(n) => hp.n_kv_heads == n as usize,
            None => hp.n_kv_heads == hp.n_heads,
        },
        match file.meta_u64(hp.arch@ + "."@ + "attention.key_length"@) {
            Some(n) => hp.head_dim == n as usize,
            None => hp.n_heads > 0 ==> hp.head_dim == hp.hidden_dim / hp.n_heads,
        },
        file.meta_u64(hp.arch@ + "."@ + "ssm.conv_kernel"@) matches Some(n) && hp.ssm_conv_kernel
            == n as usize,
        file.meta_u64(hp.arch@ + "."@ + "ssm.inner_size"@) matches Some(n) && hp.ssm_inner_size
            == n as usize,
        file.meta_u64(hp.arch@ + "."@ + "ssm.state_size"@) matches Some(n) && hp.ssm_state_size
            == n as usize,
        file.meta_u64(hp.arch@ + "."@ + "ssm.time_step_rank"@) matches Some(n)
            && hp.ssm_time_step_rank == n as usize,
        file.meta_u64(hp.arch@ + "."@ + "ssm.group_count"@) matches Some(n) && hp.ssm_group_count
            == n as usize,
        match file.meta_u64(hp.arch@ + "."@ + "full_attention_interval"@) {
            Some(n) => hp.full_attention_interval == n as usize,
            None => hp.full_attention_interval == 4,
        },
        match file.meta_u64(hp.arch@ + "."@ + "expert_count"@) {
            Some(n) => hp.n_expert == n as usize,
            None => hp.n_expert == 0,
        },
        match file.meta_f32(hp.arch@ + "."@ + "attention.layer_norm_rms_epsilon"@) {
            Some(bits) => hp.rms_norm_eps == bits,
            None => hp.rms_norm_eps == EPS_1E_6,
        },
        match file.meta_f32(hp.arch@ + "."@ + "rope.freq_base"@) {
            Some(bits) => hp.rope_theta == bits,
            None => hp.rope_theta == THETA_1E4,
        },
        file.meta_u64(hp.arch@ + "."@ + "block_count"@) is Some,
        file.meta(hp.arch@ + "."@ + "nextn_predict_layers"@) is None ==> hp.n_layer
            == file.meta_u64(hp.arch@ + "."@ + "block_count"@)->0 as usize,
        file.meta_u64(hp.arch@ + "."@ + "nextn_predict_layers"@) matches Some(n) ==> hp.n_layer
            + n as usize == file.meta_u64(hp.arch@ + "."@ + "block_count"@)->0 as usize,
{
    let arch = hp.arch@;
    assert(HYBRID_GDN_ARCHES@[0]@ == "qwen35"@);
    assert(HYBRID_GDN_ARCHES@[1]@ == "qwen35moe"@);
    assert(HYBRID_GDN_ARCHES@[2]@ == "qwen3next"@);
    assert(required_fault(file, arch) is None);
}

/// The kind of a layer follows from its tensors. A convolution makes it a
/// gated delta net, whatever else there is, and so do a fused projection
/// and a decay together; a layer with neither of these and a Q projection
/// attends fully; a layer without any of them is of no kind.
pub proof fn a_layers_tensors_make_its_kind(file: GgufFile, l: nat)
    ensures
        file.has("blk."@ + decimal(l) + "."@ + "ssm_conv1d.weight"@) ==> layer_kind(file, l) == Some(HybridLayerKind::Gdn),
        file.has("blk."@ + decimal(l) + "."@ + "attn_qkv.weight"@) && file.has("blk."@ + decimal(l) + "."@ + "ssm_a"@) ==> layer_kind(file, l) == Some(HybridLayerKind::Gdn),
        !file.has("blk."@ + decimal(l) + "."@ + "ssm_conv1d.weight"@) && !(file.has("blk."@ + decimal(l) + "."@ + "attn_qkv.weight"@) && file.has("blk."@ + decimal(l) + "."@ + "ssm_a"@)) && file.has("blk."@ + decimal(l) + "."@ + "attn_q.weight"@)
            ==> layer_kind(file, l) == Some(HybridLayerKind::FullAttn),
        !file.has("blk."@ + decimal(l) + "."@ + "ssm_conv1d.weight"@) && !(file.has("blk."@ + decimal(l) + "."@ + "attn_qkv.weight"@) && file.has("blk."@ + decimal(l) + "."@ + "ssm_a"@)) && !file.has("blk."@ + decimal(l) + "."@ + "attn_q.weight"@)
            ==> layer_kind(file, l) is None,
{
}

/// The trunk is refused for its first layer of no kind, and read where it
/// has none.
pub proof fn the_first_layer_of_no_kind_is_named(file: GgufFile, n: nat)
    ensures
        match first_unknown_layer(file, n) {
            Some(l) => l < n && layer_kind(file, l) is None && forall|k: nat|
                k < l ==> #[trigger] layer_kind(file, k) is Some,
            None => forall|k: nat| k < n ==> #[trigger] layer_kind(file, k) is Some,
        },
    decreases n,
{
    if n > 0 {
        the_first_layer_of_no_kind_is_named(file, (n - 1) as nat);
    }
}

/// The geometry that the hyperparameters give: K heads from the group
/// count, each as wide as the state; V heads from the rank of the time
/// step, which share the inner width out without a rest.
pub proof fn the_inner_width_is_shared_out_over_the_v_heads(hp: HybridHparams)
    requires
        geometry_fault(hp) is None,
    ensures
        config_of(hp).num_key_heads == hp.ssm_group_count,
        config_of(hp).num_value_heads == hp.ssm_time_step_rank,
        config_of(hp).key_head_dim == hp.ssm_state_size,
        config_of(hp).num_value_heads * config_of(hp).value_head_dim == hp.ssm_inner_size,
        config_of(hp).value_head_dim > 0,
        config_of(hp).num_key_heads > 0,
        config_of(hp).num_value_heads % config_of(hp).num_key_heads == 0,
        config_of(hp).conv_kernel_size == hp.ssm_conv_kernel,
        config_of(hp).hidden_dim == hp.hidden_dim,
        config_of(hp).rms_norm_eps == hp.rms_norm_eps,
        config_of(hp).qkv_width() == hp.ssm_group_count * hp.ssm_state_size + hp.ssm_group_count
            * hp.ssm_state_size + hp.ssm_inner_size,
{
    let inner = hp.ssm_inner_size as int;
    let v = hp.ssm_time_step_rank as int;
    vstd::arithmetic::div_mod::lemma_fundamental_div_mod(inner, v);
    assert(config_of(hp).value_head_dim > 0) by (nonlinear_arith)
        requires
            v * config_of(hp).value_head_dim == inner,
            inner > 0,
            v > 0,
    ;
}

/// When a geometry is refused: without heads, with V heads that do not
/// share out over the K heads, and with an inner width that does not
/// share out over the V heads.
pub proof fn which_geometries_are_refused(hp: HybridHparams)
    ensures
        geometry_fault(hp) is None <==> {
            &&& hp.ssm_group_count > 0
            &&& hp.ssm_time_step_rank > 0
            &&& hp.ssm_time_step_rank % hp.ssm_group_count == 0
            &&& hp.ssm_inner_size > 0
            &&& hp.ssm_inner_size % hp.ssm_time_step_rank == 0
        },
{
}

/// A GDN layer is loaded by name: the beta projection is `ssm_beta`, the
/// alpha projection `ssm_alpha`, the decay `ssm_a`, and so on, all of the
/// layer's own block. The bias of the time step is `ssm_dt.bias` where
/// the file has that, and `ssm_dt` otherwise.
pub proof fn a_hybrid_gdn_layer_is_loaded_by_name(file: GgufFile, l: nat, w: GdnWeights)
    requires
        gdn_weights_are(file, l, w),
    ensures
        w.attn_qkv.is_tensor(file, "blk."@ + decimal(l) + "."@ + "attn_qkv.weight"@),
        w.attn_gate.is_tensor(file, "blk."@ + decimal(l) + "."@ + "attn_gate.weight"@),
        w.ssm_conv1d@ == vector_of(file, "blk."@ + decimal(l) + "."@ + "ssm_conv1d.weight"@),
        w.ssm_a@ == vector_of(file, "blk."@ + decimal(l) + "."@ + "ssm_a"@),
        w.ssm_beta.is_tensor(file, "blk."@ + decimal(l) + "."@ + "ssm_beta.weight"@),
        w.ssm_alpha.is_tensor(file, "blk."@ + decimal(l) + "."@ + "ssm_alpha.weight"@),
        w.ssm_norm@ == vector_of(file, "blk."@ + decimal(l) + "."@ + "ssm_norm.weight"@),
        w.ssm_out.is_tensor(file, "blk."@ + decimal(l) + "."@ + "ssm_out.weight"@),
        file.has("blk."@ + decimal(l) + "."@ + "ssm_dt.bias"@) ==> w.ssm_dt@ == vector_of(file, "blk."@ + decimal(l) + "."@ + "ssm_dt.bias"@),
        !file.has("blk."@ + decimal(l) + "."@ + "ssm_dt.bias"@) ==> w.ssm_dt@ == vector_of(file, "blk."@ + decimal(l) + "."@ + "ssm_dt"@),
{
}

/// A GDN layer that loads has the sizes that its geometry gives: a time
/// step and a decay for each V head, a norm as wide as a V head, a fused
/// projection with a row for each element of Q, K and V, a gate with one
/// for each of V, and a convolution with a kernel for each of the fused
/// projection's rows.
pub proof fn a_loaded_gdn_layer_has_its_geometrys_sizes(
    file: GgufFile,
    hp: HybridHparams,
    l: nat,
    w: GdnWeights,
)
    requires
        gdn_layer_fault(file, hp, l) is None,
        gdn_weights_are(file, l, w),
    ensures
        layer_kind(file, l) == Some(HybridLayerKind::Gdn),
        w.ssm_dt@.len() == hp.ssm_time_step_rank,
        w.ssm_a@.len() == hp.ssm_time_step_rank,
        w.ssm_norm@.len() * hp.ssm_time_step_rank == hp.ssm_inner_size,
        w.attn_gate.n_rows() == hp.ssm_inner_size,
        w.attn_qkv.n_rows() == hp.ssm_group_count * hp.ssm_state_size + hp.ssm_group_count
            * hp.ssm_state_size + hp.ssm_inner_size,
        w.ssm_conv1d@.len() == w.attn_qkv.n_rows() * hp.ssm_conv_kernel,
{
    the_inner_width_is_shared_out_over_the_v_heads(hp);
    let norm = w.ssm_norm@.len() as int;
    let v = hp.ssm_time_step_rank as int;
    assert(norm * v == v * norm) by (nonlinear_arith);
}

/// Every layer is counted once, under its own kind.
pub proof fn every_layer_is_counted_once(kinds: Seq<HybridLayerKind>)
    ensures
        count_of(kinds, HybridLayerKind::Gdn) + count_of(kinds, HybridLayerKind::FullAttn)
            == kinds.len(),
        count_of(kinds, HybridLayerKind::Gdn) == kinds.filter(
            |k: HybridLayerKind| k == HybridLayerKind::Gdn,
        ).len(),
    decreases kinds.len(),
{
    reveal(Seq::filter);
    if kinds.len() > 0 {
        every_layer_is_counted_once(kinds.drop_last());
    }
}

/// Which files the loader reads: those of the three architectures that
/// declare every count and size.
pub proof fn which_files_are_read(file: GgufFile, arch: Seq<char>, blocks: usize)
    requires
        file.meta_str("general.architecture"@) == Some(arch),
        blocks == file.meta_u64(arch + "."@ + "block_count"@)->0 as usize,
    ensures
        hybrid_fault(file) is None <==> {
            &&& arch == "qwen35"@ || arch == "qwen35moe"@ || arch == "qwen3next"@
            &&& trunk_fault(file, arch, blocks) is None
            &&& file.meta_u64(arch + "."@ + "block_count"@) is Some
            &&& file.meta_u64(arch + "."@ + "embedding_length"@) is Some
            &&& file.meta_u64(arch + "."@ + "feed_forward_length"@) is Some
            &&& file.meta_u64(arch + "."@ + "attention.head_count"@) is Some
            &&& file.meta_u64(arch + "."@ + "ssm.conv_kernel"@) is Some
            &&& file.meta_u64(arch + "."@ + "ssm.inner_size"@) is Some
            &&& file.meta_u64(arch + "."@ + "ssm.state_size"@) is Some
            &&& file.meta_u64(arch + "."@ + "ssm.time_step_rank"@) is Some
            &&& file.meta_u64(arch + "."@ + "ssm.group_count"@) is Some
        },
{
    let t = HYBRID_GDN_ARCHES@;
    assert(t[0]@ == "qwen35"@);
    assert(t[1]@ == "qwen35moe"@);
    assert(t[2]@ == "qwen3next"@);
}

/// Which recurrent layers load: those with every tensor, under either name
/// of the time step, of the sizes that the file's heads give.
pub proof fn which_recurrent_layers_load(file: GgufFile, hp: HybridHparams, l: nat)
    ensures
        gdn_layer_fault(file, hp, l) is None <==> {
            let cfg = config_of(hp);
            let dt = if file.has("blk."@ + decimal(l) + "."@ + "ssm_dt.bias"@) {
                "blk."@ + decimal(l) + "."@ + "ssm_dt.bias"@
            } else {
                "blk."@ + decimal(l) + "."@ + "ssm_dt"@
            };
            &&& layer_kind(file, l) == Some(HybridLayerKind::Gdn)
            &&& geometry_fault(hp) is None
            &&& file.has("blk."@ + decimal(l) + "."@ + "ssm_dt.bias"@) || file.has("blk."@ + decimal(l) + "."@ + "ssm_dt"@)
            &&& vector_fault(file, dt) is None
            &&& matrix_fault(file, "blk."@ + decimal(l) + "."@ + "attn_qkv.weight"@) is None
            &&& matrix_fault(file, "blk."@ + decimal(l) + "."@ + "attn_gate.weight"@) is None
            &&& vector_fault(file, "blk."@ + decimal(l) + "."@ + "ssm_conv1d.weight"@) is None
            &&& vector_fault(file, "blk."@ + decimal(l) + "."@ + "ssm_a"@) is None
            &&& matrix_fault(file, "blk."@ + decimal(l) + "."@ + "ssm_beta.weight"@) is None
            &&& matrix_fault(file, "blk."@ + decimal(l) + "."@ + "ssm_alpha.weight"@) is None
            &&& vector_fault(file, "blk."@ + decimal(l) + "."@ + "ssm_norm.weight"@) is None
            &&& matrix_fault(file, "blk."@ + decimal(l) + "."@ + "ssm_out.weight"@) is None
            &&& vector_of(file, dt).len() == cfg.num_value_heads
            &&& vector_of(file, "blk."@ + decimal(l) + "."@ + "ssm_a"@).len() == cfg.num_value_heads
            &&& vector_of(file, "blk."@ + decimal(l) + "."@ + "ssm_norm.weight"@).len() == cfg.value_head_dim
            &&& file.tensor("blk."@ + decimal(l) + "."@ + "attn_qkv.weight"@)->0.shape@[1] as usize == cfg.qkv_width()
            &&& file.tensor("blk."@ + decimal(l) + "."@ + "attn_gate.weight"@)->0.shape@[1] as usize == cfg.num_value_heads * cfg.value_head_dim
            &&& vector_of(file, "blk."@ + decimal(l) + "."@ + "ssm_conv1d.weight"@).len() == cfg.qkv_width() * cfg.conv_kernel_size
        },
{
}

/// What loading a whole file ends in: the first layer of no kind; else
/// what is wrong with the first recurrent layer; else what is not served
/// yet.
pub proof fn how_loading_ends(
    file: GgufFile,
    hp: HybridHparams,
    fault: LoadFault,
    kinds: Seq<HybridLayerKind>,
    first: nat,
)
    requires
        try_load_fault(file, hp, fault),
        kinds_are(file, hp.n_layer as nat, kinds),
    ensures
        first < hp.n_layer && kinds[first as int] == HybridLayerKind::Gdn && (forall|k: int|
            0 <= k < first ==> #[trigger] kinds[k] != HybridLayerKind::Gdn) && gdn_layer_fault(
            file,
            hp,
            first,
        ) is Some ==> fault == gdn_layer_fault(file, hp, first)->0,
        (forall|k: int| 0 <= k < kinds.len() ==> #[trigger] kinds[k] != HybridLayerKind::Gdn)
            ==> fault == LoadFault::UnsupportedFeature(hp.arch@, serve_gap_chars(hp, kinds)),
        first < hp.n_layer && kinds[first as int] == HybridLayerKind::Gdn && (forall|k: int|
            0 <= k < first ==> #[trigger] kinds[k] != HybridLayerKind::Gdn) && gdn_layer_fault(
            file,
            hp,
            first,
        ) is None ==> fault == LoadFault::UnsupportedFeature(hp.arch@, serve_gap_chars(hp, kinds)),
{
    the_first_layer_of_no_kind_is_named(file, hp.n_layer as nat);
    match first_unknown_layer(file, hp.n_layer as nat) {
        Some(l) => {
            assert(layer_kind(file, l as int as nat) == Some(kinds[l as int]));
        },
        None => {},
    }
    let seen = choose|seen: Seq<HybridLayerKind>| #[trigger]
        kinds_are(file, hp.n_layer as nat, seen) && {
            let f = first_of_kind(seen, HybridLayerKind::Gdn);
            if f < seen.len() && gdn_layer_fault(file, hp, f as nat) is Some {
                fault == gdn_layer_fault(file, hp, f as nat)->0
            } else {
                fault == LoadFault::UnsupportedFeature(hp.arch@, serve_gap_chars(hp, seen))
            }
        };
    assert(seen =~= kinds) by {
        assert forall|l: int| 0 <= l < seen.len() implies seen[l] == kinds[l] by {
            assert(layer_kind(file, l as nat) == Some(seen[l]));
            assert(layer_kind(file, l as nat) == Some(kinds[l]));
        }
    }
    the_first_of_a_kind(kinds, HybridLayerKind::Gdn);
    let f = first_of_kind(kinds, HybridLayerKind::Gdn);
    if first < hp.n_layer && kinds[first as int] == HybridLayerKind::Gdn && (forall|k: int|
        0 <= k < first ==> #[trigger] kinds[k] != HybridLayerKind::Gdn) {
        if f < first {
            assert(kinds[f] != HybridLayerKind::Gdn);
        }
        if first < f {
            assert(kinds[first as int] != HybridLayerKind::Gdn);
        }
        assert(f == first);
    }
}

proof fn the_first_of_a_kind(kinds: Seq<HybridLayerKind>, kind: HybridLayerKind)
    ensures
        ({
            let f = first_of_kind(kinds, kind);
            &&& 0 <= f <= kinds.len()
            &&& f < kinds.len() ==> kinds[f] == kind
            &&& forall|k: int| 0 <= k < f ==> #[trigger] kinds[k] != kind
        }),
    decreases kinds.len(),
{
    if kinds.len() > 0 && kinds[0] != kind {
        the_first_of_a_kind(kinds.skip(1), kind);
        let f = first_of_kind(kinds, kind);
        assert forall|k: int| 0 <= k < f implies #[trigger] kinds[k] != kind by {
            if k > 0 {
                assert(kinds.skip(1)[k - 1] == kinds[k]);
            }
        }
    }
}

/// Of several keys that are missing, the first of those read is named.
pub proof fn the_first_missing_key_is_named(file: GgufFile, arch: Seq<char>)
    ensures
        file.meta_u64(arch + "."@ + "embedding_length"@) is None ==> required_fault(file, arch) == Some(
            LoadFault::MissingHparam(arch + "."@ + "embedding_length"@),
        ),
        file.meta_u64(arch + "."@ + "embedding_length"@) is Some && file.meta_u64(arch + "."@ + "feed_forward_length"@) is None ==> required_fault(file, arch) == Some(
            LoadFault::MissingHparam(arch + "."@ + "feed_forward_length"@),
        ),
        file.meta_u64(arch + "."@ + "embedding_length"@) is Some && file.meta_u64(arch + "."@ + "feed_forward_length"@) is Some && file.meta_u64(arch + "."@ + "attention.head_count"@) is None ==> required_fault(file, arch) == Some(
            LoadFault::MissingHparam(arch + "."@ + "attention.head_count"@),
        ),
        file.meta_u64(arch + "."@ + "embedding_length"@) is Some && file.meta_u64(arch + "."@ + "feed_forward_length"@) is Some && file.meta_u64(arch + "."@ + "attention.head_count"@) is Some && file.meta_u64(arch + "."@ + "ssm.conv_kernel"@) is None ==> required_fault(file, arch) == Some(
            LoadFault::MissingHparam(arch + "."@ + "ssm.conv_kernel"@),
        ),
        file.meta_u64(arch + "."@ + "embedding_length"@) is Some && file.meta_u64(arch + "."@ + "feed_forward_length"@) is Some && file.meta_u64(arch + "."@ + "attention.head_count"@) is Some && file.meta_u64(arch + "."@ + "ssm.conv_kernel"@) is Some && file.meta_u64(arch + "."@ + "ssm.inner_size"@) is None ==> required_fault(file, arch) == Some(
            LoadFault::MissingHparam(arch + "."@ + "ssm.inner_size"@),
        ),
        file.meta_u64(arch + "."@ + "embedding_length"@) is Some && file.meta_u64(arch + "."@ + "feed_forward_length"@) is Some && file.meta_u64(arch + "."@ + "attention.head_count"@) is Some && file.meta_u64(arch + "."@ + "ssm.conv_kernel"@) is Some && file.meta_u64(arch + "."@ + "ssm.inner_size"@) is Some && file.meta_u64(arch + "."@ + "ssm.state_size"@) is None ==> required_fault(file, arch) == Some(
            LoadFault::MissingHparam(arch + "."@ + "ssm.state_size"@),
        ),
        file.meta_u64(arch + "."@ + "embedding_length"@) is Some && file.meta_u64(arch + "."@ + "feed_forward_length"@) is Some && file.meta_u64(arch + "."@ + "attention.head_count"@) is Some && file.meta_u64(arch + "."@ + "ssm.conv_kernel"@) is Some && file.meta_u64(arch + "."@ + "ssm.inner_size"@) is Some && file.meta_u64(arch + "."@ + "ssm.state_size"@) is Some && file.meta_u64(arch + "."@ + "ssm.time_step_rank"@) is None ==> required_fault(file, arch) == Some(
            LoadFault::MissingHparam(arch + "."@ + "ssm.time_step_rank"@),
        ),
        file.meta_u64(arch + "."@ + "embedding_length"@) is Some && file.meta_u64(arch + "."@ + "feed_forward_length"@) is Some && file.meta_u64(arch + "."@ + "attention.head_count"@) is Some && file.meta_u64(arch + "."@ + "ssm.conv_kernel"@) is Some && file.meta_u64(arch + "."@ + "ssm.inner_size"@) is Some && file.meta_u64(arch + "."@ + "ssm.state_size"@) is Some && file.meta_u64(arch + "."@ + "ssm.time_step_rank"@) is Some && file.meta_u64(arch + "."@ + "ssm.group_count"@) is None ==> required_fault(file, arch) == Some(
            LoadFault::MissingHparam(arch + "."@ + "ssm.group_count"@),
        ),
{
}

/// Of several tensors that are missing, the first of those read is named.
pub proof fn the_first_missing_projection_is_named(file: GgufFile, l: nat)
    ensures
        !file.has("blk."@ + decimal(l) + "."@ + "attn_qkv.weight"@) ==> gdn_tensors_fault(file, l) == Some(
            LoadFault::TensorNotFound("blk."@ + decimal(l) + "."@ + "attn_qkv.weight"@),
        ),
        matrix_fault(file, "blk."@ + decimal(l) + "."@ + "attn_qkv.weight"@) is None && !file.has("blk."@ + decimal(l) + "."@ + "attn_gate.weight"@) ==> gdn_tensors_fault(file, l) == Some(
            LoadFault::TensorNotFound("blk."@ + decimal(l) + "."@ + "attn_gate.weight"@),
        ),
        matrix_fault(file, "blk."@ + decimal(l) + "."@ + "attn_qkv.weight"@) is None && matrix_fault(file, "blk."@ + decimal(l) + "."@ + "attn_gate.weight"@) is None && !file.has("blk."@ + decimal(l) + "."@ + "ssm_conv1d.weight"@) ==> gdn_tensors_fault(file, l) == Some(
            LoadFault::TensorNotFound("blk."@ + decimal(l) + "."@ + "ssm_conv1d.weight"@),
        ),
{
}

} // verus!
