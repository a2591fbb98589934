//! Loading a GLM-5.2 file.
//!
//! The K decompression of a layer is stored one matrix per head in the
//! absorbing direction, and is transposed here into the direct one
//! ([`load_wk_b_transposed`]), which is done for F32 and BF16 only; the V
//! decompression is stored in the direct one and only cut
//! ([`load_wv_b`]).

use crate::engine::MlaRopeConfig;
use crate::gguf::{
    dims_chars, dims_text, either, element_count, f32_or, missing_u64, smaller, u64_or, GgmlType,
    GgufFile, TensorInfo, ARCH_KEY, EPS_1E_5, THETA_1E6,
};
use crate::glm52_decoder::{
    Glm52AttnWeights, Glm52DecoderConfig, Glm52DecoderLayerWeights, Glm52DecoderWeights,
    Glm52DenseFfnWeights, Glm52Engine, Glm52LayerFfn, Glm52MlaConfig, Glm52MoeFfnWeights,
    IndexerConfig, IndexerWeights,
};
use crate::load_error::{LoadError, LoadFault};
use crate::mla_gguf_loader::{
    experts_are, join_experts, load_shared_expert, shared_fault, shared_is,
};
use crate::mtp_blocks::{trunk_fault, trunk_layers, trunk_of};
use crate::text::{
    arch_key, arch_key_text, block_name, block_name_text, decimal, decimal_text, str_eq,
};
use crate::weights::{
    first_fault, load_f32_vec, load_weight_matrix, matrix_fault, parts_fault, split_expert_tensor,
    transpose, transpose_swaps, transposed, vector_fault, vector_of, WeightMatrix,
};
use vstd::prelude::*;
use vstd::slice::slice_subrange;
use vstd::string::StringExecFns;

verus! {

/// The refusal of a tensor of other dimensions, round the three wanted
/// and the ones found.
pub const WRONG_DIMS: [&'static str; 5] = [
    " (expected ne=[",
    ", ",
    ", ",
    "], got ",
    ")",
];

/// Whether a tensor has these three dimensions.
pub open spec fn dims_are(t: TensorInfo, a: usize, b: usize, c: usize) -> bool {
    &&& t.shape@.len() == 3
    &&& t.shape@[0] as usize == a
    &&& t.shape@[1] as usize == b
    &&& t.shape@[2] as usize == c
}

/// Why a tensor of other dimensions is refused.
pub open spec fn dims_fault(t: TensorInfo, name: Seq<char>, a: usize, b: usize, c: usize) -> Option<
    LoadFault,
> {
    if dims_are(t, a, b, c) {
        None
    } else {
        Some(
            LoadFault::UnsupportedDtype(
                name + WRONG_DIMS@[0]@ + decimal(a as nat) + WRONG_DIMS@[1]@ + decimal(b as nat)
                    + WRONG_DIMS@[2]@ + decimal(c as nat) + WRONG_DIMS@[3]@ + dims_chars(t.shape@)
                    + WRONG_DIMS@[4]@,
                t.dtype,
            ),
        )
    }
}

fn check_dims(t: &TensorInfo, name: &str, a: usize, b: usize, c: usize) -> (r: Result<
    (),
    LoadError,
>)
    ensures
        match dims_fault(*t, name@, a, b, c) {
            Some(fault) => r is Err && r->Err_0@ == fault,
            None => r is Ok,
        },
{
    if t.shape.len() != 3 || t.shape[0] as usize != a || t.shape[1] as usize != b
        || t.shape[2] as usize != c {
        return Err(
            LoadError::UnsupportedDtype(
                String::from_str(name).concat(WRONG_DIMS[0]).concat(
                    decimal_text(a as u64).as_str(),
                ).concat(WRONG_DIMS[1]).concat(decimal_text(b as u64).as_str()).concat(
                    WRONG_DIMS[2],
                ).concat(decimal_text(c as u64).as_str()).concat(WRONG_DIMS[3]).concat(
                    dims_text(&t.shape).as_str(),
                ).concat(WRONG_DIMS[4]),
                t.dtype,
            ),
        );
    }
    Ok(())
}

/// Whether the K decompression can be transposed out of this element
/// type.
pub open spec fn transposable(dtype: GgmlType) -> bool {
    dtype == GgmlType::F32 || dtype == GgmlType::BF16
}

fn is_transposable(dtype: GgmlType) -> (yes: bool)
    ensures
        yes == transposable(dtype),
{
    match dtype {
        GgmlType::F32 => true,
        GgmlType::BF16 => true,
        _ => false,
    }
}

/// Whether an element type is a plain float.
pub open spec fn plain_float(dtype: GgmlType) -> bool {
    dtype == GgmlType::F32 || dtype == GgmlType::F16 || dtype == GgmlType::BF16
}

fn is_plain_float(dtype: GgmlType) -> (yes: bool)
    ensures
        yes == plain_float(dtype),
{
    match dtype {
        GgmlType::F32 => true,
        GgmlType::F16 => true,
        GgmlType::BF16 => true,
        _ => false,
    }
}

/// The elements of head `h` of a tensor that holds `per_head` elements
/// for each head.
pub open spec fn head_of(values: Seq<u32>, h: int, per_head: int) -> Seq<u32> {
    values.subrange(h * per_head, (h + 1) * per_head)
}

/// Why a layer's K decompression cannot be loaded: it must have the
/// dimensions that the keys say and be stored as F32 or BF16. Any other
/// element type, F16 and the quantised ones alike, is refused by name.
pub open spec fn wk_b_fault(
    file: GgufFile,
    name: Seq<char>,
    n_head: usize,
    nope: usize,
    kv_lora: usize,
) -> Option<LoadFault> {
    match file.tensor(name) {
        None => Some(LoadFault::TensorNotFound(name)),
        Some(t) => first_fault(
            dims_fault(t, name, nope, kv_lora, n_head),
            if transposable(t.dtype) {
                None
            } else {
                Some(LoadFault::UnsupportedDtype(name, t.dtype))
            },
        ),
    }
}

/// What a layer's K decompression is: for each head the transpose of the
/// matrix that the file holds, `nope` rows of `kv_lora`.
pub open spec fn wk_b_are(
    file: GgufFile,
    name: Seq<char>,
    n_head: usize,
    nope: usize,
    kv_lora: usize,
    ws: Seq<WeightMatrix>,
) -> bool {
    &&& ws.len() == n_head
    &&& forall|h: int|
        0 <= h < n_head ==> (#[trigger] ws[h]).holds(
            transpose(
                head_of(vector_of(file, name), h, kv_lora * nope),
                kv_lora as int,
                nope as int,
            ),
            nope as int,
            kv_lora as int,
        )
}

proof fn three_dims_count(t: TensorInfo, a: usize, b: usize, c: usize)
    requires
        dims_are(t, a, b, c),
        forall|i: int| 0 <= i < 3 ==> t.shape@[i] <= usize::MAX,
        t.complete(),
    ensures
        t.values@.len() == c * (b * a),
{
    let s = t.shape@;
    reveal_with_fuel(element_count, 4);
    assert(s.drop_last().drop_last().drop_last() =~= Seq::<u64>::empty());
    assert(s.drop_last().drop_last().last() == s[0]);
    assert(s.drop_last().last() == s[1]);
    assert(element_count(s) == 1 * (s[0] as nat) * (s[1] as nat) * (s[2] as nat));
    assert(1 * (a as nat) * (b as nat) * (c as nat) == c * (b * a)) by (nonlinear_arith);
}

/// Whether the dimensions of a tensor are machine numbers.
pub open spec fn dims_fit(t: TensorInfo) -> bool {
    forall|i: int| 0 <= i < t.shape@.len() ==> (#[trigger] t.shape@[i]) <= usize::MAX
}

proof fn head_bounds(h: int, n_head: int, per_head: int, total: int)
    requires
        0 <= h < n_head,
        0 <= per_head,
        total == n_head * per_head,
    ensures
        0 <= h * per_head,
        h * per_head + per_head == (h + 1) * per_head,
        (h + 1) * per_head <= total,
{
    assert(0 <= h * per_head && h * per_head + per_head == (h + 1) * per_head && (h + 1) * per_head
        <= n_head * per_head) by (nonlinear_arith)
        requires
            0 <= h < n_head,
            0 <= per_head,
    ;
}

/// Loads a layer's K decompression, one transposed matrix for each head,
/// from a tensor of F32 or BF16.
pub fn load_wk_b_transposed(
    file: &GgufFile,
    name: &str,
    n_head: usize,
    nope: usize,
    kv_lora: usize,
) -> (ws: Result<Vec<WeightMatrix>, LoadError>)
    requires
        file.complete(),
        wk_b_fault(*file, name@, n_head, nope, kv_lora) is None ==> dims_fit(
            file.tensor(name@)->0,
        ),
    ensures
        match wk_b_fault(*file, name@, n_head, nope, kv_lora) {
            Some(fault) => ws is Err && ws->Err_0@ == fault,
            None => ws is Ok && wk_b_are(*file, name@, n_head, nope, kv_lora, ws->Ok_0@),
        },
{
    let info = file.required_tensor(name)?;
    check_dims(info, name, nope, kv_lora, n_head)?;
    if !is_transposable(info.dtype) {
        return Err(LoadError::UnsupportedDtype(String::from_str(name), info.dtype));
    }
    let mut ws: Vec<WeightMatrix> = Vec::new();
    let total = info.values.len();
    proof {
        three_dims_count(*info, nope, kv_lora, n_head);
    }
    let mut h: usize = 0;
    while h < n_head
        invariant
            h <= n_head,
            total == info.values@.len(),
            total == n_head * (kv_lora * nope),
            info.values@ == vector_of(*file, name@),
            ws@.len() == h,
            forall|i: int|
                0 <= i < h ==> (#[trigger] ws@[i]).holds(
                    transpose(
                        head_of(vector_of(*file, name@), i, kv_lora * nope),
                        kv_lora as int,
                        nope as int,
                    ),
                    nope as int,
                    kv_lora as int,
                ),
        decreases n_head - h,
    {
        proof {
            assert(0 <= kv_lora * nope) by (nonlinear_arith);
            head_bounds(h as int, n_head as int, kv_lora * nope, total as int);
        }
        let per_head: usize = kv_lora * nope;
        let raw = slice_subrange(info.values.as_slice(), h * per_head, (h + 1) * per_head);
        let data = transposed(raw, kv_lora, nope);
        ws.push(WeightMatrix::F32 { data, rows: nope, cols: kv_lora });
        h += 1;
    }
    Ok(ws)
}

/// Why a layer's V decompression cannot be loaded.
pub open spec fn wv_b_fault(
    file: GgufFile,
    name: Seq<char>,
    n_head: usize,
    kv_lora: usize,
    v_head: usize,
) -> Option<LoadFault> {
    match file.tensor(name) {
        None => Some(LoadFault::TensorNotFound(name)),
        Some(t) => first_fault(
            dims_fault(t, name, kv_lora, v_head, n_head),
            match t.dtype {
                GgmlType::Other(_) => Some(LoadFault::UnsupportedDtype(name, t.dtype)),
                _ => None,
            },
        ),
    }
}

/// What a layer's V decompression is: for each head the matrix that the
/// file holds, `v_head` rows of `kv_lora`; a plain tensor is held in
/// place, a quantised one stays in the file.
pub open spec fn wv_b_are(
    file: GgufFile,
    name: Seq<char>,
    n_head: usize,
    kv_lora: usize,
    v_head: usize,
    ws: Seq<WeightMatrix>,
) -> bool {
    &&& ws.len() == n_head
    &&& forall|h: int|
        0 <= h < n_head ==> if plain_float(file.tensor(name)->0.dtype) {
            (#[trigger] ws[h]).holds(
                head_of(vector_of(file, name), h, kv_lora * v_head),
                v_head as int,
                kv_lora as int,
            )
        } else {
            ws[h].is_part(file, name, h, n_head as int)
        }
}

/// Loads a layer's V decompression, one matrix for each head.
pub fn load_wv_b(file: &GgufFile, name: &str, n_head: usize, kv_lora: usize, v_head: usize) -> (ws:
    Result<Vec<WeightMatrix>, LoadError>)
    requires
        file.complete(),
        wv_b_fault(*file, name@, n_head, kv_lora, v_head) is None ==> dims_fit(
            file.tensor(name@)->0,
        ),
    ensures
        match wv_b_fault(*file, name@, n_head, kv_lora, v_head) {
            Some(fault) => ws is Err && ws->Err_0@ == fault,
            None => ws is Ok && wv_b_are(*file, name@, n_head, kv_lora, v_head, ws->Ok_0@),
        },
{
    let info = file.required_tensor(name)?;
    check_dims(info, name, kv_lora, v_head, n_head)?;
    match info.dtype {
        GgmlType::Other(_) => {
            return Err(LoadError::UnsupportedDtype(String::from_str(name), info.dtype));
        },
        _ => {},
    }
    let plain = is_plain_float(info.dtype);
    let mut ws: Vec<WeightMatrix> = Vec::new();
    let total = info.values.len();
    proof {
        three_dims_count(*info, kv_lora, v_head, n_head);
        assert(v_head * kv_lora == kv_lora * v_head) by (nonlinear_arith);
    }
    let mut h: usize = 0;
    while h < n_head
        invariant
            h <= n_head,
            total == info.values@.len(),
            total == n_head * (kv_lora * v_head),
            file.has(name@),
            *info == file.tensor(name@)->0,
            dims_are(*info, kv_lora, v_head, n_head),
            plain == plain_float(info.dtype),
            info.values@ == vector_of(*file, name@),
            ws@.len() == h,
            forall|i: int|
                0 <= i < h ==> if plain {
                    (#[trigger] ws@[i]).holds(
                        head_of(vector_of(*file, name@), i, kv_lora * v_head),
                        v_head as int,
                        kv_lora as int,
                    )
                } else {
                    ws@[i].is_part(*file, name@, i, n_head as int)
                },
        decreases n_head - h,
    {
        if plain {
            proof {
                assert(0 <= kv_lora * v_head) by (nonlinear_arith);
                head_bounds(h as int, n_head as int, kv_lora * v_head, total as int);
            }
            let per_head: usize = kv_lora * v_head;
            let raw = slice_subrange(info.values.as_slice(), h * per_head, (h + 1) * per_head);
            let data = vstd::slice::slice_to_vec(raw);
            ws.push(WeightMatrix::F32 { data, rows: v_head, cols: kv_lora });
        } else {
            ws.push(
                WeightMatrix::Stored {
                    tensor: String::from_str(name),
                    part: h,
                    parts: n_head,
                    rows: v_head,
                    cols: kv_lora,
                },
            );
        }
        h += 1;
    }
    Ok(ws)
}

/// The hyperparameters that size a GLM-5.2 model.
#[derive(Debug, Clone, Copy, PartialEq, Eq, Structural)]
pub struct Glm52GgufHparams {
    pub hidden_dim: usize,
    pub num_heads: usize,
    pub q_lora_rank: usize,
    pub kv_lora_rank: usize,
    pub qk_nope_head_dim: usize,
    pub qk_rope_head_dim: usize,
    pub v_head_dim: usize,
    /// A bit pattern.
    pub rope_theta: u32,
    pub indexer_n_heads: usize,
    pub indexer_head_dim: usize,
    pub indexer_rope_dim: usize,
    pub indexer_top_k: usize,
    pub dense_ffn_dim: usize,
    pub moe_ffn_dim: usize,
    pub n_experts: usize,
    pub n_shared_experts: usize,
}

/// What else a file says of its model; the floats are bit patterns.
#[derive(Debug)]
pub struct Glm52FileMeta {
    pub arch: String,
    pub n_layer: usize,
    pub leading_dense: usize,
    pub rms_norm_eps: u32,
    pub n_experts_active: usize,
    pub moe_renormalize: bool,
    pub routed_scaling_factor: u32,
}

/// The bit pattern of 2.5.
pub const SCALE_2_5: u32 = 0x4020_0000;

/// The first of the required keys that a file lacks.
pub open spec fn required_fault(file: GgufFile, arch: Seq<char>) -> Option<LoadFault> {
    first_fault(
        missing_u64(file, arch_key(arch, "embedding_length"@)),
        first_fault(
            missing_u64(file, arch_key(arch, "feed_forward_length"@)),
            first_fault(
                missing_u64(file, arch_key(arch, "attention.head_count"@)),
                first_fault(
                    missing_u64(file, arch_key(arch, "attention.q_lora_rank"@)),
                    first_fault(
                        missing_u64(file, arch_key(arch, "attention.kv_lora_rank"@)),
                        first_fault(
                            missing_u64(file, arch_key(arch, "attention.qk_nope_head_dim"@)),
                            missing_u64(file, arch_key(arch, "attention.qk_rope_head_dim"@)),
                        ),
                    ),
                ),
            ),
        ),
    )
}

/// Why a file is refused before any tensor is read.
pub open spec fn hparams_fault(file: GgufFile) -> Option<LoadFault> {
    match file.meta_str(ARCH_KEY@) {
        None => Some(LoadFault::MissingHparam(ARCH_KEY@)),
        Some(arch) => if arch != "glm-dsa"@ && arch != "glm4"@ {
            Some(LoadFault::UnsupportedArchitecture(arch))
        } else {
            first_fault(
                missing_u64(file, arch_key(arch, "block_count"@)),
                first_fault(
                    trunk_fault(
                        file,
                        arch,
                        file.meta_u64(arch_key(arch, "block_count"@))->0 as usize,
                    ),
                    required_fault(file, arch),
                ),
            )
        },
    }
}

/// The sizes that a file of architecture `arch` declares.
pub open spec fn sizes_of(file: GgufFile, arch: Seq<char>) -> Glm52GgufHparams {
    let ffn = u64_or(file.meta_u64(arch_key(arch, "feed_forward_length"@)), 0);
    let nope = u64_or(file.meta_u64(arch_key(arch, "attention.qk_nope_head_dim"@)), 0);
    let rope = u64_or(file.meta_u64(arch_key(arch, "attention.qk_rope_head_dim"@)), 0);
    Glm52GgufHparams {
        hidden_dim: u64_or(file.meta_u64(arch_key(arch, "embedding_length"@)), 0),
        num_heads: u64_or(file.meta_u64(arch_key(arch, "attention.head_count"@)), 0),
        q_lora_rank: u64_or(file.meta_u64(arch_key(arch, "attention.q_lora_rank"@)), 0),
        kv_lora_rank: u64_or(file.meta_u64(arch_key(arch, "attention.kv_lora_rank"@)), 0),
        qk_nope_head_dim: nope,
        qk_rope_head_dim: rope,
        v_head_dim: u64_or(
            either(
                file.meta_u64(arch_key(arch, "attention.v_head_dim"@)),
                file.meta_u64(arch_key(arch, "attention.key_length"@)),
            ),
            nope as int,
        ),
        rope_theta: f32_or(file.meta_f32(arch_key(arch, "rope.freq_base"@)), THETA_1E6),
        indexer_n_heads: u64_or(file.meta_u64(arch_key(arch, "attention.indexer_n_heads"@)), 4),
        indexer_head_dim: u64_or(
            file.meta_u64(arch_key(arch, "attention.indexer_head_dim"@)),
            128,
        ),
        indexer_rope_dim: rope,
        indexer_top_k: u64_or(file.meta_u64(arch_key(arch, "attention.indexer_top_k"@)), 2048),
        dense_ffn_dim: ffn,
        moe_ffn_dim: u64_or(
            file.meta_u64(arch_key(arch, "expert_feed_forward_length"@)),
            ffn as int,
        ),
        n_experts: u64_or(file.meta_u64(arch_key(arch, "expert_count"@)), 0),
        n_shared_experts: u64_or(file.meta_u64(arch_key(arch, "expert_shared_count"@)), 1),
    }
}

/// How many layers run of a file of architecture `arch`.
pub open spec fn depth_of(file: GgufFile, arch: Seq<char>) -> usize {
    trunk_of(file, arch, file.meta_u64(arch_key(arch, "block_count"@))->0 as usize).n_layers
}

/// How many of the first layers are dense by declaration.
pub open spec fn leading_of(file: GgufFile, arch: Seq<char>) -> usize {
    smaller(
        u64_or(file.meta_u64(arch_key(arch, "leading_dense_block_count"@)), 0),
        depth_of(file, arch),
    )
}

/// What else a file that is not refused says.
pub open spec fn meta_is(file: GgufFile, m: Glm52FileMeta) -> bool {
    let arch = m.arch@;
    &&& file.meta_str(ARCH_KEY@) == Some(arch)
    &&& m.n_layer == depth_of(file, arch)
    &&& m.leading_dense == leading_of(file, arch)
    &&& m.rms_norm_eps == f32_or(
        file.meta_f32(arch_key(arch, "attention.layer_norm_rms_epsilon"@)),
        EPS_1E_5,
    )
    &&& m.n_experts_active == u64_or(file.meta_u64(arch_key(arch, "expert_used_count"@)), 8)
    &&& m.moe_renormalize == (match file.meta_u64(arch_key(arch, "expert_norm_topk_prob"@)) {
        Some(n) => n != 0,
        None => false,
    })
    &&& m.routed_scaling_factor == f32_or(
        file.meta_f32(arch_key(arch, "expert_routing_scale"@)),
        SCALE_2_5,
    )
}

/// Reads the hyperparameters of a GLM-5.2 file.
pub fn read_glm52_hparams(file: &GgufFile) -> (read: Result<
    (Glm52GgufHparams, Glm52FileMeta),
    LoadError,
>)
    ensures
        match hparams_fault(*file) {
            Some(fault) => read is Err && read->Err_0@ == fault,
            None => {
                &&& read is Ok
                &&& read->Ok_0.0 == sizes_of(*file, read->Ok_0.1.arch@)
                &&& meta_is(*file, read->Ok_0.1)
            },
        },
{
    let arch = file.required_str(ARCH_KEY)?;
    if !(str_eq(arch, "glm-dsa") || str_eq(arch, "glm4")) {
        return Err(LoadError::UnsupportedArchitecture(String::from_str(arch)));
    }
    let block_count = file.required_u64(arch_key_text(arch, "block_count").as_str())?;
    let trunk = trunk_layers(file, arch, block_count as usize)?;
    let n_layer = trunk.n_layers;
    let hidden_dim = file.required_u64(arch_key_text(arch, "embedding_length").as_str())?;
    let ffn = file.required_u64(arch_key_text(arch, "feed_forward_length").as_str())?;
    let moe_ffn_dim = file.usize_or(
        arch_key_text(arch, "expert_feed_forward_length").as_str(),
        ffn as usize,
    );
    let n_heads = file.required_u64(arch_key_text(arch, "attention.head_count").as_str())?;
    let q_lora_rank = file.required_u64(arch_key_text(arch, "attention.q_lora_rank").as_str())?;
    let kv_lora_rank = file.required_u64(arch_key_text(arch, "attention.kv_lora_rank").as_str())?;
    let nope = file.required_u64(arch_key_text(arch, "attention.qk_nope_head_dim").as_str())?;
    let rope = file.required_u64(arch_key_text(arch, "attention.qk_rope_head_dim").as_str())?;
    let v_head_dim = match file.metadata_u64(
        arch_key_text(arch, "attention.v_head_dim").as_str(),
    ) {
        Some(n) => n as usize,
        None => file.usize_or(
            arch_key_text(arch, "attention.key_length").as_str(),
            nope as usize,
        ),
    };
    let leading_dense = file.usize_or(
        arch_key_text(arch, "leading_dense_block_count").as_str(),
        0,
    );
    let hp = Glm52GgufHparams {
        hidden_dim: hidden_dim as usize,
        num_heads: n_heads as usize,
        q_lora_rank: q_lora_rank as usize,
        kv_lora_rank: kv_lora_rank as usize,
        qk_nope_head_dim: nope as usize,
        qk_rope_head_dim: rope as usize,
        v_head_dim,
        rope_theta: file.bits_or(arch_key_text(arch, "rope.freq_base").as_str(), THETA_1E6),
        indexer_n_heads: file.usize_or(
            arch_key_text(arch, "attention.indexer_n_heads").as_str(),
            4,
        ),
        indexer_head_dim: file.usize_or(
            arch_key_text(arch, "attention.indexer_head_dim").as_str(),
            128,
        ),
        indexer_rope_dim: rope as usize,
        indexer_top_k: file.usize_or(
            arch_key_text(arch, "attention.indexer_top_k").as_str(),
            2048,
        ),
        dense_ffn_dim: ffn as usize,
        moe_ffn_dim,
        n_experts: file.usize_or(arch_key_text(arch, "expert_count").as_str(), 0),
        n_shared_experts: file.usize_or(arch_key_text(arch, "expert_shared_count").as_str(), 1),
    };
    let meta = Glm52FileMeta {
        arch: String::from_str(arch),
        n_layer,
        leading_dense: if leading_dense <= n_layer {
            leading_dense
        } else {
            n_layer
        },
        rms_norm_eps: file.bits_or(
            arch_key_text(arch, "attention.layer_norm_rms_epsilon").as_str(),
            EPS_1E_5,
        ),
        n_experts_active: file.usize_or(arch_key_text(arch, "expert_used_count").as_str(), 8),
        moe_renormalize: match file.metadata_u64(
            arch_key_text(arch, "expert_norm_topk_prob").as_str(),
        ) {
            Some(n) => n != 0,
            None => false,
        },
        routed_scaling_factor: file.bits_or(
            arch_key_text(arch, "expert_routing_scale").as_str(),
            SCALE_2_5,
        ),
    };
    Ok((hp, meta))
}

/// The attention's dimensions.
pub fn glm52_mla_config(hp: &Glm52GgufHparams) -> (cfg: Glm52MlaConfig)
    ensures
        cfg == mla_config_of(*hp),
{
    Glm52MlaConfig {
        num_heads: hp.num_heads,
        q_lora_rank: hp.q_lora_rank,
        kv_lora_rank: hp.kv_lora_rank,
        qk_nope_head_dim: hp.qk_nope_head_dim,
        qk_rope_head_dim: hp.qk_rope_head_dim,
        v_head_dim: hp.v_head_dim,
        rope: MlaRopeConfig { theta: hp.rope_theta },
    }
}

/// The attention's dimensions.
pub open spec fn mla_config_of(hp: Glm52GgufHparams) -> Glm52MlaConfig {
    Glm52MlaConfig {
        num_heads: hp.num_heads,
        q_lora_rank: hp.q_lora_rank,
        kv_lora_rank: hp.kv_lora_rank,
        qk_nope_head_dim: hp.qk_nope_head_dim,
        qk_rope_head_dim: hp.qk_rope_head_dim,
        v_head_dim: hp.v_head_dim,
        rope: MlaRopeConfig { theta: hp.rope_theta },
    }
}

/// The indexer's dimensions.
pub fn glm52_indexer_config(hp: &Glm52GgufHparams) -> (cfg: IndexerConfig)
    ensures
        cfg == indexer_config_of(*hp),
{
    IndexerConfig {
        n_heads: hp.indexer_n_heads,
        head_dim: hp.indexer_head_dim,
        rope_dim: hp.indexer_rope_dim,
        top_k: hp.indexer_top_k,
        rope_theta: hp.rope_theta,
    }
}

/// The indexer's dimensions.
pub open spec fn indexer_config_of(hp: Glm52GgufHparams) -> IndexerConfig {
    IndexerConfig {
        n_heads: hp.indexer_n_heads,
        head_dim: hp.indexer_head_dim,
        rope_dim: hp.indexer_rope_dim,
        top_k: hp.indexer_top_k,
        rope_theta: hp.rope_theta,
    }
}

/// Why an indexer cannot be loaded.
pub open spec fn indexer_fault(file: GgufFile, l: nat) -> Option<LoadFault> {
    first_fault(
        vector_fault(file, block_name(l, "indexer.k_norm.weight"@)),
        first_fault(
            vector_fault(file, block_name(l, "indexer.k_norm.bias"@)),
            first_fault(
                matrix_fault(file, block_name(l, "indexer.proj.weight"@)),
                first_fault(
                    matrix_fault(file, block_name(l, "indexer.attn_k.weight"@)),
                    matrix_fault(file, block_name(l, "indexer.attn_q_b.weight"@)),
                ),
            ),
        ),
    )
}

/// What an indexer is.
pub open spec fn indexer_is(file: GgufFile, l: nat, w: IndexerWeights) -> bool {
    &&& w.k_norm_weight@ == vector_of(file, block_name(l, "indexer.k_norm.weight"@))
    &&& w.k_norm_bias@ == vector_of(file, block_name(l, "indexer.k_norm.bias"@))
    &&& w.proj.is_tensor(file, block_name(l, "indexer.proj.weight"@))
    &&& w.attn_k.is_tensor(file, block_name(l, "indexer.attn_k.weight"@))
    &&& w.attn_q_b.is_tensor(file, block_name(l, "indexer.attn_q_b.weight"@))
}

/// Why a layer's attention cannot be loaded. Only a full layer's indexer
/// is read.
pub open spec fn attn_fault(file: GgufFile, hp: Glm52GgufHparams, l: nat, full: bool) -> Option<
    LoadFault,
> {
    first_fault(
        matrix_fault(file, block_name(l, "attn_q_a.weight"@)),
        first_fault(
            matrix_fault(file, block_name(l, "attn_q_b.weight"@)),
            first_fault(
                matrix_fault(file, block_name(l, "attn_kv_a_mqa.weight"@)),
                first_fault(
                    wk_b_fault(
                        file,
                        block_name(l, "attn_k_b.weight"@),
                        hp.num_heads,
                        hp.qk_nope_head_dim,
                        hp.kv_lora_rank,
                    ),
                    first_fault(
                        wv_b_fault(
                            file,
                            block_name(l, "attn_v_b.weight"@),
                            hp.num_heads,
                            hp.kv_lora_rank,
                            hp.v_head_dim,
                        ),
                        first_fault(
                            matrix_fault(file, block_name(l, "attn_output.weight"@)),
                            first_fault(
                                if full {
                                    indexer_fault(file, l)
                                } else {
                                    None
                                },
                                first_fault(
                                    vector_fault(file, block_name(l, "attn_q_a_norm.weight"@)),
                                    vector_fault(file, block_name(l, "attn_kv_a_norm.weight"@)),
                                ),
                            ),
                        ),
                    ),
                ),
            ),
        ),
    )
}

/// What a layer's attention is.
pub open spec fn attn_is(
    file: GgufFile,
    hp: Glm52GgufHparams,
    l: nat,
    full: bool,
    w: Glm52AttnWeights,
) -> bool {
    &&& w.q_a_proj.is_tensor(file, block_name(l, "attn_q_a.weight"@))
    &&& w.q_a_layernorm@ == vector_of(file, block_name(l, "attn_q_a_norm.weight"@))
    &&& w.q_b_proj.is_tensor(file, block_name(l, "attn_q_b.weight"@))
    &&& w.kv_a_proj_with_mqa.is_tensor(file, block_name(l, "attn_kv_a_mqa.weight"@))
    &&& w.kv_a_layernorm@ == vector_of(file, block_name(l, "attn_kv_a_norm.weight"@))
    &&& wk_b_are(
        file,
        block_name(l, "attn_k_b.weight"@),
        hp.num_heads,
        hp.qk_nope_head_dim,
        hp.kv_lora_rank,
        w.wk_b@,
    )
    &&& wv_b_are(
        file,
        block_name(l, "attn_v_b.weight"@),
        hp.num_heads,
        hp.kv_lora_rank,
        hp.v_head_dim,
        w.wv_b@,
    )
    &&& w.o_proj.is_tensor(file, block_name(l, "attn_output.weight"@))
    &&& w.indexer is Some <==> full
    &&& full ==> indexer_is(file, l, w.indexer->0)
}

/// Whether a tensor, where the file has it as a matrix, has this many
/// rows.
pub open spec fn has_rows(file: GgufFile, name: Seq<char>, rows: int) -> bool {
    matrix_fault(file, name) is None ==> file.tensor(name)->0.shape@[1] as usize == rows
}

/// Whether a tensor, where the file has it as a matrix, has this many
/// columns.
pub open spec fn has_cols(file: GgufFile, name: Seq<char>, cols: int) -> bool {
    matrix_fault(file, name) is None ==> file.tensor(name)->0.shape@[0] as usize == cols
}

/// Whether the matrices of an indexer have the sizes that the
/// hyperparameters say. A size counts where everything that is read
/// before it loads.
pub open spec fn indexer_sizes_fit(file: GgufFile, hp: Glm52GgufHparams, l: nat) -> bool {
    let proj = block_name(l, "indexer.proj.weight"@);
    let attn_k = block_name(l, "indexer.attn_k.weight"@);
    let attn_q_b = block_name(l, "indexer.attn_q_b.weight"@);
    let norm_loads = vector_fault(file, block_name(l, "indexer.k_norm.weight"@)) is None
        && vector_fault(file, block_name(l, "indexer.k_norm.bias"@)) is None;
    let proj_loads = norm_loads && matrix_fault(file, proj) is None;
    let attn_k_loads = proj_loads && matrix_fault(file, attn_k) is None;
    &&& norm_loads ==> has_rows(file, proj, hp.indexer_n_heads as int)
    &&& proj_loads ==> has_rows(file, attn_k, hp.indexer_head_dim as int)
    &&& attn_k_loads ==> has_rows(file, attn_q_b, hp.indexer_n_heads * hp.indexer_head_dim)
}

/// Whether the tensors of a layer's attention have the sizes that the
/// hyperparameters say. A size counts where everything that is read
/// before it loads.
pub open spec fn attn_sizes_fit(file: GgufFile, hp: Glm52GgufHparams, l: nat, full: bool) -> bool {
    let q_a = block_name(l, "attn_q_a.weight"@);
    let q_b = block_name(l, "attn_q_b.weight"@);
    let kv_a = block_name(l, "attn_kv_a_mqa.weight"@);
    let k_b = block_name(l, "attn_k_b.weight"@);
    let v_b = block_name(l, "attn_v_b.weight"@);
    let out = block_name(l, "attn_output.weight"@);
    let q_a_loads = matrix_fault(file, q_a) is None;
    let q_b_loads = q_a_loads && matrix_fault(file, q_b) is None;
    let kv_a_loads = q_b_loads && matrix_fault(file, kv_a) is None;
    let k_b_loads = kv_a_loads && wk_b_fault(
        file,
        k_b,
        hp.num_heads,
        hp.qk_nope_head_dim,
        hp.kv_lora_rank,
    ) is None;
    let v_b_loads = k_b_loads && wv_b_fault(
        file,
        v_b,
        hp.num_heads,
        hp.kv_lora_rank,
        hp.v_head_dim,
    ) is None;
    let out_loads = v_b_loads && matrix_fault(file, out) is None;
    &&& has_rows(file, q_a, hp.q_lora_rank as int)
    &&& has_cols(file, q_a, hp.hidden_dim as int)
    &&& q_a_loads ==> has_rows(
        file,
        q_b,
        hp.num_heads * (hp.qk_nope_head_dim + hp.qk_rope_head_dim),
    )
    &&& q_b_loads ==> has_rows(file, kv_a, hp.kv_lora_rank + hp.qk_rope_head_dim)
    &&& k_b_loads ==> dims_fit(file.tensor(k_b)->0)
    &&& v_b_loads ==> dims_fit(file.tensor(v_b)->0)
    &&& v_b_loads ==> has_rows(file, out, hp.hidden_dim as int)
    &&& v_b_loads ==> has_cols(file, out, hp.num_heads * hp.v_head_dim)
    &&& out_loads && full ==> indexer_sizes_fit(file, hp, l)
}

/// The sizes of a layer's attention, as its hyperparameters fix them.
pub open spec fn attn_sized(hp: Glm52GgufHparams, w: Glm52AttnWeights) -> bool {
    &&& w.q_a_proj.n_rows() == hp.q_lora_rank
    &&& w.q_a_proj.n_cols() == hp.hidden_dim
    &&& w.q_b_proj.n_rows() == hp.num_heads * (hp.qk_nope_head_dim + hp.qk_rope_head_dim)
    &&& w.kv_a_proj_with_mqa.n_rows() == hp.kv_lora_rank + hp.qk_rope_head_dim
    &&& w.o_proj.n_rows() == hp.hidden_dim
    &&& w.o_proj.n_cols() == hp.num_heads * hp.v_head_dim
}

fn load_indexer(file: &GgufFile, l: usize) -> (w: Result<IndexerWeights, LoadError>)
    ensures
        match indexer_fault(*file, l as nat) {
            Some(fault) => w is Err && w->Err_0@ == fault,
            None => w is Ok && indexer_is(*file, l as nat, w->Ok_0),
        },
{
    let k_norm_weight = load_f32_vec(
        file,
        block_name_text(l, "indexer.k_norm.weight").as_str(),
    )?;
    let k_norm_bias = load_f32_vec(file, block_name_text(l, "indexer.k_norm.bias").as_str())?;
    let proj = load_weight_matrix(file, block_name_text(l, "indexer.proj.weight").as_str())?;
    let attn_k = load_weight_matrix(file, block_name_text(l, "indexer.attn_k.weight").as_str())?;
    let attn_q_b = load_weight_matrix(
        file,
        block_name_text(l, "indexer.attn_q_b.weight").as_str(),
    )?;
    Ok(IndexerWeights { k_norm_weight, k_norm_bias, proj, attn_k, attn_q_b })
}

/// Loads a layer's attention, with its indexer where it is full.
pub fn load_glm52_attn(
    file: &GgufFile,
    hp: &Glm52GgufHparams,
    layer_idx: usize,
    is_full_indexer_layer: bool,
) -> (w: Result<Glm52AttnWeights, LoadError>)
    requires
        file.complete(),
        attn_sizes_fit(*file, *hp, layer_idx as nat, is_full_indexer_layer),
    ensures
        match attn_fault(*file, *hp, layer_idx as nat, is_full_indexer_layer) {
            Some(fault) => w is Err && w->Err_0@ == fault,
            None => {
                &&& w is Ok
                &&& attn_is(*file, *hp, layer_idx as nat, is_full_indexer_layer, w->Ok_0)
                &&& attn_sized(*hp, w->Ok_0)
            },
        },
{
    let l = layer_idx;
    let q_a_proj = load_weight_matrix(file, block_name_text(l, "attn_q_a.weight").as_str())?;
    let q_b_proj = load_weight_matrix(file, block_name_text(l, "attn_q_b.weight").as_str())?;
    let kv_a = load_weight_matrix(file, block_name_text(l, "attn_kv_a_mqa.weight").as_str())?;
    let wk_b = load_wk_b_transposed(
        file,
        block_name_text(l, "attn_k_b.weight").as_str(),
        hp.num_heads,
        hp.qk_nope_head_dim,
        hp.kv_lora_rank,
    )?;
    let wv_b = load_wv_b(
        file,
        block_name_text(l, "attn_v_b.weight").as_str(),
        hp.num_heads,
        hp.kv_lora_rank,
        hp.v_head_dim,
    )?;
    let o_proj = load_weight_matrix(file, block_name_text(l, "attn_output.weight").as_str())?;
    let indexer = if is_full_indexer_layer {
        Some(load_indexer(file, l)?)
    } else {
        None
    };
    let q_a_layernorm = load_f32_vec(file, block_name_text(l, "attn_q_a_norm.weight").as_str())?;
    let kv_a_layernorm = load_f32_vec(file, block_name_text(l, "attn_kv_a_norm.weight").as_str())?;
    Ok(
        Glm52AttnWeights {
            q_a_proj,
            q_a_layernorm,
            q_b_proj,
            kv_a_proj_with_mqa: kv_a,
            kv_a_layernorm,
            wk_b,
            wv_b,
            o_proj,
            indexer,
        },
    )
}

/// Why a layer's dense feed-forward cannot be loaded.
pub open spec fn dense_fault(file: GgufFile, l: nat) -> Option<LoadFault> {
    first_fault(
        matrix_fault(file, block_name(l, "ffn_gate.weight"@)),
        first_fault(
            matrix_fault(file, block_name(l, "ffn_up.weight"@)),
            matrix_fault(file, block_name(l, "ffn_down.weight"@)),
        ),
    )
}

/// What a layer's dense feed-forward is.
pub open spec fn dense_is(file: GgufFile, l: nat, w: Glm52DenseFfnWeights) -> bool {
    &&& w.gate_proj.is_tensor(file, block_name(l, "ffn_gate.weight"@))
    &&& w.up_proj.is_tensor(file, block_name(l, "ffn_up.weight"@))
    &&& w.down_proj.is_tensor(file, block_name(l, "ffn_down.weight"@))
}

/// Loads a layer's dense feed-forward.
pub fn load_glm52_dense_ffn(file: &GgufFile, layer_idx: usize) -> (w: Result<
    Glm52DenseFfnWeights,
    LoadError,
>)
    ensures
        match dense_fault(*file, layer_idx as nat) {
            Some(fault) => w is Err && w->Err_0@ == fault,
            None => w is Ok && dense_is(*file, layer_idx as nat, w->Ok_0),
        },
{
    let l = layer_idx;
    let gate_proj = load_weight_matrix(file, block_name_text(l, "ffn_gate.weight").as_str())?;
    let up_proj = load_weight_matrix(file, block_name_text(l, "ffn_up.weight").as_str())?;
    let down_proj = load_weight_matrix(file, block_name_text(l, "ffn_down.weight").as_str())?;
    Ok(Glm52DenseFfnWeights { gate_proj, up_proj, down_proj })
}

/// Why a layer's routed feed-forward cannot be loaded.
pub open spec fn moe_fault(file: GgufFile, hp: Glm52GgufHparams, l: nat) -> Option<LoadFault> {
    first_fault(
        parts_fault(file, block_name(l, "ffn_gate_exps.weight"@), hp.n_experts),
        first_fault(
            parts_fault(file, block_name(l, "ffn_down_exps.weight"@), hp.n_experts),
            first_fault(
                parts_fault(file, block_name(l, "ffn_up_exps.weight"@), hp.n_experts),
                first_fault(
                    shared_fault(file, l),
                    first_fault(
                        matrix_fault(file, block_name(l, "ffn_gate_inp.weight"@)),
                        vector_fault(file, block_name(l, "exp_probs_b.bias"@)),
                    ),
                ),
            ),
        ),
    )
}

/// What a layer's routed feed-forward is.
pub open spec fn moe_is(file: GgufFile, hp: Glm52GgufHparams, l: nat, w: Glm52MoeFfnWeights) -> bool {
    &&& w.router_weight.is_tensor(file, block_name(l, "ffn_gate_inp.weight"@))
    &&& w.e_score_correction_bias@ == vector_of(file, block_name(l, "exp_probs_b.bias"@))
    &&& experts_are(file, l, hp.n_experts, w.experts@)
    &&& shared_is(file, l, w.shared_expert)
}

/// Loads a layer's routed feed-forward.
pub fn load_glm52_moe_ffn(file: &GgufFile, hp: &Glm52GgufHparams, layer_idx: usize) -> (w: Result<
    Glm52MoeFfnWeights,
    LoadError,
>)
    ensures
        match moe_fault(*file, *hp, layer_idx as nat) {
            Some(fault) => w is Err && w->Err_0@ == fault,
            None => w is Ok && moe_is(*file, *hp, layer_idx as nat, w->Ok_0),
        },
{
    let l = layer_idx;
    let gates = split_expert_tensor(
        file,
        block_name_text(l, "ffn_gate_exps.weight").as_str(),
        hp.n_experts,
    )?;
    let downs = split_expert_tensor(
        file,
        block_name_text(l, "ffn_down_exps.weight").as_str(),
        hp.n_experts,
    )?;
    let ups = split_expert_tensor(
        file,
        block_name_text(l, "ffn_up_exps.weight").as_str(),
        hp.n_experts,
    )?;
    let experts = join_experts(file, l, hp.n_experts, gates, ups, downs);
    let shared_expert = load_shared_expert(file, l)?;
    let router_weight = load_weight_matrix(
        file,
        block_name_text(l, "ffn_gate_inp.weight").as_str(),
    )?;
    let e_score_correction_bias = load_f32_vec(
        file,
        block_name_text(l, "exp_probs_b.bias").as_str(),
    )?;
    Ok(Glm52MoeFfnWeights { router_weight, e_score_correction_bias, experts, shared_expert })
}

/// Whether a layer's indexer is full: the file has its projection.
pub open spec fn full_layer(file: GgufFile, l: nat) -> bool {
    file.has(block_name(l, "indexer.proj.weight"@))
}

/// Whether a layer's indexer is full.
pub fn is_full_indexer_layer(file: &GgufFile, layer_idx: usize) -> (yes: bool)
    ensures
        yes == full_layer(*file, layer_idx as nat),
{
    file.has_tensor(block_name_text(layer_idx, "indexer.proj.weight").as_str())
}

/// Whether a layer is dense: it is among the leading ones, or the file
/// has a dense gate for it and no router.
pub open spec fn dense_layer(file: GgufFile, l: nat, leading_dense: usize) -> bool {
    l < leading_dense || (file.has(block_name(l, "ffn_gate.weight"@)) && !file.has(
        block_name(l, "ffn_gate_inp.weight"@),
    ))
}

/// Whether a layer is dense.
pub fn is_dense_ffn_layer(file: &GgufFile, layer_idx: usize, leading_dense: usize) -> (yes: bool)
    ensures
        yes == dense_layer(*file, layer_idx as nat, leading_dense),
{
    if layer_idx < leading_dense {
        return true;
    }
    file.has_tensor(block_name_text(layer_idx, "ffn_gate.weight").as_str()) && !file.has_tensor(
        block_name_text(layer_idx, "ffn_gate_inp.weight").as_str(),
    )
}

/// Why a layer cannot be loaded.
pub open spec fn layer_fault(file: GgufFile, hp: Glm52GgufHparams, leading_dense: usize, l: nat) -> Option<
    LoadFault,
> {
    first_fault(
        attn_fault(file, hp, l, full_layer(file, l)),
        first_fault(
            if dense_layer(file, l, leading_dense) {
                dense_fault(file, l)
            } else {
                moe_fault(file, hp, l)
            },
            first_fault(
                vector_fault(file, block_name(l, "attn_norm.weight"@)),
                vector_fault(file, block_name(l, "ffn_norm.weight"@)),
            ),
        ),
    )
}

/// What a layer is.
pub open spec fn layer_is(
    file: GgufFile,
    hp: Glm52GgufHparams,
    leading_dense: usize,
    l: nat,
    w: Glm52DecoderLayerWeights,
) -> bool {
    &&& w.attn_norm_weight@ == vector_of(file, block_name(l, "attn_norm.weight"@))
    &&& attn_is(file, hp, l, full_layer(file, l), w.attn)
    &&& w.ffn_norm_weight@ == vector_of(file, block_name(l, "ffn_norm.weight"@))
    &&& w.is_full_indexer_layer == full_layer(file, l)
    &&& match w.ffn {
        Glm52LayerFfn::Dense(d) => dense_layer(file, l, leading_dense) && dense_is(file, l, d),
        Glm52LayerFfn::Moe(m) => !dense_layer(file, l, leading_dense) && moe_is(file, hp, l, m),
    }
}

fn load_layer(file: &GgufFile, hp: &Glm52GgufHparams, leading_dense: usize, l: usize) -> (w: Result<
    Glm52DecoderLayerWeights,
    LoadError,
>)
    requires
        file.complete(),
        attn_sizes_fit(*file, *hp, l as nat, full_layer(*file, l as nat)),
    ensures
        match layer_fault(*file, *hp, leading_dense, l as nat) {
            Some(fault) => w is Err && w->Err_0@ == fault,
            None => w is Ok && layer_is(*file, *hp, leading_dense, l as nat, w->Ok_0),
        },
{
    let is_full = is_full_indexer_layer(file, l);
    let attn = load_glm52_attn(file, hp, l, is_full)?;
    let ffn = if is_dense_ffn_layer(file, l, leading_dense) {
        Glm52LayerFfn::Dense(load_glm52_dense_ffn(file, l)?)
    } else {
        Glm52LayerFfn::Moe(load_glm52_moe_ffn(file, hp, l)?)
    };
    let attn_norm_weight = load_f32_vec(file, block_name_text(l, "attn_norm.weight").as_str())?;
    let ffn_norm_weight = load_f32_vec(file, block_name_text(l, "ffn_norm.weight").as_str())?;
    Ok(
        Glm52DecoderLayerWeights {
            attn_norm_weight,
            attn,
            ffn_norm_weight,
            ffn,
            is_full_indexer_layer: is_full,
        },
    )
}

/// The first fault of the first `n` layers.
pub open spec fn layers_fault(file: GgufFile, hp: Glm52GgufHparams, leading_dense: usize, n: nat) -> Option<
    LoadFault,
>
    decreases n,
{
    if n == 0 {
        None
    } else {
        first_fault(
            layers_fault(file, hp, leading_dense, (n - 1) as nat),
            layer_fault(file, hp, leading_dense, (n - 1) as nat),
        )
    }
}

proof fn layers_fault_stays(file: GgufFile, hp: Glm52GgufHparams, leading_dense: usize, k: nat, n: nat)
    requires
        k <= n,
        layers_fault(file, hp, leading_dense, k) is Some,
    ensures
        layers_fault(file, hp, leading_dense, n) == layers_fault(file, hp, leading_dense, k),
    decreases n,
{
    if k < n {
        layers_fault_stays(file, hp, leading_dense, k, (n - 1) as nat);
    }
}

/// Why the embedding cannot be loaded.
pub open spec fn embedding_fault(file: GgufFile) -> Option<LoadFault> {
    first_fault(
        matrix_fault(file, "token_embd.weight"@),
        vector_fault(file, "token_embd.weight"@),
    )
}

/// Loads the embedding, all rows held in place.
pub fn load_embedding_tensor(file: &GgufFile, hidden_dim: usize) -> (w: Result<
    WeightMatrix,
    LoadError,
>)
    requires
        has_cols(*file, "token_embd.weight"@, hidden_dim as int),
    ensures
        match embedding_fault(*file) {
            Some(fault) => w is Err && w->Err_0@ == fault,
            None => w is Ok && w->Ok_0.holds(
                vector_of(*file, "token_embd.weight"@),
                file.tensor("token_embd.weight"@)->0.shape@[1] as usize as int,
                hidden_dim as int,
            ),
        },
{
    let stored = load_weight_matrix(file, "token_embd.weight")?;
    let data = load_f32_vec(file, "token_embd.weight")?;
    Ok(WeightMatrix::F32 { data, rows: stored.rows(), cols: hidden_dim })
}

/// The tensor that the output head is.
pub open spec fn head_name(file: GgufFile) -> Seq<char> {
    if matrix_fault(file, "output.weight"@) is None {
        "output.weight"@
    } else {
        "token_embd.weight"@
    }
}

/// Why a file with these hyperparameters cannot be loaded.
pub open spec fn weights_fault(
    file: GgufFile,
    hp: Glm52GgufHparams,
    leading_dense: usize,
    n_layer: usize,
) -> Option<LoadFault> {
    first_fault(
        embedding_fault(file),
        first_fault(
            vector_fault(file, "output_norm.weight"@),
            layers_fault(file, hp, leading_dense, n_layer as nat),
        ),
    )
}

/// Whether the tensors of a file have the sizes that these
/// hyperparameters say. A layer's sizes count where everything that is
/// read before the layer loads.
pub open spec fn sizes_fit(
    file: GgufFile,
    hp: Glm52GgufHparams,
    leading_dense: usize,
    n_layer: usize,
) -> bool {
    &&& has_cols(file, "token_embd.weight"@, hp.hidden_dim as int)
    &&& forall|l: nat|
        l < n_layer && weights_fault(file, hp, leading_dense, 0) is None && layers_fault(
            file,
            hp,
            leading_dense,
            l,
        ) is None ==> #[trigger] attn_sizes_fit(file, hp, l, full_layer(file, l))
}

/// What the engine of a file with these hyperparameters is.
pub open spec fn engine_is(
    file: GgufFile,
    hp: Glm52GgufHparams,
    m: Glm52FileMeta,
    e: Glm52Engine,
) -> bool {
    &&& e.weights.embedding.holds(
        vector_of(file, "token_embd.weight"@),
        file.tensor("token_embd.weight"@)->0.shape@[1] as usize as int,
        hp.hidden_dim as int,
    )
    &&& e.weights.final_norm_weight@ == vector_of(file, "output_norm.weight"@)
    &&& e.weights.output_head.is_tensor(file, head_name(file))
    &&& e.weights.layers@.len() == m.n_layer
    &&& forall|l: int|
        0 <= l < m.n_layer ==> layer_is(
            file,
            hp,
            m.leading_dense,
            l as nat,
            #[trigger] e.weights.layers@[l],
        )
    &&& e.cfg == (Glm52DecoderConfig {
        rms_norm_eps: m.rms_norm_eps,
        mla: mla_config_of(hp),
        indexer: indexer_config_of(hp),
        n_experts_active: m.n_experts_active,
        moe_renormalize: m.moe_renormalize,
        routed_scaling_factor: m.routed_scaling_factor,
    })
}

/// Loads what the hyperparameters describe.
pub fn load_glm52_weights(file: &GgufFile, hp: &Glm52GgufHparams, m: &Glm52FileMeta) -> (e: Result<
    Glm52Engine,
    LoadError,
>)
    requires
        file.complete(),
        sizes_fit(*file, *hp, m.leading_dense, m.n_layer),
    ensures
        match weights_fault(*file, *hp, m.leading_dense, m.n_layer) {
            Some(fault) => e is Err && e->Err_0@ == fault,
            None => e is Ok && engine_is(*file, *hp, *m, e->Ok_0),
        },
{
    let embedding = load_embedding_tensor(file, hp.hidden_dim)?;
    let final_norm_weight = load_f32_vec(file, "output_norm.weight")?;
    let output_head = match load_weight_matrix(file, "output.weight") {
        Ok(w) => w,
        Err(_) => load_weight_matrix(file, "token_embd.weight")?,
    };
    let mut layers: Vec<Glm52DecoderLayerWeights> = Vec::new();
    let mut l: usize = 0;
    while l < m.n_layer
        invariant
            l <= m.n_layer,
            file.complete(),
            sizes_fit(*file, *hp, m.leading_dense, m.n_layer),
            layers@.len() == l,
            forall|i: int|
                0 <= i < l ==> layer_is(
                    *file,
                    *hp,
                    m.leading_dense,
                    i as nat,
                    #[trigger] layers@[i],
                ),
            layers_fault(*file, *hp, m.leading_dense, l as nat) is None,
            weights_fault(*file, *hp, m.leading_dense, 0) is None,
            weights_fault(*file, *hp, m.leading_dense, m.n_layer) == layers_fault(
                *file,
                *hp,
                m.leading_dense,
                m.n_layer as nat,
            ),
        decreases m.n_layer - l,
    {
        assert(attn_sizes_fit(*file, *hp, l as nat, full_layer(*file, l as nat)));
        match load_layer(file, hp, m.leading_dense, l) {
            Ok(layer) => layers.push(layer),
            Err(e) => {
                proof {
                    assert(layers_fault(*file, *hp, m.leading_dense, (l + 1) as nat)
                        == layer_fault(*file, *hp, m.leading_dense, l as nat));
                    layers_fault_stays(
                        *file,
                        *hp,
                        m.leading_dense,
                        (l + 1) as nat,
                        m.n_layer as nat,
                    );
                }
                return Err(e);
            },
        }
        l += 1;
    }
    Ok(
        Glm52Engine {
            weights: Glm52DecoderWeights { embedding, layers, final_norm_weight, output_head },
            cfg: Glm52DecoderConfig {
                rms_norm_eps: m.rms_norm_eps,
                mla: glm52_mla_config(hp),
                indexer: glm52_indexer_config(hp),
                n_experts_active: m.n_experts_active,
                moe_renormalize: m.moe_renormalize,
                routed_scaling_factor: m.routed_scaling_factor,
            },
        },
    )
}

/// Whether the tensors of a file have the sizes that it declares, unless
/// it is refused before they count.
pub open spec fn file_sizes_fit(file: GgufFile) -> bool {
    hparams_fault(file) is None ==> {
        let arch = file.meta_str(ARCH_KEY@)->0;
        sizes_fit(
            file,
            sizes_of(file, arch),
            leading_of(file, arch),
            depth_of(file, arch),
        )
    }
}

fn rows_are(file: &GgufFile, layer: usize, name: &str, rows: Option<usize>) -> (yes: bool)
    ensures
        rows is Some ==> yes == has_rows(*file, block_name(layer as nat, name@), rows->0 as int),
        rows is None ==> yes == (matrix_fault(*file, block_name(layer as nat, name@)) is Some),
{
    match load_weight_matrix(file, block_name_text(layer, name).as_str()) {
        Ok(w) => match rows {
            Some(rows) => w.rows() == rows,
            None => false,
        },
        Err(_) => true,
    }
}

fn cols_are(file: &GgufFile, name: &str, cols: Option<usize>) -> (yes: bool)
    ensures
        cols is Some ==> yes == has_cols(*file, name@, cols->0 as int),
        cols is None ==> yes == (matrix_fault(*file, name@) is Some),
{
    match load_weight_matrix(file, name) {
        Ok(w) => match cols {
            Some(cols) => w.cols() == cols,
            None => false,
        },
        Err(_) => true,
    }
}

fn dims_are_fit(t: &TensorInfo) -> (yes: bool)
    ensures
        yes == dims_fit(*t),
{
    let mut i: usize = 0;
    while i < t.shape.len()
        invariant
            i <= t.shape@.len(),
            forall|j: int| 0 <= j < i ==> (#[trigger] t.shape@[j]) <= usize::MAX,
        decreases t.shape@.len() - i,
    {
        if t.shape[i] > usize::MAX as u64 {
            return false;
        }
        i += 1;
    }
    true
}

fn matrix_loads(file: &GgufFile, layer: usize, name: &str) -> (yes: bool)
    ensures
        yes == (matrix_fault(*file, block_name(layer as nat, name@)) is None),
{
    load_weight_matrix(file, block_name_text(layer, name).as_str()).is_ok()
}

fn vector_loads(file: &GgufFile, layer: usize, name: &str) -> (yes: bool)
    ensures
        yes == (vector_fault(*file, block_name(layer as nat, name@)) is None),
{
    load_f32_vec(file, block_name_text(layer, name).as_str()).is_ok()
}

fn indexer_is_sized(file: &GgufFile, hp: &Glm52GgufHparams, l: usize) -> (yes: bool)
    ensures
        yes == indexer_sizes_fit(*file, *hp, l as nat),
{
    if !vector_loads(file, l, "indexer.k_norm.weight") || !vector_loads(
        file,
        l,
        "indexer.k_norm.bias",
    ) {
        return true;
    }
    if !rows_are(file, l, "indexer.proj.weight", Some(hp.indexer_n_heads)) {
        return false;
    }
    if !matrix_loads(file, l, "indexer.proj.weight") {
        return true;
    }
    if !rows_are(file, l, "indexer.attn_k.weight", Some(hp.indexer_head_dim)) {
        return false;
    }
    if !matrix_loads(file, l, "indexer.attn_k.weight") {
        return true;
    }
    rows_are(
        file,
        l,
        "indexer.attn_q_b.weight",
        hp.indexer_n_heads.checked_mul(hp.indexer_head_dim),
    )
}

fn query_rows(hp: &Glm52GgufHparams) -> (rows: Option<usize>)
    ensures
        match rows {
            Some(n) => n == hp.num_heads * (hp.qk_nope_head_dim + hp.qk_rope_head_dim),
            None => hp.num_heads * (hp.qk_nope_head_dim + hp.qk_rope_head_dim) > usize::MAX,
        },
{
    proof {
        let n = hp.num_heads as int;
        let h = hp.qk_nope_head_dim + hp.qk_rope_head_dim;
        assert(n * h == h * n) by (nonlinear_arith);
        assert(n == 0 ==> n * h == 0) by (nonlinear_arith);
        assert(n > 0 && h > usize::MAX ==> n * h > usize::MAX) by (nonlinear_arith)
            requires
                0 <= n,
        ;
    }
    if hp.num_heads == 0 {
        return Some(0);
    }
    match hp.qk_nope_head_dim.checked_add(hp.qk_rope_head_dim) {
        Some(n) => n.checked_mul(hp.num_heads),
        None => None,
    }
}

fn layer_is_sized(file: &GgufFile, hp: &Glm52GgufHparams, l: usize) -> (yes: bool)
    ensures
        yes == attn_sizes_fit(*file, *hp, l as nat, full_layer(*file, l as nat)),
{
    if !rows_are(file, l, "attn_q_a.weight", Some(hp.q_lora_rank)) || !cols_are(
        file,
        block_name_text(l, "attn_q_a.weight").as_str(),
        Some(hp.hidden_dim),
    ) {
        return false;
    }
    if !matrix_loads(file, l, "attn_q_a.weight") {
        return true;
    }
    if !rows_are(file, l, "attn_q_b.weight", query_rows(hp)) {
        return false;
    }
    if !matrix_loads(file, l, "attn_q_b.weight") {
        return true;
    }
    let kv = hp.kv_lora_rank.checked_add(hp.qk_rope_head_dim);
    if !rows_are(file, l, "attn_kv_a_mqa.weight", kv) {
        return false;
    }
    if !matrix_loads(file, l, "attn_kv_a_mqa.weight") {
        return true;
    }
    let k_b = block_name_text(l, "attn_k_b.weight");
    let k_info = match file.find_tensor(k_b.as_str()) {
        Some(t) => t,
        None => {
            return true;
        },
    };
    if check_dims(
        k_info,
        k_b.as_str(),
        hp.qk_nope_head_dim,
        hp.kv_lora_rank,
        hp.num_heads,
    ).is_err() || !is_transposable(k_info.dtype) {
        return true;
    }
    if !dims_are_fit(k_info) {
        return false;
    }
    let v_b = block_name_text(l, "attn_v_b.weight");
    let v_info = match file.find_tensor(v_b.as_str()) {
        Some(t) => t,
        None => {
            return true;
        },
    };
    if check_dims(v_info, v_b.as_str(), hp.kv_lora_rank, hp.v_head_dim, hp.num_heads).is_err()
        || matches!(v_info.dtype, GgmlType::Other(_)) {
        return true;
    }
    if !dims_are_fit(v_info) {
        return false;
    }
    if !rows_are(file, l, "attn_output.weight", Some(hp.hidden_dim)) || !cols_are(
        file,
        block_name_text(l, "attn_output.weight").as_str(),
        hp.num_heads.checked_mul(hp.v_head_dim),
    ) {
        return false;
    }
    if !matrix_loads(file, l, "attn_output.weight") || !is_full_indexer_layer(file, l) {
        return true;
    }
    indexer_is_sized(file, hp, l)
}

/// Whether the tensors of a file have the sizes that these
/// hyperparameters say.
pub fn sizes_are_fit(
    file: &GgufFile,
    hp: &Glm52GgufHparams,
    leading_dense: usize,
    n_layer: usize,
) -> (yes: bool)
    requires
        file.complete(),
    ensures
        yes == sizes_fit(*file, *hp, leading_dense, n_layer),
{
    if !cols_are(file, "token_embd.weight", Some(hp.hidden_dim)) {
        return false;
    }
    if load_embedding_tensor(file, hp.hidden_dim).is_err() || load_f32_vec(
        file,
        "output_norm.weight",
    ).is_err() {
        return true;
    }
    let mut l: usize = 0;
    while l < n_layer
        invariant
            l <= n_layer,
            file.complete(),
            has_cols(*file, "token_embd.weight"@, hp.hidden_dim as int),
            weights_fault(*file, *hp, leading_dense, 0) is None,
            layers_fault(*file, *hp, leading_dense, l as nat) is None,
            forall|k: nat| k < l ==> #[trigger] attn_sizes_fit(*file, *hp, k, full_layer(*file, k)),
        decreases n_layer - l,
    {
        if !layer_is_sized(file, hp, l) {
            assert(!attn_sizes_fit(*file, *hp, l as nat, full_layer(*file, l as nat)));
            return false;
        }
        if load_layer(file, hp, leading_dense, l).is_err() {
            assert forall|k: nat|
                k < n_layer && layers_fault(*file, *hp, leading_dense, k)
                    is None implies #[trigger] attn_sizes_fit(
                *file,
                *hp,
                k,
                full_layer(*file, k),
            ) by {
                if k > l {
                    assert(layers_fault(*file, *hp, leading_dense, (l + 1) as nat) is Some);
                    layers_fault_stays(*file, *hp, leading_dense, (l + 1) as nat, k);
                }
            }
            return true;
        }
        l += 1;
    }
    true
}

/// Whether [`load_glm52_engine`] can be asked for a file.
pub fn file_fits(file: &GgufFile) -> (yes: bool)
    ensures
        yes == (file.complete() && file_sizes_fit(*file)),
{
    if !file.is_complete() {
        return false;
    }
    match read_glm52_hparams(file) {
        Ok((hp, m)) => sizes_are_fit(file, &hp, m.leading_dense, m.n_layer),
        Err(_) => true,
    }
}

/// Loads a GLM-5.2 file: the hyperparameters, then what they describe.
pub fn load_glm52_engine(file: &GgufFile) -> (e: Result<Glm52Engine, LoadError>)
    requires
        file.complete(),
        file_sizes_fit(*file),
    ensures
        hparams_fault(*file) is Some ==> e is Err && e->Err_0@ == hparams_fault(*file)->0,
        hparams_fault(*file) is None ==> exists|m: Glm52FileMeta| #[trigger]
            meta_is(*file, m) && match weights_fault(
                *file,
                sizes_of(*file, m.arch@),
                m.leading_dense,
                m.n_layer,
            ) {
                Some(fault) => e is Err && e->Err_0@ == fault,
                None => e is Ok && engine_is(*file, sizes_of(*file, m.arch@), m, e->Ok_0),
            },
{
    let (hp, meta) = read_glm52_hparams(file)?;
    load_glm52_weights(file, &hp, &meta)
}

/// A file determines what is read of it: two readings are refused alike,
/// and whatever loads from one is what loads from the other.
pub proof fn one_reading_of_a_file(file: GgufFile, a: Glm52FileMeta, b: Glm52FileMeta)
    requires
        meta_is(file, a),
        meta_is(file, b),
    ensures
        a.arch@ == b.arch@,
        a.leading_dense == b.leading_dense,
        a.n_layer == b.n_layer,
        forall|e: Glm52Engine|
            engine_is(file, sizes_of(file, a.arch@), a, e) ==> engine_is(
                file,
                sizes_of(file, b.arch@),
                b,
                e,
            ),
{
}

/// A head of the K decompression is turned round when it is loaded: what
/// the file holds in row `c` and column `r` of the head's matrix, which
/// has a row for each entry of the latent, stands in row `r` and column
/// `c` of the loaded one, which has a row for each unrotated element.
pub proof fn a_k_head_is_turned_round(
    file: GgufFile,
    name: Seq<char>,
    n_head: usize,
    nope: usize,
    kv_lora: usize,
    ws: Seq<WeightMatrix>,
    h: int,
    r: int,
    c: int,
)
    requires
        wk_b_are(file, name, n_head, nope, kv_lora, ws),
        file.tensor(name)->0.values@.len() == n_head * (kv_lora * nope),
        0 <= h < n_head,
        0 <= r < nope,
        0 <= c < kv_lora,
    ensures
        ws.len() == n_head,
        ws[h].n_rows() == nope,
        ws[h].n_cols() == kv_lora,
        ws[h] matches WeightMatrix::F32 { data, rows, cols } && data@[r * kv_lora + c]
            == file.tensor(name)->0.values@[h * (kv_lora * nope) + c * nope + r],
{
    let per = kv_lora * nope;
    let values = file.tensor(name)->0.values@;
    let head = head_of(values, h, per);
    assert(ws[h].holds(
        transpose(head, kv_lora as int, nope as int),
        nope as int,
        kv_lora as int,
    ));
    assert(0 <= per) by (nonlinear_arith)
        requires
            per == kv_lora * nope,
    ;
    head_bounds(h, n_head as int, per, values.len() as int);
    transpose_swaps(head, kv_lora as int, nope as int, c, r);
    assert(0 <= c * nope + r < per) by (nonlinear_arith)
        requires
            0 <= r < nope,
            0 <= c < kv_lora,
            per == kv_lora * nope,
    ;
    assert(head[c * nope + r] == values[h * per + (c * nope + r)]);
}

/// A head of the V decompression is loaded as it stands: of a plain
/// tensor, row `r` and column `c` are the same in the file and in the
/// loaded matrix, which has a row for each element of a value; of a
/// quantised one, head `h` is part `h` of the tensor.
pub proof fn a_v_head_stays_as_it_is(
    file: GgufFile,
    name: Seq<char>,
    n_head: usize,
    kv_lora: usize,
    v_head: usize,
    ws: Seq<WeightMatrix>,
    h: int,
    r: int,
    c: int,
)
    requires
        wv_b_are(file, name, n_head, kv_lora, v_head, ws),
        file.tensor(name)->0.values@.len() == n_head * (kv_lora * v_head),
        0 <= h < n_head,
        0 <= r < v_head,
        0 <= c < kv_lora,
    ensures
        ws.len() == n_head,
        ({
            let dtype = file.tensor(name)->0.dtype;
            let plain = dtype == GgmlType::F32 || dtype == GgmlType::F16 || dtype == GgmlType::BF16;
            &&& plain ==> ws[h].n_rows() == v_head && ws[h].n_cols() == kv_lora && (
            ws[h] matches WeightMatrix::F32 { data, rows, cols } && data@[r * kv_lora + c]
                == file.tensor(name)->0.values@[h * (kv_lora * v_head) + r * kv_lora + c])
            &&& !plain ==> (ws[h] matches WeightMatrix::Stored { tensor, part, parts, rows, cols }
                && tensor@ == name && part == h && parts == n_head)
        }),
{
    let per = kv_lora * v_head;
    let values = file.tensor(name)->0.values@;
    let head = head_of(values, h, per);
    let _ = ws[h];
    assert(0 <= per) by (nonlinear_arith)
        requires
            per == kv_lora * v_head,
    ;
    head_bounds(h, n_head as int, per, values.len() as int);
    assert(0 <= r * kv_lora + c < per) by (nonlinear_arith)
        requires
            0 <= r < v_head,
            0 <= c < kv_lora,
            per == kv_lora * v_head,
    ;
    assert(head[r * kv_lora + c] == values[h * per + (r * kv_lora + c)]);
}

/// What the K and the V decompression of a layer must be: of the three
/// dimensions that the keys say, fastest first, and the K decompression
/// of F32 or BF16, which alone can be turned round.
pub proof fn which_decompressions_are_taken(
    file: GgufFile,
    name: Seq<char>,
    n_head: usize,
    nope: usize,
    kv_lora: usize,
    v_head: usize,
)
    ensures
        wk_b_fault(file, name, n_head, nope, kv_lora) is None <==> {
            let t = file.tensor(name)->0;
            &&& file.has(name)
            &&& t.shape@.len() == 3
            &&& t.shape@[0] as usize == nope
            &&& t.shape@[1] as usize == kv_lora
            &&& t.shape@[2] as usize == n_head
            &&& t.dtype == GgmlType::F32 || t.dtype == GgmlType::BF16
        },
        wv_b_fault(file, name, n_head, kv_lora, v_head) is None <==> {
            let t = file.tensor(name)->0;
            &&& file.has(name)
            &&& t.shape@.len() == 3
            &&& t.shape@[0] as usize == kv_lora
            &&& t.shape@[1] as usize == v_head
            &&& t.shape@[2] as usize == n_head
            &&& !(t.dtype is Other)
        },
{
}

/// Each size and setting of a file that is read is the number under its
/// own key; what is not declared takes the value that the rest of the
/// file, or the format, gives it. The width of a value is `v_head_dim`
/// before `key_length`.
pub proof fn glm52_sizes_are_their_keys(file: GgufFile, m: Glm52FileMeta)
    requires
        hparams_fault(file) is None,
        meta_is(file, m),
    ensures
        file.meta_str("general.architecture"@) == Some(m.arch@),
        m.arch@ == "glm-dsa"@ || m.arch@ == "glm4"@,
        ({
            let hp = sizes_of(file, m.arch@);
            let v = file.meta_u64(m.arch@ + "."@ + "attention.v_head_dim"@);
            let k = file.meta_u64(m.arch@ + "."@ + "attention.key_length"@);
            let ffn = file.meta_u64(m.arch@ + "."@ + "feed_forward_length"@);
            let experts = file.meta_u64(m.arch@ + "."@ + "expert_feed_forward_length"@);
            let nope = file.meta_u64(m.arch@ + "."@ + "attention.qk_nope_head_dim"@);
            let rope = file.meta_u64(m.arch@ + "."@ + "attention.qk_rope_head_dim"@);
            &&& file.meta_u64(m.arch@ + "."@ + "embedding_length"@) matches Some(n)
                && hp.hidden_dim == n as usize
            &&& file.meta_u64(m.arch@ + "."@ + "attention.head_count"@) matches Some(n)
                && hp.num_heads == n as usize
            &&& file.meta_u64(m.arch@ + "."@ + "attention.q_lora_rank"@) matches Some(n)
                && hp.q_lora_rank == n as usize
            &&& file.meta_u64(m.arch@ + "."@ + "attention.kv_lora_rank"@) matches Some(n)
                && hp.kv_lora_rank == n as usize
            &&& nope is Some && hp.qk_nope_head_dim == nope->0 as usize
            &&& rope is Some && hp.qk_rope_head_dim == rope->0 as usize
            &&& hp.indexer_rope_dim == hp.qk_rope_head_dim
            &&& ffn is Some && hp.dense_ffn_dim == ffn->0 as usize
            &&& experts is Some ==> hp.moe_ffn_dim == experts->0 as usize
            &&& experts is None ==> hp.moe_ffn_dim == hp.dense_ffn_dim
            &&& v is Some ==> hp.v_head_dim == v->0 as usize
            &&& v is None && k is Some ==> hp.v_head_dim == k->0 as usize
            &&& v is None && k is None ==> hp.v_head_dim == hp.qk_nope_head_dim
        }),
        ({
            let hp = sizes_of(file, m.arch@);
            &&& match file.meta_u64(m.arch@ + "."@ + "attention.indexer_n_heads"@) {
                Some(n) => hp.indexer_n_heads == n as usize,
                None => hp.indexer_n_heads == 4,
            }
            &&& match file.meta_u64(m.arch@ + "."@ + "attention.indexer_head_dim"@) {
                Some(n) => hp.indexer_head_dim == n as usize,
                None => hp.indexer_head_dim == 128,
            }
            &&& match file.meta_u64(m.arch@ + "."@ + "attention.indexer_top_k"@) {
                Some(n) => hp.indexer_top_k == n as usize,
                None => hp.indexer_top_k == 2048,
            }
            &&& match file.meta_u64(m.arch@ + "."@ + "expert_count"@) {
                Some(n) => hp.n_experts == n as usize,
                None => hp.n_experts == 0,
            }
            &&& match file.meta_u64(m.arch@ + "."@ + "expert_shared_count"@) {
                Some(n) => hp.n_shared_experts == n as usize,
                None => hp.n_shared_experts == 1,
            }
            &&& match file.meta_f32(m.arch@ + "."@ + "rope.freq_base"@) {
                Some(bits) => hp.rope_theta == bits,
                None => hp.rope_theta == THETA_1E6,
            }
        }),
        match file.meta_u64(m.arch@ + "."@ + "leading_dense_block_count"@) {
            Some(n) => m.leading_dense == if n as usize <= m.n_layer {
                n as usize
            } else {
                m.n_layer
            },
            None => m.leading_dense == 0,
        },
        match file.meta_f32(m.arch@ + "."@ + "attention.layer_norm_rms_epsilon"@) {
            Some(bits) => m.rms_norm_eps == bits,
            None => m.rms_norm_eps == EPS_1E_5,
        },
        match file.meta_u64(m.arch@ + "."@ + "expert_used_count"@) {
            Some(n) => m.n_experts_active == n as usize,
            None => m.n_experts_active == 8,
        },
        match file.meta_u64(m.arch@ + "."@ + "expert_norm_topk_prob"@) {
            Some(n) => m.moe_renormalize == (n != 0),
            None => !m.moe_renormalize,
        },
        match file.meta_f32(m.arch@ + "."@ + "expert_routing_scale"@) {
            Some(bits) => m.routed_scaling_factor == bits,
            None => m.routed_scaling_factor == SCALE_2_5,
        },
        file.meta_u64(m.arch@ + "."@ + "block_count"@) is Some,
        file.meta(m.arch@ + "."@ + "nextn_predict_layers"@) is None ==> m.n_layer == file.meta_u64(
            m.arch@ + "."@ + "block_count"@,
        )->0 as usize,
        file.meta_u64(m.arch@ + "."@ + "nextn_predict_layers"@) matches Some(n) ==> m.n_layer
            + n as usize == file.meta_u64(m.arch@ + "."@ + "block_count"@)->0 as usize,
{
    let arch = m.arch@;
    assert(required_fault(file, arch) is None);
}

/// The attention and the indexer take each dimension from the
/// hyperparameter of its name; both rotate with the same base.
pub proof fn configurations_carry_the_hyperparameters(hp: Glm52GgufHparams)
    ensures
        mla_config_of(hp).num_heads == hp.num_heads,
        mla_config_of(hp).q_lora_rank == hp.q_lora_rank,
        mla_config_of(hp).kv_lora_rank == hp.kv_lora_rank,
        mla_config_of(hp).qk_nope_head_dim == hp.qk_nope_head_dim,
        mla_config_of(hp).qk_rope_head_dim == hp.qk_rope_head_dim,
        mla_config_of(hp).v_head_dim == hp.v_head_dim,
        mla_config_of(hp).rope.theta == hp.rope_theta,
        indexer_config_of(hp).n_heads == hp.indexer_n_heads,
        indexer_config_of(hp).head_dim == hp.indexer_head_dim,
        indexer_config_of(hp).rope_dim == hp.indexer_rope_dim,
        indexer_config_of(hp).top_k == hp.indexer_top_k,
        indexer_config_of(hp).rope_theta == hp.rope_theta,
{
}

/// A layer is loaded by name: each projection and norm of its attention,
/// of its indexer and of its feed-forward is the tensor so named of the
/// layer's own block. An indexer is there exactly where the file has its
/// projection.
pub proof fn a_glm52_layer_is_loaded_by_name(
    file: GgufFile,
    hp: Glm52GgufHparams,
    leading_dense: usize,
    l: nat,
    w: Glm52DecoderLayerWeights,
)
    requires
        layer_is(file, hp, leading_dense, l, w),
    ensures
        w.attn_norm_weight@ == vector_of(file, "blk."@ + decimal(l) + "."@ + "attn_norm.weight"@),
        w.ffn_norm_weight@ == vector_of(file, "blk."@ + decimal(l) + "."@ + "ffn_norm.weight"@),
        w.attn.q_a_proj.is_tensor(file, "blk."@ + decimal(l) + "."@ + "attn_q_a.weight"@),
        w.attn.q_a_layernorm@ == vector_of(file, "blk."@ + decimal(l) + "."@ + "attn_q_a_norm.weight"@),
        w.attn.q_b_proj.is_tensor(file, "blk."@ + decimal(l) + "."@ + "attn_q_b.weight"@),
        w.attn.kv_a_proj_with_mqa.is_tensor(file, "blk."@ + decimal(l) + "."@ + "attn_kv_a_mqa.weight"@),
        w.attn.kv_a_layernorm@ == vector_of(file, "blk."@ + decimal(l) + "."@ + "attn_kv_a_norm.weight"@),
        w.attn.o_proj.is_tensor(file, "blk."@ + decimal(l) + "."@ + "attn_output.weight"@),
        wk_b_are(
            file,
            "blk."@ + decimal(l) + "."@ + "attn_k_b.weight"@,
            hp.num_heads,
            hp.qk_nope_head_dim,
            hp.kv_lora_rank,
            w.attn.wk_b@,
        ),
        wv_b_are(
            file,
            "blk."@ + decimal(l) + "."@ + "attn_v_b.weight"@,
            hp.num_heads,
            hp.kv_lora_rank,
            hp.v_head_dim,
            w.attn.wv_b@,
        ),
        w.is_full_indexer_layer <==> file.has("blk."@ + decimal(l) + "."@ + "indexer.proj.weight"@),
        w.attn.indexer is Some <==> w.is_full_indexer_layer,
        w.attn.indexer matches Some(x) ==> {
            &&& x.k_norm_weight@ == vector_of(file, "blk."@ + decimal(l) + "."@ + "indexer.k_norm.weight"@)
            &&& x.k_norm_bias@ == vector_of(file, "blk."@ + decimal(l) + "."@ + "indexer.k_norm.bias"@)
            &&& x.proj.is_tensor(file, "blk."@ + decimal(l) + "."@ + "indexer.proj.weight"@)
            &&& x.attn_k.is_tensor(file, "blk."@ + decimal(l) + "."@ + "indexer.attn_k.weight"@)
            &&& x.attn_q_b.is_tensor(file, "blk."@ + decimal(l) + "."@ + "indexer.attn_q_b.weight"@)
        },
        match w.ffn {
            Glm52LayerFfn::Dense(d) => {
                &&& l < leading_dense || (file.has("blk."@ + decimal(l) + "."@ + "ffn_gate.weight"@) && !file.has("blk."@ + decimal(l) + "."@ + "ffn_gate_inp.weight"@))
                &&& d.gate_proj.is_tensor(file, "blk."@ + decimal(l) + "."@ + "ffn_gate.weight"@)
                &&& d.up_proj.is_tensor(file, "blk."@ + decimal(l) + "."@ + "ffn_up.weight"@)
                &&& d.down_proj.is_tensor(file, "blk."@ + decimal(l) + "."@ + "ffn_down.weight"@)
            },
            Glm52LayerFfn::Moe(m) => {
                &&& leading_dense <= l && !(file.has("blk."@ + decimal(l) + "."@ + "ffn_gate.weight"@) && !file.has("blk."@ + decimal(l) + "."@ + "ffn_gate_inp.weight"@))
                &&& m.router_weight.is_tensor(file, "blk."@ + decimal(l) + "."@ + "ffn_gate_inp.weight"@)
                &&& m.e_score_correction_bias@ == vector_of(file, "blk."@ + decimal(l) + "."@ + "exp_probs_b.bias"@)
                &&& m.experts@.len() == hp.n_experts
                &&& forall|i: int|
                    0 <= i < hp.n_experts ==> {
                        let x = #[trigger] m.experts@[i];
                        &&& x.gate.is_part(file, "blk."@ + decimal(l) + "."@ + "ffn_gate_exps.weight"@, i, hp.n_experts as int)
                        &&& x.up.is_part(file, "blk."@ + decimal(l) + "."@ + "ffn_up_exps.weight"@, i, hp.n_experts as int)
                        &&& x.down.is_part(file, "blk."@ + decimal(l) + "."@ + "ffn_down_exps.weight"@, i, hp.n_experts as int)
                    }
                &&& m.shared_expert.gate.is_tensor(file, "blk."@ + decimal(l) + "."@ + "ffn_gate_shexp.weight"@)
                &&& m.shared_expert.up.is_tensor(file, "blk."@ + decimal(l) + "."@ + "ffn_up_shexp.weight"@)
                &&& m.shared_expert.down.is_tensor(file, "blk."@ + decimal(l) + "."@ + "ffn_down_shexp.weight"@)
            },
        },
{
}

/// What the engine takes from the file: the embedding, held in place, the
/// final norm and the output head by name, the head being the embedding
/// where `output.weight` cannot be had.
pub proof fn a_glm52_engine_is_its_file(
    file: GgufFile,
    hp: Glm52GgufHparams,
    m: Glm52FileMeta,
    e: Glm52Engine,
)
    requires
        engine_is(file, hp, m, e),
    ensures
        e.weights.embedding matches WeightMatrix::F32 { data, rows, cols } && data@ == vector_of(
            file,
            "token_embd.weight"@,
        ) && rows == file.tensor("token_embd.weight"@)->0.shape@[1] as usize && cols
            == hp.hidden_dim,
        e.weights.final_norm_weight@ == vector_of(file, "output_norm.weight"@),
        file.has("output.weight"@) && file.tensor("output.weight"@)->0.shape@.len() == 2
            ==> e.weights.output_head.is_tensor(file, "output.weight"@),
        !file.has("output.weight"@) ==> e.weights.output_head.is_tensor(
            file,
            "token_embd.weight"@,
        ),
        e.weights.layers@.len() == m.n_layer,
        forall|l: int|
            0 <= l < m.n_layer ==> layer_is(
                file,
                hp,
                m.leading_dense,
                l as nat,
                #[trigger] e.weights.layers@[l],
            ),
        e.cfg.rms_norm_eps == m.rms_norm_eps,
        e.cfg.n_experts_active == m.n_experts_active,
        e.cfg.moe_renormalize == m.moe_renormalize,
        e.cfg.routed_scaling_factor == m.routed_scaling_factor,
        e.cfg.mla == mla_config_of(hp),
        e.cfg.indexer == indexer_config_of(hp),
{
}

/// Which files the loader reads: those of the two architectures that
/// declare every count and width.
pub proof fn which_files_are_read(file: GgufFile, arch: Seq<char>, blocks: usize)
    requires
        file.meta_str("general.architecture"@) == Some(arch),
        blocks == file.meta_u64(arch + "."@ + "block_count"@)->0 as usize,
    ensures
        hparams_fault(file) is None <==> {
            &&& arch == "glm-dsa"@ || arch == "glm4"@
            &&& trunk_fault(file, arch, blocks) is None
            &&& file.meta_u64(arch + "."@ + "block_count"@) is Some
            &&& file.meta_u64(arch + "."@ + "embedding_length"@) is Some
            &&& file.meta_u64(arch + "."@ + "feed_forward_length"@) is Some
            &&& file.meta_u64(arch + "."@ + "attention.head_count"@) is Some
            &&& file.meta_u64(arch + "."@ + "attention.q_lora_rank"@) is Some
            &&& file.meta_u64(arch + "."@ + "attention.kv_lora_rank"@) is Some
            &&& file.meta_u64(arch + "."@ + "attention.qk_nope_head_dim"@) is Some
            &&& file.meta_u64(arch + "."@ + "attention.qk_rope_head_dim"@) is Some
        },
        arch != "glm-dsa"@ && arch != "glm4"@ ==> hparams_fault(file) == Some(
            LoadFault::UnsupportedArchitecture(arch),
        ),
{
}

/// Which tensors a layer must have: those of its attention, its indexer's
/// where it has the indexer's projection, and those of its own kind of
/// feed-forward block.
pub proof fn what_a_layer_must_have(
    file: GgufFile,
    hp: Glm52GgufHparams,
    leading_dense: usize,
    l: nat,
)
    ensures
        layer_fault(file, hp, leading_dense, l) is None <==> {
            let dense = l < leading_dense || (file.has("blk."@ + decimal(l) + "."@ + "ffn_gate.weight"@) && !file.has("blk."@ + decimal(l) + "."@ + "ffn_gate_inp.weight"@));
            &&& matrix_fault(file, "blk."@ + decimal(l) + "."@ + "attn_q_a.weight"@) is None
            &&& vector_fault(file, "blk."@ + decimal(l) + "."@ + "attn_q_a_norm.weight"@) is None
            &&& matrix_fault(file, "blk."@ + decimal(l) + "."@ + "attn_q_b.weight"@) is None
            &&& matrix_fault(file, "blk."@ + decimal(l) + "."@ + "attn_kv_a_mqa.weight"@) is None
            &&& vector_fault(file, "blk."@ + decimal(l) + "."@ + "attn_kv_a_norm.weight"@) is None
            &&& matrix_fault(file, "blk."@ + decimal(l) + "."@ + "attn_output.weight"@) is None
            &&& vector_fault(file, "blk."@ + decimal(l) + "."@ + "attn_norm.weight"@) is None
            &&& vector_fault(file, "blk."@ + decimal(l) + "."@ + "ffn_norm.weight"@) is None
            &&& wk_b_fault(
                file,
                "blk."@ + decimal(l) + "."@ + "attn_k_b.weight"@,
                hp.num_heads,
                hp.qk_nope_head_dim,
                hp.kv_lora_rank,
            ) is None
            &&& wv_b_fault(
                file,
                "blk."@ + decimal(l) + "."@ + "attn_v_b.weight"@,
                hp.num_heads,
                hp.kv_lora_rank,
                hp.v_head_dim,
            ) is None
            &&& file.has("blk."@ + decimal(l) + "."@ + "indexer.proj.weight"@) ==> {
                &&& vector_fault(file, "blk."@ + decimal(l) + "."@ + "indexer.k_norm.weight"@) is None
                &&& vector_fault(file, "blk."@ + decimal(l) + "."@ + "indexer.k_norm.bias"@) is None
                &&& matrix_fault(file, "blk."@ + decimal(l) + "."@ + "indexer.proj.weight"@) is None
                &&& matrix_fault(file, "blk."@ + decimal(l) + "."@ + "indexer.attn_k.weight"@) is None
                &&& matrix_fault(file, "blk."@ + decimal(l) + "."@ + "indexer.attn_q_b.weight"@) is None
            }
            &&& dense ==> {
                &&& matrix_fault(file, "blk."@ + decimal(l) + "."@ + "ffn_gate.weight"@) is None
                &&& matrix_fault(file, "blk."@ + decimal(l) + "."@ + "ffn_up.weight"@) is None
                &&& matrix_fault(file, "blk."@ + decimal(l) + "."@ + "ffn_down.weight"@) is None
            }
            &&& !dense ==> {
                &&& parts_fault(file, "blk."@ + decimal(l) + "."@ + "ffn_gate_exps.weight"@, hp.n_experts) is None
                &&& parts_fault(file, "blk."@ + decimal(l) + "."@ + "ffn_up_exps.weight"@, hp.n_experts) is None
                &&& parts_fault(file, "blk."@ + decimal(l) + "."@ + "ffn_down_exps.weight"@, hp.n_experts) is None
                &&& matrix_fault(file, "blk."@ + decimal(l) + "."@ + "ffn_gate_shexp.weight"@) is None
                &&& matrix_fault(file, "blk."@ + decimal(l) + "."@ + "ffn_up_shexp.weight"@) is None
                &&& matrix_fault(file, "blk."@ + decimal(l) + "."@ + "ffn_down_shexp.weight"@) is None
                &&& matrix_fault(file, "blk."@ + decimal(l) + "."@ + "ffn_gate_inp.weight"@) is None
                &&& vector_fault(file, "blk."@ + decimal(l) + "."@ + "exp_probs_b.bias"@) is None
            }
        },
{
}

/// Which files' weights load: the embedding and the last norm are there,
/// and every layer loads; the first layer that does not is reported.
pub proof fn which_weights_load(
    file: GgufFile,
    hp: Glm52GgufHparams,
    leading_dense: usize,
    n_layer: usize,
)
    ensures
        weights_fault(file, hp, leading_dense, n_layer) is None <==> {
            &&& matrix_fault(file, "token_embd.weight"@) is None
            &&& vector_fault(file, "token_embd.weight"@) is None
            &&& vector_fault(file, "output_norm.weight"@) is None
            &&& forall|l: nat|
                l < n_layer ==> #[trigger] layer_fault(file, hp, leading_dense, l) is None
        },
{
    layers_load_one_by_one(file, hp, leading_dense, n_layer as nat);
}

/// Layers load where each of them does.
#[verifier::rlimit(40)]
#[verifier::spinoff_prover]
pub proof fn layers_load_one_by_one(
    file: GgufFile,
    hp: Glm52GgufHparams,
    leading_dense: usize,
    n: nat,
)
    ensures
        layers_fault(file, hp, leading_dense, n) is None <==> forall|l: nat|
            l < n ==> #[trigger] layer_fault(file, hp, leading_dense, l) is None,
        layers_fault(file, hp, leading_dense, n) matches Some(fault) ==> exists|l: nat|
            l < n && #[trigger] layer_fault(file, hp, leading_dense, l) == Some(fault) && forall|
                k: nat,
            |
                k < l ==> #[trigger] layer_fault(file, hp, leading_dense, k) is None,
    decreases n,
{
    if n > 0 {
        let m = (n - 1) as nat;
        layers_load_one_by_one(file, hp, leading_dense, m);
        let last = layer_fault(file, hp, leading_dense, m);
        assert(layers_fault(file, hp, leading_dense, n) == first_fault(
            layers_fault(file, hp, leading_dense, m),
            last,
        ));
        if layers_fault(file, hp, leading_dense, m) is None && last is None {
            assert forall|l: nat| l < n implies #[trigger] layer_fault(
                file,
                hp,
                leading_dense,
                l,
            ) is None by {
            }
        }
    }
}

/// Of several keys that are missing, the first of those read is named.
pub proof fn the_first_missing_key_is_named(file: GgufFile, arch: Seq<char>)
    ensures
        file.meta_u64(arch + "."@ + "embedding_length"@) is None ==> required_fault(file, arch) == Some(
            LoadFault::MissingHparam(arch + "."@ + "embedding_length"@),
        ),
        file.meta_u64(arch + "."@ + "embedding_length"@) is Some && file.meta_u64(arch + "."@ + "feed_forward_length"@) is None ==> required_fault(file, arch) == Some(
            LoadFault::MissingHparam(arch + "."@ + "feed_forward_length"@),
        ),
        file.meta_u64(arch + "."@ + "embedding_length"@) is Some && file.meta_u64(arch + "."@ + "feed_forward_length"@) is Some && file.meta_u64(arch + "."@ + "attention.head_count"@) is None ==> required_fault(file, arch) == Some(
            LoadFault::MissingHparam(arch + "."@ + "attention.head_count"@),
        ),
        file.meta_u64(arch + "."@ + "embedding_length"@) is Some && file.meta_u64(arch + "."@ + "feed_forward_length"@) is Some && file.meta_u64(arch + "."@ + "attention.head_count"@) is Some && file.meta_u64(arch + "."@ + "attention.q_lora_rank"@) is None ==> required_fault(file, arch) == Some(
            LoadFault::MissingHparam(arch + "."@ + "attention.q_lora_rank"@),
        ),
        file.meta_u64(arch + "."@ + "embedding_length"@) is Some && file.meta_u64(arch + "."@ + "feed_forward_length"@) is Some && file.meta_u64(arch + "."@ + "attention.head_count"@) is Some && file.meta_u64(arch + "."@ + "attention.q_lora_rank"@) is Some && file.meta_u64(arch + "."@ + "attention.kv_lora_rank"@) is None ==> required_fault(file, arch) == Some(
            LoadFault::MissingHparam(arch + "."@ + "attention.kv_lora_rank"@),
        ),
        file.meta_u64(arch + "."@ + "embedding_length"@) is Some && file.meta_u64(arch + "."@ + "feed_forward_length"@) is Some && file.meta_u64(arch + "."@ + "attention.head_count"@) is Some && file.meta_u64(arch + "."@ + "attention.q_lora_rank"@) is Some && file.meta_u64(arch + "."@ + "attention.kv_lora_rank"@) is Some && file.meta_u64(arch + "."@ + "attention.qk_nope_head_dim"@) is None ==> required_fault(file, arch) == Some(
            LoadFault::MissingHparam(arch + "."@ + "attention.qk_nope_head_dim"@),
        ),
        file.meta_u64(arch + "."@ + "embedding_length"@) is Some && file.meta_u64(arch + "."@ + "feed_forward_length"@) is Some && file.meta_u64(arch + "."@ + "attention.head_count"@) is Some && file.meta_u64(arch + "."@ + "attention.q_lora_rank"@) is Some && file.meta_u64(arch + "."@ + "attention.kv_lora_rank"@) is Some && file.meta_u64(arch + "."@ + "attention.qk_nope_head_dim"@) is Some && file.meta_u64(arch + "."@ + "attention.qk_rope_head_dim"@) is None ==> required_fault(file, arch) == Some(
            LoadFault::MissingHparam(arch + "."@ + "attention.qk_rope_head_dim"@),
        ),
{
}

/// Of several tensors that are missing, the first of those read is named.
pub proof fn the_first_missing_indexer_tensor_is_named(file: GgufFile, l: nat)
    ensures
        !file.has("blk."@ + decimal(l) + "."@ + "indexer.k_norm.weight"@) ==> indexer_fault(file, l) == Some(
            LoadFault::TensorNotFound("blk."@ + decimal(l) + "."@ + "indexer.k_norm.weight"@),
        ),
        vector_fault(file, "blk."@ + decimal(l) + "."@ + "indexer.k_norm.weight"@) is None && !file.has("blk."@ + decimal(l) + "."@ + "indexer.k_norm.bias"@) ==> indexer_fault(file, l) == Some(
            LoadFault::TensorNotFound("blk."@ + decimal(l) + "."@ + "indexer.k_norm.bias"@),
        ),
        vector_fault(file, "blk."@ + decimal(l) + "."@ + "indexer.k_norm.weight"@) is None && vector_fault(file, "blk."@ + decimal(l) + "."@ + "indexer.k_norm.bias"@) is None && !file.has("blk."@ + decimal(l) + "."@ + "indexer.proj.weight"@) ==> indexer_fault(file, l) == Some(
            LoadFault::TensorNotFound("blk."@ + decimal(l) + "."@ + "indexer.proj.weight"@),
        ),
        vector_fault(file, "blk."@ + decimal(l) + "."@ + "indexer.k_norm.weight"@) is None && vector_fault(file, "blk."@ + decimal(l) + "."@ + "indexer.k_norm.bias"@) is None && matrix_fault(file, "blk."@ + decimal(l) + "."@ + "indexer.proj.weight"@) is None && !file.has("blk."@ + decimal(l) + "."@ + "indexer.attn_k.weight"@) ==> indexer_fault(file, l) == Some(
            LoadFault::TensorNotFound("blk."@ + decimal(l) + "."@ + "indexer.attn_k.weight"@),
        ),
        vector_fault(file, "blk."@ + decimal(l) + "."@ + "indexer.k_norm.weight"@) is None && vector_fault(file, "blk."@ + decimal(l) + "."@ + "indexer.k_norm.bias"@) is None && matrix_fault(file, "blk."@ + decimal(l) + "."@ + "indexer.proj.weight"@) is None && matrix_fault(file, "blk."@ + decimal(l) + "."@ + "indexer.attn_k.weight"@) is None && !file.has("blk."@ + decimal(l) + "."@ + "indexer.attn_q_b.weight"@) ==> indexer_fault(file, l) == Some(
            LoadFault::TensorNotFound("blk."@ + decimal(l) + "."@ + "indexer.attn_q_b.weight"@),
        ),
{
}

/// Of several tensors that are missing, the first of those read is named.
pub proof fn the_first_missing_dense_tensor_is_named(file: GgufFile, l: nat)
    ensures
        !file.has("blk."@ + decimal(l) + "."@ + "ffn_gate.weight"@) ==> dense_fault(file, l) == Some(
            LoadFault::TensorNotFound("blk."@ + decimal(l) + "."@ + "ffn_gate.weight"@),
        ),
        matrix_fault(file, "blk."@ + decimal(l) + "."@ + "ffn_gate.weight"@) is None && !file.has("blk."@ + decimal(l) + "."@ + "ffn_up.weight"@) ==> dense_fault(file, l) == Some(
            LoadFault::TensorNotFound("blk."@ + decimal(l) + "."@ + "ffn_up.weight"@),
        ),
        matrix_fault(file, "blk."@ + decimal(l) + "."@ + "ffn_gate.weight"@) is None && matrix_fault(file, "blk."@ + decimal(l) + "."@ + "ffn_up.weight"@) is None && !file.has("blk."@ + decimal(l) + "."@ + "ffn_down.weight"@) ==> dense_fault(file, l) == Some(
            LoadFault::TensorNotFound("blk."@ + decimal(l) + "."@ + "ffn_down.weight"@),
        ),
{
}

} // verus!
