//! The loaders, on small files made here.

use ferrox_models::engine::{MlaLayerFfn, MlaRoute};
use ferrox_models::gemma4_engine::{
    token_steps, Gemma4AttnWeights, Gemma4Engine, Gemma4Hparams, Gemma4LayerWeights, Gemma4Weights,
    KvUse,
};
use ferrox_models::gemma4_gguf_loader::{
    load_gemma4_engine, meta_bool_array, meta_usize_array, read_gemma4_hparams, refuse_moe_layer,
};
use ferrox_models::gguf::{GgmlType, GgufFile, GgufValue, TensorInfo};
use ferrox_models::glm52_decoder::{
    top_k_layer, Glm52DecodeState, Glm52DecoderLayerWeights, Glm52DenseFfnWeights, Glm52LayerFfn,
};
use ferrox_models::glm52_gguf_loader::{
    file_fits, load_glm52_attn, load_glm52_dense_ffn, load_glm52_engine, load_glm52_moe_ffn,
    load_wk_b_transposed, load_wv_b, read_glm52_hparams, sizes_are_fit, Glm52GgufHparams,
};
use ferrox_models::hybrid_gguf_loader::{
    detect_layer_kind, layer_fits, load_gdn_layer_weights, read_hybrid_hparams, try_load, GdnConfig,
    GdnWeights, HybridHparams, HybridLayerKind,
};
use ferrox_models::load_error::LoadError;
use ferrox_models::mla_gguf_loader::{load_mla_engine, read_deepseek2_hparams, GatingFunction};
use ferrox_models::mla_q_proj::MlaQProj;
use ferrox_models::weights::WeightMatrix;

/// A tensor of rows and columns (or slices, rows and columns), filled
/// with one value.
fn tensor(name: &str, shape: &[usize], value: f32) -> TensorInfo {
    values(name, shape, vec![value; shape.iter().product()])
}

fn values(name: &str, shape: &[usize], values: Vec<f32>) -> TensorInfo {
    TensorInfo {
        name: name.to_string(),
        shape: shape.iter().rev().map(|&d| d as u64).collect(),
        dtype: GgmlType::F32,
        values: values.into_iter().map(f32::to_bits).collect(),
    }
}

fn file(
    arch: &str,
    kv: &[(&str, u64)],
    fkv: &[(&str, f32)],
    other: Vec<(&str, GgufValue)>,
    tensors: Vec<TensorInfo>,
) -> GgufFile {
    let mut metadata = vec![(
        "general.architecture".to_string(),
        GgufValue::String(arch.to_string()),
    )];
    for &(k, v) in kv {
        metadata.push((k.to_string(), GgufValue::U64(v)));
    }
    for &(k, v) in fkv {
        let float = GgufValue::F32 { bits: v.to_bits(), text: format!("{v:?}") };
        metadata.push((k.to_string(), float));
    }
    for (k, v) in other {
        metadata.push((k.to_string(), v));
    }
    let file = GgufFile { metadata, tensors };
    assert!(file.is_complete());
    file
}

// The MLA loader.

#[test]
fn an_attention_temperature_is_refused_with_its_scale_and_its_length() {
    let mut tensors = ends();
    attention_side(&mut tensors, 0, QForm::LowRank);
    dense_side(&mut tensors, 0);
    let mut kv = deepseek2_kv(1, 1, 0);
    kv.push(("deepseek2.attention.temperature_length", 8192));
    for (scale, written) in [(0.1f32, "0.1"), (2.0, "2"), (1e-7, "0.0000001"), (-2.5e20, "-250000000000000000000")] {
        let fkv = [("deepseek2.attention.temperature_scale", scale)];
        let f = file("deepseek2", &kv, &fkv, vec![], vec![]);
        let wanted = format!(
            "`deepseek2.attention.temperature_scale = {written}` (floor \
             `deepseek2.attention.temperature_length = 8192`): llama.cpp's deepseek2 graph"
        );
        match read_deepseek2_hparams(&f) {
            Err(LoadError::UnsupportedFeature(arch, msg)) => {
                assert_eq!(arch, "deepseek2");
                assert!(msg.starts_with(&wanted), "{msg}");
                assert!(msg.ends_with("run Mistral-Large-3 at temperature 1"), "{msg}");
            }
            other => panic!("{other:?}"),
        }
    }
    let off = [("deepseek2.attention.temperature_scale", 0.0f32)];
    let f = file("deepseek2", &kv, &off, vec![], tensors);
    assert!(load_mla_engine(&f).is_ok());
}

/// Which Q tensors a layer carries.
#[derive(Clone, Copy, PartialEq)]
enum QForm {
    LowRank,
    Direct,
    Both,
}

fn attention_side(tensors: &mut Vec<TensorInfo>, l: usize, q_form: QForm) {
    let mut add = |name: &str, shape: &[usize], v: f32| {
        tensors.push(tensor(&format!("blk.{l}.{name}.weight"), shape, v));
    };
    add("attn_norm", &[16], 1.0);
    add("ffn_norm", &[16], 1.0);
    if q_form != QForm::Direct {
        add("attn_q_a", &[8, 16], 0.01);
        add("attn_q_b", &[12, 8], 0.01);
    }
    if q_form != QForm::LowRank {
        add("attn_q", &[12, 16], 0.01);
    }
    add("attn_kv_a_mqa", &[6, 16], 0.01);
    add("attn_kv_b", &[16, 4], 0.01);
    add("attn_output", &[16, 8], 0.01);
}

fn ends() -> Vec<TensorInfo> {
    vec![
        tensor("token_embd.weight", &[8, 16], 0.01),
        tensor("output_norm.weight", &[16], 1.0),
        tensor("output.weight", &[8, 16], 0.02),
    ]
}

fn dense_side(tensors: &mut Vec<TensorInfo>, l: usize) {
    tensors.push(tensor(&format!("blk.{l}.ffn_gate.weight"), &[32, 16], 0.01));
    tensors.push(tensor(&format!("blk.{l}.ffn_up.weight"), &[32, 16], 0.01));
    tensors.push(tensor(&format!("blk.{l}.ffn_down.weight"), &[16, 32], 0.01));
}

fn deepseek2_kv(block_count: u64, leading_dense: u64, experts: u64) -> Vec<(&'static str, u64)> {
    vec![
        ("deepseek2.block_count", block_count),
        ("deepseek2.embedding_length", 16),
        ("deepseek2.feed_forward_length", 32),
        ("deepseek2.attention.head_count", 2),
        ("deepseek2.attention.q_lora_rank", 8),
        ("deepseek2.attention.kv_lora_rank", 4),
        ("deepseek2.attention.qk_nope_head_dim", 4),
        ("deepseek2.attention.qk_rope_head_dim", 2),
        ("deepseek2.attention.v_head_dim", 4),
        ("deepseek2.leading_dense_block_count", leading_dense),
        ("deepseek2.expert_count", experts),
    ]
}

const FKV: [(&str, f32); 2] = [
    ("deepseek2.attention.layer_norm_rms_epsilon", 1e-5),
    ("deepseek2.rope.freq_base", 10000.0),
];

fn dense_deepseek2_with(
    n_layers: usize,
    n_mtp_blocks: u64,
    q_form: QForm,
    rope_scaling: Option<&str>,
) -> GgufFile {
    let mut tensors = ends();
    for l in 0..n_layers {
        attention_side(&mut tensors, l, q_form);
        dense_side(&mut tensors, l);
    }
    let mut kv = deepseek2_kv(n_layers as u64 + n_mtp_blocks, n_layers as u64, 0);
    kv.push(("deepseek2.nextn_predict_layers", n_mtp_blocks));
    let other = rope_scaling
        .map(|k| {
            (
                "deepseek2.rope.scaling.type",
                GgufValue::String(k.to_string()),
            )
        })
        .into_iter()
        .collect();
    file("deepseek2", &kv, &FKV, other, tensors)
}

#[test]
fn tests_load_synthetic_deepseek2_dense_and_forward() {
    let engine = load_mla_engine(&dense_deepseek2_with(2, 0, QForm::LowRank, None)).unwrap();
    assert_eq!(engine.layers.len(), 2);
    assert_eq!(engine.vocab_size(), 8);
    assert_eq!(engine.rms_norm_eps, 1e-5f32.to_bits());
    assert_eq!(engine.mla_cfg.q_lora_rank, 8);
    assert_eq!(
        engine.mla_cfg.rope.unwrap().theta,
        10000.0f32.to_bits()
    );
    assert!(engine.moe.is_none());
    let state = engine.new_state();
    assert_eq!(state.layers.len(), 2);
    assert!(state.layers.iter().all(|(k, v)| k.is_empty() && v.is_empty()));
    match &engine.layers[0].attn.q {
        MlaQProj::LowRank { .. } => {}
        MlaQProj::Direct(_) => panic!("low rank"),
    }
    assert_eq!(engine.layers[0].attn.q.q_rows(), 12);
    assert_eq!(engine.layers[0].attn.q.in_cols(), 16);
}

#[test]
fn mla_gguf_loader_load_synthetic_deepseek2_dense_and_forward() {
    let engine = load_mla_engine(&dense_deepseek2_with(2, 0, QForm::LowRank, None)).unwrap();
    assert_eq!(engine.layers.len(), 2);
    assert_eq!(engine.vocab_size(), 8);
}

#[test]
fn tests_a_deepseek2_file_with_an_mtp_block_loads_only_its_trunk() {
    let engine = load_mla_engine(&dense_deepseek2_with(2, 1, QForm::LowRank, None)).unwrap();
    assert_eq!(engine.layers.len(), 2, "block_count 3 minus one MTP block");
}

#[test]
fn mla_gguf_loader_a_deepseek2_file_with_an_mtp_block_loads_only_its_trunk() {
    let file = dense_deepseek2_with(2, 1, QForm::LowRank, None);
    assert_eq!(file.metadata_u64("deepseek2.block_count"), Some(3));
    let engine = load_mla_engine(&file).unwrap();
    assert_eq!(engine.layers.len(), 2, "block_count 3 minus one MTP block");
}

#[test]
fn a_lite_deepseek2_projects_q_directly_whatever_its_key_says() {
    let engine = load_mla_engine(&dense_deepseek2_with(27, 0, QForm::Direct, None)).unwrap();
    assert_eq!(engine.layers.len(), 27);
    assert!(engine
        .layers
        .iter()
        .all(|l| matches!(l.attn.q, MlaQProj::Direct(_))));
    assert_eq!(engine.mla_cfg.q_lora_rank, 0);

    let err = load_mla_engine(&dense_deepseek2_with(27, 0, QForm::LowRank, None))
        .unwrap_err()
        .message();
    assert!(
        err.contains("attn_q_a") && err.contains("projects Q directly"),
        "{err}"
    );

    let err = load_mla_engine(&dense_deepseek2_with(2, 0, QForm::Direct, None))
        .unwrap_err()
        .message();
    assert!(err.contains("attn_q_a"), "{err}");

    let err = load_mla_engine(&dense_deepseek2_with(27, 0, QForm::Both, None))
        .unwrap_err()
        .message();
    assert!(err.contains("never both"), "{err}");
}

#[test]
fn a_rope_scaling_is_refused_by_name_and_none_is_not_one() {
    let err = load_mla_engine(&dense_deepseek2_with(2, 0, QForm::LowRank, Some("yarn")))
        .unwrap_err()
        .message();
    assert!(
        err.contains("rope.scaling.type = \"yarn\"") && err.contains("deepseek2.cpp:312-328"),
        "{err}"
    );
    assert!(load_mla_engine(&dense_deepseek2_with(2, 0, QForm::LowRank, Some("none"))).is_ok());
}

fn moe_deepseek2() -> GgufFile {
    let mut tensors = ends();
    attention_side(&mut tensors, 0, QForm::LowRank);
    dense_side(&mut tensors, 0);
    attention_side(&mut tensors, 1, QForm::LowRank);
    let mut add = |name: &str, shape: &[usize]| {
        tensors.push(tensor(&format!("blk.1.{name}.weight"), shape, 0.01));
    };
    add("ffn_gate_inp", &[4, 16]);
    add("ffn_gate_exps", &[4, 16, 16]);
    add("ffn_up_exps", &[4, 16, 16]);
    add("ffn_down_exps", &[4, 16, 16]);
    add("ffn_gate_shexp", &[16, 16]);
    add("ffn_up_shexp", &[16, 16]);
    add("ffn_down_shexp", &[16, 16]);
    let mut kv = deepseek2_kv(2, 1, 4);
    kv.push(("deepseek2.expert_used_count", 2));
    kv.push(("deepseek2.expert_shared_count", 1));
    kv.push(("deepseek2.expert_feed_forward_length", 16));
    kv.push(("deepseek2.expert_gating_func", 1));
    let mut fkv = FKV.to_vec();
    fkv.push(("deepseek2.expert_weights_scale", 1.0));
    file("deepseek2", &kv, &fkv, vec![], tensors)
}

#[test]
fn tests_load_synthetic_deepseek2_moe_after_dense_and_forward() {
    let engine = load_mla_engine(&moe_deepseek2()).expect("load mla moe");
    assert_eq!(engine.layers.len(), 2);
    assert!(matches!(engine.layers[0].ffn, MlaLayerFfn::Dense(_)));
    assert!(matches!(engine.layers[1].ffn, MlaLayerFfn::Moe(_)));
    assert!(engine.moe.is_some());
    assert_eq!(engine.vocab_size(), 8);
    let moe = engine.moe.unwrap();
    assert_eq!(moe.n_experts_active, 2);
    assert_eq!(moe.gating, GatingFunction::Softmax);
    assert_eq!(moe.expert_weights_scale, 1.0f32.to_bits());
    if let MlaLayerFfn::Moe(ffn) = &engine.layers[1].ffn {
        assert_eq!(ffn.experts.len(), 4);
        assert_eq!((ffn.router.rows(), ffn.router.cols()), (4, 16));
        assert!(ffn.exp_probs_bias.is_none());
        assert_eq!(moe.route(ffn), MlaRoute::Plain);
    }
}

#[test]
fn mla_gguf_loader_load_synthetic_deepseek2_moe_after_dense_and_forward() {
    let engine = load_mla_engine(&moe_deepseek2()).expect("load mla moe");
    assert_eq!(engine.layers.len(), 2);
    assert!(matches!(engine.layers[0].ffn, MlaLayerFfn::Dense(_)));
    assert!(matches!(engine.layers[1].ffn, MlaLayerFfn::Moe(_)));
    assert!(engine.moe.is_some());
    assert_eq!(engine.vocab_size(), 8);
}

fn moe_without_experts() -> GgufFile {
    let mut tensors = ends();
    for l in 0..2 {
        attention_side(&mut tensors, l, QForm::LowRank);
        dense_side(&mut tensors, l);
    }
    let mut kv = deepseek2_kv(2, 1, 4);
    kv.push(("deepseek2.expert_used_count", 2));
    file("deepseek2", &kv, &FKV, vec![], tensors)
}

#[test]
fn tests_moe_after_dense_fails_closed_without_expert_tensors() {
    let msg = match load_mla_engine(&moe_without_experts()) {
        Err(e) => e.message(),
        Ok(_) => panic!("expected missing MoE tensors to fail closed"),
    };
    assert!(
        msg.contains("ffn_gate_inp") || msg.contains("TensorNotFound"),
        "unexpected error: {msg}"
    );
}

#[test]
fn mla_gguf_loader_moe_after_dense_fails_closed_without_expert_tensors() {
    let msg = load_mla_engine(&moe_without_experts()).unwrap_err().message();
    assert!(
        msg.contains("ffn_gate_inp") || msg.contains("TensorNotFound"),
        "unexpected error: {msg}"
    );
}

#[test]
fn a_layer_may_carry_its_kv_decompression_per_head() {
    let mut f = dense_deepseek2_with(1, 0, QForm::LowRank, None);
    f.tensors.retain(|t| t.name != "blk.0.attn_kv_b.weight");
    let err = load_mla_engine(&f).unwrap_err().message();
    assert!(err.contains("attn_kv_b") && err.contains("attn_k_b"), "{err}");
    f.tensors.push(tensor("blk.0.attn_k_b.weight", &[2, 4, 4], 0.1));
    f.tensors.push(tensor("blk.0.attn_v_b.weight", &[2, 4, 4], 0.1));
    let engine = load_mla_engine(&f).unwrap();
    assert_eq!(engine.layers[0].attn.kv_b.cached_positions(&engine.mla_cfg, 18), 3);
    let full = load_mla_engine(&dense_deepseek2_with(1, 0, QForm::LowRank, None)).unwrap();
    assert_eq!(full.layers[0].attn.kv_b.cached_positions(&full.mla_cfg, 24), 2);
}

// The hybrid loader.

struct GdnShape {
    hidden: usize,
    num_key_heads: usize,
    num_value_heads: usize,
    key_head_dim: usize,
    value_head_dim: usize,
    conv: usize,
    inner_size: Option<usize>,
}

impl GdnShape {
    fn equal_heads() -> Self {
        GdnShape {
            hidden: 4,
            num_key_heads: 2,
            num_value_heads: 2,
            key_head_dim: 2,
            value_head_dim: 2,
            conv: 2,
            inner_size: None,
        }
    }

    fn gqa_heads() -> Self {
        GdnShape {
            num_key_heads: 1,
            value_head_dim: 3,
            ..GdnShape::equal_heads()
        }
    }

    fn value_dim(&self) -> usize {
        self.num_value_heads * self.value_head_dim
    }

    fn qkv_dim(&self) -> usize {
        2 * self.num_key_heads * self.key_head_dim + self.value_dim()
    }

    fn build(&self) -> (GgufFile, HybridHparams) {
        let (h, qkv, v, nv) = (
            self.hidden,
            self.qkv_dim(),
            self.value_dim(),
            self.num_value_heads,
        );
        let tensors = vec![
            tensor("blk.0.attn_qkv.weight", &[qkv, h], 0.05),
            tensor("blk.0.attn_gate.weight", &[v, h], 0.04),
            tensor("blk.0.ssm_conv1d.weight", &[self.conv, qkv], 0.1),
            tensor("blk.0.ssm_dt.bias", &[nv], 0.1),
            tensor("blk.0.ssm_a", &[nv], -0.5),
            tensor("blk.0.ssm_beta.weight", &[nv, h], 0.1),
            tensor("blk.0.ssm_alpha.weight", &[nv, h], 0.08),
            tensor("blk.0.ssm_norm.weight", &[self.value_head_dim], 1.0),
            tensor("blk.0.ssm_out.weight", &[h, v], 0.06),
        ];
        let kv = [
            ("qwen35.block_count", 1),
            ("qwen35.embedding_length", h as u64),
            ("qwen35.feed_forward_length", 8),
            ("qwen35.attention.head_count", 2),
            ("qwen35.attention.head_count_kv", 2),
            ("qwen35.attention.key_length", self.key_head_dim as u64),
            ("qwen35.ssm.conv_kernel", self.conv as u64),
            ("qwen35.ssm.inner_size", self.inner_size.unwrap_or(v) as u64),
            ("qwen35.ssm.state_size", self.key_head_dim as u64),
            ("qwen35.ssm.time_step_rank", nv as u64),
            ("qwen35.ssm.group_count", self.num_key_heads as u64),
        ];
        let fkv = [
            ("qwen35.attention.layer_norm_rms_epsilon", 1e-5),
            ("qwen35.rope.freq_base", 10000.0),
        ];
        let file = file("qwen35", &kv, &fkv, vec![], tensors);
        let hp = read_hybrid_hparams(&file).expect("hparams");
        assert!(layer_fits(&file, 0, &hp));
        (file, hp)
    }

    fn load(&self) -> Result<(GdnConfig, GdnWeights), LoadError> {
        let (file, hp) = self.build();
        load_gdn_layer_weights(&file, 0, &hp)
    }

    fn refusal(&self) -> (String, String) {
        match self.load() {
            Err(LoadError::UnsupportedFeature(arch, msg)) => (arch, msg),
            other => panic!("expected UnsupportedFeature, got {other:?}"),
        }
    }
}

#[test]
fn widths_count_only_for_a_gdn_layer_whose_tensors_are_there() {
    let kv = [
        ("qwen35.block_count", 1),
        ("qwen35.embedding_length", 8),
        ("qwen35.feed_forward_length", 8),
        ("qwen35.attention.head_count", 2),
        ("qwen35.ssm.conv_kernel", u64::MAX),
        ("qwen35.ssm.inner_size", 4),
        ("qwen35.ssm.state_size", u64::MAX),
        ("qwen35.ssm.time_step_rank", 2),
        ("qwen35.ssm.group_count", 2),
    ];
    let attn = file("qwen35", &kv, &[], vec![], vec![tensor("blk.0.attn_q.weight", &[8, 8], 0.1)]);
    let hp = read_hybrid_hparams(&attn).unwrap();
    assert!(layer_fits(&attn, 0, &hp));
    let err = load_gdn_layer_weights(&attn, 0, &hp).unwrap_err().message();
    assert!(err.contains("not GDN"), "{err}");
    let bare = file("qwen35", &kv, &[], vec![], vec![tensor("blk.0.ssm_conv1d.weight", &[8], 0.1)]);
    assert!(layer_fits(&bare, 0, &hp));
    let err = load_gdn_layer_weights(&bare, 0, &hp).unwrap_err().message();
    assert!(err.contains("blk.0.attn_qkv.weight"), "{err}");
}

fn serve_gap(file: &GgufFile) -> (String, String) {
    assert!(ferrox_models::hybrid_gguf_loader::file_fits(file));
    match try_load(file) {
        Err(LoadError::UnsupportedFeature(arch, msg)) => (arch, msg),
        other => panic!("expected UnsupportedFeature, got {other:?}"),
    }
}

#[test]
fn read_hparams_fails_clear_when_ssm_keys_missing() {
    let f = file(
        "qwen35",
        &[
            ("qwen35.block_count", 1),
            ("qwen35.embedding_length", 4),
            ("qwen35.feed_forward_length", 8),
            ("qwen35.attention.head_count", 2),
        ],
        &[],
        vec![],
        vec![tensor("token_embd.weight", &[4, 4], 0.0)],
    );
    match read_hybrid_hparams(&f).unwrap_err() {
        LoadError::MissingHparam(k) => assert!(k.contains("ssm.conv_kernel"), "{k}"),
        other => panic!("expected MissingHparam, got {other:?}"),
    }
}

#[test]
fn synthetic_gdn_layer_loads_and_forward_token() {
    let (file, hp) = GdnShape::equal_heads().build();
    assert_eq!(detect_layer_kind(&file, 0).unwrap(), HybridLayerKind::Gdn);
    let (cfg, weights) = load_gdn_layer_weights(&file, 0, &hp).expect("load GDN");
    assert_eq!(cfg.hidden_dim, hp.hidden_dim);
    assert_eq!(cfg.conv_kernel_size, 2);
    assert_eq!(weights.ssm_out.rows(), hp.hidden_dim);
    assert_eq!(weights.ssm_conv1d.len(), cfg.qkv_dim() * 2);
}

#[test]
fn try_load_returns_unsupported_feature_inventory() {
    let (file, _) = GdnShape::equal_heads().build();
    let (arch, msg) = serve_gap(&file);
    assert_eq!(arch, "qwen35");
    assert!(msg.contains("HybridEngine"), "{msg}");
    assert!(
        msg.contains("serve blocked") || msg.contains("missing"),
        "{msg}"
    );
    assert!(msg.contains("load_gdn_layer_weights"), "{msg}");
}

#[test]
fn unequal_gdn_head_geometry_loads_instead_of_being_refused() {
    let (cfg, weights) = GdnShape::gqa_heads()
        .load()
        .expect("GQA-shaped GDN layer must load");
    assert_eq!(cfg.num_key_heads, 1);
    assert_eq!(cfg.num_value_heads, 2);
    assert_eq!(cfg.key_head_dim, 2, "from ssm.state_size");
    assert_eq!(
        cfg.value_head_dim, 3,
        "from ssm.inner_size / ssm.time_step_rank"
    );
    assert_eq!(cfg.key_dim(), 2);
    assert_eq!(cfg.value_dim(), 6);
    assert_eq!(cfg.qkv_dim(), 10, "2*key_dim + value_dim, not 3*n*head_dim");
    assert_eq!(cfg.heads_per_key_group(), 2);
    assert_eq!(weights.attn_qkv.rows(), 10);
}

#[test]
fn equal_head_metadata_still_derives_the_pre_generalization_config() {
    let (cfg, _) = GdnShape::equal_heads()
        .load()
        .expect("equal-head GDN layer must load");
    assert_eq!(cfg.num_key_heads, cfg.num_value_heads);
    assert_eq!(cfg.key_head_dim, cfg.value_head_dim);
    assert_eq!(cfg.num_value_heads, 2);
    assert_eq!(cfg.value_head_dim, 2);
    assert_eq!(cfg.qkv_dim(), 3 * 2 * 2, "equal heads: still three thirds");
    assert_eq!(cfg.heads_per_key_group(), 1);
}

#[test]
fn inner_size_not_divisible_by_v_head_count_is_refused() {
    let mut shape = GdnShape::gqa_heads();
    shape.inner_size = Some(7);
    let (arch, msg) = shape.refusal();
    assert_eq!(arch, "qwen35");
    assert!(msg.contains("value_head_dim"), "{msg}");
    assert!(msg.contains("inner_size"), "{msg}");
}

#[test]
fn inner_size_disagreeing_with_ssm_norm_length_is_refused() {
    let mut shape = GdnShape::gqa_heads();
    shape.inner_size = Some(shape.qkv_dim());
    let (_, msg) = shape.refusal();
    assert!(msg.contains("ssm_norm.weight"), "{msg}");
    assert!(msg.contains("value_head_dim"), "{msg}");
}

#[test]
fn v_heads_not_a_multiple_of_k_heads_is_refused_at_load() {
    let shape = GdnShape {
        num_key_heads: 3,
        num_value_heads: 4,
        ..GdnShape::equal_heads()
    };
    let (_, msg) = shape.refusal();
    assert!(msg.contains("repeat_interleave"), "{msg}");
    assert!(msg.contains("whole multiple"), "{msg}");
}

#[test]
fn try_load_no_longer_reports_unequal_gdn_heads_as_a_gap() {
    let (file, _) = GdnShape::gqa_heads().build();
    let (_, msg) = serve_gap(&file);
    assert!(!msg.contains("unequal GDN K/V heads"), "{msg}");
    assert!(msg.contains("load_gdn_layer_weights"), "{msg}");
}

#[test]
fn full_attn_layer_detected_from_attn_q() {
    let f = file(
        "qwen35",
        &[
            ("qwen35.block_count", 1),
            ("qwen35.embedding_length", 4),
            ("qwen35.feed_forward_length", 8),
            ("qwen35.attention.head_count", 2),
            ("qwen35.ssm.conv_kernel", 2),
            ("qwen35.ssm.inner_size", 12),
            ("qwen35.ssm.state_size", 2),
            ("qwen35.ssm.time_step_rank", 2),
            ("qwen35.ssm.group_count", 2),
        ],
        &[],
        vec![],
        vec![tensor("blk.0.attn_q.weight", &[4, 4], 0.0)],
    );
    assert_eq!(
        detect_layer_kind(&f, 0).unwrap(),
        HybridLayerKind::FullAttn
    );
    assert!(detect_layer_kind(&f, 1).unwrap_err().message().contains("blk.1"));
}

// The Gemma-4 loader.

fn gemma4_kv(n_layer: u64, h: u64, ffn: u64, pl: u64) -> Vec<(&'static str, u64)> {
    vec![
        ("gemma4.block_count", n_layer),
        ("gemma4.embedding_length", h),
        ("gemma4.feed_forward_length", ffn),
        ("gemma4.attention.head_count", 2),
        ("gemma4.attention.head_count_kv", 1),
        ("gemma4.attention.key_length", 8),
        ("gemma4.attention.key_length_swa", 8),
        ("gemma4.attention.sliding_window", 4),
        ("gemma4.attention.shared_kv_layers", 0),
        ("gemma4.embedding_length_per_layer_input", pl),
    ]
}

fn pattern(swa: &[bool]) -> Vec<(&'static str, GgufValue)> {
    vec![(
        "gemma4.attention.sliding_window_pattern",
        GgufValue::Array(swa.iter().map(|&b| GgufValue::Bool(b)).collect()),
    )]
}

const GEMMA4_FKV: [(&str, f32); 3] = [
    ("gemma4.attention.layer_norm_rms_epsilon", 1e-5),
    ("gemma4.rope.freq_base", 10000.0),
    ("gemma4.rope.freq_base_swa", 10000.0),
];

#[test]
fn parse_hparams_routing_from_synthetic_gguf() {
    let swa = [true, true, true, true, false];
    let f = file(
        "gemma4",
        &[
            ("gemma4.block_count", 5),
            ("gemma4.embedding_length", 32),
            ("gemma4.feed_forward_length", 64),
            ("gemma4.attention.head_count", 4),
            ("gemma4.attention.head_count_kv", 1),
            ("gemma4.attention.key_length", 16),
            ("gemma4.attention.key_length_swa", 8),
            ("gemma4.attention.sliding_window", 4),
            ("gemma4.attention.shared_kv_layers", 2),
            ("gemma4.embedding_length_per_layer_input", 4),
        ],
        &[
            ("gemma4.attention.layer_norm_rms_epsilon", 1e-6),
            ("gemma4.rope.freq_base", 1e6),
            ("gemma4.rope.freq_base_swa", 1e4),
            ("gemma4.final_logit_softcapping", 30.0),
        ],
        pattern(&swa),
        vec![
            tensor("token_embd.weight", &[4, 32], 0.01),
            tensor("output_norm.weight", &[32], 1.0),
        ],
    );
    let hp = read_gemma4_hparams(&f).expect("hparams");
    assert_eq!(hp.n_layer, 5);
    assert_eq!(hp.n_layer_kv_from_start, 3);
    assert_eq!(hp.head_dim_full, 16);
    assert_eq!(hp.head_dim_swa, 8);
    assert_eq!(hp.is_swa, swa.to_vec());
    assert!(hp.has_kv(2));
    assert!(!hp.has_kv(3));
    assert_eq!(hp.kv_reuse_layer(3), 1);
    assert_eq!(hp.kv_reuse_layer(4), 2);
    assert_eq!(hp.final_logit_softcap, Some(30.0f32.to_bits()));
    assert_eq!(hp.ffn_dim(4), 64);
}

#[test]
fn load_tiny_gemma4_and_forward() {
    let mut tensors = vec![
        tensor("token_embd.weight", &[4, 16], 0.01),
        tensor("output_norm.weight", &[16], 1.0),
        tensor("per_layer_token_embd.weight", &[4, 8], 0.01),
        tensor("per_layer_model_proj.weight", &[8, 16], 0.01),
        tensor("per_layer_proj_norm.weight", &[4], 1.0),
    ];
    for il in 0..2 {
        for (name, shape) in [
            ("attn_norm", &[16][..]),
            ("attn_q", &[16, 16]),
            ("attn_k", &[8, 16]),
            ("attn_v", &[8, 16]),
            ("attn_output", &[16, 16]),
            ("attn_q_norm", &[8]),
            ("attn_k_norm", &[8]),
            ("post_attention_norm", &[16]),
            ("ffn_norm", &[16]),
            ("ffn_gate", &[32, 16]),
            ("ffn_up", &[32, 16]),
            ("ffn_down", &[16, 32]),
            ("post_ffw_norm", &[16]),
            ("inp_gate", &[4, 16]),
            ("proj", &[16, 4]),
            ("post_norm", &[16]),
            ("layer_output_scale", &[1]),
        ] {
            tensors.push(tensor(&format!("blk.{il}.{name}.weight"), shape, 1.0));
        }
    }
    let mut fkv = GEMMA4_FKV.to_vec();
    fkv.push(("gemma4.final_logit_softcapping", 30.0));
    let f = file(
        "gemma4",
        &gemma4_kv(2, 16, 32, 4),
        &fkv,
        pattern(&[true, false]),
        tensors,
    );
    let engine = load_gemma4_engine(&f).expect("load");
    assert_eq!(engine.hp.n_layer, 2);
    assert_eq!(engine.vocab_size(), 4);
    assert!(engine.is_runnable());
    let mut state = engine.new_state();
    assert_eq!(state.kv.len(), 2);
    assert!(state.fits(&engine.hp));
    state.push(&engine.hp, 1, &[1; 8], &[2; 8]);
    state.push(&engine.hp, 1, &[3; 8], &[4; 8]);
    assert!(state.fits(&engine.hp));
    let cache = state.cache(&engine.hp, 1).unwrap();
    assert_eq!((cache.k[7], cache.k[8], cache.v.len()), (1, 3, 16));
    assert!(state.cache(&engine.hp, 0).unwrap().k.is_empty());
    let steps = token_steps(&engine);
    assert_eq!(steps.len(), 2);
    assert!(steps
        .iter()
        .all(|s| matches!(s.kv, KvUse::Own { v_is_k: false })));
    assert_eq!(steps[0].window, Some(4));
    assert_eq!(steps[1].window, None);
}

#[test]
fn a_moe_gemma4_checkpoint_is_refused_by_name_not_by_a_missing_dense_tensor() {
    let mut tensors = vec![
        tensor("token_embd.weight", &[4, 16], 0.01),
        tensor("output_norm.weight", &[16], 1.0),
    ];
    for (name, shape) in [
        ("attn_norm", &[16][..]),
        ("post_attention_norm", &[16]),
        ("ffn_norm", &[16]),
        ("post_ffw_norm", &[16]),
        ("attn_q", &[16, 16]),
        ("attn_k", &[8, 16]),
        ("attn_v", &[8, 16]),
        ("attn_output", &[16, 16]),
        ("attn_q_norm", &[8]),
        ("attn_k_norm", &[8]),
        ("ffn_gate_inp", &[4, 16]),
        ("ffn_gate_exps", &[4, 32, 16]),
        ("ffn_up_exps", &[4, 32, 16]),
    ] {
        tensors.push(tensor(&format!("blk.0.{name}.weight"), shape, 0.01));
    }
    let mut kv = gemma4_kv(1, 16, 32, 0);
    kv.push(("gemma4.expert_count", 4));
    kv.push(("gemma4.expert_used_count", 2));
    let f = file("gemma4", &kv, &GEMMA4_FKV, pattern(&[false]), tensors);
    let err = match load_gemma4_engine(&f) {
        Err(e) => e,
        Ok(_) => panic!("a MoE Gemma-4 must not load as dense"),
    };
    let msg = err.message();
    assert!(
        matches!(err, LoadError::UnsupportedFeature(ref a, _) if a == "gemma4"),
        "wrong error kind: {msg}"
    );
    assert!(msg.contains("MoE Gemma-4"), "{msg}");
    assert!(msg.contains("4 experts"), "the count it found: {msg}");
    assert!(msg.contains("2 active"), "the top-k it found: {msg}");
    assert!(
        msg.contains("route_gemma4_moe"),
        "point at the routing that IS implemented: {msg}"
    );
    assert!(
        !msg.contains("ffn_gate.weight'"),
        "must not report the dense tensor a MoE layer never has: {msg}"
    );
}

#[test]
fn a_dense_gemma4_checkpoint_is_untouched_by_the_moe_check() {
    let f = file(
        "gemma4",
        &gemma4_kv(1, 16, 32, 0),
        &GEMMA4_FKV,
        pattern(&[false]),
        vec![tensor("token_embd.weight", &[4, 16], 0.01)],
    );
    let hp = read_gemma4_hparams(&f).expect("hparams");
    assert!(
        refuse_moe_layer(&f, &hp, 0).is_ok(),
        "a dense checkpoint must pass the MoE check untouched"
    );
}

#[test]
fn layer_routing_swa_and_shared_kv() {
    let hp = Gemma4Hparams {
        arch: "gemma4".into(),
        n_layer: 10,
        hidden_dim: 64,
        ffn_dims: vec![128; 10],
        n_heads: 4,
        n_kv_heads: 1,
        head_dim_full: 32,
        head_dim_swa: 16,
        sliding_window: 8,
        is_swa: (0..10).map(|i| (i + 1) % 5 != 0).collect(),
        n_layer_kv_from_start: 6,
        embd_per_layer: 8,
        rms_norm_eps: 1e-6f32.to_bits(),
        rope_theta: 1_000_000.0f32.to_bits(),
        rope_theta_swa: 10_000.0f32.to_bits(),
        final_logit_softcap: Some(30.0f32.to_bits()),
        attention_scale: 1.0f32.to_bits(),
    };
    assert!(hp.is_swa_layer(0));
    assert!(!hp.is_swa_layer(4));
    assert_eq!(hp.head_dim(0), 16);
    assert_eq!(hp.head_dim(4), 32);
    assert!(hp.has_kv(5));
    assert!(!hp.has_kv(6));
    assert_eq!(hp.kv_reuse_layer(6), 4);
    assert_eq!(hp.kv_reuse_layer(9), 5);
    assert_eq!(f32::from_bits(hp.rope_theta_for(0)), 10_000.0);
    assert_eq!(f32::from_bits(hp.rope_theta_for(4)), 1_000_000.0);
}

#[test]
fn lists_of_numbers_and_of_truth_values() {
    let f = file(
        "gemma4",
        &[("one", 7)],
        &[],
        vec![
            (
                "numbers",
                GgufValue::Array(vec![GgufValue::U32(1), GgufValue::I32(2)]),
            ),
            (
                "truths",
                GgufValue::Array(vec![GgufValue::Bool(true), GgufValue::U32(0)]),
            ),
            (
                "words",
                GgufValue::Array(vec![
                    GgufValue::Bool(true),
                    GgufValue::String("no".to_string()),
                ]),
            ),
        ],
        vec![],
    );
    assert_eq!(meta_usize_array(&f, "one"), Some(vec![7]));
    assert_eq!(meta_usize_array(&f, "numbers"), Some(vec![1, 2]));
    assert_eq!(meta_usize_array(&f, "truths"), None);
    assert_eq!(meta_usize_array(&f, "absent"), None);
    assert_eq!(meta_bool_array(&f, "truths", 2).unwrap(), [true, false]);
    assert!(meta_bool_array(&f, "truths", 3)
        .unwrap_err()
        .message()
        .contains("expected bool array of length 3"));
    assert!(meta_bool_array(&f, "words", 2)
        .unwrap_err()
        .message()
        .contains("expected bool array element, got String(\"no\")"));
}

// The GLM-5.2 loader.

fn glm52_hp() -> Glm52GgufHparams {
    Glm52GgufHparams {
        hidden_dim: 8,
        num_heads: 2,
        q_lora_rank: 6,
        kv_lora_rank: 4,
        qk_nope_head_dim: 4,
        qk_rope_head_dim: 4,
        v_head_dim: 3,
        rope_theta: 8_000_000.0f32.to_bits(),
        indexer_n_heads: 2,
        indexer_head_dim: 4,
        indexer_rope_dim: 4,
        indexer_top_k: 2,
        dense_ffn_dim: 5,
        moe_ffn_dim: 4,
        n_experts: 3,
        n_shared_experts: 1,
    }
}

fn glm52_layer(tensors: &mut Vec<TensorInfo>, l: usize, is_full: bool, is_dense: bool) {
    let mut add = |name: &str, shape: &[usize], v: f32| {
        tensors.push(tensor(&format!("blk.{l}.{name}"), shape, v));
    };
    add("attn_norm.weight", &[8], 1.0);
    add("ffn_norm.weight", &[8], 1.0);
    add("attn_q_a_norm.weight", &[6], 1.0);
    add("attn_kv_a_norm.weight", &[4], 1.0);
    add("attn_q_a.weight", &[6, 8], 0.02);
    add("attn_q_b.weight", &[16, 6], 0.02);
    add("attn_kv_a_mqa.weight", &[8, 8], 0.02);
    add("attn_k_b.weight", &[2, 4, 4], 0.02);
    add("attn_v_b.weight", &[2, 3, 4], 0.02);
    add("attn_output.weight", &[8, 6], 0.02);
    if is_full {
        add("indexer.k_norm.weight", &[4], 1.0);
        add("indexer.k_norm.bias", &[4], 0.0);
        add("indexer.proj.weight", &[2, 8], 0.02);
        add("indexer.attn_k.weight", &[4, 8], 0.02);
        add("indexer.attn_q_b.weight", &[8, 6], 0.02);
    }
    if is_dense {
        add("ffn_gate.weight", &[5, 8], 0.02);
        add("ffn_up.weight", &[5, 8], 0.02);
        add("ffn_down.weight", &[8, 5], 0.02);
    } else {
        add("ffn_gate_inp.weight", &[3, 8], 0.02);
        add("exp_probs_b.bias", &[3], 0.0);
        add("ffn_gate_exps.weight", &[3, 4, 8], 0.02);
        add("ffn_down_exps.weight", &[3, 8, 4], 0.02);
        add("ffn_up_exps.weight", &[3, 4, 8], 0.02);
        add("ffn_gate_shexp.weight", &[4, 8], 0.02);
        add("ffn_down_shexp.weight", &[8, 4], 0.02);
        add("ffn_up_shexp.weight", &[4, 8], 0.02);
    }
}

#[test]
fn loads_a_full_indexer_dense_layer_and_a_shared_indexer_moe_layer() {
    let mut tensors = Vec::new();
    glm52_layer(&mut tensors, 0, true, true);
    glm52_layer(&mut tensors, 1, false, false);
    let f = file("glm-dsa", &[], &[], vec![], tensors);
    let hp = glm52_hp();
    assert!(sizes_are_fit(&f, &hp, 1, 2));

    let layer0 = load_glm52_attn(&f, &hp, 0, true).expect("full-indexer layer must load");
    assert!(layer0.indexer.is_some());
    assert_eq!(layer0.wk_b.len(), hp.num_heads);
    assert_eq!(layer0.wk_b[0].rows(), hp.qk_nope_head_dim);
    assert_eq!(layer0.wk_b[0].cols(), hp.kv_lora_rank);
    assert_eq!(layer0.wv_b[0].rows(), hp.v_head_dim);
    assert_eq!(layer0.wv_b[0].cols(), hp.kv_lora_rank);
    let dense0 = load_glm52_dense_ffn(&f, 0).expect("dense FFN must load");
    assert_eq!(dense0.gate_proj.rows(), hp.dense_ffn_dim);

    let layer1 = load_glm52_attn(&f, &hp, 1, false).expect("shared-indexer layer must load");
    assert!(
        layer1.indexer.is_none(),
        "a \"shared\" layer must not load its own indexer weights"
    );
    let moe1 = load_glm52_moe_ffn(&f, &hp, 1).expect("MoE FFN must load");
    assert_eq!(moe1.experts.len(), hp.n_experts);
    assert_eq!(moe1.e_score_correction_bias.len(), hp.n_experts);
}

#[test]
fn wk_b_transpose_matches_hand_computed_values() {
    let name = "blk.0.attn_k_b.weight";
    let f = file(
        "glm-dsa",
        &[],
        &[],
        vec![],
        vec![values(name, &[1, 3, 2], vec![1.0, 2.0, 3.0, 4.0, 5.0, 6.0])],
    );
    let heads = load_wk_b_transposed(&f, name, 1, 2, 3).expect("must load and transpose");
    assert_eq!(heads.len(), 1);
    let apply = |x: [f32; 3]| match &heads[0] {
        WeightMatrix::F32 { data, rows, cols } => (0..*rows)
            .map(|r| {
                (0..*cols)
                    .map(|c| f32::from_bits(data[r * cols + c]) * x[c])
                    .sum::<f32>()
            })
            .collect::<Vec<f32>>(),
        other => panic!("{other:?}"),
    };
    assert_eq!(apply([1.0, 0.0, 0.0]), vec![1.0, 2.0]);
    assert_eq!(apply([0.0, 1.0, 0.0]), vec![3.0, 4.0]);
    assert_eq!(apply([0.0, 0.0, 1.0]), vec![5.0, 6.0]);

    // The V side is not transposed.
    let wv = load_wv_b(&f, name, 1, 2, 3).expect("must load");
    assert_eq!((wv[0].rows(), wv[0].cols()), (3, 2));
    let err = load_wk_b_transposed(&f, name, 1, 3, 2).unwrap_err().message();
    assert!(err.contains("expected ne=[3, 2, 1], got [2, 3, 1]"), "{err}");
}

#[test]
fn the_k_decompression_is_read_from_f32_and_bf16_only() {
    let name = "blk.0.attn_k_b.weight";
    let stored = |dtype: GgmlType| {
        let mut t = values(name, &[1, 3, 2], vec![1.0, 2.0, 3.0, 4.0, 5.0, 6.0]);
        t.dtype = dtype;
        file("glm-dsa", &[], &[], vec![], vec![t])
    };
    let wanted: Vec<u32> = [1.0f32, 3.0, 5.0, 2.0, 4.0, 6.0].map(f32::to_bits).to_vec();
    for dtype in [GgmlType::F32, GgmlType::BF16] {
        let heads = load_wk_b_transposed(&stored(dtype), name, 1, 2, 3).unwrap();
        assert!(matches!(&heads[0], WeightMatrix::F32 { data, .. } if *data == wanted));
    }
    for dtype in [GgmlType::F16, GgmlType::Quant(8), GgmlType::Other(99)] {
        assert!(matches!(
            load_wk_b_transposed(&stored(dtype), name, 1, 2, 3),
            Err(LoadError::UnsupportedDtype(n, d)) if n == name && d == dtype
        ));
    }
    // The V decompression is not transposed, and F16 is one of its types.
    let wv = load_wv_b(&stored(GgmlType::F16), name, 1, 2, 3).unwrap();
    assert!(matches!(wv[0], WeightMatrix::F32 { rows: 3, cols: 2, .. }));
    // A whole layer is refused with it.
    let mut tensors = Vec::new();
    glm52_layer(&mut tensors, 0, true, true);
    for t in tensors.iter_mut().filter(|t| t.name == name) {
        t.dtype = GgmlType::F16;
    }
    let f = file("glm-dsa", &[], &[], vec![], tensors);
    assert!(matches!(
        load_glm52_attn(&f, &glm52_hp(), 0, true),
        Err(LoadError::UnsupportedDtype(n, GgmlType::F16)) if n == name
    ));
}

#[test]
fn a_missing_tensor_is_named_before_a_later_size_counts() {
    let mut tensors = vec![
        tensor("token_embd.weight", &[7, 8], 0.01),
        tensor("output_norm.weight", &[8], 1.0),
    ];
    glm52_layer(&mut tensors, 0, true, true);
    tensors.retain(|t| t.name != "blk.0.attn_q_a.weight");
    for t in tensors.iter_mut().filter(|t| t.name == "blk.0.attn_output.weight") {
        *t = tensor("blk.0.attn_output.weight", &[9, 9], 0.02);
    }
    let f = file("glm-dsa", &[], &[], vec![], tensors);
    assert!(sizes_are_fit(&f, &glm52_hp(), 1, 1));
    let err = load_glm52_attn(&f, &glm52_hp(), 0, true).unwrap_err().message();
    assert!(err.contains("blk.0.attn_q_a.weight"), "{err}");
    // With the tensor there, the later size does count.
    let mut tensors = vec![
        tensor("token_embd.weight", &[7, 8], 0.01),
        tensor("output_norm.weight", &[8], 1.0),
    ];
    glm52_layer(&mut tensors, 0, true, true);
    for t in tensors.iter_mut().filter(|t| t.name == "blk.0.attn_output.weight") {
        *t = tensor("blk.0.attn_output.weight", &[9, 9], 0.02);
    }
    let f = file("glm-dsa", &[], &[], vec![], tensors);
    assert!(!sizes_are_fit(&f, &glm52_hp(), 1, 1));
}

fn shared_or_full(f: &GgufFile, full: bool) -> Glm52DecoderLayerWeights {
    Glm52DecoderLayerWeights {
        attn_norm_weight: vec![],
        attn: load_glm52_attn(f, &glm52_hp(), 0, full).unwrap(),
        ffn_norm_weight: vec![],
        ffn: Glm52LayerFfn::Dense(Glm52DenseFfnWeights {
            ..load_glm52_dense_ffn(f, 0).unwrap()
        }),
        is_full_indexer_layer: full,
    }
}

#[test]
fn a_shared_layer_reads_the_positions_of_the_full_layer_before_it() {
    let mut tensors = Vec::new();
    glm52_layer(&mut tensors, 0, true, true);
    let f = file("glm-dsa", &[], &[], vec![], tensors);
    let layers: Vec<Glm52DecoderLayerWeights> = [true, false, false, true, false]
        .into_iter()
        .map(|full| shared_or_full(&f, full))
        .collect();
    let sources: Vec<Option<usize>> = (0..5).map(|l| top_k_layer(&layers, l)).collect();
    assert_eq!(sources, [Some(0), Some(0), Some(0), Some(3), Some(3)]);
}

#[test]
fn shared_layer_without_a_prior_full_layer_in_the_same_token_panics() {
    let mut tensors = Vec::new();
    glm52_layer(&mut tensors, 0, true, true);
    let f = file("glm-dsa", &[], &[], vec![], tensors);
    let layers = vec![shared_or_full(&f, false)];
    assert!(
        top_k_layer(&layers, 0).is_none(),
        "a lone \"shared\" layer has no \"full\" layer before it to read"
    );
}

#[test]
fn a_whole_glm52_file_loads() {
    let mut tensors = vec![
        tensor("token_embd.weight", &[7, 8], 0.01),
        tensor("output_norm.weight", &[8], 1.0),
        tensor("output.weight", &[7, 8], 0.02),
    ];
    glm52_layer(&mut tensors, 0, true, true);
    glm52_layer(&mut tensors, 1, false, false);
    let kv = [
        ("glm-dsa.block_count", 2),
        ("glm-dsa.embedding_length", 8),
        ("glm-dsa.feed_forward_length", 5),
        ("glm-dsa.attention.head_count", 2),
        ("glm-dsa.attention.q_lora_rank", 6),
        ("glm-dsa.attention.kv_lora_rank", 4),
        ("glm-dsa.attention.qk_nope_head_dim", 4),
        ("glm-dsa.attention.qk_rope_head_dim", 4),
        ("glm-dsa.attention.v_head_dim", 3),
        ("glm-dsa.attention.indexer_n_heads", 2),
        ("glm-dsa.attention.indexer_head_dim", 4),
        ("glm-dsa.attention.indexer_top_k", 2),
        ("glm-dsa.leading_dense_block_count", 1),
        ("glm-dsa.expert_count", 3),
        ("glm-dsa.expert_used_count", 2),
        ("glm-dsa.expert_shared_count", 1),
        ("glm-dsa.expert_feed_forward_length", 4),
    ];
    let f = file("glm-dsa", &kv, &[], vec![], tensors);
    assert!(file_fits(&f));
    let engine = load_glm52_engine(&f).map_err(|e| e.message()).unwrap();
    assert_eq!(engine.vocab_size(), 7);
    assert_eq!(engine.weights.layers.len(), 2);
    assert!(engine.weights.layers[0].is_full_indexer_layer);
    assert!(!engine.weights.layers[1].is_full_indexer_layer);
    assert!(matches!(
        engine.weights.layers[1].ffn,
        Glm52LayerFfn::Moe(_)
    ));
    assert_eq!(engine.cfg.n_experts_active, 2);
    assert_eq!(engine.cfg.routed_scaling_factor, 2.5f32.to_bits());
    let state = Glm52DecodeState::new(&engine.weights);
    assert_eq!(state.layer_states.len(), 2);
}

#[test]
fn a_layer_without_a_cache_reads_one_of_its_own_head_width() {
    let hp = |head_dim_swa: usize| Gemma4Hparams {
        arch: "gemma4".into(),
        n_layer: 3,
        hidden_dim: 4,
        ffn_dims: vec![4; 3],
        n_heads: 1,
        n_kv_heads: 1,
        head_dim_full: 2,
        head_dim_swa,
        sliding_window: 8,
        is_swa: vec![false, false, true],
        n_layer_kv_from_start: 2,
        embd_per_layer: 0,
        rms_norm_eps: 0,
        rope_theta: 0,
        rope_theta_swa: 0,
        final_logit_softcap: None,
        attention_scale: 0,
    };
    let engine = |head_dim_swa: usize| Gemma4Engine {
        hp: hp(head_dim_swa),
        weights: Gemma4Weights {
            token_embd: small(),
            per_layer_token_embd: None,
            per_layer_model_proj: None,
            per_layer_proj_norm: None,
            layers: (0..3).map(|_| gemma4_layer()).collect(),
            output_norm: vec![],
            output_head: small(),
            rope_freqs: None,
        },
    };
    assert!(!engine(1).is_runnable());
    let engine = engine(2);
    assert!(engine.is_runnable());
    let steps = token_steps(&engine);
    assert_eq!(steps[2].kv, KvUse::Reuse { layer: 0 });
    assert_eq!(steps[1].kv, KvUse::Own { v_is_k: true });
    let mut state = engine.new_state();
    state.push(&engine.hp, 0, &[5, 6], &[7, 8]);
    assert_eq!(state.cache(&engine.hp, 2).unwrap().k, [5, 6]);
    assert_eq!(
        engine.probe_kernels()[..4],
        ["token_embd", "output_head", "attn_q", "attn_k"]
    );
}

fn small() -> WeightMatrix {
    WeightMatrix::F32 {
        data: vec![0],
        rows: 1,
        cols: 1,
    }
}

fn gemma4_layer() -> Gemma4LayerWeights {
    Gemma4LayerWeights {
        attn_norm: vec![],
        attn: Gemma4AttnWeights {
            q_proj: small(),
            k_proj: Some(small()),
            v_proj: None,
            o_proj: small(),
            q_norm: vec![],
            k_norm: Some(vec![]),
            post_attn_norm: vec![],
        },
        ffn_norm: vec![],
        ffn_gate: small(),
        ffn_up: small(),
        ffn_down: small(),
        ffn_post_norm: vec![],
        per_layer_inp_gate: None,
        per_layer_proj: None,
        per_layer_post_norm: None,
        out_scale: None,
    }
}

#[test]
fn two_readings_of_a_file_agree() {
    let f = moe_deepseek2();
    let twice = [read_deepseek2_hparams(&f), read_deepseek2_hparams(&f)]
        .map(|hp| format!("{:?}", hp.unwrap()));
    assert_eq!(twice[0], twice[1]);
    let f = file(
        "gemma4",
        &gemma4_kv(1, 16, 32, 0),
        &GEMMA4_FKV,
        pattern(&[false]),
        vec![],
    );
    let twice =
        [read_gemma4_hparams(&f), read_gemma4_hparams(&f)].map(|hp| format!("{:?}", hp.unwrap()));
    assert_eq!(twice[0], twice[1]);
    let f = file("glm-dsa", &[("glm-dsa.block_count", 1)], &[], vec![], vec![]);
    let twice = [read_glm52_hparams(&f), read_glm52_hparams(&f)]
        .map(|hp| hp.map(|_| ()).unwrap_err().message());
    assert_eq!(twice[0], "missing hparam glm-dsa.embedding_length");
    assert_eq!(twice[0], twice[1]);
}
