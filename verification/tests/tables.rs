//! The tables of architectures and what is decided by them.

use ferrox_models::text::written_out_text;
use ferrox_models::capability::{
    is_post_norm_only, resolve_profile, uses_biased_layer_norm, uses_non_parametric_layer_norm,
    uses_non_parametric_rms_norm, uses_weighted_layer_norm, ArchPath, ArchProfile, DecoderFamily, MemoryKind, QkNormStyle, RopeLayout,
    AUDITED_GENERIC_GQA,
};
use ferrox_models::config::{FfnActivation, ModelConfig, MoeConfig, SwaLayers};
use ferrox_models::engine_factory::{
    ensure_generic_decoder, select_engine_kind, select_for_profile, serve_gemma4, serve_glm52,
    serve_mla, EngineSelectError, SelectedEngineKind,
};
use ferrox_models::execution_plan::{ExecutionPlan, FusedOpCaps};
use ferrox_models::gguf::{GgufFile, GgufValue};
use ferrox_models::kv_head_dims::{resolve_v_head_dim, SPLIT_KV_HEAD_DIM_ARCHS};
use ferrox_models::layer_loops::{read_layer_loops, LayerLoops, LOOP_READERS};
use ferrox_models::layer_shapes::LayerShapes;
use ferrox_models::load_error::LoadError;
use ferrox_models::metal_launch::{matvec, MatrixStorage};
use ferrox_models::moe_interleave::interleave_step_refusal;
use ferrox_models::mrope::{declares_mrope, mrope_refusal, MropeOnText, MROPE_READERS};

fn file(metadata: Vec<(&str, GgufValue)>) -> GgufFile {
    GgufFile {
        metadata: metadata
            .into_iter()
            .map(|(k, v)| (k.to_string(), v))
            .collect(),
        tensors: Vec::new(),
    }
}

#[test]
fn llama_and_qwen3_select_generic_decoder() {
    assert_eq!(
        select_engine_kind("llama").unwrap(),
        SelectedEngineKind::GenericDecoder
    );
    assert_eq!(
        select_engine_kind("qwen3").unwrap(),
        SelectedEngineKind::GenericDecoder
    );
    assert_eq!(
        select_engine_kind("gemma3").unwrap(),
        SelectedEngineKind::GenericDecoder
    );
    assert_eq!(
        select_engine_kind("phi3").unwrap(),
        SelectedEngineKind::GenericDecoder
    );
    assert_eq!(
        select_engine_kind("olmoe").unwrap(),
        SelectedEngineKind::GenericDecoder
    );
}

#[test]
fn architectures_with_a_rule_of_their_own_are_known() {
    for arch in [
        "ernie4_5-moe", "ernie4_5", "mistral3", "arcee", "olmo", "olmo2", "exaone4", "exaone-moe",
        "gpt-oss", "seed_oss", "grok", "orion", "nemotron", "talkie", "bitnet", "gemma2", "dots1",
        "qwen3moe", "hrm-text", "deci", "openelm", "plamo3", "laguna", "step35", "mimo2", "nanbeige",
    ] {
        assert_eq!(
            select_engine_kind(arch).unwrap(),
            SelectedEngineKind::GenericDecoder,
            "{arch}"
        );
        assert!(ensure_generic_decoder(arch).is_ok(), "{arch}");
    }
    for arch in ["qwen35", "qwen35moe", "qwen3next", "falcon-h1", "granite-hybrid", "mamba"] {
        assert_eq!(
            select_engine_kind(arch).unwrap(),
            SelectedEngineKind::RecurrentHybrid,
            "{arch}"
        );
    }
    for arch in ["deepseek32", "deepseek4", "glm-dsa"] {
        assert_eq!(
            select_engine_kind(arch).unwrap(),
            SelectedEngineKind::DedicatedStack,
            "{arch}"
        );
    }
    assert!(select_engine_kind("mixtral").is_err());
}

#[test]
fn mamba_is_recurrent_fail_closed_for_generic() {
    assert!(matches!(
        select_engine_kind("mamba2").unwrap(),
        SelectedEngineKind::RecurrentHybrid
    ));
    assert!(ensure_generic_decoder("mamba2").is_err());
}

#[test]
fn deepseek2_is_mla_not_generic() {
    assert_eq!(
        select_engine_kind("deepseek2").unwrap(),
        SelectedEngineKind::Mla
    );
    assert!(ensure_generic_decoder("deepseek2").is_err());
}

#[test]
fn glm4_is_generic_and_glm_dsa_is_the_dedicated_stack() {
    assert_eq!(
        select_engine_kind("glm4").unwrap(),
        SelectedEngineKind::GenericDecoder
    );
    assert!(ensure_generic_decoder("glm4").is_ok());
    assert_eq!(
        select_engine_kind("glm-dsa").unwrap(),
        SelectedEngineKind::DedicatedStack
    );
}

#[test]
fn gemma4_selects_dedicated_engine() {
    assert_eq!(
        select_engine_kind("gemma4").unwrap(),
        SelectedEngineKind::Gemma4
    );
    assert_eq!(
        select_engine_kind("gemma4-assistant").unwrap(),
        SelectedEngineKind::Gemma4
    );
    assert!(ensure_generic_decoder("gemma4").is_err());
}

#[test]
fn every_refusal_of_an_engine_says_why() {
    let unknown = select_engine_kind("nobody").unwrap_err();
    assert!(matches!(unknown, EngineSelectError::Unknown(_)));
    assert_eq!(
        unknown.message(),
        "unknown or unsupported architecture \"nobody\""
    );
    let deferred = ArchProfile {
        path: ArchPath::Deferred { reason: "audio" },
        family: DecoderFamily::StandardGqa,
    };
    let out = select_for_profile("ear", Some(deferred)).unwrap_err();
    assert!(matches!(out, EngineSelectError::OutOfScope(_, "audio")));
    assert_eq!(
        out.message(),
        "architecture \"ear\" is outside the text-generation scope (audio)"
    );
    let gemma = ArchProfile {
        path: ArchPath::DedicatedOnly { reason: "new" },
        family: DecoderFamily::GemmaFamily,
    };
    let other = select_for_profile("gemma9", Some(gemma)).unwrap_err();
    assert!(matches!(
        other,
        EngineSelectError::DedicatedUnavailable(_, "new")
    ));
    assert_eq!(
        select_for_profile("gemma4", Some(gemma)).unwrap(),
        SelectedEngineKind::Gemma4
    );
    let fixture = ArchProfile {
        path: ArchPath::TestFixture {
            rope: RopeLayout::Norm,
        },
        family: DecoderFamily::StandardGqa,
    };
    assert_eq!(
        select_for_profile("toy", Some(fixture)).unwrap(),
        SelectedEngineKind::GenericDecoder
    );
    assert_eq!(
        select_engine_kind("t5").unwrap(),
        SelectedEngineKind::EncoderDecoder
    );
    let said = |arch: &str| ensure_generic_decoder(arch).unwrap_err().message();
    assert!(said("glm-dsa").contains("load_glm52_engine_from_path"));
    assert!(said("plm").contains("load_mla_engine_from_path"));
    assert!(said("gemma4").contains("load_gemma4_engine_from_path"));
    assert!(said("jamba").contains("recurrent/hybrid SSM engine stub"));
    assert!(said("t5").contains("T5 encoder-decoder engine stub"));
}

#[test]
fn a_loader_refuses_the_files_of_another_engine() {
    let arch = |a: &str| {
        file(vec![(
            "general.architecture",
            GgufValue::String(a.to_string()),
        )])
    };
    match serve_mla(&arch("llama")).unwrap_err() {
        LoadError::DedicatedArchitectureRequired(a, why) => {
            assert_eq!(a, "llama");
            assert_eq!(why, "generic decoder arch, not MLA");
        }
        other => panic!("{}", other.message()),
    }
    assert!(matches!(
        serve_mla(&file(vec![])).unwrap_err(),
        LoadError::UnsupportedArchitecture(a) if a == "unknown"
    ));
    assert_eq!(
        serve_glm52(&arch("glm4")).unwrap_err().message(),
        "architecture glm4 needs a dedicated loader: not a GLM-5.2 architecture (expected glm-dsa)"
    );
    assert!(serve_gemma4(&arch("gemma3"))
        .unwrap_err()
        .message()
        .contains("not a gemma4 / gemma4-assistant architecture"));
    // Of the right kind, but with nothing in it.
    assert!(serve_mla(&arch("deepseek2"))
        .unwrap_err()
        .message()
        .contains("missing hparam deepseek2."));
}

#[test]
fn equal_widths_pass_for_everyone_and_a_missing_key_means_equal() {
    for arch in ["llama", "qwen3", "mimo2", "gemma3"] {
        assert_eq!(resolve_v_head_dim(arch, 128, None).unwrap(), 128, "{arch}");
        assert_eq!(
            resolve_v_head_dim(arch, 128, Some(128)).unwrap(),
            128,
            "{arch}"
        );
    }
}

#[test]
fn only_the_table_admits_a_differing_value_length() {
    assert_eq!(resolve_v_head_dim("mimo2", 192, Some(128)).unwrap(), 128);
    let err = resolve_v_head_dim("llama", 192, Some(128)).unwrap_err();
    let msg = err.message();
    assert!(msg.contains("split K/V head dims"), "{msg}");
    assert!(msg.contains("key_length=192, value_length=128"), "{msg}");
    assert!(msg.contains("n_embd_head_v()"), "{msg}");
}

#[test]
fn a_zero_value_length_is_refused_rather_than_sizing_empty_heads() {
    assert!(resolve_v_head_dim("mimo2", 192, Some(0)).is_err());
    assert_eq!(
        resolve_v_head_dim("llama", 0, None).unwrap_err().message(),
        "unsupported feature for llama: attention.value_length is 0"
    );
}

#[test]
fn every_table_row_is_on_the_generic_path() {
    for (arch, line) in SPLIT_KV_HEAD_DIM_ARCHS {
        let profile = resolve_profile(arch)
            .unwrap_or_else(|| panic!("`{arch}` ({line}) is not a registered architecture"));
        assert!(
            matches!(profile.path, ArchPath::GenericGqa { .. }),
            "`{arch}` ({line}) is {:?}",
            profile.path
        );
        assert!(
            AUDITED_GENERIC_GQA.contains(&arch),
            "`{arch}` is served here and must be audited, or the seam is unevidenced"
        );
    }
}

#[test]
fn the_schedule_and_the_loop_norm_follow_nanbeige_cpp() {
    let loops = LayerLoops {
        n_phys: 2,
        n_loops: 2,
        skip_loop_final_norm: false,
    };
    assert_eq!(loops.logical_layers(), 4);
    assert_eq!(
        (0..4).map(|l| loops.physical(l)).collect::<Vec<_>>(),
        [0, 1, 0, 1]
    );
    assert_eq!(
        (0..4).map(|l| loops.loop_norm_after(l)).collect::<Vec<_>>(),
        [false, true, false, false]
    );
    let skipped = LayerLoops {
        skip_loop_final_norm: true,
        ..loops
    };
    assert!((0..4).all(|l| !skipped.loop_norm_after(l)));
    // Three passes over three layers: norms after 2 and 5, not 8.
    let three = LayerLoops {
        n_phys: 3,
        n_loops: 3,
        skip_loop_final_norm: false,
    };
    assert_eq!(
        (0..9)
            .filter(|&l| three.loop_norm_after(l))
            .collect::<Vec<_>>(),
        [2, 5]
    );
}

#[test]
fn every_reader_is_an_audited_generic_row() {
    for (arch, line) in LOOP_READERS {
        let profile = resolve_profile(arch)
            .unwrap_or_else(|| panic!("`{arch}` ({line}) is not a registered architecture"));
        assert!(matches!(profile.path, ArchPath::GenericGqa { .. }));
        assert!(AUDITED_GENERIC_GQA.contains(&arch));
    }
}

#[test]
fn loops_are_read_where_the_graph_loops() {
    let looped = |n: u32| {
        file(vec![
            ("nanbeige.num_loops", GgufValue::U32(n)),
            ("nanbeige.skip_loop_final_norm", GgufValue::Bool(true)),
            ("llama.num_loops", GgufValue::U32(n)),
        ])
    };
    assert_eq!(
        read_layer_loops(&looped(3), "nanbeige", 5).unwrap(),
        Some(LayerLoops {
            n_phys: 5,
            n_loops: 3,
            skip_loop_final_norm: true
        })
    );
    assert_eq!(read_layer_loops(&looped(1), "nanbeige", 5).unwrap(), None);
    assert_eq!(read_layer_loops(&looped(3), "llama", 5).unwrap(), None);
    assert_eq!(
        read_layer_loops(&file(vec![]), "nanbeige", 5).unwrap(),
        None
    );
    assert!(read_layer_loops(&looped(0), "nanbeige", 5)
        .unwrap_err()
        .message()
        .contains("num_loops is 0"));
}

#[test]
fn a_step_of_one_and_an_absent_key_are_both_served() {
    assert!(interleave_step_refusal("ernie4_5-moe", Some(1)).is_none());
    assert!(interleave_step_refusal("llama", None).is_none());
    assert!(interleave_step_refusal("qwen3moe", Some(1)).is_none());
}

#[test]
fn a_step_above_one_is_refused_and_names_llama_cpps_own_contradiction() {
    let r = interleave_step_refusal("ernie4_5-moe", Some(2)).expect("refused");
    assert!(r.contains("ernie4-5-moe.cpp:64"), "{r}");
    assert!(r.contains("ernie4-5.cpp:49"), "{r}");
    assert!(r.contains("cannot be loaded by llama.cpp"), "{r}");
    assert!(
        r.starts_with("`ernie4_5-moe.interleave_moe_layer_step` is 2, and ferrox serves only 1."),
        "{r}"
    );
}

#[test]
fn the_key_is_required_for_ernie_and_optional_everywhere_else() {
    assert!(interleave_step_refusal("ernie4_5-moe", None).is_some());
    for arch in ["llama", "qwen3moe", "dots1", "ernie4_5"] {
        assert!(
            interleave_step_refusal(arch, None).is_none(),
            "{arch} must not require the key"
        );
    }
}

#[test]
fn a_step_of_zero_is_refused_rather_than_dividing_by_zero() {
    let r = interleave_step_refusal("ernie4_5-moe", Some(0)).expect("refused");
    assert!(r.contains("divide by zero"), "{r}");
}

#[test]
fn every_reader_is_a_generic_row_with_the_matching_text_layout() {
    for (arch, what, line) in MROPE_READERS {
        let profile = resolve_profile(arch)
            .unwrap_or_else(|| panic!("`{arch}` ({line}) is not a registered architecture"));
        let ArchPath::GenericGqa { rope } = profile.path else {
            panic!("`{arch}` is not on the generic path");
        };
        match what {
            MropeOnText::SameAsNeox => {
                assert_eq!(rope, RopeLayout::Neox, "{arch}")
            }
            MropeOnText::RefusedNormBase => {
                assert_eq!(rope, RopeLayout::Norm, "{arch}")
            }
        }
        assert!(AUDITED_GENERIC_GQA.contains(&arch), "{arch}");
    }
}

#[test]
fn sections_are_refused_where_neighbours_are_paired() {
    let sections = |arch: &str, at: [u32; 2]| {
        file(vec![(
            "",
            GgufValue::Bool(true),
        ), (
            match arch {
                "glm4" => "glm4.rope.dimension_sections",
                _ => "glm4moe.rope.dimension_sections",
            },
            GgufValue::Array(at.iter().map(|&n| GgufValue::U32(n)).collect()),
        )])
    };
    assert!(declares_mrope(&sections("glm4", [8, 4]), "glm4"));
    assert!(!declares_mrope(&sections("glm4", [8, 0]), "glm4"));
    assert!(!declares_mrope(&file(vec![]), "glm4"));
    let why = mrope_refusal(&sections("glm4", [8, 4]), "glm4").expect("refused");
    assert!(why.starts_with("`glm4.rope.dimension_sections` declares M-RoPE"), "{why}");
    assert!(why.contains("conversion/glm.py:53-85"), "{why}");
    assert!(mrope_refusal(&sections("glm4", [0, 4]), "glm4").is_none());
    assert!(mrope_refusal(&sections("glm4moe", [8, 4]), "glm4moe").is_none());
    assert!(mrope_refusal(&sections("glm4", [8, 4]), "llama").is_none());
}

fn dense_config() -> ModelConfig {
    ModelConfig {
        n_layers: 2,
        n_heads: 4,
        n_kv_heads: 2,
        moe: MoeConfig { expert_ffn_dim: 16 },
        head_dim: 8,
        v_head_dim: 8,
        layer_shapes: LayerShapes::Uniform,
        rope_layout: RopeLayout::Norm,
        qk_norm_style: QkNormStyle::WholeVector,
        ffn_activation: FfnActivation::Silu,
        swa_layers: SwaLayers {
            layers: vec![true, false],
        },
        sliding_window: Some(64),
        embedding_scale: None,
        attention_scale: Some(2.0f32.to_bits()),
        rope_theta_swa: None,
        attn_logit_softcap: None,
        final_logit_softcap: Some(30.0f32.to_bits()),
    }
}

#[test]
fn plan_from_tiny_config_defaults() {
    let cfg = dense_config();
    let plan = ExecutionPlan::from_config(
        &cfg,
        DecoderFamily::StandardGqa,
        MemoryKind::KvGqa,
        FusedOpCaps::default(),
    );
    assert_eq!(plan.family, DecoderFamily::StandardGqa);
    assert_eq!(plan.qk_norm, QkNormStyle::WholeVector);
    assert!(!plan.fused.cuda_gqa);
    assert_eq!(plan.memory.kind, MemoryKind::KvGqa);
    assert_eq!(plan.memory.swa_layers.layers, vec![true, false]);
    assert_eq!(plan.memory.sliding_window, Some(64));
    assert_eq!(plan.attention_scale, Some(2.0f32.to_bits()));
    assert_eq!(plan.final_logit_softcap, Some(30.0f32.to_bits()));
}

#[test]
fn metal_offers_nothing_where_it_is_off() {
    assert_eq!(FusedOpCaps::for_metal(false, true), FusedOpCaps::default());
    let on = FusedOpCaps::for_metal(true, false);
    assert!(on.metal_matvec && on.metal_swiglu && !on.metal_flash_attn && !on.cuda_gqa);
    assert!(FusedOpCaps::for_metal(true, true).metal_flash_attn);
}

#[test]
fn a_launch_needs_a_kind_that_the_backend_knows() {
    let f = matvec(MatrixStorage::F32 { rows: 3, cols: 5 }).unwrap();
    assert_eq!((f.kind, f.rows, f.row_bytes), ("F32", 3, 20));
    let q = matvec(MatrixStorage::Quantized {
        rows: 4,
        bytes: 72,
        metal_kind: Some("Q4_0"),
    })
    .unwrap();
    assert_eq!((q.kind, q.rows, q.row_bytes), ("Q4_0", 4, 18));
    let empty = matvec(MatrixStorage::Quantized {
        rows: 0,
        bytes: 72,
        metal_kind: Some("Q4_0"),
    })
    .unwrap();
    assert_eq!(empty.row_bytes, 0);
    assert!(matvec(MatrixStorage::Quantized {
        rows: 4,
        bytes: 72,
        metal_kind: None,
    })
    .is_none());
    assert!(matvec(MatrixStorage::Mxfp4).is_none());
    assert!(matvec(MatrixStorage::Adapted).is_none());
    assert!(matvec(MatrixStorage::Folded).is_none());
}

#[test]
fn an_architecture_is_on_one_norm_list_at_most() {
    for arch in [
        "olmo", "olmo2", "exaone4", "talkie", "dbrx", "orion", "nemotron", "llama",
    ] {
        let lists = [
            is_post_norm_only(arch),
            uses_non_parametric_layer_norm(arch),
            uses_non_parametric_rms_norm(arch),
            uses_weighted_layer_norm(arch),
            uses_biased_layer_norm(arch),
        ];
        let wanted = if arch == "llama" { 0 } else { 1 };
        assert_eq!(lists.iter().filter(|on| **on).count(), wanted, "{arch}");
    }
}

#[test]
fn the_generic_decoder_takes_what_it_is_selected_for() {
    for arch in ["llama", "glm4", "gemma4", "mamba2", "t5", "nobody", "plm"] {
        assert_eq!(
            ensure_generic_decoder(arch).is_ok(),
            matches!(
                select_engine_kind(arch),
                Ok(SelectedEngineKind::GenericDecoder)
            ),
            "{arch}"
        );
    }
}

#[test]
fn a_float_is_written_out_with_all_its_digits() {
    let mut values = vec![
        0.1f32, 2.0, -2.0, 1e-7, -1.5e-5, 1e-4, 9.9e-5, 1e16, 1.2345678e16, f32::MAX, f32::MIN,
        f32::MIN_POSITIVE, f32::from_bits(1), f32::INFINITY, f32::NEG_INFINITY, f32::NAN, 0.0,
    ];
    values.extend((0..4000u32).map(|i| f32::from_bits(i.wrapping_mul(1_073_741_789))));
    for v in values {
        assert_eq!(written_out_text(&format!("{v:?}")), format!("{v}"), "{v:?}");
    }
    assert_eq!(written_out_text("1.2345e2"), "123.45");
    assert_eq!(written_out_text("here"), "here");
}
