//! The recurrent blocks, the MLA layout, the trunk of a file, and the
//! texts and values they are read from.

use ferrox_models::capability::{resolve_profile, ArchPath, DecoderFamily};
use ferrox_models::engine::{MlaConfig, MlaMoeFfn, MlaMoeRuntime, MlaRoute};
use ferrox_models::gdn::{
    cut_qkv, head_map, recurrent_layers, split_beta_alpha, BetaAlpha, Gdn, GdnHparams, HeadMap,
};
use ferrox_models::gguf::{dims_text, list_text, value_text, GgmlType, GgufFile, GgufValue, TensorInfo};
use ferrox_models::kimi_decoder::{
    blends_output, kimi_token_steps, DenseMlpWeights, KdaAttnWeights, KimiDecodeState,
    KimiDecoderLayerWeights, KimiDecoderWeights, KimiExpertBacking, KimiLatentMoeWeights,
    KimiLayerAttention, KimiLayerFfn, KimiLayerState,
};
use ferrox_models::load_error::{GgufError, LoadError};
use ferrox_models::mamba2::{cut_conv, cut_row, parallel_with_attention, Mamba2, Mamba2Hparams};
use ferrox_models::mla::{
    absorbed_query, head_latent, latent_step, naive_step, rotated_part, split_latent, stack_heads,
    MlaAttnWeights, MlaKvB,
};
use ferrox_models::mla_arch::{is_lite, mla_arch, GluAct, MLA_ENGINE_ARCHS};
use ferrox_models::mla_gguf_loader::GatingFunction;
use ferrox_models::mla_q_proj::MlaQProj;
use ferrox_models::mla_yarn::{resolve_mla_yarn, YarnKeys, YarnLogMul};
use ferrox_models::mtp_blocks::{
    block_and_rest, block_of, is_mtp_block_tensor, note_mtp_blocks_skipped, reads_nextn,
    trunk_layers, TrunkLayers, NEXTN_READERS,
};
use ferrox_models::text::{
    block_name_text, decimal_text, eq_ignore_ascii_case, is_before, parse_unsigned, rsplit_once,
    split, split_once, strip_suffix, trim,
};
use ferrox_models::weights::{
    load_f32_vec, load_weight_matrix, split_expert_tensor, transposed, ExpertWeights, WeightMatrix,
};

fn file(kv: Vec<(String, GgufValue)>, tensors: Vec<(&str, Vec<u64>)>) -> GgufFile {
    GgufFile {
        metadata: kv,
        tensors: tensors
            .into_iter()
            .map(|(name, shape)| TensorInfo {
                name: name.to_string(),
                values: (0..shape.iter().product::<u64>() as u32).collect(),
                shape,
                dtype: GgmlType::F32,
            })
            .collect(),
    }
}

fn nextn(arch: &str, n: Option<u32>) -> GgufFile {
    file(
        n.into_iter()
            .map(|n| (format!("{arch}.nextn_predict_layers"), GgufValue::U32(n)))
            .collect(),
        vec![],
    )
}

#[test]
fn a_reader_subtracts_the_blocks_from_its_layer_count() {
    assert_eq!(
        trunk_layers(&nextn("exaone-moe", Some(1)), "exaone-moe", 5).unwrap(),
        TrunkLayers {
            block_count: 5,
            n_layers: 4,
            n_mtp_blocks: 1
        }
    );
    assert_eq!(
        trunk_layers(&nextn("mimo2", Some(3)), "mimo2", 51).unwrap(),
        TrunkLayers {
            block_count: 51,
            n_layers: 48,
            n_mtp_blocks: 3
        }
    );
    for file in [nextn("exaone-moe", None), nextn("exaone-moe", Some(0))] {
        assert_eq!(
            trunk_layers(&file, "exaone-moe", 4).unwrap(),
            TrunkLayers::all(4)
        );
    }
}

#[test]
fn a_non_reader_with_a_nonzero_count_is_refused_and_zero_is_not() {
    match trunk_layers(&nextn("grok", Some(1)), "grok", 4) {
        Err(LoadError::UnsupportedFeature(arch, msg)) => {
            assert_eq!(arch, "grok");
            assert!(msg.contains("NextN/MTP"), "{msg}");
            assert!(msg.contains("grok.nextn_predict_layers=1"), "{msg}");
        }
        other => panic!("expected a refusal, got {other:?}"),
    }
    assert_eq!(
        trunk_layers(&nextn("grok", Some(0)), "grok", 4).unwrap(),
        TrunkLayers::all(4)
    );
}

#[test]
fn a_count_not_below_block_count_is_refused() {
    for n in [4, 5] {
        assert!(matches!(
            trunk_layers(&nextn("mimo2", Some(n)), "mimo2", 4),
            Err(LoadError::UnsupportedFeature(a, m)) if a == "mimo2" && m.contains("n_layer_nextn < n_layer_all")
        ));
    }
    let key = "mimo2.nextn_predict_layers".to_string();
    let odd = file(vec![(key, GgufValue::I32(-1))], vec![]);
    assert_eq!(
        trunk_layers(&odd, "mimo2", 4).unwrap_err().message(),
        "unsupported feature for mimo2: mimo2.nextn_predict_layers is not an unsigned integer: \
         I32(-1)"
    );
}

#[test]
fn the_reader_census_is_the_predicate() {
    for (arch, _) in NEXTN_READERS {
        assert!(reads_nextn(arch), "{arch}");
    }
    for arch in [
        "mimo2",
        "step35",
        "exaone4",
        "exaone-moe",
        "glm4moe",
        "deepseek2",
    ] {
        assert!(reads_nextn(arch), "{arch}");
    }
    for arch in ["llama", "grok", "gemma4", "qwen3moe", "mistral4"] {
        assert!(!reads_nextn(arch), "{arch}");
    }
    assert_eq!(NEXTN_READERS.len(), 17, "measured on 2026-09-11");
}

#[test]
fn only_tensors_of_the_skipped_blocks_are_mtp_tensors() {
    let trunk = TrunkLayers {
        block_count: 6,
        n_layers: 4,
        n_mtp_blocks: 2,
    };
    assert!(!is_mtp_block_tensor("blk.3.attn_norm.weight", &trunk));
    assert!(is_mtp_block_tensor("blk.4.attn_norm.weight", &trunk));
    assert!(is_mtp_block_tensor("blk.4.nextn.eh_proj.weight", &trunk));
    assert!(is_mtp_block_tensor("blk.5.ffn_down_exps.weight", &trunk));
    assert!(!is_mtp_block_tensor("blk.6.attn_norm.weight", &trunk));
    assert!(!is_mtp_block_tensor("output.weight", &trunk));
    assert!(!is_mtp_block_tensor("blk.x.attn_norm.weight", &trunk));
    assert!(!is_mtp_block_tensor("blk.4", &trunk));
}

#[test]
fn skipped_blocks_count_as_read() {
    let trunk = TrunkLayers {
        block_count: 3,
        n_layers: 2,
        n_mtp_blocks: 1,
    };
    let f = file(
        vec![],
        vec![
            ("blk.1.a", vec![1]),
            ("blk.2.a", vec![1]),
            ("output", vec![1]),
            ("blk.2.b", vec![1]),
        ],
    );
    let mut consumed = vec!["output".to_string()];
    assert_eq!(note_mtp_blocks_skipped(&f, &trunk, &mut consumed), 2);
    assert_eq!(consumed, ["output", "blk.2.a", "blk.2.b"]);
    assert_eq!(note_mtp_blocks_skipped(&f, &TrunkLayers::all(3), &mut consumed), 0);
    // Without MTP blocks nothing is marked, whatever the other counts.
    let uneven = TrunkLayers { block_count: 9, n_layers: 0, n_mtp_blocks: 0 };
    assert_eq!(note_mtp_blocks_skipped(&f, &uneven, &mut consumed), 0);
    // A block's name is read back.
    assert_eq!(block_of(&block_name_text(17, "x.weight")), Some(17));
    assert_eq!(block_and_rest("blk.2.a.b"), Some((2, "a.b")));
}

fn mamba2_hp() -> Mamba2Hparams {
    Mamba2Hparams {
        d_conv: 3,
        d_inner: 4,
        d_state: 2,
        n_head: 2,
        n_group: 1,
    }
}

#[test]
fn mamba2_the_widths_are_the_graph_s() {
    let h = mamba2_hp();
    assert_eq!(h.head_dim(), 2);
    assert_eq!(h.conv_width(), 4 + 2 * 2);
    assert_eq!(h.in_proj_rows(), 8 + 4 + 2);
    assert_eq!(h.state_floats(), (2 * 8, 2 * 2 * 2));
}

#[test]
fn a_mamba2_row_is_cut_in_the_graph_s_order() {
    let h = mamba2_hp();
    let row: Vec<u32> = (0..14).collect();
    let (z, xbc, dt) = cut_row(&h, &row);
    assert_eq!((z, xbc, dt), (&row[..4], &row[4..12], &row[12..]));
    let (x, b, c) = cut_conv(&h, xbc);
    assert_eq!((x, b, c), (&row[4..8], &row[8..10], &row[10..12]));
    assert!(parallel_with_attention("falcon-h1"));
    assert!(!parallel_with_attention("mamba2"));
    assert_eq!(h.scan_dims().head_dim, 2);
}

fn ssm(arch: &str, kv: &[(&str, u64)]) -> Vec<(String, GgufValue)> {
    kv.iter()
        .map(|(k, v)| (format!("{arch}.ssm.{k}"), GgufValue::U64(*v)))
        .collect()
}

#[test]
fn a_mamba2_layer_loads_or_says_why_not() {
    let kv = |rank: u64, conv: u64| {
        ssm(
            "mamba2",
            &[
                ("conv_kernel", conv),
                ("inner_size", 4),
                ("state_size", 2),
                ("time_step_rank", rank),
                ("group_count", 1),
            ],
        )
    };
    let tensors = || {
        vec![
            ("blk.0.ssm_in.weight", vec![3, 14]),
            ("blk.0.ssm_conv1d.weight", vec![3, 8]),
            ("blk.0.ssm_conv1d.bias", vec![8]),
            ("blk.0.ssm_dt.bias", vec![2]),
            ("blk.0.ssm_a", vec![2]),
            ("blk.0.ssm_d", vec![2]),
            ("blk.0.ssm_norm.weight", vec![4]),
            ("blk.0.ssm_out.weight", vec![4, 3]),
        ]
    };
    let f = file(kv(2, 3), tensors());
    assert_eq!(Mamba2Hparams::read(&f, "mamba2").unwrap(), mamba2_hp());
    assert!(mamba2_hp().fits());
    let m = Mamba2::load(&f, "mamba2", 0, 3).map_err(|e| e.message()).unwrap();
    assert_eq!((m.in_proj.rows(), m.out_proj.rows()), (14, 3));
    assert_eq!(m.norm, Some(vec![0, 1, 2, 3]));
    let state = m.zero_state();
    assert_eq!((state.conv.len(), state.ssm.len()), (16, 8));
    assert!(m.takes(6, 2, &state) && !m.takes(7, 2, &state));
    assert!(!m.takes(6, usize::MAX, &state));
    let cut = Mamba2 { a: vec![0], ..m };
    assert!(!cut.takes(6, 2, &state), "a decay for each head");
    let mut short = tensors();
    short[4].1 = vec![3];
    let err = Mamba2::load(&file(kv(2, 3), short), "mamba2", 0, 3)
        .unwrap_err()
        .message();
    assert!(err.contains("blk.0.ssm_a"), "{err}");
    let err = Mamba2Hparams::read(&file(kv(3, 3), vec![]), "mamba2").unwrap_err();
    assert!(err.message().contains("mamba-base.cpp:167-168"));
    let err = Mamba2Hparams::read(&file(kv(2, 1), vec![]), "mamba2").unwrap_err();
    assert!(err.message().contains("d_conv - 1 rows"));
    assert!(matches!(
        Mamba2Hparams::read(&file(vec![], vec![]), "mamba2"),
        Err(LoadError::MissingHparam(k)) if k == "mamba2.ssm.conv_kernel"
    ));
}

#[test]
fn a_recurrent_layer_is_refused_before_a_later_size_counts() {
    let mamba = ssm(
        "mamba2",
        &[
            ("conv_kernel", u64::MAX),
            ("inner_size", 4),
            ("state_size", u64::MAX),
            ("time_step_rank", 2),
            ("group_count", 1),
        ],
    );
    let f = file(mamba, vec![]);
    assert!(!Mamba2Hparams::read(&f, "mamba2").unwrap().fits());
    let err = Mamba2::load(&f, "mamba2", 0, 3).unwrap_err().message();
    assert!(err.contains("blk.0.ssm_in.weight"), "{err}");
    let gdn = ssm(
        "qwen35",
        &[
            ("conv_kernel", u64::MAX),
            ("state_size", 2),
            ("group_count", 1),
            ("time_step_rank", 2),
            ("inner_size", 4),
        ],
    );
    let f = file(gdn, vec![("blk.0.attn_qkv.weight", vec![3, 8])]);
    assert!(!GdnHparams::read(&f, "qwen35").unwrap().fits());
    let err = Gdn::load(&f, "qwen35", 0, 3).unwrap_err().message();
    assert!(err.contains("blk.0.ssm_beta.weight"), "{err}");
}

fn gdn_hp() -> GdnHparams {
    GdnHparams {
        d_conv: 3,
        head_dim: 2,
        n_k_heads: 1,
        n_v_heads: 2,
        map: HeadMap::Tiled,
    }
}

#[test]
fn gdn_the_widths_are_the_graph_s() {
    let h = gdn_hp();
    assert_eq!((h.key_dim(), h.value_dim(), h.conv_dim()), (2, 4, 8));
    assert_eq!(h.state_floats(), (2 * 8, 2 * 2 * 2));
}

#[test]
fn a_gdn_row_is_cut_and_its_fused_gates_are_parted() {
    let h = gdn_hp();
    let row: Vec<u32> = (0..8).collect();
    let (q, k, v) = cut_qkv(&h, &row);
    assert_eq!((q, k, v), (&row[..2], &row[2..4], &row[4..]));
    // Two K heads with two V heads each: of each K head its two betas,
    // then its two alphas.
    let h = GdnHparams {
        n_k_heads: 2,
        n_v_heads: 4,
        ..gdn_hp()
    };
    let mixed: Vec<u32> = (0..16).collect();
    let (beta, alpha) = split_beta_alpha(&h, &mixed, 2);
    assert_eq!(beta, [0, 1, 4, 5, 8, 9, 12, 13]);
    assert_eq!(alpha, [2, 3, 6, 7, 10, 11, 14, 15]);
    let none = GdnHparams { n_v_heads: 0, ..gdn_hp() };
    assert_eq!(split_beta_alpha::<u32>(&none, &[], 2), (vec![], vec![]));
    assert_eq!(head_map("qwen3next"), HeadMap::Grouped);
    assert_eq!(head_map("qwen35"), HeadMap::Tiled);
}

#[test]
fn a_gdn_layer_loads_or_says_why_not() {
    let kv = |inner: u64| {
        ssm(
            "qwen35",
            &[
                ("conv_kernel", 3),
                ("state_size", 2),
                ("group_count", 1),
                ("time_step_rank", 2),
                ("inner_size", inner),
            ],
        )
    };
    let tensors = || {
        vec![
            ("blk.0.attn_qkv.weight", vec![3, 8]),
            ("blk.0.attn_gate.weight", vec![3, 4]),
            ("blk.0.ssm_conv1d.weight", vec![3, 8]),
            ("blk.0.ssm_dt.bias", vec![2]),
            ("blk.0.ssm_a", vec![2]),
            ("blk.0.ssm_beta.weight", vec![3, 2]),
            ("blk.0.ssm_alpha.weight", vec![3, 2]),
            ("blk.0.ssm_norm.weight", vec![2]),
            ("blk.0.ssm_out.weight", vec![4, 3]),
        ]
    };
    let f = file(kv(4), tensors());
    let h = GdnHparams::read(&f, "qwen35").unwrap();
    assert_eq!(h, gdn_hp());
    assert!(h.fits());
    assert_eq!(h.delta_dims().n_v_heads, 2);
    let g = Gdn::load(&f, "qwen35", 0, 3).map_err(|e| e.message()).unwrap();
    assert!(matches!(g.beta_alpha, BetaAlpha::Split { .. }));
    assert_eq!(g.zero_state().conv.len(), 16);
    assert!(g.takes(3, 1, &g.zero_state()) && !g.takes(3, 2, &g.zero_state()));
    let state = g.zero_state();
    let cut = Gdn { norm: vec![0], ..g };
    assert!(!cut.takes(3, 1, &state), "a norm as wide as a head");
    let mut fused = tensors();
    fused.push(("blk.0.ssm_ba.weight", vec![3, 4]));
    let g = Gdn::load(&file(kv(4), fused), "qwen35", 0, 3).unwrap();
    assert!(matches!(g.beta_alpha, BetaAlpha::Fused { .. }));
    let err = GdnHparams::read(&file(kv(5), vec![]), "qwen35").unwrap_err();
    assert!(
        err.message().contains(
            "GdnHparams { d_conv: 3, head_dim: 2, n_k_heads: 1, n_v_heads: 2, map: Tiled } with \
             inner_size 5"
        ),
        "{}",
        err.message()
    );
    let err = Gdn::load(&file(kv(4), vec![]), "qwen35", 0, 3).unwrap_err();
    assert!(err.message().contains("blk.0.attn_qkv.weight"));
}

#[test]
fn recurrent_layers_come_from_the_list_or_the_interval() {
    let list = |items: Vec<GgufValue>| {
        file(
            vec![(
                "qwen35.attention.recurrent_layers".to_string(),
                GgufValue::Array(items),
            )],
            vec![],
        )
    };
    let interval = |n: u32| {
        file(
            vec![(
                "qwen35.full_attention_interval".to_string(),
                GgufValue::U32(n),
            )],
            vec![],
        )
    };
    let bools = |bs: &[bool]| list(bs.iter().map(|&b| GgufValue::Bool(b)).collect());
    assert_eq!(
        recurrent_layers(&bools(&[false, true, true]), "qwen35", 3, 2).unwrap(),
        Some(vec![false, true])
    );
    assert_eq!(
        recurrent_layers(&interval(3), "qwen35", 7, 7).unwrap(),
        Some(vec![true, true, false, true, true, false, true])
    );
    assert_eq!(
        recurrent_layers(&file(vec![], vec![]), "qwen35", 5, 5).unwrap(),
        Some(vec![true, true, true, false, true])
    );
    assert_eq!(recurrent_layers(&interval(3), "llama", 7, 7).unwrap(), None);
    assert!(recurrent_layers(&bools(&[true]), "qwen35", 3, 2)
        .unwrap_err()
        .message()
        .contains("1 entries for block_count 3"));
    assert!(recurrent_layers(
        &list(vec![GgufValue::Bool(true), GgufValue::U32(1)]),
        "qwen35",
        2,
        2
    )
    .unwrap_err()
    .message()
    .contains("entry 1 is not a bool"));
    assert!(recurrent_layers(&interval(0), "qwen35", 2, 2)
        .unwrap_err()
        .message()
        .contains("qwen35.cpp:22"));
}

#[test]
fn the_lite_rule_is_deepseek2_cpp_line_8() {
    assert!(is_lite(27, 102400));
    assert!(is_lite(26, 1));
    assert!(is_lite(48, 128256));
    assert!(
        !is_lite(48, 129280),
        "DeepSeek-V3 is 61 layers; a 48-layer file with V3's vocab is not lite"
    );
    assert!(!is_lite(60, 102400), "DeepSeek-V2 236B");
    assert!(!is_lite(3, 48), "the fixtures");
}

#[test]
fn every_row_is_a_dedicated_mla_profile() {
    for (name, ..) in MLA_ENGINE_ARCHS {
        let row = mla_arch(name).unwrap();
        let profile = resolve_profile(row.name).unwrap_or_else(|| {
            panic!(
                "`{}` ({}) is not a registered architecture",
                row.name, row.lines
            )
        });
        assert_eq!(profile.family, DecoderFamily::Mla, "{}", row.name);
        assert!(
            matches!(profile.path, ArchPath::DedicatedOnly { .. }),
            "{}: the MLA engine is reached through DedicatedOnly, not the generic path",
            row.name
        );
    }
    assert!(mla_arch("deepseek32").is_none(), "DSA is its own stack");
    assert!(mla_arch("llama").is_none());
}

#[test]
fn mistral4_is_deepseek2s_row_under_a_second_name() {
    let ds = mla_arch("deepseek2").unwrap();
    let m4 = mla_arch("mistral4").unwrap();
    assert_eq!(ds.q_proj, m4.q_proj);
    assert_eq!(ds.output_head, m4.output_head);
    assert!(matches!(
        (ds.dense_act, m4.dense_act),
        (GluAct::Swiglu, GluAct::Swiglu)
    ));
}

fn matrix(rows: usize, cols: usize) -> WeightMatrix {
    WeightMatrix::F32 {
        data: vec![0; rows * cols],
        rows,
        cols,
    }
}

fn mla_cfg() -> MlaConfig {
    MlaConfig {
        num_heads: 2,
        q_lora_rank: 0,
        kv_lora_rank: 3,
        qk_nope_head_dim: 2,
        qk_rope_head_dim: 1,
        v_head_dim: 2,
        use_output_gate: false,
        rope: None,
    }
}

#[test]
fn an_mla_step_lays_its_values_out() {
    let cfg = mla_cfg();
    assert_eq!(rotated_part(&cfg, 1), (5, 6));
    assert_eq!(
        split_latent(&cfg, &[1, 2, 3, 9]),
        (vec![1, 2, 3], vec![9])
    );
    let (keys, values) = naive_step(&cfg, &[10, 11, 12, 13, 20, 21, 22, 23], &[9]);
    assert_eq!(keys, [10, 11, 9, 20, 21, 9]);
    assert_eq!(values, [12, 13, 22, 23]);
    assert_eq!(latent_step(&cfg, &[1, 2, 3], &[9]), [1, 2, 3, 9]);
    let q = absorbed_query(
        &cfg,
        &vec![vec![1, 2, 3], vec![4, 5, 6]],
        &[70, 71, 72, 80, 81, 82],
    );
    assert_eq!(q, [1, 2, 3, 72, 4, 5, 6, 82]);
    assert_eq!(head_latent(&cfg, &[1, 2, 3, 4, 5, 6], 1), [4, 5, 6]);
    assert_eq!(stack_heads(&vec![vec![1], vec![2, 3]]), [1, 2, 3]);
    // A step adds one cached position.
    let whole = MlaKvB::Combined(matrix(1, 1));
    assert_eq!(whole.cached_positions(&cfg, 12), 2);
    assert_eq!(whole.cached_positions(&cfg, 12 + keys.len()), 3);
    let split = MlaKvB::Split {
        k_b: vec![],
        v_b: vec![],
    };
    assert_eq!(split.cached_positions(&cfg, 8), 2);
    assert_eq!(split.cached_positions(&cfg, 12), 3);
}

fn expert() -> ExpertWeights {
    ExpertWeights {
        gate: matrix(1, 1),
        up: matrix(1, 1),
        down: matrix(1, 1),
    }
}

#[test]
fn a_bias_counts_under_sigmoid_alone() {
    let route = |gating: GatingFunction, bias: Option<Vec<u32>>| {
        let runtime = MlaMoeRuntime {
            n_experts_active: 1,
            gating,
            norm_topk_prob: true,
            expert_weights_scale: 0,
        };
        runtime.route(&MlaMoeFfn {
            router: matrix(1, 1),
            experts: vec![],
            shared_expert: expert(),
            exp_probs_bias: bias,
        })
    };
    assert_eq!(
        route(GatingFunction::Sigmoid, Some(vec![0])),
        MlaRoute::SigmoidWithBias
    );
    assert_eq!(route(GatingFunction::Sigmoid, None), MlaRoute::Plain);
    assert_eq!(route(GatingFunction::Softmax, Some(vec![0])), MlaRoute::Plain);
}

#[test]
fn yarn_needs_its_context_length_and_whole_bands() {
    let scaled = |kind: &str, more: Vec<(&str, GgufValue)>| {
        let mut kv = vec![(
            "deepseek2.rope.scaling.type".to_string(),
            GgufValue::String(kind.to_string()),
        )];
        for (k, v) in more {
            kv.push((format!("deepseek2.rope.scaling.{k}"), v));
        }
        file(kv, vec![])
    };
    let context = || ("original_context_length", GgufValue::U32(4096));
    let read = YarnLogMul::Read {
        deepseek2_mscale_rule: true,
    };
    let resolve = |f: &GgufFile, width: usize, on: bool| {
        resolve_mla_yarn(f, "deepseek2", read, width, on).map_err(|e| e.message())
    };
    assert_eq!(resolve(&file(vec![], vec![]), 64, true), Ok(None));
    assert_eq!(resolve(&scaled("NONE", vec![]), 64, true), Ok(None));
    assert!(resolve(&scaled("linear", vec![]), 64, true)
        .unwrap_err()
        .contains("rope.scaling.type = \"linear\""));
    assert!(resolve(&scaled("yarn", vec![]), 64, false)
        .unwrap_err()
        .contains("original_context_length"));
    assert_eq!(resolve(&scaled("yarn", vec![context()]), 63, false), Ok(None));
    assert!(resolve(&scaled("yarn", vec![context()]), 63, true)
        .unwrap_err()
        .contains("width 63"));
    let multiplier = GgufValue::F32 { bits: 0.5f32.to_bits(), text: "0.5".to_string() };
    let f = scaled("Yarn", vec![context(), ("yarn_log_multiplier", multiplier)]);
    assert_eq!(
        resolve(&f, 64, true),
        Ok(Some(YarnKeys {
            original_context_length: 4096,
            log_multiplier: Some(0.5f32.to_bits()),
            deepseek2_mscale_rule: true,
            attn_factor: 1.0f32.to_bits(),
        }))
    );
    let unread = resolve_mla_yarn(&f, "deepseek2", YarnLogMul::NotRead, 64, true).unwrap();
    assert_eq!(unread.unwrap().log_multiplier, None);
}

fn mlp() -> DenseMlpWeights {
    DenseMlpWeights {
        gate_proj: matrix(1, 1),
        up_proj: matrix(1, 1),
        down_proj: matrix(1, 1),
    }
}

fn kimi_layer(recurs: bool, experts: Option<KimiExpertBacking>) -> KimiDecoderLayerWeights {
    let attn = if recurs {
        KimiLayerAttention::Kda(Box::new(KdaAttnWeights {
            q_proj: matrix(1, 1),
            k_proj: matrix(1, 1),
            v_proj: matrix(1, 1),
            q_conv_weight: vec![],
            k_conv_weight: vec![],
            v_conv_weight: vec![],
            a_log: vec![],
            f_a_proj: matrix(1, 1),
            f_b_proj: matrix(1, 1),
            dt_bias: vec![],
            b_proj: matrix(1, 1),
            g_proj: matrix(1, 1),
            o_norm_weight: vec![],
            o_proj: matrix(1, 1),
        }))
    } else {
        KimiLayerAttention::Mla(Box::new(MlaAttnWeights {
            q: MlaQProj::Direct(matrix(1, 1)),
            kv_a_proj_with_mqa: matrix(1, 1),
            kv_a_layernorm: vec![],
            kv_b: MlaKvB::Combined(matrix(1, 1)),
            o_proj: matrix(1, 1),
            g_proj: None,
        }))
    };
    KimiDecoderLayerWeights {
        input_layernorm_weight: vec![],
        attn,
        post_attention_layernorm_weight: vec![],
        ffn: match experts {
            None => KimiLayerFfn::Dense(Box::new(mlp())),
            Some(experts) => KimiLayerFfn::Moe(Box::new(KimiLatentMoeWeights {
                router_weight: matrix(1, 1),
                e_score_correction_bias: vec![],
                down_proj: matrix(1, 1),
                up_proj: matrix(1, 1),
                routed_expert_norm_weight: None,
                experts,
                shared_expert: mlp(),
            })),
        },
        self_attention_res_norm_weight: vec![],
        self_attention_res_proj_weight: vec![],
        mlp_res_norm_weight: vec![],
        mlp_res_proj_weight: vec![],
    }
}

fn kimi_weights(layers: Vec<KimiDecoderLayerWeights>) -> KimiDecoderWeights {
    KimiDecoderWeights {
        embedding: matrix(1, 1),
        layers,
        output_attn_res_norm_weight: vec![],
        output_attn_res_proj_weight: vec![],
        final_norm_weight: vec![],
        output_head: matrix(1, 1),
    }
}

#[test]
fn a_layer_s_state_is_of_its_attention_s_kind() {
    let w = kimi_weights(vec![
        kimi_layer(true, None),
        kimi_layer(false, Some(KimiExpertBacking::Resident(vec![]))),
        kimi_layer(true, Some(KimiExpertBacking::Stored)),
    ]);
    let state = KimiDecodeState::new(&w);
    let kinds: Vec<Option<usize>> = state
        .layer_states
        .iter()
        .map(|s| match s {
            KimiLayerState::Kda(at) => Some(*at),
            KimiLayerState::Mla { .. } => None,
        })
        .collect();
    assert_eq!(kinds, [Some(0), None, Some(1)]);
    assert_eq!(w.expert_store_layer(), Some(2));
    assert_eq!(
        kimi_weights(vec![kimi_layer(true, None)]).expert_store_layer(),
        None
    );
}

#[test]
fn a_block_is_opened_every_so_many_layers() {
    let steps = kimi_token_steps(5, 2);
    let opens: Vec<bool> = steps.iter().map(|s| s.opens_block).collect();
    assert_eq!(opens, [true, false, true, false, true]);
    let blends: Vec<bool> = steps.iter().map(|s| s.blends).collect();
    assert_eq!(blends, [false, true, true, true, true]);
    let residuals: Vec<usize> = steps.iter().map(|s| s.residuals).collect();
    assert_eq!(residuals, [1, 1, 2, 2, 3]);
    assert!(blends_output(5) && !blends_output(0));
}

#[test]
fn values_are_written_as_messages_hold_them() {
    assert_eq!(value_text(&GgufValue::I8(-128)), "I8(-128)");
    assert_eq!(value_text(&GgufValue::U64(u64::MAX)), "U64(18446744073709551615)");
    assert_eq!(value_text(&GgufValue::I64(i64::MIN)), "I64(-9223372036854775808)");
    assert_eq!(
        value_text(&GgufValue::Array(vec![
            GgufValue::Bool(true),
            GgufValue::String("a\"b".to_string())
        ])),
        "Array([Bool(true), String(\"a\\\"b\")])"
    );
    assert_eq!(list_text(&[1, 20]), "[1, 20]");
    assert_eq!(dims_text(&vec![]), "[]");
    assert_eq!(
        LoadError::UnsupportedDtype("t".to_string(), GgmlType::Quant(12)).message(),
        "unsupported dtype for t: Quant(12)"
    );
    assert_eq!(
        LoadError::UnsupportedArchitecture("x".to_string()).message(),
        "unsupported architecture: x"
    );
    assert_eq!(
        LoadError::StrictKernels("no kernel".to_string()).message(),
        "strict kernels: no kernel"
    );
}

#[test]
fn metadata_is_read_by_kind() {
    let f = file(
        vec![
            ("u8".to_string(), GgufValue::U8(3)),
            ("neg".to_string(), GgufValue::I32(-3)),
            ("pos".to_string(), GgufValue::I64(4)),
            ("f".to_string(), GgufValue::F32 { bits: 7, text: "1e-44".to_string() }),
            ("b".to_string(), GgufValue::Bool(true)),
            ("s".to_string(), GgufValue::String("x".to_string())),
        ],
        vec![("t", vec![2])],
    );
    assert_eq!(f.metadata_u64("u8"), Some(3));
    assert_eq!(f.metadata_u64("neg"), None);
    assert_eq!(f.metadata_f32("f"), Some(7));
    assert_eq!(f.metadata_bool("b"), Some(true));
    assert_eq!(f.metadata_str("s"), Some("x"));
    assert_eq!(f.metadata_str("b"), None);
    assert_eq!(f.usize_or("absent", 9), 9);
    assert_eq!(f.bits_or("f", 9), 7);
    assert!(f.has_tensor("t") && !f.has_tensor("u"));
    assert!(f.required_u64("neg").is_err());
    assert_eq!(f.required_str("s").unwrap(), "x");
    assert!(matches!(
        f.required_tensor("u"),
        Err(LoadError::Gguf(GgufError::TensorNotFound(n))) if n == "u"
    ));
}

#[test]
fn tensors_become_matrices() {
    let f = file(
        vec![],
        vec![("m", vec![3, 2]), ("v", vec![4]), ("e", vec![2, 3, 2])],
    );
    assert!(matches!(
        load_weight_matrix(&f, "m").unwrap(),
        WeightMatrix::Stored { part: 0, parts: 1, rows: 2, cols: 3, .. }
    ));
    assert!(load_weight_matrix(&f, "v").is_err());
    assert_eq!(load_f32_vec(&f, "v").unwrap(), [0, 1, 2, 3]);
    let slices = split_expert_tensor(&f, "e", 2).unwrap();
    assert_eq!(slices.len(), 2);
    assert!(matches!(
        &slices[1],
        WeightMatrix::Stored { tensor, part: 1, parts: 2, rows: 3, cols: 2 } if tensor == "e"
    ));
    assert!(split_expert_tensor(&f, "e", 3).is_err());
    let t = transposed(&[1, 2, 3, 4, 5, 6], 2, 3);
    assert_eq!(t, [1, 4, 2, 5, 3, 6]);
    assert_eq!(transposed(&t, 3, 2), [1, 2, 3, 4, 5, 6]);
}

#[test]
fn texts_are_cut_and_numbers_are_read() {
    assert_eq!(decimal_text(0), "0");
    assert_eq!(decimal_text(u64::MAX), u64::MAX.to_string());
    let parse = |s: &str, max: u64| parse_unsigned(&s.chars().collect::<Vec<_>>(), max);
    assert_eq!(parse("0042", 100), Some(42));
    assert_eq!(parse("+42", 100), Some(42));
    assert_eq!(parse("101", 100), None);
    for bad in ["", "+", "-1", "4a", " 4"] {
        assert_eq!(parse(bad, 100), None, "{bad:?}");
    }
    assert_eq!(parse(&decimal_text(987), 1000), Some(987));
    assert_eq!(trim("\t a b\u{3000}\n"), "a b");
    assert_eq!(trim(" \n"), "");
    assert_eq!(split("a,,b,", ','), ["a", "", "b", ""]);
    assert_eq!(rsplit_once("a:b:c", ':'), Some(("a:b", "c")));
    assert_eq!(split_once("a:b:c", ':'), Some(("a", "b:c")));
    assert_eq!(rsplit_once("abc", ':'), None);
    assert_eq!(strip_suffix("x.weight", ".weight"), Some("x"));
    assert_eq!(strip_suffix("x.bias", ".weight"), None);
    assert!(eq_ignore_ascii_case("YaRN", "yarn"));
    assert!(!eq_ignore_ascii_case("YÄRN", "yärn"));
    assert_ne!(decimal_text(10), decimal_text(1));
    assert!(is_before("a", "b") && is_before("b", "c") && is_before("a", "c"));
    assert!(is_before("blk.10", "blk.2") && !is_before("b", "b") && is_before("a", "ab"));
}
