//! Layer shapes, norms and streams.

use ferrox_models::capability::{QkNormStyle, RopeLayout};
use ferrox_models::config::{FfnActivation, ModelConfig, MoeConfig, SwaLayers};
use ferrox_models::gguf::{GgmlType, GgufFile, GgufValue, TensorInfo};
use ferrox_models::hrm::{
    hrm_schedule, stack_stream, HrmStream, HrmStreams, LayerSchedule,
};
use ferrox_models::layer_shapes::{
    absent_ffn, check_gqa_projection_widths, load_non_gqa_attention,
    per_layer_shapes_read_by_llama_cpp, read_u64_per_layer, read_u64_trunk_layers, AttnShape,
    AttnWeights, KvGeometry, LayerShape, LayerShapes, PER_LAYER_SHAPE_ARCHS,
};
use ferrox_models::mtp_blocks::TrunkLayers;
use ferrox_models::norm::{norm_function, NormFunction, NormOp, NormParam};
use ferrox_models::norm_sites::{NormSites, StoredNorm};
use ferrox_models::weights::WeightMatrix;

fn bits(v: &[f32]) -> Vec<u32> {
    v.iter().map(|x| x.to_bits()).collect()
}

fn tensor(name: &str, shape: Vec<u64>, values: Vec<u32>) -> TensorInfo {
    TensorInfo {
        name: name.to_string(),
        shape,
        dtype: GgmlType::F32,
        values,
    }
}

fn deci_like() -> Vec<LayerShape> {
    vec![
        LayerShape {
            attention: AttnShape::Gqa {
                n_heads: 4,
                n_kv_heads: 2,
            },
            ffn_dim: 16,
        },
        LayerShape {
            attention: AttnShape::Linear,
            ffn_dim: 8,
        },
        LayerShape {
            attention: AttnShape::Absent,
            ffn_dim: 16,
        },
        LayerShape {
            attention: AttnShape::Absent,
            ffn_dim: 0,
        },
    ]
}

fn config(layer_shapes: LayerShapes) -> ModelConfig {
    ModelConfig {
        n_layers: 4,
        n_heads: 4,
        n_kv_heads: 2,
        moe: MoeConfig { expert_ffn_dim: 16 },
        head_dim: 8,
        v_head_dim: 8,
        layer_shapes,
        rope_layout: RopeLayout::Norm,
        qk_norm_style: QkNormStyle::PerHead,
        ffn_activation: FfnActivation::Gelu,
        swa_layers: SwaLayers { layers: vec![] },
        sliding_window: None,
        embedding_scale: None,
        attention_scale: None,
        rope_theta_swa: None,
        attn_logit_softcap: None,
        final_logit_softcap: None,
    }
}

#[test]
fn the_two_zero_counts_are_two_different_layer_kinds() {
    assert_eq!(AttnShape::from_counts(0, 0), Ok(AttnShape::Absent));
    assert_eq!(AttnShape::from_counts(4, 0), Ok(AttnShape::Linear));
    assert_eq!(
        AttnShape::from_counts(4, 2),
        Ok(AttnShape::Gqa {
            n_heads: 4,
            n_kv_heads: 2
        })
    );
    assert!(AttnShape::from_counts(0, 2).is_err());
    assert!(AttnShape::from_counts(3, 2).is_err());
    assert_eq!(AttnShape::Linear.n_kv_heads(), 0);
    assert_eq!(AttnShape::Absent.n_heads(), 0);
    assert_eq!(
        AttnShape::from_counts(3, 2),
        Err("head_count 3 is not a multiple of head_count_kv 2".to_string())
    );
}

#[test]
fn equal_arrays_collapse_to_uniform_even_for_a_layer_zero_architecture() {
    let s = LayerShapes::resolve("llama", &[4, 4], &[2, 2], Some(&[16, 16]), 16).unwrap();
    assert!(s.is_uniform());
    assert!(LayerShapes::default().is_uniform());
}

#[test]
fn a_varying_array_is_refused_unless_llama_cpp_indexes_it_per_layer() {
    let err = LayerShapes::resolve("llama", &[4, 4], &[2, 1], None, 16).unwrap_err();
    assert!(
        err.message().contains("PER_LAYER_SHAPE_ARCHS"),
        "{}",
        err.message()
    );
    assert!(err
        .message()
        .contains("(heads [4, 4], kv [2, 1], ff None)"));
    let s = LayerShapes::resolve(
        "deci",
        &[4, 4, 0, 0],
        &[2, 0, 0, 0],
        Some(&[16, 8, 16, 0]),
        16,
    )
    .unwrap();
    assert_eq!(s, LayerShapes::PerLayer(deci_like()));
}

#[test]
fn lists_that_vary_over_one_shape_collapse_to_uniform() {
    // No K/V heads: whatever the head counts, every layer is linear.
    let s = LayerShapes::resolve("deci", &[4, 8], &[0, 0], Some(&[16, 16]), 16).unwrap();
    assert_eq!(s, LayerShapes::Uniform);
    let s = LayerShapes::resolve("deci", &[4, 8], &[0, 0], Some(&[16, 8]), 16).unwrap();
    assert!(matches!(s, LayerShapes::PerLayer(v) if v[0] != v[1]));
    // The lists are what an architecture outside the table is refused for.
    assert!(LayerShapes::resolve("llama", &[4, 8], &[0, 0], Some(&[16, 16]), 16).is_err());
}

#[test]
fn the_widths_are_read_as_far_as_the_layers_are() {
    let s = LayerShapes::resolve("deci", &[4, 4], &[2, 2], Some(&[16]), 16).unwrap();
    assert!(s.is_uniform());
    assert!(LayerShapes::resolve("llama", &[4, 8], &[2, 2], Some(&[16]), 16).is_err());
    let err = LayerShapes::resolve("deci", &[4, 0, 4], &[2, 1, 2], Some(&[16]), 16).unwrap_err();
    assert!(err.message().contains("blk.1: head_count 0"), "{}", err.message());
}

#[test]
fn a_float_in_a_list_of_counts_is_quoted() {
    let items = vec![
        GgufValue::U32(4),
        GgufValue::F32 { bits: 1.5f32.to_bits(), text: format!("{:?}", 1.5f32) },
    ];
    let f = GgufFile {
        metadata: vec![("k".to_string(), GgufValue::Array(items))],
        tensors: vec![],
    };
    let err = read_u64_per_layer(&f, "k", 2).unwrap_err().message();
    assert!(err.contains("entry 1 is not an unsigned integer: F32(1.5)"), "{err}");
}

#[test]
fn an_ffn_free_layer_with_attention_is_refused_and_one_without_is_not() {
    let err = LayerShapes::resolve("deci", &[4, 4], &[2, 2], Some(&[16, 0]), 16).unwrap_err();
    let msg = err.message();
    assert!(msg.contains("deci.cpp:147-149"), "{msg}");
    assert!(msg.contains("blk.1"), "{msg}");
    assert!(LayerShapes::resolve("deci", &[4, 0], &[2, 0], Some(&[16, 0]), 16).is_ok());
    let counts = LayerShapes::resolve("deci", &[4, 0], &[2, 1], None, 16).unwrap_err();
    assert!(
        counts.message().contains("blk.1: head_count 0 with head_count_kv 1"),
        "{}",
        counts.message()
    );
}

#[test]
fn the_reach_table_cites_its_lines_and_names_what_each_row_still_needs() {
    for (arch, note) in PER_LAYER_SHAPE_ARCHS {
        assert!(note.contains(".cpp:"), "`{arch}` cites no line: {note}");
    }
    let generic: Vec<&str> = PER_LAYER_SHAPE_ARCHS
        .iter()
        .filter(|(_, n)| n.starts_with("generic"))
        .map(|(a, _)| *a)
        .collect();
    assert_eq!(generic, ["deci", "openelm", "plamo3", "laguna", "step35"]);
    assert!(per_layer_shapes_read_by_llama_cpp("deci"));
    assert!(!per_layer_shapes_read_by_llama_cpp("granite"));
}

#[test]
fn caches_are_sized_per_layer_and_the_scalar_is_never_consulted() {
    let mut cfg = config(LayerShapes::PerLayer(deci_like()));
    let caches = cfg.new_kv_caches();
    assert_eq!(
        caches.iter().map(|c| c.n_kv_heads).collect::<Vec<_>>(),
        vec![2, 0, 0, 0]
    );
    assert_eq!(cfg.kv_heads_all_layers(), 2);
    assert_eq!(cfg.layer_shape(1).attention, AttnShape::Linear);
    assert_eq!(cfg.layer_shape(3).ffn_dim, 0);
    cfg.layer_shapes = LayerShapes::Uniform;
    assert!(cfg
        .new_kv_caches()
        .iter()
        .all(|c| c.n_kv_heads == 2 && c.head_dim == 8));
    assert_eq!(cfg.kv_heads_all_layers(), 8);
    let widest = config(LayerShapes::PerLayer(deci_like()));
    assert!(widest.kv_heads_all_layers() <= widest.n_layers * widest.n_kv_heads);
    let row = KvGeometry {
        n_kv_heads: 2,
        head_dim: 8,
        v_head_dim: 8,
    };
    assert_eq!(cfg.new_kv_caches_with_capacity(32)[3], (row, 32));
    let stores = cfg.new_paged_kv(16, 5);
    assert_eq!(stores.len(), 4);
    assert_eq!(
        (stores[1].block_size, stores[1].blocks, stores[1].row),
        (16, 5, row)
    );
}

#[test]
fn passes_repeat_the_shapes_of_the_layers() {
    let twice = LayerShapes::PerLayer(deci_like()).replicated(2);
    let mut want = deci_like();
    want.extend(deci_like());
    assert_eq!(twice, LayerShapes::PerLayer(want));
    assert_eq!(
        LayerShapes::PerLayer(deci_like()).replicated(1),
        LayerShapes::PerLayer(deci_like())
    );
    assert!(LayerShapes::Uniform.replicated(3).is_uniform());
}

fn matrix(rows: usize, cols: usize) -> WeightMatrix {
    WeightMatrix::F32 {
        data: vec![0; rows * cols],
        rows,
        cols,
    }
}

#[test]
fn a_projection_sized_for_another_layer_s_counts_is_refused_naming_the_tensor() {
    let shape = AttnShape::Gqa {
        n_heads: 4,
        n_kv_heads: 2,
    };
    let (head_dim, hidden) = (6, 24);
    let build = |q_rows: usize, k_rows: usize| AttnWeights {
        q_proj: matrix(q_rows, hidden),
        k_proj: matrix(k_rows, hidden),
        v_proj: matrix(k_rows, hidden),
        o_proj: matrix(hidden, q_rows),
        norm_weight: NormOp::Identity,
        q_norm: None,
        k_norm: None,
        q_bias: None,
        k_bias: None,
        v_bias: None,
        post_attn_norm: None,
        post_ffn_norm: None,
        output_gate: None,
        sinks: None,
        attn_sub_norm: None,
    };
    assert!(
        check_gqa_projection_widths(0, shape, head_dim, head_dim, hidden, &build(24, 12)).is_ok()
    );
    // K sized for 3 KV heads on a 2-KV-head layer.
    let err = check_gqa_projection_widths(1, shape, head_dim, head_dim, hidden, &build(24, 18))
        .unwrap_err();
    let msg = err.message();
    assert!(msg.contains("blk.1.attn_k.weight"), "{msg}");
    assert!(msg.contains("head_count_kv 2"), "{msg}");
    // Q sized for 3 heads on a 4-head layer.
    let err = check_gqa_projection_widths(2, shape, head_dim, head_dim, hidden, &build(18, 12))
        .unwrap_err();
    assert!(
        err.message().contains("blk.2.attn_q.weight"),
        "{}",
        err.message()
    );
    assert!(err.message().contains("(expected 24)"), "{}", err.message());
}

#[test]
fn a_number_stands_for_all_layers_and_a_list_for_each() {
    let file = GgufFile {
        metadata: vec![
            ("one".to_string(), GgufValue::U32(7)),
            (
                "list".to_string(),
                GgufValue::Array(vec![
                    GgufValue::U32(1),
                    GgufValue::U32(2),
                    GgufValue::U32(3),
                ]),
            ),
            (
                "bad".to_string(),
                GgufValue::Array(vec![GgufValue::U32(1), GgufValue::Bool(true)]),
            ),
            ("word".to_string(), GgufValue::String("x".to_string())),
        ],
        tensors: vec![],
    };
    assert_eq!(
        read_u64_per_layer(&file, "one", 3).unwrap(),
        Some(vec![7, 7, 7])
    );
    assert_eq!(
        read_u64_per_layer(&file, "list", 3).unwrap(),
        Some(vec![1, 2, 3])
    );
    assert_eq!(read_u64_per_layer(&file, "absent", 3).unwrap(), None);
    assert!(read_u64_per_layer(&file, "list", 4)
        .unwrap_err()
        .message()
        .contains("array of 3 entries for 4 layers"));
    assert!(read_u64_per_layer(&file, "bad", 2)
        .unwrap_err()
        .message()
        .contains("entry 1 is not an unsigned integer"));
    assert_eq!(
        read_u64_per_layer(&file, "word", 2).unwrap_err().message(),
        "missing hparam word"
    );
    let trunk = TrunkLayers {
        block_count: 3,
        n_layers: 2,
        n_mtp_blocks: 1,
    };
    assert_eq!(
        read_u64_trunk_layers(&file, "list", &trunk).unwrap(),
        Some(vec![1, 2])
    );
}

#[test]
fn a_layer_without_grouped_attention_loads_what_it_has() {
    let sites = NormSites::for_arch("deci");
    let file = |o_shape: Vec<u64>| GgufFile {
        metadata: vec![],
        tensors: vec![
            tensor("blk.1.attn_norm.weight", vec![2], bits(&[1.0, 2.0])),
            tensor("blk.1.attn_output.weight", o_shape, vec![0; 4]),
            tensor("blk.1.post_ffw_norm.weight", vec![2], bits(&[3.0, 4.0])),
        ],
    };
    let w =
        load_non_gqa_attention(AttnShape::Linear, &file(vec![2, 2]), 1, &sites, 2).unwrap();
    assert_eq!((w.o_proj.rows(), w.o_proj.cols()), (2, 2));
    assert_eq!(w.norm_weight.rms_weights(), Some(&bits(&[1.0, 2.0])[..]));
    assert_eq!(w.post_ffn_norm, Some(bits(&[3.0, 4.0])));
    assert_eq!((w.q_proj.rows(), w.q_proj.cols()), (0, 2));
    let w =
        load_non_gqa_attention(AttnShape::Absent, &file(vec![2, 2]), 1, &sites, 2).unwrap();
    assert_eq!((w.o_proj.rows(), w.o_proj.cols()), (0, 0));
    assert!(w.norm_weight.rms_weights().is_none());
    let err =
        load_non_gqa_attention(AttnShape::Linear, &file(vec![1, 4]), 1, &sites, 2).unwrap_err();
    assert!(
        err.message().contains("this one is 4x1 for hidden_dim 2"),
        "{}",
        err.message()
    );
    let err =
        load_non_gqa_attention(AttnShape::Linear, &file(vec![2, 2]), 0, &sites, 2).unwrap_err();
    assert_eq!(
        err.message(),
        "tensor not found: blk.0.attn_norm.weight | blk.0.attn_norm"
    );
    let none = absent_ffn(6);
    assert_eq!((none.gate.rows(), none.gate.cols()), (0, 6));
    assert_eq!((none.down.rows(), none.down.cols()), (0, 0));
}

#[test]
fn the_norm_function_is_read_off_the_capability_lists() {
    assert_eq!(norm_function("olmo"), NormFunction::LayerNormNoParams);
    assert_eq!(norm_function("dbrx"), NormFunction::LayerNorm);
    for arch in ["llama", "qwen3", "olmo2", "gemma3", "grok"] {
        assert_eq!(norm_function(arch), NormFunction::Rms, "{arch}");
    }
    assert_eq!(norm_function("orion"), NormFunction::LayerNormBias);
    assert_eq!(norm_function("nemotron"), NormFunction::LayerNormBias);
    assert_eq!(norm_function("talkie"), NormFunction::RmsNoParams);
    let weight = bits(&[1.0, 2.0]);
    let bias = bits(&[0.5, -0.5]);
    assert!(matches!(
        NormFunction::LayerNorm.resolve(Some(weight.clone()), None),
        NormOp::LayerNorm(w) if w == weight
    ));
    assert!(matches!(
        NormFunction::Rms.resolve(Some(weight.clone()), None),
        NormOp::Rms(w) if w == weight
    ));
    assert!(matches!(
        NormFunction::LayerNormBias.resolve(Some(weight.clone()), Some(bias.clone())),
        NormOp::LayerNormBias { weight: w, bias: b } if w == weight && b == bias
    ));
}

#[test]
fn the_parameterless_function_never_reads_a_weight() {
    assert!(!NormFunction::LayerNormNoParams.has_weight());
    assert!(!NormFunction::LayerNormNoParams.has_bias());
    assert!(matches!(
        NormFunction::LayerNormNoParams.resolve(None, None),
        NormOp::LayerNormNoParams
    ));
    // A file without a norm tensor loads.
    let sites = NormSites::for_arch("olmo");
    let empty = GgufFile {
        metadata: vec![],
        tensors: vec![],
    };
    assert!(matches!(
        sites.load_pre_norm(sites.attn, &empty, Some(0)).unwrap(),
        NormOp::LayerNormNoParams
    ));
}

#[test]
fn only_the_rms_variant_offers_weights_to_a_fused_kernel() {
    assert_eq!(
        NormOp::Rms(bits(&[2.0, 3.0])).rms_weights(),
        Some(&bits(&[2.0, 3.0])[..])
    );
    assert_eq!(NormOp::Identity.rms_weights(), None);
    assert_eq!(NormOp::LayerNormNoParams.rms_weights(), None);
    assert_eq!(NormOp::LayerNorm(bits(&[2.0, 3.0])).rms_weights(), None);
}

#[test]
fn the_default_row_is_the_plain_pre_norm_layer() {
    let s = NormSites::for_arch("llama");
    assert_eq!(s.function, NormFunction::Rms);
    assert_eq!(s.attn, Some(StoredNorm::required(&["attn_norm"])));
    assert_eq!(s.ffn, Some(StoredNorm::required(&["ffn_norm"])));
    assert_eq!(
        s.post_attn,
        Some(StoredNorm::optional(&["post_attention_norm"]))
    );
    assert_eq!(s.post_ffn, Some(StoredNorm::optional(&["post_ffw_norm"])));
    assert_eq!(s.output, StoredNorm::required(&["output_norm"]));
}

#[test]
fn attn_output_norm_is_dbrxs_pre_ffn_norm_and_groks_post_attention_norm() {
    let dbrx = NormSites::for_arch("dbrx");
    assert_eq!(dbrx.function, NormFunction::LayerNorm);
    assert_eq!(
        dbrx.ffn,
        Some(StoredNorm::required(&["attn_output_norm"])),
        "dbrx.cpp:110-113 norms ffn_inp with attn_out_norm"
    );
    assert_eq!(
        dbrx.post_attn,
        Some(StoredNorm::optional(&["post_attention_norm"])),
        "no post-attention norm of its own"
    );

    let grok = NormSites::for_arch("grok");
    assert_eq!(grok.function, NormFunction::Rms);
    assert_eq!(grok.ffn, Some(StoredNorm::required(&["ffn_norm"])));
    assert_eq!(
        grok.post_attn,
        Some(StoredNorm::required(&["attn_output_norm"])),
        "grok.cpp:143-146 norms the attention output before the residual add"
    );
    assert_eq!(
        grok.post_ffn,
        Some(StoredNorm::required(&[
            "layer_output_norm",
            "post_ffw_norm"
        ])),
        "grok.cpp:75-78: LAYER_OUT_NORM first, FFN_POST_NORM as the fallback"
    );
}

#[test]
fn the_two_no_tensor_shapes_are_kept_apart() {
    let olmo2 = NormSites::for_arch("olmo2");
    assert_eq!(olmo2.attn, None);
    assert_eq!(olmo2.ffn, None);
    assert_eq!(olmo2.function, NormFunction::Rms);

    let olmo = NormSites::for_arch("olmo");
    assert_eq!(olmo.function, NormFunction::LayerNormNoParams);
    assert!(
        olmo.attn.is_some(),
        "the site exists; the function skips the read"
    );
}

#[test]
fn the_gpt_oss_slot_reads_the_tensor_once() {
    let s = NormSites::for_arch("gpt-oss");
    assert_eq!(s.ffn, Some(StoredNorm::required(&["post_attention_norm"])));
    assert_eq!(s.post_attn, None);
}

#[test]
fn candidates_try_the_suffixed_spelling_first_for_each_name() {
    let s = StoredNorm::required(&["layer_output_norm", "post_ffw_norm"]);
    assert_eq!(
        s.candidates(Some(3)),
        vec![
            "blk.3.layer_output_norm.weight",
            "blk.3.layer_output_norm",
            "blk.3.post_ffw_norm.weight",
            "blk.3.post_ffw_norm",
        ]
    );
    assert_eq!(
        StoredNorm::required(&["output_norm"]).candidates(None),
        vec!["output_norm.weight", "output_norm"]
    );
    assert_eq!(
        s.candidates_for(Some(0), NormParam::Bias),
        vec!["blk.0.layer_output_norm.bias", "blk.0.post_ffw_norm.bias"]
    );
    assert_eq!(NormParam::Bias.suffix(), "bias");
    assert_eq!(NormParam::Weight.suffix(), "weight");
}

#[test]
fn a_stored_norm_takes_the_first_name_there_is() {
    let file = GgufFile {
        metadata: vec![],
        tensors: vec![
            tensor("blk.0.post_ffw_norm", vec![1], vec![5]),
            tensor("blk.0.layer_output_norm", vec![1], vec![6]),
        ],
    };
    let site = StoredNorm::required(&["layer_output_norm", "post_ffw_norm"]);
    assert_eq!(site.load(&file, Some(0)).unwrap(), Some(vec![6]));
    assert_eq!(
        StoredNorm::optional(&["gone"]).load(&file, Some(0)).unwrap(),
        None
    );
    assert_eq!(
        site.load(&file, Some(1)).unwrap_err().message(),
        "tensor not found: blk.1.layer_output_norm.weight | blk.1.layer_output_norm | \
         blk.1.post_ffw_norm.weight | blk.1.post_ffw_norm"
    );
    // A biased norm asks for both parameters.
    let orion = NormSites::for_arch("orion");
    let file = GgufFile {
        metadata: vec![],
        tensors: vec![
            tensor("output_norm.weight", vec![1], vec![7]),
            tensor("output_norm.bias", vec![1], vec![8]),
            tensor("blk.0.attn_norm.weight", vec![1], vec![9]),
        ],
    };
    assert!(matches!(
        orion.load_pre_norm(Some(orion.output), &file, None).unwrap(),
        NormOp::LayerNormBias { weight, bias } if weight == [7] && bias == [8]
    ));
    assert_eq!(
        orion
            .load_pre_norm(orion.attn, &file, Some(0))
            .unwrap_err()
            .message(),
        "tensor not found: blk.0.attn_norm.bias"
    );
}

fn sum(s: &HrmStreams) -> Vec<f32> {
    let (high, low) = s.stack_input();
    high.iter()
        .zip(low)
        .map(|(h, l)| f32::from_bits(*h) + f32::from_bits(*l))
        .collect()
}

#[test]
fn the_streams_broadcast_add_and_replace_one_at_a_time() {
    let embedded = bits(&[1.0, 2.0, 3.0, 4.0, 5.0, 6.0]);
    let z_l_init = bits(&[0.5, 0.5, 0.5]);
    let mut s = HrmStreams::new(&embedded, &z_l_init);
    assert_eq!(sum(&s), vec![1.5, 2.5, 3.5, 4.5, 5.5, 6.5]);

    s.store(HrmStream::Low, &bits(&[0.0, 0.0, 0.0, 1.0, 1.0, 1.0]));
    assert_eq!(sum(&s), vec![1.0, 2.0, 3.0, 5.0, 6.0, 7.0]);

    s.store(HrmStream::High, &bits(&[9.0, 9.0, 9.0, 9.0, 9.0, 9.0]));
    assert_eq!(sum(&s), vec![9.0, 9.0, 9.0, 10.0, 10.0, 10.0]);
    assert_eq!(
        s.into_output(),
        bits(&[9.0, 9.0, 9.0, 9.0, 9.0, 9.0])
    );
}

#[test]
fn only_an_hrm_schedule_asks_for_the_streams() {
    assert!(hrm_schedule(None).is_none());
    assert!(hrm_schedule(Some(LayerSchedule::Repeat {
        n_phys: 2,
        n_loops: 2,
        skip_loop_final_norm: false,
    }))
    .is_none());
    assert!(hrm_schedule(Some(LayerSchedule::Hrm {
        lps: 2,
        h_cycles: 1,
        l_cycles: 1,
    }))
    .is_some());
}

#[test]
fn a_cycle_ends_with_the_high_stack() {
    let streams: Vec<HrmStream> = (0..6).map(|s| stack_stream(s, 2)).collect();
    assert_eq!(
        streams,
        [
            HrmStream::Low,
            HrmStream::Low,
            HrmStream::High,
            HrmStream::Low,
            HrmStream::Low,
            HrmStream::High
        ]
    );
}
