//! Reading adapters, attaching them and setting their scales.

use ferrox_models::decoder::{Decoder, DecoderLayer, ExpertBacking, Slot};
use ferrox_models::gguf::{GgmlType, GgufFile, GgufValue, TensorInfo};
use ferrox_models::load_error::LoadError;
use ferrox_models::lora::{LoraAdapter, LoraError, LoraPair, LoraTensor, NamedPair};
use ferrox_models::lora_attach::{
    checked_pair, flag_items, target_of, LayerTarget, LoraSpec, Target,
};
use ferrox_models::weights::{ExpertWeights, WeightMatrix};

fn text(s: &str) -> GgufValue {
    GgufValue::String(s.to_string())
}

/// An adapter file: `kv` as metadata, each tensor of the given
/// dimensions filled with 0.5.
fn adapter_file(kv: Vec<(&str, GgufValue)>, tensors: &[(&str, Vec<u64>)]) -> GgufFile {
    GgufFile {
        metadata: kv.into_iter().map(|(k, v)| (k.to_string(), v)).collect(),
        tensors: tensors
            .iter()
            .map(|(name, ne)| TensorInfo {
                name: name.to_string(),
                shape: ne.clone(),
                dtype: GgmlType::F32,
                values: vec![0.5f32.to_bits(); ne.iter().product::<u64>() as usize],
            })
            .collect(),
    }
}

fn base_kv() -> Vec<(&'static str, GgufValue)> {
    vec![
        ("general.type", text("adapter")),
        ("adapter.type", text("lora")),
        ("general.architecture", text("llama")),
        ("adapter.lora.alpha", GgufValue::F32 { bits: 8.0f32.to_bits(), text: "8.0".to_string() }),
    ]
}

fn open(file: &GgufFile) -> Result<LoraAdapter, LoraError> {
    assert!(file.is_complete());
    LoraAdapter::from_file("a.gguf", file)
}

#[test]
fn a_plain_model_file_is_not_an_adapter() {
    let err = open(&adapter_file(
        vec![
            ("general.type", text("model")),
            ("general.architecture", text("llama")),
        ],
        &[],
    ))
    .unwrap_err();
    assert!(
        matches!(err, LoraError::NotAnAdapter { .. }),
        "{}",
        err.message()
    );
    assert!(err.message().contains("general.type"), "{}", err.message());
}

#[test]
fn a_control_vector_adapter_is_refused_by_type() {
    let mut kv = base_kv();
    kv[1] = ("adapter.type", text("control_vector"));
    let err = open(&adapter_file(kv, &[])).unwrap_err();
    assert!(matches!(err, LoraError::NotLora { .. }), "{}", err.message());
    assert_eq!(
        err.message(),
        "a.gguf: expect adapter.type to be 'lora', but got: \"control_vector\""
    );
}

#[test]
fn a_tensor_with_another_suffix_is_refused_and_a_norm_is_skipped() {
    let err = open(&adapter_file(
        base_kv(),
        &[("blk.0.attn_q.weight.lora_c", vec![4, 4])],
    ))
    .unwrap_err();
    assert!(
        matches!(err, LoraError::UnexpectedSuffix { .. }),
        "{}",
        err.message()
    );

    let a = open(&adapter_file(
        base_kv(),
        &[
            ("blk.0.attn_norm.weight", vec![24]),
            ("blk.0.attn_q.weight.lora_a", vec![24, 4]),
            ("blk.0.attn_q.weight.lora_b", vec![4, 24]),
        ],
    ))
    .unwrap();
    assert_eq!(a.skipped_norms, vec!["blk.0.attn_norm.weight".to_string()]);
    assert_eq!(a.pairs.len(), 1);
    assert_eq!(a.pairs[0].name, "blk.0.attn_q.weight");
    assert_eq!(a.pairs[0].pair.a.shape, [4, 24]);
    assert_eq!(a.pairs[0].pair.b.shape, [24, 4]);
    assert_eq!((a.pairs[0].pair.a.rows(), a.pairs[0].pair.a.cols()), (4, 24));
    assert!(a.is_complete());
}

#[test]
fn a_pair_missing_one_half_is_refused() {
    let err = open(&adapter_file(
        base_kv(),
        &[("blk.0.attn_q.weight.lora_a", vec![24, 4])],
    ))
    .unwrap_err();
    assert!(
        matches!(err, LoraError::MissingComponent { .. }),
        "{}",
        err.message()
    );
    assert!(
        err.message().contains("blk.0.attn_q.weight"),
        "{}",
        err.message()
    );
}

#[test]
fn an_activated_lora_is_refused_by_name() {
    let mut kv = base_kv();
    kv.push((
        "adapter.alora.invocation_tokens",
        GgufValue::Array(vec![GgufValue::U32(5), GgufValue::U32(9)]),
    ));
    let err = open(&adapter_file(kv, &[])).unwrap_err();
    assert!(
        matches!(err, LoraError::Alora { n: 2, .. }),
        "{}",
        err.message()
    );
    assert!(err.message().contains("invocation"), "{}", err.message());
}

#[test]
fn a_missing_alpha_reads_as_zero() {
    let kv: Vec<_> = base_kv().into_iter().take(3).collect();
    let a = open(&adapter_file(kv, &[])).unwrap();
    assert_eq!(f32::from_bits(a.alpha), 0.0);
    assert_eq!(open(&adapter_file(base_kv(), &[])).unwrap().alpha, 8.0f32.to_bits());
}

#[test]
fn pairs_come_in_the_order_of_their_names() {
    let a = open(&adapter_file(
        base_kv(),
        &[
            ("output.weight.lora_b", vec![1, 2]),
            ("blk.10.attn_k.weight.lora_a", vec![2, 1]),
            ("blk.2.attn_k.weight.lora_b", vec![1, 2]),
            ("output.weight.lora_a", vec![2, 1]),
            ("blk.2.attn_k.weight.lora_a", vec![2, 1]),
            ("blk.10.attn_k.weight.lora_b", vec![1, 2]),
        ],
    ))
    .unwrap();
    let names: Vec<&str> = a.pairs.iter().map(|p| p.name.as_str()).collect();
    assert_eq!(
        names,
        ["blk.10.attn_k.weight", "blk.2.attn_k.weight", "output.weight"]
    );
}

#[test]
fn the_other_refusals_of_a_file() {
    let err = open(&adapter_file(
        base_kv(),
        &[("blk.0.attn_q.weight.lora_a", vec![24, 4, 2])],
    ))
    .unwrap_err();
    assert_eq!(
        err.message(),
        "a.gguf: LoRA tensor 'blk.0.attn_q.weight.lora_a' is not 2-D (shape [24, 4, 2])"
    );
    assert!(matches!(err, LoraError::NotTwoD { .. }));
    let mut file = adapter_file(base_kv(), &[("blk.0.attn_q.weight.lora_a", vec![2, 2])]);
    file.tensors[0].dtype = GgmlType::Other(77);
    assert!(matches!(
        open(&file).unwrap_err(),
        LoraError::Load(LoadError::UnsupportedDtype(..))
    ));
}

fn matrix(rows: usize, cols: usize) -> WeightMatrix {
    WeightMatrix::F32 {
        data: vec![0; rows * cols],
        rows,
        cols,
    }
}

fn expert() -> ExpertWeights {
    ExpertWeights {
        gate: matrix(5, 2),
        up: matrix(5, 2),
        down: matrix(2, 5),
    }
}

fn decoder() -> Decoder {
    Decoder {
        embedding: matrix(6, 2),
        output_head: matrix(6, 2),
        vocab_size: 6,
        ungated: false,
        layers: vec![
            DecoderLayer {
                q_proj: matrix(4, 2),
                k_proj: matrix(2, 2),
                v_proj: matrix(3, 2),
                o_proj: matrix(2, 4),
                output_gate: None,
                experts: ExpertBacking::Resident(vec![expert()]),
                shared_experts: vec![expert()],
                router: matrix(1, 2),
            },
            DecoderLayer {
                q_proj: matrix(4, 2),
                k_proj: matrix(2, 2),
                v_proj: matrix(3, 2),
                o_proj: matrix(2, 4),
                output_gate: Some(matrix(4, 2)),
                experts: ExpertBacking::Stored,
                shared_experts: vec![],
                router: matrix(1, 2),
            },
        ],
        lora_adapters: vec![],
        lora_deltas: vec![],
    }
}

fn base(tensors: &[(&str, Vec<u64>)]) -> GgufFile {
    adapter_file(vec![("general.architecture", text("llama"))], tensors)
}

fn pair(name: &str, a: [usize; 2], b: [usize; 2]) -> NamedPair {
    let filled = |shape: [usize; 2], from: u32| LoraTensor {
        shape,
        data: (0..(shape[0] * shape[1]) as u32).map(|i| from + i).collect(),
    };
    NamedPair {
        name: name.to_string(),
        pair: LoraPair {
            a: filled(a, 100),
            b: filled(b, 200),
        },
    }
}

fn adapter(pairs: Vec<NamedPair>) -> LoraAdapter {
    LoraAdapter {
        path: "a.gguf".to_string(),
        arch: "llama".to_string(),
        alpha: 8.0f32.to_bits(),
        task_name: "t".to_string(),
        prompt_prefix: "p".to_string(),
        pairs,
        skipped_norms: vec![],
    }
}

#[test]
fn a_fused_tensor_is_cut_over_its_matrices() {
    let mut d = decoder();
    let file = base(&[("blk.0.attn_qkv.weight", vec![2, 9])]);
    assert!(!d.lora_attached());
    let id = d
        .attach_lora(
            &file,
            adapter(vec![pair("blk.0.attn_qkv.weight", [1, 2], [9, 1])]),
            0.5f32.to_bits(),
        )
        .unwrap();
    assert_eq!(id, 0);
    assert!(d.lora_attached());
    let got: Vec<(Slot, usize, Vec<u32>)> = d
        .lora_deltas
        .iter()
        .map(|x| (x.slot, x.delta.rows, x.delta.b.clone()))
        .collect();
    assert_eq!(
        got,
        vec![
            (Slot::Q(0), 4, vec![200, 201, 202, 203]),
            (Slot::K(0), 2, vec![204, 205]),
            (Slot::V(0), 3, vec![206, 207, 208]),
        ]
    );
    // The blocks one after the other are the file's rows again.
    let back: Vec<u32> = d.lora_deltas.iter().flat_map(|x| x.delta.b.clone()).collect();
    assert_eq!(back, (200..209).collect::<Vec<u32>>());
    assert!(d.lora_deltas.iter().all(|x| x.delta.a == [100, 101]
        && x.delta.rank == 1
        && x.delta.cols == 2
        && x.delta.alpha == 8.0f32.to_bits()
        && x.delta.adapter == 0));
    assert_eq!(d.lora_adapters[0].n_tensors, 1);
    assert_eq!(d.lora_scales(), vec![0.5f32.to_bits()]);
    assert_eq!(d.lora_adapters[0].scale(), 0.5f32.to_bits());
}

#[test]
fn the_up_projection_is_itself_the_fused_pair_or_the_alias() {
    let slots = |d: &Decoder| d.lora_deltas.iter().map(|x| x.slot).collect::<Vec<_>>();
    let name = "blk.0.ffn_up.weight";
    let mut d = decoder();
    d.attach_lora(
        &base(&[(name, vec![2, 5])]),
        adapter(vec![pair(name, [1, 2], [5, 1])]),
        0,
    )
    .unwrap();
    assert_eq!(slots(&d), [Slot::Up(0)]);
    let mut d = decoder();
    d.attach_lora(
        &base(&[(name, vec![2, 10])]),
        adapter(vec![pair(name, [1, 2], [10, 1])]),
        0,
    )
    .unwrap();
    assert_eq!(slots(&d), [Slot::Gate(0), Slot::Up(0)]);
    assert_eq!(d.lora_deltas[1].delta.b, [205, 206, 207, 208, 209]);
    let mut d = decoder();
    d.ungated = true;
    d.attach_lora(
        &base(&[(name, vec![2, 5])]),
        adapter(vec![pair(name, [1, 2], [5, 1])]),
        0,
    )
    .unwrap();
    assert_eq!(slots(&d), [Slot::Up(0), Slot::Gate(0)]);
    assert_eq!(d.lora_deltas[0].delta.b, d.lora_deltas[1].delta.b);
}

#[test]
fn the_embedding_s_halves_change_places() {
    let mut d = decoder();
    let file = base(&[
        ("token_embd.weight", vec![2, 6]),
        ("output.weight", vec![2, 6]),
    ]);
    d.attach_lora(
        &file,
        adapter(vec![pair("token_embd.weight", [6, 3], [2, 3])]),
        0,
    )
    .unwrap();
    let delta = &d.lora_deltas[0].delta;
    assert_eq!(d.lora_deltas[0].slot, Slot::Embedding);
    assert_eq!((delta.rank, delta.rows, delta.cols), (3, 6, 2));
    // The second half, transposed.
    assert_eq!(delta.a, [200, 203, 201, 204, 202, 205]);
    assert_eq!(delta.b, (100..118).collect::<Vec<u32>>());
}

#[test]
fn every_refusal_of_an_attach_leaves_the_decoder_alone() {
    let refused = |file: &GgufFile, pairs: Vec<NamedPair>| {
        let mut d = decoder();
        let err = d.attach_lora(file, adapter(pairs), 0).unwrap_err();
        assert!(!d.lora_attached() && d.lora_deltas.is_empty());
        err
    };
    let mut d = decoder();
    let mut other = adapter(vec![]);
    other.arch = "qwen3".to_string();
    assert_eq!(
        d.attach_lora(&base(&[]), other, 0).unwrap_err().message(),
        "a.gguf: model arch and LoRA arch mismatch (adapter declares \"qwen3\", base is \"llama\")"
    );
    let q = || pair("blk.0.attn_q.weight", [1, 2], [4, 1]);
    assert!(matches!(
        refused(&base(&[]), vec![q()]),
        LoraError::NotInBase { .. }
    ));
    let q_base = base(&[("blk.0.attn_q.weight", vec![2, 4])]);
    assert!(matches!(
        refused(&q_base, vec![pair("blk.0.attn_q.weight", [1, 3], [4, 1])]),
        LoraError::Shape { rows: 4, cols: 2, .. }
    ));
    assert!(matches!(
        refused(&q_base, vec![pair("blk.0.attn_q.weight", [2, 2], [4, 1])]),
        LoraError::NotTransposed { .. }
    ));
    // The file's rows are not those of the matrix.
    assert!(matches!(
        refused(
            &base(&[("blk.0.attn_q.weight", vec![2, 7])]),
            vec![pair("blk.0.attn_q.weight", [1, 2], [7, 1])]
        ),
        LoraError::Shape { .. }
    ));
    assert!(matches!(
        refused(
            &base(&[("blk.0.ffn_up_exps.weight", vec![2, 5, 3])]),
            vec![pair("blk.0.ffn_up_exps.weight", [1, 2], [5, 1])]
        ),
        LoraError::RoutedExperts { .. }
    ));
    for name in [
        "blk.0.attn_norm.weight",
        "blk.x.attn_q.weight",
        "rope_freqs.weight",
        "blk.0.attn_q.bias",
        "blk.0.attn_gate.weight",
        "blk.9.attn_q.weight",
        "blk.1.ffn_up_shexp.weight",
    ] {
        assert!(
            matches!(
                refused(
                    &base(&[(name, vec![2, 4])]),
                    vec![pair(name, [1, 2], [4, 1])]
                ),
                LoraError::NoProjection { .. }
            ),
            "{name}"
        );
    }
    assert!(matches!(
        refused(
            &base(&[("blk.0.attn_q.weight", vec![2, 4, 1])]),
            vec![q()]
        ),
        LoraError::NoProjection { .. }
    ));
    assert!(matches!(
        refused(
            &base(&[("token_embd.weight", vec![2, 6])]),
            vec![pair("token_embd.weight", [6, 1], [2, 1])]
        ),
        LoraError::TiedHead { .. }
    ));
    assert!(matches!(
        refused(
            &base(&[("blk.1.ffn_down.weight", vec![5, 2])]),
            vec![pair("blk.1.ffn_down.weight", [1, 5], [2, 1])]
        ),
        LoraError::StoredExperts { .. }
    ));
    // A good pair before a bad one is not kept either.
    assert!(matches!(
        refused(
            &base(&[
                ("blk.0.attn_q.weight", vec![2, 4]),
                ("blk.1.ffn_down.weight", vec![5, 2])
            ]),
            vec![q(), pair("blk.1.ffn_down.weight", [1, 5], [2, 1])]
        ),
        LoraError::StoredExperts { .. }
    ));
}

#[test]
fn names_are_resolved_to_their_matrices() {
    let kind = |t: &str| target_of(&format!("blk.7.{t}.weight"), "p");
    for (name, want) in [
        ("attn_q", LayerTarget::Q),
        ("attn_k", LayerTarget::K),
        ("attn_v", LayerTarget::V),
        ("attn_qkv", LayerTarget::Qkv),
        ("attn_output", LayerTarget::O),
        ("attn_gate", LayerTarget::AttnGate),
        ("ffn_gate", LayerTarget::FfnGate),
        ("ffn_up", LayerTarget::FfnUp),
        ("ffn_down", LayerTarget::FfnDown),
        ("ffn_gate_shexp", LayerTarget::ShexpGate),
        ("ffn_up_shexp", LayerTarget::ShexpUp),
        ("ffn_down_shexp", LayerTarget::ShexpDown),
        ("ffn_gate_inp", LayerTarget::Router),
    ] {
        assert_eq!(kind(name).unwrap(), Target::Layer(7, want), "{name}");
    }
    assert_eq!(target_of("token_embd.weight", "p").unwrap(), Target::Embedding);
    assert_eq!(target_of("output.weight", "p").unwrap(), Target::Output);
    let p = pair("x", [2, 3], [4, 2]).pair;
    let ok = checked_pair("p", "x", &p, Target::Output, 4, 3).unwrap();
    assert_eq!((ok.a, ok.b, ok.rank), (p.a.data.clone(), p.b.data.clone(), 2));
}

#[test]
fn scales_are_set_by_id_and_the_last_one_counts() {
    let bits = |x: f32| x.to_bits();
    let mut d = decoder();
    for _ in 0..3 {
        d.attach_lora(&base(&[]), adapter(vec![]), bits(1.0)).unwrap();
    }
    assert_eq!(d.set_lora_scales(&[(2, bits(0.25)), (0, bits(2.0)), (2, bits(0.75))]), Ok(()));
    // The adapter that is not listed goes to zero.
    assert_eq!(d.lora_scales(), vec![bits(2.0), bits(0.0), bits(0.75)]);
    assert_eq!(
        d.set_lora_scales(&[(0, bits(9.0)), (3, bits(1.0))]),
        Err("lora adapter id 3 is out of range: 3 adapter(s) loaded".to_string())
    );
    assert_eq!(d.lora_scales(), vec![bits(2.0), bits(0.0), bits(0.75)]);
}

/// What the scale's text reads as.
fn number(spec: &str) -> Option<u32> {
    LoraSpec::scale_text(spec)?
        .trim()
        .parse::<f32>()
        .ok()
        .map(f32::to_bits)
}

fn parse_scaled(spec: &str) -> Result<LoraSpec, String> {
    LoraSpec::parse_scaled(spec, number(spec))
}

fn from_flags(plain: &[String], scaled: &[String]) -> Result<Vec<LoraSpec>, String> {
    let numbers: Vec<Option<u32>> = flag_items(scaled).into_iter().map(number).collect();
    LoraSpec::from_flags(plain, scaled, &numbers)
}

#[test]
fn scaled_specs_split_on_the_last_colon() {
    let s = parse_scaled("a/b.gguf:0.5").unwrap();
    assert_eq!(s.path, "a/b.gguf");
    assert_eq!(f32::from_bits(s.scale), 0.5);
    let s = parse_scaled("C:/x/y.gguf:2").unwrap();
    assert_eq!(s.path, "C:/x/y.gguf");
    assert_eq!(f32::from_bits(s.scale), 2.0);
    let s = parse_scaled("z.gguf:-1").unwrap();
    assert_eq!(f32::from_bits(s.scale), -1.0);
    assert!(parse_scaled("z.gguf").unwrap_err().contains("FNAME:SCALE"));
    assert!(parse_scaled("z.gguf:abc")
        .unwrap_err()
        .contains("not a number"));
    assert!(parse_scaled(":0.5").is_err());
    assert_eq!(
        parse_scaled("z\n").unwrap_err(),
        "lora-scaled format: FNAME:SCALE (got \"z\\n\")"
    );
}

#[test]
fn the_two_flags_become_one_ordered_list() {
    let specs = from_flags(
        &["a.gguf,b.gguf".to_string(), "c.gguf".to_string()],
        &["d.gguf:0.25".to_string()],
    )
    .unwrap();
    let got: Vec<(&str, f32)> = specs
        .iter()
        .map(|s| (s.path.as_str(), f32::from_bits(s.scale)))
        .collect();
    assert_eq!(
        got,
        vec![("a.gguf", 1.0), ("b.gguf", 1.0), ("c.gguf", 1.0), ("d.gguf", 0.25)]
    );
    assert!(from_flags(&[], &["x".to_string()]).is_err());
    let spaced = from_flags(&[" a , ,b".to_string()], &["c:1, d:2 ,".to_string()]).unwrap();
    let paths: Vec<&str> = spaced.iter().map(|s| s.path.as_str()).collect();
    assert_eq!(paths, ["a", "b", "c", "d"]);
    assert_eq!(LoraSpec::plain("q").scale, 1.0f32.to_bits());
}
