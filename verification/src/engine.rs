//! The engines' weights and configurations, as the loaders build them.

use crate::kimi_tokenizer::{decoded_bytes, lossy_chars, KimiTokenizer};
use crate::mla::MlaAttnWeights;
use crate::mla_arch::GluAct;
use crate::mla_gguf_loader::GatingFunction;
use crate::tokenizer::SpecialTokens;
use crate::weights::{ExpertWeights, WeightMatrix};
use vstd::prelude::*;
use vstd::slice::slice_to_vec;
use vstd::utf8::encode_utf8;

verus! {

/// The rotation of an MLA attention's `pe` slices.
#[derive(Debug, Clone, Copy, PartialEq, Eq, Structural)]
pub struct MlaRopeConfig {
    /// The base frequency, a bit pattern.
    pub theta: u32,
}

/// The dimensions of an MLA attention.
#[derive(Debug, Clone, Copy, PartialEq, Eq, Structural)]
pub struct MlaConfig {
    pub num_heads: usize,
    /// Zero for a direct Q.
    pub q_lora_rank: usize,
    pub kv_lora_rank: usize,
    pub qk_nope_head_dim: usize,
    pub qk_rope_head_dim: usize,
    pub v_head_dim: usize,
    pub use_output_gate: bool,
    pub rope: Option<MlaRopeConfig>,
}

/// A dense feed-forward block.
#[derive(Debug)]
pub struct MlaDenseFfn {
    pub weights: ExpertWeights,
    pub act: GluAct,
}

/// A routed feed-forward block.
#[derive(Debug)]
pub struct MlaMoeFfn {
    pub router: WeightMatrix,
    pub experts: Vec<ExpertWeights>,
    pub shared_expert: ExpertWeights,
    pub exp_probs_bias: Option<Vec<u32>>,
}

/// A layer's feed-forward block.
#[derive(Debug)]
pub enum MlaLayerFfn {
    Dense(MlaDenseFfn),
    Moe(MlaMoeFfn),
}

/// A layer's weights.
#[derive(Debug)]
pub struct MlaLayerWeights {
    pub attn_norm: Vec<u32>,
    pub attn: MlaAttnWeights,
    pub ffn_norm: Vec<u32>,
    pub ffn: MlaLayerFfn,
}

/// How the routed layers route.
#[derive(Debug, Clone, Copy, PartialEq, Eq, Structural)]
pub struct MlaMoeRuntime {
    pub n_experts_active: usize,
    pub gating: GatingFunction,
    pub norm_topk_prob: bool,
    /// A bit pattern.
    pub expert_weights_scale: u32,
}

/// The MLA engine.
#[derive(Debug)]
pub struct MlaEngine {
    pub embedding: WeightMatrix,
    pub layers: Vec<MlaLayerWeights>,
    pub final_norm: Vec<u32>,
    pub output_head: WeightMatrix,
    pub mla_cfg: MlaConfig,
    /// A bit pattern.
    pub rms_norm_eps: u32,
    pub hidden_dim: usize,
    /// Set exactly when some layer routes.
    pub moe: Option<MlaMoeRuntime>,
}

/// The caches of the MLA engine: keys and values, layer by layer.
#[derive(Debug)]
pub struct MlaDecodeState {
    pub layers: Vec<(Vec<u32>, Vec<u32>)>,
}

/// Which way a routed layer picks its experts.
#[derive(Debug, Clone, Copy, PartialEq, Eq, Structural)]
pub enum MlaRoute {
    /// By the sigmoid of the scores with the layer's bias, weights scaled
    /// as they are picked.
    SigmoidWithBias,
    /// By the gating function alone, weights scaled afterwards.
    Plain,
}

impl MlaEngine {
    /// How many tokens the engine scores.
    pub fn vocab_size(&self) -> (n: usize)
        ensures
            n == self.output_head.n_rows(),
    {
        self.output_head.rows()
    }

    /// Empty caches, a pair for each layer.
    pub fn new_state(&self) -> (state: MlaDecodeState)
        ensures
            state.layers@.len() == self.layers@.len(),
            forall|l: int|
                0 <= l < state.layers@.len() ==> (#[trigger] state.layers@[l]).0@.len() == 0
                    && state.layers@[l].1@.len() == 0,
    {
        let mut layers: Vec<(Vec<u32>, Vec<u32>)> = Vec::new();
        while layers.len() < self.layers.len()
            invariant
                layers@.len() <= self.layers@.len(),
                forall|l: int|
                    0 <= l < layers@.len() ==> (#[trigger] layers@[l]).0@.len() == 0
                        && layers@[l].1@.len() == 0,
            decreases self.layers@.len() - layers@.len(),
        {
            let k: Vec<u32> = Vec::new();
            let v: Vec<u32> = Vec::new();
            layers.push((k, v));
        }
        MlaDecodeState { layers }
    }
}

impl MlaMoeRuntime {
    /// Which way a layer picks its experts: its bias counts only with the
    /// sigmoid.
    pub fn route(&self, ffn: &MlaMoeFfn) -> (route: MlaRoute)
        ensures
            route == (if self.gating == GatingFunction::Sigmoid && ffn.exp_probs_bias is Some {
                MlaRoute::SigmoidWithBias
            } else {
                MlaRoute::Plain
            }),
    {
        match (self.gating, &ffn.exp_probs_bias) {
            (GatingFunction::Sigmoid, Some(_)) => MlaRoute::SigmoidWithBias,
            _ => MlaRoute::Plain,
        }
    }
}

/// What a generation loop needs of a tokenizer, whatever the width of its
/// tokens.
pub trait TextTokenizer {
    /// The tokenizer is one that can be used.
    spec fn usable(&self) -> bool;

    /// A text that can be encoded.
    spec fn encodable(&self, text: Seq<char>, specials: SpecialTokens) -> bool;

    /// The tokens of a text.
    spec fn encoding(&self, text: Seq<char>, specials: SpecialTokens) -> Seq<usize>;

    /// The text of tokens.
    spec fn decoding(&self, ids: Seq<usize>) -> Seq<char>;

    /// Encodes a text.
    fn encode(&self, text: &str, specials: SpecialTokens) -> (ids: Vec<usize>)
        requires
            self.usable(),
            self.encodable(text@, specials),
        ensures
            ids@ == self.encoding(text@, specials),
    ;

    /// Decodes tokens.
    fn decode(&self, ids: &[usize]) -> (text: String)
        ensures
            text@ == self.decoding(ids@),
    ;

    /// The bytes of tokens, before any decision on what characters they
    /// are; those of the text, where a tokenizer does not know better.
    fn decode_bytes(&self, ids: &[usize]) -> (bytes: Vec<u8>)
        default_ensures
            bytes@ == encode_utf8(self.decoding(ids@)),
    {
        let text = self.decode(ids);
        slice_to_vec(text.as_str().as_bytes())
    }
}

/// Tokens, widened.
pub open spec fn widened(ids: Seq<u32>) -> Seq<usize> {
    Seq::new(ids.len(), |i: int| ids[i] as usize)
}

/// Tokens, narrowed.
pub open spec fn narrowed(ids: Seq<usize>) -> Seq<u32> {
    Seq::new(ids.len(), |i: int| ids[i] as u32)
}

impl TextTokenizer for KimiTokenizer {
    open spec fn usable(&self) -> bool {
        self.well_formed()
    }

    open spec fn encodable(&self, text: Seq<char>, specials: SpecialTokens) -> bool {
        self.encodes(text, specials)
    }

    open spec fn encoding(&self, text: Seq<char>, specials: SpecialTokens) -> Seq<usize> {
        widened(self.ids_of(text, specials))
    }

    open spec fn decoding(&self, ids: Seq<usize>) -> Seq<char> {
        lossy_chars(decoded_bytes(narrowed(ids), self.decoder@, ids.len() as int))
    }

    fn encode(&self, text: &str, specials: SpecialTokens) -> (ids: Vec<usize>) {
        let narrow = KimiTokenizer::encode(self, text, specials);
        let mut ids: Vec<usize> = Vec::new();
        let mut i: usize = 0;
        while i < narrow.len()
            invariant
                i <= narrow@.len(),
                ids@ == widened(narrow@).take(i as int),
            decreases narrow@.len() - i,
        {
            ids.push(narrow[i] as usize);
            i += 1;
            assert(ids@ =~= widened(narrow@).take(i as int));
        }
        assert(ids@ =~= widened(narrow@));
        ids
    }

    fn decode(&self, ids: &[usize]) -> (text: String) {
        let mut narrow: Vec<u32> = Vec::new();
        let mut i: usize = 0;
        while i < ids.len()
            invariant
                i <= ids@.len(),
                narrow@ == narrowed(ids@).take(i as int),
            decreases ids@.len() - i,
        {
            narrow.push(
                #[verifier::truncate]
                (ids[i] as u32),
            );
            i += 1;
            assert(narrow@ =~= narrowed(ids@).take(i as int));
        }
        assert(narrow@ =~= narrowed(ids@));
        KimiTokenizer::decode(self, narrow.as_slice())
    }
}

/// Tokens come back as they were from being widened and narrowed, one for
/// one and in order.
pub proof fn widened_tokens_narrow_back(ids: Seq<u32>)
    ensures
        widened(ids).len() == ids.len(),
        narrowed(widened(ids)) == ids,
        forall|i: int| 0 <= i < ids.len() ==> #[trigger] widened(ids)[i] == ids[i],
{
    assert forall|i: int| 0 <= i < ids.len() implies #[trigger] narrowed(widened(ids))[i]
        == ids[i] by {
        let id: u32 = ids[i];
        assert(widened(ids)[i] == id as usize);
        assert(id as usize as u32 == id);
    }
    assert(narrowed(widened(ids)) =~= ids);
}

/// A tokenizer of wide tokens gives and takes the very tokens of the
/// tokenizer under it: the same ones, in the same order, and the same text
/// for them.
pub proof fn wide_tokens_are_the_tokenizers_own(
    t: KimiTokenizer,
    text: Seq<char>,
    specials: SpecialTokens,
    ids: Seq<u32>,
    i: int,
)
    requires
        0 <= i < t.ids_of(text, specials).len(),
    ensures
        t.encoding(text, specials).len() == t.ids_of(text, specials).len(),
        t.encoding(text, specials)[i] == t.ids_of(text, specials)[i],
        t.decoding(widened(ids)) == lossy_chars(
            decoded_bytes(ids, t.decoder@, ids.len() as int),
        ),
        t.usable() <==> t.well_formed(),
        t.encodable(text, specials) <==> t.encodes(text, specials),
{
    widened_tokens_narrow_back(ids);
}

} // verus!
