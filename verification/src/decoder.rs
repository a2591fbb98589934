//! The decoder as an adapter sees it: the weight matrices a layer holds,
//! where each of them is, and what is attached to them.

use crate::weights::{ExpertWeights, WeightMatrix};
use vstd::prelude::*;

verus! {

/// Where a layer's expert weights are.
#[derive(Debug)]
pub enum ExpertBacking {
    /// In memory.
    Resident(Vec<ExpertWeights>),
    /// In a store, leased for each use.
    Stored,
}

/// The matrices of one layer.
#[derive(Debug)]
pub struct DecoderLayer {
    pub q_proj: WeightMatrix,
    pub k_proj: WeightMatrix,
    pub v_proj: WeightMatrix,
    pub o_proj: WeightMatrix,
    pub output_gate: Option<WeightMatrix>,
    pub experts: ExpertBacking,
    pub shared_experts: Vec<ExpertWeights>,
    pub router: WeightMatrix,
}

/// The place of a matrix in the decoder.
#[derive(Debug, Clone, Copy, PartialEq, Eq, Structural)]
pub enum Slot {
    Embedding,
    OutputHead,
    Q(usize),
    K(usize),
    V(usize),
    O(usize),
    OutputGate(usize),
    /// The gating matrix of a layer's one resident expert.
    Gate(usize),
    Up(usize),
    Down(usize),
    /// The gating matrix of a layer's first shared expert.
    SharedGate(usize),
    SharedUp(usize),
    SharedDown(usize),
    Router(usize),
}

/// What an adapter adds to one matrix: `b` times `a`, scaled.
#[derive(Debug)]
pub struct LoraDelta {
    /// `rank` rows of `cols`, as bit patterns.
    pub a: Vec<u32>,
    /// `rows` rows of `rank`.
    pub b: Vec<u32>,
    pub rank: usize,
    pub rows: usize,
    pub cols: usize,
    pub alpha: u32,
    /// The adapter whose scale counts, by its place in
    /// [`Decoder::lora_adapters`].
    pub adapter: usize,
}

/// The model of a [`LoraDelta`].
pub struct DeltaModel {
    pub a: Seq<u32>,
    pub b: Seq<u32>,
    pub rank: usize,
    pub rows: usize,
    pub cols: usize,
    pub alpha: u32,
    pub adapter: usize,
}

impl View for LoraDelta {
    type V = DeltaModel;

    open spec fn view(&self) -> DeltaModel {
        DeltaModel {
            a: self.a@,
            b: self.b@,
            rank: self.rank,
            rows: self.rows,
            cols: self.cols,
            alpha: self.alpha,
            adapter: self.adapter,
        }
    }
}

impl DeltaModel {
    /// There is an element for every place of the two factors.
    pub open spec fn complete(&self) -> bool {
        self.a.len() == self.rank * self.cols && self.b.len() == self.rows * self.rank
    }
}

/// A delta and the matrix it is attached to.
#[derive(Debug)]
pub struct AttachedDelta {
    pub slot: Slot,
    pub delta: LoraDelta,
}

/// The models of attached deltas.
pub open spec fn delta_views(deltas: Seq<AttachedDelta>) -> Seq<(Slot, DeltaModel)> {
    Seq::new(deltas.len(), |i: int| (deltas[i].slot, deltas[i].delta@))
}

/// One adapter after it was attached.
#[derive(Debug)]
pub struct LoraAttached {
    pub path: String,
    pub alpha: u32,
    pub task_name: String,
    pub prompt_prefix: String,
    /// The scale of every delta of this adapter, as a bit pattern.
    pub scale: u32,
    /// How many base tensors the adapter decorates.
    pub n_tensors: usize,
}

impl LoraAttached {
    /// The scale, as a bit pattern.
    pub fn scale(&self) -> (s: u32)
        ensures
            s == self.scale,
    {
        self.scale
    }
}

/// A decoder's matrices and what is attached to them.
#[derive(Debug)]
pub struct Decoder {
    pub embedding: WeightMatrix,
    pub output_head: WeightMatrix,
    pub vocab_size: usize,
    /// The feed-forward block has no gate of its own: its gate is its up
    /// projection.
    pub ungated: bool,
    pub layers: Vec<DecoderLayer>,
    pub lora_adapters: Vec<LoraAttached>,
    /// The deltas of every matrix, in the order they were attached.
    pub lora_deltas: Vec<AttachedDelta>,
}

impl Decoder {
    /// The matrix in a slot, if the decoder has one there.
    pub open spec fn at(&self, slot: Slot) -> Option<WeightMatrix> {
        match slot {
            Slot::Embedding => Some(self.embedding),
            Slot::OutputHead => Some(self.output_head),
            Slot::Q(i) => if i < self.layers@.len() {
                Some(self.layers@[i as int].q_proj)
            } else {
                None
            },
            Slot::K(i) => if i < self.layers@.len() {
                Some(self.layers@[i as int].k_proj)
            } else {
                None
            },
            Slot::V(i) => if i < self.layers@.len() {
                Some(self.layers@[i as int].v_proj)
            } else {
                None
            },
            Slot::O(i) => if i < self.layers@.len() {
                Some(self.layers@[i as int].o_proj)
            } else {
                None
            },
            Slot::OutputGate(i) => if i < self.layers@.len() {
                self.layers@[i as int].output_gate
            } else {
                None
            },
            Slot::Gate(i) => match self.one_expert(i) {
                Some(x) => Some(x.gate),
                None => None,
            },
            Slot::Up(i) => match self.one_expert(i) {
                Some(x) => Some(x.up),
                None => None,
            },
            Slot::Down(i) => match self.one_expert(i) {
                Some(x) => Some(x.down),
                None => None,
            },
            Slot::SharedGate(i) => match self.first_shared(i) {
                Some(x) => Some(x.gate),
                None => None,
            },
            Slot::SharedUp(i) => match self.first_shared(i) {
                Some(x) => Some(x.up),
                None => None,
            },
            Slot::SharedDown(i) => match self.first_shared(i) {
                Some(x) => Some(x.down),
                None => None,
            },
            Slot::Router(i) => if i < self.layers@.len() {
                Some(self.layers@[i as int].router)
            } else {
                None
            },
        }
    }

    /// A layer's one resident expert, if it has exactly one.
    pub open spec fn one_expert(&self, layer: usize) -> Option<ExpertWeights> {
        if layer < self.layers@.len() {
            match self.layers@[layer as int].experts {
                ExpertBacking::Resident(v) => if v@.len() == 1 {
                    Some(v@[0])
                } else {
                    None
                },
                ExpertBacking::Stored => None,
            }
        } else {
            None
        }
    }

    /// A layer's first shared expert.
    pub open spec fn first_shared(&self, layer: usize) -> Option<ExpertWeights> {
        if layer < self.layers@.len() && self.layers@[layer as int].shared_experts@.len() > 0 {
            Some(self.layers@[layer as int].shared_experts@[0])
        } else {
            None
        }
    }

    /// Whether two decoders hold the same matrices.
    pub open spec fn same_matrices(&self, other: Decoder) -> bool {
        &&& self.embedding == other.embedding
        &&& self.output_head == other.output_head
        &&& self.vocab_size == other.vocab_size
        &&& self.ungated == other.ungated
        &&& self.layers == other.layers
    }

    /// Whether every delta belongs to an adapter of the decoder and has
    /// the size of the matrix it is attached to.
    pub open spec fn well_formed(&self) -> bool {
        forall|i: int|
            0 <= i < self.lora_deltas@.len() ==> delta_fits(
                *self,
                self.lora_adapters@.len(),
                (#[trigger] self.lora_deltas@[i]).slot,
                self.lora_deltas@[i].delta@,
            )
    }

    fn expert(&self, layer: usize) -> (x: Option<&ExpertWeights>)
        ensures
            x is Some <==> self.one_expert(layer) is Some,
            x is Some ==> *x->0 == self.one_expert(layer)->0,
    {
        if layer >= self.layers.len() {
            return None;
        }
        match &self.layers[layer].experts {
            ExpertBacking::Resident(v) => if v.len() == 1 {
                Some(&v[0])
            } else {
                None
            },
            ExpertBacking::Stored => None,
        }
    }

    fn shared(&self, layer: usize) -> (x: Option<&ExpertWeights>)
        ensures
            x is Some <==> self.first_shared(layer) is Some,
            x is Some ==> *x->0 == self.first_shared(layer)->0,
    {
        if layer < self.layers.len() && self.layers[layer].shared_experts.len() > 0 {
            Some(&self.layers[layer].shared_experts[0])
        } else {
            None
        }
    }

    /// The matrix in a slot, if the decoder has one there.
    pub fn matrix(&self, slot: Slot) -> (m: Option<&WeightMatrix>)
        ensures
            m is Some <==> self.at(slot) is Some,
            m is Some ==> *m->0 == self.at(slot)->0,
    {
        let n = self.layers.len();
        match slot {
            Slot::Embedding => Some(&self.embedding),
            Slot::OutputHead => Some(&self.output_head),
            Slot::Q(i) => if i < n {
                Some(&self.layers[i].q_proj)
            } else {
                None
            },
            Slot::K(i) => if i < n {
                Some(&self.layers[i].k_proj)
            } else {
                None
            },
            Slot::V(i) => if i < n {
                Some(&self.layers[i].v_proj)
            } else {
                None
            },
            Slot::O(i) => if i < n {
                Some(&self.layers[i].o_proj)
            } else {
                None
            },
            Slot::OutputGate(i) => if i < n {
                match &self.layers[i].output_gate {
                    Some(g) => Some(g),
                    None => None,
                }
            } else {
                None
            },
            Slot::Gate(i) => match self.expert(i) {
                Some(x) => Some(&x.gate),
                None => None,
            },
            Slot::Up(i) => match self.expert(i) {
                Some(x) => Some(&x.up),
                None => None,
            },
            Slot::Down(i) => match self.expert(i) {
                Some(x) => Some(&x.down),
                None => None,
            },
            Slot::SharedGate(i) => match self.shared(i) {
                Some(x) => Some(&x.gate),
                None => None,
            },
            Slot::SharedUp(i) => match self.shared(i) {
                Some(x) => Some(&x.up),
                None => None,
            },
            Slot::SharedDown(i) => match self.shared(i) {
                Some(x) => Some(&x.down),
                None => None,
            },
            Slot::Router(i) => if i < n {
                Some(&self.layers[i].router)
            } else {
                None
            },
        }
    }
}

/// A slot of a layer is the matrix of that layer that it is named after,
/// and no other: the query slot the query projection, the key slot the
/// key projection, and so on; the expert slots are those of a layer's one
/// resident expert, the shared ones those of its first shared expert.
pub proof fn a_slot_is_the_matrix_it_is_named_after(d: Decoder, i: usize)
    requires
        i < d.layers@.len(),
    ensures
        d.at(Slot::Embedding) == Some(d.embedding),
        d.at(Slot::OutputHead) == Some(d.output_head),
        d.at(Slot::Q(i)) == Some(d.layers@[i as int].q_proj),
        d.at(Slot::K(i)) == Some(d.layers@[i as int].k_proj),
        d.at(Slot::V(i)) == Some(d.layers@[i as int].v_proj),
        d.at(Slot::O(i)) == Some(d.layers@[i as int].o_proj),
        d.at(Slot::OutputGate(i)) == d.layers@[i as int].output_gate,
        d.at(Slot::Router(i)) == Some(d.layers@[i as int].router),
        d.layers@[i as int].experts matches ExpertBacking::Resident(v) ==> (if v@.len() == 1 {
            &&& d.at(Slot::Gate(i)) == Some(v@[0].gate)
            &&& d.at(Slot::Up(i)) == Some(v@[0].up)
            &&& d.at(Slot::Down(i)) == Some(v@[0].down)
        } else {
            &&& d.at(Slot::Gate(i)) is None
            &&& d.at(Slot::Up(i)) is None
            &&& d.at(Slot::Down(i)) is None
        }),
        d.layers@[i as int].shared_experts@.len() > 0 ==> {
            let x = d.layers@[i as int].shared_experts@[0];
            &&& d.at(Slot::SharedGate(i)) == Some(x.gate)
            &&& d.at(Slot::SharedUp(i)) == Some(x.up)
            &&& d.at(Slot::SharedDown(i)) == Some(x.down)
        },
{
}

/// Whether a delta is one for the matrix in a slot, of one of `adapters`
/// adapters.
pub open spec fn delta_fits(d: Decoder, adapters: nat, slot: Slot, delta: DeltaModel) -> bool {
    &&& delta.adapter < adapters
    &&& delta.complete()
    &&& match d.at(slot) {
        Some(m) => m.n_rows() == delta.rows && m.n_cols() == delta.cols,
        None => false,
    }
}

} // verus!
