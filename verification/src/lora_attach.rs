//! Attaching a parsed [`LoraAdapter`] to a [`Decoder`].
//!
//! A base tensor's name is resolved once, into the matrix or matrices
//! that hold it. Where one tensor of the file was split into several
//! matrices, the rows of `lora_b` are split the same way, in the same
//! order, with a copy of `lora_a` for each; where one tensor is two
//! matrices at once, the whole delta goes on both. What the decoder holds
//! under no projection, routed experts, and an adapted embedding that is
//! also the output head are refused by name.

use crate::decoder::{
    a_slot_is_the_matrix_it_is_named_after, delta_fits, delta_views, AttachedDelta, Decoder,
    DeltaModel, ExpertBacking, LoraAttached, LoraDelta, Slot,
};
use crate::gguf::{quoted_chars, quoted_text, GgufFile, ARCH_KEY};
use crate::lora::{LoraAdapter, LoraError, LoraFault, LoraPair, NamedPair};
use crate::mtp_blocks::{
    block_and_rest, block_index, block_names_are_read_back, block_rest, TrunkLayers,
};
use crate::text::{
    block_name, decimal, decimal_text, ends_with, first_and_last_place, last_place, part_views,
    pieces_are_cut_at_the_separator, rsplit_once, split, split_on, str_eq, strip_suffix, trim, trimmed,
};
use crate::weights::{copied, transpose, transpose_swaps, transposed, ONE_BITS};
use vstd::prelude::*;
use vstd::slice::{slice_subrange, slice_to_vec};
use vstd::string::{StrSliceExecFns, StringExecFns};

verus! {

/// A projection of a layer that an adapter can name.
#[derive(Debug, Clone, Copy, PartialEq, Eq, Structural)]
pub enum LayerTarget {
    Q,
    K,
    V,
    Qkv,
    O,
    AttnGate,
    FfnGate,
    FfnUp,
    FfnDown,
    ShexpGate,
    ShexpUp,
    ShexpDown,
    Router,
}

/// What a base tensor's name stands for.
#[derive(Debug, Clone, Copy, PartialEq, Eq, Structural)]
pub enum Target {
    Embedding,
    Output,
    Layer(usize, LayerTarget),
}

/// The layer projection of a name, without `blk.N.` and `.weight`.
pub open spec fn layer_target(t: Seq<char>) -> Option<LayerTarget> {
    if t == "attn_q"@ {
        Some(LayerTarget::Q)
    } else if t == "attn_k"@ {
        Some(LayerTarget::K)
    } else if t == "attn_v"@ {
        Some(LayerTarget::V)
    } else if t == "attn_qkv"@ {
        Some(LayerTarget::Qkv)
    } else if t == "attn_output"@ {
        Some(LayerTarget::O)
    } else if t == "attn_gate"@ {
        Some(LayerTarget::AttnGate)
    } else if t == "ffn_gate"@ {
        Some(LayerTarget::FfnGate)
    } else if t == "ffn_up"@ {
        Some(LayerTarget::FfnUp)
    } else if t == "ffn_down"@ {
        Some(LayerTarget::FfnDown)
    } else if t == "ffn_gate_shexp"@ {
        Some(LayerTarget::ShexpGate)
    } else if t == "ffn_up_shexp"@ {
        Some(LayerTarget::ShexpUp)
    } else if t == "ffn_down_shexp"@ {
        Some(LayerTarget::ShexpDown)
    } else if t == "ffn_gate_inp"@ {
        Some(LayerTarget::Router)
    } else {
        None
    }
}

fn layer_target_of(t: &str) -> (target: Option<LayerTarget>)
    ensures
        target == layer_target(t@),
{
    if str_eq(t, "attn_q") {
        Some(LayerTarget::Q)
    } else if str_eq(t, "attn_k") {
        Some(LayerTarget::K)
    } else if str_eq(t, "attn_v") {
        Some(LayerTarget::V)
    } else if str_eq(t, "attn_qkv") {
        Some(LayerTarget::Qkv)
    } else if str_eq(t, "attn_output") {
        Some(LayerTarget::O)
    } else if str_eq(t, "attn_gate") {
        Some(LayerTarget::AttnGate)
    } else if str_eq(t, "ffn_gate") {
        Some(LayerTarget::FfnGate)
    } else if str_eq(t, "ffn_up") {
        Some(LayerTarget::FfnUp)
    } else if str_eq(t, "ffn_down") {
        Some(LayerTarget::FfnDown)
    } else if str_eq(t, "ffn_gate_shexp") {
        Some(LayerTarget::ShexpGate)
    } else if str_eq(t, "ffn_up_shexp") {
        Some(LayerTarget::ShexpUp)
    } else if str_eq(t, "ffn_down_shexp") {
        Some(LayerTarget::ShexpDown)
    } else if str_eq(t, "ffn_gate_inp") {
        Some(LayerTarget::Router)
    } else {
        None
    }
}

/// Whether a name is that of a block's `.weight` tensor.
pub open spec fn names_block_weight(name: Seq<char>) -> bool {
    block_index(name) is Some && ".weight"@.is_suffix_of(block_rest(name))
}

/// A block's tensor name without `blk.N.` and `.weight`.
pub open spec fn block_tensor(name: Seq<char>) -> Seq<char> {
    block_rest(name).take(block_rest(name).len() - ".weight"@.len())
}

/// Why a name can be no target.
pub open spec fn target_fault(path: Seq<char>, name: Seq<char>) -> Option<LoraFault> {
    if name == "token_embd.weight"@ || name == "output.weight"@ {
        None
    } else if !names_block_weight(name) {
        Some(LoraFault::NoProjection { path, name })
    } else if "_exps"@.is_suffix_of(block_tensor(name)) {
        Some(LoraFault::RoutedExperts { path, name })
    } else if layer_target(block_tensor(name)) is None {
        Some(LoraFault::NoProjection { path, name })
    } else {
        None
    }
}

/// The target of a name that can be one.
pub open spec fn target(name: Seq<char>) -> Target {
    if name == "token_embd.weight"@ {
        Target::Embedding
    } else if name == "output.weight"@ {
        Target::Output
    } else {
        Target::Layer(block_index(name)->0 as usize, layer_target(block_tensor(name))->0)
    }
}

fn no_projection(path: &str, name: &str) -> (e: LoraError)
    ensures
        e@ == (LoraFault::NoProjection { path: path@, name: name@ }),
{
    LoraError::NoProjection { path: String::from_str(path), name: String::from_str(name) }
}

/// Resolves a base tensor's name.
pub fn target_of(name: &str, path: &str) -> (r: Result<Target, LoraError>)
    ensures
        match target_fault(path@, name@) {
            Some(fault) => r is Err && r->Err_0@ == fault,
            None => r == Ok::<Target, LoraError>(target(name@)),
        },
{
    if str_eq(name, "token_embd.weight") {
        return Ok(Target::Embedding);
    }
    if str_eq(name, "output.weight") {
        return Ok(Target::Output);
    }
    let (layer, rest) = match block_and_rest(name) {
        Some(parts) => parts,
        None => {
            return Err(no_projection(path, name));
        },
    };
    let t = match strip_suffix(rest, ".weight") {
        Some(t) => t,
        None => {
            return Err(no_projection(path, name));
        },
    };
    if ends_with(t, "_exps") {
        return Err(
            LoraError::RoutedExperts { path: String::from_str(path), name: String::from_str(name) },
        );
    }
    match layer_target_of(t) {
        Some(kind) => Ok(Target::Layer(layer, kind)),
        None => Err(no_projection(path, name)),
    }
}

/// Where a base tensor's rows went.
#[derive(Debug)]
pub enum Parts {
    /// Matrices that hold consecutive blocks of the tensor's rows.
    Split(Vec<Slot>),
    /// Matrices that are each the whole tensor.
    Alias(Vec<Slot>),
}

/// The model of [`Parts`].
pub enum PartsModel {
    Split(Seq<Slot>),
    Alias(Seq<Slot>),
}

impl View for Parts {
    type V = PartsModel;

    open spec fn view(&self) -> PartsModel {
        match self {
            Parts::Split(slots) => PartsModel::Split(slots@),
            Parts::Alias(slots) => PartsModel::Alias(slots@),
        }
    }
}

impl PartsModel {
    /// The slots of the parts.
    pub open spec fn slots(&self) -> Seq<Slot> {
        match self {
            PartsModel::Split(slots) => *slots,
            PartsModel::Alias(slots) => *slots,
        }
    }
}

/// Why the decoder has no matrix for a target.
pub open spec fn slots_fault(d: Decoder, target: Target, path: Seq<char>, name: Seq<char>) -> Option<
    LoraFault,
> {
    match target {
        Target::Embedding => None,
        Target::Output => None,
        Target::Layer(il, kind) => if il >= d.layers@.len() {
            Some(LoraFault::NoProjection { path, name })
        } else {
            let layer = d.layers@[il as int];
            match kind {
                LayerTarget::AttnGate => if layer.output_gate is None {
                    Some(LoraFault::NoProjection { path, name })
                } else {
                    None
                },
                LayerTarget::FfnGate | LayerTarget::FfnUp | LayerTarget::FfnDown => match layer.experts {
                    ExpertBacking::Resident(v) => if v@.len() != 1 {
                        Some(LoraFault::NoProjection { path, name })
                    } else {
                        None
                    },
                    ExpertBacking::Stored => Some(LoraFault::StoredExperts { path, name }),
                },
                LayerTarget::ShexpGate | LayerTarget::ShexpUp | LayerTarget::ShexpDown => if layer.shared_experts@.len()
                    == 0 {
                    Some(LoraFault::NoProjection { path, name })
                } else {
                    None
                },
                _ => None,
            }
        },
    }
}

/// The matrices that hold a target whose tensor has `rows` rows. An `up`
/// tensor is the up projection; where the block is ungated, also its
/// gate; and where its rows are those of gate and up together, first the
/// gate, then the up projection.
pub open spec fn parts_of(d: Decoder, target: Target, rows: usize) -> PartsModel {
    match target {
        Target::Embedding => PartsModel::Split(seq![Slot::Embedding]),
        Target::Output => PartsModel::Split(seq![Slot::OutputHead]),
        Target::Layer(il, kind) => match kind {
            LayerTarget::Q => PartsModel::Split(seq![Slot::Q(il)]),
            LayerTarget::K => PartsModel::Split(seq![Slot::K(il)]),
            LayerTarget::V => PartsModel::Split(seq![Slot::V(il)]),
            LayerTarget::Qkv => PartsModel::Split(seq![Slot::Q(il), Slot::K(il), Slot::V(il)]),
            LayerTarget::O => PartsModel::Split(seq![Slot::O(il)]),
            LayerTarget::AttnGate => PartsModel::Split(seq![Slot::OutputGate(il)]),
            LayerTarget::FfnGate => PartsModel::Split(seq![Slot::Gate(il)]),
            LayerTarget::FfnDown => PartsModel::Split(seq![Slot::Down(il)]),
            LayerTarget::FfnUp => {
                let gate = d.one_expert(il)->0.gate.n_rows();
                let up = d.one_expert(il)->0.up.n_rows();
                if d.ungated {
                    PartsModel::Alias(seq![Slot::Up(il), Slot::Gate(il)])
                } else if rows == gate + up && rows != up {
                    PartsModel::Split(seq![Slot::Gate(il), Slot::Up(il)])
                } else {
                    PartsModel::Split(seq![Slot::Up(il)])
                }
            },
            LayerTarget::ShexpGate => PartsModel::Split(seq![Slot::SharedGate(il)]),
            LayerTarget::ShexpUp => PartsModel::Split(seq![Slot::SharedUp(il)]),
            LayerTarget::ShexpDown => PartsModel::Split(seq![Slot::SharedDown(il)]),
            LayerTarget::Router => PartsModel::Split(seq![Slot::Router(il)]),
        },
    }
}

proof fn parts_are_there(d: Decoder, target: Target, path: Seq<char>, name: Seq<char>, rows: usize)
    requires
        slots_fault(d, target, path, name) is None,
    ensures
        forall|k: int|
            0 <= k < parts_of(d, target, rows).slots().len() ==> d.at(
                #[trigger] parts_of(d, target, rows).slots()[k],
            ) is Some,
{
}

fn one(slot: Slot) -> (parts: Parts)
    ensures
        parts@ == PartsModel::Split(seq![slot]),
{
    let v: Vec<Slot> = vec![slot];
    assert(v@ =~= seq![slot]);
    Parts::Split(v)
}

impl Decoder {
    /// The matrices that hold a base tensor of `file_rows` rows, and how.
    pub fn parts(&self, target: Target, path: &str, name: &str, file_rows: usize) -> (r: Result<
        Parts,
        LoraError,
    >)
        ensures
            match slots_fault(*self, target, path@, name@) {
                Some(fault) => r is Err && r->Err_0@ == fault,
                None => r is Ok && r->Ok_0@ == parts_of(*self, target, file_rows),
            },
    {
        let (il, kind) = match target {
            Target::Embedding => {
                return Ok(one(Slot::Embedding));
            },
            Target::Output => {
                return Ok(one(Slot::OutputHead));
            },
            Target::Layer(il, kind) => (il, kind),
        };
        if il >= self.layers.len() {
            return Err(no_projection(path, name));
        }
        let layer = &self.layers[il];
        match kind {
            LayerTarget::Q => Ok(one(Slot::Q(il))),
            LayerTarget::K => Ok(one(Slot::K(il))),
            LayerTarget::V => Ok(one(Slot::V(il))),
            LayerTarget::Qkv => {
                let v: Vec<Slot> = vec![Slot::Q(il), Slot::K(il), Slot::V(il)];
                assert(v@ =~= seq![Slot::Q(il), Slot::K(il), Slot::V(il)]);
                Ok(Parts::Split(v))
            },
            LayerTarget::O => Ok(one(Slot::O(il))),
            LayerTarget::AttnGate => match &layer.output_gate {
                Some(_) => Ok(one(Slot::OutputGate(il))),
                None => Err(no_projection(path, name)),
            },
            LayerTarget::FfnGate | LayerTarget::FfnUp | LayerTarget::FfnDown => {
                let ex = match &layer.experts {
                    ExpertBacking::Resident(v) => if v.len() == 1 {
                        &v[0]
                    } else {
                        return Err(no_projection(path, name));
                    },
                    ExpertBacking::Stored => {
                        return Err(
                            LoraError::StoredExperts {
                                path: String::from_str(path),
                                name: String::from_str(name),
                            },
                        );
                    },
                };
                match kind {
                    LayerTarget::FfnGate => Ok(one(Slot::Gate(il))),
                    LayerTarget::FfnDown => Ok(one(Slot::Down(il))),
                    _ => {
                        let gate = ex.gate.rows() as u128;
                        let up = ex.up.rows() as u128;
                        if self.ungated {
                            let v: Vec<Slot> = vec![Slot::Up(il), Slot::Gate(il)];
                            assert(v@ =~= seq![Slot::Up(il), Slot::Gate(il)]);
                            Ok(Parts::Alias(v))
                        } else if file_rows as u128 == gate + up && file_rows != ex.up.rows() {
                            let v: Vec<Slot> = vec![Slot::Gate(il), Slot::Up(il)];
                            assert(v@ =~= seq![Slot::Gate(il), Slot::Up(il)]);
                            Ok(Parts::Split(v))
                        } else {
                            Ok(one(Slot::Up(il)))
                        }
                    },
                }
            },
            LayerTarget::ShexpGate | LayerTarget::ShexpUp | LayerTarget::ShexpDown => {
                if layer.shared_experts.len() == 0 {
                    return Err(no_projection(path, name));
                }
                match kind {
                    LayerTarget::ShexpGate => Ok(one(Slot::SharedGate(il))),
                    LayerTarget::ShexpUp => Ok(one(Slot::SharedUp(il))),
                    _ => Ok(one(Slot::SharedDown(il))),
                }
            },
            LayerTarget::Router => Ok(one(Slot::Router(il))),
        }
    }
}

/// A pair brought into one layout: `a` is `rank` rows as wide as the base
/// tensor, `b` one row of `rank` for each of its rows.
#[derive(Debug)]
pub struct CheckedPair {
    pub a: Vec<u32>,
    pub b: Vec<u32>,
    pub rank: usize,
}

/// The model of a [`CheckedPair`].
pub struct CheckedModel {
    pub a: Seq<u32>,
    pub b: Seq<u32>,
    pub rank: usize,
}

impl View for CheckedPair {
    type V = CheckedModel;

    open spec fn view(&self) -> CheckedModel {
        CheckedModel { a: self.a@, b: self.b@, rank: self.rank }
    }
}

/// The refusal of a pair whose sizes are not those of the base tensor.
pub open spec fn shape_fault(
    path: Seq<char>,
    name: Seq<char>,
    pair: LoraPair,
    rows: usize,
    cols: usize,
) -> LoraFault {
    LoraFault::Shape {
        path,
        name,
        rows: rows as nat,
        cols: cols as nat,
        a: (pair.a@.rows, pair.a@.cols),
        b: (pair.b@.rows, pair.b@.cols),
    }
}

/// Why a pair does not fit a base tensor of `rows` by `cols`. The pair of
/// the embedding is flipped: its `lora_a` has a row for each row of the
/// base, its `lora_b` a row for each column.
pub open spec fn pair_fault(
    path: Seq<char>,
    name: Seq<char>,
    pair: LoraPair,
    embedding: bool,
    rows: usize,
    cols: usize,
) -> Option<LoraFault> {
    if embedding {
        if cols != pair.b@.rows || rows != pair.a@.rows || pair.a@.cols != pair.b@.cols {
            Some(shape_fault(path, name, pair, rows, cols))
        } else {
            None
        }
    } else if cols != pair.a@.cols || rows != pair.b@.rows {
        Some(shape_fault(path, name, pair, rows, cols))
    } else if pair.a@.rows != pair.b@.cols {
        Some(
            LoraFault::NotTransposed {
                path,
                name,
                a: (pair.a@.rows, pair.a@.cols),
                b: (pair.b@.rows, pair.b@.cols),
            },
        )
    } else {
        None
    }
}

/// A pair that fits, in the one layout.
pub open spec fn checked(pair: LoraPair, embedding: bool) -> CheckedModel {
    if embedding {
        CheckedModel {
            a: transpose(pair.b@.data, pair.b@.rows as int, pair.b@.cols as int),
            b: pair.a@.data,
            rank: pair.a@.cols,
        }
    } else {
        CheckedModel { a: pair.a@.data, b: pair.b@.data, rank: pair.a@.rows }
    }
}

fn shape_error(path: &str, name: &str, pair: &LoraPair, rows: usize, cols: usize) -> (e: LoraError)
    ensures
        e@ == shape_fault(path@, name@, *pair, rows, cols),
{
    LoraError::Shape {
        path: String::from_str(path),
        name: String::from_str(name),
        rows,
        cols,
        a: pair.a.shape,
        b: pair.b.shape,
    }
}

/// Holds a pair against a base tensor of `rows` by `cols`.
pub fn checked_pair(
    path: &str,
    name: &str,
    pair: &LoraPair,
    target: Target,
    rows: usize,
    cols: usize,
) -> (r: Result<CheckedPair, LoraError>)
    requires
        pair.a@.complete(),
        pair.b@.complete(),
    ensures
        match pair_fault(path@, name@, *pair, target is Embedding, rows, cols) {
            Some(fault) => r is Err && r->Err_0@ == fault,
            None => r is Ok && r->Ok_0@ == checked(*pair, target is Embedding),
        },
{
    if matches!(target, Target::Embedding) {
        if cols != pair.b.rows() || rows != pair.a.rows() {
            return Err(shape_error(path, name, pair, rows, cols));
        }
        let rank = pair.a.cols();
        if rank != pair.b.cols() {
            return Err(shape_error(path, name, pair, rows, cols));
        }
        let a = transposed(pair.b.data.as_slice(), cols, rank);
        return Ok(CheckedPair { a, b: copied(&pair.a.data), rank });
    }
    if cols != pair.a.cols() || rows != pair.b.rows() {
        return Err(shape_error(path, name, pair, rows, cols));
    }
    let rank = pair.a.rows();
    if rank != pair.b.cols() {
        return Err(
            LoraError::NotTransposed {
                path: String::from_str(path),
                name: String::from_str(name),
                a: pair.a.shape,
                b: pair.b.shape,
            },
        );
    }
    Ok(CheckedPair { a: copied(&pair.a.data), b: copied(&pair.b.data), rank })
}

/// The rows of the matrices in the first `n` of `slots`.
pub open spec fn rows_of(d: Decoder, slots: Seq<Slot>, n: int) -> int
    decreases n,
{
    if n <= 0 {
        0
    } else {
        rows_of(d, slots, n - 1) + d.at(slots[n - 1])->0.n_rows()
    }
}

/// Whether the matrices in `parts` hold a tensor of `rows` by `cols`.
pub open spec fn parts_fit(d: Decoder, parts: PartsModel, rows: usize, cols: usize) -> bool {
    match parts {
        PartsModel::Split(slots) => {
            &&& rows_of(d, slots, slots.len() as int) == rows
            &&& forall|k: int|
                0 <= k < slots.len() ==> d.at(#[trigger] slots[k])->0.n_cols() == cols
        },
        PartsModel::Alias(slots) => forall|k: int|
            0 <= k < slots.len() ==> d.at(#[trigger] slots[k])->0.n_rows() == rows && d.at(
                slots[k],
            )->0.n_cols() == cols,
    }
}

/// The rows of `b` that go with part `k` of a split tensor.
pub open spec fn block_of_b(d: Decoder, slots: Seq<Slot>, whole: CheckedModel, k: int) -> Seq<u32> {
    whole.b.subrange(
        rows_of(d, slots, k) * whole.rank,
        rows_of(d, slots, k + 1) * whole.rank,
    )
}

/// What an adapter adds to part `k` of the parts that hold a tensor.
pub open spec fn part_delta(
    d: Decoder,
    parts: PartsModel,
    whole: CheckedModel,
    alpha: u32,
    adapter: usize,
    k: int,
) -> (Slot, DeltaModel) {
    let slot = parts.slots()[k];
    let m = d.at(slot)->0;
    (
        slot,
        DeltaModel {
            a: whole.a,
            b: match parts {
                PartsModel::Split(slots) => block_of_b(d, slots, whole, k),
                PartsModel::Alias(_) => whole.b,
            },
            rank: whole.rank,
            rows: m.n_rows(),
            cols: m.n_cols(),
            alpha,
            adapter,
        },
    )
}

/// The shape of the base tensor called `name`: rows, then columns.
pub open spec fn base_shape(base: GgufFile, name: Seq<char>) -> (usize, usize) {
    let shape = base.tensor(name)->0.shape@;
    (shape[1] as usize, shape[0] as usize)
}

/// Why a pair of the adapter cannot be attached.
pub open spec fn attach_pair_fault(d: Decoder, base: GgufFile, path: Seq<char>, named: NamedPair) -> Option<
    LoraFault,
> {
    let name = named.name@;
    if !base.has(name) {
        Some(LoraFault::NotInBase { path, name })
    } else if target_fault(path, name) is Some {
        target_fault(path, name)
    } else if target(name) is Embedding && !base.has("output.weight"@) {
        Some(LoraFault::TiedHead { path })
    } else if base.tensor(name)->0.shape@.len() != 2 {
        Some(LoraFault::NoProjection { path, name })
    } else {
        let (rows, cols) = base_shape(base, name);
        let embedding = target(name) is Embedding;
        if pair_fault(path, name, named.pair, embedding, rows, cols) is Some {
            pair_fault(path, name, named.pair, embedding, rows, cols)
        } else if slots_fault(d, target(name), path, name) is Some {
            slots_fault(d, target(name), path, name)
        } else if !parts_fit(d, parts_of(d, target(name), rows), rows, cols) {
            Some(shape_fault(path, name, named.pair, rows, cols))
        } else {
            None
        }
    }
}

/// The deltas of a pair that can be attached, one for each matrix that
/// holds its base tensor.
pub open spec fn pair_deltas(
    d: Decoder,
    base: GgufFile,
    named: NamedPair,
    alpha: u32,
    adapter: usize,
) -> Seq<(Slot, DeltaModel)> {
    let t = target(named.name@);
    let parts = parts_of(d, t, base_shape(base, named.name@).0);
    Seq::new(
        parts.slots().len(),
        |k: int| part_delta(d, parts, checked(named.pair, t is Embedding), alpha, adapter, k),
    )
}

/// The first fault of the first `n` pairs.
pub open spec fn walk_fault(
    d: Decoder,
    base: GgufFile,
    path: Seq<char>,
    pairs: Seq<NamedPair>,
    n: int,
) -> Option<LoraFault>
    decreases n,
{
    if n <= 0 {
        None
    } else if walk_fault(d, base, path, pairs, n - 1) is Some {
        walk_fault(d, base, path, pairs, n - 1)
    } else {
        attach_pair_fault(d, base, path, pairs[n - 1])
    }
}

proof fn walk_fault_stays(d: Decoder, base: GgufFile, path: Seq<char>, pairs: Seq<NamedPair>, k: int, n: int)
    requires
        k <= n,
        walk_fault(d, base, path, pairs, k) is Some,
    ensures
        walk_fault(d, base, path, pairs, n) == walk_fault(d, base, path, pairs, k),
    decreases n - k,
{
    if k < n {
        walk_fault_stays(d, base, path, pairs, k, n - 1);
    }
}

/// The deltas of the first `n` pairs, in order.
pub open spec fn walk_deltas(
    d: Decoder,
    base: GgufFile,
    pairs: Seq<NamedPair>,
    alpha: u32,
    adapter: usize,
    n: int,
) -> Seq<(Slot, DeltaModel)>
    decreases n,
{
    if n <= 0 {
        seq![]
    } else {
        walk_deltas(d, base, pairs, alpha, adapter, n - 1) + pair_deltas(
            d,
            base,
            pairs[n - 1],
            alpha,
            adapter,
        )
    }
}

/// Why an adapter cannot be attached.
pub open spec fn attach_fault(d: Decoder, base: GgufFile, adapter: LoraAdapter) -> Option<LoraFault> {
    let arch = match base.meta_str(ARCH_KEY@) {
        Some(arch) => arch,
        None => seq![],
    };
    if adapter.arch@ != arch {
        Some(
            LoraFault::ArchMismatch { path: adapter.path@, adapter: adapter.arch@, base: arch },
        )
    } else {
        walk_fault(d, base, adapter.path@, adapter.pairs@, adapter.pairs@.len() as int)
    }
}

/// What is remembered of an attached adapter.
pub open spec fn attached_is(adapter: LoraAdapter, scale: u32, a: LoraAttached) -> bool {
    &&& a.path@ == adapter.path@
    &&& a.alpha == adapter.alpha
    &&& a.task_name@ == adapter.task_name@
    &&& a.prompt_prefix@ == adapter.prompt_prefix@
    &&& a.scale == scale
    &&& a.n_tensors == adapter.pairs@.len()
}

proof fn rows_grow(d: Decoder, slots: Seq<Slot>, k: int, n: int)
    requires
        0 <= k <= n,
    ensures
        0 <= rows_of(d, slots, k) <= rows_of(d, slots, n),
    decreases n,
{
    if k < n {
        rows_grow(d, slots, k, n - 1);
    } else if k > 0 {
        rows_grow(d, slots, k - 1, n - 1);
    }
}

proof fn checked_is_complete(path: Seq<char>, name: Seq<char>, pair: LoraPair, embedding: bool, rows: usize, cols: usize)
    requires
        pair.a@.complete(),
        pair.b@.complete(),
        pair_fault(path, name, pair, embedding, rows, cols) is None,
    ensures
        checked(pair, embedding).a.len() == checked(pair, embedding).rank * cols,
        checked(pair, embedding).b.len() == rows * checked(pair, embedding).rank,
{
    if embedding {
        assert(pair.b@.rows * pair.b@.cols == pair.b@.cols * pair.b@.rows) by (nonlinear_arith);
        assert(0 <= pair.b@.rows * pair.b@.cols) by (nonlinear_arith);
    }
}

proof fn block_bounds(d: Decoder, slots: Seq<Slot>, whole: CheckedModel, rows: usize, k: int)
    requires
        0 <= k < slots.len(),
        rows_of(d, slots, slots.len() as int) == rows,
        whole.b.len() == rows * whole.rank,
    ensures
        0 <= rows_of(d, slots, k) * whole.rank <= rows_of(d, slots, k + 1) * whole.rank
            <= whole.b.len(),
        block_of_b(d, slots, whole, k).len() == d.at(slots[k])->0.n_rows() * whole.rank,
{
    rows_grow(d, slots, k, k + 1);
    rows_grow(d, slots, k + 1, slots.len() as int);
    let lo = rows_of(d, slots, k);
    let hi = rows_of(d, slots, k + 1);
    let rank = whole.rank as int;
    assert(0 <= lo * rank <= hi * rank <= rows * rank) by (nonlinear_arith)
        requires
            0 <= lo <= hi <= rows,
            0 <= rank,
    ;
    assert(hi * rank - lo * rank == (hi - lo) * rank) by (nonlinear_arith);
}

/// The rows of `b` that go with the parts of a split tensor, one after
/// the other, are the rows of the whole `b`: stacking what the parts add
/// gives what the whole pair adds.
pub proof fn split_blocks_stack_back(d: Decoder, slots: Seq<Slot>, whole: CheckedModel, rows: usize, n: int)
    requires
        0 <= n <= slots.len(),
        rows_of(d, slots, slots.len() as int) == rows,
        whole.b.len() == rows * whole.rank,
    ensures
        Seq::new(n as nat, |k: int| block_of_b(d, slots, whole, k)).flatten() == whole.b.take(
            rows_of(d, slots, n) * whole.rank,
        ),
        n == slots.len() ==> Seq::new(
            n as nat,
            |k: int| block_of_b(d, slots, whole, k),
        ).flatten() == whole.b,
    decreases n,
{
    let blocks = Seq::new(n as nat, |k: int| block_of_b(d, slots, whole, k));
    if n == 0 {
        assert(blocks =~= seq![]);
        assert(0 * whole.rank == 0);
        assert(blocks.flatten() =~= whole.b.take(0));
        if slots.len() == 0 {
            assert(whole.b.take(0) =~= whole.b) by {
                assert(0 * whole.rank == 0) by (nonlinear_arith);
            }
        }
    } else {
        split_blocks_stack_back(d, slots, whole, rows, n - 1);
        block_bounds(d, slots, whole, rows, n - 1);
        let fewer = Seq::new((n - 1) as nat, |k: int| block_of_b(d, slots, whole, k));
        assert(blocks =~= fewer.push(block_of_b(d, slots, whole, n - 1)));
        fewer.lemma_flatten_push(block_of_b(d, slots, whole, n - 1));
        let lo = rows_of(d, slots, n - 1) * whole.rank;
        let hi = rows_of(d, slots, n) * whole.rank;
        assert(whole.b.take(lo) + whole.b.subrange(lo, hi) =~= whole.b.take(hi));
        if n == slots.len() {
            assert(whole.b.take(hi) =~= whole.b);
        }
    }
}

proof fn projection_names()
    ensures
        layer_target("attn_q"@) == Some(LayerTarget::Q),
        layer_target("attn_k"@) == Some(LayerTarget::K),
        layer_target("attn_v"@) == Some(LayerTarget::V),
        layer_target("attn_qkv"@) == Some(LayerTarget::Qkv),
        layer_target("attn_output"@) == Some(LayerTarget::O),
        layer_target("attn_gate"@) == Some(LayerTarget::AttnGate),
        layer_target("ffn_gate"@) == Some(LayerTarget::FfnGate),
        layer_target("ffn_up"@) == Some(LayerTarget::FfnUp),
        layer_target("ffn_down"@) == Some(LayerTarget::FfnDown),
        layer_target("ffn_gate_shexp"@) == Some(LayerTarget::ShexpGate),
        layer_target("ffn_up_shexp"@) == Some(LayerTarget::ShexpUp),
        layer_target("ffn_down_shexp"@) == Some(LayerTarget::ShexpDown),
        layer_target("ffn_gate_inp"@) == Some(LayerTarget::Router),
{
    reveal_strlit("attn_q");
    reveal_strlit("attn_k");
    reveal_strlit("attn_v");
    reveal_strlit("attn_qkv");
    reveal_strlit("attn_output");
    reveal_strlit("attn_gate");
    reveal_strlit("ffn_gate");
    reveal_strlit("ffn_up");
    reveal_strlit("ffn_down");
    reveal_strlit("ffn_gate_shexp");
    reveal_strlit("ffn_up_shexp");
    reveal_strlit("ffn_down_shexp");
    reveal_strlit("ffn_gate_inp");
    assert("attn_q"@.len() == 6 && "attn_k"@.len() == 6 && "attn_v"@.len() == 6);
    assert("attn_qkv"@.len() == 8 && "attn_output"@.len() == 11 && "attn_gate"@.len() == 9);
    assert("ffn_gate"@.len() == 8 && "ffn_up"@.len() == 6 && "ffn_down"@.len() == 8);
    assert("ffn_gate_shexp"@.len() == 14 && "ffn_up_shexp"@.len() == 12);
    assert("ffn_down_shexp"@.len() == 14 && "ffn_gate_inp"@.len() == 12);
    assert("attn_k"@[5] != "attn_q"@[5]);
    assert("attn_v"@[5] != "attn_q"@[5]);
    assert("attn_v"@[5] != "attn_k"@[5]);
    assert("ffn_up"@[0] != "attn_q"@[0]);
    assert("ffn_up"@[0] != "attn_k"@[0]);
    assert("ffn_up"@[0] != "attn_v"@[0]);
    assert("ffn_gate"@[0] != "attn_qkv"@[0]);
    assert("ffn_down"@[0] != "attn_qkv"@[0]);
    assert("ffn_down"@[4] != "ffn_gate"@[4]);
    assert("ffn_down_shexp"@[4] != "ffn_gate_shexp"@[4]);
    assert("ffn_gate_inp"@[4] != "ffn_up_shexp"@[4]);
}

/// The name of a block's tensor stands for the projection of that block
/// that it spells: `blk.N.attn_k.weight` for the keys of layer `N`,
/// `blk.N.attn_v.weight` for its values, and so on.
pub proof fn a_block_name_is_its_projection(n: usize, stem: Seq<char>)
    ensures
        ({
            let name = "blk."@ + decimal(n as nat) + "."@ + (stem + ".weight"@);
            &&& stem == "attn_q"@ ==> target(name) == Target::Layer(n, LayerTarget::Q)
            &&& stem == "attn_k"@ ==> target(name) == Target::Layer(n, LayerTarget::K)
            &&& stem == "attn_v"@ ==> target(name) == Target::Layer(n, LayerTarget::V)
            &&& stem == "attn_qkv"@ ==> target(name) == Target::Layer(n, LayerTarget::Qkv)
            &&& stem == "attn_output"@ ==> target(name) == Target::Layer(n, LayerTarget::O)
            &&& stem == "attn_gate"@ ==> target(name) == Target::Layer(n, LayerTarget::AttnGate)
            &&& stem == "ffn_gate"@ ==> target(name) == Target::Layer(n, LayerTarget::FfnGate)
            &&& stem == "ffn_up"@ ==> target(name) == Target::Layer(n, LayerTarget::FfnUp)
            &&& stem == "ffn_down"@ ==> target(name) == Target::Layer(n, LayerTarget::FfnDown)
            &&& stem == "ffn_gate_shexp"@ ==> target(name) == Target::Layer(
                n,
                LayerTarget::ShexpGate,
            )
            &&& stem == "ffn_up_shexp"@ ==> target(name) == Target::Layer(n, LayerTarget::ShexpUp)
            &&& stem == "ffn_down_shexp"@ ==> target(name) == Target::Layer(
                n,
                LayerTarget::ShexpDown,
            )
            &&& stem == "ffn_gate_inp"@ ==> target(name) == Target::Layer(n, LayerTarget::Router)
        }),
        target("token_embd.weight"@) == Target::Embedding,
        target("output.weight"@) == Target::Output,
{
    let rest = stem + ".weight"@;
    let name = block_name(n as nat, rest);
    block_names_are_read_back(
        n,
        rest,
        TrunkLayers { block_count: 0, n_layers: 0, n_mtp_blocks: 0 },
    );
    assert(rest.take(rest.len() - ".weight"@.len()) =~= stem);
    projection_names();
    reveal_strlit("blk.");
    reveal_strlit("token_embd.weight");
    reveal_strlit("output.weight");
    assert(name[0] == 'b');
    assert("token_embd.weight"@[0] == 't');
    assert("output.weight"@[0] == 'o');
}

/// A delta for a base tensor goes on the matrix that was loaded from that
/// tensor: a target of one projection has that projection's own matrix
/// and no other, and the parts of a fused query, key and value tensor are
/// the parts of its three projections one after the other, in that order.
/// An `up` tensor that holds gate and up has the parts of the former
/// before those of the latter.
pub proof fn a_target_has_its_own_matrix(d: Decoder, il: usize, rows: usize)
    requires
        il < d.layers@.len(),
    ensures
        parts_of(d, Target::Embedding, rows) == PartsModel::Split(seq![Slot::Embedding]),
        parts_of(d, Target::Output, rows) == PartsModel::Split(seq![Slot::OutputHead]),
        ({
            let q = parts_of(d, Target::Layer(il, LayerTarget::Q), rows).slots();
            let k = parts_of(d, Target::Layer(il, LayerTarget::K), rows).slots();
            let v = parts_of(d, Target::Layer(il, LayerTarget::V), rows).slots();
            let o = parts_of(d, Target::Layer(il, LayerTarget::O), rows).slots();
            let router = parts_of(d, Target::Layer(il, LayerTarget::Router), rows).slots();
            let gate = parts_of(d, Target::Layer(il, LayerTarget::AttnGate), rows).slots();
            &&& q.len() == 1 && d.at(q[0]) == Some(d.layers@[il as int].q_proj)
            &&& k.len() == 1 && d.at(k[0]) == Some(d.layers@[il as int].k_proj)
            &&& v.len() == 1 && d.at(v[0]) == Some(d.layers@[il as int].v_proj)
            &&& o.len() == 1 && d.at(o[0]) == Some(d.layers@[il as int].o_proj)
            &&& router.len() == 1 && d.at(router[0]) == Some(d.layers@[il as int].router)
            &&& gate.len() == 1 && d.at(gate[0]) == d.layers@[il as int].output_gate
            &&& q == seq![Slot::Q(il)] && k == seq![Slot::K(il)] && v == seq![Slot::V(il)]
            &&& o == seq![Slot::O(il)] && router == seq![Slot::Router(il)]
            &&& gate == seq![Slot::OutputGate(il)]
            &&& parts_of(d, Target::Layer(il, LayerTarget::Qkv), rows) == PartsModel::Split(
                q + k + v,
            )
        }),
        d.layers@[il as int].experts matches ExpertBacking::Resident(x) ==> x@.len() == 1 ==> {
            let gate = parts_of(d, Target::Layer(il, LayerTarget::FfnGate), rows);
            let up = parts_of(d, Target::Layer(il, LayerTarget::FfnUp), rows);
            let down = parts_of(d, Target::Layer(il, LayerTarget::FfnDown), rows);
            &&& gate == PartsModel::Split(seq![Slot::Gate(il)])
            &&& d.at(gate.slots()[0]) == Some(x@[0].gate)
            &&& down == PartsModel::Split(seq![Slot::Down(il)])
            &&& d.at(down.slots()[0]) == Some(x@[0].down)
            &&& d.ungated ==> up == PartsModel::Alias(seq![Slot::Up(il)] + gate.slots())
            &&& !d.ungated && rows == x@[0].up.n_rows() ==> up == PartsModel::Split(
                seq![Slot::Up(il)],
            ) && d.at(up.slots()[0]) == Some(x@[0].up)
            &&& !d.ungated && x@[0].gate.n_rows() > 0 && rows == x@[0].gate.n_rows()
                + x@[0].up.n_rows() ==> up == PartsModel::Split(gate.slots() + seq![Slot::Up(il)])
        },
        d.layers@[il as int].shared_experts@.len() > 0 ==> {
            let x = d.layers@[il as int].shared_experts@[0];
            let gate = parts_of(d, Target::Layer(il, LayerTarget::ShexpGate), rows);
            let up = parts_of(d, Target::Layer(il, LayerTarget::ShexpUp), rows);
            let down = parts_of(d, Target::Layer(il, LayerTarget::ShexpDown), rows);
            &&& gate == PartsModel::Split(seq![Slot::SharedGate(il)])
            &&& d.at(gate.slots()[0]) == Some(x.gate)
            &&& up == PartsModel::Split(seq![Slot::SharedUp(il)])
            &&& d.at(up.slots()[0]) == Some(x.up)
            &&& down == PartsModel::Split(seq![Slot::SharedDown(il)])
            &&& d.at(down.slots()[0]) == Some(x.down)
        },
{
    a_slot_is_the_matrix_it_is_named_after(d, il);
    assert(seq![Slot::Q(il)] + seq![Slot::K(il)] + seq![Slot::V(il)] =~= seq![
        Slot::Q(il),
        Slot::K(il),
        Slot::V(il),
    ]);
    assert(seq![Slot::Up(il)] + seq![Slot::Gate(il)] =~= seq![Slot::Up(il), Slot::Gate(il)]);
    assert(seq![Slot::Gate(il)] + seq![Slot::Up(il)] =~= seq![Slot::Gate(il), Slot::Up(il)]);
}

/// What a pair for one attention projection adds: its `lora_b` times its
/// `lora_a`, both as they are in the adapter, on the matrix of the layer
/// whose tensor it names, and on no other.
pub proof fn a_pair_adds_to_the_matrix_it_names(
    d: Decoder,
    base: GgufFile,
    path: Seq<char>,
    named: NamedPair,
    alpha: u32,
    adapter: usize,
    n: usize,
    stem: Seq<char>,
)
    requires
        named.name@ == "blk."@ + decimal(n as nat) + "."@ + (stem + ".weight"@),
        stem == "attn_q"@ || stem == "attn_k"@ || stem == "attn_v"@ || stem == "attn_output"@,
        named.pair.a@.complete(),
        named.pair.b@.complete(),
        attach_pair_fault(d, base, path, named) is None,
    ensures
        n < d.layers@.len(),
        ({
            let added = pair_deltas(d, base, named, alpha, adapter);
            let m = if stem == "attn_q"@ {
                d.layers@[n as int].q_proj
            } else if stem == "attn_k"@ {
                d.layers@[n as int].k_proj
            } else if stem == "attn_v"@ {
                d.layers@[n as int].v_proj
            } else {
                d.layers@[n as int].o_proj
            };
            &&& added.len() == 1
            &&& d.at(added[0].0) == Some(m)
            &&& stem == "attn_q"@ ==> added[0].0 == Slot::Q(n)
            &&& stem == "attn_k"@ ==> added[0].0 == Slot::K(n)
            &&& stem == "attn_v"@ ==> added[0].0 == Slot::V(n)
            &&& stem == "attn_output"@ ==> added[0].0 == Slot::O(n)
            &&& added[0].1 == (DeltaModel {
                a: named.pair.a@.data,
                b: named.pair.b@.data,
                rank: named.pair.a@.rows,
                rows: m.n_rows(),
                cols: m.n_cols(),
                alpha,
                adapter,
            })
            &&& m.n_rows() == named.pair.b@.rows
            &&& m.n_cols() == named.pair.a@.cols
        }),
{
    a_block_name_is_its_projection(n, stem);
    reveal_strlit("attn_q");
    reveal_strlit("attn_k");
    reveal_strlit("attn_v");
    reveal_strlit("attn_output");
    assert("attn_k"@[5] != "attn_q"@[5]);
    assert("attn_v"@[5] != "attn_q"@[5]);
    assert("attn_v"@[5] != "attn_k"@[5]);
    let (rows, cols) = base_shape(base, named.name@);
    let t = target(named.name@);
    assert(t is Layer);
    a_target_has_its_own_matrix(d, n, rows);
    let slots = parts_of(d, t, rows).slots();
    let whole = checked(named.pair, false);
    assert(rows_of(d, slots, 0) == 0);
    assert(rows_of(d, slots, 1) == rows_of(d, slots, 0) + d.at(slots[0])->0.n_rows());
    assert(d.at(slots[0])->0.n_cols() == cols);
    checked_is_complete(path, named.name@, named.pair, false, rows, cols);
    assert(0 * whole.rank == 0);
    assert(block_of_b(d, slots, whole, 0) =~= whole.b);
}

fn total_rows(d: &Decoder, slots: &Vec<Slot>) -> (n: u128)
    requires
        slots@.len() <= 3,
        forall|k: int| 0 <= k < slots@.len() ==> d.at(#[trigger] slots@[k]) is Some,
    ensures
        n == rows_of(*d, slots@, slots@.len() as int),
{
    let mut n: u128 = 0;
    let mut k: usize = 0;
    while k < slots.len()
        invariant
            k <= slots@.len() <= 3,
            forall|j: int| 0 <= j < slots@.len() ==> d.at(#[trigger] slots@[j]) is Some,
            n == rows_of(*d, slots@, k as int),
            n <= k * (u64::MAX as u128),
        decreases slots@.len() - k,
    {
        match d.matrix(slots[k]) {
            Some(m) => {
                n = n + m.rows() as u128;
            },
            None => {},
        }
        k += 1;
    }
    n
}

/// The deltas of one pair: what stands between a pair and the matrices
/// that hold its base tensor.
fn plan_pair(
    d: &Decoder,
    base: &GgufFile,
    path: &str,
    named: &NamedPair,
    alpha: u32,
    adapter: usize,
) -> (r: Result<Vec<AttachedDelta>, LoraError>)
    requires
        named.pair.a@.complete(),
        named.pair.b@.complete(),
    ensures
        match attach_pair_fault(*d, *base, path@, *named) {
            Some(fault) => r is Err && r->Err_0@ == fault,
            None => r is Ok && delta_views(r->Ok_0@) == pair_deltas(
                *d,
                *base,
                *named,
                alpha,
                adapter,
            ),
        },
{
    let name = named.name.as_str();
    let info = match base.find_tensor(name) {
        Some(info) => info,
        None => {
            return Err(
                LoraError::NotInBase { path: String::from_str(path), name: String::from_str(name) },
            );
        },
    };
    let t = target_of(name, path)?;
    if matches!(t, Target::Embedding) && !base.has_tensor("output.weight") {
        return Err(LoraError::TiedHead { path: String::from_str(path) });
    }
    if info.shape.len() != 2 {
        return Err(no_projection(path, name));
    }
    let rows: usize = info.shape[1] as usize;
    let cols: usize = info.shape[0] as usize;
    let whole = checked_pair(path, name, &named.pair, t, rows, cols)?;
    let parts = d.parts(t, path, name, rows)?;
    let ghost model = parts@;
    proof {
        parts_are_there(*d, t, path@, name@, rows);
        checked_is_complete(path@, name@, named.pair, t is Embedding, rows, cols);
    }
    let mut deltas: Vec<AttachedDelta> = Vec::new();
    match parts {
        Parts::Split(slots) => {
            assert(model.slots() == slots@);
            let mut k: usize = 0;
            let mut narrow = true;
            while k < slots.len()
                invariant
                    k <= slots@.len(),
                    forall|j: int| 0 <= j < slots@.len() ==> d.at(#[trigger] slots@[j]) is Some,
                    narrow == (forall|j: int|
                        0 <= j < k ==> d.at(#[trigger] slots@[j])->0.n_cols() == cols),
                decreases slots@.len() - k,
            {
                match d.matrix(slots[k]) {
                    Some(m) => {
                        if m.cols() != cols {
                            narrow = false;
                        }
                    },
                    None => {},
                }
                k += 1;
            }
            if total_rows(d, &slots) != rows as u128 || !narrow {
                return Err(shape_error(path, name, &named.pair, rows, cols));
            }
            let mut row0: usize = 0;
            k = 0;
            while k < slots.len()
                invariant
                    k <= slots@.len(),
                    model == PartsModel::Split(slots@),
                    rows_of(*d, slots@, slots@.len() as int) == rows,
                    whole@.b.len() == rows * whole.rank,
                    row0 == rows_of(*d, slots@, k as int),
                    forall|j: int| 0 <= j < slots@.len() ==> d.at(#[trigger] slots@[j]) is Some,
                    forall|j: int|
                        0 <= j < slots@.len() ==> d.at(#[trigger] slots@[j])->0.n_cols() == cols,
                    deltas@.len() == k,
                    forall|j: int|
                        0 <= j < k ==> (#[trigger] deltas@[j]).slot == slots@[j]
                            && deltas@[j].delta@ == part_delta(
                            *d,
                            model,
                            whole@,
                            alpha,
                            adapter,
                            j,
                        ).1,
                decreases slots@.len() - k,
            {
                match d.matrix(slots[k]) {
                    Some(m) => {
                        let n = m.rows();
                        proof {
                            block_bounds(*d, slots@, whole@, rows, k as int);
                            rows_grow(*d, slots@, k + 1, slots@.len() as int);
                        }
                        assert(whole.b@.len() == whole.b.len());
                        let from = row0 * whole.rank;
                        let to = (row0 + n) * whole.rank;
                        let b = slice_to_vec(slice_subrange(whole.b.as_slice(), from, to));
                        deltas.push(
                            AttachedDelta {
                                slot: slots[k],
                                delta: LoraDelta {
                                    a: copied(&whole.a),
                                    b,
                                    rank: whole.rank,
                                    rows: n,
                                    cols,
                                    alpha,
                                    adapter,
                                },
                            },
                        );
                        row0 = row0 + n;
                    },
                    None => {},
                }
                k += 1;
            }
        },
        Parts::Alias(slots) => {
            let mut k: usize = 0;
            while k < slots.len()
                invariant
                    k <= slots@.len(),
                    model == PartsModel::Alias(slots@),
                    forall|j: int| 0 <= j < slots@.len() ==> d.at(#[trigger] slots@[j]) is Some,
                    forall|j: int|
                        0 <= j < k ==> d.at(#[trigger] slots@[j])->0.n_rows() == rows && d.at(
                            slots@[j],
                        )->0.n_cols() == cols,
                    base.has(name@),
                    name@ == named.name@,
                    target_fault(path@, name@) is None,
                    t == target(name@),
                    !(t is Embedding && !base.has("output.weight"@)),
                    base.tensor(name@)->0.shape@.len() == 2,
                    (rows, cols) == base_shape(*base, name@),
                    pair_fault(path@, name@, named.pair, t is Embedding, rows, cols) is None,
                    slots_fault(*d, t, path@, name@) is None,
                    model == parts_of(*d, t, rows),
                    deltas@.len() == k,
                    forall|j: int|
                        0 <= j < k ==> (#[trigger] deltas@[j]).slot == slots@[j]
                            && deltas@[j].delta@ == part_delta(
                            *d,
                            model,
                            whole@,
                            alpha,
                            adapter,
                            j,
                        ).1,
                decreases slots@.len() - k,
            {
                match d.matrix(slots[k]) {
                    Some(m) => {
                        if m.rows() != rows || m.cols() != cols {
                            assert(!parts_fit(*d, model, rows, cols)) by {
                                assert(d.at(slots@[k as int])->0 == *m);
                            }
                            return Err(shape_error(path, name, &named.pair, rows, cols));
                        }
                        deltas.push(
                            AttachedDelta {
                                slot: slots[k],
                                delta: LoraDelta {
                                    a: copied(&whole.a),
                                    b: copied(&whole.b),
                                    rank: whole.rank,
                                    rows,
                                    cols,
                                    alpha,
                                    adapter,
                                },
                            },
                        );
                    },
                    None => {},
                }
                k += 1;
            }
        },
    }
    assert(delta_views(deltas@) =~= pair_deltas(*d, *base, *named, alpha, adapter));
    Ok(deltas)
}

proof fn pair_deltas_fit(
    d: Decoder,
    base: GgufFile,
    path: Seq<char>,
    named: NamedPair,
    alpha: u32,
    adapter: usize,
)
    requires
        named.pair.a@.complete(),
        named.pair.b@.complete(),
        attach_pair_fault(d, base, path, named) is None,
    ensures
        forall|k: int|
            0 <= k < pair_deltas(d, base, named, alpha, adapter).len() ==> delta_fits(
                d,
                (adapter + 1) as nat,
                (#[trigger] pair_deltas(d, base, named, alpha, adapter)[k]).0,
                pair_deltas(d, base, named, alpha, adapter)[k].1,
            ),
{
    let name = named.name@;
    let t = target(name);
    let (rows, cols) = base_shape(base, name);
    let parts = parts_of(d, t, rows);
    let whole = checked(named.pair, t is Embedding);
    parts_are_there(d, t, path, name, rows);
    checked_is_complete(path, name, named.pair, t is Embedding, rows, cols);
    assert forall|k: int| 0 <= k < parts.slots().len() implies delta_fits(
        d,
        (adapter + 1) as nat,
        (#[trigger] pair_deltas(d, base, named, alpha, adapter)[k]).0,
        pair_deltas(d, base, named, alpha, adapter)[k].1,
    ) by {
        let slot = parts.slots()[k];
        assert(d.at(slot) is Some);
        match parts {
            PartsModel::Split(slots) => {
                block_bounds(d, slots, whole, rows, k);
                assert(slots[k] == slot);
            },
            PartsModel::Alias(slots) => {
                assert(slots[k] == slot);
            },
        }
    }
}

proof fn walk_deltas_fit(
    d: Decoder,
    base: GgufFile,
    path: Seq<char>,
    pairs: Seq<NamedPair>,
    alpha: u32,
    adapter: usize,
    n: int,
)
    requires
        0 <= n <= pairs.len(),
        forall|i: int|
            0 <= i < pairs.len() ==> (#[trigger] pairs[i]).pair.a@.complete()
                && pairs[i].pair.b@.complete(),
        walk_fault(d, base, path, pairs, n) is None,
    ensures
        forall|k: int|
            0 <= k < walk_deltas(d, base, pairs, alpha, adapter, n).len() ==> delta_fits(
                d,
                (adapter + 1) as nat,
                (#[trigger] walk_deltas(d, base, pairs, alpha, adapter, n)[k]).0,
                walk_deltas(d, base, pairs, alpha, adapter, n)[k].1,
            ),
    decreases n,
{
    if n > 0 {
        walk_deltas_fit(d, base, path, pairs, alpha, adapter, n - 1);
        pair_deltas_fit(d, base, path, pairs[n - 1], alpha, adapter);
        let head = walk_deltas(d, base, pairs, alpha, adapter, n - 1);
        let tail = pair_deltas(d, base, pairs[n - 1], alpha, adapter);
        let all = walk_deltas(d, base, pairs, alpha, adapter, n);
        assert forall|k: int| 0 <= k < all.len() implies delta_fits(
            d,
            (adapter + 1) as nat,
            (#[trigger] all[k]).0,
            all[k].1,
        ) by {
            if k < head.len() {
                assert(all[k] == head[k]);
            } else {
                assert(all[k] == tail[k - head.len()]);
            }
        }
    }
}

fn append_deltas(to: &mut Vec<AttachedDelta>, from: Vec<AttachedDelta>)
    ensures
        final(to)@ == old(to)@ + from@,
{
    let mut from = from;
    to.append(&mut from);
}

/// The first id of `scales` that is none of `n` adapters.
pub open spec fn first_unknown(scales: Seq<(usize, u32)>, n: nat) -> Option<usize>
    decreases scales.len(),
{
    if scales.len() == 0 {
        None
    } else if scales[0].0 >= n {
        Some(scales[0].0)
    } else {
        first_unknown(scales.skip(1), n)
    }
}

/// The scale that a list gives an adapter: the last one listed for it,
/// and zero where none is.
pub open spec fn listed_scale(scales: Seq<(usize, u32)>, id: int) -> u32
    decreases scales.len(),
{
    if scales.len() == 0 {
        0
    } else if scales.last().0 == id {
        scales.last().1
    } else {
        listed_scale(scales.drop_last(), id)
    }
}

/// What the refusal of an unknown adapter says.
pub open spec fn unknown_adapter_chars(id: usize, n: nat) -> Seq<char> {
    "lora adapter id "@ + decimal(id as nat) + " is out of range: "@ + decimal(n)
        + " adapter(s) loaded"@
}

/// The scales of attached adapters.
pub open spec fn scales_of(adapters: Seq<LoraAttached>) -> Seq<u32> {
    Seq::new(adapters.len(), |i: int| adapters[i].scale)
}

fn scale_listed(scales: &[(usize, u32)], id: usize) -> (s: u32)
    ensures
        s == listed_scale(scales@, id as int),
{
    let mut i: usize = scales.len();
    assert(scales@.take(scales@.len() as int) =~= scales@);
    while i > 0
        invariant
            i <= scales@.len(),
            listed_scale(scales@, id as int) == listed_scale(scales@.take(i as int), id as int),
        decreases i,
    {
        i -= 1;
        assert(scales@.take(i + 1).drop_last() =~= scales@.take(i as int));
        if scales[i].0 == id {
            return scales[i].1;
        }
    }
    0
}

impl Decoder {
    /// Whether any adapter is attached.
    pub fn lora_attached(&self) -> (yes: bool)
        ensures
            yes == (self.lora_adapters@.len() > 0),
    {
        self.lora_adapters.len() > 0
    }

    /// Attaches an adapter at a scale and gives its id: its place in
    /// [`Decoder::lora_adapters`]. The architecture, and every tensor's
    /// presence and shape, are checked against the base model's file. On
    /// an error nothing is attached.
    pub fn attach_lora(&mut self, base: &GgufFile, adapter: LoraAdapter, scale: u32) -> (r: Result<
        usize,
        LoraError,
    >)
        requires
            adapter.complete(),
        ensures
            final(self).same_matrices(*old(self)),
            old(self).well_formed() ==> final(self).well_formed(),
            match attach_fault(*old(self), *base, adapter) {
                Some(fault) => {
                    &&& r is Err
                    &&& r->Err_0@ == fault
                    &&& *final(self) == *old(self)
                },
                None => {
                    &&& r is Ok
                    &&& r->Ok_0 == old(self).lora_adapters@.len()
                    &&& final(self).lora_adapters@.len() == old(self).lora_adapters@.len() + 1
                    &&& final(self).lora_adapters@.drop_last() == old(self).lora_adapters@
                    &&& attached_is(adapter, scale, final(self).lora_adapters@.last())
                    &&& delta_views(final(self).lora_deltas@) == delta_views(
                        old(self).lora_deltas@,
                    ) + walk_deltas(
                        *old(self),
                        *base,
                        adapter.pairs@,
                        adapter.alpha,
                        r->Ok_0,
                        adapter.pairs@.len() as int,
                    )
                },
            },
    {
        let ghost d = *self;
        let path = adapter.path.as_str();
        let base_arch = match base.metadata_str(ARCH_KEY) {
            Some(arch) => arch,
            None => {
                proof {
                    reveal_strlit("");
                    assert(""@ =~= Seq::<char>::empty());
                }
                ""
            },
        };
        if !str_eq(adapter.arch.as_str(), base_arch) {
            return Err(
                LoraError::ArchMismatch {
                    path: String::from_str(path),
                    adapter: String::from_str(adapter.arch.as_str()),
                    base: String::from_str(base_arch),
                },
            );
        }
        let id = self.lora_adapters.len();
        let n_tensors = adapter.pairs.len();
        let mut deltas: Vec<AttachedDelta> = Vec::new();
        let mut i: usize = 0;
        assert(delta_views(deltas@) =~= seq![]);
        while i < n_tensors
            invariant
                *self == d,
                i <= n_tensors,
                n_tensors == adapter.pairs@.len(),
                adapter.complete(),
                path@ == adapter.path@,
                walk_fault(d, *base, path@, adapter.pairs@, i as int) is None,
                delta_views(deltas@) == walk_deltas(
                    d,
                    *base,
                    adapter.pairs@,
                    adapter.alpha,
                    id,
                    i as int,
                ),
                attach_fault(d, *base, adapter) == walk_fault(
                    d,
                    *base,
                    path@,
                    adapter.pairs@,
                    n_tensors as int,
                ),
            decreases n_tensors - i,
        {
            let ghost before_pair = deltas@;
            proof {
                if attach_pair_fault(d, *base, path@, adapter.pairs@[i as int]) is Some {
                    walk_fault_stays(d, *base, path@, adapter.pairs@, i + 1, n_tensors as int);
                }
            }
            let more = plan_pair(self, base, path, &adapter.pairs[i], adapter.alpha, id)?;
            let ghost added = more@;
            append_deltas(&mut deltas, more);
            proof {
                assert(delta_views(deltas@) =~= delta_views(before_pair) + delta_views(added));
            }
            i += 1;
        }
        let ghost planned = deltas@;
        append_deltas(&mut self.lora_deltas, deltas);
        self.lora_adapters.push(
            LoraAttached {
                path: String::from_str(path),
                alpha: adapter.alpha,
                task_name: String::from_str(adapter.task_name.as_str()),
                prompt_prefix: String::from_str(adapter.prompt_prefix.as_str()),
                scale,
                n_tensors,
            },
        );
        proof {
            assert(delta_views(self.lora_deltas@) =~= delta_views(d.lora_deltas@) + delta_views(
                planned,
            ));
            assert(self.lora_adapters@.drop_last() =~= d.lora_adapters@);
            walk_deltas_fit(
                d,
                *base,
                path@,
                adapter.pairs@,
                adapter.alpha,
                id,
                n_tensors as int,
            );
            if d.well_formed() {
                let now = *self;
                assert(forall|slot: Slot| now.at(slot) == d.at(slot));
                assert forall|k: int| 0 <= k < now.lora_deltas@.len() implies delta_fits(
                    now,
                    now.lora_adapters@.len(),
                    (#[trigger] now.lora_deltas@[k]).slot,
                    now.lora_deltas@[k].delta@,
                ) by {
                    let m = d.lora_deltas@.len();
                    if k < m {
                        assert(now.lora_deltas@[k] == d.lora_deltas@[k]);
                    } else {
                        assert(now.lora_deltas@[k] == planned[k - m]);
                        assert(delta_views(planned)[k - m] == (
                            planned[k - m].slot,
                            planned[k - m].delta@,
                        ));
                    }
                }
            }
        }
        Ok(id)
    }

    /// Sets every adapter's scale from a list of ids and scales; an
    /// adapter that is not listed goes to zero, and of two scales for one
    /// adapter the last counts. An unknown id is an error, and no scale
    /// changes.
    pub fn set_lora_scales(&mut self, scales: &[(usize, u32)]) -> (r: Result<(), String>)
        ensures
            final(self).same_matrices(*old(self)),
            final(self).lora_deltas == old(self).lora_deltas,
            old(self).well_formed() ==> final(self).well_formed(),
            match first_unknown(scales@, old(self).lora_adapters@.len()) {
                Some(id) => {
                    &&& r is Err
                    &&& r->Err_0@ == unknown_adapter_chars(id, old(self).lora_adapters@.len())
                    &&& *final(self) == *old(self)
                },
                None => {
                    &&& r is Ok
                    &&& final(self).lora_adapters@.len() == old(self).lora_adapters@.len()
                    &&& forall|i: int|
                        0 <= i < final(self).lora_adapters@.len() ==> (
                        #[trigger] final(self).lora_adapters@[i]) == (LoraAttached {
                            scale: listed_scale(scales@, i),
                            ..old(self).lora_adapters@[i]
                        })
                },
            },
    {
        let ghost d = *self;
        let n = self.lora_adapters.len();
        let mut i: usize = 0;
        assert(scales@.skip(0) =~= scales@);
        while i < scales.len()
            invariant
                *self == d,
                n == d.lora_adapters@.len(),
                i <= scales@.len(),
                first_unknown(scales@, n as nat) == first_unknown(scales@.skip(i as int), n as nat),
            decreases scales@.len() - i,
        {
            assert(scales@.skip(i as int).skip(1) =~= scales@.skip(i + 1));
            if scales[i].0 >= n {
                return Err(
                    String::from_str("lora adapter id ").concat(
                        decimal_text(scales[i].0 as u64).as_str(),
                    ).concat(" is out of range: ").concat(decimal_text(n as u64).as_str()).concat(
                        " adapter(s) loaded",
                    ),
                );
            }
            i += 1;
        }
        i = 0;
        while i < n
            invariant
                i <= n,
                n == d.lora_adapters@.len(),
                self.same_matrices(d),
                self.lora_deltas == d.lora_deltas,
                self.lora_adapters@.len() == n,
                forall|j: int|
                    0 <= j < i ==> (#[trigger] self.lora_adapters@[j]) == (LoraAttached {
                        scale: listed_scale(scales@, j),
                        ..d.lora_adapters@[j]
                    }),
                forall|j: int|
                    i <= j < n ==> (#[trigger] self.lora_adapters@[j]) == d.lora_adapters@[j],
            decreases n - i,
        {
            self.lora_adapters[i].scale = scale_listed(scales, i);
            i += 1;
        }
        proof {
            let now = *self;
            assert(forall|slot: Slot| now.at(slot) == d.at(slot));
        }
        Ok(())
    }

    /// The current scale of every adapter, by id.
    pub fn lora_scales(&self) -> (scales: Vec<u32>)
        ensures
            scales@ == scales_of(self.lora_adapters@),
    {
        let mut out: Vec<u32> = Vec::new();
        let mut i: usize = 0;
        while i < self.lora_adapters.len()
            invariant
                i <= self.lora_adapters@.len(),
                out@ == scales_of(self.lora_adapters@).take(i as int),
            decreases self.lora_adapters@.len() - i,
        {
            out.push(self.lora_adapters[i].scale());
            i += 1;
            assert(out@ =~= scales_of(self.lora_adapters@).take(i as int));
        }
        assert(out@ =~= scales_of(self.lora_adapters@));
        out
    }
}

/// A scale list is refused exactly where it names an adapter that there
/// is not.
pub proof fn known_ids_are_accepted(scales: Seq<(usize, u32)>, n: nat)
    ensures
        first_unknown(scales, n) is None <==> forall|i: int|
            0 <= i < scales.len() ==> (#[trigger] scales[i]).0 < n,
    decreases scales.len(),
{
    if scales.len() > 0 {
        let rest = scales.skip(1);
        known_ids_are_accepted(rest, n);
        if scales[0].0 < n {
            assert forall|i: int| 0 <= i < rest.len() implies #[trigger] rest[i] == scales[i + 1] by {
            }
            if first_unknown(rest, n) is None {
                assert forall|i: int| 0 <= i < scales.len() implies (#[trigger] scales[i]).0 < n by {
                    if i > 0 {
                        assert(rest[i - 1] == scales[i]);
                    }
                }
            }
        }
    }
}

/// Of the scales listed for one adapter the last counts.
pub proof fn last_listed_scale_counts(scales: Seq<(usize, u32)>, k: int)
    requires
        0 <= k < scales.len(),
        forall|j: int| k < j < scales.len() ==> (#[trigger] scales[j]).0 != scales[k].0,
    ensures
        listed_scale(scales, scales[k].0 as int) == scales[k].1,
    decreases scales.len(),
{
    if k < scales.len() - 1 {
        last_listed_scale_counts(scales.drop_last(), k);
    }
}

/// An adapter that is not listed goes to zero.
pub proof fn unlisted_adapters_go_to_zero(scales: Seq<(usize, u32)>, id: int)
    requires
        forall|j: int| 0 <= j < scales.len() ==> (#[trigger] scales[j]).0 != id,
    ensures
        listed_scale(scales, id) == 0,
    decreases scales.len(),
{
    if scales.len() > 0 {
        unlisted_adapters_go_to_zero(scales.drop_last(), id);
    }
}

/// One adapter asked for, before its file is opened.
#[derive(Debug)]
pub struct LoraSpec {
    pub path: String,
    /// A bit pattern.
    pub scale: u32,
}

/// The model of a [`LoraSpec`].
pub struct SpecModel {
    pub path: Seq<char>,
    pub scale: u32,
}

impl View for LoraSpec {
    type V = SpecModel;

    open spec fn view(&self) -> SpecModel {
        SpecModel { path: self.path@, scale: self.scale }
    }
}

/// The models of adapters asked for.
pub open spec fn spec_views(specs: Seq<LoraSpec>) -> Seq<SpecModel> {
    Seq::new(specs.len(), |i: int| specs[i]@)
}

/// What the refusal of a scaled adapter says, after the form.
pub const SAID_SCALED: &'static str = "lora-scaled format: FNAME:SCALE (";

/// The place of the colon that parts path and scale: the last one.
pub open spec fn scale_colon(spec: Seq<char>) -> Option<int> {
    last_place(spec, ':', spec.len() as int)
}

/// The text of the scale in `FNAME:SCALE`, as far as it is one.
pub open spec fn scale_chars(spec: Seq<char>) -> Option<Seq<char>> {
    match scale_colon(spec) {
        Some(at) => Some(spec.skip(at + 1)),
        None => None,
    }
}

/// What reading `FNAME:SCALE` gives, where reading the scale's text,
/// without the white space round it, as a number gives `number`.
pub open spec fn scaled_spec(spec: Seq<char>, number: Option<u32>) -> Result<SpecModel, Seq<char>> {
    match scale_colon(spec) {
        None => Err(SAID_SCALED@ + "got "@ + quoted_chars(spec) + ")"@),
        Some(at) => match number {
            None => Err(SAID_SCALED@ + quoted_chars(spec.skip(at + 1)) + " is not a number)"@),
            Some(scale) => if at == 0 {
                Err(SAID_SCALED@ + "got "@ + quoted_chars(spec) + ")"@)
            } else {
                Ok(SpecModel { path: spec.take(at), scale })
            },
        },
    }
}

/// The items of comma-separated values, without the white space round
/// them and without the empty ones.
pub open spec fn items_of(values: Seq<Seq<char>>) -> Seq<Seq<char>>
    decreases values.len(),
{
    if values.len() == 0 {
        seq![]
    } else {
        items_of(values.drop_last()) + kept(split_on(values.last(), ','))
    }
}

/// The pieces that are not empty once trimmed, trimmed.
pub open spec fn kept(pieces: Seq<Seq<char>>) -> Seq<Seq<char>>
    decreases pieces.len(),
{
    if pieces.len() == 0 {
        seq![]
    } else {
        let head = kept(pieces.drop_last());
        if trimmed(pieces.last()).len() == 0 {
            head
        } else {
            head.push(trimmed(pieces.last()))
        }
    }
}

/// The characters of each of `values`.
pub open spec fn value_views(values: Seq<String>) -> Seq<Seq<char>> {
    Seq::new(values.len(), |i: int| values[i]@)
}

/// The adapters of plain items, each at scale one.
pub open spec fn plain_specs(items: Seq<Seq<char>>) -> Seq<SpecModel> {
    Seq::new(items.len(), |i: int| SpecModel { path: items[i], scale: ONE_BITS })
}

/// The adapters of the first `n` scaled items, or the first refusal.
pub open spec fn scaled_specs(items: Seq<Seq<char>>, numbers: Seq<Option<u32>>, n: int) -> Result<
    Seq<SpecModel>,
    Seq<char>,
>
    decreases n,
{
    if n <= 0 {
        Ok(seq![])
    } else {
        match scaled_specs(items, numbers, n - 1) {
            Err(said) => Err(said),
            Ok(specs) => match scaled_spec(items[n - 1], numbers[n - 1]) {
                Err(said) => Err(said),
                Ok(spec) => Ok(specs.push(spec)),
            },
        }
    }
}

proof fn scaled_refusal_stays(items: Seq<Seq<char>>, numbers: Seq<Option<u32>>, k: int, n: int)
    requires
        k <= n,
        scaled_specs(items, numbers, k) is Err,
    ensures
        scaled_specs(items, numbers, n) == scaled_specs(items, numbers, k),
    decreases n - k,
{
    if k < n {
        scaled_refusal_stays(items, numbers, k, n - 1);
    }
}

/// The items of comma-separated values, without the white space round
/// them and without the empty ones.
pub fn flag_items(values: &[String]) -> (items: Vec<&str>)
    ensures
        part_views(items@) == items_of(value_views(values@)),
{
    let mut items: Vec<&str> = Vec::new();
    let mut i: usize = 0;
    assert(part_views(items@) =~= seq![]);
    assert(value_views(values@).take(0) =~= seq![]);
    while i < values.len()
        invariant
            i <= values@.len(),
            part_views(items@) == items_of(value_views(values@).take(i as int)),
        decreases values@.len() - i,
    {
        let pieces = split(values[i].as_str(), ',');
        let ghost views = part_views(pieces@);
        let ghost before_value = part_views(items@);
        let mut k: usize = 0;
        assert(kept(views.take(0)) =~= seq![]) by {
            assert(views.take(0) =~= seq![]);
        }
        while k < pieces.len()
            invariant
                k <= pieces@.len(),
                views == part_views(pieces@),
                part_views(items@) == before_value + kept(views.take(k as int)),
            decreases pieces@.len() - k,
        {
            let item = trim(pieces[k]);
            let ghost was = items@;
            assert(views.take(k + 1).drop_last() =~= views.take(k as int));
            assert(views.take(k + 1).last() == pieces@[k as int]@);
            if chars_len(item) > 0 {
                items.push(item);
                assert(part_views(items@) =~= part_views(was).push(item@));
            }
            assert(part_views(items@) =~= before_value + kept(views.take(k + 1)));
            k += 1;
        }
        proof {
            assert(views.take(views.len() as int) =~= views);
            let taken = value_views(values@).take(i + 1);
            assert(taken.drop_last() =~= value_views(values@).take(i as int));
            assert(taken.last() == values@[i as int]@);
        }
        i += 1;
    }
    assert(value_views(values@).take(values@.len() as int) =~= value_views(values@));
    items
}

fn chars_len(s: &str) -> (n: usize)
    ensures
        n == s@.len(),
{
    s.unicode_len()
}

impl LoraSpec {
    /// An adapter at scale one.
    pub fn plain(path: &str) -> (spec: Self)
        ensures
            spec@ == (SpecModel { path: path@, scale: ONE_BITS }),
    {
        LoraSpec { path: String::from_str(path), scale: ONE_BITS }
    }

    /// The text of the scale in `FNAME:SCALE`: what stands behind the
    /// last colon.
    pub fn scale_text(spec: &str) -> (text: Option<&str>)
        ensures
            match scale_chars(spec@) {
                Some(chars) => text is Some && text->0@ == chars,
                None => text is None,
            },
    {
        match rsplit_once(spec, ':') {
            Some((_, text)) => Some(text),
            None => None,
        }
    }

    /// Reads `FNAME:SCALE`. The last colon splits, so that a path may
    /// hold colons. `number` is what the scale's text, without the white
    /// space round it, reads as: the bit pattern of a number, or nothing.
    pub fn parse_scaled(spec: &str, number: Option<u32>) -> (r: Result<Self, String>)
        ensures
            match scaled_spec(spec@, number) {
                Ok(model) => r is Ok && r->Ok_0@ == model,
                Err(said) => r is Err && r->Err_0@ == said,
            },
    {
        let (path, text) = match rsplit_once(spec, ':') {
            Some(parts) => parts,
            None => {
                return Err(
                    String::from_str(SAID_SCALED).concat("got ").concat(
                        quoted_text(spec).as_str(),
                    ).concat(")"),
                );
            },
        };
        let scale: u32 = match number {
            Some(scale) => scale,
            None => {
                return Err(
                    String::from_str(SAID_SCALED).concat(quoted_text(text).as_str()).concat(
                        " is not a number)",
                    ),
                );
            },
        };
        proof {
            last_place_is_in(spec@, ':', spec@.len() as int);
        }
        if chars_len(path) == 0 {
            return Err(
                String::from_str(SAID_SCALED).concat("got ").concat(
                    quoted_text(spec).as_str(),
                ).concat(")"),
            );
        }
        Ok(LoraSpec { path: String::from_str(path), scale })
    }

    /// The two flags as one list, in the order given: every plain value,
    /// then every scaled one. `numbers` holds, for each of the items of
    /// `scaled`, what its scale reads as.
    pub fn from_flags(plain: &[String], scaled: &[String], numbers: &[Option<u32>]) -> (r: Result<
        Vec<Self>,
        String,
    >)
        requires
            numbers@.len() == items_of(value_views(scaled@)).len(),
        ensures
            match scaled_specs(items_of(value_views(scaled@)), numbers@, numbers@.len() as int) {
                Err(said) => r is Err && r->Err_0@ == said,
                Ok(specs) => r is Ok && spec_views(r->Ok_0@) == plain_specs(
                    items_of(value_views(plain@)),
                ) + specs,
            },
    {
        let mut out: Vec<LoraSpec> = Vec::new();
        let items = flag_items(plain);
        let ghost plain_items = items_of(value_views(plain@));
        let mut i: usize = 0;
        assert(part_views(items@).len() == items@.len());
        while i < items.len()
            invariant
                i <= items@.len(),
                part_views(items@) == plain_items,
                items@.len() == plain_items.len(),
                spec_views(out@) == plain_specs(plain_items).take(i as int),
            decreases items@.len() - i,
        {
            let ghost was = out@;
            out.push(LoraSpec::plain(items[i]));
            assert(part_views(items@)[i as int] == items@[i as int]@);
            assert(spec_views(out@) =~= spec_views(was).push(plain_specs(plain_items)[i as int]));
            assert(spec_views(out@) =~= plain_specs(plain_items).take(i + 1));
            i += 1;
        }
        assert(spec_views(out@) =~= plain_specs(plain_items));
        let items = flag_items(scaled);
        let ghost all = items_of(value_views(scaled@));
        let ghost head = plain_specs(plain_items);
        let n = items.len();
        assert(part_views(items@).len() == items@.len());
        i = 0;
        assert(spec_views(out@) =~= head + scaled_specs(all, numbers@, 0)->Ok_0);
        while i < n
            invariant
                i <= n,
                n == items@.len(),
                n == numbers@.len(),
                part_views(items@) == all,
                all == items_of(value_views(scaled@)),
                scaled_specs(all, numbers@, i as int) is Ok,
                spec_views(out@) == head + scaled_specs(all, numbers@, i as int)->Ok_0,
            decreases n - i,
        {
            let ghost was = out@;
            assert(part_views(items@)[i as int] == items@[i as int]@);
            match LoraSpec::parse_scaled(items[i], numbers[i]) {
                Ok(spec) => {
                    out.push(spec);
                    assert(spec_views(out@) =~= spec_views(was).push(spec@));
                },
                Err(said) => {
                    proof {
                        scaled_refusal_stays(all, numbers@, i + 1, n as int);
                    }
                    return Err(said);
                },
            }
            i += 1;
        }
        Ok(out)
    }
}

proof fn last_place_is_in(s: Seq<char>, sep: char, n: int)
    ensures
        match last_place(s, sep, n) {
            Some(at) => 0 <= at < n && n <= s.len() && s[at] == sep,
            None => true,
        },
    decreases n,
{
    if 0 < n <= s.len() && s[n - 1] != sep {
        last_place_is_in(s, sep, n - 1);
    }
}

proof fn last_colon(s: Seq<char>, at: int, n: int)
    requires
        0 <= at < n <= s.len(),
        s[at] == ':',
        forall|i: int| at < i < n ==> #[trigger] s[i] != ':',
    ensures
        last_place(s, ':', n) == Some(at),
    decreases n,
{
    if n - 1 > at {
        last_colon(s, at, n - 1);
    }
}

/// A path and a scale are read back from `FNAME:SCALE`, whatever colons
/// the path holds.
pub proof fn a_path_may_hold_colons(path: Seq<char>, scale: Seq<char>, number: u32)
    requires
        path.len() > 0,
        !scale.contains(':'),
    ensures
        scale_chars(path + seq![':'] + scale) == Some(scale),
        scaled_spec(path + seq![':'] + scale, Some(number)) == Ok::<SpecModel, Seq<char>>(
            SpecModel { path, scale: number },
        ),
{
    let spec = path + seq![':'] + scale;
    let at = path.len() as int;
    assert forall|i: int| at < i < spec.len() implies #[trigger] spec[i] != ':' by {
        assert(spec[i] == scale[i - at - 1]);
    }
    last_colon(spec, at, spec.len() as int);
    assert(spec.take(at) =~= path);
    assert(spec.skip(at + 1) =~= scale);
}

/// Which pairs fit a base tensor. For a projection, `lora_a` is as wide as
/// the tensor, `lora_b` has a row for each of its rows, and the two have
/// one rank between them; for the embedding the two have changed places.
pub proof fn which_pairs_fit_a_base_tensor(
    path: Seq<char>,
    name: Seq<char>,
    pair: LoraPair,
    rows: usize,
    cols: usize,
)
    ensures
        pair_fault(path, name, pair, false, rows, cols) is None <==> pair.a@.cols == cols
            && pair.b@.rows == rows && pair.a@.rows == pair.b@.cols,
        pair_fault(path, name, pair, true, rows, cols) is None <==> pair.b@.rows == cols
            && pair.a@.rows == rows && pair.a@.cols == pair.b@.cols,
        (pair_fault(path, name, pair, false, rows, cols) matches Some(
            LoraFault::NotTransposed { .. },
        )) <==> pair.a@.cols == cols && pair.b@.rows == rows && pair.a@.rows != pair.b@.cols,
{
}

/// What a pair that fits is made of: a projection's two factors as they
/// are; the embedding's with `lora_a` in the place of `b`, and in the
/// place of `a` the transpose of `lora_b`, so that column `c` of its row
/// `k` is column `k` of row `c` of `lora_b`.
pub proof fn an_embeddings_pair_is_flipped(pair: LoraPair, k: int, c: int)
    requires
        0 <= k < pair.b@.cols,
        0 <= c < pair.b@.rows,
    ensures
        checked(pair, false).a == pair.a@.data,
        checked(pair, false).b == pair.b@.data,
        checked(pair, false).rank == pair.a@.rows,
        checked(pair, true).b == pair.a@.data,
        checked(pair, true).rank == pair.a@.cols,
        checked(pair, true).a.len() == pair.b@.rows * pair.b@.cols,
        checked(pair, true).a[k * pair.b@.rows + c] == pair.b@.data[c * pair.b@.cols + k],
{
    transpose_swaps(pair.b@.data, pair.b@.rows as int, pair.b@.cols as int, c, k);
}

/// A pair for a fused query, key and value tensor adds to the three
/// matrices: each has the whole `lora_a`, and of `lora_b` the query's
/// matrix the first rows, as many as it has, the key's the next and the
/// value's the last.
pub proof fn a_fused_pair_is_shared_out(
    d: Decoder,
    base: GgufFile,
    path: Seq<char>,
    named: NamedPair,
    alpha: u32,
    adapter: usize,
    n: usize,
)
    requires
        named.name@ == "blk."@ + decimal(n as nat) + "."@ + ("attn_qkv"@ + ".weight"@),
        named.pair.a@.complete(),
        named.pair.b@.complete(),
        attach_pair_fault(d, base, path, named) is None,
    ensures
        n < d.layers@.len(),
        ({
            let added = pair_deltas(d, base, named, alpha, adapter);
            let layer = d.layers@[n as int];
            let rank = named.pair.a@.rows;
            let q = layer.q_proj.n_rows();
            let k = layer.k_proj.n_rows();
            let v = layer.v_proj.n_rows();
            let b = named.pair.b@.data;
            &&& added.len() == 3
            &&& added[0].0 == Slot::Q(n) && added[1].0 == Slot::K(n) && added[2].0 == Slot::V(n)
            &&& forall|i: int|
                0 <= i < 3 ==> (#[trigger] added[i]).1.a == named.pair.a@.data && added[i].1.rank
                    == rank && added[i].1.alpha == alpha && added[i].1.adapter == adapter
                    && added[i].1.cols == named.pair.a@.cols
            &&& added[0].1.rows == q && added[1].1.rows == k && added[2].1.rows == v
            &&& q + k + v == named.pair.b@.rows
            &&& added[0].1.b == b.subrange(0, q * rank)
            &&& added[1].1.b == b.subrange(q * rank, (q + k) * rank)
            &&& added[2].1.b == b.subrange((q + k) * rank, (q + k + v) * rank)
        }),
{
    a_block_name_is_its_projection(n, "attn_qkv"@);
    let (rows, cols) = base_shape(base, named.name@);
    let t = target(named.name@);
    assert(t is Layer);
    a_target_has_its_own_matrix(d, n, rows);
    let slots = parts_of(d, t, rows).slots();
    assert(slots =~= seq![Slot::Q(n), Slot::K(n), Slot::V(n)]);
    reveal_with_fuel(rows_of, 4);
    assert(d.at(slots[0])->0.n_cols() == cols);
    assert(d.at(slots[1])->0.n_cols() == cols);
    assert(d.at(slots[2])->0.n_cols() == cols);
    let added = pair_deltas(d, base, named, alpha, adapter);
    assert forall|i: int| 0 <= i < 3 implies (#[trigger] added[i]).1.a == named.pair.a@.data
        && added[i].1.cols == named.pair.a@.cols by {
        assert(i == 0 || i == 1 || i == 2);
    }
    assert(0 * named.pair.a@.rows == 0);
}

/// Which pairs are refused before their sizes are looked at: one whose
/// tensor the base model does not have; one for routed experts; and one
/// for the embedding of a model without an output head of its own, whose
/// head it would change too.
pub proof fn which_pairs_are_refused_by_name(
    d: Decoder,
    base: GgufFile,
    path: Seq<char>,
    named: NamedPair,
    n: usize,
    stem: Seq<char>,
)
    ensures
        !base.has(named.name@) ==> attach_pair_fault(d, base, path, named) == Some(
            LoraFault::NotInBase { path, name: named.name@ },
        ),
        base.has(named.name@) && named.name@ == "token_embd.weight"@ && !base.has(
            "output.weight"@,
        ) ==> attach_pair_fault(d, base, path, named) == Some(LoraFault::TiedHead { path }),
        base.has(named.name@) && named.name@ == "blk."@ + decimal(n as nat) + "."@ + (stem
            + "_exps"@ + ".weight"@) ==> attach_pair_fault(d, base, path, named) == Some(
            LoraFault::RoutedExperts { path, name: named.name@ },
        ),
{
    let exps = stem + "_exps"@;
    let rest = exps + ".weight"@;
    let name = block_name(n as nat, rest);
    block_names_are_read_back(
        n,
        rest,
        TrunkLayers { block_count: 0, n_layers: 0, n_mtp_blocks: 0 },
    );
    assert(rest.take(rest.len() - ".weight"@.len()) =~= exps);
    assert(rest.subrange(rest.len() - ".weight"@.len(), rest.len() as int) =~= ".weight"@);
    assert(exps.subrange(exps.len() - "_exps"@.len(), exps.len() as int) =~= "_exps"@);
    reveal_strlit("blk.");
    reveal_strlit("token_embd.weight");
    reveal_strlit("output.weight");
    assert(name[0] == 'b');
    assert("token_embd.weight"@[0] == 't');
    assert("output.weight"@[0] == 'o');
}

/// An adapter is attached where it is of the base model's architecture
/// and every one of its pairs can be; otherwise the first that cannot is
/// reported.
pub proof fn which_adapters_are_attached(d: Decoder, base: GgufFile, adapter: LoraAdapter)
    ensures
        attach_fault(d, base, adapter) is None <==> {
            &&& match base.meta_str("general.architecture"@) {
                Some(arch) => adapter.arch@ == arch,
                None => adapter.arch@.len() == 0,
            }
            &&& forall|i: int|
                0 <= i < adapter.pairs@.len() ==> attach_pair_fault(
                    d,
                    base,
                    adapter.path@,
                    #[trigger] adapter.pairs@[i],
                ) is None
        },
{
    walk_reports_the_first(d, base, adapter.path@, adapter.pairs@, adapter.pairs@.len() as int);
    if adapter.arch@.len() == 0 {
        assert(adapter.arch@ =~= seq![]);
    }
}

/// Of several pairs the first that cannot be attached is reported.
pub proof fn walk_reports_the_first(
    d: Decoder,
    base: GgufFile,
    path: Seq<char>,
    pairs: Seq<NamedPair>,
    n: int,
)
    requires
        0 <= n <= pairs.len(),
    ensures
        walk_fault(d, base, path, pairs, n) is None <==> forall|i: int|
            0 <= i < n ==> attach_pair_fault(d, base, path, #[trigger] pairs[i]) is None,
        walk_fault(d, base, path, pairs, n) matches Some(fault) ==> exists|i: int|
            0 <= i < n && attach_pair_fault(d, base, path, #[trigger] pairs[i]) == Some(fault)
                && forall|j: int|
                0 <= j < i ==> attach_pair_fault(d, base, path, #[trigger] pairs[j]) is None,
    decreases n,
{
    if n > 0 {
        walk_reports_the_first(d, base, path, pairs, n - 1);
        let _ = pairs[n - 1];
        if walk_fault(d, base, path, pairs, n - 1) is None && walk_fault(d, base, path, pairs, n)
            is Some {
            assert(attach_pair_fault(d, base, path, pairs[n - 1]) == walk_fault(
                d,
                base,
                path,
                pairs,
                n,
            ));
        }
    }
}

/// Every pair of an adapter adds what it adds, one pair's deltas behind
/// another's, in the order of the pairs.
pub proof fn every_pair_adds_its_deltas(
    d: Decoder,
    base: GgufFile,
    pairs: Seq<NamedPair>,
    alpha: u32,
    adapter: usize,
    n: int,
)
    requires
        0 <= n <= pairs.len(),
    ensures
        walk_deltas(d, base, pairs, alpha, adapter, n) == Seq::new(
            n as nat,
            |i: int| pair_deltas(d, base, pairs[i], alpha, adapter),
        ).flatten(),
    decreases n,
{
    let each = Seq::new(n as nat, |i: int| pair_deltas(d, base, pairs[i], alpha, adapter));
    if n == 0 {
        assert(each =~= seq![]);
        assert(each.flatten() =~= seq![]);
    } else {
        every_pair_adds_its_deltas(d, base, pairs, alpha, adapter, n - 1);
        let fewer = Seq::new(
            (n - 1) as nat,
            |i: int| pair_deltas(d, base, pairs[i], alpha, adapter),
        );
        assert(each =~= fewer.push(pair_deltas(d, base, pairs[n - 1], alpha, adapter)));
        fewer.lemma_flatten_push(pair_deltas(d, base, pairs[n - 1], alpha, adapter));
    }
}

/// The items of a flag: a value without a comma is one item, trimmed, or
/// none where nothing is left of it; a value with one is the items before
/// it and then those behind it; and the items of several values are those
/// of each, one value's behind another's.
pub proof fn a_flags_items_are_its_values_pieces(
    values: Seq<Seq<char>>,
    head: Seq<char>,
    tail: Seq<char>,
)
    requires
        !tail.contains(','),
    ensures
        items_of(seq![tail]) == if trimmed(tail).len() == 0 {
            Seq::<Seq<char>>::empty()
        } else {
            seq![trimmed(tail)]
        },
        items_of(seq![head + seq![','] + tail]) == items_of(seq![head]) + items_of(seq![tail]),
        items_of(values.push(head)) == items_of(values) + items_of(seq![head]),
        items_of(seq![]) == Seq::<Seq<char>>::empty(),
{
    let both = head + seq![','] + tail;
    pieces_are_cut_at_the_separator(head, tail, ',');
    pieces_are_cut_at_the_separator(tail, tail, ',');
    one_values_items(tail);
    one_values_items(head);
    one_values_items(both);
    assert(seq![tail].drop_last() =~= seq![]);
    assert(kept(seq![]) =~= seq![]);
    assert(split_on(head, ',').push(tail).drop_last() =~= split_on(head, ','));
    assert(values.push(head).drop_last() =~= values);
    assert(items_of(seq![tail]) =~= if trimmed(tail).len() == 0 {
        Seq::<Seq<char>>::empty()
    } else {
        seq![trimmed(tail)]
    });
    assert(items_of(seq![both]) =~= items_of(seq![head]) + items_of(seq![tail]));
}

proof fn one_values_items(value: Seq<char>)
    ensures
        items_of(seq![value]) == kept(split_on(value, ',')),
{
    let none: Seq<Seq<char>> = seq![];
    assert(seq![value].drop_last() =~= none);
    assert(items_of(none) =~= none);
    assert(items_of(seq![value]) =~= none + kept(split_on(value, ',')));
}

/// A plain adapter has its path and scale one. The scaled ones stand in
/// the order of their items, each as its own item reads; where one does
/// not read, nothing is given.
pub proof fn adapters_stand_in_the_order_of_their_items(
    items: Seq<Seq<char>>,
    numbers: Seq<Option<u32>>,
    n: int,
    i: int,
)
    requires
        0 <= i < n <= items.len(),
        n <= numbers.len(),
    ensures
        plain_specs(items).len() == items.len(),
        plain_specs(items)[i] == (SpecModel { path: items[i], scale: 0x3f80_0000 }),
        scaled_specs(items, numbers, n) matches Ok(specs) ==> {
            &&& specs.len() == n
            &&& scaled_spec(items[i], numbers[i]) == Ok::<SpecModel, Seq<char>>(specs[i])
        },
        scaled_spec(items[i], numbers[i]) is Err ==> scaled_specs(items, numbers, n) is Err,
    decreases n,
{
    if i < n - 1 {
        adapters_stand_in_the_order_of_their_items(items, numbers, n - 1, i);
    } else if n > 1 {
        adapters_stand_in_the_order_of_their_items(items, numbers, n - 1, 0);
    }
}

/// What `FNAME:SCALE` must hold: a colon, something before the last one,
/// and behind it a number.
pub proof fn a_scaled_value_needs_a_path_and_a_number(spec: Seq<char>, number: Option<u32>)
    ensures
        !spec.contains(':') ==> scaled_spec(spec, number) is Err && scale_chars(spec) is None,
        number is None ==> scaled_spec(spec, number) is Err,
        scaled_spec(spec, number) matches Ok(m) ==> {
            &&& m.path.len() > 0
            &&& number == Some(m.scale)
            &&& scale_chars(spec) matches Some(text) && spec == m.path + seq![':'] + text
                && !text.contains(':')
        },
        scaled_spec(spec, number) is Err <==> !spec.contains(':') || number is None || (spec[0]
            == ':' && !spec.skip(1).contains(':')),
{
    first_and_last_place(spec, ':');
    match scale_colon(spec) {
        Some(at) => {
            assert(spec.contains(spec[at]));
            let text = spec.skip(at + 1);
            assert(spec =~= spec.take(at) + seq![':'] + text);
            assert forall|i: int| 0 <= i < text.len() implies text[i] != ':' by {
                assert(text[i] == spec[i + at + 1]);
            }
            assert(!text.contains(':'));
            if at > 0 {
                assert(spec.skip(1)[at - 1] == ':');
                assert(spec.skip(1).contains(':'));
            }
        },
        None => {
            assert(!spec.contains(':'));
        },
    }
}

/// What is remembered of an attached adapter is what the adapter says of
/// itself, the scale it was attached at, and how many tensors it has pairs
/// for.
pub proof fn an_attached_adapter_is_remembered(adapter: LoraAdapter, scale: u32, a: LoraAttached)
    requires
        attached_is(adapter, scale, a),
    ensures
        a.path@ == adapter.path@,
        a.alpha == adapter.alpha,
        a.task_name@ == adapter.task_name@,
        a.prompt_prefix@ == adapter.prompt_prefix@,
        a.scale == scale,
        a.n_tensors == adapter.pairs@.len(),
{
}

/// A pair is held against the base model's tensor of its name: that has
/// two dimensions, and for a projection `lora_a` is as wide as it and
/// `lora_b` as high; for the embedding the other way round. A pair of any
/// other size is refused.
pub proof fn a_pair_is_held_against_its_base_tensor(
    d: Decoder,
    base: GgufFile,
    path: Seq<char>,
    named: NamedPair,
)
    requires
        base.has(named.name@),
    ensures
        ({
            let shape = base.tensor(named.name@)->0.shape@;
            let a = named.pair.a@;
            let b = named.pair.b@;
            &&& shape.len() != 2 ==> attach_pair_fault(d, base, path, named) is Some
            &&& named.name@ != "token_embd.weight"@ && !(a.cols == shape[0] as usize && b.rows
                == shape[1] as usize && a.rows == b.cols) ==> attach_pair_fault(
                d,
                base,
                path,
                named,
            ) is Some
            &&& named.name@ == "token_embd.weight"@ && !(b.rows == shape[0] as usize && a.rows
                == shape[1] as usize && a.cols == b.cols) ==> attach_pair_fault(
                d,
                base,
                path,
                named,
            ) is Some
            &&& named.name@ == "output.weight"@ && shape.len() == 2 && a.cols == shape[0] as usize
                && b.rows == shape[1] as usize && a.rows == b.cols && d.output_head.n_rows()
                == b.rows && d.output_head.n_cols() == a.cols ==> attach_pair_fault(
                d,
                base,
                path,
                named,
            ) is None
        }),
{
    reveal_strlit("token_embd.weight");
    reveal_strlit("output.weight");
    assert("token_embd.weight"@[0] == 't');
    assert("output.weight"@[0] == 'o');
    let slots = seq![Slot::OutputHead];
    assert(rows_of(d, slots, 0) == 0);
    assert(rows_of(d, slots, 1) == rows_of(d, slots, 0) + d.output_head.n_rows());
}

} // verus!
