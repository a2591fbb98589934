//! Which of a file's blocks are decoder layers.
//!
//! A multi-token-prediction (MTP, or "NextN") head is stored as extra
//! blocks after the trunk, counted in `{arch}.block_count`, with their
//! number under `{arch}.nextn_predict_layers`. llama.cpp runs the trunk
//! only, and only for the architectures whose graph reads that key; on
//! any other architecture a nonzero count is refused.
//!
//! The trunk is decided once, by [`trunk_layers`], for every loader.
//! [`is_mtp_block_tensor`] tells the tensors of the skipped blocks from
//! those of the trunk, and [`note_mtp_blocks_skipped`] marks them as
//! deliberately unread.

use crate::gguf::{value_chars, value_text, GgufFile, TensorInfo};
use crate::load_error::{LoadError, LoadFault};
use crate::text::{
    arch_key, arch_key_text, block_name, chars_of, decimal, decimal_parses_back,
    decimal_text, parse_unsigned, parsed, starts_with, str_eq,
};
use vstd::prelude::*;
use vstd::slice::slice_subrange;
use vstd::string::{StrSliceExecFns, StringExecFns};

verus! {

/// Every architecture whose graph reads `nextn_predict_layers`, with the
/// file that reads it.
pub const NEXTN_READERS: [(&'static str, &'static str); 17] = [
    ("bailingmoe2", "src/models/bailingmoe2.cpp"),
    ("cohere2moe", "src/models/cohere2moe.cpp"),
    ("deepseek2", "src/models/deepseek2.cpp"),
    ("deepseek32", "src/models/deepseek32.cpp"),
    ("deepseek4", "src/models/deepseek4.cpp"),
    ("exaone-moe", "src/models/exaone-moe.cpp:23"),
    ("exaone4", "src/models/exaone4.cpp:18"),
    ("gemma4-assistant", "src/models/gemma4-assistant.cpp"),
    ("glm-dsa", "src/models/glm-dsa.cpp"),
    ("glm4moe", "src/models/glm4-moe.cpp"),
    ("glm4", "src/models/glm4.cpp"),
    ("hy-v3", "src/models/hy-v3.cpp"),
    ("mimo2", "src/models/mimo2.cpp:19"),
    ("qwen35", "src/models/qwen35.cpp"),
    ("qwen35moe", "src/models/qwen35moe.cpp"),
    ("qwen3next", "src/models/qwen3next.cpp"),
    ("step35", "src/models/step35.cpp:32"),
];

/// Whether `arch` is one of [`NEXTN_READERS`].
pub open spec fn nextn_reader(arch: Seq<char>) -> bool {
    exists|i: int| 0 <= i < NEXTN_READERS@.len() && (#[trigger] NEXTN_READERS@[i]).0@ == arch
}

/// Whether the graph of `arch` subtracts `nextn_predict_layers` from its
/// layer count.
pub fn reads_nextn(arch: &str) -> (yes: bool)
    ensures
        yes == nextn_reader(arch@),
{
    let mut i: usize = 0;
    while i < NEXTN_READERS.len()
        invariant
            i <= NEXTN_READERS@.len(),
            forall|j: int| 0 <= j < i ==> (#[trigger] NEXTN_READERS@[j]).0@ != arch@,
        decreases NEXTN_READERS@.len() - i,
    {
        if str_eq(NEXTN_READERS[i].0, arch) {
            return true;
        }
        i += 1;
    }
    false
}

/// How many of a file's blocks are decoder layers.
#[derive(Debug, Clone, Copy, PartialEq, Eq, Structural)]
pub struct TrunkLayers {
    /// `{arch}.block_count`: every block in the file.
    pub block_count: usize,
    /// The blocks that are decoder layers.
    pub n_layers: usize,
    /// The blocks that are not.
    pub n_mtp_blocks: usize,
}

impl TrunkLayers {
    /// The layers and the MTP blocks are the file's blocks.
    pub open spec fn well_formed(&self) -> bool {
        self.n_layers + self.n_mtp_blocks == self.block_count
    }

    /// The whole file is trunk.
    pub fn all(block_count: usize) -> (trunk: Self)
        ensures
            trunk == (TrunkLayers { block_count, n_layers: block_count, n_mtp_blocks: 0 }),
            trunk.well_formed(),
    {
        TrunkLayers { block_count, n_layers: block_count, n_mtp_blocks: 0 }
    }
}

/// The metadata key that counts the MTP blocks.
pub open spec fn nextn_key(arch: Seq<char>) -> Seq<char> {
    arch_key(arch, "nextn_predict_layers"@)
}

/// The refusal of a count that is no count, between the key and its value.
pub const NOT_UNSIGNED: &'static str = " is not an unsigned integer: ";

/// The refusal on an architecture that does not read the key, round the
/// architecture, the key and its value.
pub const UNREAD_KEY: [&'static str; 4] = [
    "NextN/MTP prediction layers are counted in block_count and llama.cpp skips them (n_layer = \
     n_layer_all - n_layer_nextn) only for the graphs that read the key; `",
    "` is not one of them (metadata ",
    "=",
    "), so upstream would run every block and fail on the unread `nextn.*` tensors, and the \
     generic decoder would run the speculative head as ordinary decoder layers",
];

/// The refusal of a count that leaves no layer, after the key and round
/// its value and the block count.
pub const TOO_MANY: [&'static str; 3] = [
    "=",
    " is not below block_count=",
    "; llama.cpp asserts `n_layer_nextn < n_layer_all` and aborts on this file",
];

/// The number of MTP blocks a file declares; `None` where the key is
/// there and is no unsigned integer.
pub open spec fn declared_mtp_blocks(file: GgufFile, arch: Seq<char>) -> Option<usize> {
    match file.meta(nextn_key(arch)) {
        None => Some(0),
        Some(v) => match v.unsigned() {
            Some(n) => Some(n as usize),
            None => None,
        },
    }
}

/// Why a file's declared MTP blocks are refused, if they are: the count
/// is not a count, or is nonzero on an architecture that does not read
/// it, or leaves no layer.
pub open spec fn trunk_fault(file: GgufFile, arch: Seq<char>, block_count: usize) -> Option<
    LoadFault,
> {
    let key = nextn_key(arch);
    match declared_mtp_blocks(file, arch) {
        None => Some(
            LoadFault::UnsupportedFeature(
                arch,
                key + NOT_UNSIGNED@ + value_chars(file.meta(key)->0),
            ),
        ),
        Some(n) => if n == 0 {
            None
        } else if !nextn_reader(arch) {
            Some(
                LoadFault::UnsupportedFeature(
                    arch,
                    UNREAD_KEY@[0]@ + arch + UNREAD_KEY@[1]@ + key + UNREAD_KEY@[2]@ + decimal(
                        n as nat,
                    ) + UNREAD_KEY@[3]@,
                ),
            )
        } else if n >= block_count {
            Some(
                LoadFault::UnsupportedFeature(
                    arch,
                    key + TOO_MANY@[0]@ + decimal(n as nat) + TOO_MANY@[1]@ + decimal(
                        block_count as nat,
                    ) + TOO_MANY@[2]@,
                ),
            )
        } else {
            None
        },
    }
}

/// The trunk of a file that is not refused.
pub open spec fn trunk_of(file: GgufFile, arch: Seq<char>, block_count: usize) -> TrunkLayers {
    let n = declared_mtp_blocks(file, arch)->0;
    TrunkLayers { block_count, n_layers: (block_count - n) as usize, n_mtp_blocks: n }
}

/// Decides the trunk of a file of architecture `arch`.
pub fn trunk_layers(file: &GgufFile, arch: &str, block_count: usize) -> (trunk: Result<
    TrunkLayers,
    LoadError,
>)
    ensures
        match trunk_fault(*file, arch@, block_count) {
            Some(fault) => trunk is Err && trunk->Err_0@ == fault,
            None => {
                &&& trunk is Ok
                &&& trunk->Ok_0 == trunk_of(*file, arch@, block_count)
                &&& trunk->Ok_0.well_formed()
                &&& trunk->Ok_0.n_mtp_blocks > 0 ==> trunk->Ok_0.n_layers > 0
            },
        },
{
    let key = arch_key_text(arch, "nextn_predict_layers");
    let n_mtp_blocks: usize = match file.metadata(key.as_str()) {
        None => 0,
        Some(v) => match v.as_u64() {
            Some(n) => n as usize,
            None => {
                return Err(
                    LoadError::UnsupportedFeature(
                        String::from_str(arch),
                        key.concat(NOT_UNSIGNED).concat(value_text(v).as_str()),
                    ),
                );
            },
        },
    };
    if n_mtp_blocks == 0 {
        return Ok(TrunkLayers::all(block_count));
    }
    if !reads_nextn(arch) {
        return Err(
            LoadError::UnsupportedFeature(
                String::from_str(arch),
                String::from_str(UNREAD_KEY[0]).concat(arch).concat(UNREAD_KEY[1]).concat(
                    key.as_str(),
                ).concat(UNREAD_KEY[2]).concat(decimal_text(n_mtp_blocks as u64).as_str()).concat(
                    UNREAD_KEY[3],
                ),
            ),
        );
    }
    if n_mtp_blocks >= block_count {
        return Err(
            LoadError::UnsupportedFeature(
                String::from_str(arch),
                key.concat(TOO_MANY[0]).concat(decimal_text(n_mtp_blocks as u64).as_str()).concat(
                    TOO_MANY[1],
                ).concat(decimal_text(block_count as u64).as_str()).concat(TOO_MANY[2]),
            ),
        );
    }
    Ok(TrunkLayers { block_count, n_layers: block_count - n_mtp_blocks, n_mtp_blocks })
}

/// The place of the first `.` of `s` at or after `from`; the length of
/// `s` where there is none.
pub open spec fn next_dot(s: Seq<char>, from: int) -> int
    decreases s.len() - from,
{
    if from < 0 || from >= s.len() {
        s.len() as int
    } else if s[from] == '.' {
        from
    } else {
        next_dot(s, from + 1)
    }
}

/// The block that a tensor name of the form `blk.N.` and something
/// belongs to.
pub open spec fn block_index(name: Seq<char>) -> Option<nat> {
    if name.len() < 4 || name.take(4) != "blk."@ {
        None
    } else {
        let dot = next_dot(name, 4);
        if dot == name.len() {
            None
        } else {
            parsed(name.subrange(4, dot), usize::MAX as nat)
        }
    }
}

/// What stands behind `blk.N.` in a tensor name.
pub open spec fn block_rest(name: Seq<char>) -> Seq<char> {
    name.skip(next_dot(name, 4) + 1)
}

/// Reads a tensor name of the form `blk.N.` and something: the block and
/// what stands behind it.
pub fn block_and_rest(name: &str) -> (parts: Option<(usize, &str)>)
    ensures
        match parts {
            Some((block, rest)) => block_index(name@) == Some(block as nat) && rest@ == block_rest(
                name@,
            ),
            None => block_index(name@) is None,
        },
{
    let chars = chars_of(name);
    let n = chars.len();
    if !starts_with(name, "blk.") {
        proof {
            reveal_strlit("blk.");
        }
        return None;
    }
    proof {
        reveal_strlit("blk.");
    }
    let mut dot: usize = 4;
    while dot < n && chars[dot] != '.'
        invariant
            n == chars@.len(),
            chars@ == name@,
            4 <= dot <= n,
            next_dot(name@, 4) == next_dot(name@, dot as int),
        decreases n - dot,
    {
        dot += 1;
    }
    if dot == n {
        return None;
    }
    match parse_unsigned(slice_subrange(chars.as_slice(), 4, dot), usize::MAX as u64) {
        Some(block) => {
            let rest = name.substring_char(dot + 1, n);
            assert(rest@ =~= block_rest(name@));
            Some((block as usize, rest))
        },
        None => None,
    }
}

/// The block a tensor belongs to, by its name.
pub fn block_of(name: &str) -> (block: Option<usize>)
    ensures
        block is Some <==> block_index(name@) is Some,
        block is Some ==> block->0 as nat == block_index(name@)->0,
{
    match block_and_rest(name) {
        Some((block, _)) => Some(block),
        None => None,
    }
}

/// Whether a tensor name belongs to one of the skipped blocks: those at
/// or past the trunk and below the block count.
pub open spec fn names_mtp_block(name: Seq<char>, trunk: TrunkLayers) -> bool {
    match block_index(name) {
        Some(n) => trunk.n_layers <= n < trunk.block_count,
        None => false,
    }
}

/// Whether `name` is a tensor of one of the skipped blocks.
pub fn is_mtp_block_tensor(name: &str, trunk: &TrunkLayers) -> (yes: bool)
    ensures
        yes == names_mtp_block(name@, *trunk),
{
    match block_of(name) {
        Some(n) => n >= trunk.n_layers && n < trunk.block_count,
        None => false,
    }
}

/// The names of the skipped blocks' tensors, in file order.
pub open spec fn skipped_names(tensors: Seq<TensorInfo>, trunk: TrunkLayers) -> Seq<Seq<char>>
    decreases tensors.len(),
{
    if tensors.len() == 0 {
        seq![]
    } else {
        let head = skipped_names(tensors.drop_last(), trunk);
        let name = tensors.last().name@;
        if names_mtp_block(name, trunk) {
            head.push(name)
        } else {
            head
        }
    }
}

/// The characters of each of `names`.
pub open spec fn name_views(names: Seq<String>) -> Seq<Seq<char>> {
    Seq::new(names.len(), |i: int| names[i]@)
}

/// The names of the tensors that a trunk marks as read: none, where it
/// has no MTP blocks.
pub open spec fn marked_names(tensors: Seq<TensorInfo>, trunk: TrunkLayers) -> Seq<Seq<char>> {
    if trunk.n_mtp_blocks == 0 {
        seq![]
    } else {
        skipped_names(tensors, trunk)
    }
}

/// Adds the names of the skipped blocks' tensors to `consumed`, the
/// tensors that count as read, and returns how many it added.
pub fn note_mtp_blocks_skipped(
    file: &GgufFile,
    trunk: &TrunkLayers,
    consumed: &mut Vec<String>,
) -> (marked: usize)
    ensures
        name_views(final(consumed)@) == name_views(old(consumed)@) + marked_names(
            file.tensors@,
            *trunk,
        ),
        marked == marked_names(file.tensors@, *trunk).len(),
        marked == 0 ==> final(consumed)@ == old(consumed)@,
{
    if trunk.n_mtp_blocks == 0 {
        assert(name_views(consumed@) =~= name_views(consumed@) + marked_names(
            file.tensors@,
            *trunk,
        ));
        return 0;
    }
    let mut marked: usize = 0;
    let mut i: usize = 0;
    let ghost before = name_views(consumed@);
    assert(file.tensors@.take(0) =~= Seq::<TensorInfo>::empty());
    assert(before =~= before + skipped_names(file.tensors@.take(0), *trunk));
    while i < file.tensors.len()
        invariant
            i <= file.tensors@.len(),
            marked == skipped_names(file.tensors@.take(i as int), *trunk).len(),
            marked <= i,
            marked == 0 ==> consumed@ == old(consumed)@,
            name_views(consumed@) == before + skipped_names(file.tensors@.take(i as int), *trunk),
        decreases file.tensors@.len() - i,
    {
        let ghost next = file.tensors@.take(i + 1);
        assert(next.drop_last() =~= file.tensors@.take(i as int));
        let ghost was = consumed@;
        if is_mtp_block_tensor(file.tensors[i].name.as_str(), trunk) {
            consumed.push(String::from_str(file.tensors[i].name.as_str()));
            marked += 1;
            assert(name_views(consumed@) =~= name_views(was).push(consumed@.last()@));
            assert(name_views(consumed@) =~= before + skipped_names(next, *trunk));
        }
        i += 1;
    }
    assert(file.tensors@.take(i as int) =~= file.tensors@);
    marked
}

/// Where the layers and the MTP blocks are the file's blocks, every
/// tensor of a skipped block is marked: without MTP blocks there is none.
pub proof fn every_skipped_tensor_is_marked(tensors: Seq<TensorInfo>, trunk: TrunkLayers)
    requires
        trunk.well_formed(),
    ensures
        marked_names(tensors, trunk) == skipped_names(tensors, trunk),
    decreases tensors.len(),
{
    if tensors.len() > 0 {
        every_skipped_tensor_is_marked(tensors.drop_last(), trunk);
    }
}

/// The name built for a tensor of block `n` is read back as block `n`:
/// it is a skipped block's tensor exactly when `n` is a skipped block,
/// whatever follows the block number.
pub proof fn block_names_are_read_back(n: usize, rest: Seq<char>, trunk: TrunkLayers)
    ensures
        block_index(block_name(n as nat, rest)) == Some(n as nat),
        block_rest(block_name(n as nat, rest)) == rest,
        names_mtp_block(block_name(n as nat, rest), trunk) == (trunk.n_layers <= n
            < trunk.block_count),
{
    let digits = decimal(n as nat);
    let name = block_name(n as nat, rest);
    reveal_strlit("blk.");
    reveal_strlit(".");
    assert(name.take(4) =~= "blk."@);
    decimal_is_digits(n as nat);
    let end = 4 + digits.len();
    assert(name.subrange(4, end as int) =~= digits);
    assert(name[end as int] == '.');
    assert forall|i: int| 4 <= i < end implies name[i] != '.' by {
        assert(name[i] == digits[i - 4]);
    }
    next_dot_is(name, 4, end as int);
    assert(name.skip((end + 1) as int) =~= rest);
    decimal_parses_back(n as nat, usize::MAX as nat);
}

proof fn next_dot_is(s: Seq<char>, from: int, dot: int)
    requires
        0 <= from <= dot < s.len(),
        s[dot] == '.',
        forall|i: int| from <= i < dot ==> s[i] != '.',
    ensures
        next_dot(s, from) == dot,
    decreases dot - from,
{
    if from < dot {
        next_dot_is(s, from + 1, dot);
    }
}

proof fn decimal_is_digits(n: nat)
    ensures
        forall|i: int| 0 <= i < decimal(n).len() ==> '0' <= #[trigger] decimal(n)[i] <= '9',
    decreases n,
{
    if n >= 10 {
        decimal_is_digits(n / 10);
        assert forall|i: int| 0 <= i < decimal(n).len() implies '0' <= #[trigger] decimal(n)[i]
            <= '9' by {
            if i < decimal(n / 10).len() {
                assert(decimal(n)[i] == decimal(n / 10)[i]);
            }
        }
    }
}

/// The trunk and the skipped blocks part a file's blocks: a tensor of
/// block `n` below the block count is of the trunk or of a skipped
/// block, and never of both.
pub proof fn trunk_and_mtp_blocks_part_the_file(n: usize, rest: Seq<char>, trunk: TrunkLayers)
    requires
        trunk.well_formed(),
        n < trunk.block_count,
    ensures
        names_mtp_block(block_name(n as nat, rest), trunk) <==> !(n < trunk.n_layers),
{
    block_names_are_read_back(n, rest, trunk);
}

/// The trunk of a file: all of its blocks but the declared prediction
/// blocks, which are the last ones. A file that declares none is all
/// trunk, whatever its architecture.
pub proof fn prediction_blocks_are_cut_off_the_end(
    file: GgufFile,
    arch: Seq<char>,
    block_count: usize,
)
    requires
        trunk_fault(file, arch, block_count) is None,
    ensures
        ({
            let trunk = trunk_of(file, arch, block_count);
            &&& trunk.block_count == block_count
            &&& trunk.n_layers + trunk.n_mtp_blocks == block_count
            &&& file.meta(arch + "."@ + "nextn_predict_layers"@) is None ==> trunk.n_layers
                == block_count
            &&& file.meta_u64(arch + "."@ + "nextn_predict_layers"@) matches Some(n)
                ==> trunk.n_mtp_blocks == n as usize
            &&& trunk.n_mtp_blocks > 0 ==> trunk.n_layers > 0
        }),
{
}

/// When a declared count is refused: where it is no count; where it is
/// not zero and the architecture's graph does not read it; and where it
/// leaves no layer. Nothing else is refused.
pub proof fn which_prediction_blocks_are_refused(
    file: GgufFile,
    arch: Seq<char>,
    block_count: usize,
)
    ensures
        file.meta(arch + "."@ + "nextn_predict_layers"@) is None ==> trunk_fault(
            file,
            arch,
            block_count,
        ) is None,
        file.meta(arch + "."@ + "nextn_predict_layers"@) matches Some(v) ==> match v.unsigned() {
            None => trunk_fault(file, arch, block_count) is Some,
            Some(n) => trunk_fault(file, arch, block_count) is None <==> n as usize == 0 || (
            nextn_reader(arch) && (n as usize) < block_count),
        },
        trunk_fault(file, arch, block_count) is Some ==> (trunk_fault(
            file,
            arch,
            block_count,
        )->0 matches LoadFault::UnsupportedFeature(of, _) && of == arch),
{
}

/// The architectures whose graph cuts its prediction blocks off.
pub proof fn who_reads_prediction_blocks(arch: Seq<char>)
    ensures
        nextn_reader(arch) <==> {
            ||| arch == "bailingmoe2"@
            ||| arch == "cohere2moe"@
            ||| arch == "deepseek2"@
            ||| arch == "deepseek32"@
            ||| arch == "deepseek4"@
            ||| arch == "exaone-moe"@
            ||| arch == "exaone4"@
            ||| arch == "gemma4-assistant"@
            ||| arch == "glm-dsa"@
            ||| arch == "glm4moe"@
            ||| arch == "glm4"@
            ||| arch == "hy-v3"@
            ||| arch == "mimo2"@
            ||| arch == "qwen35"@
            ||| arch == "qwen35moe"@
            ||| arch == "qwen3next"@
            ||| arch == "step35"@
        },
{
    let t = NEXTN_READERS@;
    assert(t[0].0@ == "bailingmoe2"@ && t[1].0@ == "cohere2moe"@ && t[2].0@ == "deepseek2"@);
    assert(t[3].0@ == "deepseek32"@ && t[4].0@ == "deepseek4"@ && t[5].0@ == "exaone-moe"@);
    assert(t[6].0@ == "exaone4"@ && t[7].0@ == "gemma4-assistant"@ && t[8].0@ == "glm-dsa"@);
    assert(t[9].0@ == "glm4moe"@ && t[10].0@ == "glm4"@ && t[11].0@ == "hy-v3"@);
    assert(t[12].0@ == "mimo2"@ && t[13].0@ == "qwen35"@ && t[14].0@ == "qwen35moe"@);
    assert(t[15].0@ == "qwen3next"@ && t[16].0@ == "step35"@);
    assert(t.len() == 17);
}

/// A tensor of the file is marked as deliberately unread exactly where it
/// is of a block past the trunk: none of the trunk's, none outside the
/// blocks, and none twice that the file has once.
pub proof fn only_skipped_tensors_are_marked(
    tensors: Seq<TensorInfo>,
    trunk: TrunkLayers,
    name: Seq<char>,
)
    requires
        trunk.n_layers + trunk.n_mtp_blocks == trunk.block_count,
    ensures
        marked_names(tensors, trunk).contains(name) <==> (block_index(name) is Some
            && trunk.n_layers <= block_index(name)->0 < trunk.block_count && exists|i: int|
            0 <= i < tensors.len() && (#[trigger] tensors[i]).name@ == name),
        marked_names(tensors, trunk).len() <= tensors.len(),
{
    every_skipped_tensor_is_marked(tensors, trunk);
    skipped_are_named(tensors, trunk, name);
}

proof fn skipped_are_named(tensors: Seq<TensorInfo>, trunk: TrunkLayers, name: Seq<char>)
    ensures
        skipped_names(tensors, trunk).contains(name) <==> names_mtp_block(name, trunk) && exists|
            i: int,
        |
            0 <= i < tensors.len() && (#[trigger] tensors[i]).name@ == name,
        skipped_names(tensors, trunk).len() <= tensors.len(),
    decreases tensors.len(),
{
    if tensors.len() > 0 {
        let head = tensors.drop_last();
        let last = tensors.last().name@;
        skipped_are_named(head, trunk, name);
        let kept = skipped_names(head, trunk);
        if kept.contains(name) {
            let i = choose|i: int| 0 <= i < head.len() && (#[trigger] head[i]).name@ == name;
            assert(tensors[i].name@ == name);
            let k = kept.index_of(name);
            assert(kept.push(last)[k] == name);
        }
        if names_mtp_block(last, trunk) {
            assert(kept.push(last)[kept.len() as int] == last);
            if kept.push(last).contains(name) && !kept.contains(name) {
                let k = kept.push(last).index_of(name);
                assert(k == kept.len());
                assert(tensors[tensors.len() - 1].name@ == name);
            }
        }
        if names_mtp_block(name, trunk) && exists|i: int|
            0 <= i < tensors.len() && (#[trigger] tensors[i]).name@ == name {
            let i = choose|i: int| 0 <= i < tensors.len() && (#[trigger] tensors[i]).name@ == name;
            if i < head.len() {
                assert(head[i].name@ == name);
            }
        }
    }
}

} // verus!
