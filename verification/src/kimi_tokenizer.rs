//! A byte-pair tokenizer whose merges go by rank, over the vocabulary
//! format of one base64 byte string and its rank to a line.
//!
//! A text is cut into pieces by a pattern; within a piece the adjacent
//! pair of spans with the lowest rank is merged, again and again, until
//! no adjacent pair has a rank.

use crate::rank_table::RankTable;
use crate::text::{
    chars_of, decimal, decimal_parses_back, first_place, parse_unsigned, parsed, part_views, split,
    split_on, split_once, trim, trimmed,
};
use crate::tokenizer::{
    a_name_is_cut_out_of_its_text, id_in, segment_views, segments, Segment, SpecialTokenTable,
    SpecialTokens, TextOrSpecial,
};
use base64::Engine;
use vstd::prelude::*;
use vstd::slice::slice_subrange;
use vstd::string::StrSliceExecFns;
use vstd::utf8::{decode_utf8, encode_utf8, valid_utf8};

verus! {

/// What cuts a text into pieces.
pub const PAT_STR: &'static str = r"[\p{Han}]+|[^\r\n\p{L}\p{N}]?(?:(?!\p{Han})[\p{Lu}\p{Lt}\p{Lm}\p{Lo}\p{M}])*(?:(?!\p{Han})[\p{Ll}\p{Lm}\p{Lo}\p{M}])+(?i:'s|'t|'re|'ve|'m|'ll|'d)?|[^\r\n\p{L}\p{N}]?(?:(?!\p{Han})[\p{Lu}\p{Lt}\p{Lm}\p{Lo}\p{M}])+(?:(?!\p{Han})[\p{Ll}\p{Lm}\p{Lo}\p{M}])*(?i:'s|'t|'re|'ve|'m|'ll|'d)?|\p{N}{1,3}| ?[^\s\p{L}\p{N}]+[\r\n]*|\s*[\r\n]+|\s+(?!\S)|\s+";

/// The error of the regular expression engine.
#[verifier::external_type_specification]
#[verifier::external_body]
pub struct ExRegexError(fancy_regex::Error);

/// Why a vocabulary or a tokenizer is refused.
#[derive(Debug)]
pub enum KimiTokenizerError {
    /// A line of the vocabulary, by its number and its text.
    InvalidVocabLine(usize, String),
    Regex(fancy_regex::Error),
}

/// The characters of each of `strings`.
pub open spec fn string_views(strings: Seq<String>) -> Seq<Seq<char>> {
    Seq::new(strings.len(), |i: int| strings[i]@)
}

/// The bytes that a base64 text decodes to.
pub uninterp spec fn base64_bytes(text: Seq<char>) -> Option<Seq<u8>>;

/// Decodes base64 with `base64::engine::general_purpose::STANDARD`.
/// What it gives, or that it gives an error, depends on the text alone
/// and is named [`base64_bytes`].
#[verifier::external_body]
fn decode_base64(text: &str) -> (bytes: Option<Vec<u8>>)
    ensures
        match bytes {
            Some(v) => base64_bytes(text@) == Some(v@),
            None => base64_bytes(text@) is None,
        },
{
    base64::engine::general_purpose::STANDARD.decode(text).ok()
}

/// The successive matches of a pattern in a text; `None` where the
/// pattern does not compile or the search fails.
pub uninterp spec fn regex_matches(pattern: Seq<char>, text: Seq<char>) -> Option<Seq<Seq<char>>>;

/// Compiles a pattern with `fancy_regex::Regex::new` and collects what
/// `fancy_regex::Regex::find_iter` finds in a text. The matches, or that
/// there is an error in compiling or searching, depend on the two
/// strings alone and are named [`regex_matches`].
#[verifier::external_body]
fn find_matches(pattern: &str, text: &str) -> (r: Result<Vec<String>, fancy_regex::Error>)
    requires
        pattern@ == PAT_STR@,
    ensures
        match r {
            Ok(found) => regex_matches(pattern@, text@) == Some(string_views(found@)),
            Err(_) => regex_matches(pattern@, text@) is None,
        },
{
    let re = fancy_regex::Regex::new(pattern)?;
    re.find_iter(text).map(|m| m.map(|m| m.as_str().to_string())).collect()
}

/// The pieces that a text is cut into before its bytes are merged;
/// `None` where the search for them fails.
pub fn text_pieces(text: &str) -> (pieces: Option<Vec<String>>)
    ensures
        match pieces {
            Some(found) => regex_matches(PAT_STR@, text@) == Some(string_views(found@)),
            None => regex_matches(PAT_STR@, text@) is None,
        },
{
    match find_matches(PAT_STR, text) {
        Ok(found) => Some(found),
        Err(_) => None,
    }
}

/// The text of bytes that need not be valid UTF-8.
pub uninterp spec fn lossy_chars(bytes: Seq<u8>) -> Seq<char>;

/// Reads bytes with `String::from_utf8_lossy`: valid UTF-8 is read as it
/// is; what else there is depends on the bytes alone and is named
/// [`lossy_chars`].
#[verifier::external_body]
fn lossy_text(bytes: &[u8]) -> (text: String)
    ensures
        text@ == lossy_chars(bytes@),
        valid_utf8(bytes@) ==> text@ == decode_utf8(bytes@),
{
    String::from_utf8_lossy(bytes).into_owned()
}

/// The two parts of a vocabulary line: before and after its first space.
pub fn split_vocab_line(line: &str) -> (parts: Option<(&str, &str)>)
    ensures
        match first_place(line@, ' ', 0) {
            None => parts is None,
            Some(at) => match parts {
                Some((head, tail)) => head@ == line@.take(at) && tail@ == line@.skip(at + 1),
                None => false,
            },
        },
{
    split_once(line, ' ')
}

/// What a line gives whose first part decodes to `bytes`.
pub open spec fn entry_of(bytes: Option<Seq<u8>>, rank: Seq<char>) -> Option<(Seq<u8>, u32)> {
    match (bytes, parsed(rank, u32::MAX as nat)) {
        (Some(b), Some(r)) => Some((b, r as u32)),
        _ => None,
    }
}

/// The entry of a line whose first part decodes to `bytes` and whose
/// second part is `rank`.
pub fn vocab_entry(bytes: Option<Vec<u8>>, rank: &str) -> (entry: Option<(Vec<u8>, u32)>)
    ensures
        match entry_of(
            (match bytes {
                Some(b) => Some(b@),
                None => None,
            }),
            rank@,
        ) {
            Some((b, r)) => match entry {
                Some((x, y)) => x@ == b && y == r,
                None => false,
            },
            None => entry is None,
        },
{
    match bytes {
        None => None,
        Some(b) => {
            let digits = chars_of(rank);
            match parse_unsigned(digits.as_slice(), u32::MAX as u64) {
                Some(r) => Some((b, r as u32)),
                None => None,
            }
        },
    }
}

/// The entry of a line of the vocabulary.
pub open spec fn line_entry(line: Seq<char>) -> Option<(Seq<u8>, u32)> {
    match first_place(line, ' ', 0) {
        None => None,
        Some(at) => entry_of(base64_bytes(line.take(at)), line.skip(at + 1)),
    }
}

/// The ranks that the first `n` lines give, or the first line that is no
/// entry. White space round a line does not count, nor does an empty
/// line; of two ranks for the same bytes the later one counts.
pub open spec fn vocab_of(lines: Seq<Seq<char>>, n: int) -> Result<
    Map<Seq<u8>, u32>,
    (int, Seq<char>),
>
    decreases n,
{
    if n <= 0 {
        Ok(Map::empty())
    } else {
        match vocab_of(lines, n - 1) {
            Err(e) => Err(e),
            Ok(ranks) => {
                let line = trimmed(lines[n - 1]);
                if line.len() == 0 {
                    Ok(ranks)
                } else {
                    match line_entry(line) {
                        Some((bytes, rank)) => Ok(ranks.insert(bytes, rank)),
                        None => Err((n - 1, line)),
                    }
                }
            },
        }
    }
}

proof fn vocab_refusal_stays(lines: Seq<Seq<char>>, k: int, n: int)
    requires
        k <= n,
        vocab_of(lines, k) is Err,
    ensures
        vocab_of(lines, n) == vocab_of(lines, k),
    decreases n - k,
{
    if k < n {
        vocab_refusal_stays(lines, k, n - 1);
    }
}

/// Parses a vocabulary: one base64 byte string, a space and its rank to a
/// line.
pub fn parse_tiktoken_vocab(text: &str) -> (r: Result<RankTable, KimiTokenizerError>)
    ensures
        ({
            let lines = split_on(text@, '\n');
            match vocab_of(lines, lines.len() as int) {
                Ok(ranks) => r is Ok && r->Ok_0.well_formed() && r->Ok_0@ == ranks,
                Err((i, line)) => match r {
                    Err(KimiTokenizerError::InvalidVocabLine(at, said)) => at == i && said@ == line,
                    _ => false,
                },
            }
        }),
{
    let lines = split(text, '\n');
    let ghost all = part_views(lines@);
    let mut ranks = RankTable::new();
    let n = lines.len();
    let mut i: usize = 0;
    while i < n
        invariant
            i <= n,
            n == lines@.len(),
            all == part_views(lines@),
            all == split_on(text@, '\n'),
            ranks.well_formed(),
            ranks@.dom().finite(),
            ranks@.dom().len() <= i,
            vocab_of(all, i as int) == Ok::<Map<Seq<u8>, u32>, (int, Seq<char>)>(ranks@),
        decreases n - i,
    {
        let line = trim(lines[i]);
        assert(all[i as int] == lines@[i as int]@);
        if line.unicode_len() > 0 {
            let entry = match split_vocab_line(line) {
                Some((head, tail)) => vocab_entry(decode_base64(head), tail),
                None => None,
            };
            match entry {
                Some((bytes, rank)) => {
                    let ghost was = ranks@;
                    ranks.insert(bytes, rank);
                    assert(ranks@.dom() =~= was.dom().insert(bytes@));
                },
                None => {
                    proof {
                        vocab_refusal_stays(all, i + 1, n as int);
                    }
                    return Err(
                        KimiTokenizerError::InvalidVocabLine(i, String::from_str(line)),
                    );
                },
            }
        }
        i += 1;
    }
    Ok(ranks)
}

/// The number that the first `n` entries of a tokenizer's configuration
/// give a special token's name: each entry is a number, written out, and
/// a name; one whose number cannot be read does not count, and of two for
/// the same name the later one does.
pub open spec fn special_of(entries: Seq<(String, String)>, name: Seq<char>, n: int) -> Option<u32>
    decreases n,
{
    if n <= 0 {
        None
    } else {
        match parsed(entries[n - 1].0@, u32::MAX as nat) {
            Some(id) if entries[n - 1].1@ == name => Some(id as u32),
            _ => special_of(entries, name, n - 1),
        }
    }
}

/// The special tokens of a tokenizer's configuration, from its entries:
/// a number, written out, and a name.
pub fn parse_special_tokens(entries: &[(String, String)]) -> (table: SpecialTokenTable)
    ensures
        forall|name: Seq<char>| #[trigger]
            id_in(table.entries@, name) == special_of(entries@, name, entries@.len() as int),
{
    let mut table = SpecialTokenTable::new();
    let mut i: usize = 0;
    while i < entries.len()
        invariant
            i <= entries@.len(),
            forall|name: Seq<char>| #[trigger]
                id_in(table.entries@, name) == special_of(entries@, name, i as int),
        decreases entries@.len() - i,
    {
        let digits = chars_of(entries[i].0.as_str());
        match parse_unsigned(digits.as_slice(), u32::MAX as u64) {
            Some(id) => table.insert(entries[i].1.as_str(), id as u32),
            None => {},
        }
        i += 1;
    }
    table
}

/// The parts with part `i` and the next one joined.
pub open spec fn join(parts: Seq<Seq<u8>>, i: int) -> Seq<Seq<u8>> {
    parts.take(i).push(parts[i] + parts[i + 1]) + parts.skip(i + 2)
}

/// The rank of part `i` joined with the next one.
pub open spec fn pair_rank(parts: Seq<Seq<u8>>, ranks: Map<Seq<u8>, u32>, i: int) -> Option<u32> {
    let pair = parts[i] + parts[i + 1];
    if ranks.dom().contains(pair) {
        Some(ranks[pair])
    } else {
        None
    }
}

/// Of the first `n` adjacent pairs the one with the lowest rank; of two
/// with the same rank the one further left.
pub open spec fn best_pair(parts: Seq<Seq<u8>>, ranks: Map<Seq<u8>, u32>, n: int) -> Option<int>
    decreases n,
{
    if n <= 0 {
        None
    } else {
        let earlier = best_pair(parts, ranks, n - 1);
        match pair_rank(parts, ranks, n - 1) {
            None => earlier,
            Some(rank) => match earlier {
                Some(i) if pair_rank(parts, ranks, i)->0 <= rank => earlier,
                _ => Some(n - 1),
            },
        }
    }
}

/// What is left once the pair with the lowest rank has been joined, again
/// and again, until no adjacent pair has a rank.
pub open spec fn merged(parts: Seq<Seq<u8>>, ranks: Map<Seq<u8>, u32>) -> Seq<Seq<u8>>
    decreases parts.len(),
{
    match best_pair(parts, ranks, parts.len() - 1) {
        Some(i) if 0 <= i < parts.len() - 1 => merged(join(parts, i), ranks),
        _ => parts,
    }
}

/// The bytes of a piece, each a part of its own.
pub open spec fn singles(piece: Seq<u8>) -> Seq<Seq<u8>> {
    Seq::new(piece.len(), |i: int| seq![piece[i]])
}

/// The spans that a piece is merged into.
pub open spec fn spans(piece: Seq<u8>, ranks: Map<Seq<u8>, u32>) -> Seq<Seq<u8>> {
    merged(singles(piece), ranks)
}

/// Whether every span that a piece is merged into has a rank; of a single
/// byte that is not asked.
pub open spec fn merges(piece: Seq<u8>, ranks: Map<Seq<u8>, u32>) -> bool {
    piece.len() <= 1 || forall|i: int|
        0 <= i < spans(piece, ranks).len() ==> ranks.dom().contains(
            #[trigger] spans(piece, ranks)[i],
        )
}

/// The token of each span that a piece is merged into; a single byte
/// without a rank is token zero.
pub open spec fn merge_ids(piece: Seq<u8>, ranks: Map<Seq<u8>, u32>) -> Seq<u32> {
    if piece.len() == 0 {
        seq![]
    } else if piece.len() == 1 {
        seq![
            if ranks.dom().contains(piece) {
                ranks[piece]
            } else {
                0
            },
        ]
    } else {
        Seq::new(spans(piece, ranks).len(), |i: int| ranks[spans(piece, ranks)[i]])
    }
}

/// The pair to join has a rank, no pair has a lower one, and none to its
/// left has the same.
pub proof fn best_pair_is_lowest(parts: Seq<Seq<u8>>, ranks: Map<Seq<u8>, u32>, n: int)
    ensures
        match best_pair(parts, ranks, n) {
            Some(b) => {
                &&& 0 <= b < n
                &&& pair_rank(parts, ranks, b) is Some
                &&& forall|i: int|
                    0 <= i < n && #[trigger] pair_rank(parts, ranks, i) is Some ==> pair_rank(
                        parts,
                        ranks,
                        b,
                    )->0 <= pair_rank(parts, ranks, i)->0
                &&& forall|i: int|
                    0 <= i < b && #[trigger] pair_rank(parts, ranks, i) is Some ==> pair_rank(
                        parts,
                        ranks,
                        b,
                    )->0 < pair_rank(parts, ranks, i)->0
            },
            None => forall|i: int|
                0 <= i < n ==> (#[trigger] pair_rank(parts, ranks, i)) is None,
        },
    decreases n,
{
    if n > 0 {
        best_pair_is_lowest(parts, ranks, n - 1);
    }
}

proof fn join_keeps_bytes(parts: Seq<Seq<u8>>, i: int)
    requires
        0 <= i < parts.len() - 1,
    ensures
        join(parts, i).flatten() == parts.flatten(),
{
    let head = parts.take(i);
    let tail = parts.skip(i + 2);
    let a = parts[i];
    let b = parts[i + 1];
    assert(parts =~= head.push(a).push(b) + tail);
    vstd::seq_lib::lemma_flatten_concat(head.push(a).push(b), tail);
    head.push(a).lemma_flatten_push(b);
    head.lemma_flatten_push(a);
    vstd::seq_lib::lemma_flatten_concat(head.push(a + b), tail);
    head.lemma_flatten_push(a + b);
    assert(head.flatten() + (a + b) =~= head.flatten() + a + b);
}

proof fn merging(parts: Seq<Seq<u8>>, ranks: Map<Seq<u8>, u32>)
    ensures
        merged(parts, ranks).flatten() == parts.flatten(),
        forall|i: int|
            0 <= i < merged(parts, ranks).len() - 1 ==> (#[trigger] pair_rank(
                merged(parts, ranks),
                ranks,
                i,
            )) is None,
        forall|i: int|
            0 <= i < merged(parts, ranks).len() ==> ranks.dom().contains(
                #[trigger] merged(parts, ranks)[i],
            ) || parts.contains(merged(parts, ranks)[i]),
    decreases parts.len(),
{
    best_pair_is_lowest(parts, ranks, parts.len() - 1);
    match best_pair(parts, ranks, parts.len() - 1) {
        Some(b) if 0 <= b < parts.len() - 1 => {
            let next = join(parts, b);
            join_keeps_bytes(parts, b);
            merging(next, ranks);
            assert forall|i: int| 0 <= i < merged(parts, ranks).len() implies ranks.dom().contains(
                #[trigger] merged(parts, ranks)[i],
            ) || parts.contains(merged(parts, ranks)[i]) by {
                let part = merged(parts, ranks)[i];
                if !ranks.dom().contains(part) {
                    let j = choose|j: int| 0 <= j < next.len() && next[j] == part;
                    if j < b {
                        assert(parts[j] == part);
                    } else if j == b {
                        assert(part == parts[b] + parts[b + 1]);
                    } else {
                        assert(parts[j + 1] == part);
                    }
                }
            }
        },
        _ => {
            assert forall|i: int| 0 <= i < parts.len() implies parts.contains(
                #[trigger] parts[i],
            ) by {}
        },
    }
}

proof fn lowest_pair_is_best(parts: Seq<Seq<u8>>, ranks: Map<Seq<u8>, u32>, i: int)
    requires
        0 <= i < parts.len() - 1,
        ranks.dom().contains(parts[i] + parts[i + 1]),
        forall|j: int, k: int|
            0 <= j && k == j + 1 && k < parts.len() && ranks.dom().contains(
                #[trigger] (parts[j] + parts[k]),
            ) ==> ranks[parts[i] + parts[i + 1]] <= ranks[parts[j] + parts[k]],
        forall|j: int, k: int|
            0 <= j && k == j + 1 && k <= i && ranks.dom().contains(
                #[trigger] (parts[j] + parts[k]),
            ) ==> ranks[parts[i] + parts[i + 1]] < ranks[parts[j] + parts[k]],
    ensures
        best_pair(parts, ranks, parts.len() - 1) == Some(i),
{
    best_pair_is_lowest(parts, ranks, parts.len() - 1);
    assert(pair_rank(parts, ranks, i) is Some);
    let b = best_pair(parts, ranks, parts.len() - 1)->0;
    assert(ranks.dom().contains(parts[b] + parts[b + 1]));
    assert(pair_rank(parts, ranks, b) is Some);
    if b < i {
        assert(ranks[parts[i] + parts[i + 1]] < ranks[parts[b] + parts[b + 1]]);
    } else if b > i {
        assert(ranks[parts[i] + parts[i + 1]] <= ranks[parts[b] + parts[b + 1]]);
    }
}

/// One step of a merge. Of the neighbours whose bytes, put together, are
/// in the vocabulary, the two whose rank is the lowest are joined, and of
/// several such pairs the one furthest left; every other part stays, and
/// the merge goes on from there.
pub proof fn a_step_joins_the_lowest_pair(parts: Seq<Seq<u8>>, ranks: Map<Seq<u8>, u32>, i: int)
    requires
        0 <= i < parts.len() - 1,
        ranks.dom().contains(parts[i] + parts[i + 1]),
        forall|j: int, k: int|
            0 <= j && k == j + 1 && k < parts.len() && ranks.dom().contains(
                #[trigger] (parts[j] + parts[k]),
            ) ==> ranks[parts[i] + parts[i + 1]] <= ranks[parts[j] + parts[k]],
        forall|j: int, k: int|
            0 <= j && k == j + 1 && k <= i && ranks.dom().contains(
                #[trigger] (parts[j] + parts[k]),
            ) ==> ranks[parts[i] + parts[i + 1]] < ranks[parts[j] + parts[k]],
    ensures
        merged(parts, ranks) == merged(
            parts.subrange(0, i) + seq![parts[i] + parts[i + 1]] + parts.subrange(
                i + 2,
                parts.len() as int,
            ),
            ranks,
        ),
{
    lowest_pair_is_best(parts, ranks, i);
    assert(join(parts, i) =~= parts.subrange(0, i) + seq![parts[i] + parts[i + 1]]
        + parts.subrange(i + 2, parts.len() as int));
}

/// A merge that can go on does: where some two neighbours are, put
/// together, in the vocabulary, there is a pair of them whose rank is the
/// lowest and that has none of that rank to its left, and the merge of
/// the parts is the merge of what joining it leaves.
pub proof fn a_merge_goes_on(parts: Seq<Seq<u8>>, ranks: Map<Seq<u8>, u32>, at: int) -> (i: int)
    requires
        0 <= at < parts.len() - 1,
        ranks.dom().contains(parts[at] + parts[at + 1]),
    ensures
        0 <= i < parts.len() - 1,
        ranks.dom().contains(parts[i] + parts[i + 1]),
        forall|j: int, k: int|
            0 <= j && k == j + 1 && k < parts.len() && ranks.dom().contains(
                #[trigger] (parts[j] + parts[k]),
            ) ==> ranks[parts[i] + parts[i + 1]] <= ranks[parts[j] + parts[k]],
        forall|j: int, k: int|
            0 <= j && k == j + 1 && k <= i && ranks.dom().contains(
                #[trigger] (parts[j] + parts[k]),
            ) ==> ranks[parts[i] + parts[i + 1]] < ranks[parts[j] + parts[k]],
        merged(parts, ranks) == merged(
            parts.subrange(0, i) + seq![parts[i] + parts[i + 1]] + parts.subrange(
                i + 2,
                parts.len() as int,
            ),
            ranks,
        ),
{
    best_pair_is_lowest(parts, ranks, parts.len() - 1);
    assert(pair_rank(parts, ranks, at) is Some);
    let b = best_pair(parts, ranks, parts.len() - 1)->0;
    assert forall|j: int, k: int|
        0 <= j && k == j + 1 && k < parts.len() && ranks.dom().contains(
            #[trigger] (parts[j] + parts[k]),
        ) implies ranks[parts[b] + parts[b + 1]] <= ranks[parts[j] + parts[k]] by {
        assert(pair_rank(parts, ranks, j) is Some);
    }
    assert forall|j: int, k: int|
        0 <= j && k == j + 1 && k <= b && ranks.dom().contains(
            #[trigger] (parts[j] + parts[k]),
        ) implies ranks[parts[b] + parts[b + 1]] < ranks[parts[j] + parts[k]] by {
        assert(pair_rank(parts, ranks, j) is Some);
    }
    a_step_joins_the_lowest_pair(parts, ranks, b);
    b
}

/// A merge ends where no two neighbours are, put together, in the
/// vocabulary, and only there: what it gives has no such neighbours.
pub proof fn a_merge_ends_where_nothing_joins(parts: Seq<Seq<u8>>, ranks: Map<Seq<u8>, u32>)
    ensures
        (forall|j: int, k: int|
            0 <= j && k == j + 1 && k < parts.len() ==> !ranks.dom().contains(
                #[trigger] (parts[j] + parts[k]),
            )) ==> merged(parts, ranks) == parts,
        ({
            let left = merged(parts, ranks);
            forall|j: int, k: int|
                0 <= j && k == j + 1 && k < left.len() ==> !ranks.dom().contains(
                    #[trigger] (left[j] + left[k]),
                )
        }),
{
    best_pair_is_lowest(parts, ranks, parts.len() - 1);
    merging(parts, ranks);
    let left = merged(parts, ranks);
    assert forall|j: int, k: int| 0 <= j && k == j + 1 && k < left.len() implies !ranks.dom().contains(
        #[trigger] (left[j] + left[k]),
    ) by {
        assert(pair_rank(left, ranks, j) is None);
    }
    if forall|j: int, k: int|
        0 <= j && k == j + 1 && k < parts.len() ==> !ranks.dom().contains(
            #[trigger] (parts[j] + parts[k]),
        ) {
        match best_pair(parts, ranks, parts.len() - 1) {
            Some(b) => {
                assert(!ranks.dom().contains(parts[b] + parts[b + 1]));
            },
            None => {},
        }
    }
}

/// Three bytes that have no rank together: the pair with the lower rank
/// is joined, whichever side it stands on, and of two with the same rank
/// the left one; the third byte stays on its own.
pub proof fn of_two_pairs_the_lower_rank_joins(
    x: u8,
    y: u8,
    z: u8,
    ranks: Map<Seq<u8>, u32>,
)
    requires
        !ranks.dom().contains(seq![x, y, z]),
    ensures
        ranks.dom().contains(seq![y, z]) && (ranks.dom().contains(seq![x, y]) ==> ranks[seq![y, z]]
            < ranks[seq![x, y]]) ==> spans(seq![x, y, z], ranks) == seq![seq![x], seq![y, z]],
        ranks.dom().contains(seq![x, y]) && (ranks.dom().contains(seq![y, z]) ==> ranks[seq![x, y]]
            <= ranks[seq![y, z]]) ==> spans(seq![x, y, z], ranks) == seq![seq![x, y], seq![z]],
        !ranks.dom().contains(seq![x, y]) && !ranks.dom().contains(seq![y, z]) ==> spans(
            seq![x, y, z],
            ranks,
        ) == seq![seq![x], seq![y], seq![z]],
{
    let parts = singles(seq![x, y, z]);
    assert(parts =~= seq![seq![x], seq![y], seq![z]]);
    assert(parts[0] + parts[1] =~= seq![x, y]);
    assert(parts[1] + parts[2] =~= seq![y, z]);
    let right = seq![seq![x], seq![y, z]];
    let left = seq![seq![x, y], seq![z]];
    assert(right[0] + right[1] =~= seq![x, y, z]);
    assert(left[0] + left[1] =~= seq![x, y, z]);
    a_merge_ends_where_nothing_joins(right, ranks);
    a_merge_ends_where_nothing_joins(left, ranks);
    a_merge_ends_where_nothing_joins(parts, ranks);
    if ranks.dom().contains(seq![y, z]) && (ranks.dom().contains(seq![x, y]) ==> ranks[seq![y, z]]
        < ranks[seq![x, y]]) {
        a_step_joins_the_lowest_pair(parts, ranks, 1);
        assert(parts.subrange(0, 1) + seq![parts[1] + parts[2]] + parts.subrange(3, 3) =~= right);
    }
    if ranks.dom().contains(seq![x, y]) && (ranks.dom().contains(seq![y, z]) ==> ranks[seq![x, y]]
        <= ranks[seq![y, z]]) {
        a_step_joins_the_lowest_pair(parts, ranks, 0);
        assert(parts.subrange(0, 0) + seq![parts[0] + parts[1]] + parts.subrange(2, 3) =~= left);
    }
}

proof fn singles_flatten(piece: Seq<u8>)
    ensures
        singles(piece).flatten() == piece,
    decreases piece.len(),
{
    if piece.len() == 0 {
        assert(singles(piece) =~= seq![]);
        assert(singles(piece).flatten() =~= piece);
    } else {
        singles_flatten(piece.drop_last());
        assert(singles(piece) =~= singles(piece.drop_last()).push(seq![piece.last()]));
        singles(piece.drop_last()).lemma_flatten_push(seq![piece.last()]);
        assert(piece.drop_last() + seq![piece.last()] =~= piece);
    }
}

/// The spans that a piece is merged into are the piece, one after the
/// other; no two neighbours of them can still be joined; and each has a
/// rank or is a single byte of the piece.
pub proof fn spans_are_the_piece(piece: Seq<u8>, ranks: Map<Seq<u8>, u32>)
    ensures
        spans(piece, ranks).flatten() == piece,
        forall|i: int|
            0 <= i < spans(piece, ranks).len() - 1 ==> (#[trigger] pair_rank(
                spans(piece, ranks),
                ranks,
                i,
            )) is None,
        forall|i: int|
            0 <= i < spans(piece, ranks).len() ==> ranks.dom().contains(
                #[trigger] spans(piece, ranks)[i],
            ) || singles(piece).contains(spans(piece, ranks)[i]),
{
    merging(singles(piece), ranks);
    singles_flatten(piece);
}

/// A vocabulary with a rank for every byte merges every piece.
pub proof fn byte_vocabularies_merge_everything(piece: Seq<u8>, ranks: Map<Seq<u8>, u32>)
    requires
        forall|i: int| 0 <= i < piece.len() ==> ranks.dom().contains(seq![#[trigger] piece[i]]),
    ensures
        merges(piece, ranks),
{
    spans_are_the_piece(piece, ranks);
    assert forall|i: int| 0 <= i < spans(piece, ranks).len() implies ranks.dom().contains(
        #[trigger] spans(piece, ranks)[i],
    ) by {
        let part = spans(piece, ranks)[i];
        if singles(piece).contains(part) {
            let j = choose|j: int| 0 <= j < singles(piece).len() && singles(piece)[j] == part;
            assert(part == seq![piece[j]]);
        }
    }
}

spec fn parts_at(piece: Seq<u8>, bounds: Seq<usize>) -> Seq<Seq<u8>> {
    Seq::new(
        (bounds.len() - 1) as nat,
        |i: int| piece.subrange(bounds[i] as int, bounds[i + 1] as int),
    )
}

spec fn are_bounds(piece: Seq<u8>, bounds: Seq<usize>) -> bool {
    &&& bounds.len() >= 2
    &&& bounds[0] == 0
    &&& bounds.last() == piece.len()
    &&& forall|i: int, j: int|
        0 <= i < j < bounds.len() ==> #[trigger] bounds[i] < #[trigger] bounds[j]
}

fn best_place(piece: &[u8], bounds: &Vec<usize>, ranks: &RankTable) -> (best: Option<usize>)
    requires
        ranks.well_formed(),
        are_bounds(piece@, bounds@),
    ensures
        match best_pair(parts_at(piece@, bounds@), ranks@, bounds@.len() - 2) {
            Some(i) => best is Some && best->0 == i,
            None => best is None,
        },
        best is Some ==> best->0 < bounds@.len() - 2,
{
    let ghost parts = parts_at(piece@, bounds@);
    let mut best: Option<(u32, usize)> = None;
    let mut i: usize = 0;
    let total = bounds.len();
    let n = total - 2;
    while i < n
        invariant
            i <= n,
            total == bounds@.len(),
            n == total - 2,
            ranks.well_formed(),
            are_bounds(piece@, bounds@),
            parts == parts_at(piece@, bounds@),
            match best_pair(parts, ranks@, i as int) {
                Some(b) => match best {
                    Some((rank, at)) => at == b && at < n && pair_rank(parts, ranks@, b) == Some(
                        rank,
                    ),
                    None => false,
                },
                None => best is None,
            },
        decreases n - i,
    {
        let from = bounds[i];
        let to = bounds[i + 2];
        proof {
            assert(bounds@[i as int] < bounds@[i + 1]);
            assert(bounds@[i + 1] < bounds@[i + 2]);
            assert(bounds@[i + 2] <= piece@.len()) by {
                if i + 2 < bounds@.len() - 1 {
                    assert(bounds@[i + 2] < bounds@[bounds@.len() - 1]);
                }
            }
            assert(parts[i as int] + parts[i + 1] =~= piece@.subrange(from as int, to as int));
        }
        let pair = slice_subrange(piece, from, to);
        match ranks.get(pair) {
            Some(r) => {
                let better = match best {
                    Some((rank, _)) => r < rank,
                    None => true,
                };
                if better {
                    best = Some((r, i));
                }
            },
            None => {},
        }
        i += 1;
    }
    match best {
        Some((_, at)) => Some(at),
        None => None,
    }
}

proof fn removed_bound(piece: Seq<u8>, bounds: Seq<usize>, i: int)
    requires
        are_bounds(piece, bounds),
        0 <= i < bounds.len() - 2,
    ensures
        are_bounds(piece, bounds.remove(i + 1)),
        parts_at(piece, bounds.remove(i + 1)) == join(parts_at(piece, bounds), i),
{
    let fewer = bounds.remove(i + 1);
    let parts = parts_at(piece, bounds);
    assert forall|a: int, b: int| 0 <= a < b < fewer.len() implies #[trigger] fewer[a]
        < #[trigger] fewer[b] by {
        let x = if a <= i {
            a
        } else {
            a + 1
        };
        let y = if b <= i {
            b
        } else {
            b + 1
        };
        assert(fewer[a] == bounds[x] && fewer[b] == bounds[y]);
        assert(bounds[x] < bounds[y]);
    }
    assert(fewer[0] == bounds[0]);
    assert(fewer.last() == bounds.last());
    assert(bounds[i] < bounds[i + 1]);
    assert(bounds[i + 1] < bounds[i + 2]);
    assert(bounds[i + 2] <= piece.len()) by {
        if i + 2 < bounds.len() - 1 {
            assert(bounds[i + 2] < bounds[bounds.len() - 1]);
        }
    }
    let now = parts_at(piece, fewer);
    let want = join(parts, i);
    assert(now.len() == want.len());
    assert forall|k: int| 0 <= k < now.len() implies now[k] == want[k] by {
        if k < i {
            assert(fewer[k] == bounds[k] && fewer[k + 1] == bounds[k + 1]);
        } else if k == i {
            assert(fewer[k] == bounds[i] && fewer[k + 1] == bounds[i + 2]);
            assert(now[k] =~= parts[i] + parts[i + 1]);
        } else {
            assert(fewer[k] == bounds[k + 1] && fewer[k + 1] == bounds[k + 2]);
            assert(want[k] == parts[k + 1]);
        }
    }
    assert(now =~= want);
}

/// Merges a piece; `None` where a span it ends in has no rank.
pub fn try_byte_pair_merge(piece: &[u8], ranks: &RankTable) -> (ids: Option<Vec<u32>>)
    requires
        ranks.well_formed(),
    ensures
        match ids {
            Some(v) => merges(piece@, ranks@) && v@ == merge_ids(piece@, ranks@),
            None => !merges(piece@, ranks@),
        },
        piece@.len() != 1 && ids is Some ==> ids->0@.len() == spans(piece@, ranks@).len()
            && forall|i: int|
            0 <= i < ids->0@.len() ==> ranks@.dom().contains(spans(piece@, ranks@)[i])
                && #[trigger] ids->0@[i] == ranks@[spans(piece@, ranks@)[i]],
{
    let len = piece.len();
    let mut ids: Vec<u32> = Vec::new();
    if len == 0 {
        return Some(ids);
    }
    if len == 1 {
        let id: u32 = match ranks.get(piece) {
            Some(rank) => rank,
            None => 0,
        };
        ids.push(id);
        assert(ids@ =~= merge_ids(piece@, ranks@));
        return Some(ids);
    }
    let mut bounds: Vec<usize> = Vec::new();
    let mut i: usize = 0;
    while i < len
        invariant
            i <= len,
            bounds@.len() == i,
            forall|j: int| 0 <= j < i ==> bounds@[j] == j,
        decreases len - i,
    {
        bounds.push(i);
        i += 1;
    }
    bounds.push(len);
    proof {
        assert(are_bounds(piece@, bounds@));
        let parts = parts_at(piece@, bounds@);
        assert forall|k: int| 0 <= k < parts.len() implies parts[k] == singles(piece@)[k] by {
            assert(parts[k] =~= seq![piece@[k]]);
        }
        assert(parts =~= singles(piece@));
    }
    loop
        invariant
            ranks.well_formed(),
            are_bounds(piece@, bounds@),
            spans(piece@, ranks@) == merged(parts_at(piece@, bounds@), ranks@),
        ensures
            are_bounds(piece@, bounds@),
            spans(piece@, ranks@) == parts_at(piece@, bounds@),
        decreases bounds@.len(),
    {
        match best_place(piece, &bounds, ranks) {
            Some(at) => {
                proof {
                    removed_bound(piece@, bounds@, at as int);
                }
                assert(bounds@.len() == bounds.len());
                let _ = bounds.remove(at + 1);
            },
            None => {
                break ;
            },
        }
    }
    let n = bounds.len() - 1;
    let mut k: usize = 0;
    while k < n
        invariant
            k <= n,
            n == bounds@.len() - 1,
            piece@.len() > 1,
            ranks.well_formed(),
            are_bounds(piece@, bounds@),
            spans(piece@, ranks@) == parts_at(piece@, bounds@),
            ids@.len() == k,
            forall|j: int|
                0 <= j < k ==> ranks@.dom().contains(#[trigger] spans(piece@, ranks@)[j])
                    && ids@[j] == ranks@[spans(piece@, ranks@)[j]],
        decreases n - k,
    {
        proof {
            assert(bounds@[k as int] < bounds@[k + 1]);
            assert(bounds@[k + 1] <= piece@.len()) by {
                if k + 1 < bounds@.len() - 1 {
                    assert(bounds@[k + 1] < bounds@[bounds@.len() - 1]);
                }
            }
        }
        let span = slice_subrange(piece, bounds[k], bounds[k + 1]);
        assert(span@ == spans(piece@, ranks@)[k as int]);
        match ranks.get(span) {
            Some(rank) => {
                ids.push(rank);
            },
            None => {
                return None;
            },
        }
        k += 1;
    }
    assert(ids@ =~= merge_ids(piece@, ranks@));
    Some(ids)
}

/// Merges a piece: the adjacent pair of spans with the lowest rank, again
/// and again, until no adjacent pair has one; then gives each span's
/// rank, its token.
pub fn byte_pair_merge(piece: &[u8], ranks: &RankTable) -> (ids: Vec<u32>)
    requires
        ranks.well_formed(),
        merges(piece@, ranks@),
    ensures
        ids@ == merge_ids(piece@, ranks@),
{
    match try_byte_pair_merge(piece, ranks) {
        Some(ids) => ids,
        None => Vec::new(),
    }
}

/// Whether the pieces of a run all have tokens.
pub open spec fn pieces_known(pieces: Seq<Seq<char>>, ranks: Map<Seq<u8>, u32>) -> bool {
    forall|i: int|
        0 <= i < pieces.len() ==> ranks.dom().contains(encode_utf8(#[trigger] pieces[i])) || merges(
            encode_utf8(pieces[i]),
            ranks,
        )
}

/// The tokens of a piece: its own, where it has one, and those of the
/// spans it is merged into otherwise.
pub open spec fn piece_ids(piece: Seq<u8>, ranks: Map<Seq<u8>, u32>) -> Seq<u32> {
    if ranks.dom().contains(piece) {
        seq![ranks[piece]]
    } else {
        merge_ids(piece, ranks)
    }
}

/// The tokens of the first `n` pieces.
pub open spec fn pieces_ids(pieces: Seq<Seq<char>>, ranks: Map<Seq<u8>, u32>, n: int) -> Seq<u32>
    decreases n,
{
    if n <= 0 {
        seq![]
    } else {
        pieces_ids(pieces, ranks, n - 1) + piece_ids(encode_utf8(pieces[n - 1]), ranks)
    }
}

/// Whether a segment can be encoded.
pub open spec fn segment_known(segment: Segment, ranks: Map<Seq<u8>, u32>) -> bool {
    match segment {
        Segment::Special(_) => true,
        Segment::Text(run) => match regex_matches(PAT_STR@, run) {
            Some(pieces) => pieces_known(pieces, ranks),
            None => false,
        },
    }
}

/// The tokens of a segment that can be encoded.
pub open spec fn segment_ids(segment: Segment, ranks: Map<Seq<u8>, u32>) -> Seq<u32> {
    match segment {
        Segment::Special(id) => seq![id],
        Segment::Text(run) => {
            let pieces = regex_matches(PAT_STR@, run)->0;
            pieces_ids(pieces, ranks, pieces.len() as int)
        },
    }
}

/// The tokens of the first `n` segments.
pub open spec fn segments_ids(segs: Seq<Segment>, ranks: Map<Seq<u8>, u32>, n: int) -> Seq<u32>
    decreases n,
{
    if n <= 0 {
        seq![]
    } else {
        segments_ids(segs, ranks, n - 1) + segment_ids(segs[n - 1], ranks)
    }
}

/// The bytes of the first `n` tokens; a token that is none of the
/// vocabulary's has none.
pub open spec fn decoded_bytes(ids: Seq<u32>, back: Map<u32, Vec<u8>>, n: int) -> Seq<u8>
    decreases n,
{
    if n <= 0 {
        seq![]
    } else {
        decoded_bytes(ids, back, n - 1) + (if back.dom().contains(ids[n - 1]) {
            back[ids[n - 1]]@
        } else {
            seq![]
        })
    }
}

/// A tokenizer.
#[derive(Debug)]
pub struct KimiTokenizer {
    pub encoder: RankTable,
    pub decoder: std::collections::HashMap<u32, Vec<u8>>,
    pub special_table: SpecialTokenTable,
}

fn extend(to: &mut Vec<u32>, from: Vec<u32>)
    ensures
        final(to)@ == old(to)@ + from@,
{
    let mut from = from;
    to.append(&mut from);
}

impl KimiTokenizer {
    /// The decoder gives back, for each token of the vocabulary, bytes
    /// that have it.
    pub open spec fn well_formed(&self) -> bool {
        &&& self.encoder.well_formed()
        &&& forall|id: u32| #[trigger]
            self.decoder@.dom().contains(id) ==> self.encoder@.dom().contains(self.decoder@[id]@)
                && self.encoder@[self.decoder@[id]@] == id
        &&& forall|bytes: Seq<u8>| #[trigger]
            self.encoder@.dom().contains(bytes) ==> self.decoder@.dom().contains(
                self.encoder@[bytes],
            )
    }

    /// Whether every part of a text can be encoded.
    pub open spec fn encodes(&self, text: Seq<char>, specials: SpecialTokens) -> bool {
        let segs = segments(self.special_table.entries@, text, specials);
        forall|i: int|
            0 <= i < segs.len() ==> segment_known(#[trigger] segs[i], self.encoder@)
    }

    /// The tokens of a text that can be encoded.
    pub open spec fn ids_of(&self, text: Seq<char>, specials: SpecialTokens) -> Seq<u32> {
        let segs = segments(self.special_table.entries@, text, specials);
        segments_ids(segs, self.encoder@, segs.len() as int)
    }

    /// A tokenizer over a vocabulary and special tokens. It is refused
    /// where the pattern that cuts texts cannot be used.
    pub fn new(encoder: RankTable, special_tokens: SpecialTokenTable) -> (r: Result<
        Self,
        KimiTokenizerError,
    >)
        requires
            encoder.well_formed(),
        ensures
            match r {
                Ok(t) => {
                    &&& regex_matches(PAT_STR@, ""@) is Some
                    &&& t.well_formed()
                    &&& t.encoder == encoder
                    &&& t.special_table == special_tokens
                },
                Err(e) => regex_matches(PAT_STR@, ""@) is None && e is Regex,
            },
    {
        match find_matches(PAT_STR, "") {
            Ok(_) => {
                let decoder = encoder.inverse();
                Ok(KimiTokenizer { encoder, decoder, special_table: special_tokens })
            },
            Err(e) => Err(KimiTokenizerError::Regex(e)),
        }
    }

    /// How many byte strings the vocabulary has.
    pub fn vocab_size(&self) -> (n: usize)
        requires
            self.well_formed(),
        ensures
            n == self.encoder@.dom().len(),
    {
        self.encoder.len()
    }

    /// The token of a special token's name.
    pub fn special_token_id(&self, name: &str) -> (id: Option<u32>)
        ensures
            id == id_in(self.special_table.entries@, name@),
    {
        self.special_table.id_of(name)
    }

    /// The tokens of the pieces of a run; `None` where a piece has none.
    pub fn encode_pieces(&self, pieces: &[String]) -> (ids: Option<Vec<u32>>)
        requires
            self.well_formed(),
        ensures
            match ids {
                Some(v) => {
                    &&& pieces_known(string_views(pieces@), self.encoder@)
                    &&& v@ == pieces_ids(
                        string_views(pieces@),
                        self.encoder@,
                        pieces@.len() as int,
                    )
                },
                None => !pieces_known(string_views(pieces@), self.encoder@),
            },
    {
        let ghost views = string_views(pieces@);
        let mut out: Vec<u32> = Vec::new();
        let mut i: usize = 0;
        while i < pieces.len()
            invariant
                i <= pieces@.len(),
                self.well_formed(),
                views == string_views(pieces@),
                forall|j: int|
                    0 <= j < i ==> self.encoder@.dom().contains(encode_utf8(#[trigger] views[j]))
                        || merges(encode_utf8(views[j]), self.encoder@),
                out@ == pieces_ids(views, self.encoder@, i as int),
            decreases pieces@.len() - i,
        {
            assert(views[i as int] == pieces@[i as int]@);
            let bytes = pieces[i].as_str().as_bytes();
            match self.encoder.get(bytes) {
                Some(id) => {
                    let ghost was = out@;
                    out.push(id);
                    assert(out@ =~= was + seq![id]);
                },
                None => match try_byte_pair_merge(bytes, &self.encoder) {
                    Some(ids) => {
                        extend(&mut out, ids);
                    },
                    None => {
                        assert(!pieces_known(views, self.encoder@));
                        return None;
                    },
                },
            }
            i += 1;
        }
        Some(out)
    }

    /// Encodes a text; `None` where the search for its pieces fails or a
    /// piece has no tokens. Read as text, a special token's name is text
    /// like any other; parsed, it is the token.
    pub fn try_encode(&self, text: &str, specials: SpecialTokens) -> (ids: Option<Vec<u32>>)
        requires
            self.well_formed(),
        ensures
            match ids {
                Some(v) => self.encodes(text@, specials) && v@ == self.ids_of(text@, specials),
                None => !self.encodes(text@, specials),
            },
    {
        let segs = self.special_table.split(text, specials);
        let ghost views = segment_views(segs@);
        let mut out: Vec<u32> = Vec::new();
        let mut i: usize = 0;
        while i < segs.len()
            invariant
                i <= segs@.len(),
                self.well_formed(),
                views == segment_views(segs@),
                views == segments(self.special_table.entries@, text@, specials),
                forall|j: int|
                    0 <= j < i ==> segment_known(#[trigger] views[j], self.encoder@),
                out@ == segments_ids(views, self.encoder@, i as int),
            decreases segs@.len() - i,
        {
            assert(views[i as int] == segs@[i as int]@);
            match &segs[i] {
                TextOrSpecial::Special(id) => {
                    let ghost was = out@;
                    out.push(*id);
                    assert(out@ =~= was + seq![*id]);
                },
                TextOrSpecial::Text(run) => {
                    let found = match text_pieces(run) {
                        Some(pieces) => self.encode_pieces(pieces.as_slice()),
                        None => None,
                    };
                    match found {
                        Some(ids) => {
                            extend(&mut out, ids);
                        },
                        None => {
                            assert(!segment_known(views[i as int], self.encoder@));
                            return None;
                        },
                    }
                },
            }
            i += 1;
        }
        Some(out)
    }

    /// Encodes a text that can be encoded.
    pub fn encode(&self, text: &str, specials: SpecialTokens) -> (ids: Vec<u32>)
        requires
            self.well_formed(),
            self.encodes(text@, specials),
        ensures
            ids@ == self.ids_of(text@, specials),
    {
        match self.try_encode(text, specials) {
            Some(ids) => ids,
            None => Vec::new(),
        }
    }

    /// The text of tokens; a token that is none of the vocabulary's gives
    /// nothing.
    pub fn decode(&self, ids: &[u32]) -> (text: String)
        ensures
            ({
                let bytes = decoded_bytes(ids@, self.decoder@, ids@.len() as int);
                &&& text@ == lossy_chars(bytes)
                &&& valid_utf8(bytes) ==> text@ == decode_utf8(bytes)
            }),
    {
        broadcast use vstd::std_specs::hash::group_hash_axioms;

        let mut bytes: Vec<u8> = Vec::new();
        let mut i: usize = 0;
        while i < ids.len()
            invariant
                i <= ids@.len(),
                bytes@ == decoded_bytes(ids@, self.decoder@, i as int),
            decreases ids@.len() - i,
        {
            let ghost was = bytes@;
            match self.decoder.get(&ids[i]) {
                Some(b) => {
                    bytes.extend_from_slice(b.as_slice());
                    assert(bytes@ =~= was + b@);
                },
                None => {
                    assert(bytes@ =~= was + seq![]);
                },
            }
            i += 1;
        }
        lossy_text(bytes.as_slice())
    }
}

proof fn decoded_prefix(ids: Seq<u32>, more: Seq<u32>, back: Map<u32, Vec<u8>>, n: int)
    requires
        0 <= n <= ids.len(),
    ensures
        decoded_bytes(ids + more, back, n) == decoded_bytes(ids, back, n),
    decreases n,
{
    if n > 0 {
        decoded_prefix(ids, more, back, n - 1);
        assert((ids + more)[n - 1] == ids[n - 1]);
    }
}

proof fn decoded_sum(ids: Seq<u32>, more: Seq<u32>, back: Map<u32, Vec<u8>>, n: int)
    requires
        0 <= n <= more.len(),
    ensures
        decoded_bytes(ids + more, back, ids.len() + n) == decoded_bytes(
            ids,
            back,
            ids.len() as int,
        ) + decoded_bytes(more, back, n),
    decreases n,
{
    let head = decoded_bytes(ids, back, ids.len() as int);
    if n == 0 {
        decoded_prefix(ids, more, back, ids.len() as int);
        assert(head + decoded_bytes(more, back, 0) =~= head);
    } else {
        decoded_sum(ids, more, back, n - 1);
        assert((ids + more)[ids.len() + n - 1] == more[n - 1]);
        let last = if back.dom().contains(more[n - 1]) {
            back[more[n - 1]]@
        } else {
            seq![]
        };
        assert(head + decoded_bytes(more, back, n - 1) + last =~= head + (decoded_bytes(
            more,
            back,
            n - 1,
        ) + last));
    }
}

proof fn utf8_of_sum(a: Seq<char>, b: Seq<char>)
    ensures
        encode_utf8(a + b) == encode_utf8(a) + encode_utf8(b),
    decreases a.len(),
{
    if a.len() == 0 {
        assert(a + b =~= b);
        assert(encode_utf8(a) + encode_utf8(b) =~= encode_utf8(b));
    } else {
        assert((a + b).drop_first() =~= a.drop_first() + b);
        utf8_of_sum(a.drop_first(), b);
        assert(encode_utf8(a + b) =~= encode_utf8(a) + encode_utf8(b));
    }
}

/// Whether no two byte strings have the same rank.
pub open spec fn distinct_ranks(ranks: Map<Seq<u8>, u32>) -> bool {
    forall|a: Seq<u8>, b: Seq<u8>| #[trigger]
        ranks.dom().contains(a) && #[trigger] ranks.dom().contains(b) && ranks[a] == ranks[b] ==> a
            == b
}

proof fn one_token_decodes_back(t: KimiTokenizer, bytes: Seq<u8>)
    requires
        t.well_formed(),
        distinct_ranks(t.encoder@),
        t.encoder@.dom().contains(bytes),
    ensures
        t.decoder@.dom().contains(t.encoder@[bytes]),
        t.decoder@[t.encoder@[bytes]]@ == bytes,
{
    let id = t.encoder@[bytes];
    assert(t.decoder@.dom().contains(id));
    assert(t.encoder@.dom().contains(t.decoder@[id]@));
}

proof fn spans_decode_back(t: KimiTokenizer, parts: Seq<Seq<u8>>, n: int)
    requires
        t.well_formed(),
        distinct_ranks(t.encoder@),
        0 <= n <= parts.len(),
        forall|i: int| 0 <= i < parts.len() ==> t.encoder@.dom().contains(#[trigger] parts[i]),
    ensures
        decoded_bytes(
            Seq::new(parts.len(), |i: int| t.encoder@[parts[i]]),
            t.decoder@,
            n,
        ) == parts.take(n).flatten(),
    decreases n,
{
    if n == 0 {
        assert(parts.take(0) =~= seq![]);
        assert(parts.take(0).flatten() =~= seq![]);
    } else {
        spans_decode_back(t, parts, n - 1);
        one_token_decodes_back(t, parts[n - 1]);
        assert(parts.take(n) =~= parts.take(n - 1).push(parts[n - 1]));
        parts.take(n - 1).lemma_flatten_push(parts[n - 1]);
    }
}

/// The tokens of a piece give back its bytes, where every span has a rank
/// of its own.
pub proof fn a_piece_decodes_back(t: KimiTokenizer, piece: Seq<u8>)
    requires
        t.well_formed(),
        distinct_ranks(t.encoder@),
        t.encoder@.dom().contains(piece) || (piece.len() != 1 && merges(piece, t.encoder@)),
    ensures
        decoded_bytes(
            piece_ids(piece, t.encoder@),
            t.decoder@,
            piece_ids(piece, t.encoder@).len() as int,
        ) == piece,
{
    let ids = piece_ids(piece, t.encoder@);
    if t.encoder@.dom().contains(piece) {
        one_token_decodes_back(t, piece);
        assert(ids.len() == 1);
        assert(decoded_bytes(ids, t.decoder@, 0) =~= seq![]);
        assert(decoded_bytes(ids, t.decoder@, 1) =~= piece);
    } else if piece.len() == 0 {
        assert(decoded_bytes(ids, t.decoder@, 0) =~= piece);
    } else {
        let parts = spans(piece, t.encoder@);
        spans_are_the_piece(piece, t.encoder@);
        spans_decode_back(t, parts, parts.len() as int);
        assert(parts.take(parts.len() as int) =~= parts);
        assert(ids =~= Seq::new(parts.len(), |i: int| t.encoder@[parts[i]]));
    }
}

proof fn pieces_decode_back(t: KimiTokenizer, pieces: Seq<Seq<char>>, n: int)
    requires
        t.well_formed(),
        distinct_ranks(t.encoder@),
        0 <= n <= pieces.len(),
        forall|i: int|
            0 <= i < pieces.len() ==> {
                let piece = encode_utf8(#[trigger] pieces[i]);
                t.encoder@.dom().contains(piece) || (piece.len() != 1 && merges(piece, t.encoder@))
            },
    ensures
        decoded_bytes(
            pieces_ids(pieces, t.encoder@, n),
            t.decoder@,
            pieces_ids(pieces, t.encoder@, n).len() as int,
        ) == encode_utf8(pieces.take(n).flatten()),
    decreases n,
{
    if n == 0 {
        assert(pieces.take(0) =~= seq![]);
        assert(pieces.take(0).flatten() =~= seq![]);
        assert(decoded_bytes(seq![], t.decoder@, 0) =~= encode_utf8(seq![]));
    } else {
        let piece = encode_utf8(pieces[n - 1]);
        let head = pieces_ids(pieces, t.encoder@, n - 1);
        let tail = piece_ids(piece, t.encoder@);
        pieces_decode_back(t, pieces, n - 1);
        a_piece_decodes_back(t, piece);
        decoded_sum(head, tail, t.decoder@, tail.len() as int);
        assert(pieces.take(n) =~= pieces.take(n - 1).push(pieces[n - 1]));
        pieces.take(n - 1).lemma_flatten_push(pieces[n - 1]);
        utf8_of_sum(pieces.take(n - 1).flatten(), pieces[n - 1]);
    }
}

/// Decoding the tokens of a text gives the text back: where the pieces
/// that it is cut into are the text, no two byte strings have the same
/// rank, and every piece has a token or is merged into spans that do.
pub proof fn encoding_decodes_back(t: KimiTokenizer, text: Seq<char>, pieces: Seq<Seq<char>>)
    requires
        t.well_formed(),
        distinct_ranks(t.encoder@),
        regex_matches(PAT_STR@, text) == Some(pieces),
        pieces.flatten() == text,
        forall|i: int|
            0 <= i < pieces.len() ==> {
                let piece = encode_utf8(#[trigger] pieces[i]);
                t.encoder@.dom().contains(piece) || (piece.len() != 1 && merges(piece, t.encoder@))
            },
    ensures
        t.encodes(text, SpecialTokens::AsText),
        ({
            let ids = t.ids_of(text, SpecialTokens::AsText);
            let bytes = decoded_bytes(ids, t.decoder@, ids.len() as int);
            &&& valid_utf8(bytes)
            &&& decode_utf8(bytes) == text
        }),
{
    let segs = segments(t.special_table.entries@, text, SpecialTokens::AsText);
    let ids = t.ids_of(text, SpecialTokens::AsText);
    let run = pieces_ids(pieces, t.encoder@, pieces.len() as int);
    assert(segs.len() == 1 && segs[0] == Segment::Text(text));
    assert(segments_ids(segs, t.encoder@, 0) =~= seq![]);
    assert(ids =~= run);
    pieces_decode_back(t, pieces, pieces.len() as int);
    assert(pieces.take(pieces.len() as int) =~= pieces);
    vstd::utf8::encode_utf8_valid_utf8(text);
    vstd::utf8::encode_utf8_decode_utf8(text);
    assert(t.encodes(text, SpecialTokens::AsText));
}

/// The tokens of a merged piece are the ranks of its spans, one for one
/// and in order; a single byte is its own rank, and zero where it has
/// none.
pub proof fn tokens_are_the_ranks_of_the_spans(piece: Seq<u8>, ranks: Map<Seq<u8>, u32>, i: int)
    ensures
        piece.len() == 0 ==> merge_ids(piece, ranks).len() == 0,
        piece.len() == 1 && ranks.dom().contains(piece) ==> merge_ids(piece, ranks) == seq![
            ranks[piece],
        ],
        piece.len() == 1 && !ranks.dom().contains(piece) ==> merge_ids(piece, ranks) == seq![0u32],
        piece.len() > 1 ==> merge_ids(piece, ranks).len() == spans(piece, ranks).len(),
        piece.len() > 1 && 0 <= i < spans(piece, ranks).len() ==> merge_ids(piece, ranks)[i]
            == ranks[spans(piece, ranks)[i]],
        piece.len() > 1 && merges(piece, ranks) && 0 <= i < spans(piece, ranks).len()
            ==> ranks.dom().contains(spans(piece, ranks)[i]),
{
}

/// Which pieces merge: one that is in the vocabulary byte by byte or ends
/// in spans that are; a piece of more than one byte with a span that is
/// not in the vocabulary does not.
pub proof fn a_span_without_a_rank_stops_a_merge(
    piece: Seq<u8>,
    ranks: Map<Seq<u8>, u32>,
    i: int,
)
    requires
        piece.len() > 1,
        0 <= i < spans(piece, ranks).len(),
        !ranks.dom().contains(spans(piece, ranks)[i]),
    ensures
        !merges(piece, ranks),
{
}

/// The three-byte merge in tokens: with ranks for the single bytes and
/// for the two pairs, but none for all three together, the tokens are
/// those of the lower pair and of the byte beside it.
pub proof fn three_bytes_give_the_lower_pairs_token(
    x: u8,
    y: u8,
    z: u8,
    ranks: Map<Seq<u8>, u32>,
)
    requires
        !ranks.dom().contains(seq![x, y, z]),
        ranks.dom().contains(seq![x]),
        ranks.dom().contains(seq![z]),
        ranks.dom().contains(seq![x, y]),
        ranks.dom().contains(seq![y, z]),
    ensures
        merges(seq![x, y, z], ranks),
        ranks[seq![y, z]] < ranks[seq![x, y]] ==> merge_ids(seq![x, y, z], ranks) == seq![
            ranks[seq![x]],
            ranks[seq![y, z]],
        ],
        ranks[seq![x, y]] <= ranks[seq![y, z]] ==> merge_ids(seq![x, y, z], ranks) == seq![
            ranks[seq![x, y]],
            ranks[seq![z]],
        ],
{
    of_two_pairs_the_lower_rank_joins(x, y, z, ranks);
    let piece = seq![x, y, z];
    if ranks[seq![y, z]] < ranks[seq![x, y]] {
        assert(spans(piece, ranks)[0] == seq![x] && spans(piece, ranks)[1] == seq![y, z]);
        assert(merge_ids(piece, ranks) =~= seq![ranks[seq![x]], ranks[seq![y, z]]]);
    } else {
        assert(spans(piece, ranks)[0] == seq![x, y] && spans(piece, ranks)[1] == seq![z]);
        assert(merge_ids(piece, ranks) =~= seq![ranks[seq![x, y]], ranks[seq![z]]]);
    }
}

/// A piece that is in the vocabulary is its one token; any other is
/// merged. The tokens of a run are those of its pieces, in order.
pub proof fn a_runs_tokens_are_those_of_its_pieces(
    pieces: Seq<Seq<char>>,
    ranks: Map<Seq<u8>, u32>,
    n: int,
)
    requires
        0 <= n <= pieces.len(),
    ensures
        pieces_ids(pieces, ranks, n) == Seq::new(
            n as nat,
            |i: int|
                if ranks.dom().contains(encode_utf8(pieces[i])) {
                    seq![ranks[encode_utf8(pieces[i])]]
                } else {
                    merge_ids(encode_utf8(pieces[i]), ranks)
                },
        ).flatten(),
    decreases n,
{
    let parts = |n: int|
        Seq::new(
            n as nat,
            |i: int|
                if ranks.dom().contains(encode_utf8(pieces[i])) {
                    seq![ranks[encode_utf8(pieces[i])]]
                } else {
                    merge_ids(encode_utf8(pieces[i]), ranks)
                },
        );
    if n == 0 {
        assert(parts(0) =~= seq![]);
        assert(parts(0).flatten() =~= seq![]);
    } else {
        a_runs_tokens_are_those_of_its_pieces(pieces, ranks, n - 1);
        let last = piece_ids(encode_utf8(pieces[n - 1]), ranks);
        assert(parts(n) =~= parts(n - 1).push(last));
        parts(n - 1).lemma_flatten_push(last);
    }
}

proof fn segments_prefix(a: Seq<Segment>, b: Seq<Segment>, ranks: Map<Seq<u8>, u32>, n: int)
    requires
        0 <= n <= a.len(),
    ensures
        segments_ids(a + b, ranks, n) == segments_ids(a, ranks, n),
    decreases n,
{
    if n > 0 {
        segments_prefix(a, b, ranks, n - 1);
        assert((a + b)[n - 1] == a[n - 1]);
    }
}

proof fn segments_sum(a: Seq<Segment>, b: Seq<Segment>, ranks: Map<Seq<u8>, u32>, n: int)
    requires
        0 <= n <= b.len(),
    ensures
        segments_ids(a + b, ranks, a.len() + n) == segments_ids(a, ranks, a.len() as int)
            + segments_ids(b, ranks, n),
    decreases n,
{
    let head = segments_ids(a, ranks, a.len() as int);
    if n == 0 {
        segments_prefix(a, b, ranks, a.len() as int);
        assert(head + segments_ids(b, ranks, 0) =~= head);
    } else {
        segments_sum(a, b, ranks, n - 1);
        assert((a + b)[a.len() + n - 1] == b[n - 1]);
        let last = segment_ids(b[n - 1], ranks);
        assert(head + segments_ids(b, ranks, n - 1) + last =~= head + (segments_ids(
            b,
            ranks,
            n - 1,
        ) + last));
    }
}

/// A special token's name in a text that is parsed for them is its one
/// token, and what stands before and behind it is encoded on its own:
/// the tokens are those of the text before, then the token, then those of
/// the text behind.
pub proof fn a_special_name_is_one_token(
    t: KimiTokenizer,
    before: Seq<char>,
    after: Seq<char>,
    i: int,
)
    requires
        0 <= i < t.special_table.entries@.len(),
        t.special_table.entries@[i].name@.len() > 0,
        forall|j: int|
            #![trigger t.special_table.entries@[j]]
            0 <= j < t.special_table.entries@.len()
                && t.special_table.entries@[j].name@.is_prefix_of(
                t.special_table.entries@[i].name@ + after,
            ) ==> t.special_table.entries@[j].name@.len() <= t.special_table.entries@[i].name@.len(),
        forall|j: int|
            #![trigger t.special_table.entries@[j]]
            0 <= j < i ==> t.special_table.entries@[j].name@ != t.special_table.entries@[i].name@,
        forall|p: int, j: int|
            #![trigger (before + t.special_table.entries@[i].name@ + after).skip(p), t.special_table.entries@[j]]
            0 <= p < before.len() && 0 <= j < t.special_table.entries@.len()
                && t.special_table.entries@[j].name@.len() > 0
                ==> !t.special_table.entries@[j].name@.is_prefix_of(
                (before + t.special_table.entries@[i].name@ + after).skip(p),
            ),
    ensures
        ({
            let text = before + t.special_table.entries@[i].name@ + after;
            &&& t.ids_of(text, SpecialTokens::Parse) == (if before.len() > 0 {
                t.ids_of(before, SpecialTokens::AsText)
            } else {
                seq![]
            }) + seq![t.special_table.entries@[i].id] + t.ids_of(after, SpecialTokens::Parse)
            &&& t.encodes(text, SpecialTokens::Parse) <==> (before.len() > 0 ==> t.encodes(
                before,
                SpecialTokens::AsText,
            )) && t.encodes(after, SpecialTokens::Parse)
        }),
{
    let entries = t.special_table.entries@;
    let ranks = t.encoder@;
    let name = entries[i].name@;
    let id = entries[i].id;
    let text = before + name + after;
    a_name_is_cut_out_of_its_text(entries, before, after, i);
    let whole = segments(entries, text, SpecialTokens::Parse);
    let run = if before.len() > 0 {
        seq![Segment::Text(before)]
    } else {
        seq![]
    };
    let tail = segments(entries, after, SpecialTokens::Parse);
    let special = seq![Segment::Special(id)];
    assert(whole == run + special + tail);
    segments_sum(run + special, tail, ranks, tail.len() as int);
    segments_sum(run, special, ranks, 1);
    assert(segments_ids(special, ranks, 0) =~= seq![]);
    assert(segments_ids(special, ranks, 1) =~= seq![id]);
    if before.len() > 0 {
        assert(segments(entries, before, SpecialTokens::AsText) =~= run);
        assert(segments_ids(run, ranks, 1) == t.ids_of(before, SpecialTokens::AsText));
    } else {
        assert(segments_ids(run, ranks, 0) =~= seq![]);
    }
    let n = run.len() as int;
    if t.encodes(text, SpecialTokens::Parse) {
        assert forall|k: int| 0 <= k < tail.len() implies segment_known(
            #[trigger] tail[k],
            ranks,
        ) by {
            assert(whole[n + 1 + k] == tail[k]);
        }
        if before.len() > 0 {
            assert(whole[0] == run[0]);
            assert forall|k: int| 0 <= k < run.len() implies segment_known(
                #[trigger] run[k],
                ranks,
            ) by {}
        }
    }
    if (before.len() > 0 ==> t.encodes(before, SpecialTokens::AsText)) && t.encodes(
        after,
        SpecialTokens::Parse,
    ) {
        assert forall|k: int| 0 <= k < whole.len() implies segment_known(
            #[trigger] whole[k],
            ranks,
        ) by {
            if k < n {
                assert(whole[k] == run[k]);
                assert(segments(entries, before, SpecialTokens::AsText)[0] == run[0]);
            } else if k == n {
                assert(whole[k] == special[0]);
            } else {
                assert(whole[k] == tail[k - n - 1]);
            }
        }
    }
}

/// Read as text, a text is encoded piece by piece, whatever names of
/// special tokens are written in it: no special token comes of it.
pub proof fn text_gives_no_special_token(t: KimiTokenizer, text: Seq<char>)
    ensures
        t.encodes(text, SpecialTokens::AsText) <==> (regex_matches(PAT_STR@, text) matches Some(
            pieces,
        ) && forall|i: int|
            0 <= i < pieces.len() ==> t.encoder@.dom().contains(encode_utf8(#[trigger] pieces[i]))
                || merges(encode_utf8(pieces[i]), t.encoder@)),
        regex_matches(PAT_STR@, text) matches Some(pieces) ==> t.ids_of(
            text,
            SpecialTokens::AsText,
        ) == Seq::new(
            pieces.len(),
            |i: int|
                if t.encoder@.dom().contains(encode_utf8(pieces[i])) {
                    seq![t.encoder@[encode_utf8(pieces[i])]]
                } else {
                    merge_ids(encode_utf8(pieces[i]), t.encoder@)
                },
        ).flatten(),
{
    let segs = segments(t.special_table.entries@, text, SpecialTokens::AsText);
    assert(segs.len() == 1 && segs[0] == Segment::Text(text));
    assert(segments_ids(segs, t.encoder@, 0) =~= seq![]);
    match regex_matches(PAT_STR@, text) {
        Some(pieces) => {
            a_runs_tokens_are_those_of_its_pieces(pieces, t.encoder@, pieces.len() as int);
            assert(segments_ids(segs, t.encoder@, 1) =~= pieces_ids(
                pieces,
                t.encoder@,
                pieces.len() as int,
            ));
        },
        None => {},
    }
}

/// Decoding goes token by token, in order: the bytes of two runs of
/// tokens are the bytes of the first, then those of the second; a token
/// of the vocabulary gives its own bytes, and any other none.
pub proof fn decoding_goes_token_by_token(
    ids: Seq<u32>,
    more: Seq<u32>,
    back: Map<u32, Vec<u8>>,
    id: u32,
)
    ensures
        decoded_bytes(ids + more, back, (ids + more).len() as int) == decoded_bytes(
            ids,
            back,
            ids.len() as int,
        ) + decoded_bytes(more, back, more.len() as int),
        back.dom().contains(id) ==> decoded_bytes(seq![id], back, 1) == back[id]@,
        !back.dom().contains(id) ==> decoded_bytes(seq![id], back, 1).len() == 0,
        decoded_bytes(seq![], back, 0).len() == 0,
{
    decoded_sum(ids, more, back, more.len() as int);
    let one = seq![id];
    assert(decoded_bytes(one, back, 0) =~= seq![]);
    assert(one[0] == id);
    if back.dom().contains(id) {
        assert(decoded_bytes(one, back, 1) =~= back[id]@);
    }
}

proof fn first_place_is(s: Seq<char>, sep: char, from: int, at: int)
    requires
        0 <= from <= at < s.len(),
        s[at] == sep,
        forall|i: int| from <= i < at ==> #[trigger] s[i] != sep,
    ensures
        first_place(s, sep, from) == Some(at),
    decreases at - from,
{
    if from < at {
        first_place_is(s, sep, from + 1, at);
    }
}

/// A line of the vocabulary is read at its first space: what stands
/// before it is the base64 of the bytes, what stands behind it their
/// rank, in decimal. A line whose bytes or rank cannot be read is no
/// entry.
pub proof fn a_vocabulary_line_is_bytes_and_rank(head: Seq<char>, rank: u32)
    requires
        !head.contains(' '),
    ensures
        base64_bytes(head) is Some ==> line_entry(head + seq![' '] + decimal(rank as nat)) == Some(
            (base64_bytes(head)->0, rank),
        ),
        base64_bytes(head) is None ==> line_entry(head + seq![' '] + decimal(rank as nat)) is None,
{
    let line = head + seq![' '] + decimal(rank as nat);
    let at = head.len() as int;
    assert forall|i: int| 0 <= i < at implies #[trigger] line[i] != ' ' by {
        assert(line[i] == head[i]);
        assert(head.contains(head[i]));
    }
    first_place_is(line, ' ', 0, at);
    assert(line.take(at) =~= head);
    assert(line.skip(at + 1) =~= decimal(rank as nat));
    decimal_parses_back(rank as nat, u32::MAX as nat);
}

/// A vocabulary is refused at its first line that is no entry, by that
/// line's number; what is accepted holds, for each byte string, the rank
/// of the last line that names it. Lines of white space do not count.
pub proof fn the_last_line_of_a_byte_string_counts(
    lines: Seq<Seq<char>>,
    n: int,
    i: int,
    bytes: Seq<u8>,
)
    requires
        0 <= n <= lines.len(),
    ensures
        match vocab_of(lines, n) {
            Err((bad, line)) => {
                &&& 0 <= bad < n
                &&& line == trimmed(lines[bad])
                &&& line.len() > 0
                &&& line_entry(line) is None
                &&& forall|j: int|
                    0 <= j < bad ==> trimmed(#[trigger] lines[j]).len() == 0 || line_entry(
                        trimmed(lines[j]),
                    ) is Some
            },
            Ok(ranks) => {
                &&& forall|j: int|
                    0 <= j < n ==> trimmed(#[trigger] lines[j]).len() == 0 || line_entry(
                        trimmed(lines[j]),
                    ) is Some
                &&& 0 <= i < n && trimmed(lines[i]).len() > 0 ==> (line_entry(
                    trimmed(lines[i]),
                ) matches Some((named, rank)) && (named == bytes && (forall|j: int|
                    i < j < n && trimmed(#[trigger] lines[j]).len() > 0 ==> (line_entry(
                        trimmed(lines[j]),
                    ) matches Some((other, _)) && other != bytes)) ==> ranks.dom().contains(bytes)
                    && ranks[bytes] == rank))
                &&& ranks.dom().contains(bytes) ==> exists|j: int|
                    0 <= j < n && trimmed(#[trigger] lines[j]).len() > 0 && (line_entry(
                        trimmed(lines[j]),
                    ) matches Some((named, rank)) && named == bytes)
            },
        },
    decreases n,
{
    if n > 0 {
        the_last_line_of_a_byte_string_counts(lines, n - 1, i, bytes);
        let _ = lines[n - 1];
    }
}

/// Of the entries for one name the last counts whose number can be read;
/// a name without such an entry is no special token.
pub proof fn the_last_number_of_a_name_counts(
    entries: Seq<(String, String)>,
    name: Seq<char>,
    n: int,
    i: int,
)
    requires
        0 <= n <= entries.len(),
    ensures
        0 <= i < n && entries[i].1@ == name && parsed(entries[i].0@, u32::MAX as nat) is Some && (
        forall|j: int|
            i < j < n && (#[trigger] entries[j]).1@ == name ==> parsed(
                entries[j].0@,
                u32::MAX as nat,
            ) is None) ==> special_of(entries, name, n) == Some(
            parsed(entries[i].0@, u32::MAX as nat)->0 as u32,
        ),
        (forall|j: int|
            0 <= j < n && (#[trigger] entries[j]).1@ == name ==> parsed(
                entries[j].0@,
                u32::MAX as nat,
            ) is None) ==> special_of(entries, name, n) is None,
    decreases n,
{
    if n > 0 {
        the_last_number_of_a_name_counts(entries, name, n - 1, i);
        let _ = entries[n - 1];
    }
}

} // verus!
