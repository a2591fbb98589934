//! The vocabulary, the merges and the generation loop.

use ferrox_models::engine::TextTokenizer;
use ferrox_models::kimi_generate::{Action, Generation};
use ferrox_models::kimi_tokenizer::{
    byte_pair_merge, parse_special_tokens, parse_tiktoken_vocab, split_vocab_line, text_pieces,
    try_byte_pair_merge, vocab_entry, KimiTokenizer, KimiTokenizerError,
};
use ferrox_models::rank_table::RankTable;
use ferrox_models::tokenizer::{SpecialTokenTable, SpecialTokens, TextOrSpecial};

fn tiny_ranks() -> RankTable {
    let mut ranks = RankTable::new();
    for b in 0u32..256 {
        ranks.insert(vec![b as u8], b);
    }
    let mut next = 256u32;
    for bytes in [&b"he"[..], b"ll", b"hel", b"hell", b"hello"] {
        ranks.insert(bytes.to_vec(), next);
        next += 1;
    }
    ranks
}

fn no_specials() -> SpecialTokenTable {
    SpecialTokenTable::new()
}

#[test]
fn byte_pair_merge_prefers_the_lowest_rank_pair_first() {
    let ranks = tiny_ranks();
    let ids = byte_pair_merge(b"hello", &ranks);
    let hello_id = ranks.get(b"hello").unwrap();
    assert_eq!(ids, vec![hello_id]);
}

#[test]
fn byte_pair_merge_falls_back_to_single_bytes_with_no_mergeable_pairs() {
    let ranks = tiny_ranks();
    let ids = byte_pair_merge(b"xyz", &ranks);
    assert_eq!(ids, vec![b'x' as u32, b'y' as u32, b'z' as u32]);
}

#[test]
fn byte_pair_merge_merges_a_known_pair_but_not_unknown_neighbors() {
    let ranks = tiny_ranks();
    let ids = byte_pair_merge(b"hez", &ranks);
    let he_id = ranks.get(b"he").unwrap();
    assert_eq!(ids, vec![he_id, b'z' as u32]);
}

#[test]
fn of_equal_pairs_the_first_is_merged() {
    let ranks = tiny_ranks();
    assert_eq!(byte_pair_merge(b"lll", &ranks), vec![257, b'l' as u32]);
    assert_eq!(byte_pair_merge(b"", &ranks), Vec::<u32>::new());
}

#[test]
fn a_piece_without_tokens_is_told() {
    let mut ranks = RankTable::new();
    ranks.insert(b"a".to_vec(), 7);
    assert_eq!(try_byte_pair_merge(b"ab", &ranks), None);
    assert_eq!(try_byte_pair_merge(b"aa", &ranks), Some(vec![7, 7]));
    // One byte that the vocabulary lacks is token zero.
    assert_eq!(try_byte_pair_merge(b"b", &ranks), Some(vec![0]));
    let tok = KimiTokenizer::new(ranks, no_specials()).expect("regex must compile");
    assert_eq!(tok.try_encode("ab", SpecialTokens::AsText), None);
    assert_eq!(tok.try_encode("aa", SpecialTokens::AsText), Some(vec![7, 7]));
    assert_eq!(
        tok.encode_pieces(&["a".to_string(), "aa".to_string()]),
        Some(vec![7, 7, 7])
    );
}

#[test]
fn encode_decode_roundtrips_on_a_tiny_synthetic_vocab() {
    let ranks = tiny_ranks();
    let tok = KimiTokenizer::new(ranks, no_specials()).expect("regex must compile");
    let ids = tok.encode("hello", SpecialTokens::AsText);
    let back = tok.decode(&ids);
    assert_eq!(back, "hello");
}

#[test]
fn any_text_comes_back_where_every_byte_has_a_token() {
    let tok = KimiTokenizer::new(tiny_ranks(), no_specials()).expect("regex must compile");
    for text in ["hello, hell!", "Hi你好", "a1234\n  b", ""] {
        let ids = tok.encode(text, SpecialTokens::AsText);
        assert_eq!(tok.decode(&ids), text);
    }
    assert_eq!(tok.vocab_size(), 261);
}

#[test]
fn bytes_that_are_no_text_are_replaced() {
    let tok = KimiTokenizer::new(tiny_ranks(), no_specials()).expect("regex must compile");
    assert_eq!(tok.decode(&[b'a' as u32, 0xff, b'b' as u32]), "a\u{fffd}b");
    // A token that is none of the vocabulary's gives nothing.
    assert_eq!(tok.decode(&[b'a' as u32, 9_999, b'b' as u32]), "ab");
}

#[test]
fn a_written_marker_is_bytes_as_text_and_one_id_when_parsed() {
    let ranks = tiny_ranks();
    let specials = parse_special_tokens(&[("9000".to_string(), "[EOS]".to_string())]);
    let tok = KimiTokenizer::new(ranks, specials).expect("regex must compile");
    let as_text = tok.encode("hello[EOS]", SpecialTokens::AsText);
    assert!(!as_text.contains(&9_000), "got {as_text:?}");
    let parsed = tok.encode("hello[EOS]", SpecialTokens::Parse);
    assert_eq!(parsed.last(), Some(&9_000), "got {parsed:?}");
    assert_eq!(
        &parsed[..parsed.len() - 1],
        &tok.encode("hello", SpecialTokens::AsText)[..]
    );
    assert_eq!(tok.special_token_id("[EOS]"), Some(9_000));
    assert_eq!(tok.special_token_id("[BOS]"), None);
}

#[test]
fn split_regex_separates_words_punctuation_and_whitespace() {
    let pieces = text_pieces("hello, world!").expect("regex must compile");
    assert_eq!(pieces, vec!["hello", ",", " world", "!"]);
}

#[test]
fn split_regex_keeps_han_script_separate_from_latin_words() {
    let pieces = text_pieces("Hi你好").expect("regex must compile");
    assert_eq!(pieces, vec!["Hi", "你好"]);
}

#[test]
fn contractions_numbers_and_line_breaks_are_pieces() {
    assert_eq!(
        text_pieces("it's 12345\r\n x").unwrap(),
        vec!["it's", " ", "123", "45", "\r\n", " x"]
    );
}

#[test]
fn parses_a_real_tiktoken_format_vocab_file() {
    let text = "IQ== 0\nIg== 1\n";
    let ranks = parse_tiktoken_vocab(text).expect("must parse");
    assert_eq!(ranks.get(&[0x21]), Some(0));
    assert_eq!(ranks.get(&[0x22]), Some(1));
}

#[test]
fn ignores_blank_lines_in_a_tiktoken_vocab_file() {
    let text = "IQ== 0\n\nIg== 1\n\n";
    let ranks = parse_tiktoken_vocab(text).expect("must parse");
    assert_eq!(ranks.len(), 2);
}

#[test]
fn the_first_bad_line_is_named() {
    let bad = |text: &str| match parse_tiktoken_vocab(text) {
        Err(KimiTokenizerError::InvalidVocabLine(at, line)) => (at, line),
        other => panic!("{other:?}"),
    };
    assert_eq!(bad("IQ== 0\n\n IQ== x \n"), (2, "IQ== x".to_string()));
    assert_eq!(bad("IQ==\n"), (0, "IQ==".to_string()));
    assert_eq!(bad("I?== 4\n"), (0, "I?== 4".to_string()));
    assert_eq!(bad("IQ== -1"), (0, "IQ== -1".to_string()));
    assert_eq!(bad("IQ== 4294967296"), (0, "IQ== 4294967296".to_string()));
    // Of two ranks for the same bytes the later one counts.
    let ranks = parse_tiktoken_vocab("IQ== 0\r\nIQ== +5\r\n").unwrap();
    assert_eq!((ranks.len(), ranks.get(b"!")), (1, Some(5)));
    assert_eq!(split_vocab_line("a b c"), Some(("a", "b c")));
    assert_eq!(split_vocab_line("abc"), None);
    assert_eq!(vocab_entry(Some(vec![9]), "12"), Some((vec![9], 12)));
    assert_eq!(vocab_entry(None, "12"), None);
    assert_eq!(vocab_entry(Some(vec![9]), ""), None);
}

#[test]
fn parses_real_shaped_special_tokens_from_tokenizer_config_json() {
    let entries: Vec<(String, String)> = [
        ("163584", "[BOS]"),
        ("163585", "[EOS]"),
        ("163586", "<|end_of_msg|>"),
    ]
    .iter()
    .map(|(id, name)| (id.to_string(), name.to_string()))
    .collect();
    let tokens = parse_special_tokens(&entries);
    assert_eq!(tokens.id_of("[BOS]"), Some(163584));
    assert_eq!(tokens.id_of("[EOS]"), Some(163585));
    assert_eq!(tokens.id_of("<|end_of_msg|>"), Some(163586));
    assert_eq!(tokens.entries.len(), 3);
    let skipped = parse_special_tokens(&[("x1".to_string(), "[X]".to_string())]);
    assert_eq!(skipped.entries.len(), 0);
}

#[test]
fn the_longest_special_token_at_the_first_place_is_taken() {
    let mut table = SpecialTokenTable::new();
    table.insert("<a>", 1);
    table.insert("<a><b>", 2);
    table.insert("<a>", 3);
    let written = |specials: SpecialTokens| {
        table
            .split("x<a><b>y<a>", specials)
            .iter()
            .map(|s| match s {
                TextOrSpecial::Text(t) => t.to_string(),
                TextOrSpecial::Special(id) => format!("#{id}"),
            })
            .collect::<Vec<_>>()
    };
    assert_eq!(written(SpecialTokens::Parse), ["x", "#2", "y", "#3"]);
    assert_eq!(written(SpecialTokens::AsText), ["x<a><b>y<a>"]);
}

#[test]
fn the_rank_table_is_a_map_and_has_an_inverse() {
    let mut t = RankTable::new();
    assert_eq!((t.len(), t.get(b"")), (0, None));
    t.insert(b"".to_vec(), 3);
    t.insert(b"ab".to_vec(), 4);
    t.insert(b"ba".to_vec(), 5);
    t.insert(b"ab".to_vec(), 6);
    assert_eq!(t.len(), 3);
    assert_eq!((t.get(b""), t.get(b"ab"), t.get(b"ba")), (Some(3), Some(6), Some(5)));
    let back = t.inverse();
    assert_eq!(back.len(), 3);
    assert_eq!(back[&6], b"ab");
    assert!(!back.contains_key(&4));
}

#[test]
fn the_tokenizer_trait_reads_markers_as_text() {
    let specials = parse_special_tokens(&[("9000".to_string(), "[EOS]".to_string())]);
    let tok = KimiTokenizer::new(tiny_ranks(), specials).expect("regex must compile");
    let ids = TextTokenizer::encode(&tok, "hell[EOS]", SpecialTokens::AsText);
    assert!(!ids.contains(&9_000));
    assert_eq!(TextTokenizer::decode(&tok, &ids), "hell[EOS]");
    assert_eq!(tok.decode_bytes(&ids), b"hell[EOS]");
}

/// Runs a generation whose draws come from `draws`; gives the tokens fed
/// and the tokens kept.
fn run(prompt: Vec<u32>, max: usize, eos: Option<u32>, draws: &[u32]) -> (Vec<u32>, Vec<u32>) {
    let mut g = Generation::new(prompt, max, eos);
    let mut fed = Vec::new();
    let mut at = 0;
    loop {
        match g.action() {
            Action::Feed(t) => {
                fed.push(t);
                g.on_fed();
            }
            Action::Draw => {
                g.on_drawn(draws[at]);
                at += 1;
            }
            Action::Stop => return (fed, g.generated),
        }
    }
}

#[test]
fn kimi_generate_produces_a_finite_length_bounded_token_sequence() {
    let (fed, ids) = run(vec![104, 105], 5, None, &[7, 8, 9, 10, 11, 12]);
    assert!(
        ids.len() <= 5,
        "must never generate more than max_new_tokens: got {}",
        ids.len()
    );
    assert_eq!(ids, vec![7, 8, 9, 10, 11]);
    assert_eq!(fed, vec![104, 105, 7, 8, 9, 10, 11]);
    assert_eq!(run(vec![1], 0, None, &[]), (vec![1], vec![]));
}

#[test]
fn kimi_generate_stops_early_on_eos() {
    let (_, ids) = run(vec![1], 10, Some(3), &[3, 3, 3]);
    assert!(ids.is_empty());
    let (fed, ids) = run(vec![1], 10, Some(3), &[5, 6, 3, 9]);
    assert_eq!(ids, vec![5, 6]);
    assert_eq!(fed, vec![1, 5, 6]);
}
