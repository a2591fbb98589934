//! Text: comparing, measuring and building the strings that tensor
//! names, metadata keys and refusal messages are made of.
//!
//! A string is modelled by its sequence of characters. Numbers are
//! rendered by [`decimal_text`] and read back by [`parse_unsigned`],
//! whose models [`decimal`] and [`parsed`] are inverse to each other on
//! every number ([`decimal_parses_back`]).

use vstd::prelude::*;
use vstd::slice::slice_subrange;
use vstd::string::StrSliceExecFns;
use vstd::string::StringExecFns;
use vstd::utf8::encode_utf8;
use vstd::utf8::encode_utf8_decode_utf8;

verus! {

/// Whether two strings hold the same characters.
pub fn str_eq(a: &str, b: &str) -> (same: bool)
    ensures
        same == (a@ == b@),
{
    let x = a.as_bytes();
    let y = b.as_bytes();
    proof {
        encode_utf8_decode_utf8(a@);
        encode_utf8_decode_utf8(b@);
        assert(a@ != b@ ==> encode_utf8(a@) != encode_utf8(b@));
    }
    if x.len() != y.len() {
        return false;
    }
    let mut i: usize = 0;
    while i < x.len()
        invariant
            x@ == encode_utf8(a@),
            y@ == encode_utf8(b@),
            x@.len() == y@.len(),
            i <= x@.len(),
            a@ != b@ ==> x@ != y@,
            forall|j: int| 0 <= j < i ==> x@[j] == y@[j],
        decreases x@.len() - i,
    {
        if x[i] != y[i] {
            return false;
        }
        i += 1;
    }
    assert(x@ =~= y@);
    true
}

/// Whether `names` holds the string `s`.
pub open spec fn has_name(names: Seq<&str>, s: Seq<char>) -> bool {
    exists|i: int| 0 <= i < names.len() && (#[trigger] names[i])@ == s
}

/// Whether one of `names` is the string `s`.
pub fn contains_name(names: &[&str], s: &str) -> (found: bool)
    ensures
        found == has_name(names@, s@),
{
    let mut i: usize = 0;
    while i < names.len()
        invariant
            i <= names@.len(),
            forall|j: int| 0 <= j < i ==> (#[trigger] names@[j])@ != s@,
        decreases names@.len() - i,
    {
        if str_eq(names[i], s) {
            return true;
        }
        i += 1;
    }
    false
}

/// The characters of a string.
pub fn chars_of(s: &str) -> (out: Vec<char>)
    ensures
        out@ == s@,
{
    let mut out: Vec<char> = Vec::new();
    for c in iter: s.chars()
        invariant
            iter.seq() == s@,
            out@ == s@.take(iter.index() as int),
    {
        out.push(c);
        assert(out@ =~= s@.take(iter.index() as int + 1));
    }
    assert(s@.take(s@.len() as int) =~= s@);
    out
}

/// The character that writes the digit `d`.
pub open spec fn digit_char(d: nat) -> char {
    ('0' as u32 + d) as char
}

/// The decimal writing of `n`, with no leading zero.
pub open spec fn decimal(n: nat) -> Seq<char>
    decreases n,
{
    if n < 10 {
        seq![digit_char(n)]
    } else {
        decimal(n / 10).push(digit_char(n % 10))
    }
}

fn digit_text(d: u64) -> (t: &'static str)
    requires
        d < 10,
    ensures
        t@ == seq![digit_char(d as nat)],
{
    proof {
        reveal_strlit("0");
        reveal_strlit("1");
        reveal_strlit("2");
        reveal_strlit("3");
        reveal_strlit("4");
        reveal_strlit("5");
        reveal_strlit("6");
        reveal_strlit("7");
        reveal_strlit("8");
        reveal_strlit("9");
    }
    let t = if d == 0 {
        "0"
    } else if d == 1 {
        "1"
    } else if d == 2 {
        "2"
    } else if d == 3 {
        "3"
    } else if d == 4 {
        "4"
    } else if d == 5 {
        "5"
    } else if d == 6 {
        "6"
    } else if d == 7 {
        "7"
    } else if d == 8 {
        "8"
    } else {
        "9"
    };
    assert(t@ =~= seq![digit_char(d as nat)]);
    t
}

/// Writes `n` in decimal.
pub fn decimal_text(n: u64) -> (t: String)
    ensures
        t@ == decimal(n as nat),
    decreases n,
{
    let last = digit_text(n % 10);
    if n < 10 {
        String::from_str(last)
    } else {
        let t = decimal_text(n / 10).concat(last);
        assert(t@ =~= decimal(n as nat));
        t
    }
}

/// The value of a decimal digit, if `c` is one.
pub open spec fn digit_value(c: char) -> Option<nat> {
    if '0' <= c <= '9' {
        Some((c as u32 - '0' as u32) as nat)
    } else {
        None
    }
}

/// The number written by the digits `s`, most significant first; `None`
/// if a character is not a digit. No digits at all write zero.
pub open spec fn digits_value(s: Seq<char>) -> Option<nat>
    decreases s.len(),
{
    if s.len() == 0 {
        Some(0)
    } else {
        match (digits_value(s.drop_last()), digit_value(s.last())) {
            (Some(head), Some(d)) => Some(head * 10 + d),
            _ => None,
        }
    }
}

/// What reading `s` as an unsigned integer of at most `max` gives: an
/// optional `+`, then at least one digit, no other character, and a
/// value in range.
pub open spec fn parsed(s: Seq<char>, max: nat) -> Option<nat> {
    let digits = if s.len() > 0 && s[0] == '+' {
        s.skip(1)
    } else {
        s
    };
    if digits.len() == 0 {
        None
    } else {
        match digits_value(digits) {
            Some(n) if n <= max => Some(n),
            _ => None,
        }
    }
}

proof fn digits_value_grows(s: Seq<char>, k: int)
    requires
        0 <= k <= s.len(),
    ensures
        digits_value(s.take(k)) is None ==> digits_value(s) is None,
        digits_value(s.take(k)) is Some && digits_value(s) is Some ==> digits_value(s.take(k))->0
            <= digits_value(s)->0,
    decreases s.len() - k,
{
    if k < s.len() {
        digits_value_grows(s, k + 1);
        assert(s.take(k + 1).drop_last() =~= s.take(k));
    } else {
        assert(s.take(k) =~= s);
    }
}

/// Reads an unsigned integer of at most `max`, as [`parsed`] says.
pub fn parse_unsigned(s: &[char], max: u64) -> (value: Option<u64>)
    ensures
        value is Some <==> parsed(s@, max as nat) is Some,
        value is Some ==> value->0 as nat == parsed(s@, max as nat)->0,
{
    let start: usize = if s.len() > 0 && s[0] == '+' {
        1
    } else {
        0
    };
    let ghost digits = if s@.len() > 0 && s@[0] == '+' {
        s@.skip(1)
    } else {
        s@
    };
    assert(digits =~= s@.skip(start as int));
    if start == s.len() {
        return None;
    }
    let mut i: usize = start;
    let mut value: u64 = 0;
    while i < s.len()
        invariant
            start <= i <= s@.len(),
            start <= 1,
            digits == s@.skip(start as int),
            digits.len() > 0,
            value <= max,
            parsed(s@, max as nat) == (match digits_value(digits) {
                Some(n) if n <= max => Some(n),
                _ => None,
            }),
            digits_value(digits.take(i - start)) == Some(value as nat),
        decreases s@.len() - i,
    {
        let c = s[i];
        let ghost next = digits.take(i - start + 1);
        proof {
            assert(next.drop_last() =~= digits.take(i - start));
            assert(next.last() == c);
            digits_value_grows(digits, i - start + 1);
        }
        if c < '0' || c > '9' {
            return None;
        }
        let d: u64 = (c as u32 - '0' as u32) as u64;
        if value > max / 10 || d > max - value * 10 {
            proof {
                assert(digits_value(next) == Some((value as nat) * 10 + d as nat));
                assert(value * 10 + d > max) by {
                    if value > max / 10 {
                        assert(value * 10 > max);
                    }
                }
            }
            return None;
        }
        value = value * 10 + d;
        i += 1;
    }
    assert(digits.take(digits.len() as int) =~= digits);
    Some(value)
}

/// The digits written by [`decimal`] read back as the number they were
/// written for.
pub proof fn decimal_parses_back(n: nat, max: nat)
    requires
        n <= max,
    ensures
        parsed(decimal(n), max) == Some(n),
{
    decimal_digits(n);
}

pub proof fn decimal_digits(n: nat)
    ensures
        digits_value(decimal(n)) == Some(n),
        decimal(n).len() > 0,
        '0' <= decimal(n)[0] <= '9',
    decreases n,
{
    if n < 10 {
        let s = seq![digit_char(n)];
        assert(s.drop_last() =~= Seq::<char>::empty());
        assert(digits_value(s.drop_last()) == Some(0nat));
        assert(s.last() == digit_char(n));
        assert(digit_value(digit_char(n)) == Some(n));
    } else {
        decimal_digits(n / 10);
        let s = decimal(n);
        assert(s.drop_last() =~= decimal(n / 10));
        assert(digit_value(digit_char(n % 10)) == Some(n % 10));
    }
}

/// Two numbers with the same decimal writing are equal.
pub proof fn decimal_is_injective(m: nat, n: nat)
    requires
        decimal(m) == decimal(n),
    ensures
        m == n,
{
    decimal_digits(m);
    decimal_digits(n);
}

/// `true` or `false`.
pub open spec fn bool_chars(b: bool) -> Seq<char> {
    if b {
        "true"@
    } else {
        "false"@
    }
}

/// Writes a truth value.
pub fn bool_text(b: bool) -> (t: &'static str)
    ensures
        t@ == bool_chars(b),
{
    if b {
        "true"
    } else {
        "false"
    }
}

/// The metadata key `{arch}.{suffix}`.
pub open spec fn arch_key(arch: Seq<char>, suffix: Seq<char>) -> Seq<char> {
    arch + "."@ + suffix
}

/// Builds the metadata key `{arch}.{suffix}`.
pub fn arch_key_text(arch: &str, suffix: &str) -> (key: String)
    ensures
        key@ == arch_key(arch@, suffix@),
{
    String::from_str(arch).concat(".").concat(suffix)
}

/// The tensor name `blk.{layer}.{rest}`.
pub open spec fn block_name(layer: nat, rest: Seq<char>) -> Seq<char> {
    "blk."@ + decimal(layer) + "."@ + rest
}

/// Builds the tensor name `blk.{layer}.{rest}`.
pub fn block_name_text(layer: usize, rest: &str) -> (name: String)
    ensures
        name@ == block_name(layer as nat, rest@),
{
    String::from_str("blk.").concat(decimal_text(layer as u64).as_str()).concat(".").concat(rest)
}

/// Whether `s` begins with `prefix`.
pub fn starts_with(s: &str, prefix: &str) -> (yes: bool)
    ensures
        yes == (s@.len() >= prefix@.len() && s@.take(prefix@.len() as int) == prefix@),
{
    let n = prefix.unicode_len();
    if s.unicode_len() < n {
        return false;
    }
    str_eq(s.substring_char(0, n), prefix)
}

/// Whether `s` ends with `suffix`.
pub fn ends_with(s: &str, suffix: &str) -> (yes: bool)
    ensures
        yes == suffix@.is_suffix_of(s@),
{
    let n = suffix.unicode_len();
    let len = s.unicode_len();
    if len < n {
        return false;
    }
    str_eq(s.substring_char(len - n, len), suffix)
}

/// What is left of `s` once `suffix` is cut off its end, if it ends so.
pub fn strip_suffix<'a>(s: &'a str, suffix: &str) -> (rest: Option<&'a str>)
    ensures
        rest is Some <==> suffix@.is_suffix_of(s@),
        rest is Some ==> rest->0@ == s@.take(s@.len() - suffix@.len()),
{
    if ends_with(s, suffix) {
        let n = suffix.unicode_len();
        let len = s.unicode_len();
        Some(s.substring_char(0, len - n))
    } else {
        None
    }
}

/// Whether two characters are the same but for the case of an ASCII
/// letter.
pub open spec fn same_letter(a: char, b: char) -> bool {
    ||| a == b
    ||| 'A' <= a <= 'Z' && b as u32 == a as u32 + 32
    ||| 'A' <= b <= 'Z' && a as u32 == b as u32 + 32
}

/// Whether two strings are the same but for the case of ASCII letters.
pub open spec fn same_letters(a: Seq<char>, b: Seq<char>) -> bool {
    a.len() == b.len() && forall|i: int| 0 <= i < a.len() ==> same_letter(#[trigger] a[i], b[i])
}

/// Whether two strings are the same but for the case of ASCII letters.
pub fn eq_ignore_ascii_case(a: &str, b: &str) -> (same: bool)
    ensures
        same == same_letters(a@, b@),
{
    let x = chars_of(a);
    let y = chars_of(b);
    if x.len() != y.len() {
        return false;
    }
    let mut i: usize = 0;
    while i < x.len()
        invariant
            x@ == a@,
            y@ == b@,
            x@.len() == y@.len(),
            i <= x@.len(),
            forall|j: int| 0 <= j < i ==> same_letter(#[trigger] x@[j], y@[j]),
        decreases x@.len() - i,
    {
        let a_char = x[i];
        let b_char = y[i];
        let c: u32 = a_char as u32;
        let d: u32 = b_char as u32;
        let same = a_char == b_char || ('A' <= a_char && a_char <= 'Z' && d == c + 32) || ('A'
            <= b_char && b_char <= 'Z' && c == d + 32);
        if !same {
            assert(!same_letter(a@[i as int], b@[i as int]));
            return false;
        }
        i += 1;
    }
    true
}

/// Whether a character has the Unicode property White_Space.
pub open spec fn white_space(c: char) -> bool {
    let n: u32 = c as u32;
    ||| 0x09 <= n <= 0x0d
    ||| n == 0x20
    ||| n == 0x85
    ||| n == 0xa0
    ||| n == 0x1680
    ||| 0x2000 <= n <= 0x200a
    ||| n == 0x2028
    ||| n == 0x2029
    ||| n == 0x202f
    ||| n == 0x205f
    ||| n == 0x3000
}

/// Whether a character has the Unicode property White_Space.
pub fn is_white_space(c: char) -> (yes: bool)
    ensures
        yes == white_space(c),
{
    let n: u32 = c as u32;
    (n >= 0x09 && n <= 0x0d) || n == 0x20 || n == 0x85 || n == 0xa0 || n == 0x1680 || (n >= 0x2000
        && n <= 0x200a) || n == 0x2028 || n == 0x2029 || n == 0x202f || n == 0x205f || n == 0x3000
}

/// `s` without the white space at its start.
pub open spec fn trim_start(s: Seq<char>) -> Seq<char>
    decreases s.len(),
{
    if s.len() > 0 && white_space(s[0]) {
        trim_start(s.skip(1))
    } else {
        s
    }
}

/// `s` without the white space at its end.
pub open spec fn trim_end(s: Seq<char>) -> Seq<char>
    decreases s.len(),
{
    if s.len() > 0 && white_space(s.last()) {
        trim_end(s.drop_last())
    } else {
        s
    }
}

/// `s` without the white space at either end.
pub open spec fn trimmed(s: Seq<char>) -> Seq<char> {
    trim_end(trim_start(s))
}

/// Cuts the white space off both ends of a string.
pub fn trim(s: &str) -> (t: &str)
    ensures
        t@ == trimmed(s@),
{
    let chars = chars_of(s);
    let n = chars.len();
    let mut from: usize = 0;
    assert(s@.skip(0) =~= s@);
    while from < n && is_white_space(chars[from])
        invariant
            n == chars@.len(),
            chars@ == s@,
            from <= n,
            trim_start(s@) == trim_start(s@.skip(from as int)),
        decreases n - from,
    {
        assert(s@.skip(from as int).skip(1) =~= s@.skip(from + 1));
        from += 1;
    }
    let ghost head = s@.skip(from as int);
    assert(trim_start(s@) == head);
    let mut to: usize = n;
    assert(head =~= s@.subrange(from as int, n as int));
    while to > from && is_white_space(chars[to - 1])
        invariant
            n == chars@.len(),
            chars@ == s@,
            from <= to <= n,
            trimmed(s@) == trim_end(s@.subrange(from as int, to as int)),
        decreases to,
    {
        assert(s@.subrange(from as int, to as int).drop_last() =~= s@.subrange(
            from as int,
            to - 1,
        ));
        to -= 1;
    }
    s.substring_char(from, to)
}

/// The pieces of `s` between the places where `sep` stands.
pub open spec fn split_on(s: Seq<char>, sep: char) -> Seq<Seq<char>>
    decreases s.len(),
{
    if s.len() == 0 {
        seq![seq![]]
    } else {
        let head = split_on(s.drop_last(), sep);
        if s.last() == sep {
            head.push(seq![])
        } else {
            head.drop_last().push(head.last().push(s.last()))
        }
    }
}

/// The characters of each of `parts`.
pub open spec fn part_views(parts: Seq<&str>) -> Seq<Seq<char>> {
    Seq::new(parts.len(), |i: int| parts[i]@)
}

/// Cuts a string wherever `sep` stands.
pub fn split<'a>(s: &'a str, sep: char) -> (parts: Vec<&'a str>)
    ensures
        part_views(parts@) == split_on(s@, sep),
{
    let chars = chars_of(s);
    let n = chars.len();
    let mut parts: Vec<&'a str> = Vec::new();
    let mut from: usize = 0;
    let mut i: usize = 0;
    proof {
        assert(s@.take(0) =~= Seq::<char>::empty());
        assert(split_on(s@.take(0), sep) =~= seq![s@.subrange(0, 0)]);
        assert(part_views(parts@) =~= split_on(s@.take(0), sep).drop_last());
    }
    while i < n
        invariant
            n == chars@.len(),
            chars@ == s@,
            from <= i <= n,
            split_on(s@.take(i as int), sep).len() > 0,
            part_views(parts@) == split_on(s@.take(i as int), sep).drop_last(),
            s@.subrange(from as int, i as int) == split_on(s@.take(i as int), sep).last(),
        decreases n - i,
    {
        let ghost next = s@.take(i + 1);
        let ghost was = parts@;
        assert(next.drop_last() =~= s@.take(i as int));
        assert(next.last() == chars@[i as int]);
        if chars[i] == sep {
            parts.push(s.substring_char(from, i));
            from = i + 1;
            proof {
                let head = split_on(s@.take(i as int), sep);
                assert(part_views(parts@) =~= part_views(was).push(head.last()));
                assert(part_views(parts@) =~= head);
                assert(split_on(next, sep).drop_last() =~= head);
                assert(s@.subrange(i + 1, i + 1) =~= Seq::<char>::empty());
            }
        } else {
            proof {
                let head = split_on(s@.take(i as int), sep);
                assert(split_on(next, sep).drop_last() =~= head.drop_last());
                assert(s@.subrange(from as int, i + 1) =~= head.last().push(s@[i as int]));
            }
        }
        i += 1;
    }
    let ghost was = parts@;
    parts.push(s.substring_char(from, n));
    proof {
        let whole = split_on(s@, sep);
        assert(s@.take(n as int) =~= s@);
        assert(part_views(parts@) =~= part_views(was).push(whole.last()));
        assert(whole =~= whole.drop_last().push(whole.last()));
    }
    parts
}

/// The place of the last `sep` of `s` below `n`; `None` where there is
/// none.
pub open spec fn last_place(s: Seq<char>, sep: char, n: int) -> Option<int>
    decreases n,
{
    if n <= 0 || n > s.len() {
        None
    } else if s[n - 1] == sep {
        Some(n - 1)
    } else {
        last_place(s, sep, n - 1)
    }
}

/// Cuts a string at its last `sep`, which goes with neither part.
pub fn rsplit_once<'a>(s: &'a str, sep: char) -> (parts: Option<(&'a str, &'a str)>)
    ensures
        match last_place(s@, sep, s@.len() as int) {
            None => parts is None,
            Some(at) => match parts {
                Some((head, tail)) => head@ == s@.take(at) && tail@ == s@.skip(at + 1),
                None => false,
            },
        },
{
    let chars = chars_of(s);
    let n = chars.len();
    let mut i: usize = n;
    while i > 0
        invariant
            n == chars@.len(),
            chars@ == s@,
            i <= n,
            last_place(s@, sep, s@.len() as int) == last_place(s@, sep, i as int),
        decreases i,
    {
        if chars[i - 1] == sep {
            let head = s.substring_char(0, i - 1);
            let tail = s.substring_char(i, n);
            assert(head@ =~= s@.take(i - 1));
            assert(tail@ =~= s@.skip(i as int));
            return Some((head, tail));
        }
        i -= 1;
    }
    None
}

/// The place of the first `sep` of `s` at or after `from`; `None` where
/// there is none.
pub open spec fn first_place(s: Seq<char>, sep: char, from: int) -> Option<int>
    decreases s.len() - from,
{
    if from < 0 || from >= s.len() {
        None
    } else if s[from] == sep {
        Some(from)
    } else {
        first_place(s, sep, from + 1)
    }
}

proof fn first_place_is_in_range(s: Seq<char>, sep: char, from: int)
    ensures
        first_place(s, sep, from) matches Some(at) ==> from <= at < s.len() && s[at] == sep,
    decreases s.len() - from,
{
    if 0 <= from < s.len() && s[from] != sep {
        first_place_is_in_range(s, sep, from + 1);
    }
}

/// Cuts a string at its first `sep`, which goes with neither part.
pub fn split_once<'a>(s: &'a str, sep: char) -> (parts: Option<(&'a str, &'a str)>)
    ensures
        match first_place(s@, sep, 0) {
            None => parts is None,
            Some(at) => match parts {
                Some((head, tail)) => head@ == s@.take(at) && tail@ == s@.skip(at + 1),
                None => false,
            },
        },
{
    let chars = chars_of(s);
    let n = chars.len();
    let mut i: usize = 0;
    while i < n
        invariant
            n == chars@.len(),
            chars@ == s@,
            i <= n,
            first_place(s@, sep, 0) == first_place(s@, sep, i as int),
        decreases n - i,
    {
        if chars[i] == sep {
            let head = s.substring_char(0, i);
            let tail = s.substring_char(i + 1, n);
            assert(head@ =~= s@.take(i as int));
            assert(tail@ =~= s@.skip(i + 1));
            return Some((head, tail));
        }
        i += 1;
    }
    None
}

/// `n` zeros.
pub open spec fn zeros(n: nat) -> Seq<char> {
    Seq::new(n, |i: int| '0')
}

fn zeros_text(n: u64) -> (t: String)
    ensures
        t@ == zeros(n as nat),
{
    proof {
        reveal_strlit("0");
    }
    let mut t = String::new();
    let mut i: u64 = 0;
    assert(t@ =~= zeros(0));
    while i < n
        invariant
            i <= n,
            t@ == zeros(i as nat),
            "0"@ == seq!['0'],
        decreases n - i,
    {
        t.append("0");
        i += 1;
        assert(t@ =~= zeros(i as nat));
    }
    t
}

/// The number `d.ddd`, of these digits, with its point moved `n` places:
/// to the left, or to the right.
pub open spec fn point_moved(digits: Seq<char>, n: nat, left: bool) -> Seq<char> {
    if left && n > 0 {
        "0."@ + zeros((n - 1) as nat) + digits
    } else if digits.len() <= n + 1 {
        digits + zeros((n + 1 - digits.len()) as nat)
    } else {
        digits.take(n as int + 1) + "."@ + digits.skip(n as int + 1)
    }
}

fn point_moved_text(digits: &str, n: u64, left: bool) -> (t: String)
    requires
        n < 1_000,
    ensures
        t@ == point_moved(digits@, n as nat, left),
{
    if left && n > 0 {
        return String::from_str("0.").concat(zeros_text(n - 1).as_str()).concat(digits);
    }
    let len = digits.unicode_len();
    let whole: usize = n as usize + 1;
    if len <= whole {
        String::from_str(digits).concat(zeros_text((whole - len) as u64).as_str())
    } else {
        let t = String::from_str(digits.substring_char(0, whole)).concat(".").concat(
            digits.substring_char(whole, len),
        );
        assert(t@ =~= point_moved(digits@, n as nat, left));
        t
    }
}

/// The digits of a number `d.ddd` or `d`.
pub open spec fn bare_digits(number: Seq<char>) -> Seq<char> {
    if number.len() >= 2 && number[1] == '.' {
        number.take(1) + number.skip(2)
    } else {
        number
    }
}

/// The largest exponent that is written out.
pub const MAX_EXPONENT: u64 = 999;

/// What an exponent says: how far the point moves, and whether it moves
/// to the left.
pub open spec fn exponent(s: Seq<char>) -> Option<(nat, bool)> {
    let left = s.len() > 0 && s[0] == '-';
    let n = if left {
        parsed(s.skip(1), MAX_EXPONENT as nat)
    } else {
        parsed(s, MAX_EXPONENT as nat)
    };
    match n {
        Some(n) => Some((n, left)),
        None => None,
    }
}

fn read_exponent(s: &str) -> (e: Option<(u64, bool)>)
    ensures
        match e {
            Some((n, left)) => exponent(s@) == Some((n as nat, left)) && n <= MAX_EXPONENT,
            None => exponent(s@) is None,
        },
{
    let chars = chars_of(s);
    let left = chars.len() > 0 && chars[0] == '-';
    let from: usize = if left {
        1
    } else {
        0
    };
    let digits = slice_subrange(chars.as_slice(), from, chars.len());
    assert(left ==> digits@ =~= s@.skip(1));
    assert(!left ==> digits@ =~= s@);
    match parse_unsigned(digits, MAX_EXPONENT) {
        Some(n) => Some((n, left)),
        None => None,
    }
}

/// A float's shortest writing, with all its digits: one with an exponent,
/// such as `1.5e-7`, has its point moved, and one with a fraction of zero
/// goes without it. Anything else is left as it is.
pub open spec fn written_out(float: Seq<char>) -> Seq<char> {
    match first_place(float, 'e', 0) {
        None => if ".0"@.is_suffix_of(float) {
            float.take(float.len() - ".0"@.len())
        } else {
            float
        },
        Some(at) => match exponent(float.skip(at + 1)) {
            None => float,
            Some((n, left)) => if at > 0 && float[0] == '-' {
                "-"@ + point_moved(bare_digits(float.subrange(1, at)), n, left)
            } else {
                point_moved(bare_digits(float.take(at)), n, left)
            },
        },
    }
}

fn bare_digits_text(number: &str) -> (t: String)
    ensures
        t@ == bare_digits(number@),
{
    let n = number.unicode_len();
    if n >= 2 && number.get_char(1) == '.' {
        let t = String::from_str(number.substring_char(0, 1)).concat(number.substring_char(2, n));
        assert(t@ =~= bare_digits(number@));
        t
    } else {
        String::from_str(number)
    }
}

/// Writes a float with all its digits, as [`written_out`] says.
pub fn written_out_text(float: &str) -> (t: String)
    ensures
        t@ == written_out(float@),
{
    let (number, tail) = match split_once(float, 'e') {
        Some(parts) => parts,
        None => {
            return match strip_suffix(float, ".0") {
                Some(whole) => String::from_str(whole),
                None => String::from_str(float),
            };
        },
    };
    let (n, left) = match read_exponent(tail) {
        Some(e) => e,
        None => {
            return String::from_str(float);
        },
    };
    proof {
        first_place_is_in_range(float@, 'e', 0);
    }
    let len = number.unicode_len();
    if len > 0 && number.get_char(0) == '-' {
        let number = number.substring_char(1, len);
        proof {
            let at = first_place(float@, 'e', 0)->0;
            assert(number@ =~= float@.subrange(1, at));
        }
        let digits = bare_digits_text(number);
        String::from_str("-").concat(point_moved_text(digits.as_str(), n, left).as_str())
    } else {
        let digits = bare_digits_text(number);
        point_moved_text(digits.as_str(), n, left)
    }
}

/// Whether `a` comes before `b` in the order of their characters.
pub open spec fn before(a: Seq<char>, b: Seq<char>) -> bool
    decreases a.len(),
{
    if b.len() == 0 {
        false
    } else if a.len() == 0 {
        true
    } else if a[0] != b[0] {
        a[0] < b[0]
    } else {
        before(a.skip(1), b.skip(1))
    }
}

/// Of two different strings one comes before the other, and only one.
pub proof fn before_is_total(a: Seq<char>, b: Seq<char>)
    ensures
        a != b ==> (before(a, b) <==> !before(b, a)),
        a == b ==> !before(a, b),
    decreases a.len(),
{
    if a.len() > 0 && b.len() > 0 && a[0] == b[0] {
        before_is_total(a.skip(1), b.skip(1));
        if a.skip(1) == b.skip(1) {
            assert(a =~= seq![a[0]] + a.skip(1));
            assert(b =~= seq![b[0]] + b.skip(1));
        }
    } else if a.len() == 0 && b.len() == 0 {
        assert(a =~= b);
    }
}

/// The order of strings passes on.
pub proof fn before_is_transitive(a: Seq<char>, b: Seq<char>, c: Seq<char>)
    requires
        before(a, b),
        before(b, c),
    ensures
        before(a, c),
    decreases a.len(),
{
    if a.len() > 0 && a[0] == b[0] && b[0] == c[0] {
        before_is_transitive(a.skip(1), b.skip(1), c.skip(1));
    }
}

/// Whether `a` comes before `b`.
pub fn is_before(a: &str, b: &str) -> (yes: bool)
    ensures
        yes == before(a@, b@),
{
    let x = chars_of(a);
    let y = chars_of(b);
    let mut i: usize = 0;
    assert(a@.skip(0) =~= a@);
    assert(b@.skip(0) =~= b@);
    while i < x.len() && i < y.len() && x[i] == y[i]
        invariant
            x@ == a@,
            y@ == b@,
            i <= x@.len(),
            i <= y@.len(),
            before(a@, b@) == before(a@.skip(i as int), b@.skip(i as int)),
        decreases x@.len() - i,
    {
        assert(a@.skip(i as int).skip(1) =~= a@.skip(i + 1));
        assert(b@.skip(i as int).skip(1) =~= b@.skip(i + 1));
        i += 1;
    }
    if i == y.len() {
        false
    } else if i == x.len() {
        true
    } else {
        x[i] < y[i]
    }
}

/// The places of the separator cut a text: joined again with the
/// separator between them, the pieces are the text, and none of them
/// holds it.
pub proof fn pieces_are_cut_at_the_separator(head: Seq<char>, tail: Seq<char>, sep: char)
    requires
        !tail.contains(sep),
    ensures
        !head.contains(sep) ==> split_on(head, sep) == seq![head],
        split_on(head + seq![sep] + tail, sep) == split_on(head, sep).push(tail),
    decreases tail.len(),
{
    if !head.contains(sep) {
        one_piece(head, sep);
    }
    let s = head + seq![sep] + tail;
    if tail.len() == 0 {
        assert(s.drop_last() =~= head);
        assert(s.last() == sep);
        assert(tail =~= seq![]);
    } else {
        assert(tail.contains(tail.last()));
        assert forall|i: int| 0 <= i < tail.drop_last().len() implies tail.drop_last()[i] != sep by {
            assert(tail.contains(tail[i]));
        }
        assert(!tail.drop_last().contains(sep));
        pieces_are_cut_at_the_separator(head, tail.drop_last(), sep);
        assert(s.drop_last() =~= head + seq![sep] + tail.drop_last());
        assert(s.last() == tail.last());
        let before = split_on(head, sep).push(tail.drop_last());
        assert(before.drop_last() =~= split_on(head, sep));
        assert(tail.drop_last().push(tail.last()) =~= tail);
    }
}

proof fn one_piece(s: Seq<char>, sep: char)
    requires
        !s.contains(sep),
    ensures
        split_on(s, sep) == seq![s],
    decreases s.len(),
{
    if s.len() > 0 {
        assert(s.contains(s.last()));
        assert forall|i: int| 0 <= i < s.drop_last().len() implies s.drop_last()[i] != sep by {
            assert(s.contains(s[i]));
        }
        assert(!s.drop_last().contains(sep));
        one_piece(s.drop_last(), sep);
        assert(s.drop_last().push(s.last()) =~= s);
        assert(seq![s.drop_last()].drop_last().push(s) =~= seq![s]);
    } else {
        assert(s =~= seq![]);
    }
}

/// What is cut off a text is white space at its ends, and all of it: what
/// is left neither starts nor ends with white space, and a text that does
/// not either stays as it is.
pub proof fn only_white_space_is_cut_off(s: Seq<char>) -> (cut: (int, int))
    ensures
        0 <= cut.0 <= cut.1 <= s.len(),
        trimmed(s) == s.subrange(cut.0, cut.1),
        forall|i: int| 0 <= i < cut.0 || cut.1 <= i < s.len() ==> white_space(#[trigger] s[i]),
        trimmed(s).len() > 0 ==> !white_space(trimmed(s)[0]) && !white_space(trimmed(s).last()),
{
    let from = start_cut(s);
    let rest = s.skip(from);
    let to = end_cut(rest);
    assert(rest.take(to) =~= s.subrange(from, from + to));
    assert forall|i: int| 0 <= i < from || from + to <= i < s.len() implies white_space(
        #[trigger] s[i],
    ) by {
        if from + to <= i {
            assert(rest[i - from] == s[i]);
        }
    }
    (from, from + to)
}

proof fn start_cut(s: Seq<char>) -> (n: int)
    ensures
        0 <= n <= s.len(),
        trim_start(s) == s.skip(n),
        forall|i: int| 0 <= i < n ==> white_space(#[trigger] s[i]),
        n < s.len() ==> !white_space(s[n]),
    decreases s.len(),
{
    if s.len() > 0 && white_space(s[0]) {
        let m = start_cut(s.skip(1));
        assert(s.skip(1).skip(m) =~= s.skip(m + 1));
        assert forall|i: int| 0 <= i < m + 1 implies white_space(#[trigger] s[i]) by {
            if i > 0 {
                assert(s.skip(1)[i - 1] == s[i]);
            }
        }
        m + 1
    } else {
        assert(s.skip(0) =~= s);
        0
    }
}

proof fn end_cut(s: Seq<char>) -> (n: int)
    ensures
        0 <= n <= s.len(),
        trim_end(s) == s.take(n),
        forall|i: int| n <= i < s.len() ==> white_space(#[trigger] s[i]),
        n > 0 ==> !white_space(s[n - 1]),
    decreases s.len(),
{
    if s.len() > 0 && white_space(s.last()) {
        let m = end_cut(s.drop_last());
        assert(s.drop_last().take(m) =~= s.take(m));
        assert forall|i: int| m <= i < s.len() implies white_space(#[trigger] s[i]) by {
            if i < s.len() - 1 {
                assert(s.drop_last()[i] == s[i]);
            }
        }
        m
    } else {
        assert(s.take(s.len() as int) =~= s);
        s.len() as int
    }
}

/// The first place of a character is one where it stands and before which
/// it does not; the last place one after which it does not. There is one
/// wherever the character stands at all.
pub proof fn first_and_last_place(s: Seq<char>, sep: char)
    ensures
        match first_place(s, sep, 0) {
            Some(at) => 0 <= at < s.len() && s[at] == sep && forall|i: int|
                0 <= i < at ==> #[trigger] s[i] != sep,
            None => forall|i: int| 0 <= i < s.len() ==> #[trigger] s[i] != sep,
        },
        match last_place(s, sep, s.len() as int) {
            Some(at) => 0 <= at < s.len() && s[at] == sep && forall|i: int|
                at < i < s.len() ==> #[trigger] s[i] != sep,
            None => forall|i: int| 0 <= i < s.len() ==> #[trigger] s[i] != sep,
        },
{
    first_from(s, sep, 0);
    last_below(s, sep, s.len() as int);
}

proof fn first_from(s: Seq<char>, sep: char, from: int)
    requires
        0 <= from <= s.len(),
    ensures
        match first_place(s, sep, from) {
            Some(at) => from <= at < s.len() && s[at] == sep && forall|i: int|
                from <= i < at ==> #[trigger] s[i] != sep,
            None => forall|i: int| from <= i < s.len() ==> #[trigger] s[i] != sep,
        },
    decreases s.len() - from,
{
    if from < s.len() && s[from] != sep {
        first_from(s, sep, from + 1);
    }
}

proof fn last_below(s: Seq<char>, sep: char, n: int)
    requires
        0 <= n <= s.len(),
    ensures
        match last_place(s, sep, n) {
            Some(at) => 0 <= at < n && s[at] == sep && forall|i: int|
                at < i < n ==> #[trigger] s[i] != sep,
            None => forall|i: int| 0 <= i < n ==> #[trigger] s[i] != sep,
        },
    decreases n,
{
    if n > 0 && s[n - 1] != sep {
        last_below(s, sep, n - 1);
    }
}

/// One more digit on the right makes ten times the number and the digit,
/// for writing and for reading alike, and a character that is no digit
/// makes no number.
pub proof fn a_digit_more_is_ten_times(n: nat, d: nat, s: Seq<char>, c: char, max: nat)
    requires
        d < 10,
        n > 0,
    ensures
        decimal(n * 10 + d) == decimal(n).push(('0' as u32 + d) as char),
        decimal(d) == seq![('0' as u32 + d) as char],
        digits_value(s) matches Some(head) ==> '0' <= c <= '9' ==> digits_value(s.push(c)) == Some(
            head * 10 + (c as u32 - '0' as u32) as nat,
        ),
        !('0' <= c <= '9') ==> digits_value(s.push(c)) is None,
        s.len() > 0 && s[0] != '+' && digits_value(s) is Some ==> (parsed(s, max) == (
        if digits_value(s)->0 <= max {
            digits_value(s)
        } else {
            None
        })),
        s.len() > 0 && s[0] != '+' ==> parsed(seq!['+'] + s, max) == parsed(s, max),
        parsed(Seq::empty(), max) is None,
        parsed(seq!['+'], max) is None,
{
    assert(s.push(c).drop_last() =~= s);
    assert((seq!['+'] + s).skip(1) =~= s);
    assert(seq!['+'].skip(1) =~= Seq::<char>::empty());
}

/// A float's writing without an exponent stays as it is, but for a
/// fraction of zero, which goes; with an exponent to the left it is zero
/// and a point, one zero fewer than the exponent says, and the digits;
/// with one to the right it is the digits, with the point so many places
/// further on or as many zeros as are missing behind them.
pub proof fn how_a_float_is_written_out(
    whole: Seq<char>,
    digit: char,
    fraction: Seq<char>,
    n: nat,
)
    requires
        !whole.contains('e'),
        !fraction.contains('e'),
        digit != 'e',
        digit != '-',
        0 < n <= 999,
    ensures
        written_out(whole + ".0"@) == whole,
        !".0"@.is_suffix_of(whole) ==> written_out(whole) == whole,
        ({
            let number = seq![digit] + seq!['.'] + fraction;
            let digits = seq![digit] + fraction;
            &&& written_out(number + seq!['e', '-'] + decimal(n)) == "0."@ + zeros((n - 1) as nat)
                + digits
            &&& fraction.len() <= n ==> written_out(number + seq!['e'] + decimal(n)) == digits
                + zeros((n - fraction.len()) as nat)
            &&& fraction.len() > n ==> written_out(number + seq!['e'] + decimal(n)) == seq![digit]
                + fraction.take(n as int) + "."@ + fraction.skip(n as int)
        }),
{
    reveal_strlit(".0");
    assert(".0"@ =~= seq!['.', '0']);
    let plain = whole + ".0"@;
    assert forall|i: int| 0 <= i < plain.len() implies plain[i] != 'e' by {
        if i < whole.len() {
            assert(whole.contains(whole[i]));
        }
    }
    first_from(plain, 'e', 0);
    assert(plain.subrange(plain.len() - 2, plain.len() as int) =~= ".0"@);
    assert(plain.take(plain.len() - 2) =~= whole);
    assert forall|i: int| 0 <= i < whole.len() implies whole[i] != 'e' by {
        assert(whole.contains(whole[i]));
    }
    first_from(whole, 'e', 0);
    let number = seq![digit] + seq!['.'] + fraction;
    let digits = seq![digit] + fraction;
    let at = number.len() as int;
    assert forall|i: int| 0 <= i < at implies number[i] != 'e' by {
        if i >= 2 {
            assert(number[i] == fraction[i - 2]);
            assert(fraction.contains(fraction[i - 2]));
        }
    }
    assert(bare_digits(number) =~= digits);
    decimal_digits(n);
    decimal_parses_back(n, 999);
    let left = number + seq!['e', '-'] + decimal(n);
    assert(left[at] == 'e');
    assert forall|i: int| 0 <= i < at implies left[i] != 'e' by {
        assert(left[i] == number[i]);
    }
    first_from(left, 'e', 0);
    assert(first_place(left, 'e', 0) == Some(at));
    assert(left.take(at) =~= number);
    assert(left.skip(at + 1) =~= seq!['-'] + decimal(n));
    assert((seq!['-'] + decimal(n)).skip(1) =~= decimal(n));
    assert(left[0] == digit);
    let right = number + seq!['e'] + decimal(n);
    assert(right[at] == 'e');
    assert forall|i: int| 0 <= i < at implies right[i] != 'e' by {
        assert(right[i] == number[i]);
    }
    first_from(right, 'e', 0);
    assert(first_place(right, 'e', 0) == Some(at));
    assert(right.take(at) =~= number);
    assert(right.skip(at + 1) =~= decimal(n));
    assert(right[0] == digit);
    if fraction.len() > n {
        assert(digits.take(n as int + 1) =~= seq![digit] + fraction.take(n as int));
        assert(digits.skip(n as int + 1) =~= fraction.skip(n as int));
    }
}

proof fn like_letters(a: char, b: char)
    requires
        same_letter(a, b),
    ensures
        !('a' <= a <= 'z') && !('A' <= a <= 'Z') ==> b == a,
        'A' <= a <= 'Z' ==> b == a || b as u32 == a as u32 + 32,
        'a' <= a <= 'z' ==> b == a || b as u32 + 32 == a as u32,
{
}

/// Two letters are the same but for their case: whichever comes first, and
/// whichever of the two is the capital; anything else is only like itself.
pub proof fn only_the_case_of_a_letter_may_differ(a: Seq<char>, b: Seq<char>, i: int)
    requires
        0 <= i < a.len(),
    ensures
        same_letters(a, b) <==> same_letters(b, a),
        same_letters(a, a),
        same_letters(a, b) ==> a.len() == b.len(),
        same_letters(a, b) && !('a' <= a[i] <= 'z') && !('A' <= a[i] <= 'Z') ==> b[i] == a[i],
        same_letters(a, b) && 'A' <= a[i] <= 'Z' ==> b[i] == a[i] || b[i] as u32 == a[i] as u32
            + 32,
        same_letters(a, b) && 'a' <= a[i] <= 'z' ==> b[i] == a[i] || b[i] as u32 + 32
            == a[i] as u32,
{
    if same_letters(a, b) {
        assert(same_letter(a[i], b[i]));
        like_letters(a[i], b[i]);
        assert forall|k: int| 0 <= k < b.len() implies same_letter(#[trigger] b[k], a[k]) by {
            assert(same_letter(a[k], b[k]));
        }
    }
    if same_letters(b, a) {
        assert forall|k: int| 0 <= k < a.len() implies same_letter(#[trigger] a[k], b[k]) by {
            assert(same_letter(b[k], a[k]));
        }
    }
}

} // verus!
