//! Special tokens: names that stand for one token each, and how they are
//! carved out of a text.

use crate::text::chars_of;
use vstd::prelude::*;
use vstd::string::StrSliceExecFns;

verus! {

/// What a special token's name written in a text means.
#[derive(Debug, Clone, Copy, PartialEq, Eq, Structural)]
pub enum SpecialTokens {
    /// Nothing: it is text like any other.
    AsText,
    /// The token.
    Parse,
}

/// A piece of a text.
#[derive(Debug)]
pub enum TextOrSpecial<'a> {
    Text(&'a str),
    Special(u32),
}

/// The model of a [`TextOrSpecial`].
pub enum Segment {
    Text(Seq<char>),
    Special(u32),
}

impl<'a> View for TextOrSpecial<'a> {
    type V = Segment;

    open spec fn view(&self) -> Segment {
        match self {
            TextOrSpecial::Text(s) => Segment::Text(s@),
            TextOrSpecial::Special(id) => Segment::Special(*id),
        }
    }
}

/// The models of pieces.
pub open spec fn segment_views(pieces: Seq<TextOrSpecial>) -> Seq<Segment> {
    Seq::new(pieces.len(), |i: int| pieces[i]@)
}

/// A special token's name and number.
#[derive(Debug)]
pub struct SpecialEntry {
    pub name: Vec<char>,
    pub id: u32,
}

/// The special tokens of a vocabulary.
#[derive(Debug)]
pub struct SpecialTokenTable {
    pub entries: Vec<SpecialEntry>,
}

/// The number of the first entry with this name.
pub open spec fn id_in(entries: Seq<SpecialEntry>, name: Seq<char>) -> Option<u32>
    decreases entries.len(),
{
    if entries.len() == 0 {
        None
    } else if entries[0].name@ == name {
        Some(entries[0].id)
    } else {
        id_in(entries.skip(1), name)
    }
}

/// The longest name, and its number, that `rest` begins with; of two of
/// the same length the first.
pub open spec fn longest_in(entries: Seq<SpecialEntry>, rest: Seq<char>) -> Option<(nat, u32)>
    decreases entries.len(),
{
    if entries.len() == 0 {
        None
    } else {
        let earlier = longest_in(entries.drop_last(), rest);
        let name = entries.last().name@;
        let longer = match earlier {
            Some((n, _)) => name.len() > n,
            None => name.len() > 0,
        };
        if longer && name.is_prefix_of(rest) {
            Some((name.len(), entries.last().id))
        } else {
            earlier
        }
    }
}

/// The pieces of `text` from `at` on, where the text since `from` is not
/// yet part of a piece: at each place the longest name there is carved
/// out.
pub open spec fn carved(entries: Seq<SpecialEntry>, text: Seq<char>, from: int, at: int) -> Seq<Segment>
    decreases text.len() - at,
{
    let run = if from < at {
        seq![Segment::Text(text.subrange(from, at))]
    } else {
        seq![]
    };
    if at < 0 || at >= text.len() {
        run
    } else {
        match longest_in(entries, text.skip(at)) {
            Some((n, id)) => if 0 < n <= text.len() - at {
                run.push(Segment::Special(id)) + carved(entries, text, at + n, at + n)
            } else {
                seq![]
            },
            None => carved(entries, text, from, at + 1),
        }
    }
}

/// The pieces that a text is cut into.
pub open spec fn segments(entries: Seq<SpecialEntry>, text: Seq<char>, specials: SpecialTokens) -> Seq<
    Segment,
> {
    match specials {
        SpecialTokens::AsText => seq![Segment::Text(text)],
        SpecialTokens::Parse => carved(entries, text, 0, 0),
    }
}

proof fn longest_is_a_prefix(entries: Seq<SpecialEntry>, rest: Seq<char>)
    ensures
        match longest_in(entries, rest) {
            Some((n, _)) => 0 < n <= rest.len(),
            None => true,
        },
    decreases entries.len(),
{
    if entries.len() > 0 {
        longest_is_a_prefix(entries.drop_last(), rest);
    }
}

fn same_chars(a: &Vec<char>, b: &Vec<char>) -> (same: bool)
    ensures
        same == (a@ == b@),
{
    a.len() == b.len() && begins_at(b, 0, a)
}

fn begins_at(text: &Vec<char>, at: usize, name: &Vec<char>) -> (yes: bool)
    requires
        at <= text@.len(),
    ensures
        yes == name@.is_prefix_of(text@.skip(at as int)),
        at == 0 && name@.len() == text@.len() ==> yes == (name@ == text@),
{
    let n = name.len();
    let total = text.len();
    if total - at < n {
        return false;
    }
    let mut k: usize = 0;
    while k < n
        invariant
            n == name@.len(),
            k <= n,
            total == text@.len(),
            at + n <= total,
            forall|j: int| 0 <= j < k ==> #[trigger] name@[j] == text@[at + j],
        decreases n - k,
    {
        if name[k] != text[at + k] {
            assert(name@[k as int] != text@.skip(at as int)[k as int]);
            return false;
        }
        k += 1;
    }
    assert(name@ =~= text@.skip(at as int).take(n as int));
    assert(name@.is_prefix_of(text@.skip(at as int)));
    assert(at == 0 && n == text@.len() ==> name@ =~= text@);
    true
}

impl SpecialTokenTable {
    /// No special tokens.
    pub fn new() -> (t: Self)
        ensures
            t.entries@.len() == 0,
    {
        SpecialTokenTable { entries: Vec::new() }
    }

    /// Gives a name its number, in place of the one it had.
    pub fn insert(&mut self, name: &str, id: u32)
        ensures
            forall|other: Seq<char>| #[trigger]
                id_in(final(self).entries@, other) == (if other == name@ {
                    Some(id)
                } else {
                    id_in(old(self).entries@, other)
                }),
    {
        let chars = chars_of(name);
        let ghost was = self.entries@;
        let n = self.entries.len();
        let mut i: usize = 0;
        while i < n
            invariant
                self.entries@ == was,
                was == old(self).entries@,
                n == was.len(),
                chars@ == name@,
                i <= n,
                forall|j: int| 0 <= j < i ==> (#[trigger] was[j]).name@ != name@,
            decreases n - i,
        {
            if same_chars(&self.entries[i].name, &chars) {
                self.entries[i].id = id;
                proof {
                    let now = self.entries@;
                    assert forall|j: int| 0 <= j < n implies (#[trigger] now[j]).name@
                        == was[j].name@ && (j != i ==> now[j].id == was[j].id) by {}
                    assert forall|other: Seq<char>| #[trigger]
                        id_in(now, other) == (if other == name@ {
                            Some(id)
                        } else {
                            id_in(was, other)
                        }) by {
                        replaced_entry(was, now, i as int, other, 0);
                        assert(was.skip(0) =~= was);
                        assert(now.skip(0) =~= now);
                    }
                }
                return ;
            }
            i += 1;
        }
        self.entries.push(SpecialEntry { name: chars, id });
        proof {
            let now = self.entries@;
            assert(now.drop_last() =~= was);
            assert forall|other: Seq<char>| #[trigger] id_in(now, other) == (if other == name@ {
                Some(id)
            } else {
                id_in(was, other)
            }) by {
                added_entry(was, now, other, 0);
                assert(was.skip(0) =~= was);
                assert(now.skip(0) =~= now);
            }
        }
    }

    /// The number of a name.
    pub fn id_of(&self, name: &str) -> (id: Option<u32>)
        ensures
            id == id_in(self.entries@, name@),
    {
        let chars = chars_of(name);
        let mut i: usize = 0;
        assert(self.entries@.skip(0) =~= self.entries@);
        while i < self.entries.len()
            invariant
                chars@ == name@,
                i <= self.entries@.len(),
                id_in(self.entries@, name@) == id_in(self.entries@.skip(i as int), name@),
            decreases self.entries@.len() - i,
        {
            assert(self.entries@.skip(i as int).skip(1) =~= self.entries@.skip(i + 1));
            if same_chars(&self.entries[i].name, &chars) {
                return Some(self.entries[i].id);
            }
            i += 1;
        }
        None
    }

    fn longest_at(&self, text: &Vec<char>, at: usize) -> (found: Option<(usize, u32)>)
        requires
            at <= text@.len(),
        ensures
            match longest_in(self.entries@, text@.skip(at as int)) {
                Some((n, id)) => match found {
                    Some((k, i)) => k == n && i == id,
                    None => false,
                },
                None => found is None,
            },
    {
        let mut found: Option<(usize, u32)> = None;
        let mut i: usize = 0;
        while i < self.entries.len()
            invariant
                at <= text@.len(),
                i <= self.entries@.len(),
                match longest_in(self.entries@.take(i as int), text@.skip(at as int)) {
                    Some((n, id)) => match found {
                        Some((k, f)) => k == n && f == id,
                        None => false,
                    },
                    None => found is None,
                },
            decreases self.entries@.len() - i,
        {
            let entry = &self.entries[i];
            proof {
                let taken = self.entries@.take(i + 1);
                assert(taken.drop_last() =~= self.entries@.take(i as int));
                assert(taken.last() == *entry);
            }
            let n = entry.name.len();
            let longer = match found {
                Some((k, _)) => n > k,
                None => n > 0,
            };
            if longer && begins_at(text, at, &entry.name) {
                found = Some((n, entry.id));
            }
            i += 1;
        }
        assert(self.entries@.take(self.entries@.len() as int) =~= self.entries@);
        found
    }

    /// Cuts a text into runs of text and special tokens.
    pub fn split<'a>(&self, text: &'a str, specials: SpecialTokens) -> (pieces: Vec<
        TextOrSpecial<'a>,
    >)
        ensures
            segment_views(pieces@) == segments(self.entries@, text@, specials),
    {
        let mut pieces: Vec<TextOrSpecial<'a>> = Vec::new();
        if matches!(specials, SpecialTokens::AsText) {
            pieces.push(TextOrSpecial::Text(text));
            assert(segment_views(pieces@) =~= seq![Segment::Text(text@)]);
            return pieces;
        }
        let chars = chars_of(text);
        let n = chars.len();
        let mut from: usize = 0;
        let mut at: usize = 0;
        assert(segment_views(pieces@) + carved(self.entries@, text@, 0, 0) =~= carved(
            self.entries@,
            text@,
            0,
            0,
        ));
        while at < n
            invariant
                chars@ == text@,
                n == chars@.len(),
                from <= at <= n,
                segment_views(pieces@) + carved(self.entries@, text@, from as int, at as int)
                    == carved(self.entries@, text@, 0, 0),
            decreases n - at,
        {
            let ghost was = pieces@;
            proof {
                longest_is_a_prefix(self.entries@, text@.skip(at as int));
            }
            match self.longest_at(&chars, at) {
                Some((len, id)) => {
                    if from < at {
                        pieces.push(TextOrSpecial::Text(text.substring_char(from, at)));
                    }
                    pieces.push(TextOrSpecial::Special(id));
                    proof {
                        let run = if from < at {
                            seq![Segment::Text(text@.subrange(from as int, at as int))]
                        } else {
                            seq![]
                        };
                        let rest = carved(self.entries@, text@, at + len, at + len);
                        assert(segment_views(pieces@) =~= segment_views(was) + run.push(
                            Segment::Special(id),
                        ));
                        assert(segment_views(pieces@) + rest =~= segment_views(was) + (run.push(
                            Segment::Special(id),
                        ) + rest));
                    }
                    at = at + len;
                    from = at;
                },
                None => {
                    at += 1;
                },
            }
        }
        if from < n {
            let ghost was = pieces@;
            pieces.push(TextOrSpecial::Text(text.substring_char(from, n)));
            assert(segment_views(pieces@) =~= segment_views(was) + seq![
                Segment::Text(text@.subrange(from as int, n as int)),
            ]);
        } else {
            assert(segment_views(pieces@) + carved(self.entries@, text@, from as int, n as int)
                =~= segment_views(pieces@));
        }
        pieces
    }
}

proof fn replaced_entry(
    was: Seq<SpecialEntry>,
    now: Seq<SpecialEntry>,
    i: int,
    name: Seq<char>,
    from: int,
)
    requires
        was.len() == now.len(),
        0 <= from <= i < was.len(),
        forall|j: int|
            0 <= j < was.len() ==> (#[trigger] now[j]).name@ == was[j].name@ && (j != i
                ==> now[j].id == was[j].id),
        forall|j: int| 0 <= j < i ==> (#[trigger] was[j]).name@ != was[i].name@,
    ensures
        id_in(now.skip(from), name) == (if name == was[i].name@ {
            Some(now[i].id)
        } else {
            id_in(was.skip(from), name)
        }),
    decreases was.len() - from,
{
    assert(now.skip(from)[0] == now[from]);
    assert(was.skip(from)[0] == was[from]);
    assert(now.skip(from).skip(1) =~= now.skip(from + 1));
    assert(was.skip(from).skip(1) =~= was.skip(from + 1));
    if from < i {
        replaced_entry(was, now, i, name, from + 1);
    } else if name != was[i].name@ {
        same_tail(was, now, name, from + 1);
    }
}

proof fn same_tail(was: Seq<SpecialEntry>, now: Seq<SpecialEntry>, name: Seq<char>, from: int)
    requires
        was.len() == now.len(),
        0 <= from <= was.len(),
        forall|j: int|
            from <= j < was.len() ==> (#[trigger] now[j]).name@ == was[j].name@ && now[j].id
                == was[j].id,
    ensures
        id_in(now.skip(from), name) == id_in(was.skip(from), name),
    decreases was.len() - from,
{
    if from < was.len() {
        assert(now.skip(from)[0] == now[from]);
        assert(was.skip(from)[0] == was[from]);
        assert(now.skip(from).skip(1) =~= now.skip(from + 1));
        assert(was.skip(from).skip(1) =~= was.skip(from + 1));
        same_tail(was, now, name, from + 1);
    }
}

proof fn added_entry(was: Seq<SpecialEntry>, now: Seq<SpecialEntry>, name: Seq<char>, from: int)
    requires
        now.len() == was.len() + 1,
        now.drop_last() == was,
        0 <= from <= was.len(),
        forall|j: int| 0 <= j < was.len() ==> (#[trigger] was[j]).name@ != now.last().name@,
    ensures
        id_in(now.skip(from), name) == (if name == now.last().name@ {
            Some(now.last().id)
        } else {
            id_in(was.skip(from), name)
        }),
    decreases was.len() - from,
{
    assert(now.skip(from)[0] == now[from]);
    assert(now.skip(from).skip(1) =~= now.skip(from + 1));
    if from < was.len() {
        assert(was.skip(from)[0] == was[from]);
        assert(now[from] == was[from]);
        assert(was.skip(from).skip(1) =~= was.skip(from + 1));
        added_entry(was, now, name, from + 1);
    } else {
        assert(now.skip(from).skip(1) =~= seq![]);
    }
}

/// Read as text, a text is one piece, whatever names are written in it.
pub proof fn text_is_never_carved(entries: Seq<SpecialEntry>, text: Seq<char>)
    ensures
        segments(entries, text, SpecialTokens::AsText) == seq![Segment::Text(text)],
{
}

/// Which name is carved out where several begin: one that is there, none
/// that is there being longer, and of those of its length the first
/// listed. A name without characters is never carved out.
pub proof fn the_longest_name_is_carved_out(entries: Seq<SpecialEntry>, rest: Seq<char>)
    ensures
        match longest_in(entries, rest) {
            Some((n, id)) => {
                &&& 0 < n <= rest.len()
                &&& exists|i: int|
                    #![trigger entries[i]]
                    0 <= i < entries.len() && entries[i].id == id && entries[i].name@.len() == n
                        && entries[i].name@.is_prefix_of(rest) && forall|j: int|
                        #![trigger entries[j]]
                        0 <= j < i && entries[j].name@.is_prefix_of(rest)
                            ==> entries[j].name@.len() < n
                &&& forall|j: int|
                    #![trigger entries[j]]
                    0 <= j < entries.len() && entries[j].name@.is_prefix_of(rest)
                        ==> entries[j].name@.len() <= n
            },
            None => forall|j: int|
                #![trigger entries[j]]
                0 <= j < entries.len() && entries[j].name@.is_prefix_of(rest)
                    ==> entries[j].name@.len() == 0,
        },
    decreases entries.len(),
{
    if entries.len() > 0 {
        let head = entries.drop_last();
        the_longest_name_is_carved_out(head, rest);
        let last = entries.len() - 1;
        assert(entries[last] == entries.last());
        assert forall|j: int| 0 <= j < head.len() implies head[j] == #[trigger] entries[j] by {}
        match longest_in(head, rest) {
            Some((n, id)) => {
                let i = choose|i: int|
                    #![trigger head[i]]
                    0 <= i < head.len() && head[i].id == id && head[i].name@.len() == n
                        && head[i].name@.is_prefix_of(rest) && forall|j: int|
                        #![trigger head[j]]
                        0 <= j < i && head[j].name@.is_prefix_of(rest) ==> head[j].name@.len() < n;
                assert forall|j: int| 0 <= j < head.len() && entries[j].name@.is_prefix_of(
                    rest,
                ) implies #[trigger] entries[j].name@.len() <= n by {
                    let _ = head[j];
                }
                assert forall|j: int| 0 <= j < i && entries[j].name@.is_prefix_of(
                    rest,
                ) implies #[trigger] entries[j].name@.len() < n by {
                    let _ = head[j];
                }
                assert(entries[i] == head[i]);
            },
            None => {
                assert forall|j: int| 0 <= j < head.len() && entries[j].name@.is_prefix_of(
                    rest,
                ) implies #[trigger] entries[j].name@.len() == 0 by {
                    let _ = head[j];
                }
            },
        }
    }
}

proof fn longest_is(entries: Seq<SpecialEntry>, rest: Seq<char>, i: int)
    requires
        0 <= i < entries.len(),
        entries[i].name@.len() > 0,
        entries[i].name@.is_prefix_of(rest),
        forall|j: int|
            #![trigger entries[j]]
            0 <= j < entries.len() && entries[j].name@.is_prefix_of(rest) ==> entries[j].name@.len()
                <= entries[i].name@.len(),
        forall|j: int|
            #![trigger entries[j]]
            0 <= j < i && entries[j].name@.is_prefix_of(rest) ==> entries[j].name@.len()
                < entries[i].name@.len(),
    ensures
        longest_in(entries, rest) == Some((entries[i].name@.len(), entries[i].id)),
{
    the_longest_name_is_carved_out(entries, rest);
    match longest_in(entries, rest) {
        Some((n, id)) => {
            let k = choose|k: int|
                #![trigger entries[k]]
                0 <= k < entries.len() && entries[k].id == id && entries[k].name@.len() == n
                    && entries[k].name@.is_prefix_of(rest) && forall|j: int|
                    #![trigger entries[j]]
                    0 <= j < k && entries[j].name@.is_prefix_of(rest) ==> entries[j].name@.len()
                        < n;
            assert(entries[i].name@.len() <= n);
            assert(n == entries[i].name@.len());
            if k < i {
                assert(entries[k].name@.len() < entries[i].name@.len());
            } else if i < k {
                assert(entries[i].name@.len() < n);
            }
        },
        None => {
            assert(entries[i].name@.len() == 0);
        },
    }
}

proof fn carving_moves_along(
    entries: Seq<SpecialEntry>,
    text: Seq<char>,
    k: int,
    from: int,
    at: int,
)
    requires
        0 <= k,
        0 <= from <= at,
        at + k <= text.len(),
    ensures
        carved(entries, text, from + k, at + k) == carved(entries, text.skip(k), from, at),
    decreases text.len() - at,
{
    let rest = text.skip(k);
    assert(rest.subrange(from, at) =~= text.subrange(from + k, at + k));
    if at + k < text.len() {
        assert(rest.skip(at) =~= text.skip(at + k));
        longest_is_a_prefix(entries, text.skip(at + k));
        match longest_in(entries, text.skip(at + k)) {
            Some((n, _)) => {
                carving_moves_along(entries, text, k, at + n, at + n);
            },
            None => {
                carving_moves_along(entries, text, k, from, at + 1);
            },
        }
    }
}

proof fn nothing_is_carved_before(
    entries: Seq<SpecialEntry>,
    text: Seq<char>,
    from: int,
    at: int,
    to: int,
)
    requires
        0 <= from <= at <= to <= text.len(),
        forall|p: int| at <= p < to ==> longest_in(entries, #[trigger] text.skip(p)) is None,
    ensures
        carved(entries, text, from, at) == carved(entries, text, from, to),
    decreases to - at,
{
    if at < to {
        let _ = text.skip(at);
        nothing_is_carved_before(entries, text, from, at + 1, to);
    }
}

/// A special token's name in a text is the token, and the text on both
/// sides of it is cut on its own: where no name begins in `before`, and
/// of the names that begin behind it entry `i` is the longest (the first,
/// of several), the pieces are `before`, if there is any of it, then the
/// entry's number, then the pieces of `after`.
pub proof fn a_name_is_cut_out_of_its_text(
    entries: Seq<SpecialEntry>,
    before: Seq<char>,
    after: Seq<char>,
    i: int,
)
    requires
        0 <= i < entries.len(),
        entries[i].name@.len() > 0,
        forall|j: int|
            #![trigger entries[j]]
            0 <= j < entries.len() && entries[j].name@.is_prefix_of(entries[i].name@ + after)
                ==> entries[j].name@.len() <= entries[i].name@.len(),
        forall|j: int|
            #![trigger entries[j]]
            0 <= j < i ==> entries[j].name@ != entries[i].name@,
        forall|p: int, j: int|
            #![trigger (before + entries[i].name@ + after).skip(p), entries[j]]
            0 <= p < before.len() && 0 <= j < entries.len() && entries[j].name@.len() > 0
                ==> !entries[j].name@.is_prefix_of((before + entries[i].name@ + after).skip(p)),
    ensures
        segments(entries, before + entries[i].name@ + after, SpecialTokens::Parse) == (if before.len()
            > 0 {
            seq![Segment::Text(before)]
        } else {
            seq![]
        }) + seq![Segment::Special(entries[i].id)] + segments(
            entries,
            after,
            SpecialTokens::Parse,
        ),
{
    let name = entries[i].name@;
    let text = before + name + after;
    let at = before.len() as int;
    assert(text.skip(at) =~= name + after);
    assert((name + after).take(name.len() as int) =~= name);
    assert(name.is_prefix_of(name + after));
    assert forall|j: int|
        #![trigger entries[j]]
        0 <= j < i && entries[j].name@.is_prefix_of(name + after) implies entries[j].name@.len()
        < name.len() by {
        if entries[j].name@.len() == name.len() {
            assert(entries[j].name@ =~= name) by {
                assert(entries[j].name@ =~= (name + after).subrange(0, name.len() as int));
            }
        }
    }
    longest_is(entries, name + after, i);
    assert forall|p: int| 0 <= p < at implies longest_in(
        entries,
        #[trigger] text.skip(p),
    ) is None by {
        the_longest_name_is_carved_out(entries, text.skip(p));
        match longest_in(entries, text.skip(p)) {
            Some((n, id)) => {
                let k = choose|k: int|
                    #![trigger entries[k]]
                    0 <= k < entries.len() && entries[k].id == id && entries[k].name@.len() == n
                        && entries[k].name@.is_prefix_of(text.skip(p)) && forall|j: int|
                        #![trigger entries[j]]
                        0 <= j < k && entries[j].name@.is_prefix_of(text.skip(p))
                            ==> entries[j].name@.len() < n;
                assert(!entries[k].name@.is_prefix_of(text.skip(p)));
            },
            None => {},
        }
    }
    nothing_is_carved_before(entries, text, 0, 0, at);
    let end = at + name.len();
    carving_moves_along(entries, text, end, 0, 0);
    assert(text.skip(end) =~= after);
    assert(text.subrange(0, at) =~= before);
    let run = if before.len() > 0 {
        seq![Segment::Text(before)]
    } else {
        seq![]
    };
    assert(carved(entries, text, 0, at) == run.push(Segment::Special(entries[i].id)) + carved(
        entries,
        text,
        end,
        end,
    ));
    assert(run.push(Segment::Special(entries[i].id)) =~= run + seq![
        Segment::Special(entries[i].id),
    ]);
}

/// A text in which no name begins is one piece, and an empty one none.
pub proof fn a_text_without_names_stays_whole(entries: Seq<SpecialEntry>, text: Seq<char>)
    requires
        forall|p: int, j: int|
            #![trigger text.skip(p), entries[j]]
            0 <= p < text.len() && 0 <= j < entries.len() && entries[j].name@.len() > 0
                ==> !entries[j].name@.is_prefix_of(text.skip(p)),
    ensures
        segments(entries, text, SpecialTokens::Parse) == (if text.len() > 0 {
            seq![Segment::Text(text)]
        } else {
            seq![]
        }),
{
    assert forall|p: int| 0 <= p < text.len() implies longest_in(
        entries,
        #[trigger] text.skip(p),
    ) is None by {
        the_longest_name_is_carved_out(entries, text.skip(p));
        match longest_in(entries, text.skip(p)) {
            Some((n, id)) => {
                let k = choose|k: int|
                    #![trigger entries[k]]
                    0 <= k < entries.len() && entries[k].id == id && entries[k].name@.len() == n
                        && entries[k].name@.is_prefix_of(text.skip(p)) && forall|j: int|
                        #![trigger entries[j]]
                        0 <= j < k && entries[j].name@.is_prefix_of(text.skip(p))
                            ==> entries[j].name@.len() < n;
                assert(!entries[k].name@.is_prefix_of(text.skip(p)));
            },
            None => {},
        }
    }
    nothing_is_carved_before(entries, text, 0, 0, text.len() as int);
    assert(text.subrange(0, text.len() as int) =~= text);
}

/// A name has the number of the first entry that carries it.
pub proof fn a_name_has_its_first_number(entries: Seq<SpecialEntry>, name: Seq<char>, i: int)
    ensures
        0 <= i < entries.len() && entries[i].name@ == name && (forall|j: int|
            0 <= j < i ==> (#[trigger] entries[j]).name@ != name) ==> id_in(entries, name) == Some(
            entries[i].id,
        ),
        (forall|j: int| 0 <= j < entries.len() ==> (#[trigger] entries[j]).name@ != name) ==> id_in(
            entries,
            name,
        ) is None,
    decreases entries.len(),
{
    if entries.len() > 0 && entries[0].name@ != name {
        let rest = entries.skip(1);
        a_name_has_its_first_number(rest, name, i - 1);
        assert forall|j: int| 0 <= j < rest.len() implies #[trigger] rest[j] == entries[j + 1] by {}
        if forall|j: int| 0 <= j < entries.len() ==> (#[trigger] entries[j]).name@ != name {
            assert forall|j: int| 0 <= j < rest.len() implies (#[trigger] rest[j]).name@ != name by {
                assert(rest[j] == entries[j + 1]);
            }
        }
        if 0 < i < entries.len() && entries[i].name@ == name && (forall|j: int|
            0 <= j < i ==> (#[trigger] entries[j]).name@ != name) {
            assert forall|j: int| 0 <= j < i - 1 implies (#[trigger] rest[j]).name@ != name by {
                assert(rest[j] == entries[j + 1]);
            }
            assert(rest[i - 1] == entries[i]);
        }
    }
}

} // verus!
