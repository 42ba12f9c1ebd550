//! The workspace tab picker: a fuzzy finder over a workspace's tabs, with its
//! query and selection.

use crate::escape::{js_literal, js_string};
use crate::sorted::lemma_push_member;
use crate::text::{
    bool_str, bool_text, chars_of, flat_map, join, joined, lemma_flat_map_step, opt_text,
    string_of, strings,
};
use vstd::prelude::*;

verus! {

/// The lower case of a character, by `char::to_lowercase`: one or more
/// characters.
pub uninterp spec fn char_lowercase(c: char) -> Seq<char>;

/// `char::to_lowercase`. It follows the Unicode character database and no
/// locale, so it depends on `c` alone, and it gives at least one character.
#[verifier::external_body]
fn lowercase_chars(c: char) -> (r: Vec<char>)
    ensures
        r@ == char_lowercase(c),
        r@.len() >= 1,
{
    c.to_lowercase().collect()
}

/// Whether a character is alphanumeric, by `char::is_alphanumeric`.
pub uninterp spec fn alphanumeric(c: char) -> bool;

/// `char::is_alphanumeric` follows the Unicode character database, so it
/// depends on `c` alone.
pub assume_specification[ char::is_alphanumeric ](c: char) -> (r: bool)
    ensures
        r == alphanumeric(c),
;

/// `s` in lower case.
pub open spec fn lowered(s: Seq<char>) -> Seq<char> {
    flat_map(s, |c: char| char_lowercase(c))
}

/// For each character whether it belongs to a word.
pub open spec fn word_flags(s: Seq<char>) -> Seq<bool> {
    s.map_values(|c: char| alphanumeric(c))
}

fn lower(s: &str) -> (r: Vec<char>)
    ensures
        r@ == lowered(s@),
        r@.len() >= s@.len(),
{
    let mut out: Vec<char> = Vec::new();
    for c in it: s.chars()
        invariant
            it.seq() == s@,
            out@ == lowered(s@.subrange(0, it.index() as int)),
            out@.len() >= it.index(),
    {
        proof {
            lemma_flat_map_step(s@, it.index() as int, |c: char| char_lowercase(c));
        }
        let mut more = lowercase_chars(c);
        out.append(&mut more);
    }
    assert(s@.subrange(0, s@.len() as int) =~= s@);
    out
}

fn flags_of(v: &Vec<char>) -> (r: Vec<bool>)
    ensures
        r@ == word_flags(v@),
{
    let mut out: Vec<bool> = Vec::new();
    let mut i: usize = 0;
    while i < v.len()
        invariant
            i <= v@.len(),
            out@ == word_flags(v@.subrange(0, i as int)),
        decreases v@.len() - i,
    {
        out.push(v[i].is_alphanumeric());
        i = i + 1;
        assert(out@ =~= word_flags(v@.subrange(0, i as int)));
    }
    assert(v@.subrange(0, v@.len() as int) =~= v@);
    out
}

/// The first place at or behind `from` where `c` stands in `hay`; the length
/// of `hay` where there is none.
pub open spec fn next_place(hay: Seq<char>, from: int, c: char) -> int
    decreases hay.len() - from,
{
    if from >= hay.len() || hay[from] == c {
        from
    } else {
        next_place(hay, from + 1, c)
    }
}

/// The points for a match at `pos` whose predecessor was matched at `prev`:
/// one for the match, five at the very start or three at the start of a word,
/// and four in a run.
pub open spec fn points(word: Seq<bool>, pos: int, prev: int) -> nat {
    let place: nat = if pos == 0 {
        5
    } else if !word[pos - 1] {
        3
    } else {
        0
    };
    let run: nat = if prev >= 0 && prev == pos - 1 {
        4
    } else {
        0
    };
    1 + place + run
}

/// The score of `needle` in `hay` behind `from`, each character matched at the
/// first place that is left; `None` where one finds no place.
pub open spec fn score_from(
    hay: Seq<char>,
    word: Seq<bool>,
    needle: Seq<char>,
    from: int,
    prev: int,
) -> Option<nat>
    decreases needle.len(),
{
    if needle.len() == 0 {
        Some(0)
    } else {
        let pos = next_place(hay, from, needle[0]);
        if pos >= hay.len() {
            None
        } else {
            match score_from(hay, word, needle.drop_first(), pos + 1, pos) {
                Some(rest) => Some(points(word, pos, prev) + rest),
                None => None,
            }
        }
    }
}

/// The score of a lower-case query in a lower-case text.
pub open spec fn score(hay: Seq<char>, word: Seq<bool>, needle: Seq<char>) -> Option<nat> {
    score_from(hay, word, needle, 0, -1)
}

/// The score of `query` in `text`; an empty query scores zero.
pub open spec fn fuzzy(text: Seq<char>, query: Seq<char>) -> Option<nat> {
    if query.len() == 0 {
        Some(0)
    } else {
        score(lowered(text), word_flags(lowered(text)), lowered(query))
    }
}

proof fn lemma_next_place(hay: Seq<char>, from: int, c: char)
    requires
        0 <= from <= hay.len(),
    ensures
        from <= next_place(hay, from, c) <= hay.len(),
        forall|k: int| from <= k < next_place(hay, from, c) ==> hay[k] != c,
        next_place(hay, from, c) < hay.len() ==> hay[next_place(hay, from, c)] == c,
    decreases hay.len() - from,
{
    if from < hay.len() && hay[from] != c {
        lemma_next_place(hay, from + 1, c);
    }
}

proof fn lemma_next_place_unique(hay: Seq<char>, from: int, c: char, at: int)
    requires
        0 <= from <= at <= hay.len(),
        forall|k: int| from <= k < at ==> hay[k] != c,
        at < hay.len() ==> hay[at] == c,
    ensures
        next_place(hay, from, c) == at,
{
    lemma_next_place(hay, from, c);
}

/// Scores a lower-case query in a lower-case text; `word` says of each
/// character of the text whether it belongs to a word.
pub fn score_chars(hay: &Vec<char>, word: &Vec<bool>, needle: &Vec<char>) -> (r: Option<u128>)
    requires
        word@.len() == hay@.len(),
    ensures
        match r {
            Some(n) => score(hay@, word@, needle@) == Some(n as nat),
            None => score(hay@, word@, needle@) is None,
        },
{
    let mut total: u128 = 0;
    let mut hi: usize = 0;
    let mut prev: Option<usize> = None;
    let mut i: usize = 0;
    let ghost mut last: int = -1;
    assert(needle@.skip(0) =~= needle@);
    while i < needle.len()
        invariant
            i <= needle@.len(),
            hi <= hay@.len(),
            word@.len() == hay@.len(),
            total <= 10 * i,
            match prev {
                Some(p) => last == p && p < hi,
                None => last == -1,
            },
            score(hay@, word@, needle@) == added(
                total as nat,
                score_from(hay@, word@, needle@.skip(i as int), hi as int, last),
            ),
        decreases needle@.len() - i,
    {
        let c = needle[i];
        let ghost rest = needle@.skip(i as int);
        assert(rest[0] == c);
        assert(rest.drop_first() =~= needle@.skip(i + 1));
        let mut pos: usize = hi;
        while pos < hay.len() && hay[pos] != c
            invariant
                hi <= pos <= hay@.len(),
                forall|k: int| hi <= k < pos ==> hay@[k] != c,
            decreases hay@.len() - pos,
        {
            pos = pos + 1;
        }
        proof {
            lemma_next_place_unique(hay@, hi as int, c, pos as int);
        }
        if pos == hay.len() {
            return None;
        }
        let mut gain: u128 = 1;
        if pos == 0 {
            gain = gain + 5;
        } else if !word[pos - 1] {
            gain = gain + 3;
        }
        let run = match prev {
            Some(p) => pos > 0 && p == pos - 1,
            None => false,
        };
        if run {
            gain = gain + 4;
        }
        assert(gain == points(word@, pos as int, last));
        total = total + gain;
        hi = pos + 1;
        prev = Some(pos);
        proof {
            last = pos as int;
        }
        i = i + 1;
    }
    Some(total)
}

/// Points already counted and those still to come.
spec fn added(total: nat, rest: Option<nat>) -> Option<nat> {
    match rest {
        Some(n) => Some(total + n),
        None => None,
    }
}

/// Scores `query` in `haystack`, letter case aside: `None` where the query is
/// no subsequence of the text, else one point for each character and more for
/// matches at the start, at the start of a word, and in a run. So a match of a
/// query scores at least one point, unless the query is empty.
pub fn fuzzy_score(haystack: &str, query: &str) -> (r: Option<u128>)
    ensures
        match r {
            Some(n) => fuzzy(haystack@, query@) == Some(n as nat),
            None => fuzzy(haystack@, query@) is None,
        },
        r is Some ==> r->0 >= query@.len(),
{
    if query.is_empty() {
        return Some(0);
    }
    let hay = lower(haystack);
    let word = flags_of(&hay);
    let needle = lower(query);
    let r = score_chars(&hay, &word, &needle);
    proof {
        if r is Some {
            score_is_bounded(hay@, word@, needle@);
        }
    }
    r
}

/// Whether the places pick `needle` out of `hay`, in order, behind `from`.
pub open spec fn picks(hay: Seq<char>, needle: Seq<char>, from: int, places: Seq<int>) -> bool {
    &&& places.len() == needle.len()
    &&& forall|k: int|
        0 <= k < places.len() ==> from <= #[trigger] places[k] < hay.len() && hay[places[k]]
            == needle[k]
    &&& forall|j: int, k: int| 0 <= j < k < places.len() ==> places[j] < places[k]
}

/// A query matches exactly where it is a subsequence of the text: matching
/// each character at the first place that is left misses nothing.
pub proof fn matches_are_subsequences(hay: Seq<char>, word: Seq<bool>, needle: Seq<char>)
    ensures
        score(hay, word, needle) is Some <==> exists|places: Seq<int>|
            picks(hay, needle, 0, places),
{
    lemma_greedy(hay, word, needle, 0, -1);
}

proof fn lemma_greedy(hay: Seq<char>, word: Seq<bool>, needle: Seq<char>, from: int, prev: int)
    requires
        0 <= from <= hay.len(),
    ensures
        score_from(hay, word, needle, from, prev) is Some <==> exists|places: Seq<int>|
            picks(hay, needle, from, places),
    decreases needle.len(),
{
    if needle.len() == 0 {
        assert(picks(hay, needle, from, Seq::<int>::empty()));
    } else {
        let pos = next_place(hay, from, needle[0]);
        let tail = needle.drop_first();
        let next = pos + 1;
        lemma_next_place(hay, from, needle[0]);
        if pos < hay.len() {
            lemma_greedy(hay, word, tail, pos + 1, pos);
            if score_from(hay, word, needle, from, prev) is Some {
                let rest = choose|places: Seq<int>| picks(hay, tail, next, places);
                let all = seq![pos] + rest;
                assert forall|k: int| 0 <= k < all.len() implies from <= #[trigger] all[k]
                    < hay.len() && hay[all[k]] == needle[k] by {
                    if k > 0 {
                        assert(all[k] == rest[k - 1]);
                        assert(needle[k] == tail[k - 1]);
                    }
                }
                assert(picks(hay, needle, from, all));
            }
        }
        if exists|places: Seq<int>| picks(hay, needle, from, places) {
            let places = choose|places: Seq<int>| picks(hay, needle, from, places);
            assert(from <= places[0] < hay.len() && hay[places[0]] == needle[0]);
            assert(pos <= places[0]);
            let rest = places.drop_first();
            assert forall|k: int| 0 <= k < rest.len() implies pos + 1 <= #[trigger] rest[k]
                < hay.len() && hay[rest[k]] == tail[k] by {
                assert(rest[k] == places[k + 1]);
                assert(places[0] < places[k + 1]);
                assert(tail[k] == needle[k + 1]);
            }
            assert(picks(hay, tail, next, rest));
        }
    }
}

/// A match scores at least one point and at most ten for each character of
/// the query.
pub proof fn score_is_bounded(hay: Seq<char>, word: Seq<bool>, needle: Seq<char>)
    requires
        score(hay, word, needle) is Some,
    ensures
        needle.len() <= score(hay, word, needle)->0 <= 10 * needle.len(),
{
    lemma_score_bounds(hay, word, needle, 0, -1);
}

proof fn lemma_score_bounds(
    hay: Seq<char>,
    word: Seq<bool>,
    needle: Seq<char>,
    from: int,
    prev: int,
)
    requires
        score_from(hay, word, needle, from, prev) is Some,
    ensures
        needle.len() <= score_from(hay, word, needle, from, prev)->0 <= 10 * needle.len(),
    decreases needle.len(),
{
    if needle.len() > 0 {
        let pos = next_place(hay, from, needle[0]);
        lemma_score_bounds(hay, word, needle.drop_first(), pos + 1, pos);
    }
}

/// What kind of tab a row stands for.
#[derive(Debug, Clone, Copy, PartialEq, Eq, Structural)]
pub enum EntryKind {
    /// In a window, with a live renderer.
    Active,
    /// In a window, its renderer discarded for idleness.
    Idle,
    /// Hidden.
    Hidden,
    /// Hidden, and held: it does not age out.
    Held,
}

impl EntryKind {
    /// Whether selecting the row switches to the tab; else it reveals it.
    pub open spec fn switches(self) -> bool {
        self == EntryKind::Active || self == EntryKind::Idle
    }

    /// The label of the row's category.
    pub open spec fn label_text(self) -> Seq<char> {
        match self {
            EntryKind::Active => "active"@,
            EntryKind::Idle => "idle"@,
            EntryKind::Hidden => "hidden"@,
            EntryKind::Held => "held"@,
        }
    }

    /// Whether selecting the row switches to the tab; else it reveals it.
    pub fn is_active(self) -> (r: bool)
        ensures
            r == self.switches(),
    {
        match self {
            EntryKind::Active | EntryKind::Idle => true,
            EntryKind::Hidden | EntryKind::Held => false,
        }
    }

    /// The label of the row's category.
    pub fn label(self) -> (r: &'static str)
        ensures
            r@ == self.label_text(),
    {
        match self {
            EntryKind::Active => "active",
            EntryKind::Idle => "idle",
            EntryKind::Hidden => "hidden",
            EntryKind::Held => "held",
        }
    }
}

/// Where a tab of the session stands.
#[derive(Debug, Clone, Copy, PartialEq, Eq, Structural)]
pub enum TabState {
    Active,
    Hidden,
    Closed,
}

/// What the shell reads of a tab of the session.
#[derive(Debug)]
pub struct SessionTab {
    pub id: u64,
    pub url: String,
    pub title: Option<String>,
    pub state: TabState,
    pub is_discarded: bool,
    /// Whether the tab is held while hidden.
    pub hold: bool,
    pub is_pinned: bool,
}

/// One row of the picker: a tab as it was when the picker opened.
#[derive(Debug)]
pub struct PickerEntry {
    pub id: u64,
    /// The title to show; the URL where the tab has none.
    pub title: String,
    pub url: String,
    pub kind: EntryKind,
    pub is_pinned: bool,
}

/// [`PickerEntry`] as values.
pub struct EntryView {
    pub id: u64,
    pub title: Seq<char>,
    pub url: Seq<char>,
    pub kind: EntryKind,
    pub is_pinned: bool,
}

impl View for PickerEntry {
    type V = EntryView;

    open spec fn view(&self) -> EntryView {
        EntryView {
            id: self.id,
            title: self.title@,
            url: self.url@,
            kind: self.kind,
            is_pinned: self.is_pinned,
        }
    }
}

/// The category of a session tab.
pub open spec fn kind_of(state: TabState, is_discarded: bool, hold: bool) -> EntryKind {
    match state {
        TabState::Active => if is_discarded {
            EntryKind::Idle
        } else {
            EntryKind::Active
        },
        TabState::Hidden => if hold {
            EntryKind::Held
        } else {
            EntryKind::Hidden
        },
        TabState::Closed => EntryKind::Hidden,
    }
}

/// The title to show for a tab: its own, or its URL where it has none or an
/// empty one.
pub open spec fn shown_title(title: Option<Seq<char>>, url: Seq<char>) -> Seq<char> {
    match title {
        Some(t) => if t.len() == 0 {
            url
        } else {
            t
        },
        None => url,
    }
}

impl PickerEntry {
    /// The row for a tab of the session.
    pub fn from_tab(tab: &SessionTab) -> (r: PickerEntry)
        ensures
            r@ == (EntryView {
                id: tab.id,
                title: shown_title(opt_text(tab.title), tab.url@),
                url: tab.url@,
                kind: kind_of(tab.state, tab.is_discarded, tab.hold),
                is_pinned: tab.is_pinned,
            }),
    {
        let title = match &tab.title {
            Some(t) => if t.as_str().is_empty() {
                tab.url.clone()
            } else {
                t.clone()
            },
            None => tab.url.clone(),
        };
        let kind = match tab.state {
            TabState::Active => if tab.is_discarded {
                EntryKind::Idle
            } else {
                EntryKind::Active
            },
            TabState::Hidden => if tab.hold {
                EntryKind::Held
            } else {
                EntryKind::Hidden
            },
            TabState::Closed => EntryKind::Hidden,
        };
        PickerEntry { id: tab.id, title, url: tab.url.clone(), kind, is_pinned: tab.is_pinned }
    }

    /// Whether selecting the row switches to the tab; else it reveals it.
    pub fn is_active(&self) -> (r: bool)
        ensures
            r == self@.kind.switches(),
    {
        self.kind.is_active()
    }
}

/// The better of two scores.
pub open spec fn better(a: Option<nat>, b: Option<nat>) -> Option<nat> {
    match (a, b) {
        (Some(x), Some(y)) => Some(
            if x >= y {
                x
            } else {
                y
            },
        ),
        (Some(x), None) => Some(x),
        (None, y) => y,
    }
}

/// The score of a row: of its title or its URL, whichever is better.
pub open spec fn entry_score(e: EntryView, query: Seq<char>) -> Option<nat> {
    better(fuzzy(e.title, query), fuzzy(e.url, query))
}

/// Puts the row `rank` with its score among ranked rows: behind those that
/// score as much or more.
pub open spec fn place_row(rows: Seq<(int, nat)>, rank: int, score: nat) -> Seq<(int, nat)>
    decreases rows.len(),
{
    if rows.len() == 0 || rows.last().1 >= score {
        rows.push((rank, score))
    } else {
        place_row(rows.drop_last(), rank, score).push(rows.last())
    }
}

/// The rows that match `query`, as places in `base` with their scores: higher
/// scores first, and rows with the same score in the order of `base`.
pub open spec fn ranked(base: Seq<EntryView>, query: Seq<char>) -> Seq<(int, nat)>
    decreases base.len(),
{
    if base.len() == 0 {
        Seq::empty()
    } else {
        let front = ranked(base.drop_last(), query);
        match entry_score(base.last(), query) {
            Some(score) => place_row(front, base.len() - 1, score),
            None => front,
        }
    }
}

/// Whether row `a` comes before row `b`: it scores more, or as much and stands
/// earlier in the base order.
pub open spec fn row_before(a: (int, nat), b: (int, nat)) -> bool {
    a.1 > b.1 || (a.1 == b.1 && a.0 < b.0)
}

proof fn lemma_place_row(rows: Seq<(int, nat)>, rank: int, score: nat)
    requires
        forall|i: int, j: int| 0 <= i < j < rows.len() ==> row_before(#[trigger] rows[i], #[trigger] rows[j]),
        forall|i: int| 0 <= i < rows.len() ==> (#[trigger] rows[i]).0 < rank,
    ensures
        ({
            let out = place_row(rows, rank, score);
            &&& out.len() == rows.len() + 1
            &&& forall|i: int, j: int| 0 <= i < j < out.len() ==> row_before(#[trigger] out[i], #[trigger] out[j])
            &&& forall|x: (int, nat)| #[trigger] out.contains(x) <==> rows.contains(x) || x == (rank, score)
        }),
    decreases rows.len(),
{
    let out = place_row(rows, rank, score);
    if rows.len() == 0 || rows.last().1 >= score {
        assert forall|i: int, j: int| 0 <= i < j < out.len() implies row_before(
            #[trigger] out[i],
            #[trigger] out[j],
        ) by {
            if j == rows.len() && i < rows.len() - 1 {
                assert(row_before(rows[i], rows[rows.len() - 1]));
            }
        }
        assert forall|x: (int, nat)| #[trigger]
            out.contains(x) <==> rows.contains(x) || x == (rank, score) by {
            lemma_push_member(rows, (rank, score), x);
        }
    } else {
        let front = rows.drop_last();
        assert forall|i: int, j: int| 0 <= i < j < front.len() implies row_before(
            #[trigger] front[i],
            #[trigger] front[j],
        ) by {
            assert(row_before(rows[i], rows[j]));
        }
        lemma_place_row(front, rank, score);
        let placed = place_row(front, rank, score);
        assert forall|i: int, j: int| 0 <= i < j < out.len() implies row_before(
            #[trigger] out[i],
            #[trigger] out[j],
        ) by {
            if j < placed.len() {
                assert(row_before(placed[i], placed[j]));
            } else {
                assert(placed.contains(placed[i]));
                if placed[i] != (rank, score) {
                    let k = choose|k: int| 0 <= k < front.len() && front[k] == placed[i];
                    assert(row_before(rows[k], rows[rows.len() - 1]));
                }
            }
        }
        assert forall|x: (int, nat)| #[trigger]
            out.contains(x) <==> rows.contains(x) || x == (rank, score) by {
            lemma_push_member(placed, rows.last(), x);
            assert(rows =~= front.push(rows.last()));
            lemma_push_member(front, rows.last(), x);
            assert(placed.contains(x) <==> front.contains(x) || x == (rank, score));
        }
    }
}

/// The ranking holds the matching rows and no others, each once, and in order:
/// by score, and by the base order where scores are equal.
pub proof fn ranking_is_sorted_and_complete(base: Seq<EntryView>, query: Seq<char>)
    ensures
        forall|i: int, j: int|
            0 <= i < j < ranked(base, query).len() ==> row_before(
                #[trigger] ranked(base, query)[i],
                #[trigger] ranked(base, query)[j],
            ),
        forall|rank: int, score: nat| #[trigger]
            ranked(base, query).contains((rank, score)) <==> 0 <= rank < base.len()
                && entry_score(base[rank], query) == Some(score),
        ranked(base, query).len() <= base.len(),
    decreases base.len(),
{
    if base.len() > 0 {
        let head = base.drop_last();
        let front = ranked(head, query);
        ranking_is_sorted_and_complete(head, query);
        assert forall|i: int| 0 <= i < front.len() implies (#[trigger] front[i]).0 < base.len()
            - 1 by {
            assert(front.contains((front[i].0, front[i].1)));
        }
        match entry_score(base.last(), query) {
            Some(score) => {
                lemma_place_row(front, base.len() - 1, score);
                let out = ranked(base, query);
                assert forall|rank: int, s: nat| #[trigger]
                    out.contains((rank, s)) <==> 0 <= rank < base.len() && entry_score(
                    base[rank],
                    query,
                ) == Some(s) by {
                    assert(out.contains((rank, s)) <==> front.contains((rank, s)) || (rank, s) == (
                        base.len() - 1,
                        score,
                    ));
                    if 0 <= rank < head.len() {
                        assert(head[rank] == base[rank]);
                    }
                }
            },
            None => {
                assert forall|rank: int, s: nat| #[trigger]
                    front.contains((rank, s)) <==> 0 <= rank < base.len() && entry_score(
                    base[rank],
                    query,
                ) == Some(s) by {
                    if 0 <= rank < head.len() {
                        assert(head[rank] == base[rank]);
                    }
                }
            },
        }
    } else {
        assert(ranked(base, query) =~= Seq::<(int, nat)>::empty());
    }
}

/// An empty query keeps every row, in the base order.
pub proof fn empty_query_keeps_base_order(base: Seq<EntryView>)
    ensures
        ranked(base, Seq::empty()) == Seq::new(base.len(), |i: int| (i, 0nat)),
    decreases base.len(),
{
    let all = Seq::new(base.len(), |i: int| (i, 0nat));
    if base.len() > 0 {
        empty_query_keeps_base_order(base.drop_last());
        let front = ranked(base.drop_last(), Seq::empty());
        assert(place_row(front, base.len() - 1, 0) =~= front.push((base.len() - 1, 0nat)));
        assert(ranked(base, Seq::empty()) =~= all);
    } else {
        assert(ranked(base, Seq::empty()) =~= all);
    }
}

/// A matching row, with its place in the base order.
#[derive(Debug)]
pub struct Match<'a> {
    pub entry: &'a PickerEntry,
    pub score: u128,
    pub rank: usize,
}

/// The places and scores of matches.
pub open spec fn match_rows<'a>(v: Seq<Match<'a>>) -> Seq<(int, nat)> {
    v.map_values(|m: Match<'a>| (m.rank as int, m.score as nat))
}

/// The state of the picker: whether it is open, what was typed, and which row
/// is selected.
#[derive(Debug)]
pub struct PickerState {
    open: bool,
    /// Whether the overlay page can be rendered to: it has painted.
    ready: bool,
    query: String,
    base: Vec<PickerEntry>,
    selected: usize,
}

/// [`PickerState`] as values; `base` is the workspace's tabs in the session's
/// order, and `selected` counts matching rows.
pub struct PickerView {
    pub open: bool,
    pub ready: bool,
    pub query: Seq<char>,
    pub base: Seq<EntryView>,
    pub selected: int,
}

impl PickerView {
    /// The matching rows.
    pub open spec fn rows(self) -> Seq<(int, nat)> {
        ranked(self.base, self.query)
    }

    /// The selection is one of the matching rows; the first place where there
    /// are none.
    pub open spec fn wf(self) -> bool {
        if self.rows().len() == 0 {
            self.selected == 0
        } else {
            0 <= self.selected < self.rows().len()
        }
    }

    /// The selected row.
    pub open spec fn selection(self) -> Option<EntryView> {
        if 0 <= self.selected < self.rows().len() {
            Some(self.base[self.rows()[self.selected].0])
        } else {
            None
        }
    }

    /// A picker that was opened over `entries`.
    pub open spec fn opened(entries: Seq<EntryView>) -> PickerView {
        PickerView { open: true, ready: false, query: Seq::empty(), base: entries, selected: 0 }
    }

    /// A closed picker.
    pub open spec fn closed() -> PickerView {
        PickerView {
            open: false,
            ready: false,
            query: Seq::empty(),
            base: Seq::empty(),
            selected: 0,
        }
    }

    /// The picker with another query; the selection stays, or moves to the
    /// last row where there are fewer.
    pub open spec fn with_query(self, query: Seq<char>) -> PickerView {
        let n = ranked(self.base, query).len();
        PickerView {
            query,
            selected: if n == 0 {
                0
            } else if self.selected >= n {
                n - 1
            } else {
                self.selected
            },
            ..self
        }
    }

    /// The picker with a character typed.
    pub open spec fn typed(self, c: char) -> PickerView {
        self.with_query(self.query.push(c))
    }

    /// The picker with the last character taken back.
    pub open spec fn erased(self) -> PickerView {
        self.with_query(
            if self.query.len() == 0 {
                self.query
            } else {
                self.query.drop_last()
            },
        )
    }

    /// The picker with the next row selected, the first behind the last.
    pub open spec fn moved_down(self) -> PickerView {
        let n = self.rows().len() as int;
        PickerView {
            selected: if n == 0 {
                self.selected
            } else {
                (self.selected + 1) % n
            },
            ..self
        }
    }

    /// The picker with the row before selected, the last before the first.
    pub open spec fn moved_up(self) -> PickerView {
        let n = self.rows().len() as int;
        PickerView {
            selected: if n == 0 {
                self.selected
            } else {
                (self.selected + n - 1) % n
            },
            ..self
        }
    }
}

impl View for PickerState {
    type V = PickerView;

    closed spec fn view(&self) -> PickerView {
        PickerView {
            open: self.open,
            ready: self.ready,
            query: self.query@,
            base: self.base@.map_values(|e: PickerEntry| e@),
            selected: self.selected as int,
        }
    }
}

/// A row as a JavaScript object.
pub open spec fn row_object(e: EntryView, selected: bool) -> Seq<char> {
    "{\"cat\":"@ + js_literal(e.kind.label_text()) + ",\"title\":"@ + js_literal(e.title)
        + ",\"url\":"@ + js_literal(e.url) + ",\"sel\":"@ + bool_text(selected) + ",\"active\":"@
        + bool_text(e.kind.switches()) + "}"@
}

fn row_to_object(e: &PickerEntry, selected: bool) -> (r: String)
    ensures
        r@ == row_object(e@, selected),
{
    let mut out = String::new();
    out.push_str("{\"cat\":");
    let cat = js_string(e.kind.label());
    out.push_str(cat.as_str());
    out.push_str(",\"title\":");
    let title = js_string(e.title.as_str());
    out.push_str(title.as_str());
    out.push_str(",\"url\":");
    let url = js_string(e.url.as_str());
    out.push_str(url.as_str());
    out.push_str(",\"sel\":");
    out.push_str(bool_str(selected));
    out.push_str(",\"active\":");
    out.push_str(bool_str(e.is_active()));
    out.push_str("}");
    assert(out@ =~= row_object(e@, selected));
    out
}

/// The rows of a picker as JavaScript objects.
pub open spec fn row_objects(p: PickerView) -> Seq<Seq<char>> {
    Seq::new(
        p.rows().len(),
        |i: int| row_object(p.base[p.rows()[i].0], i == p.selected),
    )
}

impl Default for PickerState {
    fn default() -> (r: PickerState)
        ensures
            r@ == PickerView::closed(),
            r@.wf(),
    {
        let r = PickerState {
            open: false,
            ready: false,
            query: String::new(),
            base: Vec::new(),
            selected: 0,
        };
        assert(r@.base =~= Seq::<EntryView>::empty());
        r
    }
}

impl PickerState {
    /// Opens the picker over `entries`, which stand in the session's order.
    pub fn open(&mut self, entries: Vec<PickerEntry>)
        ensures
            final(self)@ == PickerView::opened(entries@.map_values(|e: PickerEntry| e@)),
            final(self)@.wf(),
    {
        self.open = true;
        self.ready = false;
        self.query = String::new();
        self.base = entries;
        self.selected = 0;
    }

    /// Closes the picker and drops its rows.
    pub fn close(&mut self)
        ensures
            final(self)@ == PickerView::closed(),
            final(self)@.wf(),
    {
        self.open = false;
        self.ready = false;
        self.query = String::new();
        self.base = Vec::new();
        self.selected = 0;
        assert(self@.base =~= Seq::<EntryView>::empty());
    }

    /// The rows that match the query: higher scores first, and rows with the
    /// same score in the session's order. An empty query keeps all rows.
    pub fn filtered(&self) -> (r: Vec<Match<'_>>)
        ensures
            match_rows(r@) == self@.rows(),
            forall|i: int| 0 <= i < r@.len() ==> (#[trigger] r@[i]).entry@ == self@.base[r@[i].rank as int],
    {
        let mut out: Vec<Match<'_>> = Vec::new();
        let ghost base = self@.base;
        let ghost query = self@.query;
        let mut i: usize = 0;
        assert(match_rows(out@) =~= ranked(base.subrange(0, 0), query));
        while i < self.base.len()
            invariant
                i <= self.base@.len(),
                base == self@.base,
                query == self@.query,
                match_rows(out@) == ranked(base.subrange(0, i as int), query),
                forall|k: int| 0 <= k < out@.len() ==> (#[trigger] out@[k]).rank < i && out@[k].entry@ == base[out@[k].rank as int],
            decreases self.base@.len() - i,
        {
            let entry = &self.base[i];
            let ghost next = base.subrange(0, i + 1);
            assert(next.drop_last() =~= base.subrange(0, i as int));
            assert(next.last() == entry@);
            let title_score = fuzzy_score(entry.title.as_str(), self.query.as_str());
            let url_score = fuzzy_score(entry.url.as_str(), self.query.as_str());
            let best = match (title_score, url_score) {
                (Some(a), Some(b)) => Some(if a >= b { a } else { b }),
                (Some(a), None) => Some(a),
                (None, b) => b,
            };
            if let Some(score) = best {
                let mut at: usize = out.len();
                let ghost rows = match_rows(out@);
                assert(rows.subrange(0, rows.len() as int) =~= rows);
                assert(rows.subrange(rows.len() as int, rows.len() as int) =~= Seq::<(int, nat)>::empty());
                while at > 0 && out[at - 1].score < score
                    invariant
                        at <= out@.len(),
                        rows == match_rows(out@),
                        place_row(rows, i as int, score as nat) == place_row(rows.subrange(0, at as int), i as int, score as nat)
                            + rows.subrange(at as int, rows.len() as int),
                    decreases at,
                {
                    let ghost head = rows.subrange(0, at as int);
                    assert(head.last() == rows[at - 1]);
                    assert(head.drop_last() =~= rows.subrange(0, at - 1));
                    assert(place_row(head, i as int, score as nat) + rows.subrange(at as int, rows.len() as int)
                        =~= place_row(rows.subrange(0, at - 1), i as int, score as nat) + rows.subrange(at - 1, rows.len() as int));
                    at = at - 1;
                }
                let ghost head = rows.subrange(0, at as int);
                proof {
                    if at > 0 {
                        assert(head.last() == rows[at - 1]);
                    }
                }
                let ghost before = out@;
                out.insert(at, Match { entry, score, rank: i });
                assert(match_rows(out@) =~= head.push((i as int, score as nat)) + rows.subrange(at as int, rows.len() as int));
                assert forall|k: int| 0 <= k < out@.len() implies (#[trigger] out@[k]).rank < i + 1 && out@[k].entry@ == base[out@[k].rank as int] by {
                    if k < at {
                        assert(out@[k] == before[k]);
                    } else if k > at {
                        assert(out@[k] == before[k - 1]);
                    }
                }
            }
            i = i + 1;
        }
        assert(base.subrange(0, base.len() as int) =~= base);
        out
    }

    /// Puts the selection among the matching rows.
    fn clamp_selection(&mut self)
        ensures
            final(self)@ == old(self)@.with_query(old(self)@.query),
            final(self)@.wf(),
    {
        let n: usize = self.filtered().len();
        assert(n == self@.rows().len());
        if n == 0 {
            self.selected = 0;
        } else if self.selected >= n {
            self.selected = n - 1;
        }
    }

    /// Adds a character to the query.
    pub fn push_char(&mut self, c: char)
        ensures
            final(self)@ == old(self)@.typed(c),
            final(self)@.wf(),
    {
        self.query.push(c);
        self.clamp_selection();
    }

    /// Takes the last character of the query back.
    pub fn backspace(&mut self)
        ensures
            final(self)@ == old(self)@.erased(),
            final(self)@.wf(),
    {
        let v = chars_of(self.query.as_str());
        if v.len() > 0 {
            self.query = string_of(v.as_slice(), 0, v.len() - 1);
            assert(self@.query =~= old(self)@.query.drop_last());
        }
        self.clamp_selection();
    }

    /// Selects the next row, the first behind the last.
    pub fn move_down(&mut self)
        requires
            old(self)@.wf(),
        ensures
            final(self)@ == old(self)@.moved_down(),
            final(self)@.wf(),
    {
        let n: usize = self.filtered().len();
        assert(n == self@.rows().len());
        if n == 0 {
            return;
        }
        self.selected = (self.selected + 1) % n;
    }

    /// Selects the row before, the last before the first.
    pub fn move_up(&mut self)
        requires
            old(self)@.wf(),
        ensures
            final(self)@ == old(self)@.moved_up(),
            final(self)@.wf(),
    {
        let n: usize = self.filtered().len();
        assert(n == self@.rows().len());
        if n == 0 {
            return;
        }
        let ghost before = self.selected as int;
        if self.selected == 0 {
            self.selected = n - 1;
            assert((before + n - 1) % (n as int) == n - 1) by (nonlinear_arith)
                requires
                    before == 0,
                    n > 0,
            ;
        } else {
            self.selected = self.selected - 1;
            assert((before + n - 1) % (n as int) == before - 1) by (nonlinear_arith)
                requires
                    0 < before < n,
            ;
        }
    }

    /// The selected row; `None` where no row matches.
    pub fn selected_entry(&self) -> (r: Option<&PickerEntry>)
        ensures
            match r {
                Some(e) => self@.selection() == Some(e@),
                None => self@.selection() is None,
            },
    {
        let rows = self.filtered();
        assert(match_rows(rows@).len() == rows@.len());
        if self.selected < rows.len() {
            assert(match_rows(rows@)[self.selected as int].0 == rows@[self.selected as int].rank);
            Some(rows[self.selected].entry)
        } else {
            None
        }
    }

    /// What was typed.
    pub fn query(&self) -> (r: &str)
        ensures
            r@ == self@.query,
    {
        self.query.as_str()
    }

    /// Whether the picker is open.
    pub fn is_open(&self) -> (r: bool)
        ensures
            r == self@.open,
    {
        self.open
    }

    /// Whether the overlay page can be rendered to.
    pub fn is_ready(&self) -> (r: bool)
        ensures
            r == self@.ready,
    {
        self.ready
    }

    /// Marks the overlay page as ready to be rendered to.
    pub fn set_ready(&mut self)
        ensures
            final(self)@ == (PickerView { ready: true, ..old(self)@ }),
    {
        self.ready = true;
    }

    /// The matching rows as a JavaScript array.
    pub fn rows_json(&self) -> (r: String)
        ensures
            r@ == "["@ + joined(row_objects(self@), ","@) + "]"@,
    {
        let rows = self.filtered();
        let mut parts: Vec<String> = Vec::new();
        let ghost all = row_objects(self@);
        assert(match_rows(rows@).len() == rows@.len());
        let mut i: usize = 0;
        while i < rows.len()
            invariant
                i <= rows@.len(),
                parts@.len() == i,
                all == row_objects(self@),
                all.len() == rows@.len(),
                match_rows(rows@) == self@.rows(),
                forall|k: int| 0 <= k < rows@.len() ==> (#[trigger] rows@[k]).entry@ == self@.base[rows@[k].rank as int],
                forall|k: int| 0 <= k < i ==> (#[trigger] parts@[k])@ == all[k],
            decreases rows@.len() - i,
        {
            assert(match_rows(rows@)[i as int].0 == rows@[i as int].rank);
            let part = row_to_object(rows[i].entry, i == self.selected);
            parts.push(part);
            i = i + 1;
        }
        assert(strings(parts@) =~= all);
        let mut out = String::new();
        out.push_str("[");
        let body = join(&parts, ",");
        out.push_str(body.as_str());
        out.push_str("]");
        assert(out@ =~= "["@ + joined(all, ","@) + "]"@);
        out
    }
}

/// Going down and up again, or up and down, leaves the selection where it was.
pub proof fn moves_undo_each_other(p: PickerView)
    requires
        p.wf(),
    ensures
        p.moved_down().moved_up() == p,
        p.moved_up().moved_down() == p,
{
    let n = p.rows().len() as int;
    if n > 0 {
        let s = p.selected;
        if s + 1 < n {
            assert((s + 1) % n == s + 1) by (nonlinear_arith)
                requires
                    0 <= s,
                    s + 1 < n,
            ;
            assert((s + 1 + n - 1) % n == s) by (nonlinear_arith)
                requires
                    0 <= s < n,
            ;
        } else {
            assert((s + 1) % n == 0) by (nonlinear_arith)
                requires
                    s + 1 == n,
                    n > 0,
            ;
            assert((n - 1) % n == n - 1) by (nonlinear_arith)
                requires
                    n > 0,
            ;
        }
        if s == 0 {
            assert((s + n - 1) % n == n - 1) by (nonlinear_arith)
                requires
                    s == 0,
                    n > 0,
            ;
            assert((n - 1 + 1) % n == 0) by (nonlinear_arith)
                requires
                    n > 0,
            ;
        } else {
            assert((s + n - 1) % n == s - 1) by (nonlinear_arith)
                requires
                    0 < s < n,
            ;
            assert((s - 1 + 1) % n == s) by (nonlinear_arith)
                requires
                    0 <= s < n,
            ;
        }
    }
}

/// Taking a typed character back restores the query, and with it the rows.
pub proof fn erasing_undoes_typing(p: PickerView, c: char)
    ensures
        p.typed(c).erased().query == p.query,
        p.typed(c).erased().rows() == p.rows(),
{
    assert(p.query.push(c).drop_last() =~= p.query);
}

} // verus!
