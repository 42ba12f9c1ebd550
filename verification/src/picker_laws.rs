//! How the picker ranks and moves: which match counts, what a match is worth,
//! and which row a key leads to.

use crate::escape::js_literal;
use crate::picker::{
    empty_query_keeps_base_order, entry_score, fuzzy, kind_of, lowered, next_place, ranked,
    row_object, row_objects, score, score_from, shown_title, EntryKind, EntryView, PickerView,
    TabState,
};
use crate::status::picker_text;
use crate::text::{bool_text, contains_text, joined, lemma_contains_part};
use vstd::prelude::*;

verus! {

/// A row counts by the better of its two matches: its score is no less than that
/// of its title and no less than that of its URL, and is one of the two. A row
/// that neither matches is no match.
pub proof fn rows_count_by_their_better_match(e: EntryView, query: Seq<char>)
    ensures
        ({
            let title = fuzzy(e.title, query);
            let url = fuzzy(e.url, query);
            let best = entry_score(e, query);
            &&& title is Some ==> best is Some && best->0 >= title->0
            &&& url is Some ==> best is Some && best->0 >= url->0
            &&& best is Some ==> best == title || best == url
        }),
{
}

/// So the first row of the ranking has the best match of all: no title and no
/// URL of any row is worth more.
pub proof fn the_first_row_is_the_best_match(base: Seq<EntryView>, query: Seq<char>, rank: int)
    requires
        0 <= rank < base.len(),
        fuzzy(base[rank].title, query) is Some || fuzzy(base[rank].url, query) is Some,
    ensures
        ranked(base, query).len() > 0,
        fuzzy(base[rank].title, query) is Some ==> ranked(base, query)[0].1 >= fuzzy(
            base[rank].title,
            query,
        )->0,
        fuzzy(base[rank].url, query) is Some ==> ranked(base, query)[0].1 >= fuzzy(
            base[rank].url,
            query,
        )->0,
{
    crate::picker::ranking_is_sorted_and_complete(base, query);
    let rows = ranked(base, query);
    let s = entry_score(base[rank], query)->0;
    assert(rows.contains((rank, s)));
    let i = choose|i: int| 0 <= i < rows.len() && rows[i] == (rank, s);
    if i > 0 {
        assert(crate::picker::row_before(rows[0], rows[i]));
    }
}

/// The case of letters does not matter, neither in the query nor in the text.
pub proof fn letter_case_does_not_matter(
    text: Seq<char>,
    other: Seq<char>,
    query: Seq<char>,
    also: Seq<char>,
)
    requires
        lowered(text) == lowered(other),
        lowered(query) == lowered(also),
        query.len() > 0 <==> also.len() > 0,
    ensures
        fuzzy(text, query) == fuzzy(other, also),
{
}

/// One character is worth six points at the very start, four at the start of a
/// word, and one inside of a word; its first place counts.
pub proof fn one_character_scores_by_its_place(hay: Seq<char>, word: Seq<bool>, c: char, p: int)
    requires
        0 <= p < hay.len(),
        hay[p] == c,
        forall|k: int| 0 <= k < p ==> hay[k] != c,
        word.len() == hay.len(),
    ensures
        p == 0 ==> score(hay, word, seq![c]) == Some(6nat),
        p > 0 && !word[p - 1] ==> score(hay, word, seq![c]) == Some(4nat),
        p > 0 && word[p - 1] ==> score(hay, word, seq![c]) == Some(1nat),
{
    lemma_next(hay, 0, c, p);
    reveal_with_fuel(score_from, 3);
    assert(seq![c].drop_first() =~= Seq::<char>::empty());
}

/// A second character is worth four points more directly behind the first than
/// in the middle of a later word.
pub proof fn runs_score_more(
    hay: Seq<char>,
    word: Seq<bool>,
    c: char,
    d: char,
    p: int,
    q: int,
)
    requires
        0 <= p < q < hay.len(),
        hay[p] == c,
        hay[q] == d,
        forall|k: int| 0 <= k < p ==> hay[k] != c,
        forall|k: int| p < k < q ==> hay[k] != d,
        word.len() == hay.len(),
    ensures
        q == p + 1 && word[p] ==> score(hay, word, seq![c, d]) == Some(
            score(hay, word, seq![c])->0 + 5,
        ),
        q == p + 1 && !word[p] ==> score(hay, word, seq![c, d]) == Some(
            score(hay, word, seq![c])->0 + 8,
        ),
        q > p + 1 && word[q - 1] ==> score(hay, word, seq![c, d]) == Some(
            score(hay, word, seq![c])->0 + 1,
        ),
        q > p + 1 && !word[q - 1] ==> score(hay, word, seq![c, d]) == Some(
            score(hay, word, seq![c])->0 + 4,
        ),
{
    lemma_next(hay, 0, c, p);
    lemma_next(hay, p + 1, d, q);
    reveal_with_fuel(score_from, 3);
    assert(seq![c].drop_first() =~= Seq::<char>::empty());
    assert(seq![c, d].drop_first() =~= seq![d]);
    assert(seq![d].drop_first() =~= Seq::<char>::empty());
    assert(score_from(hay, word, seq![d], p + 1, p) is Some);
}

proof fn lemma_next(hay: Seq<char>, from: int, c: char, p: int)
    requires
        0 <= from <= p < hay.len(),
        hay[p] == c,
        forall|k: int| from <= k < p ==> hay[k] != c,
    ensures
        next_place(hay, from, c) == p,
    decreases p - from,
{
    if from < p {
        lemma_next(hay, from + 1, c, p);
    }
}

/// The beginning of a word scores as one run: six points for the first character
/// and five for each that follows.
pub proof fn beginnings_score_as_a_run(hay: Seq<char>, word: Seq<bool>, n: int)
    requires
        0 < n <= hay.len() == word.len(),
        forall|k: int| 0 <= k < n ==> #[trigger] word[k],
    ensures
        score(hay, word, hay.subrange(0, n)) == Some((5 * n + 1) as nat),
{
    let needle = hay.subrange(0, n);
    assert(next_place(hay, 0, needle[0]) == 0);
    assert(needle.drop_first() =~= hay.subrange(1, n));
    lemma_run(hay, word, 1, n);
}

proof fn lemma_run(hay: Seq<char>, word: Seq<bool>, i: int, n: int)
    requires
        0 < i <= n <= hay.len() == word.len(),
        forall|k: int| 0 <= k < n ==> #[trigger] word[k],
    ensures
        score_from(hay, word, hay.subrange(i, n), i, i - 1) == Some((5 * (n - i)) as nat),
    decreases n - i,
{
    let needle = hay.subrange(i, n);
    if i < n {
        assert(next_place(hay, i, needle[0]) == i);
        assert(needle.drop_first() =~= hay.subrange(i + 1, n));
        lemma_run(hay, word, i + 1, n);
        assert(word[i - 1]);
    }
}

/// Moving down selects the row behind the selected one, and from the last the
/// first; moving up the row before it, and from the first the last. Nothing else
/// changes.
pub proof fn moving_goes_row_by_row(p: PickerView)
    requires
        p.wf(),
        p.rows().len() > 0,
    ensures
        ({
            let n = p.rows().len() as int;
            &&& p.selected + 1 < n ==> p.moved_down() == (PickerView {
                selected: p.selected + 1,
                ..p
            })
            &&& p.selected + 1 == n ==> p.moved_down() == (PickerView { selected: 0, ..p })
            &&& p.selected > 0 ==> p.moved_up() == (PickerView { selected: p.selected - 1, ..p })
            &&& p.selected == 0 ==> p.moved_up() == (PickerView { selected: n - 1, ..p })
        }),
{
    let n = p.rows().len() as int;
    let s = p.selected;
    if s + 1 < n {
        assert((s + 1) % n == s + 1) by (nonlinear_arith)
            requires
                0 <= s,
                s + 1 < n,
        ;
    } else {
        assert((s + 1) % n == 0) by (nonlinear_arith)
            requires
                s + 1 == n,
                n > 0,
        ;
    }
    if s > 0 {
        assert((s + n - 1) % n == s - 1) by (nonlinear_arith)
            requires
                0 < s < n,
        ;
    } else {
        assert((s + n - 1) % n == n - 1) by (nonlinear_arith)
            requires
                s == 0,
                n > 0,
        ;
    }
}

/// A picker opens with every tab, in the session's order, the first selected and
/// nothing typed; it closes with nothing left.
pub proof fn pickers_open_over_every_tab(entries: Seq<EntryView>, i: int)
    ensures
        ({
            let p = PickerView::opened(entries);
            &&& p.open && !p.ready && p.query.len() == 0
            &&& p.rows().len() == entries.len()
            &&& 0 <= i < entries.len() ==> p.base[p.rows()[i].0] == entries[i]
            &&& entries.len() > 0 ==> p.selection() == Some(entries[0])
            &&& entries.len() == 0 ==> p.selection() is None
        }),
        !PickerView::closed().open,
        PickerView::closed().selection() is None,
        PickerView::closed().query.len() == 0,
{
    empty_query_keeps_base_order(entries);
    let p = PickerView::opened(entries);
    assert(p.query =~= Seq::<char>::empty());
}

/// Typing and erasing keep the rows to choose from and the place of the
/// selection; only where there are fewer rows does it move, to the last.
pub proof fn typing_keeps_the_place(p: PickerView, c: char)
    requires
        p.wf(),
    ensures
        p.typed(c).base == p.base,
        p.typed(c).open == p.open,
        p.typed(c).ready == p.ready,
        p.typed(c).query == p.query.push(c),
        p.selected < p.typed(c).rows().len() ==> p.typed(c).selected == p.selected,
        0 < p.typed(c).rows().len() <= p.selected ==> p.typed(c).selected
            == p.typed(c).rows().len() - 1,
        p.erased().base == p.base,
        p.query.len() > 0 ==> p.erased().query == p.query.drop_last(),
        p.selected < p.erased().rows().len() ==> p.erased().selected == p.selected,
{
}

/// The selected row is the one at the place of the selection in the ranking.
pub proof fn the_selection_is_a_ranked_row(p: PickerView)
    requires
        p.wf(),
        p.rows().len() > 0,
    ensures
        p.selection() == Some(p.base[p.rows()[p.selected].0]),
        0 <= p.rows()[p.selected].0 < p.base.len(),
        entry_score(p.selection()->0, p.query) == Some(p.rows()[p.selected].1),
{
    crate::picker::ranking_is_sorted_and_complete(p.base, p.query);
    let row = p.rows()[p.selected];
    assert(p.rows().contains((row.0, row.1)));
}

/// A row switches to a tab of a window and reveals a hidden one; the tabs of a
/// window are idle where they were discarded, and the hidden ones held where they
/// do not age.
pub proof fn rows_know_their_tab(state: TabState, is_discarded: bool, hold: bool)
    ensures
        kind_of(state, is_discarded, hold).switches() <==> state == TabState::Active,
        kind_of(state, is_discarded, hold) == EntryKind::Idle <==> state == TabState::Active
            && is_discarded,
        kind_of(state, is_discarded, hold) == EntryKind::Held <==> state == TabState::Hidden
            && hold,
        EntryKind::Active.label_text() == "active"@,
        EntryKind::Idle.label_text() == "idle"@,
        EntryKind::Hidden.label_text() == "hidden"@,
        EntryKind::Held.label_text() == "held"@,
{
}

/// A row shows the title of its tab, and without one its URL.
pub proof fn rows_show_title_or_url(title: Seq<char>, url: Seq<char>)
    ensures
        title.len() > 0 ==> shown_title(Some(title), url) == title,
        title.len() == 0 ==> shown_title(Some(title), url) == url,
        shown_title(None, url) == url,
{
}

/// The overlay is told of each row its category, title and URL, whether it is
/// the selected one, and whether it switches; the rows come in the order of the
/// ranking, behind the query.
pub proof fn the_overlay_is_told_every_row(p: PickerView, e: EntryView, selected: bool, i: int)
    ensures
        contains_text(
            row_object(e, selected),
            "{\"cat\":"@ + js_literal(e.kind.label_text()) + ",\"title\":"@ + js_literal(e.title)
                + ",\"url\":"@ + js_literal(e.url) + ",\"sel\":"@ + bool_text(selected),
        ),
        contains_text(row_object(e, selected), ",\"active\":"@ + bool_text(e.kind.switches())),
        row_objects(p).len() == p.rows().len(),
        0 <= i < p.rows().len() ==> row_objects(p)[i] == row_object(
            p.base[p.rows()[i].0],
            i == p.selected,
        ),
        contains_text(picker_text(p), "{query:"@ + js_literal(p.query) + ",rows:["@),
        contains_text(picker_text(p), joined(row_objects(p), ","@)),
        bool_text(true) == "true"@,
        bool_text(false) == "false"@,
{
    let row = row_object(e, selected);
    let none = Seq::<char>::empty();
    let first = "{\"cat\":"@ + js_literal(e.kind.label_text()) + ",\"title\":"@ + js_literal(e.title)
        + ",\"url\":"@ + js_literal(e.url) + ",\"sel\":"@ + bool_text(selected);
    let second = ",\"active\":"@ + bool_text(e.kind.switches());
    assert(row =~= none + first + (second + "}"@));
    lemma_contains_part(none, first, second + "}"@);
    assert(row =~= first + second + "}"@);
    lemma_contains_part(first, second, "}"@);
    let start = "window.__motePicker&&window.__motePicker("@;
    let head = "{query:"@ + js_literal(p.query) + ",rows:["@;
    let list = joined(row_objects(p), ","@);
    reveal_strlit("window.__motePicker&&window.__motePicker({query:");
    reveal_strlit("window.__motePicker&&window.__motePicker(");
    reveal_strlit("{query:");
    reveal_strlit(",rows:");
    reveal_strlit(",rows:[");
    reveal_strlit("[");
    reveal_strlit("]");
    reveal_strlit("});");
    assert("window.__motePicker&&window.__motePicker({query:"@ =~= start + "{query:"@);
    assert(",rows:["@ =~= ",rows:"@ + "["@);
    assert(picker_text(p) =~= start + head + (list + "]"@ + "});"@));
    lemma_contains_part(start, head, list + "]"@ + "});"@);
    assert(picker_text(p) =~= (start + head) + list + ("]"@ + "});"@));
    lemma_contains_part(start + head, list, "]"@ + "});"@);
}

} // verus!
