//! What plugins answer when the shell asks them, and the lists that the chrome
//! shows of it.

use crate::sorted::{descending, placed};
use crate::text::{
    bool_str, bool_text, decimal, decimal_text, join, joined, opt_text, strings, text_eq,
};
use vstd::prelude::*;

verus! {

/// What a plugin answers; `R` is what the shell reads of a row.
#[derive(Debug)]
pub enum Reply<R> {
    List(Vec<R>),
    Flag(bool),
    /// No value.
    Nil,
    /// Anything else. An empty list arrives in this shape.
    Other,
}

/// The rows of an answer; none where it is no list, or no plugin answered.
pub open spec fn reply_rows<R>(reply: Option<Reply<R>>) -> Seq<R> {
    match reply {
        Some(Reply::List(rows)) => rows@,
        _ => Seq::empty(),
    }
}

/// The rows of an answer; none where it is no list, or no plugin answered.
pub fn rows_of<R>(reply: Option<Reply<R>>) -> (r: Vec<R>)
    ensures
        r@ == reply_rows(reply),
{
    match reply {
        Some(Reply::List(rows)) => rows,
        _ => Vec::new(),
    }
}

/// Rows that are JSON texts, as a JSON array.
pub open spec fn json_array(rows: Seq<Seq<char>>) -> Seq<char> {
    "["@ + joined(rows, ","@) + "]"@
}

/// Rows that are JSON texts, as a JSON array.
pub fn rows_json(rows: &Vec<String>) -> (r: String)
    ensures
        r@ == json_array(strings(rows@)),
{
    let mut out = String::new();
    out.push_str("[");
    let body = join(rows, ",");
    out.push_str(body.as_str());
    out.push_str("]");
    assert(out@ =~= json_array(strings(rows@)));
    out
}

/// What the shell reads of a bookmark.
#[derive(Debug)]
pub struct BookmarkRow {
    pub url: Option<String>,
    /// When it was added: greater is later.
    pub added: i64,
    /// The whole row as JSON.
    pub json: String,
}

/// The later of two bookmarks has the greater key.
pub open spec fn added_key() -> spec_fn(BookmarkRow) -> int {
    |row: BookmarkRow| row.added as int
}

/// The bookmarks, the latest first.
pub open spec fn latest_first(rows: Seq<BookmarkRow>) -> Seq<BookmarkRow> {
    descending(rows, added_key())
}

fn sort_latest_first(rows: Vec<BookmarkRow>) -> (r: Vec<BookmarkRow>)
    ensures
        r@ == latest_first(rows@),
{
    let ghost all = rows@;
    let ghost key = added_key();
    let total: usize = rows.len();
    let mut rest = rows;
    let mut out: Vec<BookmarkRow> = Vec::new();
    let mut n: usize = 0;
    assert(all.subrange(0, 0) =~= Seq::<BookmarkRow>::empty());
    assert(out@ =~= descending(all.subrange(0, 0), key));
    assert(rest@ =~= all.skip(0));
    while rest.len() > 0
        invariant
            n <= all.len() == total,
            rest@ == all.skip(n as int),
            key == added_key(),
            out@ == descending(all.subrange(0, n as int), key),
        decreases rest@.len(),
    {
        let ghost front = all.subrange(0, n as int);
        let ghost next = all.subrange(0, n + 1);
        assert(next.drop_last() =~= front);
        assert(rest@[0] == all[n as int]);
        let row = rest.remove(0);
        assert(rest@ =~= all.skip(n + 1));
        assert(next.last() == row);
        let ghost sorted = out@;
        let mut at: usize = out.len();
        assert(sorted.subrange(0, sorted.len() as int) =~= sorted);
        assert(placed(sorted, row, key) + sorted.subrange(sorted.len() as int, sorted.len() as int)
            =~= placed(sorted, row, key));
        while at > 0 && out[at - 1].added < row.added
            invariant
                at <= out@.len(),
                out@ == sorted,
                key == added_key(),
                placed(sorted, row, key) == placed(sorted.subrange(0, at as int), row, key)
                    + sorted.subrange(at as int, sorted.len() as int),
            decreases at,
        {
            let ghost head = sorted.subrange(0, at as int);
            assert(head.last() == sorted[at - 1]);
            assert(head.drop_last() =~= sorted.subrange(0, at - 1));
            assert(placed(head, row, key) + sorted.subrange(at as int, sorted.len() as int)
                =~= placed(sorted.subrange(0, at - 1), row, key) + sorted.subrange(
                at - 1,
                sorted.len() as int,
            ));
            at = at - 1;
        }
        proof {
            let head = sorted.subrange(0, at as int);
            if at > 0 {
                assert(head.last() == sorted[at - 1]);
            }
            assert(sorted.insert(at as int, row) =~= head.push(row) + sorted.subrange(
                at as int,
                sorted.len() as int,
            ));
        }
        out.insert(at, row);
        n = n + 1;
    }
    assert(all.subrange(0, all.len() as int) =~= all);
    out
}

/// The rows as JSON texts.
pub open spec fn bookmark_jsons(rows: Seq<BookmarkRow>) -> Seq<Seq<char>> {
    rows.map_values(|row: BookmarkRow| row.json@)
}

/// The payload of `bookmark_list`: the bookmarks, the latest first, and their
/// number.
pub open spec fn bookmark_object(rows: Seq<BookmarkRow>) -> Seq<char> {
    "{\"rows\":"@ + json_array(bookmark_jsons(latest_first(rows))) + ",\"count\":"@ + decimal(
        rows.len(),
    ) + "}"@
}

/// The payload of `bookmark_list`.
pub fn bookmark_list(rows: Vec<BookmarkRow>) -> (r: String)
    ensures
        r@ == bookmark_object(rows@),
{
    let ghost all = rows@;
    let count: usize = rows.len();
    let sorted = sort_latest_first(rows);
    let mut jsons: Vec<String> = Vec::new();
    let mut i: usize = 0;
    while i < sorted.len()
        invariant
            i <= sorted@.len(),
            jsons@.len() == i,
            forall|k: int| 0 <= k < i ==> (#[trigger] jsons@[k])@ == sorted@[k].json@,
        decreases sorted@.len() - i,
    {
        jsons.push(sorted[i].json.clone());
        i = i + 1;
    }
    assert(strings(jsons@) =~= bookmark_jsons(latest_first(all)));
    let mut out = String::new();
    out.push_str("{\"rows\":");
    let list = rows_json(&jsons);
    out.push_str(list.as_str());
    out.push_str(",\"count\":");
    let digits = decimal_text(count as u64);
    out.push_str(digits.as_str());
    out.push_str("}");
    assert(out@ =~= bookmark_object(all));
    out
}

/// The payload of `bookmark_list`, given what the bookmarks plugin answers;
/// `None` where no plugin answered.
pub fn build_bookmark_list_json(reply: Option<Reply<BookmarkRow>>) -> (r: Option<String>)
    ensures
        opt_text(r) == if reply is Some {
            Some(bookmark_object(reply_rows(reply)))
        } else {
            None
        },
{
    if reply.is_none() {
        return None;
    }
    Some(bookmark_list(rows_of(reply)))
}

/// Whether one of the bookmarks has this URL.
pub open spec fn bookmarked(rows: Seq<BookmarkRow>, url: Seq<char>) -> bool {
    exists|i: int| 0 <= i < rows.len() && opt_text((#[trigger] rows[i]).url) == Some(url)
}

/// Whether `url` is among the bookmarks.
pub fn is_url_bookmarked(rows: &Vec<BookmarkRow>, url: &str) -> (r: bool)
    ensures
        r == bookmarked(rows@, url@),
{
    let mut i: usize = 0;
    while i < rows.len()
        invariant
            i <= rows@.len(),
            forall|k: int| 0 <= k < i ==> opt_text((#[trigger] rows@[k]).url) != Some(url@),
        decreases rows@.len() - i,
    {
        if let Some(u) = &rows[i].url {
            if text_eq(u.as_str(), url) {
                assert(opt_text(rows@[i as int].url) == Some(url@));
                return true;
            }
        }
        i = i + 1;
    }
    false
}

/// What a bookmark toggle asks of the bookmarks plugin.
#[derive(Debug)]
pub enum BookmarkCall {
    Remove { url: String },
    Add { url: String, title: String },
}

/// Removes the bookmark of a URL that has one, and adds one where there is
/// none. A tab without a title is added with an empty one.
pub fn toggle_bookmark(rows: &Vec<BookmarkRow>, url: String, title: Option<String>) -> (r:
    BookmarkCall)
    ensures
        match r {
            BookmarkCall::Remove { url: u } => bookmarked(rows@, url@) && u@ == url@,
            BookmarkCall::Add { url: u, title: t } => !bookmarked(rows@, url@) && u@ == url@ && t@
                == match opt_text(title) {
                Some(text) => text,
                None => Seq::empty(),
            },
        },
{
    if is_url_bookmarked(rows, url.as_str()) {
        BookmarkCall::Remove { url }
    } else {
        let title = match title {
            Some(t) => t,
            None => String::new(),
        };
        BookmarkCall::Add { url, title }
    }
}

/// How many visits the history panel shows.
pub const HISTORY_CAP: usize = 200;

/// How many visits are asked for: one more than is shown, so that it can be
/// seen whether there are more.
pub const HISTORY_FETCH: usize = 201;

/// The payload of `history_list`: the first visits, their number, and whether
/// there are more.
pub open spec fn history_object(rows: Seq<Seq<char>>) -> Seq<char> {
    let shown = if rows.len() > HISTORY_CAP {
        rows.subrange(0, HISTORY_CAP as int)
    } else {
        rows
    };
    "{\"rows\":"@ + json_array(shown) + ",\"count\":"@ + decimal(shown.len())
        + ",\"truncated\":"@ + bool_text(rows.len() > HISTORY_CAP) + "}"@
}

/// The payload of `history_list`.
pub fn history_list(rows: Vec<String>) -> (r: String)
    ensures
        r@ == history_object(strings(rows@)),
{
    let ghost all = strings(rows@);
    let mut shown = rows;
    let truncated = shown.len() > HISTORY_CAP;
    if truncated {
        shown.truncate(HISTORY_CAP);
        assert(strings(shown@) =~= all.subrange(0, HISTORY_CAP as int));
    }
    let mut out = String::new();
    out.push_str("{\"rows\":");
    let list = rows_json(&shown);
    out.push_str(list.as_str());
    out.push_str(",\"count\":");
    let digits = decimal_text(shown.len() as u64);
    out.push_str(digits.as_str());
    out.push_str(",\"truncated\":");
    out.push_str(bool_str(truncated));
    out.push_str("}");
    assert(out@ =~= history_object(all));
    out
}

/// The payload of `history_list`, given what the history plugin answers; `None`
/// where no plugin answered.
pub fn build_history_list_json(reply: Option<Reply<String>>) -> (r: Option<String>)
    ensures
        opt_text(r) == if reply is Some {
            Some(history_object(strings(reply_rows(reply))))
        } else {
            None
        },
{
    if reply.is_none() {
        return None;
    }
    Some(history_list(rows_of(reply)))
}

/// The payload of `workspace_list`.
pub open spec fn workspace_object(rows: Seq<Seq<char>>) -> Seq<char> {
    "{\"rows\":"@ + json_array(rows) + "}"@
}

/// The payload of `workspace_list`, given what the workspace plugin answers;
/// `None` where no plugin answered.
pub fn build_workspace_list_json(reply: Option<Reply<String>>) -> (r: Option<String>)
    ensures
        opt_text(r) == if reply is Some {
            Some(workspace_object(strings(reply_rows(reply))))
        } else {
            None
        },
{
    if reply.is_none() {
        return None;
    }
    let mut out = String::new();
    out.push_str("{\"rows\":");
    let list = rows_json(&rows_of(reply));
    out.push_str(list.as_str());
    out.push_str("}");
    assert(out@ =~= workspace_object(strings(reply_rows(reply))));
    Some(out)
}

/// The names of the workspaces that have one, in order.
pub open spec fn slugs(rows: Seq<Option<String>>) -> Seq<Seq<char>>
    decreases rows.len(),
{
    if rows.len() == 0 {
        Seq::empty()
    } else {
        match rows.last() {
            Some(id) => slugs(rows.drop_last()).push(id@),
            None => slugs(rows.drop_last()),
        }
    }
}

/// The names of the workspaces, in the plugin's order; `None` where no plugin
/// answered. A row without a name is passed over.
pub fn workspace_slugs(reply: Option<Reply<Option<String>>>) -> (r: Option<Vec<String>>)
    ensures
        match r {
            Some(list) => reply is Some && strings(list@) == slugs(reply_rows(reply)),
            None => reply is None,
        },
{
    if reply.is_none() {
        return None;
    }
    let ghost all = reply_rows(reply);
    let rows = rows_of(reply);
    let mut out: Vec<String> = Vec::new();
    let mut i: usize = 0;
    assert(strings(out@) =~= slugs(all.subrange(0, 0)));
    while i < rows.len()
        invariant
            i <= rows@.len(),
            rows@ == all,
            strings(out@) == slugs(all.subrange(0, i as int)),
        decreases rows@.len() - i,
    {
        let ghost next = all.subrange(0, i + 1);
        assert(next.drop_last() =~= all.subrange(0, i as int));
        assert(next.last() == rows@[i as int]);
        let ghost before = out@;
        if let Some(id) = &rows[i] {
            out.push(id.clone());
            assert(strings(out@) =~= strings(before).push(id@));
        }
        i = i + 1;
    }
    assert(all.subrange(0, all.len() as int) =~= all);
    Some(out)
}

/// The number of the workspace called `slug`: its first place in the list.
pub open spec fn is_workspace_id(list: Seq<Seq<char>>, slug: Seq<char>, id: int) -> bool {
    &&& 0 <= id < list.len()
    &&& list[id] == slug
    &&& forall|k: int| 0 <= k < id ==> list[k] != slug
}

/// The number of the workspace called `slug`: its place in the plugin's list,
/// counted from zero. `None` where it is not in the list.
pub fn workspace_id_for_slug(slug: &str, slugs: &[String]) -> (r: Option<u64>)
    ensures
        match r {
            Some(id) => is_workspace_id(strings(slugs@), slug@, id as int),
            None => !strings(slugs@).contains(slug@),
        },
{
    let mut i: usize = 0;
    while i < slugs.len()
        invariant
            i <= slugs@.len(),
            forall|k: int| 0 <= k < i ==> strings(slugs@)[k] != slug@,
        decreases slugs@.len() - i,
    {
        assert(strings(slugs@)[i as int] == slugs@[i as int]@);
        if text_eq(slugs[i].as_str(), slug) {
            return Some(i as u64);
        }
        i = i + 1;
    }
    None
}

/// The workspace at a place of the list, counted from one.
pub fn workspace_slug_by_index(slugs: &Option<Vec<String>>, index: u8) -> (r: Option<String>)
    ensures
        match r {
            Some(slug) => slugs is Some && 1 <= index <= (slugs->0)@.len() && slug@ == (
            slugs->0)@[index - 1]@,
            None => slugs is None || index == 0 || index > (slugs->0)@.len(),
        },
{
    match slugs {
        Some(list) => if index == 0 || index as usize > list.len() {
            None
        } else {
            Some(list[index as usize - 1].clone())
        },
        None => None,
    }
}

/// The last workspace of the list.
pub fn workspace_slug_last(slugs: &Option<Vec<String>>) -> (r: Option<String>)
    ensures
        match r {
            Some(slug) => slugs is Some && (slugs->0)@.len() > 0 && slug@ == (slugs->0)@.last()@,
            None => slugs is None || (slugs->0)@.len() == 0,
        },
{
    match slugs {
        Some(list) => if list.len() == 0 {
            None
        } else {
            Some(list[list.len() - 1].clone())
        },
        None => None,
    }
}

/// Whether the workspace plugin accepted a switch: it says so, or answers with
/// any other value. No value and no answer are refusals.
pub open spec fn accepted<R>(reply: Option<Reply<R>>) -> bool {
    match reply {
        Some(Reply::Flag(b)) => b,
        Some(Reply::Nil) => false,
        Some(_) => true,
        None => false,
    }
}

/// Whether the workspace plugin accepted a switch.
pub fn switch_accepted<R>(reply: &Option<Reply<R>>) -> (r: bool)
    ensures
        r == accepted(*reply),
{
    match reply {
        Some(Reply::Flag(b)) => *b,
        Some(Reply::Nil) => false,
        Some(_) => true,
        None => false,
    }
}

/// The workspace to switch to: the one called `slug`, where the plugin
/// accepted it and lists it. `None` leaves everything as it is.
pub fn switch_target<R>(
    reply: &Option<Reply<R>>,
    slug: &str,
    slugs: &Option<Vec<String>>,
) -> (r: Option<u64>)
    ensures
        match r {
            Some(id) => accepted(*reply) && slugs is Some && is_workspace_id(
                strings((slugs->0)@),
                slug@,
                id as int,
            ),
            None => !accepted(*reply) || slugs is None || !strings((slugs->0)@).contains(slug@),
        },
{
    if !switch_accepted(reply) {
        return None;
    }
    match slugs {
        Some(list) => workspace_id_for_slug(slug, list.as_slice()),
        None => None,
    }
}

/// Different names in the list have different numbers, and the number gives
/// the name back.
pub proof fn workspace_ids_are_faithful(
    list: Seq<Seq<char>>,
    a: Seq<char>,
    b: Seq<char>,
    i: int,
    j: int,
)
    requires
        is_workspace_id(list, a, i),
        is_workspace_id(list, b, j),
    ensures
        list[i] == a,
        i == j <==> a == b,
{
    if a == b {
        if i < j {
            assert(list[i] != b);
        } else if j < i {
            assert(list[j] != a);
        }
    }
}

} // verus!
