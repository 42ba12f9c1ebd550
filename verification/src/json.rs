//! JSON at the edge of the shell: the parameters of an operation, and quoted
//! strings.

use crate::escape::hex_lower;
use crate::text::{flat_map, text_eq};
use vstd::prelude::*;

verus! {

/// `c` inside a JSON string.
pub open spec fn json_char(c: char) -> Seq<char> {
    if c == '"' {
        seq!['\\', '"']
    } else if c == '\\' {
        seq!['\\', '\\']
    } else if c == '\u{8}' {
        seq!['\\', 'b']
    } else if c == '\u{c}' {
        seq!['\\', 'f']
    } else if c == '\n' {
        seq!['\\', 'n']
    } else if c == '\r' {
        seq!['\\', 'r']
    } else if c == '\t' {
        seq!['\\', 't']
    } else if (c as u32) < 0x20 {
        seq!['\\', 'u', '0', '0', hex_lower(c as u32 as nat / 16), hex_lower(c as u32 as nat % 16)]
    } else {
        seq![c]
    }
}

/// `s` as a JSON string.
pub open spec fn json_quoted(s: Seq<char>) -> Seq<char> {
    seq!['"'] + flat_map(s, |c: char| json_char(c)) + seq!['"']
}

/// `serde_json::to_string` on a string: quotes, backslashes and control
/// characters are escaped, every other character stands for itself. It does
/// not fail on a string.
#[verifier::external_body]
pub(crate) fn json_string(s: &str) -> (r: String)
    ensures
        r@ == json_quoted(s@),
{
    serde_json::to_string(s).unwrap_or_default()
}

/// A member of a JSON object, as far as operations read it.
#[derive(Debug)]
pub enum JsonMember {
    Text(String),
    /// A number; its value where it is a non-negative integer of 64 bits.
    Number(Option<u64>),
    Flag(bool),
    /// Null, an array or an object.
    Other,
}

/// [`JsonMember`] as a value.
pub enum JsonMemberView {
    Text(Seq<char>),
    Number(Option<u64>),
    Flag(bool),
    Other,
}

impl View for JsonMember {
    type V = JsonMemberView;

    open spec fn view(&self) -> JsonMemberView {
        match *self {
            JsonMember::Text(s) => JsonMemberView::Text(s@),
            JsonMember::Number(n) => JsonMemberView::Number(n),
            JsonMember::Flag(b) => JsonMemberView::Flag(b),
            JsonMember::Other => JsonMemberView::Other,
        }
    }
}

/// The members of an object, with their names.
pub open spec fn members_view(v: Seq<(String, JsonMember)>) -> Seq<(Seq<char>, JsonMemberView)> {
    v.map_values(|m: (String, JsonMember)| (m.0@, m.1@))
}

/// The members of the JSON object that `serde_json::from_str` reads from a
/// text, in the order of its map; `None` where the text is no JSON or no
/// object.
pub uninterp spec fn json_object(text: Seq<char>) -> Option<Seq<(Seq<char>, JsonMemberView)>>;

/// `serde_json::from_str` to a `serde_json::Value`, and the members of the
/// object that it is.
#[verifier::external_body]
pub(crate) fn parse_object(text: &str) -> (r: Option<Vec<(String, JsonMember)>>)
    ensures
        match r {
            Some(members) => json_object(text@) == Some(members_view(members@)),
            None => json_object(text@) is None,
        },
{
    let convert = |value: serde_json::Value| match value {
        serde_json::Value::String(s) => JsonMember::Text(s),
        serde_json::Value::Number(n) => JsonMember::Number(n.as_u64()),
        serde_json::Value::Bool(b) => JsonMember::Flag(b),
        _ => JsonMember::Other,
    };
    match serde_json::from_str(text) {
        Ok(serde_json::Value::Object(map)) => {
            Some(map.into_iter().map(|(name, value)| (name, convert(value))).collect())
        },
        _ => None,
    }
}

/// The member called `name`.
pub open spec fn member(
    members: Seq<(Seq<char>, JsonMemberView)>,
    name: Seq<char>,
) -> Option<JsonMemberView>
    decreases members.len(),
{
    if members.len() == 0 {
        None
    } else if members[0].0 == name {
        Some(members[0].1)
    } else {
        member(members.drop_first(), name)
    }
}

/// The member called `name` of an object; none of what is no object.
pub open spec fn member_of(
    object: Option<Seq<(Seq<char>, JsonMemberView)>>,
    name: Seq<char>,
) -> Option<JsonMemberView> {
    match object {
        Some(members) => member(members, name),
        None => None,
    }
}

/// The string called `name`.
pub open spec fn text_member(
    object: Option<Seq<(Seq<char>, JsonMemberView)>>,
    name: Seq<char>,
) -> Option<Seq<char>> {
    match member_of(object, name) {
        Some(JsonMemberView::Text(s)) => Some(s),
        _ => None,
    }
}

/// The non-negative integer called `name`.
pub open spec fn number_member(
    object: Option<Seq<(Seq<char>, JsonMemberView)>>,
    name: Seq<char>,
) -> Option<u64> {
    match member_of(object, name) {
        Some(JsonMemberView::Number(n)) => n,
        _ => None,
    }
}

/// The boolean called `name`.
pub open spec fn flag_member(
    object: Option<Seq<(Seq<char>, JsonMemberView)>>,
    name: Seq<char>,
) -> Option<bool> {
    match member_of(object, name) {
        Some(JsonMemberView::Flag(b)) => Some(b),
        _ => None,
    }
}

/// What a parsed object holds.
pub open spec fn object_view(object: Option<Vec<(String, JsonMember)>>) -> Option<
    Seq<(Seq<char>, JsonMemberView)>,
> {
    match object {
        Some(members) => Some(members_view(members@)),
        None => None,
    }
}

/// The member called `name`.
pub fn find_member<'a>(object: &'a Option<Vec<(String, JsonMember)>>, name: &str) -> (r: Option<
    &'a JsonMember,
>)
    ensures
        match r {
            Some(m) => member_of(object_view(*object), name@) == Some(m@),
            None => member_of(object_view(*object), name@) is None,
        },
{
    match object {
        Some(members) => {
            let ghost all = members_view(members@);
            let mut i: usize = 0;
            assert(all.skip(0) =~= all);
            while i < members.len()
                invariant
                    i <= members@.len(),
                    all == members_view(members@),
                    member(all, name@) == member(all.skip(i as int), name@),
                    object_view(*object) == Some(all),
                decreases members@.len() - i,
            {
                assert(all.skip(i as int)[0] == (members@[i as int].0@, members@[i as int].1@));
                assert(all.skip(i as int).drop_first() =~= all.skip(i + 1));
                if text_eq(members[i].0.as_str(), name) {
                    return Some(&members[i].1);
                }
                i = i + 1;
            }
            None
        },
        None => None,
    }
}

/// The string called `name` of a parsed object.
pub fn text_field(object: &Option<Vec<(String, JsonMember)>>, name: &str) -> (r: Option<String>)
    ensures
        crate::text::opt_text(r) == text_member(object_view(*object), name@),
{
    match find_member(object, name) {
        Some(JsonMember::Text(s)) => Some(s.clone()),
        _ => None,
    }
}

/// The non-negative integer called `name` of a parsed object.
pub fn number_field(object: &Option<Vec<(String, JsonMember)>>, name: &str) -> (r: Option<u64>)
    ensures
        r == number_member(object_view(*object), name@),
{
    match find_member(object, name) {
        Some(JsonMember::Number(n)) => *n,
        _ => None,
    }
}

/// The boolean called `name` of a parsed object.
pub fn flag_field(object: &Option<Vec<(String, JsonMember)>>, name: &str) -> (r: Option<bool>)
    ensures
        r == flag_member(object_view(*object), name@),
{
    match find_member(object, name) {
        Some(JsonMember::Flag(b)) => Some(*b),
        _ => None,
    }
}

/// The top-level string `field` of the JSON object in `json`; `None` where
/// `json` is no object, or the field is missing or no string.
pub fn json_string_field(json: &str, field: &str) -> (r: Option<String>)
    ensures
        crate::text::opt_text(r) == text_member(json_object(json@), field@),
{
    let object = parse_object(json);
    text_field(&object, field)
}

/// The top-level non-negative integer `field` of the JSON object in `json`.
pub fn json_u64_field(json: &str, field: &str) -> (r: Option<u64>)
    ensures
        r == number_member(json_object(json@), field@),
{
    let object = parse_object(json);
    number_field(&object, field)
}

/// The top-level boolean `field` of the JSON object in `json`.
pub fn json_bool_field(json: &str, field: &str) -> (r: Option<bool>)
    ensures
        r == flag_member(json_object(json@), field@),
{
    let object = parse_object(json);
    flag_field(&object, field)
}

} // verus!
