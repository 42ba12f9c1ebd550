//! What the shell tells the chrome document: scripts that hand a payload to
//! one of its operations. Every text from outside enters a script through
//! [`js_string`] alone.

use crate::escape::{js_literal, js_string};
use crate::json::{json_quoted, json_string};
use crate::text::{
    bool_str, bool_text, decimal, decimal_text, join, joined, opt_text, signed_decimal,
    signed_decimal_text, strings,
};
use crate::url_analysis::{analysis_value, UrlAnalysis, UrlAnalysisView};
use vstd::prelude::*;

verus! {

/// The script that hands `payload` to the chrome's operation `op`.
pub open spec fn op_script(op: Seq<char>, payload: Seq<char>) -> Seq<char> {
    "window.mote&&window.mote.applyOp&&window.mote.applyOp('"@ + op + "',"@ + payload + ");"@
}

/// The script that hands `payload` to the chrome's operation `op`.
pub fn apply_op(op: &str, payload: &str) -> (r: String)
    ensures
        r@ == op_script(op@, payload@),
{
    let mut out = String::new();
    out.push_str("window.mote&&window.mote.applyOp&&window.mote.applyOp('");
    out.push_str(op);
    out.push_str("',");
    out.push_str(payload);
    out.push_str(");");
    assert(out@ =~= op_script(op@, payload@));
    out
}

/// The literal for `s`, or `null`.
pub open spec fn opt_literal(s: Option<Seq<char>>) -> Seq<char> {
    match s {
        Some(t) => js_literal(t),
        None => "null"@,
    }
}

fn opt_js_string(s: &Option<String>) -> (r: String)
    ensures
        r@ == opt_literal(opt_text(*s)),
{
    match s {
        Some(t) => js_string(t.as_str()),
        None => "null".to_owned(),
    }
}

/// The literals of a list of texts.
pub open spec fn literals(names: Seq<Seq<char>>) -> Seq<Seq<char>> {
    names.map_values(|n: Seq<char>| js_literal(n))
}

fn js_strings(names: &Vec<String>) -> (r: Vec<String>)
    ensures
        strings(r@) == literals(strings(names@)),
{
    let mut out: Vec<String> = Vec::new();
    let mut i: usize = 0;
    while i < names.len()
        invariant
            i <= names@.len(),
            out@.len() == i,
            forall|k: int| 0 <= k < i ==> (#[trigger] out@[k])@ == js_literal(names@[k]@),
        decreases names@.len() - i,
    {
        out.push(js_string(names[i].as_str()));
        i = i + 1;
    }
    assert(strings(out@) =~= literals(strings(names@)));
    out
}

/// The parts of a URL that the omnibox shows.
pub open spec fn display_object(a: UrlAnalysisView) -> Seq<char> {
    "{\"scheme\":"@ + js_literal(a.scheme) + ",\"subdomain\":"@ + js_literal(a.subdomain)
        + ",\"registrable\":"@ + js_literal(a.registrable) + ",\"rest\":"@ + js_literal(a.rest)
        + "}"@
}

fn display_json(a: &UrlAnalysis) -> (r: String)
    ensures
        r@ == display_object(a@),
{
    let mut out = String::new();
    out.push_str("{\"scheme\":");
    let scheme = js_string(a.scheme.as_str());
    out.push_str(scheme.as_str());
    out.push_str(",\"subdomain\":");
    let subdomain = js_string(a.subdomain.as_str());
    out.push_str(subdomain.as_str());
    out.push_str(",\"registrable\":");
    let registrable = js_string(a.registrable.as_str());
    out.push_str(registrable.as_str());
    out.push_str(",\"rest\":");
    let rest = js_string(a.rest.as_str());
    out.push_str(rest.as_str());
    out.push_str("}");
    assert(out@ =~= display_object(a@));
    out
}

/// The trackers of a URL; `null` where it has none.
pub open spec fn trackers_object(a: UrlAnalysisView) -> Seq<char> {
    if a.tracker_names.len() == 0 {
        "null"@
    } else {
        "{\"count\":"@ + decimal(a.tracker_names.len()) + ",\"clean\":"@ + js_literal(a.clean_url)
            + ",\"names\":["@ + joined(literals(a.tracker_names), ","@) + "]}"@
    }
}

fn trackers_json(a: &UrlAnalysis) -> (r: String)
    ensures
        r@ == trackers_object(a@),
{
    if a.tracker_names.len() == 0 {
        return "null".to_owned();
    }
    let mut out = String::new();
    out.push_str("{\"count\":");
    let count = decimal_text(a.tracker_names.len() as u64);
    out.push_str(count.as_str());
    out.push_str(",\"clean\":");
    let clean = js_string(a.clean_url.as_str());
    out.push_str(clean.as_str());
    out.push_str(",\"names\":[");
    let names = js_strings(&a.tracker_names);
    let list = join(&names, ",");
    out.push_str(list.as_str());
    out.push_str("]}");
    assert(out@ =~= trackers_object(a@));
    out
}

/// The payload of `set_url`: the active tab's URL, whether it is bookmarked,
/// and its structure, where it has one.
pub open spec fn url_object(
    url: Seq<char>,
    bookmarked: bool,
    analysis: Option<UrlAnalysisView>,
) -> Seq<char> {
    "{\"url\":"@ + js_literal(url) + ",\"bookmarked\":"@ + bool_text(bookmarked)
        + ",\"display\":"@ + (match analysis {
        Some(a) => display_object(a),
        None => "null"@,
    }) + ",\"trackers\":"@ + (match analysis {
        Some(a) => trackers_object(a),
        None => "null"@,
    }) + "}"@
}

/// The payload of `set_url`.
pub fn url_payload(url: &str, bookmarked: bool, analysis: &Option<UrlAnalysis>) -> (r: String)
    ensures
        r@ == url_object(url@, bookmarked, analysis_value(*analysis)),
{
    let mut out = String::new();
    out.push_str("{\"url\":");
    let literal = js_string(url);
    out.push_str(literal.as_str());
    out.push_str(",\"bookmarked\":");
    out.push_str(bool_str(bookmarked));
    out.push_str(",\"display\":");
    let display = match analysis {
        Some(a) => display_json(a),
        None => "null".to_owned(),
    };
    out.push_str(display.as_str());
    out.push_str(",\"trackers\":");
    let trackers = match analysis {
        Some(a) => trackers_json(a),
        None => "null".to_owned(),
    };
    out.push_str(trackers.as_str());
    out.push_str("}");
    assert(out@ =~= url_object(url@, bookmarked, analysis_value(*analysis)));
    out
}

/// The payload of `set_nav_state`.
pub open spec fn nav_object(can_go_back: bool, can_go_forward: bool) -> Seq<char> {
    "{can_go_back:"@ + bool_text(can_go_back) + ",can_go_forward:"@ + bool_text(can_go_forward)
        + "}"@
}

/// The script that tells the chrome where the active tab can go.
pub fn nav_script(can_go_back: bool, can_go_forward: bool) -> (r: String)
    ensures
        r@ == op_script("set_nav_state"@, nav_object(can_go_back, can_go_forward)),
{
    let mut out = String::new();
    out.push_str("{can_go_back:");
    out.push_str(bool_str(can_go_back));
    out.push_str(",can_go_forward:");
    out.push_str(bool_str(can_go_forward));
    out.push_str("}");
    assert(out@ =~= nav_object(can_go_back, can_go_forward));
    apply_op("set_nav_state", out.as_str())
}

/// The payload of `set_load_state`.
pub open spec fn load_object(loading: bool) -> Seq<char> {
    "{loading:"@ + bool_text(loading) + "}"@
}

/// The script that tells the chrome whether the active tab loads.
pub fn load_script(loading: bool) -> (r: String)
    ensures
        r@ == op_script("set_load_state"@, load_object(loading)),
{
    let mut out = String::new();
    out.push_str("{loading:");
    out.push_str(bool_str(loading));
    out.push_str("}");
    assert(out@ =~= load_object(loading));
    apply_op("set_load_state", out.as_str())
}

/// The label of a find: the place of the active match and the number of
/// matches; empty where there are none.
pub open spec fn find_label(ordinal: int, count: int) -> Seq<char> {
    if count == 0 {
        Seq::empty()
    } else {
        signed_decimal(ordinal) + " / "@ + signed_decimal(count)
    }
}

/// The payload of `find_count`.
pub open spec fn find_object(ordinal: int, count: int) -> Seq<char> {
    "{label:"@ + js_literal(find_label(ordinal, count)) + "}"@
}

/// The script that tells the chrome what a find has found.
pub fn find_script(ordinal: i32, count: i32) -> (r: String)
    ensures
        r@ == op_script("find_count"@, find_object(ordinal as int, count as int)),
{
    let mut label = String::new();
    if count != 0 {
        let place = signed_decimal_text(ordinal);
        label.push_str(place.as_str());
        label.push_str(" / ");
        let total = signed_decimal_text(count);
        label.push_str(total.as_str());
    }
    assert(label@ =~= find_label(ordinal as int, count as int));
    let mut out = String::new();
    out.push_str("{label:");
    let literal = js_string(label.as_str());
    out.push_str(literal.as_str());
    out.push_str("}");
    assert(out@ =~= find_object(ordinal as int, count as int));
    apply_op("find_count", out.as_str())
}

/// The script that switches the theme of the chrome document.
pub open spec fn theme_text(theme: Seq<char>) -> Seq<char> {
    "document.querySelector('.mote-root')?.setAttribute('data-theme', "@ + json_quoted(theme)
        + ");"@
}

/// The script that switches the theme of the chrome document.
pub fn theme_script(theme: &str) -> (r: String)
    ensures
        r@ == theme_text(theme@),
{
    let mut out = String::new();
    out.push_str("document.querySelector('.mote-root')?.setAttribute('data-theme', ");
    let literal = json_string(theme);
    out.push_str(literal.as_str());
    out.push_str(");");
    assert(out@ =~= theme_text(theme@));
    out
}

/// What a context menu was asked for on.
#[derive(Debug, Clone, Copy, PartialEq, Eq, Structural)]
pub enum ContextMenuKind {
    Link,
    Image,
    SelectedText,
    Editable,
    Page,
}

/// A context menu that a page asked for.
#[derive(Debug)]
pub struct ContextMenuRequest {
    pub kind: ContextMenuKind,
    pub target_url: Option<String>,
    pub selected_text: Option<String>,
    pub x: i32,
    pub y: i32,
    pub can_go_back: bool,
    pub can_go_forward: bool,
    pub is_editable: bool,
    pub edit_flags: u32,
}

/// The name of a context menu's kind.
pub open spec fn menu_kind_text(kind: ContextMenuKind) -> Seq<char> {
    match kind {
        ContextMenuKind::Link => "link"@,
        ContextMenuKind::Image => "image"@,
        ContextMenuKind::SelectedText => "selection"@,
        ContextMenuKind::Editable => "editable"@,
        ContextMenuKind::Page => "page"@,
    }
}

fn menu_kind_str(kind: ContextMenuKind) -> (r: &'static str)
    ensures
        r@ == menu_kind_text(kind),
{
    match kind {
        ContextMenuKind::Link => "link",
        ContextMenuKind::Image => "image",
        ContextMenuKind::SelectedText => "selection",
        ContextMenuKind::Editable => "editable",
        ContextMenuKind::Page => "page",
    }
}

/// The payload of `show_context_menu`.
pub open spec fn menu_object(req: ContextMenuRequest) -> Seq<char> {
    "{\"kind\":\""@ + menu_kind_text(req.kind) + "\",\"targetUrl\":"@ + opt_literal(
        opt_text(req.target_url),
    ) + ",\"selectedText\":"@ + opt_literal(opt_text(req.selected_text)) + ",\"x\":"@
        + signed_decimal(req.x as int) + ",\"y\":"@ + signed_decimal(req.y as int)
        + ",\"canGoBack\":"@ + bool_text(req.can_go_back) + ",\"canGoForward\":"@ + bool_text(
        req.can_go_forward,
    ) + ",\"isEditable\":"@ + bool_text(req.is_editable) + ",\"editFlags\":"@ + decimal(
        req.edit_flags as nat,
    ) + "}"@
}

/// The payload of `show_context_menu`.
pub fn context_menu_payload(req: &ContextMenuRequest) -> (r: String)
    ensures
        r@ == menu_object(*req),
{
    let mut out = String::new();
    out.push_str("{\"kind\":\"");
    out.push_str(menu_kind_str(req.kind));
    out.push_str("\",\"targetUrl\":");
    let target = opt_js_string(&req.target_url);
    out.push_str(target.as_str());
    out.push_str(",\"selectedText\":");
    let selected = opt_js_string(&req.selected_text);
    out.push_str(selected.as_str());
    out.push_str(",\"x\":");
    let x = signed_decimal_text(req.x);
    out.push_str(x.as_str());
    out.push_str(",\"y\":");
    let y = signed_decimal_text(req.y);
    out.push_str(y.as_str());
    out.push_str(",\"canGoBack\":");
    out.push_str(bool_str(req.can_go_back));
    out.push_str(",\"canGoForward\":");
    out.push_str(bool_str(req.can_go_forward));
    out.push_str(",\"isEditable\":");
    out.push_str(bool_str(req.is_editable));
    out.push_str(",\"editFlags\":");
    let flags = decimal_text(req.edit_flags as u64);
    out.push_str(flags.as_str());
    out.push_str("}");
    assert(out@ =~= menu_object(*req));
    out
}

} // verus!
