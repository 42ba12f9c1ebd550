//! What the chrome reads in the scripts it is sent: which fact stands under which
//! name, and what is told in which order.

use crate::chrome::{
    display_object, find_label, find_object, literals, load_object, menu_kind_text, menu_object, nav_object,
    op_script, opt_literal, theme_text, trackers_object, url_object, ContextMenuKind,
    ContextMenuRequest,
};
use crate::dispatch::nothing;
use crate::effect::Effect;
use crate::escape::js_literal;
use crate::json::json_quoted;
use crate::picker::{row_objects, PickerView};
use crate::providers::{
    accepted, added_key, bookmark_jsons, bookmark_object, bookmarked, history_object, json_array,
    latest_first, reply_rows, slugs, workspace_object, BookmarkRow, Reply,
};
use crate::shell::{ShellView, TabView};
use crate::sorted::{descending_is_sorted, descending_is_stable};
use crate::status::{picker_text, tab_object, StatusElement, StatusZone};
use crate::text::{
    bool_text, contains_text, decimal, joined, lemma_contains_part, opt_text, signed_decimal,
};
use crate::url_analysis::UrlAnalysisView;
use vstd::prelude::*;

verus! {

/// A script ends with the operation's name and, behind it, the payload.
pub proof fn scripts_hand_the_payload_over(op: Seq<char>, payload: Seq<char>)
    ensures
        (op + "',"@ + payload + ");"@).is_suffix_of(op_script(op, payload)),
        op_script(op, payload).len() == op_script(Seq::empty(), Seq::empty()).len() + op.len()
            + payload.len(),
{
    let call = op + "',"@ + payload + ");"@;
    let s = op_script(op, payload);
    assert(s =~= "window.mote&&window.mote.applyOp&&window.mote.applyOp('"@ + call);
    assert(s.subrange(s.len() - call.len(), s.len() as int) =~= call);
}

/// A text of its own stands in a script as one string, and a text that is not
/// there as `null`.
pub proof fn absent_texts_are_null(s: Option<Seq<char>>)
    ensures
        s is Some ==> opt_literal(s) == js_literal(s->0),
        s is None ==> opt_literal(s) == "null"@,
        bool_text(true) == "true"@,
        bool_text(false) == "false"@,
{
}

/// A text that is made of three others holds the one in the middle.
proof fn lemma_reads(o: Seq<char>, a: Seq<char>, b: Seq<char>, c: Seq<char>)
    requires
        o =~= a + b + c,
    ensures
        contains_text(o, b),
{
    lemma_contains_part(a, b, c);
}

/// A tab is told with its id, its title, its URL and whether it is the active
/// one; where it has no title, its URL stands there.
pub proof fn tabs_are_told_field_by_field(tab: TabView, active: bool)
    ensures
        contains_text(tab_object(tab, active), "{\"id\":"@ + decimal(tab.id as nat) + ",\"title\":"@),
        tab.title is Some ==> contains_text(
            tab_object(tab, active),
            ",\"title\":"@ + js_literal(tab.title->0) + ",\"url\":"@,
        ),
        tab.title is None ==> contains_text(
            tab_object(tab, active),
            ",\"title\":"@ + js_literal(tab.url) + ",\"url\":"@,
        ),
        contains_text(
            tab_object(tab, active),
            ",\"url\":"@ + js_literal(tab.url) + ",\"active\":"@ + bool_text(active) + "}"@,
        ),
{
    let o = tab_object(tab, active);
    let title = js_literal(
        match tab.title {
            Some(t) => t,
            None => tab.url,
        },
    );
    let url = js_literal(tab.url);
    let id = "{\"id\":"@ + decimal(tab.id as nat);
    let end = ",\"url\":"@ + url + ",\"active\":"@ + bool_text(active) + "}"@;
    lemma_reads(o, Seq::empty(), id + ",\"title\":"@, title + end);
    lemma_reads(
        o,
        id,
        ",\"title\":"@ + title + ",\"url\":"@,
        url + ",\"active\":"@ + bool_text(active) + "}"@,
    );
    lemma_reads(o, id + ",\"title\":"@ + title, end, Seq::empty());
}

/// Every tab is told, in the order of the tabs, and only the active one as
/// active.
pub proof fn every_tab_is_told(v: ShellView, i: int)
    ensures
        v.tab_objects().len() == v.tabs.len(),
        0 <= i < v.tabs.len() && i == v.active ==> v.tab_objects()[i] == tab_object(
            v.tabs[i],
            true,
        ),
        0 <= i < v.tabs.len() && i != v.active ==> v.tab_objects()[i] == tab_object(
            v.tabs[i],
            false,
        ),
        v.tabs.len() == 0 ==> v.tabs_array() == "["@ + "]"@,
        v.tabs.len() == 1 ==> v.tabs_array() == "["@ + v.tab_objects()[0] + "]"@,
        v.tabs.len() == 2 ==> v.tabs_array() == "["@ + (v.tab_objects()[0] + ","@
            + v.tab_objects()[1]) + "]"@,
{
    reveal_with_fuel(joined, 3);
    if v.tabs.len() == 0 {
        assert(v.tabs_array() =~= "["@ + "]"@);
    }
    if v.tabs.len() == 2 {
        assert(v.tab_objects().drop_last() =~= seq![v.tab_objects()[0]]);
    }
}

/// One more item of a list comes behind the others, after the separator.
pub proof fn lists_grow_at_the_end(parts: Seq<Seq<char>>, part: Seq<char>, sep: Seq<char>)
    ensures
        parts.len() > 0 ==> joined(parts.push(part), sep) == joined(parts, sep) + sep + part,
        joined(seq![part], sep) == part,
        joined(Seq::<Seq<char>>::empty(), sep).len() == 0,
{
    assert(parts.push(part).drop_last() =~= parts);
}

/// The parts of a URL stand each under its own name.
pub proof fn urls_are_told_part_by_part(a: UrlAnalysisView)
    ensures
        contains_text(display_object(a), "{\"scheme\":"@ + js_literal(a.scheme) + ",\"subdomain\":"@),
        contains_text(
            display_object(a),
            ",\"subdomain\":"@ + js_literal(a.subdomain) + ",\"registrable\":"@,
        ),
        contains_text(
            display_object(a),
            ",\"registrable\":"@ + js_literal(a.registrable) + ",\"rest\":"@,
        ),
        contains_text(display_object(a), ",\"rest\":"@ + js_literal(a.rest) + "}"@),
{
    let o = display_object(a);
    let s = "{\"scheme\":"@ + js_literal(a.scheme);
    let d = js_literal(a.subdomain);
    let g = js_literal(a.registrable);
    let r = js_literal(a.rest) + "}"@;
    lemma_reads(
        o,
        Seq::empty(),
        s + ",\"subdomain\":"@,
        d + ",\"registrable\":"@ + g + ",\"rest\":"@ + r,
    );
    lemma_reads(o, s, ",\"subdomain\":"@ + d + ",\"registrable\":"@, g + ",\"rest\":"@ + r);
    lemma_reads(o, s + ",\"subdomain\":"@ + d, ",\"registrable\":"@ + g + ",\"rest\":"@, r);
    let whole = ",\"rest\":"@ + js_literal(a.rest) + "}"@;
    assert(whole =~= ",\"rest\":"@ + r);
    lemma_reads(
        o,
        s + ",\"subdomain\":"@ + d + ",\"registrable\":"@ + g,
        whole,
        Seq::empty(),
    );
}

/// Trackers are told with their number, the URL without them, and their names,
/// in order; a URL without trackers tells none.
pub proof fn trackers_are_told(a: UrlAnalysisView, i: int)
    ensures
        a.tracker_names.len() == 0 ==> trackers_object(a) == "null"@,
        a.tracker_names.len() > 0 ==> {
            &&& contains_text(
                trackers_object(a),
                "{\"count\":"@ + decimal(a.tracker_names.len()) + ",\"clean\":"@,
            )
            &&& contains_text(
                trackers_object(a),
                ",\"clean\":"@ + js_literal(a.clean_url) + ",\"names\":["@,
            )
            &&& contains_text(
                trackers_object(a),
                ",\"names\":["@ + joined(literals(a.tracker_names), ","@) + "]}"@,
            )
        },
        literals(a.tracker_names).len() == a.tracker_names.len(),
        0 <= i < a.tracker_names.len() ==> literals(a.tracker_names)[i]
            == js_literal(a.tracker_names[i]),
{
    if a.tracker_names.len() > 0 {
        let o = trackers_object(a);
        let list = joined(literals(a.tracker_names), ","@);
        let c = "{\"count\":"@ + decimal(a.tracker_names.len());
        let k = ",\"clean\":"@ + js_literal(a.clean_url);
        let n = ",\"names\":["@ + list + "]}"@;
        lemma_reads(o, Seq::empty(), c + ",\"clean\":"@, js_literal(a.clean_url) + n);
        lemma_reads(o, c, k + ",\"names\":["@, list + "]}"@);
        lemma_reads(o, c + k, n, Seq::empty());
    }
}

/// The active URL is told, and then whether it is bookmarked.
pub proof fn the_active_url_is_told(
    url: Seq<char>,
    marked: bool,
    analysis: Option<UrlAnalysisView>,
)
    ensures
        ("{\"url\":"@ + js_literal(url) + ",\"bookmarked\":"@ + bool_text(marked)
            + ",\"display\":"@).is_prefix_of(url_object(url, marked, analysis)),
{
    let o = url_object(url, marked, analysis);
    let head = "{\"url\":"@ + js_literal(url) + ",\"bookmarked\":"@ + bool_text(marked)
        + ",\"display\":"@;
    assert(o.subrange(0, head.len() as int) =~= head);
}

/// Behind that its structure and its trackers are told, each under its name;
/// without an analysis both are `null`.
pub proof fn the_structure_of_the_active_url_is_told(
    url: Seq<char>,
    marked: bool,
    analysis: Option<UrlAnalysisView>,
)
    ensures
        analysis is Some ==> (",\"display\":"@ + display_object(analysis->0) + ",\"trackers\":"@
            + trackers_object(analysis->0) + "}"@).is_suffix_of(url_object(url, marked, analysis)),
        analysis is None ==> (",\"display\":"@ + "null"@ + ",\"trackers\":"@ + "null"@
            + "}"@).is_suffix_of(url_object(url, marked, analysis)),
{
    let head = "{\"url\":"@ + js_literal(url) + ",\"bookmarked\":"@ + bool_text(marked);
    let d = match analysis {
        Some(a) => display_object(a),
        None => "null"@,
    };
    let t = match analysis {
        Some(a) => trackers_object(a),
        None => "null"@,
    };
    let t0 = ",\"display\":"@;
    lemma_regroup(head, t0, d);
    let t1 = t0 + d;
    lemma_regroup(head, t1, ",\"trackers\":"@);
    let t2 = t1 + ",\"trackers\":"@;
    lemma_regroup(head, t2, t);
    let t3 = t2 + t;
    lemma_regroup(head, t3, "}"@);
    lemma_ends_with(head, t3 + "}"@);
    assert(url_object(url, marked, analysis) == head + (t3 + "}"@));
}

/// Back and forward are told each under its own name, and so is whether the page
/// loads.
pub proof fn navigation_is_told(back: bool, forward: bool, loading: bool)
    ensures
        contains_text(
            nav_object(back, forward),
            "{can_go_back:"@ + bool_text(back) + ",can_go_forward:"@,
        ),
        contains_text(nav_object(back, forward), ",can_go_forward:"@ + bool_text(forward) + "}"@),
        contains_text(load_object(loading), "{loading:"@ + bool_text(loading) + "}"@),
{
    let o = nav_object(back, forward);
    let b = "{can_go_back:"@ + bool_text(back);
    lemma_reads(o, Seq::empty(), b + ",can_go_forward:"@, bool_text(forward) + "}"@);
    lemma_reads(o, b, ",can_go_forward:"@ + bool_text(forward) + "}"@, Seq::empty());
    lemma_reads(
        load_object(loading),
        Seq::empty(),
        "{loading:"@ + bool_text(loading) + "}"@,
        Seq::empty(),
    );
}

/// A find says at which match it is and of how many; without matches it says
/// nothing.
pub proof fn finds_are_counted(ordinal: int, count: int)
    ensures
        count == 0 ==> find_label(ordinal, count).len() == 0,
        count != 0 ==> signed_decimal(ordinal).is_prefix_of(find_label(ordinal, count)),
        count != 0 ==> signed_decimal(count).is_suffix_of(find_label(ordinal, count)),
        count != 0 ==> find_label(ordinal, count).len() == signed_decimal(ordinal).len() + 3
            + signed_decimal(count).len(),
        contains_text(
            find_object(ordinal, count),
            "{label:"@ + js_literal(find_label(ordinal, count)) + "}"@,
        ),
{
    reveal_strlit(" / ");
    let whole = "{label:"@ + js_literal(find_label(ordinal, count)) + "}"@;
    lemma_contains_part(Seq::empty(), whole, Seq::empty());
    assert(find_object(ordinal, count) =~= Seq::empty() + whole + Seq::empty());
    if count != 0 {
        let l = find_label(ordinal, count);
        let a = signed_decimal(ordinal);
        let b = signed_decimal(count);
        assert(l.subrange(0, a.len() as int) =~= a);
        assert(l.subrange(l.len() - b.len(), l.len() as int) =~= b);
    }
}

/// A number below zero has its sign before the digits of what it lacks.
pub proof fn negative_numbers_have_a_sign(n: nat)
    ensures
        signed_decimal(n as int) == decimal(n),
        n > 0 ==> signed_decimal(-(n as int)) == seq!['-'] + decimal(n),
{
}

/// The theme is handed to the document as a JSON string.
pub proof fn themes_are_set_on_the_document(theme: Seq<char>)
    ensures
        (json_quoted(theme) + ");"@).is_suffix_of(theme_text(theme)),
        theme_text(theme).len() + json_quoted(Seq::empty()).len() == theme_text(
            Seq::empty(),
        ).len() + json_quoted(theme).len(),
{
    let tail = json_quoted(theme) + ");"@;
    let s = theme_text(theme);
    assert(s.subrange(s.len() - tail.len(), s.len() as int) =~= tail);
}

/// A context menu is told with what it is on, the link and the selected text.
pub proof fn menus_tell_what_they_are_on(req: ContextMenuRequest)
    ensures
        ("{\"kind\":\""@ + menu_kind_text(req.kind) + "\",\"targetUrl\":"@ + opt_literal(
            opt_text(req.target_url),
        ) + ",\"selectedText\":"@ + opt_literal(opt_text(req.selected_text))
            + ",\"x\":"@).is_prefix_of(menu_object(req)),
{
    let o = menu_object(req);
    let head = "{\"kind\":\""@ + menu_kind_text(req.kind) + "\",\"targetUrl\":"@ + opt_literal(
        opt_text(req.target_url),
    ) + ",\"selectedText\":"@ + opt_literal(opt_text(req.selected_text)) + ",\"x\":"@;
    assert(o.subrange(0, head.len() as int) =~= head);
}

/// Three texts make the same whole, whichever two are put together first.
proof fn lemma_regroup(a: Seq<char>, b: Seq<char>, c: Seq<char>)
    ensures
        a + b + c == a + (b + c),
{
    assert(a + b + c =~= a + (b + c));
}

/// Behind that stand the place and what can be done there.
pub proof fn menus_tell_their_place_and_abilities(req: ContextMenuRequest)
    ensures
        (",\"x\":"@ + signed_decimal(req.x as int) + ",\"y\":"@ + signed_decimal(req.y as int)
            + ",\"canGoBack\":"@ + bool_text(req.can_go_back) + ",\"canGoForward\":"@ + bool_text(
            req.can_go_forward,
        ) + ",\"isEditable\":"@ + bool_text(req.is_editable) + ",\"editFlags\":"@ + decimal(
            req.edit_flags as nat,
        ) + "}"@).is_suffix_of(menu_object(req)),
{
    let o = menu_object(req);
    let head = "{\"kind\":\""@ + menu_kind_text(req.kind) + "\",\"targetUrl\":"@ + opt_literal(
        opt_text(req.target_url),
    ) + ",\"selectedText\":"@ + opt_literal(opt_text(req.selected_text));
    let t0 = ",\"x\":"@;
    lemma_regroup(head, t0, signed_decimal(req.x as int));
    let t1 = t0 + signed_decimal(req.x as int);
    lemma_regroup(head, t1, ",\"y\":"@);
    let t2 = t1 + ",\"y\":"@;
    lemma_regroup(head, t2, signed_decimal(req.y as int));
    let t3 = t2 + signed_decimal(req.y as int);
    lemma_regroup(head, t3, ",\"canGoBack\":"@);
    let t4 = t3 + ",\"canGoBack\":"@;
    lemma_regroup(head, t4, bool_text(req.can_go_back));
    let t5 = t4 + bool_text(req.can_go_back);
    lemma_regroup(head, t5, ",\"canGoForward\":"@);
    let t6 = t5 + ",\"canGoForward\":"@;
    lemma_regroup(head, t6, bool_text(req.can_go_forward));
    let t7 = t6 + bool_text(req.can_go_forward);
    lemma_regroup(head, t7, ",\"isEditable\":"@);
    let t8 = t7 + ",\"isEditable\":"@;
    lemma_regroup(head, t8, bool_text(req.is_editable));
    let t9 = t8 + bool_text(req.is_editable);
    lemma_regroup(head, t9, ",\"editFlags\":"@);
    let t10 = t9 + ",\"editFlags\":"@;
    lemma_regroup(head, t10, decimal(req.edit_flags as nat));
    let t11 = t10 + decimal(req.edit_flags as nat);
    lemma_regroup(head, t11, "}"@);
    let t12 = t11 + "}"@;
    lemma_ends_with(head, t12);
    assert(o == head + t12);
}

/// What is put behind a text ends the whole.
proof fn lemma_ends_with(a: Seq<char>, b: Seq<char>)
    ensures
        b.is_suffix_of(a + b),
{
    let t = a + b;
    assert(t.subrange(t.len() - b.len(), t.len() as int) =~= b);
}

/// Each thing that a menu can be on has its name.
pub proof fn menu_kinds_have_names()
    ensures
        menu_kind_text(ContextMenuKind::Link) == "link"@,
        menu_kind_text(ContextMenuKind::Image) == "image"@,
        menu_kind_text(ContextMenuKind::SelectedText) == "selection"@,
        menu_kind_text(ContextMenuKind::Editable) == "editable"@,
        menu_kind_text(ContextMenuKind::Page) == "page"@,
{
}

/// The state is told tabs first, then the active URL, then where the tab can go,
/// and the status line comes last; before the chrome is ready nothing is told.
pub proof fn the_state_is_told_in_order(
    v: ShellView,
    marked: bool,
    analysis: Option<UrlAnalysisView>,
    nav: (bool, bool),
)
    ensures
        v.has_active() && v.chrome_ready ==> v.state_effects(marked, analysis, nav) == seq![
            Effect::EvalChrome(op_script("set_tabs"@, "{tabs:"@ + v.tabs_array() + "}"@)),
            Effect::EvalChrome(
                op_script("set_url"@, url_object(v.tabs[v.active].url, marked, analysis)),
            ),
            Effect::EvalChrome(op_script("set_nav_state"@, nav_object(nav.0, nav.1))),
            Effect::PushStatusline,
        ],
        !v.has_active() && v.chrome_ready ==> v.state_effects(marked, analysis, nav) == seq![
            Effect::EvalChrome(op_script("set_tabs"@, "{tabs:"@ + v.tabs_array() + "}"@)),
            Effect::EvalChrome(op_script("set_nav_state"@, nav_object(nav.0, nav.1))),
            Effect::PushStatusline,
        ],
        !v.chrome_ready ==> v.state_effects(marked, analysis, nav) == nothing(),
{
    let e = v.state_effects(marked, analysis, nav);
    if v.has_active() && v.chrome_ready {
        assert(e =~= seq![
            Effect::EvalChrome(op_script("set_tabs"@, "{tabs:"@ + v.tabs_array() + "}"@)),
            Effect::EvalChrome(
                op_script("set_url"@, url_object(v.tabs[v.active].url, marked, analysis)),
            ),
            Effect::EvalChrome(op_script("set_nav_state"@, nav_object(nav.0, nav.1))),
            Effect::PushStatusline,
        ]);
    } else if v.chrome_ready {
        assert(e =~= seq![
            Effect::EvalChrome(op_script("set_tabs"@, "{tabs:"@ + v.tabs_array() + "}"@)),
            Effect::EvalChrome(op_script("set_nav_state"@, nav_object(nav.0, nav.1))),
            Effect::PushStatusline,
        ]);
    }
}

/// A page is secure over HTTPS, and so are the browser's own; any other is not.
pub proof fn secure_pages_come_over_https(v: ShellView, rest: Seq<char>)
    requires
        v.has_active(),
    ensures
        v.tabs[v.active].url == "https://"@ + rest ==> v.secure(),
        v.tabs[v.active].url == "mote://"@ + rest ==> v.secure(),
        v.tabs[v.active].url == "http://"@ + rest ==> !v.secure(),
        v.tabs[v.active].url.len() > 0 && v.tabs[v.active].url[0] != 'h' && v.tabs[v.active].url[0]
            != 'm' ==> !v.secure(),
{
    let u = v.tabs[v.active].url;
    reveal_strlit("https://");
    reveal_strlit("mote://");
    reveal_strlit("http://");
    assert("https://"@.len() == 8 && "https://"@[4] == 's' && "https://"@[0] == 'h');
    assert("mote://"@.len() == 7 && "mote://"@[0] == 'm');
    assert("http://"@.len() == 7 && "http://"@[4] == ':' && "http://"@[0] == 'h');
    if u == "https://"@ + rest {
        assert(u.subrange(0, 8) =~= "https://"@);
    }
    if u == "mote://"@ + rest {
        assert(u.subrange(0, 7) =~= "mote://"@);
    }
    if "https://"@.is_prefix_of(u) {
        assert(u.subrange(0, 8)[4] == u[4]);
        assert(u.subrange(0, 8)[0] == u[0]);
    }
    if "mote://"@.is_prefix_of(u) {
        assert(u.subrange(0, 7)[0] == u[0]);
    }
}

/// The status line begins with the mode, the security of the active page and the
/// number of tabs. Behind them come the hovered link in the middle and the zoom
/// on the right, each only where there is one, and then what plugins declared, in
/// their order.
pub proof fn the_status_line_keeps_its_order(
    v: ShellView,
    hover: Seq<char>,
    zoom: Seq<char>,
    declared: Seq<Seq<char>>,
    i: int,
)
    ensures
        ({
            let all = v.status_elements(Some(hover), Some(zoom), declared);
            &&& all.len() == 5 + declared.len()
            &&& all[0] is Mode
            &&& all[1] == (StatusElement::<Seq<char>>::Security { secure: v.secure() })
            &&& all[2] == StatusElement::<Seq<char>>::TabCount(v.tabs.len() as usize)
            &&& all[3] == (StatusElement::Text {
                id: "mote.hoverurl"@,
                zone: StatusZone::Center,
                priority: 100,
                text: hover,
            })
            &&& all[4] == (StatusElement::Text {
                id: "mote.zoom"@,
                zone: StatusZone::Right,
                priority: 90,
                text: "zoom "@ + zoom,
            })
            &&& 0 <= i < declared.len() ==> all[5 + i] == StatusElement::Declared(declared[i])
            &&& v.status_elements(None, Some(zoom), declared) == all.remove(3)
            &&& v.status_elements(Some(hover), None, declared) == all.remove(4)
            &&& v.status_elements(None, None, declared) == all.remove(3).remove(3)
        }),
{
    let all = v.status_elements(Some(hover), Some(zoom), declared);
    assert(v.status_elements(None, Some(zoom), declared) =~= all.remove(3));
    assert(v.status_elements(Some(hover), None, declared) =~= all.remove(4));
    assert(v.status_elements(None, None, declared) =~= all.remove(3).remove(3));
}

/// The chrome is told only once it is ready, and only what there is to tell.
pub proof fn the_chrome_is_told_when_ready(v: ShellView, op: Seq<char>, payload: Seq<char>)
    ensures
        v.chrome_ready ==> v.told(op, payload) == seq![Effect::EvalChrome(op_script(op, payload))],
        !v.chrome_ready ==> v.told(op, payload) == nothing(),
        v.told_if(op, Some(payload)) == v.told(op, payload),
        v.told_if(op, None) == nothing(),
{
}

/// The picker is drawn once after it opened: when its page has painted, and not
/// again.
pub proof fn pickers_are_drawn_once(v: ShellView, painted: bool)
    ensures
        v.picker.open && !v.picker.ready && painted ==> v.picker_appears(painted),
        !v.picker.open || v.picker.ready || !painted ==> !v.picker_appears(painted),
        !v.with_picker(PickerView { ready: true, ..v.picker }).picker_appears(painted),
{
}

/// The picker's page reads the query and, behind it, the rows.
pub proof fn pickers_tell_query_and_rows(p: PickerView)
    ensures
        (js_literal(p.query) + ",rows:"@ + ("["@ + joined(row_objects(p), ","@) + "]"@)
            + "});"@).is_suffix_of(picker_text(p)),
{
    let s = picker_text(p);
    let tail = js_literal(p.query) + ",rows:"@ + ("["@ + joined(row_objects(p), ","@) + "]"@)
        + "});"@;
    assert(s.subrange(s.len() - tail.len(), s.len() as int) =~= tail);
}

/// An answer that is a list gives its rows; any other answer, and none, gives no
/// rows.
pub proof fn only_lists_have_rows<R>(rows: Vec<R>, flag: bool)
    ensures
        reply_rows(Some(Reply::List(rows))) == rows@,
        reply_rows::<R>(Some(Reply::Flag(flag))).len() == 0,
        reply_rows::<R>(Some(Reply::Nil)).len() == 0,
        reply_rows::<R>(Some(Reply::Other)).len() == 0,
        reply_rows::<R>(None).len() == 0,
{
}

/// A switch is refused by a `false`, by no value and by no answer; everything
/// else accepts it.
pub proof fn refusals_are_explicit<R>(rows: Vec<R>)
    ensures
        accepted::<R>(Some(Reply::Flag(true))),
        accepted(Some(Reply::List(rows))),
        accepted::<R>(Some(Reply::Other)),
        !accepted::<R>(Some(Reply::Flag(false))),
        !accepted::<R>(Some(Reply::Nil)),
        !accepted::<R>(None),
{
}

/// Bookmarks come with the latest first, those of one time in the order of the
/// plugin, and none is lost.
pub proof fn bookmarks_come_latest_first(rows: Seq<BookmarkRow>, i: int, j: int, time: i64)
    ensures
        ({
            let all = latest_first(rows);
            &&& all.len() == rows.len()
            &&& all.to_multiset() == rows.to_multiset()
            &&& 0 <= i < j < all.len() ==> all[i].added >= all[j].added
            &&& all.filter(|row: BookmarkRow| row.added == time) == rows.filter(
                |row: BookmarkRow| row.added == time,
            )
        }),
{
    let key = added_key();
    descending_is_sorted(rows, key);
    descending_is_stable(rows, key, time as int);
    assert((|row: BookmarkRow| row.added == time) =~= (|row: BookmarkRow| key(row) == time as int));
    let all = latest_first(rows);
    if 0 <= i < j < all.len() {
        assert(key(all[i]) >= key(all[j]));
    }
}

/// The chrome is told every bookmark in that order, and their number.
pub proof fn bookmarks_are_told(rows: Seq<BookmarkRow>, i: int)
    ensures
        bookmark_jsons(latest_first(rows)).len() == latest_first(rows).len(),
        0 <= i < latest_first(rows).len() ==> bookmark_jsons(latest_first(rows))[i]
            == latest_first(rows)[i].json@,
        (json_array(bookmark_jsons(latest_first(rows))) + ",\"count\":"@ + decimal(rows.len())
            + "}"@).is_suffix_of(bookmark_object(rows)),
{
    let list = json_array(bookmark_jsons(latest_first(rows)));
    let s = bookmark_object(rows);
    let tail = list + ",\"count\":"@ + decimal(rows.len()) + "}"@;
    assert(s =~= "{\"rows\":"@ + tail);
    assert(s.subrange(s.len() - tail.len(), s.len() as int) =~= tail);
}

/// A page is bookmarked as soon as a row has its URL, and a row with another URL
/// or none does not make it so.
pub proof fn bookmarks_go_by_the_url(rows: Seq<BookmarkRow>, row: BookmarkRow, url: Seq<char>)
    ensures
        opt_text(row.url) == Some(url) ==> bookmarked(rows.push(row), url),
        opt_text(row.url) != Some(url) ==> (bookmarked(rows.push(row), url) <==> bookmarked(
            rows,
            url,
        )),
        !bookmarked(Seq::empty(), url),
{
    let more = rows.push(row);
    assert(more[rows.len() as int] == row);
    assert forall|k: int| 0 <= k < rows.len() implies more[k] == #[trigger] rows[k] by {}
    if bookmarked(rows, url) {
        let i = choose|i: int| 0 <= i < rows.len() && opt_text((#[trigger] rows[i]).url) == Some(url);
        assert(opt_text(more[i].url) == Some(url));
    }
    if bookmarked(more, url) && opt_text(row.url) != Some(url) {
        let i = choose|i: int| 0 <= i < more.len() && opt_text((#[trigger] more[i]).url) == Some(url);
        assert(opt_text(rows[i].url) == Some(url));
    }
}

/// The history shows at most two hundred visits, the first ones, tells how many
/// it shows, and says whether there were more.
pub proof fn the_history_is_cut(rows: Seq<Seq<char>>)
    ensures
        rows.len() <= 200 ==> history_object(rows) == "{\"rows\":"@ + json_array(rows)
            + ",\"count\":"@ + decimal(rows.len()) + ",\"truncated\":"@ + "false"@ + "}"@,
        rows.len() > 200 ==> history_object(rows) == "{\"rows\":"@ + json_array(rows.take(200))
            + ",\"count\":"@ + decimal(200) + ",\"truncated\":"@ + "true"@ + "}"@,
        rows.len() > 201 ==> history_object(rows) == history_object(rows.take(201)),
{
    if rows.len() > 200 {
        assert(rows.take(200) =~= rows.subrange(0, 200));
    }
    if rows.len() > 201 {
        assert(rows.take(201).subrange(0, 200) =~= rows.subrange(0, 200));
    }
}

/// The workspaces are told row by row.
pub proof fn workspaces_are_told(rows: Seq<Seq<char>>)
    ensures
        contains_text(workspace_object(rows), "{\"rows\":"@ + json_array(rows) + "}"@),
        json_array(Seq::empty()) == "["@ + "]"@,
{
    let o = "{\"rows\":"@ + json_array(rows) + "}"@;
    lemma_contains_part(Seq::empty(), o, Seq::empty());
    assert(workspace_object(rows) =~= Seq::empty() + o + Seq::empty());
    assert(json_array(Seq::empty()) =~= "["@ + "]"@);
}

/// A workspace with a name comes behind those before it, and one without is
/// passed over.
pub proof fn named_workspaces_are_listed(rows: Seq<Option<String>>, name: String)
    ensures
        slugs(rows.push(Some(name))) == slugs(rows).push(name@),
        slugs(rows.push(None)) == slugs(rows),
        slugs(Seq::empty()).len() == 0,
{
    assert(rows.push(Some(name)).drop_last() =~= rows);
    assert(rows.push(None).drop_last() =~= rows);
}

/// The active page is told as bookmarked where a bookmark has its URL; without an
/// active tab nothing is.
pub proof fn the_active_page_is_bookmarked_by_its_url(v: ShellView, rows: Seq<BookmarkRow>)
    ensures
        v.has_active() ==> (v.active_bookmarked(rows) <==> bookmarked(rows, v.tabs[v.active].url)),
        !v.has_active() ==> !v.active_bookmarked(rows),
{
}

} // verus!
