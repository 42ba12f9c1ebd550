//! What the chrome is told of the shell: the tabs, the URL, the status line,
//! and the rows of the picker.

use crate::chrome::{
    apply_op, context_menu_payload, menu_object, nav_object, nav_script, op_script, url_object,
    url_payload, ContextMenuRequest,
};
use crate::dispatch::{effect_if, no_effects, nothing, one_effect_if};
use crate::effect::{effects, Effect, EffectView};
use crate::escape::{js_literal, js_string};
use crate::picker::{row_objects, PickerView};
use crate::providers::{
    bookmark_list, bookmark_object, bookmarked, history_list, history_object, is_url_bookmarked,
    json_array, reply_rows, rows_json, rows_of, BookmarkRow, Reply,
};
use crate::shell::{Shell, ShellTab, ShellView, TabView};
use crate::text::{
    bool_str, bool_text, chars_of, decimal, decimal_text, join, joined, opt_text, starts_with,
    strings,
};
use crate::url_analysis::{
    analysis_value, analyze_url, build_hover_display, is_analysis_of, is_hover_display, Cleaner,
    UrlAnalysis, UrlAnalysisView,
};
use vstd::prelude::*;

verus! {

/// A tab as a JavaScript object; without a title its URL stands for it.
pub open spec fn tab_object(tab: TabView, active: bool) -> Seq<char> {
    let title = match tab.title {
        Some(t) => t,
        None => tab.url,
    };
    "{\"id\":"@ + decimal(tab.id as nat) + ",\"title\":"@ + js_literal(title) + ",\"url\":"@
        + js_literal(tab.url) + ",\"active\":"@ + bool_text(active) + "}"@
}

fn tab_to_object(tab: &ShellTab, active: bool) -> (r: String)
    ensures
        r@ == tab_object(tab@, active),
{
    let mut out = String::new();
    out.push_str("{\"id\":");
    let id = decimal_text(tab.id);
    out.push_str(id.as_str());
    out.push_str(",\"title\":");
    let title = match &tab.title {
        Some(t) => js_string(t.as_str()),
        None => js_string(tab.url.as_str()),
    };
    out.push_str(title.as_str());
    out.push_str(",\"url\":");
    let url = js_string(tab.url.as_str());
    out.push_str(url.as_str());
    out.push_str(",\"active\":");
    out.push_str(bool_str(active));
    out.push_str("}");
    assert(out@ =~= tab_object(tab@, active));
    out
}

impl ShellView {
    /// The tabs as JavaScript objects.
    pub open spec fn tab_objects(self) -> Seq<Seq<char>> {
        Seq::new(self.tabs.len(), |i: int| tab_object(self.tabs[i], i == self.active))
    }

    /// The tabs as a JavaScript array.
    pub open spec fn tabs_array(self) -> Seq<char> {
        "["@ + joined(self.tab_objects(), ","@) + "]"@
    }

    /// The scripts that tell the chrome the state: the tabs, the active tab's
    /// URL, and where it can go.
    pub open spec fn state_scripts(
        self,
        bookmarked: bool,
        analysis: Option<UrlAnalysisView>,
        nav: (bool, bool),
    ) -> Seq<Seq<char>> {
        let tabs = seq![op_script("set_tabs"@, "{tabs:"@ + self.tabs_array() + "}"@)];
        let url = if self.has_active() {
            seq![
                op_script(
                    "set_url"@,
                    url_object(self.tabs[self.active].url, bookmarked, analysis),
                ),
            ]
        } else {
            Seq::empty()
        };
        tabs + url + seq![op_script("set_nav_state"@, nav_object(nav.0, nav.1))]
    }

    /// Whether the active page counts as secure: it came over HTTPS, or is the
    /// browser's own.
    pub open spec fn secure(self) -> bool {
        self.has_active() && ("https://"@.is_prefix_of(self.tabs[self.active].url)
            || "mote://"@.is_prefix_of(self.tabs[self.active].url))
    }
}

/// Where on the status line an element stands.
#[derive(Debug, Clone, Copy, PartialEq, Eq, Structural)]
pub enum StatusZone {
    Center,
    Right,
}

/// An element of the status line; `T` is the type of its texts.
#[derive(Debug)]
pub enum StatusElement<T> {
    /// The mode of the omnibox.
    Mode,
    /// Whether the active page counts as secure.
    Security { secure: bool },
    /// The number of tabs.
    TabCount(usize),
    /// A muted text.
    Text { id: T, zone: StatusZone, priority: u32, text: T },
    /// One that a plugin declared, as JSON.
    Declared(T),
}

/// An element of the status line with its texts as values.
pub type StatusElementView = StatusElement<Seq<char>>;

impl View for StatusElement<String> {
    type V = StatusElement<Seq<char>>;

    open spec fn view(&self) -> StatusElement<Seq<char>> {
        match *self {
            StatusElement::Mode => StatusElement::Mode,
            StatusElement::Security { secure } => StatusElement::Security { secure },
            StatusElement::TabCount(n) => StatusElement::TabCount(n),
            StatusElement::Text { id, zone, priority, text } => StatusElement::Text {
                id: id@,
                zone,
                priority,
                text: text@,
            },
            StatusElement::Declared(json) => StatusElement::Declared(json@),
        }
    }
}

/// The elements of a list.
pub open spec fn elements(v: Seq<StatusElement<String>>) -> Seq<StatusElementView> {
    v.map_values(|e: StatusElement<String>| e@)
}

/// The surface that covers the window.
#[derive(Debug, Clone, Copy, PartialEq, Eq, Structural)]
pub enum Surface {
    Picker,
    Integrity,
    /// The chrome with the active page.
    Browser,
}

/// Running scripts in the chrome, in order.
pub open spec fn evaluations(scripts: Seq<Seq<char>>) -> Seq<EffectView> {
    scripts.map_values(|script: Seq<char>| Effect::<Seq<char>>::EvalChrome(script))
}

impl ShellView {
    /// Whether the active tab's URL is among the bookmarks.
    pub open spec fn active_bookmarked(self, rows: Seq<BookmarkRow>) -> bool {
        self.has_active() && bookmarked(rows, self.tabs[self.active].url)
    }

    /// Telling the chrome the state, and then the status line, which follows
    /// from it.
    pub open spec fn state_effects(
        self,
        bookmarked: bool,
        analysis: Option<UrlAnalysisView>,
        nav: (bool, bool),
    ) -> Seq<EffectView> {
        if self.chrome_ready {
            evaluations(self.state_scripts(bookmarked, analysis, nav)).push(Effect::PushStatusline)
        } else {
            nothing()
        }
    }

    /// The elements of the status line: the built-in ones, the link under the
    /// pointer, the zoom level while it is shown, and those of the plugins.
    pub open spec fn status_elements(
        self,
        hover: Option<Seq<char>>,
        zoom: Option<Seq<char>>,
        declared: Seq<Seq<char>>,
    ) -> Seq<StatusElementView> {
        seq![
            StatusElement::Mode,
            StatusElement::Security { secure: self.secure() },
            StatusElement::TabCount(self.tabs.len() as usize),
        ] + (match hover {
            Some(text) => seq![
                StatusElement::Text {
                    id: "mote.hoverurl"@,
                    zone: StatusZone::Center,
                    priority: 100,
                    text,
                },
            ],
            None => Seq::empty(),
        }) + (match zoom {
            Some(percent) => seq![
                StatusElement::Text {
                    id: "mote.zoom"@,
                    zone: StatusZone::Right,
                    priority: 90,
                    text: "zoom "@ + percent,
                },
            ],
            None => Seq::empty(),
        }) + declared.map_values(|json: Seq<char>| StatusElement::<Seq<char>>::Declared(json))
    }

    /// Handing a payload to one of the chrome's operations, once the chrome can
    /// be told.
    pub open spec fn told(self, op: Seq<char>, payload: Seq<char>) -> Seq<EffectView> {
        effect_if(self.chrome_ready, Effect::EvalChrome(op_script(op, payload)))
    }

    /// Handing over a payload, where there is one.
    pub open spec fn told_if(self, op: Seq<char>, payload: Option<Seq<char>>) -> Seq<EffectView> {
        match payload {
            Some(p) => self.told(op, p),
            None => nothing(),
        }
    }

    /// Whether the picker's page has painted for the first time since the
    /// picker was opened.
    pub open spec fn picker_appears(self, painted: bool) -> bool {
        self.picker.open && !self.picker.ready && painted
    }
}

impl Shell {
    /// The tabs as a JavaScript array.
    pub fn tabs_json(&self) -> (r: String)
        ensures
            r@ == self@.tabs_array(),
    {
        let mut parts: Vec<String> = Vec::new();
        let ghost all = self@.tab_objects();
        let mut i: usize = 0;
        while i < self.tabs.len()
            invariant
                i <= self.tabs@.len(),
                parts@.len() == i,
                all == self@.tab_objects(),
                forall|k: int| 0 <= k < i ==> (#[trigger] parts@[k])@ == all[k],
            decreases self.tabs@.len() - i,
        {
            assert(self@.tabs[i as int] == self.tabs@[i as int]@);
            parts.push(tab_to_object(&self.tabs[i], i == self.active));
            i = i + 1;
        }
        assert(strings(parts@) =~= all);
        let mut out = String::new();
        out.push_str("[");
        let body = join(&parts, ",");
        out.push_str(body.as_str());
        out.push_str("]");
        assert(out@ =~= self@.tabs_array());
        out
    }

    /// The scripts that tell the chrome the state, given whether the active
    /// URL is bookmarked, its structure, and where the active tab can go.
    fn state_to_scripts(
        &self,
        bookmarked: bool,
        analysis: &Option<UrlAnalysis>,
        can_go_back: bool,
        can_go_forward: bool,
    ) -> (r: Vec<String>)
        ensures
            strings(r@) == self@.state_scripts(
                bookmarked,
                analysis_value(*analysis),
                (can_go_back, can_go_forward),
            ),
    {
        let mut out: Vec<String> = Vec::new();
        let mut payload = String::new();
        payload.push_str("{tabs:");
        let tabs = self.tabs_json();
        payload.push_str(tabs.as_str());
        payload.push_str("}");
        assert(payload@ =~= "{tabs:"@ + self@.tabs_array() + "}"@);
        out.push(apply_op("set_tabs", payload.as_str()));
        if self.active < self.tabs.len() {
            let url = url_payload(self.tabs[self.active].url.as_str(), bookmarked, analysis);
            out.push(apply_op("set_url", url.as_str()));
        }
        out.push(nav_script(can_go_back, can_go_forward));
        assert(strings(out@) =~= self@.state_scripts(
            bookmarked,
            analysis_value(*analysis),
            (can_go_back, can_go_forward),
        ));
        out
    }

    /// What tells the chrome the state, given whether the active URL is
    /// bookmarked, its structure, and where the active tab can go.
    pub fn push_state_with(
        &self,
        bookmarked: bool,
        analysis: &Option<UrlAnalysis>,
        can_go_back: bool,
        can_go_forward: bool,
    ) -> (r: Vec<Effect<String>>)
        ensures
            effects(r@) == self@.state_effects(
                bookmarked,
                analysis_value(*analysis),
                (can_go_back, can_go_forward),
            ),
    {
        if !self.chrome_ready {
            return no_effects();
        }
        let scripts = self.state_to_scripts(bookmarked, analysis, can_go_back, can_go_forward);
        let mut out: Vec<Effect<String>> = Vec::new();
        let mut i: usize = 0;
        while i < scripts.len()
            invariant
                i <= scripts@.len(),
                out@.len() == i,
                forall|k: int|
                    0 <= k < i ==> (#[trigger] out@[k])@ == Effect::<Seq<char>>::EvalChrome(
                        scripts@[k]@,
                    ),
            decreases scripts@.len() - i,
        {
            out.push(Effect::EvalChrome(scripts[i].clone()));
            i = i + 1;
        }
        out.push(Effect::PushStatusline);
        assert(effects(out@) =~= evaluations(strings(scripts@)).push(Effect::PushStatusline));
        out
    }

    /// What tells the chrome the state: the tabs, the active tab's URL with its
    /// structure and whether it is bookmarked, where the active tab can go, and
    /// the status line. `bookmarks` is what the bookmarks plugin answers.
    pub fn push_state_to_chrome(
        &self,
        cleaner: &Cleaner,
        bookmarks: Option<Reply<BookmarkRow>>,
        can_go_back: bool,
        can_go_forward: bool,
    ) -> (r: Vec<Effect<String>>)
        ensures
            exists|analysis: Option<UrlAnalysisView>|
                {
                    &&& self@.has_active() ==> is_analysis_of(
                        analysis,
                        *cleaner,
                        self@.tabs[self@.active].url,
                    )
                    &&& effects(r@) == #[trigger] self@.state_effects(
                        self@.active_bookmarked(reply_rows(bookmarks)),
                        analysis,
                        (can_go_back, can_go_forward),
                    )
                },
    {
        let rows = rows_of(bookmarks);
        let (marked, analysis) = if self.active < self.tabs.len() {
            let url = self.tabs[self.active].url.as_str();
            (is_url_bookmarked(&rows, url), analyze_url(cleaner, url))
        } else {
            (false, None)
        };
        assert(marked == self@.active_bookmarked(reply_rows(bookmarks)));
        self.push_state_with(marked, &analysis, can_go_back, can_go_forward)
    }

    /// Whether the active page counts as secure.
    fn is_secure(&self) -> (r: bool)
        ensures
            r == self@.secure(),
    {
        if self.active >= self.tabs.len() {
            return false;
        }
        let v = chars_of(self.tabs[self.active].url.as_str());
        let https = chars_of("https://");
        let mote = chars_of("mote://");
        starts_with(v.as_slice(), https.as_slice()) || starts_with(v.as_slice(), mote.as_slice())
    }

    /// The elements of the status line, given the text for the link under the
    /// pointer, the zoom level while it is shown, and the elements that plugins
    /// declared.
    pub fn statusline_with(
        &self,
        hover: Option<String>,
        zoom: Option<String>,
        declared: Vec<String>,
    ) -> (r: Vec<StatusElement<String>>)
        ensures
            elements(r@) == self@.status_elements(
                opt_text(hover),
                opt_text(zoom),
                strings(declared@),
            ),
    {
        let mut out: Vec<StatusElement<String>> = Vec::new();
        out.push(StatusElement::Mode);
        out.push(StatusElement::Security { secure: self.is_secure() });
        out.push(StatusElement::TabCount(self.tabs.len()));
        if let Some(text) = hover {
            let id = "mote.hoverurl".to_owned();
            out.push(StatusElement::Text { id, zone: StatusZone::Center, priority: 100, text });
        }
        if let Some(percent) = zoom {
            let id = "mote.zoom".to_owned();
            let mut text = String::new();
            text.push_str("zoom ");
            text.push_str(percent.as_str());
            assert(text@ =~= "zoom "@ + percent@);
            out.push(StatusElement::Text { id, zone: StatusZone::Right, priority: 90, text });
        }
        let none: Vec<String> = Vec::new();
        assert(strings(none@) =~= Seq::<Seq<char>>::empty());
        let ghost built_in = elements(out@);
        assert(built_in =~= self@.status_elements(
            opt_text(hover),
            opt_text(zoom),
            strings(none@),
        ));
        let mut i: usize = 0;
        while i < declared.len()
            invariant
                i <= declared@.len(),
                out@.len() == built_in.len() + i,
                forall|k: int| 0 <= k < built_in.len() ==> (#[trigger] out@[k])@ == built_in[k],
                forall|k: int|
                    built_in.len() <= k < out@.len() ==> (#[trigger] out@[k])@
                        == StatusElement::<Seq<char>>::Declared(
                        declared@[k - built_in.len()]@,
                    ),
            decreases declared@.len() - i,
        {
            out.push(StatusElement::Declared(declared[i].clone()));
            i = i + 1;
        }
        assert(elements(out@) =~= self@.status_elements(
            opt_text(hover),
            opt_text(zoom),
            strings(declared@),
        ));
        out
    }

    /// The elements of the status line; `zoom` is the zoom level while it is
    /// shown, and `declared` the elements that plugins declared.
    pub fn statusline_elements(
        &self,
        cleaner: &Cleaner,
        zoom: Option<String>,
        declared: Vec<String>,
    ) -> (r: Vec<StatusElement<String>>)
        ensures
            exists|hover: Option<Seq<char>>|
                {
                    &&& hover is Some <==> self@.hover_url_last is Some
                    &&& hover is Some ==> is_hover_display(
                        hover->0,
                        *cleaner,
                        self@.hover_url_last->0,
                    )
                    &&& elements(r@) == #[trigger] self@.status_elements(
                        hover,
                        opt_text(zoom),
                        strings(declared@),
                    )
                },
    {
        let hover = match &self.hover_url_last {
            Some(url) => Some(build_hover_display(cleaner, url.as_str())),
            None => None,
        };
        self.statusline_with(hover, zoom, declared)
    }

    /// What shows the status line, given its elements as JSON, where they could
    /// be written.
    pub fn push_statusline(&self, payload: Option<String>) -> (r: Vec<Effect<String>>)
        ensures
            effects(r@) == self@.told_if("set_statusline_elements"@, opt_text(payload)),
    {
        match payload {
            Some(p) => self.tell("set_statusline_elements", p.as_str()),
            None => no_effects(),
        }
    }

    /// Hands a payload to one of the chrome's operations.
    fn tell(&self, op: &str, payload: &str) -> (r: Vec<Effect<String>>)
        ensures
            effects(r@) == self@.told(op@, payload@),
    {
        one_effect_if(self.chrome_ready, Effect::EvalChrome(apply_op(op, payload)))
    }

    /// What shows the bookmarks, given what the bookmarks plugin answers.
    pub fn push_bookmark_list(&self, reply: Option<Reply<BookmarkRow>>) -> (r: Vec<Effect<String>>)
        ensures
            effects(r@) == self@.told("bookmark_list"@, bookmark_object(reply_rows(reply))),
    {
        let payload = bookmark_list(rows_of(reply));
        self.tell("bookmark_list", payload.as_str())
    }

    /// What shows the history, given what the history plugin answers.
    pub fn push_history_list(&self, reply: Option<Reply<String>>) -> (r: Vec<Effect<String>>)
        ensures
            effects(r@) == self@.told("history_list"@, history_object(strings(reply_rows(reply)))),
    {
        let payload = history_list(rows_of(reply));
        self.tell("history_list", payload.as_str())
    }

    /// What shows the workspaces, given what the workspace plugin answers.
    pub fn push_workspace_list(&self, reply: Option<Reply<String>>) -> (r: Vec<Effect<String>>)
        ensures
            effects(r@) == self@.told(
                "workspace_list"@,
                "{rows:"@ + json_array(strings(reply_rows(reply))) + "}"@,
            ),
    {
        let mut payload = String::new();
        payload.push_str("{rows:");
        let rows = rows_json(&rows_of(reply));
        payload.push_str(rows.as_str());
        payload.push_str("}");
        assert(payload@ =~= "{rows:"@ + json_array(strings(reply_rows(reply))) + "}"@);
        self.tell("workspace_list", payload.as_str())
    }

    /// What shows the suggestions for the omnibox, given what the plugin that
    /// makes them answers. Without an answer the list is emptied.
    pub fn urlbar_query(&self, reply: Option<Reply<String>>) -> (r: Vec<Effect<String>>)
        ensures
            effects(r@) == self@.told(
                "urlbar_suggestions"@,
                json_array(strings(reply_rows(reply))),
            ),
    {
        let payload = rows_json(&rows_of(reply));
        self.tell("urlbar_suggestions", payload.as_str())
    }

    /// What shows the integrity panel in the chrome, given the panel as JSON,
    /// where it could be written. Once it is shown it is open.
    pub fn push_integrity_panel_to_chrome(&mut self, payload: Option<String>) -> (r: Vec<
        Effect<String>,
    >)
        ensures
            final(self)@ == (ShellView {
                integrity_chrome_open: old(self)@.integrity_chrome_open || (old(self)@.chrome_ready
                    && payload is Some),
                ..old(self)@
            }),
            effects(r@) == old(self)@.told_if("render_integrity_panel"@, opt_text(payload)),
    {
        match payload {
            Some(p) => {
                if self.chrome_ready {
                    self.integrity_chrome_open = true;
                }
                self.tell("render_integrity_panel", p.as_str())
            },
            None => no_effects(),
        }
    }

    /// What shows an approval dialog, given the request as JSON, where it could
    /// be written.
    pub fn push_approval_dialog(&self, payload: Option<String>) -> (r: Vec<Effect<String>>)
        ensures
            effects(r@) == self@.told_if("show_approval_dialog"@, opt_text(payload)),
    {
        match payload {
            Some(p) => self.tell("show_approval_dialog", p.as_str()),
            None => no_effects(),
        }
    }

    /// What shows a context menu. Pages do not know where the tab can go, so
    /// that is put in here.
    pub fn push_context_menu(
        &self,
        req: ContextMenuRequest,
        can_go_back: bool,
        can_go_forward: bool,
    ) -> (r: Vec<Effect<String>>)
        ensures
            effects(r@) == self@.told(
                "show_context_menu"@,
                menu_object(ContextMenuRequest { can_go_back, can_go_forward, ..req }),
            ),
    {
        let mut patched = req;
        patched.can_go_back = can_go_back;
        patched.can_go_forward = can_go_forward;
        let payload = context_menu_payload(&patched);
        self.tell("show_context_menu", payload.as_str())
    }

    /// Takes in whether the picker's page has painted: a script before its
    /// first paint would be lost, so its rows are shown then.
    pub fn picker_painted(&mut self, painted: bool) -> (r: Vec<Effect<String>>)
        ensures
            final(self)@ == old(self)@.with_picker(
                PickerView {
                    ready: old(self)@.picker.ready || old(self)@.picker_appears(painted),
                    ..old(self)@.picker
                },
            ),
            effects(r@) == effect_if(old(self)@.picker_appears(painted), Effect::RenderPicker),
    {
        let appears = self.picker.is_open() && !self.picker.is_ready() && painted;
        if appears {
            self.picker.set_ready();
        }
        one_effect_if(appears, Effect::RenderPicker)
    }

    /// The surface that covers the window: an open overlay, the picker first.
    pub fn top_surface(&self) -> (r: Surface)
        ensures
            r == if self@.picker.open {
                Surface::Picker
            } else if self@.integrity_open {
                Surface::Integrity
            } else {
                Surface::Browser
            },
    {
        if self.picker.is_open() {
            Surface::Picker
        } else if self.integrity_open {
            Surface::Integrity
        } else {
            Surface::Browser
        }
    }

    /// The script that shows the picker's query and rows.
    pub fn picker_script(&self) -> (r: String)
        ensures
            r@ == picker_text(self@.picker),
    {
        let mut out = String::new();
        out.push_str("window.__motePicker&&window.__motePicker({query:");
        let query = js_string(self.picker.query());
        out.push_str(query.as_str());
        out.push_str(",rows:");
        let rows = self.picker.rows_json();
        out.push_str(rows.as_str());
        out.push_str("});");
        assert(out@ =~= picker_text(self@.picker));
        out
    }
}

/// The script that shows the picker's query and rows.
pub open spec fn picker_text(p: PickerView) -> Seq<char> {
    "window.__motePicker&&window.__motePicker({query:"@ + js_literal(p.query) + ",rows:"@ + ("["@
        + joined(row_objects(p), ","@) + "]"@) + "});"@
}

} // verus!
