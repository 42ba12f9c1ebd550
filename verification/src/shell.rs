//! The shell's state, and what every command, key and report of the engine
//! does to it.

use crate::chrome::{
    find_object, find_script, load_object, load_script, nav_object, nav_script, op_script,
};
use crate::closed_tabs::{pushed, ClosedTab, ClosedTabStack, ClosedTabView};
use crate::command::FocusOwner;
use crate::effect::{effects, lemma_effects_push, Effect, EffectView};
use crate::internal::{default_start_url, is_popup_url_allowed, mote_scheme, start_url};
use crate::omnibox::default_search_url_template;
use crate::picker::{PickerState, PickerView, SessionTab};
use crate::text::{chars_of, opt_text, strings, text_eq};
use vstd::prelude::*;

verus! {

/// A tab of the window.
#[derive(Debug)]
pub struct ShellTab {
    pub id: u64,
    pub url: String,
    pub title: Option<String>,
    /// Whether the tab has a page. A restored tab gets one when it is first
    /// selected.
    pub live: bool,
}

/// [`ShellTab`] as values.
pub struct TabView {
    pub id: u64,
    pub url: Seq<char>,
    pub title: Option<Seq<char>>,
    pub live: bool,
}

impl View for ShellTab {
    type V = TabView;

    open spec fn view(&self) -> TabView {
        TabView { id: self.id, url: self.url@, title: opt_text(self.title), live: self.live }
    }
}

/// The tabs of a list.
pub open spec fn tab_views(v: Seq<ShellTab>) -> Seq<TabView> {
    v.map_values(|t: ShellTab| t@)
}

/// The shell's state.
#[derive(Debug)]
pub struct Shell {
    /// The tabs in display order.
    pub(crate) tabs: Vec<ShellTab>,
    /// The place of the active tab.
    pub(crate) active: usize,
    pub(crate) workspace: u64,
    pub(crate) closed: ClosedTabStack,
    pub(crate) focus: FocusOwner,
    /// Whether the chrome document can be told things: it has painted.
    pub(crate) chrome_ready: bool,
    /// Whether the plugins were loaded.
    pub(crate) did_initial_load: bool,
    pub(crate) should_exit: bool,
    /// Whether the integrity overlay covers the window.
    pub(crate) integrity_open: bool,
    /// Whether the chrome shows the integrity panel.
    pub(crate) integrity_chrome_open: bool,
    pub(crate) picker: PickerState,
    pub(crate) search_url_template: String,
    /// The last text that was searched for in a page.
    pub(crate) find_query_last: String,
    /// The link under the pointer, as last told to the chrome.
    pub(crate) hover_url_last: Option<String>,
    /// Where the active tab can go, as last told to the chrome.
    pub(crate) nav_state_last: (bool, bool),
    /// Whether the active tab loads, as last told to the chrome.
    pub(crate) load_state_last: bool,
}

/// [`Shell`] as values.
pub struct ShellView {
    pub tabs: Seq<TabView>,
    pub active: int,
    pub workspace: u64,
    pub closed: Seq<ClosedTabView>,
    pub focus: FocusOwner,
    pub chrome_ready: bool,
    pub did_initial_load: bool,
    pub should_exit: bool,
    pub integrity_open: bool,
    pub integrity_chrome_open: bool,
    pub picker: PickerView,
    pub search_url_template: Seq<char>,
    pub find_query_last: Seq<char>,
    pub hover_url_last: Option<Seq<char>>,
    pub nav_state_last: (bool, bool),
    pub load_state_last: bool,
}

impl View for Shell {
    type V = ShellView;

    open(crate) spec fn view(&self) -> ShellView {
        ShellView {
            tabs: tab_views(self.tabs@),
            active: self.active as int,
            workspace: self.workspace,
            closed: self.closed@,
            focus: self.focus,
            chrome_ready: self.chrome_ready,
            did_initial_load: self.did_initial_load,
            should_exit: self.should_exit,
            integrity_open: self.integrity_open,
            integrity_chrome_open: self.integrity_chrome_open,
            picker: self.picker@,
            search_url_template: self.search_url_template@,
            find_query_last: self.find_query_last@,
            hover_url_last: opt_text(self.hover_url_last),
            nav_state_last: self.nav_state_last,
            load_state_last: self.load_state_last,
        }
    }
}

/// The place of the first tab with this id; the number of tabs where there is
/// none.
pub open spec fn place_of(tabs: Seq<TabView>, id: u64) -> int
    decreases tabs.len(),
{
    if tabs.len() == 0 || tabs[0].id == id {
        0
    } else {
        1 + place_of(tabs.drop_first(), id)
    }
}

/// What it is to be the first place.
pub proof fn lemma_place_of(tabs: Seq<TabView>, id: u64)
    ensures
        0 <= place_of(tabs, id) <= tabs.len(),
        place_of(tabs, id) < tabs.len() ==> tabs[place_of(tabs, id)].id == id,
        forall|k: int| 0 <= k < place_of(tabs, id) ==> (#[trigger] tabs[k]).id != id,
    decreases tabs.len(),
{
    if tabs.len() > 0 && tabs[0].id != id {
        let t = tabs.drop_first();
        lemma_place_of(t, id);
        assert forall|k: int| 0 <= k < place_of(tabs, id) implies (#[trigger] tabs[k]).id != id by {
            if k > 0 {
                assert(t[k - 1] == tabs[k]);
            }
        }
    }
}

proof fn lemma_place_of_unique(tabs: Seq<TabView>, id: u64, at: int)
    requires
        0 <= at <= tabs.len(),
        at < tabs.len() ==> tabs[at].id == id,
        forall|k: int| 0 <= k < at ==> (#[trigger] tabs[k]).id != id,
    ensures
        place_of(tabs, id) == at,
{
    lemma_place_of(tabs, id);
}

fn find_tab(tabs: &Vec<ShellTab>, id: u64) -> (r: usize)
    ensures
        r == place_of(tab_views(tabs@), id),
        r <= tabs@.len(),
        r < tabs@.len() ==> tabs@[r as int].id == id,
{
    let mut i: usize = 0;
    while i < tabs.len() && tabs[i].id != id
        invariant
            i <= tabs@.len(),
            forall|k: int| 0 <= k < i ==> (#[trigger] tab_views(tabs@)[k]).id != id,
        decreases tabs@.len() - i,
    {
        i = i + 1;
    }
    proof {
        lemma_place_of_unique(tab_views(tabs@), id, i as int);
    }
    i
}

impl ShellView {
    /// The active tab is one of the tabs, save where the last one was closed
    /// and none is open yet; and the picker's selection is one of its rows.
    pub open spec fn wf(self) -> bool {
        &&& self.tabs.len() > 0 ==> 0 <= self.active < self.tabs.len()
        &&& self.picker.wf()
    }

    /// Whether there is an active tab.
    pub open spec fn has_active(self) -> bool {
        0 <= self.active < self.tabs.len()
    }

    /// Whether the active tab has a page.
    pub open spec fn active_live(self) -> bool {
        self.has_active() && self.tabs[self.active].live
    }

    /// What a change of the active tab entails: its page gets its size, is
    /// drawn anew, and gets the focus where pages have it.
    pub open spec fn change_effects(self) -> Seq<EffectView> {
        let size = if self.active_live() {
            seq![Effect::SizeActivePage]
        } else {
            Seq::empty()
        };
        let focus = if self.active_live() && self.focus == FocusOwner::Page {
            seq![Effect::FocusActivePage(true)]
        } else {
            Seq::empty()
        };
        size + seq![Effect::RedrawContent] + focus
    }

    /// Telling the chrome the state, once it can be told.
    pub open spec fn push_effects(self) -> Seq<EffectView> {
        if self.chrome_ready {
            seq![Effect::PushState]
        } else {
            Seq::empty()
        }
    }

    /// Writing the session out, and telling the chrome.
    pub open spec fn persist_effects(self) -> Seq<EffectView> {
        seq![Effect::FlushSession] + self.push_effects()
    }

    /// One effect, where the active tab has a page.
    pub open spec fn page_effect(self, e: EffectView) -> Seq<EffectView> {
        if self.active_live() {
            seq![e]
        } else {
            Seq::empty()
        }
    }

    /// The shell with a URL in the active tab.
    pub open spec fn navigated(self, url: Seq<char>) -> ShellView {
        if self.has_active() {
            ShellView {
                tabs: self.tabs.update(
                    self.active,
                    TabView { url, title: None, ..self.tabs[self.active] },
                ),
                ..self
            }
        } else {
            self
        }
    }

    /// What a navigation entails.
    pub open spec fn navigate_effects(self, url: Seq<char>) -> Seq<EffectView> {
        if self.has_active() {
            self.page_effect(Effect::LoadUrl(url)) + seq![
                Effect::SessionUrl { id: self.tabs[self.active].id, url },
                Effect::RecordVisit(url),
            ] + self.persist_effects()
        } else {
            Seq::empty()
        }
    }

    /// The shell with one more tab, at the end; in the foreground, it is the
    /// active one.
    pub open spec fn opened(self, tab: TabView, foreground: bool) -> ShellView {
        ShellView {
            tabs: self.tabs.push(tab),
            active: if foreground {
                self.tabs.len() as int
            } else {
                self.active
            },
            ..self
        }
    }

    /// What a new tab entails.
    pub open spec fn open_effects(self, tab: TabView, foreground: bool) -> Seq<EffectView> {
        let after = self.opened(tab, foreground);
        (if foreground {
            after.change_effects()
        } else {
            Seq::empty()
        }) + after.persist_effects()
    }

    /// The shell without the tab at place `at`. The active tab stays active;
    /// where it is the one that closes, the one before it is.
    pub open spec fn without(self, at: int) -> ShellView {
        let tab = self.tabs[at];
        let tabs = self.tabs.remove(at);
        let active = if at <= self.active && self.active > 0 {
            self.active - 1
        } else {
            self.active
        };
        ShellView {
            tabs,
            closed: pushed(self.closed, ClosedTabView { url: tab.url, title: tab.title }),
            active: if tabs.len() == 0 {
                self.active
            } else if active >= tabs.len() {
                tabs.len() - 1
            } else {
                active
            },
            ..self
        }
    }

    /// The shell with the tab `id` closed.
    pub open spec fn closed_tab(self, id: u64) -> ShellView {
        let at = place_of(self.tabs, id);
        if at < self.tabs.len() {
            self.without(at)
        } else {
            self
        }
    }

    /// What closing the tab `id` entails. The window is never left without a
    /// tab: closing the last one opens another.
    pub open spec fn close_effects(self, id: u64) -> Seq<EffectView> {
        let at = place_of(self.tabs, id);
        if at < self.tabs.len() {
            let after = self.without(at);
            let page = if self.tabs[at].live {
                seq![Effect::ClosePage(id)]
            } else {
                Seq::empty()
            };
            page + seq![Effect::CloseSessionTab(id)] + if after.tabs.len() == 0 {
                seq![Effect::OpenTab { url: start_url(), title: None, foreground: true }]
            } else {
                after.change_effects() + after.persist_effects()
            }
        } else {
            Seq::empty()
        }
    }

    /// Whether selecting the tab `id` changes anything: there is such a tab,
    /// and it is not both active and live.
    pub open spec fn selects(self, id: u64) -> bool {
        let at = place_of(self.tabs, id);
        at < self.tabs.len() && !(at == self.active && self.tabs[at].live)
    }

    /// The shell with the tab `id` selected; `page_made` says whether a page
    /// could be made for it, where it had none.
    pub open spec fn selected(self, id: u64, page_made: bool) -> ShellView {
        let at = place_of(self.tabs, id);
        if self.selects(id) {
            ShellView {
                active: at,
                tabs: self.tabs.update(
                    at,
                    TabView { live: self.tabs[at].live || page_made, ..self.tabs[at] },
                ),
                ..self
            }
        } else {
            self
        }
    }

    /// What selecting the tab `id` entails.
    pub open spec fn select_effects(self, id: u64, page_made: bool) -> Seq<EffectView> {
        if self.selects(id) {
            let after = self.selected(id, page_made);
            after.change_effects() + after.persist_effects()
        } else {
            Seq::empty()
        }
    }
}

impl Shell {
    fn active_live(&self) -> (r: bool)
        ensures
            r == self@.active_live(),
    {
        self.active < self.tabs.len() && self.tabs[self.active].live
    }

    fn add_change_effects(&self, out: &mut Vec<Effect<String>>)
        ensures
            effects(final(out)@) == effects(old(out)@) + self@.change_effects(),
    {
        broadcast use lemma_effects_push;

        let ghost before = effects(out@);
        let live = self.active_live();
        if live {
            out.push(Effect::SizeActivePage);
        }
        out.push(Effect::RedrawContent);
        if live && self.focus == FocusOwner::Page {
            out.push(Effect::FocusActivePage(true));
        }
        assert(effects(out@) =~= before + self@.change_effects());
    }

    fn add_push_effects(&self, out: &mut Vec<Effect<String>>)
        ensures
            effects(final(out)@) == effects(old(out)@) + self@.push_effects(),
    {
        broadcast use lemma_effects_push;

        let ghost before = effects(out@);
        if self.chrome_ready {
            out.push(Effect::PushState);
        }
        assert(effects(out@) =~= before + self@.push_effects());
    }

    fn add_persist_effects(&self, out: &mut Vec<Effect<String>>)
        ensures
            effects(final(out)@) == effects(old(out)@) + self@.persist_effects(),
    {
        broadcast use lemma_effects_push;

        let ghost before = effects(out@);
        out.push(Effect::FlushSession);
        self.add_push_effects(out);
        assert(effects(out@) =~= before + self@.persist_effects());
    }

    /// Navigates the active tab to `url`.
    pub fn navigate_active(&mut self, url: &str) -> (r: Vec<Effect<String>>)
        ensures
            final(self)@ == old(self)@.navigated(url@),
            effects(r@) == old(self)@.navigate_effects(url@),
    {
        broadcast use lemma_effects_push;

        let mut out: Vec<Effect<String>> = Vec::new();
        assert(effects(out@) =~= Seq::<EffectView>::empty());
        if self.active >= self.tabs.len() {
            return out;
        }
        let i: usize = self.active;
        let live = self.tabs[i].live;
        let id: u64 = self.tabs[i].id;
        let tab = ShellTab { id, url: url.to_owned(), title: None, live };
        self.tabs.set(i, tab);
        assert(self@.tabs =~= old(self)@.navigated(url@).tabs);
        if live {
            out.push(Effect::LoadUrl(url.to_owned()));
        }
        out.push(Effect::SessionUrl { id, url: url.to_owned() });
        out.push(Effect::RecordVisit(url.to_owned()));
        self.add_persist_effects(&mut out);
        assert(effects(out@) =~= old(self)@.navigate_effects(url@));
        out
    }

    /// Takes in a tab that was opened outside: its page made, where that
    /// succeeded. In the foreground it becomes the active tab.
    pub fn tab_opened(&mut self, tab: ShellTab, foreground: bool) -> (r: Vec<Effect<String>>)
        ensures
            final(self)@ == old(self)@.opened(tab@, foreground),
            effects(r@) == old(self)@.open_effects(tab@, foreground),
    {
        let mut out: Vec<Effect<String>> = Vec::new();
        self.tabs.push(tab);
        assert(self@.tabs =~= old(self)@.tabs.push(tab@));
        if foreground {
            self.active = self.tabs.len() - 1;
            self.add_change_effects(&mut out);
        }
        self.add_persist_effects(&mut out);
        assert(effects(out@) =~= old(self)@.open_effects(tab@, foreground));
        out
    }

    /// Removes the tab at place `at`, and says whether it had a page.
    fn remove_at(&mut self, at: usize) -> (r: bool)
        requires
            at < old(self)@.tabs.len(),
        ensures
            final(self)@ == old(self)@.without(at as int),
            r == old(self)@.tabs[at as int].live,
    {
        let ghost before = self@;
        let tab = self.tabs.remove(at);
        assert(tab@ == before.tabs[at as int]);
        assert(self@.tabs =~= before.tabs.remove(at as int));
        let live = tab.live;
        let closed = ClosedTab { url: tab.url, title: tab.title };
        self.closed.push(closed);
        if self.tabs.len() > 0 {
            if at <= self.active && self.active > 0 {
                self.active = self.active - 1;
            }
            if self.active >= self.tabs.len() {
                self.active = self.tabs.len() - 1;
            }
        }
        live
    }

    /// Closes the tab `id`, and remembers it. Where it was the active one, the
    /// tab before it becomes active; where it was the last, another is opened.
    pub fn close_tab(&mut self, id: u64) -> (r: Vec<Effect<String>>)
        ensures
            final(self)@ == old(self)@.closed_tab(id),
            effects(r@) == old(self)@.close_effects(id),
    {
        let mut out: Vec<Effect<String>> = Vec::new();
        assert(effects(out@) =~= Seq::<EffectView>::empty());
        let at = find_tab(&self.tabs, id);
        if at == self.tabs.len() {
            return out;
        }
        let ghost before = self@;
        let live = self.remove_at(at);
        if live {
            out.push(Effect::ClosePage(id));
        }
        out.push(Effect::CloseSessionTab(id));
        if self.tabs.len() == 0 {
            let url = default_start_url().to_owned();
            out.push(Effect::OpenTab { url, title: None, foreground: true });
        } else {
            self.add_change_effects(&mut out);
            self.add_persist_effects(&mut out);
        }
        assert(effects(out@) =~= before.close_effects(id));
        out
    }

    /// Whether the window has the tab `id`.
    pub fn has_tab(&self, id: u64) -> (r: bool)
        ensures
            r == (place_of(self@.tabs, id) < self@.tabs.len()),
    {
        find_tab(&self.tabs, id) < self.tabs.len()
    }

    /// The URL that a page must be made for before the tab `id` is selected;
    /// `None` where there is no such tab, or it has a page.
    pub fn page_needed(&self, id: u64) -> (r: Option<String>)
        ensures
            ({
                let at = place_of(self@.tabs, id);
                match r {
                    Some(url) => at < self@.tabs.len() && !self@.tabs[at].live && url@
                        == self@.tabs[at].url,
                    None => at >= self@.tabs.len() || self@.tabs[at].live,
                }
            }),
    {
        let at = find_tab(&self.tabs, id);
        if at == self.tabs.len() || self.tabs[at].live {
            None
        } else {
            Some(self.tabs[at].url.clone())
        }
    }

    /// Selects the tab `id`. `page_made` says whether a page was made for it,
    /// where it had none.
    pub fn select_tab(&mut self, id: u64, page_made: bool) -> (r: Vec<Effect<String>>)
        ensures
            final(self)@ == old(self)@.selected(id, page_made),
            effects(r@) == old(self)@.select_effects(id, page_made),
    {
        let mut out: Vec<Effect<String>> = Vec::new();
        assert(effects(out@) =~= Seq::<EffectView>::empty());
        let at = find_tab(&self.tabs, id);
        if at == self.tabs.len() {
            return out;
        }
        if at == self.active && self.tabs[at].live {
            return out;
        }
        self.active = at;
        if !self.tabs[at].live {
            let tab = ShellTab {
                id: self.tabs[at].id,
                url: self.tabs[at].url.clone(),
                title: self.tabs[at].title.clone(),
                live: page_made,
            };
            self.tabs.set(at, tab);
        }
        assert(self@.tabs =~= old(self)@.selected(id, page_made).tabs);
        self.add_change_effects(&mut out);
        self.add_persist_effects(&mut out);
        assert(effects(out@) =~= old(self)@.select_effects(id, page_made));
        out
    }
}

/// A tab of the session as a tab of the window: still without a page.
pub open spec fn placeholder(tab: SessionTab) -> TabView {
    TabView { id: tab.id, url: tab.url@, title: opt_text(tab.title), live: false }
}

/// The tabs of a workspace, the first with a page where `first_live` holds; a
/// workspace without tabs gets one at the start page, with the id `seed`.
pub open spec fn workspace_tabs(
    ranked: Seq<SessionTab>,
    seed: u64,
    first_live: bool,
) -> Seq<TabView> {
    let tabs = if ranked.len() == 0 {
        seq![TabView { id: seed, url: start_url(), title: None, live: false }]
    } else {
        ranked.map_values(|t: SessionTab| placeholder(t))
    };
    tabs.update(0, TabView { live: first_live, ..tabs[0] })
}

/// The window's tabs for a workspace.
pub fn rebuild_tabs(ranked: &Vec<SessionTab>, seed: u64, first_live: bool) -> (r: Vec<ShellTab>)
    ensures
        tab_views(r@) == workspace_tabs(ranked@, seed, first_live),
        r@.len() > 0,
{
    let mut out: Vec<ShellTab> = Vec::new();
    let mut i: usize = 0;
    while i < ranked.len()
        invariant
            i <= ranked@.len(),
            out@.len() == i,
            forall|k: int|
                0 <= k < i ==> (#[trigger] out@[k])@ == (TabView {
                    live: k == 0 && first_live,
                    ..placeholder(ranked@[k])
                }),
        decreases ranked@.len() - i,
    {
        out.push(
            ShellTab {
                id: ranked[i].id,
                url: ranked[i].url.clone(),
                title: ranked[i].title.clone(),
                live: i == 0 && first_live,
            },
        );
        i = i + 1;
    }
    if out.len() == 0 {
        out.push(
            ShellTab {
                id: seed,
                url: default_start_url().to_owned(),
                title: None,
                live: first_live,
            },
        );
    }
    assert(tab_views(out@) =~= workspace_tabs(ranked@, seed, first_live));
    out
}

/// `s`, unless it is empty.
pub open spec fn unless_empty(s: Option<Seq<char>>) -> Option<Seq<char>> {
    match s {
        Some(t) => if t.len() == 0 {
            None
        } else {
            Some(t)
        },
        None => None,
    }
}

/// What discarding idle tabs leads to.
pub struct Discarded {
    /// The tabs afterwards.
    pub tabs: Seq<TabView>,
    /// What it entails outside.
    pub effects: Seq<EffectView>,
    /// How many pages were closed.
    pub dropped: nat,
}

/// Discards idle tabs, all but the tab `keep`: the session marks each as
/// discarded, and the page of one that has a page is closed.
pub open spec fn discarded(tabs: Seq<TabView>, keep: Option<u64>, idle: Seq<u64>) -> Discarded
    decreases idle.len(),
{
    if idle.len() == 0 {
        Discarded { tabs, effects: Seq::empty(), dropped: 0 }
    } else {
        let before = discarded(tabs, keep, idle.drop_last());
        let id = idle.last();
        let at = place_of(before.tabs, id);
        if keep == Some(id) {
            before
        } else if at < before.tabs.len() && before.tabs[at].live {
            Discarded {
                tabs: before.tabs.update(at, TabView { live: false, ..before.tabs[at] }),
                effects: before.effects + seq![Effect::DiscardSessionTab(id), Effect::ClosePage(id)],
                dropped: before.dropped + 1,
            }
        } else {
            Discarded { effects: before.effects + seq![Effect::DiscardSessionTab(id)], ..before }
        }
    }
}

impl ShellView {
    /// The shell with a title in the active tab.
    pub open spec fn titled(self, title: Option<Seq<char>>) -> ShellView {
        if self.new_title(title) {
            ShellView {
                tabs: self.tabs.update(self.active, TabView { title, ..self.tabs[self.active] }),
                ..self
            }
        } else {
            self
        }
    }

    /// Whether the page's title is one that its tab does not show yet.
    pub open spec fn new_title(self, title: Option<Seq<char>>) -> bool {
        self.has_active() && title is Some && self.tabs[self.active].title != title
    }

    /// What a new title entails.
    pub open spec fn title_effects(self, title: Option<Seq<char>>) -> Seq<EffectView> {
        if self.new_title(title) {
            let tab = self.tabs[self.active];
            seq![
                Effect::SessionTitle { id: tab.id, title: title->0 },
                Effect::WindowTitle(title->0),
                Effect::HistoryTitle { url: tab.url, title: title->0 },
            ] + self.push_effects()
        } else {
            Seq::empty()
        }
    }

    /// Whether the page's URL is one that its tab does not show yet.
    pub open spec fn new_url(self, url: Option<Seq<char>>) -> bool {
        self.has_active() && url is Some && self.tabs[self.active].url != url->0
    }

    /// The shell with the URL that the active page went to.
    pub open spec fn moved(self, url: Option<Seq<char>>) -> ShellView {
        if self.new_url(url) {
            self.navigated(url->0)
        } else {
            self
        }
    }

    /// What a page's move to a new URL entails.
    pub open spec fn move_effects(self, url: Option<Seq<char>>) -> Seq<EffectView> {
        if self.new_url(url) {
            seq![
                Effect::SessionUrl { id: self.tabs[self.active].id, url: url->0 },
            ] + self.push_effects()
        } else {
            Seq::empty()
        }
    }

    /// What a link under the pointer entails, or the end of one.
    pub open spec fn hover_effects(self, hover: Option<Seq<char>>) -> Seq<EffectView> {
        if unless_empty(hover) != self.hover_url_last && self.chrome_ready {
            seq![Effect::PushStatusline]
        } else {
            Seq::empty()
        }
    }

    /// What a change of where the active tab can go entails.
    pub open spec fn nav_effects(self, nav: (bool, bool)) -> Seq<EffectView> {
        if nav != self.nav_state_last && self.chrome_ready {
            seq![Effect::EvalChrome(op_script("set_nav_state"@, nav_object(nav.0, nav.1)))]
        } else {
            Seq::empty()
        }
    }

    /// Whether the start or end of a load has to be told to the chrome.
    pub open spec fn new_load(self, loading: bool) -> bool {
        self.chrome_ready && loading != self.load_state_last
    }

    /// What the start or end of a load entails.
    pub open spec fn load_effects(self, loading: bool) -> Seq<EffectView> {
        if self.new_load(loading) {
            seq![Effect::EvalChrome(op_script("set_load_state"@, load_object(loading)))]
        } else {
            Seq::empty()
        }
    }

    /// What a find's result entails.
    pub open spec fn find_effects(self, result: Option<(i32, i32)>) -> Seq<EffectView> {
        match result {
            Some(f) => if self.chrome_ready {
                seq![
                    Effect::EvalChrome(
                        op_script("find_count"@, find_object(f.0 as int, f.1 as int)),
                    ),
                ]
            } else {
                Seq::empty()
            },
            None => Seq::empty(),
        }
    }

    /// What a change of the focus owner entails.
    pub open spec fn focus_effects(self, owner: FocusOwner) -> Seq<EffectView> {
        if owner == self.focus {
            Seq::empty()
        } else {
            match owner {
                FocusOwner::Chrome => self.page_effect(Effect::FocusActivePage(false)) + seq![
                    Effect::FocusChrome(true),
                ],
                FocusOwner::Page => seq![Effect::FocusChrome(false)] + self.page_effect(
                    Effect::FocusActivePage(true),
                ),
            }
        }
    }

    /// What a popup entails: a tab, in front where the user asked for it by a
    /// gesture and not for the background. Internal pages open in no popup.
    pub open spec fn popup_effects(
        self,
        url: Seq<char>,
        user_gesture: bool,
        background: bool,
    ) -> Seq<EffectView> {
        if mote_scheme(url) {
            Seq::empty()
        } else {
            seq![Effect::OpenTab { url, title: None, foreground: user_gesture && !background }]
        }
    }

    /// What reopening the last closed tab entails.
    pub open spec fn reopen_effects(self) -> Seq<EffectView> {
        if self.closed.len() == 0 {
            Seq::empty()
        } else {
            seq![
                Effect::OpenTab {
                    url: self.closed[0].url,
                    title: self.closed[0].title,
                    foreground: true,
                },
            ]
        }
    }

    /// The shell without the last closed tab.
    pub open spec fn reopened(self) -> ShellView {
        if self.closed.len() == 0 {
            self
        } else {
            ShellView { closed: self.closed.drop_first(), ..self }
        }
    }

    /// The shell in another workspace.
    pub open spec fn in_workspace(self, workspace: u64, tabs: Seq<TabView>) -> ShellView {
        ShellView { workspace, tabs, active: 0, ..self }
    }

    /// What a change of workspace entails.
    pub open spec fn workspace_effects(self, workspace: u64, tabs: Seq<TabView>) -> Seq<
        EffectView,
    > {
        let after = self.in_workspace(workspace, tabs);
        seq![Effect::SessionWorkspace(workspace)] + after.change_effects()
            + after.persist_effects() + if self.chrome_ready {
            seq![Effect::PushWorkspaces]
        } else {
            Seq::empty()
        }
    }

    /// The id of the active tab.
    pub open spec fn active_id(self) -> Option<u64> {
        if self.has_active() {
            Some(self.tabs[self.active].id)
        } else {
            None
        }
    }

    /// The shell with the pages of idle tabs closed; the active tab keeps its
    /// page.
    pub open spec fn tidied(self, idle: Seq<u64>) -> ShellView {
        ShellView { tabs: discarded(self.tabs, self.active_id(), idle).tabs, ..self }
    }

    /// What housekeeping entails, where `reaped` hidden tabs were removed.
    pub open spec fn tidy_effects(self, idle: Seq<u64>, reaped: nat) -> Seq<EffectView> {
        let done = discarded(self.tabs, self.active_id(), idle);
        done.effects + if done.dropped > 0 || reaped > 0 {
            self.persist_effects()
        } else {
            Seq::empty()
        }
    }

    /// What the chrome's paints entail: once it has painted it is told the
    /// state, and then the plugins are loaded; each once.
    pub open spec fn paint_effects(self, painted: bool) -> Seq<EffectView> {
        let first = if !self.chrome_ready && painted {
            seq![Effect::<Seq<char>>::PushState, Effect::PushStatusline]
        } else {
            Seq::empty()
        };
        let load = if (self.chrome_ready || painted) && !self.did_initial_load {
            seq![
                Effect::<Seq<char>>::LoadPlugins,
                Effect::PushWorkspaces,
                Effect::PushStatusline,
                Effect::ShowNextApproval,
            ]
        } else {
            Seq::empty()
        };
        first + load
    }

    /// The shell after the chrome may have painted.
    pub open spec fn painted(self, painted: bool) -> ShellView {
        ShellView {
            chrome_ready: self.chrome_ready || painted,
            did_initial_load: self.did_initial_load || self.chrome_ready || painted,
            ..self
        }
    }
}

impl Shell {
    /// Takes in the title of the active page, where it has one.
    pub fn sync_active_title(&mut self, title: Option<String>) -> (r: Vec<Effect<String>>)
        ensures
            final(self)@ == old(self)@.titled(opt_text(title)),
            effects(r@) == old(self)@.title_effects(opt_text(title)),
    {
        let mut out: Vec<Effect<String>> = Vec::new();
        assert(effects(out@) =~= Seq::<EffectView>::empty());
        let ghost before = self@;
        if self.active >= self.tabs.len() {
            return out;
        }
        let title = match title {
            Some(t) => t,
            None => {
                return out;
            },
        };
        let i: usize = self.active;
        let same = match &self.tabs[i].title {
            Some(t) => text_eq(t.as_str(), title.as_str()),
            None => false,
        };
        if same {
            return out;
        }
        let id: u64 = self.tabs[i].id;
        let url = self.tabs[i].url.clone();
        let live = self.tabs[i].live;
        out.push(Effect::SessionTitle { id, title: title.clone() });
        out.push(Effect::WindowTitle(title.clone()));
        out.push(Effect::HistoryTitle { url: url.clone(), title: title.clone() });
        let tab = ShellTab { id, url, title: Some(title), live };
        self.tabs.set(i, tab);
        assert(self@.tabs =~= before.titled(Some(title@)).tabs);
        self.add_push_effects(&mut out);
        assert(effects(out@) =~= before.title_effects(Some(title@)));
        out
    }

    /// Takes in the URL that the active page is at, where it has one.
    pub fn sync_active_url(&mut self, url: Option<String>) -> (r: Vec<Effect<String>>)
        ensures
            final(self)@ == old(self)@.moved(opt_text(url)),
            effects(r@) == old(self)@.move_effects(opt_text(url)),
    {
        let mut out: Vec<Effect<String>> = Vec::new();
        assert(effects(out@) =~= Seq::<EffectView>::empty());
        let ghost before = self@;
        if self.active >= self.tabs.len() {
            return out;
        }
        let url = match url {
            Some(u) => u,
            None => {
                return out;
            },
        };
        let i: usize = self.active;
        if text_eq(self.tabs[i].url.as_str(), url.as_str()) {
            return out;
        }
        let id: u64 = self.tabs[i].id;
        let live = self.tabs[i].live;
        out.push(Effect::SessionUrl { id, url: url.clone() });
        let tab = ShellTab { id, url, title: None, live };
        self.tabs.set(i, tab);
        assert(self@.tabs =~= before.moved(Some(url@)).tabs);
        self.add_push_effects(&mut out);
        assert(effects(out@) =~= before.move_effects(Some(url@)));
        out
    }

    /// Takes in the link under the pointer; an empty one is none.
    pub fn sync_hover_url(&mut self, hover: Option<String>) -> (r: Vec<Effect<String>>)
        ensures
            final(self)@ == (ShellView {
                hover_url_last: unless_empty(opt_text(hover)),
                ..old(self)@
            }),
            effects(r@) == old(self)@.hover_effects(opt_text(hover)),
    {
        let mut out: Vec<Effect<String>> = Vec::new();
        assert(effects(out@) =~= Seq::<EffectView>::empty());
        let ghost before = self@;
        let new = match hover {
            Some(h) => if h.as_str().is_empty() {
                None
            } else {
                Some(h)
            },
            None => None,
        };
        let same = match (&new, &self.hover_url_last) {
            (Some(a), Some(b)) => text_eq(a.as_str(), b.as_str()),
            (None, None) => true,
            _ => false,
        };
        if same {
            return out;
        }
        self.hover_url_last = new;
        if self.chrome_ready {
            out.push(Effect::PushStatusline);
        }
        assert(effects(out@) =~= before.hover_effects(opt_text(hover)));
        out
    }

    /// Takes in what a find has found: the place of the active match and the
    /// number of matches.
    pub fn sync_find_result(&self, result: Option<(i32, i32)>) -> (r: Vec<Effect<String>>)
        ensures
            effects(r@) == self@.find_effects(result),
    {
        let mut out: Vec<Effect<String>> = Vec::new();
        if self.chrome_ready {
            if let Some(f) = result {
                out.push(Effect::EvalChrome(find_script(f.0, f.1)));
            }
        }
        assert(effects(out@) =~= self@.find_effects(result));
        out
    }

    /// Takes in where the active tab can go. Before the chrome can be told, the
    /// state is only kept: the first push of the state brings it.
    pub fn sync_nav_state(&mut self, can_go_back: bool, can_go_forward: bool) -> (r: Vec<
        Effect<String>,
    >)
        ensures
            final(self)@ == (ShellView {
                nav_state_last: (can_go_back, can_go_forward),
                ..old(self)@
            }),
            effects(r@) == old(self)@.nav_effects((can_go_back, can_go_forward)),
    {
        let mut out: Vec<Effect<String>> = Vec::new();
        let ghost before = self@;
        assert(effects(out@) =~= Seq::<EffectView>::empty());
        if can_go_back == self.nav_state_last.0 && can_go_forward == self.nav_state_last.1 {
            return out;
        }
        self.nav_state_last = (can_go_back, can_go_forward);
        if self.chrome_ready {
            out.push(Effect::EvalChrome(nav_script(can_go_back, can_go_forward)));
        }
        assert(effects(out@) =~= before.nav_effects((can_go_back, can_go_forward)));
        out
    }

    /// Takes in whether the active tab loads. Before the chrome can be told,
    /// nothing is kept, so that the first load is not missed.
    pub fn sync_load_state(&mut self, loading: bool) -> (r: Vec<Effect<String>>)
        ensures
            final(self)@ == (ShellView {
                load_state_last: if old(self)@.chrome_ready {
                    loading
                } else {
                    old(self)@.load_state_last
                },
                ..old(self)@
            }),
            effects(r@) == old(self)@.load_effects(loading),
    {
        let mut out: Vec<Effect<String>> = Vec::new();
        let ghost before = self@;
        assert(effects(out@) =~= Seq::<EffectView>::empty());
        if !self.chrome_ready || loading == self.load_state_last {
            return out;
        }
        self.load_state_last = loading;
        out.push(Effect::EvalChrome(load_script(loading)));
        assert(effects(out@) =~= before.load_effects(loading));
        out
    }

    /// Gives the focus to `owner`, so that one browser alone believes that it
    /// has it.
    pub fn set_focus_owner(&mut self, owner: FocusOwner) -> (r: Vec<Effect<String>>)
        ensures
            final(self)@ == (ShellView { focus: owner, ..old(self)@ }),
            effects(r@) == old(self)@.focus_effects(owner),
    {
        let mut out: Vec<Effect<String>> = Vec::new();
        let ghost before = self@;
        assert(effects(out@) =~= Seq::<EffectView>::empty());
        if owner == self.focus {
            return out;
        }
        self.focus = owner;
        let live = self.active_live();
        match owner {
            FocusOwner::Chrome => {
                if live {
                    out.push(Effect::FocusActivePage(false));
                }
                out.push(Effect::FocusChrome(true));
            },
            FocusOwner::Page => {
                out.push(Effect::FocusChrome(false));
                if live {
                    out.push(Effect::FocusActivePage(true));
                }
            },
        }
        assert(effects(out@) =~= before.focus_effects(owner));
        out
    }

    /// What to do with a popup that a page asked for.
    pub fn open_popup_tab(&self, url: &str, user_gesture: bool, background: bool) -> (r: Vec<
        Effect<String>,
    >)
        ensures
            effects(r@) == self@.popup_effects(url@, user_gesture, background),
    {
        let mut out: Vec<Effect<String>> = Vec::new();
        if is_popup_url_allowed(url) {
            let foreground = user_gesture && !background;
            out.push(Effect::OpenTab { url: url.to_owned(), title: None, foreground });
        }
        assert(effects(out@) =~= self@.popup_effects(url@, user_gesture, background));
        out
    }

    /// The tab behind the active one, the first behind the last; `None` with
    /// fewer than two tabs.
    pub fn next_tab(&self) -> (r: Option<u64>)
        requires
            self@.wf(),
        ensures
            match r {
                Some(id) => self@.tabs.len() >= 2 && id == self@.tabs[(self@.active + 1)
                    % self@.tabs.len() as int].id,
                None => self@.tabs.len() < 2,
            },
    {
        if self.tabs.len() < 2 {
            return None;
        }
        let next: usize = (self.active + 1) % self.tabs.len();
        Some(self.tabs[next].id)
    }

    /// Takes the last closed tab from the stack, to be opened again.
    pub fn reopen_closed_tab(&mut self) -> (r: Vec<Effect<String>>)
        ensures
            final(self)@ == old(self)@.reopened(),
            effects(r@) == old(self)@.reopen_effects(),
    {
        let mut out: Vec<Effect<String>> = Vec::new();
        let ghost before = self@;
        if let Some(tab) = self.closed.pop() {
            out.push(Effect::OpenTab { url: tab.url, title: tab.title, foreground: true });
        }
        assert(effects(out@) =~= before.reopen_effects());
        out
    }

    /// Moves the window to another workspace, with the tabs that the session
    /// has there; `seed` is the id of a tab that was added where it has none,
    /// and `page_made` says whether the first tab got a page.
    pub fn switch_workspace(
        &mut self,
        workspace: u64,
        ranked: &Vec<SessionTab>,
        seed: u64,
        page_made: bool,
    ) -> (r: Vec<Effect<String>>)
        ensures
            final(self)@ == old(self)@.in_workspace(
                workspace,
                workspace_tabs(ranked@, seed, page_made),
            ),
            effects(r@) == old(self)@.workspace_effects(
                workspace,
                workspace_tabs(ranked@, seed, page_made),
            ),
    {
        let mut out: Vec<Effect<String>> = Vec::new();
        let ghost before = self@;
        let ghost tabs = workspace_tabs(ranked@, seed, page_made);
        self.workspace = workspace;
        self.tabs = rebuild_tabs(ranked, seed, page_made);
        self.active = 0;
        out.push(Effect::SessionWorkspace(workspace));
        let ghost after = before.in_workspace(workspace, tabs);
        assert(self@ == after);
        assert(effects(out@) =~= seq![Effect::SessionWorkspace(workspace)]);
        self.add_change_effects(&mut out);
        self.add_persist_effects(&mut out);
        let ghost pushed = effects(out@);
        assert(pushed =~= seq![Effect::SessionWorkspace(workspace)] + after.change_effects()
            + after.persist_effects());
        if self.chrome_ready {
            out.push(Effect::PushWorkspaces);
        }
        assert(effects(out@) =~= before.workspace_effects(workspace, tabs));
        out
    }

    /// Discards one idle tab, and says whether it had a page.
    fn discard_tab(&mut self, id: u64, out: &mut Vec<Effect<String>>) -> (r: bool)
        ensures
            ({
                let at = place_of(old(self)@.tabs, id);
                &&& r == (at < old(self)@.tabs.len() && old(self)@.tabs[at].live)
                &&& r ==> final(self)@ == (ShellView {
                    tabs: old(self)@.tabs.update(
                        at,
                        TabView { live: false, ..old(self)@.tabs[at] },
                    ),
                    ..old(self)@
                }) && effects(final(out)@) == effects(old(out)@) + seq![
                    Effect::DiscardSessionTab(id),
                    Effect::ClosePage(id),
                ]
                &&& !r ==> final(self)@ == old(self)@ && effects(final(out)@) == effects(old(out)@)
                    + seq![Effect::DiscardSessionTab(id)]
            }),
    {
        let ghost tabs = self@.tabs;
        let ghost before = effects(out@);
        let at = find_tab(&self.tabs, id);
        out.push(Effect::DiscardSessionTab(id));
        if at == self.tabs.len() || !self.tabs[at].live {
            assert(effects(out@) =~= before + seq![Effect::DiscardSessionTab(id)]);
            return false;
        }
        let tab = ShellTab {
            id: self.tabs[at].id,
            url: self.tabs[at].url.clone(),
            title: self.tabs[at].title.clone(),
            live: false,
        };
        self.tabs.set(at, tab);
        assert(self@.tabs =~= tabs.update(
            at as int,
            TabView { live: false, ..tabs[at as int] },
        ));
        out.push(Effect::ClosePage(id));
        assert(effects(out@) =~= before + seq![
            Effect::DiscardSessionTab(id),
            Effect::ClosePage(id),
        ]);
        true
    }

    /// Discards idle tabs: their pages are closed, and the tabs stay, to load
    /// again when they are selected. The active tab is never discarded.
    /// `reaped` hidden tabs were removed from the session.
    pub fn housekeep(&mut self, idle: &Vec<u64>, reaped: usize) -> (r: Vec<Effect<String>>)
        ensures
            final(self)@ == old(self)@.tidied(idle@),
            effects(r@) == old(self)@.tidy_effects(idle@, reaped as nat),
    {
        let mut out: Vec<Effect<String>> = Vec::new();
        let ghost before = self@;
        let keep: Option<u64> = if self.active < self.tabs.len() {
            Some(self.tabs[self.active].id)
        } else {
            None
        };
        assert(keep == before.active_id());
        let mut dropped: usize = 0;
        let mut i: usize = 0;
        assert(idle@.subrange(0, 0) =~= Seq::<u64>::empty());
        assert(effects(out@) =~= Seq::<EffectView>::empty());
        while i < idle.len()
            invariant
                i <= idle@.len(),
                dropped <= i,
                discarded(before.tabs, keep, idle@.subrange(0, i as int)) == (Discarded {
                    tabs: self@.tabs,
                    effects: effects(out@),
                    dropped: dropped as nat,
                }),
                self@ == (ShellView { tabs: self@.tabs, ..before }),
            decreases idle@.len() - i,
        {
            let ghost next = idle@.subrange(0, i + 1);
            assert(next.drop_last() =~= idle@.subrange(0, i as int));
            let id: u64 = idle[i];
            let kept = match keep {
                Some(k) => k == id,
                None => false,
            };
            if !kept {
                if self.discard_tab(id, &mut out) {
                    dropped = dropped + 1;
                }
            }
            i = i + 1;
        }
        assert(idle@.subrange(0, idle@.len() as int) =~= idle@);
        if dropped > 0 || reaped > 0 {
            self.add_persist_effects(&mut out);
        }
        assert(effects(out@) =~= before.tidy_effects(idle@, reaped as nat));
        out
    }

    /// Takes in whether the chrome has painted.
    pub fn chrome_painted(&mut self, painted: bool) -> (r: Vec<Effect<String>>)
        ensures
            final(self)@ == old(self)@.painted(painted),
            effects(r@) == old(self)@.paint_effects(painted),
    {
        let mut out: Vec<Effect<String>> = Vec::new();
        let ghost before = self@;
        if !self.chrome_ready && painted {
            self.chrome_ready = true;
            out.push(Effect::PushState);
            out.push(Effect::PushStatusline);
        }
        if self.chrome_ready && !self.did_initial_load {
            self.did_initial_load = true;
            out.push(Effect::LoadPlugins);
            out.push(Effect::PushWorkspaces);
            out.push(Effect::PushStatusline);
            out.push(Effect::ShowNextApproval);
        }
        assert(effects(out@) =~= before.paint_effects(painted));
        out
    }
}

/// Who receives a key that nothing took.
#[derive(Debug, Clone, Copy, PartialEq, Eq, Structural)]
pub enum KeyTarget {
    Chrome,
    Page,
    /// The page has the focus, but the active tab has none.
    Nobody,
}

/// The arguments that are URLs to open: all behind the program's name that are
/// no flags.
pub open spec fn url_arguments(args: Seq<Seq<char>>) -> Seq<Seq<char>>
    decreases args.len(),
{
    if args.len() <= 1 {
        Seq::empty()
    } else {
        let front = url_arguments(args.drop_last());
        if args.last().len() > 0 && args.last()[0] == '-' {
            front
        } else {
            front.push(args.last())
        }
    }
}

/// The arguments that are URLs to open; flags are the engine's.
pub fn cli_urls(args: &Vec<String>) -> (r: Vec<String>)
    ensures
        strings(r@) == url_arguments(strings(args@)),
{
    let mut out: Vec<String> = Vec::new();
    let ghost all = strings(args@);
    let mut i: usize = 0;
    assert(strings(out@) =~= url_arguments(all.subrange(0, 0)));
    while i < args.len()
        invariant
            i <= args@.len(),
            all == strings(args@),
            strings(out@) == url_arguments(all.subrange(0, i as int)),
        decreases args@.len() - i,
    {
        let ghost next = all.subrange(0, i + 1);
        let ghost now = strings(out@);
        assert(next.drop_last() =~= all.subrange(0, i as int));
        assert(next.last() == args@[i as int]@);
        if i > 0 {
            let v = chars_of(args[i].as_str());
            if !(v.len() > 0 && v[0] == '-') {
                out.push(args[i].clone());
                assert(strings(out@) =~= now.push(args@[i as int]@));
            }
        }
        i = i + 1;
    }
    assert(all.subrange(0, all.len() as int) =~= all);
    out
}

/// The URLs that a fresh session opens: those that were asked for, or the start
/// page.
pub fn seed_urls(asked: Vec<String>) -> (r: Vec<String>)
    ensures
        asked@.len() > 0 ==> r == asked,
        asked@.len() == 0 ==> strings(r@) == seq![start_url()],
{
    if asked.len() > 0 {
        return asked;
    }
    let mut out: Vec<String> = Vec::new();
    out.push(default_start_url().to_owned());
    assert(strings(out@) =~= seq![start_url()]);
    out
}

/// The tabs that a fresh session opens: one for each URL, with the id that the
/// session gave it, the first with a page.
pub fn seeded_tabs(ids: &Vec<u64>, urls: &Vec<String>) -> (r: Vec<ShellTab>)
    requires
        ids@.len() == urls@.len(),
    ensures
        tab_views(r@) == Seq::new(
            ids@.len(),
            |i: int| TabView { id: ids@[i], url: urls@[i]@, title: None, live: i == 0 },
        ),
{
    let mut out: Vec<ShellTab> = Vec::new();
    let mut i: usize = 0;
    while i < ids.len()
        invariant
            i <= ids@.len() == urls@.len(),
            out@.len() == i,
            forall|k: int|
                0 <= k < i ==> (#[trigger] out@[k])@ == (TabView {
                    id: ids@[k],
                    url: urls@[k]@,
                    title: None,
                    live: k == 0,
                }),
        decreases ids@.len() - i,
    {
        out.push(ShellTab { id: ids[i], url: urls[i].clone(), title: None, live: i == 0 });
        i = i + 1;
    }
    assert(tab_views(out@) =~= Seq::new(
        ids@.len(),
        |i: int| TabView { id: ids@[i], url: urls@[i]@, title: None, live: i == 0 },
    ));
    out
}

impl Shell {
    /// A shell with these tabs, the first of them active.
    pub fn new(tabs: Vec<ShellTab>, workspace: u64) -> (r: Shell)
        ensures
            r@ == (ShellView {
                tabs: tab_views(tabs@),
                active: 0,
                workspace,
                closed: Seq::empty(),
                focus: FocusOwner::Page,
                chrome_ready: false,
                did_initial_load: false,
                should_exit: false,
                integrity_open: false,
                integrity_chrome_open: false,
                picker: PickerView::closed(),
                search_url_template: "https://duckduckgo.com/?q={q}"@,
                find_query_last: Seq::empty(),
                hover_url_last: None,
                nav_state_last: (false, false),
                load_state_last: false,
            }),
            r@.wf(),
    {
        Shell {
            tabs,
            active: 0,
            workspace,
            closed: ClosedTabStack::new(),
            focus: FocusOwner::Page,
            chrome_ready: false,
            did_initial_load: false,
            should_exit: false,
            integrity_open: false,
            integrity_chrome_open: false,
            picker: PickerState::default(),
            search_url_template: default_search_url_template().to_owned(),
            find_query_last: String::new(),
            hover_url_last: None,
            nav_state_last: (false, false),
            load_state_last: false,
        }
    }

    /// The tabs in display order.
    pub fn tabs(&self) -> (r: &Vec<ShellTab>)
        ensures
            tab_views(r@) == self@.tabs,
    {
        &self.tabs
    }

    /// The place of the active tab.
    pub fn active(&self) -> (r: usize)
        ensures
            r == self@.active,
    {
        self.active
    }

    /// The active tab; `None` where there are no tabs.
    pub fn active_tab(&self) -> (r: Option<&ShellTab>)
        ensures
            match r {
                Some(tab) => self@.has_active() && tab@ == self@.tabs[self@.active],
                None => !self@.has_active(),
            },
    {
        if self.active < self.tabs.len() {
            Some(&self.tabs[self.active])
        } else {
            None
        }
    }

    /// The workspace that the window shows.
    pub fn workspace(&self) -> (r: u64)
        ensures
            r == self@.workspace,
    {
        self.workspace
    }

    /// Whether the chrome document can be told things.
    pub fn chrome_ready(&self) -> (r: bool)
        ensures
            r == self@.chrome_ready,
    {
        self.chrome_ready
    }

    /// Whether the window is to close.
    pub fn should_exit(&self) -> (r: bool)
        ensures
            r == self@.should_exit,
    {
        self.should_exit
    }

    /// The picker.
    pub fn picker(&self) -> (r: &PickerState)
        ensures
            r@ == self@.picker,
    {
        &self.picker
    }

    /// The link under the pointer, as last told to the chrome.
    pub fn hover_url_last(&self) -> (r: &Option<String>)
        ensures
            opt_text(*r) == self@.hover_url_last,
    {
        &self.hover_url_last
    }

    /// Where the active tab can go, as last reported.
    pub fn nav_state_last(&self) -> (r: (bool, bool))
        ensures
            r == self@.nav_state_last,
    {
        self.nav_state_last
    }

    /// Whether the active tab loads, as last told to the chrome.
    pub fn load_state_last(&self) -> (r: bool)
        ensures
            r == self@.load_state_last,
    {
        self.load_state_last
    }

    /// Who receives a key that nothing took: whoever has the focus.
    pub fn key_target(&self) -> (r: KeyTarget)
        ensures
            r == match self@.focus {
                FocusOwner::Chrome => KeyTarget::Chrome,
                FocusOwner::Page => if self@.active_live() {
                    KeyTarget::Page
                } else {
                    KeyTarget::Nobody
                },
            },
    {
        match self.focus {
            FocusOwner::Chrome => KeyTarget::Chrome,
            FocusOwner::Page => if self.active_live() {
                KeyTarget::Page
            } else {
                KeyTarget::Nobody
            },
        }
    }
}

} // verus!
