//! What holds of the shell as a whole, whatever is done to it.

use crate::approval::{dialog_approval, DialogResultView};
use crate::closed_tabs::{pop_undoes_push, ClosedTabView, CLOSED_TAB_STACK_CAP};
use crate::command::{CommandView, FocusOwner, ShellCommand};
use crate::dispatch::{nothing, typed_all};
use crate::effect::Effect;
use crate::host::{approve_step, ApproveOutcome, Pending};
use crate::internal::{internal_page, popups_never_reach_internal_pages, start_url};
use crate::keybinds::{Key, Modifiers};
use crate::picker::{PickerView, SessionTab};
use crate::shell::{
    discarded, lemma_place_of, place_of, unless_empty, workspace_tabs, ShellView, TabView,
};
use crate::url_analysis::UrlAnalysisView;
use vstd::prelude::*;

verus! {

/// Whether no two tabs have the same id.
pub open spec fn distinct(tabs: Seq<TabView>) -> bool {
    forall|i: int, j: int|
        0 <= i < j < tabs.len() ==> (#[trigger] tabs[i]).id != (#[trigger] tabs[j]).id
}

/// Closing a tab leaves the shell well formed.
proof fn lemma_closing_keeps_wf(v: ShellView, id: u64)
    requires
        v.wf(),
    ensures
        v.closed_tab(id).wf(),
{
    lemma_place_of(v.tabs, id);
}

/// Every command leaves the shell well formed: the active tab is one of the
/// tabs, unless the last one was closed.
pub proof fn commands_keep_the_shell_well_formed(
    v: ShellView,
    command: CommandView,
    submitted: Seq<char>,
)
    requires
        v.wf(),
    ensures
        v.applied(command, submitted).wf(),
{
    match command {
        ShellCommand::CloseTab(id) => {
            lemma_closing_keeps_wf(v, id);
        },
        _ => {},
    }
}

/// Typing leaves the picker's selection among its rows.
proof fn lemma_typing_keeps_wf(p: PickerView, s: Seq<char>)
    requires
        p.wf(),
    ensures
        typed_all(p, s).wf(),
    decreases s.len(),
{
    if s.len() > 0 {
        lemma_typing_keeps_wf(p, s.drop_last());
    }
}

/// Every key leaves the shell well formed, and the picker's selection among
/// its rows.
pub proof fn keys_keep_the_shell_well_formed(
    v: ShellView,
    pressed: bool,
    modifiers: Modifiers,
    key: Key,
)
    requires
        v.wf(),
    ensures
        v.key_result(pressed, modifiers, key).shell.wf(),
{
    assert(PickerView::closed().wf());
    if v.picker.open {
        match key {
            Key::Character(s) => {
                lemma_typing_keeps_wf(v.picker, s@);
                lemma_moves_keep_wf(v.picker);
            },
            _ => {
                lemma_moves_keep_wf(v.picker);
            },
        }
    } else if v.has_active() {
        lemma_closing_keeps_wf(v, v.tabs[v.active].id);
    }
}

proof fn lemma_moves_keep_wf(p: PickerView)
    requires
        p.wf(),
    ensures
        p.moved_down().wf(),
        p.moved_up().wf(),
        p.erased().wf(),
{
    let n = p.rows().len() as int;
    if n > 0 {
        assert(0 <= (p.selected + 1) % n < n);
        assert(0 <= (p.selected + n - 1) % n < n);
    }
}

/// The reports of the engine and the session leave the shell well formed.
pub proof fn reports_keep_the_shell_well_formed(
    v: ShellView,
    tab: TabView,
    foreground: bool,
    id: u64,
    page_made: bool,
    text: Option<Seq<char>>,
    idle: Seq<u64>,
)
    requires
        v.wf(),
        v.tabs.len() > 0 || foreground,
    ensures
        v.opened(tab, foreground).wf(),
        v.selected(id, page_made).wf(),
        v.titled(text).wf(),
        v.moved(text).wf(),
        v.tidied(idle).wf(),
        v.reopened().wf(),
{
    lemma_place_of(v.tabs, id);
    discarding_keeps_the_tabs(v.tabs, v.active_id(), idle);
}

/// A change of workspace leaves a window that has tabs, the first of them
/// active.
pub proof fn workspaces_are_never_empty(
    v: ShellView,
    workspace: u64,
    ranked: Seq<SessionTab>,
    seed: u64,
    page_made: bool,
)
    requires
        v.wf(),
    ensures
        ({
            let after = v.in_workspace(workspace, workspace_tabs(ranked, seed, page_made));
            &&& after.wf()
            &&& after.has_active()
            &&& after.active == 0
            &&& after.workspace == workspace
        }),
{
}

/// The window is never left without a tab: closing the last one asks for
/// another at the start page, and once that is open it is the active one.
pub proof fn closing_the_last_tab_opens_another(v: ShellView, id: u64, fresh: TabView)
    requires
        v.wf(),
        v.tabs.len() == 1,
        v.tabs[0].id == id,
    ensures
        v.closed_tab(id).tabs.len() == 0,
        v.close_effects(id).len() > 0,
        v.close_effects(id).last() == (Effect::OpenTab::<Seq<char>> {
            url: start_url(),
            title: None,
            foreground: true,
        }),
        v.closed_tab(id).opened(fresh, true).has_active(),
        v.closed_tab(id).opened(fresh, true).active == 0,
{
    assert(place_of(v.tabs, id) == 0);
}

/// Closing a tab that is not active leaves the active tab active.
pub proof fn closing_another_tab_keeps_the_active_one(v: ShellView, id: u64)
    requires
        v.wf(),
        v.has_active(),
        v.tabs[v.active].id != id,
    ensures
        v.closed_tab(id).has_active(),
        v.closed_tab(id).tabs[v.closed_tab(id).active] == v.tabs[v.active],
{
    lemma_place_of(v.tabs, id);
}

/// Closing the active tab makes its neighbour active: the tab before it, or
/// behind it where it was the first.
pub proof fn closing_the_active_tab_moves_to_its_neighbour(v: ShellView)
    requires
        v.wf(),
        v.tabs.len() >= 2,
        distinct(v.tabs),
    ensures
        ({
            let after = v.closed_tab(v.tabs[v.active].id);
            &&& after.has_active()
            &&& after.tabs[after.active] == if v.active > 0 {
                v.tabs[v.active - 1]
            } else {
                v.tabs[1]
            }
        }),
{
    let id = v.tabs[v.active].id;
    lemma_place_of(v.tabs, id);
    let at = place_of(v.tabs, id);
    if at < v.active {
        assert(v.tabs[at].id != v.tabs[v.active].id);
    }
    assert(at == v.active);
}

/// A closed tab is the first to be reopened, with the URL and the title that
/// it had; reopening leaves the stack as it was, unless it was full.
pub proof fn reopening_restores_the_closed_tab(v: ShellView, id: u64)
    requires
        place_of(v.tabs, id) < v.tabs.len(),
    ensures
        ({
            let tab = v.tabs[place_of(v.tabs, id)];
            let after = v.closed_tab(id);
            &&& after.reopen_effects() == seq![
                Effect::OpenTab { url: tab.url, title: tab.title, foreground: true },
            ]
            &&& v.closed.len() < CLOSED_TAB_STACK_CAP ==> after.reopened().closed == v.closed
        }),
{
    let tab = v.tabs[place_of(v.tabs, id)];
    pop_undoes_push(v.closed, ClosedTabView { url: tab.url, title: tab.title });
}

/// Selecting a tab of the window makes it the active one, whether or not a
/// page could be made for it; selecting any other id does nothing.
pub proof fn selecting_makes_active(v: ShellView, id: u64, page_made: bool)
    requires
        v.wf(),
    ensures
        place_of(v.tabs, id) < v.tabs.len() ==> v.selected(id, page_made).has_active()
            && v.selected(id, page_made).tabs[v.selected(id, page_made).active].id == id,
        place_of(v.tabs, id) >= v.tabs.len() ==> v.selected(id, page_made) == v && v.select_effects(
            id,
            page_made,
        ) == nothing(),
{
    lemma_place_of(v.tabs, id);
}

/// Going on to the next tab makes the tab behind the active one active, and
/// from the last the first.
pub proof fn cycling_goes_to_the_next_tab(v: ShellView, page_made: bool)
    requires
        v.wf(),
        v.tabs.len() >= 2,
        distinct(v.tabs),
    ensures
        v.selected(v.tabs[(v.active + 1) % v.tabs.len() as int].id, page_made).active == if v.active
            + 1 < v.tabs.len() {
            v.active + 1
        } else {
            0
        },
{
    let n = v.tabs.len() as int;
    let next = (v.active + 1) % n;
    if v.active + 1 < n {
        assert(next == v.active + 1) by (nonlinear_arith)
            requires
                next == (v.active + 1) % n,
                0 <= v.active,
                v.active + 1 < n,
        ;
    } else {
        assert(v.active + 1 == n);
        assert(next == 0) by (nonlinear_arith)
            requires
                next == (v.active + 1) % n,
                v.active + 1 == n,
                n > 0,
        ;
    }
    let id = v.tabs[next].id;
    lemma_place_of(v.tabs, id);
    let at = place_of(v.tabs, id);
    if at < next {
        assert(v.tabs[at].id != v.tabs[next].id);
    }
    assert(at == next);
}

/// A tab that opens in the background steals no focus: the active tab stays.
pub proof fn background_tabs_keep_the_active_one(v: ShellView, tab: TabView)
    requires
        v.wf(),
        v.has_active(),
    ensures
        v.opened(tab, false).has_active(),
        v.opened(tab, false).tabs[v.opened(tab, false).active] == v.tabs[v.active],
{
}

/// No popup opens a page of the browser's own.
pub proof fn popups_open_no_internal_page(
    v: ShellView,
    url: Seq<char>,
    user_gesture: bool,
    background: bool,
)
    requires
        internal_page(url),
    ensures
        v.popup_effects(url, user_gesture, background) == nothing(),
{
    popups_never_reach_internal_pages(url);
}

/// Ids stay distinct through every change, where a new tab's id is new.
pub proof fn ids_stay_distinct(
    v: ShellView,
    id: u64,
    page_made: bool,
    tab: TabView,
    foreground: bool,
    idle: Seq<u64>,
)
    requires
        distinct(v.tabs),
        forall|i: int| 0 <= i < v.tabs.len() ==> (#[trigger] v.tabs[i]).id != tab.id,
    ensures
        distinct(v.closed_tab(id).tabs),
        distinct(v.selected(id, page_made).tabs),
        distinct(v.opened(tab, foreground).tabs),
        distinct(v.tidied(idle).tabs),
        distinct(v.navigated(tab.url).tabs),
{
    lemma_place_of(v.tabs, id);
    let at = place_of(v.tabs, id);
    let closed = v.closed_tab(id).tabs;
    if at < v.tabs.len() {
        assert forall|i: int, j: int| 0 <= i < j < closed.len() implies (#[trigger] closed[i]).id
            != (#[trigger] closed[j]).id by {
            let a = if i < at {
                i
            } else {
                i + 1
            };
            let b = if j < at {
                j
            } else {
                j + 1
            };
            assert(closed[i] == v.tabs[a] && closed[j] == v.tabs[b]);
        }
    }
    discarding_keeps_the_tabs(v.tabs, v.active_id(), idle);
    let tidied = v.tidied(idle).tabs;
    assert forall|i: int, j: int| 0 <= i < j < tidied.len() implies (#[trigger] tidied[i]).id != (
    #[trigger] tidied[j]).id by {
        assert(tidied[i].id == v.tabs[i].id && tidied[j].id == v.tabs[j].id);
        assert(v.tabs[i].id != v.tabs[j].id);
    }
    let selected = v.selected(id, page_made).tabs;
    assert forall|i: int, j: int| 0 <= i < j < selected.len() implies (#[trigger] selected[i]).id
        != (#[trigger] selected[j]).id by {
        assert(selected[i].id == v.tabs[i].id && selected[j].id == v.tabs[j].id);
        assert(v.tabs[i].id != v.tabs[j].id);
    }
    let navigated = v.navigated(tab.url).tabs;
    assert forall|i: int, j: int| 0 <= i < j < navigated.len() implies (#[trigger] navigated[i]).id
        != (#[trigger] navigated[j]).id by {
        assert(navigated[i].id == v.tabs[i].id && navigated[j].id == v.tabs[j].id);
        assert(v.tabs[i].id != v.tabs[j].id);
    }
}

/// Discarding keeps every tab with its URL and title: only pages go.
pub proof fn discarding_keeps_the_tabs(tabs: Seq<TabView>, keep: Option<u64>, idle: Seq<u64>)
    ensures
        discarded(tabs, keep, idle).tabs.len() == tabs.len(),
        forall|i: int|
            0 <= i < tabs.len() ==> {
                let after = #[trigger] discarded(tabs, keep, idle).tabs[i];
                after == tabs[i] || after == (TabView { live: false, ..tabs[i] })
            },
        discarded(tabs, keep, idle).dropped <= idle.len(),
    decreases idle.len(),
{
    if idle.len() > 0 {
        discarding_keeps_the_tabs(tabs, keep, idle.drop_last());
        let before = discarded(tabs, keep, idle.drop_last()).tabs;
        lemma_place_of(before, idle.last());
        let out = discarded(tabs, keep, idle).tabs;
        assert forall|i: int| 0 <= i < tabs.len() implies {
            let after = #[trigger] out[i];
            after == tabs[i] || after == (TabView { live: false, ..tabs[i] })
        } by {
            assert(before[i] == tabs[i] || before[i] == (TabView { live: false, ..tabs[i] }));
        }
    }
}

/// The active tab is never discarded, however long it idles: it keeps its page.
pub proof fn the_active_tab_is_never_discarded(v: ShellView, idle: Seq<u64>)
    requires
        v.has_active(),
    ensures
        v.tidied(idle).tabs[v.active] == v.tabs[v.active],
{
    lemma_kept_tab(v.tabs, v.active, idle);
}

proof fn lemma_kept_tab(tabs: Seq<TabView>, at: int, idle: Seq<u64>)
    requires
        0 <= at < tabs.len(),
    ensures
        discarded(tabs, Some(tabs[at].id), idle).tabs[at] == tabs[at],
    decreases idle.len(),
{
    if idle.len() > 0 {
        lemma_kept_tab(tabs, at, idle.drop_last());
        let before = discarded(tabs, Some(tabs[at].id), idle.drop_last()).tabs;
        discarding_keeps_the_tabs(tabs, Some(tabs[at].id), idle.drop_last());
        lemma_place_of(before, idle.last());
    }
}

/// The chrome is told of a change once: reporting the same thing again has no
/// effect.
pub proof fn repeated_reports_are_silent(
    v: ShellView,
    text: Option<Seq<char>>,
    nav: (bool, bool),
    loading: bool,
    owner: FocusOwner,
)
    ensures
        v.titled(text).title_effects(text) == nothing(),
        v.moved(text).move_effects(text) == nothing(),
        (ShellView { hover_url_last: unless_empty(text), ..v }).hover_effects(text) == nothing(),
        (ShellView { nav_state_last: nav, ..v }).nav_effects(nav) == nothing(),
        (ShellView { load_state_last: loading, ..v }).load_effects(loading) == nothing(),
        (ShellView { focus: owner, ..v }).focus_effects(owner) == nothing(),
{
}

/// Before the chrome has painted, no report and no list makes a script run in
/// it.
pub proof fn nothing_is_pushed_before_the_chrome_is_ready(
    v: ShellView,
    text: Option<Seq<char>>,
    nav: (bool, bool),
    loading: bool,
    found: Option<(i32, i32)>,
    bookmarked: bool,
    analysis: Option<UrlAnalysisView>,
    op: Seq<char>,
    payload: Seq<char>,
)
    requires
        !v.chrome_ready,
    ensures
        v.push_effects() == nothing(),
        v.nav_effects(nav) == nothing(),
        v.load_effects(loading) == nothing(),
        v.find_effects(found) == nothing(),
        v.hover_effects(text) == nothing(),
        v.state_effects(bookmarked, analysis, nav) == nothing(),
        v.told(op, payload) == nothing(),
{
}

/// Every denial is audited: where an answer denies a plugin that waits, what
/// follows begins with a record of the plugin and the reason.
pub proof fn denials_are_audited(
    v: ShellView,
    pending: Seq<Pending>,
    result: DialogResultView,
    running: bool,
)
    requires
        approve_step(pending, result, running) is Deny,
    ensures
        dialog_approval(result) is Deny,
        v.approval_effects(result, ApproveOutcome::Denied).len() > 0,
        v.approval_effects(result, ApproveOutcome::Denied)[0] == (Effect::AuditDenial::<Seq<char>> {
            plugin: result.plugin,
            reason: dialog_approval(result)->Deny_0,
        }),
{
}

/// An answer that was not settled changes nothing that is shown: the dialog of
/// a plugin that did not load stays, and a dropped answer hides no other's.
pub proof fn unsettled_answers_hide_no_dialog(v: ShellView, result: DialogResultView)
    ensures
        v.approval_effects(result, ApproveOutcome::LoadFailed) == nothing(),
        v.approval_effects(result, ApproveOutcome::NotPending) == nothing(),
{
    assert(v.approval_effects(result, ApproveOutcome::LoadFailed) =~= nothing());
    assert(v.approval_effects(result, ApproveOutcome::NotPending) =~= nothing());
}

/// The plugins are loaded once: after the first tick with a painted chrome no
/// tick asks for it again.
pub proof fn plugins_are_loaded_once(v: ShellView, painted: bool)
    ensures
        v.painted(true).paint_effects(painted) == nothing(),
        !v.chrome_ready ==> v.paint_effects(false) == nothing() && v.painted(false) == v,
{
}

/// The workspaces are told only behind the load of the plugins, which know
/// them.
pub proof fn workspaces_are_told_after_the_plugins_load(v: ShellView, painted: bool, i: int)
    requires
        0 <= i < v.paint_effects(painted).len(),
        v.paint_effects(painted)[i] is PushWorkspaces,
    ensures
        exists|j: int| 0 <= j < i && #[trigger] v.paint_effects(painted)[j] is LoadPlugins,
{
    assert(v.paint_effects(painted)[i - 1] is LoadPlugins);
}

/// While the picker is open it takes every key; no key reaches a page, and no
/// command is given.
pub proof fn the_open_picker_takes_every_key(
    v: ShellView,
    pressed: bool,
    modifiers: Modifiers,
    key: Key,
)
    requires
        v.picker.open,
    ensures
        v.key_result(pressed, modifiers, key).consumed,
        v.key_result(pressed, modifiers, key).command is None,
        v.key_result(pressed, modifiers, key).shell.tabs == v.tabs,
{
}

/// A key that is not taken changes nothing.
pub proof fn passed_keys_change_nothing(
    v: ShellView,
    pressed: bool,
    modifiers: Modifiers,
    key: Key,
)
    requires
        !v.key_result(pressed, modifiers, key).consumed,
    ensures
        v.key_result(pressed, modifiers, key).shell == v,
        v.key_result(pressed, modifiers, key).effects == nothing(),
        v.key_result(pressed, modifiers, key).command is None,
{
    if !v.picker.open {
        assert(v.dismissed().effects =~= if v.dismissed().consumed {
            v.dismissed().effects
        } else {
            nothing()
        });
    }
}

/// An empty submission goes nowhere, and no command but a navigation or the
/// closing of a tab touches the tabs at once.
pub proof fn only_tab_commands_touch_the_tabs(v: ShellView, command: CommandView, s: Seq<char>)
    requires
        !(command is Navigate),
        !(command is CloseTab),
        command is OmniboxSubmit ==> s.len() == 0,
    ensures
        v.applied(command, s).tabs == v.tabs,
        v.applied(command, s).active == v.active,
{
}

} // verus!
