//! What happens to the tabs of the window, one by one: which change, which stay,
//! and what is done outside because of it.

use crate::chrome::{load_object, nav_object, op_script};
use crate::command::{FocusOwner, ShellCommand};
use crate::dispatch::nothing;
use crate::effect::Effect;
use crate::laws::{discarding_keeps_the_tabs, distinct};
use crate::picker::SessionTab;
use crate::shell::{
    discarded, lemma_place_of, place_of, unless_empty, url_arguments, workspace_tabs, ShellView,
    TabView,
};
use crate::text::opt_text;
use vstd::prelude::*;

verus! {

/// What a change that shows another page entails: the page gets its size, is
/// drawn, and gets the focus where pages have it; a tab without a page is only
/// drawn.
pub proof fn a_page_that_comes_up_is_sized_drawn_and_focused(v: ShellView)
    ensures
        v.active_live() && v.focus == FocusOwner::Page ==> v.change_effects() == seq![
            Effect::<Seq<char>>::SizeActivePage,
            Effect::RedrawContent,
            Effect::FocusActivePage(true),
        ],
        v.active_live() && v.focus == FocusOwner::Chrome ==> v.change_effects() == seq![
            Effect::<Seq<char>>::SizeActivePage,
            Effect::RedrawContent,
        ],
        !v.active_live() ==> v.change_effects() == seq![Effect::<Seq<char>>::RedrawContent],
        v.chrome_ready ==> v.persist_effects() == seq![
            Effect::<Seq<char>>::FlushSession,
            Effect::PushState,
        ],
        !v.chrome_ready ==> v.persist_effects() == seq![Effect::<Seq<char>>::FlushSession],
{
    let e = v.change_effects();
    if v.active_live() && v.focus == FocusOwner::Page {
        assert(e =~= seq![
            Effect::<Seq<char>>::SizeActivePage,
            Effect::RedrawContent,
            Effect::FocusActivePage(true),
        ]);
    } else if v.active_live() {
        assert(e =~= seq![Effect::<Seq<char>>::SizeActivePage, Effect::RedrawContent]);
    } else {
        assert(e =~= seq![Effect::<Seq<char>>::RedrawContent]);
    }
    if v.chrome_ready {
        assert(v.persist_effects() =~= seq![
            Effect::<Seq<char>>::FlushSession,
            Effect::PushState,
        ]);
    } else {
        assert(v.persist_effects() =~= seq![Effect::<Seq<char>>::FlushSession]);
    }
}

/// A navigation gives the active tab the URL and no title, and touches no other
/// tab and nothing else; the page loads it, the session and the history are told,
/// and all of it is written out.
pub proof fn navigating_changes_the_active_tab_alone(v: ShellView, url: Seq<char>, i: int, s: Seq<char>)
    requires
        v.has_active(),
    ensures
        ({
            let after = v.applied(ShellCommand::Navigate(url), s);
            &&& after == (ShellView { tabs: after.tabs, ..v })
            &&& after.tabs.len() == v.tabs.len()
            &&& after.tabs[v.active] == (TabView {
                id: v.tabs[v.active].id,
                url,
                title: None,
                live: v.tabs[v.active].live,
            })
            &&& 0 <= i < v.tabs.len() && i != v.active ==> after.tabs[i] == v.tabs[i]
        }),
        v.active_live() ==> v.command_effects(ShellCommand::Navigate(url), s) == seq![
            Effect::LoadUrl(url),
            Effect::SessionUrl { id: v.tabs[v.active].id, url },
            Effect::RecordVisit(url),
        ] + v.persist_effects(),
        !v.active_live() ==> v.command_effects(ShellCommand::Navigate(url), s) == seq![
            Effect::SessionUrl { id: v.tabs[v.active].id, url },
            Effect::RecordVisit(url),
        ] + v.persist_effects(),
{
    let e = v.command_effects(ShellCommand::Navigate(url), s);
    if v.active_live() {
        assert(e =~= seq![
            Effect::LoadUrl(url),
            Effect::SessionUrl { id: v.tabs[v.active].id, url },
            Effect::RecordVisit(url),
        ] + v.persist_effects());
    } else {
        assert(e =~= seq![
            Effect::SessionUrl { id: v.tabs[v.active].id, url },
            Effect::RecordVisit(url),
        ] + v.persist_effects());
    }
}

/// A page that goes elsewhere by itself changes its tab as a navigation does, but
/// is neither loaded again nor counted as a visit, nor written out; one that is
/// where it was changes nothing.
pub proof fn pages_that_move_are_followed(v: ShellView, url: Seq<char>, s: Seq<char>)
    requires
        v.has_active(),
    ensures
        v.tabs[v.active].url != url ==> v.moved(Some(url)) == v.applied(
            ShellCommand::Navigate(url),
            s,
        ),
        v.tabs[v.active].url != url && v.chrome_ready ==> v.move_effects(Some(url)) == seq![
            Effect::SessionUrl { id: v.tabs[v.active].id, url },
            Effect::PushState,
        ],
        v.tabs[v.active].url != url && !v.chrome_ready ==> v.move_effects(Some(url)) == seq![
            Effect::SessionUrl { id: v.tabs[v.active].id, url },
        ],
        v.tabs[v.active].url == url ==> v.moved(Some(url)) == v && v.move_effects(Some(url))
            == nothing(),
        v.moved(None) == v,
        v.move_effects(None) == nothing(),
{
    let e = v.move_effects(Some(url));
    let first = Effect::SessionUrl { id: v.tabs[v.active].id, url };
    if v.tabs[v.active].url != url {
        if v.chrome_ready {
            assert(e =~= seq![first, Effect::PushState]);
        } else {
            assert(e =~= seq![first]);
        }
    }
}

/// A title goes to the active tab alone, and with it to the session, the window
/// and the history, under the URL of that tab.
pub proof fn titles_go_to_the_active_tab(v: ShellView, title: Seq<char>, i: int)
    requires
        v.has_active(),
    ensures
        ({
            let after = v.titled(Some(title));
            &&& after == (ShellView { tabs: after.tabs, ..v })
            &&& after.tabs.len() == v.tabs.len()
            &&& after.tabs[v.active] == (TabView { title: Some(title), ..v.tabs[v.active] })
            &&& 0 <= i < v.tabs.len() && i != v.active ==> after.tabs[i] == v.tabs[i]
        }),
        v.tabs[v.active].title == Some(title) ==> v.title_effects(Some(title)) == nothing(),
        v.tabs[v.active].title != Some(title) ==> {
            let e = v.title_effects(Some(title));
            &&& e.len() >= 3
            &&& e[0] == (Effect::SessionTitle::<Seq<char>> { id: v.tabs[v.active].id, title })
            &&& e[1] == Effect::<Seq<char>>::WindowTitle(title)
            &&& e[2] == (Effect::HistoryTitle::<Seq<char>> { url: v.tabs[v.active].url, title })
            &&& v.chrome_ready ==> e.len() == 4 && e[3] is PushState
            &&& !v.chrome_ready ==> e.len() == 3
        },
        v.titled(None) == v,
        v.title_effects(None) == nothing(),
{
    if v.tabs[v.active].title == Some(title) {
        assert(v.titled(Some(title)).tabs =~= v.tabs);
    }
}

/// A new tab comes last, and every other stays in its place; in front it is the
/// active one, and behind the active one stays.
pub proof fn new_tabs_come_last(v: ShellView, tab: TabView, foreground: bool, i: int)
    ensures
        ({
            let after = v.opened(tab, foreground);
            &&& after.tabs.len() == v.tabs.len() + 1
            &&& after.tabs.last() == tab
            &&& 0 <= i < v.tabs.len() ==> after.tabs[i] == v.tabs[i]
            &&& foreground ==> after.active == v.tabs.len()
            &&& !foreground ==> after.active == v.active
            &&& after == (ShellView { tabs: after.tabs, active: after.active, ..v })
            &&& foreground ==> v.open_effects(tab, foreground) == after.change_effects()
                + after.persist_effects()
            &&& !foreground ==> v.open_effects(tab, foreground) == v.persist_effects()
        }),
{
    let after = v.opened(tab, foreground);
    if !foreground {
        assert(v.open_effects(tab, foreground) =~= v.persist_effects());
    }
}

/// Closing a tab takes that tab out and leaves the others in their order; the tab
/// is remembered first of all, with its URL and title. Its page is closed where
/// it has one, and then the session's tab.
pub proof fn closing_takes_out_one_tab(v: ShellView, id: u64, i: int)
    requires
        v.wf(),
        place_of(v.tabs, id) < v.tabs.len(),
    ensures
        ({
            let at = place_of(v.tabs, id);
            let after = v.closed_tab(id);
            let e = v.close_effects(id);
            &&& after.tabs.len() == v.tabs.len() - 1
            &&& 0 <= i < at ==> after.tabs[i] == v.tabs[i]
            &&& at < i < v.tabs.len() ==> after.tabs[i - 1] == v.tabs[i]
            &&& after.closed.len() > 0
            &&& after.closed[0].url == v.tabs[at].url
            &&& after.closed[0].title == v.tabs[at].title
            &&& after == (ShellView {
                tabs: after.tabs,
                active: after.active,
                closed: after.closed,
                ..v
            })
            &&& v.tabs[at].live ==> e.len() >= 2 && e[0] == Effect::<Seq<char>>::ClosePage(id)
                && e[1] == Effect::<Seq<char>>::CloseSessionTab(id)
            &&& !v.tabs[at].live ==> e.len() >= 1 && e[0] == Effect::<Seq<char>>::CloseSessionTab(
                id,
            )
            &&& v.tabs.len() >= 2 && v.tabs[at].live ==> e == seq![
                Effect::<Seq<char>>::ClosePage(id),
                Effect::CloseSessionTab(id),
            ] + after.change_effects() + after.persist_effects()
        }),
{
    lemma_place_of(v.tabs, id);
    let at = place_of(v.tabs, id);
    crate::closed_tabs::pop_undoes_push(
        v.closed,
        crate::closed_tabs::ClosedTabView { url: v.tabs[at].url, title: v.tabs[at].title },
    );
    let after = v.closed_tab(id);
    if v.tabs.len() >= 2 && v.tabs[at].live {
        assert(v.close_effects(id) =~= seq![
            Effect::<Seq<char>>::ClosePage(id),
            Effect::CloseSessionTab(id),
        ] + after.change_effects() + after.persist_effects());
    }
}

/// Closing what is not there does nothing.
pub proof fn closing_an_unknown_tab_does_nothing(v: ShellView, id: u64)
    requires
        place_of(v.tabs, id) >= v.tabs.len(),
    ensures
        v.closed_tab(id) == v,
        v.close_effects(id) == nothing(),
{
}

/// Selecting a tab changes which is active and, at most, that it now has a page;
/// it shows the page and is written out. The active tab with a page is selected
/// already.
pub proof fn selecting_changes_the_active_tab_alone(v: ShellView, id: u64, page_made: bool, i: int)
    requires
        v.wf(),
        place_of(v.tabs, id) < v.tabs.len(),
    ensures
        ({
            let at = place_of(v.tabs, id);
            let after = v.selected(id, page_made);
            &&& after.active == at
            &&& after.tabs.len() == v.tabs.len()
            &&& 0 <= i < v.tabs.len() && i != at ==> after.tabs[i] == v.tabs[i]
            &&& after.tabs[at] == (TabView {
                live: v.tabs[at].live || (page_made && after.tabs[at].live),
                ..v.tabs[at]
            })
            &&& !v.tabs[at].live ==> after.tabs[at].live == page_made
            &&& after == (ShellView { tabs: after.tabs, active: after.active, ..v })
            &&& at == v.active && v.tabs[at].live ==> v.select_effects(id, page_made) == nothing()
            &&& !(at == v.active && v.tabs[at].live) ==> v.select_effects(id, page_made)
                == after.change_effects() + after.persist_effects()
        }),
{
    lemma_place_of(v.tabs, id);
}

/// A tab is found by its id: at its own place, where no other tab has it.
pub proof fn tabs_are_found_by_their_id(tabs: Seq<TabView>, at: int, id: u64)
    requires
        distinct(tabs),
    ensures
        0 <= at < tabs.len() ==> place_of(tabs, tabs[at].id) == at,
        (forall|k: int| 0 <= k < tabs.len() ==> (#[trigger] tabs[k]).id != id) ==> place_of(
            tabs,
            id,
        ) == tabs.len(),
{
    lemma_place_of(tabs, id);
    if 0 <= at < tabs.len() {
        lemma_place_of(tabs, tabs[at].id);
        let p = place_of(tabs, tabs[at].id);
        if p < at {
            assert(tabs[p].id != tabs[at].id);
        }
    }
}

/// A workspace brings the session's tabs in the session's order, each with its
/// id, URL and title; the first has a page where one could be made, the others
/// have none yet. A workspace without tabs gets one at the start page.
pub proof fn workspaces_bring_their_tabs(
    v: ShellView,
    workspace: u64,
    ranked: Seq<SessionTab>,
    seed: u64,
    page_made: bool,
    i: int,
)
    ensures
        ({
            let tabs = workspace_tabs(ranked, seed, page_made);
            &&& ranked.len() > 0 ==> tabs.len() == ranked.len()
            &&& 0 <= i < ranked.len() ==> tabs[i] == (TabView {
                id: ranked[i].id,
                url: ranked[i].url@,
                title: opt_text(ranked[i].title),
                live: i == 0 && page_made,
            })
            &&& ranked.len() == 0 ==> tabs == seq![
                TabView {
                    id: seed,
                    url: "mote://chrome/newtab.html"@,
                    title: None,
                    live: page_made,
                },
            ]
            &&& v.in_workspace(workspace, tabs) == (ShellView { workspace, tabs, active: 0, ..v })
        }),
{
    let tabs = workspace_tabs(ranked, seed, page_made);
    if ranked.len() == 0 {
        assert(tabs =~= seq![
            TabView {
                id: seed,
                url: "mote://chrome/newtab.html"@,
                title: None,
                live: page_made,
            },
        ]);
    }
}

/// The session is told of the new workspace before anything else, then its first
/// page is shown and all is written out; last, the chrome is told the workspaces,
/// once it can be.
pub proof fn workspace_switches_are_told_in_order(
    v: ShellView,
    workspace: u64,
    tabs: Seq<TabView>,
)
    ensures
        ({
            let after = v.in_workspace(workspace, tabs);
            let e = v.workspace_effects(workspace, tabs);
            &&& e.len() > 0 && e[0] == Effect::<Seq<char>>::SessionWorkspace(workspace)
            &&& v.chrome_ready ==> e == seq![
                Effect::<Seq<char>>::SessionWorkspace(workspace),
            ] + after.change_effects() + after.persist_effects() + seq![
                Effect::<Seq<char>>::PushWorkspaces,
            ]
            &&& !v.chrome_ready ==> e == seq![
                Effect::<Seq<char>>::SessionWorkspace(workspace),
            ] + after.change_effects() + after.persist_effects()
        }),
{
    let after = v.in_workspace(workspace, tabs);
    let e = v.workspace_effects(workspace, tabs);
    if !v.chrome_ready {
        assert(e =~= seq![Effect::<Seq<char>>::SessionWorkspace(workspace)]
            + after.change_effects() + after.persist_effects());
    }
}

/// An idle tab loses its page, all but the active one; a tab that is not idle
/// keeps what it has.
pub proof fn idle_tabs_lose_their_pages(v: ShellView, idle: Seq<u64>, i: int)
    requires
        distinct(v.tabs),
        0 <= i < v.tabs.len(),
    ensures
        idle.contains(v.tabs[i].id) && i != v.active ==> !v.tidied(idle).tabs[i].live,
        !idle.contains(v.tabs[i].id) ==> v.tidied(idle).tabs[i] == v.tabs[i],
        v.tidied(idle) == (ShellView { tabs: v.tidied(idle).tabs, ..v }),
{
    lemma_discarded_tab(v.tabs, v.active_id(), idle, i);
    if v.has_active() && i != v.active {
        if i < v.active {
            assert(v.tabs[i].id != v.tabs[v.active].id);
        } else {
            assert(v.tabs[v.active].id != v.tabs[i].id);
        }
    }
}

proof fn lemma_discarded_tab(tabs: Seq<TabView>, keep: Option<u64>, idle: Seq<u64>, i: int)
    requires
        distinct(tabs),
        0 <= i < tabs.len(),
    ensures
        idle.contains(tabs[i].id) && keep != Some(tabs[i].id) ==> !discarded(
            tabs,
            keep,
            idle,
        ).tabs[i].live,
        !idle.contains(tabs[i].id) ==> discarded(tabs, keep, idle).tabs[i] == tabs[i],
    decreases idle.len(),
{
    discarding_keeps_the_tabs(tabs, keep, idle);
    if idle.len() > 0 {
        let front = idle.drop_last();
        let before = discarded(tabs, keep, front).tabs;
        discarding_keeps_the_tabs(tabs, keep, front);
        lemma_discarded_tab(tabs, keep, front, i);
        let id = idle.last();
        lemma_place_of(before, id);
        assert(idle =~= front.push(id));
        crate::sorted::lemma_push_member(front, id, tabs[i].id);
        assert(before[i].id == tabs[i].id);
        let at = place_of(before, id);
        if at < before.len() {
            assert(before[at].id == tabs[at].id);
            if at < i {
                assert(tabs[at].id != tabs[i].id);
            } else if i < at {
                assert(tabs[i].id != tabs[at].id);
            }
        } else if id == tabs[i].id {
            assert(before[i].id != id);
        }
    }
}

/// Each idle tab but the active one is marked in the session, and its page is
/// closed where it had one; the session is written out only where a page was
/// closed or a hidden tab removed.
pub proof fn housekeeping_tells_the_session(tabs: Seq<TabView>, keep: Option<u64>, idle: Seq<u64>, id: u64)
    ensures
        ({
            let before = discarded(tabs, keep, idle);
            let after = discarded(tabs, keep, idle.push(id));
            let at = place_of(before.tabs, id);
            &&& keep == Some(id) ==> after.effects == before.effects && after.dropped
                == before.dropped
            &&& keep != Some(id) && at < before.tabs.len() && before.tabs[at].live
                ==> after.effects == before.effects + seq![
                Effect::<Seq<char>>::DiscardSessionTab(id),
                Effect::ClosePage(id),
            ] && after.dropped == before.dropped + 1
            &&& keep != Some(id) && !(at < before.tabs.len() && before.tabs[at].live)
                ==> after.effects == before.effects + seq![
                Effect::<Seq<char>>::DiscardSessionTab(id),
            ] && after.dropped == before.dropped
        }),
        discarded(tabs, keep, Seq::empty()).effects.len() == 0,
        discarded(tabs, keep, Seq::empty()).dropped == 0,
{
    assert(idle.push(id).drop_last() =~= idle);
}

/// The session is written out by housekeeping only where something changed.
pub proof fn housekeeping_writes_out_changes(v: ShellView, idle: Seq<u64>, reaped: nat)
    ensures
        ({
            let done = discarded(v.tabs, v.active_id(), idle);
            &&& done.dropped > 0 || reaped > 0 ==> v.tidy_effects(idle, reaped) == done.effects
                + v.persist_effects()
            &&& done.dropped == 0 && reaped == 0 ==> v.tidy_effects(idle, reaped) == done.effects
        }),
{
    let done = discarded(v.tabs, v.active_id(), idle);
    if done.dropped == 0 && reaped == 0 {
        assert(v.tidy_effects(idle, reaped) =~= done.effects);
    }
}

/// A popup opens a tab at its URL: in front where the user asked for it by a
/// gesture and not for the background, and else behind.
pub proof fn popups_come_to_the_front_on_a_gesture(
    v: ShellView,
    url: Seq<char>,
    user_gesture: bool,
    background: bool,
)
    requires
        !crate::internal::mote_scheme(url),
    ensures
        user_gesture && !background ==> v.popup_effects(url, user_gesture, background) == seq![
            Effect::OpenTab { url, title: None, foreground: true },
        ],
        !user_gesture || background ==> v.popup_effects(url, user_gesture, background) == seq![
            Effect::OpenTab { url, title: None, foreground: false },
        ],
{
}

/// The last closed tab is taken from the stack as it comes back.
pub proof fn reopening_takes_the_last_closed_tab(v: ShellView)
    ensures
        v.closed.len() > 0 ==> v.reopened() == (ShellView { closed: v.closed.drop_first(), ..v }),
        v.closed.len() > 0 ==> v.reopen_effects() == seq![
            Effect::OpenTab {
                url: v.closed[0].url,
                title: v.closed[0].title,
                foreground: true,
            },
        ],
        v.closed.len() == 0 ==> v.reopened() == v && v.reopen_effects() == nothing(),
{
}

/// Each report reaches the chrome in its own form, and only where it is news and
/// the chrome can be told.
pub proof fn reports_reach_the_chrome(
    v: ShellView,
    hover: Seq<char>,
    nav: (bool, bool),
    loading: bool,
    found: (i32, i32),
)
    requires
        v.chrome_ready,
    ensures
        hover.len() > 0 && v.hover_url_last != Some(hover) ==> v.hover_effects(Some(hover))
            == seq![Effect::<Seq<char>>::PushStatusline],
        v.hover_url_last is Some ==> v.hover_effects(None) == seq![
            Effect::<Seq<char>>::PushStatusline,
        ],
        v.hover_effects(Some(Seq::empty())) == v.hover_effects(None),
        unless_empty(Some(hover)) == if hover.len() == 0 {
            None
        } else {
            Some(hover)
        },
        nav != v.nav_state_last ==> v.nav_effects(nav) == seq![
            Effect::EvalChrome(op_script("set_nav_state"@, nav_object(nav.0, nav.1))),
        ],
        loading != v.load_state_last ==> v.load_effects(loading) == seq![
            Effect::EvalChrome(op_script("set_load_state"@, load_object(loading))),
        ],
        v.find_effects(Some(found)) == seq![
            Effect::EvalChrome(
                op_script(
                    "find_count"@,
                    crate::chrome::find_object(found.0 as int, found.1 as int),
                ),
            ),
        ],
        v.find_effects(None) == nothing(),
{
}

/// The first paint makes the chrome ready: it is told the state and the status
/// line, then the plugins load, and then come the workspaces, the status line
/// again and the first dialog.
pub proof fn the_first_paint_starts_the_shell(v: ShellView)
    requires
        !v.chrome_ready,
        !v.did_initial_load,
    ensures
        v.painted(true) == (ShellView { chrome_ready: true, did_initial_load: true, ..v }),
        v.paint_effects(true) == seq![
            Effect::<Seq<char>>::PushState,
            Effect::PushStatusline,
            Effect::LoadPlugins,
            Effect::PushWorkspaces,
            Effect::PushStatusline,
            Effect::ShowNextApproval,
        ],
{
    assert(v.paint_effects(true) =~= seq![
        Effect::<Seq<char>>::PushState,
        Effect::PushStatusline,
        Effect::LoadPlugins,
        Effect::PushWorkspaces,
        Effect::PushStatusline,
        Effect::ShowNextApproval,
    ]);
}

/// Before its first paint the chrome is told nothing; one that is ready loads the
/// plugins that it has not loaded, and is not told its state again; and once both
/// are done, further paints do nothing.
pub proof fn paints_are_acted_on_once(v: ShellView, painted: bool)
    ensures
        !v.chrome_ready && !painted ==> v.paint_effects(painted) == nothing(),
        !v.chrome_ready && !painted ==> v.painted(painted) == v,
        v.chrome_ready && !v.did_initial_load ==> v.paint_effects(painted) == seq![
            Effect::<Seq<char>>::LoadPlugins,
            Effect::PushWorkspaces,
            Effect::PushStatusline,
            Effect::ShowNextApproval,
        ],
        v.chrome_ready ==> v.painted(painted) == (ShellView { did_initial_load: true, ..v }),
        v.chrome_ready && v.did_initial_load ==> v.paint_effects(painted) == nothing(),
        !v.chrome_ready && painted && v.did_initial_load ==> v.paint_effects(painted) == seq![
            Effect::<Seq<char>>::PushState,
            Effect::PushStatusline,
        ],
{
    let e = v.paint_effects(painted);
    if v.chrome_ready && !v.did_initial_load {
        assert(e =~= seq![
            Effect::<Seq<char>>::LoadPlugins,
            Effect::PushWorkspaces,
            Effect::PushStatusline,
            Effect::ShowNextApproval,
        ]);
    } else if !v.chrome_ready && painted && v.did_initial_load {
        assert(e =~= seq![Effect::<Seq<char>>::PushState, Effect::PushStatusline]);
    } else if v.chrome_ready || !painted {
        assert(e =~= nothing());
    }
}

/// The arguments behind the program's name are URLs, in order, all but the flags.
pub proof fn arguments_are_urls_unless_flags(args: Seq<Seq<char>>, arg: Seq<char>)
    requires
        args.len() > 0,
    ensures
        arg.len() > 0 && arg[0] == '-' ==> url_arguments(args.push(arg)) == url_arguments(args),
        arg.len() == 0 || arg[0] != '-' ==> url_arguments(args.push(arg)) == url_arguments(
            args,
        ).push(arg),
        url_arguments(seq![arg]).len() == 0,
{
    assert(args.push(arg).drop_last() =~= args);
}

} // verus!
