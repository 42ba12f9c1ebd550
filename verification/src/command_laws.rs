//! What each command does, and what it leaves alone, whatever the state of the
//! shell.

use crate::approval::{dialog_approval, ApprovalView, DialogResultView};
use crate::chrome::op_script;
use crate::command::{CommandView, FocusOwner, ShellCommand};
use crate::dispatch::nothing;
use crate::effect::Effect;
use crate::host::ApproveOutcome;
use crate::json::json_quoted;
use crate::omnibox::{omnibox_host, public_suffix_known, resolved};
use crate::shell::ShellView;
use vstd::prelude::*;

verus! {

/// A find looks for what it was given, in the direction and with the
/// continuation that it was given, whatever was looked for before.
pub proof fn finds_look_for_what_was_given(
    v: ShellView,
    query: Seq<char>,
    forward: bool,
    find_next: bool,
    s: Seq<char>,
)
    ensures
        v.active_live() ==> v.command_effects(
            ShellCommand::FindText { query, forward, find_next },
            s,
        ) == seq![Effect::Find { query, forward, find_next }],
        !v.active_live() ==> v.command_effects(
            ShellCommand::FindText { query, forward, find_next },
            s,
        ) == nothing(),
{
}

/// The find that goes on from another looks for the same text: forward for the
/// next match, backward for the one before. An empty text is looked for, but not
/// remembered.
pub proof fn finding_goes_on_with_the_same_text(
    v: ShellView,
    query: Seq<char>,
    forward: bool,
    find_next: bool,
    s: Seq<char>,
)
    requires
        v.active_live(),
    ensures
        ({
            let after = v.applied(ShellCommand::FindText { query, forward, find_next }, s);
            let kept = if query.len() > 0 {
                query
            } else {
                v.find_query_last
            };
            &&& after.command_effects(ShellCommand::FindNext, s) == seq![
                Effect::Find { query: kept, forward: true, find_next: true },
            ]
            &&& after.command_effects(ShellCommand::FindPrev, s) == seq![
                Effect::Find { query: kept, forward: false, find_next: true },
            ]
            &&& after.applied(ShellCommand::FindNext, s) == after
            &&& after.applied(ShellCommand::FindPrev, s) == after
        }),
        v.command_effects(ShellCommand::StopFinding, s) == seq![Effect::<Seq<char>>::StopFinding],
{
}

/// Asking for a find tells the chrome to take its text, once it can be told.
pub proof fn finding_begins_in_the_chrome(v: ShellView, s: Seq<char>)
    ensures
        v.chrome_ready ==> v.command_effects(ShellCommand::FindInPage, s) == seq![
            Effect::EvalChrome(op_script("focus_find"@, "null"@)),
        ],
        !v.chrome_ready ==> v.command_effects(ShellCommand::FindInPage, s) == nothing(),
{
}

/// The commands for the active page, and the items of its context menu, each do
/// their one thing to a page, and nothing without one.
pub proof fn page_commands_act_on_the_active_page(v: ShellView, s: Seq<char>)
    ensures
        v.active_live() ==> {
            &&& v.command_effects(ShellCommand::NavGoBack, s) == seq![Effect::<Seq<char>>::GoBack]
            &&& v.command_effects(ShellCommand::NavGoForward, s) == seq![
                Effect::<Seq<char>>::GoForward,
            ]
            &&& v.command_effects(ShellCommand::NavReload, s) == seq![Effect::<Seq<char>>::Reload]
            &&& v.command_effects(ShellCommand::NavStop, s) == seq![Effect::<Seq<char>>::StopLoad]
        },
        !v.active_live() ==> {
            &&& v.command_effects(ShellCommand::NavGoBack, s) == nothing()
            &&& v.command_effects(ShellCommand::NavGoForward, s) == nothing()
            &&& v.command_effects(ShellCommand::NavReload, s) == nothing()
            &&& v.command_effects(ShellCommand::NavStop, s) == nothing()
            &&& v.command_effects(ShellCommand::StopFinding, s) == nothing()
            &&& v.command_effects(ShellCommand::FindNext, s) == nothing()
            &&& v.command_effects(ShellCommand::FindPrev, s) == nothing()
        },
        v.command_effects(ShellCommand::ZoomIn, s) == seq![Effect::<Seq<char>>::ZoomIn],
        v.command_effects(ShellCommand::ZoomOut, s) == seq![Effect::<Seq<char>>::ZoomOut],
        v.command_effects(ShellCommand::ZoomReset, s) == seq![Effect::<Seq<char>>::ZoomReset],
{
}

/// An item of the context menu that moves the page does what the command for it
/// does; an editing item reaches the page under its own name, and any other item
/// is left to the chrome.
pub proof fn menu_items_do_what_their_commands_do(v: ShellView, action: Seq<char>, s: Seq<char>)
    ensures
        ({
            let e = v.command_effects(ShellCommand::ContextMenuAction(action), s);
            &&& action == "reload"@ ==> e == v.command_effects(ShellCommand::NavReload, s)
            &&& action == "go_back"@ ==> e == v.command_effects(ShellCommand::NavGoBack, s)
            &&& action == "go_forward"@ ==> e == v.command_effects(ShellCommand::NavGoForward, s)
            &&& (action == "cut"@ || action == "copy"@ || action == "paste"@ || action
                == "select_all"@ || action == "undo"@ || action == "redo"@) && v.active_live()
                ==> e == seq![Effect::EditCommand(action)]
            &&& !v.active_live() ==> e == nothing()
            &&& action != "reload"@ && action != "go_back"@ && action != "go_forward"@ && action
                != "cut"@ && action != "copy"@ && action != "paste"@ && action != "select_all"@
                && action != "undo"@ && action != "redo"@ ==> e == nothing()
        }),
{
    lemma_menu_names();
}

proof fn lemma_menu_names()
    ensures
        "reload"@.len() == 6 && "go_back"@.len() == 7 && "go_forward"@.len() == 10,
        "cut"@.len() == 3 && "copy"@.len() == 4 && "undo"@.len() == 4 && "redo"@.len() == 4,
        "paste"@.len() == 5 && "select_all"@.len() == 10,
        "go_forward"@[0] == 'g' && "select_all"@[0] == 's',
{
    reveal_strlit("reload");
    reveal_strlit("go_back");
    reveal_strlit("go_forward");
    reveal_strlit("cut");
    reveal_strlit("copy");
    reveal_strlit("paste");
    reveal_strlit("select_all");
    reveal_strlit("undo");
    reveal_strlit("redo");
}

/// A text that is submitted goes where it resolves to under the template that
/// the shell has then: the one of the engine that was chosen last.
pub proof fn submissions_use_the_engine_that_was_chosen(
    v: ShellView,
    text: Seq<char>,
    name: Seq<char>,
    url_template: Seq<char>,
    s: Seq<char>,
)
    ensures
        v.submission(ShellCommand::OmniboxSubmit(text)) == resolved(
            text,
            v.search_url_template,
            public_suffix_known(omnibox_host(text)),
        ),
        ({
            let after = v.applied(ShellCommand::SetSearchEngine { name, url_template }, s);
            after.submission(ShellCommand::OmniboxSubmit(text)) == resolved(
                text,
                url_template,
                public_suffix_known(omnibox_host(text)),
            )
        }),
        v.command_effects(ShellCommand::SetSearchEngine { name, url_template }, s) == nothing(),
{
}

/// A submission is a navigation to what it resolved to, and where it resolved to
/// nothing, it is nothing.
pub proof fn submissions_navigate(v: ShellView, text: Seq<char>, url: Seq<char>)
    ensures
        url.len() > 0 ==> v.applied(ShellCommand::OmniboxSubmit(text), url) == v.applied(
            ShellCommand::Navigate(url),
            url,
        ),
        url.len() > 0 ==> v.command_effects(ShellCommand::OmniboxSubmit(text), url)
            == v.command_effects(ShellCommand::Navigate(url), url),
        url.len() == 0 ==> v.applied(ShellCommand::OmniboxSubmit(text), url) == v,
        url.len() == 0 ==> v.command_effects(ShellCommand::OmniboxSubmit(text), url) == nothing(),
{
}

/// A new tab opens in front, at the URL that was given or else at the start
/// page; selecting a tab asks for that tab.
pub proof fn tab_commands_ask_for_their_tab(v: ShellView, url: Seq<char>, id: u64, s: Seq<char>)
    ensures
        v.command_effects(ShellCommand::NewTab(Some(url)), s) == seq![
            Effect::OpenTab { url, title: None, foreground: true },
        ],
        v.command_effects(ShellCommand::NewTab(None), s) == seq![
            Effect::OpenTab {
                url: "mote://chrome/newtab.html"@,
                title: None,
                foreground: true,
            },
        ],
        v.command_effects(ShellCommand::SelectTab(id), s) == seq![
            Effect::<Seq<char>>::SelectTab(id),
        ],
        v.has_active() ==> v.command_effects(ShellCommand::CopyActiveUrl, s) == seq![
            Effect::CopyText(v.tabs[v.active].url),
        ],
        !v.has_active() ==> v.command_effects(ShellCommand::CopyActiveUrl, s) == nothing(),
{
}

/// The panels of the sidebar are each filled with what they show; the tabs with
/// the state, once the chrome can be told. Unknown panels are ignored.
pub proof fn panels_are_filled(v: ShellView, name: Seq<char>, s: Seq<char>)
    ensures
        ({
            let e = v.command_effects(ShellCommand::SetActivePanel(name), s);
            &&& name == "bookmarks"@ ==> e == seq![Effect::<Seq<char>>::PushBookmarks]
            &&& name == "history"@ ==> e == seq![Effect::<Seq<char>>::PushHistory]
            &&& name == "tabs"@ && v.chrome_ready ==> e == seq![Effect::<Seq<char>>::PushState]
            &&& name == "tabs"@ && !v.chrome_ready ==> e == nothing()
            &&& name != "bookmarks"@ && name != "history"@ && name != "tabs"@ ==> e == nothing()
        }),
{
    reveal_strlit("bookmarks");
    reveal_strlit("history");
    reveal_strlit("tabs");
    assert("bookmarks"@.len() == 9 && "history"@.len() == 7 && "tabs"@.len() == 4);
}

/// A bookmark is toggled for the active tab, by its URL and title, and removed by
/// the URL that was given; then both the star and the list are shown anew.
pub proof fn bookmark_commands_show_the_change(v: ShellView, url: Seq<char>, s: Seq<char>)
    ensures
        v.has_active() && v.chrome_ready ==> v.command_effects(ShellCommand::BookmarkToggle, s)
            == seq![
            Effect::ToggleBookmark { url: v.tabs[v.active].url, title: v.tabs[v.active].title },
            Effect::PushState,
            Effect::PushBookmarks,
        ],
        v.has_active() && !v.chrome_ready ==> v.command_effects(ShellCommand::BookmarkToggle, s)
            == seq![
            Effect::ToggleBookmark { url: v.tabs[v.active].url, title: v.tabs[v.active].title },
            Effect::PushBookmarks,
        ],
        !v.has_active() ==> v.command_effects(ShellCommand::BookmarkToggle, s) == nothing(),
        v.chrome_ready ==> v.command_effects(ShellCommand::BookmarkRemove(url), s) == seq![
            Effect::RemoveBookmark(url),
            Effect::PushBookmarks,
            Effect::PushState,
        ],
        !v.chrome_ready ==> v.command_effects(ShellCommand::BookmarkRemove(url), s) == seq![
            Effect::RemoveBookmark(url),
            Effect::PushBookmarks,
        ],
{
    let toggled = v.command_effects(ShellCommand::BookmarkToggle, s);
    let removed = v.command_effects(ShellCommand::BookmarkRemove(url), s);
    if v.has_active() {
        let first = Effect::ToggleBookmark {
            url: v.tabs[v.active].url,
            title: v.tabs[v.active].title,
        };
        if v.chrome_ready {
            assert(toggled =~= seq![first, Effect::PushState, Effect::PushBookmarks]);
        } else {
            assert(toggled =~= seq![first, Effect::PushBookmarks]);
        }
    }
    if v.chrome_ready {
        assert(removed =~= seq![
            Effect::RemoveBookmark(url),
            Effect::PushBookmarks,
            Effect::PushState,
        ]);
    } else {
        assert(removed =~= seq![Effect::RemoveBookmark(url), Effect::PushBookmarks]);
    }
}

/// What is asked of plugins and workspaces goes out under the name that was
/// given.
pub proof fn plugin_commands_go_out_by_name(v: ShellView, t: Seq<char>, name: Seq<char>, s: Seq<char>)
    ensures
        v.command_effects(ShellCommand::PluginUpdate(t), s) == seq![Effect::UpdatePlugin(t)],
        v.command_effects(ShellCommand::PluginRollback(t), s) == seq![Effect::RollbackPlugin(t)],
        v.command_effects(ShellCommand::PluginReload(t), s) == seq![Effect::ReloadPlugin(t)],
        v.command_effects(ShellCommand::PluginRevoke(t), s) == seq![Effect::RevokePlugin(t)],
        v.command_effects(ShellCommand::PluginAdjustScope(t), s) == seq![Effect::AdjustScope(t)],
        v.command_effects(ShellCommand::PluginRevokeSecret { plugin: t, name }, s) == seq![
            Effect::RevokeSecret { plugin: t, name },
        ],
        v.command_effects(ShellCommand::UrlbarQuery(t), s) == seq![Effect::QuerySuggestions(t)],
        v.command_effects(ShellCommand::SwitchWorkspace(t), s) == seq![Effect::SwitchWorkspace(t)],
        v.command_effects(ShellCommand::SetTheme(t), s) == seq![
            Effect::EvalChrome(
                "document.querySelector('.mote-root')?.setAttribute('data-theme', "@
                    + json_quoted(t) + ");"@,
            ),
        ],
{
}

/// The focus goes to whom the command names: the one who had it is told that it
/// is gone, and then the new owner that it has it. Whoever has it already is
/// told nothing.
pub proof fn one_owner_has_the_focus(v: ShellView, owner: FocusOwner, s: Seq<char>)
    ensures
        v.applied(ShellCommand::FocusOwner(owner), s) == (ShellView { focus: owner, ..v }),
        owner == v.focus ==> v.command_effects(ShellCommand::FocusOwner(owner), s) == nothing(),
        owner != v.focus && v.active_live() ==> v.command_effects(
            ShellCommand::FocusOwner(owner),
            s,
        ) == match owner {
            FocusOwner::Chrome => seq![
                Effect::<Seq<char>>::FocusActivePage(false),
                Effect::FocusChrome(true),
            ],
            FocusOwner::Page => seq![
                Effect::<Seq<char>>::FocusChrome(false),
                Effect::FocusActivePage(true),
            ],
        },
        owner != v.focus && !v.active_live() ==> v.command_effects(
            ShellCommand::FocusOwner(owner),
            s,
        ) == seq![Effect::<Seq<char>>::FocusChrome(owner == FocusOwner::Chrome)],
{
    let e = v.command_effects(ShellCommand::FocusOwner(owner), s);
    if owner != v.focus {
        if v.active_live() {
            match owner {
                FocusOwner::Chrome => {
                    assert(e =~= seq![
                        Effect::<Seq<char>>::FocusActivePage(false),
                        Effect::FocusChrome(true),
                    ]);
                },
                FocusOwner::Page => {
                    assert(e =~= seq![
                        Effect::<Seq<char>>::FocusChrome(false),
                        Effect::FocusActivePage(true),
                    ]);
                },
            }
        } else {
            assert(e =~= seq![Effect::<Seq<char>>::FocusChrome(owner == FocusOwner::Chrome)]);
        }
    }
}

/// Each part of the shell is changed by the commands that are about it and by no
/// other.
pub proof fn commands_leave_the_rest_alone(v: ShellView, c: CommandView, s: Seq<char>)
    ensures
        ({
            let after = v.applied(c, s);
            &&& after.workspace == v.workspace
            &&& after.chrome_ready == v.chrome_ready
            &&& after.did_initial_load == v.did_initial_load
            &&& after.integrity_open == v.integrity_open
            &&& after.integrity_chrome_open == v.integrity_chrome_open
            &&& after.picker == v.picker
            &&& after.hover_url_last == v.hover_url_last
            &&& after.nav_state_last == v.nav_state_last
            &&& after.load_state_last == v.load_state_last
            &&& !(c is FocusOwner) ==> after.focus == v.focus
            &&& !(c is CloseWindow) ==> after.should_exit == v.should_exit
            &&& c is CloseWindow ==> after == (ShellView { should_exit: true, ..v })
            &&& !(c is SetSearchEngine) ==> after.search_url_template == v.search_url_template
            &&& !(c is FindText) ==> after.find_query_last == v.find_query_last
            &&& !(c is CloseTab) && !(c is ReopenClosedTab) ==> after.closed == v.closed
            &&& !(c is CloseTab) ==> after.active == v.active
            &&& !(c is CloseTab) && !(c is Navigate) && !(c is OmniboxSubmit) ==> after.tabs
                == v.tabs
        }),
        c is SetHwAccel || c is SetZoomPersist || c is PluginDisable || c is PluginUninstall || c
            is PluginInstallPicker || c is IntegrityReverifyAll || c is IntegrityPluginDetail || c
            is CloseWindow ==> v.command_effects(c, s) == nothing(),
{
}

/// An answer that settled a dialog hides it, shows the panel again where it is
/// open, and goes on to the next dialog; a denial is put on record before that,
/// with its reason. An answer that settled nothing does nothing.
pub proof fn settled_answers_go_on_to_the_next(
    v: ShellView,
    result: DialogResultView,
    reason: Seq<char>,
)
    requires
        v.chrome_ready,
    ensures
        v.integrity_chrome_open ==> v.approval_effects(result, ApproveOutcome::Loaded) == seq![
            Effect::EvalChrome(op_script("hide_approval_dialog"@, "null"@)),
            Effect::ShowIntegrity,
            Effect::ShowNextApproval,
        ],
        !v.integrity_chrome_open ==> v.approval_effects(result, ApproveOutcome::Loaded) == seq![
            Effect::EvalChrome(op_script("hide_approval_dialog"@, "null"@)),
            Effect::ShowNextApproval,
        ],
        dialog_approval(result) == ApprovalView::Deny(reason) ==> v.approval_effects(
            result,
            ApproveOutcome::Denied,
        ) == seq![Effect::AuditDenial { plugin: result.plugin, reason }] + v.approval_effects(
            result,
            ApproveOutcome::Loaded,
        ),
        v.approval_effects(result, ApproveOutcome::LoadFailed) == nothing(),
        v.approval_effects(result, ApproveOutcome::NotPending) == nothing(),
{
    let e = v.approval_effects(result, ApproveOutcome::Loaded);
    if v.integrity_chrome_open {
        assert(e =~= seq![
            Effect::EvalChrome(op_script("hide_approval_dialog"@, "null"@)),
            Effect::ShowIntegrity,
            Effect::ShowNextApproval,
        ]);
    } else {
        assert(e =~= seq![
            Effect::EvalChrome(op_script("hide_approval_dialog"@, "null"@)),
            Effect::ShowNextApproval,
        ]);
    }
    assert(nothing() + e =~= e);
    assert(v.approval_effects(result, ApproveOutcome::LoadFailed) =~= nothing());
    assert(v.approval_effects(result, ApproveOutcome::NotPending) =~= nothing());
}

/// Before the chrome is ready there is no dialog to hide, but the next one is still
/// asked for.
pub proof fn answers_settle_before_the_chrome_is_ready(v: ShellView, result: DialogResultView)
    requires
        !v.chrome_ready,
        !v.integrity_chrome_open,
    ensures
        v.approval_effects(result, ApproveOutcome::Loaded) == seq![
            Effect::<Seq<char>>::ShowNextApproval,
        ],
{
    assert(v.approval_effects(result, ApproveOutcome::Loaded) =~= seq![
        Effect::<Seq<char>>::ShowNextApproval,
    ]);
}

} // verus!
