use mote_shell::approval::{DialogPermission, DialogResult};
use mote_shell::chrome::{ContextMenuKind, ContextMenuRequest};
use mote_shell::closed_tabs::{ClosedTab, ClosedTabStack, CLOSED_TAB_STACK_CAP};
use mote_shell::command::{drain, push, CommandQueue, FocusOwner, ShellCommand};
use mote_shell::effect::Effect;
use mote_shell::host::ApproveOutcome;
use mote_shell::keybinds::{Key, Modifiers, NamedKey};
use mote_shell::picker::{PickerEntry, SessionTab, TabState};
use mote_shell::providers::{BookmarkRow, Reply};
use mote_shell::shell::{
    cli_urls, rebuild_tabs, seed_urls, seeded_tabs, KeyTarget, Shell, ShellTab,
};
use mote_shell::status::{StatusElement, Surface};
use mote_shell::url_analysis::url_cleaner;
use std::collections::VecDeque;

const START: &str = "mote://chrome/newtab.html";

fn tab(id: u64, url: &str, live: bool) -> ShellTab {
    ShellTab { id, url: url.to_owned(), title: None, live }
}

fn titled(id: u64, title: &str) -> ShellTab {
    ShellTab {
        id,
        url: format!("https://{id}.test/"),
        title: Some(title.to_owned()),
        live: true,
    }
}

fn shell_of(tabs: Vec<ShellTab>) -> Shell {
    let mut shell = Shell::new(tabs, 0);
    shell.chrome_painted(true);
    shell
}

fn unpainted(count: u64) -> Shell {
    let tabs = (1..=count).map(|id| tab(id, &format!("https://{id}.test/"), true)).collect();
    Shell::new(tabs, 0)
}

fn shell(count: u64) -> Shell {
    let mut shell = unpainted(count);
    shell.chrome_painted(true);
    shell
}

fn names(effects: &[Effect<String>]) -> Vec<String> {
    effects.iter().map(|e| format!("{e:?}")).collect()
}

fn ids(shell: &Shell) -> Vec<u64> {
    shell.tabs().iter().map(|t| t.id).collect()
}

fn session_tab(id: u64, url: &str) -> SessionTab {
    SessionTab {
        id,
        url: url.to_owned(),
        title: Some(format!("tab {id}")),
        state: TabState::Active,
        is_discarded: false,
        hold: false,
        is_pinned: false,
    }
}

fn ctrl() -> Modifiers {
    Modifiers { control: true, ..Modifiers::none() }
}

fn ctrl_shift() -> Modifiers {
    Modifiers { control: true, shift: true, ..Modifiers::none() }
}

fn letter(c: &str) -> Key {
    Key::Character(c.to_owned())
}

#[test]
fn p5_closed_tab_stack_evicts_oldest_at_cap() {
    let mut stack = ClosedTabStack::new();
    for i in 0..=25 {
        stack.push(ClosedTab {
            url: format!("https://example.com/{i}"),
            title: None,
        });
    }
    assert_eq!(
        stack.inner.len(),
        CLOSED_TAB_STACK_CAP,
        "stack must be capped at {CLOSED_TAB_STACK_CAP}"
    );
    let top = stack.pop().unwrap();
    assert_eq!(
        top.url, "https://example.com/25",
        "pop must return the most recently pushed entry (LIFO)"
    );
    assert!(
        !stack.inner.iter().any(|t| t.url == "https://example.com/0"),
        "oldest entry must be evicted when stack exceeds cap"
    );
}

#[test]
fn p5_closed_tab_stack_empty_pop_returns_none() {
    let mut stack = ClosedTabStack::new();
    assert!(stack.pop().is_none(), "empty stack pop must return None");
}

#[test]
fn p5_closed_tab_stack_pop_returns_most_recent() {
    let mut stack = ClosedTabStack::new();
    stack.push(ClosedTab {
        url: "https://first.example.com".to_owned(),
        title: None,
    });
    stack.push(ClosedTab {
        url: "https://second.example.com".to_owned(),
        title: Some("Second".to_owned()),
    });
    let top = stack.pop().unwrap();
    assert_eq!(
        top.url, "https://second.example.com",
        "pop must return the last-pushed (most recent) entry"
    );
    assert_eq!(
        top.title.as_deref(),
        Some("Second"),
        "title must survive the stack round-trip"
    );
    assert_eq!(stack.inner.len(), 1, "one entry must remain after one pop");
}

#[test]
fn r2_sync_active_url_predicate_skips_on_matching_url() {
    let mut shell = shell_of(vec![tab(1, "https://example.com/page", true)]);
    let effects = shell.sync_active_url(Some("https://example.com/page".to_string()));
    assert!(effects.is_empty(), "equal URLs must not trigger a state update");
}

#[test]
fn r2_sync_active_url_predicate_fires_on_changed_url() {
    let mut shell = shell_of(vec![tab(1, "https://example.com/", true)]);
    shell.sync_active_title(Some("old".to_owned()));
    let effects = shell.sync_active_url(Some("https://example.com/results?q=test".to_string()));
    assert_eq!(
        names(&effects),
        vec![
            "SessionUrl { id: 1, url: \"https://example.com/results?q=test\" }",
            "PushState",
        ],
        "a differing URL must trigger a state update"
    );
    assert_eq!(shell.tabs()[0].url, "https://example.com/results?q=test");
    assert_eq!(shell.tabs()[0].title, None);
}

#[test]
fn r2_sync_active_title_predicate_skips_duplicate_title() {
    let mut shell = shell_of(vec![titled(1, "Example Domain")]);
    assert!(
        shell.sync_active_title(Some("Example Domain".to_string())).is_empty(),
        "duplicate title must not trigger a window-title update"
    );
}

#[test]
fn r2_sync_active_title_predicate_fires_on_changed_title() {
    let mut shell = shell_of(vec![titled(1, "Loading…")]);
    assert_eq!(
        names(&shell.sync_active_title(Some("Example Domain".to_string()))),
        vec![
            "SessionTitle { id: 1, title: \"Example Domain\" }",
            "WindowTitle(\"Example Domain\")",
            "HistoryTitle { url: \"https://1.test/\", title: \"Example Domain\" }",
            "PushState",
        ],
        "a new page title must trigger a window-title + sidebar update"
    );
}

#[test]
fn r2_sync_active_title_predicate_fires_when_no_cached_title() {
    let mut shell = shell(1);
    assert!(
        !shell.sync_active_title(Some("First Title".to_string())).is_empty(),
        "a tab with no cached title must accept the first live title"
    );
    assert_eq!(shell.tabs()[0].title.as_deref(), Some("First Title"));
    assert!(shell.sync_active_title(None).is_empty());
}

#[test]
fn cl_loading_load_state_last_dedup_transitions() {
    let mut shell = shell(1);
    let mut push_count: usize = 0;

    push_count += shell.sync_load_state(false).len();
    assert_eq!(push_count, 0, "false→false: no push expected");
    assert!(!shell.load_state_last(), "cache must remain false");

    push_count += shell.sync_load_state(true).len();
    assert_eq!(push_count, 1, "false→true: exactly one push expected");
    assert!(shell.load_state_last(), "cache must update to true");

    push_count += shell.sync_load_state(true).len();
    assert_eq!(push_count, 1, "true→true: no extra push expected");
    assert!(shell.load_state_last(), "cache must remain true");

    push_count += shell.sync_load_state(false).len();
    assert_eq!(
        push_count, 2,
        "true→false: exactly two total pushes expected"
    );
    assert!(!shell.load_state_last(), "cache must update to false");
}

#[test]
fn r3_gesture_popup_round_trips_as_foreground() {
    let effects =
        shell(1).open_popup_tab("https://news.ycombinator.com/item?id=42", true, false);
    assert_eq!(
        names(&effects),
        vec![
            "OpenTab { url: \"https://news.ycombinator.com/item?id=42\", title: None, \
             foreground: true }"
        ]
    );
}

#[test]
fn r3_non_gesture_popup_round_trips_as_background() {
    let effects = shell(1).open_popup_tab("https://ad.example.com", false, false);
    assert_eq!(
        names(&effects),
        vec!["OpenTab { url: \"https://ad.example.com\", title: None, foreground: false }"]
    );
    let asked = shell(1).open_popup_tab("https://ad.example.com", true, true);
    assert!(names(&asked)[0].ends_with("foreground: false }"));
    assert!(shell(1).open_popup_tab("MOTE://chrome/x", true, false).is_empty());
}

#[test]
fn load_state_is_not_kept_before_the_chrome_is_ready() {
    let mut shell = Shell::new(vec![tab(1, "https://a.test/", true)], 0);
    assert!(shell.sync_load_state(true).is_empty());
    assert!(!shell.load_state_last());
    assert!(shell.sync_nav_state(true, false).is_empty());
    assert_eq!(shell.nav_state_last(), (true, false));
    shell.chrome_painted(true);
    assert_eq!(shell.sync_load_state(true).len(), 1);
    assert!(shell.sync_nav_state(true, false).is_empty());
    assert_eq!(shell.sync_nav_state(false, false).len(), 1);
}

#[test]
fn navigation_replaces_url_and_title() {
    let mut shell = shell_of(vec![titled(1, "old"), tab(2, "https://2.test/", true)]);
    let effects = shell.navigate_active("https://new.test/");
    assert_eq!(
        names(&effects),
        vec![
            "LoadUrl(\"https://new.test/\")",
            "SessionUrl { id: 1, url: \"https://new.test/\" }",
            "RecordVisit(\"https://new.test/\")",
            "FlushSession",
            "PushState",
        ]
    );
    assert_eq!(shell.tabs()[0].url, "https://new.test/");
    assert_eq!(shell.tabs()[0].title, None);
    let mut dark = Shell::new(vec![tab(1, "https://1.test/", false)], 0);
    assert_eq!(names(&dark.navigate_active("x")).len(), 3);
    assert!(self::shell(0).navigate_active("y").is_empty());
}

#[test]
fn opened_tabs_go_to_the_end() {
    let mut shell = shell(2);
    let front = shell.tab_opened(tab(9, "https://9.test/", true), true);
    assert_eq!(
        names(&front),
        vec![
            "SizeActivePage",
            "RedrawContent",
            "FocusActivePage(true)",
            "FlushSession",
            "PushState",
        ]
    );
    assert_eq!(shell.active(), 2);
    let back = shell.tab_opened(tab(10, "https://10.test/", false), false);
    assert_eq!(names(&back), vec!["FlushSession", "PushState"]);
    assert_eq!(shell.active(), 2);
    assert_eq!(ids(&shell), vec![1, 2, 9, 10]);
}

#[test]
fn closing_moves_the_active_place() {
    let mut shell = shell(4);
    shell.select_tab(3, false);
    let effects = shell.close_tab(1);
    assert_eq!(names(&effects)[..2], ["ClosePage(1)", "CloseSessionTab(1)"]);
    assert_eq!((ids(&shell), shell.active()), (vec![2, 3, 4], 1));
    shell.close_tab(4);
    assert_eq!((ids(&shell), shell.active()), (vec![2, 3], 1));
    shell.close_tab(3);
    assert_eq!((ids(&shell), shell.active()), (vec![2], 0));
    assert!(shell.close_tab(77).is_empty());
    let last = shell.close_tab(2);
    assert_eq!(
        names(&last),
        vec![
            "ClosePage(2)".to_owned(),
            "CloseSessionTab(2)".to_owned(),
            format!("OpenTab {{ url: {START:?}, title: None, foreground: true }}"),
        ]
    );
    assert!(shell.tabs().is_empty());
    shell.tab_opened(tab(5, START, true), true);
    assert_eq!(shell.active(), 0);
}

#[test]
fn the_first_tab_gives_way_to_the_second() {
    let mut shell = shell(3);
    shell.close_tab(1);
    assert_eq!((ids(&shell), shell.active()), (vec![2, 3], 0));
}

#[test]
fn closed_tabs_come_back_with_url_and_title() {
    let third = tab(3, "https://3.test/", true);
    let mut shell = shell_of(vec![titled(1, "One"), titled(2, "Two"), third]);
    shell.close_tab(2);
    shell.close_tab(3);
    assert_eq!(
        names(&shell.reopen_closed_tab()),
        vec!["OpenTab { url: \"https://3.test/\", title: None, foreground: true }"]
    );
    assert_eq!(
        names(&shell.apply(ShellCommand::ReopenClosedTab)),
        vec!["OpenTab { url: \"https://2.test/\", title: Some(\"Two\"), foreground: true }"]
    );
    assert!(shell.reopen_closed_tab().is_empty());
}

#[test]
fn selecting_makes_pages_for_placeholders() {
    let mut shell =
        shell_of(vec![tab(1, "https://1.test/", true), tab(2, "https://2.test/", false)]);
    assert_eq!(shell.page_needed(1), None);
    assert_eq!(shell.page_needed(2).as_deref(), Some("https://2.test/"));
    assert_eq!(shell.page_needed(3), None);
    assert!(shell.select_tab(1, false).is_empty());
    assert!(shell.select_tab(3, true).is_empty());
    let failed = shell.select_tab(2, false);
    assert_eq!(names(&failed), vec!["RedrawContent", "FlushSession", "PushState"]);
    assert_eq!(shell.active(), 1);
    assert!(!shell.tabs()[1].live);
    let made = shell.select_tab(2, true);
    assert_eq!(made.len(), 5);
    assert!(shell.tabs()[1].live);
}

#[test]
fn cycling_wraps_around() {
    let mut shell = shell(3);
    assert_eq!(shell.next_tab(), Some(2));
    shell.select_tab(3, false);
    assert_eq!(shell.next_tab(), Some(1));
    let mut queue: CommandQueue = VecDeque::new();
    let out = shell.intercept_keybind(&mut queue, true, ctrl(), &Key::Named(NamedKey::Tab));
    assert!(out.consumed);
    assert_eq!(names(&out.effects), vec!["SelectTab(1)"]);
    let mut one = self::shell(1);
    assert_eq!(one.next_tab(), None);
    let out = one.intercept_keybind(&mut queue, true, ctrl(), &Key::Named(NamedKey::Tab));
    assert!(out.consumed && out.effects.is_empty());
}

#[test]
fn one_browser_has_the_focus() {
    let mut shell = shell(1);
    assert!(shell.set_focus_owner(FocusOwner::Page).is_empty());
    assert_eq!(
        names(&shell.set_focus_owner(FocusOwner::Chrome)),
        vec!["FocusActivePage(false)", "FocusChrome(true)"]
    );
    assert_eq!(shell.key_target(), KeyTarget::Chrome);
    assert_eq!(
        names(&shell.apply(ShellCommand::FocusOwner(FocusOwner::Page))),
        vec!["FocusChrome(false)", "FocusActivePage(true)"]
    );
    assert_eq!(shell.key_target(), KeyTarget::Page);
    let mut dark = shell_of(vec![tab(1, "https://1.test/", false)]);
    assert_eq!(dark.key_target(), KeyTarget::Nobody);
    assert_eq!(names(&dark.set_focus_owner(FocusOwner::Chrome)), vec!["FocusChrome(true)"]);
}

#[test]
fn the_hovered_link_is_told_once() {
    let mut shell = shell(1);
    assert_eq!(
        names(&shell.sync_hover_url(Some("https://a.test/".to_owned()))),
        vec!["PushStatusline"]
    );
    assert!(shell.sync_hover_url(Some("https://a.test/".to_owned())).is_empty());
    assert_eq!(shell.sync_hover_url(Some(String::new())).len(), 1);
    assert_eq!(*shell.hover_url_last(), None);
    assert!(shell.sync_hover_url(None).is_empty());
}

#[test]
fn find_results_wait_for_the_chrome() {
    let shell = shell(1);
    assert_eq!(shell.sync_find_result(Some((1, 4))).len(), 1);
    assert!(shell.sync_find_result(None).is_empty());
    assert!(unpainted(1).sync_find_result(Some((1, 4))).is_empty());
}

#[test]
fn a_workspace_brings_its_tabs() {
    let mut shell = shell(2);
    shell.select_tab(2, false);
    let ranked = vec![session_tab(7, "https://7.test/"), session_tab(8, "https://8.test/")];
    let effects = shell.switch_workspace(3, &ranked, 0, true);
    assert_eq!(
        names(&effects),
        vec![
            "SessionWorkspace(3)",
            "SizeActivePage",
            "RedrawContent",
            "FocusActivePage(true)",
            "FlushSession",
            "PushState",
            "PushWorkspaces",
        ]
    );
    assert_eq!((ids(&shell), shell.active(), shell.workspace()), (vec![7, 8], 0, 3));
    assert!(shell.tabs()[0].live && !shell.tabs()[1].live);
    assert_eq!(shell.tabs()[1].title.as_deref(), Some("tab 8"));
    let seeded = rebuild_tabs(&vec![], 12, false);
    assert_eq!(seeded.len(), 1);
    assert_eq!((seeded[0].id, seeded[0].url.as_str(), seeded[0].live), (12, START, false));
}

#[test]
fn idle_tabs_lose_their_pages() {
    let mut shell = shell(3);
    let effects = shell.housekeep(&vec![2, 9, 2, 3], 0);
    assert_eq!(
        names(&effects),
        vec![
            "DiscardSessionTab(2)",
            "ClosePage(2)",
            "DiscardSessionTab(9)",
            "DiscardSessionTab(2)",
            "DiscardSessionTab(3)",
            "ClosePage(3)",
            "FlushSession",
            "PushState",
        ]
    );
    let live: Vec<bool> = shell.tabs().iter().map(|t| t.live).collect();
    assert_eq!(live, vec![true, false, false]);
    assert_eq!(names(&shell.housekeep(&vec![2], 0)), vec!["DiscardSessionTab(2)"]);
    assert_eq!(names(&shell.housekeep(&vec![], 1)), vec!["FlushSession", "PushState"]);
}

#[test]
fn the_active_tab_keeps_its_page() {
    let mut shell = shell(2);
    assert!(shell.housekeep(&vec![1], 0).is_empty());
    assert!(shell.tabs()[0].live);
    shell.select_tab(2, false);
    assert_eq!(shell.housekeep(&vec![1, 2], 0).len(), 4);
    assert!(!shell.tabs()[0].live && shell.tabs()[1].live);
}

#[test]
fn the_chrome_is_told_and_plugins_loaded_once() {
    let mut shell = Shell::new(vec![tab(1, START, true)], 0);
    assert!(shell.chrome_painted(false).is_empty());
    assert_eq!(
        names(&shell.chrome_painted(true)),
        vec![
            "PushState",
            "PushStatusline",
            "LoadPlugins",
            "PushWorkspaces",
            "PushStatusline",
            "ShowNextApproval",
        ]
    );
    assert!(shell.chrome_painted(true).is_empty());
}

#[test]
fn commands_reach_the_active_page() {
    let mut shell = shell(1);
    let cases: Vec<(ShellCommand<String>, Vec<&str>)> = vec![
        (ShellCommand::NavGoBack, vec!["GoBack"]),
        (ShellCommand::NavGoForward, vec!["GoForward"]),
        (ShellCommand::NavReload, vec!["Reload"]),
        (ShellCommand::NavStop, vec!["StopLoad"]),
        (ShellCommand::StopFinding, vec!["StopFinding"]),
        (ShellCommand::ZoomIn, vec!["ZoomIn"]),
        (ShellCommand::ZoomOut, vec!["ZoomOut"]),
        (ShellCommand::ZoomReset, vec!["ZoomReset"]),
        (ShellCommand::SelectTab(4), vec!["SelectTab(4)"]),
        (ShellCommand::CopyActiveUrl, vec!["CopyText(\"https://1.test/\")"]),
        (ShellCommand::SetActivePanel("bookmarks".into()), vec!["PushBookmarks"]),
        (ShellCommand::SetActivePanel("history".into()), vec!["PushHistory"]),
        (ShellCommand::SetActivePanel("tabs".into()), vec!["PushState"]),
        (ShellCommand::SetActivePanel("other".into()), vec![]),
        (ShellCommand::PluginUpdate("p".into()), vec!["UpdatePlugin(\"p\")"]),
        (ShellCommand::PluginRollback("p".into()), vec!["RollbackPlugin(\"p\")"]),
        (ShellCommand::PluginReload("p".into()), vec!["ReloadPlugin(\"p\")"]),
        (ShellCommand::PluginRevoke("p".into()), vec!["RevokePlugin(\"p\")"]),
        (ShellCommand::PluginAdjustScope("p".into()), vec!["AdjustScope(\"p\")"]),
        (ShellCommand::UrlbarQuery("q".into()), vec!["QuerySuggestions(\"q\")"]),
        (ShellCommand::SwitchWorkspace("w".into()), vec!["SwitchWorkspace(\"w\")"]),
        (
            ShellCommand::PluginRevokeSecret { plugin: "p".into(), name: "n".into() },
            vec!["RevokeSecret { plugin: \"p\", name: \"n\" }"],
        ),
        (
            ShellCommand::BookmarkRemove("u".into()),
            vec!["RemoveBookmark(\"u\")", "PushBookmarks", "PushState"],
        ),
        (
            ShellCommand::BookmarkToggle,
            vec![
                "ToggleBookmark { url: \"https://1.test/\", title: None }",
                "PushState",
                "PushBookmarks",
            ],
        ),
        (ShellCommand::ContextMenuAction("reload".into()), vec!["Reload"]),
        (ShellCommand::ContextMenuAction("go_back".into()), vec!["GoBack"]),
        (ShellCommand::ContextMenuAction("go_forward".into()), vec!["GoForward"]),
        (ShellCommand::ContextMenuAction("paste".into()), vec!["EditCommand(\"paste\")"]),
        (ShellCommand::ContextMenuAction("search_google".into()), vec![]),
        (ShellCommand::SetHwAccel(true), vec![]),
        (ShellCommand::PluginInstallPicker, vec![]),
    ];
    for (command, expected) in cases {
        let label = format!("{command:?}");
        assert_eq!(names(&shell.apply(command)), expected, "{label}");
    }
    let mut dark = shell_of(vec![tab(1, "https://1.test/", false)]);
    assert!(dark.apply(ShellCommand::NavReload).is_empty());
    assert!(dark.apply(ShellCommand::ContextMenuAction("cut".into())).is_empty());
}

#[test]
fn finding_remembers_the_last_text() {
    let mut shell = shell(1);
    let find = |query: &str, forward, find_next| ShellCommand::FindText {
        query: query.to_owned(),
        forward,
        find_next,
    };
    shell.apply(find("cat", true, false));
    shell.apply(find("", true, false));
    assert_eq!(
        names(&shell.apply(ShellCommand::FindNext)),
        vec!["Find { query: \"cat\", forward: true, find_next: true }"]
    );
    assert_eq!(
        names(&shell.apply(ShellCommand::FindPrev)),
        vec!["Find { query: \"cat\", forward: false, find_next: true }"]
    );
    assert_eq!(
        names(&shell.apply(ShellCommand::FindInPage)),
        vec![
            "EvalChrome(\"window.mote&&window.mote.applyOp&&\
             window.mote.applyOp('focus_find',null);\")"
        ]
    );
}

#[test]
fn submissions_use_the_current_search_engine() {
    let mut shell = shell(1);
    assert!(shell.apply(ShellCommand::OmniboxSubmit("  ".into())).is_empty());
    shell.apply(ShellCommand::OmniboxSubmit("example.com/x".into()));
    assert_eq!(shell.tabs()[0].url, "https://example.com/x");
    shell.apply(ShellCommand::SetSearchEngine {
        name: "S".into(),
        url_template: "https://s.test/?q={q}&x={q}".into(),
    });
    shell.apply(ShellCommand::OmniboxSubmit("a b".into()));
    assert_eq!(shell.tabs()[0].url, "https://s.test/?q=a%20b&x=a%20b");
    shell.apply(ShellCommand::Navigate("about:blank".into()));
    assert_eq!(shell.tabs()[0].url, "about:blank");
}

#[test]
fn new_tabs_open_where_asked() {
    let mut shell = shell(1);
    assert_eq!(
        names(&shell.apply(ShellCommand::NewTab(Some("https://x.test/".into())))),
        vec!["OpenTab { url: \"https://x.test/\", title: None, foreground: true }"]
    );
    let plain = names(&shell.apply(ShellCommand::NewTab(None)));
    assert!(plain[0].contains(START));
    shell.apply(ShellCommand::CloseWindow);
    assert!(shell.should_exit());
    let out = shell.apply(ShellCommand::ApprovePlugin(answer("deny")));
    assert!(matches!(&out[..], [Effect::ApprovePlugin(r)] if r.plugin == "p"));
}

#[test]
fn chords_act_on_the_shell() {
    let mut shell = shell(2);
    let mut queue: CommandQueue = VecDeque::new();
    let out = shell.intercept_keybind(&mut queue, true, ctrl(), &letter("t"));
    assert!(names(&out.effects)[0].contains(START));
    let out = shell.intercept_keybind(&mut queue, true, ctrl(), &letter("w"));
    assert!(out.consumed);
    assert_eq!(ids(&shell), vec![2]);
    assert!(!shell.should_exit());
    shell.intercept_keybind(&mut queue, true, ctrl(), &letter("w"));
    assert!(shell.should_exit());
    assert_eq!(ids(&shell), vec![2]);
    let out = shell.intercept_keybind(&mut queue, true, ctrl(), &letter("3"));
    assert_eq!(names(&out.effects), vec!["SwitchWorkspaceAt(3)"]);
    let out = shell.intercept_keybind(&mut queue, true, ctrl(), &letter("9"));
    assert_eq!(names(&out.effects), vec!["SwitchWorkspaceLast"]);
    assert!(queue.is_empty());
    for key in ["f", "g", "=", "-", "0"] {
        let out = shell.intercept_keybind(&mut queue, true, ctrl(), &letter(key));
        assert!(out.consumed && out.effects.is_empty());
    }
    shell.intercept_keybind(&mut queue, true, ctrl_shift(), &letter("T"));
    let waiting: Vec<String> = drain(&mut queue).iter().map(|c| format!("{c:?}")).collect();
    assert_eq!(
        waiting,
        vec!["FindInPage", "FindNext", "ZoomIn", "ZoomOut", "ZoomReset", "ReopenClosedTab"]
    );
    assert!(queue.is_empty());
    let plain = shell.intercept_keybind(&mut queue, true, Modifiers::none(), &letter("t"));
    assert!(!plain.consumed);
    let released = shell.intercept_keybind(&mut queue, false, ctrl(), &letter("t"));
    assert!(!released.consumed && released.effects.is_empty());
    let sample = shell.intercept_keybind(&mut queue, true, ctrl_shift(), &letter("a"));
    assert_eq!(names(&sample.effects), vec!["ShowSampleApproval { hostile: false }"]);
    let sample = shell.intercept_keybind(&mut queue, true, ctrl_shift(), &letter("X"));
    assert_eq!(names(&sample.effects), vec!["ShowSampleApproval { hostile: true }"]);
}

fn show_integrity(shell: &mut Shell) {
    let effects = names(&shell.push_integrity_panel_to_chrome(Some("{}".to_owned())));
    assert_eq!(effects.len(), 1);
    assert!(effects[0].contains("applyOp('render_integrity_panel',{});"));
}

#[test]
fn escape_is_taken_only_where_something_is_open() {
    let mut shell = shell(1);
    let mut queue: CommandQueue = VecDeque::new();
    let escape = Key::Named(NamedKey::Escape);
    assert!(!shell.intercept_keybind(&mut queue, true, Modifiers::none(), &escape).consumed);
    show_integrity(&mut shell);
    shell.integrity_overlay_opened(true);
    assert!(shell.chrome_overlay_capturing_input(0));
    let out = shell.intercept_keybind(&mut queue, true, Modifiers::none(), &escape);
    assert!(out.consumed);
    assert_eq!(out.effects.len(), 3);
    assert_eq!(shell.top_surface(), Surface::Browser);
    assert!(!shell.chrome_overlay_capturing_input(0));
    assert!(shell.chrome_overlay_capturing_input(1));
}

#[test]
fn the_integrity_chord_shows_and_hides() {
    let mut shell = shell(1);
    let mut queue: CommandQueue = VecDeque::new();
    let mut press = |shell: &mut Shell| {
        names(&shell.intercept_keybind(&mut queue, true, ctrl_shift(), &letter("i")).effects)
    };
    assert_eq!(press(&mut shell), vec!["ShowIntegrity"]);
    show_integrity(&mut shell);
    assert_eq!(names(&shell.refresh_integrity_panel()), vec!["ShowIntegrity"]);
    assert!(press(&mut shell)[0].contains("hide_integrity_panel"));
    assert!(shell.refresh_integrity_panel().is_empty());
    let mut early = unpainted(1);
    assert_eq!(press(&mut early), vec!["OpenIntegrityOverlay"]);
    early.integrity_overlay_opened(true);
    assert_eq!(press(&mut early), vec!["RedrawChrome", "RedrawContent"]);
    assert_eq!(early.top_surface(), Surface::Browser);
}

fn answer(decision: &str) -> DialogResult {
    DialogResult {
        plugin: "p".into(),
        decision: decision.into(),
        permissions: Vec::<DialogPermission>::new(),
    }
}

#[test]
fn settled_answers_move_on_to_the_next_dialog() {
    let mut shell = shell(1);
    assert_eq!(shell.approval_done(&answer("grant"), ApproveOutcome::Loaded).len(), 2);
    show_integrity(&mut shell);
    let out = names(&shell.approval_done(&answer("deny"), ApproveOutcome::Denied));
    assert_eq!(
        out[0],
        "AuditDenial { plugin: \"p\", \
         reason: \"plugin 'p' was denied by the user in the approval dialog\" }"
    );
    assert!(out[1].contains("hide_approval_dialog"));
    assert_eq!(out[2..], ["ShowIntegrity", "ShowNextApproval"]);
    let mut refused = answer("grant");
    refused.permissions.push(DialogPermission {
        domain: "tabs".into(),
        action: "list".into(),
        mode: "deny".into(),
        origins: None,
    });
    let out = names(&shell.approval_done(&refused, ApproveOutcome::Denied));
    assert!(out[0].contains("at least one required permission was denied"));
    assert!(shell.approval_done(&answer("grant"), ApproveOutcome::LoadFailed).is_empty());
    assert!(shell.approval_done(&answer("grant"), ApproveOutcome::NotPending).is_empty());
}

fn open_picker(shell: &mut Shell) {
    let mut hidden = session_tab(9, "https://hidden.test/");
    hidden.state = TabState::Hidden;
    let entries = vec![
        PickerEntry::from_tab(&session_tab(1, "https://1.test/")),
        PickerEntry::from_tab(&session_tab(2, "https://2.test/")),
        PickerEntry::from_tab(&hidden),
    ];
    shell.open_picker(entries, true);
}

#[test]
fn the_picker_takes_every_key() {
    let mut shell = shell(2);
    let mut queue: CommandQueue = VecDeque::new();
    let none = Modifiers::none();
    let space = Key::Named(NamedKey::Space);
    let out = shell.intercept_keybind(&mut queue, true, ctrl(), &space);
    assert_eq!(names(&out.effects), vec!["OpenPicker"]);
    open_picker(&mut shell);
    let down = Key::Named(NamedKey::ArrowDown);
    let out = shell.intercept_keybind(&mut queue, true, none, &down);
    assert_eq!(names(&out.effects), vec!["RenderPicker"]);
    shell.intercept_keybind(&mut queue, true, ctrl(), &letter("j"));
    assert_eq!(shell.picker().selected_entry().unwrap().id, 9);
    shell.intercept_keybind(&mut queue, true, ctrl(), &letter("K"));
    assert_eq!(shell.picker().selected_entry().unwrap().id, 2);
    assert!(shell.intercept_keybind(&mut queue, true, ctrl(), &letter("t")).effects.is_empty());
    assert!(shell.intercept_keybind(&mut queue, false, none, &letter("x")).consumed);
    shell.intercept_keybind(&mut queue, true, none, &letter("hid"));
    shell.intercept_keybind(&mut queue, true, none, &space);
    assert_eq!(shell.picker().query(), "hid ");
    shell.intercept_keybind(&mut queue, true, none, &Key::Named(NamedKey::Backspace));
    assert_eq!(shell.picker().filtered().len(), 1);
    assert!(shell.picker_script().starts_with(
        "window.__motePicker&&window.__motePicker({query:\"hid\",rows:[{\"cat\":\"hidden\""
    ));
    let enter = Key::Named(NamedKey::Enter);
    let out = shell.intercept_keybind(&mut queue, true, none, &enter);
    assert_eq!(names(&out.effects), vec!["RedrawChrome", "RedrawContent", "RevealTab(9)"]);
    assert!(!shell.picker().is_open());
    open_picker(&mut shell);
    let out = shell.intercept_keybind(&mut queue, true, none, &enter);
    assert_eq!(names(&out.effects)[2], "SelectTab(1)");
    open_picker(&mut shell);
    shell.intercept_keybind(&mut queue, true, none, &Key::Named(NamedKey::Escape));
    assert!(!shell.picker().is_open());
    shell.open_picker(vec![], false);
    assert!(!shell.picker().is_open());
    assert!(queue.is_empty());
}

#[test]
fn arguments_behind_the_program_are_urls() {
    let args = ["mote", "--ozone-platform=x11", "https://a.test", "-x", "b.test", ""];
    let args: Vec<String> = args.iter().map(|a| (*a).to_owned()).collect();
    assert_eq!(cli_urls(&args), vec!["https://a.test", "b.test", ""]);
    assert!(cli_urls(&vec!["mote".to_owned()]).is_empty());
    assert_eq!(seed_urls(vec![]), vec![START]);
    let urls = seed_urls(vec!["u".to_owned(), "v".to_owned()]);
    assert_eq!(urls, vec!["u", "v"]);
    let tabs = seeded_tabs(&vec![5, 6], &urls);
    assert_eq!((tabs[0].id, tabs[0].live), (5, true));
    assert_eq!((tabs[1].url.as_str(), tabs[1].live), ("v", false));
}

#[test]
fn the_chrome_is_told_the_state() {
    let shell = shell_of(vec![tab(1, "https://1.test/", true), titled(2, "T<")]);
    assert_eq!(
        shell.tabs_json(),
        "[{\"id\":1,\"title\":\"https://1.test/\",\"url\":\"https://1.test/\",\"active\":true},\
         {\"id\":2,\"title\":\"T\\u003c\",\"url\":\"https://2.test/\",\"active\":false}]"
    );
    let effects = names(&shell.push_state_with(true, &None, false, true));
    assert_eq!(effects.len(), 4);
    assert!(effects[0].contains("applyOp('set_tabs',{tabs:[{"));
    assert!(effects[1].contains("applyOp('set_url',{"));
    assert!(effects[2].contains("{can_go_back:false,can_go_forward:true}"));
    assert_eq!(effects[3], "PushStatusline");
    assert_eq!(self::shell(0).push_state_with(false, &None, false, false).len(), 3);
    assert!(unpainted(1).push_state_with(false, &None, false, false).is_empty());
}

fn script(effects: &[Effect<String>], at: usize) -> String {
    match &effects[at] {
        Effect::EvalChrome(script) => script.clone(),
        other => panic!("expected a script; got {other:?}"),
    }
}

#[test]
fn the_active_url_is_pushed_with_its_structure() {
    let cleaner = url_cleaner();
    let url = "https://www.theverge.com/x?utm_source=a";
    let shell = shell_of(vec![tab(1, url, true)]);
    let row = BookmarkRow { url: Some(url.to_owned()), added: 1, json: "{}".to_owned() };
    let out = shell.push_state_to_chrome(&cleaner, Some(Reply::List(vec![row])), true, false);
    assert_eq!(
        script(&out, 1),
        "window.mote&&window.mote.applyOp&&window.mote.applyOp('set_url',\
         {\"url\":\"https://www.theverge.com/x?utm_source=a\",\"bookmarked\":true,\
         \"display\":{\"scheme\":\"https://\",\"subdomain\":\"www.\",\
         \"registrable\":\"theverge.com\",\"rest\":\"/x?utm_source=a\"},\
         \"trackers\":{\"count\":1,\"clean\":\"https://www.theverge.com/x\",\
         \"names\":[\"utm_source\"]}});"
    );
    let none = shell.push_state_to_chrome(&cleaner, None, false, false);
    assert!(script(&none, 1).contains("\"bookmarked\":false"));
}

#[test]
fn the_status_line_shows_security_and_hovered_link() {
    let cleaner = url_cleaner();
    let mut shell = shell(2);
    let all = |line: Vec<StatusElement<String>>| {
        line.iter().map(|e| format!("{e:?}")).collect::<Vec<String>>()
    };
    let declared = || vec!["{\"id\":\"p.x\"}".to_owned()];
    assert_eq!(
        all(shell.statusline_elements(&cleaner, Some("110%".to_owned()), declared())),
        vec![
            "Mode",
            "Security { secure: true }",
            "TabCount(2)",
            "Text { id: \"mote.zoom\", zone: Right, priority: 90, text: \"zoom 110%\" }",
            "Declared(\"{\\\"id\\\":\\\"p.x\\\"}\")",
        ]
    );
    shell.navigate_active("http://a.test/");
    shell.sync_hover_url(Some("mote://x/?q".to_owned()));
    assert_eq!(
        all(shell.statusline_elements(&cleaner, None, vec![])),
        vec![
            "Mode",
            "Security { secure: false }",
            "TabCount(2)",
            "Text { id: \"mote.hoverurl\", zone: Center, priority: 100, text: \"mote://x/?q\" }",
        ]
    );
    shell.sync_hover_url(Some("https://a.com/x?utm_source=b".to_owned()));
    let line = all(shell.statusline_elements(&cleaner, None, vec![]));
    assert!(line[3].contains("a.com/x · 1 tracker"));
    shell.navigate_active(START);
    assert_eq!(all(shell.statusline_with(None, None, vec![]))[1], "Security { secure: true }");
}

#[test]
fn lists_are_pushed_once_the_chrome_can_be_told() {
    let shell = shell(1);
    let mark = |url: &str, added: i64| BookmarkRow {
        url: Some(url.to_owned()),
        added,
        json: format!("\"{url}\""),
    };
    let marks = Some(Reply::List(vec![mark("old", 1), mark("new", 2)]));
    assert!(script(&shell.push_bookmark_list(marks), 0)
        .contains("applyOp('bookmark_list',{\"rows\":[\"new\",\"old\"],\"count\":2});"));
    let rows = || Some(Reply::List(vec!["1".to_owned(), "2".to_owned()]));
    assert!(script(&shell.push_history_list(rows()), 0)
        .contains("applyOp('history_list',{\"rows\":[1,2],\"count\":2,\"truncated\":false});"));
    assert!(script(&shell.push_workspace_list(rows()), 0)
        .contains("applyOp('workspace_list',{rows:[1,2]});"));
    assert!(script(&shell.urlbar_query(rows()), 0)
        .contains("applyOp('urlbar_suggestions',[1,2]);"));
    assert!(script(&shell.urlbar_query(Some(Reply::Nil)), 0)
        .contains("applyOp('urlbar_suggestions',[]);"));
    assert!(script(&shell.push_approval_dialog(Some("{}".to_owned())), 0)
        .contains("applyOp('show_approval_dialog',{});"));
    assert!(shell.push_approval_dialog(None).is_empty());
    assert!(script(&shell.push_statusline(Some("[]".to_owned())), 0)
        .contains("applyOp('set_statusline_elements',[]);"));
    assert!(shell.push_statusline(None).is_empty());
    let mut early = unpainted(1);
    assert!(early.push_bookmark_list(None).is_empty());
    assert!(early.push_history_list(rows()).is_empty());
    assert!(early.push_workspace_list(rows()).is_empty());
    assert!(early.urlbar_query(rows()).is_empty());
    assert!(early.push_approval_dialog(Some("{}".to_owned())).is_empty());
    assert!(early.push_statusline(Some("[]".to_owned())).is_empty());
    assert!(early.push_integrity_panel_to_chrome(Some("{}".to_owned())).is_empty());
    assert!(!early.chrome_overlay_capturing_input(0));
}

#[test]
fn context_menus_learn_where_the_tab_can_go() {
    let shell = shell(1);
    let req = ContextMenuRequest {
        kind: ContextMenuKind::Page,
        target_url: None,
        selected_text: None,
        x: 1,
        y: 2,
        can_go_back: false,
        can_go_forward: true,
        is_editable: false,
        edit_flags: 0,
    };
    let out = script(&shell.push_context_menu(req, true, false), 0);
    assert!(out.contains("applyOp('show_context_menu',{\"kind\":\"page\""));
    assert!(out.contains("\"canGoBack\":true,\"canGoForward\":false"));
}

#[test]
fn overlays_cover_the_window() {
    let mut shell = shell(1);
    assert_eq!(shell.top_surface(), Surface::Browser);
    shell.integrity_overlay_opened(true);
    assert_eq!(shell.top_surface(), Surface::Integrity);
    assert!(shell.picker_painted(true).is_empty());
    open_picker(&mut shell);
    assert_eq!(shell.top_surface(), Surface::Picker);
    assert!(shell.picker_painted(false).is_empty());
    assert_eq!(names(&shell.picker_painted(true)), vec!["RenderPicker"]);
    assert!(shell.picker_painted(true).is_empty());
}

#[test]
fn commands_wait_in_order() {
    let mut queue: CommandQueue = VecDeque::new();
    push(&mut queue, ShellCommand::ZoomIn);
    push(&mut queue, ShellCommand::CloseTab(3));
    let all = drain(&mut queue);
    assert!(matches!(&all[..], [ShellCommand::ZoomIn, ShellCommand::CloseTab(3)]));
    assert!(queue.is_empty());
}
