use mote_shell::approval::{DialogPermission, DialogResult};
use mote_shell::command::{push, CommandQueue, ShellCommand};
use mote_shell::json::{json_bool_field, json_string_field, json_u64_field};
use mote_shell::ops::{operation_names, run_op, OpResponse};
use std::collections::VecDeque;

#[test]
fn json_string_field_extracts_url() {
    assert_eq!(
        json_string_field(r#"{"url":"https://example.com"}"#, "url").as_deref(),
        Some("https://example.com")
    );
    assert_eq!(
        json_string_field(r#"{"owner":"chrome"}"#, "owner").as_deref(),
        Some("chrome")
    );
    assert!(json_string_field(r#"{"n":3}"#, "url").is_none());
}

#[test]
fn json_string_field_unescapes_quotes() {
    assert_eq!(
        json_string_field(r#"{"url":"a\"b"}"#, "url").as_deref(),
        Some("a\"b")
    );
}

#[test]
fn json_u64_field_extracts_id() {
    assert_eq!(json_u64_field(r#"{"id":42}"#, "id"), Some(42));
    assert_eq!(json_u64_field(r#"{"id": 7 ,"x":1}"#, "id"), Some(7));
    assert!(json_u64_field(r#"{"id":"nope"}"#, "id").is_none());
    assert!(json_u64_field(r#"{"other":1}"#, "id").is_none());
}

#[test]
fn urlbar_query_op_is_registered() {
    assert!(
        operation_names().contains(&"urlbar_query"),
        "urlbar_query must be registered; got: {:?}",
        operation_names()
    );
}

#[test]
fn urlbar_query_missing_text_is_a_400() {
    let mut queue: CommandQueue = VecDeque::new();
    let result = json_string_field("{}", "text");
    assert!(
        result.is_none(),
        "missing `text` field must yield None so the op returns 400"
    );
    assert!(queue.is_empty());
}

#[test]
fn urlbar_query_valid_text_enqueues_command() {
    let mut queue: CommandQueue = VecDeque::new();
    let text =
        json_string_field(r#"{"text":"example"}"#, "text").expect("text field must parse");
    push(&mut queue, ShellCommand::UrlbarQuery(text));
    assert_eq!(queue.len(), 1, "exactly one command enqueued");
    match queue.pop_front().unwrap() {
        ShellCommand::UrlbarQuery(t) => {
            assert_eq!(t, "example", "enqueued text must match the input");
        }
        other => panic!("expected UrlbarQuery; got {other:?}"),
    }
}

#[test]
fn urlbar_query_empty_text_enqueues_command() {
    let mut queue: CommandQueue = VecDeque::new();
    let text = json_string_field(r#"{"text":""}"#, "text").expect("empty text must parse fine");
    push(&mut queue, ShellCommand::UrlbarQuery(text));
    assert_eq!(queue.len(), 1);
    match queue.pop_front().unwrap() {
        ShellCommand::UrlbarQuery(t) => assert!(t.is_empty(), "text must be empty string"),
        other => panic!("expected UrlbarQuery; got {other:?}"),
    }
}

#[test]
fn set_active_panel_tabs_pushes_state() {
    let mut queue: CommandQueue = VecDeque::new();

    let name = json_string_field(r#"{"name":"tabs"}"#, "name").expect("name field must parse");
    push(&mut queue, ShellCommand::SetActivePanel(name));
    assert_eq!(queue.len(), 1, "exactly one command must be enqueued");
    match queue.pop_front().unwrap() {
        ShellCommand::SetActivePanel(n) => {
            assert_eq!(n, "tabs", "enqueued panel name must be \"tabs\"");
        }
        other => panic!("expected SetActivePanel; got {other:?}"),
    }
}

#[test]
fn r2_copy_active_url_op_is_registered() {
    assert!(
        operation_names().contains(&"copy_active_url"),
        "copy_active_url must be registered; got: {:?}",
        operation_names()
    );
}

#[test]
fn r2_copy_active_url_op_enqueues_command() {
    let mut queue: CommandQueue = VecDeque::new();
    push(&mut queue, ShellCommand::CopyActiveUrl);
    assert_eq!(queue.len(), 1, "exactly one command enqueued");
    match queue.pop_front().unwrap() {
        ShellCommand::CopyActiveUrl => {}
        other => panic!("expected CopyActiveUrl; got {other:?}"),
    }
}

#[test]
fn r4_close_window_op_is_registered() {
    assert!(
        operation_names().contains(&"close_window"),
        "close_window must be registered; got: {:?}",
        operation_names()
    );
}

#[test]
fn r4_close_window_op_enqueues_command() {
    let mut queue: CommandQueue = VecDeque::new();
    push(&mut queue, ShellCommand::CloseWindow);
    assert_eq!(queue.len(), 1, "exactly one command enqueued");
    match queue.pop_front().unwrap() {
        ShellCommand::CloseWindow => {}
        other => panic!("expected CloseWindow; got {other:?}"),
    }
}

#[test]
fn p6_set_theme_op_is_registered() {
    assert!(
        operation_names().contains(&"set_theme"),
        "set_theme must be registered; got: {:?}",
        operation_names()
    );
}

#[test]
fn p6_set_theme_op_enqueues_set_theme() {
    let mut queue: CommandQueue = VecDeque::new();
    let theme =
        json_string_field(r#"{"theme":"vellum"}"#, "theme").expect("theme field must parse");
    push(&mut queue, ShellCommand::SetTheme(theme));
    assert_eq!(queue.len(), 1, "exactly one command must be enqueued");
    match queue.pop_front().unwrap() {
        ShellCommand::SetTheme(t) => {
            assert_eq!(t, "vellum", "set_theme must capture the theme name");
        }
        other => panic!("expected SetTheme; got {other:?}"),
    }
}

#[test]
fn p6_set_theme_op_rejects_missing_theme() {
    let result = json_string_field("{}", "theme");
    assert!(
        result.is_none(),
        "missing theme field must yield None (op returns 400)"
    );
}

#[test]
fn p6_set_search_engine_op_is_registered() {
    assert!(
        operation_names().contains(&"set_search_engine"),
        "set_search_engine must be registered; got: {:?}",
        operation_names()
    );
}

#[test]
fn p6_set_search_engine_op_enqueues_set_search_engine() {
    let mut queue: CommandQueue = VecDeque::new();
    let expected_name = "DuckDuckGo";
    let expected_url =
        String::from_utf8(b"https://duckduckgo.com/?q=\x7bq\x7d".to_vec()).unwrap();
    let params = format!(r#"{{"name":"{expected_name}","url_template":"{expected_url}"}}"#);
    let name = json_string_field(&params, "name")
        .filter(|s| !s.is_empty())
        .expect("name must parse");
    let url_template = json_string_field(&params, "url_template")
        .filter(|s| !s.is_empty())
        .expect("url_template must parse");
    push(&mut queue, ShellCommand::SetSearchEngine { name, url_template });
    assert_eq!(queue.len(), 1);
    match queue.pop_front().unwrap() {
        ShellCommand::SetSearchEngine { name, url_template } => {
            assert_eq!(name, expected_name);
            assert_eq!(url_template, expected_url);
        }
        other => panic!("expected SetSearchEngine; got {other:?}"),
    }
}

#[test]
fn p6_plugin_disable_op_is_registered() {
    assert!(
        operation_names().contains(&"plugin_disable"),
        "plugin_disable must be registered; got: {:?}",
        operation_names()
    );
}

#[test]
fn p6_plugin_disable_op_enqueues_plugin_disable() {
    let mut queue: CommandQueue = VecDeque::new();
    let name = json_string_field(r#"{"plugin":"bookmarks"}"#, "plugin")
        .filter(|s| !s.is_empty())
        .expect("plugin field must parse");
    push(&mut queue, ShellCommand::PluginDisable(name));
    assert_eq!(queue.len(), 1);
    match queue.pop_front().unwrap() {
        ShellCommand::PluginDisable(n) => {
            assert_eq!(n, "bookmarks");
        }
        other => panic!("expected PluginDisable; got {other:?}"),
    }
}

#[test]
fn p6_plugin_uninstall_op_is_registered() {
    assert!(
        operation_names().contains(&"plugin_uninstall"),
        "plugin_uninstall must be registered; got: {:?}",
        operation_names()
    );
}

#[test]
fn p6_plugin_uninstall_op_enqueues_plugin_uninstall() {
    let mut queue: CommandQueue = VecDeque::new();
    let name = json_string_field(r#"{"plugin":"bookmarks"}"#, "plugin")
        .filter(|s| !s.is_empty())
        .expect("plugin field must parse");
    push(&mut queue, ShellCommand::PluginUninstall(name));
    assert_eq!(queue.len(), 1);
    match queue.pop_front().unwrap() {
        ShellCommand::PluginUninstall(n) => {
            assert_eq!(n, "bookmarks");
        }
        other => panic!("expected PluginUninstall; got {other:?}"),
    }
}

#[test]
fn p6_keybinds_list_op_is_registered() {
    assert!(
        operation_names().contains(&"keybinds_list"),
        "keybinds_list must be registered; got: {:?}",
        operation_names()
    );
}

#[test]
fn p2_nav_and_security_ops_registered() {
            let names = operation_names();
    for op in ["go_back", "go_forward", "reload", "security_info"] {
        assert!(
            names.contains(&op),
            "op '{op}' must be registered"
        );
    }
}

#[test]
fn p5_ops_all_registered() {
            let names = operation_names();
    for op in [
        "find_in_page",
        "find_next",
        "find_prev",
        "stop_finding",
        "zoom_in",
        "zoom_out",
        "zoom_reset",
        "reopen_closed_tab",
        "context_menu_action",
    ] {
        assert!(
            names.contains(&op),
            "op '{op}' must be registered"
        );
    }
}

#[test]
fn p5_find_in_page_enqueues_text() {
    let mut queue: CommandQueue = VecDeque::new();
    let text = json_string_field(r#"{"text":"hello"}"#, "text").expect("text field must parse");
    let find_next = json_bool_field(r#"{"text":"hello"}"#, "findNext").unwrap_or(false);
    let forward = json_bool_field(r#"{"text":"hello"}"#, "forward").unwrap_or(true);
    push(
        &mut queue,
        ShellCommand::FindText {
            query: text,
            forward,
            find_next,
        },
    );
    assert_eq!(queue.len(), 1, "exactly one command must be enqueued");
    match queue.pop_front().unwrap() {
        ShellCommand::FindText {
            query,
            forward: fwd,
            find_next: fn_,
        } => {
            assert_eq!(query, "hello", "query must carry the typed text");
            assert!(fwd, "forward must default to true");
            assert!(!fn_, "find_next must default to false for a fresh search");
        }
        other => panic!("expected FindText; got {other:?}"),
    }
}

#[test]
fn p5_find_in_page_empty_text_enqueues_empty_query() {
    let mut queue: CommandQueue = VecDeque::new();
    let text =
        json_string_field(r#"{"text":""}"#, "text").expect("empty text field must parse");
    push(
        &mut queue,
        ShellCommand::FindText {
            query: text,
            forward: true,
            find_next: false,
        },
    );
    match queue.pop_front().unwrap() {
        ShellCommand::FindText { query, .. } => {
            assert!(
                query.is_empty(),
                "empty text input must produce empty query"
            );
        }
        other => panic!("expected FindText; got {other:?}"),
    }
}

#[test]
fn p5_find_next_op_enqueues_find_next() {
    let mut queue: CommandQueue = VecDeque::new();
    push(&mut queue, ShellCommand::FindNext);
    assert_eq!(queue.len(), 1, "exactly one command must be enqueued");
    match queue.pop_front().unwrap() {
        ShellCommand::FindNext => {}
        other => panic!("expected FindNext; got {other:?}"),
    }
}

#[test]
fn p5_find_prev_op_enqueues_find_prev() {
    let mut queue: CommandQueue = VecDeque::new();
    push(&mut queue, ShellCommand::FindPrev);
    assert_eq!(queue.len(), 1, "exactly one command must be enqueued");
    match queue.pop_front().unwrap() {
        ShellCommand::FindPrev => {}
        other => panic!("expected FindPrev; got {other:?}"),
    }
}

#[test]
fn d1_context_menu_action_op_is_registered() {
            assert!(
        operation_names().contains(&"context_menu_action"),
        "context_menu_action must be registered for D1 edit commands"
    );
}

#[test]
fn i1_omnibox_submit_op_is_registered() {
    assert!(
        operation_names().contains(&"omnibox_submit"),
        "omnibox_submit must be registered; got: {:?}",
        operation_names()
    );
}

#[test]
fn cl_loading_stop_op_is_registered() {
    assert!(
        operation_names().contains(&"stop"),
        "stop must be registered; got: {:?}",
        operation_names()
    );
}

#[test]
fn cl_loading_stop_op_enqueues_nav_stop() {
    let mut queue: CommandQueue = VecDeque::new();
    push(&mut queue, ShellCommand::NavStop);
    assert_eq!(queue.len(), 1, "must enqueue exactly one command");
    match queue.pop_front().unwrap() {
        ShellCommand::NavStop => {}
        other => panic!("expected NavStop; got {other:?}"),
    }
}

#[test]
fn i1_omnibox_submit_op_enqueues_command() {
    let mut queue: CommandQueue = VecDeque::new();
    let text = json_string_field(r#"{"text":"rust async"}"#, "text")
        .filter(|s| !s.is_empty())
        .expect("text field must parse");
    push(&mut queue, ShellCommand::OmniboxSubmit(text));
    assert_eq!(queue.len(), 1, "must enqueue exactly one command");
    match queue.pop_front().unwrap() {
        ShellCommand::OmniboxSubmit(text) => {
            assert_eq!(text, "rust async", "command must carry the raw text");
        }
        other => panic!("expected OmniboxSubmit; got {other:?}"),
    }
}

fn run(op: &str, params: &str) -> (Option<OpResponse>, Option<String>) {
    let mut queue: CommandQueue = VecDeque::new();
    let response = run_op(&mut queue, op, params, None);
    assert!(queue.len() <= 1);
    (response, queue.pop_front().map(|c| format!("{c:?}")))
}

fn accepted(op: &str, params: &str) -> String {
    match run(op, params) {
        (Some(OpResponse::Reply(body)), Some(command)) => {
            assert_eq!(body, "{\"ok\":true}");
            command
        }
        other => panic!("{op} must give a command, got {other:?}"),
    }
}

fn refused(op: &str, params: &str) -> String {
    match run(op, params) {
        (Some(OpResponse::Refusal { code: 400, message }), None) => message,
        other => panic!("{op} must be refused, got {other:?}"),
    }
}

#[test]
fn every_plain_operation_gives_its_command() {
    let plain = [
        ("bookmark_toggle", "BookmarkToggle"),
        ("copy_active_url", "CopyActiveUrl"),
        ("close_window", "CloseWindow"),
        ("plugin_install_picker", "PluginInstallPicker"),
        ("integrity_reverify_all", "IntegrityReverifyAll"),
        ("go_back", "NavGoBack"),
        ("go_forward", "NavGoForward"),
        ("reload", "NavReload"),
        ("stop", "NavStop"),
        ("stop_finding", "StopFinding"),
        ("find_next", "FindNext"),
        ("find_prev", "FindPrev"),
        ("zoom_in", "ZoomIn"),
        ("zoom_out", "ZoomOut"),
        ("zoom_reset", "ZoomReset"),
        ("reopen_closed_tab", "ReopenClosedTab"),
    ];
    for (op, command) in plain {
        assert_eq!(accepted(op, "not json"), command);
    }
}

#[test]
fn operations_read_their_parameters() {
    assert_eq!(accepted("navigate", r#"{"url":"u"}"#), "Navigate(\"u\")");
    assert_eq!(accepted("omnibox_submit", r#"{"text":"t"}"#), "OmniboxSubmit(\"t\")");
    assert_eq!(accepted("urlbar_query", r#"{"text":""}"#), "UrlbarQuery(\"\")");
    assert_eq!(accepted("set_active_panel", r#"{"name":"tabs"}"#), "SetActivePanel(\"tabs\")");
    assert_eq!(accepted("bookmark_remove", r#"{"url":"u"}"#), "BookmarkRemove(\"u\")");
    assert_eq!(accepted("set_active_workspace", r#"{"id":"w"}"#), "SwitchWorkspace(\"w\")");
    assert_eq!(accepted("set_theme", r#"{"theme":"dusk"}"#), "SetTheme(\"dusk\")");
    assert_eq!(accepted("new_tab", "{}"), "NewTab(None)");
    assert_eq!(accepted("new_tab", r#"{"url":"u"}"#), "NewTab(Some(\"u\"))");
    assert_eq!(accepted("close_tab", r#"{"id":7}"#), "CloseTab(7)");
    assert_eq!(accepted("select_tab", r#"{"id":7}"#), "SelectTab(7)");
    assert_eq!(accepted("focus_changed", r#"{"owner":"chrome"}"#), "FocusOwner(Chrome)");
    assert_eq!(accepted("focus_changed", "[]"), "FocusOwner(Page)");
    assert_eq!(accepted("set_hw_accel", r#"{"enabled":true}"#), "SetHwAccel(true)");
    assert_eq!(accepted("set_zoom_persist", r#"{"enabled":false}"#), "SetZoomPersist(false)");
    assert_eq!(
        accepted("set_search_engine", r#"{"name":"n","url_template":"t"}"#),
        "SetSearchEngine { name: \"n\", url_template: \"t\" }"
    );
    assert_eq!(
        accepted("plugin_revoke_secret", r#"{"plugin":"p","name":"s"}"#),
        "PluginRevokeSecret { plugin: \"p\", name: \"s\" }"
    );
    for (op, command) in [
        ("plugin_update", "PluginUpdate"),
        ("plugin_rollback", "PluginRollback"),
        ("plugin_reload", "PluginReload"),
        ("plugin_revoke", "PluginRevoke"),
        ("plugin_adjust_scope", "PluginAdjustScope"),
        ("plugin_disable", "PluginDisable"),
        ("plugin_uninstall", "PluginUninstall"),
        ("integrity_plugin_detail", "IntegrityPluginDetail"),
    ] {
        assert_eq!(accepted(op, r#"{"plugin":"p"}"#), format!("{command}(\"p\")"));
        assert_eq!(refused(op, r#"{"plugin":""}"#), "requires a non-empty string `plugin`");
    }
    assert_eq!(
        accepted("find_in_page", r#"{"text":"x","findNext":true,"forward":false}"#),
        "FindText { query: \"x\", forward: false, find_next: true }"
    );
    assert_eq!(
        accepted("find_in_page", "{}"),
        "FindText { query: \"\", forward: true, find_next: false }"
    );
    assert_eq!(
        accepted("context_menu_action", r#"{"action":"copy"}"#),
        "ContextMenuAction(\"copy\")"
    );
    assert_eq!(
        accepted("context_menu_action", r#"{"action":""}"#),
        "ContextMenuAction(\"unknown\")"
    );
}

#[test]
fn missing_parameters_are_bad_requests() {
    assert_eq!(refused("navigate", "{}"), "navigate requires a string `url`");
    assert_eq!(refused("navigate", r#"{"url":3}"#), "navigate requires a string `url`");
    assert_eq!(refused("omnibox_submit", "[]"), "omnibox_submit requires a string `text`");
    assert_eq!(refused("close_tab", r#"{"id":-1}"#), "close_tab requires a numeric `id`");
    assert_eq!(refused("select_tab", r#"{"id":1.5}"#), "select_tab requires a numeric `id`");
    assert_eq!(
        refused("set_hw_accel", r#"{"enabled":"yes"}"#),
        "set_hw_accel requires a boolean `enabled`"
    );
    assert_eq!(
        refused("set_search_engine", r#"{"name":"n","url_template":""}"#),
        "set_search_engine requires non-empty string fields `name` and `url_template`"
    );
    assert_eq!(
        refused("plugin_revoke_secret", r#"{"plugin":"p"}"#),
        "plugin_revoke_secret requires non-empty string fields `plugin` and `name`"
    );
    assert_eq!(refused("approve_plugin", "not json"), "approve_plugin: malformed payload");
}

#[test]
fn some_operations_only_answer() {
    match run("security_info", "{}") {
        (Some(OpResponse::Reply(body)), None) => {
            assert_eq!(body, "{\"ok\":true,\"type\":\"js_hydrated\"}");
        }
        other => panic!("unexpected {other:?}"),
    }
    match run("keybinds_list", "{}") {
        (Some(OpResponse::Reply(body)), None) => {
            assert_eq!(body, mote_shell::keybinds::keybinds_list_json());
        }
        other => panic!("unexpected {other:?}"),
    }
    assert!(matches!(run("no_such_op", "{}"), (None, None)));
}

#[test]
fn answers_of_the_dialog_are_validated_before_they_wait() {
    let answer = |origin: &str| DialogResult {
        plugin: "p".into(),
        decision: "grant".into(),
        permissions: vec![DialogPermission {
            domain: "page".into(),
            action: "inject_script".into(),
            mode: "origins".into(),
            origins: Some(vec![origin.to_owned()]),
        }],
    };
    let mut queue: CommandQueue = VecDeque::new();
    match run_op(&mut queue, "approve_plugin", "{}", Some(answer("<script>"))) {
        Some(OpResponse::Refusal { code: 400, message }) => {
            assert_eq!(message, "approve_plugin: invalid origin glob");
        }
        other => panic!("unexpected {other:?}"),
    }
    assert!(queue.is_empty());
    match run_op(&mut queue, "approve_plugin", "{}", Some(answer("https://a.test/*"))) {
        Some(OpResponse::Reply(body)) => assert_eq!(body, "{\"accepted\":true}"),
        other => panic!("unexpected {other:?}"),
    }
    assert!(matches!(queue.pop_front(), Some(ShellCommand::ApprovePlugin(r)) if r.plugin == "p"));
}

#[test]
fn every_named_operation_answers() {
    for op in operation_names() {
        assert!(run(op, "{}").0.is_some(), "{op}");
    }
}

#[test]
fn fields_are_read_at_the_top_level_only() {
    assert_eq!(json_string_field(r#"{"a":{"url":"x"}}"#, "url"), None);
    assert_eq!(json_string_field("[\"url\"]", "url"), None);
    assert_eq!(json_string_field(r#"{"u":"1","u":"2"}"#, "u").as_deref(), Some("2"));
    assert_eq!(json_u64_field(r#"{"n":18446744073709551615}"#, "n"), Some(u64::MAX));
    assert_eq!(json_bool_field(r#"{"b":false}"#, "b"), Some(false));
    assert_eq!(json_bool_field(r#"{"b":null}"#, "b"), None);
}
