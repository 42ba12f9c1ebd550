use mote_shell::providers::{
    build_bookmark_list_json, build_history_list_json, build_workspace_list_json,
    is_url_bookmarked, rows_of, switch_target, toggle_bookmark, workspace_id_for_slug,
    workspace_slug_by_index, workspace_slug_last, workspace_slugs, BookmarkCall, BookmarkRow,
    Reply,
};

fn bookmark(url: &str, title: &str, added: i64) -> BookmarkRow {
    BookmarkRow {
        url: Some(url.to_owned()),
        added,
        json: format!("{{\"url\":\"{url}\",\"title\":\"{title}\"}}"),
    }
}

fn builtin() -> Option<Vec<String>> {
    Some(vec!["default".to_owned(), "work".to_owned()])
}

#[test]
fn f1_workspace_id_for_slug_resolves_by_ordered_index() {
    let slugs: Vec<String> = vec![
        "default".to_owned(),
        "work".to_owned(),
        "research".to_owned(),
    ];

    assert_eq!(
        workspace_id_for_slug("default", &slugs),
        Some(0),
        "\"default\" must map to number (0) — first in list"
    );
    assert_eq!(
        workspace_id_for_slug("work", &slugs),
        Some(1),
        "\"work\" must map to number (1) — second in list"
    );
    assert_eq!(
        workspace_id_for_slug("research", &slugs),
        Some(2),
        "\"research\" must map to number (2) — third in list (3rd workspace)"
    );
    assert_eq!(
        workspace_id_for_slug("unknown", &slugs),
        None,
        "unrecognised slug must return None"
    );
}

#[test]
fn f1_workspace_id_for_slug_empty_list_returns_none() {
    assert_eq!(
        workspace_id_for_slug("default", &[]),
        None,
        "empty slug list must return None for any slug"
    );
}

#[test]
fn workspace_id_for_slug_maps_builtin_slugs() {
    let slugs = builtin().unwrap();
    assert_eq!(workspace_id_for_slug("default", &slugs), Some(0));
    assert_eq!(workspace_id_for_slug("work", &slugs), Some(1));
    assert!(
        workspace_id_for_slug("does-not-exist", &slugs).is_none(),
        "unknown slug must return None"
    );
}

#[test]
fn r4_workspace_slug_by_index_is_1_based() {
    let slugs = builtin();
    assert_eq!(workspace_slug_by_index(&slugs, 1).as_deref(), Some("default"));
    assert_eq!(workspace_slug_by_index(&slugs, 2).as_deref(), Some("work"));
    assert!(workspace_slug_by_index(&slugs, 3).is_none());
    assert!(workspace_slug_by_index(&slugs, 0).is_none());
    assert!(workspace_slug_by_index(&None, 1).is_none());
}

#[test]
fn r4_workspace_slug_last_returns_final_workspace() {
    assert_eq!(workspace_slug_last(&builtin()).as_deref(), Some("work"));
    assert!(workspace_slug_last(&Some(vec![])).is_none());
    assert!(workspace_slug_last(&None).is_none());
}

#[test]
fn switch_workspace_rejects_unknown_id() {
    let refused: Option<Reply<()>> = Some(Reply::Flag(false));
    assert_eq!(switch_target(&refused, "does-not-exist", &builtin()), None);
    let accepted: Option<Reply<()>> = Some(Reply::Flag(true));
    assert_eq!(switch_target(&accepted, "does-not-exist", &builtin()), None);
    assert_eq!(switch_target(&accepted, "work", &builtin()), Some(1));
    assert_eq!(switch_target(&Some(Reply::<()>::Other), "default", &builtin()), Some(0));
    assert_eq!(switch_target(&Some(Reply::<()>::Nil), "default", &builtin()), None);
    assert_eq!(switch_target::<()>(&None, "default", &builtin()), None);
    assert_eq!(switch_target(&accepted, "work", &None), None);
}

#[test]
fn workspace_rows_without_a_name_are_passed_over() {
    let reply = Some(Reply::List(vec![Some("a".to_owned()), None, Some("b".to_owned())]));
    assert_eq!(workspace_slugs(reply), Some(vec!["a".to_owned(), "b".to_owned()]));
    assert_eq!(workspace_slugs(Some(Reply::Other)), Some(vec![]));
    assert_eq!(workspace_slugs(None), None);
}

#[test]
fn workspace_list_wraps_the_rows() {
    let rows = vec!["{\"id\":\"a\"}".to_owned(), "{\"id\":\"b\"}".to_owned()];
    assert_eq!(
        build_workspace_list_json(Some(Reply::List(rows))).as_deref(),
        Some("{\"rows\":[{\"id\":\"a\"},{\"id\":\"b\"}]}")
    );
    assert_eq!(
        build_workspace_list_json(Some(Reply::Other)).as_deref(),
        Some("{\"rows\":[]}")
    );
}

#[test]
fn workspace_list_unavailable_before_plugin_load() {
    assert!(
        build_workspace_list_json(None).is_none(),
        "workspace_list must be unavailable before the workspace:provider \
         plugin is loaded; pushing it now would deliver empty rows"
    );
    let answer = Reply::List(vec![
        "{\"id\":\"default\",\"name\":\"default\",\"active\":true}".to_owned(),
        "{\"id\":\"work\",\"name\":\"work\",\"active\":false}".to_owned(),
    ]);
    let json = build_workspace_list_json(Some(answer))
        .expect("workspace_list available after plugin load");
    let v: serde_json::Value = serde_json::from_str(&json).expect("workspace list JSON parses");
    let rows = v
        .get("rows")
        .and_then(|r| r.as_array())
        .expect("rows array present after load");
    assert!(
        rows.len() >= 2,
        "expected >=2 built-in workspaces after load; got {} ({json:?})",
        rows.len()
    );
}

#[test]
fn lists_are_unavailable_without_a_plugin() {
    assert!(build_bookmark_list_json(None).is_none());
    assert!(build_history_list_json(None).is_none());
    let empty = build_bookmark_list_json(Some(Reply::Nil));
    assert_eq!(empty.as_deref(), Some("{\"rows\":[],\"count\":0}"));
}

fn history(count: u32) -> Vec<String> {
    (0..count).map(|i| format!("\"https://example.test/page-{i:03}\"")).collect()
}

#[test]
fn set_active_panel_history_caps_at_200_and_flags_truncation() {
    let json = build_history_list_json(Some(Reply::List(history(250)))).expect("a payload");
    let parsed: serde_json::Value = serde_json::from_str(&json).expect("payload must be valid JSON");
    let rows = parsed["rows"].as_array().expect("rows must be an array");
    assert_eq!(rows.len(), 200, "displayed rows must be capped when 250 visits exist");
    assert_eq!(rows[199].as_str(), Some("https://example.test/page-199"));
    assert_eq!(parsed["count"].as_u64(), Some(200));
    assert_eq!(parsed["truncated"].as_bool(), Some(true));
}

#[test]
fn set_active_panel_history_truncated_false_below_cap() {
    for count in [0, 3, 200] {
        let json = build_history_list_json(Some(Reply::List(history(count)))).expect("a payload");
        let parsed: serde_json::Value = serde_json::from_str(&json).expect("valid JSON");
        assert_eq!(parsed["rows"].as_array().unwrap().len() as u64, u64::from(count));
        assert_eq!(parsed["count"].as_u64(), Some(u64::from(count)));
        assert_eq!(parsed["truncated"].as_bool(), Some(false));
    }
}

#[test]
fn bookmarks_come_latest_first() {
    let rows = vec![
        bookmark("https://a.test", "A", 1),
        bookmark("https://b.test", "B", 3),
        bookmark("https://c.test", "C", 3),
        bookmark("https://d.test", "D", -2),
    ];
    let json = build_bookmark_list_json(Some(Reply::List(rows))).expect("a payload");
    let parsed: serde_json::Value = serde_json::from_str(&json).expect("valid JSON");
    let titles: Vec<_> = parsed["rows"]
        .as_array()
        .unwrap()
        .iter()
        .filter_map(|r| r["title"].as_str())
        .collect();
    assert_eq!(titles, vec!["B", "C", "A", "D"]);
    assert_eq!(parsed["count"].as_u64(), Some(4));
}

#[test]
fn bookmark_toggle_adds_when_not_bookmarked() {
    let url = "https://toggle-add.test/page";
    let mut rows: Vec<BookmarkRow> = vec![];
    assert!(!is_url_bookmarked(&rows, url), "url must not be bookmarked before toggle");
    match toggle_bookmark(&rows, url.to_owned(), Some("Toggle Add Test".to_owned())) {
        BookmarkCall::Add { url, title } => rows.push(bookmark(&url, &title, 1)),
        other => panic!("expected an addition, got {other:?}"),
    }
    assert!(is_url_bookmarked(&rows, url), "url must be bookmarked after toggle-add");
    let json = build_bookmark_list_json(Some(Reply::List(rows))).expect("a payload");
    let parsed: serde_json::Value = serde_json::from_str(&json).expect("valid JSON");
    assert_eq!(parsed["count"].as_u64().unwrap(), 1);
    assert_eq!(parsed["rows"][0]["title"].as_str(), Some("Toggle Add Test"));
}

#[test]
fn bookmark_toggle_removes_when_bookmarked() {
    let url = "https://toggle-remove.test/page";
    let mut rows = vec![bookmark(url, "Toggle Remove Test", 1)];
    assert!(is_url_bookmarked(&rows, url), "url must be bookmarked before the remove toggle");
    match toggle_bookmark(&rows, url.to_owned(), None) {
        BookmarkCall::Remove { url } => rows.retain(|r| r.url.as_deref() != Some(url.as_str())),
        other => panic!("expected a removal, got {other:?}"),
    }
    assert!(!is_url_bookmarked(&rows, url), "url must no longer be bookmarked after toggle-remove");
    let json = build_bookmark_list_json(Some(Reply::List(rows))).expect("a payload");
    let parsed: serde_json::Value = serde_json::from_str(&json).expect("valid JSON");
    assert_eq!(parsed["count"].as_u64().unwrap(), 0);
}

#[test]
fn an_answer_that_is_no_list_has_no_rows() {
    assert_eq!(rows_of(Some(Reply::List(vec![1, 2]))), vec![1, 2]);
    assert!(rows_of::<u8>(Some(Reply::Other)).is_empty());
    assert!(rows_of::<u8>(Some(Reply::Flag(true))).is_empty());
    assert!(rows_of::<u8>(None).is_empty());
}
