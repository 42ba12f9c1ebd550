use mote_shell::escape::esc;
use mote_shell::host::{MgrIntegrity, PluginHost, ResolvedPlugin};
use mote_shell::panel::{
    render_panel_html, section_head, AuditRow, DenialRow, IntegrityPanel, IntegrityStatus,
    PermissionRow, PluginAction, PluginKind, PluginRow, RowLabels, StorageRow,
};
use mote_shell::request::{
    ApprovalOutcome, Manifest, ParsedPermission, Provenance, RequestedPermission,
};
use mote_shell::rows::{
    actions_for_kind, audit_rows, build_panel, denial_rows, file_name_of, human_bytes, last_used,
    loaded_row, mgr_integrity_to_ui, pending_row, provenance_to_kind, relative_time, storage_rows,
    ui_integrity, AuditEvent, Denial, DENIALS_SHOWN,
};

fn labels(glyph: &str, status: &str) -> RowLabels {
    RowLabels {
        glyph: glyph.to_owned(),
        source: "somewhere".to_owned(),
        badge: "badge-plain".to_owned(),
        status: status.to_owned(),
    }
}

fn resolved(name: &str, provenance: Provenance, integrity: MgrIntegrity) -> ResolvedPlugin {
    ResolvedPlugin {
        provenance,
        dir: format!("/tmp/plugins/{name}"),
        manifest: Manifest {
            name: name.to_owned(),
            version: "1.2.3".to_owned(),
            permissions: vec![RequestedPermission {
                raw: "storage:persistent".to_owned(),
                parsed: Some(ParsedPermission {
                    domain: "storage".to_owned(),
                    action: "persistent".to_owned(),
                    resource: None,
                }),
            }],
            capabilities: vec!["ui:thing".to_owned()],
            consumes: vec!["ui:other".to_owned()],
        },
        integrity,
        init_source: String::new(),
    }
}

fn event(operation: &str, age: u64) -> AuditEvent {
    AuditEvent { operation: operation.to_owned(), age }
}

fn empty_panel() -> IntegrityPanel {
    IntegrityPanel { plugins: vec![], network_audit: vec![], storage: vec![], denials: vec![] }
}

#[test]
fn provenance_maps_to_plugin_kind() {
    assert!(matches!(
        provenance_to_kind(Provenance::Bundled, "/x"),
        PluginKind::Bundled
    ));
    assert!(matches!(
        provenance_to_kind(Provenance::Path, "/x"),
        PluginKind::PathLocal { .. }
    ));
    match provenance_to_kind(
        Provenance::DeclaredGit,
        "/cache/adblock/abc123",
    ) {
        PluginKind::DeclaredGit { commit, .. } => assert_eq!(commit, "abc123"),
        other => panic!("expected DeclaredGit, got {other:?}"),
    }
}

#[test]
fn mgr_integrity_maps_to_ui_integrity() {
    assert_eq!(
        mgr_integrity_to_ui(&MgrIntegrity::Bundled),
        IntegrityStatus::Bundled
    );
    assert_eq!(
        mgr_integrity_to_ui(&MgrIntegrity::Verified),
        IntegrityStatus::Verified
    );
    assert_eq!(
        mgr_integrity_to_ui(&MgrIntegrity::PathLocal),
        IntegrityStatus::Verified
    );
    assert_eq!(
        mgr_integrity_to_ui(&MgrIntegrity::Unknown),
        IntegrityStatus::Unknown
    );
    assert_eq!(
        mgr_integrity_to_ui(&MgrIntegrity::Mismatch),
        IntegrityStatus::Mismatch
    );
}

#[test]
fn actions_match_plugin_kind() {
    let git = actions_for_kind(&PluginKind::DeclaredGit {
        source: "github:x/y".into(),
        commit: "abc".into(),
    });
    assert_eq!(
        git,
        vec![
            PluginAction::Update,
            PluginAction::Rollback,
            PluginAction::Revoke,
            PluginAction::AdjustScope,
        ]
    );
    let path = actions_for_kind(&PluginKind::PathLocal { path: "/x".into() });
    assert_eq!(
        path,
        vec![
            PluginAction::Reload,
            PluginAction::Revoke,
            PluginAction::AdjustScope,
        ]
    );
    let bundled = actions_for_kind(&PluginKind::Bundled);
    assert_eq!(bundled, vec![PluginAction::Update, PluginAction::Revoke]);
}

#[test]
fn pending_row_is_marked_awaiting_with_no_actions() {
    let rp = resolved("needs-approval", Provenance::Path, MgrIntegrity::Unknown);
    let row = pending_row(&rp, labels("◇", "unknown"));
    assert_eq!(row.name, "needs-approval");
    assert_eq!(row.version, "1.2.3");
    assert_eq!(row.integrity, IntegrityStatus::Unknown);
    assert!(row.actions.is_empty(), "pending row offers no actions");
    assert!(matches!(row.kind, PluginKind::PathLocal { .. }));
    assert_eq!(row.permissions.len(), 1);
    assert_eq!(row.permissions[0].requested, "storage:persistent");
}

#[test]
fn bundled_loaded_row_kind_integrity_actions() {
    let rp = resolved("bookmarks", Provenance::Bundled, MgrIntegrity::Bundled);
    let kind = provenance_to_kind(rp.provenance, &rp.dir);
    assert!(matches!(kind, PluginKind::Bundled));
    assert_eq!(mgr_integrity_to_ui(&rp.integrity), IntegrityStatus::Bundled);
    assert_eq!(
        actions_for_kind(&kind),
        vec![PluginAction::Update, PluginAction::Revoke]
    );
}

#[test]
fn dev_mode_loaded_row_kind_integrity_actions() {
    let rp = resolved("my-dev-plugin", Provenance::DevMode, MgrIntegrity::Unknown);

    let kind = provenance_to_kind(rp.provenance, &rp.dir);
    assert!(
        matches!(kind, PluginKind::DevMode { .. }),
        "DevMode provenance -> PluginKind::DevMode"
    );

    assert_eq!(
        ui_integrity(rp.provenance, &rp.integrity),
        IntegrityStatus::DevMode,
        "DevMode provenance overrides sync integrity"
    );

    assert_eq!(
        actions_for_kind(&kind),
        vec![
            PluginAction::Reload,
            PluginAction::Revoke,
            PluginAction::AdjustScope,
        ],
        "dev-mode shares the path action set"
    );
}

#[test]
fn implicit_local_loaded_row_kind_and_actions() {
    let rp = resolved(
        "dropped-in",
        Provenance::ImplicitLocal,
        MgrIntegrity::Unknown,
    );
    let kind = provenance_to_kind(rp.provenance, &rp.dir);
    assert!(
        matches!(kind, PluginKind::ImplicitLocal { .. }),
        "ImplicitLocal provenance -> PluginKind::ImplicitLocal"
    );
    assert_eq!(
        actions_for_kind(&kind),
        vec![PluginAction::Revoke, PluginAction::AdjustScope]
    );
}

#[test]
fn dev_mode_build_panel_row_shows_dev_mode() {
    let mut host = PluginHost::new();
    host.take_resolved(
        resolved("dev-widget", Provenance::DevMode, MgrIntegrity::PathLocal),
        Ok(ApprovalOutcome::AutoGrant),
        true,
    );

    let rows = host
        .loaded()
        .iter()
        .map(|rp| loaded_row(rp, &vec![], &vec![], &vec![], labels("⊙", "dev mode")))
        .collect();
    let panel = build_panel(rows, vec![], &vec![], "allowed", &vec![], &vec![]);
    let row = panel
        .plugins
        .iter()
        .find(|p| p.name == "dev-widget")
        .expect("dev-widget row present");
    assert!(matches!(row.kind, PluginKind::DevMode { .. }));
    assert_eq!(row.integrity, IntegrityStatus::DevMode);
    assert_eq!(
        row.actions,
        vec![
            PluginAction::Reload,
            PluginAction::Revoke,
            PluginAction::AdjustScope,
        ]
    );
}

#[test]
fn esc_neutralizes_markup() {
    assert_eq!(esc("<script>"), "&lt;script&gt;");
    assert_eq!(esc("a&b\"c'"), "a&amp;b&quot;c&#39;");
}

#[test]
fn human_bytes_scales() {
    assert_eq!(human_bytes(512), "512 B");
    assert_eq!(human_bytes(2048), "2.0 KB");
    assert!(human_bytes(3_000_000).ends_with("MB"));
}

#[test]
fn render_panel_html_includes_loaded_plugins() {
    let panel = IntegrityPanel {
        plugins: vec![PluginRow {
            name: "bookmarks".into(),
            version: "0.1.0".into(),
            fulfills: vec!["ui:bookmarks_provider".into()],
            consumes: vec![],
            permissions: vec![PermissionRow {
                requested: "storage:persistent".into(),
                effective: "storage:persistent".into(),
                narrowed: false,
                denied: false,
            }],
            secrets: vec![],
            last_used: None,
            integrity: IntegrityStatus::Bundled,
            kind: PluginKind::Bundled,
            actions: vec![],
            labels: labels("□", "bundled"),
        }],
        network_audit: vec![],
        storage: vec![],
        denials: vec![],
    };
    let html = render_panel_html(&panel);
    assert!(html.contains("bookmarks"));
    assert!(html.contains("ui:bookmarks_provider"));
    assert!(html.contains("v0.1.0"));
    assert!(html.contains("bundled"));
    assert!(!html.contains("1password"));
    assert!(!html.contains("vim-mode"));
}

#[test]
fn empty_panel_renders_placeholders() {
    let html = render_panel_html(&empty_panel());
    assert!(html.contains("no plugins loaded"));
}

#[test]
fn a_card_escapes_what_comes_from_the_plugin() {
    let mut rp = resolved("<b>", Provenance::Path, MgrIntegrity::Verified);
    rp.manifest.version = "1\"2".to_owned();
    let row = loaded_row(
        &rp,
        &vec!["net:fetch:<x>".to_owned()],
        &vec![],
        &vec![event("net:fetch", 3)],
        labels("'", "&"),
    );
    let mut panel = empty_panel();
    panel.plugins.push(row);
    let html = render_panel_html(&panel);
    assert!(html.contains("<span class=\"prov-glyph\">&#39;</span> &lt;b&gt;</div>"));
    assert!(html.contains("v1&quot;2</span>"));
    assert!(html.contains("<span class=\"dot\"></span>&amp;</span>"));
    assert!(html.contains("<li class=\"perm-row\"><code>net:fetch:&lt;x&gt;</code></li>"));
    assert!(html.contains(
        "<div class=\"plugin-caps\"><span class=\"prov-label\">fulfills</span> \
         <code>ui:thing</code></div>"
    ));
    assert!(html.contains("<span class=\"prov-label\">last used</span> just now</div>"));
    assert!(html.starts_with("<!doctype html>") && html.ends_with("</div></body></html>"));
}

#[test]
fn a_narrowed_permission_shows_both_forms() {
    let mut panel = empty_panel();
    let rp = resolved("p", Provenance::Bundled, MgrIntegrity::Bundled);
    let mut row = pending_row(&rp, labels("x", "y"));
    row.permissions = vec![PermissionRow {
        requested: "a:b:*".to_owned(),
        effective: "a:b:c".to_owned(),
        narrowed: true,
        denied: false,
    }];
    panel.plugins.push(row);
    let html = render_panel_html(&panel);
    assert!(html.contains("<code>a:b:*</code> → <code>a:b:c</code></li>"));
}

#[test]
fn sections_list_their_rows_or_say_that_there_are_none() {
    let html = render_panel_html(&empty_panel());
    assert!(html.contains("no audited activity yet"));
    assert!(html.contains("no plugin storage in use"));
    assert!(html.contains("<p class=\"empty\">no permission denials</p>"));
    let mut panel = empty_panel();
    panel.network_audit.push(AuditRow {
        actor: "a".to_owned(),
        count: 3,
        decision: "allowed".to_owned(),
    });
    panel.storage.push(StorageRow {
        plugin: "b".to_owned(),
        size_human: human_bytes(10),
        size_bytes: 10,
    });
    panel.denials.push(DenialRow {
        plugin: "c".to_owned(),
        permission: "d:e".to_owned(),
        when: relative_time(120),
    });
    let html = render_panel_html(&panel);
    assert!(html.contains(
        "<li class=\"audit-row\"><span class=\"audit-actor\">a</span> \
         <span class=\"badge\">allowed</span> <span class=\"audit-count\">3 calls</span></li>"
    ));
    assert!(html.contains("<li class=\"storage-row\"><span>b</span> <span>10 B</span></li>"));
    assert!(html.contains(
        "<li class=\"denial-row\"><span>c</span> <code>d:e</code> \
         <span class=\"denial-when\">2m ago</span></li>"
    ));
}

#[test]
fn section_heads_carry_a_count_where_one_is_given() {
    let plain = "<section class=\"integrity-section\"><div class=\"integrity-section-head\">\
                 <span class=\"section-label\"><span class=\"br\">[</span>storage\
                 <span class=\"br\">]</span></span></div>";
    assert_eq!(section_head("storage", None), plain);
    assert!(section_head("x", Some(12)).contains("<span class=\"section-count\">12</span></div>"));
}

#[test]
fn ages_use_the_largest_unit_that_fits() {
    let cases = [
        (0, "just now"),
        (4, "just now"),
        (5, "5s ago"),
        (59, "59s ago"),
        (60, "1m ago"),
        (3599, "59m ago"),
        (3600, "1h ago"),
        (86_399, "23h ago"),
        (86_400, "1d ago"),
        (u64::MAX, "213503982334601d ago"),
    ];
    for (secs, text) in cases {
        assert_eq!(relative_time(secs), text);
    }
}

#[test]
fn sizes_round_as_floating_point_does() {
    let mut sizes = vec![0, 1023, 1024, 1280, 1792, 1_048_575, 1_048_576, 3_000_000, u64::MAX];
    for shift in 20..64 {
        for offset in [0_u64, 1, 2, 3, 51, 52, 53, 1023] {
            sizes.push((1_u64 << shift) + offset);
            sizes.push((1_u64 << shift) - offset);
            sizes.push((1_u64 << shift) + (1 << (shift / 2)) + offset);
        }
    }
    for n in 0..5000_u64 {
        sizes.push(n * 53);
        sizes.push(1_048_576 + n * 52_429);
        sizes.push((1 << 53) + n);
    }
    for bytes in sizes {
        let expected = if bytes < 1024 {
            format!("{bytes} B")
        } else if bytes < 1024 * 1024 {
            format!("{:.1} KB", bytes as f64 / 1024.0)
        } else {
            format!("{:.1} MB", bytes as f64 / (1024.0 * 1024.0))
        };
        assert_eq!(human_bytes(bytes), expected, "{bytes}");
    }
}

#[test]
fn file_names_are_those_of_paths() {
    let paths = [
        "/cache/a/abc123",
        "/cache/a/abc123/",
        "/cache/a/abc123/.",
        "/cache/a/./abc//./",
        "abc",
        "/",
        "",
        ".",
        "..",
        "a/..",
        "./",
        "/.",
        "a.",
        "a/b.",
        "x/.hidden",
        "...",
    ];
    for path in paths {
        let expected = std::path::Path::new(path)
            .file_name()
            .and_then(|c| c.to_str())
            .unwrap_or_default();
        assert_eq!(file_name_of(path), expected, "{path:?}");
    }
}

#[test]
fn secrets_show_where_they_are_kept_and_when_they_were_read() {
    let rp = resolved("env-secret-user", Provenance::Path, MgrIntegrity::Verified);
    let row = loaded_row(
        &rp,
        &vec![
            "secret:read:MY_KEY".to_owned(),
            "tabs:list".to_owned(),
            "secret:read:OTHER".to_owned(),
        ],
        &vec![Some("env".to_owned()), None],
        &vec![event("secret:read:MY_KEY", 7200), event("secret:read:MY_KEY", 61), event("x", 5)],
        labels("x", "y"),
    );
    assert_eq!(row.secrets.len(), 2);
    assert_eq!(row.secrets[0].name, "MY_KEY");
    assert_eq!(row.secrets[0].backend, "env");
    assert_eq!(row.secrets[0].last_read.as_deref(), Some("1m ago"));
    assert_eq!(row.secrets[1].backend, "unknown");
    assert_eq!(row.secrets[1].last_read, None);
    assert_eq!(row.last_used.as_deref(), Some("5s ago"));
    assert_eq!(row.permissions.len(), 3);
    assert_eq!(last_used(&vec![]), None);
}

#[test]
fn loaded_row_populates_secret_rows_with_backend() {
    let rp = resolved("env-secret-user", Provenance::Path, MgrIntegrity::Verified);
    let rows = vec![loaded_row(
        &rp,
        &vec!["secret:read:MY_KEY".to_owned()],
        &vec![Some("env".to_owned())],
        &vec![],
        labels("x", "y"),
    )];
    let panel = build_panel(rows, vec![], &vec![], "allowed", &vec![], &vec![]);
    let row = panel
        .plugins
        .iter()
        .find(|p| p.name == "env-secret-user")
        .expect("plugin row must be present in the panel");
    assert_eq!(row.secrets.len(), 1);
    assert_eq!(row.secrets[0].name, "MY_KEY");
    assert_eq!(row.secrets[0].backend, "env");
    assert_eq!(row.secrets[0].last_read, None);
}

#[test]
fn loaded_row_unknown_backend_for_undefined_secret() {
    let rp = resolved("undef-secret-user", Provenance::Path, MgrIntegrity::Verified);
    let row = loaded_row(
        &rp,
        &vec!["secret:read:UNDEF".to_owned()],
        &vec![None],
        &vec![],
        labels("x", "y"),
    );
    assert_eq!(row.secrets.len(), 1);
    assert_eq!(row.secrets[0].name, "UNDEF");
    assert_eq!(
        row.secrets[0].backend, "unknown",
        "undefined secret must have backend label `unknown`"
    );
}

#[test]
fn activity_is_ranked_by_count_and_name() {
    let counts = vec![
        ("b".to_owned(), 2),
        ("c".to_owned(), 9),
        ("a".to_owned(), 2),
        ("d".to_owned(), 1),
    ];
    let rows = audit_rows(&counts, "allowed");
    let shown: Vec<_> = rows.iter().map(|r| (r.actor.as_str(), r.count)).collect();
    assert_eq!(shown, vec![("c", 9), ("a", 2), ("b", 2), ("d", 1)]);
    assert!(rows.iter().all(|r| r.decision == "allowed"));
}

#[test]
fn only_plugins_that_store_something_are_listed() {
    let rows = storage_rows(&vec![("a".to_owned(), 0), ("b".to_owned(), 2048)]);
    assert_eq!(rows.len(), 1);
    assert_eq!(rows[0].plugin, "b");
    assert_eq!(rows[0].size_human, "2.0 KB");
    let denials = vec![Denial { plugin: "p".to_owned(), operation: "x:y".to_owned(), age: 3600 }];
    assert_eq!(denial_rows(&denials)[0].when, "1h ago");
    let many: Vec<Denial> = (0..25)
        .map(|n| Denial { plugin: format!("p{n}"), operation: "x:y".to_owned(), age: n })
        .collect();
    let shown = build_panel(vec![], vec![], &vec![], "allowed", &many, &vec![]).denials;
    assert_eq!(shown.len(), DENIALS_SHOWN);
    assert_eq!((shown[0].plugin.as_str(), shown[19].plugin.as_str()), ("p0", "p19"));
}

#[test]
fn the_panel_shows_loaded_plugins_before_waiting_ones() {
    let a = resolved("a", Provenance::Bundled, MgrIntegrity::Bundled);
    let b = resolved("b", Provenance::Path, MgrIntegrity::Mismatch);
    let panel = build_panel(
        vec![loaded_row(&a, &vec![], &vec![], &vec![], labels("x", "y"))],
        vec![pending_row(&b, labels("x", "y"))],
        &vec![],
        "allowed",
        &vec![],
        &vec![],
    );
    assert_eq!(panel.plugins[0].name, "a");
    assert_eq!(panel.plugins[1].name, "b");
    assert_eq!(panel.plugins[1].fulfills, vec!["ui:thing"]);
    assert_eq!(panel.plugins[1].consumes, vec!["ui:other"]);
}
