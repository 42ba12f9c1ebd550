use mote_shell::request::{
    build_update_request, classify, collect_new_surface, permission_keys,
    permission_to_narrowable as narrowable, provenance_label, reapproval_request, records_approval,
    ApprovalOutcome, ClassifyError, Delta, DeltaKind, DiffReport, Manifest, NarrowMode,
    NarrowablePermission, ParsedPermission, PriorApproval, Provenance, RequestedPermission,
};

fn permission(raw: &str) -> RequestedPermission {
    let mut parts = raw.splitn(3, ':');
    let domain = parts.next().unwrap_or("").to_owned();
    let parsed = parts.next().map(|action| ParsedPermission {
        domain,
        action: action.to_owned(),
        resource: parts.next().map(str::to_owned),
    });
    RequestedPermission { raw: raw.to_owned(), parsed }
}

fn permission_to_narrowable(raw: &str) -> NarrowablePermission {
    narrowable(&permission(raw))
}

fn manifest(name: &str, version: &str, permissions: &[&str], capabilities: &[&str]) -> Manifest {
    Manifest {
        name: name.to_owned(),
        version: version.to_owned(),
        permissions: permissions.iter().map(|p| permission(p)).collect(),
        capabilities: capabilities.iter().map(|c| (*c).to_owned()).collect(),
        consumes: Vec::new(),
    }
}

fn base() -> Manifest {
    manifest("test-plugin", "1.0", &["storage:persistent", "tabs:list"], &[])
}

fn changes(before: &[String], after: &[String]) -> Vec<Delta> {
    let added = after.iter().filter(|t| !before.contains(t)).map(|t| Delta {
        kind: DeltaKind::Added,
        term: t.clone(),
    });
    let removed = before.iter().filter(|t| !after.contains(t)).map(|t| Delta {
        kind: DeltaKind::Removed,
        term: t.clone(),
    });
    added.chain(removed).collect()
}

fn prior(approved: &Manifest, candidate: &Manifest) -> PriorApproval {
    let raw = |m: &Manifest| m.permissions.iter().map(|p| p.raw.clone()).collect::<Vec<_>>();
    let report = DiffReport {
        permission_changes: changes(&raw(approved), &raw(candidate)),
        capability_changes: changes(&approved.capabilities, &candidate.capabilities),
        consumes_changes: changes(&approved.consumes, &candidate.consumes),
        identity_scope_change: None,
    };
    if collect_new_surface(&report).is_empty() {
        PriorApproval::Covered
    } else {
        PriorApproval::Expanded(report)
    }
}

#[test]
fn bundled_provenance_is_auto_grant() {
    let manifest = base();
    let result = classify(&manifest, Provenance::Bundled, PriorApproval::Missing, Vec::new()).unwrap();
    assert!(
        matches!(result, ApprovalOutcome::AutoGrant),
        "bundled must auto-grant"
    );
}

#[test]
fn devmode_provenance_is_auto_grant() {
    let manifest = base();
    let result = classify(&manifest, Provenance::DevMode, PriorApproval::Missing, Vec::new()).unwrap();
    assert!(
        matches!(result, ApprovalOutcome::AutoGrant),
        "dev-mode must auto-grant"
    );
}

#[test]
fn first_install_needs_dialog() {
    let manifest = base();
    let result = classify(&manifest, Provenance::Path, PriorApproval::Missing, Vec::new()).unwrap();
    match result {
        ApprovalOutcome::NeedsDialog(req) => {
            assert!(!req.is_update, "first install must not be is_update");
            assert!(
                req.new_permissions.is_empty(),
                "first install must have empty new_permissions"
            );
            assert_eq!(req.plugin, "test-plugin");
        }
        ApprovalOutcome::AutoGrant => panic!("first install must need dialog"),
    }
}

#[test]
fn first_install_needs_dialog_git_provenance() {
    let manifest = base();
    let result = classify(&manifest, Provenance::DeclaredGit, PriorApproval::Missing, Vec::new()).unwrap();
    assert!(
        matches!(result, ApprovalOutcome::NeedsDialog(_)),
        "git first install must need dialog"
    );
}

#[test]
fn prior_equal_hash_is_auto_grant() {
    let manifest = base();

    let result = classify(&manifest, Provenance::Path, prior(&base(), &manifest), Vec::new()).unwrap();
    assert!(
        matches!(result, ApprovalOutcome::AutoGrant),
        "equal hash must auto-grant"
    );
}

#[test]
fn contracting_manifest_is_auto_grant() {
    let base = base();
    let contracted = manifest("test-plugin", "2.0", &["storage:persistent"], &[]);

    let result = classify(&contracted, Provenance::DeclaredGit, prior(&base, &contracted), Vec::new()).unwrap();
    assert!(
        matches!(result, ApprovalOutcome::AutoGrant),
        "contracting manifest must auto-grant"
    );
}

#[test]
fn expanding_manifest_needs_dialog_with_new_permissions() {
    let base = base();
    let expanded = manifest(
        "test-plugin",
        "2.0",
        &["storage:persistent", "tabs:list", "history:read"],
        &[],
    );

    let result = classify(&expanded, Provenance::DeclaredGit, prior(&base, &expanded), Vec::new()).unwrap();
    match result {
        ApprovalOutcome::NeedsDialog(req) => {
            assert!(req.is_update, "expanding update must be is_update=true");
            assert!(
                req.new_permissions.contains(&"history:read".to_owned()),
                "history:read must appear in new_permissions; got: {:?}",
                req.new_permissions
            );
        }
        ApprovalOutcome::AutoGrant => panic!("expanding manifest must need dialog"),
    }
}

#[test]
fn capability_only_expansion_surfaces_in_new_permissions() {
    let base = base();
    let cap_added = manifest(
        "test-plugin",
        "2.0",
        &["storage:persistent", "tabs:list"],
        &["theme:provider"],
    );

    let result = classify(&cap_added, Provenance::DeclaredGit, prior(&base, &cap_added), Vec::new()).unwrap();
    match result {
        ApprovalOutcome::NeedsDialog(req) => {
            assert!(req.is_update, "capability expansion must be is_update=true");
            assert!(
                req.new_permissions
                    .contains(&"capability:theme:provider".to_owned()),
                "capability:theme:provider must appear in new_permissions; got: {:?}",
                req.new_permissions
            );
        }
        ApprovalOutcome::AutoGrant => panic!("capability expansion must need dialog"),
    }
}

/// A registry with one dangerous combination.
fn warnings_for(m: &Manifest) -> Vec<String> {
    let keys = permission_keys(&m.permissions);
    let has = |key: &str| keys.iter().any(|k| k == key);
    if has("page:read_dom") && has("mcp:server") {
        vec!["reads pages and serves them".to_owned()]
    } else {
        vec![]
    }
}

#[test]
fn combo_triggers_dangerous_combinations_in_request() {
    let both = manifest("spy-plugin", "1.0", &["page:read_dom", "mcp:server"], &[]);
    let one = manifest("reader", "1.0", &["page:read_dom", "tabs:list"], &[]);

    assert_eq!(permission_keys(&both.permissions), vec!["mcp:server", "page:read_dom"]);
    let result =
        classify(&both, Provenance::DeclaredGit, PriorApproval::Missing, warnings_for(&both))
            .unwrap();
    match result {
        ApprovalOutcome::NeedsDialog(req) => {
            assert!(
                !req.dangerous_combinations.is_empty(),
                "page:read_dom + mcp:server must trigger dangerous combinations; got: {:?}",
                req.dangerous_combinations
            );
            assert_eq!(req.dangerous_combinations, warnings_for(&both));
        }
        ApprovalOutcome::AutoGrant => panic!("first install must need dialog"),
    }
    let result =
        classify(&one, Provenance::DeclaredGit, PriorApproval::Missing, warnings_for(&one))
            .unwrap();
    match result {
        ApprovalOutcome::NeedsDialog(req) => assert!(req.dangerous_combinations.is_empty()),
        ApprovalOutcome::AutoGrant => panic!("first install must need dialog"),
    }
}

#[test]
fn narrowable_only_for_origin_shaped_resources() {
    let secret = permission_to_narrowable("secret:read:anthropic_api_key");
    assert!(
        !secret.narrowable,
        "bare-name dynamic resource must not be narrowable"
    );
    assert_eq!(secret.requested_scope, "anthropic_api_key");

    let mcp = permission_to_narrowable("mcp:client:my-server");
    assert!(
        !mcp.narrowable,
        "bare-name mcp server resource must not be narrowable"
    );

    let inject_star = permission_to_narrowable("page:inject_script:*");
    assert!(inject_star.narrowable, "`*` resource must be narrowable");
    assert_eq!(inject_star.requested_scope, "*");

    let inject_origin = permission_to_narrowable("page:inject_script:https://*.example.com/*");
    assert!(
        inject_origin.narrowable,
        "origin-glob resource must be narrowable"
    );

    let storage = permission_to_narrowable("storage:persistent");
    assert!(
        !storage.narrowable,
        "no-resource permission must not be narrowable"
    );
    assert_eq!(storage.requested_scope, "");
}

#[test]
fn an_unreadable_store_is_an_error_unless_the_plugin_is_trusted() {
    let m = base();
    let failed = classify(&m, Provenance::Path, PriorApproval::Unreadable, Vec::new());
    assert!(matches!(failed, Err(ClassifyError::Store)));
    let bundled = classify(&m, Provenance::Bundled, PriorApproval::Unreadable, Vec::new());
    assert!(matches!(bundled, Ok(ApprovalOutcome::AutoGrant)));
}

#[test]
fn the_dialog_shows_the_bare_domain_and_action() {
    let p = permission_to_narrowable("page:inject_script:https://*.example.com/*");
    assert_eq!((p.domain.as_str(), p.action.as_str()), ("page", "inject_script"));
    assert_eq!(p.requested_scope, "https://*.example.com/*");
    assert_eq!(p.description, "page:inject_script:https://*.example.com/*");
    assert_eq!(p.mode, NarrowMode::GrantFull);
    assert!(p.high_risk);
    assert!(!permission_to_narrowable("tabs:list").high_risk);
    let odd = permission_to_narrowable("nonsense");
    assert_eq!((odd.domain.as_str(), odd.action.as_str()), ("nonsense", ""));
    assert!(!odd.narrowable);
}

#[test]
fn permission_keys_are_sorted_and_distinct() {
    let list = ["tabs:list", "page:read_dom:*", "page:read_dom:https://a/*", "odd"];
    let permissions: Vec<_> = list.iter().map(|p| permission(p)).collect();
    assert_eq!(permission_keys(&permissions), vec!["odd", "page:read_dom", "tabs:list"]);
}

#[test]
fn every_kind_of_expansion_is_listed() {
    let delta = |kind, term: &str| Delta { kind, term: term.to_owned() };
    let report = DiffReport {
        permission_changes: vec![
            delta(DeltaKind::Removed, "gone:now"),
            delta(DeltaKind::Added, "history:read"),
        ],
        capability_changes: vec![delta(DeltaKind::Added, "theme:provider")],
        consumes_changes: vec![delta(DeltaKind::Added, "ui:panel")],
        identity_scope_change: Some(("Global".to_owned(), "PerIdentity".to_owned())),
    };
    assert_eq!(
        collect_new_surface(&report),
        vec![
            "history:read",
            "capability:theme:provider",
            "consumes:ui:panel",
            "identity_scope: Global → PerIdentity",
        ]
    );
}

#[test]
fn provenance_decides_label_and_record() {
    let all = [
        (Provenance::Bundled, "bundled", false),
        (Provenance::DevMode, "dev-mode", false),
        (Provenance::DeclaredGit, "git", true),
        (Provenance::Path, "path", true),
        (Provenance::ImplicitLocal, "local", true),
    ];
    for (provenance, label, recorded) in all {
        assert_eq!(provenance_label(provenance), label);
        assert_eq!(records_approval(provenance), recorded);
    }
}

#[test]
fn a_reapproval_shows_what_is_new_where_it_is_known() {
    let m = manifest("test-plugin", "2.0", &["tabs:list", "history:read"], &[]);
    let old = manifest("test-plugin", "1.0", &["tabs:list"], &[]);
    let known = classify(&m, Provenance::DeclaredGit, prior(&old, &m), Vec::new());
    let shown = reapproval_request(known, &m, Provenance::DeclaredGit, Vec::new());
    assert!(shown.is_update);
    assert_eq!(shown.new_permissions, vec!["history:read"]);
    let bare = reapproval_request(
        Err(ClassifyError::Store),
        &m,
        Provenance::DeclaredGit,
        vec!["careful".to_owned()],
    );
    assert!(bare.is_update);
    assert!(bare.new_permissions.is_empty());
    assert_eq!(bare.dangerous_combinations, vec!["careful"]);
    let update = build_update_request(&m, Provenance::Path, Vec::new(), Vec::new());
    assert_eq!(update.source, "path");
    assert_eq!(update.permissions.len(), 2);
}
