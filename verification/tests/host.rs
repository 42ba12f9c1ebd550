use mote_shell::approval::{Approval, DialogPermission, DialogResult};
use mote_shell::host::{
    grant_without_secret, secret_names, ApproveOutcome, ApproveStep, LoadCall, LoadReport,
    MgrIntegrity, PluginHost, ResolvedPlugin,
};
use mote_shell::request::{
    classify, ApprovalOutcome, ClassifyError, Manifest, ParsedPermission, PriorApproval,
    Provenance, RequestedPermission,
};

fn permission(raw: &str) -> RequestedPermission {
    let mut parts = raw.splitn(3, ':');
    let domain = parts.next().unwrap_or("").to_owned();
    let parsed = parts.next().map(|action| ParsedPermission {
        domain,
        action: action.to_owned(),
        resource: parts.next().map(str::to_owned),
    });
    RequestedPermission { raw: raw.to_owned(), parsed }
}

fn plugin(name: &str, permissions: &[&str]) -> ResolvedPlugin {
    ResolvedPlugin {
        provenance: Provenance::Path,
        dir: format!("/plugins/{name}"),
        manifest: Manifest {
            name: name.to_owned(),
            version: "0.1.0".to_owned(),
            permissions: permissions.iter().map(|p| permission(p)).collect(),
            capabilities: vec![],
            consumes: vec![],
        },
        integrity: MgrIntegrity::PathLocal,
        init_source: "return M".to_owned(),
    }
}

fn take(host: &mut PluginHost, rp: ResolvedPlugin, prior: PriorApproval, load_ok: bool) -> bool {
    let outcome = classify(&rp.manifest, rp.provenance, prior, vec![]);
    host.take_resolved(rp, outcome, load_ok)
}

fn host_with_pending_perms(name: &str, permissions: &[&str]) -> PluginHost {
    let mut host = PluginHost::new();
    take(&mut host, plugin(name, permissions), PriorApproval::Missing, true);
    assert!(pending(&host, name), "plugin `{name}` must be pending after the load pass");
    host
}

fn host_with_pending_plugin(name: &str) -> PluginHost {
    host_with_pending_perms(name, &["storage:persistent"])
}

fn loaded(host: &PluginHost, name: &str) -> bool {
    host.loaded().iter().any(|rp| rp.manifest.name == name)
}

fn pending(host: &PluginHost, name: &str) -> bool {
    host.pending().iter().any(|(rp, _)| rp.manifest.name == name)
}

fn approve_with(
    host: &mut PluginHost,
    result: &DialogResult,
    running: bool,
    load_ok: bool,
) -> LoadReport {
    match host.approve_pending(result, running) {
        ApproveStep::Done(outcome) => LoadReport { outcome, record: false },
        ApproveStep::Load { index, call, .. } => {
            assert_eq!(call, if running { LoadCall::Reload } else { LoadCall::Load });
            host.approval_loaded(index, load_ok)
        }
    }
}

fn approve(host: &mut PluginHost, result: &DialogResult, load_ok: bool) -> ApproveOutcome {
    approve_with(host, result, false, load_ok).outcome
}

fn grant_full(plugin: &str, domain: &str, action: &str) -> DialogResult {
    DialogResult {
        plugin: plugin.to_owned(),
        decision: "grant".to_owned(),
        permissions: vec![DialogPermission {
            domain: domain.to_owned(),
            action: action.to_owned(),
            mode: "full".to_owned(),
            origins: None,
        }],
    }
}

#[test]
fn approve_pending_grant_loads_and_records_approval() {
    let mut host = host_with_pending_plugin("grant-me");
    let result = grant_full("grant-me", "storage", "persistent");

    let report = approve_with(&mut host, &result, false, true);
    assert_eq!(
        report.outcome,
        ApproveOutcome::Loaded,
        "grant must load the plugin"
    );
    assert!(report.record, "the approval is recorded so a later launch auto-grants it");
    assert!(loaded(&host, "grant-me"), "approved plugin moves into loaded");
    assert!(!pending(&host, "grant-me"), "approved plugin leaves pending");
}

#[test]
fn approve_pending_deny_drops_without_loading() {
    let mut host = host_with_pending_plugin("deny-me");
    let mut result = grant_full("deny-me", "storage", "persistent");
    result.decision = "deny".to_owned();

    let outcome = approve(&mut host, &result, true);
    assert_eq!(outcome, ApproveOutcome::Denied, "deny must drop the plugin");
    assert!(!loaded(&host, "deny-me"), "denied plugin must NOT load");
    assert!(!pending(&host, "deny-me"), "denied plugin leaves pending");
}

#[test]
fn approve_pending_for_non_pending_plugin_is_dropped() {
    let mut host = host_with_pending_plugin("real-plugin");
    let result = grant_full("ghost-plugin", "storage", "persistent");
    let outcome = approve(&mut host, &result, true);
    assert_eq!(
        outcome,
        ApproveOutcome::NotPending,
        "an approve for a non-pending plugin is dropped"
    );
    assert!(pending(&host, "real-plugin"), "the real pending plugin is left intact");
}

#[test]
fn approve_pending_with_unrequested_permission_is_dropped() {
    let mut host = host_with_pending_plugin("strict");
    let result = grant_full("strict", "secret", "read");
    let outcome = approve(&mut host, &result, true);
    assert_eq!(
        outcome,
        ApproveOutcome::NotPending,
        "answering an unrequested permission must be dropped"
    );
    assert!(!loaded(&host, "strict"), "a mismatched result must not load the plugin");
}

#[test]
fn approve_pending_with_unrequested_action_in_same_domain_is_dropped() {
    let mut host = host_with_pending_plugin("same-domain");
    let result = grant_full("same-domain", "storage", "memory");
    assert_eq!(
        approve(&mut host, &result, true),
        ApproveOutcome::NotPending,
        "an unrequested action in a requested domain must be dropped"
    );
    assert!(!loaded(&host, "same-domain"), "a mismatched action must not load the plugin");
}

#[test]
fn revoke_unloads_and_drops_approval() {
    let mut host = host_with_pending_plugin("revoke-me");
    let _ = approve(&mut host, &grant_full("revoke-me", "storage", "persistent"), true);
    assert!(loaded(&host, "revoke-me"), "loaded before revoke");
    assert!(
        !host.revoke_plugin("revoke-me", false),
        "a plugin that still runs keeps its approval"
    );
    assert!(loaded(&host, "revoke-me"), "a plugin that still runs stays loaded");
    assert!(
        host.revoke_plugin("revoke-me", true),
        "revoke drops the stored approval"
    );
    assert!(
        !loaded(&host, "revoke-me"),
        "revoke removes the plugin from the loaded set"
    );
}

#[test]
fn adjust_scope_parks_loaded_plugin_for_reapproval() {
    let mut host = host_with_pending_plugin("scope-me");
    let _ = approve(&mut host, &grant_full("scope-me", "storage", "persistent"), true);
    assert!(loaded(&host, "scope-me"));

    assert!(
        host.adjust_scope_request("scope-me", vec![]),
        "adjust-scope yields a re-approval request"
    );
    let (_, req) = host.pending().last().unwrap();
    assert!(req.is_update, "adjust-scope dialog is an update dialog");
    assert!(
        pending(&host, "scope-me"),
        "the plugin is parked as pending for re-approval"
    );
    assert!(!loaded(&host, "scope-me"));

    let again = grant_full("scope-me", "storage", "persistent");
    let outcome = approve_with(&mut host, &again, true, true).outcome;
    assert_eq!(
        outcome,
        ApproveOutcome::Loaded,
        "re-approve reloads via reload"
    );
    assert!(
        loaded(&host, "scope-me"),
        "re-approved plugin returns to the loaded set"
    );
}

#[test]
fn approve_pending_origins_narrowing_restricts_effective_grant() {
    let mut host = host_with_pending_perms("narrow-me", &["page:inject_script:*"]);
    let mut result = grant_full("narrow-me", "page", "inject_script");
    result.permissions[0].mode = "origins".to_owned();
    result.permissions[0].origins = Some(vec!["https://example.com/*".to_owned()]);

    let (index, approval) = match host.approve_pending(&result, false) {
        ApproveStep::Load { index, approval, .. } => (index, approval),
        other => panic!("a narrowed grant must load the plugin, got {other:?}"),
    };
    match approval {
        Approval::Narrow { narrowings } => {
            assert_eq!(narrowings.len(), 1);
            assert_eq!(narrowings[0].domain, "page");
            assert_eq!(narrowings[0].action, "inject_script");
            assert_eq!(narrowings[0].resources, vec!["https://example.com/*"]);
        }
        other => panic!("the grant must be narrowed to the chosen origin, got {other:?}"),
    }
    assert_eq!(
        host.approval_loaded(index, true).outcome,
        ApproveOutcome::Loaded,
        "a narrowed grant must load the plugin"
    );
}

#[test]
fn approve_pending_advances_through_multiple_pending() {
    let mut host = host_with_pending_plugin("pending-a");
    let b = plugin("pending-b", &["storage:persistent"]);
    take(&mut host, b, PriorApproval::Missing, true);
    assert_eq!(host.pending().len(), 2, "both unapproved plugins are pending");

    let outcome = approve(&mut host, &grant_full("pending-a", "storage", "persistent"), true);
    assert_eq!(outcome, ApproveOutcome::Loaded);
    assert_eq!(
        host.pending().len(),
        1,
        "exactly one pending entry remains after resolving the first"
    );
    assert_eq!(
        host.pending()[0].0.manifest.name,
        "pending-b",
        "the remaining pending entry is the second plugin"
    );
}

fn narrowed_resources(approval: Approval) -> Vec<String> {
    match approval {
        Approval::Narrow { mut narrowings } => {
            assert_eq!(narrowings.len(), 1);
            assert_eq!(narrowings[0].domain, "secret");
            assert_eq!(narrowings[0].action, "read");
            narrowings.remove(0).resources
        }
        other => panic!("expected a narrowing, got {other:?}"),
    }
}

#[test]
fn revoke_secret_removes_target_keeps_other() {
    let effective = vec!["secret:read:A".to_owned(), "secret:read:B".to_owned()];
    assert_eq!(secret_names(&effective), vec!["A", "B"]);
    let left = narrowed_resources(grant_without_secret(&effective, "A"));
    assert_eq!(left, vec!["B"]);
}

#[test]
fn revoke_last_secret_leaves_plugin_loaded_with_no_secret_grants() {
    let effective = vec!["secret:read:ONLY".to_owned(), "tabs:list".to_owned()];
    let left = narrowed_resources(grant_without_secret(&effective, "ONLY"));
    assert!(left.is_empty());
}

#[test]
fn a_plugin_that_did_not_load_still_waits() {
    let mut host = host_with_pending_plugin("broken");
    let result = grant_full("broken", "storage", "persistent");
    let report = approve_with(&mut host, &result, false, false);
    assert_eq!(report, LoadReport { outcome: ApproveOutcome::LoadFailed, record: false });
    assert!(pending(&host, "broken"));
    assert!(!loaded(&host, "broken"));
    assert_eq!(approve(&mut host, &result, true), ApproveOutcome::Loaded);
}

#[test]
fn the_load_pass_sorts_plugins_by_their_outcome() {
    let mut host = PluginHost::new();
    take(&mut host, plugin("known", &["tabs:list"]), PriorApproval::Covered, true);
    take(&mut host, plugin("broken", &["tabs:list"]), PriorApproval::Covered, false);
    take(&mut host, plugin("new", &["tabs:list"]), PriorApproval::Missing, true);
    take(&mut host, plugin("lost", &["tabs:list"]), PriorApproval::Unreadable, true);
    let names: Vec<_> = host.loaded().iter().map(|rp| rp.manifest.name.as_str()).collect();
    assert_eq!(names, vec!["known"]);
    let waiting: Vec<_> = host.pending().iter().map(|p| p.0.manifest.name.as_str()).collect();
    assert_eq!(waiting, vec!["new"]);
    host.take_resolved(plugin("x", &[]), Err(ClassifyError::Store), true);
    host.take_resolved(plugin("y", &[]), Ok(ApprovalOutcome::AutoGrant), true);
    assert_eq!(host.loaded_resolved("y"), Some(1));
    assert_eq!(host.loaded_resolved("x"), None);
}

#[test]
fn parking_replaces_what_stood_under_the_name() {
    let mut host = PluginHost::new();
    for name in ["a", "b", "a"] {
        take(&mut host, plugin(name, &["tabs:list"]), PriorApproval::Covered, true);
        take(&mut host, plugin(name, &["tabs:list"]), PriorApproval::Missing, true);
    }
    let fresh = plugin("a", &["history:read"]);
    let outcome = classify(&fresh.manifest, fresh.provenance, PriorApproval::Missing, vec![]);
    match outcome {
        Ok(ApprovalOutcome::NeedsDialog(req)) => host.park_pending(fresh, req),
        other => panic!("expected a dialog, got {other:?}"),
    }
    let names: Vec<_> = host.loaded().iter().map(|rp| rp.manifest.name.as_str()).collect();
    assert_eq!(names, vec!["b"]);
    let waiting: Vec<_> = host.pending().iter().map(|p| p.0.manifest.name.as_str()).collect();
    assert_eq!(waiting, vec!["b", "a"]);
    assert_eq!(host.pending()[1].0.manifest.permissions[0].raw, "history:read");
    assert!(!host.adjust_scope_request("a", vec![]));
}

#[test]
fn a_plugin_resolved_anew_takes_its_place() {
    let mut host = PluginHost::new();
    for name in ["a", "b"] {
        take(&mut host, plugin(name, &[]), PriorApproval::Covered, true);
    }
    let mut fresh = plugin("a", &[]);
    fresh.init_source = "new".to_owned();
    host.replace_loaded(fresh);
    host.replace_loaded(plugin("c", &[]));
    assert_eq!(host.loaded().len(), 2);
    assert_eq!(host.loaded()[0].init_source, "new");
    assert_eq!(host.loaded()[1].init_source, "return M");
}

#[test]
fn approvals_are_recorded_of_untrusted_plugins_that_load() {
    let mut host = PluginHost::new();
    assert!(take(&mut host, plugin("known", &[]), PriorApproval::Covered, true));
    assert!(!take(&mut host, plugin("broken", &[]), PriorApproval::Covered, false));
    assert!(!take(&mut host, plugin("new", &[]), PriorApproval::Missing, true));
    for provenance in [Provenance::Bundled, Provenance::DevMode] {
        let mut own = plugin("own", &["tabs:list"]);
        own.provenance = provenance;
        assert!(!take(&mut host, own, PriorApproval::Missing, true));
        assert!(host.adjust_scope_request("own", vec![]));
        let report = approve_with(&mut host, &grant_full("own", "tabs", "list"), true, true);
        assert_eq!(report, LoadReport { outcome: ApproveOutcome::Loaded, record: false });
        host.revoke_plugin("own", true);
    }
}

#[test]
fn a_source_is_kept_where_it_could_be_reloaded() {
    let mut host = PluginHost::new();
    for name in ["a", "b"] {
        take(&mut host, plugin(name, &[]), PriorApproval::Covered, true);
    }
    assert_eq!(host.reload_source("b", None).as_deref(), Some("return M"));
    assert_eq!(host.reload_source("b", Some("disk".to_owned())).as_deref(), Some("disk"));
    assert_eq!(host.reload_source("c", Some("disk".to_owned())), None);
    host.source_reloaded("b", "broken".to_owned(), false);
    assert_eq!(host.loaded()[1].init_source, "return M");
    host.source_reloaded("b", "fresh".to_owned(), true);
    host.source_reloaded("c", "lost".to_owned(), true);
    assert_eq!(host.loaded()[0].init_source, "return M");
    assert_eq!(host.loaded()[1].init_source, "fresh");
    assert_eq!(host.loaded()[1].manifest.name, "b");
    assert_eq!(host.loaded().len(), 2);
}

#[test]
fn a_secret_is_revoked_of_a_plugin_that_runs_and_is_loaded() {
    let mut host = PluginHost::new();
    take(&mut host, plugin("a", &[]), PriorApproval::Covered, true);
    let effective = || Some(vec!["secret:read:A".to_owned(), "secret:read:B".to_owned()]);
    let (source, grant) = host.revoke_secret("a", effective(), "A").expect("a revocation");
    assert_eq!(source, "return M");
    assert_eq!(narrowed_resources(grant), vec!["B"]);
    assert!(host.revoke_secret("a", None, "A").is_none());
    assert!(host.revoke_secret("b", effective(), "A").is_none());
}
