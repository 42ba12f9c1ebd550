use mote_shell::approval::{
    approval_from_dialog, validate_dialog_origins, validate_origin_glob, Approval, DecidedPolicy,
    DialogPermission, DialogResult, Narrowing, MAX_ORIGINS_PER_PERMISSION, MAX_ORIGIN_GLOB_LEN,
};

fn make_result(
    decision: &str,
    perms: Vec<(&str, &str, &str, Option<Vec<&str>>)>,
) -> DialogResult {
    DialogResult {
        plugin: "test-plugin".into(),
        decision: decision.into(),
        permissions: perms
            .into_iter()
            .map(|(domain, action, mode, origins)| DialogPermission {
                domain: domain.into(),
                action: action.into(),
                mode: mode.into(),
                origins: origins.map(|v| v.into_iter().map(String::from).collect()),
            })
            .collect(),
    }
}

fn text_of(value: &serde_json::Value, name: &str) -> String {
    value.get(name).and_then(|v| v.as_str()).expect("a string field").to_owned()
}

fn read_payload(json: &str) -> DialogResult {
    let value: serde_json::Value = serde_json::from_str(json).expect("test payload parses");
    let permissions = value.get("permissions").and_then(|v| v.as_array()).expect("permissions");
    DialogResult {
        plugin: text_of(&value, "plugin"),
        decision: text_of(&value, "decision"),
        permissions: permissions
            .iter()
            .map(|p| DialogPermission {
                domain: text_of(p, "domain"),
                action: text_of(p, "action"),
                mode: text_of(p, "mode"),
                origins: p.get("origins").and_then(|o| o.as_array()).map(|list| {
                    list.iter().map(|o| o.as_str().expect("an origin").to_owned()).collect()
                }),
            })
            .collect(),
    }
}

fn validate_payload(json: &str) -> Result<(), &'static str> {
    validate_dialog_origins(&read_payload(json))
}

#[test]
fn decided_policy_grant_as_requested() {
    let policy = DecidedPolicy::new(Approval::GrantAsRequested);
    let result = policy.decide("p", &[]);
    assert!(
        matches!(result, Approval::GrantAsRequested),
        "expected GrantAsRequested"
    );
}

#[test]
fn decided_policy_grant_convenience() {
    let policy = DecidedPolicy::grant();
    let result = policy.decide("p", &[]);
    assert!(
        matches!(result, Approval::GrantAsRequested),
        "grant() shorthand must return GrantAsRequested"
    );
}

#[test]
fn decided_policy_narrow() {
    let narrowings = vec![Narrowing {
        domain: "page".into(),
        action: "inject_script".into(),
        resources: vec!["https://example.com/*".into()],
    }];
    let policy = DecidedPolicy::new(Approval::Narrow { narrowings });
    let result = policy.decide("p", &[]);
    match result {
        Approval::Narrow { narrowings: got } => {
            assert_eq!(got.len(), 1);
            assert_eq!(got[0].domain, "page");
            assert_eq!(got[0].action, "inject_script");
            assert_eq!(got[0].resources, vec!["https://example.com/*"]);
        }
        other => panic!("expected Narrow, got {other:?}"),
    }
}

#[test]
fn decided_policy_deny() {
    let policy = DecidedPolicy::new(Approval::Deny {
        reason: "test denial".into(),
    });
    let result = policy.decide("p", &[]);
    match result {
        Approval::Deny { reason } => assert_eq!(reason, "test denial"),
        other => panic!("expected Deny, got {other:?}"),
    }
}

#[test]
fn all_full_permissions_yields_grant_as_requested() {
    let result = make_result(
        "grant",
        vec![
            ("storage", "persistent", "full", None),
            ("tabs", "list", "full", None),
        ],
    );
    let approval = approval_from_dialog(&result);
    assert!(
        matches!(approval, Approval::GrantAsRequested),
        "all-full must yield GrantAsRequested"
    );
}

#[test]
fn origins_narrowed_permission_yields_narrow() {
    let result = make_result(
        "grant",
        vec![
            (
                "page",
                "inject_script",
                "origins",
                Some(vec!["https://example.com/*", "https://github.com/*"]),
            ),
            ("storage", "persistent", "full", None),
        ],
    );
    let approval = approval_from_dialog(&result);
    match approval {
        Approval::Narrow { narrowings } => {
            assert_eq!(narrowings.len(), 1, "expected exactly 1 narrowing");
            let n = &narrowings[0];
            assert_eq!(n.domain, "page");
            assert_eq!(n.action, "inject_script");
            assert_eq!(
                n.resources,
                vec!["https://example.com/*", "https://github.com/*"]
            );
        }
        other => panic!("expected Narrow, got {other:?}"),
    }
}

#[test]
fn overall_deny_yields_approval_deny() {
    let result = make_result("deny", vec![("storage", "persistent", "full", None)]);
    let approval = approval_from_dialog(&result);
    assert!(
        matches!(approval, Approval::Deny { .. }),
        "overall deny must yield Approval::Deny"
    );
}

#[test]
fn per_permission_deny_forces_overall_deny() {
    let result = make_result(
        "grant",
        vec![
            ("storage", "persistent", "full", None),
            ("page", "read_dom", "deny", None),
        ],
    );
    let approval = approval_from_dialog(&result);
    assert!(
        matches!(approval, Approval::Deny { .. }),
        "per-permission deny must force Approval::Deny"
    );
}

#[test]
fn multiple_origins_permissions_yields_multiple_narrowings() {
    let result = make_result(
        "grant",
        vec![
            (
                "page",
                "inject_script",
                "origins",
                Some(vec!["https://a.com/*"]),
            ),
            (
                "net",
                "intercept_request",
                "origins",
                Some(vec!["https://b.com/*"]),
            ),
        ],
    );
    let approval = approval_from_dialog(&result);
    match approval {
        Approval::Narrow { narrowings } => {
            assert_eq!(narrowings.len(), 2, "expected 2 narrowings");
        }
        other => panic!("expected Narrow, got {other:?}"),
    }
}

#[test]
fn origins_mode_with_none_origins_is_deny() {
    let result = make_result("grant", vec![("page", "inject_script", "origins", None)]);
    let approval = approval_from_dialog(&result);
    assert!(
        matches!(approval, Approval::Deny { .. }),
        "origins mode with None origins must yield Approval::Deny, got {approval:?}"
    );
}

#[test]
fn origins_mode_with_empty_origins_is_deny() {
    let result = make_result(
        "grant",
        vec![("page", "inject_script", "origins", Some(vec![]))],
    );
    let approval = approval_from_dialog(&result);
    assert!(
        matches!(approval, Approval::Deny { .. }),
        "origins mode with empty origins must yield Approval::Deny, got {approval:?}"
    );
}

#[test]
fn dialog_result_plugin_accessor() {
    let result = DialogResult {
        plugin: "my-plugin".into(),
        decision: "grant".into(),
        permissions: vec![],
    };
    assert_eq!(result.plugin(), "my-plugin");
}

#[test]
fn valid_origin_globs_pass() {
    for s in [
        "*",
        "https://example.com/*",
        "https://*.example.com/*",
        "http://localhost:3000/*",
        "*.github.com",
        "https://example.com/path?query",
        "user@host:1234/*",
        "~/local-ish",
        "a",
    ] {
        assert!(validate_origin_glob(s), "must accept origin glob: {s:?}");
    }
}

#[test]
fn empty_origin_glob_is_rejected() {
    assert!(
        !validate_origin_glob(""),
        "empty glob is not a valid origin"
    );
}

#[test]
fn over_length_origin_glob_is_rejected() {
    let ok = "a".repeat(MAX_ORIGIN_GLOB_LEN);
    assert!(validate_origin_glob(&ok), "at the cap is allowed");
    let too_long = "a".repeat(MAX_ORIGIN_GLOB_LEN + 1);
    assert!(
        !validate_origin_glob(&too_long),
        "over the cap must be rejected"
    );
}

#[test]
fn control_chars_and_whitespace_are_rejected() {
    for s in [
        "https://e.com/\n",
        "https://e.com/ ",
        "\thttps://e.com",
        "https://e\0.com",
        "https://e.com/\r\n",
    ] {
        assert!(
            !validate_origin_glob(s),
            "control/whitespace must be rejected: {s:?}"
        );
    }
}

#[test]
fn quotes_backslash_and_markup_are_rejected() {
    for s in [
        "https://e.com/\"",
        "https://e.com/'",
        "https://e.com\\admin",
        "<script>alert(1)</script>",
        "https://e.com/<img>",
        "https://e.com/\">x",
        "java%73cript:alert(1)",
    ] {
        assert!(
            !validate_origin_glob(s),
            "injection-shaped input must be rejected: {s:?}"
        );
    }
}

#[test]
fn non_ascii_is_rejected() {
    assert!(!validate_origin_glob("https://exa\u{0430}mple.com/*"));
    assert!(!validate_origin_glob("https://例え.com/*"));
}

#[test]
fn approve_payload_with_valid_origins_passes_op_boundary() {
    let json = r#"{"plugin":"p","decision":"grant","permissions":[
        {"domain":"page:inject_script","action":"*","mode":"origins",
         "origins":["https://example.com/*","https://*.github.com/*"]}]}"#;
    assert!(validate_payload(json).is_ok(), "valid origin globs pass");
}

#[test]
fn approve_payload_with_full_mode_skips_origin_validation() {
    let json = r#"{"plugin":"p","decision":"grant","permissions":[
        {"domain":"storage:persistent","action":"","mode":"full"}]}"#;
    assert!(validate_payload(json).is_ok());
}

#[test]
fn approve_payload_with_injection_origin_is_rejected() {
    let json = r#"{"plugin":"p","decision":"grant","permissions":[
        {"domain":"page:inject_script","action":"*","mode":"origins",
         "origins":["<script>alert(1)</script>"]}]}"#;
    assert_eq!(
        validate_payload(json),
        Err("approve_plugin: invalid origin glob"),
        "an injection-shaped origin must be rejected at the op boundary"
    );
}

#[test]
fn approve_payload_over_origin_count_cap_is_rejected() {
    let origins: Vec<String> = (0..=MAX_ORIGINS_PER_PERMISSION)
        .map(|i| format!("https://h{i}.example.com/*"))
        .collect();
    let result = DialogResult {
        plugin: "p".into(),
        decision: "grant".into(),
        permissions: vec![DialogPermission {
            domain: "page:inject_script".into(),
            action: "*".into(),
            mode: "origins".into(),
            origins: Some(origins),
        }],
    };
    assert_eq!(
        validate_dialog_origins(&result),
        Err("approve_plugin: too many origins for a permission"),
        "exceeding the per-permission origin cap must be rejected"
    );
}

#[test]
fn a_denial_says_why() {
    let denied = approval_from_dialog(&make_result("deny", vec![]));
    let one = approval_from_dialog(&make_result("grant", vec![("a", "b", "deny", None)]));
    let none = approval_from_dialog(&make_result("grant", vec![("a", "b", "origins", None)]));
    let reason = |a: Approval| match a {
        Approval::Deny { reason } => reason,
        other => panic!("expected a denial, got {other:?}"),
    };
    assert_eq!(
        reason(denied),
        "plugin 'test-plugin' was denied by the user in the approval dialog"
    );
    assert_eq!(
        reason(one),
        "plugin 'test-plugin' was denied: at least one required permission was denied"
    );
    assert_eq!(
        reason(none),
        "plugin 'test-plugin' was denied: permission 'a:b' was narrowed to origins but no \
         origins were provided (malformed dialog result)"
    );
}

#[test]
fn the_number_of_origins_comes_before_their_form() {
    let origins = vec!["<bad>"; MAX_ORIGINS_PER_PERMISSION + 1];
    let result = make_result("grant", vec![("a", "b", "origins", Some(origins))]);
    assert_eq!(
        validate_dialog_origins(&result),
        Err("approve_plugin: too many origins for a permission")
    );
    let full = make_result("grant", vec![("a", "b", "full", Some(vec!["<bad>"]))]);
    assert_eq!(validate_dialog_origins(&full), Ok(()));
}
