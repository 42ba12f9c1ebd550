use mote_shell::chrome::{
    apply_op, context_menu_payload, find_script, load_script, nav_script, theme_script,
    url_payload, ContextMenuKind, ContextMenuRequest,
};
use mote_shell::escape::{esc, js_string, url_percent_encode};
use mote_shell::url_analysis::UrlAnalysis;

const CAN_COPY: u32 = 8;
const CAN_PASTE: u32 = 16;
const CAN_SELECT_ALL: u32 = 64;

#[test]
fn js_string_escapes_injection_vectors() {
    assert_eq!(js_string("ab"), "\"ab\"");
    assert_eq!(js_string("a\"b"), "\"a\\\"b\"");
    assert_eq!(js_string("a\\b"), "\"a\\\\b\"");
    assert_eq!(js_string("a\nb"), "\"a\\nb\"");
    assert!(!js_string("</script>").contains("</script>"));
}

#[test]
fn d1_context_menu_payload_editable_sets_is_editable_and_edit_flags() {
    let req = ContextMenuRequest {
        kind: ContextMenuKind::Editable,
        target_url: None,
        selected_text: None,
        x: 50,
        y: 100,
        can_go_back: false,
        can_go_forward: false,
        is_editable: true,
        edit_flags: CAN_COPY | CAN_PASTE | CAN_SELECT_ALL,
    };
    let payload = context_menu_payload(&req);
    assert!(
        payload.contains("\"isEditable\":true"),
        "payload must contain isEditable:true; got: {payload}"
    );
    let expected_flags = CAN_COPY | CAN_PASTE | CAN_SELECT_ALL;
    assert!(
        payload.contains(&format!("\"editFlags\":{expected_flags}")),
        "payload must contain editFlags:{expected_flags}; got: {payload}"
    );
    assert!(
        payload.contains("\"kind\":\"editable\""),
        "payload kind must be \"editable\"; got: {payload}"
    );
}

#[test]
fn d1_context_menu_payload_page_kind_has_false_editable() {
    let req = ContextMenuRequest {
        kind: ContextMenuKind::Page,
        target_url: None,
        selected_text: None,
        x: 0,
        y: 0,
        can_go_back: false,
        can_go_forward: false,
        is_editable: false,
        edit_flags: 0,
    };
    let payload = context_menu_payload(&req);
    assert!(
        payload.contains("\"isEditable\":false"),
        "non-editable payload must have isEditable:false; got: {payload}"
    );
    assert!(
        payload.contains("\"editFlags\":0"),
        "non-editable payload must have editFlags:0; got: {payload}"
    );
}

#[test]
fn d10_context_menu_payload_can_go_back_true() {
    let req = ContextMenuRequest {
        kind: ContextMenuKind::Page,
        target_url: None,
        selected_text: None,
        x: 0,
        y: 0,
        can_go_back: true,
        can_go_forward: false,
        is_editable: false,
        edit_flags: 0,
    };
    let payload = context_menu_payload(&req);
    assert!(
        payload.contains("\"canGoBack\":true"),
        "patched can_go_back=true must appear in payload; got: {payload}"
    );
    assert!(
        payload.contains("\"canGoForward\":false"),
        "unpatched can_go_forward=false must appear in payload; got: {payload}"
    );
}

#[test]
fn d10_context_menu_payload_both_nav_flags_patched() {
    let req = ContextMenuRequest {
        kind: ContextMenuKind::Page,
        target_url: None,
        selected_text: None,
        x: 0,
        y: 0,
        can_go_back: true,
        can_go_forward: true,
        is_editable: false,
        edit_flags: 0,
    };
    let payload = context_menu_payload(&req);
    assert!(
        payload.contains("\"canGoBack\":true"),
        "patched can_go_back=true must appear in payload; got: {payload}"
    );
    assert!(
        payload.contains("\"canGoForward\":true"),
        "patched can_go_forward=true must appear in payload; got: {payload}"
    );
}

#[test]
fn d10_context_menu_payload_default_nav_flags_are_false() {
    let req = ContextMenuRequest {
        kind: ContextMenuKind::Page,
        target_url: None,
        selected_text: None,
        x: 0,
        y: 0,
        can_go_back: false,
        can_go_forward: false,
        is_editable: false,
        edit_flags: 0,
    };
    let payload = context_menu_payload(&req);
    assert!(
        payload.contains("\"canGoBack\":false"),
        "default can_go_back must be false in payload; got: {payload}"
    );
    assert!(
        payload.contains("\"canGoForward\":false"),
        "default can_go_forward must be false in payload; got: {payload}"
    );
}

#[test]
fn a_context_menu_carries_all_its_fields() {
    let req = ContextMenuRequest {
        kind: ContextMenuKind::SelectedText,
        target_url: Some("https://a.test/?q=\"<".to_owned()),
        selected_text: Some("x\ny".to_owned()),
        x: -5,
        y: i32::MIN,
        can_go_back: true,
        can_go_forward: false,
        is_editable: false,
        edit_flags: 4_294_967_295,
    };
    assert_eq!(
        context_menu_payload(&req),
        "{\"kind\":\"selection\",\"targetUrl\":\"https://a.test/?q=\\\"\\u003c\",\
         \"selectedText\":\"x\\ny\",\"x\":-5,\"y\":-2147483648,\"canGoBack\":true,\
         \"canGoForward\":false,\"isEditable\":false,\"editFlags\":4294967295}"
    );
    for (kind, name) in [
        (ContextMenuKind::Link, "link"),
        (ContextMenuKind::Image, "image"),
        (ContextMenuKind::Editable, "editable"),
        (ContextMenuKind::Page, "page"),
    ] {
        let plain = ContextMenuRequest {
            kind,
            target_url: None,
            selected_text: None,
            x: 0,
            y: 0,
            can_go_back: false,
            can_go_forward: false,
            is_editable: true,
            edit_flags: 0,
        };
        let payload = context_menu_payload(&plain);
        assert!(payload.contains(&format!("\"kind\":\"{name}\"")));
        assert!(payload.contains("\"targetUrl\":null,\"selectedText\":null"));
    }
}

#[test]
fn js_string_escapes_every_control_character() {
    assert_eq!(js_string("\u{0}\u{1f}\t\r"), "\"\\u0000\\u001f\\t\\r\"");
    assert_eq!(js_string("\u{2028}\u{2029}\u{e9}"), "\"\\u2028\\u2029\u{e9}\"");
    for c in (0..0x300_u32).filter_map(char::from_u32) {
        let literal = js_string(&c.to_string());
        let back: String = serde_json::from_str(&literal).expect("a JSON string too");
        assert_eq!(back, c.to_string());
    }
}

#[test]
fn percent_encoding_keeps_the_unreserved() {
    assert_eq!(url_percent_encode("aZ09-_.~"), "aZ09-_.~");
    assert_eq!(url_percent_encode("a b+c/\u{e9}"), "a%20b%2Bc%2F%C3%A9");
    assert_eq!(url_percent_encode(""), "");
    assert_eq!(esc("plain \u{e9}"), "plain \u{e9}");
}

#[test]
fn scripts_name_their_operation() {
    assert_eq!(
        apply_op("focus_find", "null"),
        "window.mote&&window.mote.applyOp&&window.mote.applyOp('focus_find',null);"
    );
    assert!(nav_script(true, false)
        .ends_with("applyOp('set_nav_state',{can_go_back:true,can_go_forward:false});"));
    assert!(load_script(true).ends_with("applyOp('set_load_state',{loading:true});"));
    assert!(find_script(2, 17).ends_with("applyOp('find_count',{label:\"2 / 17\"});"));
    assert!(find_script(0, 0).ends_with("{label:\"\"});"));
    assert_eq!(
        theme_script("a\"\u{8}b"),
        "document.querySelector('.mote-root')?.setAttribute('data-theme', \"a\\\"\\bb\");"
    );
}

#[test]
fn the_url_payload_shows_structure_and_trackers() {
    assert_eq!(
        url_payload("about:blank", true, &None),
        "{\"url\":\"about:blank\",\"bookmarked\":true,\"display\":null,\"trackers\":null}"
    );
    let mut analysis = UrlAnalysis {
        scheme: "https://".to_owned(),
        subdomain: "www.".to_owned(),
        registrable: "a.test".to_owned(),
        rest: "/p?x=1".to_owned(),
        clean_url: "https://www.a.test/p".to_owned(),
        tracker_names: vec![],
    };
    let display = "\"display\":{\"scheme\":\"https://\",\"subdomain\":\"www.\",\
                   \"registrable\":\"a.test\",\"rest\":\"/p?x=1\"}";
    analysis.tracker_names = vec!["x".to_owned(), "y\"".to_owned()];
    let payload = url_payload("u", false, &Some(analysis));
    assert!(payload.contains(display));
    assert!(payload.ends_with(
        ",\"trackers\":{\"count\":2,\"clean\":\"https://www.a.test/p\",\
         \"names\":[\"x\",\"y\\\"\"]}}"
    ));
}
