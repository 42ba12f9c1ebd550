use mote_shell::internal::{
    default_start_url, is_popup_url_allowed, settings_section_from_url, uses_global_context,
};

#[test]
fn p3_create_content_page_routes_mote_urls_to_global_context() {
    assert!(
        uses_global_context("mote://chrome/newtab.html"),
        "newtab URL must route to global context"
    );
    assert!(
        uses_global_context("mote://chrome/settings/general"),
        "settings URL must route to global context"
    );
    assert!(
        uses_global_context("MOTE://chrome/index.html"),
        "case-insensitive: MOTE:// must route to global context"
    );
    assert!(
        uses_global_context("Mote://chrome/newtab.html"),
        "case-insensitive: Mote:// must route to global context"
    );

    assert!(
        !uses_global_context("https://example.com"),
        "https:// must route to profile context"
    );
    assert!(
        !uses_global_context("http://news.ycombinator.com"),
        "http:// must route to profile context"
    );
    assert!(
        !uses_global_context("data:text/html,<html></html>"),
        "data: must route to profile context"
    );
    assert!(
        !uses_global_context(""),
        "empty URL must route to profile context (not crash)"
    );
    assert!(
        !uses_global_context("mote"),
        "bare 'mote' (no scheme) must not match"
    );
    assert!(
        !uses_global_context("mote:/"),
        "single-slash 'mote:/' must not match (not a valid mote:// URL)"
    );
}

#[test]
fn p3_default_start_url_is_mote_scheme() {
    assert!(
        default_start_url().starts_with("mote://"),
        "the start page must be a mote:// URL"
    );
}

#[test]
fn popup_url_allowed_rejects_mote_scheme() {
    assert!(!is_popup_url_allowed("mote://chrome/index.html"));
    assert!(!is_popup_url_allowed("mote://overlay/picker.html"));
    assert!(!is_popup_url_allowed("MOTE://chrome/index.html"));
    assert!(!is_popup_url_allowed("Mote://chrome/index.html"));

    assert!(is_popup_url_allowed("https://example.com/"));
    assert!(is_popup_url_allowed("http://example.com/"));
    assert!(is_popup_url_allowed("data:text/html,<p>hi</p>"));
    assert!(is_popup_url_allowed("file:///etc/passwd"));
    assert!(is_popup_url_allowed("javascript:alert(1)"));
    assert!(is_popup_url_allowed("foobar"));
    assert!(is_popup_url_allowed(""));
}

#[test]
fn p6_settings_section_from_url_maps_valid_sections() {
    assert_eq!(
        settings_section_from_url("mote://chrome/settings/general"),
        Some("general"),
        "general section URL must resolve"
    );
    assert_eq!(
        settings_section_from_url("mote://chrome/settings/plugins"),
        Some("plugins"),
        "plugins section URL must resolve"
    );
    assert_eq!(
        settings_section_from_url("mote://chrome/settings/integrity"),
        Some("integrity"),
        "integrity section URL must resolve"
    );
    assert_eq!(
        settings_section_from_url("mote://chrome/settings/keybinds"),
        Some("keybinds"),
        "keybinds section URL must resolve"
    );
}

#[test]
fn p6_settings_section_from_url_accepts_html_suffix() {
    assert_eq!(
        settings_section_from_url("mote://chrome/settings/general.html"),
        Some("general"),
    );
    assert_eq!(
        settings_section_from_url("mote://chrome/settings/keybinds.html"),
        Some("keybinds"),
    );
}

#[test]
fn p6_settings_section_from_url_rejects_invalid_section() {
    assert_eq!(
        settings_section_from_url("mote://chrome/settings/bogus"),
        None,
        "unknown section must return None"
    );
    assert_eq!(
        settings_section_from_url("mote://chrome/settings/"),
        None,
        "bare /settings/ path must return None (no default section routing)"
    );
    assert_eq!(
        settings_section_from_url("mote://chrome/settings"),
        None,
        "bare /settings path (no trailing slash) must return None"
    );
    assert_eq!(
        settings_section_from_url("mote://chrome/settings/gen"),
        None,
    );
}

#[test]
fn a_scheme_is_read_up_to_the_first_colon() {
    assert!(is_popup_url_allowed("motel:x"));
    assert!(!is_popup_url_allowed("mote:x"));
    assert!(is_popup_url_allowed("https://x/mote:y"));
    assert!(!uses_global_context("motes://x"));
    assert!(!uses_global_context("\u{e9}\u{e9}\u{e9}\u{e9}"));
    assert_eq!(settings_section_from_url("mote://chrome/settings/general.html.html"), None);
}
