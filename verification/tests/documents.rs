use mote_shell::documents::{asset_of, chrome_documents, overlay_documents};
use std::collections::HashSet;

fn components() -> Vec<String> {
    vec!["badge".to_owned(), "palette".to_owned()]
}

fn registered() -> HashSet<String> {
    chrome_documents(&components()).into_iter().map(|(path, _)| path).collect()
}

#[test]
fn p6_settings_pages_registered_in_chrome_resources() {
    let registered = registered();

    for section in ["general", "plugins", "integrity", "keybinds"] {
        let deep_link = format!("settings/{section}");
        let html_path = format!("settings/{section}.html");
        assert!(
            registered.contains(deep_link.as_str()),
            "settings/{section} (deep-link path) must be registered"
        );
        assert!(
            registered.contains(html_path.as_str()),
            "settings/{section}.html must be registered for relative-import resolution"
        );
        assert_eq!(asset_of(&deep_link), html_path);
        assert_eq!(asset_of(&html_path), html_path);
    }
    assert!(
        registered.contains("settings/settings.css"),
        "settings/settings.css must be registered"
    );
    assert!(
        registered.contains("settings/settings.js"),
        "settings/settings.js must be registered"
    );
}

#[test]
fn p6_settings_js_is_registered_as_chrome_resource() {
    assert!(
        registered().contains("settings/settings.js"),
        "settings.js must be registered as a chrome resource"
    );
}

#[test]
fn p3_newtab_registered_in_chrome_resources() {
    assert!(
        registered().contains("newtab.html"),
        "newtab.html must be registered among the chrome documents"
    );
}

#[test]
fn the_chrome_origin_serves_its_own_documents_alone() {
    let all = chrome_documents(&components());
    let table: Vec<(&str, &str)> = all.iter().map(|(path, kind)| (path.as_str(), *kind)).collect();
    let (html, js) = ("text/html; charset=utf-8", "text/javascript; charset=utf-8");
    let (css, svg) = ("text/css; charset=utf-8", "image/svg+xml");
    assert_eq!(
        table,
        vec![
            ("index.html", html),
            ("roving.js", js),
            ("host.js", js),
            ("panels.js", js),
            ("tokens.css", css),
            ("base.css", css),
            ("assets/wordmark.svg", svg),
            ("assets/mark.svg", svg),
            ("assets/lucide-sprite.svg", svg),
            ("components/badge.css", css),
            ("components/palette.css", css),
            ("newtab.html", html),
            ("settings/general", html),
            ("settings/general.html", html),
            ("settings/plugins", html),
            ("settings/plugins.html", html),
            ("settings/integrity", html),
            ("settings/integrity.html", html),
            ("settings/keybinds", html),
            ("settings/keybinds.html", html),
            ("settings/settings.css", css),
            ("settings/settings.js", js),
        ]
    );
    assert_eq!(asset_of("newtab.html"), "newtab.html");
}

#[test]
fn the_overlays_stand_on_their_own_origin() {
    let overlays: Vec<String> =
        overlay_documents(&components()).into_iter().map(|(path, _)| path).collect();
    assert_eq!(
        overlays,
        vec![
            "integrity.html",
            "picker.html",
            "tokens.css",
            "base.css",
            "components/badge.css",
            "components/palette.css",
        ]
    );
    let registered = registered();
    assert!(!registered.contains("integrity.html") && !registered.contains("picker.html"));
}
