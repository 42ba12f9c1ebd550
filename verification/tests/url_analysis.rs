use mote_shell::sorted::removed_names;
use mote_shell::url_analysis::{
    analyze_parts, analyze_url, build_hover_display, hover_of_analysis, split_registrable,
    split_with_domain, truncate_hover, url_cleaner, UrlParts, MAX_HOVER_LEN,
};

#[test]
fn url_analysis_tracked_url_splits_and_finds_trackers() {
    let raw = "https://www.theverge.com/2024/x/story?utm_source=nl&utm_medium=email&gclid=abc";
    let a = analyze_url(&url_cleaner(), raw).expect("tracked http URL must parse");
    assert_eq!(a.scheme, "https://");
    assert_eq!(a.subdomain, "www.");
    assert_eq!(a.registrable, "theverge.com");
    assert_eq!(
        a.rest,
        "/2024/x/story?utm_source=nl&utm_medium=email&gclid=abc"
    );
    assert!(!a.clean_url.contains("utm_source"));
    assert!(!a.clean_url.contains("utm_medium"));
    assert!(!a.clean_url.contains("gclid"));
    assert_eq!(a.tracker_names, vec!["gclid", "utm_medium", "utm_source"]);
}

#[test]
fn url_analysis_clean_url_no_trackers() {
    let raw = "https://www.rust-lang.org/learn?edition=2024";
    let a = analyze_url(&url_cleaner(), raw).expect("clean http URL must parse");
    assert!(
        a.tracker_names.is_empty(),
        "clean URL must have no trackers; got {:?}",
        a.tracker_names
    );
    assert!(
        a.clean_url.contains("edition=2024"),
        "non-tracking param must be kept in clean_url"
    );
}

#[test]
fn url_analysis_localhost_and_ip() {
    let loc = analyze_url(&url_cleaner(), "https://localhost:3000/x").expect("localhost must parse");
    assert_eq!(loc.registrable, "localhost:3000");
    assert_eq!(loc.subdomain, "");

    let ip = analyze_url(&url_cleaner(), "http://192.168.1.1/path").expect("IP must parse");
    assert_eq!(ip.registrable, "192.168.1.1");
    assert_eq!(ip.subdomain, "");
}

#[test]
fn url_analysis_internal_urls_return_none() {
    assert!(
        analyze_url(&url_cleaner(), "mote://chrome/newtab.html").is_none(),
        "mote:// must return None"
    );
    assert!(
        analyze_url(&url_cleaner(), "about:blank").is_none(),
        "about: must return None"
    );
    assert!(analyze_url(&url_cleaner(), "").is_none(), "empty string must return None");
}

#[test]
fn url_analysis_redirect_wrapper_is_unwrapped() {
    let raw = "https://www.google.com/url?q=https%3A%2F%2Fexample.com%2Fpage&sa=D";
    let a = analyze_url(&url_cleaner(), raw).expect("google redirect URL must parse");
    assert!(
        a.clean_url.contains("example.com"),
        "clean_url must be the unwrapped destination; got {}",
        a.clean_url
    );
    assert!(
        !a.clean_url.contains("google.com"),
        "clean_url must not be the wrapper; got {}",
        a.clean_url
    );
}

#[test]
fn hover_display_redirect_wrapper_shows_destination() {
    let wrapper = "https://www.google.com/url?q=https%3A%2F%2Fwww.theverge.com%2Fbig-story%3Futm_source%3Dnl&sa=D";
    let display = build_hover_display(&url_cleaner(), wrapper);

    assert!(
        display.starts_with("www.theverge.com"),
        "hover must lead with destination full host; got: {display}"
    );
    assert!(
        display.contains("/big-story"),
        "hover must contain destination path; got: {display}"
    );
    assert!(
        !display.contains("/url"),
        "hover must NOT show wrapper path; got: {display}"
    );
    assert!(
        !display.contains("google.com"),
        "hover must NOT show wrapper host; got: {display}"
    );
    assert!(
        display.contains("tracker"),
        "hover must append tracker count; got: {display}"
    );
    assert!(
        !display.contains("utm_source"),
        "hover must not contain raw query params; got: {display}"
    );
}

#[test]
fn hosts_split_at_the_registrable_domain() {
    let split = |host: &str, port: &str| split_registrable(host, &format!("{host}{port}"));
    let pair = |a: &str, b: &str| (a.to_owned(), b.to_owned());
    assert_eq!(split("www.theverge.com", ":8080"), pair("www.", "theverge.com"));
    assert_eq!(split("a.b.example.co.uk", ""), pair("a.b.", "example.co.uk"));
    assert_eq!(split("theverge.com", ":81"), pair("", "theverge.com"));
    assert_eq!(split("com", ":81"), pair("", "com:81"));
    assert_eq!(split("[::1]", ":81"), pair("", "[::1]:81"));
    assert_eq!(split("x.localhost", ":81"), pair("", "x.localhost:81"));
    assert_eq!(split("a.box.internal", ":81"), pair("", "a.box.internal:81"));
    assert_eq!(
        split_with_domain("www.a.test", "www.a.test:1", Some(("a.test".to_owned(), true))),
        pair("www.", "a.test")
    );
    assert_eq!(
        split_with_domain("www.a.test", "www.a.test:1", Some(("a.test".to_owned(), false))),
        pair("", "www.a.test:1")
    );
}

fn parts() -> UrlParts {
    UrlParts {
        host: Some("www.a.test".to_owned()),
        port: Some(8080),
        path: "/p".to_owned(),
        query: Some("b=1&a=2&b=3".to_owned()),
        fragment: Some("f".to_owned()),
        query_names: vec!["b".to_owned(), "a".to_owned(), "b".to_owned(), "k".to_owned()],
    }
}

#[test]
fn an_analysis_puts_the_parts_together() {
    let clean = UrlParts { query_names: vec!["k".to_owned()], ..parts() };
    let a = analyze_parts(
        "http://www.a.test:8080/p",
        Some(parts()),
        None,
        Some("http://clean/".to_owned()),
        Some(clean),
    )
    .expect("an analysis");
    assert_eq!(a.scheme, "http://");
    assert_eq!((a.subdomain.as_str(), a.registrable.as_str()), ("", "www.a.test:8080"));
    assert_eq!(a.rest, "/p?b=1&a=2&b=3#f");
    assert_eq!(a.clean_url, "http://clean/");
    assert_eq!(a.tracker_names, vec!["a", "b"]);
    let raw = "https://www.a.test/";
    let same = || Some(raw.to_owned());
    assert_eq!(analyze_parts(raw, Some(parts()), None, same(), None).unwrap().clean_url, raw);
    assert!(analyze_parts("ftp://x/", Some(parts()), None, same(), None).is_none());
    assert!(analyze_parts(raw, None, None, same(), None).is_none());
    let hostless = UrlParts { host: None, ..parts() };
    assert!(analyze_parts(raw, Some(hostless), None, same(), None).is_none());
    assert!(analyze_parts(raw, Some(parts()), None, None, None).is_none());
    assert_eq!(
        hover_of_analysis(&a, Some(parts())),
        "www.a.test/p · 2 trackers"
    );
    assert_eq!(hover_of_analysis(&a, None), "http://clean/ · 2 trackers");
}

#[test]
fn one_tracker_is_singular_and_long_text_is_cut() {
    let cleaner = url_cleaner();
    let one = build_hover_display(&cleaner, "https://example.com/x?utm_source=a");
    assert_eq!(one, "example.com/x · 1 tracker");
    let none = build_hover_display(&cleaner, "https://example.com/x?edition=1#f");
    assert_eq!(none, "example.com/x");
    let long = "\u{e9}".repeat(MAX_HOVER_LEN + 5);
    assert_eq!(truncate_hover(&long).chars().count(), MAX_HOVER_LEN);
    assert_eq!(build_hover_display(&cleaner, &long), "\u{e9}".repeat(MAX_HOVER_LEN));
    assert_eq!(build_hover_display(&cleaner, "http://"), "http://");
}

#[test]
fn what_cannot_be_cleaned_is_not_analysed() {
    let cleaner = url_cleaner();
    let broken = "https://www.google.com/url?q=https%3A&sa=D";
    assert_eq!(cleaner.clean(broken), None);
    assert!(analyze_url(&cleaner, broken).is_none());
    assert_eq!(build_hover_display(&cleaner, broken), broken);
}

#[test]
fn removed_names_are_sorted_and_distinct() {
    let list = |names: &[&str]| names.iter().map(|n| (*n).to_owned()).collect::<Vec<String>>();
    let all = list(&["z", "b", "ab", "b", "a", "\u{e9}", "\u{10000}", "\u{ffff}", "k"]);
    let removed = removed_names(&all, &list(&["k"]));
    let mut expected = list(&["z", "b", "ab", "a", "\u{e9}", "\u{10000}", "\u{ffff}"]);
    expected.sort();
    assert_eq!(removed, expected);
}
