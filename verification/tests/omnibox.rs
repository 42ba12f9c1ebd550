use mote_shell::ip::{is_ip_literal, is_loopback_literal};
use mote_shell::omnibox::{
    default_search_url_template, has_scheme, is_loopback, is_navigable_host, is_navigable_with,
    is_search_by_whitespace_rule, make_search, omnibox_mode_from_text, resolve_omnibox_input,
    resolve_with_suffix, split_host_port,
};

#[test]
fn p2_omnibox_mode_gt_is_cmd() {
    assert_eq!(omnibox_mode_from_text(">"), "cmd");
    assert_eq!(omnibox_mode_from_text("> something"), "cmd");
}

#[test]
fn p2_omnibox_mode_slash_is_find() {
    assert_eq!(omnibox_mode_from_text("/"), "find");
    assert_eq!(omnibox_mode_from_text("/pattern"), "find");
}

#[test]
fn p2_omnibox_mode_default_is_url() {
    assert_eq!(omnibox_mode_from_text(""), "url");
    assert_eq!(omnibox_mode_from_text("https://example.com"), "url");
    assert_eq!(omnibox_mode_from_text("google.com"), "url");
    assert_eq!(omnibox_mode_from_text("some search"), "url");
}

#[test]
fn i1_default_search_template_contains_placeholder() {
    let tmpl = default_search_url_template();
    assert!(
        tmpl.contains("\x7bq\x7d"),
        "default template must contain the {{q}} placeholder; got {tmpl:?}"
    );
    assert!(
        tmpl.starts_with("https://"),
        "default template must start with https://; got {tmpl:?}"
    );
}

#[test]
fn i1_multi_word_query_resolves_to_search_url() {
    let tmpl = default_search_url_template();
    let result = resolve_omnibox_input("weather rust", tmpl);
    assert!(
        result.starts_with("https://duckduckgo.com/"),
        "multi-word query must resolve to the search URL, not https://<query>; \
         got {result:?}"
    );
    assert!(
        result.contains("weather"),
        "search URL must contain the query text; got {result:?}"
    );
    assert!(
        !result.contains(' '),
        "search URL must not contain a bare space; got {result:?}"
    );
}

#[test]
fn i1_query_with_spaces_never_produces_bare_https_url() {
    let tmpl = default_search_url_template();
    let result = resolve_omnibox_input("rust async traits", tmpl);
    assert!(
        !result.starts_with("https://rust async"),
        "query with spaces must not produce bare https://<query>; got {result:?}"
    );
    assert!(
        result.contains("rust"),
        "search URL must contain query text; got {result:?}"
    );
}

#[test]
fn i1_bare_domain_resolves_to_https() {
    let tmpl = default_search_url_template();
    let result = resolve_omnibox_input("example.com", tmpl);
    assert_eq!(
        result, "https://example.com",
        "bare domain must resolve to https://example.com; got {result:?}"
    );
}

#[test]
fn i1_url_with_scheme_passes_through() {
    let tmpl = default_search_url_template();
    let url = "https://x.test/path?q=foo";
    let result = resolve_omnibox_input(url, tmpl);
    assert_eq!(
        result, url,
        "URL with existing scheme must pass through unchanged; got {result:?}"
    );
}

#[test]
fn i1_http_url_passes_through() {
    let tmpl = default_search_url_template();
    let url = "http://insecure.example.org/page";
    let result = resolve_omnibox_input(url, tmpl);
    assert_eq!(
        result, url,
        "http:// URL must pass through unchanged; got {result:?}"
    );
}

#[test]
fn i1_localhost_resolves_to_http() {
    let tmpl = default_search_url_template();
    let result = resolve_omnibox_input("localhost", tmpl);
    assert_eq!(
        result, "http://localhost",
        "localhost must resolve to http://localhost (loopback uses http); got {result:?}"
    );
}

#[test]
fn i1_localhost_with_port_resolves_to_http_url() {
    let tmpl = default_search_url_template();
    let result = resolve_omnibox_input("localhost:3000", tmpl);
    assert_eq!(
        result, "http://localhost:3000",
        "localhost:port must resolve to http://localhost:port; got {result:?}"
    );
}

#[test]
fn i1_mote_scheme_passes_through() {
    let tmpl = default_search_url_template();
    let url = "mote://chrome/newtab.html";
    let result = resolve_omnibox_input(url, tmpl);
    assert_eq!(
        result, url,
        "mote:// URL must pass through unchanged; got {result:?}"
    );
}

#[test]
fn i1_about_scheme_passes_through() {
    let tmpl = default_search_url_template();
    let url = "about:blank";
    let result = resolve_omnibox_input(url, tmpl);
    assert_eq!(
        result, url,
        "about:blank must pass through unchanged; got {result:?}"
    );
}

#[test]
fn i1_adr0018_node_js_is_search() {
    let tmpl = default_search_url_template();
    let result = resolve_omnibox_input("node.js", tmpl);
    assert!(
        result.starts_with("https://duckduckgo.com/"),
        "node.js has unknown suffix and must resolve to search; got {result:?}"
    );
    assert!(
        result.contains("node"),
        "search URL must contain the query; got {result:?}"
    );
}

#[test]
fn i1_adr0018_foo_internal_is_search() {
    let tmpl = default_search_url_template();
    let result = resolve_omnibox_input("foo.internal", tmpl);
    assert!(
        result.starts_with("https://duckduckgo.com/"),
        "foo.internal has unknown suffix and must resolve to search; got {result:?}"
    );
}

#[test]
fn i1_adr0018_dotless_word_is_search() {
    let tmpl = default_search_url_template();
    let result = resolve_omnibox_input("weather", tmpl);
    assert!(
        result.starts_with("https://duckduckgo.com/"),
        "dotless word must resolve to search; got {result:?}"
    );
}

#[test]
fn i1_adr0018_space_before_dot_is_search() {
    let tmpl = default_search_url_template();
    let result = resolve_omnibox_input("what is 2.5", tmpl);
    assert!(
        result.starts_with("https://duckduckgo.com/"),
        "space before dot must resolve to search; got {result:?}"
    );
}

#[test]
fn i1_adr0018_google_com_navigates() {
    let tmpl = default_search_url_template();
    let result = resolve_omnibox_input("google.com", tmpl);
    assert_eq!(
        result, "https://google.com",
        "google.com must navigate to https://google.com; got {result:?}"
    );
}

#[test]
fn i1_adr0018_wikipedia_org_navigates() {
    let tmpl = default_search_url_template();
    let result = resolve_omnibox_input("wikipedia.org", tmpl);
    assert_eq!(
        result, "https://wikipedia.org",
        "wikipedia.org must navigate to https://wikipedia.org; got {result:?}"
    );
}

#[test]
fn i1_adr0018_ipv4_loopback_with_port_is_http() {
    let tmpl = default_search_url_template();
    let result = resolve_omnibox_input("127.0.0.1:8080", tmpl);
    assert_eq!(
        result, "http://127.0.0.1:8080",
        "127.0.0.1:8080 must navigate to http://127.0.0.1:8080; got {result:?}"
    );
}

#[test]
fn i1_adr0018_explicit_https_passes_through() {
    let tmpl = default_search_url_template();
    let url = "https://x.test/p";
    let result = resolve_omnibox_input(url, tmpl);
    assert_eq!(
        result, url,
        "explicit https:// must pass through unchanged; got {result:?}"
    );
}

#[test]
fn i1_adr0018_mote_scheme_passes_through() {
    let tmpl = default_search_url_template();
    let url = "mote://chrome/settings";
    let result = resolve_omnibox_input(url, tmpl);
    assert_eq!(
        result, url,
        "mote:// must pass through unchanged; got {result:?}"
    );
}

#[test]
fn i1_adr0018_known_private_suffix_navigates() {
    let tmpl = default_search_url_template();
    let result = resolve_omnibox_input("foo.github.io", tmpl);
    assert_eq!(
        result, "https://foo.github.io",
        "foo.github.io has a known private suffix and must navigate; got {result:?}"
    );
}

#[test]
fn i1_adr0018_bare_ipv6_loopback_navigates_http() {
    let tmpl = default_search_url_template();
    let result = resolve_omnibox_input("::1", tmpl);
    assert_eq!(
        result, "http://::1",
        "bare ::1 must navigate to http://::1 (IPv6 loopback); got {result:?}"
    );
}

#[test]
fn i1_adr0018_invalid_template_falls_back_to_default() {
    let bad_tmpl = "https://search.example.com/";
    let result = resolve_omnibox_input("hello world", bad_tmpl);
    let default_result = resolve_omnibox_input("hello world", default_search_url_template());
    assert_eq!(
        result, default_result,
        "template without {{q}} must fall back to default; got {result:?}"
    );
}

#[test]
fn i1_custom_template_is_used() {
    let tmpl = String::from_utf8(b"https://search.example.com/?q=\x7bq\x7d".to_vec())
        .expect("ASCII bytes are valid UTF-8");
    let result = resolve_omnibox_input("hello world", &tmpl);
    assert!(
        result.starts_with("https://search.example.com/"),
        "custom template must be used; got {result:?}"
    );
    assert!(
        result.contains("hello"),
        "search URL must contain query; got {result:?}"
    );
}

#[test]
fn i1_schemeless_with_path_navigates() {
    let tmpl = default_search_url_template();
    let result = resolve_omnibox_input("github.com/rust-lang/rust", tmpl);
    assert_eq!(
        result, "https://github.com/rust-lang/rust",
        "schemeless URL with path must navigate; got {result:?}"
    );
}

#[test]
fn i1_schemeless_with_path_and_query_navigates() {
    let tmpl = default_search_url_template();
    let result = resolve_omnibox_input("example.org/a?b=c", tmpl);
    assert_eq!(
        result, "https://example.org/a?b=c",
        "schemeless URL with path+query must navigate; got {result:?}"
    );
}

#[test]
fn i1_schemeless_with_fragment_navigates() {
    let tmpl = default_search_url_template();
    let result = resolve_omnibox_input("example.com#frag", tmpl);
    assert_eq!(
        result, "https://example.com#frag",
        "schemeless URL with fragment must navigate; got {result:?}"
    );
}

#[test]
fn i1_localhost_with_port_and_path_navigates_http() {
    let tmpl = default_search_url_template();
    let result = resolve_omnibox_input("localhost:3000/app", tmpl);
    assert_eq!(
        result, "http://localhost:3000/app",
        "localhost:port/path must navigate to http://; got {result:?}"
    );
}

#[test]
fn i1_host_with_port_and_path_navigates_https() {
    let tmpl = default_search_url_template();
    let result = resolve_omnibox_input("example.com:8443/x", tmpl);
    assert_eq!(
        result, "https://example.com:8443/x",
        "host:port/path must navigate to https://; got {result:?}"
    );
}

#[test]
fn addresses_are_literals_of_either_family() {
    let addresses = [
        "0.0.0.0", "255.255.255.255", "1.2.3.4", "::", "1::", "1:2:3:4:5:6:7:8",
        "1:2:3:4:5:6:7::", "::2:3:4:5:6:7:8", "abcd:EF01::", "::1.2.3.4", "1:2:3:4:5:6:1.2.3.4",
        "::ffff:127.0.0.1", "1:2:3::1.2.3.4", "1:2:3:4:5::1.2.3.4", "::01:0",
    ];
    for text in addresses {
        let v: Vec<char> = text.chars().collect();
        assert!(is_ip_literal(&v), "{text:?}");
        assert!(!is_loopback_literal(&v), "{text:?}");
    }
    let loopback = [
        "127.0.0.1", "127.255.0.3", "::1", "::01", "0:0:0:0:0:0:0:1", "0000:0::0001", "::0.0.0.1",
    ];
    for text in loopback {
        let v: Vec<char> = text.chars().collect();
        assert!(is_ip_literal(&v), "{text:?}");
        assert!(is_loopback_literal(&v), "{text:?}");
    }
    let others = [
        "", "1", ":", ":::", "256.0.0.1", "1.2.3", "1.2.3.4.5", "01.2.3.4", "1.2.3.", ".1.2.3",
        "1..2.3", "1.2.3.4 ", "1.2.3.a", "0001.2.3.4", "127.1", "1:2:3:4:5:6:7",
        "1:2:3:4:5:6:7:8:9", "::1:2:3:4:5:6:7:8", "1::2::3", "12345::", "g::", "1.2.3.4::",
        "1:2:3:4:5:6:7:1.2.3.4", "::1.2.3.4:5", "::1%1", "::1:", ":1::", "1:::2",
        "1:2:3::4:5:6:7:8", "1:2:3:4:5:6::1.2.3.4", "::1.2.3", "::256.0.0.1",
    ];
    for text in others {
        let v: Vec<char> = text.chars().collect();
        assert!(!is_ip_literal(&v), "{text:?}");
        assert!(!is_loopback_literal(&v), "{text:?}");
    }
}

#[test]
fn ports_are_split_off() {
    assert_eq!(split_host_port("[::1]:8080"), ("[::1]", ":8080"));
    assert_eq!(split_host_port("[::1]"), ("[::1]", ""));
    assert_eq!(split_host_port("[::1]x"), ("[::1]x", ""));
    assert_eq!(split_host_port("[::1]:"), ("[::1]:", ""));
    assert_eq!(split_host_port("[::1]:8a"), ("[::1]:8a", ""));
    assert_eq!(
        resolve_omnibox_input("[::1]x", default_search_url_template()),
        "https://duckduckgo.com/?q=%5B%3A%3A1%5Dx"
    );
    assert_eq!(split_host_port("::1"), ("::1", ""));
    assert_eq!(split_host_port("host:80"), ("host", ":80"));
    assert_eq!(split_host_port("host:"), ("host:", ""));
    assert_eq!(split_host_port("host:8a"), ("host:8a", ""));
    assert_eq!(split_host_port("a:1:2"), ("a:1:2", ""));
    assert_eq!(split_host_port("[x:1"), ("[x", ":1"));
    assert_eq!(split_host_port(""), ("", ""));
    assert_eq!(split_host_port("\u{e9}:1"), ("\u{e9}", ":1"));
}

#[test]
fn schemes_are_recognised() {
    for yes in ["http://", "a+b-c.d://x", "DATA:x", "mote:x", "About:blank", "h://"] {
        assert!(has_scheme(yes), "{yes}");
    }
    for no in ["", "a", "://x", "1a://x", "a b://x", "mailto:x", "http:/x", "localhost:80", "x:"] {
        assert!(!has_scheme(no), "{no}");
    }
}

#[test]
fn punctuation_makes_a_search() {
    for yes in ["?x", "a b", "a b.c", "\"a.b", "a'b:c", "\ta"] {
        assert!(is_search_by_whitespace_rule(yes), "{yes}");
    }
    for no in ["", "a.b", "a.b c", "example.com/a b", "a.b\"c", "\"a", "a?b", "\u{a0}x"] {
        assert!(!is_search_by_whitespace_rule(no), "{no}");
    }
}

#[test]
fn hosts_are_navigable_by_name_address_or_suffix() {
    for yes in ["LOCALHOST", "a.LocalHost", "[::1]", "::1", "1.2.3.4", "example.com", "x.github.io"] {
        assert!(is_navigable_host(yes), "{yes}");
    }
    for no in ["", "word", "node.js", "[1.2.3]", "com", "a.internal"] {
        assert!(!is_navigable_host(no), "{no}");
    }
    assert!(is_navigable_with("a.b", Some(true)));
    assert!(!is_navigable_with("ab", Some(true)));
    assert!(!is_navigable_with("a.b", Some(false)));
    assert!(!is_navigable_with("a.b", None));
    assert!(is_loopback("[::1]") && is_loopback("127.9.9.9") && is_loopback("x.localhost"));
    assert!(!is_loopback("1.2.3.4") && !is_loopback("example.com"));
}

#[test]
fn the_query_replaces_every_placeholder() {
    assert_eq!(make_search("a b", "x{q}y{q}"), "xa%20bya%20b");
    assert_eq!(make_search("q", "no placeholder"), "https://duckduckgo.com/?q=q");
    assert_eq!(make_search("{q}", "{{q}}"), "{%7Bq%7D}");
}

#[test]
fn resolving_is_stable() {
    let template = default_search_url_template();
    for text in ["example.com/a", "localhost:3000", "what is 2.5", "about:blank", "  ", "[::1]:80/x"] {
        let once = resolve_omnibox_input(text, template);
        assert_eq!(resolve_omnibox_input(&once, template), once, "{text:?}");
    }
    assert_eq!(resolve_omnibox_input("\u{3000} \t", template), "");
    assert_eq!(resolve_omnibox_input("\u{a0}example.com\u{2003}", template), "https://example.com");
    assert_eq!(resolve_with_suffix("a.b", "s/{q}", Some(true)), "https://a.b");
    assert_eq!(resolve_with_suffix("a.b", "s/{q}", None), "s/a.b");
    assert_eq!(resolve_omnibox_input("example.com/a b", "s/{q}"), "https://example.com/a b");
    assert_eq!(resolve_omnibox_input("node.js tutorial", "s/{q}"), "s/node.js%20tutorial");
    assert_eq!(resolve_omnibox_input("example.com rust", "s/{q}"), "s/example.com%20rust");
}

#[test]
fn trimming_follows_the_standard_library() {
    for c in (0..0x3100_u32).filter_map(char::from_u32) {
        let v = mote_shell::text::trim(&format!("{c}a{c}"));
        let got: String = v.into_iter().collect();
        assert_eq!(got, format!("{c}a{c}").trim(), "{c:?}");
    }
}
