//! What the omnibox makes of typed text: a URL to go to, or a search.

use crate::escape::{percent_encoded, percent_encoding_is_safe, unreserved, url_percent_encode};
use crate::ip::{is_ip, is_ip_literal, is_loopback_ip, is_loopback_literal};
use crate::text::{
    ascii_lowered, chars_of, contains, contains_text, copy_range, ends_with, find_from, index_of,
    lemma_index_of_unique, lemma_trimmed_ends, replace, replaced, string_of, text_eq,
    to_ascii_lower, trim, trim_end, trim_start, trimmed, white_space,
};
use vstd::prelude::*;

verus! {

/// The search URL template used where no engine has been configured; `{q}`
/// stands for the percent-encoded query.
pub fn default_search_url_template() -> (r: &'static str)
    ensures
        r@ == "https://duckduckgo.com/?q={q}"@,
{
    "https://duckduckgo.com/?q={q}"
}

/// The mode that the first character of the omnibox text selects.
pub open spec fn omnibox_mode(text: Seq<char>) -> Seq<char> {
    if text.len() > 0 && text[0] == '>' {
        "cmd"@
    } else if text.len() > 0 && text[0] == '/' {
        "find"@
    } else {
        "url"@
    }
}

/// The mode that the first character of the omnibox text selects: `>` for
/// commands, `/` for find-in-page, anything else for URLs.
pub fn omnibox_mode_from_text(text: &str) -> (r: &'static str)
    ensures
        r@ == omnibox_mode(text@),
{
    let v = chars_of(text);
    if v.len() > 0 && v[0] == '>' {
        "cmd"
    } else if v.len() > 0 && v[0] == '/' {
        "find"
    } else {
        "url"
    }
}

/// An ASCII letter.
pub open spec fn ascii_letter(c: char) -> bool {
    'a' <= c <= 'z' || 'A' <= c <= 'Z'
}

/// A decimal digit.
pub open spec fn ascii_digit(c: char) -> bool {
    '0' <= c <= '9'
}

/// A character of a URI scheme.
pub open spec fn scheme_char(c: char) -> bool {
    ascii_letter(c) || ascii_digit(c) || c == '+' || c == '-' || c == '.'
}

/// Whether `t` carries a URI scheme: a scheme name and `://`, or one of the
/// schemes that take no slashes.
pub open spec fn schemed(t: Seq<char>) -> bool {
    let colon = index_of(t, ':');
    let name = ascii_lowered(t.subrange(0, colon));
    &&& t.len() > 0
    &&& ascii_letter(t[0])
    &&& colon < t.len()
    &&& {
        ||| {
            &&& forall|k: int| 0 <= k < colon ==> scheme_char(#[trigger] t[k])
            &&& colon + 2 < t.len()
            &&& t[colon + 1] == '/'
            &&& t[colon + 2] == '/'
        }
        ||| name == "data"@ || name == "mote"@ || name == "about"@
    }
}

fn is_scheme_char(c: char) -> (r: bool)
    ensures
        r == scheme_char(c),
{
    ('a' <= c && c <= 'z') || ('A' <= c && c <= 'Z') || ('0' <= c && c <= '9') || c == '+' || c
        == '-' || c == '.'
}

/// Whether `t` already carries a URI scheme.
pub fn has_scheme(t: &str) -> (r: bool)
    ensures
        r == schemed(t@),
{
    let v = chars_of(t);
    assert(v@.subrange(0, v@.len() as int) =~= v@);
    if v.len() == 0 {
        return false;
    }
    let c = v[0];
    if !(('a' <= c && c <= 'z') || ('A' <= c && c <= 'Z')) {
        return false;
    }
    let colon = find_from(v.as_slice(), 0, ':');
    if colon == v.len() {
        return false;
    }
    let mut all = true;
    let mut i: usize = 0;
    while i < colon
        invariant
            i <= colon < v@.len(),
            all <==> forall|k: int| 0 <= k < i ==> scheme_char(#[trigger] v@[k]),
        decreases colon - i,
    {
        if !is_scheme_char(v[i]) {
            all = false;
        }
        i = i + 1;
    }
    if all && v.len() - colon > 2 && v[colon + 1] == '/' && v[colon + 2] == '/' {
        return true;
    }
    let front = copy_range(v.as_slice(), 0, colon);
    let lower = to_ascii_lower(front.as_slice());
    let name = string_of(lower.as_slice(), 0, lower.len());
    assert(name@ =~= lower@);
    text_eq(name.as_str(), "data") || text_eq(name.as_str(), "mote") || text_eq(
        name.as_str(),
        "about",
    )
}

/// ASCII white space.
pub open spec fn ascii_space(c: char) -> bool {
    c == ' ' || c == '\t' || c == '\n' || c == '\r' || c == '\u{c}'
}

/// A quote.
pub open spec fn quote(c: char) -> bool {
    c == '"' || c == '\''
}

/// A character that ends the first part of a host or a scheme.
pub open spec fn delimiter(c: char) -> bool {
    c == '.' || c == ':' || c == '?'
}

/// Whether `t` is a search by its punctuation: a leading `?`, or white space or
/// a quote before the first `.`, `:` or `?`. White space counts also where there
/// is none of these.
pub open spec fn search_by_punctuation(t: Seq<char>) -> bool {
    ||| t.len() > 0 && t[0] == '?'
    ||| exists|i: int|
        0 <= i < t.len() && ascii_space(#[trigger] t[i]) && forall|k: int|
            0 <= k < i ==> !delimiter(#[trigger] t[k])
    ||| exists|q: int, d: int|
        0 <= q < d < t.len() && quote(#[trigger] t[q]) && delimiter(#[trigger] t[d]) && forall|
            k: int,
        |
            0 <= k < q ==> !delimiter(#[trigger] t[k])
}

/// Whether `t` is a search by its punctuation: a leading `?`, or white space or
/// a quote before the first `.`, `:` or `?`. White space counts also where there
/// is none of these.
pub fn is_search_by_whitespace_rule(t: &str) -> (r: bool)
    ensures
        r == search_by_punctuation(t@),
{
    let v = chars_of(t);
    if v.len() > 0 && v[0] == '?' {
        return true;
    }
    let n: usize = v.len();
    let mut first_quote: usize = n;
    let mut first_delim: usize = n;
    let mut i: usize = 0;
    while i < n
        invariant
            i <= n,
            n == v@.len(),
            v@ == t@,
            first_quote < n ==> first_quote < i && quote(v@[first_quote as int]),
            first_delim < n ==> first_delim < i && delimiter(v@[first_delim as int]),
            first_quote <= n,
            first_delim <= n,
            forall|k: int| 0 <= k < i && k < first_quote ==> !quote(#[trigger] v@[k]),
            forall|k: int| 0 <= k < i && k < first_delim ==> !delimiter(#[trigger] v@[k]),
            forall|k: int| 0 <= k < i && k < first_delim ==> !ascii_space(#[trigger] v@[k]),
        decreases n - i,
    {
        let c = v[i];
        if first_delim == n && (c == ' ' || c == '\t' || c == '\n' || c == '\r' || c == '\u{c}') {
            assert(ascii_space(t@[i as int]));
            return true;
        }
        if first_quote == n && (c == '"' || c == '\'') {
            first_quote = i;
        }
        if first_delim == n && (c == '.' || c == ':' || c == '?') {
            first_delim = i;
        }
        i = i + 1;
    }
    let r = first_delim < n && first_quote < first_delim;
    proof {
        if r {
            let q = first_quote as int;
            let d = first_delim as int;
            assert(quote(v@[q]) && delimiter(v@[d]));
        } else if search_by_punctuation(t@) {
            assert forall|i: int| 0 <= i < t@.len() && ascii_space(#[trigger] t@[i]) implies exists|
                k: int,
            |
                0 <= k < i && delimiter(#[trigger] t@[k]) by {
                assert(delimiter(v@[first_delim as int]));
            }
            let (q, d) = choose|q: int, d: int|
                0 <= q < d < t@.len() && quote(#[trigger] t@[q]) && delimiter(#[trigger] t@[d])
                    && forall|k: int| 0 <= k < q ==> !delimiter(#[trigger] t@[k]);
            assert(quote(v@[q]) && delimiter(v@[d]));
            assert(first_quote <= q);
            assert(first_delim <= d);
            assert(delimiter(v@[first_delim as int]));
            assert(false);
        }
    }
    r
}

/// Nothing, or a port: a colon and decimal digits.
pub open spec fn is_port_suffix(s: Seq<char>) -> bool {
    s.len() == 0 || (s.len() > 1 && s[0] == ':' && forall|k: int|
        1 <= k < s.len() ==> ascii_digit(#[trigger] s[k]))
}

/// Whether nothing or a port stands in `v` from `from` on.
fn port_stands_at(v: &[char], from: usize) -> (r: bool)
    requires
        from <= v@.len(),
    ensures
        r == is_port_suffix(v@.subrange(from as int, v@.len() as int)),
{
    let n: usize = v.len();
    let ghost s = v@.subrange(from as int, n as int);
    if from == n {
        return true;
    }
    if v[from] != ':' || n - from == 1 {
        return false;
    }
    let mut i: usize = from + 1;
    while i < n
        invariant
            from < i <= n,
            n == v@.len(),
            s == v@.subrange(from as int, n as int),
            forall|k: int| 1 <= k < i - from ==> ascii_digit(#[trigger] s[k]),
        decreases n - i,
    {
        if !('0' <= v[i] && v[i] <= '9') {
            assert(!ascii_digit(s[i - from]));
            return false;
        }
        i = i + 1;
    }
    true
}

/// Where the host of the authority `t` ends: before its port, where it has one.
/// The colons of a bracketed address are no port, nor are those of a bare IPv6
/// address.
pub open spec fn host_end(t: Seq<char>) -> int {
    let close = index_of(t, ']');
    let colon = index_of(t, ':');
    let port = if t.len() > 0 && t[0] == '[' && close < t.len() {
        close + 1
    } else {
        colon
    };
    if port < t.len() && is_port_suffix(t.subrange(port, t.len() as int)) {
        port
    } else {
        t.len() as int
    }
}

/// Splits an authority into its host and its port with the colon, which may be
/// empty. The colons of an IPv6 address are no port.
pub fn split_host_port(t: &str) -> (r: (&str, &str))
    ensures
        r.0@ == t@.subrange(0, host_end(t@)),
        r.1@ == t@.subrange(host_end(t@), t@.len() as int),
        r.0@ + r.1@ == t@,
        is_port_suffix(r.1@),
{
    let v = chars_of(t);
    let n: usize = v.len();
    assert(v@.subrange(0, v@.len() as int) =~= v@);
    let close = find_from(v.as_slice(), 0, ']');
    let port: usize = if n > 0 && v[0] == '[' && close < n {
        close + 1
    } else {
        find_from(v.as_slice(), 0, ':')
    };
    let end: usize = if port < n && port_stands_at(v.as_slice(), port) {
        port
    } else {
        n
    };
    assert(t@.subrange(0, end as int) + t@.subrange(end as int, n as int) =~= t@);
    (t.substring_char(0, end), t.substring_char(end, n))
}

/// `host` without the brackets of a bracketed address.
pub open spec fn unbracketed(host: Seq<char>) -> Seq<char> {
    if host.len() > 0 && host[0] == '[' && host.last() == ']' {
        host.subrange(1, host.len() - 1)
    } else {
        host
    }
}

/// The host without the brackets of a bracketed address.
pub fn unbracket(v: &[char]) -> (r: Vec<char>)
    ensures
        r@ == unbracketed(v@),
{
    let n: usize = v.len();
    if n > 0 && v[0] == '[' && v[n - 1] == ']' {
        copy_range(v, 1, n - 1)
    } else {
        assert(v@.subrange(0, n as int) =~= v@);
        copy_range(v, 0, n)
    }
}

/// `localhost` or a name under it, in any case.
pub open spec fn localhost_name(host: Seq<char>) -> bool {
    ascii_lowered(host) == "localhost"@ || ".localhost"@.is_suffix_of(ascii_lowered(host))
}

fn is_localhost_name(v: &[char]) -> (r: bool)
    ensures
        r == localhost_name(v@),
{
    let lower = to_ascii_lower(v);
    let name = string_of(lower.as_slice(), 0, lower.len());
    assert(name@ =~= lower@);
    let suffix = chars_of(".localhost");
    text_eq(name.as_str(), "localhost") || ends_with(lower.as_slice(), suffix.as_slice())
}

/// Whether the public suffix of `host` is on the public suffix list, where
/// `host` has a suffix at all: what `psl::suffix` and `Suffix::is_known` say.
pub uninterp spec fn public_suffix_known(host: Seq<char>) -> Option<bool>;

/// `psl::suffix` on the bytes of `host`, and `Suffix::is_known` on what it
/// finds. The list is compiled into the crate, so the answer depends on
/// `host` alone.
#[verifier::external_body]
fn psl_suffix_known(host: &str) -> (r: Option<bool>)
    ensures
        r == public_suffix_known(host@),
{
    psl::suffix(host.as_bytes()).map(|suffix| suffix.is_known())
}

/// Whether `host` can be navigated to, given what the public suffix list says
/// of it: `localhost`, an IP literal, or a dotted name with a known suffix.
pub open spec fn navigable_host(host: Seq<char>, suffix_known: Option<bool>) -> bool {
    ||| localhost_name(host)
    ||| is_ip(unbracketed(host))
    ||| host.contains('.') && suffix_known == Some(true)
}

/// Whether `host` can be navigated to, given what the public suffix list says
/// of it.
pub fn is_navigable_with(host: &str, suffix_known: Option<bool>) -> (r: bool)
    ensures
        r == navigable_host(host@, suffix_known),
{
    let v = chars_of(host);
    if is_localhost_name(v.as_slice()) {
        return true;
    }
    let bare = unbracket(v.as_slice());
    if is_ip_literal(bare.as_slice()) {
        return true;
    }
    assert(v@.subrange(0, v@.len() as int) =~= v@);
    let dot = find_from(v.as_slice(), 0, '.');
    assert(dot < v@.len() ==> v@.contains(v@[dot as int]));
    let known = match suffix_known {
        Some(k) => k,
        None => false,
    };
    dot < v.len() && known
}

/// Whether `host` can be navigated to: `localhost`, an IP literal, or a dotted
/// name whose public suffix is known.
pub fn is_navigable_host(host: &str) -> (r: bool)
    ensures
        r == navigable_host(host@, public_suffix_known(host@)),
{
    is_navigable_with(host, psl_suffix_known(host))
}

/// Whether `host` names the local machine.
pub open spec fn loopback_host(host: Seq<char>) -> bool {
    localhost_name(host) || is_loopback_ip(unbracketed(host))
}

/// Whether `host` names the local machine; navigations there use `http`.
pub fn is_loopback(host: &str) -> (r: bool)
    ensures
        r == loopback_host(host@),
{
    let v = chars_of(host);
    if is_localhost_name(v.as_slice()) {
        return true;
    }
    let bare = unbracket(v.as_slice());
    is_loopback_literal(bare.as_slice())
}

/// The template that a search uses: `template`, or the default one where
/// `template` has no `{q}`.
pub open spec fn effective_template(template: Seq<char>) -> Seq<char> {
    if contains_text(template, "{q}"@) {
        template
    } else {
        "https://duckduckgo.com/?q={q}"@
    }
}

/// The URL that searches for `query`.
pub open spec fn search_url(query: Seq<char>, template: Seq<char>) -> Seq<char> {
    replaced(effective_template(template), "{q}"@, percent_encoded(query))
}

/// The URL that searches for `query`: each `{q}` of the template replaced by
/// the percent-encoded query. A template without `{q}` gives way to the
/// default one.
pub fn make_search(query: &str, url_template: &str) -> (r: String)
    ensures
        r@ == search_url(query@, url_template@),
{
    let encoded = url_percent_encode(query);
    let placeholder = chars_of("{q}");
    proof {
        reveal_strlit("{q}");
    }
    let template = chars_of(url_template);
    if contains(template.as_slice(), placeholder.as_slice()) {
        replace(template.as_slice(), placeholder.as_slice(), encoded.as_str())
    } else {
        let fallback = chars_of(default_search_url_template());
        replace(fallback.as_slice(), placeholder.as_slice(), encoded.as_str())
    }
}

/// The place of the first `/`, `?` or `#`; the length of `t` where there is
/// none.
pub open spec fn authority_end(t: Seq<char>) -> int
    decreases t.len(),
{
    if t.len() == 0 || t[0] == '/' || t[0] == '?' || t[0] == '#' {
        0
    } else {
        1 + authority_end(t.drop_first())
    }
}

fn find_authority_end(v: &[char]) -> (r: usize)
    ensures
        r == authority_end(v@),
        r <= v@.len(),
{
    let mut i: usize = 0;
    assert(v@.skip(0) =~= v@);
    while i < v.len() && v[i] != '/' && v[i] != '?' && v[i] != '#'
        invariant
            i <= v@.len(),
            authority_end(v@) == i + authority_end(v@.skip(i as int)),
        decreases v@.len() - i,
    {
        assert(v@.skip(i as int).drop_first() =~= v@.skip(i + 1));
        i = i + 1;
    }
    i
}

/// The host that omnibox text `text` names, if it is no search.
pub open spec fn omnibox_host(text: Seq<char>) -> Seq<char> {
    let t = trimmed(text);
    let authority = t.subrange(0, authority_end(t));
    authority.subrange(0, host_end(authority))
}

/// The URL that the omnibox goes to for `text`, given what the public suffix
/// list says of the host that `text` names.
pub open spec fn resolved(
    text: Seq<char>,
    template: Seq<char>,
    suffix_known: Option<bool>,
) -> Seq<char> {
    let t = trimmed(text);
    let host = omnibox_host(text);
    if t.len() == 0 {
        Seq::empty()
    } else if schemed(t) {
        t
    } else if search_by_punctuation(t) {
        search_url(t, template)
    } else if navigable_host(host, suffix_known) {
        if loopback_host(host) {
            "http://"@ + t
        } else {
            "https://"@ + t
        }
    } else {
        search_url(t, template)
    }
}

/// The host that omnibox text names, if it is no search.
pub fn host_of_input(text: &str) -> (r: String)
    ensures
        r@ == omnibox_host(text@),
{
    let v = trim(text);
    let end = find_authority_end(v.as_slice());
    let authority = string_of(v.as_slice(), 0, end);
    let (host, _port) = split_host_port(authority.as_str());
    host.to_owned()
}

/// Resolves omnibox text to a URL, given what the public suffix list says of
/// the host that the text names.
pub fn resolve_with_suffix(text: &str, url_template: &str, suffix_known: Option<bool>) -> (r:
    String)
    ensures
        r@ == resolved(text@, url_template@, suffix_known),
{
    let v = trim(text);
    let t = string_of(v.as_slice(), 0, v.len());
    assert(t@ =~= v@);
    if v.len() == 0 {
        assert(t@ =~= Seq::<char>::empty());
        return t;
    }
    if has_scheme(t.as_str()) {
        return t;
    }
    if is_search_by_whitespace_rule(t.as_str()) {
        return make_search(t.as_str(), url_template);
    }
    let host = host_of_input(text);
    if is_navigable_with(host.as_str(), suffix_known) {
        let mut url = if is_loopback(host.as_str()) {
            "http://".to_owned()
        } else {
            "https://".to_owned()
        };
        url.push_str(t.as_str());
        return url;
    }
    make_search(t.as_str(), url_template)
}

/// Resolves omnibox text to a URL. The first that applies: text with a scheme
/// is taken as it is; punctuation can make it a search; a navigable host is
/// gone to, over `http` where it is the local machine and `https` elsewhere;
/// anything else is searched for. Blank text gives the empty text.
pub fn resolve_omnibox_input(text: &str, url_template: &str) -> (r: String)
    ensures
        r@ == resolved(text@, url_template@, public_suffix_known(omnibox_host(text@))),
{
    let host = host_of_input(text);
    resolve_with_suffix(text, url_template, psl_suffix_known(host.as_str()))
}

/// Blank text resolves to the empty text.
pub proof fn blank_input_resolves_to_nothing(
    text: Seq<char>,
    template: Seq<char>,
    suffix_known: Option<bool>,
)
    requires
        trimmed(text).len() == 0,
    ensures
        resolved(text, template, suffix_known) == Seq::<char>::empty(),
{
}

/// Text with a scheme passes through unchanged, whatever the template.
pub proof fn schemed_input_passes_through(
    text: Seq<char>,
    template: Seq<char>,
    suffix_known: Option<bool>,
)
    requires
        schemed(trimmed(text)),
    ensures
        resolved(text, template, suffix_known) == trimmed(text),
{
}

/// Text without a scheme that has a space before its first `.`, `:` or `?`, or
/// a space and none of these, is searched for: it never becomes a URL of its
/// own.
pub proof fn spaced_input_is_searched(
    text: Seq<char>,
    template: Seq<char>,
    suffix_known: Option<bool>,
    i: int,
)
    requires
        !schemed(trimmed(text)),
        0 <= i < trimmed(text).len(),
        ascii_space(trimmed(text)[i]),
        forall|k: int| 0 <= k < i ==> !delimiter(#[trigger] trimmed(text)[k]),
    ensures
        resolved(text, template, suffix_known) == search_url(trimmed(text), template),
{
}

/// A template without `{q}` resolves every text as the default template does.
pub proof fn template_without_placeholder_falls_back(
    text: Seq<char>,
    template: Seq<char>,
    suffix_known: Option<bool>,
)
    requires
        !contains_text(template, "{q}"@),
    ensures
        resolved(text, template, suffix_known) == resolved(
            text,
            "https://duckduckgo.com/?q={q}"@,
            suffix_known,
        ),
{
    lemma_default_template();
}

/// The default template is a prefix and the placeholder.
proof fn lemma_default_template()
    ensures
        "https://duckduckgo.com/?q={q}"@ == "https://duckduckgo.com/?q="@ + "{q}"@,
        contains_text("https://duckduckgo.com/?q={q}"@, "{q}"@),
        forall|k: int|
            0 <= k < "https://duckduckgo.com/?q="@.len() ==> "https://duckduckgo.com/?q="@[k]
                != '{',
{
    reveal_strlit("https://duckduckgo.com/?q={q}");
    reveal_strlit("https://duckduckgo.com/?q=");
    reveal_strlit("{q}");
    let t = "https://duckduckgo.com/?q={q}"@;
    assert(t =~= "https://duckduckgo.com/?q="@ + "{q}"@);
    assert(t.subrange(26, 26int + "{q}"@.len()) =~= "{q}"@);
}

/// Where `{q}` stands once in a template, the search URL is the template with
/// the encoded query in its place.
pub proof fn search_url_substitutes_the_query(
    query: Seq<char>,
    before: Seq<char>,
    after: Seq<char>,
)
    requires
        forall|k: int| 0 <= k < before.len() ==> before[k] != '{',
        forall|k: int| 0 <= k < after.len() ==> after[k] != '{',
    ensures
        search_url(query, before + "{q}"@ + after) == before + percent_encoded(query) + after,
{
    let t = before + "{q}"@ + after;
    assert(t.subrange(before.len() as int, before.len() as int + "{q}"@.len()) =~= "{q}"@);
    lemma_replaced_once(before, after, percent_encoded(query));
}

proof fn lemma_replaced_once(before: Seq<char>, after: Seq<char>, with: Seq<char>)
    requires
        forall|k: int| 0 <= k < before.len() ==> before[k] != '{',
        forall|k: int| 0 <= k < after.len() ==> after[k] != '{',
    ensures
        replaced(before + "{q}"@ + after, "{q}"@, with) == before + with + after,
    decreases before.len(),
{
    let q = "{q}"@;
    reveal_strlit("{q}");
    let t = before + q + after;
    if before.len() == 0 {
        assert(t.subrange(0, q.len() as int) =~= q);
        assert(t.subrange(q.len() as int, t.len() as int) =~= after);
        lemma_replaced_none(after, with);
        assert(with + after =~= before + with + after);
    } else {
        assert(t.subrange(0, q.len() as int)[0] == before[0]);
        assert(t.subrange(0, q.len() as int) != q);
        assert(t.drop_first() =~= before.drop_first() + q + after);
        lemma_replaced_once(before.drop_first(), after, with);
        assert(seq![t[0]] + (before.drop_first() + with + after) =~= before + with + after);
    }
}

proof fn lemma_replaced_none(s: Seq<char>, with: Seq<char>)
    requires
        forall|k: int| 0 <= k < s.len() ==> s[k] != '{',
    ensures
        replaced(s, "{q}"@, with) == s,
    decreases s.len(),
{
    let q = "{q}"@;
    reveal_strlit("{q}");
    if s.len() >= q.len() {
        assert(s.subrange(0, q.len() as int)[0] == s[0]);
        lemma_replaced_none(s.drop_first(), with);
        assert(seq![s[0]] + s.drop_first() =~= s);
    }
}

/// A text that begins with `http://` or `https://` and does not end in white
/// space resolves to itself.
proof fn lemma_http_is_stable(
    url: Seq<char>,
    rest: Seq<char>,
    template: Seq<char>,
    suffix_known: Option<bool>,
)
    requires
        url == "http://"@ + rest || url == "https://"@ + rest,
        rest.len() > 0,
        !white_space(rest.last()),
    ensures
        resolved(url, template, suffix_known) == url,
{
    reveal_strlit("http://");
    reveal_strlit("https://");
    assert(url[0] == 'h' && url[1] == 't' && url[2] == 't' && url[3] == 'p');
    assert(url.last() == rest.last());
    assert(trim_start(url) == url);
    assert(trim_end(url) == url);
    if url == "http://"@ + rest {
        lemma_index_of_unique(url, ':', 4);
        assert(url[5] == '/' && url[6] == '/');
    } else {
        lemma_index_of_unique(url, ':', 5);
        assert(url[4] == 's' && url[6] == '/' && url[7] == '/');
    }
    assert forall|k: int| 0 <= k < index_of(url, ':') implies scheme_char(#[trigger] url[k]) by {}
    assert(schemed(url));
}

proof fn lemma_encoded_is_no_space(c: char)
    requires
        c == '%' || ((c as u32) < 128 && unreserved(c as u8)),
    ensures
        !white_space(c),
{
}

/// A URL that the omnibox made out of a host, or out of a search with the
/// default template, resolves to itself.
pub proof fn resolved_urls_are_stable(
    text: Seq<char>,
    template: Seq<char>,
    suffix_known: Option<bool>,
    later_template: Seq<char>,
    later_known: Option<bool>,
)
    requires
        !contains_text(template, "{q}"@) || !search_by_punctuation(trimmed(text))
            && navigable_host(omnibox_host(text), suffix_known),
    ensures
        resolved(resolved(text, template, suffix_known), later_template, later_known) == resolved(
            text,
            template,
            suffix_known,
        ),
{
    let t = trimmed(text);
    let url = resolved(text, template, suffix_known);
    lemma_trimmed_ends(text);
    if t.len() == 0 {
        assert(trimmed(url) =~= Seq::<char>::empty());
    } else if schemed(t) {
        assert(trim_start(t) == t);
        assert(trim_end(t) == t);
    } else if !search_by_punctuation(t) && navigable_host(omnibox_host(text), suffix_known) {
        lemma_http_is_stable(url, t, later_template, later_known);
    } else {
        lemma_default_template();
        let front = "https://duckduckgo.com/?q="@;
        let none = Seq::<char>::empty();
        assert(front + "{q}"@ + none =~= front + "{q}"@);
        search_url_substitutes_the_query(t, front, none);
        let e = percent_encoded(t);
        assert(url =~= front + e);
        percent_encoding_is_safe(t);
        reveal_strlit("https://duckduckgo.com/?q=");
        reveal_strlit("https://");
        let rest = url.subrange(8, url.len() as int);
        assert(url =~= "https://"@ + rest);
        assert(rest.last() == url.last());
        if e.len() > 0 {
            assert(url.last() == e[e.len() - 1]);
            let c = e[e.len() - 1];
            assert(c == '%' || ((c as u32) < 128 && unreserved(c as u8)));
            lemma_encoded_is_no_space(c);
        } else {
            assert(url =~= front);
            assert(url.last() == '=');
        }
        lemma_http_is_stable(url, rest, later_template, later_known);
    }
}

} // verus!
