//! The structure of an HTTP(S) URL as the chrome shows it: the emphasised
//! registrable domain, the tracking parameters, and the text of a hovered
//! link.

use crate::ip::{is_ip, is_ip_literal};
use crate::omnibox::{unbracket, unbracketed};
use crate::sorted::{is_removed_list, removed_names};
use crate::text::{
    chars_of, decimal, decimal_text, ends_with, opt_text, starts_with, string_of, strings, text_eq,
};
use vstd::prelude::*;

verus! {

/// What a parsed URL consists of.
pub struct UrlParts {
    /// The host, without the port.
    pub host: Option<String>,
    /// The port, where it is not the scheme's own.
    pub port: Option<u16>,
    pub path: String,
    pub query: Option<String>,
    pub fragment: Option<String>,
    /// The decoded names of the query parameters, in order.
    pub query_names: Vec<String>,
}

/// [`UrlParts`] as values.
pub struct UrlPartsView {
    pub host: Option<Seq<char>>,
    pub port: Option<u16>,
    pub path: Seq<char>,
    pub query: Option<Seq<char>>,
    pub fragment: Option<Seq<char>>,
    pub query_names: Seq<Seq<char>>,
}

impl View for UrlParts {
    type V = UrlPartsView;

    open spec fn view(&self) -> UrlPartsView {
        UrlPartsView {
            host: opt_text(self.host),
            port: self.port,
            path: self.path@,
            query: opt_text(self.query),
            fragment: opt_text(self.fragment),
            query_names: strings(self.query_names@),
        }
    }
}

/// The parts that `url::Url::parse` finds in a text; `None` where it refuses
/// the text.
pub uninterp spec fn parsed_url(text: Seq<char>) -> Option<UrlPartsView>;

/// `url::Url::parse`, and the accessors of the `Url` that it returns.
#[verifier::external_body]
fn parse_url(text: &str) -> (r: Option<UrlParts>)
    ensures
        match r {
            Some(parts) => parsed_url(text@) == Some(parts@),
            None => parsed_url(text@) is None,
        },
{
    let url = url::Url::parse(text).ok()?;
    Some(UrlParts {
        host: url.host_str().map(str::to_owned),
        port: url.port(),
        path: url.path().to_owned(),
        query: url.query().map(str::to_owned),
        fragment: url.fragment().map(str::to_owned),
        query_names: url.query_pairs().map(|(name, _)| name.into_owned()).collect(),
    })
}

/// The registrable domain that `psl::domain` finds in a host, and whether its
/// public suffix is on the list.
pub uninterp spec fn registrable_domain(host: Seq<char>) -> Option<(Seq<char>, bool)>;

/// `psl::domain` on the bytes of `host`, and `Suffix::is_known` on the suffix
/// of the domain. The domain is the end of `host`, from the start of a label.
#[verifier::external_body]
fn psl_domain(host: &str) -> (r: Option<(String, bool)>)
    ensures
        match r {
            Some(d) => registrable_domain(host@) == Some((d.0@, d.1)) && d.0@.is_suffix_of(host@),
            None => registrable_domain(host@) is None,
        },
{
    let domain = psl::domain(host.as_bytes())?;
    let name = std::str::from_utf8(domain.as_bytes()).unwrap_or(host);
    Some((name.to_owned(), domain.suffix().is_known()))
}

/// A set of URL cleaning rules.
#[verifier::external_type_specification]
#[verifier::external_body]
pub struct ExUrlCleaner(clearurls::UrlCleaner);

/// Whether a cleaner was made by `clearurls::UrlCleaner::from_embedded_rules`.
pub uninterp spec fn has_embedded_rules(cleaner: clearurls::UrlCleaner) -> bool;

/// What a cleaner with the embedded rules makes of a URL; `None` where it
/// reports an error.
pub uninterp spec fn cleaned_url(url: Seq<char>) -> Option<Seq<char>>;

/// Whether the embedded rules load: whether there is any cleaner that was made
/// from them.
pub open spec fn embedded_rules_load() -> bool {
    exists|cleaner: clearurls::UrlCleaner| has_embedded_rules(cleaner)
}

/// `clearurls::UrlCleaner::from_embedded_rules`. It reads a text that is
/// compiled into the crate and nothing else, so it succeeds always or never:
/// where it fails, no cleaner was ever made by it. Which of the two holds is
/// not promised.
#[verifier::external_body]
fn load_embedded_rules() -> (r: Option<clearurls::UrlCleaner>)
    ensures
        r is Some <==> embedded_rules_load(),
        r is Some ==> has_embedded_rules(r->0),
{
    clearurls::UrlCleaner::from_embedded_rules().ok()
}

/// `clearurls::UrlCleaner::clear_single_url_str`. The embedded rules are fixed,
/// so what it makes of `url` depends on `url` alone.
#[verifier::external_body]
fn clear_url(cleaner: &clearurls::UrlCleaner, url: &str) -> (r: Option<String>)
    requires
        has_embedded_rules(*cleaner),
    ensures
        opt_text(r) == cleaned_url(url@),
{
    cleaner.clear_single_url_str(url).ok().map(std::borrow::Cow::into_owned)
}

/// The embedded URL cleaning rules, loaded once and used for every URL; where
/// they did not load, every URL counts as clean.
pub struct Cleaner {
    rules: Option<clearurls::UrlCleaner>,
}

impl Cleaner {
    /// The rules, where there are any, are the embedded ones.
    #[verifier::type_invariant]
    spec fn rules_are_embedded(&self) -> bool {
        self.rules is Some ==> has_embedded_rules(self.rules->0)
    }

    /// Whether the rules loaded.
    pub closed spec fn loaded(&self) -> bool {
        self.rules is Some
    }

    /// What the cleaner makes of `url`: without rules the URL itself, and
    /// `None` where the rules report an error.
    pub open spec fn cleaned(&self, url: Seq<char>) -> Option<Seq<char>> {
        if self.loaded() {
            cleaned_url(url)
        } else {
            Some(url)
        }
    }

    /// Cleans one URL; `None` where the rules report an error.
    pub fn clean(&self, url: &str) -> (r: Option<String>)
        ensures
            opt_text(r) == self.cleaned(url@),
    {
        proof {
            use_type_invariant(self);
        }
        match &self.rules {
            Some(rules) => clear_url(rules, url),
            None => Some(url.to_owned()),
        }
    }
}

/// Loads the embedded URL cleaning rules. Loading compiles some hundred
/// patterns, so callers keep the cleaner and use it for every URL. A set of
/// rules that does not load cleans nothing. Every cleaner is as good as
/// another: what it makes of a URL depends on the URL alone.
pub fn url_cleaner() -> (r: Cleaner)
    ensures
        r.loaded() == embedded_rules_load(),
        forall|url: Seq<char>| #[trigger]
            r.cleaned(url) == if embedded_rules_load() {
                cleaned_url(url)
            } else {
                Some(url)
            },
{
    Cleaner { rules: load_embedded_rules() }
}

/// The structure of an HTTP(S) URL.
pub struct UrlAnalysis {
    /// `https://` or `http://`.
    pub scheme: String,
    /// The labels before the registrable domain, with the dot behind them.
    pub subdomain: String,
    /// The registrable domain; the whole host with its port where there is
    /// none (IP literals, `localhost`, suffixes that are on no list).
    pub registrable: String,
    /// Path, query and fragment.
    pub rest: String,
    /// The URL without tracking parameters, redirect wrappers unwrapped.
    pub clean_url: String,
    /// The names of the query parameters that the clean URL lacks, ascending.
    pub tracker_names: Vec<String>,
}

/// [`UrlAnalysis`] as values.
pub struct UrlAnalysisView {
    pub scheme: Seq<char>,
    pub subdomain: Seq<char>,
    pub registrable: Seq<char>,
    pub rest: Seq<char>,
    pub clean_url: Seq<char>,
    pub tracker_names: Seq<Seq<char>>,
}

impl View for UrlAnalysis {
    type V = UrlAnalysisView;

    open spec fn view(&self) -> UrlAnalysisView {
        UrlAnalysisView {
            scheme: self.scheme@,
            subdomain: self.subdomain@,
            registrable: self.registrable@,
            rest: self.rest@,
            clean_url: self.clean_url@,
            tracker_names: strings(self.tracker_names@),
        }
    }
}

/// The scheme with its separator, of an HTTP(S) URL.
pub open spec fn http_scheme(raw: Seq<char>) -> Option<Seq<char>> {
    if "https://"@.is_prefix_of(raw) {
        Some("https://"@)
    } else if "http://"@.is_prefix_of(raw) {
        Some("http://"@)
    } else {
        None
    }
}

fn http_scheme_of(raw: &str) -> (r: Option<String>)
    ensures
        opt_text(r) == http_scheme(raw@),
{
    let v = chars_of(raw);
    let secure = chars_of("https://");
    let plain = chars_of("http://");
    if starts_with(v.as_slice(), secure.as_slice()) {
        Some("https://".to_owned())
    } else if starts_with(v.as_slice(), plain.as_slice()) {
        Some("http://".to_owned())
    } else {
        None
    }
}

/// The host with the port behind it, where there is one.
pub open spec fn with_port(host: Seq<char>, port: Option<u16>) -> Seq<char> {
    match port {
        Some(p) => host + seq![':'] + decimal(p as nat),
        None => host,
    }
}

/// A host that no registrable domain is looked for in.
pub open spec fn has_no_domain(host: Seq<char>) -> bool {
    is_ip(unbracketed(host)) || host == "localhost"@ || ".localhost"@.is_suffix_of(host)
}

/// The subdomain and the registrable part of a host, given what the public
/// suffix list finds in it.
pub open spec fn host_split(
    host: Seq<char>,
    host_with_port: Seq<char>,
    domain: Option<(Seq<char>, bool)>,
) -> (Seq<char>, Seq<char>) {
    match domain {
        Some((name, true)) => if has_no_domain(host) {
            (Seq::empty(), host_with_port)
        } else {
            (host.subrange(0, host.len() - name.len()), name)
        },
        _ => (Seq::empty(), host_with_port),
    }
}

/// What the public suffix list found in a host, as a value.
pub open spec fn domain_value(domain: Option<(String, bool)>) -> Option<(Seq<char>, bool)> {
    match domain {
        Some(d) => Some((d.0@, d.1)),
        None => None,
    }
}

/// Splits a host into subdomain and registrable part, given what the public
/// suffix list found in it.
pub fn split_with_domain(host: &str, host_with_port: &str, domain: Option<(String, bool)>) -> (r: (
    String,
    String,
))
    requires
        domain is Some ==> (domain->0).0@.is_suffix_of(host@),
    ensures
        (r.0@, r.1@) == host_split(host@, host_with_port@, domain_value(domain)),
{
    let v = chars_of(host);
    let bare = unbracket(v.as_slice());
    let suffix = chars_of(".localhost");
    if is_ip_literal(bare.as_slice()) || text_eq(host, "localhost") || ends_with(
        v.as_slice(),
        suffix.as_slice(),
    ) {
        return (String::new(), host_with_port.to_owned());
    }
    match domain {
        Some((name, true)) => {
            let n: usize = chars_of(name.as_str()).len();
            (string_of(v.as_slice(), 0, v.len() - n), name)
        },
        _ => (String::new(), host_with_port.to_owned()),
    }
}

/// Splits a host (without port) into subdomain and registrable domain by the
/// public suffix list. IP literals, `localhost`, and hosts whose suffix is on
/// no list have no subdomain and are registrable as a whole, with their port.
pub fn split_registrable(host: &str, host_with_port: &str) -> (r: (String, String))
    ensures
        (r.0@, r.1@) == host_split(host@, host_with_port@, registrable_domain(host@)),
{
    split_with_domain(host, host_with_port, psl_domain(host))
}

/// Splitting loses nothing: subdomain and registrable domain make up the host,
/// or there is no subdomain and the host stands whole with its port.
pub proof fn split_keeps_the_host(
    host: Seq<char>,
    host_with_port: Seq<char>,
    domain: Option<(Seq<char>, bool)>,
)
    requires
        domain is Some ==> (domain->0).0.is_suffix_of(host),
    ensures
        ({
            let (sub, reg) = host_split(host, host_with_port, domain);
            sub + reg == host || (sub.len() == 0 && reg == host_with_port)
        }),
{
    let (sub, reg) = host_split(host, host_with_port, domain);
    if reg != host_with_port || sub.len() > 0 {
        assert(sub + reg =~= host);
    }
}

/// Everything behind the host.
pub open spec fn rest_of(parts: UrlPartsView) -> Seq<char> {
    let query = match parts.query {
        Some(q) => seq!['?'] + q,
        None => Seq::empty(),
    };
    let fragment = match parts.fragment {
        Some(f) => seq!['#'] + f,
        None => Seq::empty(),
    };
    parts.path + query + fragment
}

/// The parameter names of a parsed URL; none where it did not parse.
pub open spec fn names_of(parts: Option<UrlPartsView>) -> Seq<Seq<char>> {
    match parts {
        Some(p) => p.query_names,
        None => Seq::empty(),
    }
}

/// Whether `a` is the structure of the URL `raw`, given its parts, what the
/// public suffix list finds in its host, its clean URL, and the parts of that.
pub open spec fn is_analysis(
    a: UrlAnalysisView,
    raw: Seq<char>,
    parts: UrlPartsView,
    domain: Option<(Seq<char>, bool)>,
    clean: Seq<char>,
    clean_parts: Option<UrlPartsView>,
) -> bool {
    let host = parts.host->0;
    &&& http_scheme(raw) == Some(a.scheme)
    &&& (a.subdomain, a.registrable) == host_split(host, with_port(host, parts.port), domain)
    &&& a.rest == rest_of(parts)
    &&& a.clean_url == clean
    &&& is_removed_list(a.tracker_names, parts.query_names, names_of(clean_parts))
}

/// Whether a URL is analysed: it is an HTTP(S) URL that parses and has a host,
/// and cleaning it reports no error.
pub open spec fn is_analysed(
    raw: Seq<char>,
    parts: Option<UrlPartsView>,
    cleaned: Option<Seq<char>>,
) -> bool {
    http_scheme(raw) is Some && parts is Some && (parts->0).host is Some && cleaned is Some
}

/// The parts of a parsed URL as a value.
pub open spec fn parts_value(parts: Option<UrlParts>) -> Option<UrlPartsView> {
    match parts {
        Some(p) => Some(p@),
        None => None,
    }
}

/// The structure of the HTTP(S) URL `raw`, given its parts and what the
/// outside lookups say of it. `None` where `raw` is no HTTP(S) URL, did not
/// parse, has no host, or could not be cleaned.
pub fn analyze_parts(
    raw: &str,
    parts: Option<UrlParts>,
    domain: Option<(String, bool)>,
    cleaned: Option<String>,
    clean_parts: Option<UrlParts>,
) -> (r: Option<UrlAnalysis>)
    requires
        parts is Some && (parts->0).host is Some && domain is Some ==> (
        domain->0).0@.is_suffix_of((parts->0).host->0@),
    ensures
        match r {
            Some(a) => {
                &&& is_analysed(raw@, parts_value(parts), opt_text(cleaned))
                &&& is_analysis(
                    a@,
                    raw@,
                    (parts->0)@,
                    domain_value(domain),
                    (cleaned->0)@,
                    parts_value(clean_parts),
                )
            },
            None => !is_analysed(raw@, parts_value(parts), opt_text(cleaned)),
        },
{
    let scheme = match http_scheme_of(raw) {
        Some(s) => s,
        None => {
            return None;
        },
    };
    let parts = match parts {
        Some(p) => p,
        None => {
            return None;
        },
    };
    let ghost all = parts@;
    let host = match parts.host {
        Some(h) => h,
        None => {
            return None;
        },
    };
    let clean_url = match cleaned {
        Some(url) => url,
        None => {
            return None;
        },
    };
    let mut host_with_port = host.clone();
    if let Some(port) = parts.port {
        host_with_port.push(':');
        let digits = decimal_text(port as u64);
        host_with_port.push_str(digits.as_str());
        assert(host_with_port@ =~= with_port(host@, parts.port));
    }
    let (subdomain, registrable) = split_with_domain(
        host.as_str(),
        host_with_port.as_str(),
        domain,
    );
    let mut rest = parts.path;
    if let Some(q) = parts.query {
        rest.push('?');
        rest.push_str(q.as_str());
    }
    if let Some(f) = parts.fragment {
        rest.push('#');
        rest.push_str(f.as_str());
    }
    assert(rest@ =~= rest_of(all));
    let clean_names = match clean_parts {
        Some(p) => p.query_names,
        None => Vec::new(),
    };
    assert(strings(clean_names@) =~= names_of(parts_value(clean_parts)));
    let tracker_names = removed_names(&parts.query_names, &clean_names);
    Some(UrlAnalysis { scheme, subdomain, registrable, rest, clean_url, tracker_names })
}

/// Whether `a` is what the analysis of `raw` gives, with the rules of
/// `cleaner`.
pub open spec fn is_analysis_of(
    a: Option<UrlAnalysisView>,
    cleaner: Cleaner,
    raw: Seq<char>,
) -> bool {
    let parts = parsed_url(raw);
    let cleaned = cleaner.cleaned(raw);
    match a {
        Some(a) => is_analysed(raw, parts, cleaned) && is_analysis(
            a,
            raw,
            parts->0,
            registrable_domain((parts->0).host->0),
            cleaned->0,
            parsed_url(cleaned->0),
        ),
        None => !is_analysed(raw, parts, cleaned),
    }
}

/// An analysis as a value.
pub open spec fn analysis_value(a: Option<UrlAnalysis>) -> Option<UrlAnalysisView> {
    match a {
        Some(a) => Some(a@),
        None => None,
    }
}

/// Analyses an HTTP(S) URL. `None` for any other URL, for text that does not
/// parse, for a URL without a host, and where cleaning reports an error.
/// Without rules the clean URL is the URL itself.
pub fn analyze_url(cleaner: &Cleaner, raw: &str) -> (r: Option<UrlAnalysis>)
    ensures
        is_analysis_of(analysis_value(r), *cleaner, raw@),
{
    if http_scheme_of(raw).is_none() {
        return None;
    }
    let parts = match parse_url(raw) {
        Some(p) => p,
        None => {
            return None;
        },
    };
    let domain = match &parts.host {
        Some(host) => psl_domain(host.as_str()),
        None => {
            return None;
        },
    };
    let cleaned = cleaner.clean(raw);
    let clean_parts = match &cleaned {
        Some(url) => parse_url(url.as_str()),
        None => None,
    };
    analyze_parts(raw, Some(parts), domain, cleaned, clean_parts)
}

/// How many code points of a hovered link the status line shows.
pub const MAX_HOVER_LEN: usize = 120;

/// What is shown of a cleaned URL: its host and path where it parses, else
/// the URL itself.
pub open spec fn link_preview(clean_url: Seq<char>, parts: Option<UrlPartsView>) -> Seq<char> {
    match parts {
        Some(p) => match p.host {
            Some(host) => host + p.path,
            None => clean_url,
        },
        None => clean_url,
    }
}

/// The note on the number of trackers; empty where there are none.
pub open spec fn tracker_note(count: nat) -> Seq<char> {
    if count == 0 {
        Seq::empty()
    } else {
        " · "@ + decimal(count) + " tracker"@ + if count == 1 {
            Seq::empty()
        } else {
            "s"@
        }
    }
}

/// Whether `shown` is the text for a link with the parameter names `names`
/// whose clean URL is `clean`.
pub open spec fn is_hover_text(
    shown: Seq<char>,
    clean: Seq<char>,
    names: Seq<Seq<char>>,
    clean_parts: Option<UrlPartsView>,
) -> bool {
    exists|trackers: Seq<Seq<char>>| #[trigger]
        is_removed_list(trackers, names, names_of(clean_parts)) && shown == cut_hover(
            link_preview(clean, clean_parts) + tracker_note(trackers.len()),
        )
}

/// `text`, cut to the length that the status line shows.
pub open spec fn cut_hover(text: Seq<char>) -> Seq<char> {
    if text.len() > MAX_HOVER_LEN {
        text.subrange(0, MAX_HOVER_LEN as int)
    } else {
        text
    }
}

/// Cuts a text to the length that the status line shows.
pub fn truncate_hover(text: &str) -> (r: String)
    ensures
        r@ == cut_hover(text@),
{
    let v = chars_of(text);
    if v.len() > MAX_HOVER_LEN {
        string_of(v.as_slice(), 0, MAX_HOVER_LEN)
    } else {
        text.to_owned()
    }
}

/// The status-line text for a hovered link that was analysed, given the parts
/// of its clean URL.
pub fn hover_of_analysis(a: &UrlAnalysis, clean_parts: Option<UrlParts>) -> (r: String)
    ensures
        r@ == cut_hover(
            link_preview(a@.clean_url, parts_value(clean_parts)) + tracker_note(
                a@.tracker_names.len(),
            ),
        ),
{
    let mut text = match clean_parts {
        Some(p) => match p.host {
            Some(host) => {
                let mut t = host;
                t.push_str(p.path.as_str());
                t
            },
            None => a.clean_url.clone(),
        },
        None => a.clean_url.clone(),
    };
    let ghost preview = text@;
    let count: usize = a.tracker_names.len();
    if count > 0 {
        text.push_str(" · ");
        let digits = decimal_text(count as u64);
        text.push_str(digits.as_str());
        text.push_str(" tracker");
        if count != 1 {
            text.push_str("s");
        }
    }
    assert(text@ =~= preview + tracker_note(count as nat));
    truncate_hover(text.as_str())
}

/// Whether `shown` is the text for a hovered link, with the rules of `cleaner`.
pub open spec fn is_hover_display(shown: Seq<char>, cleaner: Cleaner, url: Seq<char>) -> bool {
    let parts = parsed_url(url);
    let cleaned = cleaner.cleaned(url);
    if is_analysed(url, parts, cleaned) {
        is_hover_text(shown, cleaned->0, (parts->0).query_names, parsed_url(cleaned->0))
    } else {
        shown == cut_hover(url)
    }
}

/// The status-line text for a hovered link: where an HTTP(S) link really goes
/// (host and path of its clean URL) and how many trackers it carries; a link
/// that is not analysed as it is. At most [`MAX_HOVER_LEN`] code points.
pub fn build_hover_display(cleaner: &Cleaner, url: &str) -> (r: String)
    ensures
        r@.len() <= MAX_HOVER_LEN,
        is_hover_display(r@, *cleaner, url@),
{
    match analyze_url(cleaner, url) {
        Some(a) => {
            let parts = parse_url(a.clean_url.as_str());
            assert(is_removed_list(
                a@.tracker_names,
                (parsed_url(url@)->0).query_names,
                names_of(parts_value(parts)),
            ));
            hover_of_analysis(&a, parts)
        },
        None => truncate_hover(url),
    }
}

} // verus!
