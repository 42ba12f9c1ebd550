//! What is shown of a link: that its parts make it up, and where they come
//! from.

use crate::ip::is_ip;
use crate::sorted::{ascending_lists_are_unique, is_removed_list};
use crate::text::{decimal, text_lt};
use crate::url_analysis::{
    cleaned_url, cut_hover, has_no_domain, host_split, http_scheme, is_analysis_of, is_hover_display,
    link_preview, names_of, parsed_url, registrable_domain, rest_of, tracker_note, with_port, Cleaner,
    UrlAnalysisView, UrlPartsView,
};
use vstd::prelude::*;

verus! {

/// Nothing behind the host is lost: a fragment stands at the end, whether or not
/// there is a query, and a query stands behind the path, whether or not there is
/// a fragment.
pub proof fn everything_behind_the_host_is_kept(parts: UrlPartsView)
    ensures
        parts.fragment is Some ==> rest_of(parts) == rest_of(
            UrlPartsView { fragment: None, ..parts },
        ) + seq!['#'] + parts.fragment->0,
        parts.fragment is None && parts.query is Some ==> rest_of(parts) == parts.path + seq!['?']
            + parts.query->0,
        parts.fragment is None && parts.query is None ==> rest_of(parts) == parts.path,
        parts.path.is_prefix_of(rest_of(parts)),
{
    let rest = rest_of(parts);
    if parts.fragment is Some {
        assert(rest =~= rest_of(UrlPartsView { fragment: None, ..parts }) + seq!['#']
            + parts.fragment->0);
    } else if parts.query is Some {
        assert(rest =~= parts.path + seq!['?'] + parts.query->0);
    } else {
        assert(rest =~= parts.path);
    }
    assert(rest.subrange(0, parts.path.len() as int) =~= parts.path);
}

/// A host is split before the registrable domain that a known suffix gives it,
/// and nowhere else: with an unknown suffix, or none, and for addresses and the
/// local machine, it stands whole with its port.
pub proof fn hosts_are_split_before_a_known_domain(
    host: Seq<char>,
    host_with_port: Seq<char>,
    name: Seq<char>,
    sub: Seq<char>,
)
    requires
        host == sub + name,
    ensures
        !has_no_domain(host) ==> host_split(host, host_with_port, Some((name, true))) == (sub, name),
        has_no_domain(host) ==> host_split(host, host_with_port, Some((name, true))) == (
            Seq::<char>::empty(),
            host_with_port,
        ),
        host_split(host, host_with_port, Some((name, false))) == (
            Seq::<char>::empty(),
            host_with_port,
        ),
        host_split(host, host_with_port, None) == (Seq::<char>::empty(), host_with_port),
{
    assert(host.subrange(0, host.len() - name.len()) =~= sub);
}

/// Addresses, bracketed or not, and the local machine have no registrable domain.
pub proof fn addresses_and_the_local_machine_have_no_domain(host: Seq<char>, sub: Seq<char>)
    ensures
        has_no_domain("localhost"@),
        has_no_domain(sub + ".localhost"@),
        is_ip(host) && host.len() > 0 && host[0] != '[' ==> has_no_domain(host),
        is_ip(host) ==> has_no_domain(seq!['['] + host + seq![']']),
{
    let t = sub + ".localhost"@;
    let s = ".localhost"@;
    assert(s =~= t.subrange(t.len() - s.len(), t.len() as int));
    let b = seq!['['] + host + seq![']'];
    assert(b.subrange(1, b.len() - 1) =~= host);
    assert(b.last() == ']');
}

/// A port stands behind the host, with a colon, in decimal.
pub proof fn ports_stand_behind_the_host(host: Seq<char>, port: u16)
    ensures
        with_port(host, None) == host,
        with_port(host, Some(port)) == host + seq![':'] + decimal(port as nat),
{
}

/// Only `https://` and `http://` in front make a link one to be analysed.
pub proof fn only_web_links_are_analysed(raw: Seq<char>, rest: Seq<char>)
    ensures
        http_scheme("https://"@ + rest) == Some("https://"@),
        http_scheme("http://"@ + rest) == Some("http://"@),
        http_scheme(raw) is Some ==> (http_scheme(raw)->0).is_prefix_of(raw) && (http_scheme(raw)
            == Some("https://"@) || http_scheme(raw) == Some("http://"@)),
        !"https://"@.is_prefix_of(raw) && !"http://"@.is_prefix_of(raw) ==> http_scheme(raw)
            is None,
{
    reveal_strlit("https://");
    reveal_strlit("http://");
    let a = "https://"@ + rest;
    let b = "http://"@ + rest;
    assert(a.subrange(0, 8) =~= "https://"@);
    assert(b.subrange(0, 7) =~= "http://"@);
    assert(b[4] == ':');
    assert("https://"@[4] == 's');
}

/// An analysis takes a link apart: its scheme stands in front, its host is split
/// by the public suffix list, all that follows the host is its rest, its clean
/// form is what the rules make of it, and its trackers are the parameters that
/// the clean form lacks, each once and in order.
pub proof fn an_analysis_takes_a_link_apart(
    a: UrlAnalysisView,
    cleaner: Cleaner,
    raw: Seq<char>,
    i: int,
    j: int,
    name: Seq<char>,
)
    requires
        is_analysis_of(Some(a), cleaner, raw),
    ensures
        ({
            let parts = parsed_url(raw)->0;
            let host = parts.host->0;
            let clean = parsed_url(a.clean_url);
            &&& parsed_url(raw) is Some && parts.host is Some
            &&& a.scheme == "https://"@ || a.scheme == "http://"@
            &&& a.scheme.is_prefix_of(raw)
            &&& (a.subdomain, a.registrable) == host_split(
                host,
                with_port(host, parts.port),
                registrable_domain(host),
            )
            &&& a.rest == rest_of(parts)
            &&& cleaner.loaded() ==> cleaned_url(raw) == Some(a.clean_url)
            &&& !cleaner.loaded() ==> a.clean_url == raw
            &&& clean is Some ==> (a.tracker_names.contains(name) <==> parts.query_names.contains(
                name,
            ) && !(clean->0).query_names.contains(name))
            &&& clean is None ==> (a.tracker_names.contains(name) <==> parts.query_names.contains(
                name,
            ))
            &&& 0 <= i < j < a.tracker_names.len() ==> text_lt(
                a.tracker_names[i],
                a.tracker_names[j],
            )
        }),
{
    only_web_links_are_analysed(raw, raw);
    let parts = parsed_url(raw)->0;
    assert(is_removed_list(a.tracker_names, parts.query_names, names_of(parsed_url(a.clean_url))));
}

/// A link is analysed just where it is a web link that parses, has a host, and
/// can be cleaned.
pub proof fn links_that_are_not_analysed(cleaner: Cleaner, raw: Seq<char>)
    ensures
        is_analysis_of(None, cleaner, raw) <==> ((!"https://"@.is_prefix_of(raw)
            && !"http://"@.is_prefix_of(raw)) || parsed_url(raw) is None || (parsed_url(
            raw,
        )->0).host is None || (cleaner.loaded() && cleaned_url(raw) is None)),
{
    only_web_links_are_analysed(raw, raw);
}

/// A hovered link shows where it goes: the host and the path of its clean form,
/// and how many trackers it carries, if any; no more than the status line holds.
pub proof fn hovered_links_show_where_they_go(
    shown: Seq<char>,
    a: UrlAnalysisView,
    cleaner: Cleaner,
    raw: Seq<char>,
)
    requires
        is_analysis_of(Some(a), cleaner, raw),
        is_hover_display(shown, cleaner, raw),
        parsed_url(a.clean_url) is Some,
        (parsed_url(a.clean_url)->0).host is Some,
    ensures
        ({
            let parts = parsed_url(a.clean_url)->0;
            let n = a.tracker_names.len();
            let text = parts.host->0 + parts.path + if n == 0 {
                Seq::empty()
            } else if n == 1 {
                " · 1 tracker"@
            } else {
                " · "@ + decimal(n) + " trackers"@
            };
            &&& text.len() <= 120 ==> shown == text
            &&& text.len() > 120 ==> shown == text.subrange(0, 120)
        }),
{
    let names = (parsed_url(raw)->0).query_names;
    let clean_parts = parsed_url(a.clean_url);
    let kept = names_of(clean_parts);
    let t = choose|t: Seq<Seq<char>>| #[trigger]
        is_removed_list(t, names, kept) && shown == cut_hover(
            link_preview(a.clean_url, clean_parts) + tracker_note(t.len()),
        );
    assert(is_removed_list(a.tracker_names, names, kept));
    assert forall|x: Seq<char>| t.contains(x) <==> a.tracker_names.contains(x) by {
        assert(t.contains(x) <==> names.contains(x) && !kept.contains(x));
        assert(a.tracker_names.contains(x) <==> names.contains(x) && !kept.contains(x));
    }
    ascending_lists_are_unique(t, a.tracker_names);
    lemma_notes(a.tracker_names.len());
}

proof fn lemma_notes(n: nat)
    ensures
        tracker_note(0) == Seq::<char>::empty(),
        tracker_note(1) == " · 1 tracker"@,
        n > 1 ==> tracker_note(n) == " · "@ + decimal(n) + " trackers"@,
{
    reveal_strlit(" · 1 tracker");
    reveal_strlit(" · ");
    reveal_strlit(" tracker");
    reveal_strlit(" trackers");
    reveal_strlit("s");
    assert(decimal(1) =~= seq!['1']);
    assert(tracker_note(1) =~= " · 1 tracker"@);
    if n > 1 {
        assert(" tracker"@ + "s"@ =~= " trackers"@);
        assert(tracker_note(n) =~= " · "@ + decimal(n) + " trackers"@);
    }
}

/// A link that is not analysed is shown as it is, no longer than the status line
/// holds.
pub proof fn other_links_are_shown_as_they_are(
    shown: Seq<char>,
    cleaner: Cleaner,
    raw: Seq<char>,
)
    requires
        is_analysis_of(None, cleaner, raw),
        is_hover_display(shown, cleaner, raw),
    ensures
        raw.len() <= 120 ==> shown == raw,
        raw.len() > 120 ==> shown == raw.subrange(0, 120),
{
}

} // verus!
