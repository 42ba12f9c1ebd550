//! What typed text means: which part of it is the scheme, the host and the
//! port, what makes it a search, and that nothing of it is lost.

use crate::address_laws::dotted_numbers_are_addresses;
use crate::escape::percent_encoded;
use crate::ip::{is_ip, is_loopback_ip};
use crate::omnibox::{
    authority_end, host_end, is_port_suffix, localhost_name, loopback_host, navigable_host,
    omnibox_host, omnibox_mode, resolved, schemed, search_by_punctuation, search_url, unbracketed,
};
use crate::setting_laws::decimals_are_digits;
use crate::text::{
    ascii_lower, ascii_lowered, contains_text, decimal, index_of, lemma_index_of,
    lemma_index_of_unique, replaced, trim_end, trim_start, trimmed, white_space,
};
use vstd::prelude::*;

verus! {

/// Whatever is typed is gone to or searched for as a whole, white space at the
/// ends aside: no outcome drops a part of it.
pub proof fn nothing_typed_is_lost(text: Seq<char>, template: Seq<char>, known: Option<bool>)
    ensures
        ({
            let t = trimmed(text);
            let url = resolved(text, template, known);
            &&& t.len() == 0 ==> url.len() == 0
            &&& t.len() > 0 ==> url == t || url == "http://"@ + t || url == "https://"@ + t || url
                == search_url(t, template)
        }),
{
}

/// Text that carries no scheme and names no navigable host is searched for, the
/// whole of it.
pub proof fn other_input_is_searched_for(text: Seq<char>, template: Seq<char>, known: Option<bool>)
    requires
        trimmed(text).len() > 0,
        !schemed(trimmed(text)),
        !navigable_host(omnibox_host(text), known),
    ensures
        resolved(text, template, known) == search_url(trimmed(text), template),
{
}

/// Text that its punctuation makes a search is searched for, the whole of it,
/// whatever host it may name.
pub proof fn punctuated_input_is_searched_for(
    text: Seq<char>,
    template: Seq<char>,
    known: Option<bool>,
)
    requires
        trimmed(text).len() > 0,
        !schemed(trimmed(text)),
        search_by_punctuation(trimmed(text)),
    ensures
        resolved(text, template, known) == search_url(trimmed(text), template),
{
}

/// A navigable host is gone to with all that follows it: over `http` where it is
/// the local machine, and else over `https`.
pub proof fn hosts_are_gone_to(text: Seq<char>, template: Seq<char>, known: Option<bool>)
    requires
        trimmed(text).len() > 0,
        !schemed(trimmed(text)),
        !search_by_punctuation(trimmed(text)),
        navigable_host(omnibox_host(text), known),
    ensures
        loopback_host(omnibox_host(text)) ==> resolved(text, template, known) == "http://"@
            + trimmed(text),
        !loopback_host(omnibox_host(text)) ==> resolved(text, template, known) == "https://"@
            + trimmed(text),
{
}

/// White space around the text makes no difference.
pub proof fn surrounding_space_is_ignored(l: Seq<char>, t: Seq<char>, r: Seq<char>)
    requires
        forall|k: int| 0 <= k < l.len() ==> white_space(#[trigger] l[k]),
        forall|k: int| 0 <= k < r.len() ==> white_space(#[trigger] r[k]),
        t.len() > 0 ==> !white_space(t[0]) && !white_space(t.last()),
    ensures
        trimmed(l + t + r) == t,
{
    lemma_trim_start_skips(l, t + r);
    assert(l + t + r =~= l + (t + r));
    if t.len() == 0 {
        assert(t + r =~= r + Seq::<char>::empty());
        lemma_trim_start_skips(r, Seq::<char>::empty());
        assert(trimmed(l + t + r) =~= t);
    } else {
        assert((t + r)[0] == t[0]);
        assert(trim_start(t + r) == t + r);
        lemma_trim_end_skips(t, r);
        assert(trim_end(t) == t);
    }
}

proof fn lemma_trim_start_skips(l: Seq<char>, t: Seq<char>)
    requires
        forall|k: int| 0 <= k < l.len() ==> white_space(#[trigger] l[k]),
    ensures
        trim_start(l + t) == trim_start(t),
    decreases l.len(),
{
    if l.len() == 0 {
        assert(l + t =~= t);
    } else {
        assert((l + t)[0] == l[0]);
        assert((l + t).drop_first() =~= l.drop_first() + t);
        lemma_trim_start_skips(l.drop_first(), t);
    }
}

proof fn lemma_trim_end_skips(t: Seq<char>, r: Seq<char>)
    requires
        forall|k: int| 0 <= k < r.len() ==> white_space(#[trigger] r[k]),
    ensures
        trim_end(t + r) == trim_end(t),
    decreases r.len(),
{
    if r.len() == 0 {
        assert(t + r =~= t);
    } else {
        assert((t + r).last() == r.last());
        assert((t + r).drop_last() =~= t + r.drop_last());
        lemma_trim_end_skips(t, r.drop_last());
    }
}

/// A name of letters, digits, `+`, `-` and `.`, which begins with a letter, is a
/// scheme where `://` follows it; `data`, `mote` and `about` are one where a colon
/// does, in any case of their letters.
pub proof fn schemes_end_at_their_colon(name: Seq<char>, rest: Seq<char>)
    requires
        name.len() > 0,
        'a' <= name[0] <= 'z' || 'A' <= name[0] <= 'Z',
        forall|k: int|
            0 <= k < name.len() ==> {
                let c = #[trigger] name[k];
                'a' <= c <= 'z' || 'A' <= c <= 'Z' || '0' <= c <= '9' || c == '+' || c == '-' || c
                    == '.'
            },
    ensures
        schemed(name + seq![':', '/', '/'] + rest),
        ascii_lowered(name) == "data"@ || ascii_lowered(name) == "mote"@ || ascii_lowered(name)
            == "about"@ ==> schemed(name + seq![':'] + rest),
{
    let t = name + seq![':', '/', '/'] + rest;
    let n = name.len() as int;
    assert forall|k: int| 0 <= k < n implies t[k] != ':' by {
        assert(t[k] == name[k]);
    }
    lemma_index_of_unique(t, ':', n);
    assert forall|k: int| 0 <= k < n implies crate::omnibox::scheme_char(#[trigger] t[k]) by {
        assert(t[k] == name[k]);
    }
    assert(t[n] == ':' && t[n + 1] == '/' && t[n + 2] == '/');
    let u = name + seq![':'] + rest;
    assert forall|k: int| 0 <= k < n implies u[k] != ':' by {
        assert(u[k] == name[k]);
    }
    lemma_index_of_unique(u, ':', n);
    assert(u.subrange(0, n) =~= name);
}

/// Nothing else is a scheme: text without a colon carries none, nor does text
/// that does not begin with a letter, nor a name that only a colon follows, be
/// it a host before its port.
pub proof fn other_names_are_no_scheme(name: Seq<char>, rest: Seq<char>)
    requires
        !name.contains(':'),
    ensures
        !schemed(name),
        name.len() > 0 && !('a' <= name[0] <= 'z') && !('A' <= name[0] <= 'Z') ==> !schemed(
            name + seq![':'] + rest,
        ),
        !(rest.len() >= 2 && rest[0] == '/' && rest[1] == '/') && ascii_lowered(name) != "data"@
            && ascii_lowered(name) != "mote"@ && ascii_lowered(name) != "about"@ ==> !schemed(
            name + seq![':'] + rest,
        ),
{
    lemma_index_of(name, ':');
    if index_of(name, ':') < name.len() {
        assert(name.contains(name[index_of(name, ':')]));
    }
    let t = name + seq![':'] + rest;
    let n = name.len() as int;
    assert forall|k: int| 0 <= k < n implies t[k] != ':' by {
        assert(t[k] == name[k]);
        assert(name.contains(name[k]));
    }
    lemma_index_of_unique(t, ':', n);
    assert(t.subrange(0, n) =~= name);
    if rest.len() >= 2 {
        assert(t[n + 1] == rest[0] && t[n + 2] == rest[1]);
    }
}

/// A question mark in front makes a search, and so do white space and a quote
/// before the first `.`, `:` and `?`.
pub proof fn punctuation_makes_a_search(
    front: Seq<char>,
    c: char,
    mid: Seq<char>,
    d: char,
    rest: Seq<char>,
)
    requires
        forall|k: int|
            0 <= k < front.len() ==> (#[trigger] front[k]) != '.' && front[k] != ':' && front[k]
                != '?',
    ensures
        search_by_punctuation(seq!['?'] + rest),
        c == ' ' || c == '\t' || c == '\n' || c == '\r' || c == '\u{c}' ==> search_by_punctuation(
            front + seq![c] + rest,
        ),
        (c == '"' || c == '\'') && (d == '.' || d == ':' || d == '?') ==> search_by_punctuation(
            front + seq![c] + mid + seq![d] + rest,
        ),
{
    let n = front.len() as int;
    let t = front + seq![c] + rest;
    assert(t[n] == c);
    assert forall|k: int| 0 <= k < n implies !crate::omnibox::delimiter(#[trigger] t[k]) by {
        assert(t[k] == front[k]);
    }
    if c == ' ' || c == '\t' || c == '\n' || c == '\r' || c == '\u{c}' {
        assert(crate::omnibox::ascii_space(t[n]));
    }
    let u = front + seq![c] + mid + seq![d] + rest;
    let e = n + 1 + mid.len();
    assert(u[n] == c && u[e] == d);
    assert forall|k: int| 0 <= k < n implies !crate::omnibox::delimiter(#[trigger] u[k]) by {
        assert(u[k] == front[k]);
    }
    if (c == '"' || c == '\'') && (d == '.' || d == ':' || d == '?') {
        assert(crate::omnibox::quote(u[n]) && crate::omnibox::delimiter(u[e]));
    }
}

/// Text with neither a question mark in front nor white space nor a quote is no
/// search by its punctuation, and what stands behind the first `.`, `:` or `?`
/// does not make it one.
pub proof fn plain_text_is_no_search_by_punctuation(front: Seq<char>, d: char, rest: Seq<char>)
    requires
        front.len() > 0,
        forall|k: int|
            0 <= k < front.len() ==> {
                let c = #[trigger] front[k];
                c != '?' && c != ' ' && c != '\t' && c != '\n' && c != '\r' && c != '\u{c}' && c
                    != '"' && c != '\''
            },
    ensures
        !search_by_punctuation(front),
        d == '.' || d == ':' || d == '?' ==> !search_by_punctuation(front + seq![d] + rest),
{
    let n = front.len() as int;
    let t = front + seq![d] + rest;
    assert(t[n] == d);
    assert(t[0] == front[0]);
    if d == '.' || d == ':' || d == '?' {
        assert(crate::omnibox::delimiter(t[n]));
        if search_by_punctuation(t) {
            if exists|i: int|
                0 <= i < t.len() && crate::omnibox::ascii_space(#[trigger] t[i]) && forall|k: int|
                    0 <= k < i ==> !crate::omnibox::delimiter(#[trigger] t[k]) {
                let i = choose|i: int|
                    0 <= i < t.len() && crate::omnibox::ascii_space(#[trigger] t[i]) && forall|
                        k: int,
                    |
                        0 <= k < i ==> !crate::omnibox::delimiter(#[trigger] t[k]);
                if i < n {
                    assert(t[i] == front[i]);
                }
            } else {
                let (q, e) = choose|q: int, e: int|
                    0 <= q < e < t.len() && crate::omnibox::quote(#[trigger] t[q])
                        && crate::omnibox::delimiter(#[trigger] t[e]) && forall|k: int|
                        0 <= k < q ==> !crate::omnibox::delimiter(#[trigger] t[k]);
                if q < n {
                    assert(t[q] == front[q]);
                }
            }
        }
    }
}

/// A port is split from the host that it stands behind, and a bracketed address
/// stays whole before it.
pub proof fn ports_are_split_from_hosts(host: Seq<char>, digits: Seq<char>)
    requires
        digits.len() > 0,
        forall|k: int| 0 <= k < digits.len() ==> '0' <= #[trigger] digits[k] <= '9',
    ensures
        !host.contains(':') && (host.len() == 0 || host[0] != '[') ==> host_end(
            host + seq![':'] + digits,
        ) == host.len(),
        !host.contains(']') ==> host_end(seq!['['] + host + seq![']', ':'] + digits) == host.len()
            + 2,
        !host.contains(']') ==> host_end(seq!['['] + host + seq![']']) == host.len() + 2,
{
    let n = host.len() as int;
    if !host.contains(':') && (host.len() == 0 || host[0] != '[') {
        let t = host + seq![':'] + digits;
        assert forall|k: int| 0 <= k < n implies t[k] != ':' by {
            assert(t[k] == host[k]);
            assert(host.contains(host[k]));
        }
        lemma_index_of_unique(t, ':', n);
        let s = t.subrange(n, t.len() as int);
        assert forall|k: int| 1 <= k < s.len() implies crate::omnibox::ascii_digit(#[trigger] s[k]) by {
            assert(s[k] == digits[k - 1]);
        }
        assert(is_port_suffix(s));
        assert(t[0] != '[') by {
            if n > 0 {
                assert(t[0] == host[0]);
            }
        }
    }
    if !host.contains(']') {
        let t = seq!['['] + host + seq![']', ':'] + digits;
        assert forall|k: int| 0 <= k < n + 1 implies t[k] != ']' by {
            if k > 0 {
                assert(t[k] == host[k - 1]);
                assert(host.contains(host[k - 1]));
            }
        }
        assert(t[n + 1] == ']');
        lemma_index_of_unique(t, ']', n + 1);
        let s = t.subrange(n + 2, t.len() as int);
        assert forall|k: int| 1 <= k < s.len() implies crate::omnibox::ascii_digit(#[trigger] s[k]) by {
            assert(s[k] == digits[k - 1]);
        }
        assert(is_port_suffix(s));
        let u = seq!['['] + host + seq![']'];
        assert(u.len() == n + 2);
        assert forall|k: int| 0 <= k < n + 1 implies u[k] != ']' by {
            if k > 0 {
                assert(u[k] == host[k - 1]);
                assert(host.contains(host[k - 1]));
            }
        }
        assert(u[n + 1] == ']');
        lemma_index_of_unique(u, ']', n + 1);
    }
}

/// A host without a colon is all host, and so is a bare IPv6 address: of two
/// colons neither begins a port.
pub proof fn hosts_without_a_port_stay_whole(a: Seq<char>, b: Seq<char>, c: Seq<char>)
    requires
        a.len() == 0 || a[0] != '[',
    ensures
        !a.contains(':') ==> host_end(a) == a.len(),
        !a.contains(':') ==> host_end(a + seq![':'] + b + seq![':'] + c) == a.len() + b.len()
            + c.len() + 2,
{
    lemma_index_of(a, ':');
    if index_of(a, ':') < a.len() {
        assert(a.contains(a[index_of(a, ':')]));
    }
    if !a.contains(':') {
        let t = a + seq![':'] + b + seq![':'] + c;
        let n = a.len() as int;
        assert forall|k: int| 0 <= k < n implies t[k] != ':' by {
            assert(t[k] == a[k]);
            assert(a.contains(a[k]));
        }
        lemma_index_of_unique(t, ':', n);
        let s = t.subrange(n, t.len() as int);
        assert(s[b.len() as int + 1] == ':');
        assert(!crate::omnibox::ascii_digit(s[b.len() as int + 1]));
        assert(t[0] != '[') by {
            if n > 0 {
                assert(t[0] == a[0]);
            }
        }
    }
}

/// What follows the host does not matter for what the host is: the path, the
/// query and the fragment are not looked at.
pub proof fn what_follows_the_host_does_not_matter(a: Seq<char>, d: char, rest: Seq<char>)
    requires
        d == '/' || d == '?' || d == '#',
        forall|k: int|
            0 <= k < a.len() ==> (#[trigger] a[k]) != '/' && a[k] != '?' && a[k] != '#',
        trimmed(a) == a,
        trimmed(a + seq![d] + rest) == a + seq![d] + rest,
    ensures
        omnibox_host(a + seq![d] + rest) == omnibox_host(a),
        omnibox_host(a) == a.subrange(0, host_end(a)),
{
    lemma_authority_ends(a, seq![d] + rest);
    assert(a + (seq![d] + rest) =~= a + seq![d] + rest);
    lemma_authority_ends(a, Seq::empty());
    assert(a + Seq::<char>::empty() =~= a);
    assert((a + seq![d] + rest).subrange(0, a.len() as int) =~= a);
    assert(a.subrange(0, a.len() as int) =~= a);
}

proof fn lemma_authority_ends(a: Seq<char>, rest: Seq<char>)
    requires
        forall|k: int|
            0 <= k < a.len() ==> (#[trigger] a[k]) != '/' && a[k] != '?' && a[k] != '#',
        rest.len() == 0 || rest[0] == '/' || rest[0] == '?' || rest[0] == '#',
    ensures
        authority_end(a + rest) == a.len(),
    decreases a.len(),
{
    let t = a + rest;
    if a.len() == 0 {
        assert(t =~= rest);
    } else {
        assert(t[0] == a[0]);
        assert(t.drop_first() =~= a.drop_first() + rest);
        lemma_authority_ends(a.drop_first(), rest);
    }
}

/// The local machine by name, in any case, and every address can be gone to
/// whatever the public suffix list says; a dotted name can where its suffix is
/// known, and no other name can.
pub proof fn hosts_that_can_be_gone_to(host: Seq<char>, sub: Seq<char>, known: Option<bool>)
    ensures
        ascii_lowered(host) == "localhost"@ ==> navigable_host(host, known) && loopback_host(host),
        ascii_lowered(host) == sub + ".localhost"@ ==> navigable_host(host, known)
            && loopback_host(host),
        is_ip(host) && !(host[0] == '[') ==> navigable_host(host, known),
        is_ip(host) ==> navigable_host(seq!['['] + host + seq![']'], known),
        host.contains('.') ==> navigable_host(host, Some(true)),
        loopback_host(host) ==> navigable_host(host, known),
        navigable_host(host, known) && known != Some(true) ==> localhost_name(host) || is_ip(
            unbracketed(host),
        ),
        navigable_host(host, known) && !host.contains('.') ==> localhost_name(host) || is_ip(
            unbracketed(host),
        ),
{
    crate::ip::loopback_literals_are_ip(unbracketed(host));
    if ascii_lowered(host) == sub + ".localhost"@ {
        let t = ascii_lowered(host);
        let s = ".localhost"@;
        assert(s =~= t.subrange(t.len() - s.len(), t.len() as int));
        assert(s.is_suffix_of(t));
    }
    let b = seq!['['] + host + seq![']'];
    assert(b.subrange(1, b.len() - 1) =~= host);
    assert(b.last() == ']');
}

/// Each placeholder of a template is replaced, from the left: what stands before
/// the first stays, and what stands behind it is treated alike.
pub proof fn every_placeholder_is_replaced(query: Seq<char>, before: Seq<char>, after: Seq<char>)
    requires
        forall|k: int| 0 <= k < before.len() ==> before[k] != '{',
    ensures
        search_url(query, before + "{q}"@ + after) == before + percent_encoded(query) + replaced(
            after,
            "{q}"@,
            percent_encoded(query),
        ),
        replaced(before, "{q}"@, percent_encoded(query)) == before,
{
    let t = before + "{q}"@ + after;
    assert(t.subrange(before.len() as int, before.len() as int + "{q}"@.len()) =~= "{q}"@);
    assert(contains_text(t, "{q}"@));
    lemma_first_is_replaced(before, after, percent_encoded(query));
    lemma_nothing_to_replace(before, percent_encoded(query));
}

proof fn lemma_first_is_replaced(before: Seq<char>, after: Seq<char>, with: Seq<char>)
    requires
        forall|k: int| 0 <= k < before.len() ==> before[k] != '{',
    ensures
        replaced(before + "{q}"@ + after, "{q}"@, with) == before + with + replaced(
            after,
            "{q}"@,
            with,
        ),
    decreases before.len(),
{
    let q = "{q}"@;
    reveal_strlit("{q}");
    let t = before + q + after;
    if before.len() == 0 {
        assert(t.subrange(0, q.len() as int) =~= q);
        assert(t.subrange(q.len() as int, t.len() as int) =~= after);
        assert(with + replaced(after, q, with) =~= before + with + replaced(after, q, with));
    } else {
        assert(t.subrange(0, q.len() as int)[0] == before[0]);
        assert(t.drop_first() =~= before.drop_first() + q + after);
        lemma_first_is_replaced(before.drop_first(), after, with);
        assert(seq![t[0]] + (before.drop_first() + with + replaced(after, q, with)) =~= before
            + with + replaced(after, q, with));
    }
}

proof fn lemma_nothing_to_replace(s: Seq<char>, with: Seq<char>)
    requires
        forall|k: int| 0 <= k < s.len() ==> s[k] != '{',
    ensures
        replaced(s, "{q}"@, with) == s,
    decreases s.len(),
{
    let q = "{q}"@;
    reveal_strlit("{q}");
    if s.len() >= q.len() {
        assert(s.subrange(0, q.len() as int)[0] == s[0]);
        lemma_nothing_to_replace(s.drop_first(), with);
        assert(seq![s[0]] + s.drop_first() =~= s);
    }
}

/// The first character alone chooses the mode of the omnibox.
pub proof fn the_first_character_chooses_the_mode(c: char, rest: Seq<char>)
    ensures
        omnibox_mode(seq!['>'] + rest) == "cmd"@,
        omnibox_mode(seq!['/'] + rest) == "find"@,
        c != '>' && c != '/' ==> omnibox_mode(seq![c] + rest) == "url"@,
        omnibox_mode(Seq::empty()) == "url"@,
{
    assert((seq!['>'] + rest)[0] == '>');
    assert((seq!['/'] + rest)[0] == '/');
    assert((seq![c] + rest)[0] == c);
}

/// The local machine is named by `localhost`, by a name under it or by a loopback
/// address, and by nothing else: a name without a dot only by `localhost` itself,
/// and an address only where it is a loopback one.
pub proof fn only_the_local_machine_is_local(host: Seq<char>)
    ensures
        localhost_name(host) && !host.contains('.') ==> ascii_lowered(host) == "localhost"@,
        host.len() > 0 && ascii_lower(host.last()) != 't' ==> !localhost_name(host),
        loopback_host(host) && !localhost_name(host) ==> is_loopback_ip(unbracketed(host)),
        is_loopback_ip(unbracketed(host)) ==> loopback_host(host),
{
    let low = ascii_lowered(host);
    let s = ".localhost"@;
    reveal_strlit(".localhost");
    reveal_strlit("localhost");
    assert(s.len() == 10 && s[0] == '.' && s[9] == 't');
    assert("localhost"@.len() == 9 && "localhost"@[8] == 't');
    if s.is_suffix_of(low) {
        let n = low.len() as int;
        assert(low.subrange(n - 10, n)[0] == low[n - 10]);
        assert(low.subrange(n - 10, n)[9] == low[n - 1]);
        assert(ascii_lower(host[n - 10]) == '.');
        assert(host[n - 10] == '.');
        assert(host.contains(host[n - 10]));
    }
    if low == "localhost"@ {
        assert(low[8] == ascii_lower(host[8]));
    }
}

/// An address of four numbers is gone to without encryption where the first is 127,
/// and with it elsewhere.
pub proof fn only_local_addresses_go_unencrypted(a: u8, b: u8, c: u8, d: u8)
    ensures
        ({
            let host = decimal(a as nat) + seq!['.'] + (decimal(b as nat) + seq!['.'] + (decimal(
                c as nat,
            ) + seq!['.'] + decimal(d as nat)));
            loopback_host(host) <==> a == 127
        }),
{
    let host = decimal(a as nat) + seq!['.'] + (decimal(b as nat) + seq!['.'] + (decimal(c as nat)
        + seq!['.'] + decimal(d as nat)));
    dotted_numbers_are_addresses(a, b, c, d);
    decimals_are_digits(a as nat, 0);
    decimals_are_digits(d as nat, decimal(d as nat).len() - 1);
    assert(host.last() == decimal(d as nat).last());
    assert(host[0] == decimal(a as nat)[0]);
    only_the_local_machine_is_local(host);
    assert(unbracketed(host) == host);
}

/// A quote alone makes no search: without white space and without a delimiter
/// behind the quote the punctuation says nothing.
pub proof fn quotes_alone_make_no_search(t: Seq<char>)
    requires
        forall|k: int|
            0 <= k < t.len() ==> {
                let c = #[trigger] t[k];
                c != '.' && c != ':' && c != '?' && c != ' ' && c != '\t' && c != '\n' && c != '\r'
                    && c != '\u{c}'
            },
    ensures
        !search_by_punctuation(t),
{
}

/// A colon with nothing behind it begins no port, and neither does one with
/// anything but digits behind it: both belong to the host.
pub proof fn what_is_no_port_belongs_to_the_host(a: Seq<char>, b: Seq<char>, k: int)
    requires
        a.len() == 0 || a[0] != '[',
        !a.contains(':'),
    ensures
        host_end(a + seq![':']) == a.len() + 1,
        0 <= k < b.len() && !('0' <= b[k] <= '9') ==> host_end(a + seq![':'] + b) == a.len() + 1
            + b.len(),
{
    let n = a.len() as int;
    let t = a + seq![':'];
    assert forall|j: int| 0 <= j < n implies t[j] != ':' by {
        assert(t[j] == a[j]);
        assert(a.contains(a[j]));
    }
    lemma_index_of_unique(t, ':', n);
    assert(t.subrange(n, n + 1).len() == 1);
    assert(n > 0 ==> t[0] == a[0]);
    let u = t + b;
    assert forall|j: int| 0 <= j < n implies u[j] != ':' by {
        assert(u[j] == t[j]);
    }
    lemma_index_of_unique(u, ':', n);
    assert(n > 0 ==> u[0] == a[0]);
    let s = u.subrange(n, u.len() as int);
    if 0 <= k < b.len() && !('0' <= b[k] <= '9') {
        assert(s[k + 1] == b[k]);
        assert(!crate::omnibox::ascii_digit(s[k + 1]));
        assert(!is_port_suffix(s));
    }
}

} // verus!
