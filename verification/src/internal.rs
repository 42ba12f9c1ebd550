//! The browser's own `mote:` URLs: which pages they are, and where they may be
//! opened.

use crate::text::{
    ascii_lowered, chars_of, copy_range, find_from, index_of, lemma_index_of_unique, starts_with,
    string_of, text_eq, to_ascii_lower,
};
use vstd::prelude::*;

verus! {

/// The URL that a new tab loads.
pub open spec fn start_url() -> Seq<char> {
    "mote://chrome/newtab.html"@
}

/// The URL that a new tab loads.
pub fn default_start_url() -> (r: &'static str)
    ensures
        r@ == start_url(),
{
    "mote://chrome/newtab.html"
}

/// Whether the scheme of `url` is `mote`, in any case.
pub open spec fn mote_scheme(url: Seq<char>) -> bool {
    let colon = index_of(url, ':');
    colon < url.len() && ascii_lowered(url.subrange(0, colon)) == "mote"@
}

/// Whether a popup may open `url` in a tab: any URL but a `mote:` one, whose
/// load a content page would refuse.
pub fn is_popup_url_allowed(url: &str) -> (r: bool)
    ensures
        r == !mote_scheme(url@),
{
    let v = chars_of(url);
    assert(v@.subrange(0, v@.len() as int) =~= v@);
    let colon = find_from(v.as_slice(), 0, ':');
    if colon == v.len() {
        return true;
    }
    let front = copy_range(v.as_slice(), 0, colon);
    let lower = to_ascii_lower(front.as_slice());
    let name = string_of(lower.as_slice(), 0, lower.len());
    assert(name@ =~= lower@);
    !text_eq(name.as_str(), "mote")
}

/// Whether `url` begins with `mote://`, in any case.
pub open spec fn internal_page(url: Seq<char>) -> bool {
    "mote://"@.is_prefix_of(ascii_lowered(url))
}

/// Whether a page for `url` is made in the global request context, which alone
/// serves `mote://`. Every other page is made in the identity's own context.
pub fn uses_global_context(url: &str) -> (r: bool)
    ensures
        r == internal_page(url@),
{
    let v = chars_of(url);
    let lower = to_ascii_lower(v.as_slice());
    let prefix = chars_of("mote://");
    starts_with(lower.as_slice(), prefix.as_slice())
}

/// The start page is an internal page.
pub proof fn start_page_is_internal()
    ensures
        internal_page(start_url()),
{
    reveal_strlit("mote://chrome/newtab.html");
    reveal_strlit("mote://");
    let t = ascii_lowered(start_url());
    assert("mote://"@ =~= t.subrange(0, 7));
}

/// No popup reaches a page that the global request context serves.
pub proof fn popups_never_reach_internal_pages(url: Seq<char>)
    ensures
        internal_page(url) ==> mote_scheme(url),
{
    if internal_page(url) {
        reveal_strlit("mote://");
        reveal_strlit("mote");
        let lower = ascii_lowered(url);
        let p = "mote://"@;
        assert(p.len() == 7);
        assert(p =~= lower.subrange(0, 7));
        assert forall|k: int| 0 <= k < 7 implies #[trigger] lower[k] == p[k] by {
            assert(lower.subrange(0, 7)[k] == lower[k]);
        }
        assert(p[4] == ':');
        assert(lower[4] == ':');
        lemma_lower_colon(url[4]);
        assert forall|k: int| 0 <= k < 4 implies url[k] != ':' by {
            lemma_lower_colon(url[k]);
            assert(lower[k] == p[k]);
        }
        lemma_index_of_unique(url, ':', 4);
        let name = ascii_lowered(url.subrange(0, 4));
        assert forall|k: int| 0 <= k < 4 implies #[trigger] name[k] == "mote"@[k] by {
            assert(name[k] == lower[k]);
        }
        assert(name =~= "mote"@);
    }
}

/// Lower case neither makes nor loses a colon.
proof fn lemma_lower_colon(c: char)
    ensures
        crate::text::ascii_lower(c) == ':' <==> c == ':',
{
}

/// A section of the settings page.
pub open spec fn settings_section(section: Seq<char>) -> bool {
    section == "general"@ || section == "plugins"@ || section == "integrity"@ || section
        == "keybinds"@
}

/// Whether `url` is the address of a settings section, with or without
/// `.html`.
pub open spec fn section_url(url: Seq<char>, section: Seq<char>) -> bool {
    url == "mote://chrome/settings/"@ + section || url == "mote://chrome/settings/"@ + section
        + ".html"@
}

fn is_section_url(url: &str, section: &str) -> (r: bool)
    ensures
        r == section_url(url@, section@),
{
    let mut plain = "mote://chrome/settings/".to_owned();
    plain.push_str(section);
    if text_eq(url, plain.as_str()) {
        return true;
    }
    plain.push_str(".html");
    text_eq(url, plain.as_str())
}

/// The settings section that `url` addresses: one of four, with or without
/// `.html`. Any other URL addresses none.
pub fn settings_section_from_url(url: &str) -> (r: Option<&'static str>)
    ensures
        match r {
            Some(s) => settings_section(s@) && section_url(url@, s@),
            None => forall|s: Seq<char>| settings_section(s) ==> !#[trigger] section_url(url@, s),
        },
{
    if is_section_url(url, "general") {
        Some("general")
    } else if is_section_url(url, "plugins") {
        Some("plugins")
    } else if is_section_url(url, "integrity") {
        Some("integrity")
    } else if is_section_url(url, "keybinds") {
        Some("keybinds")
    } else {
        None
    }
}

} // verus!
