//! Where things are kept, served and drawn: paths, addresses, times and sizes.

use crate::closed_tabs::{pushed, ClosedTabView};
use crate::config::{
    path_join, seconds, spelled_u64, state_path, DISCARD_AFTER, HIDDEN_TTL, HOUSEKEEPING_INTERVAL,
};
use crate::documents::{asset_name, chrome_table, component_document, overlay_table};
use crate::internal::{internal_page, mote_scheme, section_url, settings_section};
use crate::ip::number;
use crate::layout::{in_page, remaining, signed};
use crate::omnibox_laws::surrounding_space_is_ignored;
use crate::text::{ascii_lower, ascii_lowered, decimal, lemma_index_of_unique, white_space};
use vstd::prelude::*;

verus! {

/// A part stands below its directory behind one slash, whether or not the
/// directory was written with one.
pub proof fn parts_stand_behind_one_slash(base: Seq<char>, part: Seq<char>)
    requires
        base.len() == 0 || base.last() != '/',
    ensures
        path_join(base, part) == base + seq!['/'] + part,
        path_join(base.push('/'), part) == path_join(base, part),
{
    assert(base.push('/') + part =~= base + seq!['/'] + part);
}

/// State is kept where the XDG variable says; without it below the home directory,
/// and without either below the current one. An empty variable is none.
pub proof fn state_is_kept_where_the_environment_says(xdg: Seq<char>, home: Option<Seq<char>>)
    ensures
        xdg.len() > 0 ==> state_path(Some(xdg), home) == path_join(xdg, "mote"@),
        state_path(Some(Seq::empty()), home) == state_path(None, home),
        home is Some && (home->0).len() > 0 ==> state_path(None, home) == path_join(
            home->0,
            ".local/state/mote"@,
        ),
        home is None || (home->0).len() == 0 ==> state_path(None, home) == ".mote-state"@,
{
}

/// Housekeeping runs every minute, a tab idles for half an hour and a hidden tab
/// lives for thirty days, unless something else is said.
pub proof fn times_have_their_defaults()
    ensures
        HOUSEKEEPING_INTERVAL == 60,
        DISCARD_AFTER == 30 * 60,
        HIDDEN_TTL == 30 * 24 * 60 * 60,
{
}

/// A time is read as the number that it spells, white space around it aside.
pub proof fn times_are_read_as_numbers(l: Seq<char>, n: u64, r: Seq<char>)
    requires
        forall|k: int| 0 <= k < l.len() ==> white_space(#[trigger] l[k]),
        forall|k: int| 0 <= k < r.len() ==> white_space(#[trigger] r[k]),
    ensures
        seconds(Some(l + decimal(n as nat) + r)) == Some(n),
        seconds(Some(l + r)) is None,
        seconds(None) is None,
{
    crate::config::decimal_seconds_read_back(n);
    lemma_digits(n as nat);
    let t = decimal(n as nat);
    assert(t[0] == t[0] && t.last() == t[t.len() - 1]);
    surrounding_space_is_ignored(l, t, r);
    surrounding_space_is_ignored(l, Seq::empty(), r);
    assert(l + Seq::<char>::empty() + r =~= l + r);
}

/// A number in decimal notation is made of digits, without a leading zero unless
/// it is zero.
pub proof fn decimals_are_digits(n: nat, k: int)
    ensures
        decimal(n).len() > 0,
        0 <= k < decimal(n).len() ==> '0' <= decimal(n)[k] <= '9',
        n > 0 ==> decimal(n)[0] != '0',
        n < 10 <==> decimal(n).len() == 1,
        n < 100 <==> decimal(n).len() <= 2,
        n < 1000 <==> decimal(n).len() <= 3,
{
    lemma_digits(n);
    lemma_decimal_lengths(n);
}

proof fn lemma_digits(n: nat)
    ensures
        decimal(n).len() > 0,
        forall|k: int| 0 <= k < decimal(n).len() ==> '0' <= #[trigger] decimal(n)[k] <= '9',
        n > 0 ==> decimal(n)[0] != '0',
    decreases n,
{
    if n >= 10 {
        lemma_digits(n / 10);
        let t = decimal(n);
        let head = decimal(n / 10);
        assert(t[0] == head[0]);
        assert forall|k: int| 0 <= k < t.len() implies '0' <= #[trigger] t[k] <= '9' by {
            if k < head.len() {
                assert(t[k] == head[k]);
            }
        }
    }
}

proof fn lemma_decimal_lengths(n: nat)
    ensures
        n < 10 <==> decimal(n).len() == 1,
        n < 100 <==> decimal(n).len() <= 2,
        n < 1000 <==> decimal(n).len() <= 3,
{
    lemma_digits(n);
    lemma_digits(n / 10);
    lemma_digits(n / 10 / 10);
    lemma_digits(n / 10 / 10 / 10);
    reveal_with_fuel(decimal, 4);
}

/// What is no number, or one of more than sixty-four bits, is no time.
pub proof fn other_texts_are_no_times(a: Seq<char>, c: char, b: Seq<char>, t: Seq<char>, n: nat)
    ensures
        !('0' <= c <= '9') && a.len() > 0 ==> spelled_u64(a + seq![c] + b) is None,
        t.len() > 0 && t[0] != '+' && number(t, 10) == Some(n) && n > 0xffff_ffff_ffff_ffff
            ==> spelled_u64(t) is None,
{
    if !('0' <= c <= '9') && a.len() > 0 {
        let s = a + seq![c] + b;
        if s[0] == '+' {
            lemma_no_digit(a.drop_first(), c, b);
            assert(s.drop_first() =~= a.drop_first() + seq![c] + b);
        } else {
            lemma_no_digit(a, c, b);
        }
    }
}

proof fn lemma_no_digit(a: Seq<char>, c: char, b: Seq<char>)
    requires
        !('0' <= c <= '9'),
    ensures
        number(a + seq![c] + b, 10) is None,
    decreases b.len(),
{
    let s = a + seq![c] + b;
    if b.len() == 0 {
        assert(s.last() == c);
    } else {
        assert(s.drop_last() =~= a + seq![c] + b.drop_last());
        lemma_no_digit(a, c, b.drop_last());
    }
}

/// The page gets what the chrome leaves of the window, and at least one pixel.
pub proof fn the_page_gets_the_rest(length: nat, inset: nat)
    ensures
        length > inset ==> remaining(length, inset) + inset == length,
        length <= inset ==> remaining(length, inset) == 1,
        remaining(length, inset) >= 1,
{
}

/// A position is in the page from the insets on and up to the size of the window,
/// either way.
pub proof fn the_page_begins_behind_the_insets(
    x: i32,
    y: i32,
    width: u32,
    height: u32,
    left: u32,
    top: u32,
)
    requires
        width < 0x8000_0000,
        height < 0x8000_0000,
        left < 0x8000_0000,
        top < 0x8000_0000,
    ensures
        in_page(x, y, width, height, left, top) <==> left <= x && x < width && top <= y && y
            < height,
        left < width && top < height ==> in_page(left as i32, top as i32, width, height, left, top),
        !in_page(width as i32, y, width, height, left, top),
        !in_page(x, height as i32, width, height, left, top),
{
}

/// A size that does not fit a signed number counts as negative: nothing is in it.
pub proof fn oversized_windows_have_no_page(v: u32, w: u32)
    ensures
        v < 0x8000_0000 ==> signed(v) == v,
        v >= 0x8000_0000 ==> signed(v) < 0 && signed(v) + 0x1_0000_0000 == v,
        v < w && w < 0x8000_0000 ==> signed(v) < signed(w),
{
}

/// A `mote:` URL is one in any letter case, and a URL with another scheme, or
/// without one, is none.
pub proof fn internal_urls_go_by_their_scheme(name: Seq<char>, rest: Seq<char>)
    requires
        forall|k: int| 0 <= k < name.len() ==> name[k] != ':',
    ensures
        mote_scheme(name + seq![':'] + rest) <==> ascii_lowered(name) == "mote"@,
        !mote_scheme(name),
{
    let url = name + seq![':'] + rest;
    assert(url[name.len() as int] == ':');
    assert forall|k: int| 0 <= k < name.len() implies url[k] != ':' by {
        assert(url[k] == name[k]);
    }
    lemma_index_of_unique(url, ':', name.len() as int);
    assert(url.subrange(0, name.len() as int) =~= name);
    lemma_index_of_unique(name, ':', name.len() as int);
}

/// Letter case makes no difference to whether a page is internal.
pub proof fn internal_pages_go_by_their_prefix(url: Seq<char>, rest: Seq<char>)
    ensures
        internal_page(ascii_lowered(url)) <==> internal_page(url),
        internal_page("mote://"@ + rest),
{
    assert forall|c: char| ascii_lower(#[trigger] ascii_lower(c)) == ascii_lower(c) by {
        cases_are_thirty_two_apart(c);
        cases_are_thirty_two_apart(ascii_lower(c));
    }
    assert(ascii_lowered(ascii_lowered(url)) =~= ascii_lowered(url));
    reveal_strlit("mote://");
    let t = ascii_lowered("mote://"@ + rest);
    assert(t.subrange(0, 7) =~= "mote://"@);
}

/// A capital letter becomes the small one, and every other character stays.
pub proof fn cases_are_thirty_two_apart(c: char)
    ensures
        'A' <= c <= 'Z' ==> ascii_lower(c) as u32 == c as u32 + 32 && 'a' <= ascii_lower(c) <= 'z',
        !('A' <= c <= 'Z') ==> ascii_lower(c) == c,
{
}

/// The settings have four sections, each at its own address, with or without the
/// suffix.
pub proof fn settings_have_four_sections(section: Seq<char>)
    ensures
        settings_section("general"@),
        settings_section("plugins"@),
        settings_section("integrity"@),
        settings_section("keybinds"@),
        settings_section(section) ==> section == "general"@ || section == "plugins"@ || section
            == "integrity"@ || section == "keybinds"@,
        section_url("mote://chrome/settings/"@ + section, section),
        section_url("mote://chrome/settings/"@ + section + ".html"@, section),
{
}

/// The address of a section belongs to no other section, unless that is called so
/// with the suffix.
pub proof fn section_addresses_differ(a: Seq<char>, b: Seq<char>)
    ensures
        section_url("mote://chrome/settings/"@ + a, b) ==> a == b || a == b + ".html"@,
{
    let base = "mote://chrome/settings/"@;
    let u = base + a;
    let n = base.len() as int;
    assert(u.skip(n) =~= a);
    assert((base + b).skip(n) =~= b);
    assert((base + b + ".html"@).skip(n) =~= b + ".html"@);
}

/// Each asset of the chrome is served under its type.
pub proof fn chrome_assets_have_their_type(components: Seq<Seq<char>>)
    ensures
        chrome_table(components).contains(("index.html"@, "text/html; charset=utf-8"@)),
        chrome_table(components).contains(("roving.js"@, "text/javascript; charset=utf-8"@)),
        chrome_table(components).contains(("host.js"@, "text/javascript; charset=utf-8"@)),
        chrome_table(components).contains(("panels.js"@, "text/javascript; charset=utf-8"@)),
        chrome_table(components).contains(("tokens.css"@, "text/css; charset=utf-8"@)),
        chrome_table(components).contains(("base.css"@, "text/css; charset=utf-8"@)),
        chrome_table(components).contains(("assets/wordmark.svg"@, "image/svg+xml"@)),
        chrome_table(components).contains(("assets/mark.svg"@, "image/svg+xml"@)),
        chrome_table(components).contains(("assets/lucide-sprite.svg"@, "image/svg+xml"@)),
        chrome_table(components).contains(("newtab.html"@, "text/html; charset=utf-8"@)),
        chrome_table(components).contains(("settings/settings.css"@, "text/css; charset=utf-8"@)),
        chrome_table(components).contains(
            ("settings/settings.js"@, "text/javascript; charset=utf-8"@),
        ),
        chrome_table(components).len() == 9 + components.len() + 1 + 8 + 2,
{
    let t = chrome_table(components);
    let n = components.len() as int;
    assert(t[0] == ("index.html"@, "text/html; charset=utf-8"@));
    assert(t[1] == ("roving.js"@, "text/javascript; charset=utf-8"@));
    assert(t[2] == ("host.js"@, "text/javascript; charset=utf-8"@));
    assert(t[3] == ("panels.js"@, "text/javascript; charset=utf-8"@));
    assert(t[4] == ("tokens.css"@, "text/css; charset=utf-8"@));
    assert(t[5] == ("base.css"@, "text/css; charset=utf-8"@));
    assert(t[6] == ("assets/wordmark.svg"@, "image/svg+xml"@));
    assert(t[7] == ("assets/mark.svg"@, "image/svg+xml"@));
    assert(t[8] == ("assets/lucide-sprite.svg"@, "image/svg+xml"@));
    assert(t[9 + n] == ("newtab.html"@, "text/html; charset=utf-8"@));
    assert(t[18 + n] == ("settings/settings.css"@, "text/css; charset=utf-8"@));
    assert(t[19 + n] == ("settings/settings.js"@, "text/javascript; charset=utf-8"@));
}

/// The overlays are served with the style sheets that they share, and both origins
/// serve the style sheet of every component.
pub proof fn components_are_served_on_both_origins(components: Seq<Seq<char>>, i: int)
    ensures
        overlay_table(components).contains(("integrity.html"@, "text/html; charset=utf-8"@)),
        overlay_table(components).contains(("picker.html"@, "text/html; charset=utf-8"@)),
        overlay_table(components).contains(("tokens.css"@, "text/css; charset=utf-8"@)),
        overlay_table(components).contains(("base.css"@, "text/css; charset=utf-8"@)),
        overlay_table(components).len() == 4 + components.len(),
        0 <= i < components.len() ==> chrome_table(components).contains(
            ("components/"@ + components[i] + ".css"@, "text/css; charset=utf-8"@),
        ) && overlay_table(components).contains(
            ("components/"@ + components[i] + ".css"@, "text/css; charset=utf-8"@),
        ),
{
    let o = overlay_table(components);
    assert(o[0] == ("integrity.html"@, "text/html; charset=utf-8"@));
    assert(o[1] == ("picker.html"@, "text/html; charset=utf-8"@));
    assert(o[2] == ("tokens.css"@, "text/css; charset=utf-8"@));
    assert(o[3] == ("base.css"@, "text/css; charset=utf-8"@));
    if 0 <= i < components.len() {
        assert(o[4 + i] == component_document(components[i]));
        assert(chrome_table(components)[9 + i] == component_document(components[i]));
    }
}

/// A path that is no address of a settings section is served from the file of its
/// own name.
pub proof fn other_paths_are_their_own_file(path: Seq<char>)
    ensures
        path != "settings/general"@ && path != "settings/plugins"@ && path
            != "settings/integrity"@ && path != "settings/keybinds"@ ==> asset_name(path) == path,
{
}

/// Twenty-five closed tabs are remembered, the last one first; the oldest is
/// forgotten.
pub proof fn twenty_five_closed_tabs_are_remembered(
    stack: Seq<ClosedTabView>,
    tab: ClosedTabView,
    i: int,
)
    requires
        stack.len() <= 25,
    ensures
        pushed(stack, tab)[0] == tab,
        stack.len() < 25 ==> pushed(stack, tab).len() == stack.len() + 1,
        stack.len() == 25 ==> pushed(stack, tab).len() == 25,
        0 <= i < stack.len() && i < 24 ==> pushed(stack, tab)[i + 1] == stack[i],
{
}

} // verus!
