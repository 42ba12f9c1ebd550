//! What the browser serves under `mote://`: the documents of the privileged
//! chrome origin, and those of the overlays, which have an origin of their own.

use crate::internal::{settings_section, start_url};
use crate::text::{strings, text_eq};
use vstd::prelude::*;

verus! {

/// The path of a document below its origin, and its content type.
pub type Document = (String, &'static str);

/// Documents as values.
pub open spec fn document_views(v: Seq<Document>) -> Seq<(Seq<char>, Seq<char>)> {
    v.map_values(|d: Document| (d.0@, d.1@))
}

/// The content type of HTML.
pub open spec fn html_type() -> Seq<char> {
    "text/html; charset=utf-8"@
}

/// The content type of JavaScript.
pub open spec fn js_type() -> Seq<char> {
    "text/javascript; charset=utf-8"@
}

/// The content type of style sheets.
pub open spec fn css_type() -> Seq<char> {
    "text/css; charset=utf-8"@
}

/// The content type of images.
pub open spec fn svg_type() -> Seq<char> {
    "image/svg+xml"@
}

/// The style sheet of a component.
pub open spec fn component_document(name: Seq<char>) -> (Seq<char>, Seq<char>) {
    ("components/"@ + name + ".css"@, css_type())
}

/// The style sheets of the components.
pub open spec fn component_documents(names: Seq<Seq<char>>) -> Seq<(Seq<char>, Seq<char>)> {
    names.map_values(|name: Seq<char>| component_document(name))
}

/// The page of a settings section: at its address, and with the suffix, so that
/// what it refers to is found beside it.
pub open spec fn section_documents(section: Seq<char>) -> Seq<(Seq<char>, Seq<char>)> {
    seq![
        ("settings/"@ + section, html_type()),
        ("settings/"@ + section + ".html"@, html_type()),
    ]
}

/// The chrome document and its assets.
pub open spec fn chrome_assets() -> Seq<(Seq<char>, Seq<char>)> {
    seq![
        ("index.html"@, html_type()),
        ("roving.js"@, js_type()),
        ("host.js"@, js_type()),
        ("panels.js"@, js_type()),
        ("tokens.css"@, css_type()),
        ("base.css"@, css_type()),
        ("assets/wordmark.svg"@, svg_type()),
        ("assets/mark.svg"@, svg_type()),
        ("assets/lucide-sprite.svg"@, svg_type()),
    ]
}

/// What the settings pages share.
pub open spec fn settings_assets() -> Seq<(Seq<char>, Seq<char>)> {
    seq![("settings/settings.css"@, css_type()), ("settings/settings.js"@, js_type())]
}

/// The pages of the settings sections.
pub open spec fn settings_pages() -> Seq<(Seq<char>, Seq<char>)> {
    section_documents("general"@) + section_documents("plugins"@) + section_documents(
        "integrity"@,
    ) + section_documents("keybinds"@)
}

/// The documents of the chrome origin.
pub open spec fn chrome_table(components: Seq<Seq<char>>) -> Seq<(Seq<char>, Seq<char>)> {
    chrome_assets() + component_documents(components) + seq![("newtab.html"@, html_type())]
        + settings_pages() + settings_assets()
}

/// The overlays, with the style sheets that they share with the chrome.
pub open spec fn overlay_assets() -> Seq<(Seq<char>, Seq<char>)> {
    seq![
        ("integrity.html"@, html_type()),
        ("picker.html"@, html_type()),
        ("tokens.css"@, css_type()),
        ("base.css"@, css_type()),
    ]
}

/// The documents of the overlay origin.
pub open spec fn overlay_table(components: Seq<Seq<char>>) -> Seq<(Seq<char>, Seq<char>)> {
    overlay_assets() + component_documents(components)
}

fn add_document(out: &mut Vec<Document>, path: &str, kind: &'static str)
    ensures
        document_views(final(out)@) == document_views(old(out)@).push((path@, kind@)),
{
    let ghost before = document_views(out@);
    out.push((path.to_owned(), kind));
    assert(document_views(out@) =~= before.push((path@, kind@)));
}

fn add_components(out: &mut Vec<Document>, names: &Vec<String>)
    ensures
        document_views(final(out)@) == document_views(old(out)@) + component_documents(
            strings(names@),
        ),
{
    let ghost before = document_views(out@);
    let ghost all = component_documents(strings(names@));
    let mut i: usize = 0;
    assert(before + all.subrange(0, 0) =~= before);
    while i < names.len()
        invariant
            i <= names@.len(),
            all == component_documents(strings(names@)),
            document_views(out@) == before + all.subrange(0, i as int),
        decreases names@.len() - i,
    {
        let mut path = String::new();
        path.push_str("components/");
        path.push_str(names[i].as_str());
        path.push_str(".css");
        assert(path@ =~= "components/"@ + names@[i as int]@ + ".css"@);
        add_document(out, path.as_str(), "text/css; charset=utf-8");
        assert(all[i as int] == component_document(names@[i as int]@));
        assert(all.subrange(0, i + 1) =~= all.subrange(0, i as int).push(all[i as int]));
        assert(document_views(out@) =~= before + all.subrange(0, i + 1));
        i = i + 1;
    }
    assert(all.subrange(0, all.len() as int) =~= all);
}

fn add_section(out: &mut Vec<Document>, section: &str)
    ensures
        document_views(final(out)@) == document_views(old(out)@) + section_documents(section@),
{
    let ghost before = document_views(out@);
    let mut path = String::new();
    path.push_str("settings/");
    path.push_str(section);
    assert(path@ =~= "settings/"@ + section@);
    add_document(out, path.as_str(), "text/html; charset=utf-8");
    path.push_str(".html");
    add_document(out, path.as_str(), "text/html; charset=utf-8");
    assert(document_views(out@) =~= before + section_documents(section@));
}

/// The documents of the privileged chrome origin, the only one that can call
/// operations: the chrome document with its assets and the style sheets of the
/// components, the start page, and the settings pages.
pub fn chrome_documents(components: &Vec<String>) -> (r: Vec<Document>)
    ensures
        document_views(r@) == chrome_table(strings(components@)),
{
    let mut out: Vec<Document> = Vec::new();
    assert(document_views(out@) =~= Seq::<(Seq<char>, Seq<char>)>::empty());
    add_document(&mut out, "index.html", "text/html; charset=utf-8");
    add_document(&mut out, "roving.js", "text/javascript; charset=utf-8");
    add_document(&mut out, "host.js", "text/javascript; charset=utf-8");
    add_document(&mut out, "panels.js", "text/javascript; charset=utf-8");
    add_document(&mut out, "tokens.css", "text/css; charset=utf-8");
    add_document(&mut out, "base.css", "text/css; charset=utf-8");
    add_document(&mut out, "assets/wordmark.svg", "image/svg+xml");
    add_document(&mut out, "assets/mark.svg", "image/svg+xml");
    add_document(&mut out, "assets/lucide-sprite.svg", "image/svg+xml");
    assert(document_views(out@) =~= chrome_assets());
    add_components(&mut out, components);
    add_document(&mut out, "newtab.html", "text/html; charset=utf-8");
    let ghost front = document_views(out@);
    add_section(&mut out, "general");
    add_section(&mut out, "plugins");
    add_section(&mut out, "integrity");
    add_section(&mut out, "keybinds");
    assert(document_views(out@) =~= front + settings_pages());
    add_document(&mut out, "settings/settings.css", "text/css; charset=utf-8");
    add_document(&mut out, "settings/settings.js", "text/javascript; charset=utf-8");
    assert(document_views(out@) =~= chrome_table(strings(components@)));
    out
}

/// The documents of the overlay origin, which can call no operation: the
/// integrity panel and the tab picker, with the style sheets that they use.
pub fn overlay_documents(components: &Vec<String>) -> (r: Vec<Document>)
    ensures
        document_views(r@) == overlay_table(strings(components@)),
{
    let mut out: Vec<Document> = Vec::new();
    assert(document_views(out@) =~= Seq::<(Seq<char>, Seq<char>)>::empty());
    add_document(&mut out, "integrity.html", "text/html; charset=utf-8");
    add_document(&mut out, "picker.html", "text/html; charset=utf-8");
    add_document(&mut out, "tokens.css", "text/css; charset=utf-8");
    add_document(&mut out, "base.css", "text/css; charset=utf-8");
    assert(document_views(out@) =~= overlay_assets());
    add_components(&mut out, components);
    out
}

/// The file whose contents are served at `path`: for the address of a settings
/// section its page, for any other path the file of that name.
pub open spec fn asset_name(path: Seq<char>) -> Seq<char> {
    if path == "settings/general"@ || path == "settings/plugins"@ || path == "settings/integrity"@
        || path == "settings/keybinds"@ {
        path + ".html"@
    } else {
        path
    }
}

/// The file whose contents are served at `path`.
pub fn asset_of(path: &str) -> (r: String)
    ensures
        r@ == asset_name(path@),
{
    let mut out = path.to_owned();
    if text_eq(path, "settings/general") || text_eq(path, "settings/plugins") || text_eq(
        path,
        "settings/integrity",
    ) || text_eq(path, "settings/keybinds") {
        out.push_str(".html");
    }
    out
}

/// Whether one of the documents stands at `path`.
pub open spec fn serves(table: Seq<(Seq<char>, Seq<char>)>, path: Seq<char>) -> bool {
    exists|i: int| 0 <= i < table.len() && (#[trigger] table[i]).0 == path
}

/// The privileged origin serves no overlay: both live on the overlay origin,
/// whatever the components are called.
pub proof fn overlays_have_their_own_origin(components: Seq<Seq<char>>)
    ensures
        !serves(chrome_table(components), "picker.html"@),
        !serves(chrome_table(components), "integrity.html"@),
        serves(overlay_table(components), "picker.html"@),
        serves(overlay_table(components), "integrity.html"@),
{
    reveal_strlit("picker.html");
    reveal_strlit("integrity.html");
    let overlays = overlay_table(components);
    assert(overlays[0].0 == "integrity.html"@);
    assert(overlays[1].0 == "picker.html"@);
    let table = chrome_table(components);
    let a = chrome_assets();
    let c = component_documents(components);
    assert forall|i: int| 0 <= i < table.len() implies (#[trigger] table[i]).0 != "picker.html"@
        && table[i].0 != "integrity.html"@ by {
        let at = i - a.len() - c.len();
        if i < a.len() {
            lemma_assets_are_no_overlays(i);
        } else if at < 0 {
            let name = components[i - a.len()];
            assert(table[i] == component_document(name));
            reveal_strlit("components/");
            assert(table[i].0[0] == 'c');
        } else if at == 0 {
            reveal_strlit("newtab.html");
            assert(table[i].0[0] == 'n');
        } else {
            reveal_strlit("settings/");
            reveal_strlit("settings/settings.css");
            reveal_strlit("settings/settings.js");
            if at <= 8 {
                assert(table[i] == settings_pages()[at - 1]);
            } else {
                assert(table[i] == settings_assets()[at - 9]);
            }
            assert(table[i].0[0] == 's');
        }
    }
}

proof fn lemma_assets_are_no_overlays(i: int)
    requires
        0 <= i < chrome_assets().len(),
    ensures
        chrome_assets()[i].0 != "picker.html"@,
        chrome_assets()[i].0 != "integrity.html"@,
{
    reveal_strlit("picker.html");
    reveal_strlit("integrity.html");
    reveal_strlit("index.html");
    reveal_strlit("roving.js");
    reveal_strlit("host.js");
    reveal_strlit("panels.js");
    reveal_strlit("tokens.css");
    reveal_strlit("base.css");
    reveal_strlit("assets/wordmark.svg");
    reveal_strlit("assets/mark.svg");
    reveal_strlit("assets/lucide-sprite.svg");
    assert("picker.html"@.len() == 11 && "integrity.html"@.len() == 14);
    assert("index.html"@.len() == 10 && "roving.js"@.len() == 9 && "host.js"@.len() == 7);
    assert("panels.js"@.len() == 9 && "tokens.css"@.len() == 10 && "base.css"@.len() == 8);
    assert("assets/wordmark.svg"@.len() == 19 && "assets/mark.svg"@.len() == 15);
    assert("assets/lucide-sprite.svg"@.len() == 24);
}

/// Each settings section stands under two paths, its address and the page
/// itself, and both serve the same file.
pub proof fn settings_stand_under_both_paths(components: Seq<Seq<char>>, section: Seq<char>)
    requires
        settings_section(section),
    ensures
        chrome_table(components).contains(("settings/"@ + section, html_type())),
        chrome_table(components).contains(("settings/"@ + section + ".html"@, html_type())),
        asset_name("settings/"@ + section) == "settings/"@ + section + ".html"@,
        asset_name("settings/"@ + section + ".html"@) == "settings/"@ + section + ".html"@,
{
    let table = chrome_table(components);
    let first = chrome_assets().len() + component_documents(components).len() + 1;
    let at: int = if section == "general"@ {
        0
    } else if section == "plugins"@ {
        2
    } else if section == "integrity"@ {
        4
    } else {
        6
    };
    assert(table[first + at] == settings_pages()[at]);
    assert(table[first + at + 1] == settings_pages()[at + 1]);
    assert(settings_pages()[at] == section_documents(section)[0]);
    assert(settings_pages()[at + 1] == section_documents(section)[1]);
    reveal_strlit("settings/");
    reveal_strlit(".html");
    reveal_strlit("general");
    reveal_strlit("plugins");
    reveal_strlit("integrity");
    reveal_strlit("keybinds");
    reveal_strlit("settings/general");
    reveal_strlit("settings/plugins");
    reveal_strlit("settings/integrity");
    reveal_strlit("settings/keybinds");
    let path = "settings/"@ + section;
    if at == 0 {
        assert(path =~= "settings/general"@);
    } else if at == 2 {
        assert(path =~= "settings/plugins"@);
    } else if at == 4 {
        assert(path =~= "settings/integrity"@);
    } else {
        assert(path =~= "settings/keybinds"@);
    }
    assert((path + ".html"@).last() == 'l');
    assert("settings/general"@.len() == 16 && "settings/plugins"@.len() == 16);
    assert("settings/integrity"@.len() == 18 && "settings/keybinds"@.len() == 17);
    assert((path + ".html"@).len() > 18);
}

/// The start page is one of the documents of the chrome origin.
pub proof fn the_start_page_is_served(components: Seq<Seq<char>>)
    ensures
        start_url() == "mote://chrome/"@ + "newtab.html"@,
        serves(chrome_table(components), "newtab.html"@),
{
    reveal_strlit("mote://chrome/newtab.html");
    reveal_strlit("mote://chrome/");
    reveal_strlit("newtab.html");
    assert(start_url() =~= "mote://chrome/"@ + "newtab.html"@);
    let at = chrome_assets().len() + component_documents(components).len();
    assert(chrome_table(components)[at as int].0 == "newtab.html"@);
}

} // verus!
