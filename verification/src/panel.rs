//! The integrity panel: what it shows of each plugin, and its HTML.

use crate::escape::{esc, html_text};
use crate::text::{
    decimal, decimal_text, flat_map, join, joined, lemma_flat_map_step, opt_text, strings,
};
use vstd::prelude::*;

verus! {

/// What kind of plugin a card shows.
#[derive(Debug)]
pub enum PluginKind {
    Bundled,
    PathLocal { path: String },
    DeclaredGit { source: String, commit: String },
    ImplicitLocal { path: String },
    DevMode { path: String },
}

/// How the panel shows the state of a plugin's files.
#[derive(Debug, Clone, Copy, PartialEq, Eq, Structural)]
pub enum IntegrityStatus {
    Verified,
    Mismatch,
    Bundled,
    Unknown,
    DevMode,
}

/// What a card offers to do.
#[derive(Debug, Clone, Copy, PartialEq, Eq, Structural)]
pub enum PluginAction {
    Update,
    Rollback,
    Reload,
    Revoke,
    AdjustScope,
}

/// A permission on a card.
#[derive(Debug)]
pub struct PermissionRow {
    pub requested: String,
    pub effective: String,
    pub narrowed: bool,
    pub denied: bool,
}

/// A secret on a card.
#[derive(Debug)]
pub struct SecretAccessRow {
    pub name: String,
    /// Where the secret is kept.
    pub backend: String,
    pub last_read: Option<String>,
}

/// The words and signs that stand for a plugin's kind and integrity.
#[derive(Debug)]
pub struct RowLabels {
    pub glyph: String,
    pub source: String,
    pub badge: String,
    pub status: String,
}

/// A plugin's card.
#[derive(Debug)]
pub struct PluginRow {
    pub name: String,
    pub version: String,
    pub fulfills: Vec<String>,
    pub consumes: Vec<String>,
    pub permissions: Vec<PermissionRow>,
    pub secrets: Vec<SecretAccessRow>,
    pub last_used: Option<String>,
    pub kind: PluginKind,
    pub integrity: IntegrityStatus,
    pub actions: Vec<PluginAction>,
    pub labels: RowLabels,
}

/// How often a plugin acted.
#[derive(Debug)]
pub struct AuditRow {
    pub actor: String,
    pub count: u64,
    pub decision: String,
}

/// How much a plugin stores.
#[derive(Debug)]
pub struct StorageRow {
    pub plugin: String,
    pub size_human: String,
    pub size_bytes: u64,
}

/// A permission that a plugin was refused.
#[derive(Debug)]
pub struct DenialRow {
    pub plugin: String,
    pub permission: String,
    pub when: String,
}

/// What the integrity panel shows.
#[derive(Debug)]
pub struct IntegrityPanel {
    pub plugins: Vec<PluginRow>,
    pub network_audit: Vec<AuditRow>,
    pub storage: Vec<StorageRow>,
    pub denials: Vec<DenialRow>,
}

/// The badge with the number of a section's entries.
pub open spec fn count_badge(count: Option<usize>) -> Seq<char> {
    match count {
        Some(n) => "<span class=\"section-count\">"@ + decimal(n as nat) + "</span>"@,
        None => Seq::empty(),
    }
}

/// The opening of a section.
pub open spec fn section_opening(label: Seq<char>, count: Option<usize>) -> Seq<char> {
    "<section class=\"integrity-section\"><div class=\"integrity-section-head\"><span class=\"section-label\"><span class=\"br\">[</span>"@
        + label + "<span class=\"br\">]</span></span>"@ + count_badge(count) + "</div>"@
}

/// The opening of a section: its label in brackets, and the number of its
/// entries where one is given.
pub fn section_head(label: &str, count: Option<usize>) -> (r: String)
    ensures
        r@ == section_opening(label@, count),
{
    let mut out = String::new();
    out.push_str(
        "<section class=\"integrity-section\"><div class=\"integrity-section-head\"><span class=\"section-label\"><span class=\"br\">[</span>",
    );
    out.push_str(label);
    out.push_str("<span class=\"br\">]</span></span>");
    if let Some(n) = count {
        out.push_str("<span class=\"section-count\">");
        let digits = decimal_text(n as u64);
        out.push_str(digits.as_str());
        out.push_str("</span>");
    }
    out.push_str("</div>");
    assert(out@ =~= section_opening(label@, count));
    out
}

/// The head of a card.
pub open spec fn card_opening(p: PluginRow) -> Seq<char> {
    "<article class=\"plugin-card\"><header class=\"plugin-card-head\"><div class=\"plugin-card-name\"><span class=\"prov-glyph\">"@ + html_text(p.labels.glyph@) + "</span> "@ + html_text(p.name@) + "</div><span class=\"plugin-card-version\">v"@ + html_text(p.version@) + "</span><div class=\"plugin-card-badges\"><span class=\"badge "@ + html_text(p.labels.badge@) + "\"><span class=\"dot\"></span>"@ + html_text(p.labels.status@) + "</span></div></header><div class=\"plugin-provenance\"><span class=\"prov-label\">source</span> <span class=\"prov-value\">"@ + html_text(p.labels.source@) + "</span></div>"@
}

/// The head of a card.
fn card_head(p: &PluginRow) -> (r: String)
    ensures
        r@ == card_opening(*p),
{
    let mut out = String::new();
    out.push_str("<article class=\"plugin-card\"><header class=\"plugin-card-head\"><div class=\"plugin-card-name\"><span class=\"prov-glyph\">");
    let glyph = esc(p.labels.glyph.as_str());
    out.push_str(glyph.as_str());
    out.push_str("</span> ");
    let name = esc(p.name.as_str());
    out.push_str(name.as_str());
    out.push_str("</div><span class=\"plugin-card-version\">v");
    let version = esc(p.version.as_str());
    out.push_str(version.as_str());
    out.push_str("</span><div class=\"plugin-card-badges\"><span class=\"badge ");
    let badge = esc(p.labels.badge.as_str());
    out.push_str(badge.as_str());
    out.push_str("\"><span class=\"dot\"></span>");
    let status = esc(p.labels.status.as_str());
    out.push_str(status.as_str());
    out.push_str("</span></div></header><div class=\"plugin-provenance\"><span class=\"prov-label\">source</span> <span class=\"prov-value\">");
    let source = esc(p.labels.source.as_str());
    out.push_str(source.as_str());
    out.push_str("</span></div>");
    assert(out@ =~= card_opening(*p));
    out
}

/// A capability on a card.
pub open spec fn capability_html(c: Seq<char>) -> Seq<char> {
    "<code>"@ + html_text(c) + "</code>"@
}

/// The capabilities that a plugin fulfils; nothing where there are none.
pub open spec fn capabilities_html(caps: Seq<Seq<char>>) -> Seq<char> {
    if caps.len() == 0 {
        Seq::empty()
    } else {
        "<div class=\"plugin-caps\"><span class=\"prov-label\">fulfills</span> "@ + joined(
            caps.map_values(|c: Seq<char>| capability_html(c)),
            " "@,
        ) + "</div>"@
    }
}

fn card_capabilities(caps: &Vec<String>) -> (r: String)
    ensures
        r@ == capabilities_html(strings(caps@)),
{
    let mut out = String::new();
    if caps.len() == 0 {
        assert(out@ =~= capabilities_html(strings(caps@)));
        return out;
    }
    let mut parts: Vec<String> = Vec::new();
    let mut i: usize = 0;
    while i < caps.len()
        invariant
            i <= caps@.len(),
            parts@.len() == i,
            forall|k: int| 0 <= k < i ==> (#[trigger] parts@[k])@ == capability_html(caps@[k]@),
        decreases caps@.len() - i,
    {
        let mut part = String::new();
        part.push_str("<code>");
        let name = esc(caps[i].as_str());
        part.push_str(name.as_str());
        part.push_str("</code>");
        assert(part@ =~= capability_html(caps@[i as int]@));
        parts.push(part);
        i = i + 1;
    }
    assert(strings(parts@) =~= strings(caps@).map_values(|c: Seq<char>| capability_html(c)));
    out.push_str("<div class=\"plugin-caps\"><span class=\"prov-label\">fulfills</span> ");
    let list = join(&parts, " ");
    out.push_str(list.as_str());
    out.push_str("</div>");
    assert(out@ =~= capabilities_html(strings(caps@)));
    out
}

/// A permission on a card.
pub open spec fn permission_html(p: PermissionRow) -> Seq<char> {
    "<li class=\"perm-row\"><code>"@ + html_text(p.requested@) + "</code>"@ + (if p.narrowed {
        " → <code>"@ + html_text(p.effective@) + "</code>"@
    } else {
        Seq::empty()
    }) + "</li>"@
}

fn permission_item(p: &PermissionRow) -> (r: String)
    ensures
        r@ == permission_html(*p),
{
    let mut out = String::new();
    out.push_str("<li class=\"perm-row\"><code>");
    let requested = esc(p.requested.as_str());
    out.push_str(requested.as_str());
    out.push_str("</code>");
    if p.narrowed {
        out.push_str(" → <code>");
        let effective = esc(p.effective.as_str());
        out.push_str(effective.as_str());
        out.push_str("</code>");
    }
    out.push_str("</li>");
    assert(out@ =~= permission_html(*p));
    out
}

/// When a plugin was last used; nothing where that is not known.
pub open spec fn last_used_html(used: Option<Seq<char>>) -> Seq<char> {
    match used {
        Some(t) => "<div class=\"plugin-lastused\"><span class=\"prov-label\">last used</span> "@
            + html_text(t) + "</div>"@,
        None => Seq::empty(),
    }
}

/// A plugin's card.
pub open spec fn card_html(p: PluginRow) -> Seq<char> {
    card_opening(p) + capabilities_html(strings(p.fulfills@)) + "<ul class=\"perm-list\">"@
        + flat_map(p.permissions@, |x: PermissionRow| permission_html(x)) + "</ul>"@
        + last_used_html(opt_text(p.last_used)) + "</article>"@
}

fn plugin_card(p: &PluginRow) -> (r: String)
    ensures
        r@ == card_html(*p),
{
    let mut out = card_head(p);
    let caps = card_capabilities(&p.fulfills);
    out.push_str(caps.as_str());
    out.push_str("<ul class=\"perm-list\">");
    let ghost front = out@;
    let ghost item = |x: PermissionRow| permission_html(x);
    let mut i: usize = 0;
    assert(front + flat_map(p.permissions@.subrange(0, 0), item) =~= front);
    while i < p.permissions.len()
        invariant
            i <= p.permissions@.len(),
            item == (|x: PermissionRow| permission_html(x)),
            out@ == front + flat_map(p.permissions@.subrange(0, i as int), item),
        decreases p.permissions@.len() - i,
    {
        proof {
            lemma_flat_map_step(p.permissions@, i as int, item);
        }
        let ghost before = out@;
        let li = permission_item(&p.permissions[i]);
        out.push_str(li.as_str());
        i = i + 1;
        assert(out@ =~= front + flat_map(p.permissions@.subrange(0, i as int), item));
    }
    assert(p.permissions@.subrange(0, p.permissions@.len() as int) =~= p.permissions@);
    out.push_str("</ul>");
    if let Some(used) = &p.last_used {
        out.push_str(
            "<div class=\"plugin-lastused\"><span class=\"prov-label\">last used</span> ",
        );
        let when = esc(used.as_str());
        out.push_str(when.as_str());
        out.push_str("</div>");
    }
    out.push_str("</article>");
    assert(out@ =~= card_html(*p));
    out
}

/// The section of the plugins.
pub open spec fn plugins_html(panel: IntegrityPanel) -> Seq<char> {
    section_opening("active plugins"@, Some(panel.plugins@.len() as usize)) + (
    if panel.plugins@.len() == 0 {
        "<p class=\"empty\">no plugins loaded</p>"@
    } else {
        Seq::empty()
    }) + flat_map(panel.plugins@, |p: PluginRow| card_html(p)) + "</section>"@
}

fn plugins_section(panel: &IntegrityPanel) -> (r: String)
    ensures
        r@ == plugins_html(*panel),
{
    let mut out = section_head("active plugins", Some(panel.plugins.len()));
    if panel.plugins.len() == 0 {
        out.push_str("<p class=\"empty\">no plugins loaded</p>");
    }
    let ghost front = out@;
    let ghost item = |p: PluginRow| card_html(p);
    let mut i: usize = 0;
    assert(front + flat_map(panel.plugins@.subrange(0, 0), item) =~= front);
    while i < panel.plugins.len()
        invariant
            i <= panel.plugins@.len(),
            item == (|p: PluginRow| card_html(p)),
            out@ == front + flat_map(panel.plugins@.subrange(0, i as int), item),
        decreases panel.plugins@.len() - i,
    {
        proof {
            lemma_flat_map_step(panel.plugins@, i as int, item);
        }
        let card = plugin_card(&panel.plugins[i]);
        out.push_str(card.as_str());
        i = i + 1;
        assert(out@ =~= front + flat_map(panel.plugins@.subrange(0, i as int), item));
    }
    assert(panel.plugins@.subrange(0, panel.plugins@.len() as int) =~= panel.plugins@);
    out.push_str("</section>");
    assert(out@ =~= plugins_html(*panel));
    out
}

/// How often a plugin acted.
pub open spec fn audit_row_html(row: AuditRow) -> Seq<char> {
    "<li class=\"audit-row\"><span class=\"audit-actor\">"@ + html_text(row.actor@) + "</span> <span class=\"badge\">"@ + html_text(row.decision@) + "</span> <span class=\"audit-count\">"@ + decimal(row.count as nat) + " calls</span></li>"@
}

/// How often a plugin acted.
fn audit_item(row: &AuditRow) -> (r: String)
    ensures
        r@ == audit_row_html(*row),
{
    let mut out = String::new();
    out.push_str("<li class=\"audit-row\"><span class=\"audit-actor\">");
    let actor = esc(row.actor.as_str());
    out.push_str(actor.as_str());
    out.push_str("</span> <span class=\"badge\">");
    let decision = esc(row.decision.as_str());
    out.push_str(decision.as_str());
    out.push_str("</span> <span class=\"audit-count\">");
    let count = decimal_text(row.count);
    out.push_str(count.as_str());
    out.push_str(" calls</span></li>");
    assert(out@ =~= audit_row_html(*row));
    out
}

/// The section of the plugins' activity.
pub open spec fn audit_html(panel: IntegrityPanel) -> Seq<char> {
    section_opening("activity audit"@, None) + (if panel.network_audit@.len() == 0 {
        "<p class=\"empty\">no audited activity yet</p>"@
    } else {
        "<ul class=\"audit-list\">"@ + flat_map(panel.network_audit@, |x: AuditRow| audit_row_html(x)) + "</ul>"@
    }) + "</section>"@
}

fn audit_section(panel: &IntegrityPanel) -> (r: String)
    ensures
        r@ == audit_html(*panel),
{
    let mut out = section_head("activity audit", None);
    if panel.network_audit.len() == 0 {
        out.push_str("<p class=\"empty\">no audited activity yet</p>");
    } else {
        out.push_str("<ul class=\"audit-list\">");
        let ghost front = out@;
        let ghost item = |x: AuditRow| audit_row_html(x);
        let mut i: usize = 0;
        assert(front + flat_map(panel.network_audit@.subrange(0, 0), item) =~= front);
        while i < panel.network_audit.len()
            invariant
                i <= panel.network_audit@.len(),
                item == (|x: AuditRow| audit_row_html(x)),
                out@ == front + flat_map(panel.network_audit@.subrange(0, i as int), item),
            decreases panel.network_audit@.len() - i,
        {
            proof {
                lemma_flat_map_step(panel.network_audit@, i as int, item);
            }
            let li = audit_item(&panel.network_audit[i]);
            out.push_str(li.as_str());
            i = i + 1;
            assert(out@ =~= front + flat_map(panel.network_audit@.subrange(0, i as int), item));
        }
        assert(panel.network_audit@.subrange(0, panel.network_audit@.len() as int) =~= panel.network_audit@);
        out.push_str("</ul>");
    }
    out.push_str("</section>");
    assert(out@ =~= audit_html(*panel));
    out
}

/// How much a plugin stores.
pub open spec fn storage_row_html(row: StorageRow) -> Seq<char> {
    "<li class=\"storage-row\"><span>"@ + html_text(row.plugin@) + "</span> <span>"@ + html_text(row.size_human@) + "</span></li>"@
}

/// How much a plugin stores.
fn storage_item(row: &StorageRow) -> (r: String)
    ensures
        r@ == storage_row_html(*row),
{
    let mut out = String::new();
    out.push_str("<li class=\"storage-row\"><span>");
    let plugin = esc(row.plugin.as_str());
    out.push_str(plugin.as_str());
    out.push_str("</span> <span>");
    let size = esc(row.size_human.as_str());
    out.push_str(size.as_str());
    out.push_str("</span></li>");
    assert(out@ =~= storage_row_html(*row));
    out
}

/// The section of the plugins' storage.
pub open spec fn storage_html(panel: IntegrityPanel) -> Seq<char> {
    section_opening("storage"@, None) + (if panel.storage@.len() == 0 {
        "<p class=\"empty\">no plugin storage in use</p>"@
    } else {
        "<ul class=\"storage-list\">"@ + flat_map(panel.storage@, |x: StorageRow| storage_row_html(x)) + "</ul>"@
    }) + "</section>"@
}

fn storage_section(panel: &IntegrityPanel) -> (r: String)
    ensures
        r@ == storage_html(*panel),
{
    let mut out = section_head("storage", None);
    if panel.storage.len() == 0 {
        out.push_str("<p class=\"empty\">no plugin storage in use</p>");
    } else {
        out.push_str("<ul class=\"storage-list\">");
        let ghost front = out@;
        let ghost item = |x: StorageRow| storage_row_html(x);
        let mut i: usize = 0;
        assert(front + flat_map(panel.storage@.subrange(0, 0), item) =~= front);
        while i < panel.storage.len()
            invariant
                i <= panel.storage@.len(),
                item == (|x: StorageRow| storage_row_html(x)),
                out@ == front + flat_map(panel.storage@.subrange(0, i as int), item),
            decreases panel.storage@.len() - i,
        {
            proof {
                lemma_flat_map_step(panel.storage@, i as int, item);
            }
            let li = storage_item(&panel.storage[i]);
            out.push_str(li.as_str());
            i = i + 1;
            assert(out@ =~= front + flat_map(panel.storage@.subrange(0, i as int), item));
        }
        assert(panel.storage@.subrange(0, panel.storage@.len() as int) =~= panel.storage@);
        out.push_str("</ul>");
    }
    out.push_str("</section>");
    assert(out@ =~= storage_html(*panel));
    out
}

/// A permission that a plugin was refused.
pub open spec fn denial_row_html(row: DenialRow) -> Seq<char> {
    "<li class=\"denial-row\"><span>"@ + html_text(row.plugin@) + "</span> <code>"@ + html_text(row.permission@) + "</code> <span class=\"denial-when\">"@ + html_text(row.when@) + "</span></li>"@
}

/// A permission that a plugin was refused.
fn denial_item(row: &DenialRow) -> (r: String)
    ensures
        r@ == denial_row_html(*row),
{
    let mut out = String::new();
    out.push_str("<li class=\"denial-row\"><span>");
    let plugin = esc(row.plugin.as_str());
    out.push_str(plugin.as_str());
    out.push_str("</span> <code>");
    let permission = esc(row.permission.as_str());
    out.push_str(permission.as_str());
    out.push_str("</code> <span class=\"denial-when\">");
    let when = esc(row.when.as_str());
    out.push_str(when.as_str());
    out.push_str("</span></li>");
    assert(out@ =~= denial_row_html(*row));
    out
}

/// The section of refused permissions.
pub open spec fn denials_html(panel: IntegrityPanel) -> Seq<char> {
    section_opening("permission denials"@, None) + (if panel.denials@.len() == 0 {
        "<p class=\"empty\">no permission denials</p>"@
    } else {
        "<ul class=\"denial-list\">"@ + flat_map(panel.denials@, |x: DenialRow| denial_row_html(x)) + "</ul>"@
    }) + "</section>"@
}

fn denials_section(panel: &IntegrityPanel) -> (r: String)
    ensures
        r@ == denials_html(*panel),
{
    let mut out = section_head("permission denials", None);
    if panel.denials.len() == 0 {
        out.push_str("<p class=\"empty\">no permission denials</p>");
    } else {
        out.push_str("<ul class=\"denial-list\">");
        let ghost front = out@;
        let ghost item = |x: DenialRow| denial_row_html(x);
        let mut i: usize = 0;
        assert(front + flat_map(panel.denials@.subrange(0, 0), item) =~= front);
        while i < panel.denials.len()
            invariant
                i <= panel.denials@.len(),
                item == (|x: DenialRow| denial_row_html(x)),
                out@ == front + flat_map(panel.denials@.subrange(0, i as int), item),
            decreases panel.denials@.len() - i,
        {
            proof {
                lemma_flat_map_step(panel.denials@, i as int, item);
            }
            let li = denial_item(&panel.denials[i]);
            out.push_str(li.as_str());
            i = i + 1;
            assert(out@ =~= front + flat_map(panel.denials@.subrange(0, i as int), item));
        }
        assert(panel.denials@.subrange(0, panel.denials@.len() as int) =~= panel.denials@);
        out.push_str("</ul>");
    }
    out.push_str("</section>");
    assert(out@ =~= denials_html(*panel));
    out
}

/// The integrity panel as an HTML document. Every text from a plugin is escaped.
pub open spec fn panel_html(panel: IntegrityPanel) -> Seq<char> {
    "<!doctype html><html lang=\"en\" data-theme=\"dusk\"><head><meta charset=\"utf-8\" /><link rel=\"stylesheet\" href=\"tokens.css\" /><link rel=\"stylesheet\" href=\"base.css\" /><link rel=\"stylesheet\" href=\"components/badge.css\" /><link rel=\"stylesheet\" href=\"components/card.css\" /><link rel=\"stylesheet\" href=\"components/integrity-panel.css\" />"@ + "<style>body{background:var(--bg);color:var(--fg);padding:var(--space-4);font:14px/1.5 system-ui,sans-serif}.perm-list,.audit-list,.storage-list,.denial-list{list-style:none;padding:0;margin:0}.perm-row,.audit-row,.storage-row,.denial-row{padding:2px 0}.integrity-section{margin-bottom:var(--space-4)}.plugin-card{margin:var(--space-2) 0;padding:var(--space-3)}code{font-family:ui-monospace,monospace}.empty{opacity:.6} .br{opacity:.5}</style>"@ + "<title>[integrity] — mote</title></head><body><div class=\"integrity-panel\" role=\"main\"><header class=\"integrity-header\"><span class=\"lockup\"><span class=\"br\">[</span><span class=\"name\">integrity</span><span class=\"br\">]</span></span><p class=\"subhead\">active plugins · activity audit · storage · permission denials · press esc / ctrl+shift+i to close</p></header>"@ + plugins_html(panel) + audit_html(panel) + storage_html(panel) + denials_html(panel) + "</div></body></html>"@
}

/// The integrity panel as an HTML document. Every text from a plugin is escaped.
pub fn render_panel_html(panel: &IntegrityPanel) -> (r: String)
    ensures
        r@ == panel_html(*panel),
{
    let mut out = String::new();
    out.push_str("<!doctype html><html lang=\"en\" data-theme=\"dusk\"><head><meta charset=\"utf-8\" /><link rel=\"stylesheet\" href=\"tokens.css\" /><link rel=\"stylesheet\" href=\"base.css\" /><link rel=\"stylesheet\" href=\"components/badge.css\" /><link rel=\"stylesheet\" href=\"components/card.css\" /><link rel=\"stylesheet\" href=\"components/integrity-panel.css\" />");
    out.push_str("<style>body{background:var(--bg);color:var(--fg);padding:var(--space-4);font:14px/1.5 system-ui,sans-serif}.perm-list,.audit-list,.storage-list,.denial-list{list-style:none;padding:0;margin:0}.perm-row,.audit-row,.storage-row,.denial-row{padding:2px 0}.integrity-section{margin-bottom:var(--space-4)}.plugin-card{margin:var(--space-2) 0;padding:var(--space-3)}code{font-family:ui-monospace,monospace}.empty{opacity:.6} .br{opacity:.5}</style>");
    out.push_str("<title>[integrity] — mote</title></head><body><div class=\"integrity-panel\" role=\"main\"><header class=\"integrity-header\"><span class=\"lockup\"><span class=\"br\">[</span><span class=\"name\">integrity</span><span class=\"br\">]</span></span><p class=\"subhead\">active plugins · activity audit · storage · permission denials · press esc / ctrl+shift+i to close</p></header>");
    let plugins = plugins_section(panel);
    out.push_str(plugins.as_str());
    let audit = audit_section(panel);
    out.push_str(audit.as_str());
    let storage = storage_section(panel);
    out.push_str(storage.as_str());
    let denials = denials_section(panel);
    out.push_str(denials.as_str());
    out.push_str("</div></body></html>");
    assert(out@ =~= panel_html(*panel));
    out
}

} // verus!
