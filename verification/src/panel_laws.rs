//! What the integrity panel says of a plugin: in which words, in which order and
//! rounded how.

use crate::escape::html_text;
use crate::host::{MgrIntegrity, ResolvedPlugin};
use crate::panel::{
    audit_html, audit_row_html, capabilities_html, capability_html, card_html, card_opening,
    count_badge, denial_row_html, denials_html, last_used_html, panel_html, permission_html,
    plugins_html, section_opening, storage_html, storage_row_html, AuditRow, DenialRow,
    IntegrityPanel, IntegrityStatus, PermissionRow, PluginAction, PluginKind, PluginRow,
    RowLabels, SecretAccessRow, StorageRow,
};
use crate::request::Provenance;
use crate::rows::{
    acts_before, age_text, file_name, grain, half_even, integrity_of, is_card_of, is_kind,
    is_secret_row, last_call, last_component, nearest_float, offered, one_decimal, opt_age,
    shown_denials, shown_integrity, shows_permissions, size_text, stored, without_trailing,
    AuditEvent,
};
use crate::text::{
    contains_text, decimal, flat_map, lemma_contains_part, lemma_flat_map_push, opt_text, strings,
    text_lt,
};
use vstd::arithmetic::div_mod::lemma_fundamental_div_mod;
use vstd::prelude::*;

verus! {

/// An age is told in the largest unit of which there is a whole one, and the rest
/// is dropped; under five seconds it is just now.
pub proof fn ages_are_told_in_the_largest_unit(count: nat, rest: nat, secs: u64)
    ensures
        secs < 5 ==> age_text(secs) == "just now"@,
        5 <= secs < 60 ==> age_text(secs) == decimal(secs as nat) + "s ago"@,
        1 <= count < 60 && rest < 60 && secs == 60 * count + rest ==> age_text(secs) == decimal(
            count,
        ) + "m ago"@,
        1 <= count < 24 && rest < 3600 && secs == 3600 * count + rest ==> age_text(secs)
            == decimal(count) + "h ago"@,
        1 <= count && rest < 86_400 && secs == 86_400 * count + rest ==> age_text(secs) == decimal(
            count,
        ) + "d ago"@,
{
}

/// Rounding goes to the nearest whole number, and from the middle to the even one.
pub proof fn rounding_is_to_the_nearest(n: nat, d: nat)
    requires
        d > 0,
    ensures
        2 * (n - half_even(n, d) * d) <= d,
        2 * (half_even(n, d) * d - n) <= d,
        2 * (n - half_even(n, d) * d) == d || 2 * (half_even(n, d) * d - n) == d ==> half_even(
            n,
            d,
        ) % 2 == 0,
{
    lemma_fundamental_div_mod(n as int, d as int);
    let q = n / d;
    let r = n % d;
    assert(d * q == q * d) by (nonlinear_arith);
    assert((q + 1) * d == q * d + d) by (nonlinear_arith);
}

/// A number with one decimal place shows its tenths: the whole ones before the
/// point, and one digit behind it.
pub proof fn one_place_shows_the_nearest_tenths(n: nat, d: nat, t: nat)
    requires
        d > 0,
        2 * (10 * n - t * d) < d,
        2 * (t * d - 10 * n) < d,
    ensures
        one_decimal(n, d) == decimal(t / 10) + "."@ + decimal(t % 10),
{
    rounding_is_to_the_nearest(10 * n, d);
    let r = half_even(10 * n, d);
    assert(r == t) by (nonlinear_arith)
        requires
            d > 0,
            2 * (10 * n - t * d) < d,
            2 * (t * d - 10 * n) < d,
            2 * (10 * n - r * d) <= d,
            2 * (r * d - 10 * n) <= d,
    ;
}

/// A size is told in bytes up to a kilobyte, in kilobytes up to a megabyte and in
/// megabytes from there, with one decimal place but for bytes.
pub proof fn sizes_are_told_in_their_unit(bytes: u64, t: nat)
    ensures
        bytes < 1024 ==> size_text(bytes) == decimal(bytes as nat) + " B"@,
        1024 <= bytes < 1_048_576 && 2 * (10 * bytes - t * 1024) < 1024 && 2 * (t * 1024 - 10
            * bytes) < 1024 ==> size_text(bytes) == decimal(t / 10) + "."@ + decimal(t % 10)
            + " KB"@,
        1_048_576 <= bytes < 0x20_0000_0000_0000 && 2 * (10 * bytes - t * 1_048_576) < 1_048_576
            && 2 * (t * 1_048_576 - 10 * bytes) < 1_048_576 ==> size_text(bytes) == decimal(t / 10)
            + "."@ + decimal(t % 10) + " MB"@,
{
    if 1024 <= bytes < 1_048_576 && 2 * (10 * bytes - t * 1024) < 1024 && 2 * (t * 1024 - 10
        * bytes) < 1024 {
        one_place_shows_the_nearest_tenths(bytes as nat, 1024, t);
    }
    if 1_048_576 <= bytes < 0x20_0000_0000_0000 && 2 * (10 * bytes - t * 1_048_576) < 1_048_576
        && 2 * (t * 1_048_576 - 10 * bytes) < 1_048_576 {
        small_numbers_are_exact(bytes as nat);
        one_place_shows_the_nearest_tenths(bytes as nat, 1_048_576, t);
    }
}

/// Sizes of whole units have a zero behind the point.
pub proof fn whole_sizes_end_in_zero(count: nat)
    ensures
        1 <= count < 1024 ==> size_text((1024 * count) as u64) == decimal(count) + "."@ + decimal(0)
            + " KB"@,
        1 <= count < 0x1_0000_0000 ==> size_text((1_048_576 * count) as u64) == decimal(count)
            + "."@ + decimal(0) + " MB"@,
{
    if 1 <= count < 1024 {
        sizes_are_told_in_their_unit((1024 * count) as u64, 10 * count);
    }
    if 1 <= count < 0x1_0000_0000 {
        sizes_are_told_in_their_unit((1_048_576 * count) as u64, 10 * count);
    }
}

/// A number below the precision of floating-point numbers is one itself.
pub proof fn small_numbers_are_exact(n: nat)
    requires
        n < 0x20_0000_0000_0000,
    ensures
        nearest_float(n) == n,
{
    assert(grain(n) == 1);
    assert(half_even(n, 1) == n);
    assert(half_even(n, 1) * 1 == n);
}

/// A floating-point number of fifty-three bits is a multiple of its grain, which
/// keeps the quotient at fifty-three bits, and no further from what it stands for
/// than half a grain.
pub proof fn floats_are_the_nearest_multiples(n: nat)
    ensures
        grain(n) > 0,
        n >= 0x20_0000_0000_0000 ==> grain(n) * 0x10_0000_0000_0000 <= n < grain(n)
            * 0x20_0000_0000_0000,
        2 * (n - nearest_float(n)) <= grain(n),
        2 * (nearest_float(n) - n) <= grain(n),
    decreases n,
{
    lemma_grain(n);
    rounding_is_to_the_nearest(n, grain(n));
}

proof fn lemma_grain(n: nat)
    ensures
        grain(n) > 0,
        n >= 0x20_0000_0000_0000 ==> grain(n) * 0x10_0000_0000_0000 <= n < grain(n)
            * 0x20_0000_0000_0000,
    decreases n,
{
    if n >= 0x20_0000_0000_0000 {
        lemma_grain(n / 2);
    }
}

/// The name of a file is what stands behind the last slash; slashes at the end do
/// not matter, and neither does a directory that stands for itself.
pub proof fn file_names_stand_behind_the_last_slash(dir: Seq<char>, name: Seq<char>)
    requires
        name.len() > 0,
        forall|k: int| 0 <= k < name.len() ==> name[k] != '/',
        name != "."@,
        name != ".."@,
    ensures
        file_name(dir + seq!['/'] + name) == name,
        file_name(name) == name,
        file_name((dir + seq!['/'] + name).push('/')) == name,
        file_name((dir + seq!['/'] + name).push('/').push('.')) == name,
{
    reveal_strlit(".");
    let path = dir + seq!['/'] + name;
    let n = path.len() as int;
    assert(path[n - 1] == name[name.len() - 1]);
    assert(path.last() != '/');
    if path.last() == '.' && path[n - 2] == '/' {
        if name.len() > 1 {
            assert(path[n - 2] == name[name.len() - 2]);
        } else {
            assert(name =~= "."@);
        }
    }
    assert(without_trailing(path) == path);
    lemma_last_component(dir + seq!['/'], name);
    let slash = path.push('/');
    assert(slash.drop_last() =~= path);
    assert(without_trailing(slash) == path);
    let dot = slash.push('.');
    assert(dot.drop_last() =~= slash);
    assert(dot[dot.len() - 2] == '/');
    assert(without_trailing(dot) == path);
    lemma_last_component(Seq::empty(), name);
    assert(Seq::<char>::empty() + name =~= name);
    if name.len() > 1 && name.last() == '.' {
        assert(name[name.len() - 2] != '/');
    }
    assert(without_trailing(name) == name);
}

proof fn lemma_last_component(head: Seq<char>, name: Seq<char>)
    requires
        head.len() == 0 || head.last() == '/',
        forall|k: int| 0 <= k < name.len() ==> name[k] != '/',
    ensures
        last_component(head + name) == name,
    decreases name.len(),
{
    let t = head + name;
    if name.len() == 0 {
        assert(t =~= head);
        assert(name =~= Seq::<char>::empty());
    } else {
        lemma_last_component(head, name.drop_last());
        assert(t.drop_last() =~= head + name.drop_last());
        assert(t.last() == name.last());
        assert(name =~= name.drop_last().push(name.last()));
    }
}

/// A path that ends in a directory of no name names no file.
pub proof fn nameless_paths_name_no_file(dir: Seq<char>)
    ensures
        file_name(Seq::empty()).len() == 0,
        file_name(dir + seq!['/', '.', '.']).len() == 0,
{
    let path = dir + seq!['/', '.', '.'];
    let up = seq!['.', '.'];
    reveal_strlit("..");
    assert(".."@ =~= up);
    let n = path.len() as int;
    assert(path[n - 1] == '.' && path[n - 2] == '.');
    assert(without_trailing(path) == path);
    assert(path =~= (dir + seq!['/']) + up);
    lemma_last_component(dir + seq!['/'], up);
}

/// The kind of a card follows the provenance of the plugin, with its directory;
/// that of a checkout has the last part of the directory as its commit.
pub proof fn kinds_follow_the_provenance(kind: PluginKind, dir: Seq<char>)
    ensures
        is_kind(kind, Provenance::Bundled, dir) ==> kind is Bundled,
        is_kind(kind, Provenance::Path, dir) ==> kind is PathLocal && kind->PathLocal_path@ == dir,
        is_kind(kind, Provenance::DeclaredGit, dir) ==> kind is DeclaredGit && kind->source@ == dir
            && kind->commit@ == file_name(dir),
        is_kind(kind, Provenance::ImplicitLocal, dir) ==> kind is ImplicitLocal
            && kind->ImplicitLocal_path@ == dir,
        is_kind(kind, Provenance::DevMode, dir) ==> kind is DevMode && kind->DevMode_path@ == dir,
{
}

/// The files of a plugin under development are shown as that; of any other as the
/// manager found them, a local one as verified.
pub proof fn integrity_is_shown_as_found(provenance: Provenance, status: MgrIntegrity)
    ensures
        integrity_of(Provenance::DevMode, status) == IntegrityStatus::DevMode,
        provenance != Provenance::DevMode ==> integrity_of(provenance, status) == shown_integrity(
            status,
        ),
        shown_integrity(MgrIntegrity::Verified) == IntegrityStatus::Verified,
        shown_integrity(MgrIntegrity::PathLocal) == IntegrityStatus::Verified,
        shown_integrity(MgrIntegrity::Mismatch) == IntegrityStatus::Mismatch,
        shown_integrity(MgrIntegrity::Bundled) == IntegrityStatus::Bundled,
        shown_integrity(MgrIntegrity::Unknown) == IntegrityStatus::Unknown,
{
}

/// What a card offers depends on the kind of the plugin alone: a checkout can be
/// updated, rolled back and adjusted, a local one reloaded and adjusted, a
/// bundled one only updated, and each of them revoked.
pub proof fn offers_follow_the_kind(kind: PluginKind)
    ensures
        kind is DeclaredGit ==> offered(kind) == seq![
            PluginAction::Update,
            PluginAction::Rollback,
            PluginAction::Revoke,
            PluginAction::AdjustScope,
        ],
        kind is PathLocal || kind is DevMode ==> offered(kind) == seq![
            PluginAction::Reload,
            PluginAction::Revoke,
            PluginAction::AdjustScope,
        ],
        kind is Bundled ==> offered(kind) == seq![PluginAction::Update, PluginAction::Revoke],
        kind is ImplicitLocal ==> offered(kind) == seq![
            PluginAction::Revoke,
            PluginAction::AdjustScope,
        ],
{
}

/// A card is about its plugin: name, version, what it fulfils and consumes, and
/// its labels are the plugin's own.
pub proof fn cards_are_about_their_plugin(
    row: PluginRow,
    plugin: ResolvedPlugin,
    labels: RowLabels,
)
    requires
        is_card_of(row, plugin, labels),
    ensures
        row.name@ == plugin.manifest.name@,
        row.version@ == plugin.manifest.version@,
        strings(row.fulfills@) == strings(plugin.manifest.capabilities@),
        strings(row.consumes@) == strings(plugin.manifest.consumes@),
        is_kind(row.kind, plugin.provenance, plugin.dir@),
        row.labels == labels,
{
}

/// Permissions are shown one by one, in order, as they were requested, and none as
/// narrowed or denied.
pub proof fn permissions_are_listed_in_order(
    rows: Seq<PermissionRow>,
    names: Seq<Seq<char>>,
    i: int,
)
    requires
        shows_permissions(rows, names),
    ensures
        rows.len() == names.len(),
        0 <= i < rows.len() ==> rows[i].requested@ == names[i] && rows[i].effective@ == names[i]
            && !rows[i].narrowed && !rows[i].denied,
{
}

/// The last call of an operation is the latest in the log; later calls of others
/// do not matter.
pub proof fn the_latest_call_counts(events: Seq<AuditEvent>, e: AuditEvent, op: Seq<char>)
    ensures
        e.operation@ == op ==> last_call(events.push(e), op) == Some(e.age),
        e.operation@ != op ==> last_call(events.push(e), op) == last_call(events, op),
        last_call(Seq::empty(), op) is None,
        opt_age(None) is None,
        opt_age(Some(e.age)) == Some(age_text(e.age)),
{
    assert(events.push(e).drop_last() =~= events);
}

/// A secret is shown with its name, where it is kept and when it was last read; a
/// secret that is kept nowhere is in an unknown place, and one that was not read
/// has no time.
pub proof fn secrets_are_shown_with_their_last_read(
    row: SecretAccessRow,
    name: Seq<char>,
    place: Seq<char>,
    events: Seq<AuditEvent>,
    e: AuditEvent,
)
    ensures
        is_secret_row(row, name, None, events) ==> row.name@ == name && row.backend@ == "unknown"@,
        is_secret_row(row, name, Some(place), events) ==> row.name@ == name && row.backend@
            == place,
        is_secret_row(row, name, Some(place), events.push(e)) && e.operation@ == "secret:read:"@
            + name ==> opt_text(row.last_read) == Some(age_text(e.age)),
        is_secret_row(row, name, Some(place), Seq::empty()) ==> opt_text(row.last_read) is None,
{
    the_latest_call_counts(events, e, "secret:read:"@ + name);
}

/// Who acted more often comes first, and of two that acted as often the one whose
/// name comes first.
pub proof fn busier_actors_come_first(a: Seq<char>, b: Seq<char>, m: u64, n: u64)
    ensures
        m > n ==> acts_before((a, m), (b, n)),
        m < n ==> !acts_before((a, m), (b, n)),
        m == n ==> (acts_before((a, m), (b, n)) <==> text_lt(a, b)),
{
}

/// A plugin that stores anything is listed with its size, behind those before it;
/// one that stores nothing is not.
pub proof fn stores_are_listed_unless_empty(sizes: Seq<(String, u64)>, plugin: String, bytes: u64)
    ensures
        bytes > 0 ==> stored(sizes.push((plugin, bytes))) == stored(sizes).push((plugin@, bytes)),
        bytes == 0 ==> stored(sizes.push((plugin, bytes))) == stored(sizes),
        stored(Seq::empty()).len() == 0,
{
    assert(sizes.push((plugin, bytes)).drop_last() =~= sizes);
}

/// At most twenty refusals are shown, and all of them where there are fewer.
pub proof fn twenty_refusals_are_shown(count: nat)
    ensures
        count <= 20 ==> shown_denials(count) == count,
        count > 20 ==> shown_denials(count) == 20,
{
}

/// A text that is made of three others holds the one in the middle.
proof fn lemma_holds(o: Seq<char>, a: Seq<char>, b: Seq<char>, c: Seq<char>)
    requires
        o =~= a + b + c,
    ensures
        contains_text(o, b),
{
    lemma_contains_part(a, b, c);
}

/// A row of the activity section shows who acted, what was decided and how often,
/// in that order and escaped.
pub proof fn activity_rows_show_actor_decision_and_count(row: AuditRow)
    ensures
        contains_text(
            audit_row_html(row),
            html_text(row.actor@) + "</span> <span class=\"badge\">"@ + html_text(row.decision@)
                + "</span> <span class=\"audit-count\">"@ + decimal(row.count as nat)
                + " calls</span></li>"@,
        ),
{
    lemma_holds(
        audit_row_html(row),
        "<li class=\"audit-row\"><span class=\"audit-actor\">"@,
        html_text(row.actor@) + "</span> <span class=\"badge\">"@ + html_text(row.decision@)
            + "</span> <span class=\"audit-count\">"@ + decimal(row.count as nat)
            + " calls</span></li>"@,
        Seq::empty(),
    );
}

/// A row of the storage section shows the plugin and its size, and one of the
/// refusals the plugin, the permission and the time, all of it escaped.
pub proof fn storage_and_refusal_rows_show_their_fields(s: StorageRow, d: DenialRow)
    ensures
        contains_text(
            storage_row_html(s),
            html_text(s.plugin@) + "</span> <span>"@ + html_text(s.size_human@)
                + "</span></li>"@,
        ),
        contains_text(
            denial_row_html(d),
            html_text(d.plugin@) + "</span> <code>"@ + html_text(d.permission@)
                + "</code> <span class=\"denial-when\">"@ + html_text(d.when@)
                + "</span></li>"@,
        ),
{
    lemma_holds(
        storage_row_html(s),
        "<li class=\"storage-row\"><span>"@,
        html_text(s.plugin@) + "</span> <span>"@ + html_text(s.size_human@) + "</span></li>"@,
        Seq::empty(),
    );
    lemma_holds(
        denial_row_html(d),
        "<li class=\"denial-row\"><span>"@,
        html_text(d.plugin@) + "</span> <code>"@ + html_text(d.permission@)
            + "</code> <span class=\"denial-when\">"@ + html_text(d.when@) + "</span></li>"@,
        Seq::empty(),
    );
}

/// A permission shows what was requested, and what came of it only where it was
/// narrowed.
pub proof fn narrowed_permissions_show_both_sides(p: PermissionRow)
    ensures
        p.narrowed ==> contains_text(
            permission_html(p),
            html_text(p.requested@) + "</code>"@ + (" → <code>"@ + html_text(p.effective@)
                + "</code>"@) + "</li>"@,
        ),
        !p.narrowed ==> contains_text(
            permission_html(p),
            html_text(p.requested@) + "</code>"@ + "</li>"@,
        ),
{
    let head = "<li class=\"perm-row\"><code>"@;
    if p.narrowed {
        lemma_holds(
            permission_html(p),
            head,
            html_text(p.requested@) + "</code>"@ + (" → <code>"@ + html_text(p.effective@)
                + "</code>"@) + "</li>"@,
            Seq::empty(),
        );
    } else {
        lemma_holds(
            permission_html(p),
            head,
            html_text(p.requested@) + "</code>"@ + "</li>"@,
            Seq::empty(),
        );
    }
}

/// The capabilities of a card stand one behind the other, each escaped and as
/// code; without any, and without a last use, nothing is said.
pub proof fn what_is_not_there_is_not_shown(used: Seq<char>, c: Seq<char>)
    ensures
        capabilities_html(Seq::empty()).len() == 0,
        last_used_html(None).len() == 0,
        contains_text(last_used_html(Some(used)), html_text(used) + "</div>"@),
        capability_html(c) == "<code>"@ + html_text(c) + "</code>"@,
        contains_text(capabilities_html(seq![c]), capability_html(c) + "</div>"@),
        count_badge(None).len() == 0,
{
    lemma_holds(
        last_used_html(Some(used)),
        "<div class=\"plugin-lastused\"><span class=\"prov-label\">last used</span> "@,
        html_text(used) + "</div>"@,
        Seq::empty(),
    );
    let all = seq![c].map_values(|x: Seq<char>| capability_html(x));
    assert(all =~= seq![capability_html(c)]);
    lemma_holds(
        capabilities_html(seq![c]),
        "<div class=\"plugin-caps\"><span class=\"prov-label\">fulfills</span> "@,
        capability_html(c) + "</div>"@,
        Seq::empty(),
    );
}

/// A section opens with its label and, where it counts, the number of its entries.
pub proof fn sections_open_with_their_label(label: Seq<char>, n: usize)
    ensures
        contains_text(
            section_opening(label, Some(n)),
            label + "<span class=\"br\">]</span></span>"@ + count_badge(Some(n)) + "</div>"@,
        ),
        contains_text(
            section_opening(label, None),
            label + "<span class=\"br\">]</span></span>"@ + "</div>"@,
        ),
        contains_text(count_badge(Some(n)), decimal(n as nat) + "</span>"@),
{
    let head = "<section class=\"integrity-section\"><div class=\"integrity-section-head\"><span class=\"section-label\"><span class=\"br\">[</span>"@;
    lemma_holds(
        section_opening(label, Some(n)),
        head,
        label + "<span class=\"br\">]</span></span>"@ + count_badge(Some(n)) + "</div>"@,
        Seq::empty(),
    );
    lemma_holds(
        section_opening(label, None),
        head,
        label + "<span class=\"br\">]</span></span>"@ + "</div>"@,
        Seq::empty(),
    );
    lemma_holds(
        count_badge(Some(n)),
        "<span class=\"section-count\">"@,
        decimal(n as nat) + "</span>"@,
        Seq::empty(),
    );
}

/// A section without entries says so, and one with entries lists each of them.
pub proof fn empty_sections_say_so(panel: IntegrityPanel)
    ensures
        panel.plugins@.len() == 0 ==> contains_text(
            plugins_html(panel),
            "<p class=\"empty\">no plugins loaded</p>"@,
        ),
        panel.network_audit@.len() == 0 ==> contains_text(
            audit_html(panel),
            "<p class=\"empty\">no audited activity yet</p>"@,
        ),
        panel.storage@.len() == 0 ==> contains_text(
            storage_html(panel),
            "<p class=\"empty\">no plugin storage in use</p>"@,
        ),
        panel.denials@.len() == 0 ==> contains_text(
            denials_html(panel),
            "<p class=\"empty\">no permission denials</p>"@,
        ),
{
    if panel.plugins@.len() == 0 {
        lemma_holds(
            plugins_html(panel),
            section_opening("active plugins"@, Some(0usize)),
            "<p class=\"empty\">no plugins loaded</p>"@,
            flat_map(panel.plugins@, |p: PluginRow| card_html(p)) + "</section>"@,
        );
    }
    if panel.network_audit@.len() == 0 {
        lemma_holds(
            audit_html(panel),
            section_opening("activity audit"@, None),
            "<p class=\"empty\">no audited activity yet</p>"@,
            "</section>"@,
        );
    }
    if panel.storage@.len() == 0 {
        lemma_holds(
            storage_html(panel),
            section_opening("storage"@, None),
            "<p class=\"empty\">no plugin storage in use</p>"@,
            "</section>"@,
        );
    }
    if panel.denials@.len() == 0 {
        lemma_holds(
            denials_html(panel),
            section_opening("permission denials"@, None),
            "<p class=\"empty\">no permission denials</p>"@,
            "</section>"@,
        );
    }
}

/// A section with entries lists all of them, in order, under its own label.
pub proof fn sections_list_their_entries(panel: IntegrityPanel)
    ensures
        panel.plugins@.len() > 0 ==> plugins_html(panel) == section_opening(
            "active plugins"@,
            Some(panel.plugins@.len() as usize),
        ) + flat_map(panel.plugins@, |p: PluginRow| card_html(p)) + "</section>"@,
        panel.network_audit@.len() > 0 ==> audit_html(panel) == section_opening(
            "activity audit"@,
            None,
        ) + ("<ul class=\"audit-list\">"@ + flat_map(
            panel.network_audit@,
            |x: AuditRow| audit_row_html(x),
        ) + "</ul>"@) + "</section>"@,
        panel.storage@.len() > 0 ==> storage_html(panel) == section_opening("storage"@, None) + (
        "<ul class=\"storage-list\">"@ + flat_map(
            panel.storage@,
            |x: StorageRow| storage_row_html(x),
        ) + "</ul>"@) + "</section>"@,
        panel.denials@.len() > 0 ==> denials_html(panel) == section_opening(
            "permission denials"@,
            None,
        ) + ("<ul class=\"denial-list\">"@ + flat_map(
            panel.denials@,
            |x: DenialRow| denial_row_html(x),
        ) + "</ul>"@) + "</section>"@,
{
    if panel.plugins@.len() > 0 {
        assert(plugins_html(panel) =~= section_opening(
            "active plugins"@,
            Some(panel.plugins@.len() as usize),
        ) + flat_map(panel.plugins@, |p: PluginRow| card_html(p)) + "</section>"@);
    }
}

/// The panel shows its sections in this order: plugins, activity, storage and
/// refusals.
pub proof fn the_panel_keeps_its_order(panel: IntegrityPanel)
    ensures
        contains_text(
            panel_html(panel),
            plugins_html(panel) + audit_html(panel) + storage_html(panel) + denials_html(panel)
                + "</div></body></html>"@,
        ),
{
    let body = plugins_html(panel) + audit_html(panel) + storage_html(panel) + denials_html(panel)
        + "</div></body></html>"@;
    let head = panel_html(panel).subrange(0, panel_html(panel).len() - body.len());
    lemma_holds(panel_html(panel), head, body, Seq::empty());
}

/// A card shows its plugin's parts in this order: the head, what it fulfils, its
/// permissions one by one, and its last use.
pub proof fn cards_keep_their_order(p: PluginRow)
    ensures
        card_html(p) == card_opening(p) + capabilities_html(strings(p.fulfills@))
            + "<ul class=\"perm-list\">"@ + flat_map(
            p.permissions@,
            |x: PermissionRow| permission_html(x),
        ) + "</ul>"@ + last_used_html(opt_text(p.last_used)) + "</article>"@,
        contains_text(
            card_opening(p),
            html_text(p.labels.glyph@) + "</span> "@ + html_text(p.name@)
                + "</div><span class=\"plugin-card-version\">v"@ + html_text(p.version@),
        ),
        (html_text(p.labels.source@) + "</span></div>"@).is_suffix_of(card_opening(p)),
{
    let glyph = "<article class=\"plugin-card\"><header class=\"plugin-card-head\"><div class=\"plugin-card-name\"><span class=\"prov-glyph\">"@;
    let named = html_text(p.labels.glyph@) + "</span> "@ + html_text(p.name@)
        + "</div><span class=\"plugin-card-version\">v"@ + html_text(p.version@);
    let rest = "</span><div class=\"plugin-card-badges\"><span class=\"badge "@ + html_text(
        p.labels.badge@,
    ) + "\"><span class=\"dot\"></span>"@ + html_text(p.labels.status@)
        + "</span></div></header><div class=\"plugin-provenance\"><span class=\"prov-label\">source</span> <span class=\"prov-value\">"@
        + html_text(p.labels.source@) + "</span></div>"@;
    lemma_holds(card_opening(p), glyph, named, rest);
    let end = html_text(p.labels.source@) + "</span></div>"@;
    let o = card_opening(p);
    assert(o.subrange(o.len() - end.len(), o.len() as int) =~= end);
}

/// One more entry of a list comes behind the others.
pub proof fn entries_come_one_behind_the_other<A>(s: Seq<A>, x: A, f: spec_fn(A) -> Seq<char>)
    ensures
        flat_map(s.push(x), f) == flat_map(s, f) + f(x),
        flat_map(Seq::<A>::empty(), f).len() == 0,
{
    lemma_flat_map_push(s, x, f);
}

} // verus!
