//! What the integrity panel shows of a plugin, made from what is known of it.

use crate::host::{secret_names, secrets_of, MgrIntegrity, ResolvedPlugin};
use crate::panel::{
    AuditRow, DenialRow, IntegrityPanel, IntegrityStatus, PermissionRow, PluginAction, PluginKind,
    PluginRow, RowLabels, SecretAccessRow, StorageRow,
};
use crate::request::{Provenance, RequestedPermission};
use crate::text::{
    chars_of, clone_strings, decimal, decimal_text, lemma_text_lt_irreflexive,
    lemma_text_lt_total, lemma_text_lt_transitive, opt_text, string_of, strings, text_before,
    text_eq, text_lt,
};
use vstd::prelude::*;

verus! {

/// How long ago something was.
pub open spec fn age_text(secs: u64) -> Seq<char> {
    if secs < 5 {
        "just now"@
    } else if secs < 60 {
        decimal(secs as nat) + "s ago"@
    } else if secs < 3600 {
        decimal(secs as nat / 60) + "m ago"@
    } else if secs < 86_400 {
        decimal(secs as nat / 3600) + "h ago"@
    } else {
        decimal(secs as nat / 86_400) + "d ago"@
    }
}

/// How long ago something was, in the largest unit that fits.
pub fn relative_time(secs: u64) -> (r: String)
    ensures
        r@ == age_text(secs),
{
    if secs < 5 {
        return "just now".to_owned();
    }
    let (count, unit): (u64, &'static str) = if secs < 60 {
        (secs, "s ago")
    } else if secs < 3600 {
        (secs / 60, "m ago")
    } else if secs < 86_400 {
        (secs / 3600, "h ago")
    } else {
        (secs / 86_400, "d ago")
    };
    let mut out = decimal_text(count);
    out.push_str(unit);
    out
}

/// `n / d`, rounded to the nearest integer; a tie goes to the even one.
pub open spec fn half_even(n: nat, d: nat) -> nat {
    let q = n / d;
    let r = n % d;
    if 2 * r < d || (2 * r == d && q % 2 == 0) {
        q
    } else {
        q + 1
    }
}

fn round_half_even(n: u128, d: u128) -> (r: u128)
    requires
        0 < d <= 0x1_0000_0000_0000_0000,
        n <= 0x100_0000_0000_0000_0000,
    ensures
        r == half_even(n as nat, d as nat),
{
    let q: u128 = n / d;
    let rest: u128 = n % d;
    assert(q <= n) by (nonlinear_arith)
        requires
            q == n / d,
            d > 0,
    ;
    if 2 * rest < d || (2 * rest == d && q % 2 == 0) {
        q
    } else {
        q + 1
    }
}

/// The distance between neighbouring floating-point numbers of 53 bits at `n`.
pub open spec fn grain(n: nat) -> nat
    decreases n,
{
    if n < 0x20_0000_0000_0000 {
        1
    } else {
        2 * grain(n / 2)
    }
}

/// The floating-point number of 53 bits that is nearest to `n`.
pub open spec fn nearest_float(n: nat) -> nat {
    half_even(n, grain(n)) * grain(n)
}

/// `n / d` with one decimal place.
pub open spec fn one_decimal(n: nat, d: nat) -> Seq<char> {
    let tenths = half_even(10 * n, d);
    decimal(tenths / 10) + "."@ + decimal(tenths % 10)
}

/// A size in bytes, kilobytes or megabytes.
pub open spec fn size_text(bytes: u64) -> Seq<char> {
    if bytes < 1024 {
        decimal(bytes as nat) + " B"@
    } else if bytes < 1_048_576 {
        one_decimal(bytes as nat, 1024) + " KB"@
    } else {
        one_decimal(nearest_float(bytes as nat), 1_048_576) + " MB"@
    }
}

fn grain_of(n: u64) -> (r: u128)
    ensures
        r == grain(n as nat),
        r == 1 || 1 < r && r * 0x10_0000_0000_0000 <= n,
    decreases n,
{
    if n < 0x20_0000_0000_0000 {
        1
    } else {
        let half = grain_of(n / 2);
        2 * half
    }
}

fn decimal_tenths(n: u128, d: u128) -> (r: String)
    requires
        0 < d <= 0x1_0000_0000_0000_0000,
        n <= 0x2_0000_0000_0000_0000,
        d >= 1024,
    ensures
        r@ == one_decimal(n as nat, d as nat),
{
    let tenths: u128 = round_half_even(10 * n, d);
    assert(tenths <= 10 * n / 1024 + 1) by {
        assert((10 * n) / (d as int) <= (10 * n) / 1024) by (nonlinear_arith)
            requires
                d >= 1024,
                n >= 0,
        ;
    }
    let mut out = decimal_text((tenths / 10) as u64);
    out.push_str(".");
    let digit = decimal_text((tenths % 10) as u64);
    out.push_str(digit.as_str());
    out
}

/// A size in bytes, or with one decimal place in kilobytes or megabytes.
pub fn human_bytes(bytes: u64) -> (r: String)
    ensures
        r@ == size_text(bytes),
{
    if bytes < 1024 {
        let mut out = decimal_text(bytes);
        out.push_str(" B");
        out
    } else if bytes < 1_048_576 {
        let mut out = decimal_tenths(bytes as u128, 1024);
        out.push_str(" KB");
        out
    } else {
        let g: u128 = grain_of(bytes);
        let m: u128 = round_half_even(bytes as u128, g);
        assert(m * g <= bytes + g) by (nonlinear_arith)
            requires
                g > 0,
                m <= (bytes as int) / (g as int) + 1,
        ;
        let mut out = decimal_tenths(m * g, 1_048_576);
        out.push_str(" MB");
        out
    }
}

/// `path` without what does not name a file at its end: slashes, and
/// components that stand for the directory itself.
pub open spec fn without_trailing(path: Seq<char>) -> Seq<char>
    decreases path.len(),
{
    if path.len() > 0 && path.last() == '/' {
        without_trailing(path.drop_last())
    } else if path.len() > 1 && path.last() == '.' && path[path.len() - 2] == '/' {
        without_trailing(path.drop_last())
    } else {
        path
    }
}

/// What follows the last slash of `path`.
pub open spec fn last_component(path: Seq<char>) -> Seq<char>
    decreases path.len(),
{
    if path.len() == 0 || path.last() == '/' {
        Seq::empty()
    } else {
        last_component(path.drop_last()).push(path.last())
    }
}

/// The name of the file or directory that `path` names; empty where it names
/// none.
pub open spec fn file_name(path: Seq<char>) -> Seq<char> {
    let name = last_component(without_trailing(path));
    if name == "."@ || name == ".."@ {
        Seq::empty()
    } else {
        name
    }
}

/// The name of the file or directory that `path` names.
pub fn file_name_of(path: &str) -> (r: String)
    ensures
        r@ == file_name(path@),
{
    let v = chars_of(path);
    let mut end: usize = v.len();
    assert(v@.subrange(0, end as int) =~= v@);
    while end > 0 && (v[end - 1] == '/' || (end > 1 && v[end - 1] == '.' && v[end - 2] == '/'))
        invariant
            end <= v@.len(),
            without_trailing(v@) == without_trailing(v@.subrange(0, end as int)),
        decreases end,
    {
        assert(v@.subrange(0, end as int).drop_last() =~= v@.subrange(0, end - 1));
        end = end - 1;
    }
    let ghost stem = v@.subrange(0, end as int);
    let mut start: usize = end;
    assert(stem.subrange(0, end as int) =~= stem);
    assert(stem.subrange(end as int, end as int) =~= Seq::<char>::empty());
    assert(last_component(stem) =~= last_component(stem) + Seq::<char>::empty());
    while start > 0 && v[start - 1] != '/'
        invariant
            start <= end <= v@.len(),
            stem == v@.subrange(0, end as int),
            last_component(stem) == last_component(stem.subrange(0, start as int)) + stem.subrange(
                start as int,
                end as int,
            ),
        decreases start,
    {
        let ghost head = stem.subrange(0, start as int);
        assert(head.drop_last() =~= stem.subrange(0, start - 1));
        assert(last_component(head) + stem.subrange(start as int, end as int) =~= last_component(
            stem.subrange(0, start - 1),
        ) + stem.subrange(start - 1, end as int));
        start = start - 1;
    }
    assert(last_component(stem.subrange(0, start as int)) =~= Seq::<char>::empty());
    let name = string_of(v.as_slice(), start, end);
    assert(name@ =~= last_component(stem));
    if text_eq(name.as_str(), ".") || text_eq(name.as_str(), "..") {
        String::new()
    } else {
        name
    }
}

/// Whether `kind` is the kind of a plugin of this provenance in the directory
/// `dir`. The last component of a cached checkout is its commit.
pub open spec fn is_kind(kind: PluginKind, provenance: Provenance, dir: Seq<char>) -> bool {
    match provenance {
        Provenance::Bundled => kind is Bundled,
        Provenance::Path => kind matches PluginKind::PathLocal { path } && path@ == dir,
        Provenance::DeclaredGit => kind matches PluginKind::DeclaredGit { source, commit }
            && source@ == dir && commit@ == file_name(dir),
        Provenance::ImplicitLocal => kind matches PluginKind::ImplicitLocal { path } && path@
            == dir,
        Provenance::DevMode => kind matches PluginKind::DevMode { path } && path@ == dir,
    }
}

/// The kind of a plugin of this provenance in the directory `dir`.
pub fn provenance_to_kind(provenance: Provenance, dir: &str) -> (r: PluginKind)
    ensures
        is_kind(r, provenance, dir@),
{
    match provenance {
        Provenance::Bundled => PluginKind::Bundled,
        Provenance::Path => PluginKind::PathLocal { path: dir.to_owned() },
        Provenance::DeclaredGit => PluginKind::DeclaredGit {
            source: dir.to_owned(),
            commit: file_name_of(dir),
        },
        Provenance::ImplicitLocal => PluginKind::ImplicitLocal { path: dir.to_owned() },
        Provenance::DevMode => PluginKind::DevMode { path: dir.to_owned() },
    }
}

/// How the panel shows what the plugin manager says of a plugin's files.
pub open spec fn shown_integrity(status: MgrIntegrity) -> IntegrityStatus {
    match status {
        MgrIntegrity::Verified | MgrIntegrity::PathLocal => IntegrityStatus::Verified,
        MgrIntegrity::Mismatch => IntegrityStatus::Mismatch,
        MgrIntegrity::Bundled => IntegrityStatus::Bundled,
        MgrIntegrity::Unknown => IntegrityStatus::Unknown,
    }
}

/// How the panel shows what the plugin manager says of a plugin's files.
pub fn mgr_integrity_to_ui(status: &MgrIntegrity) -> (r: IntegrityStatus)
    ensures
        r == shown_integrity(*status),
{
    match status {
        MgrIntegrity::Verified | MgrIntegrity::PathLocal => IntegrityStatus::Verified,
        MgrIntegrity::Mismatch => IntegrityStatus::Mismatch,
        MgrIntegrity::Bundled => IntegrityStatus::Bundled,
        MgrIntegrity::Unknown => IntegrityStatus::Unknown,
    }
}

/// How the panel shows the state of a plugin's files: a plugin under
/// development is that, whatever its hash.
pub open spec fn integrity_of(provenance: Provenance, status: MgrIntegrity) -> IntegrityStatus {
    if provenance == Provenance::DevMode {
        IntegrityStatus::DevMode
    } else {
        shown_integrity(status)
    }
}

/// How the panel shows the state of a plugin's files.
pub fn ui_integrity(provenance: Provenance, status: &MgrIntegrity) -> (r: IntegrityStatus)
    ensures
        r == integrity_of(provenance, *status),
{
    match provenance {
        Provenance::DevMode => IntegrityStatus::DevMode,
        _ => mgr_integrity_to_ui(status),
    }
}

/// What a card offers for a plugin of this kind.
pub open spec fn offered(kind: PluginKind) -> Seq<PluginAction> {
    match kind {
        PluginKind::DeclaredGit { source: _, commit: _ } => seq![
            PluginAction::Update,
            PluginAction::Rollback,
            PluginAction::Revoke,
            PluginAction::AdjustScope,
        ],
        PluginKind::PathLocal { path: _ } | PluginKind::DevMode { path: _ } => seq![
            PluginAction::Reload,
            PluginAction::Revoke,
            PluginAction::AdjustScope,
        ],
        PluginKind::Bundled => seq![PluginAction::Update, PluginAction::Revoke],
        PluginKind::ImplicitLocal { path: _ } => seq![
            PluginAction::Revoke,
            PluginAction::AdjustScope,
        ],
    }
}

/// What a card offers for a plugin of this kind.
pub fn actions_for_kind(kind: &PluginKind) -> (r: Vec<PluginAction>)
    ensures
        r@ == offered(*kind),
{
    let mut out: Vec<PluginAction> = Vec::new();
    match kind {
        PluginKind::DeclaredGit { source: _, commit: _ } => {
            out.push(PluginAction::Update);
            out.push(PluginAction::Rollback);
            out.push(PluginAction::Revoke);
            out.push(PluginAction::AdjustScope);
        },
        PluginKind::PathLocal { path: _ } | PluginKind::DevMode { path: _ } => {
            out.push(PluginAction::Reload);
            out.push(PluginAction::Revoke);
            out.push(PluginAction::AdjustScope);
        },
        PluginKind::Bundled => {
            out.push(PluginAction::Update);
            out.push(PluginAction::Revoke);
        },
        PluginKind::ImplicitLocal { path: _ } => {
            out.push(PluginAction::Revoke);
            out.push(PluginAction::AdjustScope);
        },
    }
    assert(out@ =~= offered(*kind));
    out
}

/// Every card lets its plugin be revoked, and only cached plugins are updated
/// or rolled back.
pub proof fn every_plugin_can_be_revoked(kind: PluginKind)
    ensures
        offered(kind).contains(PluginAction::Revoke),
        offered(kind).contains(PluginAction::Rollback) ==> kind is DeclaredGit,
        offered(kind).contains(PluginAction::Update) ==> kind is DeclaredGit || kind is Bundled,
{
    let s = offered(kind);
    let at: int = if kind is DeclaredGit {
        2
    } else if kind is ImplicitLocal {
        0
    } else {
        1
    };
    assert(s[at] == PluginAction::Revoke);
}

/// Whether the rows show these permissions, each as requested.
pub open spec fn shows_permissions(rows: Seq<PermissionRow>, names: Seq<Seq<char>>) -> bool {
    &&& rows.len() == names.len()
    &&& forall|i: int|
        0 <= i < rows.len() ==> (#[trigger] rows[i]).requested@ == names[i] && rows[i].effective@
            == names[i] && !rows[i].narrowed && !rows[i].denied
}

fn permission_rows(names: &Vec<String>) -> (r: Vec<PermissionRow>)
    ensures
        shows_permissions(r@, strings(names@)),
{
    let mut out: Vec<PermissionRow> = Vec::new();
    let mut i: usize = 0;
    while i < names.len()
        invariant
            i <= names@.len(),
            out@.len() == i,
            forall|k: int|
                0 <= k < i ==> (#[trigger] out@[k]).requested@ == names@[k]@ && out@[k].effective@
                    == names@[k]@ && !out@[k].narrowed && !out@[k].denied,
        decreases names@.len() - i,
    {
        out.push(
            PermissionRow {
                requested: names[i].clone(),
                effective: names[i].clone(),
                narrowed: false,
                denied: false,
            },
        );
        i = i + 1;
    }
    out
}

/// The permissions of a manifest, as they are written there.
pub open spec fn raw_permissions(v: Seq<RequestedPermission>) -> Seq<Seq<char>> {
    v.map_values(|p: RequestedPermission| p.raw@)
}

fn raw_names(v: &Vec<RequestedPermission>) -> (r: Vec<String>)
    ensures
        strings(r@) == raw_permissions(v@),
{
    let mut out: Vec<String> = Vec::new();
    let mut i: usize = 0;
    while i < v.len()
        invariant
            i <= v@.len(),
            out@.len() == i,
            forall|k: int| 0 <= k < i ==> (#[trigger] out@[k])@ == v@[k].raw@,
        decreases v@.len() - i,
    {
        out.push(v[i].raw.clone());
        i = i + 1;
    }
    assert(strings(out@) =~= raw_permissions(v@));
    out
}

/// Whether a card is about this plugin: its name, version, capabilities, kind
/// and labels.
pub open spec fn is_card_of(row: PluginRow, plugin: ResolvedPlugin, labels: RowLabels) -> bool {
    &&& row.name@ == plugin.manifest.name@
    &&& row.version@ == plugin.manifest.version@
    &&& strings(row.fulfills@) == strings(plugin.manifest.capabilities@)
    &&& strings(row.consumes@) == strings(plugin.manifest.consumes@)
    &&& is_kind(row.kind, plugin.provenance, plugin.dir@)
    &&& row.labels == labels
}

/// The card of a plugin that waits for approval: its permissions as requested,
/// its files unverified, and nothing on offer.
pub fn pending_row(plugin: &ResolvedPlugin, labels: RowLabels) -> (r: PluginRow)
    ensures
        is_card_of(r, *plugin, labels),
        shows_permissions(r.permissions@, raw_permissions(plugin.manifest.permissions@)),
        r.secrets@.len() == 0,
        r.last_used is None,
        r.integrity == IntegrityStatus::Unknown,
        r.actions@.len() == 0,
{
    let names = raw_names(&plugin.manifest.permissions);
    PluginRow {
        name: plugin.manifest.name.clone(),
        version: plugin.manifest.version.clone(),
        fulfills: clone_strings(&plugin.manifest.capabilities),
        consumes: clone_strings(&plugin.manifest.consumes),
        permissions: permission_rows(&names),
        secrets: Vec::new(),
        last_used: None,
        kind: provenance_to_kind(plugin.provenance, plugin.dir.as_str()),
        integrity: IntegrityStatus::Unknown,
        actions: Vec::new(),
        labels,
    }
}

/// A call of a plugin in the audit log.
#[derive(Debug)]
pub struct AuditEvent {
    pub operation: String,
    /// How long ago it was, in seconds.
    pub age: u64,
}

/// The last call of an operation, the log being in the order of the calls.
pub open spec fn last_call(events: Seq<AuditEvent>, operation: Seq<char>) -> Option<u64>
    decreases events.len(),
{
    if events.len() == 0 {
        None
    } else if events.last().operation@ == operation {
        Some(events.last().age)
    } else {
        last_call(events.drop_last(), operation)
    }
}

fn find_last_call(events: &Vec<AuditEvent>, operation: &str) -> (r: Option<u64>)
    ensures
        r == last_call(events@, operation@),
{
    let mut i: usize = events.len();
    assert(events@.subrange(0, i as int) =~= events@);
    while i > 0
        invariant
            i <= events@.len(),
            last_call(events@, operation@) == last_call(
                events@.subrange(0, i as int),
                operation@,
            ),
        decreases i,
    {
        let ghost head = events@.subrange(0, i as int);
        assert(head.last() == events@[i - 1]);
        assert(head.drop_last() =~= events@.subrange(0, i - 1));
        if text_eq(events[i - 1].operation.as_str(), operation) {
            return Some(events[i - 1].age);
        }
        i = i - 1;
    }
    None
}

/// How long ago something was, where it was at all.
pub open spec fn opt_age(age: Option<u64>) -> Option<Seq<char>> {
    match age {
        Some(secs) => Some(age_text(secs)),
        None => None,
    }
}

/// When a plugin was last used: at its last call.
pub fn last_used(events: &Vec<AuditEvent>) -> (r: Option<String>)
    ensures
        opt_text(r) == if events@.len() == 0 {
            None
        } else {
            Some(age_text(events@.last().age))
        },
{
    if events.len() == 0 {
        None
    } else {
        Some(relative_time(events[events.len() - 1].age))
    }
}

/// Whether a row shows the secret `name`: where it is kept, and when it was
/// last read.
pub open spec fn is_secret_row(
    row: SecretAccessRow,
    name: Seq<char>,
    backend: Option<Seq<char>>,
    events: Seq<AuditEvent>,
) -> bool {
    &&& row.name@ == name
    &&& row.backend@ == match backend {
        Some(b) => b,
        None => "unknown"@,
    }
    &&& opt_text(row.last_read) == opt_age(last_call(events, "secret:read:"@ + name))
}

/// The row of the secret `name`, given where it is kept and the plugin's calls.
/// A secret that is defined nowhere is kept in an unknown place.
pub fn secret_row(name: String, backend: Option<String>, events: &Vec<AuditEvent>) -> (r:
    SecretAccessRow)
    ensures
        is_secret_row(r, name@, opt_text(backend), events@),
{
    let mut operation = String::new();
    operation.push_str("secret:read:");
    operation.push_str(name.as_str());
    assert(operation@ =~= "secret:read:"@ + name@);
    let last_read = match find_last_call(events, operation.as_str()) {
        Some(secs) => Some(relative_time(secs)),
        None => None,
    };
    let backend = match backend {
        Some(b) => b,
        None => "unknown".to_owned(),
    };
    SecretAccessRow { name, backend, last_read }
}

/// Whether the rows show the secrets that a plugin may read.
pub open spec fn shows_secrets(
    rows: Seq<SecretAccessRow>,
    names: Seq<Seq<char>>,
    backends: Seq<Option<String>>,
    events: Seq<AuditEvent>,
) -> bool {
    &&& rows.len() == names.len()
    &&& forall|i: int|
        0 <= i < rows.len() ==> is_secret_row(
            #[trigger] rows[i],
            names[i],
            opt_text(backends[i]),
            events,
        )
}

/// The card of a loaded plugin: the permissions that it has, the secrets that
/// it may read, with where each is kept (`backends`, in the order of
/// [`secret_names`]), and its last call.
pub fn loaded_row(
    plugin: &ResolvedPlugin,
    effective: &Vec<String>,
    backends: &Vec<Option<String>>,
    events: &Vec<AuditEvent>,
    labels: RowLabels,
) -> (r: PluginRow)
    requires
        backends@.len() == secrets_of(strings(effective@)).len(),
    ensures
        is_card_of(r, *plugin, labels),
        shows_permissions(r.permissions@, strings(effective@)),
        shows_secrets(r.secrets@, secrets_of(strings(effective@)), backends@, events@),
        opt_text(r.last_used) == if events@.len() == 0 {
            None
        } else {
            Some(age_text(events@.last().age))
        },
        r.integrity == integrity_of(plugin.provenance, plugin.integrity),
        r.actions@ == offered(r.kind),
{
    let names = secret_names(effective);
    let ghost all = strings(names@);
    let mut secrets: Vec<SecretAccessRow> = Vec::new();
    let mut i: usize = 0;
    assert(all.len() == names@.len());
    while i < names.len()
        invariant
            i <= names@.len(),
            all == strings(names@),
            names@.len() == backends@.len(),
            secrets@.len() == i,
            forall|k: int|
                0 <= k < i ==> is_secret_row(
                    #[trigger] secrets@[k],
                    all[k],
                    opt_text(backends@[k]),
                    events@,
                ),
        decreases names@.len() - i,
    {
        let backend = match &backends[i] {
            Some(b) => Some(b.clone()),
            None => None,
        };
        assert(opt_text(backend) == opt_text(backends@[i as int]));
        secrets.push(secret_row(names[i].clone(), backend, events));
        i = i + 1;
    }
    let kind = provenance_to_kind(plugin.provenance, plugin.dir.as_str());
    let actions = actions_for_kind(&kind);
    PluginRow {
        name: plugin.manifest.name.clone(),
        version: plugin.manifest.version.clone(),
        fulfills: clone_strings(&plugin.manifest.capabilities),
        consumes: clone_strings(&plugin.manifest.consumes),
        permissions: permission_rows(effective),
        secrets,
        last_used: last_used(events),
        kind,
        integrity: ui_integrity(plugin.provenance, &plugin.integrity),
        actions,
        labels,
    }
}

/// Whether an actor comes before another: it acted more often, or as often and
/// its name comes first.
pub open spec fn acts_before(a: (Seq<char>, u64), b: (Seq<char>, u64)) -> bool {
    a.1 > b.1 || (a.1 == b.1 && text_lt(a.0, b.0))
}

/// Puts an actor behind all but those that it comes before.
pub open spec fn place_actor(
    rows: Seq<(Seq<char>, u64)>,
    x: (Seq<char>, u64),
) -> Seq<(Seq<char>, u64)>
    decreases rows.len(),
{
    if rows.len() == 0 || !acts_before(x, rows.last()) {
        rows.push(x)
    } else {
        place_actor(rows.drop_last(), x).push(rows.last())
    }
}

/// The actors in order.
pub open spec fn ranked_actors(counts: Seq<(Seq<char>, u64)>) -> Seq<(Seq<char>, u64)>
    decreases counts.len(),
{
    if counts.len() == 0 {
        counts
    } else {
        place_actor(ranked_actors(counts.drop_last()), counts.last())
    }
}

/// Actors with their counts, as values.
pub open spec fn count_views(v: Seq<(String, u64)>) -> Seq<(Seq<char>, u64)> {
    v.map_values(|c: (String, u64)| (c.0@, c.1))
}

/// The rows of the activity section, as values.
pub open spec fn audit_views(v: Seq<AuditRow>) -> Seq<(Seq<char>, u64)> {
    v.map_values(|row: AuditRow| (row.actor@, row.count))
}

/// The rows of the activity section: the most active plugins first, those that
/// acted as often by name; each with the label of what was decided.
pub fn audit_rows(counts: &Vec<(String, u64)>, decision: &str) -> (r: Vec<AuditRow>)
    ensures
        audit_views(r@) == ranked_actors(count_views(counts@)),
        forall|i: int| 0 <= i < r@.len() ==> (#[trigger] r@[i]).decision@ == decision@,
{
    let mut out: Vec<AuditRow> = Vec::new();
    let ghost all = count_views(counts@);
    let mut i: usize = 0;
    assert(audit_views(out@) =~= ranked_actors(all.subrange(0, 0)));
    while i < counts.len()
        invariant
            i <= counts@.len(),
            all == count_views(counts@),
            audit_views(out@) == ranked_actors(all.subrange(0, i as int)),
            forall|k: int| 0 <= k < out@.len() ==> (#[trigger] out@[k]).decision@ == decision@,
        decreases counts@.len() - i,
    {
        let ghost next = all.subrange(0, i + 1);
        assert(next.drop_last() =~= all.subrange(0, i as int));
        let ghost x = (counts@[i as int].0@, counts@[i as int].1);
        assert(next.last() == x);
        let ghost rows = audit_views(out@);
        let count: u64 = counts[i].1;
        let mut at: usize = out.len();
        assert(rows.subrange(0, rows.len() as int) =~= rows);
        assert(place_actor(rows, x) + rows.subrange(rows.len() as int, rows.len() as int)
            =~= place_actor(rows, x));
        while at > 0 && (count > out[at - 1].count || (count == out[at - 1].count && text_before(
            counts[i].0.as_str(),
            out[at - 1].actor.as_str(),
        )))
            invariant
                i < counts@.len(),
                at <= out@.len(),
                rows == audit_views(out@),
                x == (counts@[i as int].0@, counts@[i as int].1),
                count == counts@[i as int].1,
                place_actor(rows, x) == place_actor(rows.subrange(0, at as int), x)
                    + rows.subrange(at as int, rows.len() as int),
            decreases at,
        {
            let ghost head = rows.subrange(0, at as int);
            assert(head.last() == rows[at - 1]);
            assert(head.drop_last() =~= rows.subrange(0, at - 1));
            assert(place_actor(head, x) + rows.subrange(at as int, rows.len() as int)
                =~= place_actor(rows.subrange(0, at - 1), x) + rows.subrange(
                at - 1,
                rows.len() as int,
            ));
            at = at - 1;
        }
        let ghost head = rows.subrange(0, at as int);
        proof {
            if at > 0 {
                assert(head.last() == rows[at - 1]);
            }
        }
        let ghost before = out@;
        let row = AuditRow {
            actor: counts[i].0.clone(),
            count,
            decision: decision.to_owned(),
        };
        out.insert(at, row);
        assert(audit_views(out@) =~= head.push(x) + rows.subrange(at as int, rows.len() as int));
        assert forall|k: int| 0 <= k < out@.len() implies (#[trigger] out@[k]).decision@
            == decision@ by {
            if k < at {
                assert(out@[k] == before[k]);
            } else if k > at {
                assert(out@[k] == before[k - 1]);
            }
        }
        i = i + 1;
    }
    assert(all.subrange(0, all.len() as int) =~= all);
    out
}

proof fn lemma_acts_before_transitive(
    a: (Seq<char>, u64),
    b: (Seq<char>, u64),
    c: (Seq<char>, u64),
)
    requires
        acts_before(a, b),
        acts_before(b, c),
    ensures
        acts_before(a, c),
{
    if a.1 == b.1 && b.1 == c.1 {
        lemma_text_lt_transitive(a.0, b.0, c.0);
    }
}

proof fn lemma_place_actor(rows: Seq<(Seq<char>, u64)>, x: (Seq<char>, u64))
    requires
        forall|i: int, j: int| 0 <= i < j < rows.len() ==> !acts_before(#[trigger] rows[j], #[trigger] rows[i]),
    ensures
        ({
            let out = place_actor(rows, x);
            &&& out.to_multiset() == rows.to_multiset().insert(x)
            &&& forall|i: int, j: int| 0 <= i < j < out.len() ==> !acts_before(#[trigger] out[j], #[trigger] out[i])
        }),
    decreases rows.len(),
{
    broadcast use vstd::seq_lib::group_to_multiset_ensures;

    let out = place_actor(rows, x);
    if rows.len() == 0 || !acts_before(x, rows.last()) {
        assert(out.to_multiset() =~= rows.to_multiset().insert(x));
        assert forall|i: int, j: int| 0 <= i < j < out.len() implies !acts_before(
            #[trigger] out[j],
            #[trigger] out[i],
        ) by {
            if j == rows.len() && i < rows.len() - 1 && acts_before(x, rows[i]) {
                lemma_order_last(x, rows[i], rows.last());
            }
        }
    } else {
        let front = rows.drop_last();
        lemma_place_actor(front, x);
        let p = place_actor(front, x);
        assert(rows =~= front.push(rows.last()));
        assert(out.to_multiset() =~= rows.to_multiset().insert(x));
        assert forall|i: int, j: int| 0 <= i < j < out.len() implies !acts_before(
            #[trigger] out[j],
            #[trigger] out[i],
        ) by {
            if j == p.len() {
                assert(p.to_multiset().count(p[i]) > 0);
                assert(front.to_multiset().insert(x).count(p[i]) > 0);
                if p[i] == x {
                    if acts_before(rows.last(), x) {
                        lemma_acts_before_transitive(x, rows.last(), x);
                        lemma_text_lt_irreflexive(x.0);
                    }
                } else {
                    assert(front.to_multiset().count(p[i]) > 0);
                    assert(front.contains(p[i]));
                    let k = choose|k: int| 0 <= k < front.len() && front[k] == p[i];
                    assert(!acts_before(rows[rows.len() - 1], rows[k]));
                }
            } else {
                assert(!acts_before(p[j], p[i]));
            }
        }
    }
}

/// Where `x` comes before `a`, and `last` does not come before `a`, `x` comes
/// before `last`.
proof fn lemma_order_last(x: (Seq<char>, u64), a: (Seq<char>, u64), last: (Seq<char>, u64))
    requires
        acts_before(x, a),
        !acts_before(last, a),
    ensures
        acts_before(x, last),
{
    if last.1 == a.1 {
        lemma_text_lt_total(a.0, last.0);
        if x.1 == a.1 && a.0 != last.0 {
            lemma_text_lt_transitive(x.0, a.0, last.0);
        }
    }
}

/// The activity section lists the actors that were counted and no others, in
/// order: no row belongs before one above it.
pub proof fn actors_are_ranked(counts: Seq<(Seq<char>, u64)>)
    ensures
        ranked_actors(counts).to_multiset() == counts.to_multiset(),
        forall|i: int, j: int|
            0 <= i < j < ranked_actors(counts).len() ==> !acts_before(
                #[trigger] ranked_actors(counts)[j],
                #[trigger] ranked_actors(counts)[i],
            ),
    decreases counts.len(),
{
    broadcast use vstd::seq_lib::group_to_multiset_ensures;

    if counts.len() > 0 {
        let front = counts.drop_last();
        actors_are_ranked(front);
        lemma_place_actor(ranked_actors(front), counts.last());
        assert(counts =~= front.push(counts.last()));
        assert(ranked_actors(counts).to_multiset() =~= counts.to_multiset());
    }
}

/// The plugins that store anything, with how much, in order.
pub open spec fn stored(sizes: Seq<(String, u64)>) -> Seq<(Seq<char>, u64)>
    decreases sizes.len(),
{
    if sizes.len() == 0 {
        Seq::empty()
    } else {
        let front = stored(sizes.drop_last());
        if sizes.last().1 > 0 {
            front.push((sizes.last().0@, sizes.last().1))
        } else {
            front
        }
    }
}

/// The rows of the storage section: the plugins that store anything.
pub fn storage_rows(sizes: &Vec<(String, u64)>) -> (r: Vec<StorageRow>)
    ensures
        r@.map_values(|row: StorageRow| (row.plugin@, row.size_bytes)) == stored(sizes@),
        forall|i: int|
            0 <= i < r@.len() ==> (#[trigger] r@[i]).size_human@ == size_text(r@[i].size_bytes),
{
    let mut out: Vec<StorageRow> = Vec::new();
    let mut i: usize = 0;
    assert(out@.map_values(|row: StorageRow| (row.plugin@, row.size_bytes)) =~= stored(
        sizes@.subrange(0, 0),
    ));
    while i < sizes.len()
        invariant
            i <= sizes@.len(),
            out@.map_values(|row: StorageRow| (row.plugin@, row.size_bytes)) == stored(
                sizes@.subrange(0, i as int),
            ),
            forall|k: int|
                0 <= k < out@.len() ==> (#[trigger] out@[k]).size_human@ == size_text(
                    out@[k].size_bytes,
                ),
        decreases sizes@.len() - i,
    {
        let ghost next = sizes@.subrange(0, i + 1);
        assert(next.drop_last() =~= sizes@.subrange(0, i as int));
        assert(next.last() == sizes@[i as int]);
        let ghost before = out@.map_values(|row: StorageRow| (row.plugin@, row.size_bytes));
        let bytes: u64 = sizes[i].1;
        if bytes > 0 {
            let row = StorageRow {
                plugin: sizes[i].0.clone(),
                size_human: human_bytes(bytes),
                size_bytes: bytes,
            };
            out.push(row);
            assert(out@.map_values(|row: StorageRow| (row.plugin@, row.size_bytes))
                =~= before.push((row.plugin@, bytes)));
        }
        i = i + 1;
    }
    assert(sizes@.subrange(0, sizes@.len() as int) =~= sizes@);
    out
}

/// A permission that a plugin was refused, and how long ago.
#[derive(Debug)]
pub struct Denial {
    pub plugin: String,
    pub operation: String,
    pub age: u64,
}

/// How many refused permissions the panel shows.
pub const DENIALS_SHOWN: usize = 20;

/// How many of `count` refused permissions the panel shows.
pub open spec fn shown_denials(count: nat) -> nat {
    if count < DENIALS_SHOWN {
        count
    } else {
        DENIALS_SHOWN as nat
    }
}

/// The rows of the section of refused permissions: the first of them, at most
/// [`DENIALS_SHOWN`].
pub fn denial_rows(denials: &Vec<Denial>) -> (r: Vec<DenialRow>)
    ensures
        r@.len() == shown_denials(denials@.len()),
        forall|i: int|
            0 <= i < r@.len() ==> (#[trigger] r@[i]).plugin@ == denials@[i].plugin@
                && r@[i].permission@ == denials@[i].operation@ && r@[i].when@ == age_text(
                denials@[i].age,
            ),
{
    let mut out: Vec<DenialRow> = Vec::new();
    let n: usize = if denials.len() < DENIALS_SHOWN {
        denials.len()
    } else {
        DENIALS_SHOWN
    };
    let mut i: usize = 0;
    while i < n
        invariant
            i <= n <= denials@.len(),
            out@.len() == i,
            forall|k: int|
                0 <= k < i ==> (#[trigger] out@[k]).plugin@ == denials@[k].plugin@
                    && out@[k].permission@ == denials@[k].operation@ && out@[k].when@ == age_text(
                    denials@[k].age,
                ),
        decreases n - i,
    {
        out.push(
            DenialRow {
                plugin: denials[i].plugin.clone(),
                permission: denials[i].operation.clone(),
                when: relative_time(denials[i].age),
            },
        );
        i = i + 1;
    }
    out
}

/// The integrity panel: the cards of the loaded plugins, then those that wait,
/// and the three sections below.
pub fn build_panel(
    loaded: Vec<PluginRow>,
    waiting: Vec<PluginRow>,
    counts: &Vec<(String, u64)>,
    decision: &str,
    denials: &Vec<Denial>,
    sizes: &Vec<(String, u64)>,
) -> (r: IntegrityPanel)
    ensures
        r.plugins@ == loaded@ + waiting@,
        audit_views(r.network_audit@) == ranked_actors(count_views(counts@)),
        forall|i: int|
            0 <= i < r.network_audit@.len() ==> (#[trigger] r.network_audit@[i]).decision@
                == decision@,
        r.storage@.map_values(|row: StorageRow| (row.plugin@, row.size_bytes)) == stored(sizes@),
        forall|i: int|
            0 <= i < r.storage@.len() ==> (#[trigger] r.storage@[i]).size_human@ == size_text(
                r.storage@[i].size_bytes,
            ),
        r.denials@.len() == shown_denials(denials@.len()),
        r.denials@.len() <= DENIALS_SHOWN,
        forall|i: int|
            0 <= i < r.denials@.len() ==> (#[trigger] r.denials@[i]).plugin@
                == denials@[i].plugin@ && r.denials@[i].permission@ == denials@[i].operation@
                && r.denials@[i].when@ == age_text(denials@[i].age),
{
    let mut plugins = loaded;
    let mut waiting = waiting;
    plugins.append(&mut waiting);
    IntegrityPanel {
        plugins,
        network_audit: audit_rows(counts, decision),
        storage: storage_rows(sizes),
        denials: denial_rows(denials),
    }
}

} // verus!
