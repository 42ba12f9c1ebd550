//! Whether a plugin may load without asking, and what the approval dialog
//! shows where it may not.

use crate::sorted::{ascending, insert_text};
use crate::text::{chars_of, contains, contains_text, opt_text, strings, text_eq};
use vstd::prelude::*;

verus! {

/// Where a plugin comes from.
#[derive(Debug, Clone, Copy, PartialEq, Eq, Structural)]
pub enum Provenance {
    Bundled,
    DevMode,
    DeclaredGit,
    Path,
    ImplicitLocal,
}

/// Whether plugins of this provenance are trusted by construction: they load
/// without a dialog, and no approval of them is kept.
pub open spec fn trusted(provenance: Provenance) -> bool {
    provenance == Provenance::Bundled || provenance == Provenance::DevMode
}

/// Whether plugins of this provenance are trusted by construction.
pub fn is_trusted(provenance: Provenance) -> (r: bool)
    ensures
        r == trusted(provenance),
{
    match provenance {
        Provenance::Bundled | Provenance::DevMode => true,
        _ => false,
    }
}

/// Whether the approval of a loaded plugin is recorded: not of those that are
/// trusted by construction, whose record nothing would read.
pub fn records_approval(provenance: Provenance) -> (r: bool)
    ensures
        r == !trusted(provenance),
{
    !is_trusted(provenance)
}

/// The short label of a provenance.
pub open spec fn provenance_text(provenance: Provenance) -> Seq<char> {
    match provenance {
        Provenance::Bundled => "bundled"@,
        Provenance::DevMode => "dev-mode"@,
        Provenance::DeclaredGit => "git"@,
        Provenance::Path => "path"@,
        Provenance::ImplicitLocal => "local"@,
    }
}

/// The short label of a provenance.
pub fn provenance_label(provenance: Provenance) -> (r: &'static str)
    ensures
        r@ == provenance_text(provenance),
{
    match provenance {
        Provenance::Bundled => "bundled",
        Provenance::DevMode => "dev-mode",
        Provenance::DeclaredGit => "git",
        Provenance::Path => "path",
        Provenance::ImplicitLocal => "local",
    }
}

/// A permission taken apart.
#[derive(Debug)]
pub struct ParsedPermission {
    pub domain: String,
    pub action: String,
    pub resource: Option<String>,
}

/// [`ParsedPermission`] as values.
pub struct ParsedView {
    pub domain: Seq<char>,
    pub action: Seq<char>,
    pub resource: Option<Seq<char>>,
}

impl View for ParsedPermission {
    type V = ParsedView;

    open spec fn view(&self) -> ParsedView {
        ParsedView {
            domain: self.domain@,
            action: self.action@,
            resource: opt_text(self.resource),
        }
    }
}

/// A permission as a plugin's manifest requests it; `parsed` is what it
/// consists of, where it is well formed.
#[derive(Debug)]
pub struct RequestedPermission {
    pub raw: String,
    pub parsed: Option<ParsedPermission>,
}

/// [`RequestedPermission`] as values.
pub struct RequestedView {
    pub raw: Seq<char>,
    pub parsed: Option<ParsedView>,
}

impl View for RequestedPermission {
    type V = RequestedView;

    open spec fn view(&self) -> RequestedView {
        RequestedView {
            raw: self.raw@,
            parsed: match self.parsed {
                Some(p) => Some(p@),
                None => None,
            },
        }
    }
}

/// The permissions of a list.
pub open spec fn requested(v: Seq<RequestedPermission>) -> Seq<RequestedView> {
    v.map_values(|p: RequestedPermission| p@)
}

/// Domain and action of a permission, the resource aside; the permission
/// itself where it is not well formed.
pub open spec fn pair_key(p: RequestedView) -> Seq<char> {
    match p.parsed {
        Some(q) => q.domain + ":"@ + q.action,
        None => p.raw,
    }
}

fn pair_key_of(p: &RequestedPermission) -> (r: String)
    ensures
        r@ == pair_key(p@),
{
    match &p.parsed {
        Some(q) => {
            let mut out = q.domain.clone();
            out.push_str(":");
            out.push_str(q.action.as_str());
            out
        },
        None => p.raw.clone(),
    }
}

/// The pairs of domain and action that a manifest requests, ascending, each
/// once: what dangerous combinations are looked up by.
pub fn permission_keys(permissions: &Vec<RequestedPermission>) -> (r: Vec<String>)
    ensures
        ascending(strings(r@)),
        forall|k: Seq<char>| #[trigger]
            strings(r@).contains(k) <==> exists|i: int|
                0 <= i < permissions@.len() && pair_key((#[trigger] permissions@[i])@) == k,
{
    let mut out: Vec<String> = Vec::new();
    let mut i: usize = 0;
    while i < permissions.len()
        invariant
            i <= permissions@.len(),
            ascending(strings(out@)),
            forall|k: Seq<char>| #[trigger]
                strings(out@).contains(k) <==> exists|j: int|
                    0 <= j < i && pair_key((#[trigger] permissions@[j])@) == k,
        decreases permissions@.len() - i,
    {
        let key = pair_key_of(&permissions[i]);
        let ghost before = strings(out@);
        insert_text(&mut out, key);
        assert forall|k: Seq<char>| #[trigger]
            strings(out@).contains(k) <==> exists|j: int|
                0 <= j < i + 1 && pair_key((#[trigger] permissions@[j])@) == k by {
            if strings(out@).contains(k) {
                if before.contains(k) {
                    let j = choose|j: int|
                        0 <= j < i && pair_key((#[trigger] permissions@[j])@) == k;
                    assert(pair_key(permissions@[j]@) == k);
                } else {
                    assert(pair_key(permissions@[i as int]@) == k);
                }
            }
            if exists|j: int| 0 <= j < i + 1 && pair_key((#[trigger] permissions@[j])@) == k {
                let j = choose|j: int|
                    0 <= j < i + 1 && pair_key((#[trigger] permissions@[j])@) == k;
                if j < i {
                    assert(before.contains(k));
                }
            }
        }
        i = i + 1;
    }
    out
}

/// How the approval dialog grants a permission.
#[derive(Debug, Clone, Copy, PartialEq, Eq, Structural)]
pub enum NarrowMode {
    /// As requested.
    GrantFull,
    /// For some origins alone.
    Origins,
    /// Not at all.
    Deny,
}

/// A permission as the approval dialog shows it.
#[derive(Debug)]
pub struct NarrowablePermission {
    pub domain: String,
    pub action: String,
    /// The resource that is requested, if any.
    pub requested_scope: String,
    /// How the dialog grants it before the user changes anything.
    pub mode: NarrowMode,
    /// The permission as the manifest writes it.
    pub description: String,
    /// Whether it can be narrowed to origins.
    pub narrowable: bool,
    pub high_risk: bool,
}

/// [`NarrowablePermission`] as values.
pub struct NarrowableView {
    pub domain: Seq<char>,
    pub action: Seq<char>,
    pub requested_scope: Seq<char>,
    pub mode: NarrowMode,
    pub description: Seq<char>,
    pub narrowable: bool,
    pub high_risk: bool,
}

impl View for NarrowablePermission {
    type V = NarrowableView;

    open spec fn view(&self) -> NarrowableView {
        NarrowableView {
            domain: self.domain@,
            action: self.action@,
            requested_scope: self.requested_scope@,
            mode: self.mode,
            description: self.description@,
            narrowable: self.narrowable,
            high_risk: self.high_risk,
        }
    }
}

/// Permissions that are dangerous by themselves.
pub open spec fn high_risk_key(key: Seq<char>) -> bool {
    key == "page:inject_script"@ || key == "page:inject_unsafe_script"@ || key == "page:read_dom"@
        || key == "mcp:server"@
}

/// Whether a resource has the shape of an origin, so that it can be narrowed.
pub open spec fn origin_shaped(scope: Seq<char>) -> bool {
    scope == "*"@ || contains_text(scope, "://"@) || scope.contains('/')
}

/// The resource of a permission; empty where it has none.
pub open spec fn scope_of(p: RequestedView) -> Seq<char> {
    match p.parsed {
        Some(q) => match q.resource {
            Some(r) => r,
            None => Seq::empty(),
        },
        None => Seq::empty(),
    }
}

/// Whether a permission has a resource, of the shape of an origin.
pub open spec fn is_narrowable(p: RequestedView) -> bool {
    match p.parsed {
        Some(q) => q.resource is Some && origin_shaped(q.resource->0),
        None => false,
    }
}

/// A requested permission as the dialog shows it: by its bare domain and
/// action, so that an answer is matched with the pair that was requested, and
/// granted in full to begin with.
pub open spec fn narrowable_of(p: RequestedView) -> NarrowableView {
    NarrowableView {
        domain: match p.parsed {
            Some(q) => q.domain,
            None => p.raw,
        },
        action: match p.parsed {
            Some(q) => q.action,
            None => Seq::empty(),
        },
        requested_scope: scope_of(p),
        mode: NarrowMode::GrantFull,
        description: p.raw,
        narrowable: is_narrowable(p),
        high_risk: high_risk_key(pair_key(p)),
    }
}

fn is_origin_shaped(scope: &str) -> (r: bool)
    ensures
        r == origin_shaped(scope@),
{
    let v = chars_of(scope);
    let marker = chars_of("://");
    let mut slash = false;
    let mut i: usize = 0;
    while i < v.len()
        invariant
            i <= v@.len(),
            slash <==> exists|k: int| 0 <= k < i && v@[k] == '/',
        decreases v@.len() - i,
    {
        if v[i] == '/' {
            slash = true;
        }
        i = i + 1;
    }
    text_eq(scope, "*") || contains(v.as_slice(), marker.as_slice()) || slash
}

/// A requested permission as the dialog shows it.
pub fn permission_to_narrowable(p: &RequestedPermission) -> (r: NarrowablePermission)
    ensures
        r@ == narrowable_of(p@),
{
    let key = pair_key_of(p);
    let high_risk = text_eq(key.as_str(), "page:inject_script") || text_eq(
        key.as_str(),
        "page:inject_unsafe_script",
    ) || text_eq(key.as_str(), "page:read_dom") || text_eq(key.as_str(), "mcp:server");
    let description = p.raw.clone();
    match &p.parsed {
        Some(q) => {
            let (requested_scope, narrowable) = match &q.resource {
                Some(r) => (r.clone(), is_origin_shaped(r.as_str())),
                None => (String::new(), false),
            };
            NarrowablePermission {
                domain: q.domain.clone(),
                action: q.action.clone(),
                requested_scope,
                mode: NarrowMode::GrantFull,
                description,
                narrowable,
                high_risk,
            }
        },
        None => NarrowablePermission {
            domain: p.raw.clone(),
            action: String::new(),
            requested_scope: String::new(),
            mode: NarrowMode::GrantFull,
            description,
            narrowable: false,
            high_risk,
        },
    }
}

/// A plugin's manifest, as far as approval looks at it.
#[derive(Debug)]
pub struct Manifest {
    pub name: String,
    pub version: String,
    pub permissions: Vec<RequestedPermission>,
    pub capabilities: Vec<String>,
    pub consumes: Vec<String>,
}

/// What the approval dialog shows.
#[derive(Debug)]
pub struct ApprovalRequest {
    pub plugin: String,
    pub version: String,
    pub source: String,
    pub permissions: Vec<NarrowablePermission>,
    /// Warnings about permissions that are dangerous together.
    pub dangerous_combinations: Vec<String>,
    pub is_update: bool,
    /// What an update adds.
    pub new_permissions: Vec<String>,
}

/// [`ApprovalRequest`] as values.
pub struct RequestView {
    pub plugin: Seq<char>,
    pub version: Seq<char>,
    pub source: Seq<char>,
    pub permissions: Seq<NarrowableView>,
    pub dangerous_combinations: Seq<Seq<char>>,
    pub is_update: bool,
    pub new_permissions: Seq<Seq<char>>,
}

impl View for ApprovalRequest {
    type V = RequestView;

    open spec fn view(&self) -> RequestView {
        RequestView {
            plugin: self.plugin@,
            version: self.version@,
            source: self.source@,
            permissions: self.permissions@.map_values(|p: NarrowablePermission| p@),
            dangerous_combinations: strings(self.dangerous_combinations@),
            is_update: self.is_update,
            new_permissions: strings(self.new_permissions@),
        }
    }
}

/// The dialog for a plugin, given the warnings that its permissions trigger.
pub open spec fn request_for(
    manifest: Manifest,
    provenance: Provenance,
    warnings: Seq<Seq<char>>,
    is_update: bool,
    new_permissions: Seq<Seq<char>>,
) -> RequestView {
    RequestView {
        plugin: manifest.name@,
        version: manifest.version@,
        source: provenance_text(provenance),
        permissions: requested(manifest.permissions@).map_values(|p: RequestedView| narrowable_of(p)),
        dangerous_combinations: warnings,
        is_update,
        new_permissions,
    }
}

fn narrowables(permissions: &Vec<RequestedPermission>) -> (r: Vec<NarrowablePermission>)
    ensures
        r@.map_values(|p: NarrowablePermission| p@) == requested(permissions@).map_values(
            |p: RequestedView| narrowable_of(p),
        ),
{
    let mut out: Vec<NarrowablePermission> = Vec::new();
    let mut i: usize = 0;
    while i < permissions.len()
        invariant
            i <= permissions@.len(),
            out@.len() == i,
            forall|k: int| 0 <= k < i ==> (#[trigger] out@[k])@ == narrowable_of(permissions@[k]@),
        decreases permissions@.len() - i,
    {
        out.push(permission_to_narrowable(&permissions[i]));
        i = i + 1;
    }
    assert(out@.map_values(|p: NarrowablePermission| p@) =~= requested(permissions@).map_values(
        |p: RequestedView| narrowable_of(p),
    ));
    out
}

/// The dialog for a plugin.
pub fn build_request(
    manifest: &Manifest,
    provenance: Provenance,
    warnings: Vec<String>,
    is_update: bool,
    new_permissions: Vec<String>,
) -> (r: ApprovalRequest)
    ensures
        r@ == request_for(
            *manifest,
            provenance,
            strings(warnings@),
            is_update,
            strings(new_permissions@),
        ),
{
    ApprovalRequest {
        plugin: manifest.name.clone(),
        version: manifest.version.clone(),
        source: provenance_label(provenance).to_owned(),
        permissions: narrowables(&manifest.permissions),
        dangerous_combinations: warnings,
        is_update,
        new_permissions,
    }
}

/// The dialog for a plugin that is loaded already: it is approved again, with
/// what is new.
pub fn build_update_request(
    manifest: &Manifest,
    provenance: Provenance,
    warnings: Vec<String>,
    new_permissions: Vec<String>,
) -> (r: ApprovalRequest)
    ensures
        r@ == request_for(
            *manifest,
            provenance,
            strings(warnings@),
            true,
            strings(new_permissions@),
        ),
{
    build_request(manifest, provenance, warnings, true, new_permissions)
}

/// Whether a term was added or removed.
#[derive(Debug, Clone, Copy, PartialEq, Eq, Structural)]
pub enum DeltaKind {
    Added,
    Removed,
}

/// A change of a list in a manifest.
#[derive(Debug)]
pub struct Delta {
    pub kind: DeltaKind,
    pub term: String,
}

/// How a manifest differs from the one that was approved.
#[derive(Debug)]
pub struct DiffReport {
    pub permission_changes: Vec<Delta>,
    pub capability_changes: Vec<Delta>,
    pub consumes_changes: Vec<Delta>,
    /// The identity scope before and after, where it changed.
    pub identity_scope_change: Option<(String, String)>,
}

/// The terms that were added, in order, each behind `prefix`.
pub open spec fn added_terms(deltas: Seq<Delta>, prefix: Seq<char>) -> Seq<Seq<char>>
    decreases deltas.len(),
{
    if deltas.len() == 0 {
        Seq::empty()
    } else {
        let front = added_terms(deltas.drop_last(), prefix);
        if deltas.last().kind == DeltaKind::Added {
            front.push(prefix + deltas.last().term@)
        } else {
            front
        }
    }
}

fn push_added(out: &mut Vec<String>, deltas: &Vec<Delta>, prefix: &str)
    ensures
        strings(final(out)@) == strings(old(out)@) + added_terms(deltas@, prefix@),
{
    let ghost before = strings(out@);
    let mut i: usize = 0;
    assert(before + added_terms(deltas@.subrange(0, 0), prefix@) =~= before);
    while i < deltas.len()
        invariant
            i <= deltas@.len(),
            strings(out@) == before + added_terms(deltas@.subrange(0, i as int), prefix@),
        decreases deltas@.len() - i,
    {
        let ghost next = deltas@.subrange(0, i + 1);
        let ghost now = strings(out@);
        assert(next.drop_last() =~= deltas@.subrange(0, i as int));
        assert(next.last() == deltas@[i as int]);
        if deltas[i].kind == DeltaKind::Added {
            let mut term = prefix.to_owned();
            term.push_str(deltas[i].term.as_str());
            out.push(term);
            assert(strings(out@) =~= now.push(prefix@ + deltas@[i as int].term@));
        }
        assert(strings(out@) =~= before + added_terms(next, prefix@));
        i = i + 1;
    }
    assert(deltas@.subrange(0, deltas@.len() as int) =~= deltas@);
}

/// What an update adds, for the dialog: permissions, capabilities, consumed
/// capabilities, and a change of the identity scope.
pub open spec fn new_surface(report: DiffReport) -> Seq<Seq<char>> {
    added_terms(report.permission_changes@, Seq::empty()) + added_terms(
        report.capability_changes@,
        "capability:"@,
    ) + added_terms(report.consumes_changes@, "consumes:"@) + match report.identity_scope_change {
        Some(change) => seq!["identity_scope: "@ + change.0@ + " → "@ + change.1@],
        None => Seq::empty(),
    }
}

/// What an update adds, for the dialog.
pub fn collect_new_surface(report: &DiffReport) -> (r: Vec<String>)
    ensures
        strings(r@) == new_surface(*report),
{
    let mut out: Vec<String> = Vec::new();
    assert(strings(out@) =~= Seq::<Seq<char>>::empty());
    let empty = String::new();
    assert(empty@ =~= Seq::<char>::empty());
    push_added(&mut out, &report.permission_changes, empty.as_str());
    push_added(&mut out, &report.capability_changes, "capability:");
    push_added(&mut out, &report.consumes_changes, "consumes:");
    let ghost lists = strings(out@);
    if let Some(change) = &report.identity_scope_change {
        let mut term = String::new();
        term.push_str("identity_scope: ");
        term.push_str(change.0.as_str());
        term.push_str(" → ");
        term.push_str(change.1.as_str());
        assert(term@ =~= "identity_scope: "@ + change.0@ + " → "@ + change.1@);
        out.push(term);
        assert(strings(out@) =~= lists.push(term@));
    }
    assert(strings(out@) =~= new_surface(*report));
    out
}

/// Whether a list of changes adds anything.
pub open spec fn adds(deltas: Seq<Delta>) -> bool {
    exists|i: int| 0 <= i < deltas.len() && (#[trigger] deltas[i]).kind == DeltaKind::Added
}

proof fn lemma_added_terms(deltas: Seq<Delta>, prefix: Seq<char>)
    ensures
        added_terms(deltas, prefix).len() > 0 <==> adds(deltas),
    decreases deltas.len(),
{
    if deltas.len() > 0 {
        let front = deltas.drop_last();
        lemma_added_terms(front, prefix);
        if adds(front) {
            let i = choose|i: int|
                0 <= i < front.len() && (#[trigger] front[i]).kind == DeltaKind::Added;
            assert(deltas[i].kind == DeltaKind::Added);
        }
        if adds(deltas) && deltas.last().kind != DeltaKind::Added {
            let i = choose|i: int|
                0 <= i < deltas.len() && (#[trigger] deltas[i]).kind == DeltaKind::Added;
            assert(front[i].kind == DeltaKind::Added);
        }
    }
}

/// The dialog's list of what is new is empty just where nothing was added and
/// the identity scope is the same: no expansion goes unshown.
pub proof fn every_expansion_is_shown(report: DiffReport)
    ensures
        new_surface(report).len() > 0 <==> adds(report.permission_changes@) || adds(
            report.capability_changes@,
        ) || adds(report.consumes_changes@) || report.identity_scope_change is Some,
{
    lemma_added_terms(report.permission_changes@, Seq::empty());
    lemma_added_terms(report.capability_changes@, "capability:"@);
    lemma_added_terms(report.consumes_changes@, "consumes:"@);
}

/// What the approval store knows of a plugin.
#[derive(Debug)]
pub enum PriorApproval {
    /// The store could not be read.
    Unreadable,
    /// The plugin was never approved.
    Missing,
    /// What was approved covers the manifest.
    Covered,
    /// The manifest goes beyond what was approved, in this way.
    Expanded(DiffReport),
}

/// Whether a plugin may load.
#[derive(Debug)]
pub enum ApprovalOutcome {
    /// Without asking.
    AutoGrant,
    /// After this dialog.
    NeedsDialog(ApprovalRequest),
}

/// Why a plugin could not be classified.
#[derive(Debug, Clone, Copy, PartialEq, Eq, Structural)]
pub enum ClassifyError {
    /// The approval store could not be read.
    Store,
}

/// Decides whether a plugin may load without asking. Plugins that are trusted
/// by construction may, and so may those whose manifest is covered by what was
/// approved before. Others need the dialog; an update shows what is new.
pub fn classify(
    manifest: &Manifest,
    provenance: Provenance,
    prior: PriorApproval,
    warnings: Vec<String>,
) -> (r: Result<ApprovalOutcome, ClassifyError>)
    ensures
        match r {
            Ok(ApprovalOutcome::AutoGrant) => trusted(provenance) || prior is Covered,
            Ok(ApprovalOutcome::NeedsDialog(req)) => !trusted(provenance) && match prior {
                PriorApproval::Missing => req@ == request_for(
                    *manifest,
                    provenance,
                    strings(warnings@),
                    false,
                    Seq::empty(),
                ),
                PriorApproval::Expanded(report) => req@ == request_for(
                    *manifest,
                    provenance,
                    strings(warnings@),
                    true,
                    new_surface(report),
                ),
                _ => false,
            },
            Err(ClassifyError::Store) => !trusted(provenance) && prior is Unreadable,
        },
{
    if is_trusted(provenance) {
        return Ok(ApprovalOutcome::AutoGrant);
    }
    match prior {
        PriorApproval::Unreadable => Err(ClassifyError::Store),
        PriorApproval::Missing => {
            let none: Vec<String> = Vec::new();
            assert(strings(none@) =~= Seq::<Seq<char>>::empty());
            Ok(
                ApprovalOutcome::NeedsDialog(
                    build_request(manifest, provenance, warnings, false, none),
                ),
            )
        },
        PriorApproval::Covered => Ok(ApprovalOutcome::AutoGrant),
        PriorApproval::Expanded(report) => {
            let new = collect_new_surface(&report);
            Ok(
                ApprovalOutcome::NeedsDialog(
                    build_request(manifest, provenance, warnings, true, new),
                ),
            )
        },
    }
}

/// The dialog for an update that needs a new approval: the one that shows what
/// is new, or a bare one where that is not known.
pub fn reapproval_request(
    outcome: Result<ApprovalOutcome, ClassifyError>,
    manifest: &Manifest,
    provenance: Provenance,
    warnings: Vec<String>,
) -> (r: ApprovalRequest)
    ensures
        match outcome {
            Ok(ApprovalOutcome::NeedsDialog(req)) => r == req,
            _ => r@ == request_for(*manifest, provenance, strings(warnings@), true, Seq::empty()),
        },
{
    match outcome {
        Ok(ApprovalOutcome::NeedsDialog(req)) => req,
        _ => {
            let none: Vec<String> = Vec::new();
            assert(strings(none@) =~= Seq::<Seq<char>>::empty());
            build_update_request(manifest, provenance, warnings, none)
        },
    }
}

} // verus!
