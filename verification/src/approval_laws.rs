//! What an approval grants and what it refuses, which plugins need one, and what
//! its dialog shows.

use crate::approval::{
    denied_reason, dialog_approval, first_empty, glob_char, malformed_reason, narrowed_to_nothing,
    narrowings_of, origin_fault, origins_of, permission_denied_reason, valid_glob, ApprovalView,
    DialogPermissionView, DialogResultView, NarrowingView,
};
use crate::host::{
    answers, approve_step, asked_for, lemma_place_of_name, names_but, place_of_name, secrets_of,
    without_name, without_secret, LoadCall, Named, Pending, StepView,
};
use crate::request::{
    added_terms, high_risk_key, narrowable_of, new_surface, origin_shaped, pair_key,
    provenance_text, request_for, trusted, Delta, DeltaKind, DiffReport, Manifest, NarrowMode,
    ParsedView, Provenance, RequestView, RequestedView,
};
use crate::text::lemma_contains_part;
use vstd::prelude::*;

verus! {

/// A plugin is denied unless the answer is to grant it, and the reason names it.
pub proof fn only_a_grant_grants(result: DialogResultView)
    requires
        result.decision != "grant"@,
    ensures
        dialog_approval(result) == ApprovalView::Deny(denied_reason(result.plugin)),
        ("plugin '"@ + result.plugin).is_prefix_of(denied_reason(result.plugin)),
        "' was denied by the user in the approval dialog"@.is_suffix_of(
            denied_reason(result.plugin),
        ),
{
    let s = denied_reason(result.plugin);
    let a = "plugin '"@ + result.plugin;
    let b = "' was denied by the user in the approval dialog"@;
    assert(s.subrange(0, a.len() as int) =~= a);
    assert(s.subrange(s.len() - b.len(), s.len() as int) =~= b);
}

/// One denied permission denies the plugin, and the reason says that it was a
/// permission.
pub proof fn denied_permissions_are_the_reason(result: DialogResultView, i: int)
    requires
        result.decision == "grant"@,
        0 <= i < result.permissions.len(),
        result.permissions[i].mode == "deny"@,
    ensures
        dialog_approval(result) == ApprovalView::Deny(permission_denied_reason(result.plugin)),
        ("plugin '"@ + result.plugin).is_prefix_of(permission_denied_reason(result.plugin)),
        "' was denied: at least one required permission was denied"@.is_suffix_of(
            permission_denied_reason(result.plugin),
        ),
{
    let s = permission_denied_reason(result.plugin);
    let a = "plugin '"@ + result.plugin;
    let b = "' was denied: at least one required permission was denied"@;
    assert(s.subrange(0, a.len() as int) =~= a);
    assert(s.subrange(s.len() - b.len(), s.len() as int) =~= b);
}

/// Where a permission was narrowed to nothing, the first such one is the reason,
/// by its domain and action.
pub proof fn empty_narrowings_are_the_reason(result: DialogResultView, at: int)
    requires
        result.decision == "grant"@,
        forall|k: int|
            0 <= k < result.permissions.len() ==> (#[trigger] result.permissions[k]).mode
                != "deny"@,
        0 <= at < result.permissions.len(),
        narrowed_to_nothing(result.permissions[at]),
        forall|k: int|
            0 <= k < at ==> !narrowed_to_nothing(#[trigger] result.permissions[k]),
    ensures
        dialog_approval(result) == ApprovalView::Deny(
            malformed_reason(result.plugin, result.permissions[at]),
        ),
        ("plugin '"@ + result.plugin + "' was denied: permission '"@
            + result.permissions[at].domain + ":"@ + result.permissions[at].action).is_prefix_of(
            malformed_reason(result.plugin, result.permissions[at]),
        ),
{
    lemma_first_empty(result.permissions, at);
    let s = malformed_reason(result.plugin, result.permissions[at]);
    let a = "plugin '"@ + result.plugin + "' was denied: permission '"@
        + result.permissions[at].domain + ":"@ + result.permissions[at].action;
    assert(s.subrange(0, a.len() as int) =~= a);
}

proof fn lemma_first_empty(perms: Seq<DialogPermissionView>, at: int)
    requires
        0 <= at < perms.len(),
        narrowed_to_nothing(perms[at]),
        forall|k: int| 0 <= k < at ==> !narrowed_to_nothing(#[trigger] perms[k]),
    ensures
        first_empty(perms) == Some(perms[at]),
    decreases perms.len(),
{
    if at > 0 {
        let t = perms.drop_first();
        assert forall|k: int| 0 <= k < at - 1 implies !narrowed_to_nothing(#[trigger] t[k]) by {
            assert(t[k] == perms[k + 1]);
        }
        lemma_first_empty(t, at - 1);
        assert(!narrowed_to_nothing(perms[0]));
    }
}

proof fn lemma_none_empty(perms: Seq<DialogPermissionView>)
    requires
        forall|k: int| 0 <= k < perms.len() ==> !narrowed_to_nothing(#[trigger] perms[k]),
    ensures
        first_empty(perms) is None,
    decreases perms.len(),
{
    if perms.len() > 0 {
        let t = perms.drop_first();
        assert forall|k: int| 0 <= k < t.len() implies !narrowed_to_nothing(#[trigger] t[k]) by {
            assert(t[k] == perms[k + 1]);
        }
        lemma_none_empty(t);
    }
}

proof fn lemma_no_narrowings(perms: Seq<DialogPermissionView>)
    ensures
        narrowings_of(perms).len() == 0 <==> forall|k: int|
            0 <= k < perms.len() ==> (#[trigger] perms[k]).mode != "origins"@,
    decreases perms.len(),
{
    if perms.len() > 0 {
        let front = perms.drop_last();
        lemma_no_narrowings(front);
        assert forall|k: int| 0 <= k < front.len() implies front[k] == #[trigger] perms[k] by {}
        if narrowings_of(perms).len() == 0 {
            assert forall|k: int| 0 <= k < perms.len() implies (#[trigger] perms[k]).mode
                != "origins"@ by {
                if k < front.len() {
                    assert(front[k] == perms[k]);
                }
            }
        } else if perms.last().mode != "origins"@ {
            let k = choose|k: int| 0 <= k < front.len() && (#[trigger] front[k]).mode == "origins"@;
            assert(perms[k].mode == "origins"@);
        }
    }
}

/// A grant that refuses nothing goes through: as requested where nothing was
/// narrowed, and narrowed where something was.
pub proof fn unrefused_answers_go_through(result: DialogResultView)
    requires
        result.decision == "grant"@,
        forall|k: int|
            0 <= k < result.permissions.len() ==> (#[trigger] result.permissions[k]).mode
                != "deny"@,
        forall|k: int|
            0 <= k < result.permissions.len() ==> !narrowed_to_nothing(
                #[trigger] result.permissions[k],
            ),
    ensures
        (forall|k: int|
            0 <= k < result.permissions.len() ==> (#[trigger] result.permissions[k]).mode
                != "origins"@) ==> dialog_approval(result) == ApprovalView::GrantAsRequested,
        (exists|k: int|
            0 <= k < result.permissions.len() && (#[trigger] result.permissions[k]).mode
                == "origins"@) ==> dialog_approval(result) == ApprovalView::Narrow(
            narrowings_of(result.permissions),
        ),
{
    lemma_none_empty(result.permissions);
    lemma_no_narrowings(result.permissions);
}

/// Each permission that was narrowed brings one narrowing, in its place, to the
/// origins that were named; any other brings none.
pub proof fn narrowings_follow_the_answer(
    perms: Seq<DialogPermissionView>,
    p: DialogPermissionView,
)
    ensures
        p.mode == "origins"@ && p.origins is Some ==> narrowings_of(perms.push(p))
            == narrowings_of(perms).push(
            NarrowingView { domain: p.domain, action: p.action, resources: p.origins->0 },
        ),
        p.mode != "origins"@ ==> narrowings_of(perms.push(p)) == narrowings_of(perms),
        narrowings_of(Seq::empty()).len() == 0,
{
    assert(perms.push(p).drop_last() =~= perms);
}

/// The first fault of an answer is the one that is told; an answer is at fault
/// where a part of it is.
pub proof fn the_first_fault_is_told(a: Seq<DialogPermissionView>, b: Seq<DialogPermissionView>)
    ensures
        origin_fault(a) is Some ==> origin_fault(a + b) == origin_fault(a),
        origin_fault(a) is None ==> origin_fault(a + b) == origin_fault(b),
        origin_fault(Seq::empty()) is None,
    decreases a.len(),
{
    if a.len() == 0 {
        assert(a + b =~= b);
    } else {
        the_first_fault_is_told(a.drop_first(), b);
        assert((a + b).drop_first() =~= a.drop_first() + b);
    }
}

/// A permission that is narrowed takes at most sixty-four origins, each a valid
/// glob; of one that is not narrowed the origins do not matter.
pub proof fn origins_are_bounded(p: DialogPermissionView, i: int)
    ensures
        p.mode == "origins"@ && p.origins is Some && (p.origins->0).len() > 64 ==> origin_fault(
            seq![p],
        ) == Some("approve_plugin: too many origins for a permission"@),
        p.mode == "origins"@ && p.origins is Some && (p.origins->0).len() <= 64 && 0 <= i < (
        p.origins->0).len() && !valid_glob((p.origins->0)[i]) ==> origin_fault(seq![p]) == Some(
            "approve_plugin: invalid origin glob"@,
        ),
        p.origins is Some && (p.origins->0).len() <= 64 && (forall|k: int|
            0 <= k < (p.origins->0).len() ==> valid_glob(#[trigger] (p.origins->0)[k]))
            ==> origin_fault(seq![p]) is None,
        p.mode != "origins"@ || p.origins is None ==> origin_fault(seq![p]) is None,
{
    reveal_with_fuel(origin_fault, 2);
    let all = seq![p];
    assert(all.drop_first().len() == 0);
    if p.origins is Some && 0 <= i < (p.origins->0).len() {
        assert(origins_of(p)[i] == (p.origins->0)[i]);
    }
}

/// Two globs put together are a glob where both are, up to the greatest length.
pub proof fn globs_are_made_of_globs(a: Seq<char>, b: Seq<char>)
    requires
        a.len() > 0,
        b.len() > 0,
    ensures
        a.len() + b.len() <= 2048 ==> (valid_glob(a + b) <==> valid_glob(a) && valid_glob(b)),
        a.len() + b.len() > 2048 ==> !valid_glob(a + b),
        !valid_glob(Seq::empty()),
{
    let t = a + b;
    if a.len() + b.len() <= 2048 {
        if valid_glob(t) {
            assert forall|i: int| 0 <= i < a.len() implies glob_char(#[trigger] a[i]) by {
                assert(t[i] == a[i]);
            }
            assert forall|i: int| 0 <= i < b.len() implies glob_char(#[trigger] b[i]) by {
                assert(t[a.len() + i] == b[i]);
            }
        }
    }
}

/// A glob of one character is a letter, a digit, or one of nine signs.
pub proof fn globs_hold_letters_digits_and_signs(c: char)
    ensures
        valid_glob(seq![c]) <==> ('a' <= c <= 'z' || 'A' <= c <= 'Z' || '0' <= c <= '9' || "._-:/*?@~"@.contains(c)),
{
    reveal_strlit("._-:/*?@~");
    let s = "._-:/*?@~"@;
    assert(s.len() == 9);
    assert(s[0] == '.' && s[1] == '_' && s[2] == '-' && s[3] == ':' && s[4] == '/' && s[5] == '*'
        && s[6] == '?' && s[7] == '@' && s[8] == '~');
    if valid_glob(seq![c]) {
        assert(seq![c][0] == c);
    }
}

/// Plugins that come with the browser, and those under development, are trusted;
/// those from elsewhere are not.
pub proof fn trust_goes_by_provenance()
    ensures
        trusted(Provenance::Bundled),
        trusted(Provenance::DevMode),
        !trusted(Provenance::DeclaredGit),
        !trusted(Provenance::Path),
        !trusted(Provenance::ImplicitLocal),
        provenance_text(Provenance::Bundled) == "bundled"@,
        provenance_text(Provenance::DevMode) == "dev-mode"@,
        provenance_text(Provenance::DeclaredGit) == "git"@,
        provenance_text(Provenance::Path) == "path"@,
        provenance_text(Provenance::ImplicitLocal) == "local"@,
{
}

/// A permission is known by its domain and action, whatever its resource; one
/// that cannot be taken apart is known by itself.
pub proof fn permissions_are_known_by_their_pair(
    domain: Seq<char>,
    action: Seq<char>,
    p: RequestedView,
    q: RequestedView,
)
    ensures
        p.parsed is Some && q.parsed is Some && (p.parsed->0).domain == (q.parsed->0).domain && (
        p.parsed->0).action == (q.parsed->0).action ==> pair_key(p) == pair_key(q),
        p.parsed is Some ==> pair_key(p) == (p.parsed->0).domain + ":"@ + (p.parsed->0).action,
        p.parsed is None ==> pair_key(p) == p.raw,
{
}

/// The dialog shows a permission by its domain and action, with its resource as
/// the scope, the raw text as the description, and granted in full.
pub proof fn permissions_are_shown_as_requested(raw: Seq<char>, q: ParsedView)
    ensures
        ({
            let n = narrowable_of(RequestedView { raw, parsed: Some(q) });
            &&& n.domain == q.domain
            &&& n.action == q.action
            &&& q.resource is Some ==> n.requested_scope == q.resource->0
            &&& q.resource is None ==> n.requested_scope.len() == 0
            &&& n.mode == NarrowMode::GrantFull
            &&& n.description == raw
            &&& n.narrowable <==> q.resource is Some && origin_shaped(q.resource->0)
            &&& n.high_risk <==> high_risk_key(q.domain + ":"@ + q.action)
        }),
        ({
            let n = narrowable_of(RequestedView { raw, parsed: None });
            &&& n.domain == raw
            &&& n.action.len() == 0
            &&& n.requested_scope.len() == 0
            &&& n.mode == NarrowMode::GrantFull
            &&& n.description == raw
            &&& !n.narrowable
            &&& n.high_risk <==> high_risk_key(raw)
        }),
{
}

/// To run scripts in pages, to read them, and to serve tools are of high risk;
/// nothing else is.
pub proof fn high_risks_are_four(key: Seq<char>)
    ensures
        high_risk_key("page:inject_script"@),
        high_risk_key("page:inject_unsafe_script"@),
        high_risk_key("page:read_dom"@),
        high_risk_key("mcp:server"@),
        key != "page:inject_script"@ && key != "page:inject_unsafe_script"@ && key
            != "page:read_dom"@ && key != "mcp:server"@ ==> !high_risk_key(key),
{
}

/// A resource that stands for every origin, or has a slash, can be narrowed; one
/// without either cannot.
pub proof fn origins_can_be_narrowed(a: Seq<char>, b: Seq<char>, scope: Seq<char>)
    ensures
        origin_shaped("*"@),
        origin_shaped(a + "://"@ + b),
        origin_shaped(a + seq!['/'] + b),
        scope != "*"@ && (forall|k: int| 0 <= k < scope.len() ==> scope[k] != '/')
            ==> !origin_shaped(scope),
{
    lemma_contains_part(a, "://"@, b);
    let t = a + seq!['/'] + b;
    assert(t[a.len() as int] == '/');
    if scope != "*"@ && (forall|k: int| 0 <= k < scope.len() ==> scope[k] != '/') {
        if crate::text::contains_text(scope, "://"@) {
            reveal_strlit("://");
            let i = choose|i: int|
                0 <= i && i + "://"@.len() <= scope.len() && #[trigger] scope.subrange(
                    i,
                    i + "://"@.len(),
                ) == "://"@;
            assert("://"@.len() == 3 && "://"@[1] == '/');
            assert(scope.subrange(i, i + 3)[1] == scope[i + 1]);
        }
    }
}

/// The dialog is about the plugin of the manifest: its name and version, where it
/// comes from, each of its permissions in order, and the warnings and additions
/// as they were given.
pub proof fn dialogs_show_the_manifest(
    manifest: Manifest,
    provenance: Provenance,
    warnings: Seq<Seq<char>>,
    is_update: bool,
    additions: Seq<Seq<char>>,
    i: int,
)
    ensures
        ({
            let r = request_for(manifest, provenance, warnings, is_update, additions);
            &&& r.plugin == manifest.name@
            &&& r.version == manifest.version@
            &&& r.source == provenance_text(provenance)
            &&& r.permissions.len() == manifest.permissions@.len()
            &&& 0 <= i < manifest.permissions@.len() ==> r.permissions[i] == narrowable_of(
                manifest.permissions@[i]@,
            )
            &&& r.dangerous_combinations == warnings
            &&& r.is_update == is_update
            &&& r.new_permissions == additions
        }),
{
}

/// What was added is shown behind its prefix, and what was removed is not.
pub proof fn additions_are_shown(deltas: Seq<Delta>, d: Delta, prefix: Seq<char>)
    ensures
        d.kind == DeltaKind::Added ==> added_terms(deltas.push(d), prefix) == added_terms(
            deltas,
            prefix,
        ).push(prefix + d.term@),
        d.kind == DeltaKind::Removed ==> added_terms(deltas.push(d), prefix) == added_terms(
            deltas,
            prefix,
        ),
        added_terms(Seq::empty(), prefix).len() == 0,
{
    assert(deltas.push(d).drop_last() =~= deltas);
}

/// An update shows the new permissions first, then the capabilities, then what it
/// consumes, each under its own prefix, and last how its identity scope changes.
pub proof fn updates_show_what_is_new(report: DiffReport)
    ensures
        ({
            let p = added_terms(report.permission_changes@, Seq::empty());
            let c = added_terms(report.capability_changes@, "capability:"@);
            let u = added_terms(report.consumes_changes@, "consumes:"@);
            &&& report.identity_scope_change is None ==> new_surface(report) == p + c + u
            &&& report.identity_scope_change is Some ==> new_surface(report) == (p + c + u).push(
                "identity_scope: "@ + (report.identity_scope_change->0).0@ + " → "@ + (
                report.identity_scope_change->0).1@,
            )
        }),
{
    let p = added_terms(report.permission_changes@, Seq::empty());
    let c = added_terms(report.capability_changes@, "capability:"@);
    let u = added_terms(report.consumes_changes@, "consumes:"@);
    match report.identity_scope_change {
        Some(change) => {
            assert(new_surface(report) =~= (p + c + u).push(
                "identity_scope: "@ + change.0@ + " → "@ + change.1@,
            ));
        },
        None => {
            assert(new_surface(report) =~= p + c + u);
        },
    }
}

/// An answer that grants, for a plugin that waits and for nothing but what its
/// dialog asked, loads that plugin with that grant; one that runs is reloaded.
/// One that denies drops it.
pub proof fn answers_settle_the_plugin_that_waits(
    pending: Seq<Pending>,
    result: DialogResultView,
    at: int,
)
    requires
        0 <= at < pending.len(),
        pending[at].called() == result.plugin,
        forall|k: int| 0 <= k < at ==> (#[trigger] pending[k]).called() != result.plugin,
        answers(pending[at].1@, result),
    ensures
        !(dialog_approval(result) is Deny) ==> approve_step(pending, result, false)
            == StepView::Load(at, dialog_approval(result), LoadCall::Load),
        !(dialog_approval(result) is Deny) ==> approve_step(pending, result, true)
            == StepView::Load(at, dialog_approval(result), LoadCall::Reload),
        dialog_approval(result) is Deny ==> approve_step(pending, result, false)
            == StepView::Deny(at),
        dialog_approval(result) is Deny ==> approve_step(pending, result, true) == StepView::Deny(
            at,
        ),
{
    lemma_place_of_name(pending, result.plugin);
    let p = place_of_name(pending, result.plugin);
    if p < at {
        assert(pending[p].called() != result.plugin);
    } else if at < p {
        assert(pending[at].called() != result.plugin);
    }
}

/// An answer is for what was asked where each of its pairs was asked for; an
/// answer without permissions always is.
pub proof fn answers_go_pair_by_pair(
    req: RequestView,
    result: DialogResultView,
    p: DialogPermissionView,
)
    ensures
        ({
            let more = DialogResultView { permissions: result.permissions.push(p), ..result };
            answers(req, more) <==> answers(req, result) && asked_for(req, p.domain, p.action)
        }),
        result.permissions.len() == 0 ==> answers(req, result),
{
    let perms = result.permissions;
    let more = perms.push(p);
    assert(more[perms.len() as int] == p);
    let r = DialogResultView { permissions: more, ..result };
    if answers(req, r) {
        assert(asked_for(req, more[perms.len() as int].domain, more[perms.len() as int].action));
        assert forall|i: int| 0 <= i < perms.len() implies asked_for(
            req,
            (#[trigger] perms[i]).domain,
            perms[i].action,
        ) by {
            assert(more[i] == perms[i]);
            assert(asked_for(req, more[i].domain, more[i].action));
        }
    }
    if answers(req, result) && asked_for(req, p.domain, p.action) {
        assert forall|i: int| 0 <= i < more.len() implies asked_for(
            req,
            (#[trigger] more[i]).domain,
            more[i].action,
        ) by {
            if i < perms.len() {
                assert(more[i] == perms[i]);
            }
        }
    }
}

/// A dialog asked for a pair where one of its permissions has both its parts.
pub proof fn pairs_are_asked_for_together(req: RequestView, i: int, domain: Seq<char>, action: Seq<char>)
    ensures
        0 <= i < req.permissions.len() && req.permissions[i].domain == domain
            && req.permissions[i].action == action ==> asked_for(req, domain, action),
        (forall|k: int|
            0 <= k < req.permissions.len() ==> (#[trigger] req.permissions[k]).domain != domain
                || req.permissions[k].action != action) ==> !asked_for(req, domain, action),
{
}

/// A permission to read a secret gives the secret's name, and no other gives one.
pub proof fn secrets_are_read_from_permissions(
    effective: Seq<Seq<char>>,
    name: Seq<char>,
    other: Seq<char>,
)
    ensures
        secrets_of(effective.push("secret:read:"@ + name)) == secrets_of(effective).push(name),
        !"secret:read:"@.is_prefix_of(other) ==> secrets_of(effective.push(other)) == secrets_of(
            effective,
        ),
        secrets_of(Seq::empty()).len() == 0,
{
    let prefix = "secret:read:"@;
    let p = prefix + name;
    assert(effective.push(p).drop_last() =~= effective);
    assert(effective.push(other).drop_last() =~= effective);
    assert(p.subrange(0, prefix.len() as int) =~= prefix);
    assert(p.skip(prefix.len() as int) =~= name);
}

/// To revoke a secret leaves a grant that reads the other secrets alone.
pub proof fn revoking_leaves_the_other_secrets(effective: Seq<Seq<char>>, revoked: Seq<char>)
    ensures
        without_secret(effective, revoked) is Narrow,
        ({
            let n = without_secret(effective, revoked)->Narrow_0;
            &&& n.len() == 1
            &&& n[0].domain == "secret"@
            &&& n[0].action == "read"@
            &&& n[0].resources == names_but(secrets_of(effective), revoked)
        }),
{
}

/// What bears a name is taken out of a list, and the rest keeps its order.
pub proof fn names_are_taken_out<T: Named>(items: Seq<T>, x: T, name: Seq<char>)
    ensures
        x.called() == name ==> without_name(items.push(x), name) == without_name(items, name),
        x.called() != name ==> without_name(items.push(x), name) == without_name(
            items,
            name,
        ).push(x),
{
    reveal(Seq::filter);
    assert(items.push(x).drop_last() =~= items);
}

} // verus!
