//! Which plugins are loaded and which wait for approval, and how the approval
//! dialog and the integrity panel move them.

use crate::approval::{
    approval_from_dialog, dialog_approval, Approval, ApprovalView, DialogResult, DialogResultView,
    Narrowing, NarrowingView,
};
use crate::request::{
    build_update_request, records_approval, request_for, trusted, ApprovalOutcome, ApprovalRequest,
    ClassifyError, Manifest, Provenance, RequestView,
};
use crate::sorted::lemma_filter_member;
use crate::text::{chars_of, opt_text, starts_with, string_of, strings, text_eq};
use vstd::prelude::*;

verus! {

/// What the plugin manager says of a plugin's files.
#[derive(Debug, Clone, Copy, PartialEq, Eq, Structural)]
pub enum MgrIntegrity {
    Verified,
    /// A local plugin, whose hash is informational.
    PathLocal,
    Mismatch,
    Bundled,
    Unknown,
}

/// A plugin as the plugin manager resolved it.
#[derive(Debug)]
pub struct ResolvedPlugin {
    pub provenance: Provenance,
    /// The directory that it is in.
    pub dir: String,
    pub manifest: Manifest,
    pub integrity: MgrIntegrity,
    pub init_source: String,
}

/// A plugin that waits for approval, and its dialog.
pub type Pending = (ResolvedPlugin, ApprovalRequest);

/// Something that bears the name of a plugin.
pub trait Named: Sized {
    /// The name.
    spec fn called(&self) -> Seq<char>;

    /// The name.
    fn name(&self) -> (r: &str)
        ensures
            r@ == self.called(),
    ;
}

impl Named for ResolvedPlugin {
    open spec fn called(&self) -> Seq<char> {
        self.manifest.name@
    }

    fn name(&self) -> (r: &str) {
        self.manifest.name.as_str()
    }
}

impl Named for (ResolvedPlugin, ApprovalRequest) {
    open spec fn called(&self) -> Seq<char> {
        self.0.manifest.name@
    }

    fn name(&self) -> (r: &str) {
        self.0.manifest.name.as_str()
    }
}

/// The place of the first item called `name`; their number where there is none.
pub open spec fn place_of_name<T: Named>(items: Seq<T>, name: Seq<char>) -> int
    decreases items.len(),
{
    if items.len() == 0 || items[0].called() == name {
        0
    } else {
        1 + place_of_name(items.drop_first(), name)
    }
}

/// What it is to be the first place.
pub proof fn lemma_place_of_name<T: Named>(items: Seq<T>, name: Seq<char>)
    ensures
        0 <= place_of_name(items, name) <= items.len(),
        place_of_name(items, name) < items.len() ==> items[place_of_name(items, name)].called()
            == name,
        forall|k: int|
            0 <= k < place_of_name(items, name) ==> (#[trigger] items[k]).called() != name,
    decreases items.len(),
{
    if items.len() > 0 && items[0].called() != name {
        let t = items.drop_first();
        lemma_place_of_name(t, name);
        assert forall|k: int| 0 <= k < place_of_name(items, name) implies (
        #[trigger] items[k]).called() != name by {
            if k > 0 {
                assert(t[k - 1] == items[k]);
            }
        }
    }
}

fn find_name<T: Named>(items: &Vec<T>, name: &str) -> (r: usize)
    ensures
        r == place_of_name(items@, name@),
        r <= items@.len(),
{
    let mut i: usize = 0;
    while i < items.len() && !text_eq(items[i].name(), name)
        invariant
            i <= items@.len(),
            forall|k: int| 0 <= k < i ==> (#[trigger] items@[k]).called() != name@,
        decreases items@.len() - i,
    {
        i = i + 1;
    }
    proof {
        lemma_place_of_name(items@, name@);
        let at = place_of_name(items@, name@);
        if at < i {
            assert(items@[at].called() != name@);
        }
        if i < at {
            assert(items@[i as int].called() != name@);
        }
    }
    i
}

/// Whether something is not called `name`.
pub open spec fn called_otherwise<T: Named>(name: Seq<char>) -> spec_fn(T) -> bool {
    |x: T| x.called() != name
}

/// The items that are not called `name`, in order.
pub open spec fn without_name<T: Named>(items: Seq<T>, name: Seq<char>) -> Seq<T> {
    items.filter(called_otherwise(name))
}

fn remove_name<T: Named>(items: &mut Vec<T>, name: &str)
    ensures
        final(items)@ == without_name(old(items)@, name@),
{
    let ghost all = items@;
    let ghost keep = called_otherwise::<T>(name@);
    let ghost mut seen: int = 0;
    let mut i: usize = 0;
    proof {
        reveal(Seq::filter);
    }
    assert(all.subrange(0, 0) =~= Seq::<T>::empty());
    assert(items@.subrange(0, 0) =~= all.subrange(0, 0).filter(keep));
    assert(items@.skip(0) =~= all.skip(0));
    while i < items.len()
        invariant
            0 <= seen <= all.len(),
            i <= items@.len(),
            keep == called_otherwise::<T>(name@),
            items@.skip(i as int) == all.skip(seen),
            items@.subrange(0, i as int) == all.subrange(0, seen).filter(keep),
        decreases all.len() - seen,
    {
        let ghost now = items@;
        let ghost next = all.subrange(0, seen + 1);
        proof {
            reveal(Seq::filter);
            assert(now.skip(i as int).len() == now.len() - i);
            assert(all.skip(seen).len() == all.len() - seen);
            assert(now.skip(i as int)[0] == all.skip(seen)[0]);
            assert(next.drop_last() =~= all.subrange(0, seen));
            assert(next.last() == now[i as int]);
        }
        if text_eq(items[i].name(), name) {
            let _ = items.remove(i);
            assert(items@.skip(i as int) =~= now.skip(i as int).drop_first());
            assert(items@.subrange(0, i as int) =~= now.subrange(0, i as int));
            assert(all.skip(seen).drop_first() =~= all.skip(seen + 1));
        } else {
            i = i + 1;
            assert(items@.skip(i as int) =~= now.skip(i - 1).drop_first());
            assert(items@.subrange(0, i as int) =~= now.subrange(0, i - 1).push(now[i - 1]));
            assert(all.skip(seen).drop_first() =~= all.skip(seen + 1));
        }
        proof {
            seen = seen + 1;
        }
    }
    proof {
        assert(items@.skip(i as int).len() == 0);
        assert(all.subrange(0, seen) =~= all);
        assert(items@.subrange(0, i as int) =~= items@);
    }
}

/// The plugins of the shell.
#[derive(Debug)]
pub struct PluginHost {
    loaded: Vec<ResolvedPlugin>,
    pending: Vec<Pending>,
}

/// [`PluginHost`] as values.
pub struct PluginHostView {
    /// Those that are loaded, in load order.
    pub loaded: Seq<ResolvedPlugin>,
    /// Those that wait for approval, the first dialog first.
    pub pending: Seq<Pending>,
}

impl View for PluginHost {
    type V = PluginHostView;

    closed spec fn view(&self) -> PluginHostView {
        PluginHostView { loaded: self.loaded@, pending: self.pending@ }
    }
}

/// What became of a dialog's answer.
#[derive(Debug, Clone, Copy, PartialEq, Eq, Structural)]
pub enum ApproveOutcome {
    /// The plugin was loaded.
    Loaded,
    /// The user denied it.
    Denied,
    /// It was granted, but did not load; it still waits.
    LoadFailed,
    /// The answer was dropped: no such plugin waits, or it answers for
    /// something that was not requested.
    NotPending,
}

/// How a plugin is brought to run.
#[derive(Debug, Clone, Copy, PartialEq, Eq, Structural)]
pub enum LoadCall {
    /// It does not run yet.
    Load,
    /// It runs already, and is approved anew: its grant may change.
    Reload,
}

/// What is to be done with a dialog's answer.
#[derive(Debug)]
pub enum ApproveStep {
    /// Nothing more.
    Done(ApproveOutcome),
    /// Load the pending plugin at this place with this grant, by this call, and
    /// report.
    Load { index: usize, approval: Approval, call: LoadCall },
}

/// What became of a plugin that was to be loaded.
#[derive(Debug, Clone, Copy, PartialEq, Eq, Structural)]
pub struct LoadReport {
    pub outcome: ApproveOutcome,
    /// Whether its approval is to be recorded.
    pub record: bool,
}

/// Whether the dialog asked for this pair of domain and action.
pub open spec fn asked_for(req: RequestView, domain: Seq<char>, action: Seq<char>) -> bool {
    exists|i: int|
        0 <= i < req.permissions.len() && (#[trigger] req.permissions[i]).domain == domain
            && req.permissions[i].action == action
}

/// Whether an answer is for nothing but what the dialog asked for.
pub open spec fn answers(req: RequestView, result: DialogResultView) -> bool {
    forall|i: int|
        0 <= i < result.permissions.len() ==> asked_for(
            req,
            (#[trigger] result.permissions[i]).domain,
            result.permissions[i].action,
        )
}

fn was_asked_for(req: &ApprovalRequest, domain: &str, action: &str) -> (r: bool)
    ensures
        r == asked_for(req@, domain@, action@),
{
    let mut i: usize = 0;
    while i < req.permissions.len()
        invariant
            i <= req.permissions@.len(),
            forall|k: int|
                0 <= k < i ==> !((#[trigger] req@.permissions[k]).domain == domain@
                    && req@.permissions[k].action == action@),
        decreases req.permissions@.len() - i,
    {
        assert(req@.permissions[i as int] == req.permissions@[i as int]@);
        if text_eq(req.permissions[i].domain.as_str(), domain) && text_eq(
            req.permissions[i].action.as_str(),
            action,
        ) {
            return true;
        }
        i = i + 1;
    }
    false
}

fn answers_request(req: &ApprovalRequest, result: &DialogResult) -> (r: bool)
    ensures
        r == answers(req@, result@),
{
    let mut i: usize = 0;
    while i < result.permissions.len()
        invariant
            i <= result.permissions@.len(),
            forall|k: int|
                0 <= k < i ==> asked_for(
                    req@,
                    (#[trigger] result@.permissions[k]).domain,
                    result@.permissions[k].action,
                ),
        decreases result.permissions@.len() - i,
    {
        assert(result@.permissions[i as int] == result.permissions@[i as int]@);
        if !was_asked_for(
            req,
            result.permissions[i].domain.as_str(),
            result.permissions[i].action.as_str(),
        ) {
            return false;
        }
        i = i + 1;
    }
    true
}

/// What is to be done with a dialog's answer, as a value.
pub enum StepView {
    Drop,
    Deny(int),
    Load(int, ApprovalView, LoadCall),
}

/// What is to be done with a dialog's answer: it is dropped where no such
/// plugin waits or where it answers for what was not requested; else the
/// plugin at its place is denied, or loaded with the grant. One that is
/// `running` is reloaded.
pub open spec fn approve_step(
    pending: Seq<Pending>,
    result: DialogResultView,
    running: bool,
) -> StepView {
    let at = place_of_name(pending, result.plugin);
    if at >= pending.len() || !answers(pending[at].1@, result) {
        StepView::Drop
    } else if dialog_approval(result) is Deny {
        StepView::Deny(at)
    } else {
        StepView::Load(
            at,
            dialog_approval(result),
            if running {
                LoadCall::Reload
            } else {
                LoadCall::Load
            },
        )
    }
}

/// The secrets that a plugin may read, in order: its permissions that begin
/// with `secret:read:`, without that prefix.
pub open spec fn secrets_of(effective: Seq<Seq<char>>) -> Seq<Seq<char>>
    decreases effective.len(),
{
    if effective.len() == 0 {
        Seq::empty()
    } else {
        let front = secrets_of(effective.drop_last());
        let p = effective.last();
        if "secret:read:"@.is_prefix_of(p) {
            front.push(p.skip("secret:read:"@.len() as int))
        } else {
            front
        }
    }
}

/// The secrets that a plugin may read.
pub fn secret_names(effective: &Vec<String>) -> (r: Vec<String>)
    ensures
        strings(r@) == secrets_of(strings(effective@)),
{
    let mut out: Vec<String> = Vec::new();
    let prefix = chars_of("secret:read:");
    let ghost all = strings(effective@);
    let mut i: usize = 0;
    assert(strings(out@) =~= secrets_of(all.subrange(0, 0)));
    while i < effective.len()
        invariant
            i <= effective@.len(),
            all == strings(effective@),
            prefix@ == "secret:read:"@,
            strings(out@) == secrets_of(all.subrange(0, i as int)),
        decreases effective@.len() - i,
    {
        let ghost next = all.subrange(0, i + 1);
        let ghost now = strings(out@);
        assert(next.drop_last() =~= all.subrange(0, i as int));
        assert(next.last() == effective@[i as int]@);
        let v = chars_of(effective[i].as_str());
        if starts_with(v.as_slice(), prefix.as_slice()) {
            let name = string_of(v.as_slice(), prefix.len(), v.len());
            out.push(name);
            assert(name@ =~= v@.skip(prefix@.len() as int));
            assert(strings(out@) =~= now.push(name@));
        }
        i = i + 1;
    }
    assert(all.subrange(0, all.len() as int) =~= all);
    out
}

/// Every name but one.
pub open spec fn other_than(revoked: Seq<char>) -> spec_fn(Seq<char>) -> bool {
    |n: Seq<char>| n != revoked
}

/// The names other than `revoked`, in order.
pub open spec fn names_but(names: Seq<Seq<char>>, revoked: Seq<char>) -> Seq<Seq<char>> {
    names.filter(other_than(revoked))
}

/// The grant that takes the secret `revoked` away from a plugin with these
/// permissions: it may read the others, and where there are none, nothing.
pub open spec fn without_secret(effective: Seq<Seq<char>>, revoked: Seq<char>) -> ApprovalView {
    ApprovalView::Narrow(
        seq![
            NarrowingView {
                domain: "secret"@,
                action: "read"@,
                resources: names_but(secrets_of(effective), revoked),
            },
        ],
    )
}

/// The grant that takes the secret `revoked` away from a plugin with these
/// permissions.
pub fn grant_without_secret(effective: &Vec<String>, revoked: &str) -> (r: Approval)
    ensures
        r@ == without_secret(strings(effective@), revoked@),
{
    let names = secret_names(effective);
    let ghost all = strings(names@);
    let ghost keep = other_than(revoked@);
    let mut resources: Vec<String> = Vec::new();
    let mut i: usize = 0;
    proof {
        reveal(Seq::filter);
    }
    assert(strings(resources@) =~= all.subrange(0, 0).filter(keep));
    while i < names.len()
        invariant
            i <= names@.len(),
            all == strings(names@),
            keep == other_than(revoked@),
            strings(resources@) == all.subrange(0, i as int).filter(keep),
        decreases names@.len() - i,
    {
        let ghost next = all.subrange(0, i + 1);
        let ghost now = strings(resources@);
        proof {
            reveal(Seq::filter);
        }
        assert(next.drop_last() =~= all.subrange(0, i as int));
        assert(next.last() == names@[i as int]@);
        if !text_eq(names[i].as_str(), revoked) {
            resources.push(names[i].clone());
            assert(strings(resources@) =~= now.push(names@[i as int]@));
        }
        i = i + 1;
    }
    assert(all.subrange(0, all.len() as int) =~= all);
    let mut narrowings: Vec<Narrowing> = Vec::new();
    let n = Narrowing { domain: "secret".to_owned(), action: "read".to_owned(), resources };
    narrowings.push(n);
    let r = Approval::Narrow { narrowings };
    assert(narrowings@.map_values(|n: Narrowing| n@) =~= seq![n@]);
    r
}

/// A revoked secret is gone from the grant, and no other is.
pub proof fn revoking_takes_one_secret(names: Seq<Seq<char>>, revoked: Seq<char>, other: Seq<char>)
    ensures
        !names_but(names, revoked).contains(revoked),
        other != revoked ==> (names_but(names, revoked).contains(other) <==> names.contains(other)),
{
    let keep = other_than(revoked);
    assert(!keep(revoked));
    lemma_filter_member(names, keep, revoked);
    assert(other != revoked ==> keep(other));
    lemma_filter_member(names, keep, other);
}

impl PluginHost {
    /// No plugins yet.
    pub fn new() -> (r: PluginHost)
        ensures
            r@ == (PluginHostView { loaded: Seq::empty(), pending: Seq::empty() }),
    {
        let r = PluginHost { loaded: Vec::new(), pending: Vec::new() };
        assert(r@.loaded =~= Seq::empty());
        assert(r@.pending =~= Seq::empty());
        r
    }

    /// The plugins that are loaded, in load order.
    pub fn loaded(&self) -> (r: &Vec<ResolvedPlugin>)
        ensures
            r@ == self@.loaded,
    {
        &self.loaded
    }

    /// The plugins that wait for approval, the first dialog first.
    pub fn pending(&self) -> (r: &Vec<Pending>)
        ensures
            r@ == self@.pending,
    {
        &self.pending
    }

    /// Takes in a plugin of the initial load: one that may load without asking
    /// is kept where `load_ok` says that it loaded, and one that needs a
    /// dialog waits for it. One that could not be classified is passed over.
    /// Says whether an approval is to be recorded: that of a plugin that was
    /// loaded and is not trusted by construction.
    pub fn take_resolved(
        &mut self,
        plugin: ResolvedPlugin,
        outcome: Result<ApprovalOutcome, ClassifyError>,
        load_ok: bool,
    ) -> (r: bool)
        ensures
            match outcome {
                Ok(ApprovalOutcome::AutoGrant) => {
                    &&& final(self)@ == if load_ok {
                        PluginHostView { loaded: old(self)@.loaded.push(plugin), ..old(self)@ }
                    } else {
                        old(self)@
                    }
                    &&& r == (load_ok && !trusted(plugin.provenance))
                },
                Ok(ApprovalOutcome::NeedsDialog(req)) => {
                    &&& final(self)@ == (PluginHostView {
                        pending: old(self)@.pending.push((plugin, req)),
                        ..old(self)@
                    })
                    &&& !r
                },
                Err(_) => final(self)@ == old(self)@ && !r,
            },
    {
        match outcome {
            Ok(ApprovalOutcome::AutoGrant) => {
                let record = load_ok && records_approval(plugin.provenance);
                if load_ok {
                    self.loaded.push(plugin);
                }
                record
            },
            Ok(ApprovalOutcome::NeedsDialog(req)) => {
                self.pending.push((plugin, req));
                false
            },
            Err(_) => false,
        }
    }

    /// Takes a dialog's answer. A denied plugin is dropped; one that is granted
    /// is to be loaded, or reloaded where it is `running`, and reported to
    /// [`PluginHost::approval_loaded`].
    pub fn approve_pending(&mut self, result: &DialogResult, running: bool) -> (r: ApproveStep)
        ensures
            match approve_step(old(self)@.pending, result@, running) {
                StepView::Drop => {
                    &&& r == ApproveStep::Done(ApproveOutcome::NotPending)
                    &&& final(self)@ == old(self)@
                },
                StepView::Deny(at) => {
                    &&& r == ApproveStep::Done(ApproveOutcome::Denied)
                    &&& final(self)@ == (PluginHostView {
                        pending: old(self)@.pending.remove(at),
                        ..old(self)@
                    })
                },
                StepView::Load(at, grant, by) => final(self)@ == old(self)@ && match r {
                    ApproveStep::Load { index, approval, call } => index == at && approval@
                        == grant && call == by && index < old(self)@.pending.len(),
                    _ => false,
                },
            },
    {
        let at = find_name(&self.pending, result.plugin());
        if at == self.pending.len() {
            return ApproveStep::Done(ApproveOutcome::NotPending);
        }
        if !answers_request(&self.pending[at].1, result) {
            return ApproveStep::Done(ApproveOutcome::NotPending);
        }
        let approval = approval_from_dialog(result);
        let denied = match &approval {
            Approval::Deny { reason: _ } => true,
            _ => false,
        };
        if denied {
            let _ = self.pending.remove(at);
            return ApproveStep::Done(ApproveOutcome::Denied);
        }
        let call = if running {
            LoadCall::Reload
        } else {
            LoadCall::Load
        };
        ApproveStep::Load { index: at, approval, call }
    }

    /// Takes in whether the pending plugin at `index` could be loaded: then it
    /// is a loaded one, and its approval is recorded unless it is trusted by
    /// construction; else it goes on waiting, and nothing is recorded.
    pub fn approval_loaded(&mut self, index: usize, load_ok: bool) -> (r: LoadReport)
        requires
            index < old(self)@.pending.len(),
        ensures
            r.outcome == if load_ok {
                ApproveOutcome::Loaded
            } else {
                ApproveOutcome::LoadFailed
            },
            r.record == (load_ok && !trusted(old(self)@.pending[index as int].0.provenance)),
            final(self)@ == if load_ok {
                PluginHostView {
                    loaded: old(self)@.loaded.push(old(self)@.pending[index as int].0),
                    pending: old(self)@.pending.remove(index as int),
                }
            } else {
                old(self)@
            },
    {
        if load_ok {
            let (plugin, _req) = self.pending.remove(index);
            let record = records_approval(plugin.provenance);
            self.loaded.push(plugin);
            LoadReport { outcome: ApproveOutcome::Loaded, record }
        } else {
            LoadReport { outcome: ApproveOutcome::LoadFailed, record: false }
        }
    }

    /// Lets a plugin wait for approval, in place of what was loaded or waited
    /// under its name.
    pub fn park_pending(&mut self, plugin: ResolvedPlugin, req: ApprovalRequest)
        ensures
            final(self)@ == (PluginHostView {
                loaded: without_name(old(self)@.loaded, plugin.called()),
                pending: without_name(old(self)@.pending, plugin.called()).push((plugin, req)),
            }),
    {
        remove_name(&mut self.loaded, plugin.name());
        remove_name(&mut self.pending, plugin.name());
        self.pending.push((plugin, req));
    }

    /// Asks again how far the grant of a loaded plugin reaches: it waits for
    /// approval, with a dialog that shows nothing as new. `warnings` are those
    /// that its permissions trigger. Says whether there is such a plugin.
    pub fn adjust_scope_request(&mut self, name: &str, warnings: Vec<String>) -> (r: bool)
        ensures
            r == (place_of_name(old(self)@.loaded, name@) < old(self)@.loaded.len()),
            !r ==> final(self)@ == old(self)@,
            r ==> {
                let plugin = old(self)@.loaded[place_of_name(old(self)@.loaded, name@)];
                &&& final(self)@.loaded == without_name(old(self)@.loaded, name@)
                &&& final(self)@.pending.len() > 0
                &&& final(self)@.pending.drop_last() == without_name(old(self)@.pending, name@)
                &&& final(self)@.pending.last().0 == plugin
                &&& final(self)@.pending.last().1@ == request_for(
                    plugin.manifest,
                    plugin.provenance,
                    strings(warnings@),
                    true,
                    Seq::empty(),
                )
            },
    {
        let at = find_name(&self.loaded, name);
        if at == self.loaded.len() {
            return false;
        }
        let ghost all = self.loaded@;
        proof {
            lemma_place_of_name(all, name@);
        }
        let plugin = self.loaded.remove(at);
        let none: Vec<String> = Vec::new();
        assert(strings(none@) =~= Seq::<Seq<char>>::empty());
        let req = build_update_request(&plugin.manifest, plugin.provenance, warnings, none);
        proof {
            lemma_filter_removed(all, at as int, name@);
        }
        self.park_pending(plugin, req);
        assert(self.pending@.drop_last() =~= without_name(old(self)@.pending, name@));
        true
    }

    /// Takes in whether a plugin that is revoked was unloaded, and says whether
    /// its approval is to be dropped. One that was unloaded is no longer a
    /// loaded one, whatever becomes of its approval; one that was not still
    /// runs, so it stays, and so does its approval.
    pub fn revoke_plugin(&mut self, name: &str, unloaded: bool) -> (r: bool)
        ensures
            r == unloaded,
            final(self)@ == if unloaded {
                PluginHostView { loaded: without_name(old(self)@.loaded, name@), ..old(self)@ }
            } else {
                old(self)@
            },
    {
        if unloaded {
            remove_name(&mut self.loaded, name);
        }
        unloaded
    }

    /// Takes in that a plugin was resolved anew: it replaces the loaded one of
    /// its name.
    pub fn replace_loaded(&mut self, plugin: ResolvedPlugin)
        ensures
            ({
                let at = place_of_name(old(self)@.loaded, plugin.called());
                final(self)@ == if at < old(self)@.loaded.len() {
                    PluginHostView { loaded: old(self)@.loaded.update(at, plugin), ..old(self)@ }
                } else {
                    old(self)@
                }
            }),
    {
        let at = find_name(&self.loaded, plugin.name());
        if at < self.loaded.len() {
            self.loaded.set(at, plugin);
        }
    }

    /// Takes in whether a loaded plugin could be reloaded from `source`: then
    /// that is its source from now on, and else it keeps the one that it has.
    pub fn source_reloaded(&mut self, name: &str, source: String, ok: bool)
        ensures
            ({
                let at = place_of_name(old(self)@.loaded, name@);
                final(self)@ == if ok && at < old(self)@.loaded.len() {
                    PluginHostView {
                        loaded: old(self)@.loaded.update(
                            at,
                            ResolvedPlugin { init_source: source, ..old(self)@.loaded[at] },
                        ),
                        ..old(self)@
                    }
                } else {
                    old(self)@
                }
            }),
    {
        let at = find_name(&self.loaded, name);
        if ok && at < self.loaded.len() {
            let ghost before = self.loaded@;
            let mut plugin = self.loaded.remove(at);
            plugin.init_source = source;
            self.loaded.insert(at, plugin);
            assert(self.loaded@ =~= before.update(at as int, plugin));
        }
    }

    /// The source that a loaded plugin is reloaded from: the one on disk, where
    /// it could be read, else the one that it was loaded from. `None` where no
    /// such plugin is loaded.
    pub fn reload_source(&self, name: &str, on_disk: Option<String>) -> (r: Option<String>)
        ensures
            ({
                let at = place_of_name(self@.loaded, name@);
                opt_text(r) == if at >= self@.loaded.len() {
                    None
                } else if on_disk is Some {
                    opt_text(on_disk)
                } else {
                    Some(self@.loaded[at].init_source@)
                }
            }),
    {
        let at = find_name(&self.loaded, name);
        if at == self.loaded.len() {
            return None;
        }
        match on_disk {
            Some(source) => Some(source),
            None => Some(self.loaded[at].init_source.clone()),
        }
    }

    /// How the secret `revoked` is taken away from a plugin: it is reloaded from
    /// the source that it has, with the grant that leaves the others. `effective`
    /// are the permissions of a running plugin; `None` where the plugin does not
    /// run, or is not a loaded one.
    pub fn revoke_secret(&self, name: &str, effective: Option<Vec<String>>, revoked: &str) -> (r:
        Option<(String, Approval)>)
        ensures
            ({
                let at = place_of_name(self@.loaded, name@);
                match r {
                    Some((source, grant)) => {
                        &&& effective is Some
                        &&& at < self@.loaded.len()
                        &&& source@ == self@.loaded[at].init_source@
                        &&& grant@ == without_secret(strings((effective->0)@), revoked@)
                    },
                    None => effective is None || at >= self@.loaded.len(),
                }
            }),
    {
        let permissions = match effective {
            Some(p) => p,
            None => {
                return None;
            },
        };
        let at = find_name(&self.loaded, name);
        if at == self.loaded.len() {
            return None;
        }
        let grant = grant_without_secret(&permissions, revoked);
        Some((self.loaded[at].init_source.clone(), grant))
    }

    /// The place of the loaded plugin called `name`.
    pub fn loaded_resolved(&self, name: &str) -> (r: Option<usize>)
        ensures
            match r {
                Some(at) => at == place_of_name(self@.loaded, name@) && at < self@.loaded.len(),
                None => place_of_name(self@.loaded, name@) >= self@.loaded.len(),
            },
    {
        let at = find_name(&self.loaded, name);
        if at < self.loaded.len() {
            Some(at)
        } else {
            None
        }
    }
}

/// Removing a plugin that is called `name` before those of that name are
/// filtered out makes no difference.
proof fn lemma_filter_removed(all: Seq<ResolvedPlugin>, at: int, name: Seq<char>)
    requires
        0 <= at < all.len(),
        all[at].called() == name,
    ensures
        without_name(all.remove(at), name) == without_name(all, name),
{
    let keep = called_otherwise::<ResolvedPlugin>(name);
    let a = all.subrange(0, at);
    let b = all.subrange(at + 1, all.len() as int);
    let x = seq![all[at]];
    assert(all =~= a + (x + b));
    assert(all.remove(at) =~= a + b);
    Seq::filter_distributes_over_add(a, x + b, keep);
    Seq::filter_distributes_over_add(x, b, keep);
    Seq::filter_distributes_over_add(a, b, keep);
    reveal_with_fuel(Seq::filter, 2);
    assert(x.drop_last() =~= Seq::<ResolvedPlugin>::empty());
    assert(x.last() == all[at]);
    assert(x.filter(keep) =~= Seq::<ResolvedPlugin>::empty());
    assert(Seq::<ResolvedPlugin>::empty() + b.filter(keep) =~= b.filter(keep));
}

/// What bears another name stays, and nothing that bears the name does.
proof fn lemma_without_name<T: Named>(items: Seq<T>, name: Seq<char>)
    ensures
        forall|i: int|
            0 <= i < without_name(items, name).len() ==> (#[trigger] without_name(
                items,
                name,
            )[i]).called() != name,
        forall|x: T|
            x.called() != name ==> (#[trigger] without_name(items, name).contains(x)
                <==> items.contains(x)),
{
    let keep = called_otherwise::<T>(name);
    let left = without_name(items, name);
    assert forall|i: int| 0 <= i < left.len() implies (#[trigger] left[i]).called() != name by {
        assert(left.contains(left[i]));
        lemma_filter_member(items, keep, left[i]);
    }
    assert forall|x: T| x.called() != name implies (#[trigger] left.contains(x) <==> items.contains(
        x,
    )) by {
        lemma_filter_member(items, keep, x);
    }
}

/// A parked plugin waits once, under its fresh dialog, and is not among the
/// loaded ones; every other plugin stays where it was.
pub proof fn parked_plugins_wait_once(
    loaded: Seq<ResolvedPlugin>,
    pending: Seq<Pending>,
    plugin: ResolvedPlugin,
)
    ensures
        forall|i: int|
            0 <= i < without_name(loaded, plugin.called()).len() ==> (#[trigger] without_name(
                loaded,
                plugin.called(),
            )[i]).called() != plugin.called(),
        forall|i: int|
            0 <= i < without_name(pending, plugin.called()).len() ==> (#[trigger] without_name(
                pending,
                plugin.called(),
            )[i]).called() != plugin.called(),
        forall|p: ResolvedPlugin|
            p.called() != plugin.called() ==> (#[trigger] without_name(
                loaded,
                plugin.called(),
            ).contains(p) <==> loaded.contains(p)),
        forall|p: Pending|
            p.called() != plugin.called() ==> (#[trigger] without_name(
                pending,
                plugin.called(),
            ).contains(p) <==> pending.contains(p)),
{
    lemma_without_name(loaded, plugin.called());
    lemma_without_name(pending, plugin.called());
}

/// An answer for a plugin that does not wait is dropped, and so is one that
/// answers for a pair of domain and action that was not requested, be it in a
/// domain that was: nothing is loaded because of it.
pub proof fn unrequested_answers_are_dropped(
    pending: Seq<Pending>,
    result: DialogResultView,
    running: bool,
    i: int,
)
    requires
        0 <= i < result.permissions.len(),
        ({
            let at = place_of_name(pending, result.plugin);
            at < pending.len() ==> !asked_for(
                pending[at].1@,
                result.permissions[i].domain,
                result.permissions[i].action,
            )
        }),
    ensures
        approve_step(pending, result, running) is Drop,
{
}

/// What is loaded was granted: the plugin waited under that name, the answer
/// is for what its dialog asked, and it neither denied nor widened anything.
pub proof fn loads_were_granted(pending: Seq<Pending>, result: DialogResultView, running: bool)
    requires
        approve_step(pending, result, running) is Load,
    ensures
        ({
            let at = approve_step(pending, result, running)->Load_0;
            &&& 0 <= at < pending.len()
            &&& pending[at].called() == result.plugin
            &&& answers(pending[at].1@, result)
            &&& approve_step(pending, result, running)->Load_1 == dialog_approval(result)
            &&& !(dialog_approval(result) is Deny)
        }),
{
    lemma_place_of_name(pending, result.plugin);
}

} // verus!
