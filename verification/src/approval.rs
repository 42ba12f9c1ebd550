//! From an approval dialog's answer to a grant: validation of what the dialog
//! sends, and what a plugin may do because of it.

use crate::text::{chars_of, clone_strings, strings, text_eq};
use vstd::prelude::*;
use vstd::utf8::encode_utf8;

verus! {

/// The largest number of bytes of one origin glob.
pub const MAX_ORIGIN_GLOB_LEN: usize = 2048;

/// The largest number of origin globs that one permission may carry.
pub const MAX_ORIGINS_PER_PERMISSION: usize = 64;

/// A character that an origin glob may hold.
pub open spec fn glob_char(c: char) -> bool {
    ||| 'a' <= c <= 'z' || 'A' <= c <= 'Z' || '0' <= c <= '9'
    ||| c == '.' || c == '-' || c == '_' || c == ':' || c == '/' || c == '*' || c == '?' || c
        == '@' || c == '~'
}

/// A well-formed origin glob: not empty, of bounded length, and made of the
/// characters that a URL or host pattern needs.
pub open spec fn valid_glob(s: Seq<char>) -> bool {
    &&& 0 < s.len() <= MAX_ORIGIN_GLOB_LEN
    &&& forall|i: int| 0 <= i < s.len() ==> glob_char(#[trigger] s[i])
}

/// Validates one origin glob where it enters the shell: it must not be empty,
/// not exceed [`MAX_ORIGIN_GLOB_LEN`] bytes, and hold only letters, digits and
/// `. - _ : / * ? @ ~`.
pub fn validate_origin_glob(s: &str) -> (r: bool)
    ensures
        r == valid_glob(s@),
{
    let v = chars_of(s);
    if v.len() == 0 || v.len() > MAX_ORIGIN_GLOB_LEN {
        return false;
    }
    let mut i: usize = 0;
    while i < v.len()
        invariant
            i <= v@.len(),
            v@ == s@,
            forall|k: int| 0 <= k < i ==> glob_char(#[trigger] v@[k]),
        decreases v@.len() - i,
    {
        let c = v[i];
        if !(('a' <= c && c <= 'z') || ('A' <= c && c <= 'Z') || ('0' <= c && c <= '9') || c == '.'
            || c == '-' || c == '_' || c == ':' || c == '/' || c == '*' || c == '?' || c == '@'
            || c == '~') {
            assert(!glob_char(s@[i as int]));
            return false;
        }
        i = i + 1;
    }
    true
}

/// A glob that passes is plain ASCII, so its length in characters is its
/// length in bytes: it holds no control character, no white space, no quote,
/// no backslash, no markup and no percent sign.
pub proof fn valid_globs_are_plain(s: Seq<char>)
    requires
        valid_glob(s),
    ensures
        encode_utf8(s).len() == s.len(),
        encode_utf8(s).len() <= MAX_ORIGIN_GLOB_LEN,
        forall|i: int|
            0 <= i < s.len() ==> {
                let c = #[trigger] s[i];
                0x21 <= c as u32 <= 0x7e && c != '"' && c != '\'' && c != '\\' && c != '<' && c
                    != '>' && c != '%'
            },
{
    assert forall|i: int| 0 <= i < s.len() implies {
        let c = #[trigger] s[i];
        0x21 <= c as u32 <= 0x7e && c != '"' && c != '\'' && c != '\\' && c != '<' && c != '>' && c
            != '%'
    } by {
        assert(glob_char(s[i]));
        lemma_glob_char_is_ascii(s[i]);
    }
    assert(vstd::utf8::is_ascii_chars(s));
    vstd::utf8::is_ascii_chars_encode_utf8(s);
}

proof fn lemma_glob_char_is_ascii(c: char)
    requires
        glob_char(c),
    ensures
        0x21 <= c as u32 <= 0x7e,
{
}

/// What the dialog says of one permission.
#[derive(Debug)]
pub struct DialogPermission {
    pub domain: String,
    pub action: String,
    /// `full`, `origins` or `deny`.
    pub mode: String,
    pub origins: Option<Vec<String>>,
}

/// What the dialog says of a plugin.
#[derive(Debug)]
pub struct DialogResult {
    pub plugin: String,
    /// `grant` or `deny`.
    pub decision: String,
    pub permissions: Vec<DialogPermission>,
}

/// [`DialogPermission`] as values.
pub struct DialogPermissionView {
    pub domain: Seq<char>,
    pub action: Seq<char>,
    pub mode: Seq<char>,
    pub origins: Option<Seq<Seq<char>>>,
}

/// [`DialogResult`] as values.
pub struct DialogResultView {
    pub plugin: Seq<char>,
    pub decision: Seq<char>,
    pub permissions: Seq<DialogPermissionView>,
}

impl View for DialogPermission {
    type V = DialogPermissionView;

    open spec fn view(&self) -> DialogPermissionView {
        DialogPermissionView {
            domain: self.domain@,
            action: self.action@,
            mode: self.mode@,
            origins: match self.origins {
                Some(o) => Some(strings(o@)),
                None => None,
            },
        }
    }
}

impl View for DialogResult {
    type V = DialogResultView;

    open spec fn view(&self) -> DialogResultView {
        DialogResultView {
            plugin: self.plugin@,
            decision: self.decision@,
            permissions: self.permissions@.map_values(|p: DialogPermission| p@),
        }
    }
}

impl DialogResult {
    /// The plugin that the answer is about.
    pub fn plugin(&self) -> (r: &str)
        ensures
            r@ == self@.plugin,
    {
        self.plugin.as_str()
    }
}

/// The origins of an answer; none where it gives none.
pub open spec fn origins_of(p: DialogPermissionView) -> Seq<Seq<char>> {
    match p.origins {
        Some(o) => o,
        None => Seq::empty(),
    }
}

/// A permission that was narrowed to more origins than are allowed.
pub open spec fn too_many_origins(p: DialogPermissionView) -> bool {
    p.mode == "origins"@ && origins_of(p).len() > MAX_ORIGINS_PER_PERMISSION
}

/// A permission that was narrowed to an origin that is no valid glob.
pub open spec fn has_bad_origin(p: DialogPermissionView) -> bool {
    p.mode == "origins"@ && exists|i: int|
        0 <= i < origins_of(p).len() && !valid_glob(#[trigger] origins_of(p)[i])
}

/// The verdict on the first permission that breaks a bound.
pub open spec fn origin_fault(perms: Seq<DialogPermissionView>) -> Option<Seq<char>>
    decreases perms.len(),
{
    if perms.len() == 0 {
        None
    } else if too_many_origins(perms[0]) {
        Some("approve_plugin: too many origins for a permission"@)
    } else if has_bad_origin(perms[0]) {
        Some("approve_plugin: invalid origin glob"@)
    } else {
        origin_fault(perms.drop_first())
    }
}

/// Whether all of the globs are valid.
fn all_valid(origins: &Vec<String>) -> (r: bool)
    ensures
        r == forall|i: int|
            0 <= i < strings(origins@).len() ==> valid_glob(#[trigger] strings(origins@)[i]),
{
    let mut i: usize = 0;
    while i < origins.len()
        invariant
            i <= origins@.len(),
            forall|k: int| 0 <= k < i ==> valid_glob(#[trigger] strings(origins@)[k]),
        decreases origins@.len() - i,
    {
        assert(strings(origins@)[i as int] == origins@[i as int]@);
        if !validate_origin_glob(origins[i].as_str()) {
            return false;
        }
        i = i + 1;
    }
    true
}

/// Validates the origin globs of a dialog's answer: for every permission that
/// was narrowed to origins, their number and each of them. The first violation
/// rejects the whole answer.
pub fn validate_dialog_origins(result: &DialogResult) -> (r: Result<(), &'static str>)
    ensures
        match r {
            Ok(_) => origin_fault(result@.permissions) is None,
            Err(msg) => origin_fault(result@.permissions) == Some(msg@),
        },
{
    let ghost perms = result@.permissions;
    let mut i: usize = 0;
    assert(perms.skip(0) =~= perms);
    while i < result.permissions.len()
        invariant
            i <= result.permissions@.len(),
            perms == result@.permissions,
            origin_fault(perms) == origin_fault(perms.skip(i as int)),
        decreases result.permissions@.len() - i,
    {
        let p = &result.permissions[i];
        let ghost rest = perms.skip(i as int);
        assert(rest[0] == p@);
        assert(rest.drop_first() =~= perms.skip(i + 1));
        if text_eq(p.mode.as_str(), "origins") {
            match &p.origins {
                Some(origins) => {
                    assert(origins_of(p@) == strings(origins@));
                    if origins.len() > MAX_ORIGINS_PER_PERMISSION {
                        return Err("approve_plugin: too many origins for a permission");
                    }
                    if !all_valid(origins) {
                        return Err("approve_plugin: invalid origin glob");
                    }
                },
                None => {},
            }
        }
        i = i + 1;
    }
    assert(perms.skip(i as int) =~= Seq::<DialogPermissionView>::empty());
    Ok(())
}

/// An answer that passes validation narrows no permission to more origins than
/// are allowed, and to valid globs only.
pub proof fn validated_origins_are_bounded(perms: Seq<DialogPermissionView>)
    ensures
        origin_fault(perms) is None <==> forall|i: int|
            0 <= i < perms.len() ==> !too_many_origins(#[trigger] perms[i]) && !has_bad_origin(
                perms[i],
            ),
    decreases perms.len(),
{
    if perms.len() > 0 {
        let t = perms.drop_first();
        validated_origins_are_bounded(t);
        assert forall|i: int| 0 <= i < t.len() implies t[i] == #[trigger] perms[i + 1] by {}
        if origin_fault(perms) is None {
            assert forall|i: int| 0 <= i < perms.len() implies !too_many_origins(
                #[trigger] perms[i],
            ) && !has_bad_origin(perms[i]) by {
                if i > 0 {
                    assert(t[i - 1] == perms[i]);
                }
            }
        } else if origin_fault(t) is Some {
            let j = choose|j: int|
                0 <= j < t.len() && (too_many_origins(#[trigger] t[j]) || has_bad_origin(t[j]));
            assert(perms[j + 1] == t[j]);
        }
    }
}

/// A permission cut down to some of its resources.
#[derive(Debug)]
pub struct Narrowing {
    pub domain: String,
    pub action: String,
    pub resources: Vec<String>,
}

/// [`Narrowing`] as values.
pub struct NarrowingView {
    pub domain: Seq<char>,
    pub action: Seq<char>,
    pub resources: Seq<Seq<char>>,
}

impl View for Narrowing {
    type V = NarrowingView;

    open spec fn view(&self) -> NarrowingView {
        NarrowingView {
            domain: self.domain@,
            action: self.action@,
            resources: strings(self.resources@),
        }
    }
}

/// What a plugin is granted.
#[derive(Debug)]
pub enum Approval {
    GrantAsRequested,
    Narrow { narrowings: Vec<Narrowing> },
    Deny { reason: String },
}

/// [`Approval`] as a value.
pub enum ApprovalView {
    GrantAsRequested,
    Narrow(Seq<NarrowingView>),
    Deny(Seq<char>),
}

impl View for Approval {
    type V = ApprovalView;

    open spec fn view(&self) -> ApprovalView {
        match *self {
            Approval::GrantAsRequested => ApprovalView::GrantAsRequested,
            Approval::Narrow { narrowings } => ApprovalView::Narrow(
                narrowings@.map_values(|n: Narrowing| n@),
            ),
            Approval::Deny { reason } => ApprovalView::Deny(reason@),
        }
    }
}

/// Whether one of the permissions was denied.
pub open spec fn any_denied(perms: Seq<DialogPermissionView>) -> bool {
    exists|i: int| 0 <= i < perms.len() && (#[trigger] perms[i]).mode == "deny"@
}

/// A permission that was narrowed to no origin at all.
pub open spec fn narrowed_to_nothing(p: DialogPermissionView) -> bool {
    p.mode == "origins"@ && origins_of(p).len() == 0
}

/// The first permission that was narrowed to no origin at all.
pub open spec fn first_empty(perms: Seq<DialogPermissionView>) -> Option<DialogPermissionView>
    decreases perms.len(),
{
    if perms.len() == 0 {
        None
    } else if narrowed_to_nothing(perms[0]) {
        Some(perms[0])
    } else {
        first_empty(perms.drop_first())
    }
}

/// The narrowings of the permissions that were narrowed, in order.
pub open spec fn narrowings_of(perms: Seq<DialogPermissionView>) -> Seq<NarrowingView>
    decreases perms.len(),
{
    if perms.len() == 0 {
        Seq::empty()
    } else {
        let rest = narrowings_of(perms.drop_last());
        let p = perms.last();
        if p.mode == "origins"@ {
            rest.push(
                NarrowingView { domain: p.domain, action: p.action, resources: origins_of(p) },
            )
        } else {
            rest
        }
    }
}

/// Why a plugin is not granted: the user said no.
pub open spec fn denied_reason(plugin: Seq<char>) -> Seq<char> {
    "plugin '"@ + plugin + "' was denied by the user in the approval dialog"@
}

/// Why a plugin is not granted: the user said no to a permission.
pub open spec fn permission_denied_reason(plugin: Seq<char>) -> Seq<char> {
    "plugin '"@ + plugin + "' was denied: at least one required permission was denied"@
}

/// Why a plugin is not granted: a permission was narrowed to nothing.
pub open spec fn malformed_reason(plugin: Seq<char>, p: DialogPermissionView) -> Seq<char> {
    "plugin '"@ + plugin + "' was denied: permission '"@ + p.domain + ":"@ + p.action
        + "' was narrowed to origins but no origins were provided (malformed dialog result)"@
}

/// What a dialog's answer grants.
pub open spec fn dialog_approval(result: DialogResultView) -> ApprovalView {
    let perms = result.permissions;
    if result.decision != "grant"@ {
        ApprovalView::Deny(denied_reason(result.plugin))
    } else if any_denied(perms) {
        ApprovalView::Deny(permission_denied_reason(result.plugin))
    } else if first_empty(perms) is Some {
        ApprovalView::Deny(malformed_reason(result.plugin, first_empty(perms)->0))
    } else if narrowings_of(perms).len() == 0 {
        ApprovalView::GrantAsRequested
    } else {
        ApprovalView::Narrow(narrowings_of(perms))
    }
}

fn has_denied(perms: &Vec<DialogPermission>) -> (r: bool)
    ensures
        r == any_denied(perms@.map_values(|p: DialogPermission| p@)),
{
    let ghost views = perms@.map_values(|p: DialogPermission| p@);
    let mut i: usize = 0;
    while i < perms.len()
        invariant
            i <= perms@.len(),
            views == perms@.map_values(|p: DialogPermission| p@),
            forall|k: int| 0 <= k < i ==> (#[trigger] views[k]).mode != "deny"@,
        decreases perms@.len() - i,
    {
        assert(views[i as int] == perms@[i as int]@);
        if text_eq(perms[i].mode.as_str(), "deny") {
            return true;
        }
        i = i + 1;
    }
    false
}

/// Maps a dialog's answer to a grant. Any refusal denies the whole plugin, and
/// so does a permission narrowed to no origin: to grant it would widen what
/// the user meant.
pub fn approval_from_dialog(result: &DialogResult) -> (r: Approval)
    ensures
        r@ == dialog_approval(result@),
{
    if !text_eq(result.decision.as_str(), "grant") {
        let mut reason = String::new();
        reason.push_str("plugin '");
        reason.push_str(result.plugin.as_str());
        reason.push_str("' was denied by the user in the approval dialog");
        assert(reason@ =~= denied_reason(result@.plugin));
        return Approval::Deny { reason };
    }
    if has_denied(&result.permissions) {
        let mut reason = String::new();
        reason.push_str("plugin '");
        reason.push_str(result.plugin.as_str());
        reason.push_str("' was denied: at least one required permission was denied");
        assert(reason@ =~= permission_denied_reason(result@.plugin));
        return Approval::Deny { reason };
    }
    let ghost perms = result@.permissions;
    let mut narrowings: Vec<Narrowing> = Vec::new();
    let mut i: usize = 0;
    assert(perms.skip(0) =~= perms);
    assert(narrowings@.map_values(|n: Narrowing| n@) =~= narrowings_of(perms.subrange(0, 0)));
    while i < result.permissions.len()
        invariant
            i <= result.permissions@.len(),
            perms == result@.permissions,
            result@.decision == "grant"@,
            !any_denied(perms),
            first_empty(perms) == first_empty(perms.skip(i as int)),
            narrowings@.map_values(|n: Narrowing| n@) == narrowings_of(
                perms.subrange(0, i as int),
            ),
        decreases result.permissions@.len() - i,
    {
        let p = &result.permissions[i];
        let ghost rest = perms.skip(i as int);
        let ghost next = perms.subrange(0, i + 1);
        assert(rest[0] == p@);
        assert(rest.drop_first() =~= perms.skip(i + 1));
        assert(next.drop_last() =~= perms.subrange(0, i as int));
        assert(next.last() == p@);
        if text_eq(p.mode.as_str(), "origins") {
            let origins = match &p.origins {
                Some(o) => clone_strings(o),
                None => Vec::new(),
            };
            assert(strings(origins@) =~= origins_of(p@));
            if origins.len() == 0 {
                let mut reason = String::new();
                reason.push_str("plugin '");
                reason.push_str(result.plugin.as_str());
                reason.push_str("' was denied: permission '");
                reason.push_str(p.domain.as_str());
                reason.push_str(":");
                reason.push_str(p.action.as_str());
                reason.push_str(
                    "' was narrowed to origins but no origins were provided (malformed dialog result)",
                );
                assert(reason@ =~= malformed_reason(result@.plugin, p@));
                return Approval::Deny { reason };
            }
            let ghost before = narrowings@.map_values(|n: Narrowing| n@);
            let n = Narrowing {
                domain: p.domain.clone(),
                action: p.action.clone(),
                resources: origins,
            };
            narrowings.push(n);
            assert(narrowings@.map_values(|n: Narrowing| n@) =~= before.push(n@));
        }
        i = i + 1;
    }
    assert(perms.skip(i as int) =~= Seq::<DialogPermissionView>::empty());
    assert(perms.subrange(0, perms.len() as int) =~= perms);
    if narrowings.len() == 0 {
        assert(narrowings_of(perms).len() == 0);
        Approval::GrantAsRequested
    } else {
        assert(narrowings_of(perms).len() == narrowings@.len());
        Approval::Narrow { narrowings }
    }
}

/// A full grant is never more than the user gave: the decision was to grant,
/// and no permission was denied or narrowed.
pub proof fn full_grants_were_meant(result: DialogResultView)
    requires
        dialog_approval(result) == ApprovalView::GrantAsRequested,
    ensures
        result.decision == "grant"@,
        forall|i: int|
            0 <= i < result.permissions.len() ==> (#[trigger] result.permissions[i]).mode
                != "deny"@ && result.permissions[i].mode != "origins"@,
{
    let perms = result.permissions;
    assert forall|i: int| 0 <= i < perms.len() implies (#[trigger] perms[i]).mode != "deny"@
        && perms[i].mode != "origins"@ by {
        if perms[i].mode == "origins"@ {
            lemma_narrowings_cover(perms, i);
        }
    }
}

/// Every permission that was narrowed has its narrowing.
proof fn lemma_narrowings_cover(perms: Seq<DialogPermissionView>, i: int)
    requires
        0 <= i < perms.len(),
        perms[i].mode == "origins"@,
    ensures
        narrowings_of(perms).contains(
            NarrowingView {
                domain: perms[i].domain,
                action: perms[i].action,
                resources: origins_of(perms[i]),
            },
        ),
    decreases perms.len(),
{
    let front = perms.drop_last();
    let all = narrowings_of(perms);
    let rest = narrowings_of(front);
    let n = NarrowingView {
        domain: perms[i].domain,
        action: perms[i].action,
        resources: origins_of(perms[i]),
    };
    if i == perms.len() - 1 {
        assert(all[all.len() - 1] == n);
    } else {
        assert(front[i] == perms[i]);
        lemma_narrowings_cover(front, i);
        let k = choose|k: int| 0 <= k < rest.len() && rest[k] == n;
        assert(all[k] == n);
    }
}

proof fn lemma_no_empty(perms: Seq<DialogPermissionView>, i: int)
    requires
        first_empty(perms) is None,
        0 <= i < perms.len(),
    ensures
        !narrowed_to_nothing(perms[i]),
    decreases perms.len(),
{
    if i > 0 {
        lemma_no_empty(perms.drop_first(), i - 1);
        assert(perms.drop_first()[i - 1] == perms[i]);
    }
}

/// A narrowed grant narrows each permission that the user narrowed, to just
/// the origins that the user named, and there is at least one.
pub proof fn narrowed_grants_are_faithful(result: DialogResultView, i: int)
    requires
        dialog_approval(result) is Narrow,
        0 <= i < result.permissions.len(),
        result.permissions[i].mode == "origins"@,
    ensures
        origins_of(result.permissions[i]).len() > 0,
        (dialog_approval(result)->Narrow_0).contains(
            NarrowingView {
                domain: result.permissions[i].domain,
                action: result.permissions[i].action,
                resources: origins_of(result.permissions[i]),
            },
        ),
{
    lemma_no_empty(result.permissions, i);
    lemma_narrowings_cover(result.permissions, i);
}

/// One refusal is enough: a denied permission, or one narrowed to nothing,
/// denies the plugin whatever else was answered.
pub proof fn one_refusal_denies(result: DialogResultView, i: int)
    requires
        0 <= i < result.permissions.len(),
        result.permissions[i].mode == "deny"@ || narrowed_to_nothing(result.permissions[i]),
    ensures
        dialog_approval(result) is Deny,
{
    if first_empty(result.permissions) is None && narrowed_to_nothing(result.permissions[i]) {
        lemma_no_empty(result.permissions, i);
    }
}

impl Approval {
    /// The same grant once more.
    pub fn replay(&self) -> (r: Approval)
        ensures
            r@ == self@,
    {
        match self {
            Approval::GrantAsRequested => Approval::GrantAsRequested,
            Approval::Narrow { narrowings } => {
                let mut out: Vec<Narrowing> = Vec::new();
                let mut i: usize = 0;
                while i < narrowings.len()
                    invariant
                        i <= narrowings@.len(),
                        out@.len() == i,
                        forall|k: int| 0 <= k < i ==> (#[trigger] out@[k])@ == narrowings@[k]@,
                    decreases narrowings@.len() - i,
                {
                    let n = &narrowings[i];
                    out.push(
                        Narrowing {
                            domain: n.domain.clone(),
                            action: n.action.clone(),
                            resources: clone_strings(&n.resources),
                        },
                    );
                    i = i + 1;
                }
                assert(out@.map_values(|n: Narrowing| n@) =~= narrowings@.map_values(
                    |n: Narrowing| n@,
                ));
                Approval::Narrow { narrowings: out }
            },
            Approval::Deny { reason } => Approval::Deny { reason: reason.clone() },
        }
    }
}

/// A policy that gives the answer that was decided before, whatever is asked.
#[derive(Debug)]
pub struct DecidedPolicy {
    pub decision: Approval,
}

impl DecidedPolicy {
    /// The policy with this answer.
    pub fn new(decision: Approval) -> (r: DecidedPolicy)
        ensures
            r.decision == decision,
    {
        DecidedPolicy { decision }
    }

    /// The policy that grants what is requested.
    pub fn grant() -> (r: DecidedPolicy)
        ensures
            r.decision == Approval::GrantAsRequested,
    {
        DecidedPolicy { decision: Approval::GrantAsRequested }
    }

    /// The answer, whatever the plugin and its permissions.
    pub fn decide(&self, _plugin: &str, _requested: &[String]) -> (r: Approval)
        ensures
            r@ == self.decision@,
    {
        self.decision.replay()
    }
}

} // verus!
