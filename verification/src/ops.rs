//! The operations that the chrome may call: a closed set. Each turns its
//! parameters into a reply and, where it changes something, a command.

use crate::approval::{origin_fault, validate_dialog_origins, DialogResult};
use crate::command::{enqueued, push, CommandQueue, CommandView, FocusOwner, ShellCommand};
use crate::json::{
    flag_field, flag_member, json_object, number_field, number_member, object_view, parse_object,
    text_field, text_member, JsonMember, JsonMemberView,
};
use crate::keybinds::{keybinds_json, keybinds_list_json};
use crate::text::{opt_text, text_eq};
use vstd::prelude::*;

verus! {

/// What an operation answers.
#[derive(Debug)]
pub enum OpResponse {
    /// It succeeded, with this JSON.
    Reply(String),
    /// It was refused.
    Refusal { code: u16, message: String },
}

/// What an operation does: its answer, and the command that it gives.
#[derive(Debug)]
pub struct OpOutcome {
    pub response: OpResponse,
    pub command: Option<ShellCommand<String>>,
}

/// [`OpOutcome`] as a value.
pub enum OpView {
    /// It succeeds with this JSON, and gives the command, if any.
    Done(Seq<char>, Option<CommandView>),
    /// It is refused as a bad request, and gives no command.
    Refused(Seq<char>),
}

/// The members of the parameters of an operation.
pub type Params = Option<Vec<(String, JsonMember)>>;

/// [`Params`] as a value.
pub type ParamsView = Option<Seq<(Seq<char>, JsonMemberView)>>;

impl OpOutcome {
    /// Whether the outcome is the one that `v` describes.
    pub open spec fn is(&self, v: OpView) -> bool {
        match v {
            OpView::Done(body, command) => {
                &&& self.response matches OpResponse::Reply(b) && b@ == body
                &&& match self.command {
                    Some(c) => command == Some(c@),
                    None => command is None,
                }
            },
            OpView::Refused(why) => {
                &&& self.response matches OpResponse::Refusal { code, message } && code == 400
                    && message@ == why
                &&& self.command is None
            },
        }
    }
}

/// The command of an operation that takes no parameters.
pub open spec fn plain_command(op: Seq<char>) -> Option<CommandView> {
    if op == "bookmark_toggle"@ {
        Some(ShellCommand::BookmarkToggle)
    } else if op == "copy_active_url"@ {
        Some(ShellCommand::CopyActiveUrl)
    } else if op == "close_window"@ {
        Some(ShellCommand::CloseWindow)
    } else if op == "plugin_install_picker"@ {
        Some(ShellCommand::PluginInstallPicker)
    } else if op == "integrity_reverify_all"@ {
        Some(ShellCommand::IntegrityReverifyAll)
    } else if op == "go_back"@ {
        Some(ShellCommand::NavGoBack)
    } else if op == "go_forward"@ {
        Some(ShellCommand::NavGoForward)
    } else if op == "reload"@ {
        Some(ShellCommand::NavReload)
    } else if op == "stop"@ {
        Some(ShellCommand::NavStop)
    } else if op == "stop_finding"@ {
        Some(ShellCommand::StopFinding)
    } else if op == "find_next"@ {
        Some(ShellCommand::FindNext)
    } else if op == "find_prev"@ {
        Some(ShellCommand::FindPrev)
    } else if op == "zoom_in"@ {
        Some(ShellCommand::ZoomIn)
    } else if op == "zoom_out"@ {
        Some(ShellCommand::ZoomOut)
    } else if op == "zoom_reset"@ {
        Some(ShellCommand::ZoomReset)
    } else if op == "reopen_closed_tab"@ {
        Some(ShellCommand::ReopenClosedTab)
    } else {
        None
    }
}

fn plain_command_of(op: &str) -> (r: Option<ShellCommand<String>>)
    ensures
        match r {
            Some(c) => plain_command(op@) == Some(c@),
            None => plain_command(op@) is None,
        },
{
    if text_eq(op, "bookmark_toggle") {
        Some(ShellCommand::BookmarkToggle)
    } else if text_eq(op, "copy_active_url") {
        Some(ShellCommand::CopyActiveUrl)
    } else if text_eq(op, "close_window") {
        Some(ShellCommand::CloseWindow)
    } else if text_eq(op, "plugin_install_picker") {
        Some(ShellCommand::PluginInstallPicker)
    } else if text_eq(op, "integrity_reverify_all") {
        Some(ShellCommand::IntegrityReverifyAll)
    } else if text_eq(op, "go_back") {
        Some(ShellCommand::NavGoBack)
    } else if text_eq(op, "go_forward") {
        Some(ShellCommand::NavGoForward)
    } else if text_eq(op, "reload") {
        Some(ShellCommand::NavReload)
    } else if text_eq(op, "stop") {
        Some(ShellCommand::NavStop)
    } else if text_eq(op, "stop_finding") {
        Some(ShellCommand::StopFinding)
    } else if text_eq(op, "find_next") {
        Some(ShellCommand::FindNext)
    } else if text_eq(op, "find_prev") {
        Some(ShellCommand::FindPrev)
    } else if text_eq(op, "zoom_in") {
        Some(ShellCommand::ZoomIn)
    } else if text_eq(op, "zoom_out") {
        Some(ShellCommand::ZoomOut)
    } else if text_eq(op, "zoom_reset") {
        Some(ShellCommand::ZoomReset)
    } else if text_eq(op, "reopen_closed_tab") {
        Some(ShellCommand::ReopenClosedTab)
    } else {
        None
    }
}

/// The command of an operation on the plugin `name`.
pub open spec fn plugin_command(op: Seq<char>, name: Seq<char>) -> Option<CommandView> {
    if op == "plugin_update"@ {
        Some(ShellCommand::PluginUpdate(name))
    } else if op == "plugin_rollback"@ {
        Some(ShellCommand::PluginRollback(name))
    } else if op == "plugin_reload"@ {
        Some(ShellCommand::PluginReload(name))
    } else if op == "plugin_revoke"@ {
        Some(ShellCommand::PluginRevoke(name))
    } else if op == "plugin_adjust_scope"@ {
        Some(ShellCommand::PluginAdjustScope(name))
    } else if op == "plugin_disable"@ {
        Some(ShellCommand::PluginDisable(name))
    } else if op == "plugin_uninstall"@ {
        Some(ShellCommand::PluginUninstall(name))
    } else if op == "integrity_plugin_detail"@ {
        Some(ShellCommand::IntegrityPluginDetail(name))
    } else {
        None
    }
}

fn plugin_command_of(op: &str, name: String) -> (r: Option<ShellCommand<String>>)
    ensures
        match r {
            Some(c) => plugin_command(op@, name@) == Some(c@),
            None => plugin_command(op@, name@) is None,
        },
{
    if text_eq(op, "plugin_update") {
        Some(ShellCommand::PluginUpdate(name))
    } else if text_eq(op, "plugin_rollback") {
        Some(ShellCommand::PluginRollback(name))
    } else if text_eq(op, "plugin_reload") {
        Some(ShellCommand::PluginReload(name))
    } else if text_eq(op, "plugin_revoke") {
        Some(ShellCommand::PluginRevoke(name))
    } else if text_eq(op, "plugin_adjust_scope") {
        Some(ShellCommand::PluginAdjustScope(name))
    } else if text_eq(op, "plugin_disable") {
        Some(ShellCommand::PluginDisable(name))
    } else if text_eq(op, "plugin_uninstall") {
        Some(ShellCommand::PluginUninstall(name))
    } else if text_eq(op, "integrity_plugin_detail") {
        Some(ShellCommand::IntegrityPluginDetail(name))
    } else {
        None
    }
}

/// The name of the one string that an operation takes.
pub open spec fn text_param(op: Seq<char>) -> Option<Seq<char>> {
    if op == "navigate"@ {
        Some("url"@)
    } else if op == "omnibox_submit"@ {
        Some("text"@)
    } else if op == "urlbar_query"@ {
        Some("text"@)
    } else if op == "set_active_panel"@ {
        Some("name"@)
    } else if op == "bookmark_remove"@ {
        Some("url"@)
    } else if op == "set_active_workspace"@ {
        Some("id"@)
    } else if op == "set_theme"@ {
        Some("theme"@)
    } else {
        None
    }
}

fn text_param_of(op: &str) -> (r: Option<&'static str>)
    ensures
        match r {
            Some(p) => text_param(op@) == Some(p@),
            None => text_param(op@) is None,
        },
{
    if text_eq(op, "navigate") {
        Some("url")
    } else if text_eq(op, "omnibox_submit") {
        Some("text")
    } else if text_eq(op, "urlbar_query") {
        Some("text")
    } else if text_eq(op, "set_active_panel") {
        Some("name")
    } else if text_eq(op, "bookmark_remove") {
        Some("url")
    } else if text_eq(op, "set_active_workspace") {
        Some("id")
    } else if text_eq(op, "set_theme") {
        Some("theme")
    } else {
        None
    }
}

/// The command of an operation that takes one string, for its value `t`.
pub open spec fn text_command(op: Seq<char>, t: Seq<char>) -> CommandView {
    if op == "navigate"@ {
        ShellCommand::Navigate(t)
    } else if op == "omnibox_submit"@ {
        ShellCommand::OmniboxSubmit(t)
    } else if op == "urlbar_query"@ {
        ShellCommand::UrlbarQuery(t)
    } else if op == "set_active_panel"@ {
        ShellCommand::SetActivePanel(t)
    } else if op == "bookmark_remove"@ {
        ShellCommand::BookmarkRemove(t)
    } else if op == "set_active_workspace"@ {
        ShellCommand::SwitchWorkspace(t)
    } else {
        ShellCommand::SetTheme(t)
    }
}

fn text_command_of(op: &str, t: String) -> (r: ShellCommand<String>)
    ensures
        r@ == text_command(op@, t@),
{
    if text_eq(op, "navigate") {
        ShellCommand::Navigate(t)
    } else if text_eq(op, "omnibox_submit") {
        ShellCommand::OmniboxSubmit(t)
    } else if text_eq(op, "urlbar_query") {
        ShellCommand::UrlbarQuery(t)
    } else if text_eq(op, "set_active_panel") {
        ShellCommand::SetActivePanel(t)
    } else if text_eq(op, "bookmark_remove") {
        ShellCommand::BookmarkRemove(t)
    } else if text_eq(op, "set_active_workspace") {
        ShellCommand::SwitchWorkspace(t)
    } else {
        ShellCommand::SetTheme(t)
    }
}

/// The string called `name`, where it is there and not empty.
pub open spec fn filled_member(params: ParamsView, name: Seq<char>) -> Option<Seq<char>> {
    match text_member(params, name) {
        Some(t) => if t.len() == 0 {
            None
        } else {
            Some(t)
        },
        None => None,
    }
}

fn filled_field(params: &Params, name: &str) -> (r: Option<String>)
    ensures
        opt_text(r) == filled_member(object_view(*params), name@),
{
    match text_field(params, name) {
        Some(t) => if t.as_str().is_empty() {
            None
        } else {
            Some(t)
        },
        None => None,
    }
}

/// The reply of an operation that has nothing to tell.
pub open spec fn plain_reply() -> Seq<char> {
    "{\"ok\":true}"@
}

/// The outcome of an operation on a plugin.
pub open spec fn plugin_action(op: Seq<char>, params: ParamsView) -> OpView {
    match filled_member(params, "plugin"@) {
        Some(name) => OpView::Done(plain_reply(), plugin_command(op, name)),
        None => OpView::Refused("requires a non-empty string `plugin`"@),
    }
}

/// The outcome of taking a secret away from a plugin.
pub open spec fn revoke_secret(params: ParamsView) -> OpView {
    match (filled_member(params, "plugin"@), filled_member(params, "name"@)) {
        (Some(plugin), Some(name)) => OpView::Done(
            plain_reply(),
            Some(ShellCommand::PluginRevokeSecret { plugin, name }),
        ),
        _ => OpView::Refused(
            "plugin_revoke_secret requires non-empty string fields `plugin` and `name`"@,
        ),
    }
}

/// The outcome of setting the search engine.
pub open spec fn set_search_engine(params: ParamsView) -> OpView {
    match (filled_member(params, "name"@), filled_member(params, "url_template"@)) {
        (Some(name), Some(url_template)) => OpView::Done(
            plain_reply(),
            Some(ShellCommand::SetSearchEngine { name, url_template }),
        ),
        _ => OpView::Refused(
            "set_search_engine requires non-empty string fields `name` and `url_template`"@,
        ),
    }
}

/// The outcome of an approval dialog's answer; `None` where the answer could
/// not be read.
pub open spec fn approve_plugin(dialog: Option<DialogResult>) -> OpView {
    match dialog {
        Some(result) => match origin_fault(result@.permissions) {
            Some(why) => OpView::Refused(why),
            None => OpView::Done(
                "{\"accepted\":true}"@,
                Some(ShellCommand::ApprovePlugin(result)),
            ),
        },
        None => OpView::Refused("approve_plugin: malformed payload"@),
    }
}

/// `op`, ` requires a `, the kind of parameter, and its name in backquotes.
pub open spec fn missing_param(op: Seq<char>, kind: Seq<char>, name: Seq<char>) -> Seq<char> {
    op + " requires a "@ + kind + " `"@ + name + "`"@
}

/// The outcome of an operation that takes one value, or is refused for want of
/// it.
pub open spec fn with_param(
    command: Option<CommandView>,
    op: Seq<char>,
    kind: Seq<char>,
    name: Seq<char>,
) -> OpView {
    match command {
        Some(c) => OpView::Done(plain_reply(), Some(c)),
        None => OpView::Refused(missing_param(op, kind, name)),
    }
}

/// `v` or, without it, `d`.
pub open spec fn or_default<A>(v: Option<A>, d: A) -> A {
    match v {
        Some(x) => x,
        None => d,
    }
}

/// The outcome of the operation `op`, given its parameters and, for an
/// approval, what was read of the dialog's answer. `None` where there is no
/// such operation.
pub open spec fn op_outcome(
    op: Seq<char>,
    params: ParamsView,
    dialog: Option<DialogResult>,
) -> Option<OpView> {
    if plain_command(op) is Some {
        Some(OpView::Done(plain_reply(), plain_command(op)))
    } else if plugin_command(op, Seq::empty()) is Some {
        Some(plugin_action(op, params))
    } else if text_param(op) is Some {
        let name = text_param(op)->0;
        Some(
            with_param(
                match text_member(params, name) {
                    Some(t) => Some(text_command(op, t)),
                    None => None,
                },
                op,
                "string"@,
                name,
            ),
        )
    } else if op == "new_tab"@ {
        Some(
            OpView::Done(
                plain_reply(),
                Some(ShellCommand::NewTab(text_member(params, "url"@))),
            ),
        )
    } else if op == "close_tab"@ {
        Some(
            with_param(
                match number_member(params, "id"@) {
                    Some(id) => Some(ShellCommand::CloseTab(id)),
                    None => None,
                },
                op,
                "numeric"@,
                "id"@,
            ),
        )
    } else if op == "select_tab"@ {
        Some(
            with_param(
                match number_member(params, "id"@) {
                    Some(id) => Some(ShellCommand::SelectTab(id)),
                    None => None,
                },
                op,
                "numeric"@,
                "id"@,
            ),
        )
    } else if op == "focus_changed"@ {
        let owner = if text_member(params, "owner"@) == Some("chrome"@) {
            FocusOwner::Chrome
        } else {
            FocusOwner::Page
        };
        Some(OpView::Done(plain_reply(), Some(ShellCommand::FocusOwner(owner))))
    } else if op == "approve_plugin"@ {
        Some(approve_plugin(dialog))
    } else if op == "plugin_revoke_secret"@ {
        Some(revoke_secret(params))
    } else if op == "set_search_engine"@ {
        Some(set_search_engine(params))
    } else if op == "set_hw_accel"@ {
        Some(
            with_param(
                match flag_member(params, "enabled"@) {
                    Some(b) => Some(ShellCommand::SetHwAccel(b)),
                    None => None,
                },
                op,
                "boolean"@,
                "enabled"@,
            ),
        )
    } else if op == "set_zoom_persist"@ {
        Some(
            with_param(
                match flag_member(params, "enabled"@) {
                    Some(b) => Some(ShellCommand::SetZoomPersist(b)),
                    None => None,
                },
                op,
                "boolean"@,
                "enabled"@,
            ),
        )
    } else if op == "security_info"@ {
        Some(OpView::Done("{\"ok\":true,\"type\":\"js_hydrated\"}"@, None))
    } else if op == "keybinds_list"@ {
        Some(OpView::Done(keybinds_json(), None))
    } else if op == "find_in_page"@ {
        Some(
            OpView::Done(
                plain_reply(),
                Some(
                    ShellCommand::FindText {
                        query: or_default(text_member(params, "text"@), Seq::empty()),
                        forward: or_default(flag_member(params, "forward"@), true),
                        find_next: or_default(flag_member(params, "findNext"@), false),
                    },
                ),
            ),
        )
    } else if op == "context_menu_action"@ {
        Some(
            OpView::Done(
                plain_reply(),
                Some(
                    ShellCommand::ContextMenuAction(
                        or_default(filled_member(params, "action"@), "unknown"@),
                    ),
                ),
            ),
        )
    } else {
        None
    }
}

fn done(command: ShellCommand<String>) -> (r: OpOutcome)
    ensures
        r.is(OpView::Done(plain_reply(), Some(command@))),
{
    OpOutcome { response: OpResponse::Reply("{\"ok\":true}".to_owned()), command: Some(command) }
}

fn refused(why: &str) -> (r: OpOutcome)
    ensures
        r.is(OpView::Refused(why@)),
{
    OpOutcome { response: OpResponse::Refusal { code: 400, message: why.to_owned() }, command: None }
}

fn done_with(command: Option<ShellCommand<String>>, op: &str, kind: &str, name: &str) -> (r:
    OpOutcome)
    ensures
        r.is(
            with_param(
                match command {
                    Some(c) => Some(c@),
                    None => None,
                },
                op@,
                kind@,
                name@,
            ),
        ),
{
    match command {
        Some(c) => done(c),
        None => {
            let mut why = op.to_owned();
            why.push_str(" requires a ");
            why.push_str(kind);
            why.push_str(" `");
            why.push_str(name);
            why.push_str("`");
            refused(why.as_str())
        },
    }
}

/// The outcome of an operation on a plugin: it must be named by a non-empty
/// string.
pub fn plugin_action_op(op: &str, params: &Params) -> (r: OpOutcome)
    requires
        plugin_command(op@, Seq::empty()) is Some,
    ensures
        r.is(plugin_action(op@, object_view(*params))),
{
    match filled_field(params, "plugin") {
        Some(name) => match plugin_command_of(op, name) {
            Some(c) => done(c),
            None => refused("requires a non-empty string `plugin`"),
        },
        None => refused("requires a non-empty string `plugin`"),
    }
}

/// The outcome of taking a secret away from a plugin: both must be named by
/// non-empty strings.
pub fn plugin_revoke_secret_op(params: &Params) -> (r: OpOutcome)
    ensures
        r.is(revoke_secret(object_view(*params))),
{
    match (filled_field(params, "plugin"), filled_field(params, "name")) {
        (Some(plugin), Some(name)) => done(ShellCommand::PluginRevokeSecret { plugin, name }),
        _ => refused("plugin_revoke_secret requires non-empty string fields `plugin` and `name`"),
    }
}

fn set_search_engine_op(params: &Params) -> (r: OpOutcome)
    ensures
        r.is(set_search_engine(object_view(*params))),
{
    match (filled_field(params, "name"), filled_field(params, "url_template")) {
        (Some(name), Some(url_template)) => done(
            ShellCommand::SetSearchEngine { name, url_template },
        ),
        _ => refused(
            "set_search_engine requires non-empty string fields `name` and `url_template`",
        ),
    }
}

fn approve_plugin_op(dialog: Option<DialogResult>) -> (r: OpOutcome)
    ensures
        r.is(approve_plugin(dialog)),
{
    match dialog {
        Some(result) => match validate_dialog_origins(&result) {
            Err(why) => refused(why),
            Ok(_) => OpOutcome {
                response: OpResponse::Reply("{\"accepted\":true}".to_owned()),
                command: Some(ShellCommand::ApprovePlugin(result)),
            },
        },
        None => refused("approve_plugin: malformed payload"),
    }
}

/// The outcome of the operation `op` on parsed parameters. `dialog` is what
/// was read of the parameters as an approval dialog's answer; only
/// `approve_plugin` looks at it. `None` where there is no such operation.
pub fn handle_params(op: &str, params: &Params, dialog: Option<DialogResult>) -> (r: Option<
    OpOutcome,
>)
    ensures
        match r {
            Some(o) => op_outcome(op@, object_view(*params), dialog) matches Some(v) && o.is(v),
            None => op_outcome(op@, object_view(*params), dialog) is None,
        },
{
    if let Some(c) = plain_command_of(op) {
        return Some(done(c));
    }
    let none = String::new();
    assert(none@ =~= Seq::<char>::empty());
    if plugin_command_of(op, none).is_some() {
        return Some(plugin_action_op(op, params));
    }
    if let Some(name) = text_param_of(op) {
        let command = match text_field(params, name) {
            Some(t) => Some(text_command_of(op, t)),
            None => None,
        };
        return Some(done_with(command, op, "string", name));
    }
    if text_eq(op, "new_tab") {
        Some(done(ShellCommand::NewTab(text_field(params, "url"))))
    } else if text_eq(op, "close_tab") {
        let command = match number_field(params, "id") {
            Some(id) => Some(ShellCommand::CloseTab(id)),
            None => None,
        };
        Some(done_with(command, op, "numeric", "id"))
    } else if text_eq(op, "select_tab") {
        let command = match number_field(params, "id") {
            Some(id) => Some(ShellCommand::SelectTab(id)),
            None => None,
        };
        Some(done_with(command, op, "numeric", "id"))
    } else if text_eq(op, "focus_changed") {
        let owner = match text_field(params, "owner") {
            Some(o) => if text_eq(o.as_str(), "chrome") {
                FocusOwner::Chrome
            } else {
                FocusOwner::Page
            },
            None => FocusOwner::Page,
        };
        Some(done(ShellCommand::FocusOwner(owner)))
    } else if text_eq(op, "approve_plugin") {
        Some(approve_plugin_op(dialog))
    } else if text_eq(op, "plugin_revoke_secret") {
        Some(plugin_revoke_secret_op(params))
    } else if text_eq(op, "set_search_engine") {
        Some(set_search_engine_op(params))
    } else if text_eq(op, "set_hw_accel") {
        let command = match flag_field(params, "enabled") {
            Some(b) => Some(ShellCommand::SetHwAccel(b)),
            None => None,
        };
        Some(done_with(command, op, "boolean", "enabled"))
    } else if text_eq(op, "set_zoom_persist") {
        let command = match flag_field(params, "enabled") {
            Some(b) => Some(ShellCommand::SetZoomPersist(b)),
            None => None,
        };
        Some(done_with(command, op, "boolean", "enabled"))
    } else if text_eq(op, "security_info") {
        Some(
            OpOutcome {
                response: OpResponse::Reply("{\"ok\":true,\"type\":\"js_hydrated\"}".to_owned()),
                command: None,
            },
        )
    } else if text_eq(op, "keybinds_list") {
        Some(OpOutcome { response: OpResponse::Reply(keybinds_list_json()), command: None })
    } else if text_eq(op, "find_in_page") {
        let query = match text_field(params, "text") {
            Some(t) => t,
            None => String::new(),
        };
        let forward = match flag_field(params, "forward") {
            Some(b) => b,
            None => true,
        };
        let find_next = match flag_field(params, "findNext") {
            Some(b) => b,
            None => false,
        };
        Some(done(ShellCommand::FindText { query, forward, find_next }))
    } else if text_eq(op, "context_menu_action") {
        let action = match filled_field(params, "action") {
            Some(a) => a,
            None => "unknown".to_owned(),
        };
        Some(done(ShellCommand::ContextMenuAction(action)))
    } else {
        None
    }
}

/// The outcome of the operation `op` on the JSON `params`.
pub fn handle_op(op: &str, params: &str, dialog: Option<DialogResult>) -> (r: Option<OpOutcome>)
    ensures
        match r {
            Some(o) => op_outcome(op@, json_object(params@), dialog) matches Some(v) && o.is(v),
            None => op_outcome(op@, json_object(params@), dialog) is None,
        },
{
    let object = parse_object(params);
    handle_params(op, &object, dialog)
}

/// The command that an operation gives.
pub open spec fn given_command(v: Option<OpView>) -> Option<CommandView> {
    match v {
        Some(OpView::Done(_, command)) => command,
        _ => None,
    }
}

/// Runs the operation `op`: its command, if it gives one, waits at the end of
/// the queue. A refused or unknown operation leaves the queue as it was.
pub fn run_op(
    queue: &mut CommandQueue,
    op: &str,
    params: &str,
    dialog: Option<DialogResult>,
) -> (r: Option<OpResponse>)
    ensures
        enqueued(
            old(queue)@,
            final(queue)@,
            given_command(op_outcome(op@, json_object(params@), dialog)),
        ),
        match r {
            Some(response) => match op_outcome(op@, json_object(params@), dialog) {
                Some(OpView::Done(body, _)) => response matches OpResponse::Reply(b) && b@ == body,
                Some(OpView::Refused(why)) => response matches OpResponse::Refusal { code, message }
                    && code == 400 && message@ == why,
                None => false,
            },
            None => op_outcome(op@, json_object(params@), dialog) is None,
        },
{
    match handle_op(op, params, dialog) {
        Some(outcome) => {
            if let Some(command) = outcome.command {
                push(queue, command);
                assert(queue@.drop_last() =~= old(queue)@);
            }
            Some(outcome.response)
        },
        None => None,
    }
}

/// No answer of a dialog enters the queue with an origin that is out of
/// bounds: only one whose origins are valid does.
pub proof fn queued_approvals_are_validated(
    op: Seq<char>,
    params: ParamsView,
    dialog: Option<DialogResult>,
    reply: Seq<char>,
    result: DialogResult,
)
    requires
        op_outcome(op, params, dialog) == Some(
            OpView::Done(reply, Some(ShellCommand::ApprovePlugin(result))),
        ),
    ensures
        dialog == Some(result),
        origin_fault(result@.permissions) is None,
{
}

/// The names of the operations.
pub open spec fn op_names() -> Seq<Seq<char>> {
    seq![
        "bookmark_toggle"@,
        "copy_active_url"@,
        "close_window"@,
        "plugin_install_picker"@,
        "integrity_reverify_all"@,
        "go_back"@,
        "go_forward"@,
        "reload"@,
        "stop"@,
        "stop_finding"@,
        "find_next"@,
        "find_prev"@,
        "zoom_in"@,
        "zoom_out"@,
        "zoom_reset"@,
        "reopen_closed_tab"@,
        "plugin_update"@,
        "plugin_rollback"@,
        "plugin_reload"@,
        "plugin_revoke"@,
        "plugin_adjust_scope"@,
        "plugin_disable"@,
        "plugin_uninstall"@,
        "integrity_plugin_detail"@,
        "navigate"@,
        "omnibox_submit"@,
        "urlbar_query"@,
        "set_active_panel"@,
        "bookmark_remove"@,
        "set_active_workspace"@,
        "set_theme"@,
        "new_tab"@,
        "close_tab"@,
        "select_tab"@,
        "focus_changed"@,
        "approve_plugin"@,
        "plugin_revoke_secret"@,
        "set_search_engine"@,
        "set_hw_accel"@,
        "set_zoom_persist"@,
        "security_info"@,
        "keybinds_list"@,
        "find_in_page"@,
        "context_menu_action"@,
    ]
}

/// The names of the operations.
pub fn operation_names() -> (r: Vec<&'static str>)
    ensures
        r@.map_values(|s: &'static str| s@) == op_names(),
{
    let mut out: Vec<&'static str> = Vec::new();
    out.push("bookmark_toggle");
    out.push("copy_active_url");
    out.push("close_window");
    out.push("plugin_install_picker");
    out.push("integrity_reverify_all");
    out.push("go_back");
    out.push("go_forward");
    out.push("reload");
    out.push("stop");
    out.push("stop_finding");
    out.push("find_next");
    out.push("find_prev");
    out.push("zoom_in");
    out.push("zoom_out");
    out.push("zoom_reset");
    out.push("reopen_closed_tab");
    out.push("plugin_update");
    out.push("plugin_rollback");
    out.push("plugin_reload");
    out.push("plugin_revoke");
    out.push("plugin_adjust_scope");
    out.push("plugin_disable");
    out.push("plugin_uninstall");
    out.push("integrity_plugin_detail");
    out.push("navigate");
    out.push("omnibox_submit");
    out.push("urlbar_query");
    out.push("set_active_panel");
    out.push("bookmark_remove");
    out.push("set_active_workspace");
    out.push("set_theme");
    out.push("new_tab");
    out.push("close_tab");
    out.push("select_tab");
    out.push("focus_changed");
    out.push("approve_plugin");
    out.push("plugin_revoke_secret");
    out.push("set_search_engine");
    out.push("set_hw_accel");
    out.push("set_zoom_persist");
    out.push("security_info");
    out.push("keybinds_list");
    out.push("find_in_page");
    out.push("context_menu_action");
    assert(out@.map_values(|s: &'static str| s@) =~= op_names());
    out
}

/// Where each name stands.
proof fn lemma_name_places()
    ensures
        op_names().len() == 44,
        op_names()[0] == "bookmark_toggle"@,
        op_names()[1] == "copy_active_url"@,
        op_names()[2] == "close_window"@,
        op_names()[3] == "plugin_install_picker"@,
        op_names()[4] == "integrity_reverify_all"@,
        op_names()[5] == "go_back"@,
        op_names()[6] == "go_forward"@,
        op_names()[7] == "reload"@,
        op_names()[8] == "stop"@,
        op_names()[9] == "stop_finding"@,
        op_names()[10] == "find_next"@,
        op_names()[11] == "find_prev"@,
        op_names()[12] == "zoom_in"@,
        op_names()[13] == "zoom_out"@,
        op_names()[14] == "zoom_reset"@,
        op_names()[15] == "reopen_closed_tab"@,
        op_names()[16] == "plugin_update"@,
        op_names()[17] == "plugin_rollback"@,
        op_names()[18] == "plugin_reload"@,
        op_names()[19] == "plugin_revoke"@,
        op_names()[20] == "plugin_adjust_scope"@,
        op_names()[21] == "plugin_disable"@,
        op_names()[22] == "plugin_uninstall"@,
        op_names()[23] == "integrity_plugin_detail"@,
        op_names()[24] == "navigate"@,
        op_names()[25] == "omnibox_submit"@,
        op_names()[26] == "urlbar_query"@,
        op_names()[27] == "set_active_panel"@,
        op_names()[28] == "bookmark_remove"@,
        op_names()[29] == "set_active_workspace"@,
        op_names()[30] == "set_theme"@,
        op_names()[31] == "new_tab"@,
        op_names()[32] == "close_tab"@,
        op_names()[33] == "select_tab"@,
        op_names()[34] == "focus_changed"@,
        op_names()[35] == "approve_plugin"@,
        op_names()[36] == "plugin_revoke_secret"@,
        op_names()[37] == "set_search_engine"@,
        op_names()[38] == "set_hw_accel"@,
        op_names()[39] == "set_zoom_persist"@,
        op_names()[40] == "security_info"@,
        op_names()[41] == "keybinds_list"@,
        op_names()[42] == "find_in_page"@,
        op_names()[43] == "context_menu_action"@,
{
}

/// An operation that has an outcome is none but a named one.
proof fn lemma_outcomes_have_names(
    op: Seq<char>,
    params: ParamsView,
    dialog: Option<DialogResult>,
)
    requires
        op_outcome(op, params, dialog) is Some,
    ensures
        op_names().contains(op),
{
    let names = op_names();
    lemma_name_places();
    if !names.contains(op) {
        assert forall|i: int| 0 <= i < names.len() implies #[trigger] names[i] != op by {
            if names[i] == op {
                assert(names.contains(op));
            }
        }
    }
}

/// The operations are those that are named, whatever their parameters: the set
/// is closed.
pub proof fn operations_are_the_named_ones(
    op: Seq<char>,
    params: ParamsView,
    dialog: Option<DialogResult>,
)
    ensures
        op_outcome(op, params, dialog) is Some <==> op_names().contains(op),
{
    let names = op_names();
    if op_outcome(op, params, dialog) is Some {
        lemma_outcomes_have_names(op, params, dialog);
    }
    if names.contains(op) {
        let i = choose|i: int| 0 <= i < names.len() && names[i] == op;
        lemma_name_places();
        assert(op_outcome(op, params, dialog) is Some);
    }
}

} // verus!
