//! What each of the chrome's operations does: the command it gives, what it
//! answers, and when it is refused.

use crate::approval::{origin_fault, DialogResult};
use crate::command::{enqueued, CommandView, FocusOwner, ShellCommand};
use crate::json::{
    flag_member, member, number_member, text_member, JsonMemberView,
};
use crate::keybinds::keybinds_json;
use crate::ops::{given_command, missing_param, op_outcome, OpView, ParamsView};
use vstd::prelude::*;

verus! {

/// Lengths and letters that tell the names of the operations apart.
spec fn names_differ() -> bool {
    &&& "bookmark_toggle"@.len() == 15 && "bookmark_toggle"@[0] == 'b' && "bookmark_toggle"@[9] == 't'
    &&& "copy_active_url"@.len() == 15 && "copy_active_url"@[0] == 'c'
    &&& "close_window"@.len() == 12 && "close_window"@[0] == 'c'
    &&& "plugin_install_picker"@.len() == 21
    &&& "integrity_reverify_all"@.len() == 22
    &&& "go_back"@.len() == 7 && "go_back"@[0] == 'g'
    &&& "go_forward"@.len() == 10 && "go_forward"@[0] == 'g'
    &&& "reload"@.len() == 6
    &&& "stop"@.len() == 4
    &&& "stop_finding"@.len() == 12 && "stop_finding"@[0] == 's' && "stop_finding"@[1] == 't'
    &&& "find_next"@.len() == 9 && "find_next"@[5] == 'n'
    &&& "find_prev"@.len() == 9 && "find_prev"@[5] == 'p'
    &&& "zoom_in"@.len() == 7 && "zoom_in"@[0] == 'z'
    &&& "zoom_out"@.len() == 8 && "zoom_out"@[0] == 'z'
    &&& "zoom_reset"@.len() == 10 && "zoom_reset"@[0] == 'z'
    &&& "reopen_closed_tab"@.len() == 17 && "reopen_closed_tab"@[0] == 'r'
    &&& "plugin_update"@.len() == 13 && "plugin_update"@[7] == 'u'
    &&& "plugin_rollback"@.len() == 15 && "plugin_rollback"@[0] == 'p'
    &&& "plugin_reload"@.len() == 13 && "plugin_reload"@[7] == 'r' && "plugin_reload"@[9] == 'l'
    &&& "plugin_revoke"@.len() == 13 && "plugin_revoke"@[7] == 'r' && "plugin_revoke"@[9] == 'v'
    &&& "plugin_adjust_scope"@.len() == 19 && "plugin_adjust_scope"@[0] == 'p'
    &&& "plugin_disable"@.len() == 14 && "plugin_disable"@[0] == 'p'
    &&& "plugin_uninstall"@.len() == 16 && "plugin_uninstall"@[0] == 'p'
    &&& "integrity_plugin_detail"@.len() == 23
    &&& "navigate"@.len() == 8 && "navigate"@[0] == 'n'
    &&& "omnibox_submit"@.len() == 14 && "omnibox_submit"@[0] == 'o'
    &&& "urlbar_query"@.len() == 12 && "urlbar_query"@[0] == 'u'
    &&& "set_active_panel"@.len() == 16 && "set_active_panel"@[0] == 's' && "set_active_panel"@[4] == 'a'
    &&& "bookmark_remove"@.len() == 15 && "bookmark_remove"@[0] == 'b' && "bookmark_remove"@[9] == 'r'
    &&& "set_active_workspace"@.len() == 20 && "set_active_workspace"@[0] == 's'
    &&& "set_theme"@.len() == 9 && "set_theme"@[5] == 'h'
    &&& "new_tab"@.len() == 7 && "new_tab"@[0] == 'n'
    &&& "close_tab"@.len() == 9 && "close_tab"@[5] == '_'
    &&& "select_tab"@.len() == 10 && "select_tab"@[0] == 's'
    &&& "focus_changed"@.len() == 13 && "focus_changed"@[7] == 'h'
    &&& "approve_plugin"@.len() == 14 && "approve_plugin"@[0] == 'a'
    &&& "plugin_revoke_secret"@.len() == 20 && "plugin_revoke_secret"@[0] == 'p'
    &&& "set_search_engine"@.len() == 17 && "set_search_engine"@[0] == 's'
    &&& "set_hw_accel"@.len() == 12 && "set_hw_accel"@[0] == 's' && "set_hw_accel"@[1] == 'e'
    &&& "set_zoom_persist"@.len() == 16 && "set_zoom_persist"@[0] == 's' && "set_zoom_persist"@[4] == 'z'
    &&& "security_info"@.len() == 13 && "security_info"@[7] == 'y'
    &&& "keybinds_list"@.len() == 13 && "keybinds_list"@[7] == 's'
    &&& "find_in_page"@.len() == 12 && "find_in_page"@[0] == 'f'
    &&& "context_menu_action"@.len() == 19 && "context_menu_action"@[0] == 'c'
}

proof fn lemma_names_differ()
    ensures
        names_differ(),
{
    assert("bookmark_toggle"@.len() == 15 && "bookmark_toggle"@[0] == 'b' && "bookmark_toggle"@[9] == 't') by {
        reveal_strlit("bookmark_toggle");
    }
    assert("copy_active_url"@.len() == 15 && "copy_active_url"@[0] == 'c') by {
        reveal_strlit("copy_active_url");
    }
    assert("close_window"@.len() == 12 && "close_window"@[0] == 'c') by {
        reveal_strlit("close_window");
    }
    assert("plugin_install_picker"@.len() == 21) by {
        reveal_strlit("plugin_install_picker");
    }
    assert("integrity_reverify_all"@.len() == 22) by {
        reveal_strlit("integrity_reverify_all");
    }
    assert("go_back"@.len() == 7 && "go_back"@[0] == 'g') by {
        reveal_strlit("go_back");
    }
    assert("go_forward"@.len() == 10 && "go_forward"@[0] == 'g') by {
        reveal_strlit("go_forward");
    }
    assert("reload"@.len() == 6) by {
        reveal_strlit("reload");
    }
    assert("stop"@.len() == 4) by {
        reveal_strlit("stop");
    }
    assert("stop_finding"@.len() == 12 && "stop_finding"@[0] == 's' && "stop_finding"@[1] == 't') by {
        reveal_strlit("stop_finding");
    }
    assert("find_next"@.len() == 9 && "find_next"@[5] == 'n') by {
        reveal_strlit("find_next");
    }
    assert("find_prev"@.len() == 9 && "find_prev"@[5] == 'p') by {
        reveal_strlit("find_prev");
    }
    assert("zoom_in"@.len() == 7 && "zoom_in"@[0] == 'z') by {
        reveal_strlit("zoom_in");
    }
    assert("zoom_out"@.len() == 8 && "zoom_out"@[0] == 'z') by {
        reveal_strlit("zoom_out");
    }
    assert("zoom_reset"@.len() == 10 && "zoom_reset"@[0] == 'z') by {
        reveal_strlit("zoom_reset");
    }
    assert("reopen_closed_tab"@.len() == 17 && "reopen_closed_tab"@[0] == 'r') by {
        reveal_strlit("reopen_closed_tab");
    }
    assert("plugin_update"@.len() == 13 && "plugin_update"@[7] == 'u') by {
        reveal_strlit("plugin_update");
    }
    assert("plugin_rollback"@.len() == 15 && "plugin_rollback"@[0] == 'p') by {
        reveal_strlit("plugin_rollback");
    }
    assert("plugin_reload"@.len() == 13 && "plugin_reload"@[7] == 'r' && "plugin_reload"@[9] == 'l') by {
        reveal_strlit("plugin_reload");
    }
    assert("plugin_revoke"@.len() == 13 && "plugin_revoke"@[7] == 'r' && "plugin_revoke"@[9] == 'v') by {
        reveal_strlit("plugin_revoke");
    }
    assert("plugin_adjust_scope"@.len() == 19 && "plugin_adjust_scope"@[0] == 'p') by {
        reveal_strlit("plugin_adjust_scope");
    }
    assert("plugin_disable"@.len() == 14 && "plugin_disable"@[0] == 'p') by {
        reveal_strlit("plugin_disable");
    }
    assert("plugin_uninstall"@.len() == 16 && "plugin_uninstall"@[0] == 'p') by {
        reveal_strlit("plugin_uninstall");
    }
    assert("integrity_plugin_detail"@.len() == 23) by {
        reveal_strlit("integrity_plugin_detail");
    }
    assert("navigate"@.len() == 8 && "navigate"@[0] == 'n') by {
        reveal_strlit("navigate");
    }
    assert("omnibox_submit"@.len() == 14 && "omnibox_submit"@[0] == 'o') by {
        reveal_strlit("omnibox_submit");
    }
    assert("urlbar_query"@.len() == 12 && "urlbar_query"@[0] == 'u') by {
        reveal_strlit("urlbar_query");
    }
    assert("set_active_panel"@.len() == 16 && "set_active_panel"@[0] == 's' && "set_active_panel"@[4] == 'a') by {
        reveal_strlit("set_active_panel");
    }
    assert("bookmark_remove"@.len() == 15 && "bookmark_remove"@[0] == 'b' && "bookmark_remove"@[9] == 'r') by {
        reveal_strlit("bookmark_remove");
    }
    assert("set_active_workspace"@.len() == 20 && "set_active_workspace"@[0] == 's') by {
        reveal_strlit("set_active_workspace");
    }
    assert("set_theme"@.len() == 9 && "set_theme"@[5] == 'h') by {
        reveal_strlit("set_theme");
    }
    assert("new_tab"@.len() == 7 && "new_tab"@[0] == 'n') by {
        reveal_strlit("new_tab");
    }
    assert("close_tab"@.len() == 9 && "close_tab"@[5] == '_') by {
        reveal_strlit("close_tab");
    }
    assert("select_tab"@.len() == 10 && "select_tab"@[0] == 's') by {
        reveal_strlit("select_tab");
    }
    assert("focus_changed"@.len() == 13 && "focus_changed"@[7] == 'h') by {
        reveal_strlit("focus_changed");
    }
    assert("approve_plugin"@.len() == 14 && "approve_plugin"@[0] == 'a') by {
        reveal_strlit("approve_plugin");
    }
    assert("plugin_revoke_secret"@.len() == 20 && "plugin_revoke_secret"@[0] == 'p') by {
        reveal_strlit("plugin_revoke_secret");
    }
    assert("set_search_engine"@.len() == 17 && "set_search_engine"@[0] == 's') by {
        reveal_strlit("set_search_engine");
    }
    assert("set_hw_accel"@.len() == 12 && "set_hw_accel"@[0] == 's' && "set_hw_accel"@[1] == 'e') by {
        reveal_strlit("set_hw_accel");
    }
    assert("set_zoom_persist"@.len() == 16 && "set_zoom_persist"@[0] == 's' && "set_zoom_persist"@[4] == 'z') by {
        reveal_strlit("set_zoom_persist");
    }
    assert("security_info"@.len() == 13 && "security_info"@[7] == 'y') by {
        reveal_strlit("security_info");
    }
    assert("keybinds_list"@.len() == 13 && "keybinds_list"@[7] == 's') by {
        reveal_strlit("keybinds_list");
    }
    assert("find_in_page"@.len() == 12 && "find_in_page"@[0] == 'f') by {
        reveal_strlit("find_in_page");
    }
    assert("context_menu_action"@.len() == 19 && "context_menu_action"@[0] == 'c') by {
        reveal_strlit("context_menu_action");
    }
}

/// An operation without parameters gives its command, whatever it is handed, and
/// answers that all is well.
pub proof fn plain_operations_give_their_command(params: ParamsView, dialog: Option<DialogResult>)
    ensures
        op_outcome("bookmark_toggle"@, params, dialog) == Some(
            OpView::Done("{\"ok\":true}"@, Some(ShellCommand::BookmarkToggle)),
        ),
        op_outcome("copy_active_url"@, params, dialog) == Some(
            OpView::Done("{\"ok\":true}"@, Some(ShellCommand::CopyActiveUrl)),
        ),
        op_outcome("close_window"@, params, dialog) == Some(
            OpView::Done("{\"ok\":true}"@, Some(ShellCommand::CloseWindow)),
        ),
        op_outcome("plugin_install_picker"@, params, dialog) == Some(
            OpView::Done("{\"ok\":true}"@, Some(ShellCommand::PluginInstallPicker)),
        ),
        op_outcome("integrity_reverify_all"@, params, dialog) == Some(
            OpView::Done("{\"ok\":true}"@, Some(ShellCommand::IntegrityReverifyAll)),
        ),
        op_outcome("go_back"@, params, dialog) == Some(
            OpView::Done("{\"ok\":true}"@, Some(ShellCommand::NavGoBack)),
        ),
        op_outcome("go_forward"@, params, dialog) == Some(
            OpView::Done("{\"ok\":true}"@, Some(ShellCommand::NavGoForward)),
        ),
        op_outcome("reload"@, params, dialog) == Some(
            OpView::Done("{\"ok\":true}"@, Some(ShellCommand::NavReload)),
        ),
        op_outcome("stop"@, params, dialog) == Some(
            OpView::Done("{\"ok\":true}"@, Some(ShellCommand::NavStop)),
        ),
        op_outcome("stop_finding"@, params, dialog) == Some(
            OpView::Done("{\"ok\":true}"@, Some(ShellCommand::StopFinding)),
        ),
        op_outcome("find_next"@, params, dialog) == Some(
            OpView::Done("{\"ok\":true}"@, Some(ShellCommand::FindNext)),
        ),
        op_outcome("find_prev"@, params, dialog) == Some(
            OpView::Done("{\"ok\":true}"@, Some(ShellCommand::FindPrev)),
        ),
        op_outcome("zoom_in"@, params, dialog) == Some(
            OpView::Done("{\"ok\":true}"@, Some(ShellCommand::ZoomIn)),
        ),
        op_outcome("zoom_out"@, params, dialog) == Some(
            OpView::Done("{\"ok\":true}"@, Some(ShellCommand::ZoomOut)),
        ),
        op_outcome("zoom_reset"@, params, dialog) == Some(
            OpView::Done("{\"ok\":true}"@, Some(ShellCommand::ZoomReset)),
        ),
        op_outcome("reopen_closed_tab"@, params, dialog) == Some(
            OpView::Done("{\"ok\":true}"@, Some(ShellCommand::ReopenClosedTab)),
        ),
{
    lemma_names_differ();
}

/// An operation on a plugin acts on the plugin that was named.
pub proof fn plugin_operations_act_on_the_named_plugin(
    params: ParamsView,
    dialog: Option<DialogResult>,
    name: Seq<char>,
)
    requires
        text_member(params, "plugin"@) == Some(name),
        name.len() > 0,
    ensures
        op_outcome("plugin_update"@, params, dialog) == Some(
            OpView::Done("{\"ok\":true}"@, Some(ShellCommand::PluginUpdate(name))),
        ),
        op_outcome("plugin_rollback"@, params, dialog) == Some(
            OpView::Done("{\"ok\":true}"@, Some(ShellCommand::PluginRollback(name))),
        ),
        op_outcome("plugin_reload"@, params, dialog) == Some(
            OpView::Done("{\"ok\":true}"@, Some(ShellCommand::PluginReload(name))),
        ),
        op_outcome("plugin_revoke"@, params, dialog) == Some(
            OpView::Done("{\"ok\":true}"@, Some(ShellCommand::PluginRevoke(name))),
        ),
        op_outcome("plugin_adjust_scope"@, params, dialog) == Some(
            OpView::Done("{\"ok\":true}"@, Some(ShellCommand::PluginAdjustScope(name))),
        ),
        op_outcome("plugin_disable"@, params, dialog) == Some(
            OpView::Done("{\"ok\":true}"@, Some(ShellCommand::PluginDisable(name))),
        ),
        op_outcome("plugin_uninstall"@, params, dialog) == Some(
            OpView::Done("{\"ok\":true}"@, Some(ShellCommand::PluginUninstall(name))),
        ),
        op_outcome("integrity_plugin_detail"@, params, dialog) == Some(
            OpView::Done("{\"ok\":true}"@, Some(ShellCommand::IntegrityPluginDetail(name))),
        ),
{
    lemma_names_differ();
}

/// Without the name of a plugin, or with an empty one, it is refused.
pub proof fn plugin_operations_need_a_plugin(params: ParamsView, dialog: Option<DialogResult>)
    requires
        text_member(params, "plugin"@) is None || (text_member(params, "plugin"@)->0).len() == 0,
    ensures
        op_outcome("plugin_update"@, params, dialog) == Some(
            OpView::Refused("requires a non-empty string `plugin`"@),
        ),
        op_outcome("plugin_rollback"@, params, dialog) == Some(
            OpView::Refused("requires a non-empty string `plugin`"@),
        ),
        op_outcome("plugin_reload"@, params, dialog) == Some(
            OpView::Refused("requires a non-empty string `plugin`"@),
        ),
        op_outcome("plugin_revoke"@, params, dialog) == Some(
            OpView::Refused("requires a non-empty string `plugin`"@),
        ),
        op_outcome("plugin_adjust_scope"@, params, dialog) == Some(
            OpView::Refused("requires a non-empty string `plugin`"@),
        ),
        op_outcome("plugin_disable"@, params, dialog) == Some(
            OpView::Refused("requires a non-empty string `plugin`"@),
        ),
        op_outcome("plugin_uninstall"@, params, dialog) == Some(
            OpView::Refused("requires a non-empty string `plugin`"@),
        ),
        op_outcome("integrity_plugin_detail"@, params, dialog) == Some(
            OpView::Refused("requires a non-empty string `plugin`"@),
        ),
{
    lemma_names_differ();
}

/// An operation with one text hands that text on, an empty one too, and is
/// refused without it.
pub proof fn text_operations_hand_their_text_on(
    params: ParamsView,
    dialog: Option<DialogResult>,
    t: Seq<char>,
)
    ensures
        text_member(params, "url"@) == Some(t) ==> op_outcome("navigate"@, params, dialog)
            == Some(OpView::Done("{\"ok\":true}"@, Some(ShellCommand::Navigate(t)))),
        text_member(params, "url"@) is None ==> op_outcome("navigate"@, params, dialog) == Some(
            OpView::Refused(missing_param("navigate"@, "string"@, "url"@)),
        ),
        text_member(params, "text"@) == Some(t) ==> op_outcome("omnibox_submit"@, params, dialog)
            == Some(OpView::Done("{\"ok\":true}"@, Some(ShellCommand::OmniboxSubmit(t)))),
        text_member(params, "text"@) is None ==> op_outcome("omnibox_submit"@, params, dialog) == Some(
            OpView::Refused(missing_param("omnibox_submit"@, "string"@, "text"@)),
        ),
        text_member(params, "text"@) == Some(t) ==> op_outcome("urlbar_query"@, params, dialog)
            == Some(OpView::Done("{\"ok\":true}"@, Some(ShellCommand::UrlbarQuery(t)))),
        text_member(params, "text"@) is None ==> op_outcome("urlbar_query"@, params, dialog) == Some(
            OpView::Refused(missing_param("urlbar_query"@, "string"@, "text"@)),
        ),
        text_member(params, "name"@) == Some(t) ==> op_outcome("set_active_panel"@, params, dialog)
            == Some(OpView::Done("{\"ok\":true}"@, Some(ShellCommand::SetActivePanel(t)))),
        text_member(params, "name"@) is None ==> op_outcome("set_active_panel"@, params, dialog) == Some(
            OpView::Refused(missing_param("set_active_panel"@, "string"@, "name"@)),
        ),
        text_member(params, "url"@) == Some(t) ==> op_outcome("bookmark_remove"@, params, dialog)
            == Some(OpView::Done("{\"ok\":true}"@, Some(ShellCommand::BookmarkRemove(t)))),
        text_member(params, "url"@) is None ==> op_outcome("bookmark_remove"@, params, dialog) == Some(
            OpView::Refused(missing_param("bookmark_remove"@, "string"@, "url"@)),
        ),
        text_member(params, "id"@) == Some(t) ==> op_outcome("set_active_workspace"@, params, dialog)
            == Some(OpView::Done("{\"ok\":true}"@, Some(ShellCommand::SwitchWorkspace(t)))),
        text_member(params, "id"@) is None ==> op_outcome("set_active_workspace"@, params, dialog) == Some(
            OpView::Refused(missing_param("set_active_workspace"@, "string"@, "id"@)),
        ),
        text_member(params, "theme"@) == Some(t) ==> op_outcome("set_theme"@, params, dialog)
            == Some(OpView::Done("{\"ok\":true}"@, Some(ShellCommand::SetTheme(t)))),
        text_member(params, "theme"@) is None ==> op_outcome("set_theme"@, params, dialog) == Some(
            OpView::Refused(missing_param("set_theme"@, "string"@, "theme"@)),
        ),
{
    lemma_names_differ();
}

/// A tab is closed or selected by its number, and neither without one; a new tab
/// opens at the URL that was given, or at none.
pub proof fn tab_operations_go_by_the_id(params: ParamsView, dialog: Option<DialogResult>, id: u64)
    ensures
        number_member(params, "id"@) == Some(id) ==> op_outcome("close_tab"@, params, dialog)
            == Some(OpView::Done("{\"ok\":true}"@, Some(ShellCommand::CloseTab(id)))),
        number_member(params, "id"@) == Some(id) ==> op_outcome("select_tab"@, params, dialog)
            == Some(OpView::Done("{\"ok\":true}"@, Some(ShellCommand::SelectTab(id)))),
        number_member(params, "id"@) is None ==> op_outcome("close_tab"@, params, dialog) == Some(
            OpView::Refused(missing_param("close_tab"@, "numeric"@, "id"@)),
        ),
        number_member(params, "id"@) is None ==> op_outcome("select_tab"@, params, dialog) == Some(
            OpView::Refused(missing_param("select_tab"@, "numeric"@, "id"@)),
        ),
        op_outcome("new_tab"@, params, dialog) == Some(
            OpView::Done("{\"ok\":true}"@, Some(ShellCommand::NewTab(text_member(params, "url"@)))),
        ),
{
    lemma_names_differ();
}

/// The switches take a boolean, and neither without one.
pub proof fn switches_take_a_boolean(params: ParamsView, dialog: Option<DialogResult>, on: bool)
    ensures
        flag_member(params, "enabled"@) == Some(on) ==> op_outcome("set_hw_accel"@, params, dialog)
            == Some(OpView::Done("{\"ok\":true}"@, Some(ShellCommand::SetHwAccel(on)))),
        flag_member(params, "enabled"@) == Some(on) ==> op_outcome(
            "set_zoom_persist"@,
            params,
            dialog,
        ) == Some(OpView::Done("{\"ok\":true}"@, Some(ShellCommand::SetZoomPersist(on)))),
        flag_member(params, "enabled"@) is None ==> op_outcome("set_hw_accel"@, params, dialog)
            == Some(OpView::Refused(missing_param("set_hw_accel"@, "boolean"@, "enabled"@))),
        flag_member(params, "enabled"@) is None ==> op_outcome("set_zoom_persist"@, params, dialog)
            == Some(OpView::Refused(missing_param("set_zoom_persist"@, "boolean"@, "enabled"@))),
{
    lemma_names_differ();
}

/// The focus goes to the chrome only where it is named, and else to the page.
pub proof fn focus_goes_to_the_named_owner(params: ParamsView, dialog: Option<DialogResult>)
    ensures
        text_member(params, "owner"@) == Some("chrome"@) ==> op_outcome(
            "focus_changed"@,
            params,
            dialog,
        ) == Some(OpView::Done("{\"ok\":true}"@, Some(ShellCommand::FocusOwner(FocusOwner::Chrome)))),
        text_member(params, "owner"@) != Some("chrome"@) ==> op_outcome(
            "focus_changed"@,
            params,
            dialog,
        ) == Some(OpView::Done("{\"ok\":true}"@, Some(ShellCommand::FocusOwner(FocusOwner::Page)))),
{
    lemma_names_differ();
}

/// A secret is revoked of the plugin and under the name that were given, and the
/// search engine gets the name and the template that were given; with either one
/// missing or empty both operations are refused.
pub proof fn paired_parameters_are_both_needed(
    params: ParamsView,
    dialog: Option<DialogResult>,
    a: Seq<char>,
    b: Seq<char>,
)
    ensures
        text_member(params, "plugin"@) == Some(a) && text_member(params, "name"@) == Some(b)
            && a.len() > 0 && b.len() > 0 ==> op_outcome("plugin_revoke_secret"@, params, dialog)
            == Some(
            OpView::Done("{\"ok\":true}"@, Some(ShellCommand::PluginRevokeSecret { plugin: a, name: b })),
        ),
        text_member(params, "name"@) == Some(a) && text_member(params, "url_template"@) == Some(b)
            && a.len() > 0 && b.len() > 0 ==> op_outcome("set_search_engine"@, params, dialog)
            == Some(
            OpView::Done("{\"ok\":true}"@, Some(ShellCommand::SetSearchEngine { name: a, url_template: b })),
        ),
        missing_text(params, "plugin"@) || missing_text(params, "name"@) ==> op_outcome(
            "plugin_revoke_secret"@,
            params,
            dialog,
        ) == Some(
            OpView::Refused(
                "plugin_revoke_secret requires non-empty string fields `plugin` and `name`"@,
            ),
        ),
        missing_text(params, "name"@) || missing_text(params, "url_template"@) ==> op_outcome(
            "set_search_engine"@,
            params,
            dialog,
        ) == Some(
            OpView::Refused(
                "set_search_engine requires non-empty string fields `name` and `url_template`"@,
            ),
        ),
{
    lemma_names_differ();
}

/// A text that is not there, or is empty.
pub open spec fn missing_text(params: ParamsView, name: Seq<char>) -> bool {
    match text_member(params, name) {
        Some(t) => t.len() == 0,
        None => true,
    }
}

/// An approval is passed on as it was read, unless an origin in it is at fault or
/// it could not be read; then it is refused, and why.
pub proof fn approvals_are_passed_on(
    params: ParamsView,
    result: DialogResult,
    why: Seq<char>,
)
    ensures
        origin_fault(result@.permissions) is None ==> op_outcome(
            "approve_plugin"@,
            params,
            Some(result),
        ) == Some(
            OpView::Done("{\"accepted\":true}"@, Some(ShellCommand::ApprovePlugin(result))),
        ),
        origin_fault(result@.permissions) == Some(why) ==> op_outcome(
            "approve_plugin"@,
            params,
            Some(result),
        ) == Some(OpView::Refused(why)),
        op_outcome("approve_plugin"@, params, None) == Some(
            OpView::Refused("approve_plugin: malformed payload"@),
        ),
{
    lemma_names_differ();
}

/// A find looks for the text that was given, forwards and from the start unless
/// it says otherwise.
pub proof fn finds_go_forward_unless_told(
    params: ParamsView,
    dialog: Option<DialogResult>,
    query: Seq<char>,
    forward: bool,
    find_next: bool,
)
    requires
        text_member(params, "text"@) == Some(query) || (text_member(params, "text"@) is None
            && query.len() == 0),
        flag_member(params, "forward"@) == Some(forward) || (flag_member(params, "forward"@)
            is None && forward),
        flag_member(params, "findNext"@) == Some(find_next) || (flag_member(params, "findNext"@)
            is None && !find_next),
    ensures
        op_outcome("find_in_page"@, params, dialog) == Some(
            OpView::Done("{\"ok\":true}"@, Some(ShellCommand::FindText { query, forward, find_next })),
        ),
{
    lemma_names_differ();
    if text_member(params, "text"@) is None {
        assert(query =~= Seq::empty());
    }
}

/// A menu item is passed on by its name; one without a name is unknown.
pub proof fn menu_items_go_by_their_name(
    params: ParamsView,
    dialog: Option<DialogResult>,
    action: Seq<char>,
)
    ensures
        text_member(params, "action"@) == Some(action) && action.len() > 0 ==> op_outcome(
            "context_menu_action"@,
            params,
            dialog,
        ) == Some(OpView::Done("{\"ok\":true}"@, Some(ShellCommand::ContextMenuAction(action)))),
        missing_text(params, "action"@) ==> op_outcome("context_menu_action"@, params, dialog)
            == Some(OpView::Done("{\"ok\":true}"@, Some(ShellCommand::ContextMenuAction("unknown"@)))),
{
    lemma_names_differ();
}

/// What only asks gives no command.
pub proof fn questions_change_nothing(params: ParamsView, dialog: Option<DialogResult>)
    ensures
        op_outcome("keybinds_list"@, params, dialog) == Some(OpView::Done(keybinds_json(), None)),
        op_outcome("security_info"@, params, dialog) == Some(
            OpView::Done("{\"ok\":true,\"type\":\"js_hydrated\"}"@, None),
        ),
{
    lemma_names_differ();
}

/// A refusal for want of a parameter begins with the operation and ends with the
/// parameter, in backquotes.
pub proof fn refusals_name_the_parameter(op: Seq<char>, kind: Seq<char>, name: Seq<char>)
    ensures
        (op + " requires a "@ + kind).is_prefix_of(missing_param(op, kind, name)),
        (" `"@ + name + "`"@).is_suffix_of(missing_param(op, kind, name)),
        missing_param(op, kind, name).len() == op.len() + 12 + kind.len() + 2 + name.len() + 1,
{
    reveal_strlit(" requires a ");
    reveal_strlit(" `");
    reveal_strlit("`");
    let m = missing_param(op, kind, name);
    let a = op + " requires a "@ + kind;
    let b = " `"@ + name + "`"@;
    assert(m =~= a + b);
    assert(m.subrange(0, a.len() as int) =~= a);
    assert(m.subrange(m.len() - b.len(), m.len() as int) =~= b);
}

/// A member is found under its own name, whatever stands around it, and the
/// first of several counts.
pub proof fn members_are_found_by_name(
    before: Seq<(Seq<char>, JsonMemberView)>,
    name: Seq<char>,
    value: JsonMemberView,
    after: Seq<(Seq<char>, JsonMemberView)>,
)
    requires
        forall|k: int| 0 <= k < before.len() ==> (#[trigger] before[k]).0 != name,
    ensures
        member(before + seq![(name, value)] + after, name) == Some(value),
        member(before, name) is None,
    decreases before.len(),
{
    let all = before + seq![(name, value)] + after;
    if before.len() > 0 {
        let rest = before.drop_first();
        assert forall|k: int| 0 <= k < rest.len() implies (#[trigger] rest[k]).0 != name by {
            assert(rest[k] == before[k + 1]);
        }
        members_are_found_by_name(rest, name, value, after);
        assert(all.drop_first() =~= rest + seq![(name, value)] + after);
        assert(all[0] == before[0]);
    }
}

/// A parameter is read only in its own kind: a text as a text, a number as a
/// number, a boolean as a boolean.
pub proof fn parameters_have_their_kind(
    members: Seq<(Seq<char>, JsonMemberView)>,
    name: Seq<char>,
    t: Seq<char>,
    n: Option<u64>,
    b: bool,
)
    ensures
        member(members, name) == Some(JsonMemberView::Text(t)) ==> {
            &&& text_member(Some(members), name) == Some(t)
            &&& number_member(Some(members), name) is None
            &&& flag_member(Some(members), name) is None
        },
        member(members, name) == Some(JsonMemberView::Number(n)) ==> {
            &&& text_member(Some(members), name) is None
            &&& number_member(Some(members), name) == n
            &&& flag_member(Some(members), name) is None
        },
        member(members, name) == Some(JsonMemberView::Flag(b)) ==> {
            &&& text_member(Some(members), name) is None
            &&& number_member(Some(members), name) is None
            &&& flag_member(Some(members), name) == Some(b)
        },
        text_member(None, name) is None,
        number_member(None, name) is None,
        flag_member(None, name) is None,
{
}

/// The command of an operation waits behind those that wait already; a refused
/// operation, an unknown one and one that only asks leave the queue as it was.
pub proof fn commands_wait_in_order(
    queue: Seq<ShellCommand<String>>,
    after: Seq<ShellCommand<String>>,
    reply: Seq<char>,
    why: Seq<char>,
    c: CommandView,
    i: int,
)
    ensures
        enqueued(queue, after, given_command(Some(OpView::Done(reply, Some(c))))) ==> {
            &&& after.len() == queue.len() + 1
            &&& after.last()@ == c
            &&& 0 <= i < queue.len() ==> after[i] == queue[i]
        },
        enqueued(queue, after, given_command(Some(OpView::Done(reply, None)))) ==> after == queue,
        enqueued(queue, after, given_command(Some(OpView::Refused(why)))) ==> after == queue,
        enqueued(queue, after, given_command(None)) ==> after == queue,
{
    if enqueued(queue, after, Some(c)) && 0 <= i < queue.len() {
        assert(after.drop_last()[i] == after[i]);
    }
}

} // verus!
