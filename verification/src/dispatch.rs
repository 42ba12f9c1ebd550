//! What each command and each key does.

use crate::approval::{
    approval_from_dialog, dialog_approval, Approval, ApprovalView, DialogResult, DialogResultView,
};
use crate::chrome::{apply_op, op_script, theme_script, theme_text};
use crate::command::{enqueued, push, CommandQueue, CommandView, ShellCommand};
use crate::effect::{effects, lemma_effects_push, Effect, EffectView};
use crate::host::ApproveOutcome;
use crate::internal::{default_start_url, start_url};
use crate::keybinds::{
    chord_action, classify_chord, Key, KeybindAction, Modifiers, NamedKey,
};
use crate::omnibox::{omnibox_host, public_suffix_known, resolve_omnibox_input, resolved};
use crate::picker::{PickerEntry, PickerView};
use crate::shell::{Shell, ShellView};
use crate::text::{chars_of, text_eq};
use vstd::prelude::*;

verus! {

/// No effect.
pub open spec fn nothing() -> Seq<EffectView> {
    Seq::empty()
}

pub(crate) fn no_effects() -> (r: Vec<Effect<String>>)
    ensures
        effects(r@) == nothing(),
{
    let out: Vec<Effect<String>> = Vec::new();
    assert(effects(out@) =~= nothing());
    out
}

fn one_effect(e: Effect<String>) -> (r: Vec<Effect<String>>)
    ensures
        effects(r@) == seq![e@],
{
    let mut out: Vec<Effect<String>> = Vec::new();
    out.push(e);
    assert(effects(out@) =~= seq![e@]);
    out
}

/// One effect, or none.
pub open spec fn effect_if(b: bool, e: EffectView) -> Seq<EffectView> {
    if b {
        seq![e]
    } else {
        nothing()
    }
}

pub(crate) fn one_effect_if(b: bool, e: Effect<String>) -> (r: Vec<Effect<String>>)
    ensures
        effects(r@) == effect_if(b, e@),
{
    if b {
        one_effect(e)
    } else {
        no_effects()
    }
}

/// An editing command that pages know.
pub open spec fn edit_command(action: Seq<char>) -> bool {
    action == "cut"@ || action == "copy"@ || action == "paste"@ || action == "select_all"@ || action
        == "undo"@ || action == "redo"@
}

fn is_edit_command(action: &str) -> (r: bool)
    ensures
        r == edit_command(action@),
{
    text_eq(action, "cut") || text_eq(action, "copy") || text_eq(action, "paste") || text_eq(
        action,
        "select_all",
    ) || text_eq(action, "undo") || text_eq(action, "redo")
}

impl ShellView {
    /// What an item of the context menu entails. Items that are not known here
    /// are the chrome's own.
    pub open spec fn menu_effects(self, action: Seq<char>) -> Seq<EffectView> {
        if action == "reload"@ {
            self.page_effect(Effect::Reload)
        } else if action == "go_back"@ {
            self.page_effect(Effect::GoBack)
        } else if action == "go_forward"@ {
            self.page_effect(Effect::GoForward)
        } else if edit_command(action) {
            self.page_effect(Effect::EditCommand(action))
        } else {
            nothing()
        }
    }

    /// What showing a panel of the sidebar entails.
    pub open spec fn panel_effects(self, name: Seq<char>) -> Seq<EffectView> {
        if name == "bookmarks"@ {
            seq![Effect::PushBookmarks]
        } else if name == "history"@ {
            seq![Effect::PushHistory]
        } else if name == "tabs"@ {
            self.push_effects()
        } else {
            nothing()
        }
    }

    /// The shell after a command; `submitted` is what the text of an omnibox
    /// submission resolves to.
    pub open spec fn applied(self, c: CommandView, submitted: Seq<char>) -> ShellView {
        match c {
            ShellCommand::Navigate(url) => self.navigated(url),
            ShellCommand::OmniboxSubmit(_) => if submitted.len() == 0 {
                self
            } else {
                self.navigated(submitted)
            },
            ShellCommand::CloseTab(id) => self.closed_tab(id),
            ShellCommand::FocusOwner(owner) => ShellView { focus: owner, ..self },
            ShellCommand::CloseWindow => ShellView { should_exit: true, ..self },
            ShellCommand::SetSearchEngine { name, url_template } => ShellView {
                search_url_template: url_template,
                ..self
            },
            ShellCommand::FindText { query, forward, find_next } => if query.len() == 0 {
                self
            } else {
                ShellView { find_query_last: query, ..self }
            },
            ShellCommand::ReopenClosedTab => self.reopened(),
            _ => self,
        }
    }

    /// What a command entails.
    pub open spec fn command_effects(self, c: CommandView, submitted: Seq<char>) -> Seq<
        EffectView,
    > {
        match c {
            ShellCommand::Navigate(url) => self.navigate_effects(url),
            ShellCommand::OmniboxSubmit(_) => if submitted.len() == 0 {
                nothing()
            } else {
                self.navigate_effects(submitted)
            },
            ShellCommand::NewTab(url) => seq![
                Effect::OpenTab {
                    url: match url {
                        Some(u) => u,
                        None => start_url(),
                    },
                    title: None,
                    foreground: true,
                },
            ],
            ShellCommand::CloseTab(id) => self.close_effects(id),
            ShellCommand::SelectTab(id) => seq![Effect::SelectTab(id)],
            ShellCommand::FocusOwner(owner) => self.focus_effects(owner),
            ShellCommand::ApprovePlugin(result) => seq![Effect::ApprovePlugin(result)],
            ShellCommand::PluginUpdate(t) => seq![Effect::UpdatePlugin(t)],
            ShellCommand::PluginRollback(t) => seq![Effect::RollbackPlugin(t)],
            ShellCommand::PluginReload(t) => seq![Effect::ReloadPlugin(t)],
            ShellCommand::PluginRevoke(t) => seq![Effect::RevokePlugin(t)],
            ShellCommand::PluginAdjustScope(t) => seq![Effect::AdjustScope(t)],
            ShellCommand::UrlbarQuery(t) => seq![Effect::QuerySuggestions(t)],
            ShellCommand::SwitchWorkspace(t) => seq![Effect::SwitchWorkspace(t)],
            ShellCommand::PluginRevokeSecret { plugin, name } => seq![
                Effect::RevokeSecret { plugin, name },
            ],
            ShellCommand::SetActivePanel(name) => self.panel_effects(name),
            ShellCommand::CopyActiveUrl => if self.has_active() {
                seq![Effect::CopyText(self.tabs[self.active].url)]
            } else {
                nothing()
            },
            ShellCommand::BookmarkRemove(url) => seq![
                Effect::RemoveBookmark(url),
                Effect::PushBookmarks,
            ] + self.push_effects(),
            ShellCommand::BookmarkToggle => if self.has_active() {
                let tab = self.tabs[self.active];
                seq![Effect::ToggleBookmark { url: tab.url, title: tab.title }]
                    + self.push_effects() + seq![Effect::PushBookmarks]
            } else {
                nothing()
            },
            ShellCommand::SetTheme(theme) => seq![Effect::EvalChrome(theme_text(theme))],
            ShellCommand::FindInPage => effect_if(
                self.chrome_ready,
                Effect::EvalChrome(op_script("focus_find"@, "null"@)),
            ),
            ShellCommand::FindText { query, forward, find_next } => self.page_effect(
                Effect::Find { query, forward, find_next },
            ),
            ShellCommand::FindNext => self.page_effect(
                Effect::Find { query: self.find_query_last, forward: true, find_next: true },
            ),
            ShellCommand::FindPrev => self.page_effect(
                Effect::Find { query: self.find_query_last, forward: false, find_next: true },
            ),
            ShellCommand::StopFinding => self.page_effect(Effect::StopFinding),
            ShellCommand::ZoomIn => seq![Effect::ZoomIn],
            ShellCommand::ZoomOut => seq![Effect::ZoomOut],
            ShellCommand::ZoomReset => seq![Effect::ZoomReset],
            ShellCommand::ReopenClosedTab => self.reopen_effects(),
            ShellCommand::ContextMenuAction(action) => self.menu_effects(action),
            ShellCommand::NavGoBack => self.page_effect(Effect::GoBack),
            ShellCommand::NavGoForward => self.page_effect(Effect::GoForward),
            ShellCommand::NavReload => self.page_effect(Effect::Reload),
            ShellCommand::NavStop => self.page_effect(Effect::StopLoad),
            _ => nothing(),
        }
    }

    /// What the text of an omnibox submission resolves to in this shell.
    pub open spec fn submission(self, c: CommandView) -> Seq<char> {
        match c {
            ShellCommand::OmniboxSubmit(text) => resolved(
                text,
                self.search_url_template,
                public_suffix_known(omnibox_host(text)),
            ),
            _ => Seq::empty(),
        }
    }
}

impl Shell {
    fn page_effects(&self, e: Effect<String>) -> (r: Vec<Effect<String>>)
        ensures
            effects(r@) == self@.page_effect(e@),
    {
        if self.active < self.tabs.len() && self.tabs[self.active].live {
            one_effect(e)
        } else {
            no_effects()
        }
    }

    fn state_push(&self) -> (r: Vec<Effect<String>>)
        ensures
            effects(r@) == self@.push_effects(),
    {
        one_effect_if(self.chrome_ready, Effect::PushState)
    }

    /// What an item of the context menu does.
    pub fn handle_context_menu_action(&self, action: &str) -> (r: Vec<Effect<String>>)
        ensures
            effects(r@) == self@.menu_effects(action@),
    {
        if text_eq(action, "reload") {
            self.page_effects(Effect::Reload)
        } else if text_eq(action, "go_back") {
            self.page_effects(Effect::GoBack)
        } else if text_eq(action, "go_forward") {
            self.page_effects(Effect::GoForward)
        } else if is_edit_command(action) {
            self.page_effects(Effect::EditCommand(action.to_owned()))
        } else {
            no_effects()
        }
    }

    /// What showing a panel of the sidebar does. Unknown panels are ignored.
    pub fn set_active_panel(&self, name: &str) -> (r: Vec<Effect<String>>)
        ensures
            effects(r@) == self@.panel_effects(name@),
    {
        if text_eq(name, "bookmarks") {
            one_effect(Effect::PushBookmarks)
        } else if text_eq(name, "history") {
            one_effect(Effect::PushHistory)
        } else if text_eq(name, "tabs") {
            self.state_push()
        } else {
            no_effects()
        }
    }

    fn bookmark_remove(&self, url: String) -> (r: Vec<Effect<String>>)
        ensures
            effects(r@) == self@.command_effects(ShellCommand::BookmarkRemove(url@), Seq::empty()),
    {
        let mut out = one_effect(Effect::RemoveBookmark(url));
        proof {
            lemma_effects_push(out@, Effect::PushBookmarks);
        }
        out.push(Effect::PushBookmarks);
        let mut more = self.state_push();
        let ghost a = effects(out@);
        let ghost b = effects(more@);
        assert(a =~= seq![Effect::RemoveBookmark(url@), Effect::PushBookmarks]);
        out.append(&mut more);
        assert(effects(out@) =~= a + b);
        out
    }

    fn bookmark_toggle(&self) -> (r: Vec<Effect<String>>)
        ensures
            effects(r@) == self@.command_effects(ShellCommand::BookmarkToggle, Seq::empty()),
    {
        if self.active >= self.tabs.len() {
            return no_effects();
        }
        let url = self.tabs[self.active].url.clone();
        let title = self.tabs[self.active].title.clone();
        let mut out = one_effect(Effect::ToggleBookmark { url, title });
        let mut more = self.state_push();
        let ghost a = effects(out@);
        let ghost b = effects(more@);
        out.append(&mut more);
        assert(effects(out@) =~= a + b);
        out.push(Effect::PushBookmarks);
        assert(effects(out@) =~= a + b + seq![Effect::PushBookmarks]);
        out
    }

    /// Goes to the URL that an omnibox submission resolved to; nowhere, where
    /// it is empty.
    pub fn submit(&mut self, url: &str) -> (r: Vec<Effect<String>>)
        ensures
            final(self)@ == if url@.len() == 0 {
                old(self)@
            } else {
                old(self)@.navigated(url@)
            },
            effects(r@) == if url@.len() == 0 {
                nothing()
            } else {
                old(self)@.navigate_effects(url@)
            },
    {
        if url.is_empty() {
            no_effects()
        } else {
            self.navigate_active(url)
        }
    }

    /// Applies a command.
    pub fn apply(&mut self, command: ShellCommand<String>) -> (r: Vec<Effect<String>>)
        ensures
            final(self)@ == old(self)@.applied(command@, old(self)@.submission(command@)),
            effects(r@) == old(self)@.command_effects(
                command@,
                old(self)@.submission(command@),
            ),
    {
        match command {
            ShellCommand::Navigate(url) => self.navigate_active(url.as_str()),
            ShellCommand::OmniboxSubmit(text) => {
                let url = resolve_omnibox_input(text.as_str(), self.search_url_template.as_str());
                self.submit(url.as_str())
            },
            ShellCommand::NewTab(url) => {
                let url = match url {
                    Some(u) => u,
                    None => default_start_url().to_owned(),
                };
                one_effect(Effect::OpenTab { url, title: None, foreground: true })
            },
            ShellCommand::CloseTab(id) => self.close_tab(id),
            ShellCommand::SelectTab(id) => one_effect(Effect::SelectTab(id)),
            ShellCommand::FocusOwner(owner) => self.set_focus_owner(owner),
            ShellCommand::ApprovePlugin(result) => one_effect(Effect::ApprovePlugin(result)),
            ShellCommand::PluginUpdate(t) => one_effect(Effect::UpdatePlugin(t)),
            ShellCommand::PluginRollback(t) => one_effect(Effect::RollbackPlugin(t)),
            ShellCommand::PluginReload(t) => one_effect(Effect::ReloadPlugin(t)),
            ShellCommand::PluginRevoke(t) => one_effect(Effect::RevokePlugin(t)),
            ShellCommand::PluginAdjustScope(t) => one_effect(Effect::AdjustScope(t)),
            ShellCommand::UrlbarQuery(t) => one_effect(Effect::QuerySuggestions(t)),
            ShellCommand::SwitchWorkspace(t) => one_effect(Effect::SwitchWorkspace(t)),
            ShellCommand::PluginRevokeSecret { plugin, name } => one_effect(
                Effect::RevokeSecret { plugin, name },
            ),
            ShellCommand::SetActivePanel(name) => self.set_active_panel(name.as_str()),
            ShellCommand::CopyActiveUrl => if self.active < self.tabs.len() {
                one_effect(Effect::CopyText(self.tabs[self.active].url.clone()))
            } else {
                no_effects()
            },
            ShellCommand::BookmarkRemove(url) => self.bookmark_remove(url),
            ShellCommand::BookmarkToggle => self.bookmark_toggle(),
            ShellCommand::CloseWindow => {
                self.should_exit = true;
                no_effects()
            },
            ShellCommand::SetTheme(theme) => one_effect(
                Effect::EvalChrome(theme_script(theme.as_str())),
            ),
            ShellCommand::SetSearchEngine { name: _, url_template } => {
                self.search_url_template = url_template;
                no_effects()
            },
            ShellCommand::FindInPage => one_effect_if(
                self.chrome_ready,
                Effect::EvalChrome(apply_op("focus_find", "null")),
            ),
            ShellCommand::FindText { query, forward, find_next } => {
                if !query.as_str().is_empty() {
                    self.find_query_last = query.clone();
                }
                self.page_effects(Effect::Find { query, forward, find_next })
            },
            ShellCommand::FindNext => {
                let query = self.find_query_last.clone();
                self.page_effects(Effect::Find { query, forward: true, find_next: true })
            },
            ShellCommand::FindPrev => {
                let query = self.find_query_last.clone();
                self.page_effects(Effect::Find { query, forward: false, find_next: true })
            },
            ShellCommand::StopFinding => self.page_effects(Effect::StopFinding),
            ShellCommand::ZoomIn => one_effect(Effect::ZoomIn),
            ShellCommand::ZoomOut => one_effect(Effect::ZoomOut),
            ShellCommand::ZoomReset => one_effect(Effect::ZoomReset),
            ShellCommand::ReopenClosedTab => self.reopen_closed_tab(),
            ShellCommand::ContextMenuAction(action) => self.handle_context_menu_action(
                action.as_str(),
            ),
            ShellCommand::NavGoBack => self.page_effects(Effect::GoBack),
            ShellCommand::NavGoForward => self.page_effects(Effect::GoForward),
            ShellCommand::NavReload => self.page_effects(Effect::Reload),
            ShellCommand::NavStop => self.page_effects(Effect::StopLoad),
            ShellCommand::SetHwAccel(_)
            | ShellCommand::SetZoomPersist(_)
            | ShellCommand::PluginDisable(_)
            | ShellCommand::PluginUninstall(_)
            | ShellCommand::PluginInstallPicker
            | ShellCommand::IntegrityReverifyAll
            | ShellCommand::IntegrityPluginDetail(_) => no_effects(),
        }
    }
}

/// What a key does: the shell after it, whether the key was taken, what it
/// entails, and the command that it gives.
pub struct KeyView {
    pub shell: ShellView,
    pub consumed: bool,
    pub effects: Seq<EffectView>,
    pub command: Option<CommandView>,
}

/// What a key did outside of the shell's state.
#[derive(Debug)]
pub struct KeyOutcome {
    /// Whether the key was taken; else it goes to whoever has the focus.
    pub consumed: bool,
    pub effects: Vec<Effect<String>>,
}

/// Whether the key is the character `c`, in either case; `upper` is its upper
/// case.
pub open spec fn is_letter(key: Key, c: char, upper: char) -> bool {
    match key {
        Key::Character(s) => s@.len() == 1 && (s@[0] == c || s@[0] == upper),
        _ => false,
    }
}

fn key_is_letter(key: &Key, c: char, upper: char) -> (r: bool)
    ensures
        r == is_letter(*key, c, upper),
{
    match key {
        Key::Character(s) => {
            let v = chars_of(s.as_str());
            v.len() == 1 && (v[0] == c || v[0] == upper)
        },
        _ => false,
    }
}

/// The picker with the characters of a text typed, one after the other.
pub open spec fn typed_all(p: PickerView, s: Seq<char>) -> PickerView
    decreases s.len(),
{
    if s.len() == 0 {
        p
    } else {
        typed_all(p, s.drop_last()).typed(s.last())
    }
}

/// What redraws the window where an overlay covered it.
pub open spec fn uncover() -> Seq<EffectView> {
    seq![Effect::RedrawChrome, Effect::RedrawContent]
}

fn uncover_effects() -> (r: Vec<Effect<String>>)
    ensures
        effects(r@) == uncover(),
{
    let mut out: Vec<Effect<String>> = Vec::new();
    out.push(Effect::RedrawChrome);
    out.push(Effect::RedrawContent);
    assert(effects(out@) =~= uncover());
    out
}

/// The script that hides the integrity panel.
pub open spec fn hide_integrity() -> Seq<char> {
    op_script("hide_integrity_panel"@, "null"@)
}

impl ShellView {
    /// A key that is taken and does `effects`.
    pub open spec fn taken(self, effects: Seq<EffectView>) -> KeyView {
        KeyView { shell: self, consumed: true, effects, command: None }
    }

    /// A key that is taken and gives a command.
    pub open spec fn ordered(self, command: CommandView) -> KeyView {
        KeyView { shell: self, consumed: true, effects: nothing(), command: Some(command) }
    }

    /// A key that belongs to whoever has the focus.
    pub open spec fn passed(self) -> KeyView {
        KeyView { shell: self, consumed: false, effects: nothing(), command: None }
    }

    /// The shell with another picker.
    pub open spec fn with_picker(self, picker: PickerView) -> ShellView {
        ShellView { picker, ..self }
    }

    /// Bringing the tab `id` into view: it is selected where the window has
    /// it, and revealed where it is hidden.
    pub open spec fn reveal_effect(self, id: u64) -> EffectView {
        if crate::shell::place_of(self.tabs, id) < self.tabs.len() {
            Effect::SelectTab(id)
        } else {
            Effect::RevealTab(id)
        }
    }

    /// What taking the picker's selected row entails.
    pub open spec fn pick_effects(self) -> Seq<EffectView> {
        match self.picker.selection() {
            Some(e) => uncover() + seq![
                if e.kind.switches() {
                    Effect::SelectTab(e.id)
                } else {
                    self.reveal_effect(e.id)
                },
            ],
            None => uncover(),
        }
    }

    /// What a key does while the picker is open: it takes every one.
    pub open spec fn picker_key(self, pressed: bool, modifiers: Modifiers, key: Key) -> KeyView {
        let render = seq![Effect::<Seq<char>>::RenderPicker];
        if !pressed {
            self.taken(nothing())
        } else {
            match key {
                Key::Named(NamedKey::Escape) => self.with_picker(PickerView::closed()).taken(
                    uncover(),
                ),
                Key::Named(NamedKey::Enter) => self.with_picker(PickerView::closed()).taken(
                    self.pick_effects(),
                ),
                Key::Named(NamedKey::ArrowDown) => self.with_picker(
                    self.picker.moved_down(),
                ).taken(render),
                Key::Named(NamedKey::ArrowUp) => self.with_picker(self.picker.moved_up()).taken(
                    render,
                ),
                Key::Named(NamedKey::Backspace) => self.with_picker(self.picker.erased()).taken(
                    render,
                ),
                Key::Named(NamedKey::Space) => self.with_picker(self.picker.typed(' ')).taken(
                    render,
                ),
                Key::Character(s) => if !modifiers.control {
                    self.with_picker(typed_all(self.picker, s@)).taken(render)
                } else if is_letter(key, 'j', 'J') {
                    self.with_picker(self.picker.moved_down()).taken(render)
                } else if is_letter(key, 'k', 'K') {
                    self.with_picker(self.picker.moved_up()).taken(render)
                } else {
                    self.taken(nothing())
                },
                _ => self.taken(nothing()),
            }
        }
    }

    /// What dismissing does: it closes the integrity panel and its overlay.
    /// The key is taken only where one of them was open.
    pub open spec fn dismissed(self) -> KeyView {
        KeyView {
            shell: ShellView { integrity_open: false, integrity_chrome_open: false, ..self },
            consumed: self.integrity_open || self.integrity_chrome_open,
            effects: (if self.integrity_open {
                uncover()
            } else {
                nothing()
            }) + effect_if(
                self.integrity_chrome_open && self.chrome_ready,
                Effect::EvalChrome(hide_integrity()),
            ),
            command: None,
        }
    }

    /// What the integrity chord does: it shows or hides the panel in the
    /// chrome, or the overlay while there is no chrome yet.
    pub open spec fn integrity_toggled(self) -> KeyView {
        if self.chrome_ready {
            if self.integrity_chrome_open {
                ShellView { integrity_chrome_open: false, ..self }.taken(
                    seq![Effect::EvalChrome(hide_integrity())],
                )
            } else {
                self.taken(seq![Effect::ShowIntegrity])
            }
        } else if self.integrity_open {
            ShellView { integrity_open: false, ..self }.taken(uncover())
        } else {
            self.taken(seq![Effect::OpenIntegrityOverlay])
        }
    }

    /// What follows from a dialog's answer.
    pub open spec fn approval_effects(
        self,
        result: DialogResultView,
        outcome: ApproveOutcome,
    ) -> Seq<EffectView> {
        let audit = match (outcome, dialog_approval(result)) {
            (ApproveOutcome::Denied, ApprovalView::Deny(reason)) => seq![
                Effect::AuditDenial { plugin: result.plugin, reason },
            ],
            _ => nothing(),
        };
        let settled = if outcome == ApproveOutcome::Loaded || outcome == ApproveOutcome::Denied {
            effect_if(
                self.chrome_ready,
                Effect::EvalChrome(op_script("hide_approval_dialog"@, "null"@)),
            ) + effect_if(self.integrity_chrome_open, Effect::ShowIntegrity) + seq![
                Effect::ShowNextApproval,
            ]
        } else {
            nothing()
        };
        audit + settled
    }

    /// What a chord's action does.
    pub open spec fn acted(self, action: KeybindAction) -> KeyView {
        match action {
            KeybindAction::DismissModal => self.dismissed(),
            KeybindAction::OpenPicker => self.taken(seq![Effect::OpenPicker]),
            KeybindAction::ToggleIntegrity => self.integrity_toggled(),
            KeybindAction::NewTab => self.taken(
                seq![Effect::OpenTab { url: start_url(), title: None, foreground: true }],
            ),
            KeybindAction::CloseTabOrWindow => if self.has_active() {
                let id = self.tabs[self.active].id;
                self.closed_tab(id).taken(self.close_effects(id))
            } else {
                self.taken(nothing())
            },
            KeybindAction::CloseWindow | KeybindAction::Quit => ShellView {
                should_exit: true,
                ..self
            }.taken(nothing()),
            KeybindAction::FocusOmnibox => self.taken(
                seq![Effect::EvalChrome(op_script("focus_omnibox"@, "null"@))],
            ),
            KeybindAction::ReloadTab => self.taken(self.page_effect(Effect::Reload)),
            KeybindAction::GoBack => self.taken(self.page_effect(Effect::GoBack)),
            KeybindAction::GoForward => self.taken(self.page_effect(Effect::GoForward)),
            KeybindAction::SwitchWorkspaceByIndex(i) => self.taken(
                seq![Effect::SwitchWorkspaceAt(i)],
            ),
            KeybindAction::SwitchWorkspaceLast => self.taken(seq![Effect::SwitchWorkspaceLast]),
            KeybindAction::CycleTab => if self.tabs.len() < 2 {
                self.taken(nothing())
            } else {
                self.taken(
                    seq![
                        Effect::SelectTab(
                            self.tabs[(self.active + 1) % self.tabs.len() as int].id,
                        ),
                    ],
                )
            },
            KeybindAction::FindInPage => self.ordered(ShellCommand::FindInPage),
            KeybindAction::FindNext => self.ordered(ShellCommand::FindNext),
            KeybindAction::FindPrev => self.ordered(ShellCommand::FindPrev),
            KeybindAction::ZoomIn => self.ordered(ShellCommand::ZoomIn),
            KeybindAction::ZoomOut => self.ordered(ShellCommand::ZoomOut),
            KeybindAction::ZoomReset => self.ordered(ShellCommand::ZoomReset),
            KeybindAction::ReopenClosedTab => self.ordered(ShellCommand::ReopenClosedTab),
        }
    }

    /// What a key does. The open picker takes every key; releases do nothing;
    /// a made-up dialog can be shown by its chord; then come the chords of the
    /// table.
    pub open spec fn key_result(self, pressed: bool, modifiers: Modifiers, key: Key) -> KeyView {
        if self.picker.open {
            self.picker_key(pressed, modifiers, key)
        } else if !pressed {
            self.passed()
        } else if modifiers.shift && modifiers.control && self.chrome_ready && is_letter(
            key,
            'a',
            'A',
        ) {
            self.taken(seq![Effect::ShowSampleApproval { hostile: false }])
        } else if modifiers.shift && modifiers.control && self.chrome_ready && is_letter(
            key,
            'x',
            'X',
        ) {
            self.taken(seq![Effect::ShowSampleApproval { hostile: true }])
        } else {
            match chord_action(modifiers, key, self.tabs.len()) {
                Some(action) => self.acted(action),
                None => self.passed(),
            }
        }
    }
}

fn taken(effects: Vec<Effect<String>>) -> (r: KeyOutcome)
    ensures
        r.consumed,
        r.effects == effects,
{
    KeyOutcome { consumed: true, effects }
}

impl Shell {
    /// What brings the tab `id` into view: selecting it where the window has
    /// it, revealing it where it is hidden.
    pub fn reveal_tab(&self, id: u64) -> (r: Effect<String>)
        ensures
            r@ == self@.reveal_effect(id),
    {
        if self.has_tab(id) {
            Effect::SelectTab(id)
        } else {
            Effect::RevealTab(id)
        }
    }

    /// Takes the picker's selected row, and closes the picker.
    fn activate_picker_selection(&mut self) -> (r: Vec<Effect<String>>)
        ensures
            final(self)@ == old(self)@.with_picker(PickerView::closed()),
            effects(r@) == old(self)@.pick_effects(),
    {
        let mut out = uncover_effects();
        let next = match self.picker.selected_entry() {
            Some(entry) => if entry.is_active() {
                Some(Effect::SelectTab(entry.id))
            } else {
                Some(self.reveal_tab(entry.id))
            },
            None => None,
        };
        if let Some(e) = next {
            proof {
                lemma_effects_push(out@, e);
            }
            out.push(e);
        }
        assert(effects(out@) =~= self@.pick_effects());
        self.picker.close();
        out
    }

    /// Types a text into the picker.
    fn type_all(&mut self, s: &str)
        ensures
            final(self)@ == old(self)@.with_picker(typed_all(old(self)@.picker, s@)),
    {
        let v = chars_of(s);
        let ghost before = self@;
        let mut i: usize = 0;
        assert(v@.subrange(0, 0) =~= Seq::<char>::empty());
        while i < v.len()
            invariant
                i <= v@.len(),
                self@ == before.with_picker(
                    typed_all(before.picker, v@.subrange(0, i as int)),
                ),
            decreases v@.len() - i,
        {
            let ghost next = v@.subrange(0, i + 1);
            assert(next.drop_last() =~= v@.subrange(0, i as int));
            self.picker.push_char(v[i]);
            i = i + 1;
        }
        assert(v@.subrange(0, v@.len() as int) =~= s@);
    }

    /// Handles a key while the picker is open.
    pub fn picker_key(&mut self, pressed: bool, modifiers: Modifiers, key: &Key) -> (r: KeyOutcome)
        requires
            old(self)@.picker.wf(),
        ensures
            final(self)@ == old(self)@.picker_key(pressed, modifiers, *key).shell,
            r.consumed == old(self)@.picker_key(pressed, modifiers, *key).consumed,
            effects(r.effects@) == old(self)@.picker_key(pressed, modifiers, *key).effects,
            old(self)@.picker_key(pressed, modifiers, *key).command is None,
    {
        if !pressed {
            return taken(no_effects());
        }
        match key {
            Key::Named(NamedKey::Escape) => {
                self.picker.close();
                return taken(uncover_effects());
            },
            Key::Named(NamedKey::Enter) => {
                return taken(self.activate_picker_selection());
            },
            Key::Named(NamedKey::ArrowDown) => {
                self.picker.move_down();
            },
            Key::Named(NamedKey::ArrowUp) => {
                self.picker.move_up();
            },
            Key::Named(NamedKey::Backspace) => {
                self.picker.backspace();
            },
            Key::Named(NamedKey::Space) => {
                self.picker.push_char(' ');
            },
            Key::Character(s) => {
                if !modifiers.control {
                    self.type_all(s.as_str());
                } else if key_is_letter(key, 'j', 'J') {
                    self.picker.move_down();
                } else if key_is_letter(key, 'k', 'K') {
                    self.picker.move_up();
                } else {
                    return taken(no_effects());
                }
            },
            _ => {
                return taken(no_effects());
            },
        }
        taken(one_effect(Effect::RenderPicker))
    }

    fn dismiss(&mut self) -> (r: KeyOutcome)
        ensures
            final(self)@ == old(self)@.dismissed().shell,
            r.consumed == old(self)@.dismissed().consumed,
            effects(r.effects@) == old(self)@.dismissed().effects,
    {
        let ghost before = self@;
        let overlay = self.integrity_open;
        let panel = self.integrity_chrome_open;
        self.integrity_open = false;
        self.integrity_chrome_open = false;
        let mut out = if overlay {
            uncover_effects()
        } else {
            no_effects()
        };
        if panel && self.chrome_ready {
            let e = Effect::EvalChrome(apply_op("hide_integrity_panel", "null"));
            proof {
                lemma_effects_push(out@, e);
            }
            out.push(e);
        }
        assert(effects(out@) =~= before.dismissed().effects);
        KeyOutcome { consumed: overlay || panel, effects: out }
    }

    fn toggle_integrity(&mut self) -> (r: KeyOutcome)
        ensures
            final(self)@ == old(self)@.integrity_toggled().shell,
            r.consumed,
            effects(r.effects@) == old(self)@.integrity_toggled().effects,
    {
        if self.chrome_ready {
            if self.integrity_chrome_open {
                self.integrity_chrome_open = false;
                taken(one_effect(Effect::EvalChrome(apply_op("hide_integrity_panel", "null"))))
            } else {
                taken(one_effect(Effect::ShowIntegrity))
            }
        } else if self.integrity_open {
            self.integrity_open = false;
            taken(uncover_effects())
        } else {
            taken(one_effect(Effect::OpenIntegrityOverlay))
        }
    }

    /// Takes in whether the integrity overlay could be opened.
    pub fn integrity_overlay_opened(&mut self, opened: bool)
        ensures
            final(self)@ == (ShellView { integrity_open: opened, ..old(self)@ }),
    {
        self.integrity_open = opened;
    }

    /// Opens the picker over the workspace's tabs, where its page could be
    /// made; else it stays closed.
    pub fn open_picker(&mut self, entries: Vec<PickerEntry>, page_made: bool)
        ensures
            final(self)@ == old(self)@.with_picker(
                if page_made {
                    PickerView::opened(entries@.map_values(|e: PickerEntry| e@))
                } else {
                    PickerView::closed()
                },
            ),
    {
        if page_made {
            self.picker.open(entries);
        } else {
            self.picker.close();
        }
    }

    /// What follows from a dialog's answer, given what became of it: a denial is
    /// audited; once the answer is settled the dialog is hidden, the integrity
    /// panel shown anew where it is open, and the next dialog shown. A plugin
    /// that did not load keeps its dialog, and a dropped answer must not hide
    /// another's.
    pub fn approval_done(&self, result: &DialogResult, outcome: ApproveOutcome) -> (r: Vec<
        Effect<String>,
    >)
        ensures
            effects(r@) == self@.approval_effects(result@, outcome),
    {
        let settled = match outcome {
            ApproveOutcome::Loaded | ApproveOutcome::Denied => true,
            ApproveOutcome::LoadFailed | ApproveOutcome::NotPending => false,
        };
        let mut out: Vec<Effect<String>> = Vec::new();
        if outcome == ApproveOutcome::Denied {
            if let Approval::Deny { reason } = approval_from_dialog(result) {
                out.push(Effect::AuditDenial { plugin: result.plugin().to_owned(), reason });
            }
        }
        if settled {
            if self.chrome_ready {
                out.push(Effect::EvalChrome(apply_op("hide_approval_dialog", "null")));
            }
            if self.integrity_chrome_open {
                out.push(Effect::ShowIntegrity);
            }
            out.push(Effect::ShowNextApproval);
        }
        assert(effects(out@) =~= self@.approval_effects(result@, outcome));
        out
    }

    /// What follows from an action on a plugin: the integrity panel is shown
    /// anew where it is open.
    pub fn refresh_integrity_panel(&self) -> (r: Vec<Effect<String>>)
        ensures
            effects(r@) == effect_if(self@.integrity_chrome_open, Effect::ShowIntegrity),
    {
        one_effect_if(self.integrity_chrome_open, Effect::ShowIntegrity)
    }

    /// Whether the chrome captures the pointer: it shows the integrity panel,
    /// or an approval dialog waits.
    pub fn chrome_overlay_capturing_input(&self, pending_approvals: usize) -> (r: bool)
        ensures
            r == (self@.integrity_chrome_open || pending_approvals > 0),
    {
        self.integrity_chrome_open || pending_approvals > 0
    }

    /// Does what a chord's action says.
    fn act(&mut self, queue: &mut CommandQueue, action: KeybindAction) -> (r: KeyOutcome)
        requires
            old(self)@.wf(),
        ensures
            final(self)@ == old(self)@.acted(action).shell,
            r.consumed == old(self)@.acted(action).consumed,
            effects(r.effects@) == old(self)@.acted(action).effects,
            enqueued(old(queue)@, final(queue)@, old(self)@.acted(action).command),
    {
        let command = match action {
            KeybindAction::FindInPage => Some(ShellCommand::FindInPage),
            KeybindAction::FindNext => Some(ShellCommand::FindNext),
            KeybindAction::FindPrev => Some(ShellCommand::FindPrev),
            KeybindAction::ZoomIn => Some(ShellCommand::ZoomIn),
            KeybindAction::ZoomOut => Some(ShellCommand::ZoomOut),
            KeybindAction::ZoomReset => Some(ShellCommand::ZoomReset),
            KeybindAction::ReopenClosedTab => Some(ShellCommand::ReopenClosedTab),
            _ => None,
        };
        if let Some(c) = command {
            push(queue, c);
            assert(queue@.drop_last() =~= old(queue)@);
            return taken(no_effects());
        }
        match action {
            KeybindAction::DismissModal => self.dismiss(),
            KeybindAction::OpenPicker => taken(one_effect(Effect::OpenPicker)),
            KeybindAction::ToggleIntegrity => self.toggle_integrity(),
            KeybindAction::NewTab => {
                let url = default_start_url().to_owned();
                taken(one_effect(Effect::OpenTab { url, title: None, foreground: true }))
            },
            KeybindAction::CloseTabOrWindow => if self.active < self.tabs.len() {
                let id: u64 = self.tabs[self.active].id;
                taken(self.close_tab(id))
            } else {
                taken(no_effects())
            },
            KeybindAction::CloseWindow | KeybindAction::Quit => {
                self.should_exit = true;
                taken(no_effects())
            },
            KeybindAction::FocusOmnibox => taken(
                one_effect(Effect::EvalChrome(apply_op("focus_omnibox", "null"))),
            ),
            KeybindAction::ReloadTab => taken(self.page_effects(Effect::Reload)),
            KeybindAction::GoBack => taken(self.page_effects(Effect::GoBack)),
            KeybindAction::GoForward => taken(self.page_effects(Effect::GoForward)),
            KeybindAction::SwitchWorkspaceByIndex(i) => taken(
                one_effect(Effect::SwitchWorkspaceAt(i)),
            ),
            KeybindAction::SwitchWorkspaceLast => taken(one_effect(Effect::SwitchWorkspaceLast)),
            KeybindAction::CycleTab => match self.next_tab() {
                Some(id) => taken(one_effect(Effect::SelectTab(id))),
                None => taken(no_effects()),
            },
            _ => taken(no_effects()),
        }
    }

    /// Handles a key before the page sees it: what the picker or a chord takes
    /// does not go on to whoever has the focus.
    pub fn intercept_keybind(
        &mut self,
        queue: &mut CommandQueue,
        pressed: bool,
        modifiers: Modifiers,
        key: &Key,
    ) -> (r: KeyOutcome)
        requires
            old(self)@.wf(),
        ensures
            final(self)@ == old(self)@.key_result(pressed, modifiers, *key).shell,
            r.consumed == old(self)@.key_result(pressed, modifiers, *key).consumed,
            effects(r.effects@) == old(self)@.key_result(pressed, modifiers, *key).effects,
            enqueued(
                old(queue)@,
                final(queue)@,
                old(self)@.key_result(pressed, modifiers, *key).command,
            ),
    {
        if self.picker.is_open() {
            return self.picker_key(pressed, modifiers, key);
        }
        if !pressed {
            return KeyOutcome { consumed: false, effects: no_effects() };
        }
        if modifiers.shift && modifiers.control && self.chrome_ready {
            if key_is_letter(key, 'a', 'A') {
                return taken(one_effect(Effect::ShowSampleApproval { hostile: false }));
            }
            if key_is_letter(key, 'x', 'X') {
                return taken(one_effect(Effect::ShowSampleApproval { hostile: true }));
            }
        }
        match classify_chord(modifiers, key, self.tabs.len()) {
            Some(action) => self.act(queue, action),
            None => KeyOutcome { consumed: false, effects: no_effects() },
        }
    }
}

} // verus!
