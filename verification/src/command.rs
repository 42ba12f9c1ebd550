//! The commands that the chrome's operations and the keyboard give to the
//! shell, and the queue that they wait in.

use crate::approval::DialogResult;
use std::collections::VecDeque;
use vstd::prelude::*;

verus! {

/// Who owns keyboard input.
#[derive(Debug, Clone, Copy, PartialEq, Eq, Structural)]
pub enum FocusOwner {
    /// The chrome document: the omnibox or another control.
    Chrome,
    /// The active content page.
    Page,
}

/// A command to the shell; `T` is the type of its texts.
#[derive(Debug)]
pub enum ShellCommand<T> {
    /// Navigate the active tab to a URL.
    Navigate(T),
    /// Free text from the omnibox, still to be resolved to a URL.
    OmniboxSubmit(T),
    /// Open a tab and switch to it; without a URL, at the new-tab page.
    NewTab(Option<T>),
    CloseTab(u64),
    SelectTab(u64),
    FocusOwner(FocusOwner),
    /// The approval dialog's answer, its origins validated.
    ApprovePlugin(DialogResult),
    PluginUpdate(T),
    PluginRollback(T),
    PluginReload(T),
    PluginRevoke(T),
    /// Ask again how far a plugin's grant reaches.
    PluginAdjustScope(T),
    /// Take one secret away from a plugin, for this session.
    PluginRevokeSecret { plugin: T, name: T },
    /// The omnibox text changed: ask for suggestions.
    UrlbarQuery(T),
    SetActivePanel(T),
    CopyActiveUrl,
    BookmarkRemove(T),
    BookmarkToggle,
    SwitchWorkspace(T),
    CloseWindow,
    SetTheme(T),
    SetSearchEngine { name: T, url_template: T },
    SetHwAccel(bool),
    SetZoomPersist(bool),
    PluginDisable(T),
    PluginUninstall(T),
    PluginInstallPicker,
    IntegrityReverifyAll,
    IntegrityPluginDetail(T),
    /// Put the omnibox into find mode.
    FindInPage,
    /// Search the active page; `find_next` goes on with the last search.
    FindText { query: T, forward: bool, find_next: bool },
    FindNext,
    FindPrev,
    StopFinding,
    ZoomIn,
    ZoomOut,
    ZoomReset,
    ReopenClosedTab,
    ContextMenuAction(T),
    NavGoBack,
    NavGoForward,
    NavReload,
    NavStop,
}

/// A command with its texts as values.
pub type CommandView = ShellCommand<Seq<char>>;

impl View for ShellCommand<String> {
    type V = ShellCommand<Seq<char>>;

    open spec fn view(&self) -> ShellCommand<Seq<char>> {
        match *self {
            ShellCommand::Navigate(t) => ShellCommand::Navigate(t@),
            ShellCommand::OmniboxSubmit(t) => ShellCommand::OmniboxSubmit(t@),
            ShellCommand::NewTab(t) => ShellCommand::NewTab(crate::text::opt_text(t)),
            ShellCommand::CloseTab(id) => ShellCommand::CloseTab(id),
            ShellCommand::SelectTab(id) => ShellCommand::SelectTab(id),
            ShellCommand::FocusOwner(o) => ShellCommand::FocusOwner(o),
            ShellCommand::ApprovePlugin(r) => ShellCommand::ApprovePlugin(r),
            ShellCommand::PluginUpdate(t) => ShellCommand::PluginUpdate(t@),
            ShellCommand::PluginRollback(t) => ShellCommand::PluginRollback(t@),
            ShellCommand::PluginReload(t) => ShellCommand::PluginReload(t@),
            ShellCommand::PluginRevoke(t) => ShellCommand::PluginRevoke(t@),
            ShellCommand::PluginAdjustScope(t) => ShellCommand::PluginAdjustScope(t@),
            ShellCommand::PluginRevokeSecret { plugin, name } => ShellCommand::PluginRevokeSecret {
                plugin: plugin@,
                name: name@,
            },
            ShellCommand::UrlbarQuery(t) => ShellCommand::UrlbarQuery(t@),
            ShellCommand::SetActivePanel(t) => ShellCommand::SetActivePanel(t@),
            ShellCommand::CopyActiveUrl => ShellCommand::CopyActiveUrl,
            ShellCommand::BookmarkRemove(t) => ShellCommand::BookmarkRemove(t@),
            ShellCommand::BookmarkToggle => ShellCommand::BookmarkToggle,
            ShellCommand::SwitchWorkspace(t) => ShellCommand::SwitchWorkspace(t@),
            ShellCommand::CloseWindow => ShellCommand::CloseWindow,
            ShellCommand::SetTheme(t) => ShellCommand::SetTheme(t@),
            ShellCommand::SetSearchEngine { name, url_template } => ShellCommand::SetSearchEngine {
                name: name@,
                url_template: url_template@,
            },
            ShellCommand::SetHwAccel(b) => ShellCommand::SetHwAccel(b),
            ShellCommand::SetZoomPersist(b) => ShellCommand::SetZoomPersist(b),
            ShellCommand::PluginDisable(t) => ShellCommand::PluginDisable(t@),
            ShellCommand::PluginUninstall(t) => ShellCommand::PluginUninstall(t@),
            ShellCommand::PluginInstallPicker => ShellCommand::PluginInstallPicker,
            ShellCommand::IntegrityReverifyAll => ShellCommand::IntegrityReverifyAll,
            ShellCommand::IntegrityPluginDetail(t) => ShellCommand::IntegrityPluginDetail(t@),
            ShellCommand::FindInPage => ShellCommand::FindInPage,
            ShellCommand::FindText { query, forward, find_next } => ShellCommand::FindText {
                query: query@,
                forward,
                find_next,
            },
            ShellCommand::FindNext => ShellCommand::FindNext,
            ShellCommand::FindPrev => ShellCommand::FindPrev,
            ShellCommand::StopFinding => ShellCommand::StopFinding,
            ShellCommand::ZoomIn => ShellCommand::ZoomIn,
            ShellCommand::ZoomOut => ShellCommand::ZoomOut,
            ShellCommand::ZoomReset => ShellCommand::ZoomReset,
            ShellCommand::ReopenClosedTab => ShellCommand::ReopenClosedTab,
            ShellCommand::ContextMenuAction(t) => ShellCommand::ContextMenuAction(t@),
            ShellCommand::NavGoBack => ShellCommand::NavGoBack,
            ShellCommand::NavGoForward => ShellCommand::NavGoForward,
            ShellCommand::NavReload => ShellCommand::NavReload,
            ShellCommand::NavStop => ShellCommand::NavStop,
        }
    }
}

/// Commands that wait to be applied, the oldest first.
pub type CommandQueue = VecDeque<ShellCommand<String>>;

/// Whether `after` is `queue` with the command, if any, at its end.
pub open spec fn enqueued(
    queue: Seq<ShellCommand<String>>,
    after: Seq<ShellCommand<String>>,
    command: Option<CommandView>,
) -> bool {
    match command {
        Some(c) => after.len() == queue.len() + 1 && after.drop_last() == queue && after.last()@
            == c,
        None => after == queue,
    }
}

/// Enqueues a command behind those that wait.
pub fn push(queue: &mut CommandQueue, command: ShellCommand<String>)
    ensures
        final(queue)@ == old(queue)@.push(command),
{
    queue.push_back(command);
}

/// Takes every waiting command, in the order in which they were given.
pub fn drain(queue: &mut CommandQueue) -> (r: Vec<ShellCommand<String>>)
    ensures
        r@ == old(queue)@,
        final(queue)@.len() == 0,
{
    let ghost all = queue@;
    let mut out: Vec<ShellCommand<String>> = Vec::new();
    while queue.len() > 0
        invariant
            out@ + queue@ == all,
        decreases queue@.len(),
    {
        let ghost before = queue@;
        let ghost done = out@;
        match queue.pop_front() {
            Some(command) => {
                out.push(command);
                assert(done + before =~= out@ + queue@);
            },
            None => {},
        }
    }
    assert(out@ + queue@ =~= out@);
    out
}

} // verus!
