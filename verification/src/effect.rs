//! What the shell wants done outside of it: by the engine, the session, the
//! plugins and the window. The surroundings perform effects in order.

use crate::approval::DialogResult;
use crate::text::opt_text;
use vstd::prelude::*;

verus! {

/// Something to be done outside; `T` is the type of its texts.
#[derive(Debug)]
#[allow(inconsistent_fields)]
pub enum Effect<T> {
    /// Write the session out.
    FlushSession,
    /// Give a tab of the session a new URL, and no title.
    SessionUrl { id: u64, url: T },
    /// Give a tab of the session a title.
    SessionTitle { id: u64, title: T },
    /// Close a tab of the session.
    CloseSessionTab(u64),
    /// Mark a tab of the session as discarded.
    DiscardSessionTab(u64),
    /// Make this the session's workspace.
    SessionWorkspace(u64),
    /// Bring a hidden tab of the session into the window.
    RevealTab(u64),
    /// Add a tab to the session, make its page, and report it as opened.
    OpenTab { url: T, title: Option<T>, foreground: bool },
    /// Make the page that the tab may lack, and select the tab.
    SelectTab(u64),
    /// Load a URL in the active page.
    LoadUrl(T),
    /// Close the page of a tab.
    ClosePage(u64),
    /// Give the active page the size of the viewport.
    SizeActivePage,
    /// Tell the active page whether it has the focus.
    FocusActivePage(bool),
    /// Tell the chrome whether it has the focus.
    FocusChrome(bool),
    GoBack,
    GoForward,
    Reload,
    StopLoad,
    /// Search the active page.
    Find { query: T, forward: bool, find_next: bool },
    StopFinding,
    /// Run an editing command in the active page.
    EditCommand(T),
    ZoomIn,
    ZoomOut,
    ZoomReset,
    /// Upload the chrome's next frame in any case.
    RedrawChrome,
    /// Upload the page's next frame in any case.
    RedrawContent,
    /// Run a script in the chrome document.
    EvalChrome(T),
    /// Tell the chrome the tabs, the URL, and what follows from them.
    PushState,
    /// Tell the chrome the status line.
    PushStatusline,
    /// Tell the chrome the bookmarks.
    PushBookmarks,
    /// Tell the chrome the history.
    PushHistory,
    /// Tell the chrome the workspaces.
    PushWorkspaces,
    /// Tell the history plugin of a visit.
    RecordVisit(T),
    /// Tell the history plugin the title of a page.
    HistoryTitle { url: T, title: T },
    RemoveBookmark(T),
    /// Add or remove the bookmark of a URL.
    ToggleBookmark { url: T, title: Option<T> },
    /// Ask for omnibox suggestions, and show them.
    QuerySuggestions(T),
    /// Ask the workspace plugin to switch.
    SwitchWorkspace(T),
    /// Switch to the workspace at this place, counted from one.
    SwitchWorkspaceAt(u8),
    SwitchWorkspaceLast,
    /// Run the initial plugin load.
    LoadPlugins,
    /// Show the first approval dialog that waits.
    ShowNextApproval,
    /// Act on the approval dialog's answer.
    ApprovePlugin(DialogResult),
    /// Record in the audit log that the user denied a plugin, and why.
    AuditDenial { plugin: T, reason: T },
    UpdatePlugin(T),
    RollbackPlugin(T),
    ReloadPlugin(T),
    RevokePlugin(T),
    AdjustScope(T),
    RevokeSecret { plugin: T, name: T },
    /// Put a text on the clipboard.
    CopyText(T),
    /// Give the window a title.
    WindowTitle(T),
    /// Make the picker's page, and open the picker.
    OpenPicker,
    /// Show the picker's state.
    RenderPicker,
    /// Show the integrity panel in the chrome.
    ShowIntegrity,
    /// Make the integrity overlay's page.
    OpenIntegrityOverlay,
    /// Show a made-up approval dialog.
    ShowSampleApproval { hostile: bool },
}

/// An effect with its texts as values.
pub type EffectView = Effect<Seq<char>>;

impl View for Effect<String> {
    type V = Effect<Seq<char>>;

    open spec fn view(&self) -> Effect<Seq<char>> {
        match *self {
            Effect::FlushSession => Effect::FlushSession,
            Effect::SessionUrl { id, url } => Effect::SessionUrl { id, url: url@ },
            Effect::SessionTitle { id, title } => Effect::SessionTitle { id, title: title@ },
            Effect::CloseSessionTab(x) => Effect::CloseSessionTab(x),
            Effect::DiscardSessionTab(x) => Effect::DiscardSessionTab(x),
            Effect::SessionWorkspace(x) => Effect::SessionWorkspace(x),
            Effect::RevealTab(x) => Effect::RevealTab(x),
            Effect::OpenTab { url, title, foreground } => Effect::OpenTab { url: url@, title: opt_text(title), foreground },
            Effect::SelectTab(x) => Effect::SelectTab(x),
            Effect::LoadUrl(x) => Effect::LoadUrl(x@),
            Effect::ClosePage(x) => Effect::ClosePage(x),
            Effect::SizeActivePage => Effect::SizeActivePage,
            Effect::FocusActivePage(x) => Effect::FocusActivePage(x),
            Effect::FocusChrome(x) => Effect::FocusChrome(x),
            Effect::GoBack => Effect::GoBack,
            Effect::GoForward => Effect::GoForward,
            Effect::Reload => Effect::Reload,
            Effect::StopLoad => Effect::StopLoad,
            Effect::Find { query, forward, find_next } => Effect::Find { query: query@, forward, find_next },
            Effect::StopFinding => Effect::StopFinding,
            Effect::EditCommand(x) => Effect::EditCommand(x@),
            Effect::ZoomIn => Effect::ZoomIn,
            Effect::ZoomOut => Effect::ZoomOut,
            Effect::ZoomReset => Effect::ZoomReset,
            Effect::RedrawChrome => Effect::RedrawChrome,
            Effect::RedrawContent => Effect::RedrawContent,
            Effect::EvalChrome(x) => Effect::EvalChrome(x@),
            Effect::PushState => Effect::PushState,
            Effect::PushStatusline => Effect::PushStatusline,
            Effect::PushBookmarks => Effect::PushBookmarks,
            Effect::PushHistory => Effect::PushHistory,
            Effect::PushWorkspaces => Effect::PushWorkspaces,
            Effect::RecordVisit(x) => Effect::RecordVisit(x@),
            Effect::HistoryTitle { url, title } => Effect::HistoryTitle { url: url@, title: title@ },
            Effect::RemoveBookmark(x) => Effect::RemoveBookmark(x@),
            Effect::ToggleBookmark { url, title } => Effect::ToggleBookmark { url: url@, title: opt_text(title) },
            Effect::QuerySuggestions(x) => Effect::QuerySuggestions(x@),
            Effect::SwitchWorkspace(x) => Effect::SwitchWorkspace(x@),
            Effect::SwitchWorkspaceAt(x) => Effect::SwitchWorkspaceAt(x),
            Effect::SwitchWorkspaceLast => Effect::SwitchWorkspaceLast,
            Effect::LoadPlugins => Effect::LoadPlugins,
            Effect::ShowNextApproval => Effect::ShowNextApproval,
            Effect::ApprovePlugin(x) => Effect::ApprovePlugin(x),
            Effect::AuditDenial { plugin, reason } => Effect::AuditDenial { plugin: plugin@, reason: reason@ },
            Effect::UpdatePlugin(x) => Effect::UpdatePlugin(x@),
            Effect::RollbackPlugin(x) => Effect::RollbackPlugin(x@),
            Effect::ReloadPlugin(x) => Effect::ReloadPlugin(x@),
            Effect::RevokePlugin(x) => Effect::RevokePlugin(x@),
            Effect::AdjustScope(x) => Effect::AdjustScope(x@),
            Effect::RevokeSecret { plugin, name } => Effect::RevokeSecret { plugin: plugin@, name: name@ },
            Effect::CopyText(x) => Effect::CopyText(x@),
            Effect::WindowTitle(x) => Effect::WindowTitle(x@),
            Effect::OpenPicker => Effect::OpenPicker,
            Effect::RenderPicker => Effect::RenderPicker,
            Effect::ShowIntegrity => Effect::ShowIntegrity,
            Effect::OpenIntegrityOverlay => Effect::OpenIntegrityOverlay,
            Effect::ShowSampleApproval { hostile } => Effect::ShowSampleApproval { hostile },
        }
    }
}

/// The effects of a list.
pub open spec fn effects(v: Seq<Effect<String>>) -> Seq<EffectView> {
    v.map_values(|e: Effect<String>| e@)
}

/// One more effect comes behind the others.
pub broadcast proof fn lemma_effects_push(v: Seq<Effect<String>>, e: Effect<String>)
    ensures
        #[trigger] effects(v.push(e)) == effects(v).push(e@),
{
    assert(effects(v.push(e)) =~= effects(v).push(e@));
}

} // verus!
