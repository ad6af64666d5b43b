//! The records that the window manager reports, and the events that carry them.

use vstd::prelude::*;

verus! {

/// A window as the window manager describes it.
#[derive(Debug, PartialEq, Eq)]
pub struct WindowInfo {
    /// Stable identifier, assigned by the window manager.
    pub id: u64,
    /// Title, if the window has set one.
    pub title: Option<String>,
    /// Application identifier; the key under which the window's icon is looked up.
    pub app_id: Option<String>,
    /// The workspace that holds the window, if any. It may name a workspace
    /// that is not (or not yet) known.
    pub workspace_id: Option<u64>,
}

/// The mathematical value of a [`WindowInfo`].
pub struct WindowInfoView {
    pub id: u64,
    pub title: Option<Seq<char>>,
    pub app_id: Option<Seq<char>>,
    pub workspace_id: Option<u64>,
}

impl View for WindowInfo {
    type V = WindowInfoView;

    open spec fn view(&self) -> WindowInfoView {
        WindowInfoView {
            id: self.id,
            title: self.title.deep_view(),
            app_id: self.app_id.deep_view(),
            workspace_id: self.workspace_id,
        }
    }
}

impl DeepView for WindowInfo {
    type V = WindowInfoView;

    open spec fn deep_view(&self) -> WindowInfoView {
        self@
    }
}

/// A workspace as the window manager describes it.
#[derive(Debug, PartialEq, Eq)]
pub struct WorkspaceInfo {
    /// Stable identifier, assigned by the window manager.
    pub id: u64,
    /// Position of the workspace on its output; the display order goes by it.
    pub idx: u8,
    /// Name of the output that shows the workspace, if one is connected.
    pub output: Option<String>,
    /// Whether the workspace is the visible one on its output.
    pub is_active: bool,
    /// Whether the workspace has the focus.
    pub is_focused: bool,
}

/// The mathematical value of a [`WorkspaceInfo`].
pub struct WorkspaceInfoView {
    pub id: u64,
    pub idx: u8,
    pub output: Option<Seq<char>>,
    pub is_active: bool,
    pub is_focused: bool,
}

impl View for WorkspaceInfo {
    type V = WorkspaceInfoView;

    open spec fn view(&self) -> WorkspaceInfoView {
        WorkspaceInfoView {
            id: self.id,
            idx: self.idx,
            output: self.output.deep_view(),
            is_active: self.is_active,
            is_focused: self.is_focused,
        }
    }
}

impl DeepView for WorkspaceInfo {
    type V = WorkspaceInfoView;

    open spec fn deep_view(&self) -> WorkspaceInfoView {
        self@
    }
}

/// A change that the window manager announces.
#[allow(inconsistent_fields)]
#[derive(Debug, PartialEq, Eq)]
pub enum Event {
    /// The whole list of workspaces, replacing what was known.
    WorkspacesChanged { workspaces: Vec<WorkspaceInfo> },
    /// The whole list of windows, replacing what was known.
    WindowsChanged { windows: Vec<WindowInfo> },
    /// A window appeared, or an existing one changed.
    WindowOpenedOrChanged { window: WindowInfo },
    /// A window went away.
    WindowClosed { id: u64 },
    /// A workspace became the active one on its output.
    WorkspaceActivated { id: u64, focused: bool },
    /// Another window became the active one of a workspace. Not part of the model.
    WorkspaceActiveWindowChanged { workspace_id: u64, active_window_id: Option<u64> },
    /// The focus moved to another window. Not part of the model.
    WindowFocusChanged { id: Option<u64> },
    /// The set of keyboard layouts changed. Not part of the model.
    KeyboardLayoutsChanged,
    /// Another keyboard layout was selected. Not part of the model.
    KeyboardLayoutSwitched { idx: u8 },
}

/// The mathematical value of an [`Event`].
#[allow(inconsistent_fields)]
pub enum EventView {
    WorkspacesChanged { workspaces: Seq<WorkspaceInfoView> },
    WindowsChanged { windows: Seq<WindowInfoView> },
    WindowOpenedOrChanged { window: WindowInfoView },
    WindowClosed { id: u64 },
    WorkspaceActivated { id: u64, focused: bool },
    WorkspaceActiveWindowChanged { workspace_id: u64, active_window_id: Option<u64> },
    WindowFocusChanged { id: Option<u64> },
    KeyboardLayoutsChanged,
    KeyboardLayoutSwitched { idx: u8 },
}

impl View for Event {
    type V = EventView;

    open spec fn view(&self) -> EventView {
        match *self {
            Event::WorkspacesChanged { workspaces } => EventView::WorkspacesChanged {
                workspaces: workspaces.deep_view(),
            },
            Event::WindowsChanged { windows } => EventView::WindowsChanged {
                windows: windows.deep_view(),
            },
            Event::WindowOpenedOrChanged { window } => EventView::WindowOpenedOrChanged {
                window: window@,
            },
            Event::WindowClosed { id } => EventView::WindowClosed { id },
            Event::WorkspaceActivated { id, focused } => EventView::WorkspaceActivated {
                id,
                focused,
            },
            Event::WorkspaceActiveWindowChanged {
                workspace_id,
                active_window_id,
            } => EventView::WorkspaceActiveWindowChanged { workspace_id, active_window_id },
            Event::WindowFocusChanged { id } => EventView::WindowFocusChanged { id },
            Event::KeyboardLayoutsChanged => EventView::KeyboardLayoutsChanged,
            Event::KeyboardLayoutSwitched { idx } => EventView::KeyboardLayoutSwitched { idx },
        }
    }
}

} // verus!
