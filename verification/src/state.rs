//! The reconciled state: the workspaces and windows that the events have
//! described so far.

use crate::model::{Event, EventView, WindowInfo, WindowInfoView, WorkspaceInfo, WorkspaceInfoView};
use crate::table::{
    ascending, is_at, lemma_lookup_at, lookup, place_of, put, rebuilt, table_of, take_out, upsert,
    window_key, without, workspace_key,
};
use crate::text::{clone_text, same_text};
use vstd::prelude::*;

verus! {

/// The output that shows the workspace `id`; none if the workspace is not
/// known or is on no output.
pub open spec fn output_of(workspaces: Seq<WorkspaceInfoView>, id: u64) -> Option<Seq<char>> {
    match lookup(workspaces, workspace_key(), id) {
        Some(workspace) => workspace.output,
        None => None,
    }
}

/// What the activation of workspace `id`, which is on `output`, makes of one
/// workspace: the activated one becomes active and takes the focus flag that
/// came with the event; every other workspace on that output stops being
/// active; the rest stay as they are.
pub open spec fn after_activation(
    workspace: WorkspaceInfoView,
    id: u64,
    focused: bool,
    output: Option<Seq<char>>,
) -> WorkspaceInfoView {
    if workspace.id == id {
        WorkspaceInfoView { is_active: true, is_focused: focused, ..workspace }
    } else if workspace.output == output {
        WorkspaceInfoView { is_active: false, ..workspace }
    } else {
        workspace
    }
}

/// The workspaces after the activation of workspace `id`.
pub open spec fn activated(workspaces: Seq<WorkspaceInfoView>, id: u64, focused: bool) -> Seq<
    WorkspaceInfoView,
> {
    Seq::new(
        workspaces.len(),
        |i: int| after_activation(workspaces[i], id, focused, output_of(workspaces, id)),
    )
}

/// The mathematical value of a [`State`]: its two tables.
pub struct StateView {
    /// The workspaces, in ascending order of identifier.
    pub workspaces: Seq<WorkspaceInfoView>,
    /// The windows, in ascending order of identifier.
    pub windows: Seq<WindowInfoView>,
}

impl StateView {
    /// Both tables are in strictly ascending order of identifier.
    pub open spec fn wf(self) -> bool {
        &&& ascending(self.workspaces, workspace_key())
        &&& ascending(self.windows, window_key())
    }

    /// The state that one event leads to.
    pub open spec fn apply(self, event: EventView) -> StateView {
        match event {
            EventView::WorkspacesChanged { workspaces } => StateView {
                workspaces: rebuilt(workspaces, workspace_key()),
                ..self
            },
            EventView::WindowsChanged { windows } => StateView {
                windows: rebuilt(windows, window_key()),
                ..self
            },
            EventView::WindowOpenedOrChanged { window } => StateView {
                windows: upsert(self.windows, window_key(), window),
                ..self
            },
            EventView::WindowClosed { id } => StateView {
                windows: without(self.windows, window_key(), id),
                ..self
            },
            EventView::WorkspaceActivated { id, focused } => StateView {
                workspaces: activated(self.workspaces, id, focused),
                ..self
            },
            EventView::WorkspaceActiveWindowChanged { .. } => self,
            EventView::WindowFocusChanged { .. } => self,
            EventView::KeyboardLayoutsChanged => self,
            EventView::KeyboardLayoutSwitched { .. } => self,
        }
    }
}

/// The workspaces and windows that are known, each table in ascending order
/// of identifier.
#[derive(Debug)]
pub struct State {
    workspaces: Vec<WorkspaceInfo>,
    windows: Vec<WindowInfo>,
}

impl View for State {
    type V = StateView;

    closed spec fn view(&self) -> StateView {
        StateView { workspaces: self.workspaces.deep_view(), windows: self.windows.deep_view() }
    }
}

/// Makes the workspace `id` the active one on its output.
fn activate(workspaces: &mut Vec<WorkspaceInfo>, id: u64, focused: bool)
    requires
        ascending(old(workspaces).deep_view(), workspace_key()),
    ensures
        final(workspaces).deep_view() == activated(old(workspaces).deep_view(), id, focused),
        ascending(final(workspaces).deep_view(), workspace_key()),
{
    let ghost before = workspaces.deep_view();
    let pos = place_of(workspaces, id);
    let found = is_at(workspaces, pos, id);
    let output = if found {
        clone_text(&workspaces[pos].output)
    } else {
        None
    };
    proof {
        lemma_lookup_at(before, workspace_key(), id, pos as int);
    }
    let mut i: usize = 0;
    while i < workspaces.len()
        invariant
            i <= workspaces.len(),
            workspaces.len() == before.len(),
            forall|k: int|
                0 <= k < i ==> (#[trigger] workspaces@[k])@ == (if before[k].output
                    == output.deep_view() {
                    WorkspaceInfoView { is_active: false, ..before[k] }
                } else {
                    before[k]
                }),
            forall|k: int| i <= k < before.len() ==> (#[trigger] workspaces@[k])@ == before[k],
        decreases workspaces.len() - i,
    {
        if same_text(&workspaces[i].output, &output) {
            workspaces[i].is_active = false;
        }
        i += 1;
    }
    if found {
        workspaces[pos].is_active = true;
        workspaces[pos].is_focused = focused;
    }
    proof {
        let after = workspaces.deep_view();
        assert forall|k: int| 0 <= k < before.len() implies #[trigger] after[k] == activated(
            before,
            id,
            focused,
        )[k] by {}
        assert forall|a: int, b: int| 0 <= a < b < after.len() implies workspace_key()(after[a])
            < workspace_key()(after[b]) by {}
    }
}

impl Default for State {
    fn default() -> (state: State)
        ensures
            state@.wf(),
            state@.workspaces == Seq::<WorkspaceInfoView>::empty(),
            state@.windows == Seq::<WindowInfoView>::empty(),
    {
        State::new()
    }
}

impl State {
    /// Both tables are in strictly ascending order of identifier, so that no
    /// identifier occurs twice in a table.
    #[verifier::type_invariant]
    spec fn ordered(self) -> bool {
        self@.wf()
    }

    /// A state with no workspace and no window.
    pub fn new() -> (state: State)
        ensures
            state@.wf(),
            state@.workspaces == Seq::<WorkspaceInfoView>::empty(),
            state@.windows == Seq::<WindowInfoView>::empty(),
    {
        State { workspaces: Vec::new(), windows: Vec::new() }
    }

    /// The workspaces that are known, in ascending order of identifier.
    pub fn workspaces(&self) -> (workspaces: &Vec<WorkspaceInfo>)
        ensures
            workspaces.deep_view() == self@.workspaces,
            self@.wf(),
    {
        proof {
            use_type_invariant(self);
        }
        &self.workspaces
    }

    /// The windows that are known, in ascending order of identifier.
    pub fn windows(&self) -> (windows: &Vec<WindowInfo>)
        ensures
            windows.deep_view() == self@.windows,
            self@.wf(),
    {
        proof {
            use_type_invariant(self);
        }
        &self.windows
    }

    /// Takes one event into the state. Events that say nothing of workspaces
    /// or windows leave it as it is.
    pub fn on_event(&mut self, event: Event)
        ensures
            final(self)@ == old(self)@.apply(event@),
            final(self)@.wf(),
    {
        proof {
            use_type_invariant(&*self);
        }
        // A table is taken out of the state while it is changed, so that the
        // state is in order at every moment.
        match event {
            Event::WorkspacesChanged { workspaces } => {
                self.workspaces = table_of(workspaces);
            },
            Event::WindowsChanged { windows } => {
                self.windows = table_of(windows);
            },
            Event::WindowOpenedOrChanged { window } => {
                let mut windows = Vec::new();
                std::mem::swap(&mut self.windows, &mut windows);
                put(&mut windows, window);
                self.windows = windows;
            },
            Event::WindowClosed { id } => {
                let mut windows = Vec::new();
                std::mem::swap(&mut self.windows, &mut windows);
                take_out(&mut windows, id);
                self.windows = windows;
            },
            Event::WorkspaceActivated { id, focused } => {
                let mut workspaces = Vec::new();
                std::mem::swap(&mut self.workspaces, &mut workspaces);
                activate(&mut workspaces, id, focused);
                self.workspaces = workspaces;
            },
            Event::WorkspaceActiveWindowChanged { .. } => {},
            Event::WindowFocusChanged { .. } => {},
            Event::KeyboardLayoutsChanged => {},
            Event::KeyboardLayoutSwitched { .. } => {},
        }
    }
}

} // verus!
