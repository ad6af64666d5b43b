//! What holds of the state along every sequence of events.

use crate::model::{EventView, WindowInfoView, WorkspaceInfoView};
use crate::state::{activated, output_of, StateView};
use crate::table::{
    ascending, holds, lemma_filter_front, lemma_lookup_at, lemma_lookup_row, lemma_lookup_upsert,
    lemma_lookup_without, lemma_rebuilt_ascending, lemma_slot, lemma_upsert_ascending,
    lemma_upsert_at, lemma_without_ascending, lookup, other_than, rebuilt, slot, upsert,
    window_key, without, workspace_key,
};
use vstd::prelude::*;

verus! {

/// At most one of the workspaces that are on `output` is active. For no
/// output at all, this speaks of the workspaces that are on none.
pub open spec fn at_most_one_active(
    workspaces: Seq<WorkspaceInfoView>,
    output: Option<Seq<char>>,
) -> bool {
    forall|i: int, j: int|
        #![trigger workspaces[i], workspaces[j]]
        0 <= i < j < workspaces.len() && workspaces[i].output == output && workspaces[j].output
            == output ==> !(workspaces[i].is_active && workspaces[j].is_active)
}

/// Whether an event replaces the list of workspaces.
pub open spec fn replaces_workspaces(event: EventView) -> bool {
    event is WorkspacesChanged
}

/// The state that a sequence of events leads to.
pub open spec fn apply_all(state: StateView, events: Seq<EventView>) -> StateView
    decreases events.len(),
{
    if events.len() == 0 {
        state
    } else {
        apply_all(state, events.drop_last()).apply(events.last())
    }
}

/// An activation leaves at most one active workspace on the output of the
/// activated workspace, however many were active there before: if the
/// workspace is known, it is the only one that can be active there.
pub proof fn lemma_activation_is_exclusive(
    workspaces: Seq<WorkspaceInfoView>,
    id: u64,
    focused: bool,
)
    requires
        ascending(workspaces, workspace_key()),
    ensures
        at_most_one_active(activated(workspaces, id, focused), output_of(workspaces, id)),
        forall|i: int|
            0 <= i < workspaces.len() && (#[trigger] activated(workspaces, id, focused)[i]).output
                == output_of(workspaces, id) ==> (activated(workspaces, id, focused)[i].is_active
                <==> workspaces[i].id == id),
        forall|i: int|
            0 <= i < workspaces.len() && workspaces[i].id == id ==> (#[trigger] activated(
                workspaces,
                id,
                focused,
            )[i]).is_focused == focused,
{
    let after = activated(workspaces, id, focused);
    assert forall|i: int, j: int|
        #![trigger after[i], after[j]]
        0 <= i < j < after.len() && after[i].output == output_of(workspaces, id) && after[j].output
            == output_of(workspaces, id) implies !(after[i].is_active && after[j].is_active) by {
        assert(workspace_key()(workspaces[i]) < workspace_key()(workspaces[j]));
    }
}

/// An activation keeps, for every output, that at most one workspace on it
/// is active.
pub proof fn lemma_activation_keeps_one_active(
    workspaces: Seq<WorkspaceInfoView>,
    id: u64,
    focused: bool,
    output: Option<Seq<char>>,
)
    requires
        ascending(workspaces, workspace_key()),
        at_most_one_active(workspaces, output),
    ensures
        at_most_one_active(activated(workspaces, id, focused), output),
{
    let after = activated(workspaces, id, focused);
    let target = output_of(workspaces, id);
    if output == target {
        lemma_activation_is_exclusive(workspaces, id, focused);
    } else {
        assert forall|i: int, j: int|
            #![trigger after[i], after[j]]
            0 <= i < j < after.len() && after[i].output == output && after[j].output
                == output implies !(after[i].is_active && after[j].is_active) by {
            lemma_output_of_known(workspaces, id, i);
            lemma_output_of_known(workspaces, id, j);
        }
    }
}

/// The output of a known workspace is the one that `output_of` tells.
proof fn lemma_output_of_known(workspaces: Seq<WorkspaceInfoView>, id: u64, i: int)
    requires
        ascending(workspaces, workspace_key()),
        0 <= i < workspaces.len(),
    ensures
        workspaces[i].id == id ==> output_of(workspaces, id) == workspaces[i].output,
{
    if workspaces[i].id == id {
        lemma_lookup_row(workspaces, workspace_key(), i);
    }
}

/// Whether the event at `n` activates a workspace that is on `output` when
/// the event comes. A workspace that is not known then counts as one that is
/// on no output.
pub open spec fn activates_at(
    state: StateView,
    events: Seq<EventView>,
    output: Option<Seq<char>>,
    n: int,
) -> bool {
    events[n] matches EventView::WorkspaceActivated { id, .. } && output_of(
        apply_all(state, events.take(n)).workspaces,
        id,
    ) == output
}

/// Whether some event of the sequence activates a workspace on `output`.
pub open spec fn activates_on(
    state: StateView,
    events: Seq<EventView>,
    output: Option<Seq<char>>,
) -> bool {
    exists|n: int| 0 <= n < events.len() && #[trigger] activates_at(state, events, output, n)
}

/// Along every sequence of events of which none replaces the list of
/// workspaces, and so along every sequence of activations, at most one
/// workspace is active on an output at the end, if that was so at the
/// beginning or if one of the events activates a workspace on that output.
pub proof fn lemma_one_active_per_output(
    state: StateView,
    events: Seq<EventView>,
    output: Option<Seq<char>>,
)
    requires
        state.wf(),
        forall|n: int| 0 <= n < events.len() ==> !replaces_workspaces(#[trigger] events[n]),
        at_most_one_active(state.workspaces, output) || activates_on(state, events, output),
    ensures
        at_most_one_active(apply_all(state, events).workspaces, output),
    decreases events.len(),
{
    if events.len() > 0 {
        let front = events.drop_last();
        let last = events.len() - 1;
        let before = apply_all(state, front);
        lemma_apply_all_keeps_order(state, front);
        if activates_at(state, events, output, last) {
            if let EventView::WorkspaceActivated { id, focused } = events.last() {
                lemma_activation_is_exclusive(before.workspaces, id, focused);
            }
        } else {
            if !at_most_one_active(state.workspaces, output) {
                let n = choose|n: int|
                    0 <= n < events.len() && #[trigger] activates_at(state, events, output, n);
                assert(front.take(n) =~= events.take(n));
                assert(activates_at(state, front, output, n));
            }
            assert forall|n: int| 0 <= n < front.len() implies !replaces_workspaces(
                #[trigger] front[n],
            ) by {
                assert(front[n] == events[n]);
            }
            lemma_one_active_per_output(state, front, output);
            match events.last() {
                EventView::WorkspaceActivated { id, focused } => {
                    lemma_activation_keeps_one_active(before.workspaces, id, focused, output);
                },
                _ => {},
            }
        }
    }
}

/// Every sequence of events leaves both tables in ascending order of identifier.
pub proof fn lemma_apply_all_keeps_order(state: StateView, events: Seq<EventView>)
    requires
        state.wf(),
    ensures
        apply_all(state, events).wf(),
    decreases events.len(),
{
    if events.len() > 0 {
        lemma_apply_all_keeps_order(state, events.drop_last());
        lemma_apply_keeps_order(apply_all(state, events.drop_last()), events.last());
    }
}

/// Every event leaves both tables in ascending order of identifier.
pub proof fn lemma_apply_keeps_order(state: StateView, event: EventView)
    requires
        state.wf(),
    ensures
        state.apply(event).wf(),
{
    match event {
        EventView::WorkspacesChanged { workspaces } => {
            lemma_rebuilt_ascending(workspaces, workspace_key());
        },
        EventView::WindowsChanged { windows } => {
            lemma_rebuilt_ascending(windows, window_key());
        },
        EventView::WindowOpenedOrChanged { window } => {
            lemma_upsert_ascending(state.windows, window_key(), window);
        },
        EventView::WindowClosed { id } => {
            lemma_without_ascending(state.windows, window_key(), id);
        },
        EventView::WorkspaceActivated { id, focused } => {
            let after = activated(state.workspaces, id, focused);
            assert forall|i: int, j: int| 0 <= i < j < after.len() implies workspace_key()(
                after[i],
            ) < workspace_key()(after[j]) by {
                assert(workspace_key()(state.workspaces[i]) < workspace_key()(
                    state.workspaces[j],
                ));
            }
        },
        _ => {},
    }
}

/// Closing a window twice is closing it once: the second event changes nothing.
pub proof fn lemma_close_twice(state: StateView, id: u64)
    ensures
        state.apply(EventView::WindowClosed { id }).apply(EventView::WindowClosed { id })
            == state.apply(EventView::WindowClosed { id }),
{
    broadcast use vstd::seq_lib::group_filter_ensures;

    let once = without(state.windows, window_key(), id);
    assert forall|i: int| 0 <= i < once.len() implies (other_than(window_key(), id)(
        #[trigger] once[i],
    ) <==> i < once.len()) by {
        state.windows.lemma_filter_pred(other_than(window_key(), id), i);
    }
    lemma_filter_front(once, other_than(window_key(), id), once.len() as int);
    assert(once.take(once.len() as int) =~= once);
}

/// Closing a window takes exactly that window out of the table.
pub proof fn lemma_close_removes(state: StateView, id: u64, other: u64)
    requires
        state.wf(),
    ensures
        lookup(state.apply(EventView::WindowClosed { id }).windows, window_key(), other) == if other
            == id {
            None
        } else {
            lookup(state.windows, window_key(), other)
        },
{
    lemma_lookup_without(state.windows, window_key(), id, other);
}

/// A window that is opened is in the table afterwards with exactly the
/// fields that the event gave, whether or not its identifier was known, and
/// every other window is as it was.
pub proof fn lemma_open_puts(state: StateView, window: WindowInfoView, other: u64)
    requires
        state.wf(),
    ensures
        lookup(state.apply(EventView::WindowOpenedOrChanged { window }).windows, window_key(), other)
            == if other == window.id {
            Some(window)
        } else {
            lookup(state.windows, window_key(), other)
        },
        !holds(state.windows, window_key(), window.id) ==> state.apply(
            EventView::WindowOpenedOrChanged { window },
        ).windows.len() == state.windows.len() + 1,
        holds(state.windows, window_key(), window.id) ==> state.apply(
            EventView::WindowOpenedOrChanged { window },
        ).windows.len() == state.windows.len(),
{
    lemma_lookup_upsert(state.windows, window_key(), window, other);
    let pos = slot(state.windows, window_key(), window.id);
    lemma_slot(state.windows, window_key(), window.id);
    lemma_upsert_at(state.windows, window_key(), window, pos);
    lemma_lookup_at(state.windows, window_key(), window.id, pos);
}

/// A second event for the same window overwrites the first as a whole:
/// nothing of the first record is left, the state is as if only the second
/// event had come.
pub proof fn lemma_open_overwrites(state: StateView, first: WindowInfoView, second: WindowInfoView)
    requires
        state.wf(),
        first.id == second.id,
    ensures
        state.apply(EventView::WindowOpenedOrChanged { window: first }).apply(
            EventView::WindowOpenedOrChanged { window: second },
        ) == state.apply(EventView::WindowOpenedOrChanged { window: second }),
{
    let rows = state.windows;
    let key = window_key();
    let pos = slot(rows, key, first.id);
    lemma_slot(rows, key, first.id);
    lemma_upsert_at(rows, key, first, pos);
    lemma_upsert_at(rows, key, second, pos);
    let once = upsert(rows, key, first);
    lemma_upsert_ascending(rows, key, first);
    assert forall|i: int| 0 <= i < pos implies key(#[trigger] once[i]) < second.id by {
        assert(once[i] == rows[i]);
    }
    assert forall|i: int| pos <= i < once.len() implies key(#[trigger] once[i]) >= second.id by {
        if i > pos {
            assert(key(once[pos]) < key(once[i]));
        }
    }
    lemma_upsert_at(once, key, second, pos);
    assert(upsert(once, key, second) =~= upsert(rows, key, second));
}

/// The record of a list that counts for an identifier: the last one that has it.
pub open spec fn last_with<T>(list: Seq<T>, key: spec_fn(T) -> u64, id: u64) -> Option<T>
    decreases list.len(),
{
    if list.len() == 0 {
        None
    } else if key(list.last()) == id {
        Some(list.last())
    } else {
        last_with(list.drop_last(), key, id)
    }
}

/// A table built from a list holds, for each identifier, the last record of
/// the list that has it, and nothing else.
pub proof fn lemma_rebuilt_holds_last<T>(list: Seq<T>, key: spec_fn(T) -> u64, id: u64)
    ensures
        lookup(rebuilt(list, key), key, id) == last_with(list, key, id),
    decreases list.len(),
{
    if list.len() > 0 {
        lemma_rebuilt_holds_last(list.drop_last(), key, id);
        lemma_rebuilt_ascending(list.drop_last(), key);
        lemma_lookup_upsert(rebuilt(list.drop_last(), key), key, list.last(), id);
    }
}

} // verus!
