//! What holds of every snapshot.

use crate::icon::Icons;
use crate::order::{display_order, lemma_display_order, rank_order, ranks};
use crate::snapshot::{on_workspace, snapshot, window_entry};
use crate::state::StateView;
use crate::table::{holds, window_key, workspace_key};
use vstd::prelude::*;

verus! {

/// The snapshot shows every workspace once, and the positions on the outputs
/// never fall along it.
pub proof fn lemma_snapshot_follows_positions(state: StateView, icons: Icons)
    requires
        state.workspaces.len() <= usize::MAX,
    ensures
        snapshot(state, icons).len() == state.workspaces.len(),
        forall|n: int, m: int|
            0 <= n < m < state.workspaces.len() ==> (#[trigger] snapshot(state, icons)[n]).idx <= (
            #[trigger] snapshot(state, icons)[m]).idx,
{
    let order = display_order(state.workspaces);
    lemma_display_order(state.workspaces);
    assert forall|n: int, m: int| 0 <= n < m < state.workspaces.len() implies (#[trigger] snapshot(
        state,
        icons,
    )[n]).idx <= (#[trigger] snapshot(state, icons)[m]).idx by {
        assert(rank_order()(order[n], order[m]));
    }
}

/// Every window that the snapshot lists under a workspace is a window of the
/// table that names that workspace.
pub proof fn lemma_listed_window_is_on_the_workspace(
    state: StateView,
    icons: Icons,
    n: int,
    m: int,
) -> (i: int)
    requires
        state.workspaces.len() <= usize::MAX,
        0 <= n < state.workspaces.len(),
        0 <= m < snapshot(state, icons)[n].windows.len(),
    ensures
        0 <= i < state.windows.len(),
        state.windows[i].workspace_id == Some(
            state.workspaces[display_order(state.workspaces)[n].1 as int].id,
        ),
        snapshot(state, icons)[n].windows[m] == window_entry(state.windows[i], icons),
{
    broadcast use vstd::seq_lib::group_filter_ensures;

    lemma_display_order(state.workspaces);
    let id = state.workspaces[display_order(state.workspaces)[n].1 as int].id;
    let on = state.windows.filter(on_workspace(id));
    state.windows.lemma_filter_contains_rev(on_workspace(id), on[m]);
    choose|i: int| 0 <= i < state.windows.len() && state.windows[i] == on[m]
}

/// Every window of the table that names a known workspace is listed under
/// that workspace.
pub proof fn lemma_window_is_listed(state: StateView, icons: Icons, i: int, p: int) -> (place: (
    int,
    int,
))
    requires
        state.workspaces.len() <= usize::MAX,
        0 <= i < state.windows.len(),
        0 <= p < state.workspaces.len(),
        state.windows[i].workspace_id == Some(state.workspaces[p].id),
    ensures
        0 <= place.0 < state.workspaces.len(),
        display_order(state.workspaces)[place.0].1 == p,
        0 <= place.1 < snapshot(state, icons)[place.0].windows.len(),
        snapshot(state, icons)[place.0].windows[place.1] == window_entry(state.windows[i], icons),
{
    broadcast use vstd::seq_lib::group_filter_ensures;

    let order = display_order(state.workspaces);
    lemma_display_order(state.workspaces);
    assert(order.contains(ranks(state.workspaces)[p]));
    let n = choose|n: int| 0 <= n < order.len() && order[n] == ranks(state.workspaces)[p];
    let id = state.workspaces[p].id;
    let on = state.windows.filter(on_workspace(id));
    state.windows.lemma_filter_contains(on_workspace(id), i);
    let m = choose|m: int| 0 <= m < on.len() && on[m] == state.windows[i];
    (n, m)
}

/// A window that names no workspace, or one that is not known, is in no list
/// of the snapshot.
pub proof fn lemma_stray_window_is_not_listed(
    state: StateView,
    icons: Icons,
    i: int,
    n: int,
    m: int,
)
    requires
        state.wf(),
        state.workspaces.len() <= usize::MAX,
        0 <= i < state.windows.len(),
        state.windows[i].workspace_id matches Some(id) ==> !holds(
            state.workspaces,
            workspace_key(),
            id,
        ),
        0 <= n < state.workspaces.len(),
        0 <= m < snapshot(state, icons)[n].windows.len(),
    ensures
        snapshot(state, icons)[n].windows[m].id != state.windows[i].id,
{
    lemma_display_order(state.workspaces);
    let j = lemma_listed_window_is_on_the_workspace(state, icons, n, m);
    let p = display_order(state.workspaces)[n].1 as int;
    assert(workspace_key()(state.workspaces[p]) == state.workspaces[p].id);
    if j < i {
        assert(window_key()(state.windows[j]) < window_key()(state.windows[i]));
    } else if i < j {
        assert(window_key()(state.windows[i]) < window_key()(state.windows[j]));
    }
}

} // verus!
