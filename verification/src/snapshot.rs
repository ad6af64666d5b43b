//! The snapshot: the workspaces in the order in which they are shown, each
//! with its windows and their icons.

use crate::icon::{settled, IconCache, Icons};
use crate::model::{WindowInfo, WindowInfoView, WorkspaceInfoView};
use crate::order::{display_order, display_ranks, lemma_display_order, ranks, Rank};
use crate::state::{State, StateView};
use crate::text::clone_text;
use vstd::prelude::*;

verus! {

/// A window as the snapshot shows it.
#[derive(Debug, PartialEq, Eq)]
pub struct Window {
    pub title: Option<String>,
    pub id: u64,
    /// The path of the application's icon, if the window names an
    /// application and an icon was found for it.
    pub icon: Option<String>,
}

/// The mathematical value of a [`Window`].
pub struct WindowView {
    pub title: Option<Seq<char>>,
    pub id: u64,
    pub icon: Option<Seq<char>>,
}

impl View for Window {
    type V = WindowView;

    open spec fn view(&self) -> WindowView {
        WindowView { title: self.title.deep_view(), id: self.id, icon: self.icon.deep_view() }
    }
}

impl DeepView for Window {
    type V = WindowView;

    open spec fn deep_view(&self) -> WindowView {
        self@
    }
}

/// A workspace as the snapshot shows it, with the windows that are on it.
#[derive(Debug, PartialEq, Eq)]
pub struct Workspace {
    pub output: Option<String>,
    pub idx: u8,
    pub is_active: bool,
    pub windows: Vec<Window>,
}

/// The mathematical value of a [`Workspace`].
pub struct WorkspaceView {
    pub output: Option<Seq<char>>,
    pub idx: u8,
    pub is_active: bool,
    pub windows: Seq<WindowView>,
}

impl View for Workspace {
    type V = WorkspaceView;

    open spec fn view(&self) -> WorkspaceView {
        WorkspaceView {
            output: self.output.deep_view(),
            idx: self.idx,
            is_active: self.is_active,
            windows: self.windows.deep_view(),
        }
    }
}

impl DeepView for Workspace {
    type V = WorkspaceView;

    open spec fn deep_view(&self) -> WorkspaceView {
        self@
    }
}

/// The icon of a window: what the cache holds for its application, and none
/// for a window that names no application.
pub open spec fn icon_for(window: WindowInfoView, icons: Icons) -> Option<Seq<char>> {
    match window.app_id {
        Some(app_id) => if icons.contains_key(app_id) {
            icons[app_id]
        } else {
            None
        },
        None => None,
    }
}

/// A window as the snapshot shows it.
pub open spec fn window_entry(window: WindowInfoView, icons: Icons) -> WindowView {
    WindowView { title: window.title, id: window.id, icon: icon_for(window, icons) }
}

/// `window_entry` with the icons fixed.
pub open spec fn entry_with(icons: Icons) -> spec_fn(WindowInfoView) -> WindowView {
    |window: WindowInfoView| window_entry(window, icons)
}

/// The windows that are on the workspace `id`.
pub open spec fn on_workspace(id: u64) -> spec_fn(WindowInfoView) -> bool {
    |window: WindowInfoView| window.workspace_id == Some(id)
}

/// The windows of one workspace as the snapshot shows them: those windows of
/// the table that name the workspace, in the table's order.
pub open spec fn window_entries(windows: Seq<WindowInfoView>, workspace_id: u64, icons: Icons) -> Seq<
    WindowView,
> {
    windows.filter(on_workspace(workspace_id)).map_values(entry_with(icons))
}

/// A workspace as the snapshot shows it.
pub open spec fn workspace_entry(
    workspace: WorkspaceInfoView,
    windows: Seq<WindowInfoView>,
    icons: Icons,
) -> WorkspaceView {
    WorkspaceView {
        output: workspace.output,
        idx: workspace.idx,
        is_active: workspace.is_active,
        windows: window_entries(windows, workspace.id, icons),
    }
}

/// The workspaces named by the ranks of `order`, as the snapshot shows them.
pub open spec fn entries_in(order: Seq<Rank>, state: StateView, icons: Icons) -> Seq<WorkspaceView> {
    Seq::new(
        order.len(),
        |n: int| workspace_entry(state.workspaces[order[n].1 as int], state.windows, icons),
    )
}

/// The snapshot of a state: every workspace, in the display order, with the
/// windows that name it. A window that names no known workspace is in no list.
pub open spec fn snapshot(state: StateView, icons: Icons) -> Seq<WorkspaceView> {
    entries_in(display_order(state.workspaces), state, icons)
}

/// The application that a window asks an icon for, if it names one.
pub open spec fn asked_by(window: WindowInfoView) -> Set<Seq<char>> {
    match window.app_id {
        Some(app_id) => set![app_id],
        None => Set::empty(),
    }
}

/// The applications named by the windows that are on the workspace `id`.
pub open spec fn wanted_on(windows: Seq<WindowInfoView>, workspace_id: u64) -> Set<Seq<char>> {
    Set::new(
        |app_id: Seq<char>|
            exists|i: int|
                0 <= i < windows.len() && (#[trigger] windows[i]).workspace_id == Some(workspace_id)
                    && windows[i].app_id == Some(app_id),
    )
}

/// The applications named by the windows that are on the workspaces that
/// `order` names.
pub open spec fn wanted_in(order: Seq<Rank>, state: StateView) -> Set<Seq<char>> {
    Set::new(
        |app_id: Seq<char>|
            exists|n: int|
                0 <= n < order.len() && wanted_on(
                    state.windows,
                    state.workspaces[(#[trigger] order[n]).1 as int].id,
                ).contains(app_id),
    )
}

/// The applications whose icon a snapshot shows: those named by a window
/// that is on a known workspace.
pub open spec fn wanted(state: StateView) -> Set<Seq<char>> {
    Set::new(
        |app_id: Seq<char>|
            exists|p: int|
                0 <= p < state.workspaces.len() && wanted_on(
                    state.windows,
                    (#[trigger] state.workspaces[p]).id,
                ).contains(app_id),
    )
}

/// `value` is what the cache keeps of some answer that `resolver` can give
/// for the application `key`.
pub open spec fn answered_by<E, F: Fn(&str) -> Result<Option<String>, E>>(
    resolver: F,
    key: Seq<char>,
    value: Option<Seq<char>>,
) -> bool {
    exists|app_id: &str, outcome: Result<Option<String>, E>|
        app_id@ == key && #[trigger] call_ensures(resolver, (app_id,), outcome) && settled(outcome)
            == value
}

/// How a cache grows while icons are looked up for the applications `asked`:
/// what it held it still holds, it has an entry for each of them, and each
/// new entry is an answer of `resolver`.
pub open spec fn grown<E, F: Fn(&str) -> Result<Option<String>, E>>(
    before: Icons,
    after: Icons,
    asked: Set<Seq<char>>,
    resolver: F,
) -> bool {
    &&& forall|key: Seq<char>| #[trigger]
        before.contains_key(key) ==> after.contains_key(key) && after[key] == before[key]
    &&& forall|key: Seq<char>| #[trigger]
        after.contains_key(key) <==> before.contains_key(key) || asked.contains(key)
    &&& forall|key: Seq<char>|
        after.contains_key(key) && !before.contains_key(key) ==> #[trigger] answered_by::<E, F>(
            resolver,
            key,
            after[key],
        )
}

/// Growth in two steps is growth.
proof fn lemma_grown_twice<E, F: Fn(&str) -> Result<Option<String>, E>>(
    first: Icons,
    second: Icons,
    third: Icons,
    asked: Set<Seq<char>>,
    then_asked: Set<Seq<char>>,
    resolver: F,
)
    requires
        grown::<E, F>(first, second, asked, resolver),
        grown::<E, F>(second, third, then_asked, resolver),
    ensures
        grown::<E, F>(first, third, asked.union(then_asked), resolver),
{
    assert forall|key: Seq<char>|
        third.contains_key(key) && !first.contains_key(key) implies #[trigger] answered_by::<E, F>(
        resolver,
        key,
        third[key],
    ) by {}
}

/// The windows of a workspace are shown alike with every cache that holds
/// what they ask for and agrees on it.
proof fn lemma_window_entries_settled(
    windows: Seq<WindowInfoView>,
    workspace_id: u64,
    icons: Icons,
    later: Icons,
)
    requires
        forall|key: Seq<char>| #[trigger]
            icons.contains_key(key) ==> later.contains_key(key) && later[key] == icons[key],
        forall|key: Seq<char>| #[trigger]
            wanted_on(windows, workspace_id).contains(key) ==> icons.contains_key(key),
    ensures
        window_entries(windows, workspace_id, icons) == window_entries(
            windows,
            workspace_id,
            later,
        ),
{
    broadcast use vstd::seq_lib::group_filter_ensures;

    let on = windows.filter(on_workspace(workspace_id));
    assert forall|j: int| 0 <= j < on.len() implies entry_with(icons)(on[j]) == entry_with(later)(
        on[j],
    ) by {
        assert(windows.contains(on[j])) by {
            windows.lemma_filter_contains_rev(on_workspace(workspace_id), on[j]);
        }
        if let Some(app_id) = on[j].app_id {
            assert(wanted_on(windows, workspace_id).contains(app_id));
        }
    }
    assert(window_entries(windows, workspace_id, icons) =~= window_entries(
        windows,
        workspace_id,
        later,
    ));
}

/// One more window of the table adds what it asks for, if it is on the workspace.
proof fn lemma_wanted_on_next(windows: Seq<WindowInfoView>, workspace_id: u64, i: int)
    requires
        0 <= i < windows.len(),
    ensures
        wanted_on(windows.take(i + 1), workspace_id) == if windows[i].workspace_id == Some(
            workspace_id,
        ) {
            wanted_on(windows.take(i), workspace_id).union(asked_by(windows[i]))
        } else {
            wanted_on(windows.take(i), workspace_id)
        },
{
    let more = wanted_on(windows.take(i + 1), workspace_id);
    let less = wanted_on(windows.take(i), workspace_id);
    let next = if windows[i].workspace_id == Some(workspace_id) {
        less.union(asked_by(windows[i]))
    } else {
        less
    };
    assert forall|key: Seq<char>| more.contains(key) <==> next.contains(key) by {
        if more.contains(key) {
            let j = choose|j: int|
                0 <= j < i + 1 && (#[trigger] windows.take(i + 1)[j]).workspace_id == Some(
                    workspace_id,
                ) && windows.take(i + 1)[j].app_id == Some(key);
            if j < i {
                assert(windows.take(i)[j] == windows[j]);
            }
        }
        if less.contains(key) {
            let j = choose|j: int|
                0 <= j < i && (#[trigger] windows.take(i)[j]).workspace_id == Some(workspace_id)
                    && windows.take(i)[j].app_id == Some(key);
            assert(windows.take(i + 1)[j] == windows[j]);
        }
        if windows[i].workspace_id == Some(workspace_id) && asked_by(windows[i]).contains(key) {
            assert(windows.take(i + 1)[i] == windows[i]);
        }
    }
}

/// One window as the snapshot shows it. Its icon is asked of the cache, and
/// through it of `resolver` if the cache has not seen the application.
fn render_window<E, F: Fn(&str) -> Result<Option<String>, E>>(
    window: &WindowInfo,
    icon_cache: &mut IconCache,
    resolver: &F,
) -> (shown: Window)
    requires
        forall|app_id: &str| call_requires(*resolver, (app_id,)),
    ensures
        shown@ == window_entry(window@, final(icon_cache)@),
        grown::<E, F>(old(icon_cache)@, final(icon_cache)@, asked_by(window@), *resolver),
{
    let icon = match &window.app_id {
        Some(app_id) => {
            let key = app_id.as_str();
            let icon = clone_text(icon_cache.get_icon(key, resolver));
            proof {
                if !old(icon_cache)@.contains_key(key@) {
                    assert(answered_by::<E, F>(*resolver, key@, icon_cache@[key@]));
                }
            }
            icon
        },
        None => None,
    };
    Window { title: clone_text(&window.title), id: window.id, icon }
}

/// The windows of one workspace as the snapshot shows them.
fn render_windows<E, F: Fn(&str) -> Result<Option<String>, E>>(
    windows: &Vec<WindowInfo>,
    workspace_id: u64,
    icon_cache: &mut IconCache,
    resolver: &F,
) -> (shown: Vec<Window>)
    requires
        forall|app_id: &str| call_requires(*resolver, (app_id,)),
    ensures
        shown.deep_view() == window_entries(
            windows.deep_view(),
            workspace_id,
            final(icon_cache)@,
        ),
        grown::<E, F>(
            old(icon_cache)@,
            final(icon_cache)@,
            wanted_on(windows.deep_view(), workspace_id),
            *resolver,
        ),
{
    let ghost all = windows.deep_view();
    let mut shown: Vec<Window> = Vec::new();
    let mut i: usize = 0;
    proof {
        assert(all.take(0).filter(on_workspace(workspace_id)) =~= Seq::empty()) by {
            reveal(Seq::filter);
        }
    }
    while i < windows.len()
        invariant
            i <= windows.len(),
            all == windows.deep_view(),
            forall|app_id: &str| call_requires(*resolver, (app_id,)),
            shown.deep_view() == window_entries(all.take(i as int), workspace_id, icon_cache@),
            grown::<E, F>(
                old(icon_cache)@,
                icon_cache@,
                wanted_on(all.take(i as int), workspace_id),
                *resolver,
            ),
        decreases windows.len() - i,
    {
        let ghost icons = icon_cache@;
        let ghost seen = all.take(i as int);
        proof {
            lemma_wanted_on_next(all, workspace_id, i as int);
            assert(all.take(i + 1) =~= seen.push(all[i as int]));
            seen.lemma_filter_push(all[i as int], on_workspace(workspace_id));
        }
        if windows[i].workspace_id == Some(workspace_id) {
            let window = render_window(&windows[i], icon_cache, resolver);
            proof {
                lemma_grown_twice::<E, F>(
                    old(icon_cache)@,
                    icons,
                    icon_cache@,
                    wanted_on(seen, workspace_id),
                    asked_by(all[i as int]),
                    *resolver,
                );
                lemma_window_entries_settled(seen, workspace_id, icons, icon_cache@);
                let on = seen.filter(on_workspace(workspace_id));
                assert(on.push(all[i as int]).map_values(entry_with(icon_cache@)) =~= on.map_values(
                    entry_with(icon_cache@),
                ).push(window@));
            }
            shown.push(window);
        }
        i += 1;
    }
    assert(all.take(i as int) =~= all);
    shown
}

/// One more workspace adds what the windows on it ask for.
proof fn lemma_wanted_in_next(order: Seq<Rank>, state: StateView, n: int)
    requires
        0 <= n < order.len(),
    ensures
        wanted_in(order.take(n + 1), state) == wanted_in(order.take(n), state).union(
            wanted_on(state.windows, state.workspaces[order[n].1 as int].id),
        ),
{
    let more = wanted_in(order.take(n + 1), state);
    let less = wanted_in(order.take(n), state);
    let next = wanted_on(state.windows, state.workspaces[order[n].1 as int].id);
    assert forall|key: Seq<char>| more.contains(key) <==> less.contains(key) || next.contains(
        key,
    ) by {
        if more.contains(key) {
            let m = choose|m: int|
                0 <= m < n + 1 && wanted_on(
                    state.windows,
                    state.workspaces[(#[trigger] order.take(n + 1)[m]).1 as int].id,
                ).contains(key);
            if m < n {
                assert(order.take(n)[m] == order[m]);
            }
        }
        if less.contains(key) {
            let m = choose|m: int|
                0 <= m < n && wanted_on(
                    state.windows,
                    state.workspaces[(#[trigger] order.take(n)[m]).1 as int].id,
                ).contains(key);
            assert(order.take(n + 1)[m] == order[m]);
        }
        if next.contains(key) {
            assert(order.take(n + 1)[n] == order[n]);
        }
    }
}

/// The display order names every workspace, so what is wanted along it is
/// what the state wants.
proof fn lemma_wanted_in_all(state: StateView)
    requires
        state.workspaces.len() <= usize::MAX,
    ensures
        wanted_in(display_order(state.workspaces), state) == wanted(state),
{
    let order = display_order(state.workspaces);
    lemma_display_order(state.workspaces);
    assert forall|key: Seq<char>| wanted_in(order, state).contains(key) <==> wanted(
        state,
    ).contains(key) by {
        if wanted_in(order, state).contains(key) {
            let n = choose|n: int|
                0 <= n < order.len() && wanted_on(
                    state.windows,
                    state.workspaces[(#[trigger] order[n]).1 as int].id,
                ).contains(key);
            assert(wanted_on(state.windows, state.workspaces[order[n].1 as int].id).contains(key));
        }
        if wanted(state).contains(key) {
            let p = choose|p: int|
                0 <= p < state.workspaces.len() && wanted_on(
                    state.windows,
                    (#[trigger] state.workspaces[p]).id,
                ).contains(key);
            assert(order.contains(ranks(state.workspaces)[p]));
        }
    }
}

impl State {
    /// The snapshot of the state. The icons come from the cache, which asks
    /// `resolver` for each application that it has not seen, once, and keeps
    /// the answer.
    pub fn render<E, F: Fn(&str) -> Result<Option<String>, E>>(
        &self,
        icon_cache: &mut IconCache,
        resolver: &F,
    ) -> (shown: Vec<Workspace>)
        requires
            forall|app_id: &str| call_requires(*resolver, (app_id,)),
        ensures
            shown.deep_view() == snapshot(self@, final(icon_cache)@),
            grown::<E, F>(old(icon_cache)@, final(icon_cache)@, wanted(self@), *resolver),
    {
        let workspaces = self.workspaces();
        let windows = self.windows();
        let order = display_ranks(workspaces);
        let ghost state = self@;
        let mut shown: Vec<Workspace> = Vec::new();
        let mut n: usize = 0;
        proof {
            assert(state.workspaces.len() == workspaces.len());
            lemma_display_order(state.workspaces);
        }
        while n < order.len()
            invariant
                n <= order.len(),
                state == self@,
                order@ == display_order(state.workspaces),
                order.len() == workspaces.len(),
                workspaces.deep_view() == state.workspaces,
                windows.deep_view() == state.windows,
                forall|m: int| 0 <= m < order.len() ==> (#[trigger] order@[m]).1 < workspaces.len(),
                forall|app_id: &str| call_requires(*resolver, (app_id,)),
                shown.deep_view() == entries_in(order@.take(n as int), state, icon_cache@),
                grown::<E, F>(
                    old(icon_cache)@,
                    icon_cache@,
                    wanted_in(order@.take(n as int), state),
                    *resolver,
                ),
            decreases order.len() - n,
        {
            let ghost icons = icon_cache@;
            let ghost done = order@.take(n as int);
            let rank = order[n];
            let workspace = &workspaces[rank.1];
            let listed = render_windows(windows, workspace.id, icon_cache, resolver);
            let entry = Workspace {
                output: clone_text(&workspace.output),
                idx: workspace.idx,
                is_active: workspace.is_active,
                windows: listed,
            };
            proof {
                lemma_wanted_in_next(order@, state, n as int);
                lemma_grown_twice::<E, F>(
                    old(icon_cache)@,
                    icons,
                    icon_cache@,
                    wanted_in(done, state),
                    wanted_on(state.windows, workspace@.id),
                    *resolver,
                );
                assert forall|m: int| 0 <= m < n implies entries_in(done, state, icons)[m]
                    == entries_in(done, state, icon_cache@)[m] by {
                    let id = state.workspaces[done[m].1 as int].id;
                    assert forall|key: Seq<char>| #[trigger]
                        wanted_on(state.windows, id).contains(key) implies icons.contains_key(
                        key,
                    ) by {
                        assert(wanted_in(done, state).contains(key));
                    }
                    lemma_window_entries_settled(state.windows, id, icons, icon_cache@);
                }
            }
            let ghost before = shown.deep_view();
            shown.push(entry);
            proof {
                assert(shown.deep_view() =~= before.push(entry@));
                assert(shown.deep_view() =~= entries_in(
                    order@.take(n + 1),
                    state,
                    icon_cache@,
                ));
            }
            n += 1;
        }
        proof {
            assert(order@.take(n as int) =~= order@);
            lemma_wanted_in_all(state);
        }
        shown
    }
}

} // verus!
