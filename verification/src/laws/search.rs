//! What holds of every search for an icon.

use crate::search::{
    desktop_file_name, driven, first_step, IconSearchView, Machine, ReplyView, RequestView, Stage,
    FALLBACK_ICON_NAME,
};
use vstd::prelude::*;

verus! {

/// A search that asks the theme for an icon ends with the theme's answer.
proof fn lemma_search_themed(search: IconSearchView, machine: Machine, name: Seq<char>, steps: nat)
    requires
        search.stage is FindingNamed || search.stage is FindingFallback,
        steps >= 1,
    ensures
        driven(search, RequestView::FindIcon { name }, machine, steps) == (RequestView::Finish {
            outcome: Ok(machine.themed(name)),
        }),
{
    reveal_with_fuel(driven, 2);
}

/// A search that asks for the text of the desktop file in the directory
/// `at` ends with what that file gives.
proof fn lemma_search_read(search: IconSearchView, machine: Machine, at: usize, steps: nat)
    requires
        search.stage == (Stage::Reading { dir: at }),
        steps >= 2,
    ensures
        driven(search, RequestView::Read { dir: at }, machine, steps) == (RequestView::Finish {
            outcome: machine.entry_at(search.file, at as int),
        }),
{
    reveal_with_fuel(driven, 2);
    let next = search.next(machine.reply(RequestView::Read { dir: at }));
    let then = IconSearchView { stage: next.0, ..search };
    if let RequestView::FindIcon { name } = next.1 {
        lemma_search_themed(then, machine, name, (steps - 1) as nat);
    }
}

/// A search that is at the directory `dir`, and is told what the machine
/// holds, ends with what the directories from `dir` on give.
proof fn lemma_search_from(search: IconSearchView, machine: Machine, dir: usize, steps: nat)
    requires
        search.stage == (Stage::Probing { dir }),
        dir < search.dirs,
        machine.present.len() == search.dirs,
        steps >= search.dirs - dir + 2,
    ensures
        driven(search, RequestView::Probe { dir }, machine, steps) == (RequestView::Finish {
            outcome: match machine.first_present(dir as int) {
                None => Ok(machine.themed(FALLBACK_ICON_NAME@)),
                Some(at) => machine.entry_at(search.file, at),
            },
        }),
    decreases search.dirs - dir,
{
    reveal_with_fuel(driven, 2);
    let next = search.next(machine.reply(RequestView::Probe { dir }));
    let then = IconSearchView { stage: next.0, ..search };
    assert(driven(search, RequestView::Probe { dir }, machine, steps) == driven(
        then,
        next.1,
        machine,
        (steps - 1) as nat,
    ));
    if machine.present[dir as int] {
        lemma_search_read(then, machine, dir, (steps - 1) as nat);
    } else if dir + 1 < search.dirs {
        lemma_search_from(then, machine, (dir + 1) as usize, (steps - 1) as nat);
    } else {
        lemma_search_themed(then, machine, FALLBACK_ICON_NAME@, (steps - 1) as nat);
    }
}

/// A search that is told what the machine holds ends with the icon of the
/// application, after no more requests than there are directories and three.
pub proof fn lemma_search_finds_icon(app_id: Seq<char>, dirs: usize, machine: Machine)
    requires
        machine.present.len() == dirs,
    ensures
        driven(
            IconSearchView { file: desktop_file_name(app_id), dirs, stage: first_step(dirs).0 },
            first_step(dirs).1,
            machine,
            (dirs + 3) as nat,
        ) == (RequestView::Finish { outcome: machine.icon_of(app_id) }),
{
    let search = IconSearchView {
        file: desktop_file_name(app_id),
        dirs,
        stage: first_step(dirs).0,
    };
    if dirs == 0 {
        lemma_search_themed(search, machine, FALLBACK_ICON_NAME@, (dirs + 3) as nat);
    } else {
        lemma_search_from(search, machine, 0, (dirs + 3) as nat);
    }
}

/// Every request that a search makes for a directory names one of its
/// directories, from the first request on.
pub proof fn lemma_search_stays_in_directories(search: IconSearchView, reply: ReplyView)
    requires
        search.wf(),
    ensures
        (IconSearchView { stage: first_step(search.dirs).0, ..search }).wf(),
        first_step(search.dirs).1 matches RequestView::Probe { dir } ==> dir < search.dirs,
        (IconSearchView { stage: search.next(reply).0, ..search }).wf(),
        search.next(reply).1 matches RequestView::Probe { dir } ==> dir < search.dirs,
        search.next(reply).1 matches RequestView::Read { dir } ==> dir < search.dirs,
{
}

} // verus!
