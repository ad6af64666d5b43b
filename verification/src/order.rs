//! The order in which workspaces are shown: by their position on the output,
//! and among workspaces with one position, which can only be on different
//! outputs, by their place in the table, that is by identifier.

use crate::model::{WorkspaceInfo, WorkspaceInfoView};
use itertools::Itertools;
use vstd::prelude::*;
use vstd::relations::{sorted_by, total_ordering};
use vstd::seq_lib::{lemma_sorted_unique, to_multiset_contains};

verus! {

/// A workspace's rank: its position on the output, and its place in the table.
pub type Rank = (u8, usize);

/// Whether rank `a` comes no later than rank `b`.
pub open spec fn rank_leq(a: Rank, b: Rank) -> bool {
    a.0 < b.0 || (a.0 == b.0 && a.1 <= b.1)
}

/// `rank_leq` as an order on ranks.
pub open spec fn rank_order() -> spec_fn(Rank, Rank) -> bool {
    |a: Rank, b: Rank| rank_leq(a, b)
}

/// The ranks of the workspaces of a table, in the table's order.
pub open spec fn ranks(workspaces: Seq<WorkspaceInfoView>) -> Seq<Rank> {
    Seq::new(workspaces.len(), |i: int| (workspaces[i].idx, i as usize))
}

/// The ranks of the workspaces of a table, in the order in which the
/// workspaces are shown.
pub open spec fn display_order(workspaces: Seq<WorkspaceInfoView>) -> Seq<Rank> {
    ranks(workspaces).sort_by(rank_order())
}

/// Calls `Itertools::sorted_by_key` of the crate itertools, with the position
/// on the output as the key. That function collects the items, sorts them
/// with the stable `sort_by_key` of slices and hands them out again. The
/// contract says so: the result holds the same ranks as the argument, the
/// positions never fall along it, and two ranks with one position stand in
/// the order in which they stood in the argument.
#[verifier::external_body]
fn sorted_by_idx(ranks: Vec<Rank>) -> (sorted: Vec<Rank>)
    ensures
        sorted@.to_multiset() == ranks@.to_multiset(),
        forall|i: int, j: int|
            #![trigger sorted[i], sorted[j]]
            0 <= i < j < sorted.len() ==> sorted[i].0 <= sorted[j].0,
        forall|i: int, j: int|
            #![trigger sorted[i], sorted[j]]
            0 <= i < j < sorted.len() && sorted[i].0 == sorted[j].0 ==> exists|a: int, b: int|
                #![trigger ranks[a], ranks[b]]
                0 <= a < b < ranks.len() && ranks[a] == sorted[i] && ranks[b] == sorted[j],
{
    ranks.into_iter().sorted_by_key(|rank| rank.0).collect()
}

/// `rank_leq` orders the ranks totally.
pub proof fn lemma_rank_order_total()
    ensures
        total_ordering(rank_order()),
{
    let leq = rank_order();
    assert forall|a: Rank, b: Rank| #[trigger] leq(a, b) && leq(b, a) implies a == b by {}
}

/// Every rank of the display order names a workspace of the table, together
/// with that workspace's position on the output, and every workspace of the
/// table is named by some rank.
pub proof fn lemma_display_order(workspaces: Seq<WorkspaceInfoView>)
    requires
        workspaces.len() <= usize::MAX,
    ensures
        display_order(workspaces).len() == workspaces.len(),
        sorted_by(display_order(workspaces), rank_order()),
        forall|n: int|
            0 <= n < workspaces.len() ==> {
                let rank = #[trigger] display_order(workspaces)[n];
                rank.1 < workspaces.len() && rank.0 == workspaces[rank.1 as int].idx
            },
        forall|p: int|
            0 <= p < workspaces.len() ==> display_order(workspaces).contains(
                #[trigger] ranks(workspaces)[p],
            ),
{
    broadcast use vstd::seq_lib::group_to_multiset_ensures;

    let all = ranks(workspaces);
    let order = display_order(workspaces);
    lemma_rank_order_total();
    all.lemma_sort_by_ensures(rank_order());
    assert(order.len() == all.len()) by {
        vstd::seq_lib::to_multiset_len(all);
        vstd::seq_lib::to_multiset_len(order);
    }
    assert forall|n: int| 0 <= n < workspaces.len() implies {
        let rank = #[trigger] order[n];
        rank.1 < workspaces.len() && rank.0 == workspaces[rank.1 as int].idx
    } by {
        to_multiset_contains(order, order[n]);
        to_multiset_contains(all, order[n]);
    }
    assert forall|p: int| 0 <= p < workspaces.len() implies order.contains(#[trigger] all[p]) by {
        to_multiset_contains(order, all[p]);
        to_multiset_contains(all, all[p]);
    }
}

/// The ranks of the workspaces of a table in the order in which the
/// workspaces are shown.
pub fn display_ranks(workspaces: &Vec<WorkspaceInfo>) -> (order: Vec<Rank>)
    ensures
        order@ == display_order(workspaces.deep_view()),
{
    let ghost all = ranks(workspaces.deep_view());
    let mut listed: Vec<Rank> = Vec::new();
    let mut i: usize = 0;
    while i < workspaces.len()
        invariant
            i <= workspaces.len(),
            all == ranks(workspaces.deep_view()),
            listed@ == all.take(i as int),
        decreases workspaces.len() - i,
    {
        listed.push((workspaces[i].idx, i));
        i += 1;
    }
    assert(listed@ =~= all);
    let order = sorted_by_idx(listed);
    proof {
        let leq = rank_order();
        lemma_rank_order_total();
        all.lemma_sort_by_ensures(leq);
        assert forall|i: int, j: int| 0 <= i < j < order.len() implies #[trigger] leq(
            order[i],
            order[j],
        ) by {
            if order[i].0 == order[j].0 {
                let (a, b) = choose|a: int, b: int|
                    #![trigger all[a], all[b]]
                    0 <= a < b < all.len() && all[a] == order[i] && all[b] == order[j];
                assert(order[i].1 == a && order[j].1 == b);
            }
        }
        lemma_sorted_unique(order@, all.sort_by(leq), leq);
    }
    order
}

} // verus!
