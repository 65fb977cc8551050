use vstd::prelude::*;

use crate::feed::{RemoteItem, RemoteItemView};
use crate::store::vec_contains_string;

verus! {

/// The set of link values occurring in a sequence of links. Duplicates in
/// the sequence collapse to one set member.
pub open spec fn link_set(links: Seq<Seq<char>>) -> Set<Seq<char>> {
    Set::new(|l: Seq<char>| links.contains(l))
}

/// A remote item is new with respect to the locally stored links exactly
/// when its link is absent from them. An item without a link is always new:
/// items lacking a link are never deduplicated.
pub open spec fn is_new_item(item: RemoteItemView, local: Set<Seq<char>>) -> bool {
    match item.link {
        None => true,
        Some(l) => !local.contains(l),
    }
}

/// Reconciliation as a set difference: the subsequence of the remote items
/// that are new with respect to the local link set, in the remote feed's
/// original relative order.
pub open spec fn reconcile_spec(remote: Seq<RemoteItemView>, local: Set<Seq<char>>) -> Seq<
    RemoteItemView,
> {
    remote.filter(|it: RemoteItemView| is_new_item(it, local))
}

/// Computes which remote items are new: exactly those whose link is not
/// among the local links, plus every item without a link, preserving the
/// remote order. Pure; the caller decides what to do with the selection.
pub fn reconcile(remote_items: &Vec<RemoteItem>, local_links: &Vec<String>) -> (r: Vec<RemoteItem>)
    ensures
        r.deep_view() == reconcile_spec(
            remote_items.deep_view(),
            link_set(local_links.deep_view()),
        ),
{
    let ghost lset = link_set(local_links.deep_view());
    let mut result: Vec<RemoteItem> = Vec::new();
    let mut i: usize = 0;
    proof {
        assert(result.deep_view() =~= remote_items.deep_view().take(0).filter(
            |it: RemoteItemView| is_new_item(it, lset),
        )) by {
            reveal_with_fuel(Seq::filter, 2);
            assert(remote_items.deep_view().take(0) =~= Seq::<RemoteItemView>::empty());
        }
    }
    while i < remote_items.len()
        invariant
            i <= remote_items.len(),
            lset == link_set(local_links.deep_view()),
            result.deep_view() =~= remote_items.deep_view().take(i as int).filter(
                |it: RemoteItemView| is_new_item(it, lset),
            ),
        decreases remote_items.len() - i,
    {
        let ghost pre = result.deep_view();
        let item = &remote_items[i];
        proof {
            assert(remote_items.deep_view()[i as int] == item@);
        }
        let is_new = match &item.link {
            Some(l) => !vec_contains_string(local_links, l),
            None => true,
        };
        proof {
            assert(is_new == is_new_item(item@, lset));
        }
        if is_new {
            result.push(item.clone());
            proof {
                assert(result.deep_view() =~= pre.push(item@));
            }
        }
        proof {
            crate::store::lemma_filter_take_step(
                remote_items.deep_view(),
                i as int,
                |it: RemoteItemView| is_new_item(it, lset),
            );
        }
        i = i + 1;
    }
    proof {
        assert(remote_items.deep_view().take(remote_items.len() as int)
            =~= remote_items.deep_view());
    }
    result
}

/// Everything reconciliation selects comes from the remote list.
proof fn lemma_reconcile_subset(
    remote: Seq<RemoteItemView>,
    local: Set<Seq<char>>,
    x: RemoteItemView,
)
    requires
        reconcile_spec(remote, local).contains(x),
    ensures
        remote.contains(x),
    decreases remote.len(),
{
    reveal_with_fuel(Seq::filter, 2);
    let pred = |it: RemoteItemView| is_new_item(it, local);
    if remote.len() == 0 {
    } else {
        let sub = remote.drop_last().filter(pred);
        if x == remote.last() {
            assert(remote[remote.len() - 1] == x);
        } else {
            assert(sub.contains(x)) by {
                let out = remote.filter(pred);
                let k = choose|k: int| 0 <= k < out.len() && out[k] == x;
                if pred(remote.last()) {
                    assert(out == sub.push(remote.last()));
                    assert(sub[k] == x);
                } else {
                    assert(out == sub);
                }
            }
            lemma_reconcile_subset(remote.drop_last(), local, x);
            let j = choose|j: int| 0 <= j < remote.drop_last().len() && remote.drop_last()[j] == x;
            assert(remote[j] == x);
        }
    }
}

/// Reconciliation is a true set difference: an item occurs in the selection
/// exactly when it occurs in the remote list and is new — its link is
/// absent from the local set, or it has no link at all.
pub proof fn lemma_reconcile_membership(remote: Seq<RemoteItemView>, local: Set<Seq<char>>)
    ensures
        forall|x: RemoteItemView|
            #[trigger] reconcile_spec(remote, local).contains(x) <==> (remote.contains(x)
                && is_new_item(x, local)),
{
    broadcast use vstd::seq_lib::group_filter_ensures;

    let pred = |it: RemoteItemView| is_new_item(it, local);
    assert forall|x: RemoteItemView| #[trigger]
        reconcile_spec(remote, local).contains(x) implies remote.contains(x) && is_new_item(
        x,
        local,
    ) by {
        lemma_reconcile_subset(remote, local, x);
        let k = choose|k: int|
            0 <= k < reconcile_spec(remote, local).len() && reconcile_spec(remote, local)[k] == x;
        assert(pred(reconcile_spec(remote, local)[k]));
    }
    assert forall|x: RemoteItemView| remote.contains(x) && is_new_item(x, local) implies #[trigger]
    reconcile_spec(remote, local).contains(x) by {
        let i = choose|i: int| 0 <= i < remote.len() && remote[i] == x;
        assert(pred(remote[i]));
        assert(remote.filter(pred).contains(remote[i]));
    }
}

/// Items without a link are always classified as new: every such remote
/// item occurs in the selection, whatever the local link set holds.
pub proof fn lemma_null_link_always_selected(
    remote: Seq<RemoteItemView>,
    local: Set<Seq<char>>,
    i: int,
)
    requires
        0 <= i < remote.len(),
        remote[i].link is None,
    ensures
        reconcile_spec(remote, local).contains(remote[i]),
{
    lemma_reconcile_membership(remote, local);
    assert(remote.contains(remote[i]));
}

} // verus!
