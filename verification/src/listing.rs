//! What holds of every tree that [`build_tree`](crate::tree::build_tree)
//! gives.

use vstd::prelude::*;
use crate::sorting::{in_order, lemma_sorted_in_order, lemma_sorted_same_nodes};
use crate::text::{lemma_lex_total, lex_lt, lowercase};
use crate::tree::{
    is_listed, is_note_path, listing, node_of, precedes, selected, sorted_nodes, EntryModel,
    NodeModel,
};

verus! {

/// The invariant of a node and of all below it: a directory has children, in
/// sibling order and each well formed; a file has none and is a note.
pub open spec fn well_formed(n: NodeModel) -> bool
    decreases n,
{
    match n.children {
        Some(c) => n.is_dir && in_order(c) && forall|i: int|
            0 <= i < c.len() ==> well_formed(#[trigger] c[i]),
        None => !n.is_dir && is_note_path(n.path),
    }
}

/// Every node selected from the first `k` entries stands for one of them
/// that is a directory or a note, and every such entry has its node.
pub proof fn lemma_selected(entries: Seq<EntryModel>, k: nat)
    requires
        k <= entries.len(),
    ensures
        selected(entries, k).len() <= k,
        forall|i: int|
            0 <= i < selected(entries, k).len() ==> exists|m: int|
                0 <= m < k && is_listed(entries[m]) && #[trigger] selected(entries, k)[i]
                    == node_of(entries[m]),
        forall|m: int|
            0 <= m < k && is_listed(#[trigger] entries[m]) ==> selected(entries, k).contains(
                node_of(entries[m]),
            ),
    decreases k,
{
    if k > 0 {
        let before = selected(entries, (k - 1) as nat);
        let now = selected(entries, k);
        lemma_selected(entries, (k - 1) as nat);
        assert forall|i: int| 0 <= i < now.len() implies exists|m: int|
            0 <= m < k && is_listed(entries[m]) && #[trigger] now[i] == node_of(entries[m]) by {
            if i < before.len() {
                assert(now[i] == before[i]);
                let m = choose|m: int|
                    0 <= m < k - 1 && is_listed(entries[m]) && before[i] == node_of(entries[m]);
                assert(0 <= m < k && is_listed(entries[m]) && now[i] == node_of(entries[m]));
            } else {
                assert(is_listed(entries[k - 1]) && now[i] == node_of(entries[k - 1]));
            }
        }
        assert forall|m: int| 0 <= m < k && is_listed(#[trigger] entries[m]) implies now.contains(
            node_of(entries[m]),
        ) by {
            if m < k - 1 {
                let i = choose|i: int|
                    0 <= i < before.len() && before[i] == node_of(entries[m]);
                assert(now[i] == node_of(entries[m]));
            } else {
                assert(now[now.len() - 1] == node_of(entries[m]));
            }
        }
    }
}

/// The tree shows a node exactly for the entries that are directories or
/// notes: nothing else, and none of them left out.
pub proof fn lemma_listing_members(entries: Seq<EntryModel>)
    ensures
        listing(entries).len() <= entries.len(),
        forall|n: NodeModel| #[trigger]
            listing(entries).contains(n) <==> exists|m: int|
                0 <= m < entries.len() && is_listed(#[trigger] entries[m]) && n == node_of(
                    entries[m],
                ),
{
    broadcast use vstd::seq_lib::group_to_multiset_ensures;

    let sel = selected(entries, entries.len());
    lemma_selected(entries, entries.len());
    lemma_sorted_same_nodes(sel);
    assert forall|n: NodeModel| #[trigger]
        listing(entries).contains(n) <==> exists|m: int|
            0 <= m < entries.len() && is_listed(#[trigger] entries[m]) && n == node_of(
                entries[m],
            ) by {
        assert(listing(entries).contains(n) <==> sel.contains(n)) by {
            sel.to_multiset_ensures();
            listing(entries).to_multiset_ensures();
            assert(sel.to_multiset().count(n) == listing(entries).to_multiset().count(n));
        }
        if sel.contains(n) {
            let i = choose|i: int| 0 <= i < sel.len() && sel[i] == n;
            let m = choose|m: int|
                0 <= m < entries.len() && is_listed(entries[m]) && sel[i] == node_of(entries[m]);
            assert(is_listed(entries[m]) && n == node_of(entries[m]));
        }
    }
}

/// Among siblings every directory stands before every file, and within the
/// directories as within the files no name comes before that of an earlier
/// sibling once both are put in lowercase.
pub proof fn lemma_listing_order(entries: Seq<EntryModel>)
    ensures
        in_order(listing(entries)),
        forall|i: int, j: int|
            0 <= i < j < listing(entries).len() && (#[trigger] listing(entries)[j]).is_dir ==> (
            #[trigger] listing(entries)[i]).is_dir,
        forall|i: int, j: int|
            0 <= i < j < listing(entries).len() && (#[trigger] listing(entries)[i]).is_dir == (
            #[trigger] listing(entries)[j]).is_dir ==> !lex_lt(
                lowercase(listing(entries)[j].name),
                lowercase(listing(entries)[i].name),
            ),
{
    let l = listing(entries);
    lemma_sorted_in_order(selected(entries, entries.len()));
    assert forall|i: int, j: int| 0 <= i < j < l.len() && (#[trigger] l[j]).is_dir implies (
    #[trigger] l[i]).is_dir by {
        assert(!precedes(l[j], l[i]));
    }
    assert forall|i: int, j: int|
        0 <= i < j < l.len() && (#[trigger] l[i]).is_dir == (#[trigger] l[j]).is_dir implies !lex_lt(
        lowercase(l[j].name),
        lowercase(l[i].name),
    ) by {
        assert(!precedes(l[j], l[i]));
    }
}

/// Every node of the tree is well formed, at every depth.
pub proof fn lemma_listing_well_formed(entries: Seq<EntryModel>)
    ensures
        forall|i: int|
            0 <= i < listing(entries).len() ==> well_formed(#[trigger] listing(entries)[i]),
    decreases entries,
{
    let l = listing(entries);
    lemma_listing_members(entries);
    assert forall|i: int| 0 <= i < l.len() implies well_formed(#[trigger] l[i]) by {
        assert(l.contains(l[i]));
        let m = choose|m: int|
            0 <= m < entries.len() && is_listed(#[trigger] entries[m]) && l[i] == node_of(
                entries[m],
            );
        let e = entries[m];
        if e.is_dir {
            lemma_listing_well_formed(e.children);
            lemma_listing_order(e.children);
        }
    }
}

} // verus!
