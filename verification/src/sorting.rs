//! Why the sibling order of the tree is an order, and what sorting by it
//! gives.

use vstd::prelude::*;
use crate::text::{lemma_lex_total, lemma_lex_transitive, lex_lt, lowercase};
use crate::tree::{insert_sorted, precedes, sorted_nodes, NodeModel};

verus! {

/// Whether no node of `s` precedes one that stands before it.
pub open spec fn in_order(s: Seq<NodeModel>) -> bool {
    forall|i: int, j: int| 0 <= i < j < s.len() ==> !precedes(#[trigger] s[j], #[trigger] s[i])
}

/// Where `insert_sorted` puts `x`: behind the last node of `s` that `x` does
/// not precede.
pub open spec fn insert_point(s: Seq<NodeModel>, x: NodeModel) -> int
    decreases s.len(),
{
    if s.len() > 0 && precedes(x, s.last()) {
        insert_point(s.drop_last(), x)
    } else {
        s.len() as int
    }
}

/// Of two nodes at most one precedes the other.
pub proof fn lemma_precedes_asymmetric(a: NodeModel, b: NodeModel)
    ensures
        !(precedes(a, b) && precedes(b, a)),
{
    lemma_lex_total(lowercase(a.name), lowercase(b.name));
}

/// If `a` does not precede `b` and `b` does not precede `c`, then `a` does
/// not precede `c`.
pub proof fn lemma_precedes_chain(a: NodeModel, b: NodeModel, c: NodeModel)
    requires
        !precedes(a, b),
        !precedes(b, c),
    ensures
        !precedes(a, c),
{
    let ka = lowercase(a.name);
    let kb = lowercase(b.name);
    let kc = lowercase(c.name);
    lemma_lex_total(ka, kb);
    lemma_lex_total(kb, kc);
    lemma_lex_total(ka, kc);
    if a.is_dir == b.is_dir && b.is_dir == c.is_dir && lex_lt(ka, kc) {
        if kb == ka {
        } else if kc == kb {
        } else {
            lemma_lex_transitive(kc, kb, ka);
        }
    }
}

/// `insert_sorted` puts `x` at `insert_point` and moves nothing else. Every
/// node behind that point is preceded by `x`; the node before it is not.
pub proof fn lemma_insert_sorted(s: Seq<NodeModel>, x: NodeModel)
    ensures
        0 <= insert_point(s, x) <= s.len(),
        insert_sorted(s, x) == s.insert(insert_point(s, x), x),
        forall|k: int| insert_point(s, x) <= k < s.len() ==> precedes(x, #[trigger] s[k]),
        insert_point(s, x) > 0 ==> !precedes(x, s[insert_point(s, x) - 1]),
    decreases s.len(),
{
    if s.len() > 0 && precedes(x, s.last()) {
        let rest = s.drop_last();
        lemma_insert_sorted(rest, x);
        let p = insert_point(rest, x);
        assert(rest.insert(p, x).push(s.last()) =~= s.insert(p, x));
        assert forall|k: int| p <= k < s.len() implies precedes(x, #[trigger] s[k]) by {
            if k < rest.len() {
                assert(s[k] == rest[k]);
            }
        }
        if p > 0 {
            assert(s[p - 1] == rest[p - 1]);
        }
    } else {
        assert(s.push(x) =~= s.insert(s.len() as int, x));
    }
}

/// Putting a node into a sequence that is in order leaves it in order.
pub proof fn lemma_insert_keeps_order(s: Seq<NodeModel>, x: NodeModel)
    requires
        in_order(s),
    ensures
        in_order(insert_sorted(s, x)),
{
    lemma_insert_sorted(s, x);
    let p = insert_point(s, x);
    let t = insert_sorted(s, x);
    assert forall|i: int, j: int| 0 <= i < j < t.len() implies !precedes(
        #[trigger] t[j],
        #[trigger] t[i],
    ) by {
        if j == p {
            // t[j] is x, t[i] stands before the insertion point
            assert(t[i] == s[i]);
            if i < p - 1 {
                assert(!precedes(s[p - 1], s[i]));
                lemma_precedes_chain(x, s[p - 1], s[i]);
            }
        } else if i == p {
            assert(t[j] == s[j - 1]);
            assert(precedes(x, s[j - 1]));
            lemma_precedes_asymmetric(x, s[j - 1]);
        } else {
            let si = if i < p { i } else { i - 1 };
            let sj = if j < p { j } else { j - 1 };
            assert(t[i] == s[si]);
            assert(t[j] == s[sj]);
            assert(!precedes(s[sj], s[si]));
        }
    }
}

/// Sorting puts the nodes in order.
pub proof fn lemma_sorted_in_order(s: Seq<NodeModel>)
    ensures
        in_order(sorted_nodes(s)),
    decreases s.len(),
{
    if s.len() > 0 {
        lemma_sorted_in_order(s.drop_last());
        lemma_insert_keeps_order(sorted_nodes(s.drop_last()), s.last());
    }
}

/// Sorting neither drops nor adds a node.
pub proof fn lemma_sorted_same_nodes(s: Seq<NodeModel>)
    ensures
        sorted_nodes(s).to_multiset() == s.to_multiset(),
        sorted_nodes(s).len() == s.len(),
    decreases s.len(),
{
    broadcast use vstd::seq_lib::group_to_multiset_ensures;

    if s.len() > 0 {
        let rest = s.drop_last();
        lemma_sorted_same_nodes(rest);
        lemma_insert_sorted(sorted_nodes(rest), s.last());
        let p = insert_point(sorted_nodes(rest), s.last());
        vstd::seq_lib::to_multiset_insert(sorted_nodes(rest), p, s.last());
        assert(s =~= rest.push(s.last()));
    }
}

/// Whether neither of `a` and `b` precedes the other.
pub open spec fn ties(a: NodeModel, b: NodeModel) -> bool {
    !precedes(a, b) && !precedes(b, a)
}

/// The nodes of `s` that tie with `x`, in the order they have in `s`.
pub open spec fn tied_with(s: Seq<NodeModel>, x: NodeModel) -> Seq<NodeModel> {
    s.filter(|y: NodeModel| ties(x, y))
}

/// Filtering a sequence of which no element passes leaves nothing.
pub proof fn lemma_filter_none(s: Seq<NodeModel>, pred: spec_fn(NodeModel) -> bool)
    requires
        forall|k: int| 0 <= k < s.len() ==> !pred(#[trigger] s[k]),
    ensures
        s.filter(pred).len() == 0,
    decreases s.len(),
{
    reveal(Seq::filter);
    if s.len() > 0 {
        lemma_filter_none(s.drop_last(), pred);
    }
}

/// Sorting is stable: nodes that tie stand in the order they had.
pub proof fn lemma_sorted_is_stable(s: Seq<NodeModel>, x: NodeModel)
    ensures
        tied_with(sorted_nodes(s), x) == tied_with(s, x),
    decreases s.len(),
{
    let pred = |y: NodeModel| ties(x, y);
    if s.len() > 0 {
        let rest = s.drop_last();
        let last = s.last();
        let sorted = sorted_nodes(rest);
        lemma_sorted_is_stable(rest, x);
        lemma_insert_sorted(sorted, last);
        let p = insert_point(sorted, last);
        let head = sorted.take(p);
        let tail = sorted.skip(p);
        assert(sorted =~= head + tail);
        assert(sorted.insert(p, last) =~= head.push(last) + tail);
        Seq::filter_distributes_over_add(head, tail, pred);
        Seq::filter_distributes_over_add(head.push(last), tail, pred);
        head.lemma_filter_push(last, pred);
        rest.lemma_filter_push(last, pred);
        assert(s =~= rest.push(last));
        if ties(x, last) {
            assert forall|k: int| 0 <= k < tail.len() implies !pred(#[trigger] tail[k]) by {
                assert(tail[k] == sorted[p + k]);
                assert(precedes(last, tail[k]));
                if ties(x, tail[k]) {
                    lemma_precedes_chain(last, x, tail[k]);
                }
            }
            lemma_filter_none(tail, pred);
            assert(tail.filter(pred) =~= Seq::<NodeModel>::empty());
            assert(head.filter(pred).push(last) + tail.filter(pred) =~= (head.filter(pred)
                + tail.filter(pred)).push(last));
        }
    }
}

} // verus!
