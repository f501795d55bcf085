//! The note tree: what a directory listing shows, and in which order.

use vstd::prelude::*;
use vstd::string::*;
use crate::listing::{lemma_listing_order, lemma_listing_well_formed, well_formed};
use crate::parts::{extension, extension_of};
use crate::sorting::in_order;
use crate::text::{chars_of, lex_less, lex_lt, lowercase, lowercase_chars};

verus! {

/// One entry of the note tree. A directory has `children`, possibly none; a
/// file has `None`.
#[derive(Debug)]
pub struct Node {
    pub name: String,
    pub path: String,
    pub is_dir: bool,
    pub children: Option<Vec<Node>>,
}

/// One entry of a directory as it was read: nothing left out, in no
/// particular order. `children` holds what a directory contains and is empty
/// for a file.
#[derive(Debug)]
pub struct Entry {
    pub name: String,
    pub path: String,
    pub is_dir: bool,
    pub children: Vec<Entry>,
}

/// What a [`Node`] stands for.
pub struct NodeModel {
    pub name: Seq<char>,
    pub path: Seq<char>,
    pub is_dir: bool,
    pub children: Option<Seq<NodeModel>>,
}

/// What an [`Entry`] stands for.
pub struct EntryModel {
    pub name: Seq<char>,
    pub path: Seq<char>,
    pub is_dir: bool,
    pub children: Seq<EntryModel>,
}

impl View for Node {
    type V = NodeModel;

    open spec fn view(&self) -> NodeModel
        decreases self,
    {
        NodeModel {
            name: self.name@,
            path: self.path@,
            is_dir: self.is_dir,
            children: match self.children {
                Some(v) => Some(node_models(v@)),
                None => None,
            },
        }
    }
}

/// The model of each node of `s`.
pub open spec fn node_models(s: Seq<Node>) -> Seq<NodeModel>
    decreases s,
{
    Seq::new(s.len(), |i: int| if 0 <= i < s.len() { s[i]@ } else { arbitrary() })
}

impl View for Entry {
    type V = EntryModel;

    open spec fn view(&self) -> EntryModel
        decreases self,
    {
        EntryModel {
            name: self.name@,
            path: self.path@,
            is_dir: self.is_dir,
            children: entry_models(self.children@),
        }
    }
}

/// The model of each entry of `s`.
pub open spec fn entry_models(s: Seq<Entry>) -> Seq<EntryModel>
    decreases s,
{
    Seq::new(s.len(), |i: int| if 0 <= i < s.len() { s[i]@ } else { arbitrary() })
}

/// Whether `ext` is the note extension `md`, in either case of each letter.
pub open spec fn is_note_extension(ext: Seq<char>) -> bool {
    ext.len() == 2 && (ext[0] == 'm' || ext[0] == 'M') && (ext[1] == 'd' || ext[1] == 'D')
}

/// Whether the file at `path` is a note.
pub open spec fn is_note_path(path: Seq<char>) -> bool {
    match extension_of(path) {
        Some(ext) => is_note_extension(ext),
        None => false,
    }
}

/// Whether the tree shows `e`: every directory, and the files that are notes.
pub open spec fn is_listed(e: EntryModel) -> bool {
    e.is_dir || is_note_path(e.path)
}

/// Whether `a` must stand before `b` among siblings: a directory before a
/// file, and within either group the name that comes first once both are
/// put in lowercase.
pub open spec fn precedes(a: NodeModel, b: NodeModel) -> bool {
    if a.is_dir != b.is_dir {
        a.is_dir
    } else {
        lex_lt(lowercase(a.name), lowercase(b.name))
    }
}

/// `sorted` with `x` put behind the last node that `x` does not precede.
pub open spec fn insert_sorted(sorted: Seq<NodeModel>, x: NodeModel) -> Seq<NodeModel>
    decreases sorted.len(),
{
    if sorted.len() > 0 && precedes(x, sorted.last()) {
        insert_sorted(sorted.drop_last(), x).push(sorted.last())
    } else {
        sorted.push(x)
    }
}

/// The nodes of `s` in sibling order; nodes of which neither precedes the
/// other keep the order they have in `s`.
pub open spec fn sorted_nodes(s: Seq<NodeModel>) -> Seq<NodeModel>
    decreases s.len(),
{
    if s.len() == 0 {
        s
    } else {
        insert_sorted(sorted_nodes(s.drop_last()), s.last())
    }
}

/// The node that shows `e`.
pub open spec fn node_of(e: EntryModel) -> NodeModel
    decreases e, 0nat,
{
    NodeModel {
        name: e.name,
        path: e.path,
        is_dir: e.is_dir,
        children: if e.is_dir {
            Some(listing(e.children))
        } else {
            None
        },
    }
}

/// The nodes for those of the first `k` entries that the tree shows, in the
/// order of the entries.
pub open spec fn selected(entries: Seq<EntryModel>, k: nat) -> Seq<NodeModel>
    decreases entries, k,
{
    if k == 0 || k > entries.len() {
        Seq::empty()
    } else {
        let before = selected(entries, (k - 1) as nat);
        if is_listed(entries[k - 1]) {
            before.push(node_of(entries[k - 1]))
        } else {
            before
        }
    }
}

/// What the tree shows of a directory that holds `entries`.
pub open spec fn listing(entries: Seq<EntryModel>) -> Seq<NodeModel>
    decreases entries, entries.len() + 1,
{
    sorted_nodes(selected(entries, entries.len()))
}

/// Whether `keys` holds, for each node, its name in lowercase.
spec fn keys_match(nodes: Seq<Node>, keys: Seq<Vec<char>>) -> bool {
    keys.len() == nodes.len() && forall|i: int|
        0 <= i < nodes.len() ==> (#[trigger] keys[i])@ == lowercase(nodes[i].name@)
}

/// Whether the file at `path` is a note.
pub fn is_note(path: &str) -> (r: bool)
    ensures
        r == is_note_path(path@),
{
    match extension(path) {
        Some(ext) => {
            let c = chars_of(ext.as_str());
            c.len() == 2 && (c[0] == 'm' || c[0] == 'M') && (c[1] == 'd' || c[1] == 'D')
        },
        None => false,
    }
}

fn comes_before(a_dir: bool, a_key: &Vec<char>, b_dir: bool, b_key: &Vec<char>) -> (r: bool)
    ensures
        r == (if a_dir != b_dir {
            a_dir
        } else {
            lex_lt(a_key@, b_key@)
        }),
{
    if a_dir != b_dir {
        a_dir
    } else {
        lex_less(a_key, b_key)
    }
}

/// Puts `node` into `out` behind the last node that it does not precede.
fn insert_node(out: &mut Vec<Node>, keys: &mut Vec<Vec<char>>, node: Node)
    requires
        keys_match(old(out)@, old(keys)@),
    ensures
        keys_match(final(out)@, final(keys)@),
        node_models(final(out)@) == insert_sorted(node_models(old(out)@), node@),
{
    let key = lowercase_chars(node.name.as_str());
    let ghost before = node_models(out@);
    let ghost x = node@;
    let mut j: usize = out.len();
    assert(before.take(j as int) =~= before);
    assert(before.skip(j as int) =~= Seq::<NodeModel>::empty());
    while j > 0 && comes_before(node.is_dir, &key, out[j - 1].is_dir, &keys[j - 1])
        invariant
            j <= out@.len(),
            *out == *old(out),
            *keys == *old(keys),
            before == node_models(out@),
            x == node@,
            key@ == lowercase(node.name@),
            keys_match(out@, keys@),
            insert_sorted(before, x) == insert_sorted(before.take(j as int), x) + before.skip(
                j as int,
            ),
        decreases j,
    {
        proof {
            let head = before.take(j as int);
            assert(head.last() == before[j - 1]);
            assert(precedes(x, head.last()));
            assert(head.drop_last() =~= before.take(j - 1));
            assert(insert_sorted(head.drop_last(), x).push(head.last()) + before.skip(j as int)
                =~= insert_sorted(before.take(j - 1), x) + before.skip(j - 1));
        }
        j -= 1;
    }
    proof {
        let head = before.take(j as int);
        if j > 0 {
            assert(head.last() == before[j - 1]);
            assert(!precedes(x, head.last()));
        }
        assert(insert_sorted(head, x) == head.push(x));
        assert(node_models(out@.insert(j as int, node)) =~= head.push(x) + before.skip(j as int));
    }
    out.insert(j, node);
    keys.insert(j, key);
}

/// What the tree shows of a directory that holds `entries`: its
/// subdirectories, each with what the tree shows of it, and its notes, in
/// sibling order.
pub fn build_tree(entries: Vec<Entry>) -> (out: Vec<Node>)
    ensures
        node_models(out@) == listing(entry_models(entries@)),
        in_order(node_models(out@)),
        forall|i: int| 0 <= i < out@.len() ==> well_formed(#[trigger] out@[i]@),
    decreases entries,
{
    let ghost all = entry_models(entries@);
    let ghost raw = entries@;
    let mut out: Vec<Node> = Vec::new();
    let mut keys: Vec<Vec<char>> = Vec::new();
    assert(node_models(out@) =~= sorted_nodes(selected(all, 0)));
    for e in it: entries
        invariant
            it.seq() == raw,
            all == entry_models(raw),
            keys_match(out@, keys@),
            node_models(out@) == sorted_nodes(selected(all, it.index() as nat)),
    {
        let ghost i = it.index();
        proof {
            assert(all[i] == e@);
            let sel = selected(all, (i + 1) as nat);
            if is_listed(e@) {
                assert(sel.drop_last() =~= selected(all, i as nat));
            }
        }
        if e.is_dir {
            let children = build_tree(e.children);
            let node = Node { name: e.name, path: e.path, is_dir: true, children: Some(children) };
            assert(node@ == node_of(e@));
            insert_node(&mut out, &mut keys, node);
        } else if is_note(e.path.as_str()) {
            let node = Node { name: e.name, path: e.path, is_dir: false, children: None };
            assert(node@ == node_of(e@));
            insert_node(&mut out, &mut keys, node);
        }
    }
    proof {
        lemma_listing_order(all);
        lemma_listing_well_formed(all);
        assert forall|i: int| 0 <= i < out@.len() implies well_formed(#[trigger] out@[i]@) by {
            assert(node_models(out@)[i] == out@[i]@);
        }
    }
    out
}

} // verus!
