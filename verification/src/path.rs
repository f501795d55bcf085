//! Lexical rules for `/`-separated paths.
//!
//! A path is a string. Its *pieces* are the runs between separators; its
//! *names* are the pieces that are neither empty nor `.`, so that `a//b`,
//! `a/./b` and `a/b/` all have the names `a`, `b`. A path that begins with a
//! separator is absolute. Nothing here looks at a file system.

use vstd::prelude::*;
use vstd::string::*;
use crate::text::chars_of;

verus! {

/// Whether `s` begins at the root.
pub open spec fn is_absolute(s: Seq<char>) -> bool {
    s.len() > 0 && s[0] == '/'
}

/// The runs of `s` between separators: `k` separators give `k + 1` pieces,
/// some of which may be empty.
pub open spec fn pieces(s: Seq<char>) -> Seq<Seq<char>>
    decreases s.len(),
{
    if s.len() == 0 {
        seq![Seq::<char>::empty()]
    } else {
        let before = pieces(s.drop_last());
        if s.last() == '/' {
            before.push(Seq::<char>::empty())
        } else {
            before.drop_last().push(before.last().push(s.last()))
        }
    }
}

/// A piece that counts as a path component: not empty and not `.`.
pub open spec fn is_name(piece: Seq<char>) -> bool {
    piece.len() > 0 && !(piece.len() == 1 && piece[0] == '.')
}

/// The test that picks the components out of the pieces.
pub open spec fn name_filter() -> spec_fn(Seq<char>) -> bool {
    |piece: Seq<char>| is_name(piece)
}

/// The components of `s`, in order.
pub open spec fn names(s: Seq<char>) -> Seq<Seq<char>> {
    pieces(s).filter(name_filter())
}

/// The component `..`.
pub open spec fn is_parent_ref(name: Seq<char>) -> bool {
    name.len() == 2 && name[0] == '.' && name[1] == '.'
}

/// Whether some component of `s` is `..`.
pub open spec fn has_parent_ref(s: Seq<char>) -> bool {
    exists|i: int| 0 <= i < names(s).len() && is_parent_ref(#[trigger] names(s)[i])
}

/// Whether `path` lies at or below `base`: the components of `base`, its
/// root included, begin those of `path`. The empty path begins every path.
pub open spec fn starts_with(path: Seq<char>, base: Seq<char>) -> bool {
    if is_absolute(base) {
        is_absolute(path) && names(base).is_prefix_of(names(path))
    } else {
        names(base).len() == 0 || (!is_absolute(path) && names(base).is_prefix_of(names(path)))
    }
}

/// Whether `a` and `b` have the same components, root included.
pub open spec fn same_path(a: Seq<char>, b: Seq<char>) -> bool {
    is_absolute(a) == is_absolute(b) && names(a) == names(b)
}

/// `target` placed under `base`. An absolute `target` replaces `base`.
pub open spec fn joined(base: Seq<char>, target: Seq<char>) -> Seq<char> {
    if is_absolute(target) {
        target
    } else if base.len() == 0 || base.last() == '/' {
        base + target
    } else {
        base.push('/') + target
    }
}

/// The view of each element.
pub open spec fn views(v: Seq<Vec<char>>) -> Seq<Seq<char>> {
    v.map_values(|c: Vec<char>| c@)
}

/// Every path has at least one piece.
pub proof fn lemma_pieces_nonempty(s: Seq<char>)
    ensures
        pieces(s).len() >= 1,
    decreases s.len(),
{
    if s.len() > 0 {
        lemma_pieces_nonempty(s.drop_last());
    }
}

/// Filtering a list of pieces decides on its last piece and filters the rest.
pub proof fn lemma_filter_last(all: Seq<Seq<char>>)
    requires
        all.len() > 0,
    ensures
        all.filter(name_filter()) == if is_name(all.last()) {
            all.drop_last().filter(name_filter()).push(all.last())
        } else {
            all.drop_last().filter(name_filter())
        },
{
    reveal(Seq::filter);
}

fn piece_is_name(piece: &Vec<char>) -> (r: bool)
    ensures
        r == is_name(piece@),
{
    piece.len() > 0 && !(piece.len() == 1 && piece[0] == '.')
}

fn name_is_parent_ref(name: &Vec<char>) -> (r: bool)
    ensures
        r == is_parent_ref(name@),
{
    name.len() == 2 && name[0] == '.' && name[1] == '.'
}

/// The components of `chars`, in order.
pub fn split_names(chars: &Vec<char>) -> (out: Vec<Vec<char>>)
    ensures
        views(out@) == names(chars@),
{
    let n = chars.len();
    let mut out: Vec<Vec<char>> = Vec::new();
    let mut cur: Vec<char> = Vec::new();
    let mut i: usize = 0;
    assert(chars@.take(0) =~= Seq::<char>::empty());
    assert(views(out@) =~= pieces(chars@.take(0)).drop_last().filter(name_filter()));
    while i < n
        invariant
            i <= n,
            n == chars@.len(),
            cur@ == pieces(chars@.take(i as int)).last(),
            views(out@) == pieces(chars@.take(i as int)).drop_last().filter(name_filter()),
        decreases n - i,
    {
        let c = chars[i];
        proof {
            let before = pieces(chars@.take(i as int));
            lemma_pieces_nonempty(chars@.take(i as int));
            assert(chars@.take(i + 1).drop_last() =~= chars@.take(i as int));
            if c == '/' {
                assert(pieces(chars@.take(i + 1)).drop_last() =~= before);
                lemma_filter_last(before);
                if is_name(cur@) {
                    assert(views(out@.push(cur)) =~= views(out@).push(cur@));
                }
            } else {
                assert(pieces(chars@.take(i + 1)).drop_last() =~= before.drop_last());
            }
        }
        if c == '/' {
            if piece_is_name(&cur) {
                out.push(cur);
            }
            cur = Vec::new();
        } else {
            cur.push(c);
        }
        i += 1;
    }
    proof {
        let all = pieces(chars@);
        lemma_pieces_nonempty(chars@);
        assert(chars@.take(n as int) =~= chars@);
        lemma_filter_last(all);
        if is_name(cur@) {
            assert(views(out@.push(cur)) =~= views(out@).push(cur@));
        }
    }
    if piece_is_name(&cur) {
        out.push(cur);
    }
    out
}

/// Whether `a` and `b` hold the same characters.
fn chars_equal(a: &Vec<char>, b: &Vec<char>) -> (r: bool)
    ensures
        r == (a@ == b@),
{
    if a.len() != b.len() {
        return false;
    }
    let mut i: usize = 0;
    while i < a.len()
        invariant
            i <= a@.len(),
            a@.len() == b@.len(),
            a@.take(i as int) == b@.take(i as int),
        decreases a@.len() - i,
    {
        if a[i] != b[i] {
            return false;
        }
        assert(a@.take(i + 1) =~= a@.take(i as int).push(a@[i as int]));
        assert(b@.take(i + 1) =~= b@.take(i as int).push(b@[i as int]));
        i += 1;
    }
    assert(a@.take(a@.len() as int) =~= a@);
    assert(b@.take(b@.len() as int) =~= b@);
    true
}

/// Whether the first `k` components of `a` are those of `b`, which has at
/// least `k`.
fn names_agree(a: &Vec<Vec<char>>, b: &Vec<Vec<char>>, k: usize) -> (r: bool)
    requires
        k <= a@.len(),
        k <= b@.len(),
    ensures
        r == (views(a@).take(k as int) == views(b@).take(k as int)),
{
    let mut i: usize = 0;
    while i < k
        invariant
            i <= k,
            k <= a@.len(),
            k <= b@.len(),
            views(a@).take(i as int) == views(b@).take(i as int),
        decreases k - i,
    {
        if !chars_equal(&a[i], &b[i]) {
            assert(views(a@).take(k as int)[i as int] != views(b@).take(k as int)[i as int]);
            return false;
        }
        assert(views(a@).take(i + 1) =~= views(a@).take(i as int).push(views(a@)[i as int]));
        assert(views(b@).take(i + 1) =~= views(b@).take(i as int).push(views(b@)[i as int]));
        i += 1;
    }
    true
}

fn chars_absolute(chars: &Vec<char>) -> (r: bool)
    ensures
        r == is_absolute(chars@),
{
    chars.len() > 0 && chars[0] == '/'
}

/// Whether `path` begins with a separator.
pub fn has_root(path: &str) -> (r: bool)
    ensures
        r == is_absolute(path@),
{
    let chars = chars_of(path);
    chars_absolute(&chars)
}

/// Whether some component of `path` is `..`.
pub fn has_parent_component(path: &str) -> (r: bool)
    ensures
        r == has_parent_ref(path@),
{
    let chars = chars_of(path);
    let parts = split_names(&chars);
    let mut i: usize = 0;
    while i < parts.len()
        invariant
            i <= parts@.len(),
            views(parts@) == names(path@),
            forall|k: int| 0 <= k < i ==> !is_parent_ref(#[trigger] names(path@)[k]),
        decreases parts@.len() - i,
    {
        if name_is_parent_ref(&parts[i]) {
            assert(is_parent_ref(names(path@)[i as int]));
            return true;
        }
        i += 1;
    }
    false
}

/// Whether `path` lies at or below `base`, component by component.
pub fn path_starts_with(path: &str, base: &str) -> (r: bool)
    ensures
        r == starts_with(path@, base@),
{
    let p = chars_of(path);
    let b = chars_of(base);
    let p_names = split_names(&p);
    let b_names = split_names(&b);
    if chars_absolute(&b) {
        if !chars_absolute(&p) {
            return false;
        }
    } else {
        if b_names.len() == 0 {
            return true;
        }
        if chars_absolute(&p) {
            return false;
        }
    }
    if b_names.len() > p_names.len() {
        return false;
    }
    let r = names_agree(&b_names, &p_names, b_names.len());
    proof {
        assert(views(b_names@).take(b_names@.len() as int) =~= views(b_names@));
        assert(views(p_names@).take(b_names@.len() as int) =~= views(p_names@).subrange(
            0,
            b_names@.len() as int,
        ));
    }
    r
}

/// Whether `a` and `b` have the same components, root included.
pub fn paths_equal(a: &str, b: &str) -> (r: bool)
    ensures
        r == same_path(a@, b@),
{
    let x = chars_of(a);
    let y = chars_of(b);
    if chars_absolute(&x) != chars_absolute(&y) {
        return false;
    }
    let x_names = split_names(&x);
    let y_names = split_names(&y);
    if x_names.len() != y_names.len() {
        assert(views(x_names@).len() != views(y_names@).len());
        return false;
    }
    let r = names_agree(&x_names, &y_names, x_names.len());
    proof {
        assert(views(x_names@).take(x_names@.len() as int) =~= views(x_names@));
        assert(views(y_names@).take(x_names@.len() as int) =~= views(y_names@));
    }
    r
}

/// `target` placed under `base`. An absolute `target` replaces `base`;
/// otherwise one separator is put between the two unless `base` is empty or
/// already ends with one.
pub fn join(base: &str, target: &str) -> (out: String)
    ensures
        out@ == joined(base@, target@),
{
    if has_root(target) {
        return String::from_str(target);
    }
    let b = chars_of(base);
    let out = String::from_str(base);
    if b.len() == 0 || b[b.len() - 1] == '/' {
        out.concat(target)
    } else {
        proof {
            reveal_strlit("/");
            assert("/"@ =~= seq!['/']);
            assert(base@ + "/"@ =~= base@.push('/'));
        }
        out.concat("/").concat(target)
    }
}

/// The empty path has no component.
pub proof fn lemma_names_of_empty()
    ensures
        names(Seq::<char>::empty()) == Seq::<Seq<char>>::empty(),
{
    let all = pieces(Seq::<char>::empty());
    lemma_filter_last(all);
    reveal(Seq::filter);
    assert(all.drop_last().len() == 0);
}

/// The pieces of `a/b` are those of `a` followed by those of `b`.
pub proof fn lemma_pieces_concat(a: Seq<char>, b: Seq<char>)
    ensures
        pieces(a.push('/') + b) == pieces(a) + pieces(b),
    decreases b.len(),
{
    let s = a.push('/') + b;
    if b.len() == 0 {
        assert(s =~= a.push('/'));
        assert(s.drop_last() =~= a);
        assert(pieces(s) =~= pieces(a) + pieces(b));
    } else {
        let rest = b.drop_last();
        lemma_pieces_concat(a, rest);
        lemma_pieces_nonempty(rest);
        assert(s.drop_last() =~= a.push('/') + rest);
        let pa = pieces(a);
        let pb = pieces(rest);
        if b.last() == '/' {
            assert((pa + pb).push(Seq::<char>::empty()) =~= pa + pb.push(Seq::<char>::empty()));
        } else {
            assert((pa + pb).drop_last().push((pa + pb).last().push(b.last())) =~= pa
                + pb.drop_last().push(pb.last().push(b.last())));
        }
    }
}

/// The components of `a/b` are those of `a` followed by those of `b`.
pub proof fn lemma_names_concat(a: Seq<char>, b: Seq<char>)
    ensures
        names(a.push('/') + b) == names(a) + names(b),
{
    lemma_pieces_concat(a, b);
    Seq::filter_distributes_over_add(pieces(a), pieces(b), name_filter());
}

/// A trailing separator adds no component.
pub proof fn lemma_names_trailing_separator(a: Seq<char>)
    ensures
        names(a.push('/')) == names(a),
{
    assert(a.push('/').drop_last() =~= a);
    lemma_filter_last(pieces(a.push('/')));
    assert(pieces(a.push('/')).drop_last() =~= pieces(a));
}

/// Joining a relative target appends its components to those of the base,
/// and a base that is not empty keeps its root or its lack of one.
pub proof fn lemma_names_joined(base: Seq<char>, target: Seq<char>)
    requires
        !is_absolute(target),
    ensures
        names(joined(base, target)) == names(base) + names(target),
        base.len() > 0 ==> is_absolute(joined(base, target)) == is_absolute(base),
        base.len() == 0 ==> joined(base, target) == target,
{
    if base.len() == 0 {
        lemma_names_of_empty();
        assert(base =~= Seq::<char>::empty());
        assert(base + target =~= target);
        assert(names(base) + names(target) =~= names(target));
    } else if base.last() == '/' {
        let stem = base.drop_last();
        assert(base =~= stem.push('/'));
        assert(base + target =~= stem.push('/') + target);
        lemma_names_concat(stem, target);
        lemma_names_trailing_separator(stem);
    } else {
        lemma_names_concat(base, target);
    }
}

/// Joining a relative target onto a base never leaves the base.
pub proof fn lemma_joined_starts_with(base: Seq<char>, target: Seq<char>)
    requires
        !is_absolute(target),
    ensures
        starts_with(joined(base, target), base),
{
    lemma_names_joined(base, target);
    let a = names(base);
    let b = names(target);
    assert((a + b).subrange(0, a.len() as int) =~= a);
}

/// The join of a base and a relative target has a `..` component exactly
/// when one of the two has.
pub proof fn lemma_joined_parent_ref(base: Seq<char>, target: Seq<char>)
    requires
        !is_absolute(target),
    ensures
        has_parent_ref(joined(base, target)) <==> has_parent_ref(base) || has_parent_ref(target),
{
    lemma_names_joined(base, target);
    let a = names(base);
    let b = names(target);
    let all = names(joined(base, target));
    if has_parent_ref(base) {
        let i = choose|i: int| 0 <= i < a.len() && is_parent_ref(#[trigger] a[i]);
        assert(all[i] == a[i]);
    }
    if has_parent_ref(target) {
        let i = choose|i: int| 0 <= i < b.len() && is_parent_ref(#[trigger] b[i]);
        assert(all[a.len() + i] == b[i]);
    }
    if has_parent_ref(joined(base, target)) {
        let i = choose|i: int| 0 <= i < all.len() && is_parent_ref(#[trigger] all[i]);
        if i < a.len() {
            assert(all[i] == a[i]);
        } else {
            assert(all[i] == b[i - a.len()]);
        }
    }
}

} // verus!
