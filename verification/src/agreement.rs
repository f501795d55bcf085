//! The parts of a path, which are cut out of its text, agree with its
//! components.

use vstd::prelude::*;
use crate::parts::{
    file_name_of, last_name_end, lemma_file_name_has_no_separator, lemma_last_name_end,
    lemma_piece_start, lemma_piece_start_found, lemma_tail_bounds, parent_end, parent_of,
    piece_start, tail_end, tail_start,
};
use crate::path::{
    is_absolute, is_name, is_parent_ref, lemma_filter_last, lemma_names_of_empty, lemma_names_trailing_separator,
    lemma_pieces_nonempty, name_filter, names, pieces,
};

verus! {

/// Where a piece begins depends only on what stands before its end.
pub proof fn lemma_piece_start_in_prefix(s: Seq<char>, e: int, n: int)
    requires
        0 <= e <= n <= s.len(),
    ensures
        piece_start(s.take(n), e) == piece_start(s, e),
    decreases e,
{
    if e > 0 && s[e - 1] != '/' {
        lemma_piece_start_in_prefix(s, e - 1, n);
    }
}

/// The last piece of `s` is what follows its last separator, and the pieces
/// before it are those of what precedes that separator.
pub proof fn lemma_pieces_split(s: Seq<char>)
    ensures
        0 <= piece_start(s, s.len() as int) <= s.len(),
        pieces(s) == if piece_start(s, s.len() as int) == 0 {
            seq![s]
        } else {
            pieces(s.take(piece_start(s, s.len() as int) - 1)).push(
                s.skip(piece_start(s, s.len() as int)),
            )
        },
    decreases s.len(),
{
    let n = s.len() as int;
    let b = piece_start(s, n);
    lemma_piece_start(s, n);
    if n == 0 {
        assert(s =~= Seq::<char>::empty());
        assert(pieces(s) =~= seq![s]);
    } else if s.last() == '/' {
        assert(s.take(n - 1) =~= s.drop_last());
        assert(s.skip(n) =~= Seq::<char>::empty());
    } else {
        let d = s.drop_last();
        lemma_pieces_split(d);
        lemma_pieces_nonempty(d);
        assert(d =~= s.take(n - 1));
        lemma_piece_start_in_prefix(s, n - 1, n - 1);
        assert(piece_start(d, n - 1) == b);
        if b == 0 {
            assert(pieces(d) == seq![d]);
            assert(d.push(s.last()) =~= s);
            assert(seq![d].drop_last().push(d.push(s.last())) =~= seq![s]);
        } else {
            assert(d.take(b - 1) =~= s.take(b - 1));
            assert(d.skip(b).push(s.last()) =~= s.skip(b));
            let head = pieces(s.take(b - 1));
            assert(head.push(d.skip(b)).drop_last().push(d.skip(b).push(s.last())) =~= head.push(
                s.skip(b),
            ));
        }
    }
}

/// The components of `s` are those of what precedes its last piece, and that
/// piece where it is a name.
pub proof fn lemma_names_split(s: Seq<char>)
    ensures
        0 <= piece_start(s, s.len() as int) <= s.len(),
        names(s) == names(s.take(piece_start(s, s.len() as int))) + if is_name(
            s.skip(piece_start(s, s.len() as int)),
        ) {
            seq![s.skip(piece_start(s, s.len() as int))]
        } else {
            Seq::<Seq<char>>::empty()
        },
{
    let b = piece_start(s, s.len() as int);
    let last = s.skip(b);
    lemma_pieces_split(s);
    lemma_pieces_nonempty(s);
    lemma_filter_last(pieces(s));
    if b == 0 {
        lemma_names_of_empty();
        assert(s.skip(0) =~= s);
        assert(s.take(0) =~= Seq::<char>::empty());
        assert(seq![s].drop_last() =~= Seq::<Seq<char>>::empty());
        reveal(Seq::filter);
        assert(Seq::<Seq<char>>::empty().filter(name_filter()) =~= Seq::<Seq<char>>::empty());
        assert(names(s) =~= names(s.take(0)) + if is_name(last) {
            seq![last]
        } else {
            Seq::<Seq<char>>::empty()
        });
    } else {
        let head = s.take(b - 1);
        lemma_piece_start(s, s.len() as int);
        assert(s.take(b) =~= head.push('/'));
        lemma_names_trailing_separator(head);
        assert(pieces(s).drop_last() =~= pieces(head));
        assert(names(s) =~= names(s.take(b)) + if is_name(last) {
            seq![last]
        } else {
            Seq::<Seq<char>>::empty()
        });
    }
}

/// Trailing separators and trailing `.` pieces add no component.
pub proof fn lemma_names_skip_tail(s: Seq<char>, n: int)
    requires
        0 <= n <= s.len(),
    ensures
        0 <= last_name_end(s, n) <= n,
        names(s.take(n)) == names(s.take(last_name_end(s, n))),
    decreases n,
{
    lemma_last_name_end(s, n);
    if n > 0 {
        let st = s.take(n);
        if s[n - 1] == '/' {
            assert(st =~= s.take(n - 1).push('/'));
            lemma_names_trailing_separator(s.take(n - 1));
            lemma_names_skip_tail(s, n - 1);
        } else if s[n - 1] == '.' && (n == 1 || s[n - 2] == '/') {
            lemma_names_split(st);
            lemma_piece_start_in_prefix(s, n, n);
            lemma_piece_start_found(s, n - 1, n);
            assert(st.skip(n - 1) =~= seq!['.']);
            assert(st.take(n - 1) =~= s.take(n - 1));
            assert(names(st) =~= names(s.take(n - 1)));
            lemma_names_skip_tail(s, n - 1);
        }
    }
}

/// The last component of `s` is the run from `tail_start` to `tail_end`,
/// and the components before it are those of what precedes that run.
pub proof fn lemma_tail_is_last_name(s: Seq<char>)
    ensures
        tail_end(s) <= 0 ==> names(s) == Seq::<Seq<char>>::empty(),
        tail_end(s) > 0 ==> names(s) == names(s.take(tail_start(s))).push(
            s.subrange(tail_start(s), tail_end(s)),
        ),
{
    let n = s.len() as int;
    let e = tail_end(s);
    lemma_tail_bounds(s);
    lemma_names_skip_tail(s, n);
    assert(s.take(n) =~= s);
    if e <= 0 {
        assert(s.take(0) =~= Seq::<char>::empty());
        lemma_names_of_empty();
    } else {
        let st = s.take(e);
        let b = tail_start(s);
        lemma_names_split(st);
        lemma_piece_start_in_prefix(s, e, e);
        lemma_last_name_end(s, n);
        assert(st.skip(b) =~= s.subrange(b, e));
        assert(st.take(b) =~= s.take(b));
        let last = s.subrange(b, e);
        assert(is_name(last)) by {
            lemma_last_name_end_is_name(s, n);
            assert(last.last() == s[e - 1]);
            if last.len() == 1 {
                assert(b == e - 1);
                lemma_piece_start(s, e);
            }
        }
        assert(names(st) =~= names(s.take(b)).push(last));
    }
}

/// Where `last_name_end` stops, a character stands that is no separator and
/// is not a `.` piece of its own.
pub proof fn lemma_last_name_end_is_name(s: Seq<char>, n: int)
    requires
        0 <= n <= s.len(),
    ensures
        last_name_end(s, n) > 0 ==> s[last_name_end(s, n) - 1] != '/' && !(s[last_name_end(s, n)
            - 1] == '.' && (last_name_end(s, n) == 1 || s[last_name_end(s, n) - 2] == '/')),
    decreases n,
{
    if n > 0 && (s[n - 1] == '/' || (s[n - 1] == '.' && (n == 1 || s[n - 2] == '/'))) {
        lemma_last_name_end_is_name(s, n - 1);
    }
}

/// A path has a parent exactly when it has a component. Its file name, if
/// it has one, is its last component; the components of its parent are all
/// its components but the last; and the parent has a root exactly when the
/// path has.
pub proof fn lemma_parts_are_components(s: Seq<char>)
    ensures
        parent_of(s) is None <==> names(s).len() == 0,
        file_name_of(s) matches Some(name) ==> names(s).len() > 0 && name == names(s).last(),
        parent_of(s) matches Some(dir) ==> names(dir) == names(s).drop_last() && is_absolute(dir)
            == is_absolute(s),
{
    lemma_tail_is_last_name(s);
    lemma_tail_bounds(s);
    if tail_end(s) > 0 {
        let b = tail_start(s);
        let last = s.subrange(b, tail_end(s));
        let dir = s.take(parent_end(s));
        assert(names(s).drop_last() =~= names(s.take(b)));
        lemma_names_skip_tail(s, b);
        if last_name_end(s, b) <= 0 {
            assert(s.take(0) =~= Seq::<char>::empty());
            lemma_names_of_empty();
            if is_absolute(s) {
                assert(s.take(1) =~= Seq::<char>::empty().push('/'));
                lemma_names_trailing_separator(Seq::<char>::empty());
            }
        }
        assert(names(dir) == names(s).drop_last());
    }
}

/// The file name of a path is a name: not empty, not `.`, not `..`, and
/// without a separator.
pub proof fn lemma_file_name_is_name(s: Seq<char>)
    ensures
        file_name_of(s) matches Some(name) ==> is_name(name) && !is_parent_ref(name)
            && !name.contains('/'),
{
    lemma_tail_is_last_name(s);
    lemma_file_name_has_no_separator(s);
    if file_name_of(s) is Some {
        let all = names(s);
        assert(all.last() == s.subrange(tail_start(s), tail_end(s)));
        pieces(s).lemma_filter_pred(name_filter(), all.len() - 1);
    }
}

/// A name without a separator is a path of one component, itself.
pub proof fn lemma_single_name(name: Seq<char>)
    requires
        is_name(name),
        !name.contains('/'),
    ensures
        names(name) == seq![name],
        !is_absolute(name),
{
    let n = name.len() as int;
    assert forall|k: int| 0 <= k < n implies #[trigger] name[k] != '/' by {
        assert(name.contains(name[k]));
    }
    lemma_piece_start_found(name, 0, n);
    lemma_names_split(name);
    lemma_names_of_empty();
    assert(name.take(0) =~= Seq::<char>::empty());
    assert(name.skip(0) =~= name);
    assert(names(name) =~= seq![name]);
}

} // verus!
