//! The last component of a path, what precedes it, and its extension.
//!
//! These give back parts of the path's own text, so they are stated by
//! offsets into it. Trailing separators and trailing `.` pieces are not part
//! of the last component.

use vstd::prelude::*;
use vstd::string::*;
use crate::path::{is_absolute, is_name, is_parent_ref, joined};
use crate::text::{chars_of, last_index_of, rfind_char, text};

verus! {

/// Offset just past the last component among the first `n` characters of
/// `s`, or `0` where they hold none. `n` stands at the end of a piece.
pub open spec fn last_name_end(s: Seq<char>, n: int) -> int
    decreases n,
{
    if n <= 0 || n > s.len() {
        0
    } else if s[n - 1] == '/' {
        last_name_end(s, n - 1)
    } else if s[n - 1] == '.' && (n == 1 || s[n - 2] == '/') {
        last_name_end(s, n - 1)
    } else {
        n
    }
}

/// Offset of the first character of the piece that ends at `e`.
pub open spec fn piece_start(s: Seq<char>, e: int) -> int
    decreases e,
{
    if e <= 0 || e > s.len() {
        0
    } else if s[e - 1] == '/' {
        e
    } else {
        piece_start(s, e - 1)
    }
}

/// Where the last component of `s` ends, or `0` where `s` has none.
pub open spec fn tail_end(s: Seq<char>) -> int {
    last_name_end(s, s.len() as int)
}

/// Where the last component of `s` begins.
pub open spec fn tail_start(s: Seq<char>) -> int {
    piece_start(s, tail_end(s))
}

/// The last component of `s`, unless `s` has none or it is `..`.
pub open spec fn file_name_of(s: Seq<char>) -> Option<Seq<char>> {
    let name = s.subrange(tail_start(s), tail_end(s));
    if tail_end(s) <= 0 || is_parent_ref(name) {
        None
    } else {
        Some(name)
    }
}

/// Where the text of the parent of `s` ends: after the component before the
/// last one, or after the root where the last component is the only one.
pub open spec fn parent_end(s: Seq<char>) -> int {
    let before = last_name_end(s, tail_start(s));
    if before > 0 {
        before
    } else if is_absolute(s) {
        1
    } else {
        0
    }
}

/// `s` without its last component, unless `s` has none.
pub open spec fn parent_of(s: Seq<char>) -> Option<Seq<char>> {
    if tail_end(s) <= 0 {
        None
    } else {
        Some(s.take(parent_end(s)))
    }
}

/// What follows the last `.` of a file name. A name that begins with its
/// only `.` has no extension, and neither has `..`.
pub open spec fn name_extension(name: Seq<char>) -> Option<Seq<char>> {
    let dot = last_index_of(name, '.', name.len() as int);
    if dot <= 0 || is_parent_ref(name) {
        None
    } else {
        Some(name.skip(dot + 1))
    }
}

/// The extension of the file name of `s`.
pub open spec fn extension_of(s: Seq<char>) -> Option<Seq<char>> {
    match file_name_of(s) {
        Some(name) => name_extension(name),
        None => None,
    }
}

/// `last_name_end` stays within the path and stops behind a character
/// that is no separator.
pub proof fn lemma_last_name_end(s: Seq<char>, n: int)
    requires
        0 <= n <= s.len(),
    ensures
        0 <= last_name_end(s, n) <= n,
        last_name_end(s, n) > 0 ==> s[last_name_end(s, n) - 1] != '/',
    decreases n,
{
    if n > 0 && (s[n - 1] == '/' || (s[n - 1] == '.' && (n == 1 || s[n - 2] == '/'))) {
        lemma_last_name_end(s, n - 1);
    }
}

/// A piece begins at the start of the path or behind a separator, and
/// holds none.
pub proof fn lemma_piece_start(s: Seq<char>, e: int)
    requires
        0 <= e <= s.len(),
    ensures
        0 <= piece_start(s, e) <= e,
        piece_start(s, e) > 0 ==> s[piece_start(s, e) - 1] == '/',
        forall|k: int| piece_start(s, e) <= k < e ==> #[trigger] s[k] != '/',
        e > 0 && s[e - 1] != '/' ==> piece_start(s, e) < e,
    decreases e,
{
    if e > 0 && s[e - 1] != '/' {
        lemma_piece_start(s, e - 1);
    }
}

/// The offsets that `file_name_of` and `parent_of` cut at lie in order
/// within `s`.
pub proof fn lemma_tail_bounds(s: Seq<char>)
    ensures
        0 <= tail_start(s) <= tail_end(s) <= s.len(),
        tail_end(s) > 0 ==> 0 <= parent_end(s) <= tail_start(s) < tail_end(s),
{
    lemma_last_name_end(s, s.len() as int);
    lemma_piece_start(s, tail_end(s));
    lemma_last_name_end(s, tail_start(s));
    if tail_end(s) > 0 && is_absolute(s) && tail_start(s) == 0 {
        assert(s[0] != '/');
    }
}

fn find_last_name_end(chars: &Vec<char>, n: usize) -> (e: usize)
    requires
        n <= chars@.len(),
    ensures
        e == last_name_end(chars@, n as int),
        e <= n,
{
    let mut k: usize = n;
    while k > 0 && (chars[k - 1] == '/' || (chars[k - 1] == '.' && (k == 1 || chars[k - 2]
        == '/')))
        invariant
            k <= n,
            n <= chars@.len(),
            last_name_end(chars@, n as int) == last_name_end(chars@, k as int),
        decreases k,
    {
        k -= 1;
    }
    k
}

fn find_piece_start(chars: &Vec<char>, e: usize) -> (b: usize)
    requires
        e <= chars@.len(),
    ensures
        b == piece_start(chars@, e as int),
        b <= e,
{
    let mut k: usize = e;
    while k > 0 && chars[k - 1] != '/'
        invariant
            k <= e,
            e <= chars@.len(),
            piece_start(chars@, e as int) == piece_start(chars@, k as int),
        decreases k,
    {
        k -= 1;
    }
    k
}

/// The last component of `path`, unless `path` has none or it is `..`.
pub fn file_name(path: &str) -> (out: Option<String>)
    ensures
        text(out) == file_name_of(path@),
{
    let chars = chars_of(path);
    let e = find_last_name_end(&chars, chars.len());
    if e == 0 {
        return None;
    }
    let b = find_piece_start(&chars, e);
    if e - b == 2 && chars[b] == '.' && chars[b + 1] == '.' {
        return None;
    }
    Some(String::from_str(path.substring_char(b, e)))
}

/// `path` without its last component, unless `path` has none.
pub fn parent(path: &str) -> (out: Option<String>)
    ensures
        text(out) == parent_of(path@),
{
    let chars = chars_of(path);
    let e = find_last_name_end(&chars, chars.len());
    if e == 0 {
        return None;
    }
    let b = find_piece_start(&chars, e);
    let before = find_last_name_end(&chars, b);
    let end: usize = if before > 0 {
        before
    } else if chars[0] == '/' {
        1
    } else {
        0
    };
    Some(String::from_str(path.substring_char(0, end)))
}

/// The extension of `name`, taken as a file name.
pub fn extension_of_name(name: &str) -> (out: Option<String>)
    ensures
        text(out) == name_extension(name@),
{
    let chars = chars_of(name);
    let n = chars.len();
    if n == 2 && chars[0] == '.' && chars[1] == '.' {
        return None;
    }
    match rfind_char(&chars, '.') {
        Some(dot) => {
            if dot == 0 {
                None
            } else {
                Some(String::from_str(name.substring_char(dot + 1, n)))
            }
        },
        None => None,
    }
}

/// The extension of the file name of `path`.
pub fn extension(path: &str) -> (out: Option<String>)
    ensures
        text(out) == extension_of(path@),
{
    match file_name(path) {
        Some(name) => extension_of_name(name.as_str()),
        None => None,
    }
}

/// A run without separators that begins at `b`, at the start of `s` or
/// behind a separator, is the piece that ends at `e`.
pub proof fn lemma_piece_start_found(s: Seq<char>, b: int, e: int)
    requires
        0 <= b <= e <= s.len(),
        b == 0 || s[b - 1] == '/',
        forall|k: int| b <= k < e ==> #[trigger] s[k] != '/',
    ensures
        piece_start(s, e) == b,
    decreases e - b,
{
    if e > b {
        lemma_piece_start_found(s, b, e - 1);
    }
}

/// A `c` at `d` with none behind it below `n` is the last one there.
pub proof fn lemma_last_index_found(s: Seq<char>, c: char, d: int, n: int)
    requires
        0 <= d < n <= s.len(),
        s[d] == c,
        forall|k: int| d < k < n ==> #[trigger] s[k] != c,
    ensures
        last_index_of(s, c, n) == d,
    decreases n - d,
{
    if n - 1 > d {
        lemma_last_index_found(s, c, d, n - 1);
    }
}

/// The file name of a path holds no separator.
pub proof fn lemma_file_name_has_no_separator(s: Seq<char>)
    ensures
        file_name_of(s) matches Some(name) ==> name.len() > 0 && !name.contains('/'),
{
    lemma_tail_bounds(s);
    lemma_piece_start(s, tail_end(s));
}

/// A name joined onto a directory is the file name of what results.
pub proof fn lemma_file_name_of_joined(dir: Seq<char>, name: Seq<char>)
    requires
        is_name(name),
        !is_parent_ref(name),
        !name.contains('/'),
    ensures
        file_name_of(joined(dir, name)) == Some(name),
{
    let path = joined(dir, name);
    let n = path.len() as int;
    let b = n - name.len();
    assert(name[0] != '/') by {
        assert(name.contains(name[0]));
    }
    assert forall|k: int| b <= k < n implies #[trigger] path[k] != '/' by {
        assert(path[k] == name[k - b]);
        assert(name.contains(name[k - b]));
    }
    assert(path[n - 1] == name.last());
    if name.len() >= 2 {
        assert(path[n - 2] == name[name.len() - 2]);
    }
    assert(last_name_end(path, n) == n);
    lemma_piece_start_found(path, b, n);
    assert(path.subrange(b, n) =~= name);
}

} // verus!
