//! Character-level helpers shared by the path and name rules.
//!
//! Strings are modelled as `Seq<char>`. Executable code turns a `&str` into
//! a `Vec<char>` once and then works with offsets into it.

use vstd::prelude::*;
use vstd::string::*;

verus! {

/// Whether `c` has the Unicode `White_Space` property.
pub uninterp spec fn is_whitespace(c: char) -> bool;

/// The Unicode lowercase form of `s`.
pub uninterp spec fn lowercase(s: Seq<char>) -> Seq<char>;

/// Calls `char::is_whitespace`, which the standard library documents as the
/// test for the Unicode `White_Space` property. The property is a fixed table
/// of code points; the contract names it instead of listing it.
#[verifier::external_body]
pub(crate) fn char_is_whitespace(c: char) -> (r: bool)
    ensures
        r == is_whitespace(c),
{
    c.is_whitespace()
}

/// Calls `str::to_lowercase`, which the standard library documents as the
/// lowercase equivalent of the string under the Unicode case mapping. The
/// mapping depends on the characters alone; the contract names its result and
/// hands it back one `char` per element.
#[verifier::external_body]
pub(crate) fn lowercase_chars(s: &str) -> (out: Vec<char>)
    ensures
        out@ == lowercase(s@),
{
    s.to_lowercase().chars().collect()
}

/// The characters of `s`, in order.
pub fn chars_of(s: &str) -> (out: Vec<char>)
    ensures
        out@ == s@,
{
    let mut out: Vec<char> = Vec::new();
    for c in it: s.chars()
        invariant
            it.seq() == s@,
            out@ == s@.take(it.index()),
    {
        out.push(c);
    }
    out
}

/// The first offset at or after `i` that does not hold whitespace.
pub open spec fn skip_whitespace(s: Seq<char>, i: int) -> int
    decreases s.len() - i,
{
    if 0 <= i < s.len() && is_whitespace(s[i]) {
        skip_whitespace(s, i + 1)
    } else {
        i
    }
}

/// The least offset `k` with `lo <= k <= j` such that `s[k..j]` is all
/// whitespace.
pub open spec fn skip_whitespace_back(s: Seq<char>, lo: int, j: int) -> int
    decreases j,
{
    if lo < j <= s.len() && 0 < j && is_whitespace(s[j - 1]) {
        skip_whitespace_back(s, lo, j - 1)
    } else {
        j
    }
}

/// Offset of the first character of `s` that is not whitespace, or `s.len()`.
pub open spec fn trim_start(s: Seq<char>) -> int {
    skip_whitespace(s, 0)
}

/// Offset just past the last character of `s` that is not whitespace, or
/// `trim_start(s)` where there is none.
pub open spec fn trim_end(s: Seq<char>) -> int {
    skip_whitespace_back(s, trim_start(s), s.len() as int)
}

/// `s` without its leading and trailing whitespace.
pub open spec fn trimmed(s: Seq<char>) -> Seq<char> {
    s.subrange(trim_start(s), trim_end(s))
}

/// `skip_whitespace` passes over whitespace only and stops at the first
/// character that is none.
pub proof fn lemma_skip_whitespace(s: Seq<char>, i: int)
    requires
        0 <= i <= s.len(),
    ensures
        i <= skip_whitespace(s, i) <= s.len(),
        forall|k: int| i <= k < skip_whitespace(s, i) ==> is_whitespace(#[trigger] s[k]),
        skip_whitespace(s, i) < s.len() ==> !is_whitespace(s[skip_whitespace(s, i)]),
    decreases s.len() - i,
{
    if i < s.len() && is_whitespace(s[i]) {
        lemma_skip_whitespace(s, i + 1);
    }
}

/// `skip_whitespace_back` passes over whitespace only and stops behind the
/// last character that is none.
pub proof fn lemma_skip_whitespace_back(s: Seq<char>, lo: int, j: int)
    requires
        0 <= lo <= j <= s.len(),
    ensures
        lo <= skip_whitespace_back(s, lo, j) <= j,
        forall|k: int| skip_whitespace_back(s, lo, j) <= k < j ==> is_whitespace(#[trigger] s[k]),
        lo < skip_whitespace_back(s, lo, j) ==> !is_whitespace(
            s[skip_whitespace_back(s, lo, j) - 1],
        ),
    decreases j,
{
    if lo < j && is_whitespace(s[j - 1]) {
        lemma_skip_whitespace_back(s, lo, j - 1);
    }
}

/// Trimming keeps one contiguous run of `s`: everything cut off at either
/// end is whitespace, and what is left neither starts nor ends with
/// whitespace.
pub proof fn lemma_trimmed(s: Seq<char>)
    ensures
        0 <= trim_start(s) <= trim_end(s) <= s.len(),
        forall|k: int| 0 <= k < trim_start(s) ==> is_whitespace(#[trigger] s[k]),
        forall|k: int| trim_end(s) <= k < s.len() ==> is_whitespace(#[trigger] s[k]),
        trimmed(s).len() > 0 ==> !is_whitespace(trimmed(s).first()) && !is_whitespace(
            trimmed(s).last(),
        ),
{
    lemma_skip_whitespace(s, 0);
    lemma_skip_whitespace_back(s, trim_start(s), s.len() as int);
}

/// The offsets `(trim_start, trim_end)` of `chars`.
pub fn trim_range(chars: &Vec<char>) -> (r: (usize, usize))
    ensures
        r.0 == trim_start(chars@),
        r.1 == trim_end(chars@),
        r.0 <= r.1 <= chars@.len(),
{
    let n = chars.len();
    let mut a: usize = 0;
    while a < n && char_is_whitespace(chars[a])
        invariant
            a <= n,
            n == chars@.len(),
            skip_whitespace(chars@, 0) == skip_whitespace(chars@, a as int),
        decreases n - a,
    {
        a += 1;
    }
    let mut b: usize = n;
    while b > a && char_is_whitespace(chars[b - 1])
        invariant
            a <= b <= n,
            n == chars@.len(),
            skip_whitespace_back(chars@, a as int, n as int) == skip_whitespace_back(
                chars@,
                a as int,
                b as int,
            ),
        decreases b,
    {
        b -= 1;
    }
    (a, b)
}

/// `s` without its leading and trailing whitespace.
pub fn trim(s: &str) -> (out: String)
    ensures
        out@ == trimmed(s@),
{
    let chars = chars_of(s);
    let (a, b) = trim_range(&chars);
    String::from_str(s.substring_char(a, b))
}

/// Whether `a` comes strictly before `b` in the lexicographic order of their
/// code points, looking only at offsets from `i` on.
pub open spec fn lex_lt_from(a: Seq<char>, b: Seq<char>, i: int) -> bool
    decreases a.len() - i,
{
    if i < 0 || i >= b.len() {
        false
    } else if i >= a.len() {
        true
    } else if a[i] != b[i] {
        a[i] < b[i]
    } else {
        lex_lt_from(a, b, i + 1)
    }
}

/// Whether `a` comes strictly before `b` in the lexicographic order of their
/// code points.
pub open spec fn lex_lt(a: Seq<char>, b: Seq<char>) -> bool {
    lex_lt_from(a, b, 0)
}

/// Whether `a` comes strictly before `b` in code-point order.
pub fn lex_less(a: &Vec<char>, b: &Vec<char>) -> (r: bool)
    ensures
        r == lex_lt(a@, b@),
{
    let mut i: usize = 0;
    while i < a.len() && i < b.len()
        invariant
            i <= a@.len(),
            i <= b@.len(),
            lex_lt(a@, b@) == lex_lt_from(a@, b@, i as int),
        decreases a@.len() - i,
    {
        let x = a[i];
        let y = b[i];
        if x != y {
            return x < y;
        }
        i += 1;
    }
    i < b.len()
}

/// Offset of the last `c` among the first `n` characters of `s`, or `-1`
/// where there is none.
pub open spec fn last_index_of(s: Seq<char>, c: char, n: int) -> int
    decreases n,
{
    if n <= 0 || n > s.len() {
        -1
    } else if s[n - 1] == c {
        n - 1
    } else {
        last_index_of(s, c, n - 1)
    }
}

/// What `last_index_of` finds is an occurrence of `c`, and no later one
/// exists below `n`.
pub proof fn lemma_last_index_of(s: Seq<char>, c: char, n: int)
    requires
        0 <= n <= s.len(),
    ensures
        -1 <= last_index_of(s, c, n) < n,
        last_index_of(s, c, n) >= 0 ==> s[last_index_of(s, c, n)] == c,
        forall|k: int| last_index_of(s, c, n) < k < n ==> #[trigger] s[k] != c,
    decreases n,
{
    if n > 0 && s[n - 1] != c {
        lemma_last_index_of(s, c, n - 1);
    }
}

/// Offset of the last `c` in `chars`, if there is one.
pub fn rfind_char(chars: &Vec<char>, c: char) -> (r: Option<usize>)
    ensures
        match r {
            Some(k) => k == last_index_of(chars@, c, chars@.len() as int) && k < chars@.len(),
            None => last_index_of(chars@, c, chars@.len() as int) == -1,
        },
{
    let mut n: usize = chars.len();
    while n > 0
        invariant
            n <= chars@.len(),
            last_index_of(chars@, c, chars@.len() as int) == last_index_of(chars@, c, n as int),
        decreases n,
    {
        if chars[n - 1] == c {
            return Some(n - 1);
        }
        n -= 1;
    }
    None
}

/// Whether `c` occurs in `chars`.
pub fn has_char(chars: &Vec<char>, c: char) -> (r: bool)
    ensures
        r == chars@.contains(c),
{
    let mut i: usize = 0;
    while i < chars.len()
        invariant
            i <= chars@.len(),
            forall|k: int| 0 <= k < i ==> chars@[k] != c,
        decreases chars@.len() - i,
    {
        if chars[i] == c {
            return true;
        }
        i += 1;
    }
    false
}

/// The view of an optional string.
pub open spec fn text(s: Option<String>) -> Option<Seq<char>> {
    match s {
        Some(s) => Some(s@),
        None => None,
    }
}

/// From a common offset on, of two strings that differ in what follows, one
/// comes before the other.
pub proof fn lemma_lex_total_from(a: Seq<char>, b: Seq<char>, i: int)
    requires
        0 <= i <= a.len(),
        i <= b.len(),
        a.take(i) == b.take(i),
    ensures
        lex_lt_from(a, b, i) || lex_lt_from(b, a, i) || a == b,
        !(lex_lt_from(a, b, i) && lex_lt_from(b, a, i)),
    decreases a.len() - i,
{
    if i < a.len() && i < b.len() {
        if a[i] == b[i] {
            assert(a.take(i + 1) =~= a.take(i).push(a[i]));
            assert(b.take(i + 1) =~= b.take(i).push(b[i]));
            lemma_lex_total_from(a, b, i + 1);
        }
    } else if i == a.len() && i == b.len() {
        assert(a.take(i) =~= a);
        assert(b.take(i) =~= b);
    }
}

/// From a common offset on, the order is transitive.
pub proof fn lemma_lex_transitive_from(a: Seq<char>, b: Seq<char>, c: Seq<char>, i: int)
    requires
        0 <= i,
        lex_lt_from(a, b, i),
        lex_lt_from(b, c, i),
    ensures
        lex_lt_from(a, c, i),
    decreases a.len() - i,
{
    if i < a.len() && a[i] == b[i] && b[i] == c[i] {
        lemma_lex_transitive_from(a, b, c, i + 1);
    }
}

/// The lexicographic order is a strict total order: of two different
/// strings exactly one comes first, and none comes before itself.
pub proof fn lemma_lex_total(a: Seq<char>, b: Seq<char>)
    ensures
        lex_lt(a, b) || lex_lt(b, a) || a == b,
        !(lex_lt(a, b) && lex_lt(b, a)),
        a == b ==> !lex_lt(a, b),
{
    assert(a.take(0) =~= b.take(0));
    lemma_lex_total_from(a, b, 0);
    if a == b {
        lemma_lex_total_from(a, a, 0);
    }
}

/// The lexicographic order is transitive.
pub proof fn lemma_lex_transitive(a: Seq<char>, b: Seq<char>, c: Seq<char>)
    requires
        lex_lt(a, b),
        lex_lt(b, c),
    ensures
        lex_lt(a, c),
{
    lemma_lex_transitive_from(a, b, c, 0);
}

} // verus!
