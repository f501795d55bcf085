//! The rules for the names that a user types for a new folder, a new note
//! or a rename.

use vstd::prelude::*;
use vstd::string::*;
use crate::error::{failure, outcome, Error, ErrorKind};
use crate::parts::{extension, extension_of};
use crate::path::{is_name, is_parent_ref};
use crate::text::{chars_of, has_char, last_index_of, rfind_char, trim, trim_range, trimmed};

verus! {

/// Whether `t`, already trimmed, can name one entry of a directory: it is
/// not empty, holds neither `/` nor `\`, and is neither `.` nor `..`.
pub open spec fn is_valid_name(t: Seq<char>) -> bool {
    is_name(t) && !is_parent_ref(t) && !t.contains('/') && !t.contains('\\')
}

/// `t` up to its last `.`, or all of `t` where it has none.
pub open spec fn without_extension(t: Seq<char>) -> Seq<char> {
    let dot = last_index_of(t, '.', t.len() as int);
    if dot < 0 {
        t
    } else {
        t.take(dot)
    }
}

/// Whether `t` holds anything but whitespace.
pub open spec fn is_blank(t: Seq<char>) -> bool {
    trimmed(t).len() == 0
}

/// The file name of a new note asked for as `name`: the trimmed name, its
/// extension cut off, with `.md` in its place. `None` where the trimmed name
/// is not valid or nothing but whitespace is left of it.
pub open spec fn note_name_of(name: Seq<char>) -> Option<Seq<char>> {
    let t = trimmed(name);
    let base = without_extension(t);
    if is_valid_name(t) && !is_blank(base) {
        Some(base + ".md"@)
    } else {
        None
    }
}

/// The name that an entry gets when it is renamed to `new_name`. A directory
/// takes the trimmed name as it is. A file takes it without its extension
/// and keeps the extension it had, `old_extension`, if that is not empty.
/// `None` where the trimmed name is not valid or nothing but whitespace is
/// left of it.
pub open spec fn renamed_name_of(
    new_name: Seq<char>,
    old_extension: Option<Seq<char>>,
    is_file: bool,
) -> Option<Seq<char>> {
    let t = trimmed(new_name);
    let base = if is_file {
        without_extension(t)
    } else {
        t
    };
    if !is_valid_name(t) || is_blank(base) {
        None
    } else if is_file && old_extension is Some && old_extension->0.len() > 0 {
        Some(base.push('.') + old_extension->0)
    } else {
        Some(base)
    }
}

fn invalid_name() -> (e: Error)
    ensures
        e.kind == ErrorKind::InvalidName,
        e.detail@ == Seq::<char>::empty(),
{
    Error::of(ErrorKind::InvalidName)
}

/// The trimmed form of `name` where that is a valid name, `InvalidName`
/// where it is not.
pub fn validate_name(name: &str) -> (r: Result<String, Error>)
    ensures
        outcome(r) == if is_valid_name(trimmed(name@)) {
            Ok(trimmed(name@))
        } else {
            Err(failure(ErrorKind::InvalidName))
        },
{
    let t = trim(name);
    let chars = chars_of(t.as_str());
    let n = chars.len();
    if n == 0 || has_char(&chars, '/') || has_char(&chars, '\\') {
        return Err(invalid_name());
    }
    if chars[0] == '.' && (n == 1 || (n == 2 && chars[1] == '.')) {
        return Err(invalid_name());
    }
    Ok(t)
}

/// `t` up to its last `.`, where nothing but whitespace is not all that is
/// left; `InvalidName` otherwise.
fn strip_extension(t: &str) -> (r: Result<String, Error>)
    ensures
        outcome(r) == if is_blank(without_extension(t@)) {
            Err(failure(ErrorKind::InvalidName))
        } else {
            Ok(without_extension(t@))
        },
{
    let chars = chars_of(t);
    let base = match rfind_char(&chars, '.') {
        Some(dot) => String::from_str(t.substring_char(0, dot)),
        None => String::from_str(t),
    };
    check_not_blank(base)
}

/// `base` itself unless it holds nothing but whitespace.
fn check_not_blank(base: String) -> (r: Result<String, Error>)
    ensures
        outcome(r) == if is_blank(base@) {
            Err(failure(ErrorKind::InvalidName))
        } else {
            Ok(base@)
        },
{
    let chars = chars_of(base.as_str());
    let (a, b) = trim_range(&chars);
    if a == b {
        Err(invalid_name())
    } else {
        Ok(base)
    }
}

/// The file name of a new note asked for as `name`.
pub fn note_file_name(name: &str) -> (r: Result<String, Error>)
    ensures
        outcome(r) == match note_name_of(name@) {
            Some(file) => Ok(file),
            None => Err(failure(ErrorKind::InvalidName)),
        },
{
    let t = match validate_name(name) {
        Ok(t) => t,
        Err(e) => {
            return Err(e);
        },
    };
    match strip_extension(t.as_str()) {
        Ok(base) => Ok(base.concat(".md")),
        Err(e) => Err(e),
    }
}

/// The name that the entry at `target` gets when it is renamed to
/// `new_name`; `is_file` says whether the entry is a file.
pub fn renamed_file_name(new_name: &str, target: &str, is_file: bool) -> (r: Result<String, Error>)
    ensures
        outcome(r) == match renamed_name_of(new_name@, extension_of(target@), is_file) {
            Some(file) => Ok(file),
            None => Err(failure(ErrorKind::InvalidName)),
        },
{
    let t = match validate_name(new_name) {
        Ok(t) => t,
        Err(e) => {
            return Err(e);
        },
    };
    if !is_file {
        return check_not_blank(t);
    }
    let base = match strip_extension(t.as_str()) {
        Ok(base) => base,
        Err(e) => {
            return Err(e);
        },
    };
    match extension(target) {
        Some(ext) => {
            if ext.as_str().is_empty() {
                Ok(base)
            } else {
                proof {
                    reveal_strlit(".");
                    assert(base@ + "."@ =~= base@.push('.'));
                }
                Ok(base.concat(".").concat(ext.as_str()))
            }
        },
        None => Ok(base),
    }
}

} // verus!
