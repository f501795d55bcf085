//! What holds of the paths that the operations compute.

use vstd::prelude::*;
use vstd::string::*;
use crate::agreement::{lemma_file_name_is_name, lemma_parts_are_components, lemma_single_name};
use crate::name::{is_blank, renamed_name_of, without_extension};
use crate::ops::{note_path_of, rename_action_of, renamed_path_of, RenameAction};
use crate::parts::{
    extension_of, file_name_of, lemma_file_name_has_no_separator, lemma_file_name_of_joined,
    lemma_last_index_found, lemma_tail_bounds, name_extension, parent_of,
};
use crate::path::{is_absolute, is_name, lemma_names_joined, names, same_path};
use crate::text::{
    last_index_of, lemma_last_index_of, lemma_skip_whitespace_back, lemma_trimmed, trimmed,
};
use crate::tree::is_note_path;

verus! {

/// The name that a rename gives holds no separator.
pub proof fn lemma_renamed_name_has_no_separator(
    target: Seq<char>,
    new_name: Seq<char>,
    is_file: bool,
)
    requires
        renamed_name_of(new_name, extension_of(target), is_file) is Some,
    ensures
        renamed_name_of(new_name, extension_of(target), is_file)->0.len() > 0,
        !renamed_name_of(new_name, extension_of(target), is_file)->0.contains('/'),
{
    let file = renamed_name_of(new_name, extension_of(target), is_file)->0;
    let t = trimmed(new_name);
    let base = if is_file {
        without_extension(t)
    } else {
        t
    };
    lemma_trimmed(base);
    lemma_last_index_of(t, '.', t.len() as int);
    lemma_file_name_has_no_separator(target);
    assert forall|k: int| 0 <= k < file.len() implies #[trigger] file[k] != '/' by {
        if k < base.len() {
            assert(file[k] == t[k]);
            assert(t.contains(t[k]));
        } else if k > base.len() {
            let old = file_name_of(target)->0;
            let dot = last_index_of(old, '.', old.len() as int);
            lemma_last_index_of(old, '.', old.len() as int);
            assert(file[k] == old[dot + 1 + (k - base.len() - 1)]);
            assert(old.contains(old[dot + 1 + (k - base.len() - 1)]));
        }
    }
}

/// A file that has an extension keeps it through every rename, whatever
/// extension the new name is typed with.
pub proof fn lemma_rename_keeps_extension(target: Seq<char>, new_name: Seq<char>)
    requires
        extension_of(target) matches Some(ext) && ext.len() > 0,
        renamed_path_of(target, new_name, true) is Ok,
    ensures
        extension_of(renamed_path_of(target, new_name, true)->Ok_0) == extension_of(target),
{
    let dir = parent_of(target)->0;
    let old = file_name_of(target)->0;
    let ext = extension_of(target)->0;
    let base = without_extension(trimmed(new_name));
    let file = base.push('.') + ext;
    assert(renamed_name_of(new_name, extension_of(target), true) == Some(file));
    lemma_trimmed(base);
    lemma_renamed_name_has_no_separator(target, new_name, true);
    lemma_file_name_of_joined(dir, file);
    lemma_last_index_of(old, '.', old.len() as int);
    let dot = last_index_of(old, '.', old.len() as int);
    assert forall|k: int| base.len() < k < file.len() implies #[trigger] file[k] != '.' by {
        assert(file[k] == old[dot + 1 + (k - base.len() - 1)]);
    }
    lemma_last_index_found(file, '.', base.len() as int, file.len() as int);
    assert(file.skip(base.len() as int + 1) =~= ext);
}

/// A new note is a note: its file name is the name asked for, cut at its
/// last `.`, with `.md` behind it, so that the tree shows it.
pub proof fn lemma_new_note_is_note(dir: Seq<char>, name: Seq<char>)
    requires
        note_path_of(dir, name) is Ok,
    ensures
        file_name_of(note_path_of(dir, name)->Ok_0) == Some(
            without_extension(trimmed(name)) + ".md"@,
        ),
        extension_of(note_path_of(dir, name)->Ok_0) == Some("md"@),
        is_note_path(note_path_of(dir, name)->Ok_0),
{
    reveal_strlit(".md");
    reveal_strlit("md");
    let t = trimmed(name);
    let base = without_extension(t);
    let file = base + ".md"@;
    lemma_trimmed(base);
    lemma_last_index_of(t, '.', t.len() as int);
    assert forall|k: int| 0 <= k < file.len() implies #[trigger] file[k] != '/' by {
        if k < base.len() {
            assert(file[k] == t[k]);
            assert(t.contains(t[k]));
        }
    }
    assert(!file.contains('/'));
    lemma_file_name_of_joined(dir, file);
    lemma_last_index_found(file, '.', base.len() as int, file.len() as int);
    assert(file.skip(base.len() as int + 1) =~= "md"@);
}

/// A rename keeps an entry in its directory: the new path has the
/// components of the old one with the last replaced by the new name, and a
/// root exactly when the old one has. The one name left out is `.`, which
/// is no component.
pub proof fn lemma_renamed_path_is_sibling(target: Seq<char>, new_name: Seq<char>, is_file: bool)
    requires
        renamed_path_of(target, new_name, is_file) is Ok,
        is_name(renamed_name_of(new_name, extension_of(target), is_file)->0),
    ensures
        names(renamed_path_of(target, new_name, is_file)->Ok_0) == names(target).drop_last().push(
            renamed_name_of(new_name, extension_of(target), is_file)->0,
        ),
        is_absolute(renamed_path_of(target, new_name, is_file)->Ok_0) == is_absolute(target),
{
    let dir = parent_of(target)->0;
    let file = renamed_name_of(new_name, extension_of(target), is_file)->0;
    lemma_renamed_name_has_no_separator(target, new_name, is_file);
    lemma_single_name(file);
    lemma_names_joined(dir, file);
    lemma_parts_are_components(target);
    lemma_tail_bounds(target);
    assert(names(dir) + seq![file] =~= names(dir).push(file));
}

/// Renaming an entry to the name it has leads to the path it is at, so that
/// nothing is touched. This holds of a directory, of a file without a `.`
/// in its name, and of a file with an extension that is not empty.
pub proof fn lemma_rename_to_same_name(target: Seq<char>, is_file: bool, new_found: bool)
    requires
        file_name_of(target) matches Some(old) && trimmed(old) == old && !old.contains('\\') && (
        is_file ==> !old.contains('.') || (name_extension(old) matches Some(ext) && ext.len()
            > 0)),
    ensures
        renamed_path_of(target, file_name_of(target)->0, is_file) matches Ok(path) && same_path(
            path,
            target,
        ) && rename_action_of(target, path, new_found) == Some(RenameAction::Keep),
{
    let old = file_name_of(target)->0;
    let n = old.len() as int;
    lemma_file_name_is_name(target);
    lemma_parts_are_components(target);
    lemma_tail_bounds(target);
    lemma_trimmed(old);
    lemma_last_index_of(old, '.', n);
    let dot = last_index_of(old, '.', n);
    assert(old.subrange(0, n) =~= old);
    if is_file && old.contains('.') {
        let base = old.take(dot);
        let ext = old.skip(dot + 1);
        lemma_trimmed(base);
        assert(base[0] == old[0]);
        assert(!is_blank(base)) by {
            lemma_skip_whitespace_back(base, 0, base.len() as int);
        }
        assert(base.push('.') + ext =~= old);
    } else if is_file {
        if dot >= 0 {
            assert(old.contains(old[dot]));
        }
    }
    assert(renamed_name_of(old, extension_of(target), is_file) == Some(old));
    lemma_renamed_path_is_sibling(target, old, is_file);
    assert(names(target).drop_last().push(old) =~= names(target));
}

} // verus!
