//! What each operation on an entry decides, between the questions it asks
//! the file system and what it then does there.

use vstd::prelude::*;
use vstd::string::*;
use crate::error::{failure, fails_as, outcome, Error, ErrorKind, Outcome};
use crate::name::{
    is_valid_name, note_file_name, note_name_of, renamed_file_name, renamed_name_of,
    validate_name,
};
use crate::parts::{extension_of, parent, parent_of};
use crate::path::{join, joined, paths_equal, same_path};
use crate::text::trimmed;

verus! {

/// What a rename has to do once its new path is known.
#[derive(Clone, Copy, Debug, PartialEq, Eq, Structural)]
pub enum RenameAction {
    /// The new path is the old one: nothing is touched.
    Keep,
    /// The entry moves to the new path.
    Move,
}

/// What a delete has to do.
#[derive(Clone, Copy, Debug, PartialEq, Eq, Structural)]
pub enum DeleteAction {
    /// Remove the directory and all it holds.
    RemoveTree,
    /// Remove the file.
    RemoveFile,
    /// Nothing is there: the delete has already happened.
    Nothing,
}

/// The path of a new folder `name` under `parent`.
pub open spec fn folder_path_of(parent: Seq<char>, name: Seq<char>) -> Outcome {
    if is_valid_name(trimmed(name)) {
        Ok(joined(parent, trimmed(name)))
    } else {
        Err(failure(ErrorKind::InvalidName))
    }
}

/// The path of a new note `name` in `dir`.
pub open spec fn note_path_of(dir: Seq<char>, name: Seq<char>) -> Outcome {
    match note_name_of(name) {
        Some(file) => Ok(joined(dir, file)),
        None => Err(failure(ErrorKind::InvalidName)),
    }
}

/// The path that the entry at `target` gets when it is renamed to
/// `new_name`: its new name, in the directory it is in. A target without a
/// last component is refused before the name is looked at.
pub open spec fn renamed_path_of(target: Seq<char>, new_name: Seq<char>, is_file: bool) -> Outcome {
    match parent_of(target) {
        None => Err(failure(ErrorKind::InvalidPath)),
        Some(dir) => match renamed_name_of(new_name, extension_of(target), is_file) {
            Some(file) => Ok(joined(dir, file)),
            None => Err(failure(ErrorKind::InvalidName)),
        },
    }
}

/// A root can be listed only if it exists and is a directory.
pub fn require_directory(found: bool, is_dir: bool) -> (r: Result<(), Error>)
    ensures
        r is Ok <==> found && is_dir,
        r matches Err(e) ==> fails_as(e, ErrorKind::RootNotFound),
{
    if found && is_dir {
        Ok(())
    } else {
        Err(Error::of(ErrorKind::RootNotFound))
    }
}

/// Nothing may be created where something exists.
pub fn ensure_vacant(found: bool) -> (r: Result<(), Error>)
    ensures
        r is Ok <==> !found,
        r matches Err(e) ==> fails_as(e, ErrorKind::AlreadyExists),
{
    if found {
        Err(Error::of(ErrorKind::AlreadyExists))
    } else {
        Ok(())
    }
}

/// The path of a new folder `name` under the resolved directory `parent`.
pub fn folder_path(parent: &str, name: &str) -> (r: Result<String, Error>)
    ensures
        outcome(r) == folder_path_of(parent@, name@),
{
    match validate_name(name) {
        Ok(t) => Ok(join(parent, t.as_str())),
        Err(e) => Err(e),
    }
}

/// The path of a new note `name` in the resolved directory `dir`.
pub fn note_path(dir: &str, name: &str) -> (r: Result<String, Error>)
    ensures
        outcome(r) == note_path_of(dir@, name@),
{
    match note_file_name(name) {
        Ok(file) => Ok(join(dir, file.as_str())),
        Err(e) => Err(e),
    }
}

/// The path that the entry at the resolved path `target` gets when it is
/// renamed to `new_name`; `is_file` says whether the entry is a file.
pub fn renamed_path(target: &str, new_name: &str, is_file: bool) -> (r: Result<String, Error>)
    ensures
        outcome(r) == renamed_path_of(target@, new_name@, is_file),
{
    let dir = match parent(target) {
        Some(dir) => dir,
        None => {
            return Err(Error::of(ErrorKind::InvalidPath));
        },
    };
    match renamed_file_name(new_name, target, is_file) {
        Ok(file) => Ok(join(dir.as_str(), file.as_str())),
        Err(e) => Err(e),
    }
}

/// What a rename from `target` to `new_path` has to do; `new_found` says
/// whether something is at `new_path`. A rename onto the same path keeps
/// everything as it is, whatever is there; any other rename needs the new path
/// to be free, and has no action where it is not.
pub open spec fn rename_action_of(target: Seq<char>, new_path: Seq<char>, new_found: bool) -> Option<
    RenameAction,
> {
    if same_path(new_path, target) {
        Some(RenameAction::Keep)
    } else if new_found {
        None
    } else {
        Some(RenameAction::Move)
    }
}

/// What a rename from `target` to `new_path` has to do; `new_found` says
/// whether something is at `new_path`.
pub fn rename_action(target: &str, new_path: &str, new_found: bool) -> (r: Result<RenameAction, Error>)
    ensures
        match r {
            Ok(a) => rename_action_of(target@, new_path@, new_found) == Some(a),
            Err(e) => rename_action_of(target@, new_path@, new_found) is None && fails_as(
                e,
                ErrorKind::AlreadyExists,
            ),
        },
{
    if paths_equal(new_path, target) {
        Ok(RenameAction::Keep)
    } else if new_found {
        Err(Error::of(ErrorKind::AlreadyExists))
    } else {
        Ok(RenameAction::Move)
    }
}

/// What a delete has to do; `is_dir` and `found` say what is at the path.
/// Where nothing is there, nothing is done and the delete succeeds.
pub fn delete_action(is_dir: bool, found: bool) -> (a: DeleteAction)
    ensures
        a == if is_dir {
            DeleteAction::RemoveTree
        } else if found {
            DeleteAction::RemoveFile
        } else {
            DeleteAction::Nothing
        },
{
    if is_dir {
        DeleteAction::RemoveTree
    } else if found {
        DeleteAction::RemoveFile
    } else {
        DeleteAction::Nothing
    }
}

} // verus!
