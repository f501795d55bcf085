//! Resolving a path that a caller supplies against the root it must stay
//! under.
//!
//! The root comes in canonical form, as the file system gave it. The target
//! is joined onto it with [`join`](crate::path::join); what the file system
//! says of the joined path comes in as a [`Probe`]. A
//! [command](crate::command) asks both questions in this order.

use vstd::prelude::*;
use vstd::string::*;
use crate::error::{failure, outcome, Error, ErrorKind, Outcome};
use crate::path::{
    has_parent_component, has_parent_ref, is_absolute, join, joined, lemma_joined_parent_ref,
    lemma_joined_starts_with, path_starts_with, starts_with,
};

verus! {

/// What the file system said of a path.
#[derive(Debug)]
pub enum Probe {
    /// Nothing exists at the path.
    Absent,
    /// The path exists; this is its canonical form, symbolic links resolved.
    Canonical(String),
    /// The path exists, but its canonical form could not be had; this is
    /// what the system said.
    Unreadable(String),
}

/// The path that is held against the root: the canonical form where the path
/// exists, the joined path itself where it does not.
pub open spec fn checked_path(path: Seq<char>, probe: Probe) -> Seq<char> {
    match probe {
        Probe::Canonical(c) => c@,
        _ => path,
    }
}

/// The outcome of a path that is refused as it is written.
pub open spec fn refused() -> Outcome {
    Err(failure(ErrorKind::InvalidPath))
}

/// The outcome of resolving `target` against `root`.
///
/// A `..` component anywhere in the joined path is refused before anything
/// else is looked at. A path that exists must be below the root in its
/// canonical form; one that does not exist, in the form it was written in.
pub open spec fn resolution(root: Seq<char>, target: Seq<char>, probe: Probe) -> Outcome {
    let path = joined(root, target);
    if has_parent_ref(path) {
        refused()
    } else {
        match probe {
            Probe::Unreadable(detail) => Err((ErrorKind::InvalidPath, detail@)),
            _ => if starts_with(checked_path(path, probe), root) {
                Ok(path)
            } else {
                Err(failure(ErrorKind::PathEscapesRoot))
            },
        }
    }
}

/// Resolves `target` against the canonical `root`, given what the file
/// system said of the joined path.
pub fn safe_join(root: &str, target: &str, probe: &Probe) -> (r: Result<String, Error>)
    ensures
        outcome(r) == resolution(root@, target@, *probe),
        r matches Ok(path) ==> !has_parent_ref(path@) && starts_with(
            checked_path(path@, *probe),
            root@,
        ),
{
    let path = join(root, target);
    if has_parent_component(path.as_str()) {
        return Err(Error::of(ErrorKind::InvalidPath));
    }
    let inside = match probe {
        Probe::Absent => path_starts_with(path.as_str(), root),
        Probe::Canonical(c) => path_starts_with(c.as_str(), root),
        Probe::Unreadable(detail) => {
            return Err(Error::with_detail(ErrorKind::InvalidPath, detail.as_str()));
        },
    };
    if inside {
        Ok(path)
    } else {
        Err(Error::of(ErrorKind::PathEscapesRoot))
    }
}

/// Confinement. Whatever the target holds, resolving it either fails, as an
/// invalid or an escaping path, or gives a path without `..` whose checked
/// form lies at or below the root. A target with a `..` component never
/// resolves.
pub proof fn lemma_confinement(root: Seq<char>, target: Seq<char>, probe: Probe)
    ensures
        match resolution(root, target, probe) {
            Ok(path) => path == joined(root, target) && !has_parent_ref(path) && starts_with(
                checked_path(path, probe),
                root,
            ),
            Err(e) => e.0 == ErrorKind::InvalidPath || e.0 == ErrorKind::PathEscapesRoot,
        },
        has_parent_ref(target) ==> resolution(root, target, probe) == refused(),
{
    if !is_absolute(target) {
        lemma_joined_parent_ref(root, target);
    }
}

/// A relative target that does not exist yet resolves exactly when neither
/// it nor the root holds a `..` component, and then to a path that lies at
/// or below the root as it is written.
pub proof fn lemma_new_relative_path(root: Seq<char>, target: Seq<char>)
    requires
        !is_absolute(target),
    ensures
        resolution(root, target, Probe::Absent) == if has_parent_ref(root) || has_parent_ref(
            target,
        ) {
            refused()
        } else {
            Ok(joined(root, target))
        },
        starts_with(joined(root, target), root),
{
    lemma_joined_parent_ref(root, target);
    lemma_joined_starts_with(root, target);
}

} // verus!
