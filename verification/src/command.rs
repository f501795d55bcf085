//! The commands of the notebook, carried out one question at a time.
//!
//! A command never touches the file system. It starts with [`begin`], which
//! gives a [`Step`]: a question to ask the file system, something to do
//! there, or the end. Each step that is not the end carries what is needed to
//! go on once the answer is known. The caller asks or does what the step
//! says and resumes with what came of it, until the step is
//! [`Step::Finished`].

use vstd::prelude::*;
use vstd::string::*;
use crate::error::{failure, outcome, Error, ErrorKind, Outcome};
use crate::ops::{
    delete_action, ensure_vacant, folder_path, folder_path_of, note_path, note_path_of,
    rename_action, rename_action_of, renamed_path, renamed_path_of, require_directory,
    DeleteAction, RenameAction,
};
use crate::path::{
    has_parent_component, has_parent_ref, is_absolute, join, joined, lemma_joined_parent_ref,
    paths_equal, same_path,
};
use crate::resolver::{resolution, safe_join, Probe};
use crate::tree::{build_tree, entry_models, listing, node_models, Entry, Node};

verus! {

/// What the front end asks for.
#[derive(Debug)]
pub enum Command {
    ListTree { root: String },
    ReadNote { root: String, path: String },
    WriteNote { root: String, path: String, content: String },
    CreateFolder { root: String, parent: String, name: String },
    CreateNote { root: String, dir: String, name: String },
    RenamePath { root: String, path: String, new_name: String },
    DeletePath { root: String, path: String },
}

/// What is at a path, symbolic links followed.
#[derive(Clone, Copy, Debug, PartialEq, Eq, Structural)]
pub enum Kind {
    Missing,
    File,
    Directory,
    /// Something that is neither a file nor a directory.
    Other,
}

/// What is to be created.
#[derive(Clone, Copy, Debug, PartialEq, Eq, Structural)]
pub enum Make {
    Folder,
    Note,
}

/// Something to do on the file system.
#[derive(Debug)]
pub enum Effect {
    /// Create this directory; its parent exists.
    CreateDir(String),
    /// Create this directory and every missing one above it.
    CreateDirAll(String),
    /// Create this file, empty.
    CreateFile(String),
    /// Create or truncate the file and write the content to it.
    WriteFile(String, String),
    /// Move the entry at the first path to the second.
    Rename(String, String),
    /// Remove this directory and all it holds.
    RemoveTree(String),
    /// Remove this file.
    RemoveFile(String),
}

/// Why something could not be done, in the system's words.
#[derive(Debug)]
pub enum Failure {
    /// It could not be begun: the file could not be opened or created.
    Refused(String),
    /// It was begun and broke off: reading or writing failed.
    Interrupted(String),
}

/// What a command gives back.
#[derive(Debug)]
pub enum Reply {
    Tree(Vec<Node>),
    Content(String),
    Path(String),
    Done,
}

/// How to go on once the canonical form of a path is known.
#[derive(Debug)]
pub enum AfterProbe {
    /// The root of a tree to list was asked for.
    ListRoot { root: String },
    /// The root that the command's path must stay under was asked for.
    Root { command: Command },
    /// The command's path, joined onto the canonical root, was asked for.
    Target { root: String, command: Command },
}

/// How to go on once it is known what is at a path.
#[derive(Debug)]
pub enum AfterKind {
    /// The root of a tree to list was looked at.
    ListRoot { dir: String },
    /// The place of something to create was looked at.
    Vacant { path: String, make: Make },
    /// The entry to rename was looked at.
    RenameTarget { target: String, new_name: String },
    /// The place that a renamed entry moves to was looked at.
    RenameVacant { target: String, new_path: String },
    /// The entry to delete was looked at.
    DeleteTarget { target: String },
}

/// How to go on once something was done.
#[derive(Debug)]
pub enum AfterEffect {
    /// The folder or note at `path` was created.
    Made { path: String, make: Make },
    /// The directory that a new note goes into was made sure of.
    Ensured { dir: String, name: String },
    Written,
    Moved { new_path: String },
    Removed,
}

/// What to do next.
#[derive(Debug)]
pub enum Step {
    /// Ask for the canonical form of the path.
    Canonicalize(String, AfterProbe),
    /// Ask what is at the path.
    Inspect(String, AfterKind),
    /// Do this.
    Perform(Effect, AfterEffect),
    /// Read the file as text and end with [`finish_read`].
    ReadFile(String),
    /// Read everything below the directory and end with [`finish_tree`].
    ReadTree(String),
    /// The command has ended.
    Finished(Result<Reply, Error>),
}

impl Command {
    /// The root that the command names.
    pub open spec fn root(self) -> Seq<char> {
        match self {
            Command::ListTree { root } => root@,
            Command::ReadNote { root, .. } => root@,
            Command::WriteNote { root, .. } => root@,
            Command::CreateFolder { root, .. } => root@,
            Command::CreateNote { root, .. } => root@,
            Command::RenamePath { root, .. } => root@,
            Command::DeletePath { root, .. } => root@,
        }
    }

    /// The path, relative to the root, that the command names. A listing
    /// names the root itself.
    pub open spec fn target(self) -> Seq<char> {
        match self {
            Command::ListTree { .. } => Seq::<char>::empty(),
            Command::ReadNote { path, .. } => path@,
            Command::WriteNote { path, .. } => path@,
            Command::CreateFolder { parent, .. } => parent@,
            Command::CreateNote { dir, .. } => dir@,
            Command::RenamePath { path, .. } => path@,
            Command::DeletePath { path, .. } => path@,
        }
    }

    fn root_text(&self) -> (r: &str)
        ensures
            r@ == self.root(),
    {
        match self {
            Command::ListTree { root } => root.as_str(),
            Command::ReadNote { root, .. } => root.as_str(),
            Command::WriteNote { root, .. } => root.as_str(),
            Command::CreateFolder { root, .. } => root.as_str(),
            Command::CreateNote { root, .. } => root.as_str(),
            Command::RenamePath { root, .. } => root.as_str(),
            Command::DeletePath { root, .. } => root.as_str(),
        }
    }

    fn target_text(&self) -> (r: &str)
        ensures
            r@ == self.target(),
    {
        match self {
            Command::ListTree { .. } => {
                proof {
                    reveal_strlit("");
                    assert(""@ =~= Seq::<char>::empty());
                }
                ""
            },
            Command::ReadNote { path, .. } => path.as_str(),
            Command::WriteNote { path, .. } => path.as_str(),
            Command::CreateFolder { parent, .. } => parent.as_str(),
            Command::CreateNote { dir, .. } => dir.as_str(),
            Command::RenamePath { path, .. } => path.as_str(),
            Command::DeletePath { path, .. } => path.as_str(),
        }
    }
}

/// Whether `step` ends the command with `failure`.
pub open spec fn fails(step: Step, failure: (ErrorKind, Seq<char>)) -> bool {
    step matches Step::Finished(Err(e)) && e.kind == failure.0 && e.detail@ == failure.1
}

/// Whether `step` ends the command with the path `path`.
pub open spec fn gives_path(step: Step, path: Seq<char>) -> bool {
    step matches Step::Finished(Ok(Reply::Path(p))) && p@ == path
}

/// Whether `step` ends the command with nothing to give back.
pub open spec fn gives_nothing(step: Step) -> bool {
    step matches Step::Finished(Ok(Reply::Done))
}

fn finished_with(kind: ErrorKind, detail: &str) -> (step: Step)
    ensures
        fails(step, (kind, detail@)),
{
    Step::Finished(Err(Error::with_detail(kind, detail)))
}

fn finished_as(e: Error) -> (step: Step)
    ensures
        fails(step, (e.kind, e.detail@)),
{
    Step::Finished(Err(e))
}

/// The first step of `command`: the root is made canonical.
pub fn begin(command: Command) -> (step: Step)
    ensures
        match command {
            Command::ListTree { root } => step matches Step::Canonicalize(
                p,
                AfterProbe::ListRoot { root: r },
            ) && p@ == root@ && r@ == root@,
            _ => step matches Step::Canonicalize(p, AfterProbe::Root { command: c }) && p@
                == command.root() && c == command,
        },
{
    let path = String::from_str(command.root_text());
    match command {
        Command::ListTree { root } => Step::Canonicalize(path, AfterProbe::ListRoot { root }),
        _ => Step::Canonicalize(path, AfterProbe::Root { command }),
    }
}

/// Whether `step` is what follows once the place of something to create is
/// known: a look at the place, or the failure that kept it from being known.
pub open spec fn creates(place: Outcome, make: Make, step: Step) -> bool {
    match place {
        Ok(path) => step matches Step::Inspect(p, AfterKind::Vacant { path: q, make: m }) && p@
            == path && q@ == path && m == make,
        Err(f) => fails(step, f),
    }
}

/// Whether `step` is what `command` does first with the path that its
/// target resolved to.
pub open spec fn proceeds(command: Command, path: Seq<char>, step: Step) -> bool {
    match command {
        Command::ListTree { .. } => step matches Step::Inspect(p, AfterKind::ListRoot { dir })
            && p@ == path && dir@ == path,
        Command::ReadNote { .. } => step matches Step::ReadFile(p) && p@ == path,
        Command::WriteNote { content, .. } => step matches Step::Perform(
            Effect::WriteFile(p, c),
            AfterEffect::Written,
        ) && p@ == path && c@ == content@,
        Command::CreateFolder { name, .. } => creates(
            folder_path_of(path, name@),
            Make::Folder,
            step,
        ),
        Command::CreateNote { name, .. } => step matches Step::Perform(
            Effect::CreateDirAll(p),
            AfterEffect::Ensured { dir, name: n },
        ) && p@ == path && dir@ == path && n@ == name@,
        Command::RenamePath { new_name, .. } => step matches Step::Inspect(
            p,
            AfterKind::RenameTarget { target, new_name: n },
        ) && p@ == path && target@ == path && n@ == new_name@,
        Command::DeletePath { .. } => step matches Step::Inspect(
            p,
            AfterKind::DeleteTarget { target },
        ) && p@ == path && target@ == path,
    }
}

/// Whether `step` is what follows `then` once the file system has answered
/// with `probe`.
///
/// A root that cannot be made canonical ends the command. The command's
/// path is joined onto the canonical root and refused if it holds a `..`
/// component, before the file system is asked anything about it. Once it
/// has been asked, the path resolves or the command ends.
pub open spec fn after_probe(then: AfterProbe, probe: Probe, step: Step) -> bool {
    match then {
        AfterProbe::ListRoot { root } => {
            let dir = match probe {
                Probe::Canonical(c) => c@,
                _ => root@,
            };
            step matches Step::Inspect(p, AfterKind::ListRoot { dir: d }) && p@ == dir && d@ == dir
        },
        AfterProbe::Root { command } => match probe {
            Probe::Canonical(root) => {
                let path = joined(root@, command.target());
                if has_parent_ref(path) {
                    fails(step, failure(ErrorKind::InvalidPath))
                } else {
                    step matches Step::Canonicalize(p, AfterProbe::Target { root: r, command: c })
                        && p@ == path && r@ == root@ && c == command
                }
            },
            Probe::Absent => fails(step, failure(ErrorKind::InvalidRoot)),
            Probe::Unreadable(detail) => fails(step, (ErrorKind::InvalidRoot, detail@)),
        },
        AfterProbe::Target { root, command } => match resolution(
            root@,
            command.target(),
            probe,
        ) {
            Ok(path) => proceeds(command, path, step),
            Err(f) => fails(step, f),
        },
    }
}

/// Whether `step` is what follows `then` once it is known that `kind` is at
/// the path.
///
/// Only a directory is listed. Nothing is created or moved to where
/// something is. A rename that leads to the path the entry is at ends at
/// once and gives that path. A delete of what is missing ends at once and
/// succeeds.
pub open spec fn after_kind(then: AfterKind, kind: Kind, step: Step) -> bool {
    match then {
        AfterKind::ListRoot { dir } => if kind == Kind::Directory {
            step matches Step::ReadTree(d) && d@ == dir@
        } else {
            fails(step, failure(ErrorKind::RootNotFound))
        },
        AfterKind::Vacant { path, make } => if kind == Kind::Missing {
            step matches Step::Perform(effect, AfterEffect::Made { path: q, make: m }) && q@
                == path@ && m == make && match make {
                Make::Folder => effect matches Effect::CreateDir(p) && p@ == path@,
                Make::Note => effect matches Effect::CreateFile(p) && p@ == path@,
            }
        } else {
            fails(step, failure(ErrorKind::AlreadyExists))
        },
        AfterKind::RenameTarget { target, new_name } => match renamed_path_of(
            target@,
            new_name@,
            kind == Kind::File,
        ) {
            Ok(new_path) => if same_path(new_path, target@) {
                gives_path(step, new_path)
            } else {
                step matches Step::Inspect(p, AfterKind::RenameVacant { target: t, new_path: q })
                    && p@ == new_path && t@ == target@ && q@ == new_path
            },
            Err(f) => fails(step, f),
        },
        AfterKind::RenameVacant { target, new_path } => match rename_action_of(
            target@,
            new_path@,
            kind != Kind::Missing,
        ) {
            Some(RenameAction::Keep) => gives_path(step, new_path@),
            Some(RenameAction::Move) => step matches Step::Perform(
                Effect::Rename(a, b),
                AfterEffect::Moved { new_path: q },
            ) && a@ == target@ && b@ == new_path@ && q@ == new_path@,
            None => fails(step, failure(ErrorKind::AlreadyExists)),
        },
        AfterKind::DeleteTarget { target } => match kind {
            Kind::Directory => step matches Step::Perform(
                Effect::RemoveTree(p),
                AfterEffect::Removed,
            ) && p@ == target@,
            Kind::Missing => gives_nothing(step),
            _ => step matches Step::Perform(Effect::RemoveFile(p), AfterEffect::Removed) && p@
                == target@,
        },
    }
}

/// The system's words in `f`.
pub open spec fn words(f: Failure) -> Seq<char> {
    match f {
        Failure::Refused(detail) => detail@,
        Failure::Interrupted(detail) => detail@,
    }
}

/// The kind of failure that creating a `make` ends with.
pub open spec fn make_failure(make: Make) -> ErrorKind {
    match make {
        Make::Folder => ErrorKind::MkdirFailed,
        Make::Note => ErrorKind::CreateFailed,
    }
}

/// Whether `step` is what follows `then` once the file system has done, or
/// failed to do, what it was told.
pub open spec fn after_effect(then: AfterEffect, done: Result<(), Failure>, step: Step) -> bool {
    match then {
        AfterEffect::Made { path, make } => match done {
            Ok(_) => gives_path(step, path@),
            Err(f) => fails(step, (make_failure(make), words(f))),
        },
        AfterEffect::Ensured { dir, name } => match done {
            Ok(_) => creates(note_path_of(dir@, name@), Make::Note, step),
            Err(f) => fails(step, (ErrorKind::CreateFailed, words(f))),
        },
        AfterEffect::Written => match done {
            Ok(_) => gives_nothing(step),
            Err(Failure::Refused(detail)) => fails(step, (ErrorKind::CreateFailed, detail@)),
            Err(Failure::Interrupted(detail)) => fails(step, (ErrorKind::WriteFailed, detail@)),
        },
        AfterEffect::Moved { new_path } => match done {
            Ok(_) => gives_path(step, new_path@),
            Err(f) => fails(step, (ErrorKind::RenameFailed, words(f))),
        },
        AfterEffect::Removed => match done {
            Ok(_) => gives_nothing(step),
            Err(f) => fails(step, (ErrorKind::DeleteFailed, words(f))),
        },
    }
}

fn words_of(f: &Failure) -> (r: &str)
    ensures
        r@ == words(*f),
{
    match f {
        Failure::Refused(detail) => detail.as_str(),
        Failure::Interrupted(detail) => detail.as_str(),
    }
}

fn look_at_place(place: Result<String, Error>, make: Make) -> (step: Step)
    ensures
        creates(outcome(place), make, step),
{
    match place {
        Ok(path) => Step::Inspect(path.clone(), AfterKind::Vacant { path, make }),
        Err(e) => finished_as(e),
    }
}

fn proceed(command: Command, path: String) -> (step: Step)
    ensures
        proceeds(command, path@, step),
{
    match command {
        Command::ListTree { .. } => Step::Inspect(path.clone(), AfterKind::ListRoot { dir: path }),
        Command::ReadNote { .. } => Step::ReadFile(path),
        Command::WriteNote { content, .. } => Step::Perform(
            Effect::WriteFile(path, content),
            AfterEffect::Written,
        ),
        Command::CreateFolder { name, .. } => look_at_place(
            folder_path(path.as_str(), name.as_str()),
            Make::Folder,
        ),
        Command::CreateNote { name, .. } => Step::Perform(
            Effect::CreateDirAll(path.clone()),
            AfterEffect::Ensured { dir: path, name },
        ),
        Command::RenamePath { new_name, .. } => Step::Inspect(
            path.clone(),
            AfterKind::RenameTarget { target: path, new_name },
        ),
        Command::DeletePath { .. } => Step::Inspect(
            path.clone(),
            AfterKind::DeleteTarget { target: path },
        ),
    }
}

impl AfterProbe {
    /// The step that follows once the file system has answered with `probe`.
    pub fn resume(self, probe: Probe) -> (step: Step)
        ensures
            after_probe(self, probe, step),
    {
        match self {
            AfterProbe::ListRoot { root } => {
                let dir = match probe {
                    Probe::Canonical(c) => c,
                    _ => root,
                };
                Step::Inspect(dir.clone(), AfterKind::ListRoot { dir })
            },
            AfterProbe::Root { command } => match probe {
                Probe::Canonical(root) => {
                    let path = join(root.as_str(), command.target_text());
                    if has_parent_component(path.as_str()) {
                        finished_as(Error::of(ErrorKind::InvalidPath))
                    } else {
                        Step::Canonicalize(path, AfterProbe::Target { root, command })
                    }
                },
                Probe::Absent => finished_as(Error::of(ErrorKind::InvalidRoot)),
                Probe::Unreadable(detail) => finished_with(ErrorKind::InvalidRoot, detail.as_str()),
            },
            AfterProbe::Target { root, command } => {
                match safe_join(root.as_str(), command.target_text(), &probe) {
                    Ok(path) => proceed(command, path),
                    Err(e) => finished_as(e),
                }
            },
        }
    }
}

impl AfterKind {
    /// The step that follows once it is known that `kind` is at the path.
    pub fn resume(self, kind: Kind) -> (step: Step)
        ensures
            after_kind(self, kind, step),
    {
        let found = kind != Kind::Missing;
        match self {
            AfterKind::ListRoot { dir } => match require_directory(found, kind == Kind::Directory) {
                Ok(_) => Step::ReadTree(dir),
                Err(e) => finished_as(e),
            },
            AfterKind::Vacant { path, make } => match ensure_vacant(found) {
                Ok(_) => {
                    let effect = match make {
                        Make::Folder => Effect::CreateDir(path.clone()),
                        Make::Note => Effect::CreateFile(path.clone()),
                    };
                    Step::Perform(effect, AfterEffect::Made { path, make })
                },
                Err(e) => finished_as(e),
            },
            AfterKind::RenameTarget { target, new_name } => {
                match renamed_path(target.as_str(), new_name.as_str(), kind == Kind::File) {
                    Ok(new_path) => {
                        if paths_equal(new_path.as_str(), target.as_str()) {
                            Step::Finished(Ok(Reply::Path(new_path)))
                        } else {
                            Step::Inspect(
                                new_path.clone(),
                                AfterKind::RenameVacant { target, new_path },
                            )
                        }
                    },
                    Err(e) => finished_as(e),
                }
            },
            AfterKind::RenameVacant { target, new_path } => {
                match rename_action(target.as_str(), new_path.as_str(), found) {
                    Ok(RenameAction::Keep) => Step::Finished(Ok(Reply::Path(new_path))),
                    Ok(RenameAction::Move) => Step::Perform(
                        Effect::Rename(target, new_path.clone()),
                        AfterEffect::Moved { new_path },
                    ),
                    Err(e) => finished_as(e),
                }
            },
            AfterKind::DeleteTarget { target } => {
                match delete_action(kind == Kind::Directory, found) {
                    DeleteAction::RemoveTree => Step::Perform(
                        Effect::RemoveTree(target),
                        AfterEffect::Removed,
                    ),
                    DeleteAction::RemoveFile => Step::Perform(
                        Effect::RemoveFile(target),
                        AfterEffect::Removed,
                    ),
                    DeleteAction::Nothing => Step::Finished(Ok(Reply::Done)),
                }
            },
        }
    }
}

impl AfterEffect {
    /// The step that follows once the file system has done, or failed to
    /// do, what it was told.
    pub fn resume(self, done: Result<(), Failure>) -> (step: Step)
        ensures
            after_effect(self, done, step),
    {
        match self {
            AfterEffect::Made { path, make } => match done {
                Ok(_) => Step::Finished(Ok(Reply::Path(path))),
                Err(f) => match make {
                    Make::Folder => finished_with(ErrorKind::MkdirFailed, words_of(&f)),
                    Make::Note => finished_with(ErrorKind::CreateFailed, words_of(&f)),
                },
            },
            AfterEffect::Ensured { dir, name } => match done {
                Ok(_) => look_at_place(note_path(dir.as_str(), name.as_str()), Make::Note),
                Err(f) => finished_with(ErrorKind::CreateFailed, words_of(&f)),
            },
            AfterEffect::Written => match done {
                Ok(_) => Step::Finished(Ok(Reply::Done)),
                Err(Failure::Refused(detail)) => finished_with(
                    ErrorKind::CreateFailed,
                    detail.as_str(),
                ),
                Err(Failure::Interrupted(detail)) => finished_with(
                    ErrorKind::WriteFailed,
                    detail.as_str(),
                ),
            },
            AfterEffect::Moved { new_path } => match done {
                Ok(_) => Step::Finished(Ok(Reply::Path(new_path))),
                Err(f) => finished_with(ErrorKind::RenameFailed, words_of(&f)),
            },
            AfterEffect::Removed => match done {
                Ok(_) => Step::Finished(Ok(Reply::Done)),
                Err(f) => finished_with(ErrorKind::DeleteFailed, words_of(&f)),
            },
        }
    }
}

/// The end of a command that reads a note: its content, or why it could not
/// be opened or read.
pub fn finish_read(read: Result<String, Failure>) -> (r: Result<Reply, Error>)
    ensures
        match read {
            Ok(text) => r matches Ok(Reply::Content(c)) && c@ == text@,
            Err(Failure::Refused(detail)) => r matches Err(e) && e.kind == ErrorKind::OpenFailed
                && e.detail@ == detail@,
            Err(Failure::Interrupted(detail)) => r matches Err(e) && e.kind
                == ErrorKind::ReadFailed && e.detail@ == detail@,
        },
{
    match read {
        Ok(text) => Ok(Reply::Content(text)),
        Err(Failure::Refused(detail)) => Err(
            Error::with_detail(ErrorKind::OpenFailed, detail.as_str()),
        ),
        Err(Failure::Interrupted(detail)) => Err(
            Error::with_detail(ErrorKind::ReadFailed, detail.as_str()),
        ),
    }
}

/// The end of a command that lists a tree: what the tree shows of the
/// entries that were read, or why they could not be read.
pub fn finish_tree(read: Result<Vec<Entry>, String>) -> (r: Result<Reply, Error>)
    ensures
        match read {
            Ok(entries) => r matches Ok(Reply::Tree(nodes)) && node_models(nodes@) == listing(
                entry_models(entries@),
            ),
            Err(detail) => r matches Err(e) && e.kind == ErrorKind::ReadDirError && e.detail@
                == detail@,
        },
{
    match read {
        Ok(entries) => Ok(Reply::Tree(build_tree(entries))),
        Err(detail) => Err(Error::with_detail(ErrorKind::ReadDirError, detail.as_str())),
    }
}

/// A command whose path holds a `..` component ends as soon as its root is
/// known, as an invalid path: the file system is asked nothing about the
/// path and told to do nothing.
pub proof fn lemma_parent_ref_ends_command(command: Command, root: String, step: Step)
    requires
        has_parent_ref(command.target()),
        after_probe(AfterProbe::Root { command }, Probe::Canonical(root), step),
    ensures
        fails(step, failure(ErrorKind::InvalidPath)),
{
    if !is_absolute(command.target()) {
        lemma_joined_parent_ref(root@, command.target());
    }
}

} // verus!
