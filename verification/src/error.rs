//! The failures that operations report.

use vstd::prelude::*;
use vstd::string::*;

verus! {

/// What went wrong.
#[derive(Clone, Copy, Debug, PartialEq, Eq, Structural)]
pub enum ErrorKind {
    /// The root directory could not be resolved.
    InvalidRoot,
    /// The path holds a `..` component, has no parent, or could not be
    /// resolved although it exists.
    InvalidPath,
    /// The resolved path lies outside the root.
    PathEscapesRoot,
    /// The name is empty, holds a separator, or is `.` or `..`.
    InvalidName,
    /// Something already has the name asked for.
    AlreadyExists,
    /// The root is missing or is not a directory.
    RootNotFound,
    ReadDirError,
    OpenFailed,
    ReadFailed,
    CreateFailed,
    WriteFailed,
    MkdirFailed,
    RenameFailed,
    DeleteFailed,
}

/// A failure: its kind, and what the system said where it said anything.
#[derive(Debug)]
pub struct Error {
    pub kind: ErrorKind,
    pub detail: String,
}

/// The text shown to the user for a failure of `kind` with `detail`.
pub open spec fn message_text(kind: ErrorKind, detail: Seq<char>) -> Seq<char> {
    match kind {
        ErrorKind::InvalidRoot => if detail.len() == 0 {
            "Invalid root"@
        } else {
            "Invalid root: "@ + detail
        },
        ErrorKind::InvalidPath => if detail.len() == 0 {
            "Invalid path"@
        } else {
            "Invalid path: "@ + detail
        },
        ErrorKind::PathEscapesRoot => "Path escapes root"@,
        ErrorKind::InvalidName => "Nom invalide"@,
        ErrorKind::AlreadyExists => "Un fichier ou dossier du même nom existe déjà"@,
        ErrorKind::RootNotFound => "Root doesn't exist or is not a directory"@,
        ErrorKind::ReadDirError => "read_dir failed: "@ + detail,
        ErrorKind::OpenFailed => "open failed: "@ + detail,
        ErrorKind::ReadFailed => "read failed: "@ + detail,
        ErrorKind::CreateFailed => "create failed: "@ + detail,
        ErrorKind::WriteFailed => "write failed: "@ + detail,
        ErrorKind::MkdirFailed => "mkdir failed: "@ + detail,
        ErrorKind::RenameFailed => "rename failed: "@ + detail,
        ErrorKind::DeleteFailed => "delete failed: "@ + detail,
    }
}

impl Error {
    /// A failure of `kind` with nothing more to say.
    pub fn of(kind: ErrorKind) -> (e: Error)
        ensures
            e.kind == kind,
            e.detail@ == Seq::<char>::empty(),
    {
        Error { kind, detail: String::new() }
    }

    /// A failure of `kind` with the system's own words.
    pub fn with_detail(kind: ErrorKind, detail: &str) -> (e: Error)
        ensures
            e.kind == kind,
            e.detail@ == detail@,
    {
        Error { kind, detail: String::from_str(detail) }
    }

    /// The text shown to the user.
    pub fn message(&self) -> (out: String)
        ensures
            out@ == message_text(self.kind, self.detail@),
    {
        let detail = self.detail.as_str();
        match self.kind {
            ErrorKind::InvalidRoot => {
                if detail.is_empty() {
                    String::from_str("Invalid root")
                } else {
                    String::from_str("Invalid root: ").concat(detail)
                }
            },
            ErrorKind::InvalidPath => {
                if detail.is_empty() {
                    String::from_str("Invalid path")
                } else {
                    String::from_str("Invalid path: ").concat(detail)
                }
            },
            ErrorKind::PathEscapesRoot => String::from_str("Path escapes root"),
            ErrorKind::InvalidName => String::from_str("Nom invalide"),
            ErrorKind::AlreadyExists => String::from_str(
                "Un fichier ou dossier du même nom existe déjà",
            ),
            ErrorKind::RootNotFound => String::from_str("Root doesn't exist or is not a directory"),
            ErrorKind::ReadDirError => String::from_str("read_dir failed: ").concat(detail),
            ErrorKind::OpenFailed => String::from_str("open failed: ").concat(detail),
            ErrorKind::ReadFailed => String::from_str("read failed: ").concat(detail),
            ErrorKind::CreateFailed => String::from_str("create failed: ").concat(detail),
            ErrorKind::WriteFailed => String::from_str("write failed: ").concat(detail),
            ErrorKind::MkdirFailed => String::from_str("mkdir failed: ").concat(detail),
            ErrorKind::RenameFailed => String::from_str("rename failed: ").concat(detail),
            ErrorKind::DeleteFailed => String::from_str("delete failed: ").concat(detail),
        }
    }
}

/// What a result stands for: the text of a path, or the kind and detail of
/// a failure.
pub type Outcome = Result<Seq<char>, (ErrorKind, Seq<char>)>;

/// What `r` stands for.
pub open spec fn outcome(r: Result<String, Error>) -> Outcome {
    match r {
        Ok(s) => Ok(s@),
        Err(e) => Err((e.kind, e.detail@)),
    }
}

/// Whether `e` is a failure of `kind` with nothing more to say.
pub open spec fn fails_as(e: Error, kind: ErrorKind) -> bool {
    e.kind == kind && e.detail@ == Seq::<char>::empty()
}

/// A failure of `kind` with nothing more to say.
pub open spec fn failure(kind: ErrorKind) -> (ErrorKind, Seq<char>) {
    (kind, Seq::<char>::empty())
}

} // verus!
