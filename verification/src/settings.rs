//! The preferences kept beside the notes of a root.

use vstd::prelude::*;
use vstd::string::*;
use crate::path::{join, joined};

verus! {

/// The preferences of one root.
#[derive(Debug)]
pub struct Settings {
    pub view_mode: String,
    pub show_line_numbers: bool,
    pub relative_line_numbers: bool,
    pub show_config_in_sidebar: bool,
    pub last_note_path: Option<String>,
}

/// What was found where the preferences are kept.
#[derive(Debug)]
pub enum Stored {
    /// No file is there.
    Missing,
    /// A file is there, but it does not hold preferences.
    Invalid,
    /// These preferences were read.
    Valid(Settings),
}

/// Whether `s` holds the preferences of a root that has none of its own yet.
pub open spec fn is_default(s: Settings) -> bool {
    &&& s.view_mode@ == "edit"@
    &&& s.show_line_numbers
    &&& !s.relative_line_numbers
    &&& !s.show_config_in_sidebar
    &&& s.last_note_path is None
}

impl Default for Settings {
    fn default() -> (s: Self)
        ensures
            is_default(s),
    {
        Settings {
            view_mode: String::from_str("edit"),
            show_line_numbers: true,
            relative_line_numbers: false,
            show_config_in_sidebar: false,
            last_note_path: None,
        }
    }
}

/// Where the preferences of `root` are kept.
pub fn config_path(root: &str) -> (out: String)
    ensures
        out@ == joined(root@, "carnet.config.json"@),
{
    join(root, "carnet.config.json")
}

/// The preferences to use, and whether they must be written back: what was
/// read where that is valid, the defaults where nothing or nothing valid was
/// found, which are then written.
pub fn load_or_init_config(stored: Stored) -> (r: (Settings, bool))
    ensures
        match stored {
            Stored::Valid(s) => r.0 == s && !r.1,
            _ => is_default(r.0) && r.1,
        },
{
    match stored {
        Stored::Valid(s) => (s, false),
        _ => (Settings::default(), true),
    }
}

} // verus!
