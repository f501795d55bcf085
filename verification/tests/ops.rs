use carnet::error::{Error, ErrorKind};
use carnet::ops::{
    delete_action, ensure_vacant, folder_path, note_path, rename_action, renamed_path,
    require_directory, DeleteAction, RenameAction,
};
use carnet::settings::{config_path, load_or_init_config, Settings, Stored};

#[test]
fn a_root_must_be_a_directory_that_exists() {
    assert!(require_directory(true, true).is_ok());
    for (found, is_dir) in [(true, false), (false, false), (false, true)] {
        let e = require_directory(found, is_dir).unwrap_err();
        assert_eq!(e.kind, ErrorKind::RootNotFound);
        assert_eq!(e.message(), "Root doesn't exist or is not a directory");
    }
}

#[test]
fn nothing_is_created_over_something() {
    assert!(ensure_vacant(false).is_ok());
    let e = ensure_vacant(true).unwrap_err();
    assert_eq!(e.kind, ErrorKind::AlreadyExists);
    assert_eq!(e.message(), "Un fichier ou dossier du même nom existe déjà");
}

#[test]
fn a_new_folder_goes_under_its_parent() {
    assert_eq!(folder_path("/notes", " ideas ").unwrap(), "/notes/ideas");
    assert_eq!(folder_path("/notes/sub/", "v1.0").unwrap(), "/notes/sub/v1.0");
    assert_eq!(folder_path("/notes", "a/b").unwrap_err().kind, ErrorKind::InvalidName);
    assert_eq!(folder_path("/notes", "..").unwrap_err().kind, ErrorKind::InvalidName);
    assert_eq!(folder_path("/notes", "  ").unwrap_err().kind, ErrorKind::InvalidName);
}

#[test]
fn a_new_note_goes_into_its_directory_as_a_note() {
    assert_eq!(note_path("/notes", "todo.backup").unwrap(), "/notes/todo.md");
    assert_eq!(note_path("/notes/sub", "todo").unwrap(), "/notes/sub/todo.md");
    assert_eq!(note_path("/notes", ".md").unwrap_err().kind, ErrorKind::InvalidName);
    assert_eq!(note_path("/notes", "a\\b").unwrap_err().kind, ErrorKind::InvalidName);
}

#[test]
fn a_renamed_file_stays_in_its_directory_with_its_extension() {
    assert_eq!(renamed_path("/notes/sub/notes.md", "draft.txt", true).unwrap(), "/notes/sub/draft.md");
    assert_eq!(renamed_path("/notes/README", "draft.txt", true).unwrap(), "/notes/draft");
    assert_eq!(renamed_path("/notes.md", "draft", true).unwrap(), "/draft.md");
    assert_eq!(renamed_path("notes.md", "draft", true).unwrap(), "draft.md");
}

#[test]
fn a_renamed_directory_stays_in_its_parent() {
    assert_eq!(renamed_path("/notes/old", "new.d", false).unwrap(), "/notes/new.d");
    assert_eq!(renamed_path("/notes/old.d/", "new", false).unwrap(), "/notes/new");
}

#[test]
fn a_rename_needs_a_target_with_a_name() {
    let e = renamed_path("/", "draft", false).unwrap_err();
    assert_eq!(e.kind, ErrorKind::InvalidPath);
    assert_eq!(e.message(), "Invalid path");
    let e = renamed_path("/", "a/b", false).unwrap_err();
    assert_eq!(e.kind, ErrorKind::InvalidPath);
    let e = renamed_path("/notes/a.md", "a/b", true).unwrap_err();
    assert_eq!(e.kind, ErrorKind::InvalidName);
}

#[test]
fn a_rename_onto_itself_touches_nothing() {
    let new_path = renamed_path("/notes/a.md", "a", true).unwrap();
    assert_eq!(new_path, "/notes/a.md");
    assert_eq!(rename_action("/notes/a.md", &new_path, true).unwrap(), RenameAction::Keep);
    assert_eq!(rename_action("/notes/a.md", &new_path, false).unwrap(), RenameAction::Keep);
    let new_path = renamed_path("/notes//a.md", "a.txt", true).unwrap();
    assert_eq!(new_path, "/notes/a.md");
    assert_eq!(rename_action("/notes//a.md", &new_path, true).unwrap(), RenameAction::Keep);
}

#[test]
fn a_rename_needs_a_free_name() {
    assert_eq!(rename_action("/notes/a.md", "/notes/b.md", false).unwrap(), RenameAction::Move);
    let e = rename_action("/notes/a.md", "/notes/b.md", true).unwrap_err();
    assert_eq!(e.kind, ErrorKind::AlreadyExists);
}

#[test]
fn deleting_what_is_not_there_succeeds_every_time() {
    assert_eq!(delete_action(false, false), DeleteAction::Nothing);
    assert_eq!(delete_action(false, false), DeleteAction::Nothing);
    assert_eq!(delete_action(false, true), DeleteAction::RemoveFile);
    assert_eq!(delete_action(true, true), DeleteAction::RemoveTree);
}

#[test]
fn failures_of_the_system_carry_its_words() {
    let cases = [
        (ErrorKind::InvalidRoot, "Invalid root: gone"),
        (ErrorKind::ReadDirError, "read_dir failed: gone"),
        (ErrorKind::OpenFailed, "open failed: gone"),
        (ErrorKind::ReadFailed, "read failed: gone"),
        (ErrorKind::CreateFailed, "create failed: gone"),
        (ErrorKind::WriteFailed, "write failed: gone"),
        (ErrorKind::MkdirFailed, "mkdir failed: gone"),
        (ErrorKind::RenameFailed, "rename failed: gone"),
        (ErrorKind::DeleteFailed, "delete failed: gone"),
    ];
    for (kind, text) in cases {
        let e = Error::with_detail(kind, "gone");
        assert_eq!(e.kind, kind);
        assert_eq!(e.detail, "gone");
        assert_eq!(e.message(), text);
    }
    assert_eq!(Error::of(ErrorKind::PathEscapesRoot).detail, "");
}

#[test]
fn preferences_live_beside_the_notes() {
    assert_eq!(config_path("/notes"), "/notes/carnet.config.json");
    assert_eq!(config_path("/notes/"), "/notes/carnet.config.json");
}

#[test]
fn defaults_stand_in_for_missing_or_broken_preferences() {
    let d = Settings::default();
    assert_eq!(d.view_mode, "edit");
    assert!(d.show_line_numbers);
    assert!(!d.relative_line_numbers);
    assert!(!d.show_config_in_sidebar);
    assert_eq!(d.last_note_path, None);
    for stored in [Stored::Missing, Stored::Invalid] {
        let (s, write_back) = load_or_init_config(stored);
        assert!(write_back);
        assert_eq!(s.view_mode, "edit");
        assert!(s.show_line_numbers);
        assert_eq!(s.last_note_path, None);
    }
}

#[test]
fn valid_preferences_are_used_as_read() {
    let read = Settings {
        view_mode: "preview".to_string(),
        show_line_numbers: false,
        relative_line_numbers: true,
        show_config_in_sidebar: true,
        last_note_path: Some("a.md".to_string()),
    };
    let (s, write_back) = load_or_init_config(Stored::Valid(read));
    assert!(!write_back);
    assert_eq!(s.view_mode, "preview");
    assert!(!s.show_line_numbers);
    assert!(s.relative_line_numbers);
    assert!(s.show_config_in_sidebar);
    assert_eq!(s.last_note_path, Some("a.md".to_string()));
}
