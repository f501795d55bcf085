use carnet::command::{
    begin, finish_read, finish_tree, AfterEffect, AfterKind, AfterProbe, Command, Effect, Failure,
    Kind, Make, Reply, Step,
};
use carnet::error::{Error, ErrorKind};
use carnet::resolver::Probe;
use carnet::tree::Entry;

fn canonical(path: &str) -> Probe {
    Probe::Canonical(path.to_string())
}

fn asked_canonical(step: Step, path: &str) -> AfterProbe {
    match step {
        Step::Canonicalize(p, then) => {
            assert_eq!(p, path);
            then
        }
        other => panic!("expected a question for the canonical form, got {:?}", other),
    }
}

fn asked_kind(step: Step, path: &str) -> AfterKind {
    match step {
        Step::Inspect(p, then) => {
            assert_eq!(p, path);
            then
        }
        other => panic!("expected a look at the path, got {:?}", other),
    }
}

fn told(step: Step) -> (Effect, AfterEffect) {
    match step {
        Step::Perform(effect, then) => (effect, then),
        other => panic!("expected something to do, got {:?}", other),
    }
}

fn ended(step: Step) -> Result<Reply, Error> {
    match step {
        Step::Finished(result) => result,
        other => panic!("expected the end, got {:?}", other),
    }
}

fn failed(step: Step) -> Error {
    ended(step).unwrap_err()
}

fn gave_path(step: Step) -> String {
    match ended(step) {
        Ok(Reply::Path(path)) => path,
        other => panic!("expected a path, got {:?}", other),
    }
}

/// The step that follows once `target` of `command` has resolved under
/// `/notes` to a path at which nothing or `found` is.
fn resolved(command: Command, joined: &str, found: Probe) -> Step {
    let then = asked_canonical(begin(command), "/home/me/notes");
    let then = asked_canonical(then.resume(canonical("/notes")), joined);
    then.resume(found)
}

fn rename(path: &str, new_name: &str) -> Command {
    Command::RenamePath {
        root: "/home/me/notes".to_string(),
        path: path.to_string(),
        new_name: new_name.to_string(),
    }
}

fn delete(path: &str) -> Command {
    Command::DeletePath { root: "/home/me/notes".to_string(), path: path.to_string() }
}

#[test]
fn a_root_that_cannot_be_resolved_ends_the_command() {
    let then = asked_canonical(begin(delete("a.md")), "/home/me/notes");
    let e = failed(then.resume(Probe::Absent));
    assert_eq!(e.kind, ErrorKind::InvalidRoot);
    assert_eq!(e.message(), "Invalid root");
    let then = asked_canonical(begin(delete("a.md")), "/home/me/notes");
    let e = failed(then.resume(Probe::Unreadable("permission denied".to_string())));
    assert_eq!(e.kind, ErrorKind::InvalidRoot);
    assert_eq!(e.message(), "Invalid root: permission denied");
}

#[test]
fn a_parent_component_ends_the_command_before_the_path_is_looked_up() {
    for target in ["../x", "a/../../etc", ".."] {
        let then = asked_canonical(begin(delete(target)), "/home/me/notes");
        let e = failed(then.resume(canonical("/notes")));
        assert_eq!(e.kind, ErrorKind::InvalidPath);
    }
}

#[test]
fn a_path_that_leaves_the_root_ends_the_command() {
    let e = failed(resolved(delete("link"), "/notes/link", canonical("/etc/passwd")));
    assert_eq!(e.kind, ErrorKind::PathEscapesRoot);
    let then = asked_canonical(begin(delete("/etc/passwd")), "/home/me/notes");
    let then = asked_canonical(then.resume(canonical("/notes")), "/etc/passwd");
    let e = failed(then.resume(canonical("/etc/passwd")));
    assert_eq!(e.kind, ErrorKind::PathEscapesRoot);
}

#[test]
fn listing_reads_the_canonical_root() {
    let command = Command::ListTree { root: "/home/me/notes".to_string() };
    let then = asked_canonical(begin(command), "/home/me/notes");
    let then = asked_kind(then.resume(canonical("/notes")), "/notes");
    match then.resume(Kind::Directory) {
        Step::ReadTree(dir) => assert_eq!(dir, "/notes"),
        other => panic!("expected the tree to be read, got {:?}", other),
    }
}

#[test]
fn listing_falls_back_on_the_root_as_given() {
    let command = Command::ListTree { root: "notes".to_string() };
    let then = asked_canonical(begin(command), "notes");
    let then = asked_kind(then.resume(Probe::Unreadable("no".to_string())), "notes");
    let e = failed(then.resume(Kind::Missing));
    assert_eq!(e.kind, ErrorKind::RootNotFound);
}

#[test]
fn listing_needs_a_directory() {
    for kind in [Kind::Missing, Kind::File, Kind::Other] {
        let command = Command::ListTree { root: "/notes".to_string() };
        let then = asked_canonical(begin(command), "/notes");
        let then = asked_kind(then.resume(canonical("/notes")), "/notes");
        let e = failed(then.resume(kind));
        assert_eq!(e.kind, ErrorKind::RootNotFound);
    }
}

#[test]
fn a_listing_ends_with_the_tree_or_the_failure() {
    let entries = vec![
        Entry { name: "b.md".into(), path: "/notes/b.md".into(), is_dir: false, children: vec![] },
        Entry { name: "x.txt".into(), path: "/notes/x.txt".into(), is_dir: false, children: vec![] },
        Entry { name: "A".into(), path: "/notes/A".into(), is_dir: true, children: vec![] },
    ];
    match finish_tree(Ok(entries)) {
        Ok(Reply::Tree(nodes)) => {
            let names: Vec<&str> = nodes.iter().map(|n| n.name.as_str()).collect();
            assert_eq!(names, vec!["A", "b.md"]);
        }
        other => panic!("expected a tree, got {:?}", other),
    }
    let e = finish_tree(Err("permission denied".to_string())).unwrap_err();
    assert_eq!(e.kind, ErrorKind::ReadDirError);
    assert_eq!(e.message(), "read_dir failed: permission denied");
}

#[test]
fn reading_a_note_reads_the_resolved_file() {
    let command = Command::ReadNote { root: "/home/me/notes".into(), path: "a.md".into() };
    match resolved(command, "/notes/a.md", canonical("/notes/a.md")) {
        Step::ReadFile(path) => assert_eq!(path, "/notes/a.md"),
        other => panic!("expected the file to be read, got {:?}", other),
    }
    match finish_read(Ok("# title".to_string())) {
        Ok(Reply::Content(content)) => assert_eq!(content, "# title"),
        other => panic!("expected the content, got {:?}", other),
    }
    let e = finish_read(Err(Failure::Refused("not found".into()))).unwrap_err();
    assert_eq!(e.kind, ErrorKind::OpenFailed);
    assert_eq!(e.message(), "open failed: not found");
    let e = finish_read(Err(Failure::Interrupted("not text".into()))).unwrap_err();
    assert_eq!(e.kind, ErrorKind::ReadFailed);
    assert_eq!(e.message(), "read failed: not text");
}

#[test]
fn writing_a_note_writes_the_resolved_file() {
    let write = || Command::WriteNote {
        root: "/home/me/notes".into(),
        path: "sub/a.md".into(),
        content: "hello".into(),
    };
    let (effect, then) = told(resolved(write(), "/notes/sub/a.md", Probe::Absent));
    match effect {
        Effect::WriteFile(path, content) => {
            assert_eq!(path, "/notes/sub/a.md");
            assert_eq!(content, "hello");
        }
        other => panic!("expected a write, got {:?}", other),
    }
    assert!(matches!(ended(then.resume(Ok(()))), Ok(Reply::Done)));
    let (_, then) = told(resolved(write(), "/notes/sub/a.md", Probe::Absent));
    let e = failed(then.resume(Err(Failure::Refused("read-only".into()))));
    assert_eq!(e.kind, ErrorKind::CreateFailed);
    let (_, then) = told(resolved(write(), "/notes/sub/a.md", Probe::Absent));
    let e = failed(then.resume(Err(Failure::Interrupted("disk full".into()))));
    assert_eq!(e.kind, ErrorKind::WriteFailed);
    assert_eq!(e.message(), "write failed: disk full");
}

#[test]
fn a_folder_is_created_where_nothing_is() {
    let create = |name: &str| Command::CreateFolder {
        root: "/home/me/notes".into(),
        parent: "sub".into(),
        name: name.into(),
    };
    let step = resolved(create(" ideas "), "/notes/sub", canonical("/notes/sub"));
    let then = asked_kind(step, "/notes/sub/ideas");
    let (effect, then) = told(then.resume(Kind::Missing));
    assert!(matches!(effect, Effect::CreateDir(path) if path == "/notes/sub/ideas"));
    assert_eq!(gave_path(then.resume(Ok(()))), "/notes/sub/ideas");

    let step = resolved(create("ideas"), "/notes/sub", canonical("/notes/sub"));
    let (_, then) = told(asked_kind(step, "/notes/sub/ideas").resume(Kind::Missing));
    let e = failed(then.resume(Err(Failure::Refused("no parent".into()))));
    assert_eq!(e.kind, ErrorKind::MkdirFailed);
    assert_eq!(e.message(), "mkdir failed: no parent");

    for kind in [Kind::File, Kind::Directory, Kind::Other] {
        let step = resolved(create("ideas"), "/notes/sub", canonical("/notes/sub"));
        let e = failed(asked_kind(step, "/notes/sub/ideas").resume(kind));
        assert_eq!(e.kind, ErrorKind::AlreadyExists);
    }
    let e = failed(resolved(create("a/b"), "/notes/sub", canonical("/notes/sub")));
    assert_eq!(e.kind, ErrorKind::InvalidName);
}

#[test]
fn a_note_is_created_after_its_directory() {
    let create = |name: &str| Command::CreateNote {
        root: "/home/me/notes".into(),
        dir: "new/sub".into(),
        name: name.into(),
    };
    let (effect, then) = told(resolved(create("todo.backup"), "/notes/new/sub", Probe::Absent));
    assert!(matches!(effect, Effect::CreateDirAll(path) if path == "/notes/new/sub"));
    let then = asked_kind(then.resume(Ok(())), "/notes/new/sub/todo.md");
    let (effect, then) = told(then.resume(Kind::Missing));
    assert!(matches!(effect, Effect::CreateFile(path) if path == "/notes/new/sub/todo.md"));
    assert_eq!(gave_path(then.resume(Ok(()))), "/notes/new/sub/todo.md");

    let (_, then) = told(resolved(create("todo"), "/notes/new/sub", Probe::Absent));
    let e = failed(then.resume(Err(Failure::Refused("read-only".into()))));
    assert_eq!(e.kind, ErrorKind::CreateFailed);

    let (_, then) = told(resolved(create(".md"), "/notes/new/sub", Probe::Absent));
    let e = failed(then.resume(Ok(())));
    assert_eq!(e.kind, ErrorKind::InvalidName);

    let (_, then) = told(resolved(create("todo"), "/notes/new/sub", Probe::Absent));
    let then = asked_kind(then.resume(Ok(())), "/notes/new/sub/todo.md");
    let e = failed(then.resume(Kind::File));
    assert_eq!(e.kind, ErrorKind::AlreadyExists);

    let (_, then) = told(resolved(create("todo"), "/notes/new/sub", Probe::Absent));
    let then = asked_kind(then.resume(Ok(())), "/notes/new/sub/todo.md");
    let (_, then) = told(then.resume(Kind::Missing));
    let e = failed(then.resume(Err(Failure::Refused("quota".into()))));
    assert_eq!(e.kind, ErrorKind::CreateFailed);
    assert_eq!(e.message(), "create failed: quota");
}

#[test]
fn a_file_is_renamed_with_the_extension_it_has() {
    let step = resolved(rename("notes.md", "draft.txt"), "/notes/notes.md", canonical("/notes/notes.md"));
    let then = asked_kind(step, "/notes/notes.md");
    let then = asked_kind(then.resume(Kind::File), "/notes/draft.md");
    let (effect, then) = told(then.resume(Kind::Missing));
    match effect {
        Effect::Rename(from, to) => {
            assert_eq!(from, "/notes/notes.md");
            assert_eq!(to, "/notes/draft.md");
        }
        other => panic!("expected a rename, got {:?}", other),
    }
    assert_eq!(gave_path(then.resume(Ok(()))), "/notes/draft.md");
}

#[test]
fn a_directory_is_renamed_to_the_name_as_typed() {
    let step = resolved(rename("old", "new.d"), "/notes/old", canonical("/notes/old"));
    let then = asked_kind(step, "/notes/old");
    let then = asked_kind(then.resume(Kind::Directory), "/notes/new.d");
    let (effect, then) = told(then.resume(Kind::Missing));
    assert!(matches!(effect, Effect::Rename(from, to) if from == "/notes/old" && to == "/notes/new.d"));
    let e = failed(then.resume(Err(Failure::Refused("busy".into()))));
    assert_eq!(e.kind, ErrorKind::RenameFailed);
    assert_eq!(e.message(), "rename failed: busy");
}

#[test]
fn a_rename_to_the_same_path_ends_at_once() {
    for new_name in ["notes", "notes.md", "notes.txt", "  notes.backup "] {
        let step = resolved(rename("notes.md", new_name), "/notes/notes.md", canonical("/notes/notes.md"));
        let then = asked_kind(step, "/notes/notes.md");
        assert_eq!(gave_path(then.resume(Kind::File)), "/notes/notes.md");
    }
    let step = resolved(rename("old", "old"), "/notes/old", canonical("/notes/old"));
    let then = asked_kind(step, "/notes/old");
    assert_eq!(gave_path(then.resume(Kind::Directory)), "/notes/old");
}

#[test]
fn a_rename_onto_something_else_is_refused() {
    for kind in [Kind::File, Kind::Directory, Kind::Other] {
        let step = resolved(rename("a.md", "b"), "/notes/a.md", canonical("/notes/a.md"));
        let then = asked_kind(step, "/notes/a.md");
        let then = asked_kind(then.resume(Kind::File), "/notes/b.md");
        let e = failed(then.resume(kind));
        assert_eq!(e.kind, ErrorKind::AlreadyExists);
    }
}

#[test]
fn a_rename_refuses_bad_names_and_paths_without_a_name() {
    let step = resolved(rename("a.md", "x/y"), "/notes/a.md", canonical("/notes/a.md"));
    let e = failed(asked_kind(step, "/notes/a.md").resume(Kind::File));
    assert_eq!(e.kind, ErrorKind::InvalidName);
    let then = asked_canonical(begin(rename("", "x")), "/home/me/notes");
    let then = asked_canonical(then.resume(canonical("/")), "/");
    let then = asked_kind(then.resume(canonical("/")), "/");
    let e = failed(then.resume(Kind::Directory));
    assert_eq!(e.kind, ErrorKind::InvalidPath);
}

#[test]
fn a_directory_is_deleted_with_all_it_holds() {
    let step = resolved(delete("old"), "/notes/old", canonical("/notes/old"));
    let (effect, then) = told(asked_kind(step, "/notes/old").resume(Kind::Directory));
    assert!(matches!(effect, Effect::RemoveTree(path) if path == "/notes/old"));
    assert!(matches!(ended(then.resume(Ok(()))), Ok(Reply::Done)));
}

#[test]
fn a_file_is_deleted() {
    for kind in [Kind::File, Kind::Other] {
        let step = resolved(delete("a.md"), "/notes/a.md", canonical("/notes/a.md"));
        let (effect, then) = told(asked_kind(step, "/notes/a.md").resume(kind));
        assert!(matches!(effect, Effect::RemoveFile(path) if path == "/notes/a.md"));
        let e = failed(then.resume(Err(Failure::Refused("busy".into()))));
        assert_eq!(e.kind, ErrorKind::DeleteFailed);
        assert_eq!(e.message(), "delete failed: busy");
    }
}

#[test]
fn deleting_what_is_missing_succeeds_as_often_as_asked() {
    for _ in 0..2 {
        let step = resolved(delete("gone.md"), "/notes/gone.md", Probe::Absent);
        let then = asked_kind(step, "/notes/gone.md");
        assert!(matches!(ended(then.resume(Kind::Missing)), Ok(Reply::Done)));
    }
}

#[test]
fn what_is_created_is_named_by_its_kind() {
    let made = |make| AfterKind::Vacant { path: "/notes/x".to_string(), make };
    let (effect, _) = told(made(Make::Folder).resume(Kind::Missing));
    assert!(matches!(effect, Effect::CreateDir(_)));
    let (effect, _) = told(made(Make::Note).resume(Kind::Missing));
    assert!(matches!(effect, Effect::CreateFile(_)));
}
