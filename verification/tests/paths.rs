use carnet::error::ErrorKind;
use carnet::parts::{extension, file_name, parent};
use carnet::path::{
    has_parent_component, has_root, join, path_starts_with, paths_equal, split_names,
};
use carnet::resolver::{safe_join, Probe};
use carnet::text::chars_of;

fn components(path: &str) -> Vec<String> {
    split_names(&chars_of(path)).into_iter().map(|name| name.into_iter().collect()).collect()
}

#[test]
fn join_puts_one_separator_between() {
    assert_eq!(join("/notes", "a/b.md"), "/notes/a/b.md");
    assert_eq!(join("/notes/", "a.md"), "/notes/a.md");
    assert_eq!(join("", "a.md"), "a.md");
    assert_eq!(join("/notes", ""), "/notes/");
}

#[test]
fn join_lets_an_absolute_target_replace_the_base() {
    assert_eq!(join("/notes", "/etc/passwd"), "/etc/passwd");
}

#[test]
fn has_root_looks_at_the_first_character() {
    assert!(has_root("/a"));
    assert!(has_root("/"));
    assert!(!has_root("a/b"));
    assert!(!has_root(""));
}

#[test]
fn parent_components_are_found_anywhere() {
    assert!(has_parent_component(".."));
    assert!(has_parent_component("a/../b"));
    assert!(has_parent_component("/notes/a/.."));
    assert!(has_parent_component("/notes//../x"));
    assert!(!has_parent_component("/notes/a..b/c"));
    assert!(!has_parent_component("/notes/.../c"));
    assert!(!has_parent_component("/notes/./c"));
    assert!(!has_parent_component(""));
}

#[test]
fn starts_with_goes_by_components() {
    assert!(path_starts_with("/notes/a/b.md", "/notes"));
    assert!(path_starts_with("/notes", "/notes"));
    assert!(path_starts_with("/notes//a/./b", "/notes/a"));
    assert!(path_starts_with("/notes/a", "/notes/"));
    assert!(!path_starts_with("/notes-old/a", "/notes"));
    assert!(!path_starts_with("/note", "/notes"));
    assert!(!path_starts_with("/", "/notes"));
    assert!(!path_starts_with("notes/a", "/notes"));
    assert!(!path_starts_with("/notes/a", "notes"));
    assert!(path_starts_with("/anything", ""));
    assert!(path_starts_with("/anything", "/"));
}

#[test]
fn equal_paths_may_be_written_differently() {
    assert!(paths_equal("/notes/a.md", "/notes//a.md"));
    assert!(paths_equal("/notes/a/", "/notes/./a"));
    assert!(!paths_equal("/notes/a", "notes/a"));
    assert!(!paths_equal("/notes/a", "/notes/A"));
    assert!(!paths_equal("/notes/a", "/notes/a/b"));
}

#[test]
fn file_name_is_the_last_component() {
    assert_eq!(file_name("/notes/a/b.md"), Some("b.md".to_string()));
    assert_eq!(file_name("/notes/a/"), Some("a".to_string()));
    assert_eq!(file_name("/notes/a/."), Some("a".to_string()));
    assert_eq!(file_name("b.md"), Some("b.md".to_string()));
    assert_eq!(file_name("/notes/.."), None);
    assert_eq!(file_name("/"), None);
    assert_eq!(file_name(""), None);
}

#[test]
fn parent_drops_the_last_component() {
    assert_eq!(parent("/notes/a/b.md"), Some("/notes/a".to_string()));
    assert_eq!(parent("/notes//b.md/"), Some("/notes".to_string()));
    assert_eq!(parent("/notes/./b.md"), Some("/notes".to_string()));
    assert_eq!(parent("/notes"), Some("/".to_string()));
    assert_eq!(parent("notes"), Some("".to_string()));
    assert_eq!(parent("a/b"), Some("a".to_string()));
    assert_eq!(parent("/"), None);
    assert_eq!(parent(""), None);
}

#[test]
fn extension_follows_the_last_dot() {
    assert_eq!(extension("/notes/a.md"), Some("md".to_string()));
    assert_eq!(extension("/notes/a.tar.gz"), Some("gz".to_string()));
    assert_eq!(extension("/notes/a."), Some("".to_string()));
    assert_eq!(extension("/notes/.hidden"), None);
    assert_eq!(extension("/notes/README"), None);
    assert_eq!(extension("/notes.d/README"), None);
    assert_eq!(extension("/notes/.."), None);
    assert_eq!(extension("/"), None);
}

#[test]
fn resolves_a_new_relative_path() {
    let r = safe_join("/notes", "sub/new.md", &Probe::Absent);
    assert_eq!(r.unwrap(), "/notes/sub/new.md");
}

#[test]
fn resolves_an_existing_path_by_its_canonical_form() {
    let probe = Probe::Canonical("/notes/sub/a.md".to_string());
    let r = safe_join("/notes", "sub/a.md", &probe);
    assert_eq!(r.unwrap(), "/notes/sub/a.md");
}

#[test]
fn refuses_parent_components_before_anything_else() {
    for target in ["..", "../x", "a/../../x", "a/..", "sub/../../../etc/passwd"] {
        let e = safe_join("/notes", target, &Probe::Absent).unwrap_err();
        assert_eq!(e.kind, ErrorKind::InvalidPath);
        assert_eq!(e.message(), "Invalid path");
        let inside = Probe::Canonical("/notes/x".to_string());
        let e = safe_join("/notes", target, &inside).unwrap_err();
        assert_eq!(e.kind, ErrorKind::InvalidPath);
    }
}

#[test]
fn refuses_a_link_that_leaves_the_root() {
    let probe = Probe::Canonical("/etc/passwd".to_string());
    let e = safe_join("/notes", "link", &probe).unwrap_err();
    assert_eq!(e.kind, ErrorKind::PathEscapesRoot);
    assert_eq!(e.message(), "Path escapes root");
}

#[test]
fn refuses_an_absolute_target_outside_the_root() {
    let e = safe_join("/notes", "/etc/new", &Probe::Absent).unwrap_err();
    assert_eq!(e.kind, ErrorKind::PathEscapesRoot);
    let probe = Probe::Canonical("/etc/passwd".to_string());
    let e = safe_join("/notes", "/etc/passwd", &probe).unwrap_err();
    assert_eq!(e.kind, ErrorKind::PathEscapesRoot);
}

#[test]
fn accepts_an_absolute_target_inside_the_root() {
    let r = safe_join("/notes", "/notes/a.md", &Probe::Absent);
    assert_eq!(r.unwrap(), "/notes/a.md");
}

#[test]
fn reports_what_the_system_said_of_an_unreadable_path() {
    let probe = Probe::Unreadable("permission denied".to_string());
    let e = safe_join("/notes", "a.md", &probe).unwrap_err();
    assert_eq!(e.kind, ErrorKind::InvalidPath);
    assert_eq!(e.detail, "permission denied");
    assert_eq!(e.message(), "Invalid path: permission denied");
}

#[test]
fn a_sibling_with_the_root_as_prefix_of_its_name_is_outside() {
    let probe = Probe::Canonical("/notes-private/a.md".to_string());
    let e = safe_join("/notes", "link", &probe).unwrap_err();
    assert_eq!(e.kind, ErrorKind::PathEscapesRoot);
}

#[test]
fn components_leave_out_empty_pieces_and_dots() {
    assert_eq!(components("/notes/a/b.md"), vec!["notes", "a", "b.md"]);
    assert_eq!(components("//notes/./a//"), vec!["notes", "a"]);
    assert_eq!(components("a/../b"), vec!["a", "..", "b"]);
    assert_eq!(components("./a"), vec!["a"]);
    assert_eq!(components(".../.a/a."), vec!["...", ".a", "a."]);
    assert!(components("/").is_empty());
    assert!(components("").is_empty());
    assert!(components("/./.").is_empty());
}

#[test]
fn joining_appends_the_components_of_a_relative_target() {
    for (base, target) in [("/notes", "a/b"), ("/notes/", "./a//b"), ("", "a"), ("x/y", "")] {
        let mut expected = components(base);
        expected.extend(components(target));
        assert_eq!(components(&join(base, target)), expected);
        assert!(path_starts_with(&join(base, target), base));
    }
}

#[test]
fn parent_and_file_name_split_the_components() {
    for path in ["/notes/a/b.md", "/notes//a/./b.md/", "a", "/a", "x/y/.", "/notes/a/.."] {
        let all = components(path);
        let dir = parent(path).unwrap();
        assert_eq!(components(&dir), all[..all.len() - 1].to_vec());
        assert_eq!(has_root(&dir), has_root(path));
        if let Some(name) = file_name(path) {
            assert_eq!(&name, all.last().unwrap());
        } else {
            assert_eq!(all.last().unwrap(), "..");
        }
    }
    for path in ["", "/", "//", "/.", "./."] {
        assert!(components(path).is_empty());
        assert_eq!(parent(path), None);
        assert_eq!(file_name(path), None);
    }
}
