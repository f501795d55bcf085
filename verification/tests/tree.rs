use carnet::tree::{build_tree, is_note, Entry, Node};

fn file(dir: &str, name: &str) -> Entry {
    Entry {
        name: name.to_string(),
        path: format!("{}/{}", dir, name),
        is_dir: false,
        children: Vec::new(),
    }
}

fn folder(dir: &str, name: &str, children: Vec<Entry>) -> Entry {
    Entry { name: name.to_string(), path: format!("{}/{}", dir, name), is_dir: true, children }
}

fn names(nodes: &[Node]) -> Vec<String> {
    nodes.iter().map(|n| n.name.clone()).collect()
}

#[test]
fn notes_are_told_by_their_extension_in_any_case() {
    assert!(is_note("/r/a.md"));
    assert!(is_note("/r/a.MD"));
    assert!(is_note("/r/a.Md"));
    assert!(is_note("/r/a.mD"));
    assert!(is_note("/r/a.b.md"));
    assert!(!is_note("/r/a.txt"));
    assert!(!is_note("/r/a.mdx"));
    assert!(!is_note("/r/a.m"));
    assert!(!is_note("/r/amd"));
    assert!(!is_note("/r/.md"));
    assert!(!is_note("/r/md"));
    assert!(!is_note("/r.md/a"));
}

#[test]
fn files_that_are_not_notes_are_left_out() {
    let entries = vec![file("/r", "a.md"), file("/r", "b.txt"), file("/r", "C.MD")];
    let tree = build_tree(entries);
    assert_eq!(names(&tree), vec!["a.md", "C.MD"]);
    for node in &tree {
        assert!(!node.is_dir);
        assert!(node.children.is_none());
    }
    assert_eq!(tree[0].path, "/r/a.md");
    assert_eq!(tree[1].path, "/r/C.MD");
}

#[test]
fn directories_stand_before_files() {
    let entries = vec![
        file("/r", "alpha.md"),
        folder("/r", "zeta", vec![]),
        file("/r", "Beta.md"),
        folder("/r", "Eta", vec![]),
        folder("/r", "delta", vec![]),
    ];
    let tree = build_tree(entries);
    assert_eq!(names(&tree), vec!["delta", "Eta", "zeta", "alpha.md", "Beta.md"]);
    assert_eq!(
        tree.iter().map(|n| n.is_dir).collect::<Vec<bool>>(),
        vec![true, true, true, false, false]
    );
}

#[test]
fn names_are_compared_in_lowercase() {
    let entries = vec![file("/r", "B.md"), file("/r", "a.md"), file("/r", "É.md"), file("/r", "z.md")];
    let tree = build_tree(entries);
    assert_eq!(names(&tree), vec!["a.md", "B.md", "z.md", "É.md"]);
}

#[test]
fn names_that_differ_only_in_case_keep_their_order() {
    let entries = vec![file("/r", "Note.md"), file("/r", "note.md"), file("/r", "NOTE.md")];
    let tree = build_tree(entries);
    assert_eq!(names(&tree), vec!["Note.md", "note.md", "NOTE.md"]);
    let entries = vec![file("/r", "NOTE.md"), file("/r", "note.md"), file("/r", "Note.md")];
    let tree = build_tree(entries);
    assert_eq!(names(&tree), vec!["NOTE.md", "note.md", "Note.md"]);
}

#[test]
fn empty_directories_are_shown() {
    let entries = vec![folder("/r", "empty", vec![]), folder("/r", "junk", vec![file("/r/junk", "x.txt")])];
    let tree = build_tree(entries);
    assert_eq!(names(&tree), vec!["empty", "junk"]);
    assert_eq!(tree[0].children.as_ref().map(|c| c.len()), Some(0));
    assert_eq!(tree[1].children.as_ref().map(|c| c.len()), Some(0));
}

#[test]
fn every_level_is_filtered_and_sorted() {
    let inner = vec![
        file("/r/docs", "b.md"),
        folder("/r/docs", "old", vec![file("/r/docs/old", "z.MD"), file("/r/docs/old", "y.png")]),
        file("/r/docs", "A.md"),
        file("/r/docs", "skip.rs"),
    ];
    let entries = vec![file("/r", "top.md"), folder("/r", "docs", inner)];
    let tree = build_tree(entries);
    assert_eq!(names(&tree), vec!["docs", "top.md"]);
    let docs = tree[0].children.as_ref().unwrap();
    assert_eq!(names(docs), vec!["old", "A.md", "b.md"]);
    let old = docs[0].children.as_ref().unwrap();
    assert_eq!(names(old), vec!["z.MD"]);
    assert_eq!(old[0].path, "/r/docs/old/z.MD");
    assert!(docs[1].children.is_none());
}

#[test]
fn an_empty_directory_gives_an_empty_tree() {
    assert!(build_tree(Vec::new()).is_empty());
}

#[test]
fn a_directory_named_like_a_note_is_a_directory() {
    let entries = vec![file("/r", "a.md"), folder("/r", "z.md", vec![])];
    let tree = build_tree(entries);
    assert_eq!(names(&tree), vec!["z.md", "a.md"]);
    assert!(tree[0].is_dir);
}
