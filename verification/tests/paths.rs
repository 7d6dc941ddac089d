use rcpy::path::{depth, extension, file_name, join, strip_root};
use rcpy::{Entry, EntryKind};

#[test]
fn join_puts_one_separator_between_root_and_relative_path() {
    assert_eq!(join("/dst", "sub/c.txt"), "/dst/sub/c.txt");
    assert_eq!(join("/dst/", "sub/c.txt"), "/dst/sub/c.txt");
    assert_eq!(join("dst", "a"), "dst/a");
}

#[test]
fn join_with_an_empty_side_gives_the_other() {
    assert_eq!(join("/dst", ""), "/dst");
    assert_eq!(join("", "a/b"), "a/b");
    assert_eq!(join("", ""), "");
    assert_eq!(join("/", "a"), "/a");
}

#[test]
fn strip_root_gives_the_path_below_the_root() {
    assert_eq!(strip_root("/src", "/src/sub/c.txt"), Some(String::from("sub/c.txt")));
    assert_eq!(strip_root("/src/", "/src/sub/c.txt"), Some(String::from("sub/c.txt")));
    assert_eq!(strip_root("/", "/etc"), Some(String::from("etc")));
    assert_eq!(strip_root("", "a/b"), Some(String::from("a/b")));
}

#[test]
fn strip_root_of_the_root_itself_is_empty() {
    assert_eq!(strip_root("/src", "/src"), Some(String::new()));
    assert_eq!(strip_root("", ""), Some(String::new()));
}

#[test]
fn strip_root_refuses_what_is_not_below_the_root() {
    assert_eq!(strip_root("/src", "/other/a.txt"), None);
    assert_eq!(strip_root("/src", "/srcx/a.txt"), None);
    assert_eq!(strip_root("/src", "/sr"), None);
    assert_eq!(strip_root("/src", "/src/"), None);
    assert_eq!(strip_root("/src", "/src//a"), None);
    assert_eq!(strip_root("/src/", "/src//a"), None);
    assert_eq!(strip_root("", "/a"), None);
}

#[test]
fn strip_root_undoes_join() {
    for root in ["/src", "/src/", "", "/", "a/b"] {
        for rel in ["", "a", "a/b.txt", "sub/deep/c.tar.gz"] {
            assert_eq!(strip_root(root, &join(root, rel)), Some(String::from(rel)));
        }
    }
}

#[test]
fn join_undoes_strip_root() {
    for (root, path) in [("/src", "/src/a/b"), ("/src/", "/src/a"), ("/src", "/src"), ("", "x/y")] {
        let rel = strip_root(root, path).unwrap();
        assert_eq!(join(root, &rel), path);
        assert!(path.ends_with(&rel));
    }
}

#[test]
fn file_name_is_what_follows_the_last_separator() {
    assert_eq!(file_name("/src/report.pdf"), "report.pdf");
    assert_eq!(file_name("report.pdf"), "report.pdf");
    assert_eq!(file_name("/src/sub/"), "");
    assert_eq!(file_name(""), "");
}

#[test]
fn extension_is_what_follows_the_last_dot_of_the_file_name() {
    assert_eq!(extension("/src/a.txt"), Some(String::from("txt")));
    assert_eq!(extension("/src/archive.tar.gz"), Some(String::from("gz")));
    assert_eq!(extension("/src/Photo.PSD"), Some(String::from("PSD")));
    assert_eq!(extension("/src/name."), Some(String::new()));
    assert_eq!(extension("/src/.profile"), Some(String::from("profile")));
}

#[test]
fn extension_is_absent_without_a_dot_in_the_file_name() {
    assert_eq!(extension("/src/Makefile"), None);
    assert_eq!(extension("/src/v1.2/Makefile"), None);
    assert_eq!(extension("/src/dir.d/"), None);
    assert_eq!(extension(""), None);
}

#[test]
fn depth_counts_the_names_of_a_relative_path() {
    assert_eq!(depth(""), 0);
    assert_eq!(depth("a.txt"), 1);
    assert_eq!(depth("sub/c.txt"), 2);
    assert_eq!(depth("a/b/c/d"), 4);
}

#[test]
fn entry_holds_the_path_seen_from_the_root() {
    let entry = Entry::new("/src", "/src/sub/c.txt", EntryKind::File).unwrap();
    assert_eq!(entry.path(), "/src/sub/c.txt");
    assert_eq!(entry.relative(), "sub/c.txt");
    assert_eq!(entry.kind(), EntryKind::File);
    assert!(!entry.is_dir());
    assert_eq!(entry.depth(), 2);
    assert!(entry.path().ends_with(entry.relative()));
    assert!(entry.relative().len() < entry.path().len());
}

#[test]
fn entry_of_the_root_has_an_empty_relative_path() {
    let root = Entry::new("/src", "/src", EntryKind::Directory).unwrap();
    assert_eq!(root.relative(), "");
    assert_eq!(root.depth(), 0);
    assert!(root.is_dir());
}

#[test]
fn entry_needs_a_root_and_a_path_below_it() {
    assert_eq!(Entry::new("", "a.txt", EntryKind::File), None);
    assert_eq!(Entry::new("", "", EntryKind::Directory), None);
    assert_eq!(Entry::new("/src", "/elsewhere/a.txt", EntryKind::File), None);
    assert_eq!(Entry::new("/src", "/srcx", EntryKind::Directory), None);
}

#[test]
fn entry_clone_is_equal() {
    let entry = Entry::new("/src/", "/src/a.txt", EntryKind::File).unwrap();
    assert_eq!(entry.clone(), entry);
}
