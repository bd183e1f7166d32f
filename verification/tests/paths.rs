use mote::paths::{
    extension_of_path, file_name_of, file_stem_of, join, parent_of, path_within, stem,
};
use mote::text::{trimmed, chars_of, find, contains};

#[test]
fn join_relative_and_absolute() {
    assert_eq!(join("/ws", "docs/a.md"), "/ws/docs/a.md");
    assert_eq!(join("/ws/", "docs"), "/ws/docs");
    assert_eq!(join("", "docs"), "docs");
    assert_eq!(join("/ws", "/etc/passwd"), "/etc/passwd");
}

#[test]
fn parents() {
    assert_eq!(parent_of("docs/a.md").as_deref(), Some("docs"));
    assert_eq!(parent_of("docs/sub/a.md").as_deref(), Some("docs/sub"));
    assert_eq!(parent_of("a.md").as_deref(), Some(""));
    assert_eq!(parent_of("/a.md").as_deref(), Some("/"));
    assert_eq!(parent_of("a//b").as_deref(), Some("a"));
    assert_eq!(parent_of("/"), None);
    assert_eq!(parent_of(""), None);
}

#[test]
fn current_directory_at_the_start_is_kept() {
    assert_eq!(parent_of("./a").as_deref(), Some("."));
    assert_eq!(parent_of(".").as_deref(), Some(""));
    assert_eq!(parent_of("a/./b").as_deref(), Some("a"));
    assert_eq!(file_name_of("."), None);
    assert_eq!(file_name_of("./a.md").as_deref(), Some("a.md"));
    assert_eq!(file_name_of("a/.").as_deref(), Some("a"));
    assert!(path_within("./a", "."));
    assert!(!path_within("a", "."));
}

#[test]
fn file_names_stems_extensions() {
    assert_eq!(file_name_of("docs/a.md").as_deref(), Some("a.md"));
    assert_eq!(file_name_of("docs/").as_deref(), Some("docs"));
    assert_eq!(file_name_of("a/.."), None);
    assert_eq!(file_stem_of("docs/a.b.md").as_deref(), Some("a.b"));
    assert_eq!(file_stem_of("notes/.bashrc").as_deref(), Some(".bashrc"));
    assert_eq!(file_stem_of(""), None);
    assert_eq!(extension_of_path("x/y.MD").as_deref(), Some("MD"));
    assert_eq!(extension_of_path("Makefile"), None);
    assert_eq!(extension_of_path(".gitignore"), None);
    assert_eq!(extension_of_path("a."), Some(String::new()));
    assert_eq!(stem("archive.tar.gz"), "archive.tar");
}

#[test]
fn containment_by_components() {
    assert!(path_within("/ws/docs/a.md", "/ws"));
    assert!(path_within("/ws", "/ws"));
    assert!(path_within("/ws/./docs//a", "/ws/"));
    assert!(!path_within("/wsx/a", "/ws"));
    assert!(!path_within("/etc/passwd", "/ws"));
    assert!(!path_within("ws/a", "/ws"));
    assert!(path_within("/anything", ""));
    assert!(path_within("/anything", "/"));
}

#[test]
fn joined_relative_path_stays_within() {
    for (base, rel) in [("/ws", "docs/a.md"), ("/ws/", "x"), ("rel/dir", "a/b"), ("", "z")] {
        assert!(path_within(&join(base, rel), base));
    }
}

#[test]
fn trimming_and_search() {
    assert_eq!(trimmed("\u{a0} hi there\t\n"), "hi there");
    assert_eq!(trimmed("   "), "");
    let s = chars_of("abcabc");
    assert_eq!(find(&s, &chars_of("ca")), Some(2));
    assert_eq!(find(&s, &chars_of("x")), None);
    assert!(contains(&s, &chars_of("")));
}
