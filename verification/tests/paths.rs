use syncr::paths::{join, parent, strip_base, strip_root};

fn some(s: &str) -> Option<String> {
    Some(s.to_string())
}

#[test]
fn a_path_is_relative_to_itself_and_to_its_ancestors() {
    assert_eq!(strip_root("/tmp/a.txt", "/tmp/a.txt"), some(""));
    assert_eq!(strip_root("/tmp/dir/file.txt", "/tmp/dir"), some("file.txt"));
    assert_eq!(strip_root("/tmp/dir/sub/file.txt", "/tmp/dir"), some("sub/file.txt"));
    assert_eq!(strip_root("/tmp/dir/file.txt", "/tmp/dir/"), some("file.txt"));
    assert_eq!(strip_root("/tmp/dir/file.txt", "/"), some("tmp/dir/file.txt"));
    assert_eq!(strip_root("/tmp/dir/", "/tmp/dir"), some(""));
    assert_eq!(strip_root("/d/\u{00e9}t\u{00e9}/\u{4e2d}", "/d/\u{00e9}t\u{00e9}"), some("\u{4e2d}"));
}

#[test]
fn a_root_matches_whole_components_only() {
    assert_eq!(strip_root("/tmp/dir2/file.txt", "/tmp/dir"), None);
    assert_eq!(strip_root("/tmp/dirfile", "/tmp/dir"), None);
    assert_eq!(strip_root("/tmp", "/tmp/dir"), None);
    assert_eq!(strip_root("/other/dir/file", "/tmp/dir"), None);
    assert_eq!(strip_root("", "/tmp"), None);
}

#[test]
fn what_lies_below_a_base_follows_one_separator() {
    assert_eq!(strip_base("/r/sub/x", "/r"), some("sub/x"));
    assert_eq!(strip_base("/r/", "/r"), some(""));
    assert_eq!(strip_base("/r", "/r"), None);
    assert_eq!(strip_base("/rx/sub", "/r"), None);
    assert_eq!(strip_base("/r/x", "/r/"), None);
    assert_eq!(strip_base("/r//x", "/r/"), some("x"));
    assert_eq!(strip_base("/a", "/r"), None);
}

#[test]
fn joining_puts_one_separator_between() {
    assert_eq!(join("/remote", ""), "/remote");
    assert_eq!(join("/remote", "file.txt"), "/remote/file.txt");
    assert_eq!(join("/remote/", "file.txt"), "/remote/file.txt");
    assert_eq!(join("/remote", "/file.txt"), "/remote/file.txt");
    assert_eq!(join("/remote/", "/file.txt"), "/remote/file.txt");
    assert_eq!(join("/remote", "sub/file.txt"), "/remote/sub/file.txt");
    assert_eq!(join("", "x"), "/x");
    assert_eq!(join("/l", "\u{00e9}/\u{4e2d}"), "/l/\u{00e9}/\u{4e2d}");
}

#[test]
fn the_directory_above_a_path_ends_before_its_last_separator() {
    assert_eq!(parent("/l/sub/x"), some("/l/sub"));
    assert_eq!(parent("/l/sub/"), some("/l/sub"));
    assert_eq!(parent("/l"), some("/"));
    assert_eq!(parent("/"), some("/"));
    assert_eq!(parent("l/x"), some("l"));
    assert_eq!(parent("x"), None);
    assert_eq!(parent(""), None);
    assert_eq!(parent("/d/\u{00e9}t\u{00e9}/\u{4e2d}"), some("/d/\u{00e9}t\u{00e9}"));
}
