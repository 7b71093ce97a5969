use nmt::paths::{basename, dirname, join, prefix_before, str_eq};

#[test]
fn test_join_plain() {
    assert_eq!(join("/a/b", "c.js"), "/a/b/c.js");
}

#[test]
fn test_join_trailing_separator() {
    assert_eq!(join("/a/b/", "c.js"), "/a/b/c.js");
}

#[test]
fn test_join_absolute_name_wins() {
    assert_eq!(join("/a/b", "/etc/passwd"), "/etc/passwd");
}

#[test]
fn test_join_empty_base() {
    assert_eq!(join("", "dist/index.js"), "dist/index.js");
}

#[test]
fn test_dirname_plain() {
    assert_eq!(dirname("/a/b/c.js"), "/a/b");
}

#[test]
fn test_dirname_at_root() {
    assert_eq!(dirname("/c.js"), "/");
}

#[test]
fn test_basename_plain() {
    assert_eq!(basename("/a/b/package.json"), "package.json");
    assert_eq!(basename("no-separator"), "no-separator");
}

#[test]
fn test_prefix_before_found() {
    assert_eq!(prefix_before("hello-world:foo", ':'), "hello-world");
    assert_eq!(prefix_before("name@sha", '@'), "name");
}

#[test]
fn test_prefix_before_absent() {
    assert_eq!(prefix_before("hello-world", ':'), "hello-world");
}

#[test]
fn test_str_eq() {
    assert!(str_eq("abc", "abc"));
    assert!(!str_eq("abc", "abd"));
    assert!(!str_eq("abc", "ab"));
}
