use chira::path::{join_path, lexical_normalize, path_equal, path_file_name, path_has_prefix, path_parent, path_strip_prefix};
use chira::app::name_matches;
use chira::text::{decimal_string, trimmed, without_last};

#[test]
fn paths_compare_by_components() {
    assert!(path_equal("/a/b/", "/a//b"));
    assert!(path_equal("/a/./b", "/a/b"));
    assert!(!path_equal("/a/b", "/a/b/.."));
    assert!(path_has_prefix("/s/ws/x", "/s"));
    assert!(!path_has_prefix("/sx", "/s"));
}

#[test]
fn joins_parents_and_names() {
    assert_eq!(join_path("/s", "a.md"), "/s/a.md");
    assert_eq!(join_path("/s/", "a.md"), "/s/a.md");
    assert_eq!(join_path("/s", "/etc"), "/etc");
    assert_eq!(join_path("", "a"), "a");
    assert_eq!(path_parent("/s/a.md").as_deref(), Some("/s"));
    assert_eq!(path_parent("/s").as_deref(), Some("/"));
    assert_eq!(path_parent("/"), None);
    assert_eq!(path_parent("a").as_deref(), Some(""));
    assert_eq!(path_file_name("/s/a.md").as_deref(), Some("a.md"));
    assert_eq!(path_file_name("/s/.."), None);
}

#[test]
fn strips_the_root_prefix() {
    assert_eq!(path_strip_prefix("/s/ws/x", "/s").as_deref(), Some("ws/x"));
    assert_eq!(path_strip_prefix("/s", "/s/").as_deref(), Some(""));
    assert_eq!(path_strip_prefix("/t", "/s"), None);
    assert_eq!(path_strip_prefix("/r/a//b", "/r").as_deref(), Some("a//b"));
    assert_eq!(path_strip_prefix("/r/./a/./b/.//", "/r").as_deref(), Some("a/./b"));
    assert_eq!(path_strip_prefix("/r//a", "/r/").as_deref(), Some("a"));
    assert_eq!(path_strip_prefix("/r/a", "").as_deref(), Some("/r/a"));
    assert_eq!(path_strip_prefix("/r/a", "/").as_deref(), Some("r/a"));
}

#[test]
fn lexical_normalization_resolves_dot_dot() {
    assert_eq!(lexical_normalize("/s/missing/.."), "/s");
    assert_eq!(lexical_normalize("/s/./a/../b"), "/s/b");
    assert_eq!(lexical_normalize("/.."), "/");
}

#[test]
fn text_helpers() {
    assert!(name_matches("ÄbC.md", "äbc"));
    assert!(!name_matches("abc.md", "äbc"));
    assert_eq!(trimmed("\t a b \n"), "a b");
    assert_eq!(without_last("ab"), "a");
    assert_eq!(without_last(""), "");
    assert_eq!(decimal_string(0), "0");
    assert_eq!(decimal_string(1_700_000_000), "1700000000");
}
