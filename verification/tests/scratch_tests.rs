use chira::i18n::Lang;
use chira::scratch::{
    children_by_name, create_target, ensure_path_under_root, ensure_under_root, expand_tilde, list,
    parent_to_check, rename_target, resolve_root, tree, validate_name, Entry, Listing, TreeNode,
};

#[test]
fn resolve_root_precedence() {
    let home = "/home/u";
    assert_eq!(
        resolve_root(Some("/env/dir".into()), Some("/cfg/dir"), Some("/xdg".into()), Some(home)).unwrap(),
        "/env/dir"
    );
    assert_eq!(
        resolve_root(None, Some("~/scratch"), Some("/xdg".into()), Some(home)).unwrap(),
        "/home/u/scratch"
    );
    assert_eq!(resolve_root(None, Some("/abs/dir"), None, Some(home)).unwrap(), "/abs/dir");
    assert_eq!(resolve_root(None, None, Some("/xdg".into()), Some(home)).unwrap(), "/xdg/chira");
    assert_eq!(resolve_root(None, Some(""), Some("/xdg".into()), Some(home)).unwrap(), "/xdg/chira");
    assert_eq!(resolve_root(None, None, None, Some(home)).unwrap(), "/home/u/.local/share/chira");
}

#[test]
fn resolve_root_tilde_needs_home() {
    assert!(resolve_root(None, Some("~/scratch"), None, None).is_err());
    assert_eq!(resolve_root(None, Some("/abs/dir"), None, None).unwrap(), "/abs/dir");
}

#[test]
fn resolve_root_without_home_is_an_error() {
    assert_eq!(resolve_root(None, None, None, None).unwrap_err(), "HOME is not set");
}

#[test]
fn tilde_alone_is_home() {
    assert_eq!(expand_tilde("~", Some("/home/u")).unwrap(), "/home/u");
    assert_eq!(expand_tilde("~user/x", Some("/home/u")).unwrap(), "~user/x");
}

#[test]
fn validate_rejects_traversal() {
    assert!(validate_name("").is_err());
    assert!(validate_name("a/b").is_err());
    assert!(validate_name("..").is_err());
    assert!(validate_name(".").is_err());
    assert!(validate_name(".hidden").is_err());
    assert!(validate_name(".notes.md").is_err());
    assert!(validate_name("ok.md").is_ok());
    assert!(validate_name("日本語メモ").is_ok());
}

fn e(name: &str, is_dir: bool, modified: i128) -> Entry {
    Entry { path: format!("/s/{name}"), name: name.to_string(), is_dir, modified }
}

#[test]
fn list_excludes_hidden_and_sorts_newest_first() {
    let listed = list(vec![e(".hidden", false, 30), e("old.md", false, 10), e("new.md", false, 20)]);
    assert_eq!(listed.len(), 2);
    assert_eq!(listed[0].name, "new.md");
    assert_eq!(listed[1].name, "old.md");
}

#[test]
fn list_keeps_order_of_equal_times() {
    let listed = list(vec![e("a", false, 5), e("b", true, 5), e("c", false, 9)]);
    let names: Vec<&str> = listed.iter().map(|x| x.name.as_str()).collect();
    assert_eq!(names, ["c", "a", "b"]);
}

#[test]
fn children_are_directories_first_then_by_name() {
    let sorted = children_by_name(vec![e("b.md", false, 0), e("ws", true, 0), e("a.txt", false, 0), e("aa", true, 0)]);
    let names: Vec<&str> = sorted.iter().map(|x| x.name.as_str()).collect();
    assert_eq!(names, ["aa", "ws", "a.txt", "b.md"]);
}

fn node(name: &str, is_dir: bool, listing: Listing) -> TreeNode {
    TreeNode { name: name.to_string(), is_dir, is_symlink: false, listing }
}

#[test]
fn tree_renders_nested_structure() {
    let root = Listing::Entries(vec![
        node("ws", true, Listing::Entries(vec![node("a.txt", false, Listing::Unread)])),
        node("b.md", false, Listing::Unread),
    ]);
    let t = tree(Lang::En, &root, 4, 100);
    assert!(t.contains("├── ws/"), "tree:\n{t}");
    assert!(t.contains("│   └── a.txt"), "tree:\n{t}");
    assert!(t.contains("└── b.md"), "tree:\n{t}");
    assert_eq!(t, "├── ws/\n│   └── a.txt\n└── b.md");
}

#[test]
fn tree_does_not_recurse_into_symlinked_directory() {
    let root = Listing::Entries(vec![
        TreeNode {
            name: "escape".to_string(),
            is_dir: true,
            is_symlink: true,
            listing: Listing::Entries(vec![node("secret.txt", false, Listing::Unread)]),
        },
        node("ok.md", false, Listing::Unread),
    ]);
    let t = tree(Lang::En, &root, 4, 100);
    assert!(t.contains("escape"));
    assert!(t.contains("ok.md"));
    assert!(!t.contains("secret.txt"));
}

#[test]
fn tree_respects_line_cap() {
    let files: Vec<TreeNode> = (0..10).map(|i| node(&format!("f{i:02}.md"), false, Listing::Unread)).collect();
    let t = tree(Lang::En, &Listing::Entries(files), 4, 3);
    assert!(t.contains('…'), "line cap should emit ellipsis: {t}");
    assert_eq!(t, "├── f00.md\n├── f01.md\n├── f02.md\n…");
}

#[test]
fn tree_of_empty_and_unreadable_directories() {
    assert_eq!(tree(Lang::En, &Listing::Entries(vec![]), 4, 100), "(empty directory)");
    let t = tree(Lang::En, &Listing::Unreadable("permission denied".to_string()), 4, 100);
    assert!(t.contains("permission denied"));
}

#[test]
fn ensure_under_root_accepts_nested_path() {
    assert_eq!(ensure_under_root("/s", "/s/ws").unwrap(), "/s/ws");
    assert!(ensure_under_root("/s", "/s/ws/inner.md").is_ok());
    assert!(ensure_under_root("/s", "/s").is_ok());
}

#[test]
fn ensure_under_root_rejects_symlink_escape() {
    // The canonical target of an escaping symlink lies elsewhere.
    assert_eq!(ensure_under_root("/s", "/tmp/outside").unwrap_err(), "path escapes scratch root");
    assert!(ensure_under_root("/s", "/sx").is_err());
}

#[test]
fn ensure_path_under_root_checks_the_parent() {
    assert_eq!(parent_to_check("/s/broken").unwrap(), "/s");
    assert!(ensure_path_under_root("/s", "/s").is_ok());
    assert!(ensure_path_under_root("/s", "/tmp/outside").is_err());
    assert_eq!(parent_to_check("/").unwrap_err(), "path has no parent");
    // `ws/..` would name the root itself.
    assert_eq!(parent_to_check("/s/ws/..").unwrap_err(), "invalid name");
    assert_eq!(parent_to_check("/s/.").unwrap(), "/");
}

#[test]
fn creation_and_rename_targets() {
    assert_eq!(create_target("/s", "a.md").unwrap(), "/s/a.md");
    assert_eq!(create_target("/s", "../x").unwrap_err(), "invalid name");
    assert_eq!(rename_target("/s/a.md", "b.md").unwrap(), ("/s/b.md".to_string(), false));
    assert_eq!(rename_target("/s/a.md", "a.md").unwrap(), ("/s/a.md".to_string(), true));
    assert_eq!(rename_target("/s/a.md", ".x").unwrap_err(), "invalid name");
}
