use sitegen::paths::{
    add_extension, file_name, join_path, parent_dir, path_extension, path_starts_with,
    strip_extension,
};
use sitegen::strmap::StrMap;

#[test]
fn file_name_takes_last_segment() {
    assert_eq!(file_name("a/b/c.txt"), "c.txt");
    assert_eq!(file_name("plain"), "plain");
    assert_eq!(file_name("dir/"), "");
}

#[test]
fn parent_dir_drops_last_segment() {
    assert_eq!(parent_dir("a/b/c.txt"), "a/b");
    assert_eq!(parent_dir("plain"), "");
    assert_eq!(parent_dir("a/b/"), "a/b");
}

#[test]
fn extension_is_after_the_last_dot() {
    assert_eq!(path_extension("post.md").as_deref(), Some("md"));
    assert_eq!(path_extension("a.tar.gz").as_deref(), Some("gz"));
    assert_eq!(path_extension("dir.d/plain"), None);
    assert_eq!(path_extension(".gitignore"), None);
    assert_eq!(path_extension("trailing.").as_deref(), Some(""));
    assert_eq!(path_extension("none"), None);
}

#[test]
fn strip_extension_removes_it() {
    assert_eq!(strip_extension("post.md"), "post");
    assert_eq!(strip_extension("a/b/c.tar.gz"), "a/b/c.tar");
    assert_eq!(strip_extension("plain"), "plain");
    assert_eq!(strip_extension(".gitignore"), ".gitignore");
}

#[test]
fn add_extension_appends_it() {
    assert_eq!(add_extension("foo", "md"), "foo.md");
    assert_eq!(add_extension("a/b", "md"), "a/b.md");
}

#[test]
fn join_path_inserts_one_slash() {
    assert_eq!(join_path("blog", "post"), "blog/post");
    assert_eq!(join_path("", "post"), "post");
    assert_eq!(join_path("blog/", "post"), "blog/post");
}

#[test]
fn starts_with_matches_whole_components() {
    assert!(path_starts_with("content/post.md", "content"));
    assert!(path_starts_with("content", "content"));
    assert!(path_starts_with("anything", ""));
    assert!(!path_starts_with("contents", "content"));
    assert!(!path_starts_with("con", "content"));
}

#[test]
fn starts_with_ignores_a_trailing_slash_on_the_prefix() {
    assert!(path_starts_with("content/post.md", "content/"));
    assert!(path_starts_with("content", "content/"));
    assert!(!path_starts_with("contents", "content/"));
}

#[test]
fn strmap_last_binding_wins() {
    let mut m = StrMap::new();
    assert!(m.get("k").is_none());
    m.insert("k".to_string(), "v1".to_string());
    m.insert("other".to_string(), "o".to_string());
    assert_eq!(m.get("k").unwrap(), "v1");
    m.insert("k".to_string(), "v2".to_string());
    assert_eq!(m.get("k").unwrap(), "v2");
    assert_eq!(m.get("other").unwrap(), "o");
    assert!(m.contains_key("other"));
    assert!(!m.contains_key("missing"));
}
