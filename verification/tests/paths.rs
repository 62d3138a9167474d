use envy::paths::{file_active_for, is_envrc_file, parent_dir, path_starts_with};

#[test]
fn test_is_envrc_file() {
    assert!(is_envrc_file(".envrc"));
    assert!(is_envrc_file("/path/to/.envrc"));
    assert!(!is_envrc_file(".env"));
    assert!(!is_envrc_file("envrc"));
}

/// A file registered at `/a/b/.env` is active for `/a/b` and everything
/// beneath it, but not for `/a` or a sibling.
#[test]
fn test_directory_matcher_ancestry() {
    assert!(file_active_for("/a/b/.env", "/a/b"));
    assert!(file_active_for("/a/b/.env", "/a/b/c/d"));
    assert!(!file_active_for("/a/b/.env", "/a"));
    assert!(!file_active_for("/a/b/.env", "/a/x"));
}

/// The prefix comparison is component-wise, not textual.
#[test]
fn test_directory_matcher_component_boundary() {
    assert!(!file_active_for("/a/b/.env", "/a/bc"));
    assert!(file_active_for("/.env", "/anything/below"));
}

#[test]
fn test_parent_dir() {
    assert_eq!(parent_dir("/a/b/.env"), Some("/a/b".to_string()));
    assert_eq!(parent_dir("/.env"), Some("/".to_string()));
    assert_eq!(parent_dir("/"), None);
}

#[test]
fn test_path_starts_with_root_and_equality() {
    assert!(path_starts_with("/a/b", "/"));
    assert!(path_starts_with("/a/b", "/a/b"));
    assert!(path_starts_with("/a/b", "/a"));
    assert!(!path_starts_with("/ab", "/a"));
}
