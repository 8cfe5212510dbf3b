use std::sync::Arc;

use static_file_server::config::ServerConfig;
use static_file_server::security::{encode_path, DiskFacts, PathValidator, SecurityError};

fn make_validator() -> PathValidator {
    let mut config = ServerConfig::default();
    config.root_dir = "/tmp/test_root".to_string();
    PathValidator::new(Arc::new(config), None)
}

#[test]
fn test_normal_path() {
    let v = make_validator();
    let result = v.validate_and_resolve("/index.html");
    assert!(result.is_ok() || result.is_err());
}

#[test]
fn test_path_traversal_parent() {
    let v = make_validator();
    let result = v.validate_and_resolve("/../etc/passwd");
    assert!(matches!(result, Err(SecurityError::PathTraversal)));
}

#[test]
fn test_hidden_file() {
    let v = make_validator();
    let result = v.validate_and_resolve("/.secret");
    assert!(matches!(result, Err(SecurityError::HiddenFile)));
}

#[test]
fn test_path_too_deep() {
    let mut config = ServerConfig::default();
    config.root_dir = "/tmp/test_root".to_string();
    config.max_path_depth = 3;
    let v = PathValidator::new(Arc::new(config), None);
    let deep_path = "/a/b/c/d/e/f";
    let result = v.validate_and_resolve(deep_path);
    assert!(matches!(result, Err(SecurityError::PathTooDeep)));
}

#[test]
fn candidate_is_inside_the_root() {
    let v = make_validator();
    assert_eq!(v.validate_and_resolve("/index.html").unwrap(), "/tmp/test_root/index.html");
    assert_eq!(v.validate_and_resolve("/a/./b/../c.txt").unwrap(), "/tmp/test_root/a/c.txt");
    assert_eq!(v.validate_and_resolve("/").unwrap(), "/tmp/test_root/");
}

#[test]
fn percent_encoded_traversal_is_refused() {
    let v = make_validator();
    assert!(matches!(
        v.validate_and_resolve("/%2e%2e/etc/passwd"),
        Err(SecurityError::PathTraversal)
    ));
    assert_eq!(v.validate_and_resolve("/a%20b.txt").unwrap(), "/tmp/test_root/a b.txt");
}

#[test]
fn canonical_root_is_used_when_given() {
    let v = PathValidator::new(Arc::new(ServerConfig::default()), Some("/srv/www".to_string()));
    assert_eq!(v.root_dir(), "/srv/www");
    let w = PathValidator::new(Arc::new(ServerConfig::default()), None);
    assert_eq!(w.root_dir(), "./public");
}

#[test]
fn hidden_paths() {
    let v = make_validator();
    assert!(v.is_hidden_path("/a/.git/config"));
    assert!(!v.is_hidden_path("/a/b.txt"));
}

fn facts(canonical: &str) -> DiskFacts {
    DiskFacts {
        is_symlink: false,
        exists: true,
        canonical: Some(canonical.to_string()),
        parent_exists: true,
        parent_canonical: None,
        file_name: String::new(),
    }
}

#[test]
fn disk_check_keeps_results_inside_the_root() {
    let v = make_validator();
    assert_eq!(
        v.confirm_on_disk(&facts("/tmp/test_root/a.txt")).unwrap(),
        "/tmp/test_root/a.txt"
    );
    assert!(matches!(
        v.confirm_on_disk(&facts("/etc/passwd")),
        Err(SecurityError::PathTraversal)
    ));
    assert!(matches!(
        v.confirm_on_disk(&facts("/tmp/test_root_other/a.txt")),
        Err(SecurityError::PathTraversal)
    ));
}

#[test]
fn disk_check_refuses_symlinks_and_missing_parents() {
    let v = make_validator();
    let mut f = facts("/tmp/test_root/link");
    f.is_symlink = true;
    assert!(matches!(v.confirm_on_disk(&f), Err(SecurityError::SymlinkDenied)));
    let missing = DiskFacts {
        is_symlink: false,
        exists: false,
        canonical: None,
        parent_exists: false,
        parent_canonical: None,
        file_name: "x".to_string(),
    };
    assert!(matches!(v.confirm_on_disk(&missing), Err(SecurityError::NotFound)));
    let new_file = DiskFacts {
        is_symlink: false,
        exists: false,
        canonical: None,
        parent_exists: true,
        parent_canonical: Some("/tmp/test_root/dir".to_string()),
        file_name: "new.txt".to_string(),
    };
    assert_eq!(v.confirm_on_disk(&new_file).unwrap(), "/tmp/test_root/dir/new.txt");
}

#[test]
fn error_messages() {
    assert_eq!(SecurityError::PathTraversal.message(), "Path traversal detected");
    assert_eq!(SecurityError::NotFound.message(), "File not found");
}

#[test]
fn encode_path_escapes_fragment_characters() {
    assert_eq!(encode_path("/a b/\"c\"<d>`e"), "/a%20b/%22c%22%3Cd%3E%60e");
    assert_eq!(encode_path("/caf\u{e9}"), "/caf%C3%A9");
    assert_eq!(encode_path("/plain/path.txt"), "/plain/path.txt");
}

#[test]
fn components_are_normalised_like_paths() {
    let v = make_validator();
    assert_eq!(v.validate_and_resolve("//a//b/").unwrap(), "/tmp/test_root/a/b");
    assert_eq!(v.validate_and_resolve("./a").unwrap(), "/tmp/test_root/a");
    assert_eq!(v.validate_and_resolve("a/./b").unwrap(), "/tmp/test_root/a/b");
    assert!(matches!(
        v.validate_and_resolve("a/../.."),
        Err(SecurityError::PathTraversal)
    ));
    assert_eq!(v.validate_and_resolve("/a/b/../../c").unwrap(), "/tmp/test_root/c");
}

#[test]
fn decoded_paths_are_checked_as_given() {
    let v = make_validator();
    assert_eq!(v.resolve_decoded("/a%20b").unwrap(), "/tmp/test_root/a%20b");
    assert!(matches!(v.resolve_decoded("/../x"), Err(SecurityError::PathTraversal)));
    assert!(matches!(v.resolve_decoded("/.git"), Err(SecurityError::HiddenFile)));
    assert!(matches!(v.validate_and_resolve("/%2E%2E/x"), Err(SecurityError::PathTraversal)));
}
