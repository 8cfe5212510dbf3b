use std::sync::Arc;

use static_file_server::cache::{CacheDirectives, CachePolicy};
use static_file_server::config::CacheConfig;

fn make_policy() -> CachePolicy {
    CachePolicy::new(Arc::new(CacheConfig::default()))
}

#[test]
fn test_html_cache() {
    let policy = make_policy();
    let directives = policy.get_cache_control("index.html");
    assert_eq!(directives.max_age.unwrap(), 300);
    assert!(!directives.immutable);
}

#[test]
fn test_js_with_hash() {
    let policy = make_policy();
    let directives = policy.get_cache_control("main.abc123def.js");
    assert!(directives.immutable);
    assert_eq!(directives.max_age.unwrap(), 31536000);
}

#[test]
fn test_js_without_hash() {
    let policy = make_policy();
    let directives = policy.get_cache_control("main.js");
    assert!(!directives.immutable);
}

#[test]
fn test_image_cache() {
    let policy = make_policy();
    let directives = policy.get_cache_control("logo.png");
    assert_eq!(directives.max_age.unwrap(), 86400);
}

#[test]
fn test_cache_header_format() {
    let directives = CacheDirectives {
        max_age: Some(300),
        public: true,
        no_cache: false,
        no_store: false,
        immutable: false,
        must_revalidate: false,
    };
    assert_eq!(directives.to_header_value(), "public, max-age=300");
}

#[test]
fn js_without_hash_is_cached_for_an_hour() {
    let policy = make_policy();
    let directives = policy.get_cache_control("assets/app.js");
    assert_eq!(directives.max_age, Some(3600));
    assert_eq!(directives.to_header_value(), "public, max-age=3600");
}

#[test]
fn hashed_stylesheet_is_immutable() {
    let policy = make_policy();
    assert!(policy.is_immutable("styles.0123abcd.css"));
    assert_eq!(
        policy.get_cache_control("styles.0123abcd.css").to_header_value(),
        "public, max-age=31536000, immutable"
    );
}

#[test]
fn fonts_are_immutable_and_other_files_use_the_default() {
    let policy = make_policy();
    let font = policy.get_cache_control("fonts/inter.woff2");
    assert!(font.immutable);
    assert_eq!(font.max_age, Some(31536000));
    let other = policy.get_cache_control("archive.zip");
    assert_eq!(other.max_age, Some(3600));
    assert!(!other.immutable);
}

#[test]
fn no_cache_directives() {
    let d = CacheDirectives::no_cache();
    assert!(d.no_cache);
    assert!(!d.no_store);
    assert!(!d.public);
    assert_eq!(d.max_age, None);
    assert_eq!(d.to_header_value(), "no-cache");
}

#[test]
fn empty_directives_read_no_cache() {
    let d = CacheDirectives {
        max_age: None,
        public: false,
        no_cache: false,
        no_store: false,
        immutable: false,
        must_revalidate: false,
    };
    assert_eq!(d.to_header_value(), "no-cache");
}

#[test]
fn invalid_hash_pattern_falls_back() {
    let mut config = CacheConfig::default();
    config.js_css_hash_pattern = "([".to_string();
    let policy = CachePolicy::try_new(Arc::new(config)).unwrap();
    assert!(policy.is_immutable("main.abcdef0123.js"));
    assert!(!policy.is_immutable("main.js"));
}
