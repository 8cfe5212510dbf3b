use std::sync::Arc;

use static_file_server::config::HotlinkConfig;
use static_file_server::hotlink::{extract_domain, HotlinkProtector, HotlinkResult};
use static_file_server::pattern::{wildcard_to_regex, WildcardPattern};

#[test]
fn test_extract_domain() {
    assert_eq!(
        extract_domain("https://example.com/path"),
        Some("example.com".to_string())
    );
    assert_eq!(
        extract_domain("http://sub.example.com:8080/path"),
        Some("sub.example.com".to_string())
    );
    assert_eq!(
        extract_domain("//cdn.example.com/asset.js"),
        Some("cdn.example.com".to_string())
    );
}

#[test]
fn test_wildcard_pattern() {
    let pattern = WildcardPattern::new("*.example.com").unwrap();
    assert!(pattern.matches("cdn.example.com"));
    assert!(pattern.matches("sub.example.com"));
    assert!(!pattern.matches("example.com"));
}

#[test]
fn test_hotlink_allow_direct() {
    let mut config = HotlinkConfig::default();
    config.enabled = true;
    config.allow_direct = true;
    let protector = HotlinkProtector::new(Arc::new(config));

    assert_eq!(protector.check(None), HotlinkResult::Allowed);
}

#[test]
fn test_hotlink_deny_direct() {
    let mut config = HotlinkConfig::default();
    config.enabled = true;
    config.allow_direct = false;
    let protector = HotlinkProtector::new(Arc::new(config));

    assert_eq!(protector.check(None), HotlinkResult::Denied);
}

#[test]
fn test_hotlink_whitelist() {
    let mut config = HotlinkConfig::default();
    config.enabled = true;
    config.allowed_referers = vec!["*.example.com".to_string()];
    let protector = HotlinkProtector::new(Arc::new(config));

    assert_eq!(
        protector.check(Some("https://cdn.example.com/page")),
        HotlinkResult::Allowed
    );
    assert_eq!(
        protector.check(Some("https://evil.com/page")),
        HotlinkResult::Denied
    );
}

#[test]
fn extract_domain_without_scheme_takes_the_host() {
    assert_eq!(extract_domain("example.org:81/x"), Some("example.org".to_string()));
    assert_eq!(extract_domain(""), Some("".to_string()));
}

#[test]
fn disabled_protection_allows_everything() {
    let protector = HotlinkProtector::new(Arc::new(HotlinkConfig::default()));
    assert!(!protector.is_enabled());
    assert_eq!(protector.check(Some("https://evil.com/")), HotlinkResult::Allowed);
    assert_eq!(protector.fallback_url(), None);
}

#[test]
fn fallback_url_is_reported() {
    let mut config = HotlinkConfig::default();
    config.fallback_url = Some("https://example.com/denied.png".to_string());
    let protector = HotlinkProtector::new(Arc::new(config));
    assert_eq!(protector.fallback_url(), Some("https://example.com/denied.png"));
}

#[test]
fn wildcard_is_anchored_and_dots_are_literal() {
    assert_eq!(wildcard_to_regex("*.example.com"), "^.*\\.example\\.com$");
    let pattern = WildcardPattern::new("example.com").unwrap();
    assert!(pattern.matches("example.com"));
    assert!(!pattern.matches("examplexcom"));
    assert!(!pattern.matches("www.example.com"));
    assert_eq!(pattern.pattern(), "example.com");
}

#[test]
fn regex_metacharacters_are_escaped() {
    assert_eq!(wildcard_to_regex("a+b(c)"), "^a\\+b\\(c\\)$");
    assert_eq!(wildcard_to_regex("h?st"), "^h.st$");
    assert!(WildcardPattern::new("a+b.com").unwrap().matches("a+b.com"));
    assert!(!WildcardPattern::new("a+b.com").unwrap().matches("aab.com"));
}
