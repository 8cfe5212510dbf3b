use static_file_server::config::{build_config, AppConfig};
use static_file_server::metrics::{format_uptime, ServerMetrics};
use static_file_server::security_headers::add_security_headers;

#[test]
fn counters_start_at_zero_and_count() {
    let mut m = ServerMetrics::new();
    assert_eq!(m.total_requests(), 0);
    m.increment_requests();
    m.increment_requests();
    assert_eq!(m.total_requests(), 2);
    m.increment_connections();
    assert_eq!(m.active_connections(), 1);
    m.decrement_connections();
    m.decrement_connections();
    assert_eq!(m.active_connections(), u64::MAX);
    m.add_bytes_sent(100);
    m.add_bytes_sent(u64::MAX);
    assert_eq!(m.bytes_sent(), 99);
    m.increment_cache_hits();
    m.increment_cache_misses();
    m.increment_cache_misses();
    assert_eq!((m.cache_hits(), m.cache_misses()), (1, 2));
    m.increment_range_requests();
    m.increment_compressed_responses();
    m.record_status(200);
    m.record_status(200);
    m.record_status(404);
    assert_eq!(m.status_count(200), 2);
    assert_eq!(m.status_count(404), 1);
    assert_eq!(m.status_count(500), 0);
    assert!(m.uptime_seconds() < 60);
    let _ = m.start_time();
}

#[test]
fn default_metrics_are_fresh() {
    let m = ServerMetrics::default();
    assert_eq!(m.bytes_sent(), 0);
    assert_eq!(m.cache_hits(), 0);
}

#[test]
fn uptime_text() {
    assert_eq!(format_uptime(0), "0h 0m 0s");
    assert_eq!(format_uptime(3725), "1h 2m 5s");
    assert_eq!(format_uptime(90061), "25h 1m 1s");
}

fn lines(v: &[(&str, &str)]) -> Vec<(String, String)> {
    v.iter().map(|(a, b)| (a.to_string(), b.to_string())).collect()
}

#[test]
fn security_headers_are_added_once() {
    let mut h = lines(&[("content-type", "text/html")]);
    add_security_headers(&mut h);
    assert_eq!(
        h,
        lines(&[
            ("content-type", "text/html"),
            ("x-content-type-options", "nosniff"),
            ("x-frame-options", "DENY"),
            ("x-xss-protection", "1; mode=block"),
        ])
    );
    let before = h.clone();
    add_security_headers(&mut h);
    assert_eq!(h, before);
}

#[test]
fn existing_security_headers_are_kept() {
    let mut h = lines(&[("X-Frame-Options", "SAMEORIGIN")]);
    add_security_headers(&mut h);
    assert_eq!(
        h,
        lines(&[
            ("X-Frame-Options", "SAMEORIGIN"),
            ("x-content-type-options", "nosniff"),
            ("x-xss-protection", "1; mode=block"),
        ])
    );
}

#[test]
fn configuration() {
    let c = build_config("0.0.0.0:80", "/var/www", true, false);
    assert_eq!(c.server.listen_addr, "0.0.0.0:80");
    assert_eq!(c.server.root_dir, "/var/www");
    assert!(c.server.spa_fallback);
    assert!(!c.server.directory_listing);
    assert_eq!(c.server.index_file, "index.html");
    assert_eq!(c.cache.html_max_age, 300);
    let d = AppConfig::new().with_root_dir("/x".to_string()).with_listen_addr("[::]:1".to_string());
    assert_eq!(d.server.root_dir, "/x");
    assert_eq!(d.server.listen_addr, "[::]:1");
    assert_eq!(d.server.max_path_depth, 32);
    assert_eq!(d.compression.min_size, 256);
}
