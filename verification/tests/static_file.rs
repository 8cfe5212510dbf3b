use tokio::io::AsyncReadExt;
use std::sync::Arc;

use static_file_server::cache::{CacheDirectives, CachePolicy};
use static_file_server::datetime::http_date;
use static_file_server::config::{CacheConfig, CompressionConfig, HotlinkConfig, ServerConfig};
use static_file_server::hotlink::HotlinkProtector;
use static_file_server::metrics::ServerMetrics;
use static_file_server::range::ByteRange;
use static_file_server::security::{DiskFacts, PathValidator, SecurityError};
use static_file_server::static_file::{
    check_not_modified, full_head, generate_boundary, generate_etag, has_extension,
    multipart_closing, multipart_layout, multipart_part_opening, BodyPiece, CompressError, DiskStage, FileFacts, FilePlan,
    FileQuery, IndexStage, RequestInfo, StaticFileHandler, Step,
};

fn handler_with(server: ServerConfig, hotlink: HotlinkConfig) -> StaticFileHandler {
    let server = Arc::new(server);
    StaticFileHandler::new(
        PathValidator::new(server.clone(), None),
        CachePolicy::new(Arc::new(CacheConfig::default())),
        Arc::new(CompressionConfig::default()),
        HotlinkProtector::new(Arc::new(hotlink)),
        ServerMetrics::new(),
        server,
    )
}

fn handler(spa: bool, listing: bool) -> StaticFileHandler {
    let mut server = ServerConfig::default();
    server.root_dir = "/srv/www".to_string();
    server.spa_fallback = spa;
    server.directory_listing = listing;
    handler_with(server, HotlinkConfig::default())
}

fn query() -> FileQuery {
    FileQuery {
        if_none_match: None,
        if_modified_since: None,
        range: None,
        accept_encoding: None,
        is_head: false,
    }
}

fn facts(size: u64) -> FileFacts {
    FileFacts { is_file: true, size, modified: Some(784111777), br_size: None, gz_size: None }
}

fn header<'a>(h: &'a [(String, String)], name: &str) -> Option<&'a str> {
    h.iter().find(|(n, _)| n == name).map(|(_, v)| v.as_str())
}

fn request(path: &str) -> RequestInfo {
    RequestInfo { path: path.to_string(), referer: None, page: None, sort: None, order: None }
}

const RANDOM: [u8; 16] = [0, 1, 2, 3, 4, 5, 6, 7, 8, 9, 10, 11, 12, 13, 14, 255];

#[test]
fn extensions() {
    assert!(has_extension("/app/main.js"));
    assert!(!has_extension("/app/settings"));
    assert!(!has_extension("/v1.2/users"));
    assert!(has_extension("file.txt"));
}

#[test]
fn etags() {
    assert_eq!(generate_etag(255, Some(16)), "\"10-ff\"");
    assert_eq!(generate_etag(0, None), "\"0-0\"");
}

#[test]
fn if_none_match_decides_first() {
    let etag = "\"10-ff\"";
    assert!(check_not_modified(Some("\"10-ff\""), None, etag, Some(16)));
    assert!(check_not_modified(Some("\"aa\", W/\"10-ff\""), None, etag, Some(16)));
    assert!(check_not_modified(Some("*"), None, etag, None));
    assert!(!check_not_modified(
        Some("\"other\""),
        Some("Sun, 06 Nov 1994 08:49:37 GMT"),
        etag,
        Some(0)
    ));
}

#[test]
fn if_modified_since() {
    let date = "Sun, 06 Nov 1994 08:49:37 GMT";
    assert!(check_not_modified(None, Some(date), "\"x\"", Some(784111777)));
    assert!(check_not_modified(None, Some(date), "\"x\"", Some(784111776)));
    assert!(!check_not_modified(None, Some(date), "\"x\"", Some(784111778)));
    assert!(!check_not_modified(None, Some(date), "\"x\"", None));
    assert!(!check_not_modified(None, Some("garbage"), "\"x\"", Some(0)));
    assert!(!check_not_modified(None, None, "\"x\"", Some(0)));
}

#[test]
fn negotiation() {
    let h = handler(false, false);
    assert_eq!(h.negotiate_encoding(Some("gzip, br"), true, true), Some("br-pre"));
    assert_eq!(h.negotiate_encoding(Some("GZIP"), false, true), Some("gzip-pre"));
    assert_eq!(h.negotiate_encoding(Some("gzip, br"), false, false), Some("br"));
    assert_eq!(h.negotiate_encoding(Some("gzip"), false, false), Some("gzip"));
    assert_eq!(h.negotiate_encoding(Some("deflate"), false, false), Some("deflate"));
    assert_eq!(h.negotiate_encoding(Some("identity"), true, true), None);
    assert_eq!(h.negotiate_encoding(None, true, true), None);
}

#[test]
fn compression_output() {
    let h = handler(false, false);
    let data = b"hello hello hello hello hello hello".to_vec();
    let gz = h.compress_bytes(&data, "gzip").unwrap();
    assert_eq!(&gz[..2], &[0x1f, 0x8b]);
    assert_ne!(gz, data);
    let br = h.compress_bytes(&data, "br").unwrap();
    assert!(!br.is_empty());
    assert_ne!(br, data);
    let deflate = h.compress_bytes(&data, "deflate").unwrap();
    assert_ne!(deflate, data);
    assert_eq!(h.compress_bytes(&data, "zstd"), Err(CompressError::Unsupported));
}

#[test]
fn head_lines() {
    let cache = CacheDirectives::no_cache();
    let head = full_head("text/plain", 12, "\"e\"", "Thu, 01 Jan 1970 00:00:00 GMT", &cache);
    assert_eq!(head.status, 200);
    assert_eq!(header(&head.headers, "content-length"), Some("12"));
    assert_eq!(header(&head.headers, "cache-control"), Some("no-cache"));
    assert_eq!(header(&head.headers, "accept-ranges"), Some("bytes"));
}

#[test]
fn boundaries_and_parts() {
    let b = generate_boundary(&RANDOM);
    assert_eq!(b, "000102030405060708090a0b0c0d0eff");
    let part = multipart_part_opening("B", "text/plain", &ByteRange { start: 0, end: 4 }, 10);
    assert_eq!(part, "--B\r\nContent-Type: text/plain\r\nContent-Range: bytes 0-4/10\r\n\r\n");
    assert_eq!(multipart_closing("B"), "--B--\r\n");
}

#[test]
fn missing_or_special_files_are_not_found() {
    let mut h = handler(false, false);
    match h.plan_file("/srv/www/x.txt", &query(), None, 0, &RANDOM) {
        FilePlan::Reply(head) => assert_eq!(head.status, 404),
        other => panic!("unexpected {:?}", other),
    }
    let mut f = facts(10);
    f.is_file = false;
    match h.plan_file("/srv/www/x.txt", &query(), Some(f), 0, &RANDOM) {
        FilePlan::Reply(head) => assert_eq!(head.status, 404),
        other => panic!("unexpected {:?}", other),
    }
}

#[test]
fn whole_file_and_validators() {
    let mut h = handler(false, false);
    match h.plan_file("/srv/www/logo.png", &query(), Some(facts(1000)), 0, &RANDOM) {
        FilePlan::Whole { head, length } => {
            assert_eq!(length, 1000);
            assert_eq!(head.status, 200);
            assert_eq!(header(&head.headers, "content-type"), Some("image/png"));
            assert_eq!(header(&head.headers, "etag"), Some("\"2ebc98a1-3e8\""));
            assert_eq!(header(&head.headers, "last-modified"), Some("Sun, 06 Nov 1994 08:49:37 GMT"));
            assert_eq!(header(&head.headers, "cache-control"), Some("public, max-age=86400"));
        }
        other => panic!("unexpected {:?}", other),
    }
    assert_eq!(h.metrics.cache_misses(), 1);
    let mut q = query();
    q.if_none_match = Some("\"2ebc98a1-3e8\"".to_string());
    match h.plan_file("/srv/www/logo.png", &q, Some(facts(1000)), 0, &RANDOM) {
        FilePlan::Reply(head) => {
            assert_eq!(head.status, 304);
            assert_eq!(head.headers.len(), 2);
        }
        other => panic!("unexpected {:?}", other),
    }
    assert_eq!(h.metrics.cache_hits(), 1);
}

#[test]
fn head_requests_get_headers_only() {
    let mut h = handler(false, false);
    let mut q = query();
    q.is_head = true;
    q.range = Some("bytes=0-1".to_string());
    match h.plan_file("/srv/www/a.txt", &q, Some(facts(10)), 0, &RANDOM) {
        FilePlan::Reply(head) => {
            assert_eq!(head.status, 200);
            assert_eq!(header(&head.headers, "content-length"), Some("10"));
        }
        other => panic!("unexpected {:?}", other),
    }
}

#[test]
fn range_plans() {
    let mut h = handler(false, false);
    let mut q = query();
    q.range = Some("bytes=2-5".to_string());
    match h.plan_file("/srv/www/a.bin", &q, Some(facts(10)), 0, &RANDOM) {
        FilePlan::Slice { head, start, length } => {
            assert_eq!((head.status, start, length), (206, 2, 4));
            assert_eq!(header(&head.headers, "content-range"), Some("bytes 2-5/10"));
            assert_eq!(header(&head.headers, "content-length"), Some("4"));
        }
        other => panic!("unexpected {:?}", other),
    }
    q.range = Some("bytes=0-1,4-5".to_string());
    match h.plan_file("/srv/www/a.bin", &q, Some(facts(10)), 0, &RANDOM) {
        FilePlan::Multipart { head, ranges, boundary, .. } => {
            assert_eq!(head.status, 206);
            assert_eq!(ranges.len(), 2);
            assert_eq!(
                header(&head.headers, "content-type"),
                Some(format!("multipart/byteranges; boundary={}", boundary).as_str())
            );
        }
        other => panic!("unexpected {:?}", other),
    }
    q.range = Some("bytes=20-".to_string());
    match h.plan_file("/srv/www/a.bin", &q, Some(facts(10)), 0, &RANDOM) {
        FilePlan::Reply(head) => {
            assert_eq!(head.status, 416);
            assert_eq!(header(&head.headers, "content-range"), Some("bytes */10"));
        }
        other => panic!("unexpected {:?}", other),
    }
    q.range = Some("pages=1".to_string());
    match h.plan_file("/srv/www/a.bin", &q, Some(facts(10)), 0, &RANDOM) {
        FilePlan::Reply(head) => assert_eq!(head.status, 400),
        other => panic!("unexpected {:?}", other),
    }
}

#[test]
fn compression_plans() {
    let mut h = handler(false, false);
    let mut q = query();
    q.accept_encoding = Some("gzip, br".to_string());
    let mut f = facts(1000);
    f.br_size = Some(300);
    match h.plan_file("/srv/www/app.js", &q, Some(f), 0, &RANDOM) {
        FilePlan::Sibling { head, path, length } => {
            assert_eq!(path, "/srv/www/app.js.br");
            assert_eq!(length, 300);
            assert_eq!(header(&head.headers, "content-encoding"), Some("br"));
            assert_eq!(header(&head.headers, "vary"), Some("Accept-Encoding"));
            assert_eq!(header(&head.headers, "accept-ranges"), Some("none"));
        }
        other => panic!("unexpected {:?}", other),
    }
    match h.plan_file("/srv/www/app.js", &q, Some(facts(1000)), 0, &RANDOM) {
        FilePlan::Compress { coding } => assert_eq!(coding, "br"),
        other => panic!("unexpected {:?}", other),
    }
    match h.plan_file("/srv/www/tiny.js", &q, Some(facts(10)), 0, &RANDOM) {
        FilePlan::Whole { .. } => {}
        other => panic!("unexpected {:?}", other),
    }
    match h.plan_file("/srv/www/logo.png", &q, Some(facts(1000)), 0, &RANDOM) {
        FilePlan::Whole { .. } => {}
        other => panic!("unexpected {:?}", other),
    }
    let body = b"console.log('hello'); console.log('hello');".to_vec();
    let (head, out) = h
        .compressed_reply("/srv/www/app.js", &facts(body.len() as u64), 0, "gzip", &body)
        .unwrap();
    assert_eq!(header(&head.headers, "content-encoding"), Some("gzip"));
    assert_eq!(header(&head.headers, "content-length"), Some(out.len().to_string().as_str()));
    assert_eq!(h.metrics.bytes_sent(), out.len() as u64);
    assert!(h.compressed_reply("/srv/www/app.js", &facts(1), 0, "zstd", &body).is_none());
}

#[test]
fn request_steps() {
    let mut h = handler(false, false);
    match h.begin(&request("/")) {
        Step::CheckDisk { candidate, stage } => {
            assert_eq!(candidate, "/srv/www/index.html");
            assert_eq!(stage, DiskStage::Requested);
        }
        other => panic!("unexpected {:?}", other),
    }
    assert_eq!(h.metrics.total_requests(), 1);
    match h.begin(&request("/../secret")) {
        Step::Reply(head) => assert_eq!(head.status, 403),
        other => panic!("unexpected {:?}", other),
    }
    match h.begin(&request("/.env")) {
        Step::Reply(head) => assert_eq!(head.status, 404),
        other => panic!("unexpected {:?}", other),
    }
    let disk = DiskFacts {
        is_symlink: false,
        exists: true,
        canonical: Some("/srv/www/docs".to_string()),
        parent_exists: true,
        parent_canonical: Some("/srv/www".to_string()),
        file_name: "docs".to_string(),
    };
    match h.after_disk("/docs", DiskStage::Requested, &disk) {
        Step::CheckKind { path } => assert_eq!(path, "/srv/www/docs"),
        other => panic!("unexpected {:?}", other),
    }
    match h.after_kind("/srv/www/docs", true) {
        Step::CheckIndex { path, dir, stage } => {
            assert_eq!(path, "/srv/www/docs/index.html");
            assert_eq!(dir, "/srv/www/docs");
            assert_eq!(stage, IndexStage::Directory);
        }
        other => panic!("unexpected {:?}", other),
    }
    match h.after_index(&request("/docs"), IndexStage::Directory, "/srv/www/docs/index.html", "/srv/www/docs", false) {
        Step::Reply(head) => assert_eq!(head.status, 404),
        other => panic!("unexpected {:?}", other),
    }
}

#[test]
fn path_errors() {
    let h = handler(false, false);
    let status = |e: SecurityError| match h.handle_path_error(e, "/x") {
        Step::Reply(head) => head.status,
        other => panic!("unexpected {:?}", other),
    };
    assert_eq!(status(SecurityError::NotFound), 404);
    assert_eq!(status(SecurityError::PathTraversal), 403);
    assert_eq!(status(SecurityError::PathTooDeep), 403);
    assert_eq!(status(SecurityError::HiddenFile), 404);
    assert_eq!(status(SecurityError::SymlinkDenied), 404);
    assert_eq!(status(SecurityError::InvalidPath), 400);
}

#[test]
fn single_page_application_fallback() {
    let h = handler(true, false);
    match h.handle_path_error(SecurityError::NotFound, "/app/settings") {
        Step::CheckIndex { path, stage, .. } => {
            assert_eq!(path, "/srv/www/index.html");
            assert_eq!(stage, IndexStage::Root);
        }
        other => panic!("unexpected {:?}", other),
    }
    match h.handle_path_error(SecurityError::NotFound, "/app/main.js") {
        Step::Reply(head) => assert_eq!(head.status, 404),
        other => panic!("unexpected {:?}", other),
    }
    match h.after_index(&request("/app"), IndexStage::Directory, "/srv/www/app/index.html", "/srv/www/app", false) {
        Step::CheckDisk { candidate, stage } => {
            assert_eq!(candidate, "/srv/www/index.html");
            assert_eq!(stage, DiskStage::AppIndex);
        }
        other => panic!("unexpected {:?}", other),
    }
}

#[test]
fn directory_listing_step() {
    let h = handler(false, true);
    let mut req = request("/docs");
    req.page = Some(0);
    req.sort = Some("size".to_string());
    req.order = Some("sideways".to_string());
    match h.after_index(&req, IndexStage::Directory, "/srv/www/docs/index.html", "/srv/www/docs", false) {
        Step::ListDirectory { dir_path, page, page_size, sort_by, sort_order } => {
            assert_eq!(dir_path, "/srv/www/docs");
            assert_eq!((page, page_size), (1, 100));
            assert_eq!((sort_by, sort_order), ("size", "asc"));
        }
        other => panic!("unexpected {:?}", other),
    }
    match h.after_index(&req, IndexStage::Directory, "/srv/www/docs/index.html", "/srv/www/docs", true) {
        Step::ServeFile { path } => assert_eq!(path, "/srv/www/docs/index.html"),
        other => panic!("unexpected {:?}", other),
    }
}

#[test]
fn hotlinked_requests() {
    let mut server = ServerConfig::default();
    server.root_dir = "/srv/www".to_string();
    let mut hot = HotlinkConfig::default();
    hot.enabled = true;
    hot.allow_direct = false;
    hot.allowed_referers = vec!["*.example.com".to_string()];
    let mut h = handler_with(server.clone(), hot.clone());
    match h.begin(&request("/a.png")) {
        Step::Reply(head) => assert_eq!(head.status, 403),
        other => panic!("unexpected {:?}", other),
    }
    let mut ok = request("/a.png");
    ok.referer = Some("https://cdn.example.com/page".to_string());
    assert!(matches!(h.begin(&ok), Step::CheckDisk { .. }));
    hot.fallback_url = Some("https://example.com/no.png".to_string());
    let mut h = handler_with(server, hot);
    match h.begin(&request("/a.png")) {
        Step::Reply(head) => {
            assert_eq!(head.status, 302);
            assert_eq!(header(&head.headers, "location"), Some("https://example.com/no.png"));
        }
        other => panic!("unexpected {:?}", other),
    }
}

#[test]
fn revalidation_with_last_modified() {
    let mut h = handler(false, false);
    let mut q = query();
    q.if_modified_since = Some(http_date(784111777));
    match h.plan_file("/srv/www/a.txt", &q, Some(facts(10)), 0, &RANDOM) {
        FilePlan::Reply(head) => {
            assert_eq!(head.status, 304);
            assert_eq!(header(&head.headers, "last-modified"), Some(http_date(784111777).as_str()));
        }
        other => panic!("unexpected {:?}", other),
    }
}

#[test]
fn etags_tell_versions_apart() {
    assert_ne!(generate_etag(1, Some(2)), generate_etag(2, Some(1)));
    assert_ne!(generate_etag(0x10, Some(1)), generate_etag(1, Some(0x10)));
    assert_eq!(generate_etag(7, Some(9)), generate_etag(7, Some(9)));
}

#[test]
fn unknown_modification_time_uses_now() {
    let mut h = handler(false, false);
    let mut f = facts(3);
    f.modified = None;
    match h.plan_file("/srv/www/a.txt", &query(), Some(f), 86400, &RANDOM) {
        FilePlan::Whole { head, .. } => {
            assert_eq!(header(&head.headers, "etag"), Some("\"0-3\""));
            assert_eq!(header(&head.headers, "last-modified"), Some("Fri, 02 Jan 1970 00:00:00 GMT"));
        }
        other => panic!("unexpected {:?}", other),
    }
}

#[test]
fn head_carries_the_get_headers() {
    let mut h = handler(false, false);
    let mut q = query();
    let get = match h.plan_file("/srv/www/logo.png", &q, Some(facts(1000)), 0, &RANDOM) {
        FilePlan::Whole { head, .. } => head,
        other => panic!("unexpected {:?}", other),
    };
    q.is_head = true;
    match h.plan_file("/srv/www/logo.png", &q, Some(facts(1000)), 0, &RANDOM) {
        FilePlan::Reply(head) => {
            assert_eq!(head.status, get.status);
            assert_eq!(head.headers, get.headers);
        }
        other => panic!("unexpected {:?}", other),
    }
}

fn decode(coding: &str, data: &[u8]) -> Vec<u8> {
    let mut out = Vec::new();
    match coding {
        "gzip" => {
            let mut d = async_compression::tokio::bufread::GzipDecoder::new(data);
            futures::executor::block_on(d.read_to_end(&mut out)).unwrap();
        }
        "br" => {
            let mut d = async_compression::tokio::bufread::BrotliDecoder::new(data);
            futures::executor::block_on(d.read_to_end(&mut out)).unwrap();
        }
        _ => {
            let mut d = async_compression::tokio::bufread::DeflateDecoder::new(data);
            futures::executor::block_on(d.read_to_end(&mut out)).unwrap();
        }
    }
    out
}

#[test]
fn compressed_bodies_decode_to_the_content() {
    let h = handler(false, false);
    let data: Vec<u8> = (0..5000u32).map(|i| (i % 251) as u8).collect();
    for coding in ["gzip", "br", "deflate"] {
        let out = h.compress_bytes(&data, coding).unwrap();
        assert_eq!(decode(coding, &out), data, "{}", coding);
    }
}

#[test]
fn compressed_reply_succeeds_for_every_produced_coding() {
    let mut h = handler(false, false);
    let body = b"body body body body body".to_vec();
    for coding in ["gzip", "br", "deflate"] {
        let before = h.metrics.bytes_sent();
        let (head, out) = h
            .compressed_reply("/srv/www/a.css", &facts(body.len() as u64), 0, coding, &body)
            .unwrap();
        assert_eq!(head.status, 200);
        assert_eq!(header(&head.headers, "content-encoding"), Some(coding));
        assert_eq!(header(&head.headers, "accept-ranges"), Some("none"));
        assert_eq!(header(&head.headers, "vary"), Some("Accept-Encoding"));
        assert_eq!(header(&head.headers, "cache-control"), Some("public, max-age=3600"));
        assert_eq!(decode(coding, &out), body);
        assert_eq!(h.metrics.bytes_sent(), before + out.len() as u64);
    }
}

#[test]
fn negotiation_on_lowercased_values() {
    let h = handler(false, false);
    assert_eq!(h.negotiate_lowercased("gzip, deflate", false, true), Some("gzip-pre"));
    assert_eq!(h.negotiate_lowercased("GZIP", false, false), None);
    assert_eq!(h.negotiate_lowercased("x-deflate", false, false), Some("deflate"));
}

#[test]
fn sent_bodies_are_counted() {
    let mut h = handler(false, false);
    let plan = h.plan_file("/srv/www/logo.png", &query(), Some(facts(1000)), 0, &RANDOM);
    let before = h.metrics.bytes_sent();
    let head = h.body_sent(plan, true);
    assert_eq!(head.status, 200);
    assert_eq!(header(&head.headers, "content-length"), Some("1000"));
    assert_eq!(h.metrics.bytes_sent(), before + 1000);

    let mut q = query();
    q.accept_encoding = Some("br".to_string());
    let mut f = facts(1000);
    f.br_size = Some(300);
    let plan = h.plan_file("/srv/www/app.js", &q, Some(f), 0, &RANDOM);
    let head = h.body_sent(plan, true);
    assert_eq!(header(&head.headers, "content-encoding"), Some("br"));
    assert_eq!(h.metrics.bytes_sent(), before + 1300);

    let mut q = query();
    q.range = Some("bytes=2-5".to_string());
    let plan = h.plan_file("/srv/www/a.bin", &q, Some(facts(10)), 0, &RANDOM);
    let head = h.body_sent(plan, true);
    assert_eq!(head.status, 206);
    assert_eq!(h.metrics.bytes_sent(), before + 1304);
}

#[test]
fn unopened_files_are_answered_with_500_and_not_counted() {
    let mut h = handler(false, false);
    let plan = h.plan_file("/srv/www/logo.png", &query(), Some(facts(1000)), 0, &RANDOM);
    let before = h.metrics.bytes_sent();
    let head = h.body_sent(plan, false);
    assert_eq!(head.status, 500);
    assert!(head.headers.is_empty());
    assert_eq!(h.metrics.bytes_sent(), before);
}

#[test]
fn multipart_layout_orders_the_parts() {
    let ranges = [ByteRange { start: 0, end: 1 }, ByteRange { start: 4, end: 5 }];
    let pieces = multipart_layout("b0", "text/plain", &ranges, 10);
    assert_eq!(pieces.len(), 7);
    match &pieces[0] {
        BodyPiece::Text(t) => assert_eq!(
            t,
            "--b0\r\nContent-Type: text/plain\r\nContent-Range: bytes 0-1/10\r\n\r\n"
        ),
        other => panic!("unexpected {:?}", other),
    }
    match &pieces[1] {
        BodyPiece::FileBytes { start, length } => assert_eq!((*start, *length), (0, 2)),
        other => panic!("unexpected {:?}", other),
    }
    match &pieces[2] {
        BodyPiece::Text(t) => assert_eq!(t, "\r\n"),
        other => panic!("unexpected {:?}", other),
    }
    match &pieces[4] {
        BodyPiece::FileBytes { start, length } => assert_eq!((*start, *length), (4, 2)),
        other => panic!("unexpected {:?}", other),
    }
    match &pieces[6] {
        BodyPiece::Text(t) => assert_eq!(t, "--b0--\r\n"),
        other => panic!("unexpected {:?}", other),
    }
    let only_closing = multipart_layout("b0", "text/plain", &[], 10);
    assert_eq!(only_closing.len(), 1);
}
