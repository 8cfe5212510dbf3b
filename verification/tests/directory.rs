use std::sync::Arc;

use static_file_server::config::ServerConfig;
use static_file_server::directory::{
    get_parent_path, html_escape, render_directory_html, sort_entries, DirectoryEntry,
    DirectoryLister, EntryMeta, RawEntry,
};
use static_file_server::security::PathValidator;

fn entry(name: &str, is_dir: bool, size: u64, modified: i64) -> DirectoryEntry {
    DirectoryEntry {
        name: name.to_string(),
        path: format!("/{}", name),
        is_dir,
        size,
        modified,
        modified_rfc3339: String::new(),
        mime_type: String::new(),
    }
}

fn names(v: &[DirectoryEntry]) -> Vec<&str> {
    v.iter().map(|e| e.name.as_str()).collect()
}

#[test]
fn sort_by_name_ignores_case() {
    let mut v = vec![entry("b", false, 1, 1), entry("A", false, 2, 2), entry("c", true, 3, 3)];
    sort_entries(&mut v, "name", "asc");
    assert_eq!(names(&v), vec!["A", "b", "c"]);
    sort_entries(&mut v, "name", "desc");
    assert_eq!(names(&v), vec!["c", "b", "A"]);
}

#[test]
fn sort_by_size_and_time_is_stable() {
    let mut v = vec![
        entry("x", false, 5, 30),
        entry("y", false, 1, 10),
        entry("z", false, 5, 20),
    ];
    sort_entries(&mut v, "size", "asc");
    assert_eq!(names(&v), vec!["y", "x", "z"]);
    sort_entries(&mut v, "time", "desc");
    assert_eq!(names(&v), vec!["x", "z", "y"]);
}

#[test]
fn unknown_sort_puts_directories_first() {
    let mut v = vec![entry("b.txt", false, 1, 1), entry("zdir", true, 0, 1), entry("a.txt", false, 1, 1)];
    sort_entries(&mut v, "other", "asc");
    assert_eq!(names(&v), vec!["zdir", "a.txt", "b.txt"]);
}

#[test]
fn parent_paths() {
    assert_eq!(get_parent_path("/a/b/"), "/a/");
    assert_eq!(get_parent_path("/a/b"), "/a/");
    assert_eq!(get_parent_path("/a"), "/");
    assert_eq!(get_parent_path("/"), "/");
    assert_eq!(get_parent_path("///"), "/");
    assert_eq!(get_parent_path("abc"), "/");
}

#[test]
fn escaping() {
    assert_eq!(html_escape("<a href=\"x\">Tom & Jerry's</a>"), "&lt;a href=&quot;x&quot;&gt;Tom &amp; Jerry&#39;s&lt;/a&gt;");
    assert_eq!(html_escape("plain"), "plain");
}

fn raw(name: &str, is_dir: bool, len: u64, modified: u64) -> RawEntry {
    RawEntry {
        name: name.to_string(),
        meta: Some(EntryMeta { is_dir, is_symlink: false, len, modified_secs: modified }),
    }
}

fn lister() -> DirectoryLister {
    let config = Arc::new(ServerConfig::default());
    DirectoryLister::new(config.clone(), PathValidator::new(config, None))
}

#[test]
fn listing_filters_sorts_and_pages() {
    let entries = vec![
        raw("b.txt", false, 10, 0),
        raw(".hidden", false, 1, 0),
        raw("a.html", false, 20, 86400),
        raw("sub", true, 4096, 0),
        RawEntry { name: "broken".to_string(), meta: None },
    ];
    let l = lister();
    let listing = l.list_directory("/docs", "/srv/docs", 1, 2, "name", "asc", None, entries.clone());
    assert_eq!(listing.total, 3);
    assert!(listing.has_more);
    assert_eq!(names(&listing.entries), vec!["a.html", "b.txt"]);
    assert_eq!(listing.entries[0].path, "/docs/a.html");
    assert_eq!(listing.entries[0].modified_rfc3339, "1970-01-02T00:00:00Z");
    assert_eq!(listing.entries[0].mime_type, "text/html; charset=utf-8");
    let page2 = l.list_directory("/docs/", "/srv/docs", 2, 2, "name", "asc", None, entries.clone());
    assert!(!page2.has_more);
    assert_eq!(names(&page2.entries), vec!["sub"]);
    assert_eq!(page2.entries[0].path, "/docs/sub");
    assert_eq!(page2.entries[0].size, 0);
    assert_eq!(page2.entries[0].mime_type, "directory");
    let found = l.list_directory("/docs", "/srv/docs", 1, 10, "name", "asc", Some("B.T"), entries);
    assert_eq!(names(&found.entries), vec!["b.txt"]);
}

#[test]
fn page_zero_is_the_first_page() {
    let entries = vec![raw("a", false, 1, 0), raw("b", false, 1, 0)];
    let listing = lister().list_directory("/", "/srv", 0, 1, "name", "asc", None, entries);
    assert_eq!(names(&listing.entries), vec!["a"]);
    assert!(listing.has_more);
}

#[test]
fn rendered_page_has_rows_and_links() {
    let entries = vec![raw("a<b>.txt", false, 2048, 0), raw("dir", true, 0, 0)];
    let l = lister();
    let listing = l.list_directory("/x", "/srv/x", 1, 10, "name", "asc", None, entries);
    let labels = vec!["2.0 KB".to_string(), "0.0 B".to_string()];
    let html = render_directory_html(&listing, &labels);
    assert!(html.starts_with("<!DOCTYPE html>\n<html lang=\"en\">\n<head>\n"));
    assert!(html.contains("<title>Directory listing for /x</title>"));
    assert!(html.contains("<td><a href=\"/x/a&lt;b&gt;.txt\">a&lt;b&gt;.txt</a></td>\n<td class=\"size\">2.0 KB</td>"));
    assert!(html.contains("<td><a href=\"/x/dir\">dir/</a></td>\n<td class=\"size\">-</td>"));
    assert!(html.contains("<p><a href=\"/?sort=name&order=asc\">&larr; Parent directory</a></p>"));
    assert!(html.contains("<option value=\"name\" selected>Name</option>"));
    assert!(html.contains("<p>Showing 2 of 2 items (page 1 of ~1)</p>"));
    assert!(!html.contains("Previous"));
    assert!(html.ends_with("</div>\n</body>\n</html>\n"));
}

#[test]
fn rendered_root_has_no_parent_link_and_pages_link() {
    let entries = vec![raw("a", false, 1, 0), raw("b", false, 1, 0), raw("c", false, 1, 0)];
    let listing = lister().list_directory("/", "/srv", 2, 1, "size", "desc", None, entries);
    let labels = vec!["1.0 B".to_string()];
    let html = render_directory_html(&listing, &labels);
    assert!(!html.contains("Parent directory"));
    assert!(html.contains("<a href=\"/?page=1&sort=size&order=desc\">&larr; Previous</a> \n"));
    assert!(html.contains("<a href=\"/?page=3&sort=size&order=desc\">Next &rarr;</a>\n"));
    assert!(html.contains("(page 2 of ~3)"));
}

#[test]
fn shown_entries() {
    let l = lister();
    assert!(l.is_shown(&raw("a.txt", false, 1, 0), None));
    assert!(!l.is_shown(&raw(".env", false, 1, 0), None));
    assert!(!l.is_shown(&RawEntry { name: "x".to_string(), meta: None }, None));
    let link = RawEntry {
        name: "link".to_string(),
        meta: Some(EntryMeta { is_dir: false, is_symlink: true, len: 0, modified_secs: 0 }),
    };
    assert!(!l.is_shown(&link, None));
    assert!(l.is_shown(&raw("Report.PDF", false, 1, 0), Some("report")));
    assert!(!l.is_shown(&raw("a.txt", false, 1, 0), Some("b")));
}
