use std::str::FromStr;

use static_file_server::mime_util::{
    category_from_path, guess_mime, is_compressible, is_text_based, FileCategory,
};

#[test]
fn test_guess_mime_html() {
    let mime = guess_mime("index.html");
    assert_eq!(mime.to_text(), mime::TEXT_HTML_UTF_8.to_string());
}

#[test]
fn test_guess_mime_font() {
    let mime = guess_mime("font.woff");
    assert_eq!(mime.top, "font");
}

#[test]
fn test_category_html() {
    assert_eq!(category_from_path("index.html"), FileCategory::Html);
}

#[test]
fn test_category_image() {
    assert_eq!(category_from_path("logo.png"), FileCategory::Image);
}

#[test]
fn extension_case_does_not_matter() {
    assert_eq!(category_from_path("PHOTO.JPG"), FileCategory::Image);
    assert_eq!(guess_mime("INDEX.HTML").to_text(), "text/html; charset=utf-8");
}

#[test]
fn unknown_extension_falls_back_to_mime_guess() {
    assert_eq!(guess_mime("report.pdf").to_text(), "application/pdf");
    assert_eq!(guess_mime("noextension").to_text(), "application/octet-stream");
    assert_eq!(category_from_path("noextension"), FileCategory::Other);
}

#[test]
fn text_and_compressible_types() {
    let css = guess_mime("site.css");
    assert!(is_text_based(&css));
    assert!(is_compressible(&css));
    let png = guess_mime("logo.png");
    assert!(!is_text_based(&png));
    assert!(!is_compressible(&png));
}

#[test]
fn category_names() {
    assert_eq!(FileCategory::Html.as_str(), "html");
    assert_eq!(FileCategory::JavaScript.as_str(), "javascript");
    assert_eq!(FileCategory::Other.as_str(), "other");
}

#[test]
fn table_matches_the_mime_crate() {
    let parsed = |s: &str| mime::Mime::from_str(s).unwrap();
    let cases: Vec<(&str, mime::Mime)> = vec![
        ("a.html", mime::TEXT_HTML_UTF_8),
        ("a.htm", mime::TEXT_HTML_UTF_8),
        ("a.css", mime::TEXT_CSS),
        ("a.js", mime::APPLICATION_JAVASCRIPT_UTF_8),
        ("a.mjs", mime::APPLICATION_JAVASCRIPT_UTF_8),
        ("a.json", mime::APPLICATION_JSON),
        ("a.xml", mime::TEXT_XML),
        ("a.txt", mime::TEXT_PLAIN_UTF_8),
        ("a.png", mime::IMAGE_PNG),
        ("a.jpg", mime::IMAGE_JPEG),
        ("a.jpeg", mime::IMAGE_JPEG),
        ("a.gif", mime::IMAGE_GIF),
        ("a.webp", parsed("image/webp")),
        ("a.svg", parsed("image/svg+xml")),
        ("a.svgz", parsed("image/svg+xml")),
        ("a.ico", parsed("image/x-icon")),
        ("a.bmp", mime::IMAGE_BMP),
        ("a.tiff", parsed("image/tiff")),
        ("a.tif", parsed("image/tiff")),
        ("a.woff", parsed("font/woff")),
        ("a.woff2", parsed("font/woff2")),
        ("a.ttf", parsed("font/ttf")),
        ("a.otf", parsed("font/otf")),
        ("a.eot", parsed("application/vnd.ms-fontobject")),
        ("a.mp4", parsed("video/mp4")),
        ("a.webm", parsed("video/webm")),
        ("a.ogg", parsed("video/ogg")),
        ("a.avi", parsed("video/x-msvideo")),
        ("a.mov", parsed("video/quicktime")),
        ("a.mp3", parsed("audio/mpeg")),
        ("a.wav", parsed("audio/wav")),
        ("a.flac", parsed("audio/flac")),
        ("a.aac", parsed("audio/aac")),
        ("a.pdf", mime::APPLICATION_PDF),
        ("a.zip", parsed("application/zip")),
        ("a.tar", parsed("application/x-tar")),
        ("a.gz", parsed("application/gzip")),
        ("a.br", parsed("application/brotli")),
        ("a.rar", parsed("application/vnd.rar")),
        ("a.7z", parsed("application/x-7z-compressed")),
        ("a.csv", parsed("text/csv")),
        ("a.md", parsed("text/markdown")),
        ("a.markdown", parsed("text/markdown")),
        ("a.yaml", parsed("application/yaml")),
        ("a.yml", parsed("application/yaml")),
        ("a.toml", parsed("application/toml")),
        ("a.wasm", parsed("application/wasm")),
    ];
    for (path, expected) in cases {
        let got = guess_mime(path);
        assert_eq!(got.to_text(), expected.to_string(), "{}", path);
        assert_eq!(got.top, expected.type_().as_str(), "{}", path);
        assert_eq!(got.sub, expected.subtype().as_str(), "{}", path);
        assert_eq!(got.suffix.as_deref(), expected.suffix().map(|s| s.as_str()), "{}", path);
    }
}

#[test]
fn svg_images_are_not_compressed() {
    let svg = guess_mime("logo.svg");
    assert_eq!(svg.sub, "svg");
    assert_eq!(svg.suffix.as_deref(), Some("xml"));
    assert!(!is_compressible(&svg));
    assert!(!is_text_based(&svg));
}
