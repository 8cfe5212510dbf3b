//! Content types: the media type served for a path, the file category that
//! drives caching, and which media types are text or worth compressing.
use vstd::prelude::*;
use crate::paths::{extension, path_extension};
use crate::text::{
    chars_of, is_lit, opt_view, owned, push_char, push_str, to_lowercase, unicode_lowercase,
};

verus! {

/// A media type: `type/subtype`, an optional `+suffix`, and the parameter
/// text that follows the essence (such as `; charset=utf-8`), exactly as
/// the `mime` crate splits a `Mime`.
#[derive(Clone, Debug)]
pub struct MimeType {
    pub top: String,
    pub sub: String,
    pub suffix: Option<String>,
    pub params: String,
}

/// The view of a media type: type, subtype, suffix, parameter text.
pub type MimeView = (Seq<char>, Seq<char>, Option<Seq<char>>, Seq<char>);

impl View for MimeType {
    type V = MimeView;

    open spec fn view(&self) -> MimeView {
        (self.top@, self.sub@, opt_view(self.suffix), self.params@)
    }
}

/// The text of a media type (`Display` for `Mime`).
pub open spec fn mime_text(m: MimeView) -> Seq<char> {
    m.0 + seq!['/'] + m.1 + (match m.2 {
        Some(s) => seq!['+'] + s,
        None => seq![],
    }) + m.3
}

impl MimeType {
    /// A media type from its parts.
    pub fn from_parts(top: &str, sub: &str, suffix: Option<&str>, params: &str) -> (m: MimeType)
        ensures
            m@ == (top@, sub@, match suffix {
                Some(s) => Some(s@),
                None => None,
            }, params@),
    {
        MimeType {
            top: owned(top),
            sub: owned(sub),
            suffix: match suffix {
                Some(s) => Some(owned(s)),
                None => None,
            },
            params: owned(params),
        }
    }

    /// The text of the media type, as sent in `Content-Type`.
    pub fn to_text(&self) -> (r: String)
        ensures
            r@ == mime_text(self@),
    {
        let mut r = String::new();
        push_str(&mut r, self.top.as_str());
        push_char(&mut r, '/');
        push_str(&mut r, self.sub.as_str());
        match &self.suffix {
            Some(s) => {
                push_char(&mut r, '+');
                push_str(&mut r, s.as_str());
            },
            None => {},
        }
        push_str(&mut r, self.params.as_str());
        r
    }
}

/// What `mime_guess` offers for a path: the parts of the first media type
/// it knows for the path's extension, or of `application/octet-stream`.
pub uninterp spec fn mime_guess_parts(path: Seq<char>) -> MimeView;

/// `mime_guess::from_path(path).first_or_octet_stream()`, taken apart into
/// type, subtype, suffix and parameter text; this is all its contract
/// claims, through the name `mime_guess_parts`.
#[verifier::external_body]
fn mime_guess_from_path(path: &str) -> (m: MimeType)
    ensures
        m@ == mime_guess_parts(path@),
{
    let g = mime_guess::from_path(path).first_or_octet_stream();
    let source: &str = g.as_ref();
    MimeType {
        top: g.type_().as_str().to_string(),
        sub: g.subtype().as_str().to_string(),
        suffix: match g.suffix() {
            Some(s) => Some(s.as_str().to_string()),
            None => None,
        },
        params: source[g.essence_str().len()..].to_string(),
    }
}

/// A name that the `mime` parser keeps as written: non-empty, made of
/// lowercase ASCII letters, digits, `-` and `.`.
pub open spec fn plain_name(s: Seq<char>) -> bool {
    &&& s.len() > 0
    &&& forall|i: int|
        0 <= i < s.len() ==> ('a' <= #[trigger] s[i] <= 'z' || '0' <= s[i] <= '9' || s[i] == '-'
            || s[i] == '.')
}

/// `text` is `type/subtype`, or `type/subtype+suffix`, written with plain
/// names `t`, `s` and `x`.
pub open spec fn plain_split(
    text: Seq<char>,
    t: Seq<char>,
    s: Seq<char>,
    x: Option<Seq<char>>,
) -> bool {
    &&& plain_name(t)
    &&& plain_name(s)
    &&& match x {
        Some(x) => plain_name(x) && text == t + seq!['/'] + s + seq!['+'] + x,
        None => text == t + seq!['/'] + s,
    }
}

/// The view of an optional media type.
pub open spec fn opt_mime_view(m: Option<MimeType>) -> Option<MimeView> {
    match m {
        Some(m) => Some(m@),
        None => None,
    }
}

/// What `Mime::from_str` makes of a text: its parts, or `None` where the
/// parser refuses the text.
pub uninterp spec fn mime_parsed(text: Seq<char>) -> Option<MimeView>;

/// `Mime::from_str(text)` (through `str::parse`), taken apart as for
/// `mime_guess`, with `None` for a parse error. The outcome is named
/// `mime_parsed(text)`; the one case stated outright is the one the
/// parser's source makes plain: `type/subtype` and `type/subtype+suffix`
/// written with plain names come back as exactly those parts, with no
/// parameters.
#[verifier::external_body]
fn mime_parse(text: &str) -> (r: Option<MimeType>)
    ensures
        opt_mime_view(r) == mime_parsed(text@),
        forall|t: Seq<char>, s: Seq<char>, x: Option<Seq<char>>|
            #[trigger] plain_split(text@, t, s, x) ==> opt_mime_view(r) == Some(
                (t, s, x, Seq::<char>::empty()),
            ),
{
    let g = match text.parse::<mime::Mime>() {
        Ok(g) => g,
        Err(_) => return None,
    };
    let source: &str = g.as_ref();
    Some(MimeType {
        top: g.type_().as_str().to_string(),
        sub: g.subtype().as_str().to_string(),
        suffix: match g.suffix() {
            Some(s) => Some(s.as_str().to_string()),
            None => None,
        },
        params: source[g.essence_str().len()..].to_string(),
    })
}

/// The media type `text` parses into, or `fallback` where it does not
/// parse (`Mime::from_str(text).unwrap_or(fallback)`); for a text written
/// with plain names, its parts.
fn parsed_or(
    text: &str,
    fallback: MimeType,
    Ghost(t): Ghost<Seq<char>>,
    Ghost(s): Ghost<Seq<char>>,
    Ghost(x): Ghost<Option<Seq<char>>>,
) -> (r: MimeType)
    requires
        plain_split(text@, t, s, x),
    ensures
        r@ == (t, s, x, Seq::<char>::empty()),
{
    match mime_parse(text) {
        Some(m) => m,
        None => fallback,
    }
}

/// A media type given by its parts, as a view.
pub open spec fn mv(top: &str, sub: &str, params: &str) -> MimeView {
    (top@, sub@, None, params@)
}

/// The media types the server knows by (lowercase) extension. The entries
/// that are not constants of the `mime` crate are what `Mime::from_str`
/// gives for their text, which is written with plain names.
pub open spec fn known_mime(ext: Seq<char>) -> Option<MimeView> {
    if ext == "html"@ || ext == "htm"@ {
        Some(mv("text", "html", "; charset=utf-8"))
    } else if ext == "css"@ {
        Some(mv("text", "css", ""))
    } else if ext == "js"@ || ext == "mjs"@ {
        Some(mv("application", "javascript", "; charset=utf-8"))
    } else if ext == "json"@ {
        Some(mv("application", "json", ""))
    } else if ext == "xml"@ {
        Some(mv("text", "xml", ""))
    } else if ext == "txt"@ {
        Some(mv("text", "plain", "; charset=utf-8"))
    } else if ext == "png"@ {
        Some(mv("image", "png", ""))
    } else if ext == "jpg"@ || ext == "jpeg"@ {
        Some(mv("image", "jpeg", ""))
    } else if ext == "gif"@ {
        Some(mv("image", "gif", ""))
    } else if ext == "webp"@ {
        Some(mv("image", "webp", ""))
    } else if ext == "svg"@ || ext == "svgz"@ {
        Some(("image"@, "svg"@, Some("xml"@), ""@))
    } else if ext == "ico"@ {
        Some(mv("image", "x-icon", ""))
    } else if ext == "bmp"@ {
        Some(mv("image", "bmp", ""))
    } else if ext == "tiff"@ || ext == "tif"@ {
        Some(mv("image", "tiff", ""))
    } else if ext == "woff"@ {
        Some(mv("font", "woff", ""))
    } else if ext == "woff2"@ {
        Some(mv("font", "woff2", ""))
    } else if ext == "ttf"@ {
        Some(mv("font", "ttf", ""))
    } else if ext == "otf"@ {
        Some(mv("font", "otf", ""))
    } else if ext == "eot"@ {
        Some(mv("application", "vnd.ms-fontobject", ""))
    } else if ext == "mp4"@ {
        Some(mv("video", "mp4", ""))
    } else if ext == "webm"@ {
        Some(mv("video", "webm", ""))
    } else if ext == "ogg"@ {
        Some(mv("video", "ogg", ""))
    } else if ext == "avi"@ {
        Some(mv("video", "x-msvideo", ""))
    } else if ext == "mov"@ {
        Some(mv("video", "quicktime", ""))
    } else if ext == "mp3"@ {
        Some(mv("audio", "mpeg", ""))
    } else if ext == "wav"@ {
        Some(mv("audio", "wav", ""))
    } else if ext == "flac"@ {
        Some(mv("audio", "flac", ""))
    } else if ext == "aac"@ {
        Some(mv("audio", "aac", ""))
    } else if ext == "pdf"@ {
        Some(mv("application", "pdf", ""))
    } else if ext == "zip"@ {
        Some(mv("application", "zip", ""))
    } else if ext == "tar"@ {
        Some(mv("application", "x-tar", ""))
    } else if ext == "gz"@ {
        Some(mv("application", "gzip", ""))
    } else if ext == "br"@ {
        Some(mv("application", "brotli", ""))
    } else if ext == "rar"@ {
        Some(mv("application", "vnd.rar", ""))
    } else if ext == "7z"@ {
        Some(mv("application", "x-7z-compressed", ""))
    } else if ext == "csv"@ {
        Some(mv("text", "csv", ""))
    } else if ext == "md"@ || ext == "markdown"@ {
        Some(mv("text", "markdown", ""))
    } else if ext == "yaml"@ || ext == "yml"@ {
        Some(mv("application", "yaml", ""))
    } else if ext == "toml"@ {
        Some(mv("application", "toml", ""))
    } else if ext == "wasm"@ {
        Some(mv("application", "wasm", ""))
    } else {
        None
    }
}

/// The texts that the server's table hands to `Mime::from_str` are
/// written with plain names.
proof fn lemma_table_texts_plain()
    ensures
        plain_split("image/webp"@, "image"@, "webp"@, None),
        plain_split("image/svg+xml"@, "image"@, "svg"@, Some("xml"@)),
        plain_split("image/x-icon"@, "image"@, "x-icon"@, None),
        plain_split("image/tiff"@, "image"@, "tiff"@, None),
        plain_split("font/woff"@, "font"@, "woff"@, None),
        plain_split("font/woff2"@, "font"@, "woff2"@, None),
        plain_split("font/ttf"@, "font"@, "ttf"@, None),
        plain_split("font/otf"@, "font"@, "otf"@, None),
        plain_split("application/vnd.ms-fontobject"@, "application"@, "vnd.ms-fontobject"@, None),
        plain_split("video/mp4"@, "video"@, "mp4"@, None),
        plain_split("video/webm"@, "video"@, "webm"@, None),
        plain_split("video/ogg"@, "video"@, "ogg"@, None),
        plain_split("video/x-msvideo"@, "video"@, "x-msvideo"@, None),
        plain_split("video/quicktime"@, "video"@, "quicktime"@, None),
        plain_split("audio/mpeg"@, "audio"@, "mpeg"@, None),
        plain_split("audio/wav"@, "audio"@, "wav"@, None),
        plain_split("audio/flac"@, "audio"@, "flac"@, None),
        plain_split("audio/aac"@, "audio"@, "aac"@, None),
        plain_split("application/zip"@, "application"@, "zip"@, None),
        plain_split("application/x-tar"@, "application"@, "x-tar"@, None),
        plain_split("application/gzip"@, "application"@, "gzip"@, None),
        plain_split("application/brotli"@, "application"@, "brotli"@, None),
        plain_split("application/vnd.rar"@, "application"@, "vnd.rar"@, None),
        plain_split("application/x-7z-compressed"@, "application"@, "x-7z-compressed"@, None),
        plain_split("text/csv"@, "text"@, "csv"@, None),
        plain_split("text/markdown"@, "text"@, "markdown"@, None),
        plain_split("application/yaml"@, "application"@, "yaml"@, None),
        plain_split("application/toml"@, "application"@, "toml"@, None),
        plain_split("application/wasm"@, "application"@, "wasm"@, None),
{
    assert(plain_split("image/webp"@, "image"@, "webp"@, None)) by {
        reveal_strlit("image/webp");
        reveal_strlit("image");
        reveal_strlit("webp");
        assert("image/webp"@ =~= "image"@ + seq!['/'] + "webp"@);
    }
    assert(plain_split("image/svg+xml"@, "image"@, "svg"@, Some("xml"@))) by {
        reveal_strlit("image/svg+xml");
        reveal_strlit("image");
        reveal_strlit("svg");
        reveal_strlit("xml");
        assert("image/svg+xml"@ =~= "image"@ + seq!['/'] + "svg"@ + seq!['+'] + "xml"@);
    }
    assert(plain_split("image/x-icon"@, "image"@, "x-icon"@, None)) by {
        reveal_strlit("image/x-icon");
        reveal_strlit("image");
        reveal_strlit("x-icon");
        assert("image/x-icon"@ =~= "image"@ + seq!['/'] + "x-icon"@);
    }
    assert(plain_split("image/tiff"@, "image"@, "tiff"@, None)) by {
        reveal_strlit("image/tiff");
        reveal_strlit("image");
        reveal_strlit("tiff");
        assert("image/tiff"@ =~= "image"@ + seq!['/'] + "tiff"@);
    }
    assert(plain_split("font/woff"@, "font"@, "woff"@, None)) by {
        reveal_strlit("font/woff");
        reveal_strlit("font");
        reveal_strlit("woff");
        assert("font/woff"@ =~= "font"@ + seq!['/'] + "woff"@);
    }
    assert(plain_split("font/woff2"@, "font"@, "woff2"@, None)) by {
        reveal_strlit("font/woff2");
        reveal_strlit("font");
        reveal_strlit("woff2");
        assert("font/woff2"@ =~= "font"@ + seq!['/'] + "woff2"@);
    }
    assert(plain_split("font/ttf"@, "font"@, "ttf"@, None)) by {
        reveal_strlit("font/ttf");
        reveal_strlit("font");
        reveal_strlit("ttf");
        assert("font/ttf"@ =~= "font"@ + seq!['/'] + "ttf"@);
    }
    assert(plain_split("font/otf"@, "font"@, "otf"@, None)) by {
        reveal_strlit("font/otf");
        reveal_strlit("font");
        reveal_strlit("otf");
        assert("font/otf"@ =~= "font"@ + seq!['/'] + "otf"@);
    }
    assert(plain_split("application/vnd.ms-fontobject"@, "application"@, "vnd.ms-fontobject"@, None)) by {
        reveal_strlit("application/vnd.ms-fontobject");
        reveal_strlit("application");
        reveal_strlit("vnd.ms-fontobject");
        assert("application/vnd.ms-fontobject"@ =~= "application"@ + seq!['/'] + "vnd.ms-fontobject"@);
    }
    assert(plain_split("video/mp4"@, "video"@, "mp4"@, None)) by {
        reveal_strlit("video/mp4");
        reveal_strlit("video");
        reveal_strlit("mp4");
        assert("video/mp4"@ =~= "video"@ + seq!['/'] + "mp4"@);
    }
    assert(plain_split("video/webm"@, "video"@, "webm"@, None)) by {
        reveal_strlit("video/webm");
        reveal_strlit("video");
        reveal_strlit("webm");
        assert("video/webm"@ =~= "video"@ + seq!['/'] + "webm"@);
    }
    assert(plain_split("video/ogg"@, "video"@, "ogg"@, None)) by {
        reveal_strlit("video/ogg");
        reveal_strlit("video");
        reveal_strlit("ogg");
        assert("video/ogg"@ =~= "video"@ + seq!['/'] + "ogg"@);
    }
    assert(plain_split("video/x-msvideo"@, "video"@, "x-msvideo"@, None)) by {
        reveal_strlit("video/x-msvideo");
        reveal_strlit("video");
        reveal_strlit("x-msvideo");
        assert("video/x-msvideo"@ =~= "video"@ + seq!['/'] + "x-msvideo"@);
    }
    assert(plain_split("video/quicktime"@, "video"@, "quicktime"@, None)) by {
        reveal_strlit("video/quicktime");
        reveal_strlit("video");
        reveal_strlit("quicktime");
        assert("video/quicktime"@ =~= "video"@ + seq!['/'] + "quicktime"@);
    }
    assert(plain_split("audio/mpeg"@, "audio"@, "mpeg"@, None)) by {
        reveal_strlit("audio/mpeg");
        reveal_strlit("audio");
        reveal_strlit("mpeg");
        assert("audio/mpeg"@ =~= "audio"@ + seq!['/'] + "mpeg"@);
    }
    assert(plain_split("audio/wav"@, "audio"@, "wav"@, None)) by {
        reveal_strlit("audio/wav");
        reveal_strlit("audio");
        reveal_strlit("wav");
        assert("audio/wav"@ =~= "audio"@ + seq!['/'] + "wav"@);
    }
    assert(plain_split("audio/flac"@, "audio"@, "flac"@, None)) by {
        reveal_strlit("audio/flac");
        reveal_strlit("audio");
        reveal_strlit("flac");
        assert("audio/flac"@ =~= "audio"@ + seq!['/'] + "flac"@);
    }
    assert(plain_split("audio/aac"@, "audio"@, "aac"@, None)) by {
        reveal_strlit("audio/aac");
        reveal_strlit("audio");
        reveal_strlit("aac");
        assert("audio/aac"@ =~= "audio"@ + seq!['/'] + "aac"@);
    }
    assert(plain_split("application/zip"@, "application"@, "zip"@, None)) by {
        reveal_strlit("application/zip");
        reveal_strlit("application");
        reveal_strlit("zip");
        assert("application/zip"@ =~= "application"@ + seq!['/'] + "zip"@);
    }
    assert(plain_split("application/x-tar"@, "application"@, "x-tar"@, None)) by {
        reveal_strlit("application/x-tar");
        reveal_strlit("application");
        reveal_strlit("x-tar");
        assert("application/x-tar"@ =~= "application"@ + seq!['/'] + "x-tar"@);
    }
    assert(plain_split("application/gzip"@, "application"@, "gzip"@, None)) by {
        reveal_strlit("application/gzip");
        reveal_strlit("application");
        reveal_strlit("gzip");
        assert("application/gzip"@ =~= "application"@ + seq!['/'] + "gzip"@);
    }
    assert(plain_split("application/brotli"@, "application"@, "brotli"@, None)) by {
        reveal_strlit("application/brotli");
        reveal_strlit("application");
        reveal_strlit("brotli");
        assert("application/brotli"@ =~= "application"@ + seq!['/'] + "brotli"@);
    }
    assert(plain_split("application/vnd.rar"@, "application"@, "vnd.rar"@, None)) by {
        reveal_strlit("application/vnd.rar");
        reveal_strlit("application");
        reveal_strlit("vnd.rar");
        assert("application/vnd.rar"@ =~= "application"@ + seq!['/'] + "vnd.rar"@);
    }
    assert(plain_split("application/x-7z-compressed"@, "application"@, "x-7z-compressed"@, None)) by {
        reveal_strlit("application/x-7z-compressed");
        reveal_strlit("application");
        reveal_strlit("x-7z-compressed");
        assert("application/x-7z-compressed"@ =~= "application"@ + seq!['/'] + "x-7z-compressed"@);
    }
    assert(plain_split("text/csv"@, "text"@, "csv"@, None)) by {
        reveal_strlit("text/csv");
        reveal_strlit("text");
        reveal_strlit("csv");
        assert("text/csv"@ =~= "text"@ + seq!['/'] + "csv"@);
    }
    assert(plain_split("text/markdown"@, "text"@, "markdown"@, None)) by {
        reveal_strlit("text/markdown");
        reveal_strlit("text");
        reveal_strlit("markdown");
        assert("text/markdown"@ =~= "text"@ + seq!['/'] + "markdown"@);
    }
    assert(plain_split("application/yaml"@, "application"@, "yaml"@, None)) by {
        reveal_strlit("application/yaml");
        reveal_strlit("application");
        reveal_strlit("yaml");
        assert("application/yaml"@ =~= "application"@ + seq!['/'] + "yaml"@);
    }
    assert(plain_split("application/toml"@, "application"@, "toml"@, None)) by {
        reveal_strlit("application/toml");
        reveal_strlit("application");
        reveal_strlit("toml");
        assert("application/toml"@ =~= "application"@ + seq!['/'] + "toml"@);
    }
    assert(plain_split("application/wasm"@, "application"@, "wasm"@, None)) by {
        reveal_strlit("application/wasm");
        reveal_strlit("application");
        reveal_strlit("wasm");
        assert("application/wasm"@ =~= "application"@ + seq!['/'] + "wasm"@);
    }
}

fn m(top: &str, sub: &str, params: &str) -> (r: MimeType)
    ensures
        r@ == mv(top, sub, params),
{
    MimeType::from_parts(top, sub, None, params)
}

/// The media type for a path whose lowercase extension is `ext`: the
/// server's own table, else what `mime_guess` says for the path.
pub fn mime_for_extension(ext: &str, path: &str) -> (r: MimeType)
    ensures
        r@ == (match known_mime(ext@) {
            Some(v) => v,
            None => mime_guess_parts(path@),
        }),
{
    proof {
        lemma_table_texts_plain();
        reveal_strlit("");
    }
    let e = chars_of(ext);
    let e = e.as_slice();
    if is_lit(e, "html") || is_lit(e, "htm") {
        m("text", "html", "; charset=utf-8")
    } else if is_lit(e, "css") {
        m("text", "css", "")
    } else if is_lit(e, "js") || is_lit(e, "mjs") {
        m("application", "javascript", "; charset=utf-8")
    } else if is_lit(e, "json") {
        m("application", "json", "")
    } else if is_lit(e, "xml") {
        m("text", "xml", "")
    } else if is_lit(e, "txt") {
        m("text", "plain", "; charset=utf-8")
    } else if is_lit(e, "png") {
        m("image", "png", "")
    } else if is_lit(e, "jpg") || is_lit(e, "jpeg") {
        m("image", "jpeg", "")
    } else if is_lit(e, "gif") {
        m("image", "gif", "")
    } else if is_lit(e, "webp") {
        parsed_or(
            "image/webp",
            m("image", "png", ""),
            Ghost("image"@),
            Ghost("webp"@),
            Ghost(None),
        )
    } else if is_lit(e, "svg") || is_lit(e, "svgz") {
        parsed_or(
            "image/svg+xml",
            MimeType::from_parts("image", "svg", Some("xml"), ""),
            Ghost("image"@),
            Ghost("svg"@),
            Ghost(Some("xml"@)),
        )
    } else if is_lit(e, "ico") {
        parsed_or(
            "image/x-icon",
            m("image", "png", ""),
            Ghost("image"@),
            Ghost("x-icon"@),
            Ghost(None),
        )
    } else if is_lit(e, "bmp") {
        m("image", "bmp", "")
    } else if is_lit(e, "tiff") || is_lit(e, "tif") {
        parsed_or(
            "image/tiff",
            m("image", "png", ""),
            Ghost("image"@),
            Ghost("tiff"@),
            Ghost(None),
        )
    } else if is_lit(e, "woff") {
        parsed_or(
            "font/woff",
            m("application", "octet-stream", ""),
            Ghost("font"@),
            Ghost("woff"@),
            Ghost(None),
        )
    } else if is_lit(e, "woff2") {
        parsed_or(
            "font/woff2",
            m("application", "octet-stream", ""),
            Ghost("font"@),
            Ghost("woff2"@),
            Ghost(None),
        )
    } else if is_lit(e, "ttf") {
        parsed_or(
            "font/ttf",
            m("application", "octet-stream", ""),
            Ghost("font"@),
            Ghost("ttf"@),
            Ghost(None),
        )
    } else if is_lit(e, "otf") {
        parsed_or(
            "font/otf",
            m("application", "octet-stream", ""),
            Ghost("font"@),
            Ghost("otf"@),
            Ghost(None),
        )
    } else if is_lit(e, "eot") {
        parsed_or(
            "application/vnd.ms-fontobject",
            m("application", "octet-stream", ""),
            Ghost("application"@),
            Ghost("vnd.ms-fontobject"@),
            Ghost(None),
        )
    } else if is_lit(e, "mp4") {
        parsed_or(
            "video/mp4",
            m("application", "octet-stream", ""),
            Ghost("video"@),
            Ghost("mp4"@),
            Ghost(None),
        )
    } else if is_lit(e, "webm") {
        parsed_or(
            "video/webm",
            m("application", "octet-stream", ""),
            Ghost("video"@),
            Ghost("webm"@),
            Ghost(None),
        )
    } else if is_lit(e, "ogg") {
        parsed_or(
            "video/ogg",
            m("application", "octet-stream", ""),
            Ghost("video"@),
            Ghost("ogg"@),
            Ghost(None),
        )
    } else if is_lit(e, "avi") {
        parsed_or(
            "video/x-msvideo",
            m("application", "octet-stream", ""),
            Ghost("video"@),
            Ghost("x-msvideo"@),
            Ghost(None),
        )
    } else if is_lit(e, "mov") {
        parsed_or(
            "video/quicktime",
            m("application", "octet-stream", ""),
            Ghost("video"@),
            Ghost("quicktime"@),
            Ghost(None),
        )
    } else if is_lit(e, "mp3") {
        parsed_or(
            "audio/mpeg",
            m("application", "octet-stream", ""),
            Ghost("audio"@),
            Ghost("mpeg"@),
            Ghost(None),
        )
    } else if is_lit(e, "wav") {
        parsed_or(
            "audio/wav",
            m("application", "octet-stream", ""),
            Ghost("audio"@),
            Ghost("wav"@),
            Ghost(None),
        )
    } else if is_lit(e, "flac") {
        parsed_or(
            "audio/flac",
            m("application", "octet-stream", ""),
            Ghost("audio"@),
            Ghost("flac"@),
            Ghost(None),
        )
    } else if is_lit(e, "aac") {
        parsed_or(
            "audio/aac",
            m("application", "octet-stream", ""),
            Ghost("audio"@),
            Ghost("aac"@),
            Ghost(None),
        )
    } else if is_lit(e, "pdf") {
        m("application", "pdf", "")
    } else if is_lit(e, "zip") {
        parsed_or(
            "application/zip",
            m("application", "octet-stream", ""),
            Ghost("application"@),
            Ghost("zip"@),
            Ghost(None),
        )
    } else if is_lit(e, "tar") {
        parsed_or(
            "application/x-tar",
            m("application", "octet-stream", ""),
            Ghost("application"@),
            Ghost("x-tar"@),
            Ghost(None),
        )
    } else if is_lit(e, "gz") {
        parsed_or(
            "application/gzip",
            m("application", "octet-stream", ""),
            Ghost("application"@),
            Ghost("gzip"@),
            Ghost(None),
        )
    } else if is_lit(e, "br") {
        parsed_or(
            "application/brotli",
            m("application", "octet-stream", ""),
            Ghost("application"@),
            Ghost("brotli"@),
            Ghost(None),
        )
    } else if is_lit(e, "rar") {
        parsed_or(
            "application/vnd.rar",
            m("application", "octet-stream", ""),
            Ghost("application"@),
            Ghost("vnd.rar"@),
            Ghost(None),
        )
    } else if is_lit(e, "7z") {
        parsed_or(
            "application/x-7z-compressed",
            m("application", "octet-stream", ""),
            Ghost("application"@),
            Ghost("x-7z-compressed"@),
            Ghost(None),
        )
    } else if is_lit(e, "csv") {
        parsed_or(
            "text/csv",
            m("text", "plain", "; charset=utf-8"),
            Ghost("text"@),
            Ghost("csv"@),
            Ghost(None),
        )
    } else if is_lit(e, "md") || is_lit(e, "markdown") {
        parsed_or(
            "text/markdown",
            m("text", "plain", "; charset=utf-8"),
            Ghost("text"@),
            Ghost("markdown"@),
            Ghost(None),
        )
    } else if is_lit(e, "yaml") || is_lit(e, "yml") {
        parsed_or(
            "application/yaml",
            m("application", "octet-stream", ""),
            Ghost("application"@),
            Ghost("yaml"@),
            Ghost(None),
        )
    } else if is_lit(e, "toml") {
        parsed_or(
            "application/toml",
            m("application", "octet-stream", ""),
            Ghost("application"@),
            Ghost("toml"@),
            Ghost(None),
        )
    } else if is_lit(e, "wasm") {
        parsed_or(
            "application/wasm",
            m("application", "octet-stream", ""),
            Ghost("application"@),
            Ghost("wasm"@),
            Ghost(None),
        )
    } else {
        mime_guess_from_path(path)
    }
}

/// The extension of a path as the server matches it: lowercased, and
/// empty when the path has none.
pub open spec fn lower_extension(path: Seq<char>) -> Seq<char> {
    unicode_lowercase(
        match extension(path) {
            Some(e) => e,
            None => seq![],
        },
    )
}

/// The lowercase extension of a path (empty when there is none).
pub fn lowercase_extension(path: &str) -> (r: String)
    ensures
        r@ == lower_extension(path@),
{
    let p = chars_of(path);
    let e = match path_extension(p.as_slice()) {
        Some(e) => crate::text::string_of(e.as_slice()),
        None => String::new(),
    };
    to_lowercase(e.as_str())
}

/// The media type served for a path: the server's table for its
/// lowercase extension, else `mime_guess`.
pub open spec fn mime_of_path(path: Seq<char>) -> MimeView {
    match known_mime(lower_extension(path)) {
        Some(v) => v,
        None => mime_guess_parts(path),
    }
}

/// The media type served for a path.
pub fn guess_mime(path: &str) -> (r: MimeType)
    ensures
        r@ == mime_of_path(path@),
{
    let ext = lowercase_extension(path);
    mime_for_extension(ext.as_str(), path)
}

/// Media types whose content is text (the `svg+xml` subtype tested here
/// never occurs: `image/svg+xml` has subtype `svg` and suffix `xml`).
pub open spec fn text_based(m: MimeView) -> bool {
    ||| m.0 == "text"@
    ||| m.1 == "javascript"@
    ||| m.1 == "json"@
    ||| m.1 == "xml"@
    ||| m.1 == "svg+xml"@
    ||| m.1 == "html"@
    ||| m.1 == "css"@
    ||| m.1 == "markdown"@
    ||| m.1 == "yaml"@
    ||| m.1 == "toml"@
}

/// Media types worth compressing: text types, the `x-font-woff` subtype and
/// fonts. The `svg+xml` subtype tested here never occurs, since the subtype
/// of `image/svg+xml` is `svg` (with suffix `xml`), so SVG images are not
/// compressed.
pub open spec fn compressible(m: MimeView) -> bool {
    ||| text_based(m)
    ||| (m.0 == "image"@ && m.1 == "svg+xml"@)
    ||| m.1 == "x-font-woff"@
    ||| m.0 == "font"@
}

/// Text is worth compressing: every `text/*` type, and every type whose
/// subtype is `javascript`, `json`, `xml`, `html`, `css`, `markdown`,
/// `yaml` or `toml`, is text-based and compressible, whatever its suffix
/// and parameters; fonts are compressible too.
pub proof fn lemma_text_types_compress(m: MimeView)
    ensures
        m.0 == "text"@ ==> text_based(m) && compressible(m),
        m.1 == "javascript"@ || m.1 == "json"@ || m.1 == "xml"@ || m.1 == "html"@ || m.1 == "css"@ || m.1 == "markdown"@ || m.1 == "yaml"@ || m.1 == "toml"@ ==> text_based(m) && compressible(m),
        m.0 == "font"@ ==> compressible(m),
        text_based(m) ==> compressible(m),
{
}

/// The files the server's table knows as text (pages, stylesheets,
/// scripts, JSON, XML, plain text, CSV, Markdown, YAML, TOML) get a
/// text-based, compressible media type.
pub proof fn lemma_text_files_compress()
    ensures
        known_mime("html"@) is Some && text_based(known_mime("html"@)->0) && compressible(known_mime("html"@)->0),
        known_mime("htm"@) is Some && text_based(known_mime("htm"@)->0) && compressible(known_mime("htm"@)->0),
        known_mime("css"@) is Some && text_based(known_mime("css"@)->0) && compressible(known_mime("css"@)->0),
        known_mime("js"@) is Some && text_based(known_mime("js"@)->0) && compressible(known_mime("js"@)->0),
        known_mime("mjs"@) is Some && text_based(known_mime("mjs"@)->0) && compressible(known_mime("mjs"@)->0),
        known_mime("json"@) is Some && text_based(known_mime("json"@)->0) && compressible(known_mime("json"@)->0),
        known_mime("xml"@) is Some && text_based(known_mime("xml"@)->0) && compressible(known_mime("xml"@)->0),
        known_mime("txt"@) is Some && text_based(known_mime("txt"@)->0) && compressible(known_mime("txt"@)->0),
        known_mime("csv"@) is Some && text_based(known_mime("csv"@)->0) && compressible(known_mime("csv"@)->0),
        known_mime("md"@) is Some && text_based(known_mime("md"@)->0) && compressible(known_mime("md"@)->0),
        known_mime("markdown"@) is Some && text_based(known_mime("markdown"@)->0) && compressible(known_mime("markdown"@)->0),
        known_mime("yaml"@) is Some && text_based(known_mime("yaml"@)->0) && compressible(known_mime("yaml"@)->0),
        known_mime("yml"@) is Some && text_based(known_mime("yml"@)->0) && compressible(known_mime("yml"@)->0),
        known_mime("toml"@) is Some && text_based(known_mime("toml"@)->0) && compressible(known_mime("toml"@)->0),
{
    assert(known_mime("html"@) is Some && text_based(known_mime("html"@)->0) && compressible(known_mime("html"@)->0)) by {
        reveal_strlit("html");
    }
    assert(known_mime("htm"@) is Some && text_based(known_mime("htm"@)->0) && compressible(known_mime("htm"@)->0)) by {
        reveal_strlit("htm");
        reveal_strlit("html");
        assert("htm"@.len() != "html"@.len());
    }
    assert(known_mime("css"@) is Some && text_based(known_mime("css"@)->0) && compressible(known_mime("css"@)->0)) by {
        reveal_strlit("css");
        reveal_strlit("html");
        assert("css"@.len() != "html"@.len());
        reveal_strlit("htm");
        assert("css"@[0] != "htm"@[0]);
    }
    assert(known_mime("js"@) is Some && text_based(known_mime("js"@)->0) && compressible(known_mime("js"@)->0)) by {
        reveal_strlit("js");
        reveal_strlit("html");
        assert("js"@.len() != "html"@.len());
        reveal_strlit("htm");
        assert("js"@.len() != "htm"@.len());
        reveal_strlit("css");
        assert("js"@.len() != "css"@.len());
    }
    assert(known_mime("mjs"@) is Some && text_based(known_mime("mjs"@)->0) && compressible(known_mime("mjs"@)->0)) by {
        reveal_strlit("mjs");
        reveal_strlit("html");
        assert("mjs"@.len() != "html"@.len());
        reveal_strlit("htm");
        assert("mjs"@[0] != "htm"@[0]);
        reveal_strlit("css");
        assert("mjs"@[0] != "css"@[0]);
        reveal_strlit("js");
        assert("mjs"@.len() != "js"@.len());
    }
    assert(known_mime("json"@) is Some && text_based(known_mime("json"@)->0) && compressible(known_mime("json"@)->0)) by {
        reveal_strlit("json");
        reveal_strlit("html");
        assert("json"@[0] != "html"@[0]);
        reveal_strlit("htm");
        assert("json"@.len() != "htm"@.len());
        reveal_strlit("css");
        assert("json"@.len() != "css"@.len());
        reveal_strlit("js");
        assert("json"@.len() != "js"@.len());
        reveal_strlit("mjs");
        assert("json"@.len() != "mjs"@.len());
    }
    assert(known_mime("xml"@) is Some && text_based(known_mime("xml"@)->0) && compressible(known_mime("xml"@)->0)) by {
        reveal_strlit("xml");
        reveal_strlit("html");
        assert("xml"@.len() != "html"@.len());
        reveal_strlit("htm");
        assert("xml"@[0] != "htm"@[0]);
        reveal_strlit("css");
        assert("xml"@[0] != "css"@[0]);
        reveal_strlit("js");
        assert("xml"@.len() != "js"@.len());
        reveal_strlit("mjs");
        assert("xml"@[0] != "mjs"@[0]);
        reveal_strlit("json");
        assert("xml"@.len() != "json"@.len());
    }
    assert(known_mime("txt"@) is Some && text_based(known_mime("txt"@)->0) && compressible(known_mime("txt"@)->0)) by {
        reveal_strlit("txt");
        reveal_strlit("html");
        assert("txt"@.len() != "html"@.len());
        reveal_strlit("htm");
        assert("txt"@[0] != "htm"@[0]);
        reveal_strlit("css");
        assert("txt"@[0] != "css"@[0]);
        reveal_strlit("js");
        assert("txt"@.len() != "js"@.len());
        reveal_strlit("mjs");
        assert("txt"@[0] != "mjs"@[0]);
        reveal_strlit("json");
        assert("txt"@.len() != "json"@.len());
        reveal_strlit("xml");
        assert("txt"@[0] != "xml"@[0]);
    }
    assert(known_mime("csv"@) is Some && text_based(known_mime("csv"@)->0) && compressible(known_mime("csv"@)->0)) by {
        reveal_strlit("csv");
        reveal_strlit("html");
        assert("csv"@.len() != "html"@.len());
        reveal_strlit("htm");
        assert("csv"@[0] != "htm"@[0]);
        reveal_strlit("css");
        assert("csv"@[2] != "css"@[2]);
        reveal_strlit("js");
        assert("csv"@.len() != "js"@.len());
        reveal_strlit("mjs");
        assert("csv"@[0] != "mjs"@[0]);
        reveal_strlit("json");
        assert("csv"@.len() != "json"@.len());
        reveal_strlit("xml");
        assert("csv"@[0] != "xml"@[0]);
        reveal_strlit("txt");
        assert("csv"@[0] != "txt"@[0]);
        reveal_strlit("png");
        assert("csv"@[0] != "png"@[0]);
        reveal_strlit("jpg");
        assert("csv"@[0] != "jpg"@[0]);
        reveal_strlit("jpeg");
        assert("csv"@.len() != "jpeg"@.len());
        reveal_strlit("gif");
        assert("csv"@[0] != "gif"@[0]);
        reveal_strlit("webp");
        assert("csv"@.len() != "webp"@.len());
        reveal_strlit("svg");
        assert("csv"@[0] != "svg"@[0]);
        reveal_strlit("svgz");
        assert("csv"@.len() != "svgz"@.len());
        reveal_strlit("image");
        assert("csv"@.len() != "image"@.len());
        reveal_strlit("");
        assert("csv"@.len() != ""@.len());
        reveal_strlit("ico");
        assert("csv"@[0] != "ico"@[0]);
        reveal_strlit("bmp");
        assert("csv"@[0] != "bmp"@[0]);
        reveal_strlit("tiff");
        assert("csv"@.len() != "tiff"@.len());
        reveal_strlit("tif");
        assert("csv"@[0] != "tif"@[0]);
        reveal_strlit("woff");
        assert("csv"@.len() != "woff"@.len());
        reveal_strlit("woff2");
        assert("csv"@.len() != "woff2"@.len());
        reveal_strlit("ttf");
        assert("csv"@[0] != "ttf"@[0]);
        reveal_strlit("otf");
        assert("csv"@[0] != "otf"@[0]);
        reveal_strlit("eot");
        assert("csv"@[0] != "eot"@[0]);
        reveal_strlit("mp4");
        assert("csv"@[0] != "mp4"@[0]);
        reveal_strlit("webm");
        assert("csv"@.len() != "webm"@.len());
        reveal_strlit("ogg");
        assert("csv"@[0] != "ogg"@[0]);
        reveal_strlit("avi");
        assert("csv"@[0] != "avi"@[0]);
        reveal_strlit("mov");
        assert("csv"@[0] != "mov"@[0]);
        reveal_strlit("mp3");
        assert("csv"@[0] != "mp3"@[0]);
        reveal_strlit("wav");
        assert("csv"@[0] != "wav"@[0]);
        reveal_strlit("flac");
        assert("csv"@.len() != "flac"@.len());
        reveal_strlit("aac");
        assert("csv"@[0] != "aac"@[0]);
        reveal_strlit("pdf");
        assert("csv"@[0] != "pdf"@[0]);
        reveal_strlit("zip");
        assert("csv"@[0] != "zip"@[0]);
        reveal_strlit("tar");
        assert("csv"@[0] != "tar"@[0]);
        reveal_strlit("gz");
        assert("csv"@.len() != "gz"@.len());
        reveal_strlit("br");
        assert("csv"@.len() != "br"@.len());
        reveal_strlit("rar");
        assert("csv"@[0] != "rar"@[0]);
        reveal_strlit("7z");
        assert("csv"@.len() != "7z"@.len());
    }
    assert(known_mime("md"@) is Some && text_based(known_mime("md"@)->0) && compressible(known_mime("md"@)->0)) by {
        reveal_strlit("md");
        reveal_strlit("html");
        assert("md"@.len() != "html"@.len());
        reveal_strlit("htm");
        assert("md"@.len() != "htm"@.len());
        reveal_strlit("css");
        assert("md"@.len() != "css"@.len());
        reveal_strlit("js");
        assert("md"@[0] != "js"@[0]);
        reveal_strlit("mjs");
        assert("md"@.len() != "mjs"@.len());
        reveal_strlit("json");
        assert("md"@.len() != "json"@.len());
        reveal_strlit("xml");
        assert("md"@.len() != "xml"@.len());
        reveal_strlit("txt");
        assert("md"@.len() != "txt"@.len());
        reveal_strlit("png");
        assert("md"@.len() != "png"@.len());
        reveal_strlit("jpg");
        assert("md"@.len() != "jpg"@.len());
        reveal_strlit("jpeg");
        assert("md"@.len() != "jpeg"@.len());
        reveal_strlit("gif");
        assert("md"@.len() != "gif"@.len());
        reveal_strlit("webp");
        assert("md"@.len() != "webp"@.len());
        reveal_strlit("svg");
        assert("md"@.len() != "svg"@.len());
        reveal_strlit("svgz");
        assert("md"@.len() != "svgz"@.len());
        reveal_strlit("image");
        assert("md"@.len() != "image"@.len());
        reveal_strlit("");
        assert("md"@.len() != ""@.len());
        reveal_strlit("ico");
        assert("md"@.len() != "ico"@.len());
        reveal_strlit("bmp");
        assert("md"@.len() != "bmp"@.len());
        reveal_strlit("tiff");
        assert("md"@.len() != "tiff"@.len());
        reveal_strlit("tif");
        assert("md"@.len() != "tif"@.len());
        reveal_strlit("woff");
        assert("md"@.len() != "woff"@.len());
        reveal_strlit("woff2");
        assert("md"@.len() != "woff2"@.len());
        reveal_strlit("ttf");
        assert("md"@.len() != "ttf"@.len());
        reveal_strlit("otf");
        assert("md"@.len() != "otf"@.len());
        reveal_strlit("eot");
        assert("md"@.len() != "eot"@.len());
        reveal_strlit("mp4");
        assert("md"@.len() != "mp4"@.len());
        reveal_strlit("webm");
        assert("md"@.len() != "webm"@.len());
        reveal_strlit("ogg");
        assert("md"@.len() != "ogg"@.len());
        reveal_strlit("avi");
        assert("md"@.len() != "avi"@.len());
        reveal_strlit("mov");
        assert("md"@.len() != "mov"@.len());
        reveal_strlit("mp3");
        assert("md"@.len() != "mp3"@.len());
        reveal_strlit("wav");
        assert("md"@.len() != "wav"@.len());
        reveal_strlit("flac");
        assert("md"@.len() != "flac"@.len());
        reveal_strlit("aac");
        assert("md"@.len() != "aac"@.len());
        reveal_strlit("pdf");
        assert("md"@.len() != "pdf"@.len());
        reveal_strlit("zip");
        assert("md"@.len() != "zip"@.len());
        reveal_strlit("tar");
        assert("md"@.len() != "tar"@.len());
        reveal_strlit("gz");
        assert("md"@[0] != "gz"@[0]);
        reveal_strlit("br");
        assert("md"@[0] != "br"@[0]);
        reveal_strlit("rar");
        assert("md"@.len() != "rar"@.len());
        reveal_strlit("7z");
        assert("md"@[0] != "7z"@[0]);
        reveal_strlit("csv");
        assert("md"@.len() != "csv"@.len());
    }
    assert(known_mime("markdown"@) is Some && text_based(known_mime("markdown"@)->0) && compressible(known_mime("markdown"@)->0)) by {
        reveal_strlit("markdown");
        reveal_strlit("html");
        assert("markdown"@.len() != "html"@.len());
        reveal_strlit("htm");
        assert("markdown"@.len() != "htm"@.len());
        reveal_strlit("css");
        assert("markdown"@.len() != "css"@.len());
        reveal_strlit("js");
        assert("markdown"@.len() != "js"@.len());
        reveal_strlit("mjs");
        assert("markdown"@.len() != "mjs"@.len());
        reveal_strlit("json");
        assert("markdown"@.len() != "json"@.len());
        reveal_strlit("xml");
        assert("markdown"@.len() != "xml"@.len());
        reveal_strlit("txt");
        assert("markdown"@.len() != "txt"@.len());
        reveal_strlit("png");
        assert("markdown"@.len() != "png"@.len());
        reveal_strlit("jpg");
        assert("markdown"@.len() != "jpg"@.len());
        reveal_strlit("jpeg");
        assert("markdown"@.len() != "jpeg"@.len());
        reveal_strlit("gif");
        assert("markdown"@.len() != "gif"@.len());
        reveal_strlit("webp");
        assert("markdown"@.len() != "webp"@.len());
        reveal_strlit("svg");
        assert("markdown"@.len() != "svg"@.len());
        reveal_strlit("svgz");
        assert("markdown"@.len() != "svgz"@.len());
        reveal_strlit("image");
        assert("markdown"@.len() != "image"@.len());
        reveal_strlit("");
        assert("markdown"@.len() != ""@.len());
        reveal_strlit("ico");
        assert("markdown"@.len() != "ico"@.len());
        reveal_strlit("bmp");
        assert("markdown"@.len() != "bmp"@.len());
        reveal_strlit("tiff");
        assert("markdown"@.len() != "tiff"@.len());
        reveal_strlit("tif");
        assert("markdown"@.len() != "tif"@.len());
        reveal_strlit("woff");
        assert("markdown"@.len() != "woff"@.len());
        reveal_strlit("woff2");
        assert("markdown"@.len() != "woff2"@.len());
        reveal_strlit("ttf");
        assert("markdown"@.len() != "ttf"@.len());
        reveal_strlit("otf");
        assert("markdown"@.len() != "otf"@.len());
        reveal_strlit("eot");
        assert("markdown"@.len() != "eot"@.len());
        reveal_strlit("mp4");
        assert("markdown"@.len() != "mp4"@.len());
        reveal_strlit("webm");
        assert("markdown"@.len() != "webm"@.len());
        reveal_strlit("ogg");
        assert("markdown"@.len() != "ogg"@.len());
        reveal_strlit("avi");
        assert("markdown"@.len() != "avi"@.len());
        reveal_strlit("mov");
        assert("markdown"@.len() != "mov"@.len());
        reveal_strlit("mp3");
        assert("markdown"@.len() != "mp3"@.len());
        reveal_strlit("wav");
        assert("markdown"@.len() != "wav"@.len());
        reveal_strlit("flac");
        assert("markdown"@.len() != "flac"@.len());
        reveal_strlit("aac");
        assert("markdown"@.len() != "aac"@.len());
        reveal_strlit("pdf");
        assert("markdown"@.len() != "pdf"@.len());
        reveal_strlit("zip");
        assert("markdown"@.len() != "zip"@.len());
        reveal_strlit("tar");
        assert("markdown"@.len() != "tar"@.len());
        reveal_strlit("gz");
        assert("markdown"@.len() != "gz"@.len());
        reveal_strlit("br");
        assert("markdown"@.len() != "br"@.len());
        reveal_strlit("rar");
        assert("markdown"@.len() != "rar"@.len());
        reveal_strlit("7z");
        assert("markdown"@.len() != "7z"@.len());
        reveal_strlit("csv");
        assert("markdown"@.len() != "csv"@.len());
        reveal_strlit("md");
        assert("markdown"@.len() != "md"@.len());
    }
    assert(known_mime("yaml"@) is Some && text_based(known_mime("yaml"@)->0) && compressible(known_mime("yaml"@)->0)) by {
        reveal_strlit("yaml");
        reveal_strlit("html");
        assert("yaml"@[0] != "html"@[0]);
        reveal_strlit("htm");
        assert("yaml"@.len() != "htm"@.len());
        reveal_strlit("css");
        assert("yaml"@.len() != "css"@.len());
        reveal_strlit("js");
        assert("yaml"@.len() != "js"@.len());
        reveal_strlit("mjs");
        assert("yaml"@.len() != "mjs"@.len());
        reveal_strlit("json");
        assert("yaml"@[0] != "json"@[0]);
        reveal_strlit("xml");
        assert("yaml"@.len() != "xml"@.len());
        reveal_strlit("txt");
        assert("yaml"@.len() != "txt"@.len());
        reveal_strlit("png");
        assert("yaml"@.len() != "png"@.len());
        reveal_strlit("jpg");
        assert("yaml"@.len() != "jpg"@.len());
        reveal_strlit("jpeg");
        assert("yaml"@[0] != "jpeg"@[0]);
        reveal_strlit("gif");
        assert("yaml"@.len() != "gif"@.len());
        reveal_strlit("webp");
        assert("yaml"@[0] != "webp"@[0]);
        reveal_strlit("svg");
        assert("yaml"@.len() != "svg"@.len());
        reveal_strlit("svgz");
        assert("yaml"@[0] != "svgz"@[0]);
        reveal_strlit("image");
        assert("yaml"@.len() != "image"@.len());
        reveal_strlit("");
        assert("yaml"@.len() != ""@.len());
        reveal_strlit("ico");
        assert("yaml"@.len() != "ico"@.len());
        reveal_strlit("bmp");
        assert("yaml"@.len() != "bmp"@.len());
        reveal_strlit("tiff");
        assert("yaml"@[0] != "tiff"@[0]);
        reveal_strlit("tif");
        assert("yaml"@.len() != "tif"@.len());
        reveal_strlit("woff");
        assert("yaml"@[0] != "woff"@[0]);
        reveal_strlit("woff2");
        assert("yaml"@.len() != "woff2"@.len());
        reveal_strlit("ttf");
        assert("yaml"@.len() != "ttf"@.len());
        reveal_strlit("otf");
        assert("yaml"@.len() != "otf"@.len());
        reveal_strlit("eot");
        assert("yaml"@.len() != "eot"@.len());
        reveal_strlit("mp4");
        assert("yaml"@.len() != "mp4"@.len());
        reveal_strlit("webm");
        assert("yaml"@[0] != "webm"@[0]);
        reveal_strlit("ogg");
        assert("yaml"@.len() != "ogg"@.len());
        reveal_strlit("avi");
        assert("yaml"@.len() != "avi"@.len());
        reveal_strlit("mov");
        assert("yaml"@.len() != "mov"@.len());
        reveal_strlit("mp3");
        assert("yaml"@.len() != "mp3"@.len());
        reveal_strlit("wav");
        assert("yaml"@.len() != "wav"@.len());
        reveal_strlit("flac");
        assert("yaml"@[0] != "flac"@[0]);
        reveal_strlit("aac");
        assert("yaml"@.len() != "aac"@.len());
        reveal_strlit("pdf");
        assert("yaml"@.len() != "pdf"@.len());
        reveal_strlit("zip");
        assert("yaml"@.len() != "zip"@.len());
        reveal_strlit("tar");
        assert("yaml"@.len() != "tar"@.len());
        reveal_strlit("gz");
        assert("yaml"@.len() != "gz"@.len());
        reveal_strlit("br");
        assert("yaml"@.len() != "br"@.len());
        reveal_strlit("rar");
        assert("yaml"@.len() != "rar"@.len());
        reveal_strlit("7z");
        assert("yaml"@.len() != "7z"@.len());
        reveal_strlit("csv");
        assert("yaml"@.len() != "csv"@.len());
        reveal_strlit("md");
        assert("yaml"@.len() != "md"@.len());
        reveal_strlit("markdown");
        assert("yaml"@.len() != "markdown"@.len());
    }
    assert(known_mime("yml"@) is Some && text_based(known_mime("yml"@)->0) && compressible(known_mime("yml"@)->0)) by {
        reveal_strlit("yml");
        reveal_strlit("html");
        assert("yml"@.len() != "html"@.len());
        reveal_strlit("htm");
        assert("yml"@[0] != "htm"@[0]);
        reveal_strlit("css");
        assert("yml"@[0] != "css"@[0]);
        reveal_strlit("js");
        assert("yml"@.len() != "js"@.len());
        reveal_strlit("mjs");
        assert("yml"@[0] != "mjs"@[0]);
        reveal_strlit("json");
        assert("yml"@.len() != "json"@.len());
        reveal_strlit("xml");
        assert("yml"@[0] != "xml"@[0]);
        reveal_strlit("txt");
        assert("yml"@[0] != "txt"@[0]);
        reveal_strlit("png");
        assert("yml"@[0] != "png"@[0]);
        reveal_strlit("jpg");
        assert("yml"@[0] != "jpg"@[0]);
        reveal_strlit("jpeg");
        assert("yml"@.len() != "jpeg"@.len());
        reveal_strlit("gif");
        assert("yml"@[0] != "gif"@[0]);
        reveal_strlit("webp");
        assert("yml"@.len() != "webp"@.len());
        reveal_strlit("svg");
        assert("yml"@[0] != "svg"@[0]);
        reveal_strlit("svgz");
        assert("yml"@.len() != "svgz"@.len());
        reveal_strlit("image");
        assert("yml"@.len() != "image"@.len());
        reveal_strlit("");
        assert("yml"@.len() != ""@.len());
        reveal_strlit("ico");
        assert("yml"@[0] != "ico"@[0]);
        reveal_strlit("bmp");
        assert("yml"@[0] != "bmp"@[0]);
        reveal_strlit("tiff");
        assert("yml"@.len() != "tiff"@.len());
        reveal_strlit("tif");
        assert("yml"@[0] != "tif"@[0]);
        reveal_strlit("woff");
        assert("yml"@.len() != "woff"@.len());
        reveal_strlit("woff2");
        assert("yml"@.len() != "woff2"@.len());
        reveal_strlit("ttf");
        assert("yml"@[0] != "ttf"@[0]);
        reveal_strlit("otf");
        assert("yml"@[0] != "otf"@[0]);
        reveal_strlit("eot");
        assert("yml"@[0] != "eot"@[0]);
        reveal_strlit("mp4");
        assert("yml"@[0] != "mp4"@[0]);
        reveal_strlit("webm");
        assert("yml"@.len() != "webm"@.len());
        reveal_strlit("ogg");
        assert("yml"@[0] != "ogg"@[0]);
        reveal_strlit("avi");
        assert("yml"@[0] != "avi"@[0]);
        reveal_strlit("mov");
        assert("yml"@[0] != "mov"@[0]);
        reveal_strlit("mp3");
        assert("yml"@[0] != "mp3"@[0]);
        reveal_strlit("wav");
        assert("yml"@[0] != "wav"@[0]);
        reveal_strlit("flac");
        assert("yml"@.len() != "flac"@.len());
        reveal_strlit("aac");
        assert("yml"@[0] != "aac"@[0]);
        reveal_strlit("pdf");
        assert("yml"@[0] != "pdf"@[0]);
        reveal_strlit("zip");
        assert("yml"@[0] != "zip"@[0]);
        reveal_strlit("tar");
        assert("yml"@[0] != "tar"@[0]);
        reveal_strlit("gz");
        assert("yml"@.len() != "gz"@.len());
        reveal_strlit("br");
        assert("yml"@.len() != "br"@.len());
        reveal_strlit("rar");
        assert("yml"@[0] != "rar"@[0]);
        reveal_strlit("7z");
        assert("yml"@.len() != "7z"@.len());
        reveal_strlit("csv");
        assert("yml"@[0] != "csv"@[0]);
        reveal_strlit("md");
        assert("yml"@.len() != "md"@.len());
        reveal_strlit("markdown");
        assert("yml"@.len() != "markdown"@.len());
        reveal_strlit("yaml");
        assert("yml"@.len() != "yaml"@.len());
    }
    assert(known_mime("toml"@) is Some && text_based(known_mime("toml"@)->0) && compressible(known_mime("toml"@)->0)) by {
        reveal_strlit("toml");
        reveal_strlit("html");
        assert("toml"@[0] != "html"@[0]);
        reveal_strlit("htm");
        assert("toml"@.len() != "htm"@.len());
        reveal_strlit("css");
        assert("toml"@.len() != "css"@.len());
        reveal_strlit("js");
        assert("toml"@.len() != "js"@.len());
        reveal_strlit("mjs");
        assert("toml"@.len() != "mjs"@.len());
        reveal_strlit("json");
        assert("toml"@[0] != "json"@[0]);
        reveal_strlit("xml");
        assert("toml"@.len() != "xml"@.len());
        reveal_strlit("txt");
        assert("toml"@.len() != "txt"@.len());
        reveal_strlit("png");
        assert("toml"@.len() != "png"@.len());
        reveal_strlit("jpg");
        assert("toml"@.len() != "jpg"@.len());
        reveal_strlit("jpeg");
        assert("toml"@[0] != "jpeg"@[0]);
        reveal_strlit("gif");
        assert("toml"@.len() != "gif"@.len());
        reveal_strlit("webp");
        assert("toml"@[0] != "webp"@[0]);
        reveal_strlit("svg");
        assert("toml"@.len() != "svg"@.len());
        reveal_strlit("svgz");
        assert("toml"@[0] != "svgz"@[0]);
        reveal_strlit("image");
        assert("toml"@.len() != "image"@.len());
        reveal_strlit("");
        assert("toml"@.len() != ""@.len());
        reveal_strlit("ico");
        assert("toml"@.len() != "ico"@.len());
        reveal_strlit("bmp");
        assert("toml"@.len() != "bmp"@.len());
        reveal_strlit("tiff");
        assert("toml"@[1] != "tiff"@[1]);
        reveal_strlit("tif");
        assert("toml"@.len() != "tif"@.len());
        reveal_strlit("woff");
        assert("toml"@[0] != "woff"@[0]);
        reveal_strlit("woff2");
        assert("toml"@.len() != "woff2"@.len());
        reveal_strlit("ttf");
        assert("toml"@.len() != "ttf"@.len());
        reveal_strlit("otf");
        assert("toml"@.len() != "otf"@.len());
        reveal_strlit("eot");
        assert("toml"@.len() != "eot"@.len());
        reveal_strlit("mp4");
        assert("toml"@.len() != "mp4"@.len());
        reveal_strlit("webm");
        assert("toml"@[0] != "webm"@[0]);
        reveal_strlit("ogg");
        assert("toml"@.len() != "ogg"@.len());
        reveal_strlit("avi");
        assert("toml"@.len() != "avi"@.len());
        reveal_strlit("mov");
        assert("toml"@.len() != "mov"@.len());
        reveal_strlit("mp3");
        assert("toml"@.len() != "mp3"@.len());
        reveal_strlit("wav");
        assert("toml"@.len() != "wav"@.len());
        reveal_strlit("flac");
        assert("toml"@[0] != "flac"@[0]);
        reveal_strlit("aac");
        assert("toml"@.len() != "aac"@.len());
        reveal_strlit("pdf");
        assert("toml"@.len() != "pdf"@.len());
        reveal_strlit("zip");
        assert("toml"@.len() != "zip"@.len());
        reveal_strlit("tar");
        assert("toml"@.len() != "tar"@.len());
        reveal_strlit("gz");
        assert("toml"@.len() != "gz"@.len());
        reveal_strlit("br");
        assert("toml"@.len() != "br"@.len());
        reveal_strlit("rar");
        assert("toml"@.len() != "rar"@.len());
        reveal_strlit("7z");
        assert("toml"@.len() != "7z"@.len());
        reveal_strlit("csv");
        assert("toml"@.len() != "csv"@.len());
        reveal_strlit("md");
        assert("toml"@.len() != "md"@.len());
        reveal_strlit("markdown");
        assert("toml"@.len() != "markdown"@.len());
        reveal_strlit("yaml");
        assert("toml"@[0] != "yaml"@[0]);
        reveal_strlit("yml");
        assert("toml"@.len() != "yml"@.len());
    }
}

/// Whether a media type's content is text.
pub fn is_text_based(m: &MimeType) -> (b: bool)
    ensures
        b == text_based(m@),
{
    let t = chars_of(m.top.as_str());
    let s = chars_of(m.sub.as_str());
    let t = t.as_slice();
    let s = s.as_slice();
    is_lit(t, "text") || is_lit(s, "javascript") || is_lit(s, "json") || is_lit(s, "xml")
        || is_lit(s, "svg+xml") || is_lit(s, "html") || is_lit(s, "css") || is_lit(
        s,
        "markdown",
    ) || is_lit(s, "yaml") || is_lit(s, "toml")
}

/// Whether a media type is worth compressing.
pub fn is_compressible(m: &MimeType) -> (b: bool)
    ensures
        b == compressible(m@),
{
    let t = chars_of(m.top.as_str());
    let s = chars_of(m.sub.as_str());
    let t = t.as_slice();
    let s = s.as_slice();
    is_text_based(m) || (is_lit(t, "image") && is_lit(s, "svg+xml")) || is_lit(s, "x-font-woff")
        || is_lit(t, "font")
}

/// The kind of file, as far as caching is concerned.
#[derive(Clone, Copy, Debug, PartialEq, Eq, Structural)]
pub enum FileCategory {
    Html,
    Css,
    JavaScript,
    Image,
    Font,
    Video,
    Audio,
    Other,
}

/// The category of a (lowercase) extension.
pub open spec fn category_of(ext: Seq<char>) -> FileCategory {
    if ext == "html"@ || ext == "htm"@ {
        FileCategory::Html
    } else if ext == "css"@ {
        FileCategory::Css
    } else if ext == "js"@ || ext == "mjs"@ {
        FileCategory::JavaScript
    } else if ext == "png"@ || ext == "jpg"@ || ext == "jpeg"@ || ext == "gif"@ || ext == "webp"@
        || ext == "svg"@ || ext == "svgz"@ || ext == "ico"@ || ext == "bmp"@ || ext == "tiff"@
        || ext == "tif"@ {
        FileCategory::Image
    } else if ext == "woff"@ || ext == "woff2"@ || ext == "ttf"@ || ext == "otf"@ || ext
        == "eot"@ {
        FileCategory::Font
    } else if ext == "mp4"@ || ext == "webm"@ || ext == "ogg"@ || ext == "avi"@ || ext == "mov"@ {
        FileCategory::Video
    } else if ext == "mp3"@ || ext == "wav"@ || ext == "flac"@ || ext == "aac"@ {
        FileCategory::Audio
    } else {
        FileCategory::Other
    }
}

/// Each extension the server knows falls in its kind: pages (`html`,
/// `htm`), stylesheets, scripts (`js`, `mjs`), images, fonts, video
/// (`mp4`, `webm`, `ogg`, `avi`, `mov`) and audio (`mp3`, `wav`, `flac`,
/// `aac`).
pub proof fn lemma_extension_categories()
    ensures
        category_of("html"@) == FileCategory::Html,
        category_of("htm"@) == FileCategory::Html,
        category_of("css"@) == FileCategory::Css,
        category_of("js"@) == FileCategory::JavaScript,
        category_of("mjs"@) == FileCategory::JavaScript,
        category_of("png"@) == FileCategory::Image,
        category_of("jpg"@) == FileCategory::Image,
        category_of("jpeg"@) == FileCategory::Image,
        category_of("gif"@) == FileCategory::Image,
        category_of("webp"@) == FileCategory::Image,
        category_of("svg"@) == FileCategory::Image,
        category_of("svgz"@) == FileCategory::Image,
        category_of("ico"@) == FileCategory::Image,
        category_of("bmp"@) == FileCategory::Image,
        category_of("tiff"@) == FileCategory::Image,
        category_of("tif"@) == FileCategory::Image,
        category_of("woff"@) == FileCategory::Font,
        category_of("woff2"@) == FileCategory::Font,
        category_of("ttf"@) == FileCategory::Font,
        category_of("otf"@) == FileCategory::Font,
        category_of("eot"@) == FileCategory::Font,
        category_of("mp4"@) == FileCategory::Video,
        category_of("webm"@) == FileCategory::Video,
        category_of("ogg"@) == FileCategory::Video,
        category_of("avi"@) == FileCategory::Video,
        category_of("mov"@) == FileCategory::Video,
        category_of("mp3"@) == FileCategory::Audio,
        category_of("wav"@) == FileCategory::Audio,
        category_of("flac"@) == FileCategory::Audio,
        category_of("aac"@) == FileCategory::Audio,
{
    assert(category_of("html"@) == FileCategory::Html) by {
        reveal_strlit("html");
    }
    assert(category_of("htm"@) == FileCategory::Html) by {
        reveal_strlit("htm");
        reveal_strlit("html");
        assert("htm"@.len() != "html"@.len());
    }
    assert(category_of("css"@) == FileCategory::Css) by {
        reveal_strlit("css");
        reveal_strlit("html");
        assert("css"@.len() != "html"@.len());
        reveal_strlit("htm");
        assert("css"@[0] != "htm"@[0]);
    }
    assert(category_of("js"@) == FileCategory::JavaScript) by {
        reveal_strlit("js");
        reveal_strlit("html");
        assert("js"@.len() != "html"@.len());
        reveal_strlit("htm");
        assert("js"@.len() != "htm"@.len());
        reveal_strlit("css");
        assert("js"@.len() != "css"@.len());
    }
    assert(category_of("mjs"@) == FileCategory::JavaScript) by {
        reveal_strlit("mjs");
        reveal_strlit("html");
        assert("mjs"@.len() != "html"@.len());
        reveal_strlit("htm");
        assert("mjs"@[0] != "htm"@[0]);
        reveal_strlit("css");
        assert("mjs"@[0] != "css"@[0]);
        reveal_strlit("js");
        assert("mjs"@.len() != "js"@.len());
    }
    assert(category_of("png"@) == FileCategory::Image) by {
        reveal_strlit("png");
        reveal_strlit("html");
        assert("png"@.len() != "html"@.len());
        reveal_strlit("htm");
        assert("png"@[0] != "htm"@[0]);
        reveal_strlit("css");
        assert("png"@[0] != "css"@[0]);
        reveal_strlit("js");
        assert("png"@.len() != "js"@.len());
        reveal_strlit("mjs");
        assert("png"@[0] != "mjs"@[0]);
    }
    assert(category_of("jpg"@) == FileCategory::Image) by {
        reveal_strlit("jpg");
        reveal_strlit("html");
        assert("jpg"@.len() != "html"@.len());
        reveal_strlit("htm");
        assert("jpg"@[0] != "htm"@[0]);
        reveal_strlit("css");
        assert("jpg"@[0] != "css"@[0]);
        reveal_strlit("js");
        assert("jpg"@.len() != "js"@.len());
        reveal_strlit("mjs");
        assert("jpg"@[0] != "mjs"@[0]);
        reveal_strlit("png");
        assert("jpg"@[0] != "png"@[0]);
    }
    assert(category_of("jpeg"@) == FileCategory::Image) by {
        reveal_strlit("jpeg");
        reveal_strlit("html");
        assert("jpeg"@[0] != "html"@[0]);
        reveal_strlit("htm");
        assert("jpeg"@.len() != "htm"@.len());
        reveal_strlit("css");
        assert("jpeg"@.len() != "css"@.len());
        reveal_strlit("js");
        assert("jpeg"@.len() != "js"@.len());
        reveal_strlit("mjs");
        assert("jpeg"@.len() != "mjs"@.len());
        reveal_strlit("png");
        assert("jpeg"@.len() != "png"@.len());
        reveal_strlit("jpg");
        assert("jpeg"@.len() != "jpg"@.len());
    }
    assert(category_of("gif"@) == FileCategory::Image) by {
        reveal_strlit("gif");
        reveal_strlit("html");
        assert("gif"@.len() != "html"@.len());
        reveal_strlit("htm");
        assert("gif"@[0] != "htm"@[0]);
        reveal_strlit("css");
        assert("gif"@[0] != "css"@[0]);
        reveal_strlit("js");
        assert("gif"@.len() != "js"@.len());
        reveal_strlit("mjs");
        assert("gif"@[0] != "mjs"@[0]);
        reveal_strlit("png");
        assert("gif"@[0] != "png"@[0]);
        reveal_strlit("jpg");
        assert("gif"@[0] != "jpg"@[0]);
        reveal_strlit("jpeg");
        assert("gif"@.len() != "jpeg"@.len());
    }
    assert(category_of("webp"@) == FileCategory::Image) by {
        reveal_strlit("webp");
        reveal_strlit("html");
        assert("webp"@[0] != "html"@[0]);
        reveal_strlit("htm");
        assert("webp"@.len() != "htm"@.len());
        reveal_strlit("css");
        assert("webp"@.len() != "css"@.len());
        reveal_strlit("js");
        assert("webp"@.len() != "js"@.len());
        reveal_strlit("mjs");
        assert("webp"@.len() != "mjs"@.len());
        reveal_strlit("png");
        assert("webp"@.len() != "png"@.len());
        reveal_strlit("jpg");
        assert("webp"@.len() != "jpg"@.len());
        reveal_strlit("jpeg");
        assert("webp"@[0] != "jpeg"@[0]);
        reveal_strlit("gif");
        assert("webp"@.len() != "gif"@.len());
    }
    assert(category_of("svg"@) == FileCategory::Image) by {
        reveal_strlit("svg");
        reveal_strlit("html");
        assert("svg"@.len() != "html"@.len());
        reveal_strlit("htm");
        assert("svg"@[0] != "htm"@[0]);
        reveal_strlit("css");
        assert("svg"@[0] != "css"@[0]);
        reveal_strlit("js");
        assert("svg"@.len() != "js"@.len());
        reveal_strlit("mjs");
        assert("svg"@[0] != "mjs"@[0]);
        reveal_strlit("png");
        assert("svg"@[0] != "png"@[0]);
        reveal_strlit("jpg");
        assert("svg"@[0] != "jpg"@[0]);
        reveal_strlit("jpeg");
        assert("svg"@.len() != "jpeg"@.len());
        reveal_strlit("gif");
        assert("svg"@[0] != "gif"@[0]);
        reveal_strlit("webp");
        assert("svg"@.len() != "webp"@.len());
    }
    assert(category_of("svgz"@) == FileCategory::Image) by {
        reveal_strlit("svgz");
        reveal_strlit("html");
        assert("svgz"@[0] != "html"@[0]);
        reveal_strlit("htm");
        assert("svgz"@.len() != "htm"@.len());
        reveal_strlit("css");
        assert("svgz"@.len() != "css"@.len());
        reveal_strlit("js");
        assert("svgz"@.len() != "js"@.len());
        reveal_strlit("mjs");
        assert("svgz"@.len() != "mjs"@.len());
        reveal_strlit("png");
        assert("svgz"@.len() != "png"@.len());
        reveal_strlit("jpg");
        assert("svgz"@.len() != "jpg"@.len());
        reveal_strlit("jpeg");
        assert("svgz"@[0] != "jpeg"@[0]);
        reveal_strlit("gif");
        assert("svgz"@.len() != "gif"@.len());
        reveal_strlit("webp");
        assert("svgz"@[0] != "webp"@[0]);
        reveal_strlit("svg");
        assert("svgz"@.len() != "svg"@.len());
    }
    assert(category_of("ico"@) == FileCategory::Image) by {
        reveal_strlit("ico");
        reveal_strlit("html");
        assert("ico"@.len() != "html"@.len());
        reveal_strlit("htm");
        assert("ico"@[0] != "htm"@[0]);
        reveal_strlit("css");
        assert("ico"@[0] != "css"@[0]);
        reveal_strlit("js");
        assert("ico"@.len() != "js"@.len());
        reveal_strlit("mjs");
        assert("ico"@[0] != "mjs"@[0]);
        reveal_strlit("png");
        assert("ico"@[0] != "png"@[0]);
        reveal_strlit("jpg");
        assert("ico"@[0] != "jpg"@[0]);
        reveal_strlit("jpeg");
        assert("ico"@.len() != "jpeg"@.len());
        reveal_strlit("gif");
        assert("ico"@[0] != "gif"@[0]);
        reveal_strlit("webp");
        assert("ico"@.len() != "webp"@.len());
        reveal_strlit("svg");
        assert("ico"@[0] != "svg"@[0]);
        reveal_strlit("svgz");
        assert("ico"@.len() != "svgz"@.len());
    }
    assert(category_of("bmp"@) == FileCategory::Image) by {
        reveal_strlit("bmp");
        reveal_strlit("html");
        assert("bmp"@.len() != "html"@.len());
        reveal_strlit("htm");
        assert("bmp"@[0] != "htm"@[0]);
        reveal_strlit("css");
        assert("bmp"@[0] != "css"@[0]);
        reveal_strlit("js");
        assert("bmp"@.len() != "js"@.len());
        reveal_strlit("mjs");
        assert("bmp"@[0] != "mjs"@[0]);
        reveal_strlit("png");
        assert("bmp"@[0] != "png"@[0]);
        reveal_strlit("jpg");
        assert("bmp"@[0] != "jpg"@[0]);
        reveal_strlit("jpeg");
        assert("bmp"@.len() != "jpeg"@.len());
        reveal_strlit("gif");
        assert("bmp"@[0] != "gif"@[0]);
        reveal_strlit("webp");
        assert("bmp"@.len() != "webp"@.len());
        reveal_strlit("svg");
        assert("bmp"@[0] != "svg"@[0]);
        reveal_strlit("svgz");
        assert("bmp"@.len() != "svgz"@.len());
        reveal_strlit("ico");
        assert("bmp"@[0] != "ico"@[0]);
    }
    assert(category_of("tiff"@) == FileCategory::Image) by {
        reveal_strlit("tiff");
        reveal_strlit("html");
        assert("tiff"@[0] != "html"@[0]);
        reveal_strlit("htm");
        assert("tiff"@.len() != "htm"@.len());
        reveal_strlit("css");
        assert("tiff"@.len() != "css"@.len());
        reveal_strlit("js");
        assert("tiff"@.len() != "js"@.len());
        reveal_strlit("mjs");
        assert("tiff"@.len() != "mjs"@.len());
        reveal_strlit("png");
        assert("tiff"@.len() != "png"@.len());
        reveal_strlit("jpg");
        assert("tiff"@.len() != "jpg"@.len());
        reveal_strlit("jpeg");
        assert("tiff"@[0] != "jpeg"@[0]);
        reveal_strlit("gif");
        assert("tiff"@.len() != "gif"@.len());
        reveal_strlit("webp");
        assert("tiff"@[0] != "webp"@[0]);
        reveal_strlit("svg");
        assert("tiff"@.len() != "svg"@.len());
        reveal_strlit("svgz");
        assert("tiff"@[0] != "svgz"@[0]);
        reveal_strlit("ico");
        assert("tiff"@.len() != "ico"@.len());
        reveal_strlit("bmp");
        assert("tiff"@.len() != "bmp"@.len());
    }
    assert(category_of("tif"@) == FileCategory::Image) by {
        reveal_strlit("tif");
        reveal_strlit("html");
        assert("tif"@.len() != "html"@.len());
        reveal_strlit("htm");
        assert("tif"@[0] != "htm"@[0]);
        reveal_strlit("css");
        assert("tif"@[0] != "css"@[0]);
        reveal_strlit("js");
        assert("tif"@.len() != "js"@.len());
        reveal_strlit("mjs");
        assert("tif"@[0] != "mjs"@[0]);
        reveal_strlit("png");
        assert("tif"@[0] != "png"@[0]);
        reveal_strlit("jpg");
        assert("tif"@[0] != "jpg"@[0]);
        reveal_strlit("jpeg");
        assert("tif"@.len() != "jpeg"@.len());
        reveal_strlit("gif");
        assert("tif"@[0] != "gif"@[0]);
        reveal_strlit("webp");
        assert("tif"@.len() != "webp"@.len());
        reveal_strlit("svg");
        assert("tif"@[0] != "svg"@[0]);
        reveal_strlit("svgz");
        assert("tif"@.len() != "svgz"@.len());
        reveal_strlit("ico");
        assert("tif"@[0] != "ico"@[0]);
        reveal_strlit("bmp");
        assert("tif"@[0] != "bmp"@[0]);
        reveal_strlit("tiff");
        assert("tif"@.len() != "tiff"@.len());
    }
    assert(category_of("woff"@) == FileCategory::Font) by {
        reveal_strlit("woff");
        reveal_strlit("html");
        assert("woff"@[0] != "html"@[0]);
        reveal_strlit("htm");
        assert("woff"@.len() != "htm"@.len());
        reveal_strlit("css");
        assert("woff"@.len() != "css"@.len());
        reveal_strlit("js");
        assert("woff"@.len() != "js"@.len());
        reveal_strlit("mjs");
        assert("woff"@.len() != "mjs"@.len());
        reveal_strlit("png");
        assert("woff"@.len() != "png"@.len());
        reveal_strlit("jpg");
        assert("woff"@.len() != "jpg"@.len());
        reveal_strlit("jpeg");
        assert("woff"@[0] != "jpeg"@[0]);
        reveal_strlit("gif");
        assert("woff"@.len() != "gif"@.len());
        reveal_strlit("webp");
        assert("woff"@[1] != "webp"@[1]);
        reveal_strlit("svg");
        assert("woff"@.len() != "svg"@.len());
        reveal_strlit("svgz");
        assert("woff"@[0] != "svgz"@[0]);
        reveal_strlit("ico");
        assert("woff"@.len() != "ico"@.len());
        reveal_strlit("bmp");
        assert("woff"@.len() != "bmp"@.len());
        reveal_strlit("tiff");
        assert("woff"@[0] != "tiff"@[0]);
        reveal_strlit("tif");
        assert("woff"@.len() != "tif"@.len());
    }
    assert(category_of("woff2"@) == FileCategory::Font) by {
        reveal_strlit("woff2");
        reveal_strlit("html");
        assert("woff2"@.len() != "html"@.len());
        reveal_strlit("htm");
        assert("woff2"@.len() != "htm"@.len());
        reveal_strlit("css");
        assert("woff2"@.len() != "css"@.len());
        reveal_strlit("js");
        assert("woff2"@.len() != "js"@.len());
        reveal_strlit("mjs");
        assert("woff2"@.len() != "mjs"@.len());
        reveal_strlit("png");
        assert("woff2"@.len() != "png"@.len());
        reveal_strlit("jpg");
        assert("woff2"@.len() != "jpg"@.len());
        reveal_strlit("jpeg");
        assert("woff2"@.len() != "jpeg"@.len());
        reveal_strlit("gif");
        assert("woff2"@.len() != "gif"@.len());
        reveal_strlit("webp");
        assert("woff2"@.len() != "webp"@.len());
        reveal_strlit("svg");
        assert("woff2"@.len() != "svg"@.len());
        reveal_strlit("svgz");
        assert("woff2"@.len() != "svgz"@.len());
        reveal_strlit("ico");
        assert("woff2"@.len() != "ico"@.len());
        reveal_strlit("bmp");
        assert("woff2"@.len() != "bmp"@.len());
        reveal_strlit("tiff");
        assert("woff2"@.len() != "tiff"@.len());
        reveal_strlit("tif");
        assert("woff2"@.len() != "tif"@.len());
        reveal_strlit("woff");
        assert("woff2"@.len() != "woff"@.len());
    }
    assert(category_of("ttf"@) == FileCategory::Font) by {
        reveal_strlit("ttf");
        reveal_strlit("html");
        assert("ttf"@.len() != "html"@.len());
        reveal_strlit("htm");
        assert("ttf"@[0] != "htm"@[0]);
        reveal_strlit("css");
        assert("ttf"@[0] != "css"@[0]);
        reveal_strlit("js");
        assert("ttf"@.len() != "js"@.len());
        reveal_strlit("mjs");
        assert("ttf"@[0] != "mjs"@[0]);
        reveal_strlit("png");
        assert("ttf"@[0] != "png"@[0]);
        reveal_strlit("jpg");
        assert("ttf"@[0] != "jpg"@[0]);
        reveal_strlit("jpeg");
        assert("ttf"@.len() != "jpeg"@.len());
        reveal_strlit("gif");
        assert("ttf"@[0] != "gif"@[0]);
        reveal_strlit("webp");
        assert("ttf"@.len() != "webp"@.len());
        reveal_strlit("svg");
        assert("ttf"@[0] != "svg"@[0]);
        reveal_strlit("svgz");
        assert("ttf"@.len() != "svgz"@.len());
        reveal_strlit("ico");
        assert("ttf"@[0] != "ico"@[0]);
        reveal_strlit("bmp");
        assert("ttf"@[0] != "bmp"@[0]);
        reveal_strlit("tiff");
        assert("ttf"@.len() != "tiff"@.len());
        reveal_strlit("tif");
        assert("ttf"@[1] != "tif"@[1]);
        reveal_strlit("woff");
        assert("ttf"@.len() != "woff"@.len());
        reveal_strlit("woff2");
        assert("ttf"@.len() != "woff2"@.len());
    }
    assert(category_of("otf"@) == FileCategory::Font) by {
        reveal_strlit("otf");
        reveal_strlit("html");
        assert("otf"@.len() != "html"@.len());
        reveal_strlit("htm");
        assert("otf"@[0] != "htm"@[0]);
        reveal_strlit("css");
        assert("otf"@[0] != "css"@[0]);
        reveal_strlit("js");
        assert("otf"@.len() != "js"@.len());
        reveal_strlit("mjs");
        assert("otf"@[0] != "mjs"@[0]);
        reveal_strlit("png");
        assert("otf"@[0] != "png"@[0]);
        reveal_strlit("jpg");
        assert("otf"@[0] != "jpg"@[0]);
        reveal_strlit("jpeg");
        assert("otf"@.len() != "jpeg"@.len());
        reveal_strlit("gif");
        assert("otf"@[0] != "gif"@[0]);
        reveal_strlit("webp");
        assert("otf"@.len() != "webp"@.len());
        reveal_strlit("svg");
        assert("otf"@[0] != "svg"@[0]);
        reveal_strlit("svgz");
        assert("otf"@.len() != "svgz"@.len());
        reveal_strlit("ico");
        assert("otf"@[0] != "ico"@[0]);
        reveal_strlit("bmp");
        assert("otf"@[0] != "bmp"@[0]);
        reveal_strlit("tiff");
        assert("otf"@.len() != "tiff"@.len());
        reveal_strlit("tif");
        assert("otf"@[0] != "tif"@[0]);
        reveal_strlit("woff");
        assert("otf"@.len() != "woff"@.len());
        reveal_strlit("woff2");
        assert("otf"@.len() != "woff2"@.len());
        reveal_strlit("ttf");
        assert("otf"@[0] != "ttf"@[0]);
    }
    assert(category_of("eot"@) == FileCategory::Font) by {
        reveal_strlit("eot");
        reveal_strlit("html");
        assert("eot"@.len() != "html"@.len());
        reveal_strlit("htm");
        assert("eot"@[0] != "htm"@[0]);
        reveal_strlit("css");
        assert("eot"@[0] != "css"@[0]);
        reveal_strlit("js");
        assert("eot"@.len() != "js"@.len());
        reveal_strlit("mjs");
        assert("eot"@[0] != "mjs"@[0]);
        reveal_strlit("png");
        assert("eot"@[0] != "png"@[0]);
        reveal_strlit("jpg");
        assert("eot"@[0] != "jpg"@[0]);
        reveal_strlit("jpeg");
        assert("eot"@.len() != "jpeg"@.len());
        reveal_strlit("gif");
        assert("eot"@[0] != "gif"@[0]);
        reveal_strlit("webp");
        assert("eot"@.len() != "webp"@.len());
        reveal_strlit("svg");
        assert("eot"@[0] != "svg"@[0]);
        reveal_strlit("svgz");
        assert("eot"@.len() != "svgz"@.len());
        reveal_strlit("ico");
        assert("eot"@[0] != "ico"@[0]);
        reveal_strlit("bmp");
        assert("eot"@[0] != "bmp"@[0]);
        reveal_strlit("tiff");
        assert("eot"@.len() != "tiff"@.len());
        reveal_strlit("tif");
        assert("eot"@[0] != "tif"@[0]);
        reveal_strlit("woff");
        assert("eot"@.len() != "woff"@.len());
        reveal_strlit("woff2");
        assert("eot"@.len() != "woff2"@.len());
        reveal_strlit("ttf");
        assert("eot"@[0] != "ttf"@[0]);
        reveal_strlit("otf");
        assert("eot"@[0] != "otf"@[0]);
    }
    assert(category_of("mp4"@) == FileCategory::Video) by {
        reveal_strlit("mp4");
        reveal_strlit("html");
        assert("mp4"@.len() != "html"@.len());
        reveal_strlit("htm");
        assert("mp4"@[0] != "htm"@[0]);
        reveal_strlit("css");
        assert("mp4"@[0] != "css"@[0]);
        reveal_strlit("js");
        assert("mp4"@.len() != "js"@.len());
        reveal_strlit("mjs");
        assert("mp4"@[1] != "mjs"@[1]);
        reveal_strlit("png");
        assert("mp4"@[0] != "png"@[0]);
        reveal_strlit("jpg");
        assert("mp4"@[0] != "jpg"@[0]);
        reveal_strlit("jpeg");
        assert("mp4"@.len() != "jpeg"@.len());
        reveal_strlit("gif");
        assert("mp4"@[0] != "gif"@[0]);
        reveal_strlit("webp");
        assert("mp4"@.len() != "webp"@.len());
        reveal_strlit("svg");
        assert("mp4"@[0] != "svg"@[0]);
        reveal_strlit("svgz");
        assert("mp4"@.len() != "svgz"@.len());
        reveal_strlit("ico");
        assert("mp4"@[0] != "ico"@[0]);
        reveal_strlit("bmp");
        assert("mp4"@[0] != "bmp"@[0]);
        reveal_strlit("tiff");
        assert("mp4"@.len() != "tiff"@.len());
        reveal_strlit("tif");
        assert("mp4"@[0] != "tif"@[0]);
        reveal_strlit("woff");
        assert("mp4"@.len() != "woff"@.len());
        reveal_strlit("woff2");
        assert("mp4"@.len() != "woff2"@.len());
        reveal_strlit("ttf");
        assert("mp4"@[0] != "ttf"@[0]);
        reveal_strlit("otf");
        assert("mp4"@[0] != "otf"@[0]);
        reveal_strlit("eot");
        assert("mp4"@[0] != "eot"@[0]);
    }
    assert(category_of("webm"@) == FileCategory::Video) by {
        reveal_strlit("webm");
        reveal_strlit("html");
        assert("webm"@[0] != "html"@[0]);
        reveal_strlit("htm");
        assert("webm"@.len() != "htm"@.len());
        reveal_strlit("css");
        assert("webm"@.len() != "css"@.len());
        reveal_strlit("js");
        assert("webm"@.len() != "js"@.len());
        reveal_strlit("mjs");
        assert("webm"@.len() != "mjs"@.len());
        reveal_strlit("png");
        assert("webm"@.len() != "png"@.len());
        reveal_strlit("jpg");
        assert("webm"@.len() != "jpg"@.len());
        reveal_strlit("jpeg");
        assert("webm"@[0] != "jpeg"@[0]);
        reveal_strlit("gif");
        assert("webm"@.len() != "gif"@.len());
        reveal_strlit("webp");
        assert("webm"@[3] != "webp"@[3]);
        reveal_strlit("svg");
        assert("webm"@.len() != "svg"@.len());
        reveal_strlit("svgz");
        assert("webm"@[0] != "svgz"@[0]);
        reveal_strlit("ico");
        assert("webm"@.len() != "ico"@.len());
        reveal_strlit("bmp");
        assert("webm"@.len() != "bmp"@.len());
        reveal_strlit("tiff");
        assert("webm"@[0] != "tiff"@[0]);
        reveal_strlit("tif");
        assert("webm"@.len() != "tif"@.len());
        reveal_strlit("woff");
        assert("webm"@[1] != "woff"@[1]);
        reveal_strlit("woff2");
        assert("webm"@.len() != "woff2"@.len());
        reveal_strlit("ttf");
        assert("webm"@.len() != "ttf"@.len());
        reveal_strlit("otf");
        assert("webm"@.len() != "otf"@.len());
        reveal_strlit("eot");
        assert("webm"@.len() != "eot"@.len());
        reveal_strlit("mp4");
        assert("webm"@.len() != "mp4"@.len());
    }
    assert(category_of("ogg"@) == FileCategory::Video) by {
        reveal_strlit("ogg");
        reveal_strlit("html");
        assert("ogg"@.len() != "html"@.len());
        reveal_strlit("htm");
        assert("ogg"@[0] != "htm"@[0]);
        reveal_strlit("css");
        assert("ogg"@[0] != "css"@[0]);
        reveal_strlit("js");
        assert("ogg"@.len() != "js"@.len());
        reveal_strlit("mjs");
        assert("ogg"@[0] != "mjs"@[0]);
        reveal_strlit("png");
        assert("ogg"@[0] != "png"@[0]);
        reveal_strlit("jpg");
        assert("ogg"@[0] != "jpg"@[0]);
        reveal_strlit("jpeg");
        assert("ogg"@.len() != "jpeg"@.len());
        reveal_strlit("gif");
        assert("ogg"@[0] != "gif"@[0]);
        reveal_strlit("webp");
        assert("ogg"@.len() != "webp"@.len());
        reveal_strlit("svg");
        assert("ogg"@[0] != "svg"@[0]);
        reveal_strlit("svgz");
        assert("ogg"@.len() != "svgz"@.len());
        reveal_strlit("ico");
        assert("ogg"@[0] != "ico"@[0]);
        reveal_strlit("bmp");
        assert("ogg"@[0] != "bmp"@[0]);
        reveal_strlit("tiff");
        assert("ogg"@.len() != "tiff"@.len());
        reveal_strlit("tif");
        assert("ogg"@[0] != "tif"@[0]);
        reveal_strlit("woff");
        assert("ogg"@.len() != "woff"@.len());
        reveal_strlit("woff2");
        assert("ogg"@.len() != "woff2"@.len());
        reveal_strlit("ttf");
        assert("ogg"@[0] != "ttf"@[0]);
        reveal_strlit("otf");
        assert("ogg"@[1] != "otf"@[1]);
        reveal_strlit("eot");
        assert("ogg"@[0] != "eot"@[0]);
        reveal_strlit("mp4");
        assert("ogg"@[0] != "mp4"@[0]);
        reveal_strlit("webm");
        assert("ogg"@.len() != "webm"@.len());
    }
    assert(category_of("avi"@) == FileCategory::Video) by {
        reveal_strlit("avi");
        reveal_strlit("html");
        assert("avi"@.len() != "html"@.len());
        reveal_strlit("htm");
        assert("avi"@[0] != "htm"@[0]);
        reveal_strlit("css");
        assert("avi"@[0] != "css"@[0]);
        reveal_strlit("js");
        assert("avi"@.len() != "js"@.len());
        reveal_strlit("mjs");
        assert("avi"@[0] != "mjs"@[0]);
        reveal_strlit("png");
        assert("avi"@[0] != "png"@[0]);
        reveal_strlit("jpg");
        assert("avi"@[0] != "jpg"@[0]);
        reveal_strlit("jpeg");
        assert("avi"@.len() != "jpeg"@.len());
        reveal_strlit("gif");
        assert("avi"@[0] != "gif"@[0]);
        reveal_strlit("webp");
        assert("avi"@.len() != "webp"@.len());
        reveal_strlit("svg");
        assert("avi"@[0] != "svg"@[0]);
        reveal_strlit("svgz");
        assert("avi"@.len() != "svgz"@.len());
        reveal_strlit("ico");
        assert("avi"@[0] != "ico"@[0]);
        reveal_strlit("bmp");
        assert("avi"@[0] != "bmp"@[0]);
        reveal_strlit("tiff");
        assert("avi"@.len() != "tiff"@.len());
        reveal_strlit("tif");
        assert("avi"@[0] != "tif"@[0]);
        reveal_strlit("woff");
        assert("avi"@.len() != "woff"@.len());
        reveal_strlit("woff2");
        assert("avi"@.len() != "woff2"@.len());
        reveal_strlit("ttf");
        assert("avi"@[0] != "ttf"@[0]);
        reveal_strlit("otf");
        assert("avi"@[0] != "otf"@[0]);
        reveal_strlit("eot");
        assert("avi"@[0] != "eot"@[0]);
        reveal_strlit("mp4");
        assert("avi"@[0] != "mp4"@[0]);
        reveal_strlit("webm");
        assert("avi"@.len() != "webm"@.len());
        reveal_strlit("ogg");
        assert("avi"@[0] != "ogg"@[0]);
    }
    assert(category_of("mov"@) == FileCategory::Video) by {
        reveal_strlit("mov");
        reveal_strlit("html");
        assert("mov"@.len() != "html"@.len());
        reveal_strlit("htm");
        assert("mov"@[0] != "htm"@[0]);
        reveal_strlit("css");
        assert("mov"@[0] != "css"@[0]);
        reveal_strlit("js");
        assert("mov"@.len() != "js"@.len());
        reveal_strlit("mjs");
        assert("mov"@[1] != "mjs"@[1]);
        reveal_strlit("png");
        assert("mov"@[0] != "png"@[0]);
        reveal_strlit("jpg");
        assert("mov"@[0] != "jpg"@[0]);
        reveal_strlit("jpeg");
        assert("mov"@.len() != "jpeg"@.len());
        reveal_strlit("gif");
        assert("mov"@[0] != "gif"@[0]);
        reveal_strlit("webp");
        assert("mov"@.len() != "webp"@.len());
        reveal_strlit("svg");
        assert("mov"@[0] != "svg"@[0]);
        reveal_strlit("svgz");
        assert("mov"@.len() != "svgz"@.len());
        reveal_strlit("ico");
        assert("mov"@[0] != "ico"@[0]);
        reveal_strlit("bmp");
        assert("mov"@[0] != "bmp"@[0]);
        reveal_strlit("tiff");
        assert("mov"@.len() != "tiff"@.len());
        reveal_strlit("tif");
        assert("mov"@[0] != "tif"@[0]);
        reveal_strlit("woff");
        assert("mov"@.len() != "woff"@.len());
        reveal_strlit("woff2");
        assert("mov"@.len() != "woff2"@.len());
        reveal_strlit("ttf");
        assert("mov"@[0] != "ttf"@[0]);
        reveal_strlit("otf");
        assert("mov"@[0] != "otf"@[0]);
        reveal_strlit("eot");
        assert("mov"@[0] != "eot"@[0]);
        reveal_strlit("mp4");
        assert("mov"@[1] != "mp4"@[1]);
        reveal_strlit("webm");
        assert("mov"@.len() != "webm"@.len());
        reveal_strlit("ogg");
        assert("mov"@[0] != "ogg"@[0]);
        reveal_strlit("avi");
        assert("mov"@[0] != "avi"@[0]);
    }
    assert(category_of("mp3"@) == FileCategory::Audio) by {
        reveal_strlit("mp3");
        reveal_strlit("html");
        assert("mp3"@.len() != "html"@.len());
        reveal_strlit("htm");
        assert("mp3"@[0] != "htm"@[0]);
        reveal_strlit("css");
        assert("mp3"@[0] != "css"@[0]);
        reveal_strlit("js");
        assert("mp3"@.len() != "js"@.len());
        reveal_strlit("mjs");
        assert("mp3"@[1] != "mjs"@[1]);
        reveal_strlit("png");
        assert("mp3"@[0] != "png"@[0]);
        reveal_strlit("jpg");
        assert("mp3"@[0] != "jpg"@[0]);
        reveal_strlit("jpeg");
        assert("mp3"@.len() != "jpeg"@.len());
        reveal_strlit("gif");
        assert("mp3"@[0] != "gif"@[0]);
        reveal_strlit("webp");
        assert("mp3"@.len() != "webp"@.len());
        reveal_strlit("svg");
        assert("mp3"@[0] != "svg"@[0]);
        reveal_strlit("svgz");
        assert("mp3"@.len() != "svgz"@.len());
        reveal_strlit("ico");
        assert("mp3"@[0] != "ico"@[0]);
        reveal_strlit("bmp");
        assert("mp3"@[0] != "bmp"@[0]);
        reveal_strlit("tiff");
        assert("mp3"@.len() != "tiff"@.len());
        reveal_strlit("tif");
        assert("mp3"@[0] != "tif"@[0]);
        reveal_strlit("woff");
        assert("mp3"@.len() != "woff"@.len());
        reveal_strlit("woff2");
        assert("mp3"@.len() != "woff2"@.len());
        reveal_strlit("ttf");
        assert("mp3"@[0] != "ttf"@[0]);
        reveal_strlit("otf");
        assert("mp3"@[0] != "otf"@[0]);
        reveal_strlit("eot");
        assert("mp3"@[0] != "eot"@[0]);
        reveal_strlit("mp4");
        assert("mp3"@[2] != "mp4"@[2]);
        reveal_strlit("webm");
        assert("mp3"@.len() != "webm"@.len());
        reveal_strlit("ogg");
        assert("mp3"@[0] != "ogg"@[0]);
        reveal_strlit("avi");
        assert("mp3"@[0] != "avi"@[0]);
        reveal_strlit("mov");
        assert("mp3"@[1] != "mov"@[1]);
    }
    assert(category_of("wav"@) == FileCategory::Audio) by {
        reveal_strlit("wav");
        reveal_strlit("html");
        assert("wav"@.len() != "html"@.len());
        reveal_strlit("htm");
        assert("wav"@[0] != "htm"@[0]);
        reveal_strlit("css");
        assert("wav"@[0] != "css"@[0]);
        reveal_strlit("js");
        assert("wav"@.len() != "js"@.len());
        reveal_strlit("mjs");
        assert("wav"@[0] != "mjs"@[0]);
        reveal_strlit("png");
        assert("wav"@[0] != "png"@[0]);
        reveal_strlit("jpg");
        assert("wav"@[0] != "jpg"@[0]);
        reveal_strlit("jpeg");
        assert("wav"@.len() != "jpeg"@.len());
        reveal_strlit("gif");
        assert("wav"@[0] != "gif"@[0]);
        reveal_strlit("webp");
        assert("wav"@.len() != "webp"@.len());
        reveal_strlit("svg");
        assert("wav"@[0] != "svg"@[0]);
        reveal_strlit("svgz");
        assert("wav"@.len() != "svgz"@.len());
        reveal_strlit("ico");
        assert("wav"@[0] != "ico"@[0]);
        reveal_strlit("bmp");
        assert("wav"@[0] != "bmp"@[0]);
        reveal_strlit("tiff");
        assert("wav"@.len() != "tiff"@.len());
        reveal_strlit("tif");
        assert("wav"@[0] != "tif"@[0]);
        reveal_strlit("woff");
        assert("wav"@.len() != "woff"@.len());
        reveal_strlit("woff2");
        assert("wav"@.len() != "woff2"@.len());
        reveal_strlit("ttf");
        assert("wav"@[0] != "ttf"@[0]);
        reveal_strlit("otf");
        assert("wav"@[0] != "otf"@[0]);
        reveal_strlit("eot");
        assert("wav"@[0] != "eot"@[0]);
        reveal_strlit("mp4");
        assert("wav"@[0] != "mp4"@[0]);
        reveal_strlit("webm");
        assert("wav"@.len() != "webm"@.len());
        reveal_strlit("ogg");
        assert("wav"@[0] != "ogg"@[0]);
        reveal_strlit("avi");
        assert("wav"@[0] != "avi"@[0]);
        reveal_strlit("mov");
        assert("wav"@[0] != "mov"@[0]);
        reveal_strlit("mp3");
        assert("wav"@[0] != "mp3"@[0]);
    }
    assert(category_of("flac"@) == FileCategory::Audio) by {
        reveal_strlit("flac");
        reveal_strlit("html");
        assert("flac"@[0] != "html"@[0]);
        reveal_strlit("htm");
        assert("flac"@.len() != "htm"@.len());
        reveal_strlit("css");
        assert("flac"@.len() != "css"@.len());
        reveal_strlit("js");
        assert("flac"@.len() != "js"@.len());
        reveal_strlit("mjs");
        assert("flac"@.len() != "mjs"@.len());
        reveal_strlit("png");
        assert("flac"@.len() != "png"@.len());
        reveal_strlit("jpg");
        assert("flac"@.len() != "jpg"@.len());
        reveal_strlit("jpeg");
        assert("flac"@[0] != "jpeg"@[0]);
        reveal_strlit("gif");
        assert("flac"@.len() != "gif"@.len());
        reveal_strlit("webp");
        assert("flac"@[0] != "webp"@[0]);
        reveal_strlit("svg");
        assert("flac"@.len() != "svg"@.len());
        reveal_strlit("svgz");
        assert("flac"@[0] != "svgz"@[0]);
        reveal_strlit("ico");
        assert("flac"@.len() != "ico"@.len());
        reveal_strlit("bmp");
        assert("flac"@.len() != "bmp"@.len());
        reveal_strlit("tiff");
        assert("flac"@[0] != "tiff"@[0]);
        reveal_strlit("tif");
        assert("flac"@.len() != "tif"@.len());
        reveal_strlit("woff");
        assert("flac"@[0] != "woff"@[0]);
        reveal_strlit("woff2");
        assert("flac"@.len() != "woff2"@.len());
        reveal_strlit("ttf");
        assert("flac"@.len() != "ttf"@.len());
        reveal_strlit("otf");
        assert("flac"@.len() != "otf"@.len());
        reveal_strlit("eot");
        assert("flac"@.len() != "eot"@.len());
        reveal_strlit("mp4");
        assert("flac"@.len() != "mp4"@.len());
        reveal_strlit("webm");
        assert("flac"@[0] != "webm"@[0]);
        reveal_strlit("ogg");
        assert("flac"@.len() != "ogg"@.len());
        reveal_strlit("avi");
        assert("flac"@.len() != "avi"@.len());
        reveal_strlit("mov");
        assert("flac"@.len() != "mov"@.len());
        reveal_strlit("mp3");
        assert("flac"@.len() != "mp3"@.len());
        reveal_strlit("wav");
        assert("flac"@.len() != "wav"@.len());
    }
    assert(category_of("aac"@) == FileCategory::Audio) by {
        reveal_strlit("aac");
        reveal_strlit("html");
        assert("aac"@.len() != "html"@.len());
        reveal_strlit("htm");
        assert("aac"@[0] != "htm"@[0]);
        reveal_strlit("css");
        assert("aac"@[0] != "css"@[0]);
        reveal_strlit("js");
        assert("aac"@.len() != "js"@.len());
        reveal_strlit("mjs");
        assert("aac"@[0] != "mjs"@[0]);
        reveal_strlit("png");
        assert("aac"@[0] != "png"@[0]);
        reveal_strlit("jpg");
        assert("aac"@[0] != "jpg"@[0]);
        reveal_strlit("jpeg");
        assert("aac"@.len() != "jpeg"@.len());
        reveal_strlit("gif");
        assert("aac"@[0] != "gif"@[0]);
        reveal_strlit("webp");
        assert("aac"@.len() != "webp"@.len());
        reveal_strlit("svg");
        assert("aac"@[0] != "svg"@[0]);
        reveal_strlit("svgz");
        assert("aac"@.len() != "svgz"@.len());
        reveal_strlit("ico");
        assert("aac"@[0] != "ico"@[0]);
        reveal_strlit("bmp");
        assert("aac"@[0] != "bmp"@[0]);
        reveal_strlit("tiff");
        assert("aac"@.len() != "tiff"@.len());
        reveal_strlit("tif");
        assert("aac"@[0] != "tif"@[0]);
        reveal_strlit("woff");
        assert("aac"@.len() != "woff"@.len());
        reveal_strlit("woff2");
        assert("aac"@.len() != "woff2"@.len());
        reveal_strlit("ttf");
        assert("aac"@[0] != "ttf"@[0]);
        reveal_strlit("otf");
        assert("aac"@[0] != "otf"@[0]);
        reveal_strlit("eot");
        assert("aac"@[0] != "eot"@[0]);
        reveal_strlit("mp4");
        assert("aac"@[0] != "mp4"@[0]);
        reveal_strlit("webm");
        assert("aac"@.len() != "webm"@.len());
        reveal_strlit("ogg");
        assert("aac"@[0] != "ogg"@[0]);
        reveal_strlit("avi");
        assert("aac"@[1] != "avi"@[1]);
        reveal_strlit("mov");
        assert("aac"@[0] != "mov"@[0]);
        reveal_strlit("mp3");
        assert("aac"@[0] != "mp3"@[0]);
        reveal_strlit("wav");
        assert("aac"@[0] != "wav"@[0]);
        reveal_strlit("flac");
        assert("aac"@.len() != "flac"@.len());
    }
}

/// The category of a lowercase extension.
pub fn category_from_extension(ext: &str) -> (c: FileCategory)
    ensures
        c == category_of(ext@),
{
    let e = chars_of(ext);
    let e = e.as_slice();
    if is_lit(e, "html") || is_lit(e, "htm") {
        FileCategory::Html
    } else if is_lit(e, "css") {
        FileCategory::Css
    } else if is_lit(e, "js") || is_lit(e, "mjs") {
        FileCategory::JavaScript
    } else if is_lit(e, "png") || is_lit(e, "jpg") || is_lit(e, "jpeg") || is_lit(e, "gif")
        || is_lit(e, "webp") || is_lit(e, "svg") || is_lit(e, "svgz") || is_lit(e, "ico")
        || is_lit(e, "bmp") || is_lit(e, "tiff") || is_lit(e, "tif") {
        FileCategory::Image
    } else if is_lit(e, "woff") || is_lit(e, "woff2") || is_lit(e, "ttf") || is_lit(e, "otf")
        || is_lit(e, "eot") {
        FileCategory::Font
    } else if is_lit(e, "mp4") || is_lit(e, "webm") || is_lit(e, "ogg") || is_lit(e, "avi")
        || is_lit(e, "mov") {
        FileCategory::Video
    } else if is_lit(e, "mp3") || is_lit(e, "wav") || is_lit(e, "flac") || is_lit(e, "aac") {
        FileCategory::Audio
    } else {
        FileCategory::Other
    }
}

/// The category of a path, by its lowercase extension.
pub fn category_from_path(path: &str) -> (c: FileCategory)
    ensures
        c == category_of(lower_extension(path@)),
{
    let ext = lowercase_extension(path);
    category_from_extension(ext.as_str())
}

impl FileCategory {
    /// The category's name.
    pub fn as_str(&self) -> (s: &'static str)
        ensures
            s@ == (match self {
                FileCategory::Html => "html"@,
                FileCategory::Css => "css"@,
                FileCategory::JavaScript => "javascript"@,
                FileCategory::Image => "image"@,
                FileCategory::Font => "font"@,
                FileCategory::Video => "video"@,
                FileCategory::Audio => "audio"@,
                FileCategory::Other => "other"@,
            }),
    {
        match self {
            FileCategory::Html => "html",
            FileCategory::Css => "css",
            FileCategory::JavaScript => "javascript",
            FileCategory::Image => "image",
            FileCategory::Font => "font",
            FileCategory::Video => "video",
            FileCategory::Audio => "audio",
            FileCategory::Other => "other",
        }
    }
}

} // verus!
