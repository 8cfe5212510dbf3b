//! Serving one request: validators (`ETag`, `Last-Modified`), conditional
//! requests, content-coding negotiation, the headers of every kind of
//! response, multipart framing, and the steps that take a request from its
//! path to a file, a directory listing or an error.
//!
//! Reading files and asking the file system questions is left to the
//! caller: each step says what it needs to know next, and the caller
//! answers by calling the following step.
use vstd::prelude::*;
use std::sync::Arc;
use async_compression::tokio::write::{BrotliEncoder, DeflateEncoder, GzipEncoder};
use async_compression::Level;
use futures::executor::block_on;
use tokio::io::AsyncWriteExt;
use crate::cache::{directives_for, header_text, join, CacheDirectives, CachePolicy};
use crate::config::{CompressionConfig, ServerConfig};
use crate::datetime::{http_date, http_date_spec, imf_fixdate, parse_http_date, printable};
use crate::directory::DirectoryLister;
use crate::hotlink::{hotlink_decision, HotlinkProtector, HotlinkResult};
use crate::metrics::{bump, Counters, ServerMetrics};
use crate::mime_util::{compressible, guess_mime, is_compressible, mime_of_path, mime_text};
use crate::num::{decimal, hex, push_decimal, push_hex, zero_pad};
use crate::paths::components;
use crate::range::{parse_range_header, range_header_spec, within, ByteRange, RangeError};
use crate::security::{
    disk_spec, join_path, path_join, resolve_spec, safe_names, DiskFacts, DiskView,
    PathValidator, SecurityError,
};
use crate::text::{
    chars_of, contains_chars, contains_seq, is_lit, last_index, opt_view, owned, push_char,
    push_str, rfind_char, split_chars, split_on, sub_chars, to_lowercase, trim, trim_chars,
    unicode_lowercase, views,
};

verus! {

// ---------------------------------------------------------------------
// Paths and validators
// ---------------------------------------------------------------------

/// The last `/`-separated segment of a path (the whole path when it has no
/// `/`).
pub open spec fn last_segment(path: Seq<char>) -> Seq<char> {
    match last_index(path, '/') {
        Some(i) => path.subrange(i + 1, path.len() as int),
        None => path,
    }
}

/// `has_extension`: whether the last segment of a request path has a dot.
pub fn has_extension(path: &str) -> (b: bool)
    ensures
        b == last_segment(path@).contains('.'),
{
    let v = chars_of(path);
    let seg = match rfind_char(v.as_slice(), '/') {
        Some(i) => sub_chars(v.as_slice(), i + 1, v.len()),
        None => sub_chars(v.as_slice(), 0, v.len()),
    };
    assert(seg@ == last_segment(path@)) by {
        if last_index(v@, '/') is None {
            assert(v@.subrange(0, v@.len() as int) == v@);
        }
    }
    let mut i: usize = 0;
    while i < seg.len()
        invariant
            i <= seg@.len(),
            seg@ == last_segment(path@),
            forall|j: int| 0 <= j < i ==> seg@[j] != '.',
        decreases seg.len() - i,
    {
        if seg[i] == '.' {
            assert(seg@[i as int] == '.');
            return true;
        }
        i += 1;
    }
    false
}

/// The entity tag of a file: `"<mtime>-<size>"` in lowercase hexadecimal.
pub open spec fn etag_text(mtime: nat, size: nat) -> Seq<char> {
    seq!['"'] + hex(mtime) + seq!['-'] + hex(size) + seq!['"']
}

/// `generate_etag`: the entity tag of a file of `size` bytes last modified
/// `modified` seconds after the epoch (0 when the time is unknown).
pub fn generate_etag(size: u64, modified: Option<u64>) -> (r: String)
    ensures
        r@ == etag_text(
            match modified {
                Some(m) => m as nat,
                None => 0,
            },
            size as nat,
        ),
{
    let mtime = match modified {
        Some(m) => m,
        None => 0,
    };
    let mut r = String::new();
    push_char(&mut r, '"');
    push_hex(&mut r, mtime);
    push_char(&mut r, '-');
    push_hex(&mut r, size);
    push_char(&mut r, '"');
    assert(r@ =~= etag_text(mtime as nat, size as nat));
    r
}

/// Whether one entry of an `If-None-Match` list matches the entity tag:
/// `*`, the tag itself, or its weak form `W/<tag>`.
pub open spec fn tag_matches(candidate: Seq<char>, etag: Seq<char>) -> bool {
    candidate == "*"@ || candidate == etag || candidate == "W/"@ + etag
}

/// Whether some comma-separated entry of `list`, trimmed, matches `etag`.
pub open spec fn list_matches(list: Seq<char>, etag: Seq<char>) -> bool {
    exists|i: int|
        0 <= i < split_on(list, ',').len() && tag_matches(
            trim(#[trigger] split_on(list, ',')[i]),
            etag,
        )
}

/// The answer to a conditional request: `If-None-Match` decides when it is
/// present; otherwise `If-Modified-Since`, when it parses and the
/// modification time is known, decides whether the file is unchanged since.
pub open spec fn not_modified(
    if_none_match: Option<Seq<char>>,
    if_modified_since: Option<Seq<char>>,
    etag: Seq<char>,
    modified: Option<u64>,
) -> bool {
    match if_none_match {
        Some(list) => list_matches(list, etag),
        None => match (if_modified_since, modified) {
            (Some(text), Some(m)) => match http_date_spec(text) {
                Some(since) => m <= since as u64,
                None => false,
            },
            _ => false,
        },
    }
}

/// The view of an optional string slice.
pub open spec fn opt_str(o: Option<&str>) -> Option<Seq<char>> {
    match o {
        Some(s) => Some(s@),
        None => None,
    }
}

fn matches_tag(candidate: &[char], etag: &[char]) -> (b: bool)
    ensures
        b == tag_matches(candidate@, etag@),
{
    let mut weak: Vec<char> = Vec::new();
    weak.push('W');
    weak.push('/');
    let mut k: usize = 0;
    while k < etag.len()
        invariant
            k <= etag@.len(),
            weak@ == seq!['W', '/'] + etag@.take(k as int),
        decreases etag.len() - k,
    {
        assert(etag@.take(k + 1) == etag@.take(k as int).push(etag@[k as int]));
        weak.push(etag[k]);
        k += 1;
    }
    assert(etag@.take(etag@.len() as int) == etag@);
    proof {
        reveal_strlit("W/");
    }
    assert(weak@ == "W/"@ + etag@);
    is_lit(candidate, "*") || crate::text::chars_eq(candidate, etag)
        || crate::text::chars_eq(candidate, weak.as_slice())
}

/// `check_not_modified`: whether a conditional request can be answered
/// with 304 Not Modified.
pub fn check_not_modified(
    if_none_match: Option<&str>,
    if_modified_since: Option<&str>,
    etag: &str,
    modified: Option<u64>,
) -> (b: bool)
    ensures
        b == not_modified(opt_str(if_none_match), opt_str(if_modified_since), etag@, modified),
{
    let tag = chars_of(etag);
    if let Some(list) = if_none_match {
        let v = chars_of(list);
        let parts = split_chars(v.as_slice(), ',');
        let ghost pieces = split_on(list@, ',');
        let mut i: usize = 0;
        while i < parts.len()
            invariant
                i <= parts@.len(),
                views(parts@) == pieces,
                pieces == split_on(list@, ','),
                if_none_match == Some(list),
                tag@ == etag@,
                forall|j: int| 0 <= j < i ==> !tag_matches(trim(#[trigger] pieces[j]), etag@),
            decreases parts.len() - i,
        {
            assert(parts@[i as int]@ == pieces[i as int]);
            let t = trim_chars(parts[i].as_slice());
            if matches_tag(t.as_slice(), tag.as_slice()) {
                assert(tag_matches(trim(split_on(list@, ',')[i as int]), etag@));
                assert(list_matches(list@, etag@));
                return true;
            }
            i += 1;
        }
        return false;
    }
    if let Some(text) = if_modified_since {
        if let Ok(since) = parse_http_date(text) {
            if let Some(m) = modified {
                if m <= since {
                    return true;
                }
            }
        }
    }
    false
}

/// `If-None-Match` decides alone whenever it is present.
pub proof fn lemma_if_none_match_decides(
    list: Seq<char>,
    ims1: Option<Seq<char>>,
    ims2: Option<Seq<char>>,
    etag: Seq<char>,
    m1: Option<u64>,
    m2: Option<u64>,
)
    ensures
        not_modified(Some(list), ims1, etag, m1) == not_modified(Some(list), ims2, etag, m2),
{
}

/// A list holding a single tag (no comma, no surrounding whitespace)
/// matches exactly when the tag does.
pub proof fn lemma_single_tag(tag: Seq<char>, etag: Seq<char>)
    requires
        !tag.contains(','),
        trim(tag) == tag,
    ensures
        list_matches(tag, etag) == tag_matches(tag, etag),
{
    crate::text::lemma_first_index_none(tag, ',');
    assert(split_on(tag, ',') == seq![tag]);
    assert(split_on(tag, ',')[0] == tag);
}

/// `If-None-Match: *` matches every entity tag.
pub proof fn lemma_star_matches_any(
    ims: Option<Seq<char>>,
    etag: Seq<char>,
    modified: Option<u64>,
)
    ensures
        not_modified(Some("*"@), ims, etag, modified),
{
    reveal_strlit("*");
    let star = "*"@;
    assert(star.len() == 1 && star[0] == '*');
    assert(!star.contains(','));
    assert(crate::text::trim_start(star.drop_first()) == star.drop_first());
    assert(crate::text::trim_start(star) == star);
    assert(crate::text::trim_end(star.drop_last()) == star.drop_last());
    assert(crate::text::trim_end(star) == star);
    lemma_single_tag(star, etag);
}

/// The value of a string of lowercase hexadecimal digits.
pub open spec fn hex_value(s: Seq<char>) -> nat
    decreases s.len(),
{
    if s.len() == 0 {
        0
    } else {
        hex_value(s.drop_last()) * 16 + (if (s.last() as u32) <= 57 {
            (s.last() as u32) - 48
        } else {
            (s.last() as u32) - 87
        }) as nat
    }
}

proof fn lemma_hex_reads_back(n: nat)
    ensures
        hex_value(hex(n)) == n,
        hex(n).len() >= 1,
        forall|i: int|
            0 <= i < hex(n).len() ==> 48 <= (#[trigger] hex(n)[i] as u32) <= 57 || 97 <= (
            hex(n)[i] as u32) <= 102,
    decreases n,
{
    let s = hex(n);
    if n >= 16 {
        lemma_hex_reads_back(n / 16);
        assert(s.drop_last() == hex(n / 16));
        assert forall|i: int| 0 <= i < s.len() - 1 implies #[trigger] s[i] == hex(n / 16)[i] by {}
        assert(n == (n / 16) * 16 + n % 16);
    } else {
        assert(s.drop_last().len() == 0);
    }
    let d = n % 16;
    assert(s.last() == crate::num::digit_char(d as int));
    assert((crate::num::digit_char(d as int) as u32) == (if d < 10 {
        d + 48
    } else {
        d + 87
    }));
    assert(hex_value(s) == hex_value(s.drop_last()) * 16 + (if (s.last() as u32) <= 57 {
        (s.last() as u32) - 48
    } else {
        (s.last() as u32) - 87
    }) as nat);
}

/// Different modification times or sizes give different entity tags.
pub proof fn lemma_etag_distinguishes(m1: nat, s1: nat, m2: nat, s2: nat)
    requires
        etag_text(m1, s1) == etag_text(m2, s2),
    ensures
        m1 == m2,
        s1 == s2,
{
    lemma_hex_reads_back(m1);
    lemma_hex_reads_back(m2);
    lemma_hex_reads_back(s1);
    lemma_hex_reads_back(s2);
    let e = etag_text(m1, s1);
    let a = hex(m1);
    let b = hex(m2);
    let la = a.len() as int;
    let lb = b.len() as int;
    if a.len() < b.len() {
        assert(e[1 + la] == '-');
        assert(etag_text(m2, s2)[1 + la] == b[la]);
        assert(false);
    } else if b.len() < a.len() {
        assert(etag_text(m2, s2)[1 + lb] == '-');
        assert(e[1 + lb] == a[lb]);
        assert(false);
    }
    assert(a =~= e.subrange(1, 1 + la));
    assert(b =~= etag_text(m2, s2).subrange(1, 1 + lb));
    assert(hex(s1) =~= e.subrange(2 + la, e.len() as int - 1));
    assert(hex(s2) =~= etag_text(m2, s2).subrange(2 + lb, e.len() as int - 1));
}

/// A client that revalidates with the entity tag it was given finds the
/// file unchanged.
pub proof fn lemma_etag_revalidates(q: FileQuery, f: FileFacts)
    requires
        q.if_none_match is Some,
        q.if_none_match->0@ == etag_of(f),
    ensures
        fresh(q, f),
{
    let e = etag_of(f);
    let m: nat = match f.modified {
        Some(x) => x as nat,
        None => 0,
    };
    lemma_hex_reads_back(m);
    lemma_hex_reads_back(f.size as nat);
    assert forall|i: int| 0 <= i < e.len() implies 34 <= (#[trigger] e[i] as u32) <= 102 by {
        if 1 <= i < 1 + hex(m).len() {
            assert(e[i] == hex(m)[i - 1]);
        } else if 2 + hex(m).len() <= i < e.len() - 1 {
            assert(e[i] == hex(f.size as nat)[i - 2 - hex(m).len()]);
        }
    }
    assert(!e.contains(','));
    crate::text::lemma_trim_unchanged(e);
    lemma_single_tag(e, e);
}

/// A client that sends back the `Last-Modified` value of an unchanged file,
/// without `If-None-Match`, finds the file unchanged.
pub proof fn lemma_last_modified_revalidates(q: FileQuery, f: FileFacts)
    requires
        q.if_none_match is None,
        f.modified is Some,
        printable(f.modified->0 as nat),
        q.if_modified_since is Some,
        q.if_modified_since->0@ == imf_fixdate(f.modified->0 as nat),
    ensures
        fresh(q, f),
{
    crate::datetime::lemma_http_date_reads_back(f.modified->0 as nat);
}

/// A request that finds a regular file unchanged is answered 304 Not
/// Modified, with no body, whatever else it asks for.
pub proof fn lemma_fresh_is_not_modified(
    h: StaticFileHandler,
    path: Seq<char>,
    q: FileQuery,
    f: FileFacts,
    now: u64,
    random: Seq<u8>,
)
    requires
        f.is_file,
        fresh(q, f),
    ensures
        file_plan(h, path, q, Some(f), now, random) matches PlanView::Reply(head) && head.status
            == 304,
{
}

// ---------------------------------------------------------------------
// Response heads
// ---------------------------------------------------------------------

/// The header lines of a response, as name and value texts.
pub open spec fn header_views(h: Seq<(String, String)>) -> Seq<(Seq<char>, Seq<char>)> {
    h.map_values(|p: (String, String)| (p.0@, p.1@))
}

/// The status line and header lines of a response; its body is described
/// separately.
#[derive(Clone, Debug)]
pub struct ResponseHead {
    pub status: u16,
    pub headers: Vec<(String, String)>,
}

/// The view of a response head.
pub struct HeadView {
    pub status: u16,
    pub headers: Seq<(Seq<char>, Seq<char>)>,
}

impl ResponseHead {
    pub open spec fn view(&self) -> HeadView {
        HeadView { status: self.status, headers: header_views(self.headers@) }
    }
}

/// A response with no header lines.
pub open spec fn bare(status: u16) -> HeadView {
    HeadView { status, headers: seq![] }
}

fn bare_head(status: u16) -> (r: ResponseHead)
    ensures
        r.view() == bare(status),
{
    let r = ResponseHead { status, headers: Vec::new() };
    assert(header_views(r.headers@) =~= seq![]);
    r
}

fn push_header(hs: &mut Vec<(String, String)>, name: &str, value: String)
    ensures
        header_views(final(hs)@) == header_views(old(hs)@).push((name@, value@)),
{
    let ghost before = hs@;
    let ghost v = value@;
    hs.push((owned(name), value));
    assert(header_views(hs@) =~= header_views(before).push((name@, v)));
}

/// The validator and caching lines every file response carries.
pub open spec fn validator_lines(
    etag: Seq<char>,
    last_modified: Seq<char>,
    cache: CacheDirectives,
) -> Seq<(Seq<char>, Seq<char>)> {
    seq![("etag"@, etag), ("last-modified"@, last_modified), ("cache-control"@, header_text(cache))]
}

/// The head of a whole, uncoded file (and of the answer to `HEAD`).
pub open spec fn full_lines(
    content_type: Seq<char>,
    length: nat,
    etag: Seq<char>,
    last_modified: Seq<char>,
    cache: CacheDirectives,
) -> Seq<(Seq<char>, Seq<char>)> {
    seq![("content-type"@, content_type), ("content-length"@, decimal(length))]
        + validator_lines(etag, last_modified, cache) + seq![("accept-ranges"@, "bytes"@)]
}

/// The head of a file sent with a content coding.
pub open spec fn coded_lines(
    content_type: Seq<char>,
    length: nat,
    coding: Seq<char>,
    etag: Seq<char>,
    last_modified: Seq<char>,
    cache: CacheDirectives,
) -> Seq<(Seq<char>, Seq<char>)> {
    seq![
        ("content-type"@, content_type),
        ("content-length"@, decimal(length)),
        ("content-encoding"@, coding),
    ] + validator_lines(etag, last_modified, cache) + seq![
        ("accept-ranges"@, "none"@),
        ("vary"@, "Accept-Encoding"@),
    ]
}

/// `bytes <start>-<end>/<size>`.
pub open spec fn content_range(r: ByteRange, size: u64) -> Seq<char> {
    "bytes "@ + decimal(r.start as nat) + seq!['-'] + decimal(r.end as nat) + seq!['/'] + decimal(
        size as nat,
    )
}

/// The head of one range of a file.
pub open spec fn range_lines(
    content_type: Seq<char>,
    r: ByteRange,
    size: u64,
    etag: Seq<char>,
    last_modified: Seq<char>,
    cache: CacheDirectives,
) -> Seq<(Seq<char>, Seq<char>)> {
    seq![
        ("content-type"@, content_type),
        ("content-length"@, decimal((r.end - r.start + 1) as nat)),
        ("content-range"@, content_range(r, size)),
    ] + validator_lines(etag, last_modified, cache) + seq![("accept-ranges"@, "bytes"@)]
}

/// The head of a `multipart/byteranges` response.
pub open spec fn multipart_lines(
    boundary: Seq<char>,
    etag: Seq<char>,
    last_modified: Seq<char>,
    cache: CacheDirectives,
) -> Seq<(Seq<char>, Seq<char>)> {
    seq![("content-type"@, "multipart/byteranges; boundary="@ + boundary)] + validator_lines(
        etag,
        last_modified,
        cache,
    ) + seq![("accept-ranges"@, "bytes"@)]
}

fn push_validators(
    hs: &mut Vec<(String, String)>,
    etag: &str,
    last_modified: &str,
    cache: &CacheDirectives,
)
    ensures
        header_views(final(hs)@) == header_views(old(hs)@) + validator_lines(
            etag@,
            last_modified@,
            *cache,
        ),
{
    let ghost before = header_views(hs@);
    push_header(hs, "etag", owned(etag));
    push_header(hs, "last-modified", owned(last_modified));
    push_header(hs, "cache-control", cache.to_header_value());
    assert(header_views(hs@) =~= before + validator_lines(etag@, last_modified@, *cache));
}

fn decimal_text(n: u64) -> (r: String)
    ensures
        r@ == decimal(n as nat),
{
    let mut r = String::new();
    push_decimal(&mut r, n);
    assert(r@ =~= decimal(n as nat));
    r
}

/// The head of a whole file: 200 with type, length, validators, caching
/// and `Accept-Ranges: bytes`.
pub fn full_head(
    content_type: &str,
    length: u64,
    etag: &str,
    last_modified: &str,
    cache: &CacheDirectives,
) -> (r: ResponseHead)
    ensures
        r.view() == (HeadView {
            status: 200,
            headers: full_lines(content_type@, length as nat, etag@, last_modified@, *cache),
        }),
{
    let mut hs: Vec<(String, String)> = Vec::new();
    push_header(&mut hs, "content-type", owned(content_type));
    push_header(&mut hs, "content-length", decimal_text(length));
    push_validators(&mut hs, etag, last_modified, cache);
    push_header(&mut hs, "accept-ranges", owned("bytes"));
    assert(header_views(hs@) =~= full_lines(
        content_type@,
        length as nat,
        etag@,
        last_modified@,
        *cache,
    ));
    ResponseHead { status: 200, headers: hs }
}

/// The head of a file sent with a content coding: 200 with type, length,
/// `Content-Encoding`, validators, caching, `Accept-Ranges: none` and
/// `Vary: Accept-Encoding`.
pub fn coded_head(
    content_type: &str,
    length: u64,
    coding: &str,
    etag: &str,
    last_modified: &str,
    cache: &CacheDirectives,
) -> (r: ResponseHead)
    ensures
        r.view() == (HeadView {
            status: 200,
            headers: coded_lines(
                content_type@,
                length as nat,
                coding@,
                etag@,
                last_modified@,
                *cache,
            ),
        }),
{
    let mut hs: Vec<(String, String)> = Vec::new();
    push_header(&mut hs, "content-type", owned(content_type));
    push_header(&mut hs, "content-length", decimal_text(length));
    push_header(&mut hs, "content-encoding", owned(coding));
    push_validators(&mut hs, etag, last_modified, cache);
    push_header(&mut hs, "accept-ranges", owned("none"));
    push_header(&mut hs, "vary", owned("Accept-Encoding"));
    assert(header_views(hs@) =~= coded_lines(
        content_type@,
        length as nat,
        coding@,
        etag@,
        last_modified@,
        *cache,
    ));
    ResponseHead { status: 200, headers: hs }
}

/// The `Content-Range` value of a range of a file of `size` bytes.
pub fn content_range_value(r: &ByteRange, size: u64) -> (v: String)
    ensures
        v@ == content_range(*r, size),
{
    let mut v = owned("bytes ");
    push_decimal(&mut v, r.start);
    push_char(&mut v, '-');
    push_decimal(&mut v, r.end);
    push_char(&mut v, '/');
    push_decimal(&mut v, size);
    assert(v@ =~= content_range(*r, size));
    v
}

/// The head of one range of a file: 206 with type, the range's length,
/// `Content-Range`, validators, caching and `Accept-Ranges: bytes`.
pub fn range_head(
    content_type: &str,
    r: &ByteRange,
    size: u64,
    etag: &str,
    last_modified: &str,
    cache: &CacheDirectives,
) -> (h: ResponseHead)
    requires
        within(*r, size),
    ensures
        h.view() == (HeadView {
            status: 206,
            headers: range_lines(content_type@, *r, size, etag@, last_modified@, *cache),
        }),
{
    let mut hs: Vec<(String, String)> = Vec::new();
    push_header(&mut hs, "content-type", owned(content_type));
    push_header(&mut hs, "content-length", decimal_text(r.length()));
    push_header(&mut hs, "content-range", content_range_value(r, size));
    push_validators(&mut hs, etag, last_modified, cache);
    push_header(&mut hs, "accept-ranges", owned("bytes"));
    assert(header_views(hs@) =~= range_lines(
        content_type@,
        *r,
        size,
        etag@,
        last_modified@,
        *cache,
    ));
    ResponseHead { status: 206, headers: hs }
}

/// The head of a `multipart/byteranges` response: 206 with the multipart
/// type and its boundary, validators, caching and `Accept-Ranges: bytes`.
pub fn multipart_head(
    boundary: &str,
    etag: &str,
    last_modified: &str,
    cache: &CacheDirectives,
) -> (h: ResponseHead)
    ensures
        h.view() == (HeadView {
            status: 206,
            headers: multipart_lines(boundary@, etag@, last_modified@, *cache),
        }),
{
    let mut ct = owned("multipart/byteranges; boundary=");
    push_str(&mut ct, boundary);
    let mut hs: Vec<(String, String)> = Vec::new();
    push_header(&mut hs, "content-type", ct);
    push_validators(&mut hs, etag, last_modified, cache);
    push_header(&mut hs, "accept-ranges", owned("bytes"));
    assert(header_views(hs@) =~= multipart_lines(boundary@, etag@, last_modified@, *cache));
    ResponseHead { status: 206, headers: hs }
}

/// The answer to a conditional request for an unchanged file: 304 with the
/// validators.
pub fn not_modified_head(etag: &str, last_modified: &str) -> (h: ResponseHead)
    ensures
        h.view() == (HeadView {
            status: 304,
            headers: seq![("etag"@, etag@), ("last-modified"@, last_modified@)],
        }),
{
    let mut hs: Vec<(String, String)> = Vec::new();
    push_header(&mut hs, "etag", owned(etag));
    push_header(&mut hs, "last-modified", owned(last_modified));
    assert(header_views(hs@) =~= seq![("etag"@, etag@), ("last-modified"@, last_modified@)]);
    ResponseHead { status: 304, headers: hs }
}

/// The answer to a range request no range of which the file has: 416 with
/// `Content-Range: bytes */<size>`.
pub fn unsatisfiable_head(size: u64) -> (h: ResponseHead)
    ensures
        h.view() == (HeadView {
            status: 416,
            headers: seq![("content-range"@, "bytes */"@ + decimal(size as nat))],
        }),
{
    let mut v = owned("bytes */");
    push_decimal(&mut v, size);
    let mut hs: Vec<(String, String)> = Vec::new();
    push_header(&mut hs, "content-range", v);
    assert(header_views(hs@) =~= seq![("content-range"@, "bytes */"@ + decimal(size as nat))]);
    ResponseHead { status: 416, headers: hs }
}

// ---------------------------------------------------------------------
// Multipart bodies
// ---------------------------------------------------------------------

/// The lines that open one part of a `multipart/byteranges` body.
pub open spec fn part_opening(boundary: Seq<char>, mime: Seq<char>, r: ByteRange, size: u64) -> Seq<
    char,
> {
    "--"@ + boundary + "\r\n"@ + "Content-Type: "@ + mime + "\r\n"@ + "Content-Range: "@
        + content_range(r, size) + "\r\n\r\n"@
}

/// The text that opens one part of a multipart body: its boundary line,
/// `Content-Type` and `Content-Range`, and the blank line. The part's bytes
/// follow, then `\r\n`.
pub fn multipart_part_opening(boundary: &str, mime: &str, r: &ByteRange, size: u64) -> (t: String)
    ensures
        t@ == part_opening(boundary@, mime@, *r, size),
{
    let mut t = owned("--");
    push_str(&mut t, boundary);
    push_str(&mut t, "\r\n");
    push_str(&mut t, "Content-Type: ");
    push_str(&mut t, mime);
    push_str(&mut t, "\r\n");
    push_str(&mut t, "Content-Range: ");
    let cr = content_range_value(r, size);
    push_str(&mut t, cr.as_str());
    push_str(&mut t, "\r\n\r\n");
    t
}

/// The text that closes a multipart body: `--<boundary>--\r\n`.
pub fn multipart_closing(boundary: &str) -> (t: String)
    ensures
        t@ == "--"@ + boundary@ + "--\r\n"@,
{
    let mut t = owned("--");
    push_str(&mut t, boundary);
    push_str(&mut t, "--\r\n");
    t
}

/// One piece of a response body: some text, or `length` bytes of the file
/// from offset `start`.
#[derive(Debug)]
pub enum BodyPiece {
    Text(String),
    FileBytes { start: u64, length: u64 },
}

/// The view of a body piece.
pub enum PieceView {
    Text(Seq<char>),
    FileBytes { start: u64, length: u64 },
}

impl BodyPiece {
    pub open spec fn view(&self) -> PieceView {
        match self {
            BodyPiece::Text(t) => PieceView::Text(t@),
            BodyPiece::FileBytes { start, length } => PieceView::FileBytes {
                start: *start,
                length: *length,
            },
        }
    }
}

/// The views of a list of body pieces.
pub open spec fn piece_views(s: Seq<BodyPiece>) -> Seq<PieceView> {
    s.map_values(|p: BodyPiece| p.view())
}

/// The parts of a `multipart/byteranges` body, one per range in order:
/// the part's opening lines, the range's bytes, and `\r\n`.
pub open spec fn part_pieces(
    boundary: Seq<char>,
    mime: Seq<char>,
    rs: Seq<ByteRange>,
    size: u64,
) -> Seq<PieceView>
    decreases rs.len(),
{
    if rs.len() == 0 {
        seq![]
    } else {
        let r = rs.last();
        part_pieces(boundary, mime, rs.drop_last(), size) + seq![
            PieceView::Text(part_opening(boundary, mime, r, size)),
            PieceView::FileBytes { start: r.start, length: (r.end - r.start + 1) as u64 },
            PieceView::Text("\r\n"@),
        ]
    }
}

/// A whole `multipart/byteranges` body: its parts, then the closing
/// boundary line.
pub open spec fn multipart_pieces(
    boundary: Seq<char>,
    mime: Seq<char>,
    rs: Seq<ByteRange>,
    size: u64,
) -> Seq<PieceView> {
    part_pieces(boundary, mime, rs, size) + seq![PieceView::Text("--"@ + boundary + "--\r\n"@)]
}

/// The layout of a `multipart/byteranges` body for ranges inside a file of
/// `size` bytes (`build_multipart_stream`): for each range its opening
/// lines, its bytes and `\r\n`, then the closing boundary line.
pub fn multipart_layout(boundary: &str, mime: &str, ranges: &[ByteRange], size: u64) -> (r: Vec<
    BodyPiece,
>)
    requires
        forall|k: int| 0 <= k < ranges@.len() ==> within(#[trigger] ranges@[k], size),
    ensures
        piece_views(r@) == multipart_pieces(boundary@, mime@, ranges@, size),
{
    let mut out: Vec<BodyPiece> = Vec::new();
    let mut i: usize = 0;
    while i < ranges.len()
        invariant
            i <= ranges@.len(),
            forall|k: int| 0 <= k < ranges@.len() ==> within(#[trigger] ranges@[k], size),
            piece_views(out@) == part_pieces(boundary@, mime@, ranges@.take(i as int), size),
        decreases ranges.len() - i,
    {
        let r = &ranges[i];
        assert(within(ranges@[i as int], size));
        let ghost before = out@;
        out.push(BodyPiece::Text(multipart_part_opening(boundary, mime, r, size)));
        out.push(BodyPiece::FileBytes { start: r.start, length: r.length() });
        out.push(BodyPiece::Text(owned("\r\n")));
        assert(ranges@.take(i + 1).drop_last() =~= ranges@.take(i as int));
        assert(ranges@.take(i + 1).last() == ranges@[i as int]);
        assert(piece_views(out@) =~= piece_views(before) + seq![
            PieceView::Text(part_opening(boundary@, mime@, ranges@[i as int], size)),
            PieceView::FileBytes {
                start: ranges@[i as int].start,
                length: (ranges@[i as int].end - ranges@[i as int].start + 1) as u64,
            },
            PieceView::Text("\r\n"@),
        ]);
        i += 1;
    }
    let ghost before = out@;
    out.push(BodyPiece::Text(multipart_closing(boundary)));
    assert(ranges@.take(ranges@.len() as int) =~= ranges@);
    assert(piece_views(out@) =~= piece_views(before) + seq![
        PieceView::Text("--"@ + boundary@ + "--\r\n"@),
    ]);
    out
}

/// Two lowercase hexadecimal digits per byte (`{:02x}`).
pub open spec fn hex_bytes(b: Seq<u8>) -> Seq<char>
    decreases b.len(),
{
    if b.len() == 0 {
        seq![]
    } else {
        hex_bytes(b.drop_last()) + zero_pad(hex(b.last() as nat), 2)
    }
}

/// `generate_boundary`: the boundary made of sixteen random bytes, as 32
/// lowercase hexadecimal digits.
pub fn generate_boundary(random: &[u8]) -> (s: String)
    requires
        random@.len() == 16,
    ensures
        s@ == hex_bytes(random@),
        s@.len() == 32,
{
    let mut s = String::new();
    let mut i: usize = 0;
    while i < random.len()
        invariant
            i <= random@.len(),
            s@ == hex_bytes(random@.take(i as int)),
            s@.len() == 2 * i,
        decreases random.len() - i,
    {
        assert(random@.take(i + 1).drop_last() == random@.take(i as int));
        let b = random[i];
        if b < 16 {
            push_char(&mut s, '0');
        }
        let ghost before = s@;
        push_hex(&mut s, b as u64);
        proof {
            lemma_hex_two_digits(b as nat);
        }
        assert(s@ =~= hex_bytes(random@.take(i + 1)));
        i += 1;
    }
    assert(random@.take(16) == random@);
    s
}

proof fn lemma_hex_two_digits(n: nat)
    requires
        n < 256,
    ensures
        n < 16 ==> hex(n).len() == 1 && zero_pad(hex(n), 2) == seq!['0'] + hex(n),
        n >= 16 ==> hex(n).len() == 2 && zero_pad(hex(n), 2) == hex(n),
{
    reveal_with_fuel(hex, 3);
    if n < 16 {
        assert(Seq::new(1, |i: int| '0') =~= seq!['0']);
    }
}

// ---------------------------------------------------------------------
// Content codings
// ---------------------------------------------------------------------

#[verifier::external_type_specification]
#[verifier::external_body]
pub struct ExIoError(std::io::Error);

/// What `async_compression`'s `GzipEncoder` makes of `data` at
/// `Level::Precise(level)`, writing into a vector: the gzip stream it
/// wrote, or `None` when the encoder reports an error.
pub uninterp spec fn gzip_stream(data: Seq<u8>, level: i32) -> Option<Seq<u8>>;

/// What `async_compression`'s `BrotliEncoder` makes of `data` at
/// `Level::Precise(level)`, writing into a vector: the Brotli stream it
/// wrote, or `None` when the encoder reports an error.
pub uninterp spec fn brotli_stream(data: Seq<u8>, level: i32) -> Option<Seq<u8>>;

/// What `async_compression`'s `DeflateEncoder` makes of `data` at
/// `Level::Precise(level)`, writing into a vector: the deflate stream it
/// wrote, or `None` when the encoder reports an error.
pub uninterp spec fn deflate_stream(data: Seq<u8>, level: i32) -> Option<Seq<u8>>;

/// Runs `async_compression::tokio::write::GzipEncoder` over `data` into a
/// vector (`write_all`, `shutdown`, `into_inner`); the outcome is
/// `gzip_stream(data, level)`.
#[verifier::external_body]
fn gzip_encode(data: &[u8], level: i32) -> (r: Result<Vec<u8>, std::io::Error>)
    ensures
        match r {
            Ok(out) => gzip_stream(data@, level) == Some(out@),
            Err(_) => gzip_stream(data@, level) is None,
        },
{
    let mut encoder = GzipEncoder::with_quality(Vec::new(), Level::Precise(level));
    block_on(encoder.write_all(data))?;
    block_on(encoder.shutdown())?;
    Ok(encoder.into_inner())
}

/// Runs `async_compression::tokio::write::BrotliEncoder` over `data` into a
/// vector (`write_all`, `shutdown`, `into_inner`); the outcome is
/// `brotli_stream(data, level)`.
#[verifier::external_body]
fn brotli_encode(data: &[u8], level: i32) -> (r: Result<Vec<u8>, std::io::Error>)
    ensures
        match r {
            Ok(out) => brotli_stream(data@, level) == Some(out@),
            Err(_) => brotli_stream(data@, level) is None,
        },
{
    let mut encoder = BrotliEncoder::with_quality(Vec::new(), Level::Precise(level));
    block_on(encoder.write_all(data))?;
    block_on(encoder.shutdown())?;
    Ok(encoder.into_inner())
}

/// Runs `async_compression::tokio::write::DeflateEncoder` over `data` into
/// a vector (`write_all`, `shutdown`, `into_inner`); the outcome is
/// `deflate_stream(data, level)`.
#[verifier::external_body]
fn deflate_encode(data: &[u8], level: i32) -> (r: Result<Vec<u8>, std::io::Error>)
    ensures
        match r {
            Ok(out) => deflate_stream(data@, level) == Some(out@),
            Err(_) => deflate_stream(data@, level) is None,
        },
{
    let mut encoder = DeflateEncoder::with_quality(Vec::new(), Level::Precise(level));
    block_on(encoder.write_all(data))?;
    block_on(encoder.shutdown())?;
    Ok(encoder.into_inner())
}

/// Why a body could not be compressed.
#[derive(Clone, Copy, Debug, PartialEq, Eq, Structural)]
pub enum CompressError {
    /// The coding is not one the server produces.
    Unsupported,
    /// The encoder reported an error.
    Failed,
}

/// The codings the server produces on the fly.
pub open spec fn supported_coding(coding: Seq<char>) -> bool {
    coding == "gzip"@ || coding == "br"@ || coding == "deflate"@
}

/// The compressed body for a coding name, with the configured level:
/// `None` for a coding the server does not produce, or when its encoder
/// reports an error.
pub open spec fn coded_body(cfg: CompressionConfig, data: Seq<u8>, coding: Seq<char>) -> Option<
    Seq<u8>,
> {
    if coding == "gzip"@ {
        gzip_stream(data, cfg.gzip_level as i32)
    } else if coding == "br"@ {
        brotli_stream(data, cfg.brotli_level as i32)
    } else if coding == "deflate"@ {
        deflate_stream(data, cfg.deflate_level as i32)
    } else {
        None
    }
}

/// The coding chosen for an already lowercased `Accept-Encoding` value: a
/// precompressed sibling (`br-pre`, `gzip-pre`) when allowed, present and
/// accepted, else a coding produced on the fly (`br`, `gzip`, `deflate`),
/// each chosen when its name occurs in the value.
pub open spec fn negotiated_lower(
    precompressed: bool,
    lower: Seq<char>,
    br_sibling: bool,
    gz_sibling: bool,
) -> Option<Seq<char>> {
    if precompressed && contains_seq(lower, "br"@) && br_sibling {
        Some("br-pre"@)
    } else if precompressed && contains_seq(lower, "gzip"@) && gz_sibling {
        Some("gzip-pre"@)
    } else if contains_seq(lower, "br"@) {
        Some("br"@)
    } else if contains_seq(lower, "gzip"@) {
        Some("gzip"@)
    } else if contains_seq(lower, "deflate"@) {
        Some("deflate"@)
    } else {
        None
    }
}

/// The coding a request is answered with, from its `Accept-Encoding` value
/// (none counts as empty), lowercased.
pub open spec fn negotiated(
    precompressed: bool,
    accept: Option<Seq<char>>,
    br_sibling: bool,
    gz_sibling: bool,
) -> Option<Seq<char>> {
    negotiated_lower(
        precompressed,
        unicode_lowercase(
            match accept {
                Some(a) => a,
                None => ""@,
            },
        ),
        br_sibling,
        gz_sibling,
    )
}

/// Serves files from the root directory.
#[derive(Debug)]
pub struct StaticFileHandler {
    pub path_validator: PathValidator,
    pub cache_policy: CachePolicy,
    pub compression_config: Arc<CompressionConfig>,
    pub hotlink_protector: HotlinkProtector,
    pub metrics: ServerMetrics,
    pub directory_lister: DirectoryLister,
    pub index_file: String,
    pub spa_fallback: bool,
    pub directory_listing: bool,
}

impl StaticFileHandler {
    /// A handler with the given parts; the index file name and the SPA and
    /// listing switches come from the server settings.
    pub fn new(
        path_validator: PathValidator,
        cache_policy: CachePolicy,
        compression_config: Arc<CompressionConfig>,
        hotlink_protector: HotlinkProtector,
        metrics: ServerMetrics,
        server_config: Arc<ServerConfig>,
    ) -> (r: Self)
        ensures
            r.path_validator == path_validator,
            r.cache_policy == cache_policy,
            r.compression_config == compression_config,
            r.hotlink_protector == hotlink_protector,
            r.metrics == metrics,
            r.directory_lister.settings() == *server_config,
            r.index_file@ == server_config.index_file@,
            r.spa_fallback == server_config.spa_fallback,
            r.directory_listing == server_config.directory_listing,
    {
        let directory_lister = DirectoryLister::new(server_config.clone(), path_validator.clone());
        let index_file = server_config.index_file.clone();
        let spa_fallback = server_config.spa_fallback;
        let directory_listing = server_config.directory_listing;
        StaticFileHandler {
            path_validator,
            cache_policy,
            compression_config,
            hotlink_protector,
            metrics,
            directory_lister,
            index_file,
            spa_fallback,
            directory_listing,
        }
    }

    /// `negotiate_encoding`: the coding to answer with, given the
    /// `Accept-Encoding` value and whether the file has `.br` and `.gz`
    /// siblings.
    pub fn negotiate_encoding(
        &self,
        accept_encoding: Option<&str>,
        br_sibling: bool,
        gz_sibling: bool,
    ) -> (r: Option<&'static str>)
        ensures
            opt_str(r) == negotiated(
                self.compression_config.precompressed,
                opt_str(accept_encoding),
                br_sibling,
                gz_sibling,
            ),
    {
        let accept = match accept_encoding {
            Some(a) => a,
            None => "",
        };
        let lower = to_lowercase(accept);
        self.negotiate_lowercased(lower.as_str(), br_sibling, gz_sibling)
    }

    /// The coding to answer with, given the lowercased `Accept-Encoding`
    /// value and whether the file has `.br` and `.gz` siblings.
    pub fn negotiate_lowercased(
        &self,
        accept_lower: &str,
        br_sibling: bool,
        gz_sibling: bool,
    ) -> (r: Option<&'static str>)
        ensures
            opt_str(r) == negotiated_lower(
                self.compression_config.precompressed,
                accept_lower@,
                br_sibling,
                gz_sibling,
            ),
    {
        let l = chars_of(accept_lower);
        let br = chars_of("br");
        let gzip = chars_of("gzip");
        let deflate = chars_of("deflate");
        let has_br = contains_chars(l.as_slice(), br.as_slice());
        let has_gzip = contains_chars(l.as_slice(), gzip.as_slice());
        let has_deflate = contains_chars(l.as_slice(), deflate.as_slice());
        if self.compression_config.precompressed {
            if has_br && br_sibling {
                return Some("br-pre");
            }
            if has_gzip && gz_sibling {
                return Some("gzip-pre");
            }
        }
        if has_br {
            return Some("br");
        }
        if has_gzip {
            return Some("gzip");
        }
        if has_deflate {
            return Some("deflate");
        }
        None
    }

    /// `compress_bytes`: `data` compressed with the named coding at its
    /// configured level.
    pub fn compress_bytes(&self, data: &[u8], encoding: &str) -> (r: Result<Vec<u8>, CompressError>)
        ensures
            match r {
                Ok(out) => coded_body(*self.compression_config, data@, encoding@) == Some(out@),
                Err(e) => {
                    &&& coded_body(*self.compression_config, data@, encoding@) is None
                    &&& (e == CompressError::Unsupported) == !supported_coding(encoding@)
                },
            },
    {
        let e = chars_of(encoding);
        let produced = if is_lit(e.as_slice(), "gzip") {
            gzip_encode(data, self.compression_config.gzip_level as i32)
        } else if is_lit(e.as_slice(), "br") {
            brotli_encode(data, self.compression_config.brotli_level as i32)
        } else if is_lit(e.as_slice(), "deflate") {
            deflate_encode(data, self.compression_config.deflate_level as i32)
        } else {
            return Err(CompressError::Unsupported);
        };
        match produced {
            Ok(out) => Ok(out),
            Err(_) => Err(CompressError::Failed),
        }
    }
}

// ---------------------------------------------------------------------
// Serving a file
// ---------------------------------------------------------------------

/// What a request asks of a file, from its headers (each present when the
/// header is there and its value is visible ASCII).
#[derive(Clone, Debug)]
pub struct FileQuery {
    pub if_none_match: Option<String>,
    pub if_modified_since: Option<String>,
    pub range: Option<String>,
    pub accept_encoding: Option<String>,
    pub is_head: bool,
}

/// What the file system reports about a file to serve.
#[derive(Clone, Copy, Debug)]
pub struct FileFacts {
    /// Whether it is a regular file.
    pub is_file: bool,
    /// Its length in bytes.
    pub size: u64,
    /// Its modification time in seconds since the epoch (0 for earlier
    /// times), when the platform provides one.
    pub modified: Option<u64>,
    /// The length of `<path>.br`, when that file exists.
    pub br_size: Option<u64>,
    /// The length of `<path>.gz`, when that file exists.
    pub gz_size: Option<u64>,
}

/// How to answer a request for a file.
#[derive(Debug)]
pub enum FilePlan {
    /// Send this head with an empty body.
    Reply(ResponseHead),
    /// Send this head, then `length` bytes of the file from offset `start`.
    Slice { head: ResponseHead, start: u64, length: u64 },
    /// Send this head, then a `multipart/byteranges` body: for each range,
    /// `multipart_part_opening`, the range's bytes and `\r\n`; then
    /// `multipart_closing` (as `multipart_layout` lays it out).
    Multipart {
        head: ResponseHead,
        ranges: Vec<ByteRange>,
        boundary: String,
        mime: String,
        size: u64,
    },
    /// Send this head, then the whole of the file at `path` (`length`
    /// bytes).
    Sibling { head: ResponseHead, path: String, length: u64 },
    /// Read the whole file, compress it with `coding` and answer with
    /// `compressed_reply`.
    Compress { coding: &'static str },
    /// Send this head, then the whole file (`length` bytes).
    Whole { head: ResponseHead, length: u64 },
}

/// The view of a plan.
pub enum PlanView {
    Reply(HeadView),
    Slice { head: HeadView, start: u64, length: u64 },
    Multipart {
        head: HeadView,
        ranges: Seq<ByteRange>,
        boundary: Seq<char>,
        mime: Seq<char>,
        size: u64,
    },
    Sibling { head: HeadView, path: Seq<char>, length: u64 },
    Compress { coding: Seq<char> },
    Whole { head: HeadView, length: u64 },
}

impl FilePlan {
    pub open spec fn view(&self) -> PlanView {
        match self {
            FilePlan::Reply(h) => PlanView::Reply(h.view()),
            FilePlan::Slice { head, start, length } => PlanView::Slice {
                head: head.view(),
                start: *start,
                length: *length,
            },
            FilePlan::Multipart { head, ranges, boundary, mime, size } => PlanView::Multipart {
                head: head.view(),
                ranges: ranges@,
                boundary: boundary@,
                mime: mime@,
                size: *size,
            },
            FilePlan::Sibling { head, path, length } => PlanView::Sibling {
                head: head.view(),
                path: path@,
                length: *length,
            },
            FilePlan::Compress { coding } => PlanView::Compress { coding: coding@ },
            FilePlan::Whole { head, length } => PlanView::Whole { head: head.view(), length: *length },
        }
    }
}

/// The time a file is said to be last modified: its modification time, or
/// `now` when there is none.
pub open spec fn served_secs(f: FileFacts, now: u64) -> u64 {
    match f.modified {
        Some(m) => m,
        None => now,
    }
}

/// The entity tag of a file.
pub open spec fn etag_of(f: FileFacts) -> Seq<char> {
    etag_text(
        match f.modified {
            Some(m) => m as nat,
            None => 0,
        },
        f.size as nat,
    )
}

/// Whether a request finds the file unchanged.
pub open spec fn fresh(q: FileQuery, f: FileFacts) -> bool {
    not_modified(opt_view(q.if_none_match), opt_view(q.if_modified_since), etag_of(f), f.modified)
}

/// The coding chosen for a whole-file answer: compression must be on, the
/// type compressible and the file at least the minimum size.
pub open spec fn coding_for(h: StaticFileHandler, path: Seq<char>, q: FileQuery, f: FileFacts) -> Option<
    Seq<char>,
> {
    let cfg = *h.compression_config;
    if cfg.enabled && compressible(mime_of_path(path)) && f.size >= cfg.min_size {
        negotiated(cfg.precompressed, opt_view(q.accept_encoding), f.br_size is Some, f.gz_size is Some)
    } else {
        None
    }
}

/// The whole file, uncoded.
pub open spec fn whole_plan(h: StaticFileHandler, path: Seq<char>, f: FileFacts, now: u64) -> PlanView {
    PlanView::Whole {
        head: HeadView {
            status: 200,
            headers: full_lines(
                mime_text(mime_of_path(path)),
                f.size as nat,
                etag_of(f),
                imf_fixdate(served_secs(f, now) as nat),
                directives_for(h.cache_policy.settings(), h.cache_policy.hash_pattern(), path),
            ),
        },
        length: f.size,
    }
}

/// A precompressed sibling of `length` bytes, sent with `coding`.
pub open spec fn sibling_plan(
    h: StaticFileHandler,
    path: Seq<char>,
    f: FileFacts,
    now: u64,
    sibling: Option<u64>,
    coding: Seq<char>,
    suffix: Seq<char>,
) -> PlanView {
    match sibling {
        Some(n) => PlanView::Sibling {
            head: HeadView {
                status: 200,
                headers: coded_lines(
                    mime_text(mime_of_path(path)),
                    n as nat,
                    coding,
                    etag_of(f),
                    imf_fixdate(served_secs(f, now) as nat),
                    directives_for(h.cache_policy.settings(), h.cache_policy.hash_pattern(), path),
                ),
            },
            path: path + suffix,
            length: n,
        },
        None => whole_plan(h, path, f, now),
    }
}

/// The answer to a range request.
pub open spec fn range_plan(
    h: StaticFileHandler,
    path: Seq<char>,
    f: FileFacts,
    now: u64,
    header: Seq<char>,
    random: Seq<u8>,
) -> PlanView {
    let ct = mime_text(mime_of_path(path));
    let etag = etag_of(f);
    let lm = imf_fixdate(served_secs(f, now) as nat);
    let cache = directives_for(h.cache_policy.settings(), h.cache_policy.hash_pattern(), path);
    match range_header_spec(header, f.size) {
        Err(RangeError::Invalid) => PlanView::Reply(bare(400)),
        Err(RangeError::Unsatisfiable) => PlanView::Reply(
            HeadView {
                status: 416,
                headers: seq![("content-range"@, "bytes */"@ + decimal(f.size as nat))],
            },
        ),
        Ok(rs) => if rs.len() == 1 {
            PlanView::Slice {
                head: HeadView {
                    status: 206,
                    headers: range_lines(ct, rs[0], f.size, etag, lm, cache),
                },
                start: rs[0].start,
                length: (rs[0].end - rs[0].start + 1) as u64,
            }
        } else {
            PlanView::Multipart {
                head: HeadView {
                    status: 206,
                    headers: multipart_lines(hex_bytes(random), etag, lm, cache),
                },
                ranges: rs,
                boundary: hex_bytes(random),
                mime: ct,
                size: f.size,
            }
        },
    }
}

/// How a request for the file at `path` is answered (`serve_file`).
pub open spec fn file_plan(
    h: StaticFileHandler,
    path: Seq<char>,
    q: FileQuery,
    facts: Option<FileFacts>,
    now: u64,
    random: Seq<u8>,
) -> PlanView {
    match facts {
        None => PlanView::Reply(bare(404)),
        Some(f) => if !f.is_file {
            PlanView::Reply(bare(404))
        } else {
            let etag = etag_of(f);
            let lm = imf_fixdate(served_secs(f, now) as nat);
            if fresh(q, f) {
                PlanView::Reply(
                    HeadView {
                        status: 304,
                        headers: seq![("etag"@, etag), ("last-modified"@, lm)],
                    },
                )
            } else if q.is_head {
                PlanView::Reply(
                    HeadView {
                        status: 200,
                        headers: full_lines(
                            mime_text(mime_of_path(path)),
                            f.size as nat,
                            etag,
                            lm,
                            directives_for(
                                h.cache_policy.settings(),
                                h.cache_policy.hash_pattern(),
                                path,
                            ),
                        ),
                    },
                )
            } else {
                match q.range {
                    Some(header) => range_plan(h, path, f, now, header@, random),
                    None => match coding_for(h, path, q, f) {
                        Some(c) => if c == "br-pre"@ {
                            sibling_plan(h, path, f, now, f.br_size, "br"@, ".br"@)
                        } else if c == "gzip-pre"@ {
                            sibling_plan(h, path, f, now, f.gz_size, "gzip"@, ".gz"@)
                        } else {
                            PlanView::Compress { coding: c }
                        },
                        None => whole_plan(h, path, f, now),
                    },
                }
            }
        },
    }
}

/// A `HEAD` request is answered with the head that a `GET` for the whole,
/// uncoded file carries, and no body.
pub proof fn lemma_head_matches_get(
    h: StaticFileHandler,
    path: Seq<char>,
    q: FileQuery,
    f: FileFacts,
    now: u64,
    random: Seq<u8>,
)
    requires
        f.is_file,
        !fresh(q, f),
        q.is_head,
        q.range is None,
        coding_for(h, path, q, f) is None,
    ensures
        ({
            let get = FileQuery { is_head: false, ..q };
            file_plan(h, path, get, Some(f), now, random) matches PlanView::Whole { head, .. }
                && file_plan(h, path, q, Some(f), now, random) == PlanView::Reply(head)
        }),
{
    let get = FileQuery { is_head: false, ..q };
    assert(fresh(get, f) == fresh(q, f));
    assert(coding_for(h, path, get, f) == coding_for(h, path, q, f));
}

/// A range response never reaches past the end of the file: a single
/// range is sent from `start` for `length` bytes with `start + length` at
/// most the file's size, and every part of a multipart body lies inside
/// the file.
pub proof fn lemma_ranges_inside_file(
    h: StaticFileHandler,
    path: Seq<char>,
    q: FileQuery,
    f: FileFacts,
    now: u64,
    random: Seq<u8>,
)
    ensures
        file_plan(h, path, q, Some(f), now, random) matches PlanView::Slice { start, length, .. }
            ==> length >= 1 && start + length <= f.size,
        file_plan(h, path, q, Some(f), now, random) matches PlanView::Multipart { ranges, .. }
            ==> forall|k: int| 0 <= k < ranges.len() ==> within(#[trigger] ranges[k], f.size),
{
    if let Some(header) = q.range {
        crate::range::lemma_header_ranges_within(header@, f.size);
    }
}

/// How serving the file moves the counters: a hit for an unchanged file,
/// else a miss, and then a range request or a compressed response.
pub open spec fn file_counters(
    c: Counters,
    h: StaticFileHandler,
    path: Seq<char>,
    q: FileQuery,
    facts: Option<FileFacts>,
) -> Counters {
    match facts {
        Some(f) => if !f.is_file {
            c
        } else if fresh(q, f) {
            Counters { cache_hits: bump(c.cache_hits), ..c }
        } else {
            let c1 = Counters { cache_misses: bump(c.cache_misses), ..c };
            if q.is_head {
                c1
            } else if q.range is Some {
                Counters { range_requests: bump(c1.range_requests), ..c1 }
            } else if coding_for(h, path, q, f) is Some {
                Counters { compressed_responses: bump(c1.compressed_responses), ..c1 }
            } else {
                c1
            }
        },
        None => c,
    }
}

fn opt_as_str(o: &Option<String>) -> (r: Option<&str>)
    ensures
        opt_str(r) == opt_view(*o),
{
    match o {
        Some(s) => Some(s.as_str()),
        None => None,
    }
}

fn with_suffix(path: &str, suffix: &str) -> (r: String)
    ensures
        r@ == path@ + suffix@,
{
    let mut r = owned(path);
    push_str(&mut r, suffix);
    r
}

impl StaticFileHandler {
    /// `serve_file`, once the file system has been asked about the file:
    /// how to answer, with its counters updated. `now` is the current time
    /// and `random` sixteen random bytes for a multipart boundary.
    pub fn plan_file(
        &mut self,
        path: &str,
        query: &FileQuery,
        facts: Option<FileFacts>,
        now: u64,
        random: &[u8],
    ) -> (r: FilePlan)
        requires
            random@.len() == 16,
            facts matches Some(f) ==> (f.is_file ==> printable(served_secs(f, now) as nat)),
        ensures
            r.view() == file_plan(*old(self), path@, *query, facts, now, random@),
            final(self).metrics.counters() == file_counters(
                old(self).metrics.counters(),
                *old(self),
                path@,
                *query,
                facts,
            ),
            final(self).metrics.started() == old(self).metrics.started(),
            *final(self) == (StaticFileHandler { metrics: final(self).metrics, ..*old(self) }),
    {
        let ghost h = *self;
        let f = match facts {
            Some(f) => f,
            None => {
                return FilePlan::Reply(bare_head(404));
            },
        };
        if !f.is_file {
            return FilePlan::Reply(bare_head(404));
        }
        let mime = guess_mime(path);
        let ct = mime.to_text();
        let etag = generate_etag(f.size, f.modified);
        let secs = match f.modified {
            Some(m) => m,
            None => now,
        };
        let lm = http_date(secs);
        if check_not_modified(
            opt_as_str(&query.if_none_match),
            opt_as_str(&query.if_modified_since),
            etag.as_str(),
            f.modified,
        ) {
            self.metrics.increment_cache_hits();
            return FilePlan::Reply(not_modified_head(etag.as_str(), lm.as_str()));
        }
        self.metrics.increment_cache_misses();
        let cache = self.cache_policy.get_cache_control(path);
        if query.is_head {
            return FilePlan::Reply(full_head(ct.as_str(), f.size, etag.as_str(), lm.as_str(), &cache));
        }
        if let Some(header) = &query.range {
            self.metrics.increment_range_requests();
            return match parse_range_header(header.as_str(), f.size) {
                Err(RangeError::Invalid) => FilePlan::Reply(bare_head(400)),
                Err(RangeError::Unsatisfiable) => FilePlan::Reply(unsatisfiable_head(f.size)),
                Ok(ranges) => {
                    if ranges.len() == 1 {
                        let r0 = ranges[0];
                        FilePlan::Slice {
                            head: range_head(
                                ct.as_str(),
                                &r0,
                                f.size,
                                etag.as_str(),
                                lm.as_str(),
                                &cache,
                            ),
                            start: r0.start,
                            length: r0.length(),
                        }
                    } else {
                        let boundary = generate_boundary(random);
                        let head = multipart_head(
                            boundary.as_str(),
                            etag.as_str(),
                            lm.as_str(),
                            &cache,
                        );
                        FilePlan::Multipart { head, ranges, boundary, mime: ct, size: f.size }
                    }
                },
            };
        }
        if self.compression_config.enabled && is_compressible(&mime) && f.size
            >= self.compression_config.min_size as u64 {
            if let Some(coding) = self.negotiate_encoding(
                opt_as_str(&query.accept_encoding),
                f.br_size.is_some(),
                f.gz_size.is_some(),
            ) {
                self.metrics.increment_compressed_responses();
                let c = chars_of(coding);
                if is_lit(c.as_slice(), "br-pre") {
                    return match f.br_size {
                        Some(n) => FilePlan::Sibling {
                            head: coded_head(
                                ct.as_str(),
                                n,
                                "br",
                                etag.as_str(),
                                lm.as_str(),
                                &cache,
                            ),
                            path: with_suffix(path, ".br"),
                            length: n,
                        },
                        None => FilePlan::Whole {
                            head: full_head(ct.as_str(), f.size, etag.as_str(), lm.as_str(), &cache),
                            length: f.size,
                        },
                    };
                }
                if is_lit(c.as_slice(), "gzip-pre") {
                    return match f.gz_size {
                        Some(n) => FilePlan::Sibling {
                            head: coded_head(
                                ct.as_str(),
                                n,
                                "gzip",
                                etag.as_str(),
                                lm.as_str(),
                                &cache,
                            ),
                            path: with_suffix(path, ".gz"),
                            length: n,
                        },
                        None => FilePlan::Whole {
                            head: full_head(ct.as_str(), f.size, etag.as_str(), lm.as_str(), &cache),
                            length: f.size,
                        },
                    };
                }
                return FilePlan::Compress { coding };
            }
        }
        FilePlan::Whole {
            head: full_head(ct.as_str(), f.size, etag.as_str(), lm.as_str(), &cache),
            length: f.size,
        }
    }
}

impl StaticFileHandler {
    /// `serve_realtime_compressed`, once the file has been read: the
    /// compressed body and its head, with the bytes counted as sent; `None`
    /// exactly when the coding is not produced or its encoder fails
    /// (answered with 500).
    pub fn compressed_reply(
        &mut self,
        path: &str,
        facts: &FileFacts,
        now: u64,
        coding: &str,
        content: &[u8],
    ) -> (r: Option<(ResponseHead, Vec<u8>)>)
        requires
            printable(served_secs(*facts, now) as nat),
        ensures
            *final(self) == (StaticFileHandler { metrics: final(self).metrics, ..*old(self) }),
            final(self).metrics.started() == old(self).metrics.started(),
            match r {
                Some((head, body)) => {
                    &&& coded_body(*old(self).compression_config, content@, coding@) == Some(
                        body@,
                    )
                    &&& head.view() == (HeadView {
                        status: 200,
                        headers: coded_lines(
                            mime_text(mime_of_path(path@)),
                            body@.len(),
                            coding@,
                            etag_of(*facts),
                            imf_fixdate(served_secs(*facts, now) as nat),
                            directives_for(
                                old(self).cache_policy.settings(),
                                old(self).cache_policy.hash_pattern(),
                                path@,
                            ),
                        ),
                    })
                    &&& final(self).metrics.counters() == (Counters {
                        bytes_sent: vstd::wrapping::u64_specs::wrapping_add(
                            old(self).metrics.counters().bytes_sent,
                            body@.len() as u64,
                        ),
                        ..old(self).metrics.counters()
                    })
                },
                None => {
                    &&& coded_body(*old(self).compression_config, content@, coding@) is None
                    &&& final(self).metrics.counters() == old(self).metrics.counters()
                },
            },
    {
        let body = match self.compress_bytes(content, coding) {
            Ok(b) => b,
            Err(_) => {
                return None;
            },
        };
        let mime = guess_mime(path);
        let ct = mime.to_text();
        let etag = generate_etag(facts.size, facts.modified);
        let secs = match facts.modified {
            Some(m) => m,
            None => now,
        };
        let lm = http_date(secs);
        let cache = self.cache_policy.get_cache_control(path);
        let length = body.len() as u64;
        let head = coded_head(ct.as_str(), length, coding, etag.as_str(), lm.as_str(), &cache);
        self.metrics.add_bytes_sent(length);
        Some((head, body))
    }
}

/// Whether a plan sends bytes of a file from disk: the whole file, its
/// precompressed sibling or one range of it.
pub open spec fn sends_file(p: PlanView) -> bool {
    p is Whole || p is Sibling || p is Slice
}

/// The head of a plan that sends a file.
pub open spec fn plan_head(p: PlanView) -> HeadView {
    match p {
        PlanView::Whole { head, .. } => head,
        PlanView::Sibling { head, .. } => head,
        PlanView::Slice { head, .. } => head,
        PlanView::Reply(head) => head,
        PlanView::Multipart { head, .. } => head,
        PlanView::Compress { .. } => bare(500),
    }
}

/// How many bytes of the file a plan sends.
pub open spec fn plan_length(p: PlanView) -> u64 {
    match p {
        PlanView::Whole { length, .. } => length,
        PlanView::Sibling { length, .. } => length,
        PlanView::Slice { length, .. } => length,
        _ => 0,
    }
}

/// The counters once a plan's file has been opened, or has failed to: the
/// bytes of the body are counted when it opened, and nothing otherwise.
pub open spec fn sent_counters(c: Counters, p: PlanView, opened: bool) -> Counters {
    if opened {
        Counters {
            bytes_sent: vstd::wrapping::u64_specs::wrapping_add(c.bytes_sent, plan_length(p)),
            ..c
        }
    } else {
        c
    }
}

impl StaticFileHandler {
    /// `serve_full_file`, `serve_precompressed` and `serve_single_range`,
    /// once the plan's file has been opened (and, for a range, positioned
    /// at its start) or has failed to: the head to answer with, which is the
    /// plan's head, or a bare 500 when the file did not open; the plan's
    /// bytes are counted as sent exactly when it opened.
    pub fn body_sent(&mut self, plan: FilePlan, opened: bool) -> (r: ResponseHead)
        requires
            sends_file(plan.view()),
        ensures
            *final(self) == (StaticFileHandler { metrics: final(self).metrics, ..*old(self) }),
            final(self).metrics.started() == old(self).metrics.started(),
            final(self).metrics.counters() == sent_counters(
                old(self).metrics.counters(),
                plan.view(),
                opened,
            ),
            r.view() == (if opened {
                plan_head(plan.view())
            } else {
                bare(500)
            }),
    {
        if !opened {
            return bare_head(500);
        }
        match plan {
            FilePlan::Whole { head, length } => {
                self.metrics.add_bytes_sent(length);
                head
            },
            FilePlan::Sibling { head, length, .. } => {
                self.metrics.add_bytes_sent(length);
                head
            },
            FilePlan::Slice { head, length, .. } => {
                self.metrics.add_bytes_sent(length);
                head
            },
            FilePlan::Reply(head) => head,
            FilePlan::Multipart { head, .. } => head,
            FilePlan::Compress { .. } => bare_head(500),
        }
    }
}

/// A plan that sends a file announces in `Content-Length` exactly the
/// bytes that are counted as sent: the file's size for the whole file, the
/// sibling's size for a precompressed sibling (`<path>.br` or
/// `<path>.gz`), and the range's length for one range.
pub proof fn lemma_counted_bytes_are_announced(
    h: StaticFileHandler,
    path: Seq<char>,
    q: FileQuery,
    f: FileFacts,
    now: u64,
    random: Seq<u8>,
)
    ensures
        ({
            let p = file_plan(h, path, q, Some(f), now, random);
            sends_file(p) ==> {
                &&& plan_head(p).headers.len() > 1
                &&& plan_head(p).headers[1] == ("content-length"@, decimal(plan_length(p) as nat))
                &&& p is Whole ==> plan_length(p) == f.size
                &&& p matches PlanView::Sibling { path: sp, length, .. } ==> {
                    ||| sp == path + ".br"@ && f.br_size == Some(length)
                    ||| sp == path + ".gz"@ && f.gz_size == Some(length)
                }
            }
        }),
{
    if let Some(header) = q.range {
        crate::range::lemma_header_ranges_within(header@, f.size);
    }
}

// ---------------------------------------------------------------------
// From request path to response
// ---------------------------------------------------------------------

/// What a request asks for, besides its file headers.
#[derive(Clone, Debug)]
pub struct RequestInfo {
    /// The request path, beginning with `/`.
    pub path: String,
    /// The `Referer` header, when present and visible ASCII.
    pub referer: Option<String>,
    /// The listing page asked for.
    pub page: Option<usize>,
    /// The listing order asked for.
    pub sort: Option<String>,
    /// The listing direction asked for.
    pub order: Option<String>,
}

/// Why a candidate path is checked on disk.
#[derive(Clone, Copy, Debug, PartialEq, Eq, Structural)]
pub enum DiskStage {
    /// It is the path the request names.
    Requested,
    /// It is the application's index file, served in place of a directory
    /// without one.
    AppIndex,
}

/// Why an index file is looked for.
#[derive(Clone, Copy, Debug, PartialEq, Eq, Structural)]
pub enum IndexStage {
    /// The requested path was not found: the root's index file is served
    /// in its place for a single-page application.
    Root,
    /// The requested path is a directory: its own index file is served.
    Directory,
}

/// What to do next with a request.
#[derive(Debug)]
pub enum Step {
    /// Answer with this head and an empty body.
    Reply(ResponseHead),
    /// Gather what the file system says about `candidate` and call
    /// `after_disk`.
    CheckDisk { candidate: String, stage: DiskStage },
    /// Find out whether `path` is a directory and call `after_kind`.
    CheckKind { path: String },
    /// Find out whether `path` exists as a regular file and call
    /// `after_index`; `dir` is the directory it was looked for in.
    CheckIndex { path: String, dir: String, stage: IndexStage },
    /// Read the directory at `dir_path` and answer with this page of its
    /// listing.
    ListDirectory {
        dir_path: String,
        page: usize,
        page_size: usize,
        sort_by: &'static str,
        sort_order: &'static str,
    },
    /// Serve the file at `path` (`plan_file`).
    ServeFile { path: String },
}

/// The view of a step.
pub enum StepView {
    Reply(HeadView),
    CheckDisk { candidate: Seq<char>, stage: DiskStage },
    CheckKind { path: Seq<char> },
    CheckIndex { path: Seq<char>, dir: Seq<char>, stage: IndexStage },
    ListDirectory {
        dir_path: Seq<char>,
        page: usize,
        page_size: usize,
        sort_by: Seq<char>,
        sort_order: Seq<char>,
    },
    ServeFile { path: Seq<char> },
}

impl Step {
    pub open spec fn view(&self) -> StepView {
        match self {
            Step::Reply(h) => StepView::Reply(h.view()),
            Step::CheckDisk { candidate, stage } => StepView::CheckDisk {
                candidate: candidate@,
                stage: *stage,
            },
            Step::CheckKind { path } => StepView::CheckKind { path: path@ },
            Step::CheckIndex { path, dir, stage } => StepView::CheckIndex {
                path: path@,
                dir: dir@,
                stage: *stage,
            },
            Step::ListDirectory { dir_path, page, page_size, sort_by, sort_order } =>
                StepView::ListDirectory {
                dir_path: dir_path@,
                page: *page,
                page_size: *page_size,
                sort_by: sort_by@,
                sort_order: sort_order@,
            },
            Step::ServeFile { path } => StepView::ServeFile { path: path@ },
        }
    }
}

/// The path a request is resolved as: the index file for the root.
pub open spec fn request_target(path: Seq<char>, index: Seq<char>) -> Seq<char> {
    if path.len() == 0 || path == "/"@ {
        seq!['/'] + index
    } else {
        path
    }
}

/// The lexical resolution of a path against the handler's validator.
pub open spec fn resolved(h: StaticFileHandler, path: Seq<char>) -> Result<Seq<char>, SecurityError> {
    resolve_spec(
        path,
        h.path_validator.root(),
        h.path_validator.settings().max_path_depth,
        h.path_validator.settings().serve_hidden_files,
    )
}

/// The answer to a refused path (`handle_path_error`): a missing file of
/// a single-page application without an extension falls back to the root
/// index; otherwise 404 for missing, hidden and symlinked files, 403 for
/// traversal and excessive depth, 400 for an invalid path.
pub open spec fn error_step(h: StaticFileHandler, e: SecurityError, request_path: Seq<char>) -> StepView {
    match e {
        SecurityError::NotFound => if h.spa_fallback && !last_segment(request_path).contains('.') {
            StepView::CheckIndex {
                path: path_join(h.path_validator.root(), h.index_file@),
                dir: h.path_validator.root(),
                stage: IndexStage::Root,
            }
        } else {
            StepView::Reply(bare(404))
        },
        SecurityError::PathTraversal | SecurityError::PathTooDeep => StepView::Reply(bare(403)),
        SecurityError::HiddenFile | SecurityError::SymlinkDenied => StepView::Reply(bare(404)),
        SecurityError::InvalidPath => StepView::Reply(bare(400)),
    }
}

/// The first step of a request (`serve_with_query`): hotlink protection,
/// then the lexical resolution of the path.
pub open spec fn start_step(h: StaticFileHandler, req: RequestInfo) -> StepView {
    let hp = h.hotlink_protector;
    if hotlink_decision(
        hp.settings().enabled,
        hp.settings().allow_direct,
        hp.patterns(),
        opt_view(req.referer),
    ) == HotlinkResult::Denied {
        match hp.settings().fallback_url {
            Some(u) => StepView::Reply(
                HeadView { status: 302, headers: seq![("location"@, u@)] },
            ),
            None => StepView::Reply(bare(403)),
        }
    } else {
        match resolved(h, request_target(req.path@, h.index_file@)) {
            Ok(c) => StepView::CheckDisk { candidate: c, stage: DiskStage::Requested },
            Err(e) => error_step(h, e, req.path@),
        }
    }
}

/// The step after the file system has been asked about a candidate.
pub open spec fn disk_step(
    h: StaticFileHandler,
    request_path: Seq<char>,
    stage: DiskStage,
    facts: DiskView,
) -> StepView {
    match disk_spec(facts, h.path_validator.root(), h.path_validator.settings().follow_symlinks) {
        Ok(p) => match stage {
            DiskStage::Requested => StepView::CheckKind { path: p },
            DiskStage::AppIndex => StepView::ServeFile { path: p },
        },
        Err(e) => match stage {
            DiskStage::Requested => error_step(h, e, request_path),
            DiskStage::AppIndex => StepView::Reply(bare(404)),
        },
    }
}

/// The listing order asked for, or by name.
pub open spec fn listing_sort(sort: Option<Seq<char>>) -> Seq<char> {
    match sort {
        Some(s) => if s == "name"@ || s == "size"@ || s == "time"@ {
            s
        } else {
            "name"@
        },
        None => "name"@,
    }
}

/// The listing direction asked for, or ascending.
pub open spec fn listing_order(order: Option<Seq<char>>) -> Seq<char> {
    match order {
        Some(o) => if o == "asc"@ || o == "desc"@ {
            o
        } else {
            "asc"@
        },
        None => "asc"@,
    }
}

/// The listing page asked for: the first page when none or page 0 is
/// asked for.
pub open spec fn listing_page(page: Option<usize>) -> usize {
    match page {
        Some(p) => if p >= 1 {
            p
        } else {
            1
        },
        None => 1,
    }
}

/// The step after an index file has been looked for (`handle_directory`,
/// and the fallback of `handle_path_error`).
pub open spec fn index_step(
    h: StaticFileHandler,
    req: RequestInfo,
    stage: IndexStage,
    path: Seq<char>,
    dir: Seq<char>,
    is_file: bool,
) -> StepView {
    if is_file {
        StepView::ServeFile { path }
    } else {
        match stage {
            IndexStage::Root => StepView::Reply(bare(404)),
            IndexStage::Directory => if h.directory_listing {
                StepView::ListDirectory {
                    dir_path: dir,
                    page: listing_page(req.page),
                    page_size: h.directory_lister.settings().directory_page_size,
                    sort_by: listing_sort(opt_view(req.sort)),
                    sort_order: listing_order(opt_view(req.order)),
                }
            } else if h.spa_fallback && !last_segment(req.path@).contains('.') {
                match resolved(h, seq!['/'] + h.index_file@) {
                    Ok(c) => StepView::CheckDisk { candidate: c, stage: DiskStage::AppIndex },
                    Err(_) => StepView::Reply(bare(404)),
                }
            } else {
                StepView::Reply(bare(404))
            },
        }
    }
}

/// A listing is ordered and directed as the request asks: `?order=asc` and
/// `?order=desc` are passed on as asked and anything else (or nothing)
/// lists ascending; `?sort=name`, `size` and `time` are passed on as asked
/// and anything else (or nothing) sorts by name. A directory without an
/// index file, with listings on, is answered with a listing of that
/// directory in that order.
pub proof fn lemma_listing_follows_request(
    h: StaticFileHandler,
    req: RequestInfo,
    path: Seq<char>,
    dir: Seq<char>,
    o: Seq<char>,
    k: Seq<char>,
)
    ensures
        (o == "asc"@ || o == "desc"@) ==> listing_order(Some(o)) == o,
        !(o == "asc"@ || o == "desc"@) ==> listing_order(Some(o)) == "asc"@,
        listing_order(None) == "asc"@,
        (k == "name"@ || k == "size"@ || k == "time"@) ==> listing_sort(Some(k)) == k,
        !(k == "name"@ || k == "size"@ || k == "time"@) ==> listing_sort(Some(k)) == "name"@,
        listing_sort(None) == "name"@,
        h.directory_listing ==> index_step(h, req, IndexStage::Directory, path, dir, false)
            == (StepView::ListDirectory {
            dir_path: dir,
            page: listing_page(req.page),
            page_size: h.directory_lister.settings().directory_page_size,
            sort_by: listing_sort(opt_view(req.sort)),
            sort_order: listing_order(opt_view(req.order)),
        }),
        (h.directory_listing && opt_view(req.order) == Some("desc"@)) ==> (index_step(
            h,
            req,
            IndexStage::Directory,
            path,
            dir,
            false,
        ) matches StepView::ListDirectory { sort_order, .. } && sort_order == "desc"@),
{
}

/// Whether the components of `root` begin those of `path`.
pub open spec fn inside(root: Seq<char>, path: Seq<char>) -> bool {
    components(root).is_prefix_of(components(path))
}

/// What the file-system check lets through lies inside the root: a path
/// that a disk check turns into a directory to look into or a file to
/// serve has the root's components as a prefix.
pub proof fn lemma_checked_paths_inside_root(
    h: StaticFileHandler,
    request_path: Seq<char>,
    stage: DiskStage,
    facts: DiskView,
)
    ensures
        disk_step(h, request_path, stage, facts) matches StepView::CheckKind { path } ==> inside(
            h.path_validator.root(),
            path,
        ),
        disk_step(h, request_path, stage, facts) matches StepView::ServeFile { path } ==> inside(
            h.path_validator.root(),
            path,
        ),
{
}

/// The lexical step never looks outside the root: every candidate it asks
/// the file system about is the root joined with plain names.
pub proof fn lemma_candidates_inside_root(h: StaticFileHandler, req: RequestInfo)
    ensures
        start_step(h, req) matches StepView::CheckDisk { candidate, .. } ==> exists|
            names: Seq<Seq<char>>,
        |
            safe_names(names, h.path_validator.settings().serve_hidden_files) && candidate
                == path_join(h.path_validator.root(), join(names, seq!['/'])),
{
    crate::security::lemma_resolved_inside_root(
        request_target(req.path@, h.index_file@),
        h.path_validator.root(),
        h.path_validator.settings().max_path_depth,
        h.path_validator.settings().serve_hidden_files,
    );
}

impl StaticFileHandler {
    /// `resolve_path`: the lexical resolution of a request path, the root
    /// standing for its index file.
    pub fn resolve_path(&self, request_path: &str) -> (r: Result<String, SecurityError>)
        ensures
            match r {
                Ok(p) => resolved(*self, request_target(request_path@, self.index_file@)) == Ok::<
                    Seq<char>,
                    SecurityError,
                >(p@),
                Err(e) => resolved(*self, request_target(request_path@, self.index_file@))
                    == Err::<Seq<char>, SecurityError>(e),
            },
    {
        proof {
            reveal_strlit("/");
        }
        let v = chars_of(request_path);
        let target = if v.len() == 0 || is_lit(v.as_slice(), "/") {
            let mut t = owned("/");
            push_str(&mut t, self.index_file.as_str());
            t
        } else {
            owned(request_path)
        };
        assert(target@ == request_target(request_path@, self.index_file@));
        self.path_validator.validate_and_resolve(target.as_str())
    }

    /// `handle_path_error`: the step for a refused path.
    pub fn handle_path_error(&self, error: SecurityError, request_path: &str) -> (r: Step)
        ensures
            r.view() == error_step(*self, error, request_path@),
    {
        match error {
            SecurityError::NotFound => {
                if self.spa_fallback && !has_extension(request_path) {
                    let root = self.path_validator.root_dir();
                    Step::CheckIndex {
                        path: join_path(root, self.index_file.as_str()),
                        dir: owned(root),
                        stage: IndexStage::Root,
                    }
                } else {
                    Step::Reply(bare_head(404))
                }
            },
            SecurityError::PathTraversal | SecurityError::PathTooDeep => Step::Reply(
                bare_head(403),
            ),
            SecurityError::HiddenFile | SecurityError::SymlinkDenied => Step::Reply(
                bare_head(404),
            ),
            SecurityError::InvalidPath => Step::Reply(bare_head(400)),
        }
    }

    /// The first step of `serve_with_query`: counts the request, applies
    /// hotlink protection and resolves the path.
    pub fn begin(&mut self, req: &RequestInfo) -> (r: Step)
        ensures
            r.view() == start_step(*old(self), *req),
            final(self).metrics.counters() == (Counters {
                total_requests: bump(old(self).metrics.counters().total_requests),
                ..old(self).metrics.counters()
            }),
            final(self).metrics.started() == old(self).metrics.started(),
            *final(self) == (StaticFileHandler { metrics: final(self).metrics, ..*old(self) }),
    {
        self.metrics.increment_requests();
        if self.hotlink_protector.is_enabled() {
            let referer = opt_as_str(&req.referer);
            match self.hotlink_protector.check(referer) {
                HotlinkResult::Denied => {
                    return match self.hotlink_protector.fallback_url() {
                        Some(url) => {
                            let mut hs: Vec<(String, String)> = Vec::new();
                            push_header(&mut hs, "location", owned(url));
                            assert(header_views(hs@) =~= seq![("location"@, url@)]);
                            Step::Reply(ResponseHead { status: 302, headers: hs })
                        },
                        None => Step::Reply(bare_head(403)),
                    };
                },
                HotlinkResult::Allowed => {},
            }
        }
        match self.resolve_path(req.path.as_str()) {
            Ok(c) => Step::CheckDisk { candidate: c, stage: DiskStage::Requested },
            Err(e) => self.handle_path_error(e, req.path.as_str()),
        }
    }

    /// The step after the file system has been asked about a candidate
    /// path.
    pub fn after_disk(&self, request_path: &str, stage: DiskStage, facts: &DiskFacts) -> (r: Step)
        ensures
            r.view() == disk_step(*self, request_path@, stage, facts.view()),
    {
        match self.path_validator.confirm_on_disk(facts) {
            Ok(p) => match stage {
                DiskStage::Requested => Step::CheckKind { path: p },
                DiskStage::AppIndex => Step::ServeFile { path: p },
            },
            Err(e) => match stage {
                DiskStage::Requested => self.handle_path_error(e, request_path),
                DiskStage::AppIndex => Step::Reply(bare_head(404)),
            },
        }
    }

    /// The step after finding out whether a resolved path is a directory:
    /// a directory's index file is looked for, anything else is served.
    pub fn after_kind(&self, path: &str, is_dir: bool) -> (r: Step)
        ensures
            r.view() == (if is_dir {
                StepView::CheckIndex {
                    path: path_join(path@, self.index_file@),
                    dir: path@,
                    stage: IndexStage::Directory,
                }
            } else {
                StepView::ServeFile { path: path@ }
            }),
    {
        if is_dir {
            Step::CheckIndex {
                path: join_path(path, self.index_file.as_str()),
                dir: owned(path),
                stage: IndexStage::Directory,
            }
        } else {
            Step::ServeFile { path: owned(path) }
        }
    }

    /// The step after an index file has been looked for.
    pub fn after_index(
        &self,
        req: &RequestInfo,
        stage: IndexStage,
        path: &str,
        dir: &str,
        is_file: bool,
    ) -> (r: Step)
        ensures
            r.view() == index_step(*self, *req, stage, path@, dir@, is_file),
    {
        if is_file {
            return Step::ServeFile { path: owned(path) };
        }
        match stage {
            IndexStage::Root => Step::Reply(bare_head(404)),
            IndexStage::Directory => {
                if self.directory_listing {
                    let (sort_by, sort_order) = listing_choice(
                        opt_as_str(&req.sort),
                        opt_as_str(&req.order),
                    );
                    let page = match req.page {
                        Some(p) => if p >= 1 {
                            p
                        } else {
                            1
                        },
                        None => 1,
                    };
                    Step::ListDirectory {
                        dir_path: owned(dir),
                        page,
                        page_size: self.directory_lister.page_size(),
                        sort_by,
                        sort_order,
                    }
                } else if self.spa_fallback && !has_extension(req.path.as_str()) {
                    proof {
                        reveal_strlit("/");
                    }
                    let mut target = owned("/");
                    push_str(&mut target, self.index_file.as_str());
                    assert(target@ == seq!['/'] + self.index_file@);
                    match self.path_validator.validate_and_resolve(target.as_str()) {
                        Ok(c) => Step::CheckDisk { candidate: c, stage: DiskStage::AppIndex },
                        Err(_) => Step::Reply(bare_head(404)),
                    }
                } else {
                    Step::Reply(bare_head(404))
                }
            },
        }
    }
}

/// The listing order and direction, from what the request asked for.
fn listing_choice(sort: Option<&str>, order: Option<&str>) -> (r: (&'static str, &'static str))
    ensures
        r.0@ == listing_sort(opt_str(sort)),
        r.1@ == listing_order(opt_str(order)),
{
    let by = match sort {
        Some(s) => {
            let v = chars_of(s);
            if is_lit(v.as_slice(), "size") {
                "size"
            } else if is_lit(v.as_slice(), "time") {
                "time"
            } else {
                "name"
            }
        },
        None => "name",
    };
    let dir = match order {
        Some(o) => {
            let v = chars_of(o);
            if is_lit(v.as_slice(), "desc") {
                "desc"
            } else {
                "asc"
            }
        },
        None => "asc",
    };
    (by, dir)
}

} // verus!
