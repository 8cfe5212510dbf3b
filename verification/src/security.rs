//! Request path validation: percent-decoding, lexical normalisation and the
//! rules that keep requests inside the served directory.
use vstd::prelude::*;
use std::sync::Arc;
use crate::cache::join;
use crate::config::ServerConfig;
use crate::paths::{components, path_components, path_is_hidden, has_hidden_component, Component, PathPart, parts_view};
use crate::text::{chars_of, push_char, push_chars, push_str, string_of};

verus! {

/// Why a request path was refused.
#[derive(Clone, Copy, Debug, PartialEq, Eq, Structural)]
pub enum SecurityError {
    PathTraversal,
    PathTooDeep,
    HiddenFile,
    SymlinkDenied,
    InvalidPath,
    NotFound,
}

impl SecurityError {
    /// The error's message.
    pub fn message(&self) -> (s: &'static str)
        ensures
            s@ == (match self {
                SecurityError::PathTraversal => "Path traversal detected"@,
                SecurityError::PathTooDeep => "Path too deep"@,
                SecurityError::HiddenFile => "Hidden file access denied"@,
                SecurityError::SymlinkDenied => "Symlink access denied"@,
                SecurityError::InvalidPath => "Invalid path"@,
                SecurityError::NotFound => "File not found"@,
            }),
    {
        match self {
            SecurityError::PathTraversal => "Path traversal detected",
            SecurityError::PathTooDeep => "Path too deep",
            SecurityError::HiddenFile => "Hidden file access denied",
            SecurityError::SymlinkDenied => "Symlink access denied",
            SecurityError::InvalidPath => "Invalid path",
            SecurityError::NotFound => "File not found",
        }
    }
}

/// The text of a request path after percent-decoding, with invalid UTF-8
/// replaced by U+FFFD.
pub uninterp spec fn percent_decoded(s: Seq<char>) -> Seq<char>;

/// `percent_encoding::percent_decode_str(s).decode_utf8_lossy()`: the
/// result is `percent_decoded`, and text without `%` decodes to itself
/// (its bytes pass through and are valid UTF-8).
#[verifier::external_body]
fn percent_decode_lossy(s: &str) -> (r: String)
    ensures
        r@ == percent_decoded(s@),
        (forall|i: int| 0 <= i < s@.len() ==> s@[i] != '%') ==> r@ == s@,
{
    percent_encoding::percent_decode_str(s).decode_utf8_lossy().to_string()
}

/// Walks the components of a request path, keeping the stack of names it
/// leads to: the root resets the stack, `.` does nothing, `..` pops a name
/// (and is refused at the top), and a name is pushed unless it is hidden
/// and hidden files are not served.
pub open spec fn walk(cs: Seq<Component>, stack: Seq<Seq<char>>, serve_hidden: bool) -> Result<
    Seq<Seq<char>>,
    SecurityError,
>
    decreases cs.len(),
{
    if cs.len() == 0 {
        Ok(stack)
    } else {
        match cs[0] {
            Component::RootDir => walk(cs.drop_first(), seq![], serve_hidden),
            Component::CurDir => walk(cs.drop_first(), stack, serve_hidden),
            Component::ParentDir => if stack.len() == 0 {
                Err(SecurityError::PathTraversal)
            } else {
                walk(cs.drop_first(), stack.drop_last(), serve_hidden)
            },
            Component::Normal(n) => if !serve_hidden && n.len() > 0 && n[0] == '.' {
                Err(SecurityError::HiddenFile)
            } else {
                walk(cs.drop_first(), stack.push(n), serve_hidden)
            },
        }
    }
}

/// `base.join(rel)` for a relative `rel` (`PathBuf::push`): a `/` goes
/// between them unless `base` is empty or already ends with one.
pub open spec fn path_join(base: Seq<char>, rel: Seq<char>) -> Seq<char> {
    if rel.len() > 0 && rel[0] == '/' {
        rel
    } else if base.len() > 0 && base.last() != '/' {
        base + seq!['/'] + rel
    } else {
        base + rel
    }
}

/// The outcome of validating a decoded request path against a root
/// directory: the path may have at most `max_depth` components, must not
/// climb above the root and, unless hidden files are served, must not name
/// a hidden file; the result is the root joined with the normalised path.
pub open spec fn resolve_decoded_spec(
    decoded: Seq<char>,
    root: Seq<char>,
    max_depth: usize,
    serve_hidden: bool,
) -> Result<Seq<char>, SecurityError> {
    let cs = components(decoded);
    if cs.len() > max_depth {
        Err(SecurityError::PathTooDeep)
    } else {
        match walk(cs, seq![], serve_hidden) {
            Err(e) => Err(e),
            Ok(names) => Ok(path_join(root, join(names, seq!['/']))),
        }
    }
}

/// The outcome of validating a request path: its percent-decoded text,
/// validated as `resolve_decoded_spec` says.
pub open spec fn resolve_spec(
    request: Seq<char>,
    root: Seq<char>,
    max_depth: usize,
    serve_hidden: bool,
) -> Result<Seq<char>, SecurityError> {
    resolve_decoded_spec(percent_decoded(request), root, max_depth, serve_hidden)
}

/// A name that stays where it is put: not empty, not `.` or `..`, and
/// without a `/`.
pub open spec fn plain_name(n: Seq<char>) -> bool {
    &&& n.len() > 0
    &&& n != seq!['.']
    &&& n != seq!['.', '.']
    &&& forall|i: int| 0 <= i < n.len() ==> n[i] != '/'
}

/// Names that are plain and, unless hidden files are served, not hidden.
pub open spec fn safe_names(names: Seq<Seq<char>>, serve_hidden: bool) -> bool {
    forall|i: int|
        0 <= i < names.len() ==> plain_name(#[trigger] names[i]) && (serve_hidden || names[i][0]
            != '.')
}

proof fn lemma_split_pieces(s: Seq<char>, c: char)
    ensures
        forall|k: int, i: int|
            0 <= k < crate::text::split_on(s, c).len() && 0 <= i < crate::text::split_on(
                s,
                c,
            )[k].len() ==> #[trigger] crate::text::split_on(s, c)[k][i] != c,
    decreases s.len(),
{
    crate::text::lemma_first_index(s, c);
    match crate::text::first_index(s, c) {
        Some(j) => {
            lemma_split_pieces(s.skip(j + 1), c);
            let rest = crate::text::split_on(s.skip(j + 1), c);
            let all = crate::text::split_on(s, c);
            assert(all == seq![s.take(j)] + rest);
            assert forall|k: int, i: int| 0 <= k < all.len() && 0 <= i < all[k].len() implies #[trigger] all[k][i] != c by {
                if k > 0 {
                    assert(all[k] == rest[k - 1]);
                }
            }
        },
        None => {},
    }
}

proof fn lemma_segments_plain(segs: Seq<Seq<char>>)
    requires
        forall|k: int, i: int| 0 <= k < segs.len() && 0 <= i < segs[k].len() ==> #[trigger] segs[k][i] != '/',
    ensures
        forall|j: int|
            0 <= j < crate::paths::segments_components(segs).len() ==> (#[trigger] crate::paths::segments_components(
                segs,
            )[j] matches Component::Normal(n) ==> plain_name(n)),
    decreases segs.len(),
{
    if segs.len() > 0 {
        lemma_segments_plain(segs.drop_last());
        let init = crate::paths::segments_components(segs.drop_last());
        let all = crate::paths::segments_components(segs);
        let k = segs.len() - 1;
        assert forall|i: int| 0 <= i < segs.last().len() implies segs.last()[i] != '/' by {
            assert(segs[k][i] != '/');
        }
        assert forall|j: int| 0 <= j < all.len() implies (#[trigger] all[j] matches Component::Normal(n) ==> plain_name(n)) by {
            if j < init.len() {
                assert(all[j] == init[j]);
            }
        }
    }
}

proof fn lemma_components_plain(s: Seq<char>)
    ensures
        forall|j: int|
            0 <= j < components(s).len() ==> (#[trigger] components(s)[j] matches Component::Normal(n)
                ==> plain_name(n)),
{
    let segs = crate::text::split_on(s, '/');
    lemma_split_pieces(s, '/');
    lemma_segments_plain(segs);
    if segs.len() > 0 {
        let t = segs.drop_first();
        assert forall|k: int, i: int| 0 <= k < t.len() && 0 <= i < t[k].len() implies #[trigger] t[k][i] != '/' by {
            assert(t[k] == segs[k + 1]);
        }
        lemma_segments_plain(t);
    }
    let cs = components(s);
    assert forall|j: int| 0 <= j < cs.len() implies (#[trigger] cs[j] matches Component::Normal(n) ==> plain_name(n)) by {
        if s.len() > 0 && s[0] == '/' {
            if j > 0 {
                assert(cs[j] == crate::paths::segments_components(segs.drop_first())[j - 1]);
            }
        } else if segs.len() > 0 && segs[0] == seq!['.'] {
            if j > 0 {
                assert(cs[j] == crate::paths::segments_components(segs.drop_first())[j - 1]);
            }
        }
    }
}

proof fn lemma_walk_safe(cs: Seq<Component>, stack: Seq<Seq<char>>, serve_hidden: bool)
    requires
        safe_names(stack, serve_hidden),
        forall|j: int| 0 <= j < cs.len() ==> (#[trigger] cs[j] matches Component::Normal(n) ==> plain_name(n)),
    ensures
        walk(cs, stack, serve_hidden) matches Ok(names) ==> safe_names(names, serve_hidden),
    decreases cs.len(),
{
    if cs.len() > 0 {
        let rest = cs.drop_first();
        assert forall|j: int| 0 <= j < rest.len() implies (#[trigger] rest[j] matches Component::Normal(n) ==> plain_name(n)) by {
            assert(rest[j] == cs[j + 1]);
        }
        match cs[0] {
            Component::RootDir => lemma_walk_safe(rest, seq![], serve_hidden),
            Component::CurDir => lemma_walk_safe(rest, stack, serve_hidden),
            Component::ParentDir => if stack.len() > 0 {
                assert(safe_names(stack.drop_last(), serve_hidden)) by {
                    assert forall|i: int| 0 <= i < stack.drop_last().len() implies plain_name(#[trigger] stack.drop_last()[i]) && (serve_hidden || stack.drop_last()[i][0] != '.') by {
                        assert(stack.drop_last()[i] == stack[i]);
                    }
                }
                lemma_walk_safe(rest, stack.drop_last(), serve_hidden);
            },
            Component::Normal(n) => {
                assert(plain_name(n)) by {
                    assert(cs[0] matches Component::Normal(m) ==> plain_name(m));
                }
                if serve_hidden || !(n.len() > 0 && n[0] == '.') {
                    let st = stack.push(n);
                    assert(safe_names(st, serve_hidden)) by {
                        assert forall|i: int| 0 <= i < st.len() implies plain_name(#[trigger] st[i]) && (serve_hidden || st[i][0] != '.') by {
                            if i < stack.len() {
                                assert(st[i] == stack[i]);
                            }
                        }
                    }
                    lemma_walk_safe(rest, st, serve_hidden);
                }
            },
        }
    }
}

/// Every path the validator resolves is the root directory joined with
/// plain names: no `..`, `.`, empty name or `/` inside a name survives,
/// and no name is hidden unless hidden files are served.
pub proof fn lemma_resolved_inside_root(
    request: Seq<char>,
    root: Seq<char>,
    max_depth: usize,
    serve_hidden: bool,
)
    ensures
        resolve_spec(request, root, max_depth, serve_hidden) matches Ok(p) ==> exists|
            names: Seq<Seq<char>>,
        |
            safe_names(names, serve_hidden) && p == path_join(root, join(names, seq!['/'])),
{
    let cs = components(percent_decoded(request));
    lemma_components_plain(percent_decoded(request));
    lemma_walk_safe(cs, seq![], serve_hidden);
    if let Ok(p) = resolve_spec(request, root, max_depth, serve_hidden) {
        let names = walk(cs, seq![], serve_hidden)->Ok_0;
        assert(safe_names(names, serve_hidden) && p == path_join(root, join(names, seq!['/'])));
    }
}

/// Checks request paths and resolves them inside the root directory.
#[derive(Clone, Debug)]
pub struct PathValidator {
    config: Arc<ServerConfig>,
    root_dir: String,
}

impl PathValidator {
    /// The settings the validator was made with.
    pub closed spec fn settings(self) -> ServerConfig {
        *self.config
    }

    /// The root directory requests are resolved in.
    pub closed spec fn root(self) -> Seq<char> {
        self.root_dir@
    }

    /// A validator for the given settings. `canonical_root` is the
    /// canonical form of the configured root directory when the file system
    /// could provide one; otherwise the configured root is used as given.
    pub fn new(config: Arc<ServerConfig>, canonical_root: Option<String>) -> (r: Self)
        ensures
            r.settings() == *config,
            r.root() == (match canonical_root {
                Some(c) => c@,
                None => config.root_dir@,
            }),
    {
        let root_dir = match canonical_root {
            Some(c) => c,
            None => config.root_dir.clone(),
        };
        PathValidator { config, root_dir }
    }

    /// The root directory.
    pub fn root_dir(&self) -> (r: &str)
        ensures
            r@ == self.root(),
    {
        self.root_dir.as_str()
    }

    /// The lexical part of resolving a request path: percent-decoding, the
    /// depth limit, `..` handling and the hidden-file rule. On success the
    /// result is the candidate path inside the root, which still has to be
    /// checked on disk (`confirm_on_disk`). A path without `%` is checked
    /// as it is written.
    pub fn validate_and_resolve(&self, request_path: &str) -> (r: Result<String, SecurityError>)
        ensures
            match r {
                Ok(p) => resolve_spec(
                    request_path@,
                    self.root(),
                    self.settings().max_path_depth,
                    self.settings().serve_hidden_files,
                ) == Ok::<Seq<char>, SecurityError>(p@),
                Err(e) => resolve_spec(
                    request_path@,
                    self.root(),
                    self.settings().max_path_depth,
                    self.settings().serve_hidden_files,
                ) == Err::<Seq<char>, SecurityError>(e),
            },
            (forall|i: int| 0 <= i < request_path@.len() ==> request_path@[i] != '%') ==> match r {
                Ok(p) => resolve_decoded_spec(
                    request_path@,
                    self.root(),
                    self.settings().max_path_depth,
                    self.settings().serve_hidden_files,
                ) == Ok::<Seq<char>, SecurityError>(p@),
                Err(e) => resolve_decoded_spec(
                    request_path@,
                    self.root(),
                    self.settings().max_path_depth,
                    self.settings().serve_hidden_files,
                ) == Err::<Seq<char>, SecurityError>(e),
            },
    {
        let decoded = percent_decode_lossy(request_path);
        self.resolve_decoded(decoded.as_str())
    }

    /// The lexical checks on an already percent-decoded request path: the
    /// depth limit, `..` handling and the hidden-file rule, giving the
    /// candidate path inside the root.
    pub fn resolve_decoded(&self, decoded: &str) -> (r: Result<String, SecurityError>)
        ensures
            match r {
                Ok(p) => resolve_decoded_spec(
                    decoded@,
                    self.root(),
                    self.settings().max_path_depth,
                    self.settings().serve_hidden_files,
                ) == Ok::<Seq<char>, SecurityError>(p@),
                Err(e) => resolve_decoded_spec(
                    decoded@,
                    self.root(),
                    self.settings().max_path_depth,
                    self.settings().serve_hidden_files,
                ) == Err::<Seq<char>, SecurityError>(e),
            },
    {
        let d = chars_of(decoded);
        let cs = path_components(d.as_slice());
        if cs.len() > self.config.max_path_depth {
            return Err(SecurityError::PathTooDeep);
        }
        let serve_hidden = self.config.serve_hidden_files;
        let ghost cv = parts_view(cs@);
        let mut stack: Vec<Vec<char>> = Vec::new();
        let mut i: usize = 0;
        assert(cv.skip(0) == cv);
        assert(crate::text::views(stack@) == Seq::<Seq<char>>::empty());
        while i < cs.len()
            invariant
                i <= cs@.len(),
                cv == parts_view(cs@),
                cv == components(decoded@),
                cv.len() <= self.config.max_path_depth,
                serve_hidden == self.config.serve_hidden_files,
                walk(cv, seq![], serve_hidden) == walk(
                    cv.skip(i as int),
                    crate::text::views(stack@),
                    serve_hidden,
                ),
            decreases cs.len() - i,
        {
            let ghost rest = cv.skip(i as int);
            assert(rest.drop_first() == cv.skip(i + 1));
            assert(rest[0] == cs@[i as int].view());
            let ghost sv = crate::text::views(stack@);
            match &cs[i] {
                PathPart::RootDir => {
                    stack = Vec::new();
                    assert(crate::text::views(stack@) == Seq::<Seq<char>>::empty());
                },
                PathPart::CurDir => {},
                PathPart::ParentDir => {
                    if stack.len() == 0 {
                        return Err(SecurityError::PathTraversal);
                    }
                    stack.pop();
                    assert(crate::text::views(stack@) == sv.drop_last());
                },
                PathPart::Normal(name) => {
                    if !serve_hidden && name.len() > 0 && name[0] == '.' {
                        return Err(SecurityError::HiddenFile);
                    }
                    let n = crate::text::sub_chars(name.as_slice(), 0, name.len());
                    assert(n@ == name@);
                    stack.push(n);
                    assert(crate::text::views(stack@) == sv.push(name@));
                },
            }
            i += 1;
        }
        assert(cv.skip(i as int) == Seq::<Component>::empty());
        let ghost names = crate::text::views(stack@);
        let mut rel = String::new();
        let mut k: usize = 0;
        while k < stack.len()
            invariant
                k <= stack@.len(),
                names == crate::text::views(stack@),
                rel@ == join(names.take(k as int), seq!['/']),
            decreases stack.len() - k,
        {
            assert(names.take(k + 1).drop_last() == names.take(k as int));
            assert(names.take(k + 1).last() == stack@[k as int]@);
            if k > 0 {
                push_char(&mut rel, '/');
            } else {
                assert(names.take(1) == seq![stack@[0]@]);
            }
            push_chars(&mut rel, stack[k].as_slice());
            k += 1;
        }
        assert(names.take(stack@.len() as int) == names);
        Ok(join_path(self.root_dir.as_str(), rel.as_str()))
    }

    /// The file-system part of resolving a request: given what the file
    /// system reports about the candidate path, refuses symbolic links
    /// (unless followed), resolves the canonical path (or, for a missing
    /// file, the canonical parent joined with the file name) and refuses a
    /// result outside the root directory.
    pub fn confirm_on_disk(&self, facts: &DiskFacts) -> (r: Result<String, SecurityError>)
        ensures
            match r {
                Ok(p) => disk_spec(
                    facts.view(),
                    self.root(),
                    self.settings().follow_symlinks,
                ) == Ok::<Seq<char>, SecurityError>(p@),
                Err(e) => disk_spec(facts.view(), self.root(), self.settings().follow_symlinks)
                    == Err::<Seq<char>, SecurityError>(e),
            },
            r matches Ok(p) ==> components(self.root()).is_prefix_of(components(p@)),
    {
        if !self.config.follow_symlinks && facts.is_symlink {
            return Err(SecurityError::SymlinkDenied);
        }
        let canonical = if facts.exists {
            match &facts.canonical {
                Some(c) => c.clone(),
                None => {
                    return Err(SecurityError::NotFound);
                },
            }
        } else if facts.parent_exists {
            match &facts.parent_canonical {
                Some(p) => join_path(p.as_str(), facts.file_name.as_str()),
                None => {
                    return Err(SecurityError::NotFound);
                },
            }
        } else {
            return Err(SecurityError::NotFound);
        };
        if !path_starts_with(canonical.as_str(), self.root_dir.as_str()) {
            return Err(SecurityError::PathTraversal);
        }
        Ok(canonical)
    }

    /// Whether some name in a path is hidden (begins with `.`).
    pub fn is_hidden_path(&self, path: &str) -> (b: bool)
        ensures
            b == has_hidden_component(path@),
    {
        let p = chars_of(path);
        path_is_hidden(p.as_slice())
    }
}

/// `Path::join`.
pub fn join_path(base: &str, rel: &str) -> (r: String)
    ensures
        r@ == path_join(base@, rel@),
{
    let b = chars_of(base);
    let rl = chars_of(rel);
    if rl.len() > 0 && rl[0] == '/' {
        return string_of(rl.as_slice());
    }
    let mut out = string_of(b.as_slice());
    if b.len() > 0 && b[b.len() - 1] != '/' {
        push_char(&mut out, '/');
    }
    push_chars(&mut out, rl.as_slice());
    out
}


/// What the file system reports about a candidate path: whether it is a
/// symbolic link, whether it exists and its canonical form, whether its
/// parent exists and the parent's canonical form, and its file name.
#[derive(Clone, Debug)]
pub struct DiskFacts {
    pub is_symlink: bool,
    pub exists: bool,
    pub canonical: Option<String>,
    pub parent_exists: bool,
    pub parent_canonical: Option<String>,
    pub file_name: String,
}

/// The view of `DiskFacts`.
pub struct DiskView {
    pub is_symlink: bool,
    pub exists: bool,
    pub canonical: Option<Seq<char>>,
    pub parent_exists: bool,
    pub parent_canonical: Option<Seq<char>>,
    pub file_name: Seq<char>,
}

impl DiskFacts {
    pub open spec fn view(&self) -> DiskView {
        DiskView {
            is_symlink: self.is_symlink,
            exists: self.exists,
            canonical: crate::text::opt_view(self.canonical),
            parent_exists: self.parent_exists,
            parent_canonical: crate::text::opt_view(self.parent_canonical),
            file_name: self.file_name@,
        }
    }
}

/// The outcome of the file-system checks on a candidate path.
pub open spec fn disk_spec(f: DiskView, root: Seq<char>, follow_symlinks: bool) -> Result<
    Seq<char>,
    SecurityError,
> {
    if !follow_symlinks && f.is_symlink {
        Err(SecurityError::SymlinkDenied)
    } else {
        let canonical: Option<Seq<char>> = if f.exists {
            f.canonical
        } else if f.parent_exists {
            match f.parent_canonical {
                Some(p) => Some(path_join(p, f.file_name)),
                None => None,
            }
        } else {
            None
        };
        match canonical {
            None => Err(SecurityError::NotFound),
            Some(c) => if components(root).is_prefix_of(components(c)) {
                Ok(c)
            } else {
                Err(SecurityError::PathTraversal)
            },
        }
    }
}

fn same_part(a: &PathPart, b: &PathPart) -> (r: bool)
    ensures
        r == (a.view() == b.view()),
{
    match (a, b) {
        (PathPart::RootDir, PathPart::RootDir) => true,
        (PathPart::CurDir, PathPart::CurDir) => true,
        (PathPart::ParentDir, PathPart::ParentDir) => true,
        (PathPart::Normal(x), PathPart::Normal(y)) => crate::text::chars_eq(
            x.as_slice(),
            y.as_slice(),
        ),
        _ => false,
    }
}

/// `Path::starts_with`: whether the components of `base` begin the
/// components of `path`.
pub fn path_starts_with(path: &str, base: &str) -> (r: bool)
    ensures
        r == components(base@).is_prefix_of(components(path@)),
{
    let p = chars_of(path);
    let b = chars_of(base);
    let pc = path_components(p.as_slice());
    let bc = path_components(b.as_slice());
    if bc.len() > pc.len() {
        return false;
    }
    let mut i: usize = 0;
    while i < bc.len()
        invariant
            i <= bc@.len(),
            bc@.len() <= pc@.len(),
            parts_view(bc@) == components(base@),
            parts_view(pc@) == components(path@),
            forall|j: int| 0 <= j < i ==> #[trigger] parts_view(bc@)[j] == parts_view(pc@)[j],
        decreases bc.len() - i,
    {
        if !same_part(&bc[i], &pc[i]) {
            proof {
                let a = parts_view(bc@);
                let b = parts_view(pc@);
                assert(a[i as int] == bc@[i as int].view());
                assert(b[i as int] == pc@[i as int].view());
                assert(a[i as int] != b[i as int]);
                if a.is_prefix_of(b) {
                    assert(b.subrange(0, a.len() as int)[i as int] == b[i as int]);
                    assert(false);
                }
            }
            return false;
        }
        i += 1;
    }
    assert(parts_view(bc@) =~= parts_view(pc@).subrange(0, parts_view(bc@).len() as int));
    true
}

/// The bytes that `encode_path` escapes besides non-ASCII ones: control
/// characters, space, `"`, `<`, `>` and backquote.
pub open spec fn fragment_byte(b: int) -> bool {
    b < 0x20 || b == 0x7F || b == 0x20 || b == 0x22 || b == 0x3C || b == 0x3E || b == 0x60
}

/// An uppercase hexadecimal digit.
pub open spec fn hex_upper(d: int) -> char {
    if d < 10 {
        (d + 48) as char
    } else {
        (d + 55) as char
    }
}

/// `%XX` for one byte, in uppercase hexadecimal.
pub open spec fn percent_byte(b: u8) -> Seq<char> {
    seq!['%', hex_upper((b / 16) as int), hex_upper((b % 16) as int)]
}

/// How `encode_path` writes one byte of the path's UTF-8 form.
pub open spec fn encoded_byte(b: u8) -> Seq<char> {
    if b < 0x80 && !fragment_byte(b as int) {
        seq![b as char]
    } else {
        percent_byte(b)
    }
}

/// Bytes written one after the other by `encoded_byte`.
pub open spec fn encoded_bytes(bs: Seq<u8>) -> Seq<char>
    decreases bs.len(),
{
    if bs.len() == 0 {
        seq![]
    } else {
        encoded_bytes(bs.drop_last()) + encoded_byte(bs.last())
    }
}

/// A path with the escaped bytes of its UTF-8 form percent-encoded
/// (`utf8_percent_encode` with the server's set).
pub open spec fn encoded_path(s: Seq<char>) -> Seq<char> {
    encoded_bytes(vstd::utf8::encode_utf8(s))
}

/// `percent_encoding::percent_encode_byte`: the text `%XX` for a byte,
/// with two uppercase hexadecimal digits.
#[verifier::external_body]
fn percent_encode_byte(b: u8) -> (r: &'static str)
    ensures
        r@ == percent_byte(b),
{
    percent_encoding::percent_encode_byte(b)
}

/// `encode_path`: percent-encodes a path for use in a link.
pub fn encode_path(path: &str) -> (r: String)
    ensures
        r@ == encoded_path(path@),
{
    let bytes = path.as_bytes();
    let mut s = String::new();
    let mut i: usize = 0;
    while i < bytes.len()
        invariant
            i <= bytes@.len(),
            bytes@ == vstd::utf8::encode_utf8(path@),
            s@ == encoded_bytes(bytes@.take(i as int)),
        decreases bytes.len() - i,
    {
        assert(bytes@.take(i + 1).drop_last() == bytes@.take(i as int));
        let b = bytes[i];
        if b < 0x80 && !(b < 0x20 || b == 0x7F || b == 0x20 || b == 0x22 || b == 0x3C || b == 0x3E
            || b == 0x60) {
            push_char(&mut s, b as char);
        } else {
            push_str(&mut s, percent_encode_byte(b));
        }
        i += 1;
    }
    assert(bytes@.take(bytes@.len() as int) == bytes@);
    s
}

} // verus!
