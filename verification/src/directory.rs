//! Directory listings: which entries are shown, in what order, one page at
//! a time, and the HTML page that shows them.
use vstd::prelude::*;
use std::sync::Arc;
use crate::config::ServerConfig;
use crate::security::PathValidator;
use crate::datetime::{format_datetime_rfc3339, printable, rfc3339};
use crate::mime_util::{guess_mime, mime_of_path, mime_text};
use crate::num::{decimal, push_decimal};
use crate::security::{join_path, path_join};
use crate::text::{
    chars_of, contains_chars, contains_seq, ends_with, is_lit, owned, push_char, push_str,
    to_lowercase, unicode_lowercase,
};

verus! {

/// One row of a directory listing.
#[derive(Clone, Debug)]
pub struct DirectoryEntry {
    pub name: String,
    pub path: String,
    pub is_dir: bool,
    pub size: u64,
    pub modified: i64,
    pub modified_rfc3339: String,
    pub mime_type: String,
}

/// The view of a listing row.
pub struct EntryView {
    pub name: Seq<char>,
    pub path: Seq<char>,
    pub is_dir: bool,
    pub size: u64,
    pub modified: i64,
    pub modified_rfc3339: Seq<char>,
    pub mime_type: Seq<char>,
}

impl DirectoryEntry {
    pub open spec fn view(&self) -> EntryView {
        EntryView {
            name: self.name@,
            path: self.path@,
            is_dir: self.is_dir,
            size: self.size,
            modified: self.modified,
            modified_rfc3339: self.modified_rfc3339@,
            mime_type: self.mime_type@,
        }
    }
}

pub open spec fn entry_views(v: Seq<DirectoryEntry>) -> Seq<EntryView> {
    v.map_values(|e: DirectoryEntry| e.view())
}

/// Strict lexicographic order of strings by code point (the order of
/// `String`, whose byte order in UTF-8 is the code point order).
pub open spec fn lex_lt(a: Seq<char>, b: Seq<char>) -> bool
    decreases a.len(),
{
    if b.len() == 0 {
        false
    } else if a.len() == 0 {
        true
    } else if a[0] != b[0] {
        (a[0] as u32) < (b[0] as u32)
    } else {
        lex_lt(a.drop_first(), b.drop_first())
    }
}

pub proof fn lemma_lex_irreflexive(a: Seq<char>)
    ensures
        !lex_lt(a, a),
    decreases a.len(),
{
    if a.len() > 0 {
        lemma_lex_irreflexive(a.drop_first());
    }
}

pub proof fn lemma_lex_transitive(a: Seq<char>, b: Seq<char>, c: Seq<char>)
    requires
        lex_lt(a, b),
        lex_lt(b, c),
    ensures
        lex_lt(a, c),
    decreases a.len(),
{
    if a.len() > 0 && b.len() > 0 && c.len() > 0 {
        if a[0] == b[0] && b[0] == c[0] {
            lemma_lex_transitive(a.drop_first(), b.drop_first(), c.drop_first());
        }
    }
}

/// Strict lexicographic comparison of two character sequences.
pub fn lex_less(a: &[char], b: &[char]) -> (r: bool)
    ensures
        r == lex_lt(a@, b@),
{
    let mut i: usize = 0;
    assert(a@.skip(0) == a@ && b@.skip(0) == b@);
    while i < a.len() && i < b.len()
        invariant
            i <= a@.len(),
            i <= b@.len(),
            lex_lt(a@, b@) == lex_lt(a@.skip(i as int), b@.skip(i as int)),
        decreases a.len() - i,
    {
        if a[i] != b[i] {
            assert(a@.skip(i as int)[0] == a@[i as int]);
            assert(b@.skip(i as int)[0] == b@[i as int]);
            return (a[i] as u32) < (b[i] as u32);
        }
        assert(a@.skip(i as int).drop_first() == a@.skip(i + 1));
        assert(b@.skip(i as int).drop_first() == b@.skip(i + 1));
        i += 1;
    }
    i < b.len()
}

/// The orders a listing can be sorted in.
#[derive(Clone, Copy, Debug, PartialEq, Eq, Structural)]
pub enum SortKey {
    Name,
    Size,
    Time,
    DirsFirst,
}

/// The order named by a `sort` parameter; anything unknown sorts
/// directories first, then by name.
pub open spec fn sort_key_of(sort_by: Seq<char>) -> SortKey {
    if sort_by == "name"@ {
        SortKey::Name
    } else if sort_by == "size"@ {
        SortKey::Size
    } else if sort_by == "time"@ {
        SortKey::Time
    } else {
        SortKey::DirsFirst
    }
}

/// Whether `a` strictly precedes `b` by lowercase name.
pub open spec fn name_before(a: EntryView, b: EntryView, desc: bool) -> bool {
    if desc {
        lex_lt(unicode_lowercase(b.name), unicode_lowercase(a.name))
    } else {
        lex_lt(unicode_lowercase(a.name), unicode_lowercase(b.name))
    }
}

/// Whether `a` strictly precedes `b` in the listing order; `desc` reverses
/// the order of the key (but not the directories-first grouping).
pub open spec fn entry_before(a: EntryView, b: EntryView, key: SortKey, desc: bool) -> bool {
    match key {
        SortKey::Name => name_before(a, b, desc),
        SortKey::Size => if desc {
            b.size < a.size
        } else {
            a.size < b.size
        },
        SortKey::Time => if desc {
            b.modified < a.modified
        } else {
            a.modified < b.modified
        },
        SortKey::DirsFirst => (a.is_dir && !b.is_dir) || (a.is_dir == b.is_dir && name_before(
            a,
            b,
            desc,
        )),
    }
}

pub proof fn lemma_before_irreflexive(a: EntryView, key: SortKey, desc: bool)
    ensures
        !entry_before(a, a, key, desc),
{
    lemma_lex_irreflexive(unicode_lowercase(a.name));
}

pub proof fn lemma_before_transitive(
    a: EntryView,
    b: EntryView,
    c: EntryView,
    key: SortKey,
    desc: bool,
)
    requires
        entry_before(a, b, key, desc),
        entry_before(b, c, key, desc),
    ensures
        entry_before(a, c, key, desc),
{
    let (la, lb, lc) = (
        unicode_lowercase(a.name),
        unicode_lowercase(b.name),
        unicode_lowercase(c.name),
    );
    match key {
        SortKey::Name => {
            if desc {
                lemma_lex_transitive(lc, lb, la);
            } else {
                lemma_lex_transitive(la, lb, lc);
            }
        },
        SortKey::DirsFirst => {
            if a.is_dir == b.is_dir && b.is_dir == c.is_dir {
                if desc {
                    lemma_lex_transitive(lc, lb, la);
                } else {
                    lemma_lex_transitive(la, lb, lc);
                }
            }
        },
        _ => {},
    }
}

/// Where a stable insertion puts `x` into the sorted `out`: before the
/// first element that `x` strictly precedes.
pub open spec fn insert_pos(out: Seq<EntryView>, x: EntryView, key: SortKey, desc: bool) -> int
    decreases out.len(),
{
    if out.len() == 0 {
        0
    } else if entry_before(x, out[0], key, desc) {
        0
    } else {
        1 + insert_pos(out.drop_first(), x, key, desc)
    }
}

/// The entries in listing order: each entry, in input order, is placed
/// after every earlier entry it does not strictly precede, so that equal
/// entries keep their input order (a stable sort, as `sort_by` is).
pub open spec fn stable_sorted(s: Seq<EntryView>, key: SortKey, desc: bool) -> Seq<EntryView>
    decreases s.len(),
{
    if s.len() == 0 {
        seq![]
    } else {
        let out = stable_sorted(s.drop_last(), key, desc);
        out.insert(insert_pos(out, s.last(), key, desc), s.last())
    }
}

/// No element strictly precedes an earlier one.
pub open spec fn is_sorted(s: Seq<EntryView>, key: SortKey, desc: bool) -> bool {
    forall|i: int, j: int|
        0 <= i < j < s.len() ==> !entry_before(#[trigger] s[j], #[trigger] s[i], key, desc)
}

proof fn lemma_insert_pos(out: Seq<EntryView>, x: EntryView, key: SortKey, desc: bool)
    ensures
        0 <= insert_pos(out, x, key, desc) <= out.len(),
        forall|k: int|
            0 <= k < insert_pos(out, x, key, desc) ==> !entry_before(x, #[trigger] out[k], key, desc),
        insert_pos(out, x, key, desc) < out.len() ==> entry_before(
            x,
            out[insert_pos(out, x, key, desc)],
            key,
            desc,
        ),
    decreases out.len(),
{
    if out.len() > 0 && !entry_before(x, out[0], key, desc) {
        lemma_insert_pos(out.drop_first(), x, key, desc);
        assert forall|k: int| 0 <= k < insert_pos(out, x, key, desc) implies !entry_before(x, #[trigger] out[k], key, desc) by {
            if k > 0 {
                assert(out[k] == out.drop_first()[k - 1]);
            }
        }
    }
}

/// Stable insertion keeps a sequence sorted.
proof fn lemma_insert_sorted(out: Seq<EntryView>, x: EntryView, key: SortKey, desc: bool)
    requires
        is_sorted(out, key, desc),
    ensures
        is_sorted(out.insert(insert_pos(out, x, key, desc), x), key, desc),
{
    lemma_insert_pos(out, x, key, desc);
    let p = insert_pos(out, x, key, desc);
    let t = out.insert(p, x);
    assert forall|i: int, j: int| 0 <= i < j < t.len() implies !entry_before(#[trigger] t[j], #[trigger] t[i], key, desc) by {
        if j < p {
            assert(t[i] == out[i] && t[j] == out[j]);
        } else if j == p {
            assert(t[i] == out[i] && t[j] == x);
        } else if i > p {
            assert(t[i] == out[i - 1] && t[j] == out[j - 1]);
        } else if i == p {
            assert(t[i] == x && t[j] == out[j - 1]);
            if entry_before(out[j - 1], x, key, desc) {
                if j - 1 == p {
                    lemma_before_transitive(x, out[p], x, key, desc);
                    lemma_before_irreflexive(x, key, desc);
                } else {
                    lemma_before_transitive(out[j - 1], x, out[p], key, desc);
                }
            }
        } else {
            assert(t[i] == out[i] && t[j] == out[j - 1]);
        }
    }
}

/// The listing order is sorted.
pub proof fn lemma_stable_sorted_is_sorted(s: Seq<EntryView>, key: SortKey, desc: bool)
    ensures
        is_sorted(stable_sorted(s, key, desc), key, desc),
    decreases s.len(),
{
    if s.len() > 0 {
        lemma_stable_sorted_is_sorted(s.drop_last(), key, desc);
        lemma_insert_sorted(stable_sorted(s.drop_last(), key, desc), s.last(), key, desc);
    }
}

proof fn lemma_stable_sorted_len(s: Seq<EntryView>, key: SortKey, desc: bool)
    ensures
        stable_sorted(s, key, desc).len() == s.len(),
    decreases s.len(),
{
    if s.len() > 0 {
        lemma_stable_sorted_len(s.drop_last(), key, desc);
        lemma_insert_pos(stable_sorted(s.drop_last(), key, desc), s.last(), key, desc);
    }
}

/// The listing order holds the same entries as the input.
pub proof fn lemma_stable_sorted_permutes(s: Seq<EntryView>, key: SortKey, desc: bool)
    ensures
        stable_sorted(s, key, desc).to_multiset() =~= s.to_multiset(),
    decreases s.len(),
{
    broadcast use vstd::seq_lib::group_to_multiset_ensures, vstd::multiset::group_multiset_axioms;

    if s.len() > 0 {
        lemma_stable_sorted_permutes(s.drop_last(), key, desc);
        let out = stable_sorted(s.drop_last(), key, desc);
        lemma_insert_pos(out, s.last(), key, desc);
        let p = insert_pos(out, s.last(), key, desc);
        let t = out.insert(p, s.last());
        assert(t.remove(p) =~= out);
        assert(t[p] == s.last());
        assert(t.to_multiset().remove(s.last()) =~= out.to_multiset());
        assert(s.drop_last().push(s.last()) =~= s);
        assert(t.contains(s.last()));
        assert(t.to_multiset().count(s.last()) > 0);
    }
}

/// Whether one entry strictly precedes another; `ka` and `kb` are their
/// lowercase names.
fn entry_less(
    a: &DirectoryEntry,
    ka: &[char],
    b: &DirectoryEntry,
    kb: &[char],
    key: SortKey,
    desc: bool,
) -> (r: bool)
    requires
        ka@ == unicode_lowercase(a.name@),
        kb@ == unicode_lowercase(b.name@),
    ensures
        r == entry_before(a.view(), b.view(), key, desc),
{
    match key {
        SortKey::Name => if desc {
            lex_less(kb, ka)
        } else {
            lex_less(ka, kb)
        },
        SortKey::Size => if desc {
            b.size < a.size
        } else {
            a.size < b.size
        },
        SortKey::Time => if desc {
            b.modified < a.modified
        } else {
            a.modified < b.modified
        },
        SortKey::DirsFirst => {
            if a.is_dir && !b.is_dir {
                true
            } else if a.is_dir != b.is_dir {
                false
            } else if desc {
                lex_less(kb, ka)
            } else {
                lex_less(ka, kb)
            }
        },
    }
}

/// The listing order, whatever the input: by size or by time the listing
/// runs from smallest or oldest to largest or newest, and the other way
/// round when descending; by name the lowercase names never step back
/// (forward when ascending, backward when descending); and sorted with
/// directories first, no file comes before a directory. The sort keeps
/// every entry of the input.
pub proof fn lemma_listing_order(s: Seq<EntryView>, desc: bool)
    ensures
        ({
            let t = stable_sorted(s, SortKey::Time, desc);
            forall|i: int, j: int|
                0 <= i < j < t.len() ==> if desc {
                    t[j].modified <= t[i].modified
                } else {
                    t[i].modified <= t[j].modified
                }
        }),
        ({
            let t = stable_sorted(s, SortKey::Size, desc);
            forall|i: int, j: int|
                0 <= i < j < t.len() ==> if desc {
                    t[j].size <= t[i].size
                } else {
                    t[i].size <= t[j].size
                }
        }),
        ({
            let t = stable_sorted(s, SortKey::Name, desc);
            forall|i: int, j: int|
                0 <= i < j < t.len() ==> if desc {
                    !lex_lt(unicode_lowercase(t[i].name), unicode_lowercase(t[j].name))
                } else {
                    !lex_lt(unicode_lowercase(t[j].name), unicode_lowercase(t[i].name))
                }
        }),
        ({
            let t = stable_sorted(s, SortKey::DirsFirst, desc);
            forall|i: int, j: int| 0 <= i < j < t.len() && t[j].is_dir ==> t[i].is_dir
        }),
        forall|key: SortKey| #[trigger] stable_sorted(s, key, desc).to_multiset() =~= s.to_multiset(),
{
    lemma_stable_sorted_is_sorted(s, SortKey::Time, desc);
    lemma_stable_sorted_is_sorted(s, SortKey::Size, desc);
    lemma_stable_sorted_is_sorted(s, SortKey::Name, desc);
    lemma_stable_sorted_is_sorted(s, SortKey::DirsFirst, desc);
    let t = stable_sorted(s, SortKey::Time, desc);
    assert forall|i: int, j: int| 0 <= i < j < t.len() implies (if desc {
        t[j].modified <= t[i].modified
    } else {
        t[i].modified <= t[j].modified
    }) by {
        assert(!entry_before(t[j], t[i], SortKey::Time, desc));
    }
    let t = stable_sorted(s, SortKey::Size, desc);
    assert forall|i: int, j: int| 0 <= i < j < t.len() implies (if desc {
        t[j].size <= t[i].size
    } else {
        t[i].size <= t[j].size
    }) by {
        assert(!entry_before(t[j], t[i], SortKey::Size, desc));
    }
    let t = stable_sorted(s, SortKey::Name, desc);
    assert forall|i: int, j: int| 0 <= i < j < t.len() implies (if desc {
        !lex_lt(unicode_lowercase(t[i].name), unicode_lowercase(t[j].name))
    } else {
        !lex_lt(unicode_lowercase(t[j].name), unicode_lowercase(t[i].name))
    }) by {
        assert(!entry_before(t[j], t[i], SortKey::Name, desc));
    }
    let t = stable_sorted(s, SortKey::DirsFirst, desc);
    assert forall|i: int, j: int| 0 <= i < j < t.len() && t[j].is_dir implies t[i].is_dir by {
        assert(!entry_before(t[j], t[i], SortKey::DirsFirst, desc));
    }
    assert forall|key: SortKey| #[trigger] stable_sorted(s, key, desc).to_multiset() =~= s.to_multiset() by {
        lemma_stable_sorted_permutes(s, key, desc);
    }
}

/// The `sort` and `order` parameters name the listing order: `name`,
/// `size` and `time` sort by that key, anything else directories first,
/// and only `desc` reverses the key.
pub proof fn lemma_sort_parameters(sort_by: Seq<char>)
    ensures
        sort_key_of("name"@) == SortKey::Name,
        sort_key_of("size"@) == SortKey::Size,
        sort_key_of("time"@) == SortKey::Time,
        sort_by != "name"@ && sort_by != "size"@ && sort_by != "time"@ ==> sort_key_of(sort_by)
            == SortKey::DirsFirst,
{
    reveal_strlit("name");
    reveal_strlit("size");
    reveal_strlit("time");
    assert("size"@[0] != "name"@[0]);
    assert("time"@[0] != "name"@[0]);
    assert("time"@[0] != "size"@[0]);
}

fn sort_key(sort_by: &str) -> (k: SortKey)
    ensures
        k == sort_key_of(sort_by@),
{
    let s = chars_of(sort_by);
    if is_lit(s.as_slice(), "name") {
        SortKey::Name
    } else if is_lit(s.as_slice(), "size") {
        SortKey::Size
    } else if is_lit(s.as_slice(), "time") {
        SortKey::Time
    } else {
        SortKey::DirsFirst
    }
}

/// `sort_entries`: puts a listing in the order asked for (`desc` order
/// when `sort_order` is `desc`), keeping the input order of equal entries.
pub fn sort_entries(entries: &mut Vec<DirectoryEntry>, sort_by: &str, sort_order: &str)
    ensures
        entry_views(final(entries)@) == stable_sorted(
            entry_views(old(entries)@),
            sort_key_of(sort_by@),
            sort_order@ == "desc"@,
        ),
{
    let key = sort_key(sort_by);
    let o = chars_of(sort_order);
    let desc = is_lit(o.as_slice(), "desc");
    let ghost input = entry_views(old(entries)@);
    let mut out: Vec<DirectoryEntry> = Vec::new();
    let mut keys: Vec<Vec<char>> = Vec::new();
    let mut rest: Vec<DirectoryEntry> = Vec::new();
    std::mem::swap(&mut rest, entries);
    let ghost n = rest@.len();
    let ghost mut i: int = 0;
    assert(input.skip(0) == input);
    assert(input.take(0) == Seq::<EntryView>::empty());
    while rest.len() > 0
        invariant
            n == input.len(),
            0 <= i <= n,
            entry_views(rest@) == input.skip(i),
            keys@.len() == out@.len(),
            forall|k: int|
                0 <= k < out@.len() ==> (#[trigger] keys@[k])@ == unicode_lowercase(out@[k].name@),
            entry_views(out@) == stable_sorted(input.take(i), key, desc),
        decreases rest.len(),
    {
        assert(entry_views(rest@)[0] == rest@[0].view());
        assert(entry_views(rest@).len() == rest@.len());
        assert(i < n);
        let ghost old_rest = rest@;
        let x = rest.remove(0);
        assert(rest@ =~= old_rest.subrange(1, old_rest.len() as int));
        assert(entry_views(rest@) =~= input.skip(i + 1)) by {
            assert forall|k: int| 0 <= k < rest@.len() implies #[trigger] entry_views(rest@)[k] == input.skip(i + 1)[k] by {
                assert(entry_views(old_rest)[k + 1] == input.skip(i)[k + 1]);
            }
        }
        let kx = chars_of(to_lowercase(x.name.as_str()).as_str());
        let mut j: usize = 0;
        let ghost ov = entry_views(out@);
        assert(ov.skip(0) == ov);
        while j < out.len() && !entry_less(&x, kx.as_slice(), &out[j], keys[j].as_slice(), key, desc)
            invariant
                j <= out@.len(),
                ov == entry_views(out@),
                keys@.len() == out@.len(),
                forall|k: int|
                    0 <= k < out@.len() ==> (#[trigger] keys@[k])@ == unicode_lowercase(out@[k].name@),
                kx@ == unicode_lowercase(x.name@),
                insert_pos(ov, x.view(), key, desc) == j + insert_pos(ov.skip(j as int), x.view(), key, desc),
            decreases out.len() - j,
        {
            assert(ov.skip(j as int)[0] == out@[j as int].view());
            assert(ov.skip(j as int).drop_first() == ov.skip(j + 1));
            j += 1;
        }
        proof {
            if j < out.len() {
                assert(ov.skip(j as int)[0] == out@[j as int].view());
            }
            assert(insert_pos(ov, x.view(), key, desc) == j);
            assert(input.take(i + 1).drop_last() == input.take(i));
            assert(input.take(i + 1).last() == x.view());
        }
        let ghost old_keys = keys@;
        let ghost old_out = out@;
        out.insert(j, x);
        keys.insert(j, kx);
        proof {
            assert(entry_views(out@) == ov.insert(j as int, x.view()));
            assert forall|k: int| 0 <= k < out@.len() implies (#[trigger] keys@[k])@ == unicode_lowercase(out@[k].name@) by {
                if k < j {
                    assert(keys@[k] == old_keys[k] && out@[k] == old_out[k]);
                } else if k > j {
                    assert(keys@[k] == old_keys[k - 1] && out@[k] == old_out[k - 1]);
                }
            }
            i = i + 1;
        }
    }
    assert(input.take(n as int) == input);
    *entries = out;
}


// ---------------------------------------------------------------------
// Building a listing
// ---------------------------------------------------------------------

/// What the file system reports about one directory entry, when its
/// metadata could be read: whether it is a directory or a symbolic link,
/// its length and its modification time in seconds since the epoch.
#[derive(Clone, Copy, Debug)]
pub struct EntryMeta {
    pub is_dir: bool,
    pub is_symlink: bool,
    pub len: u64,
    pub modified_secs: u64,
}

/// One entry as read from the directory.
#[derive(Clone, Debug)]
pub struct RawEntry {
    pub name: String,
    pub meta: Option<EntryMeta>,
}

/// Whether an entry is shown: not hidden (unless hidden files are served),
/// matching the search term (case-insensitively), with readable metadata,
/// and not a symbolic link (unless links are followed).
pub open spec fn shown(
    e: RawEntry,
    serve_hidden: bool,
    follow_symlinks: bool,
    search: Option<Seq<char>>,
) -> bool {
    &&& (serve_hidden || !(e.name@.len() > 0 && e.name@[0] == '.'))
    &&& match search {
        Some(t) => contains_seq(unicode_lowercase(e.name@), unicode_lowercase(t)),
        None => true,
    }
    &&& e.meta is Some
    &&& (follow_symlinks || !e.meta->0.is_symlink)
}

/// The link of an entry inside the listed directory.
pub open spec fn entry_link(request_path: Seq<char>, name: Seq<char>) -> Seq<char> {
    if seq!['/'].is_suffix_of(request_path) {
        request_path + name
    } else {
        request_path + seq!['/'] + name
    }
}

/// The row shown for an entry.
pub open spec fn entry_row(e: RawEntry, request_path: Seq<char>, dir_path: Seq<char>) -> EntryView {
    let m = e.meta->0;
    EntryView {
        name: e.name@,
        path: entry_link(request_path, e.name@),
        is_dir: m.is_dir,
        size: if m.is_dir {
            0
        } else {
            m.len
        },
        modified: m.modified_secs as i64,
        modified_rfc3339: rfc3339(m.modified_secs as nat),
        mime_type: if m.is_dir {
            "directory"@
        } else {
            mime_text(mime_of_path(path_join(dir_path, e.name@)))
        },
    }
}

/// The rows shown for the entries of a directory, in the order read.
pub open spec fn shown_rows(
    raw: Seq<RawEntry>,
    request_path: Seq<char>,
    dir_path: Seq<char>,
    serve_hidden: bool,
    follow_symlinks: bool,
    search: Option<Seq<char>>,
) -> Seq<EntryView>
    decreases raw.len(),
{
    if raw.len() == 0 {
        seq![]
    } else {
        let init = shown_rows(
            raw.drop_last(),
            request_path,
            dir_path,
            serve_hidden,
            follow_symlinks,
            search,
        );
        if shown(raw.last(), serve_hidden, follow_symlinks, search) {
            init.push(entry_row(raw.last(), request_path, dir_path))
        } else {
            init
        }
    }
}

/// Whether a row may be shown under the settings: not hidden unless hidden
/// files are served.
pub open spec fn visible_row(e: EntryView, serve_hidden: bool) -> bool {
    serve_hidden || !(e.name.len() > 0 && e.name[0] == '.')
}

proof fn lemma_rows_visible(
    raw: Seq<RawEntry>,
    request_path: Seq<char>,
    dir_path: Seq<char>,
    serve_hidden: bool,
    follow_symlinks: bool,
    search: Option<Seq<char>>,
)
    ensures
        forall|i: int|
            0 <= i < shown_rows(
                raw,
                request_path,
                dir_path,
                serve_hidden,
                follow_symlinks,
                search,
            ).len() ==> visible_row(
                #[trigger] shown_rows(
                    raw,
                    request_path,
                    dir_path,
                    serve_hidden,
                    follow_symlinks,
                    search,
                )[i],
                serve_hidden,
            ),
    decreases raw.len(),
{
    if raw.len() > 0 {
        lemma_rows_visible(
            raw.drop_last(),
            request_path,
            dir_path,
            serve_hidden,
            follow_symlinks,
            search,
        );
        let init = shown_rows(
            raw.drop_last(),
            request_path,
            dir_path,
            serve_hidden,
            follow_symlinks,
            search,
        );
        let all = shown_rows(raw, request_path, dir_path, serve_hidden, follow_symlinks, search);
        assert forall|i: int| 0 <= i < all.len() implies visible_row(#[trigger] all[i], serve_hidden) by {
            if i < init.len() {
                assert(all[i] == init[i]);
            }
        }
    }
}

/// A listing never shows a hidden entry unless hidden files are served:
/// every row of every page, in any order, comes from an entry that passed
/// the filters.
pub proof fn lemma_listing_hides_hidden(
    raw: Seq<RawEntry>,
    request_path: Seq<char>,
    dir_path: Seq<char>,
    serve_hidden: bool,
    follow_symlinks: bool,
    search: Option<Seq<char>>,
    key: SortKey,
    desc: bool,
    lo: int,
    hi: int,
)
    requires
        0 <= lo <= hi <= shown_rows(
            raw,
            request_path,
            dir_path,
            serve_hidden,
            follow_symlinks,
            search,
        ).len(),
    ensures
        forall|i: int|
            0 <= i < hi - lo ==> visible_row(
                #[trigger] stable_sorted(
                    shown_rows(raw, request_path, dir_path, serve_hidden, follow_symlinks, search),
                    key,
                    desc,
                ).subrange(lo, hi)[i],
                serve_hidden,
            ),
{
    broadcast use vstd::seq_lib::group_to_multiset_ensures;

    let rows = shown_rows(raw, request_path, dir_path, serve_hidden, follow_symlinks, search);
    let sorted = stable_sorted(rows, key, desc);
    lemma_rows_visible(raw, request_path, dir_path, serve_hidden, follow_symlinks, search);
    lemma_stable_sorted_permutes(rows, key, desc);
    lemma_stable_sorted_len(rows, key, desc);
    assert forall|i: int| 0 <= i < hi - lo implies visible_row(
        #[trigger] sorted.subrange(lo, hi)[i],
        serve_hidden,
    ) by {
        let x = sorted[lo + i];
        assert(sorted.subrange(lo, hi)[i] == x);
        assert(sorted.contains(x));
        assert(sorted.to_multiset().count(x) > 0);
        assert(rows.to_multiset().count(x) > 0);
        assert(rows.contains(x));
        let j = choose|j: int| 0 <= j < rows.len() && rows[j] == x;
        assert(visible_row(rows[j], serve_hidden));
    }
}

/// The first row of a page (1-based page numbers; page 0 counts as 1).
pub open spec fn page_start(page: usize, page_size: usize) -> int {
    (if page >= 1 {
        page - 1
    } else {
        0
    }) * page_size
}

/// `shown`, with the search term already lowercased.
fn kept(
    e: &RawEntry,
    serve_hidden: bool,
    follow_symlinks: bool,
    search_key: &Option<Vec<char>>,
    Ghost(search): Ghost<Option<Seq<char>>>,
) -> (b: bool)
    requires
        match search {
            Some(t) => *search_key matches Some(sk) && sk@ == unicode_lowercase(t),
            None => search_key is None,
        },
    ensures
        b == shown(*e, serve_hidden, follow_symlinks, search),
{
    let name = chars_of(e.name.as_str());
    let hidden = name.len() > 0 && name[0] == '.';
    let matches_search = match search_key {
        Some(sk) => {
            let lname = chars_of(to_lowercase(e.name.as_str()).as_str());
            contains_chars(lname.as_slice(), sk.as_slice())
        },
        None => true,
    };
    (serve_hidden || !hidden) && matches_search && match &e.meta {
        Some(m) => follow_symlinks || !m.is_symlink,
        None => false,
    }
}

/// One page of a directory listing.
#[derive(Clone, Debug)]
pub struct DirectoryListing {
    pub path: String,
    pub entries: Vec<DirectoryEntry>,
    pub total: usize,
    pub page: usize,
    pub page_size: usize,
    pub has_more: bool,
    pub sort_by: String,
    pub sort_order: String,
}

/// Lists directories whose contents the caller has read.
#[derive(Clone, Debug)]
pub struct DirectoryLister {
    pub config: Arc<ServerConfig>,
    path_validator: PathValidator,
}

impl DirectoryLister {
    /// A lister for the given settings.
    pub fn new(config: Arc<ServerConfig>, path_validator: PathValidator) -> (r: Self)
        ensures
            r.settings() == *config,
            r.validator() == path_validator,
    {
        DirectoryLister { config, path_validator }
    }

    /// The settings the lister was made with.
    pub closed spec fn settings(self) -> ServerConfig {
        *self.config
    }

    /// Whether an entry read from a directory is shown in its listing, for
    /// the given search term: not hidden (unless hidden files are served),
    /// matching the term, with readable metadata, and not a symbolic link
    /// (unless links are followed).
    pub fn is_shown(&self, entry: &RawEntry, search: Option<&str>) -> (b: bool)
        ensures
            b == shown(
                *entry,
                self.settings().serve_hidden_files,
                self.settings().follow_symlinks,
                match search {
                    Some(t) => Some(t@),
                    None => None,
                },
            ),
    {
        let search_key = match search {
            Some(t) => Some(chars_of(to_lowercase(t).as_str())),
            None => None,
        };
        kept(
            entry,
            self.config.serve_hidden_files,
            self.config.follow_symlinks,
            &search_key,
            Ghost(
                match search {
                    Some(t) => Some(t@),
                    None => None,
                },
            ),
        )
    }

    /// The number of entries on a listing page.
    pub fn page_size(&self) -> (n: usize)
        ensures
            n == self.settings().directory_page_size,
    {
        self.config.directory_page_size
    }

    /// The path validator the lister was made with.
    pub closed spec fn validator(self) -> PathValidator {
        self.path_validator
    }

    /// `list_directory`: one page of the listing of `dir_path`, reached as
    /// `request_path`, from the entries read from the directory (in the
    /// order read): the shown entries, sorted as asked, then the page.
    pub fn list_directory(
        &self,
        request_path: &str,
        dir_path: &str,
        page: usize,
        page_size: usize,
        sort_by: &str,
        sort_order: &str,
        search: Option<&str>,
        raw: Vec<RawEntry>,
    ) -> (r: DirectoryListing)
        requires
            page_start(page, page_size) + page_size <= usize::MAX,
            forall|k: int|
                0 <= k < raw@.len() && shown(
                    #[trigger] raw@[k],
                    self.settings().serve_hidden_files,
                    self.settings().follow_symlinks,
                    match search {
                        Some(t) => Some(t@),
                        None => None,
                    },
                ) ==> printable(raw@[k].meta->0.modified_secs as nat),
        ensures
            ({
                let rows = shown_rows(
                    raw@,
                    request_path@,
                    dir_path@,
                    self.settings().serve_hidden_files,
                    self.settings().follow_symlinks,
                    match search {
                        Some(t) => Some(t@),
                        None => None,
                    },
                );
                let sorted = stable_sorted(rows, sort_key_of(sort_by@), sort_order@ == "desc"@);
                let start = page_start(page, page_size);
                let total = rows.len();
                &&& r.path@ == request_path@
                &&& r.total == total
                &&& r.page == page
                &&& r.page_size == page_size
                &&& r.has_more == (start + page_size < total)
                &&& r.sort_by@ == sort_by@
                &&& r.sort_order@ == sort_order@
                &&& entry_views(r.entries@) == sorted.subrange(
                    if start < total {
                        start
                    } else {
                        total as int
                    },
                    if start + page_size < total {
                        start + page_size
                    } else {
                        total as int
                    },
                )
            }),
    {
        let ghost srch = match search {
            Some(t) => Some(t@),
            None => None,
        };
        let serve_hidden = self.config.serve_hidden_files;
        let follow = self.config.follow_symlinks;
        let search_key = match search {
            Some(t) => Some(chars_of(to_lowercase(t).as_str())),
            None => None,
        };
        let slash: [char; 1] = ['/'];
        assert(slash@ == seq!['/']);
        let req = chars_of(request_path);
        let req_ends_slash = ends_with(req.as_slice(), &slash);
        let mut entries: Vec<DirectoryEntry> = Vec::new();
        let mut k: usize = 0;
        while k < raw.len()
            invariant
                k <= raw@.len(),
                serve_hidden == self.config.serve_hidden_files,
                follow == self.config.follow_symlinks,
                srch == (match search {
                    Some(t) => Some(t@),
                    None => None,
                }),
                match search {
                    Some(t) => search_key matches Some(sk) && sk@ == unicode_lowercase(t@),
                    None => search_key is None,
                },
                req@ == request_path@,
                req_ends_slash == seq!['/'].is_suffix_of(request_path@),
                forall|j: int|
                    0 <= j < raw@.len() && shown(#[trigger] raw@[j], serve_hidden, follow, srch)
                        ==> printable(raw@[j].meta->0.modified_secs as nat),
                entry_views(entries@) == shown_rows(
                    raw@.take(k as int),
                    request_path@,
                    dir_path@,
                    serve_hidden,
                    follow,
                    srch,
                ),
            decreases raw.len() - k,
        {
            assert(raw@.take(k + 1).drop_last() == raw@.take(k as int));
            assert(raw@.take(k + 1).last() == raw@[k as int]);
            let e = &raw[k];
            let keep = kept(e, serve_hidden, follow, &search_key, Ghost(srch));
            if keep {
                let m = match &e.meta {
                    Some(m) => *m,
                    None => {
                        proof {
                            assert(false);
                        }
                        return DirectoryListing {
                            path: String::new(),
                            entries: Vec::new(),
                            total: 0,
                            page: 0,
                            page_size: 0,
                            has_more: false,
                            sort_by: String::new(),
                            sort_order: String::new(),
                        };
                    },
                };
                assert(shown(raw@[k as int], serve_hidden, follow, srch));
                let size = if m.is_dir {
                    0
                } else {
                    m.len
                };
                let modified_rfc3339 = format_datetime_rfc3339(m.modified_secs);
                let mime_type = if m.is_dir {
                    owned("directory")
                } else {
                    let p = join_path(dir_path, e.name.as_str());
                    guess_mime(p.as_str()).to_text()
                };
                let mut path = String::new();
                push_str(&mut path, request_path);
                if !req_ends_slash {
                    push_char(&mut path, '/');
                }
                push_str(&mut path, e.name.as_str());
                let row = DirectoryEntry {
                    name: e.name.clone(),
                    path,
                    is_dir: m.is_dir,
                    size,
                    modified: m.modified_secs as i64,
                    modified_rfc3339,
                    mime_type,
                };
                proof {
                    let er = entry_row(raw@[k as int], request_path@, dir_path@);
                    assert(m == raw@[k as int].meta->0);
                    assert(row.name@ == er.name);
                    assert(row.path@ == er.path);
                    assert(row.size == er.size);
                    assert(row.modified == er.modified);
                    assert(row.modified_rfc3339@ == er.modified_rfc3339);
                    assert(row.mime_type@ == er.mime_type);
                }
                assert(row.view() == entry_row(raw@[k as int], request_path@, dir_path@));
                let ghost before = entries@;
                entries.push(row);
                assert(entry_views(entries@) == entry_views(before).push(row.view()));
            } else {
                assert(!shown(raw@[k as int], serve_hidden, follow, srch));
            }
            k += 1;
        }
        assert(raw@.take(raw@.len() as int) == raw@);
        sort_entries(&mut entries, sort_by, sort_order);
        let total = entries.len();
        let start = (if page >= 1 {
            page - 1
        } else {
            0
        }) * page_size;
        let has_more = start + page_size < total;
        let ghost sorted = entry_views(entries@);
        let mut page_entries: Vec<DirectoryEntry> = Vec::new();
        let lo = if start < total {
            start
        } else {
            total
        };
        let hi = if start + page_size < total {
            start + page_size
        } else {
            total
        };
        let mut rest: Vec<DirectoryEntry> = entries;
        let mut t: usize = 0;
        while t < lo
            invariant
                t <= lo <= total,
                total == sorted.len(),
                entry_views(rest@) == sorted.skip(t as int),
            decreases lo - t,
        {
            let ghost old_rest = rest@;
            assert(entry_views(rest@).len() == rest@.len());
            rest.remove(0);
            assert(entry_views(rest@) =~= sorted.skip(t + 1)) by {
                assert(rest@ =~= old_rest.subrange(1, old_rest.len() as int));
                assert forall|q: int| 0 <= q < rest@.len() implies #[trigger] entry_views(rest@)[q] == sorted.skip(t + 1)[q] by {
                    assert(rest@[q] == old_rest[q + 1]);
                    assert(entry_views(old_rest)[q + 1] == sorted.skip(t as int)[q + 1]);
                }
            }
            t += 1;
        }
        while t < hi
            invariant
                lo <= t <= hi <= total,
                total == sorted.len(),
                entry_views(rest@) == sorted.skip(t as int),
                entry_views(page_entries@) == sorted.subrange(lo as int, t as int),
            decreases hi - t,
        {
            let ghost old_rest = rest@;
            assert(entry_views(rest@).len() == rest@.len());
            assert(entry_views(rest@)[0] == rest@[0].view());
            let e = rest.remove(0);
            assert(entry_views(rest@) =~= sorted.skip(t + 1)) by {
                assert(rest@ =~= old_rest.subrange(1, old_rest.len() as int));
                assert forall|q: int| 0 <= q < rest@.len() implies #[trigger] entry_views(rest@)[q] == sorted.skip(t + 1)[q] by {
                    assert(rest@[q] == old_rest[q + 1]);
                    assert(entry_views(old_rest)[q + 1] == sorted.skip(t as int)[q + 1]);
                }
            }
            let ghost before = page_entries@;
            page_entries.push(e);
            assert(entry_views(page_entries@) == entry_views(before).push(e.view()));
            t += 1;
        }
        assert(sorted.subrange(lo as int, hi as int) == entry_views(page_entries@));
        assert(start == page_start(page, page_size));
        assert(sorted == stable_sorted(
            shown_rows(raw@, request_path@, dir_path@, self.settings().serve_hidden_files, self.settings().follow_symlinks, srch),
            sort_key_of(sort_by@),
            sort_order@ == "desc"@,
        ));
        assert(total == sorted.len());
        proof {
            lemma_stable_sorted_len(
                shown_rows(raw@, request_path@, dir_path@, self.settings().serve_hidden_files, self.settings().follow_symlinks, srch),
                sort_key_of(sort_by@),
                sort_order@ == "desc"@,
            );
        }
        DirectoryListing {
            path: String::from_str(request_path),
            entries: page_entries,
            total,
            page,
            page_size,
            has_more,
            sort_by: String::from_str(sort_by),
            sort_order: String::from_str(sort_order),
        }
    }
}


// ---------------------------------------------------------------------
// Rendering
// ---------------------------------------------------------------------

/// How HTML escaping writes one character.
pub open spec fn escaped_char(c: char) -> Seq<char> {
    if c == '<' {
        "&lt;"@
    } else if c == '>' {
        "&gt;"@
    } else if c == '&' {
        "&amp;"@
    } else if c == '"' {
        "&quot;"@
    } else if c == '\'' {
        "&#39;"@
    } else {
        seq![c]
    }
}

/// Text with `<`, `>`, `&`, `"` and `'` replaced by character references.
pub open spec fn html_escaped(s: Seq<char>) -> Seq<char>
    decreases s.len(),
{
    if s.len() == 0 {
        seq![]
    } else {
        html_escaped(s.drop_last()) + escaped_char(s.last())
    }
}

fn push_escaped_char(out: &mut String, c: char)
    ensures
        final(out)@ == old(out)@ + escaped_char(c),
{
    if c == '<' {
        push_str(out, "&lt;");
    } else if c == '>' {
        push_str(out, "&gt;");
    } else if c == '&' {
        push_str(out, "&amp;");
    } else if c == '"' {
        push_str(out, "&quot;");
    } else if c == '\'' {
        push_str(out, "&#39;");
    } else {
        push_char(out, c);
    }
}

/// Appends `s` HTML-escaped.
pub fn push_escaped(out: &mut String, s: &str)
    ensures
        final(out)@ == old(out)@ + html_escaped(s@),
{
    let v = chars_of(s);
    let ghost start = out@;
    let mut i: usize = 0;
    while i < v.len()
        invariant
            i <= v@.len(),
            out@ == start + html_escaped(v@.take(i as int)),
        decreases v.len() - i,
    {
        assert(v@.take(i + 1).drop_last() == v@.take(i as int));
        push_escaped_char(out, v[i]);
        i += 1;
    }
    assert(v@.take(v@.len() as int) == v@);
}

/// `html_escape`.
pub fn html_escape(s: &str) -> (r: String)
    ensures
        r@ == html_escaped(s@),
{
    let mut r = String::new();
    push_escaped(&mut r, s);
    r
}

/// `s` without its trailing `c`s.
pub open spec fn trim_end_char(s: Seq<char>, c: char) -> Seq<char>
    decreases s.len(),
{
    if s.len() > 0 && s.last() == c {
        trim_end_char(s.drop_last(), c)
    } else {
        s
    }
}

/// The link to the parent of a listed directory: the path up to and
/// including the last `/` once trailing slashes are removed, or `/`.
pub open spec fn parent_path(path: Seq<char>) -> Seq<char> {
    let t = trim_end_char(path, '/');
    if t.len() == 0 || t == seq!['/'] {
        seq!['/']
    } else {
        match crate::text::last_index(t, '/') {
            Some(i) => t.take(i + 1),
            None => seq!['/'],
        }
    }
}

/// `get_parent_path`.
pub fn get_parent_path(path: &str) -> (r: String)
    ensures
        r@ == parent_path(path@),
{
    let v = chars_of(path);
    let mut n = v.len();
    assert(v@.take(v@.len() as int) == v@);
    while n > 0 && v[n - 1] == '/'
        invariant
            n <= v@.len(),
            trim_end_char(v@, '/') == trim_end_char(v@.take(n as int), '/'),
        decreases n,
    {
        assert(v@.take(n as int).drop_last() == v@.take(n - 1));
        n -= 1;
    }
    let t = crate::text::sub_chars(v.as_slice(), 0, n);
    assert(t@ == v@.take(n as int));
    assert(trim_end_char(t@, '/') == t@) by {
        if t@.len() > 0 {
            assert(t@.last() == v@[n - 1]);
        }
    }
    assert(t@ == trim_end_char(path@, '/'));
    proof {
        reveal_strlit("/");
    }
    if n == 0 || (n == 1 && t[0] == '/') {
        assert(n == 1 ==> t@ =~= seq!['/']);
        return String::from_str("/");
    }
    assert(t@ != seq!['/']) by {
        if t@ == seq!['/'] {
            assert(t@.len() == 1 && t@[0] == '/');
        }
    }
    match crate::text::rfind_char(t.as_slice(), '/') {
        Some(idx) => {
            let p = crate::text::sub_chars(t.as_slice(), 0, idx + 1);
            assert(p@ == t@.take(idx + 1));
            crate::text::string_of(p.as_slice())
        },
        None => String::from_str("/"),
    }
}

/// The view of a listing.
pub struct ListingView {
    pub path: Seq<char>,
    pub entries: Seq<EntryView>,
    pub total: usize,
    pub page: usize,
    pub page_size: usize,
    pub has_more: bool,
    pub sort_by: Seq<char>,
    pub sort_order: Seq<char>,
}

impl DirectoryListing {
    pub open spec fn view(&self) -> ListingView {
        ListingView {
            path: self.path@,
            entries: entry_views(self.entries@),
            total: self.total,
            page: self.page,
            page_size: self.page_size,
            has_more: self.has_more,
            sort_by: self.sort_by@,
            sort_order: self.sort_order@,
        }
    }
}

/// `selected` when the option is the chosen one.
pub open spec fn selected(b: bool) -> Seq<char> {
    if b {
        "selected"@
    } else {
        ""@
    }
}

/// The page's head and title.
pub open spec fn page_head(path: Seq<char>) -> Seq<char> {
    "<!DOCTYPE html>\n<html lang=\"en\">\n<head>\n"@ + "<meta charset=\"UTF-8\">\n"@
        + "<title>Directory listing for "@ + html_escaped(path) + "</title>\n"@ + "<style>\n"@
        + "body { font-family: -apple-system, BlinkMacSystemFont, 'Segoe UI', Roboto, sans-serif; margin: 20px; }\n"@
        + "h1 { font-size: 1.5em; }\n"@ + "table { width: 100%; border-collapse: collapse; }\n"@
        + "th, td { text-align: left; padding: 8px 12px; border-bottom: 1px solid #eee; }\n"@
        + "th { background: #f5f5f5; font-weight: 600; }\n"@
        + "a { color: #0366d6; text-decoration: none; }\n"@
        + "a:hover { text-decoration: underline; }\n"@
        + ".size { text-align: right; font-variant-numeric: tabular-nums; }\n"@
        + ".pagination { margin-top: 20px; }\n"@ + ".search { margin-bottom: 16px; }\n"@
        + "</style>\n"@ + "</head>\n<body>\n"@ + "<h1>Directory listing for "@ + html_escaped(path)
        + "</h1>\n"@
}

/// The search and sort form, with the current choices selected.
pub open spec fn search_form(sort_by: Seq<char>, sort_order: Seq<char>) -> Seq<char> {
    "<div class=\"search\">\n"@
        + "<form method=\"get\"><input type=\"text\" name=\"q\" placeholder=\"Search...\" value=\"\"> <select name=\"sort\"><option value=\"name\" "@
        + selected(sort_by == "name"@) + ">Name</option><option value=\"size\" "@ + selected(
        sort_by == "size"@,
    ) + ">Size</option><option value=\"time\" "@ + selected(sort_by == "time"@)
        + ">Modified</option></select><select name=\"order\"><option value=\"asc\" "@ + selected(
        sort_order == "asc"@,
    ) + ">Ascending</option><option value=\"desc\" "@ + selected(sort_order == "desc"@)
        + ">Descending</option></select><button type=\"submit\">Go</button></form>\n"@
        + "</div>\n"@
}

/// The link to the parent directory, except at the root.
pub open spec fn parent_link(l: ListingView) -> Seq<char> {
    if l.path != "/"@ {
        "<p><a href=\""@ + parent_path(l.path) + "?sort="@ + l.sort_by + "&order="@ + l.sort_order
            + "\">&larr; Parent directory</a></p>\n"@
    } else {
        ""@
    }
}

/// The table header.
pub open spec fn table_head() -> Seq<char> {
    "<table>\n"@ + "<thead><tr>\n"@ + "<th>Name</th>\n"@ + "<th class=\"size\">Size</th>\n"@
        + "<th>Modified</th>\n"@ + "<th>Type</th>\n"@ + "</tr></thead>\n"@ + "<tbody>\n"@
}

/// One table row; `size_label` is the human-readable size of a file.
pub open spec fn table_row(e: EntryView, size_label: Seq<char>) -> Seq<char> {
    let size = if e.is_dir {
        "-"@
    } else {
        size_label
    };
    let display = if e.is_dir {
        e.name + seq!['/']
    } else {
        e.name
    };
    "<tr>\n"@ + "<td><a href=\""@ + html_escaped(e.path) + "\">"@ + html_escaped(display)
        + "</a></td>\n"@ + "<td class=\"size\">"@ + size + "</td>\n"@ + "<td>"@
        + e.modified_rfc3339 + "</td>\n"@ + "<td>"@ + html_escaped(e.mime_type) + "</td>\n"@
        + "</tr>\n"@
}

/// The table rows.
pub open spec fn table_rows(es: Seq<EntryView>, labels: Seq<Seq<char>>) -> Seq<char>
    decreases es.len(),
{
    if es.len() == 0 {
        seq![]
    } else {
        table_rows(es.drop_last(), labels.drop_last()) + table_row(es.last(), labels.last())
    }
}

/// The number of pages, rounded up.
pub open spec fn page_count(total: usize, page_size: usize) -> int {
    (total + page_size - 1) / (if page_size >= 1 {
        page_size as int
    } else {
        1
    })
}

/// The page footer: counts, and links to the previous and next pages.
pub open spec fn pagination(l: ListingView) -> Seq<char> {
    "</tbody>\n</table>\n"@ + "<div class=\"pagination\">\n"@ + "<p>Showing "@ + decimal(
        l.entries.len(),
    ) + " of "@ + decimal(l.total as nat) + " items (page "@ + decimal(l.page as nat) + " of ~"@
        + decimal(page_count(l.total, l.page_size) as nat) + ")</p>\n"@ + (if l.page > 1 {
        "<a href=\""@ + html_escaped(l.path) + "?page="@ + decimal((l.page - 1) as nat)
            + "&sort="@ + l.sort_by + "&order="@ + l.sort_order + "\">&larr; Previous</a> \n"@
    } else {
        ""@
    }) + (if l.has_more {
        "<a href=\""@ + html_escaped(l.path) + "?page="@ + decimal((l.page + 1) as nat)
            + "&sort="@ + l.sort_by + "&order="@ + l.sort_order + "\">Next &rarr;</a>\n"@
    } else {
        ""@
    }) + "</div>\n"@ + "</body>\n</html>\n"@
}

/// The HTML page of a directory listing.
pub open spec fn listing_html(l: ListingView, labels: Seq<Seq<char>>) -> Seq<char> {
    page_head(l.path) + search_form(l.sort_by, l.sort_order) + parent_link(l) + table_head()
        + table_rows(l.entries, labels) + pagination(l)
}

/// Whether a listing's numbers can be printed without overflow.
pub open spec fn renderable(l: ListingView) -> bool {
    &&& 1 <= l.total + l.page_size <= usize::MAX
    &&& (l.has_more ==> l.page < usize::MAX)
}

fn push_selected(s: &mut String, b: bool)
    ensures
        final(s)@ == old(s)@ + selected(b),
{
    if b {
        push_str(s, "selected");
    } else {
        push_str(s, "");
    }
}

fn head_text(path: &str) -> (r: String)
    ensures
        r@ == page_head(path@),
{
    let mut r = owned("<!DOCTYPE html>\n<html lang=\"en\">\n<head>\n");
    push_str(&mut r, "<meta charset=\"UTF-8\">\n");
    push_str(&mut r, "<title>Directory listing for ");
    push_escaped(&mut r, path);
    push_str(&mut r, "</title>\n");
    push_str(&mut r, "<style>\n");
    push_str(
        &mut r,
        "body { font-family: -apple-system, BlinkMacSystemFont, 'Segoe UI', Roboto, sans-serif; margin: 20px; }\n",
    );
    push_str(&mut r, "h1 { font-size: 1.5em; }\n");
    push_str(&mut r, "table { width: 100%; border-collapse: collapse; }\n");
    push_str(
        &mut r,
        "th, td { text-align: left; padding: 8px 12px; border-bottom: 1px solid #eee; }\n",
    );
    push_str(&mut r, "th { background: #f5f5f5; font-weight: 600; }\n");
    push_str(&mut r, "a { color: #0366d6; text-decoration: none; }\n");
    push_str(&mut r, "a:hover { text-decoration: underline; }\n");
    push_str(&mut r, ".size { text-align: right; font-variant-numeric: tabular-nums; }\n");
    push_str(&mut r, ".pagination { margin-top: 20px; }\n");
    push_str(&mut r, ".search { margin-bottom: 16px; }\n");
    push_str(&mut r, "</style>\n");
    push_str(&mut r, "</head>\n<body>\n");
    push_str(&mut r, "<h1>Directory listing for ");
    push_escaped(&mut r, path);
    push_str(&mut r, "</h1>\n");
    r
}

fn form_text(sort_by: &str, sort_order: &str) -> (r: String)
    ensures
        r@ == search_form(sort_by@, sort_order@),
{
    let b = chars_of(sort_by);
    let o = chars_of(sort_order);
    let mut r = owned("<div class=\"search\">\n");
    push_str(
        &mut r,
        "<form method=\"get\"><input type=\"text\" name=\"q\" placeholder=\"Search...\" value=\"\"> <select name=\"sort\"><option value=\"name\" ",
    );
    push_selected(&mut r, is_lit(b.as_slice(), "name"));
    push_str(&mut r, ">Name</option><option value=\"size\" ");
    push_selected(&mut r, is_lit(b.as_slice(), "size"));
    push_str(&mut r, ">Size</option><option value=\"time\" ");
    push_selected(&mut r, is_lit(b.as_slice(), "time"));
    push_str(
        &mut r,
        ">Modified</option></select><select name=\"order\"><option value=\"asc\" ",
    );
    push_selected(&mut r, is_lit(o.as_slice(), "asc"));
    push_str(&mut r, ">Ascending</option><option value=\"desc\" ");
    push_selected(&mut r, is_lit(o.as_slice(), "desc"));
    push_str(
        &mut r,
        ">Descending</option></select><button type=\"submit\">Go</button></form>\n",
    );
    push_str(&mut r, "</div>\n");
    r
}

fn parent_link_text(l: &DirectoryListing) -> (r: String)
    ensures
        r@ == parent_link(l.view()),
{
    let p = chars_of(l.path.as_str());
    if !is_lit(p.as_slice(), "/") {
        let parent = get_parent_path(l.path.as_str());
        let mut r = owned("<p><a href=\"");
        push_str(&mut r, parent.as_str());
        push_str(&mut r, "?sort=");
        push_str(&mut r, l.sort_by.as_str());
        push_str(&mut r, "&order=");
        push_str(&mut r, l.sort_order.as_str());
        push_str(&mut r, "\">&larr; Parent directory</a></p>\n");
        r
    } else {
        owned("")
    }
}

fn table_head_text() -> (r: String)
    ensures
        r@ == table_head(),
{
    let mut r = owned("<table>\n");
    push_str(&mut r, "<thead><tr>\n");
    push_str(&mut r, "<th>Name</th>\n");
    push_str(&mut r, "<th class=\"size\">Size</th>\n");
    push_str(&mut r, "<th>Modified</th>\n");
    push_str(&mut r, "<th>Type</th>\n");
    push_str(&mut r, "</tr></thead>\n");
    push_str(&mut r, "<tbody>\n");
    r
}

fn row_text(e: &DirectoryEntry, size_label: &str) -> (r: String)
    ensures
        r@ == table_row(e.view(), size_label@),
{
    let mut display = owned(e.name.as_str());
    if e.is_dir {
        push_char(&mut display, '/');
    }
    assert(display@ == (if e.is_dir {
        e.name@ + seq!['/']
    } else {
        e.name@
    }));
    let size = if e.is_dir {
        owned("-")
    } else {
        owned(size_label)
    };
    let mut r = owned("<tr>\n");
    push_str(&mut r, "<td><a href=\"");
    push_escaped(&mut r, e.path.as_str());
    push_str(&mut r, "\">");
    push_escaped(&mut r, display.as_str());
    push_str(&mut r, "</a></td>\n");
    push_str(&mut r, "<td class=\"size\">");
    push_str(&mut r, size.as_str());
    push_str(&mut r, "</td>\n");
    push_str(&mut r, "<td>");
    push_str(&mut r, e.modified_rfc3339.as_str());
    push_str(&mut r, "</td>\n");
    push_str(&mut r, "<td>");
    push_escaped(&mut r, e.mime_type.as_str());
    push_str(&mut r, "</td>\n");
    push_str(&mut r, "</tr>\n");
    r
}

fn page_link_text(path: &str, page: usize, sort_by: &str, sort_order: &str, label: &str) -> (r:
    String)
    ensures
        r@ == "<a href=\""@ + html_escaped(path@) + "?page="@ + decimal(page as nat) + "&sort="@
            + sort_by@ + "&order="@ + sort_order@ + label@,
{
    let mut r = owned("<a href=\"");
    push_escaped(&mut r, path);
    push_str(&mut r, "?page=");
    push_decimal(&mut r, page as u64);
    push_str(&mut r, "&sort=");
    push_str(&mut r, sort_by);
    push_str(&mut r, "&order=");
    push_str(&mut r, sort_order);
    push_str(&mut r, label);
    r
}

fn pagination_text(l: &DirectoryListing) -> (r: String)
    requires
        renderable(l.view()),
    ensures
        r@ == pagination(l.view()),
{
    let divisor = if l.page_size >= 1 {
        l.page_size
    } else {
        1
    };
    let pages = (l.total + l.page_size - 1) / divisor;
    let prev = if l.page > 1 {
        page_link_text(
            l.path.as_str(),
            l.page - 1,
            l.sort_by.as_str(),
            l.sort_order.as_str(),
            "\">&larr; Previous</a> \n",
        )
    } else {
        owned("")
    };
    let next = if l.has_more {
        page_link_text(
            l.path.as_str(),
            l.page + 1,
            l.sort_by.as_str(),
            l.sort_order.as_str(),
            "\">Next &rarr;</a>\n",
        )
    } else {
        owned("")
    };
    let mut r = owned("</tbody>\n</table>\n");
    push_str(&mut r, "<div class=\"pagination\">\n");
    push_str(&mut r, "<p>Showing ");
    push_decimal(&mut r, l.entries.len() as u64);
    push_str(&mut r, " of ");
    push_decimal(&mut r, l.total as u64);
    push_str(&mut r, " items (page ");
    push_decimal(&mut r, l.page as u64);
    push_str(&mut r, " of ~");
    push_decimal(&mut r, pages as u64);
    push_str(&mut r, ")</p>\n");
    push_str(&mut r, prev.as_str());
    push_str(&mut r, next.as_str());
    push_str(&mut r, "</div>\n");
    push_str(&mut r, "</body>\n</html>\n");
    r
}

/// `render_directory_html`: the HTML page of a listing. `size_labels`
/// holds the human-readable size of each entry, in order.
pub fn render_directory_html(listing: &DirectoryListing, size_labels: &Vec<String>) -> (r: String)
    requires
        renderable(listing.view()),
        size_labels@.len() == listing.entries@.len(),
    ensures
        r@ == listing_html(
            listing.view(),
            size_labels@.map_values(|x: String| x@),
        ),
{
    let ghost labels = size_labels@.map_values(|x: String| x@);
    let ghost es = entry_views(listing.entries@);
    let mut html = head_text(listing.path.as_str());
    let form = form_text(listing.sort_by.as_str(), listing.sort_order.as_str());
    push_str(&mut html, form.as_str());
    let parent = parent_link_text(listing);
    push_str(&mut html, parent.as_str());
    let head = table_head_text();
    push_str(&mut html, head.as_str());
    let ghost before_rows = html@;
    let mut i: usize = 0;
    while i < listing.entries.len()
        invariant
            i <= listing.entries@.len(),
            size_labels@.len() == listing.entries@.len(),
            labels == size_labels@.map_values(|x: String| x@),
            es == entry_views(listing.entries@),
            html@ =~= before_rows + table_rows(es.take(i as int), labels.take(i as int)),
        decreases listing.entries.len() - i,
    {
        assert(es.take(i + 1).drop_last() == es.take(i as int));
        assert(labels.take(i + 1).drop_last() == labels.take(i as int));
        assert(es.take(i + 1).last() == listing.entries@[i as int].view());
        assert(labels.take(i + 1).last() == size_labels@[i as int]@);
        let row = row_text(&listing.entries[i], size_labels[i].as_str());
        push_str(&mut html, row.as_str());
        i += 1;
    }
    assert(es.take(es.len() as int) == es);
    assert(labels.take(labels.len() as int) == labels);
    let foot = pagination_text(listing);
    push_str(&mut html, foot.as_str());
    html
}

} // verus!
