//! Unix path syntax: the components of a path, its file name and its
//! extension, as `std::path::Path` defines them.
use vstd::prelude::*;
use crate::text::{
    first_index, last_index, lemma_first_index, rfind_char, split_chars, split_on,
    sub_chars, views,
};

verus! {

/// A component of a Unix path (`std::path::Component`, without prefixes).
pub enum Component {
    RootDir,
    CurDir,
    ParentDir,
    Normal(Seq<char>),
}

/// A component of a path, as the executable code holds it.
pub enum PathPart {
    RootDir,
    CurDir,
    ParentDir,
    Normal(Vec<char>),
}

impl PathPart {
    pub open spec fn view(&self) -> Component {
        match self {
            PathPart::RootDir => Component::RootDir,
            PathPart::CurDir => Component::CurDir,
            PathPart::ParentDir => Component::ParentDir,
            PathPart::Normal(n) => Component::Normal(n@),
        }
    }
}

pub open spec fn parts_view(v: Seq<PathPart>) -> Seq<Component> {
    v.map_values(|p: PathPart| p.view())
}

/// What one `/`-separated segment contributes: empty segments and `.`
/// contribute nothing.
pub open spec fn segment_component(seg: Seq<char>) -> Option<Component> {
    if seg.len() == 0 || seg == seq!['.'] {
        None
    } else if seg == seq!['.', '.'] {
        Some(Component::ParentDir)
    } else {
        Some(Component::Normal(seg))
    }
}

/// The components contributed by a list of segments.
pub open spec fn segments_components(segs: Seq<Seq<char>>) -> Seq<Component>
    decreases segs.len(),
{
    if segs.len() == 0 {
        seq![]
    } else {
        let init = segments_components(segs.drop_last());
        match segment_component(segs.last()) {
            Some(c) => init.push(c),
            None => init,
        }
    }
}

/// The components of a path (`Path::components`): a leading `/` gives
/// `RootDir`; a leading `.` segment of a relative path gives `CurDir`;
/// then every segment other than empty ones and `.`.
pub open spec fn components(s: Seq<char>) -> Seq<Component> {
    let segs = split_on(s, '/');
    if s.len() > 0 && s[0] == '/' {
        seq![Component::RootDir] + segments_components(segs.drop_first())
    } else if segs[0] == seq!['.'] {
        seq![Component::CurDir] + segments_components(segs.drop_first())
    } else {
        segments_components(segs)
    }
}

proof fn lemma_split_on_nonempty(s: Seq<char>, c: char)
    ensures
        split_on(s, c).len() >= 1,
        s.len() > 0 && s[0] == c ==> split_on(s, c)[0] == Seq::<char>::empty(),
        first_index(s, c) is None ==> split_on(s, c) == seq![s],
{
    lemma_first_index(s, c);
    if s.len() > 0 && s[0] == c {
        assert(first_index(s, c) == Some(0int));
    }
}

fn is_dot(v: &[char]) -> (b: bool)
    ensures
        b == (v@ == seq!['.']),
{
    if v.len() == 1 && v[0] == '.' {
        assert(v@ == seq!['.']);
        true
    } else {
        false
    }
}

fn is_dot_dot(v: &[char]) -> (b: bool)
    ensures
        b == (v@ == seq!['.', '.']),
{
    if v.len() == 2 && v[0] == '.' && v[1] == '.' {
        assert(v@ == seq!['.', '.']);
        true
    } else {
        false
    }
}

/// `Path::components`, collected.
pub fn path_components(s: &[char]) -> (r: Vec<PathPart>)
    ensures
        parts_view(r@) == components(s@),
{
    let segs = split_chars(s, '/');
    let ghost sv = views(segs@);
    proof {
        lemma_split_on_nonempty(s@, '/');
    }
    let mut out: Vec<PathPart> = Vec::new();
    let mut k: usize = 0;
    let ghost head: Seq<Component>;
    if s.len() > 0 && s[0] == '/' {
        out.push(PathPart::RootDir);
        k = 1;
        proof {
            head = seq![Component::RootDir];
        }
    } else if is_dot(segs[0].as_slice()) {
        out.push(PathPart::CurDir);
        k = 1;
        proof {
            head = seq![Component::CurDir];
        }
    } else {
        proof {
            head = seq![];
        }
    }
    assert(sv[0] == segs@[0]@);
    assert(parts_view(out@) == head);
    let ghost start = k;
    assert(sv.subrange(start as int, k as int) == Seq::<Seq<char>>::empty());
    while k < segs.len()
        invariant
            1 <= segs@.len(),
            start <= k <= segs@.len(),
            start <= 1,
            sv == views(segs@),
            parts_view(out@) == head + segments_components(sv.subrange(start as int, k as int)),
        decreases segs.len() - k,
    {
        let seg = segs[k].as_slice();
        let ghost prev = sv.subrange(start as int, k as int);
        assert(sv.subrange(start as int, k + 1).drop_last() == prev);
        assert(sv.subrange(start as int, k + 1).last() == seg@);
        let ghost cur = sv.subrange(start as int, k + 1);
        if seg.len() == 0 || is_dot(seg) {
            assert(segment_component(seg@) is None);
            assert(segments_components(cur) == segments_components(prev));
        } else if is_dot_dot(seg) {
            let ghost before = out@;
            out.push(PathPart::ParentDir);
            assert(segment_component(seg@) == Some(Component::ParentDir));
            assert(segments_components(cur) == segments_components(prev).push(Component::ParentDir));
            assert(parts_view(out@) == parts_view(before).push(Component::ParentDir));
        } else {
            let name = sub_chars(seg, 0, seg.len());
            assert(name@ == seg@);
            let ghost before = out@;
            out.push(PathPart::Normal(name));
            assert(segment_component(seg@) == Some(Component::Normal(seg@)));
            assert(segments_components(cur) == segments_components(prev).push(
                Component::Normal(seg@),
            ));
            assert(parts_view(out@) == parts_view(before).push(Component::Normal(seg@)));
        }
        k += 1;
    }
    assert(sv.subrange(start as int, k as int) == (if start == 1 {
        split_on(s@, '/').drop_first()
    } else {
        split_on(s@, '/')
    }));
    out
}

/// The final component of a path when it is a name (`Path::file_name`).
pub open spec fn file_name(s: Seq<char>) -> Option<Seq<char>> {
    let cs = components(s);
    if cs.len() > 0 && cs.last() is Normal {
        Some(cs.last()->Normal_0)
    } else {
        None
    }
}

/// The extension of a file name: what follows its last `.`, unless the
/// name has no `.` or its only `.` is the first character.
pub open spec fn name_extension(name: Seq<char>) -> Option<Seq<char>> {
    if name == seq!['.', '.'] {
        None
    } else {
        match last_index(name, '.') {
            None => None,
            Some(i) => if i == 0 {
                None
            } else {
                Some(name.skip(i + 1))
            },
        }
    }
}

/// The extension of a path (`Path::extension`).
pub open spec fn extension(s: Seq<char>) -> Option<Seq<char>> {
    match file_name(s) {
        Some(n) => name_extension(n),
        None => None,
    }
}

/// `Path::file_name`.
pub fn path_file_name(s: &[char]) -> (r: Option<Vec<char>>)
    ensures
        match r {
            Some(n) => file_name(s@) == Some(n@),
            None => file_name(s@) is None,
        },
{
    let cs = path_components(s);
    let n = cs.len();
    if n == 0 {
        return None;
    }
    assert(parts_view(cs@).last() == cs@[n - 1].view());
    match &cs[n - 1] {
        PathPart::Normal(name) => {
            let r = sub_chars(name.as_slice(), 0, name.len());
            assert(r@ == name@);
            Some(r)
        },
        _ => None,
    }
}

/// `Path::extension`.
pub fn path_extension(s: &[char]) -> (r: Option<Vec<char>>)
    ensures
        match r {
            Some(e) => extension(s@) == Some(e@),
            None => extension(s@) is None,
        },
{
    let name = match path_file_name(s) {
        Some(n) => n,
        None => {
            return None;
        },
    };
    if is_dot_dot(name.as_slice()) {
        return None;
    }
    match rfind_char(name.as_slice(), '.') {
        None => None,
        Some(i) => {
            if i == 0 {
                None
            } else {
                let e = sub_chars(name.as_slice(), i + 1, name.len());
                assert(e@ == name@.skip(i + 1));
                Some(e)
            }
        },
    }
}

/// Whether some name component of a path begins with `.`.
pub open spec fn has_hidden_component(s: Seq<char>) -> bool {
    exists|i: int|
        0 <= i < components(s).len() && (#[trigger] components(s)[i] matches Component::Normal(n)
            && n.len() > 0 && n[0] == '.')
}

/// Whether some name component of a path begins with `.`.
pub fn path_is_hidden(s: &[char]) -> (b: bool)
    ensures
        b == has_hidden_component(s@),
{
    let cs = path_components(s);
    let mut i: usize = 0;
    while i < cs.len()
        invariant
            i <= cs@.len(),
            parts_view(cs@) == components(s@),
            forall|j: int|
                0 <= j < i ==> !(#[trigger] components(s@)[j] matches Component::Normal(n)
                    && n.len() > 0 && n[0] == '.'),
        decreases cs.len() - i,
    {
        assert(components(s@)[i as int] == cs@[i as int].view());
        match &cs[i] {
            PathPart::Normal(name) => {
                if name.len() > 0 && name[0] == '.' {
                    return true;
                }
            },
            _ => {},
        }
        i += 1;
    }
    false
}

} // verus!
