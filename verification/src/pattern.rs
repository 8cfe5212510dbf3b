//! Regular expressions, through the `regex` crate, and the text
//! transformations the server applies to patterns before compiling them.
use vstd::prelude::*;
use crate::text::{chars_of, has_prefix_at, push_char, push_chars};

verus! {

#[verifier::external_type_specification]
#[verifier::external_body]
pub struct ExRegex(regex::Regex);

#[verifier::external_type_specification]
#[verifier::external_body]
pub struct ExRegexError(regex::Error);

/// Whether `regex::Regex::new` accepts a pattern.
pub uninterp spec fn regex_valid(pattern: Seq<char>) -> bool;

/// The pattern a compiled regex was built from (what `Regex::as_str`
/// returns).
pub uninterp spec fn regex_source(re: regex::Regex) -> Seq<char>;

/// Whether the regex compiled from `pattern` matches somewhere in `text`
/// (`Regex::is_match`).
pub uninterp spec fn regex_matches(pattern: Seq<char>, text: Seq<char>) -> bool;

/// `regex::Regex::new`: succeeds exactly on the patterns `regex_valid`
/// names, and the regex it builds keeps its pattern, as `Regex::as_str`
/// documents.
#[verifier::external_body]
pub(crate) fn regex_new(pattern: &str) -> (r: Result<regex::Regex, regex::Error>)
    ensures
        (r is Ok) == regex_valid(pattern@),
        r matches Ok(re) ==> regex_source(re) == pattern@,
{
    regex::Regex::new(pattern)
}

/// `Regex::is_match`; the contract claims only that the answer is
/// `regex_matches` for the regex's pattern.
#[verifier::external_body]
pub(crate) fn regex_is_match(re: &regex::Regex, text: &str) -> (b: bool)
    ensures
        b == regex_matches(regex_source(*re), text@),
{
    re.is_match(text)
}

/// The characters that have a meaning in a regex
/// (`regex_syntax::is_meta_character`).
pub open spec fn is_meta(c: char) -> bool {
    c == '\\' || c == '.' || c == '+' || c == '*' || c == '?' || c == '(' || c == ')' || c == '|'
        || c == '[' || c == ']' || c == '{' || c == '}' || c == '^' || c == '$' || c == '#' || c
        == '&' || c == '-' || c == '~'
}

/// `text` with a backslash before every meta character (`regex::escape`).
pub open spec fn regex_escaped(text: Seq<char>) -> Seq<char>
    decreases text.len(),
{
    if text.len() == 0 {
        seq![]
    } else {
        regex_escaped(text.drop_last()) + (if is_meta(text.last()) {
            seq!['\\', text.last()]
        } else {
            seq![text.last()]
        })
    }
}

/// `regex::escape`; the contract states its whole behaviour, as the
/// crate's source shows it: a backslash before each meta character.
#[verifier::external_body]
pub(crate) fn regex_escape(text: &str) -> (r: String)
    ensures
        r@ == regex_escaped(text@),
{
    regex::escape(text)
}

/// `s` with every non-overlapping occurrence of `from`, scanning from the
/// left, replaced by `to` (`str::replace`, for a non-empty `from`).
pub open spec fn replace_all(s: Seq<char>, from: Seq<char>, to: Seq<char>) -> Seq<char>
    recommends
        from.len() > 0,
    decreases s.len(),
{
    if s.len() == 0 {
        seq![]
    } else if from.len() > 0 && from.is_prefix_of(s) {
        to + replace_all(s.skip(from.len() as int), from, to)
    } else {
        seq![s[0]] + replace_all(s.drop_first(), from, to)
    }
}

/// `str::replace` with a non-empty pattern.
pub fn replace_chars(s: &[char], from: &[char], to: &[char]) -> (r: Vec<char>)
    requires
        from@.len() > 0,
    ensures
        r@ == replace_all(s@, from@, to@),
{
    let mut out: Vec<char> = Vec::new();
    let mut i: usize = 0;
    let n = s.len();
    assert(s@.skip(0) == s@);
    while i < n
        invariant
            i <= n,
            n == s@.len(),
            from@.len() > 0,
            out@ + replace_all(s@.skip(i as int), from@, to@) == replace_all(s@, from@, to@),
        decreases n - i,
    {
        let ghost rest = s@.skip(i as int);
        if has_prefix_at(s, i, from) {
            let ghost before = out@;
            let mut k: usize = 0;
            while k < to.len()
                invariant
                    k <= to@.len(),
                    out@ == before + to@.take(k as int),
                decreases to.len() - k,
            {
                out.push(to[k]);
                k += 1;
                assert(out@ == before + to@.take(k as int));
            }
            assert(to@.take(to@.len() as int) == to@);
            assert(rest.skip(from@.len() as int) == s@.skip(i + from@.len()));
            assert(before + (to@ + replace_all(s@.skip(i + from@.len()), from@, to@)) == out@
                + replace_all(s@.skip(i + from@.len()), from@, to@));
            i = i + from.len();
        } else {
            let ghost before = out@;
            out.push(s[i]);
            assert(rest.drop_first() == s@.skip(i + 1));
            assert(before + (seq![rest[0]] + replace_all(s@.skip(i + 1), from@, to@)) == out@
                + replace_all(s@.skip(i + 1), from@, to@));
            i = i + 1;
        }
    }
    assert(s@.skip(n as int) == Seq::<char>::empty());
    assert(out@ + Seq::<char>::empty() == out@);
    out
}

/// The regex a wildcard pattern stands for: the whole text must match,
/// `*` stands for any run of characters and `?` for any one character;
/// every other character stands for itself.
pub open spec fn wildcard_regex(pattern: Seq<char>) -> Seq<char> {
    seq!['^'] + replace_all(
        replace_all(regex_escaped(pattern), seq!['\\', '*'], seq!['.', '*']),
        seq!['\\', '?'],
        seq!['.'],
    ) + seq!['$']
}

/// The regex text for a wildcard pattern.
pub fn wildcard_to_regex(pattern: &str) -> (r: String)
    ensures
        r@ == wildcard_regex(pattern@),
{
    let escaped = regex_escape(pattern);
    let e = chars_of(escaped.as_str());
    let star_from: [char; 2] = ['\\', '*'];
    let star_to: [char; 2] = ['.', '*'];
    let q_from: [char; 2] = ['\\', '?'];
    let q_to: [char; 1] = ['.'];
    assert(star_from@ == seq!['\\', '*']);
    assert(star_to@ == seq!['.', '*']);
    assert(q_from@ == seq!['\\', '?']);
    assert(q_to@ == seq!['.']);
    let a = replace_chars(e.as_slice(), &star_from, &star_to);
    let b = replace_chars(a.as_slice(), &q_from, &q_to);
    let mut r = String::new();
    push_char(&mut r, '^');
    push_chars(&mut r, b.as_slice());
    push_char(&mut r, '$');
    r
}

/// A host-name pattern with `*` and `?` wildcards, with the regex it
/// compiles to.
#[derive(Debug)]
pub struct WildcardPattern {
    pattern: String,
    regex: regex::Regex,
}

/// A wildcard pattern whose regex `regex::Regex::new` rejects.
#[derive(Clone, Copy, Debug, PartialEq, Eq)]
pub struct InvalidPattern;

impl WildcardPattern {
    #[verifier::type_invariant]
    spec fn well_formed(self) -> bool {
        &&& regex_source(self.regex) == wildcard_regex(self.pattern@)
        &&& regex_valid(regex_source(self.regex))
    }

    /// The pattern text.
    pub closed spec fn text(self) -> Seq<char> {
        self.pattern@
    }

    /// Compiles a wildcard pattern; fails exactly when its regex does not
    /// compile.
    pub fn new(pattern: &str) -> (r: Result<WildcardPattern, InvalidPattern>)
        ensures
            match r {
                Ok(p) => p.text() == pattern@ && regex_valid(wildcard_regex(pattern@)),
                Err(_) => !regex_valid(wildcard_regex(pattern@)),
            },
    {
        let source = wildcard_to_regex(pattern);
        match regex_new(source.as_str()) {
            Ok(regex) => Ok(WildcardPattern { pattern: String::from_str(pattern), regex }),
            Err(_) => Err(InvalidPattern),
        }
    }

    /// Whether the whole of `domain` matches the pattern.
    pub fn matches(&self, domain: &str) -> (b: bool)
        ensures
            b == regex_matches(wildcard_regex(self.text()), domain@),
    {
        proof {
            use_type_invariant(self);
        }
        regex_is_match(&self.regex, domain)
    }

    /// The pattern text.
    pub fn pattern(&self) -> (s: &str)
        ensures
            s@ == self.text(),
    {
        self.pattern.as_str()
    }
}

} // verus!
