//! The security headers added to every response: `X-Content-Type-Options`,
//! `X-Frame-Options` and `X-XSS-Protection`, each unless the response
//! already has it. Header names are compared without regard to ASCII case,
//! as HTTP header names are.
use vstd::prelude::*;
use crate::static_file::header_views;
use crate::text::{ascii_lower_chars, ascii_lower_seq, chars_of, chars_eq, owned};

verus! {

/// Whether some header line has the (lowercase) name `name`.
pub open spec fn has_header(hs: Seq<(Seq<char>, Seq<char>)>, name: Seq<char>) -> bool {
    exists|i: int| 0 <= i < hs.len() && ascii_lower_seq(#[trigger] hs[i].0) == name
}

/// The header lines with `name: value` added when no line has that name.
pub open spec fn with_default(
    hs: Seq<(Seq<char>, Seq<char>)>,
    name: Seq<char>,
    value: Seq<char>,
) -> Seq<(Seq<char>, Seq<char>)> {
    if has_header(hs, name) {
        hs
    } else {
        hs.push((name, value))
    }
}

/// The header lines of a response once the security headers are added.
pub open spec fn secured(hs: Seq<(Seq<char>, Seq<char>)>) -> Seq<(Seq<char>, Seq<char>)> {
    with_default(
        with_default(
            with_default(hs, "x-content-type-options"@, "nosniff"@),
            "x-frame-options"@,
            "DENY"@,
        ),
        "x-xss-protection"@,
        "1; mode=block"@,
    )
}

fn has_header_named(hs: &Vec<(String, String)>, name: &str) -> (b: bool)
    ensures
        b == has_header(header_views(hs@), name@),
{
    let n = chars_of(name);
    let mut i: usize = 0;
    while i < hs.len()
        invariant
            i <= hs@.len(),
            n@ == name@,
            forall|j: int|
                0 <= j < i ==> ascii_lower_seq(#[trigger] header_views(hs@)[j].0) != name@,
        decreases hs.len() - i,
    {
        let k = chars_of(hs[i].0.as_str());
        let lower = ascii_lower_chars(k.as_slice());
        assert(header_views(hs@)[i as int].0 == hs@[i as int].0@);
        if chars_eq(lower.as_slice(), n.as_slice()) {
            return true;
        }
        i += 1;
    }
    false
}

fn add_default(hs: &mut Vec<(String, String)>, name: &str, value: &str)
    ensures
        header_views(final(hs)@) == with_default(header_views(old(hs)@), name@, value@),
{
    if !has_header_named(hs, name) {
        let ghost before = hs@;
        hs.push((owned(name), owned(value)));
        assert(header_views(hs@) =~= header_views(before).push((name@, value@)));
    }
}

/// `add_security_headers`: adds `x-content-type-options: nosniff`,
/// `x-frame-options: DENY` and `x-xss-protection: 1; mode=block` to a
/// response's header lines, each unless a line of that name is there.
pub fn add_security_headers(headers: &mut Vec<(String, String)>)
    ensures
        header_views(final(headers)@) == secured(header_views(old(headers)@)),
{
    add_default(headers, "x-content-type-options", "nosniff");
    add_default(headers, "x-frame-options", "DENY");
    add_default(headers, "x-xss-protection", "1; mode=block");
}

proof fn lemma_lower_names()
    ensures
        ascii_lower_seq("x-content-type-options"@) == "x-content-type-options"@,
        ascii_lower_seq("x-frame-options"@) == "x-frame-options"@,
        ascii_lower_seq("x-xss-protection"@) == "x-xss-protection"@,
{
    reveal_strlit("x-content-type-options");
    reveal_strlit("x-frame-options");
    reveal_strlit("x-xss-protection");
    assert(ascii_lower_seq("x-content-type-options"@) =~= "x-content-type-options"@);
    assert(ascii_lower_seq("x-frame-options"@) =~= "x-frame-options"@);
    assert(ascii_lower_seq("x-xss-protection"@) =~= "x-xss-protection"@);
}

proof fn lemma_with_default_has(hs: Seq<(Seq<char>, Seq<char>)>, name: Seq<char>, value: Seq<char>)
    requires
        ascii_lower_seq(name) == name,
    ensures
        has_header(with_default(hs, name, value), name),
        forall|other: Seq<char>| has_header(hs, other) ==> has_header(with_default(hs, name, value), other),
        hs.is_prefix_of(with_default(hs, name, value)),
{
    if !has_header(hs, name) {
        let r = hs.push((name, value));
        assert(r[hs.len() as int].0 == name);
        assert forall|other: Seq<char>| has_header(hs, other) implies has_header(r, other) by {
            let i = choose|i: int| 0 <= i < hs.len() && ascii_lower_seq(#[trigger] hs[i].0) == other;
            assert(r[i] == hs[i]);
        }
    }
}

/// Adding the security headers twice adds nothing the second time.
pub proof fn lemma_secured_idempotent(hs: Seq<(Seq<char>, Seq<char>)>)
    ensures
        secured(secured(hs)) == secured(hs),
{
    lemma_lower_names();
    let a = with_default(hs, "x-content-type-options"@, "nosniff"@);
    lemma_with_default_has(hs, "x-content-type-options"@, "nosniff"@);
    let b = with_default(a, "x-frame-options"@, "DENY"@);
    lemma_with_default_has(a, "x-frame-options"@, "DENY"@);
    let c = with_default(b, "x-xss-protection"@, "1; mode=block"@);
    lemma_with_default_has(b, "x-xss-protection"@, "1; mode=block"@);
    assert(has_header(c, "x-content-type-options"@));
    assert(has_header(c, "x-frame-options"@));
    assert(has_header(c, "x-xss-protection"@));
}

/// The security headers never remove or change a header line: the lines
/// of the response come first, as they were.
pub proof fn lemma_secured_keeps_lines(hs: Seq<(Seq<char>, Seq<char>)>)
    ensures
        hs.is_prefix_of(secured(hs)),
        has_header(secured(hs), "x-content-type-options"@),
        has_header(secured(hs), "x-frame-options"@),
        has_header(secured(hs), "x-xss-protection"@),
{
    lemma_lower_names();
    let a = with_default(hs, "x-content-type-options"@, "nosniff"@);
    lemma_with_default_has(hs, "x-content-type-options"@, "nosniff"@);
    let b = with_default(a, "x-frame-options"@, "DENY"@);
    lemma_with_default_has(a, "x-frame-options"@, "DENY"@);
    lemma_with_default_has(b, "x-xss-protection"@, "1; mode=block"@);
}

} // verus!
