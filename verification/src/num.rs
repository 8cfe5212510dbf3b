//! Printing and parsing of integers in decimal and hexadecimal.
use vstd::prelude::*;
use crate::text::{push_char, push_chars};

verus! {

/// The ASCII digit for a value below 16 (lowercase letters above 9).
pub open spec fn digit_char(d: int) -> char {
    if d < 10 {
        (d + 48) as char
    } else {
        (d + 87) as char
    }
}

/// The decimal representation of `n`, without leading zeros.
pub open spec fn decimal(n: nat) -> Seq<char>
    decreases n,
{
    if n < 10 {
        seq![digit_char(n as int)]
    } else {
        decimal(n / 10).push(digit_char((n % 10) as int))
    }
}

/// The lowercase hexadecimal representation of `n` (`{:x}`).
pub open spec fn hex(n: nat) -> Seq<char>
    decreases n,
{
    if n < 16 {
        seq![digit_char(n as int)]
    } else {
        hex(n / 16).push(digit_char((n % 16) as int))
    }
}

/// `s` padded on the left with `'0'` to at least `width` characters
/// (`{:0width$}` for a non-negative number).
pub open spec fn zero_pad(s: Seq<char>, width: nat) -> Seq<char> {
    if s.len() >= width {
        s
    } else {
        Seq::new((width - s.len()) as nat, |i: int| '0') + s
    }
}

/// The decimal representation of `n` padded to `width` digits.
pub open spec fn padded(n: nat, width: nat) -> Seq<char> {
    zero_pad(decimal(n), width)
}

fn digit(d: u64) -> (c: char)
    requires
        d < 16,
    ensures
        c == digit_char(d as int),
{
    if d < 10 {
        let b = (d as u8) + 48;
        b as char
    } else {
        let b = (d as u8) + 87;
        b as char
    }
}

/// The decimal digits of `n`.
pub fn decimal_chars(n: u64) -> (r: Vec<char>)
    ensures
        r@ == decimal(n as nat),
    decreases n,
{
    if n < 10 {
        let mut r = Vec::new();
        r.push(digit(n));
        r
    } else {
        let mut r = decimal_chars(n / 10);
        r.push(digit(n % 10));
        r
    }
}

/// The lowercase hexadecimal digits of `n`.
pub fn hex_chars(n: u64) -> (r: Vec<char>)
    ensures
        r@ == hex(n as nat),
    decreases n,
{
    if n < 16 {
        let mut r = Vec::new();
        r.push(digit(n));
        r
    } else {
        let mut r = hex_chars(n / 16);
        r.push(digit(n % 16));
        r
    }
}

/// Appends the decimal representation of `n`.
pub fn push_decimal(s: &mut String, n: u64)
    ensures
        final(s)@ == old(s)@ + decimal(n as nat),
{
    let d = decimal_chars(n);
    push_chars(s, d.as_slice());
}

/// Appends the decimal representation of `n`, zero-padded to `width`.
pub fn push_padded(s: &mut String, n: u64, width: usize)
    ensures
        final(s)@ == old(s)@ + padded(n as nat, width as nat),
{
    let d = decimal_chars(n);
    let mut k = d.len();
    let ghost s0 = s@;
    while k < width
        invariant
            d.len() <= k <= width || (k == d.len() && k >= width),
            s@ == s0 + Seq::new((k - d@.len()) as nat, |i: int| '0'),
        decreases width - k,
    {
        push_char(s, '0');
        k += 1;
        assert(s@ == s0 + Seq::new((k - d@.len()) as nat, |i: int| '0'));
    }
    push_chars(s, d.as_slice());
    proof {
        if d@.len() >= width {
            assert(Seq::new((k - d@.len()) as nat, |i: int| '0') == Seq::<char>::empty());
        }
        assert(s@ == s0 + zero_pad(d@, width as nat));
    }
}

/// Appends the lowercase hexadecimal representation of `n`.
pub fn push_hex(s: &mut String, n: u64)
    ensures
        final(s)@ == old(s)@ + hex(n as nat),
{
    let d = hex_chars(n);
    push_chars(s, d.as_slice());
}

/// An ASCII decimal digit.
pub open spec fn is_digit(c: char) -> bool {
    48 <= (c as u32) && (c as u32) <= 57
}

pub open spec fn all_digits(s: Seq<char>) -> bool {
    forall|i: int| 0 <= i < s.len() ==> is_digit(#[trigger] s[i])
}

/// The value of a string of decimal digits.
pub open spec fn digits_value(s: Seq<char>) -> nat
    decreases s.len(),
{
    if s.len() == 0 {
        0
    } else {
        digits_value(s.drop_last()) * 10 + ((s.last() as u32) - 48) as nat
    }
}

/// What `str::parse` accepts for an unsigned integer type whose largest
/// value is `max`: an optional `+`, then one or more ASCII digits whose
/// value does not exceed `max`.
pub open spec fn parse_unsigned(s: Seq<char>, max: nat) -> Option<nat> {
    let d = if s.len() > 0 && s[0] == '+' {
        s.drop_first()
    } else {
        s
    };
    if d.len() > 0 && all_digits(d) && digits_value(d) <= max {
        Some(digits_value(d))
    } else {
        None
    }
}

/// What `str::parse` accepts for a signed integer type with range
/// `min..=max`: an optional `+` or `-`, then one or more ASCII digits,
/// the value within range.
pub open spec fn parse_signed(s: Seq<char>, min: int, max: nat) -> Option<int> {
    if s.len() > 0 && s[0] == '-' {
        let d = s.drop_first();
        if d.len() > 0 && all_digits(d) && -(digits_value(d) as int) >= min {
            Some(-(digits_value(d) as int))
        } else {
            None
        }
    } else {
        match parse_unsigned(s, max) {
            Some(v) => Some(v as int),
            None => None,
        }
    }
}

proof fn lemma_digits_value_take(s: Seq<char>, i: int)
    requires
        0 <= i < s.len(),
        all_digits(s),
    ensures
        digits_value(s.take(i + 1)) == digits_value(s.take(i)) * 10 + ((s[i] as u32) - 48) as nat,
{
    assert(s.take(i + 1).drop_last() == s.take(i));
}

proof fn lemma_digits_value_mono(s: Seq<char>, i: int)
    requires
        0 <= i <= s.len(),
        all_digits(s),
    ensures
        digits_value(s.take(i)) <= digits_value(s),
    decreases s.len() - i,
{
    if i < s.len() {
        lemma_digits_value_take(s, i);
        lemma_digits_value_mono(s, i + 1);
    } else {
        assert(s.take(i) == s);
    }
}

/// Parses the digits `v[a..]` as a number not above `max`.
fn parse_digits(v: &[char], a: usize, max: u64) -> (r: Option<u64>)
    requires
        a <= v@.len(),
    ensures
        ({
            let d = v@.skip(a as int);
            r == (if d.len() > 0 && all_digits(d) && digits_value(d) <= max {
                Some(digits_value(d) as u64)
            } else {
                None
            })
        }),
{
    let ghost d = v@.skip(a as int);
    if a == v.len() {
        return None;
    }
    let mut i = a;
    while i < v.len()
        invariant
            a <= i <= v@.len(),
            d == v@.skip(a as int),
            forall|j: int| 0 <= j < i - a ==> is_digit(#[trigger] d[j]),
        decreases v.len() - i,
    {
        let u = v[i] as u32;
        if !(48 <= u && u <= 57) {
            assert(!is_digit(d[i - a]));
            return None;
        }
        i += 1;
    }
    let mut acc: u64 = 0;
    let mut i = a;
    assert(d.take(0) == Seq::<char>::empty());
    while i < v.len()
        invariant
            a <= i <= v@.len(),
            d == v@.skip(a as int),
            all_digits(d),
            acc == digits_value(d.take(i - a)),
            acc <= max,
        decreases v.len() - i,
    {
        assert(d[i - a] == v@[i as int]);
        assert(is_digit(d[i - a]));
        let dv = (v[i] as u32 - 48) as u64;
        proof {
            lemma_digits_value_take(d, i - a);
        }
        if dv > max || acc > (max - dv) / 10 {
            proof {
                if dv <= max {
                    assert(acc * 10 + dv > max) by (nonlinear_arith)
                        requires
                            acc > (max - dv) / 10,
                            dv <= max,
                    {
                    }
                }
                lemma_digits_value_mono(d, i - a + 1);
            }
            return None;
        }
        proof {
            assert(acc * 10 + dv <= max) by (nonlinear_arith)
                requires
                    acc <= (max - dv) / 10,
                    dv <= 9,
                    max >= dv,
            {
            }
        }
        acc = acc * 10 + dv;
        i += 1;
    }
    assert(d.take(d.len() as int) == d);
    Some(acc)
}

/// `str::parse::<u64>` (and narrower unsigned types, through `max`).
pub fn parse_unsigned_chars(v: &[char], max: u64) -> (r: Option<u64>)
    ensures
        r == (match parse_unsigned(v@, max as nat) {
            Some(n) => Some(n as u64),
            None => None,
        }),
{
    if v.len() > 0 && v[0] == '+' {
        assert(v@.drop_first() == v@.skip(1));
        parse_digits(v, 1, max)
    } else {
        assert(v@.skip(0) == v@);
        parse_digits(v, 0, max)
    }
}

/// `str::parse::<u32>`.
pub fn parse_u32_chars(v: &[char]) -> (r: Option<u32>)
    ensures
        r == (match parse_unsigned(v@, u32::MAX as nat) {
            Some(n) => Some(n as u32),
            None => None,
        }),
{
    match parse_unsigned_chars(v, u32::MAX as u64) {
        Some(n) => Some(n as u32),
        None => None,
    }
}

/// `str::parse::<i32>`.
pub fn parse_i32_chars(v: &[char]) -> (r: Option<i32>)
    ensures
        r == (match parse_signed(v@, i32::MIN as int, i32::MAX as nat) {
            Some(n) => Some(n as i32),
            None => None,
        }),
{
    if v.len() > 0 && v[0] == '-' {
        assert(v@.drop_first() == v@.skip(1));
        match parse_digits(v, 1, 2147483648) {
            Some(n) => Some((0 - (n as i64)) as i32),
            None => None,
        }
    } else {
        match parse_unsigned_chars(v, i32::MAX as u64) {
            Some(n) => Some(n as i32),
            None => None,
        }
    }
}


/// A number read from two characters lies between -9 and 99.
pub proof fn lemma_two_digit_bound(s: Seq<char>)
    requires
        s.len() == 2,
    ensures
        parse_signed(s, i32::MIN as int, i32::MAX as nat) matches Some(v) ==> -9 <= v <= 99,
{
    reveal_with_fuel(digits_value, 3);
    if s[0] == '-' {
        let d = s.drop_first();
        assert(d.drop_last().len() == 0);
    } else if s[0] == '+' {
        let d = s.drop_first();
        assert(d.drop_last().len() == 0);
    } else {
        assert(s.drop_last().drop_last().len() == 0);
    }
}

/// A decimal representation reads back as its number.
pub proof fn lemma_decimal_reads_back(n: nat)
    ensures
        decimal(n).len() >= 1,
        all_digits(decimal(n)),
        digits_value(decimal(n)) == n,
    decreases n,
{
    if n >= 10 {
        lemma_decimal_reads_back(n / 10);
        let s = decimal(n);
        assert(s.drop_last() == decimal(n / 10));
        let d = n % 10;
        assert((digit_char(d as int) as u32) == d + 48);
        assert(s.last() == digit_char(d as int));
        assert(n == (n / 10) * 10 + d);
        assert(digits_value(s) == digits_value(s.drop_last()) * 10 + ((s.last() as u32) - 48) as nat);
    } else {
        let s = decimal(n);
        assert((digit_char(n as int) as u32) == n + 48);
        assert(s.drop_last().len() == 0);
        assert(digits_value(s) == digits_value(s.drop_last()) * 10 + ((s.last() as u32) - 48) as nat);
        assert forall|i: int| 0 <= i < s.len() implies is_digit(#[trigger] s[i]) by {
            if i < s.len() - 1 {
                assert(s[i] == decimal(n / 10)[i]);
            }
        }
    }
}

proof fn lemma_zeros_value(z: Seq<char>)
    requires
        forall|i: int| 0 <= i < z.len() ==> #[trigger] z[i] == '0',
    ensures
        digits_value(z) == 0,
    decreases z.len(),
{
    if z.len() > 0 {
        lemma_zeros_value(z.drop_last());
    }
}

/// Leading zeros do not change the value of a string of digits.
proof fn lemma_leading_zeros(z: Seq<char>, s: Seq<char>)
    requires
        forall|i: int| 0 <= i < z.len() ==> #[trigger] z[i] == '0',
    ensures
        digits_value(z + s) == digits_value(s),
    decreases s.len(),
{
    if s.len() == 0 {
        assert(z + s == z);
        lemma_zeros_value(z);
    } else {
        assert((z + s).drop_last() == z + s.drop_last());
        lemma_leading_zeros(z, s.drop_last());
    }
}

/// A zero-padded decimal representation reads back as its number.
pub proof fn lemma_padded_reads_back(n: nat, width: nat)
    ensures
        padded(n, width).len() >= 1,
        all_digits(padded(n, width)),
        digits_value(padded(n, width)) == n,
{
    lemma_decimal_reads_back(n);
    let s = decimal(n);
    if s.len() < width {
        let z = Seq::new((width - s.len()) as nat, |i: int| '0');
        lemma_leading_zeros(z, s);
        let p = z + s;
        assert forall|i: int| 0 <= i < p.len() implies is_digit(#[trigger] p[i]) by {
            if i >= z.len() {
                assert(p[i] == s[i - z.len()]);
            }
        }
    }
}

/// What `str::parse` reads from a string of digits.
pub proof fn lemma_parse_digits(s: Seq<char>, max: nat, min: int)
    requires
        s.len() >= 1,
        all_digits(s),
        digits_value(s) <= max,
    ensures
        parse_unsigned(s, max) == Some(digits_value(s)),
        parse_signed(s, min, max) == Some(digits_value(s) as int),
{
    assert(is_digit(s[0]));
}

} // verus!
