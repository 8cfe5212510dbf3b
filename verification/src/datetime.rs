//! The proleptic Gregorian calendar as the server uses it: the dates in
//! directory listings (RFC 3339), the `Last-Modified` header (IMF-fixdate)
//! and the three date formats an `If-Modified-Since` header may use.
use vstd::prelude::*;
use crate::num::{
    all_digits, is_digit, lemma_padded_reads_back, lemma_parse_digits, padded, decimal,
    parse_signed, parse_unsigned, parse_i32_chars, parse_u32_chars, push_decimal, push_padded,
};
use crate::text::{
    ascii_lower_seq, ascii_lower_chars, chars_of, is_white_space, lemma_split_cons,
    lemma_split_single, lemma_trim_unchanged, lemma_words_cons, lemma_words_single,
    no_white_space, push_char, split_chars, split_on, split_whitespace_chars, trim, trim_chars,
    views, words,
};

verus! {

/// Leap years of the Gregorian calendar.
pub open spec fn leap(y: int) -> bool {
    y % 4 == 0 && (y % 100 != 0 || y % 400 == 0)
}

/// Days in year `y`.
pub open spec fn year_len(y: int) -> int {
    if leap(y) {
        366
    } else {
        365
    }
}

/// Days in month `m` (0 = January) of a leap or common year.
pub open spec fn month_len(is_leap: bool, m: int) -> int {
    if m == 1 {
        if is_leap {
            29
        } else {
            28
        }
    } else if m == 3 || m == 5 || m == 8 || m == 10 {
        30
    } else {
        31
    }
}

/// Counting `d` days forward from January 1st of year `y`: the year
/// reached and the day within it (0-based).
pub open spec fn year_and_day(y: int, d: int) -> (int, int)
    decreases d,
{
    if d < year_len(y) {
        (y, d)
    } else {
        year_and_day(y + 1, d - year_len(y))
    }
}

/// Counting `d` days forward from the first day of month `m`: the month
/// reached (0-based, 11 at most when `d` is within the year) and the day
/// within it (0-based).
pub open spec fn month_and_day(is_leap: bool, m: int, d: int) -> (int, int)
    decreases 12 - m,
{
    if m < 12 && d >= month_len(is_leap, m) {
        month_and_day(is_leap, m + 1, d - month_len(is_leap, m))
    } else {
        (m, d)
    }
}

/// Days in a leap or common year.
pub open spec fn leap_len(is_leap: bool) -> int {
    if is_leap {
        366
    } else {
        365
    }
}

/// Days from 1970-01-01 to January 1st of year `y` (0 for earlier years).
pub open spec fn days_before_year(y: int) -> int
    decreases y - 1970,
{
    if y <= 1970 {
        0
    } else {
        days_before_year(y - 1) + year_len(y - 1)
    }
}

/// Days from January 1st to the first day of month `m` (0-based).
pub open spec fn days_before_month(is_leap: bool, m: int) -> int
    decreases m,
{
    if m <= 0 {
        0
    } else {
        days_before_month(is_leap, m - 1) + month_len(is_leap, m - 1)
    }
}

/// The civil date of day number `days` (days since 1970-01-01):
/// year, 0-based month and 0-based day of the month.
pub open spec fn civil(days: int) -> (int, int, int) {
    let (y, doy) = year_and_day(1970, days);
    let (m, d) = month_and_day(leap(y), 0, doy);
    (y, m, d)
}

/// `is_leap_year`.
pub fn is_leap_year(year: i32) -> (b: bool)
    ensures
        b == leap(year as int),
{
    year % 4 == 0 && (year % 100 != 0 || year % 400 == 0)
}

fn month_days(is_leap: bool, m: usize) -> (n: i64)
    requires
        m < 12,
    ensures
        n == month_len(is_leap, m as int),
{
    if m == 1 {
        if is_leap {
            29
        } else {
            28
        }
    } else if m == 3 || m == 5 || m == 8 || m == 10 {
        30
    } else {
        31
    }
}

proof fn lemma_year_and_day_ge(y: int, d: int)
    ensures
        year_and_day(y, d).0 >= y,
        d >= 0 ==> 0 <= year_and_day(y, d).1 < year_len(year_and_day(y, d).0),
    decreases d,
{
    if d >= year_len(y) {
        lemma_year_and_day_ge(y + 1, d - year_len(y));
    }
}

proof fn lemma_month_sum(is_leap: bool, m: int)
    requires
        0 <= m <= 12,
    ensures
        days_before_month(is_leap, m) <= leap_len(is_leap),
        m == 12 ==> days_before_month(is_leap, m) == leap_len(is_leap),
    decreases m,
{
    if m > 0 {
        lemma_month_sum(is_leap, m - 1);
        reveal_with_fuel(days_before_month, 13);
    }
}

proof fn lemma_month_and_day(is_leap: bool, m: int, d: int)
    requires
        0 <= m <= 12,
        0 <= d,
        days_before_month(is_leap, m) + d < leap_len(is_leap),
    ensures
        month_and_day(is_leap, m, d).0 < 12,
        0 <= month_and_day(is_leap, m, d).1 < month_len(is_leap, month_and_day(is_leap, m, d).0),
    decreases 12 - m,
{
    lemma_month_sum(is_leap, 12);
    if m == 12 {
        assert(false);
    } else if d >= month_len(is_leap, m) {
        assert(days_before_month(is_leap, m + 1) == days_before_month(is_leap, m) + month_len(
            is_leap,
            m,
        ));
        lemma_month_and_day(is_leap, m + 1, d - month_len(is_leap, m));
    }
}

/// Days that the year loop may count without overflowing the `i32` year:
/// the dates handled are those whose year fits in an `i32`.
pub open spec fn year_fits(days: int) -> bool {
    year_and_day(1970, days).0 <= i32::MAX
}

/// The civil date of a day number, computed by counting whole years and
/// then whole months.
fn civil_from_days(days: i64) -> (r: (i32, usize, i64))
    requires
        days >= 0,
        year_fits(days as int),
    ensures
        r.0 as int == civil(days as int).0,
        r.1 as int == civil(days as int).1,
        r.2 as int == civil(days as int).2,
        r.0 >= 1970,
        r.1 < 12,
        0 <= r.2 < month_len(leap(r.0 as int), r.1 as int),
{
    let mut year: i32 = 1970;
    let mut day_of_year: i64 = days;
    proof {
        lemma_year_and_day_ge(1970, days as int);
    }
    loop
        invariant
            day_of_year >= 0,
            year >= 1970,
            year_and_day(year as int, day_of_year as int) == year_and_day(1970, days as int),
            year_and_day(1970, days as int).0 <= i32::MAX,
        ensures
            day_of_year >= 0,
            year >= 1970,
            year_and_day(year as int, day_of_year as int) == year_and_day(1970, days as int),
            day_of_year < year_len(year as int),
        decreases day_of_year,
    {
        let days_in_year: i64 = if is_leap_year(year) {
            366
        } else {
            365
        };
        if day_of_year < days_in_year {
            break ;
        }
        proof {
            lemma_year_and_day_ge(year + 1, day_of_year - days_in_year);
        }
        day_of_year -= days_in_year;
        year += 1;
    }
    let is_leap = is_leap_year(year);
    let mut month: usize = 0;
    let mut day: i64 = day_of_year;
    proof {
        reveal_with_fuel(days_before_month, 1);
        lemma_year_and_day_ge(1970, days as int);
        lemma_month_and_day(is_leap, 0, day_of_year as int);
    }
    while month < 12 && day >= month_days(is_leap, month)
        invariant
            month <= 12,
            day >= 0,
            days_before_month(is_leap, month as int) + day == day_of_year,
            day_of_year < leap_len(is_leap),
            is_leap == leap(year as int),
            month_and_day(is_leap, month as int, day as int) == month_and_day(
                is_leap,
                0,
                day_of_year as int,
            ),
        decreases 12 - month,
    {
        day -= month_days(is_leap, month);
        month += 1;
    }
    proof {
        lemma_month_and_day(is_leap, month as int, day as int);
    }
    (year, month, day)
}

/// `{:02}:{:02}:{:02}` of the time of day of `secs`.
pub open spec fn clock(secs: nat) -> Seq<char> {
    let t = secs % 86400;
    padded(t / 3600, 2) + seq![':'] + padded((t % 3600) / 60, 2) + seq![':'] + padded(t % 60, 2)
}

/// The RFC 3339 text of an instant `secs` seconds after the epoch, as
/// directory listings show it: `YYYY-MM-DDThh:mm:ssZ`.
pub open spec fn rfc3339(secs: nat) -> Seq<char> {
    let (y, m, d) = civil(secs as int / 86400);
    padded(y as nat, 4) + seq!['-'] + padded((m + 1) as nat, 2) + seq!['-'] + padded(
        (d + 1) as nat,
        2,
    ) + seq!['T'] + clock(secs) + seq!['Z']
}

/// Instants whose date this module can print: the seconds fit an `i64`
/// (as a `SystemTime` on this platform does) and the year fits an `i32`.
pub open spec fn printable(secs: nat) -> bool {
    secs <= i64::MAX && year_fits(secs as int / 86400)
}

/// The leap days of years up to `n` counted from year 0:
/// `n / 4 - n / 100 + n / 400`.
pub open spec fn leap_count(n: int) -> int {
    n / 4 - n / 100 + n / 400
}

proof fn lemma_leap_count_step(y: int)
    requires
        y >= 1970,
    ensures
        leap_count(y) - leap_count(y - 1) == (if leap(y) {
            1int
        } else {
            0int
        }),
{
    assert(leap_count(y) - leap_count(y - 1) == (if leap(y) {
        1int
    } else {
        0int
    })) by (nonlinear_arith)
        requires
            y >= 1970,
    ;
}

/// `days_before_year` in closed form.
proof fn lemma_days_before_year_closed(y: int)
    requires
        y >= 1970,
    ensures
        days_before_year(y) == 365 * (y - 1970) + leap_count(y - 1) - leap_count(1969),
    decreases y - 1970,
{
    if y > 1970 {
        lemma_days_before_year_closed(y - 1);
        lemma_leap_count_step(y - 1);
    }
}

proof fn lemma_days_before_year_mono(a: int, b: int)
    requires
        1970 <= a <= b,
    ensures
        days_before_year(a) <= days_before_year(b),
    decreases b - a,
{
    if a < b {
        lemma_days_before_year_mono(a, b - 1);
    }
}

/// Counting forward from January 1st of `y`: the day reached is the day
/// number of the year reached plus the day within it.
proof fn lemma_year_and_day_sum(y: int, d: int)
    requires
        y >= 1970,
        d >= 0,
    ensures
        days_before_year(year_and_day(y, d).0) + year_and_day(y, d).1 == days_before_year(y) + d,
        year_and_day(y, d).0 >= y,
        0 <= year_and_day(y, d).1 < year_len(year_and_day(y, d).0),
    decreases d,
{
    if d >= year_len(y) {
        lemma_year_and_day_sum(y + 1, d - year_len(y));
    }
}

/// Whether the date of an instant can be printed (`printable`).
pub fn is_printable(secs: u64) -> (b: bool)
    ensures
        b == printable(secs as nat),
{
    let limit: u64 = 784351576777;
    proof {
        let days = secs as int / 86400;
        let top: int = i32::MAX as int + 1;
        lemma_days_before_year_closed(top);
        assert(days_before_year(top) == limit);
        lemma_year_and_day_sum(1970, days);
        let y = year_and_day(1970, days).0;
        if y <= i32::MAX {
            lemma_days_before_year_mono(y + 1, top);
            assert(days < limit);
        } else {
            lemma_days_before_year_mono(top, y);
            assert(days >= limit);
        }
    }
    secs <= 9223372036854775807u64 && secs / 86400 < limit
}

fn push_clock(s: &mut String, secs: u64)
    ensures
        final(s)@ == old(s)@ + clock(secs as nat),
{
    let t = secs % 86400;
    push_padded(s, t / 3600, 2);
    push_char(s, ':');
    push_padded(s, (t % 3600) / 60, 2);
    push_char(s, ':');
    push_padded(s, t % 60, 2);
}

/// `format_datetime_rfc3339`: the RFC 3339 text of a modification time
/// given in seconds since the epoch.
pub fn format_datetime_rfc3339(secs: u64) -> (r: String)
    requires
        printable(secs as nat),
    ensures
        r@ == rfc3339(secs as nat),
{
    let days = (secs / 86400) as i64;
    let (year, month, day) = civil_from_days(days);
    let mut s = String::new();
    push_padded(&mut s, year as u64, 4);
    push_char(&mut s, '-');
    push_padded(&mut s, (month + 1) as u64, 2);
    push_char(&mut s, '-');
    push_padded(&mut s, (day + 1) as u64, 2);
    push_char(&mut s, 'T');
    push_clock(&mut s, secs);
    push_char(&mut s, 'Z');
    s
}

/// Three-letter English day names, Sunday first.
pub open spec fn weekday_name(w: int) -> Seq<char> {
    if w == 0 {
        seq!['S', 'u', 'n']
    } else if w == 1 {
        seq!['M', 'o', 'n']
    } else if w == 2 {
        seq!['T', 'u', 'e']
    } else if w == 3 {
        seq!['W', 'e', 'd']
    } else if w == 4 {
        seq!['T', 'h', 'u']
    } else if w == 5 {
        seq!['F', 'r', 'i']
    } else {
        seq!['S', 'a', 't']
    }
}

/// Three-letter English month names, January first.
pub open spec fn month_name(m: int) -> Seq<char> {
    if m == 0 {
        seq!['J', 'a', 'n']
    } else if m == 1 {
        seq!['F', 'e', 'b']
    } else if m == 2 {
        seq!['M', 'a', 'r']
    } else if m == 3 {
        seq!['A', 'p', 'r']
    } else if m == 4 {
        seq!['M', 'a', 'y']
    } else if m == 5 {
        seq!['J', 'u', 'n']
    } else if m == 6 {
        seq!['J', 'u', 'l']
    } else if m == 7 {
        seq!['A', 'u', 'g']
    } else if m == 8 {
        seq!['S', 'e', 'p']
    } else if m == 9 {
        seq!['O', 'c', 't']
    } else if m == 10 {
        seq!['N', 'o', 'v']
    } else {
        seq!['D', 'e', 'c']
    }
}

fn push3(s: &mut String, a: char, b: char, c: char)
    ensures
        final(s)@ == old(s)@ + seq![a, b, c],
{
    push_char(s, a);
    push_char(s, b);
    push_char(s, c);
}

fn push_weekday(s: &mut String, w: u64)
    requires
        w < 7,
    ensures
        final(s)@ == old(s)@ + weekday_name(w as int),
{
    if w == 0 {
        push3(s, 'S', 'u', 'n')
    } else if w == 1 {
        push3(s, 'M', 'o', 'n')
    } else if w == 2 {
        push3(s, 'T', 'u', 'e')
    } else if w == 3 {
        push3(s, 'W', 'e', 'd')
    } else if w == 4 {
        push3(s, 'T', 'h', 'u')
    } else if w == 5 {
        push3(s, 'F', 'r', 'i')
    } else {
        push3(s, 'S', 'a', 't')
    }
}

fn push_month(s: &mut String, m: usize)
    requires
        m < 12,
    ensures
        final(s)@ == old(s)@ + month_name(m as int),
{
    if m == 0 {
        push3(s, 'J', 'a', 'n')
    } else if m == 1 {
        push3(s, 'F', 'e', 'b')
    } else if m == 2 {
        push3(s, 'M', 'a', 'r')
    } else if m == 3 {
        push3(s, 'A', 'p', 'r')
    } else if m == 4 {
        push3(s, 'M', 'a', 'y')
    } else if m == 5 {
        push3(s, 'J', 'u', 'n')
    } else if m == 6 {
        push3(s, 'J', 'u', 'l')
    } else if m == 7 {
        push3(s, 'A', 'u', 'g')
    } else if m == 8 {
        push3(s, 'S', 'e', 'p')
    } else if m == 9 {
        push3(s, 'O', 'c', 't')
    } else if m == 10 {
        push3(s, 'N', 'o', 'v')
    } else {
        push3(s, 'D', 'e', 'c')
    }
}

/// The IMF-fixdate text of an instant (`Sun, 06 Nov 1994 08:49:37 GMT`),
/// as sent in `Last-Modified`.
pub open spec fn imf_fixdate(secs: nat) -> Seq<char> {
    let days = secs as int / 86400;
    let (y, m, d) = civil(days);
    weekday_name((days + 4) % 7) + seq![',', ' '] + padded((d + 1) as nat, 2) + seq![' ']
        + month_name(m) + seq![' '] + decimal(y as nat) + seq![' '] + clock(secs) + seq![
        ' ',
        'G',
        'M',
        'T',
    ]
}

/// `http_date`: the IMF-fixdate text of a time given in seconds since the
/// epoch.
pub fn http_date(secs: u64) -> (r: String)
    requires
        printable(secs as nat),
    ensures
        r@ == imf_fixdate(secs as nat),
{
    let days = (secs / 86400) as i64;
    let weekday = ((days + 4) % 7 + 7) % 7;
    let (year, month, day) = civil_from_days(days);
    let mut s = String::new();
    push_weekday(&mut s, weekday as u64);
    push_char(&mut s, ',');
    push_char(&mut s, ' ');
    push_padded(&mut s, (day + 1) as u64, 2);
    push_char(&mut s, ' ');
    push_month(&mut s, month);
    push_char(&mut s, ' ');
    push_decimal(&mut s, year as u64);
    push_char(&mut s, ' ');
    push_clock(&mut s, secs);
    push_char(&mut s, ' ');
    push3(&mut s, 'G', 'M', 'T');
    s
}


// ---------------------------------------------------------------------
// Reading dates
// ---------------------------------------------------------------------

/// The number (1 = January) of an English three-letter month name, in any
/// ASCII case.
pub open spec fn month_number(name: Seq<char>) -> Option<u32> {
    let l = ascii_lower_seq(name);
    if l == seq!['j', 'a', 'n'] {
        Some(1u32)
    } else if l == seq!['f', 'e', 'b'] {
        Some(2u32)
    } else if l == seq!['m', 'a', 'r'] {
        Some(3u32)
    } else if l == seq!['a', 'p', 'r'] {
        Some(4u32)
    } else if l == seq!['m', 'a', 'y'] {
        Some(5u32)
    } else if l == seq!['j', 'u', 'n'] {
        Some(6u32)
    } else if l == seq!['j', 'u', 'l'] {
        Some(7u32)
    } else if l == seq!['a', 'u', 'g'] {
        Some(8u32)
    } else if l == seq!['s', 'e', 'p'] {
        Some(9u32)
    } else if l == seq!['o', 'c', 't'] {
        Some(10u32)
    } else if l == seq!['n', 'o', 'v'] {
        Some(11u32)
    } else if l == seq!['d', 'e', 'c'] {
        Some(12u32)
    } else {
        None
    }
}

fn is3(v: &[char], a: char, b: char, c: char) -> (r: bool)
    ensures
        r == (v@ == seq![a, b, c]),
{
    if v.len() == 3 && v[0] == a && v[1] == b && v[2] == c {
        assert(v@ == seq![a, b, c]);
        true
    } else {
        false
    }
}

/// `month_to_num`.
pub fn month_to_num(month: &[char]) -> (r: Option<u32>)
    ensures
        r == month_number(month@),
{
    let l = ascii_lower_chars(month);
    let l = l.as_slice();
    if is3(l, 'j', 'a', 'n') {
        Some(1)
    } else if is3(l, 'f', 'e', 'b') {
        Some(2)
    } else if is3(l, 'm', 'a', 'r') {
        Some(3)
    } else if is3(l, 'a', 'p', 'r') {
        Some(4)
    } else if is3(l, 'm', 'a', 'y') {
        Some(5)
    } else if is3(l, 'j', 'u', 'n') {
        Some(6)
    } else if is3(l, 'j', 'u', 'l') {
        Some(7)
    } else if is3(l, 'a', 'u', 'g') {
        Some(8)
    } else if is3(l, 's', 'e', 'p') {
        Some(9)
    } else if is3(l, 'o', 'c', 't') {
        Some(10)
    } else if is3(l, 'n', 'o', 'v') {
        Some(11)
    } else if is3(l, 'd', 'e', 'c') {
        Some(12)
    } else {
        None
    }
}

/// Seconds since the epoch of a civil date and time, counted the way the
/// server counts them: whole years from 1970 (none for earlier years),
/// whole months before `month`, days before `day`, then the clock; an
/// instant before the epoch counts as the epoch.
pub open spec fn instant_secs(year: int, month: int, day: int, hour: int, minute: int, second: int) -> nat {
    let days = days_before_year(year) + days_before_month(
        leap(year),
        if month >= 1 {
            month - 1
        } else {
            0
        },
    ) + (if day >= 1 {
        day - 1
    } else {
        0
    });
    let secs = days * 86400 + hour * 3600 + minute * 60 + second;
    if secs > 0 {
        secs as nat
    } else {
        0
    }
}

proof fn lemma_days_before_month_bound(is_leap: bool, m: int)
    requires
        0 <= m <= 12,
    ensures
        0 <= days_before_month(is_leap, m) <= 366,
    decreases m,
{
    reveal_with_fuel(days_before_month, 13);
    if m > 0 {
        lemma_days_before_month_bound(is_leap, m - 1);
    }
}

/// `datetime_to_system_time`, as seconds since the epoch.
pub fn datetime_to_system_time(
    year: i32,
    month: u32,
    day: u32,
    hour: u32,
    minute: u32,
    second: u32,
) -> (r: u64)
    requires
        month <= 13,
    ensures
        r == instant_secs(
            year as int,
            month as int,
            day as int,
            hour as int,
            minute as int,
            second as int,
        ),
{
    let mut days: i64 = 0;
    let mut y: i32 = 1970;
    while y < year
        invariant
            1970 <= y,
            y <= year || y == 1970,
            days == days_before_year(y as int),
            0 <= days <= 366 * (y - 1970),
        decreases year - y,
    {
        days += if is_leap_year(y) {
            366
        } else {
            365
        };
        y += 1;
    }
    assert(days == days_before_year(year as int));
    let is_leap = is_leap_year(year);
    let months = if month >= 1 {
        (month - 1) as usize
    } else {
        0
    };
    let mut m: usize = 0;
    let ghost base = days;
    while m < months
        invariant
            m <= months <= 12,
            days == base + days_before_month(is_leap, m as int),
            0 <= base <= 366 * (2147483647 - 1970),
        decreases months - m,
    {
        proof {
            lemma_days_before_month_bound(is_leap, m as int);
        }
        days += month_days(is_leap, m);
        m += 1;
    }
    proof {
        lemma_days_before_month_bound(is_leap, m as int);
    }
    let d = if day >= 1 {
        (day - 1) as i64
    } else {
        0
    };
    days += d;
    let secs = days * 86400 + hour as i64 * 3600 + minute as i64 * 60 + second as i64;
    if secs > 0 {
        secs as u64
    } else {
        0
    }
}

/// `hh:mm:ss` with each field as `str::parse::<u32>` reads it.
pub open spec fn clock_spec(s: Seq<char>) -> Option<(nat, nat, nat)> {
    let t = split_on(s, ':');
    if t.len() != 3 {
        None
    } else {
        match (
            parse_unsigned(t[0], u32::MAX as nat),
            parse_unsigned(t[1], u32::MAX as nat),
            parse_unsigned(t[2], u32::MAX as nat),
        ) {
            (Some(h), Some(m), Some(sec)) => Some((h, m, sec)),
            _ => None,
        }
    }
}

fn parse_clock(v: &[char]) -> (r: Option<(u32, u32, u32)>)
    ensures
        match clock_spec(v@) {
            Some((h, m, s)) => r == Some((h as u32, m as u32, s as u32)),
            None => r is None,
        },
{
    let t = split_chars(v, ':');
    if t.len() != 3 {
        return None;
    }
    assert(views(t@)[0] == t@[0]@ && views(t@)[1] == t@[1]@ && views(t@)[2] == t@[2]@);
    let h = parse_u32_chars(t[0].as_slice());
    let m = parse_u32_chars(t[1].as_slice());
    let s = parse_u32_chars(t[2].as_slice());
    match (h, m, s) {
        (Some(h), Some(m), Some(s)) => Some((h, m, s)),
        _ => None,
    }
}

/// RFC 1123 dates (`Sun, 06 Nov 1994 08:49:37 GMT`): at least five words;
/// the day, month name, year and clock are the second to fifth.
pub open spec fn rfc1123_spec(s: Seq<char>) -> Option<nat> {
    let p = words(s);
    if p.len() < 5 {
        None
    } else {
        match (
            parse_unsigned(p[1], u32::MAX as nat),
            month_number(p[2]),
            parse_signed(p[3], i32::MIN as int, i32::MAX as nat),
            clock_spec(p[4]),
        ) {
            (Some(day), Some(month), Some(year), Some((h, mi, sec))) => Some(
                instant_secs(year, month as int, day as int, h as int, mi as int, sec as int),
            ),
            _ => None,
        }
    }
}

/// The year of an RFC 850 date: two characters count from 1970 to 2069,
/// anything else is read as it stands.
pub open spec fn rfc850_year(y: Seq<char>) -> Option<int> {
    match parse_signed(y, i32::MIN as int, i32::MAX as nat) {
        Some(v) => if y.len() == 2 {
            if v >= 70 {
                Some(1900 + v)
            } else {
                Some(2000 + v)
            }
        } else {
            Some(v)
        },
        None => None,
    }
}

/// RFC 850 dates (`Sunday, 06-Nov-94 08:49:37 GMT`): exactly four words,
/// the second `day-month-year`, the third the clock.
pub open spec fn rfc850_spec(s: Seq<char>) -> Option<nat> {
    let p = words(s);
    if p.len() != 4 {
        None
    } else {
        let d = split_on(p[1], '-');
        if d.len() != 3 {
            None
        } else {
            match (
                parse_unsigned(d[0], u32::MAX as nat),
                month_number(d[1]),
                rfc850_year(d[2]),
                clock_spec(p[2]),
            ) {
                (Some(day), Some(month), Some(year), Some((h, mi, sec))) => Some(
                    instant_secs(year, month as int, day as int, h as int, mi as int, sec as int),
                ),
                _ => None,
            }
        }
    }
}

/// asctime dates (`Sun Nov  6 08:49:37 1994`): exactly five words, the
/// month name, day, clock and year being the second to fifth.
pub open spec fn asctime_spec(s: Seq<char>) -> Option<nat> {
    let p = words(s);
    if p.len() != 5 {
        None
    } else {
        match (
            month_number(p[1]),
            parse_unsigned(p[2], u32::MAX as nat),
            clock_spec(p[3]),
            parse_signed(p[4], i32::MIN as int, i32::MAX as nat),
        ) {
            (Some(month), Some(day), Some((h, mi, sec)), Some(year)) => Some(
                instant_secs(year, month as int, day as int, h as int, mi as int, sec as int),
            ),
            _ => None,
        }
    }
}

/// An HTTP date in any of the three formats, tried in the order RFC 1123,
/// RFC 850, asctime, after trimming whitespace.
pub open spec fn http_date_spec(s: Seq<char>) -> Option<nat> {
    let t = trim(s);
    match rfc1123_spec(t) {
        Some(v) => Some(v),
        None => match rfc850_spec(t) {
            Some(v) => Some(v),
            None => asctime_spec(t),
        },
    }
}

/// `parse_rfc1123`, as seconds since the epoch.
pub fn parse_rfc1123(s: &[char]) -> (r: Option<u64>)
    ensures
        r == (match rfc1123_spec(s@) {
            Some(v) => Some(v as u64),
            None => None,
        }),
{
    let p = split_whitespace_chars(s);
    if p.len() < 5 {
        return None;
    }
    assert(views(p@)[1] == p@[1]@ && views(p@)[2] == p@[2]@ && views(p@)[3] == p@[3]@
        && views(p@)[4] == p@[4]@);
    let day = match parse_u32_chars(p[1].as_slice()) {
        Some(v) => v,
        None => {
            return None;
        },
    };
    let month = match month_to_num(p[2].as_slice()) {
        Some(v) => v,
        None => {
            return None;
        },
    };
    let year = match parse_i32_chars(p[3].as_slice()) {
        Some(v) => v,
        None => {
            return None;
        },
    };
    let (h, mi, sec) = match parse_clock(p[4].as_slice()) {
        Some(t) => t,
        None => {
            return None;
        },
    };
    Some(datetime_to_system_time(year, month, day, h, mi, sec))
}

/// `parse_rfc850`, as seconds since the epoch.
pub fn parse_rfc850(s: &[char]) -> (r: Option<u64>)
    ensures
        r == (match rfc850_spec(s@) {
            Some(v) => Some(v as u64),
            None => None,
        }),
{
    let p = split_whitespace_chars(s);
    if p.len() != 4 {
        return None;
    }
    assert(views(p@)[1] == p@[1]@ && views(p@)[2] == p@[2]@);
    let d = split_chars(p[1].as_slice(), '-');
    if d.len() != 3 {
        return None;
    }
    assert(views(d@)[0] == d@[0]@ && views(d@)[1] == d@[1]@ && views(d@)[2] == d@[2]@);
    let day = match parse_u32_chars(d[0].as_slice()) {
        Some(v) => v,
        None => {
            return None;
        },
    };
    let month = match month_to_num(d[1].as_slice()) {
        Some(v) => v,
        None => {
            return None;
        },
    };
    let y = match parse_i32_chars(d[2].as_slice()) {
        Some(v) => v,
        None => {
            return None;
        },
    };
    let year: i32 = if d[2].len() == 2 {
        proof {
            crate::num::lemma_two_digit_bound(d@[2]@);
        }
        if y >= 70 {
            1900 + y
        } else {
            2000 + y
        }
    } else {
        y
    };
    let (h, mi, sec) = match parse_clock(p[2].as_slice()) {
        Some(t) => t,
        None => {
            return None;
        },
    };
    Some(datetime_to_system_time(year, month, day, h, mi, sec))
}

/// `parse_asctime`, as seconds since the epoch.
pub fn parse_asctime(s: &[char]) -> (r: Option<u64>)
    ensures
        r == (match asctime_spec(s@) {
            Some(v) => Some(v as u64),
            None => None,
        }),
{
    let p = split_whitespace_chars(s);
    if p.len() != 5 {
        return None;
    }
    assert(views(p@)[1] == p@[1]@ && views(p@)[2] == p@[2]@ && views(p@)[3] == p@[3]@
        && views(p@)[4] == p@[4]@);
    let month = match month_to_num(p[1].as_slice()) {
        Some(v) => v,
        None => {
            return None;
        },
    };
    let day = match parse_u32_chars(p[2].as_slice()) {
        Some(v) => v,
        None => {
            return None;
        },
    };
    let (h, mi, sec) = match parse_clock(p[3].as_slice()) {
        Some(t) => t,
        None => {
            return None;
        },
    };
    let year = match parse_i32_chars(p[4].as_slice()) {
        Some(v) => v,
        None => {
            return None;
        },
    };
    Some(datetime_to_system_time(year, month, day, h, mi, sec))
}

/// `parse_http_date`, as seconds since the epoch.
pub fn parse_http_date(s: &str) -> (r: Result<u64, ()>)
    ensures
        r == (match http_date_spec(s@) {
            Some(v) => Ok::<u64, ()>(v as u64),
            None => Err(()),
        }),
{
    let v = chars_of(s);
    let t = trim_chars(v.as_slice());
    if let Some(d) = parse_rfc1123(t.as_slice()) {
        return Ok(d);
    }
    if let Some(d) = parse_rfc850(t.as_slice()) {
        return Ok(d);
    }
    if let Some(d) = parse_asctime(t.as_slice()) {
        return Ok(d);
    }
    Err(())
}

// ---------------------------------------------------------------------
// Dates written and read back
// ---------------------------------------------------------------------

proof fn lemma_month_and_day_sum(is_leap: bool, m: int, d: int)
    requires
        0 <= m <= 12,
        0 <= d,
    ensures
        days_before_month(is_leap, month_and_day(is_leap, m, d).0) + month_and_day(
            is_leap,
            m,
            d,
        ).1 == days_before_month(is_leap, m) + d,
    decreases 12 - m,
{
    if m < 12 && d >= month_len(is_leap, m) {
        assert(days_before_month(is_leap, m + 1) == days_before_month(is_leap, m) + month_len(
            is_leap,
            m,
        ));
        lemma_month_and_day_sum(is_leap, m + 1, d - month_len(is_leap, m));
    }
}

/// The civil date of a day number adds back up to the day number.
proof fn lemma_civil(days: int)
    requires
        0 <= days,
        year_fits(days),
    ensures
        1970 <= civil(days).0 <= i32::MAX,
        0 <= civil(days).1 < 12,
        0 <= civil(days).2 < month_len(leap(civil(days).0), civil(days).1),
        days_before_year(civil(days).0) + days_before_month(leap(civil(days).0), civil(days).1)
            + civil(days).2 == days,
{
    lemma_year_and_day_sum(1970, days);
    let (y, doy) = year_and_day(1970, days);
    let l = leap(y);
    reveal_with_fuel(days_before_month, 1);
    lemma_month_and_day(l, 0, doy);
    lemma_month_and_day_sum(l, 0, doy);
}

proof fn lemma_month_name_number(m: int)
    requires
        0 <= m < 12,
    ensures
        month_number(month_name(m)) == Some((m + 1) as u32),
        month_name(m).len() == 3,
        forall|i: int| 0 <= i < 3 ==> 65 <= (#[trigger] month_name(m)[i] as u32) <= 122,
{
    let n = month_name(m);
    assert(ascii_lower_seq(n) =~= n.map_values(|c: char| crate::text::ascii_lower(c)));
    if m == 0 {
        assert(ascii_lower_seq(n) =~= seq!['j', 'a', 'n']);
    } else if m == 1 {
        assert(ascii_lower_seq(n) =~= seq!['f', 'e', 'b']);
    } else if m == 2 {
        assert(ascii_lower_seq(n) =~= seq!['m', 'a', 'r']);
    } else if m == 3 {
        assert(ascii_lower_seq(n) =~= seq!['a', 'p', 'r']);
    } else if m == 4 {
        assert(ascii_lower_seq(n) =~= seq!['m', 'a', 'y']);
    } else if m == 5 {
        assert(ascii_lower_seq(n) =~= seq!['j', 'u', 'n']);
    } else if m == 6 {
        assert(ascii_lower_seq(n) =~= seq!['j', 'u', 'l']);
    } else if m == 7 {
        assert(ascii_lower_seq(n) =~= seq!['a', 'u', 'g']);
    } else if m == 8 {
        assert(ascii_lower_seq(n) =~= seq!['s', 'e', 'p']);
    } else if m == 9 {
        assert(ascii_lower_seq(n) =~= seq!['o', 'c', 't']);
    } else if m == 10 {
        assert(ascii_lower_seq(n) =~= seq!['n', 'o', 'v']);
    } else {
        assert(ascii_lower_seq(n) =~= seq!['d', 'e', 'c']);
    }
}

proof fn lemma_weekday_letters(w: int)
    ensures
        weekday_name(w).len() == 3,
        forall|i: int| 0 <= i < 3 ==> 65 <= (#[trigger] weekday_name(w)[i] as u32) <= 122,
{
}

proof fn lemma_digits_plain(s: Seq<char>)
    requires
        all_digits(s),
    ensures
        no_white_space(s),
        !s.contains(':'),
{
    assert forall|i: int| 0 <= i < s.len() implies !is_white_space(#[trigger] s[i]) by {
        assert(is_digit(s[i]));
    }
    assert forall|i: int| 0 <= i < s.len() implies #[trigger] s[i] != ':' by {
        assert(is_digit(s[i]));
    }
}

proof fn lemma_letters_plain(s: Seq<char>)
    requires
        forall|i: int| 0 <= i < s.len() ==> 44 <= (#[trigger] s[i] as u32) <= 122,
    ensures
        no_white_space(s),
{
    assert forall|i: int| 0 <= i < s.len() implies !is_white_space(#[trigger] s[i]) by {
        assert(44 <= (s[i] as u32) <= 122);
    }
}

/// The clock text reads back as the time of day.
proof fn lemma_clock_reads_back(secs: nat)
    ensures
        clock_spec(clock(secs)) == Some(
            ((secs % 86400) / 3600, ((secs % 86400) % 3600) / 60, (secs % 86400) % 60),
        ),
        no_white_space(clock(secs)),
        clock(secs).len() > 0,
{
    let t = secs % 86400;
    let a = padded(t / 3600, 2);
    let b = padded((t % 3600) / 60, 2);
    let c = padded(t % 60, 2);
    lemma_padded_reads_back(t / 3600, 2);
    lemma_padded_reads_back((t % 3600) / 60, 2);
    lemma_padded_reads_back(t % 60, 2);
    lemma_digits_plain(a);
    lemma_digits_plain(b);
    lemma_digits_plain(c);
    let rest = b + seq![':'] + c;
    assert(clock(secs) == a + seq![':'] + rest);
    lemma_split_cons(a, ':', rest);
    lemma_split_cons(b, ':', c);
    lemma_split_single(c, ':');
    assert(split_on(clock(secs), ':') =~= seq![a, b, c]);
    lemma_parse_digits(a, u32::MAX as nat, 0);
    lemma_parse_digits(b, u32::MAX as nat, 0);
    lemma_parse_digits(c, u32::MAX as nat, 0);
    let s = clock(secs);
    assert forall|i: int| 0 <= i < s.len() implies !is_white_space(#[trigger] s[i]) by {
        if i < a.len() {
            assert(s[i] == a[i]);
        } else if i == a.len() {
            assert(s[i] == ':');
        } else if i < a.len() + 1 + b.len() {
            assert(s[i] == b[i - a.len() - 1]);
        } else if i == a.len() + 1 + b.len() {
            assert(s[i] == ':');
        } else {
            assert(s[i] == c[i - a.len() - 2 - b.len()]);
        }
    }
}

/// The words of the IMF-fixdate text of an instant.
pub open spec fn imf_words(secs: nat) -> Seq<Seq<char>> {
    let days = secs as int / 86400;
    let (y, m, d) = civil(days);
    seq![
        weekday_name((days + 4) % 7) + seq![','],
        padded((d + 1) as nat, 2),
        month_name(m),
        decimal(y as nat),
        clock(secs),
        seq!['G', 'M', 'T'],
    ]
}

proof fn lemma_six_words(
    w1: Seq<char>,
    w2: Seq<char>,
    w3: Seq<char>,
    w4: Seq<char>,
    w5: Seq<char>,
    w6: Seq<char>,
)
    requires
        w1.len() > 0 && no_white_space(w1),
        w2.len() > 0 && no_white_space(w2),
        w3.len() > 0 && no_white_space(w3),
        w4.len() > 0 && no_white_space(w4),
        w5.len() > 0 && no_white_space(w5),
        w6.len() > 0 && no_white_space(w6),
    ensures
        words(
            w1 + seq![' '] + (w2 + seq![' '] + (w3 + seq![' '] + (w4 + seq![' '] + (w5 + seq![' ']
                + w6)))),
        ) == seq![w1, w2, w3, w4, w5, w6],
{
    lemma_words_single(w6);
    lemma_words_cons(w5, w6);
    lemma_words_cons(w4, w5 + seq![' '] + w6);
    lemma_words_cons(w3, w4 + seq![' '] + (w5 + seq![' '] + w6));
    lemma_words_cons(w2, w3 + seq![' '] + (w4 + seq![' '] + (w5 + seq![' '] + w6)));
    lemma_words_cons(
        w1,
        w2 + seq![' '] + (w3 + seq![' '] + (w4 + seq![' '] + (w5 + seq![' '] + w6))),
    );
    assert(seq![w1] + (seq![w2] + (seq![w3] + (seq![w4] + (seq![w5] + seq![w6])))) =~= seq![
        w1,
        w2,
        w3,
        w4,
        w5,
        w6,
    ]);
}

/// The IMF-fixdate text is its words separated by single spaces.
proof fn lemma_imf_shape(secs: nat)
    ensures
        ({
            let w = imf_words(secs);
            imf_fixdate(secs) == w[0] + seq![' '] + (w[1] + seq![' '] + (w[2] + seq![' '] + (w[3]
                + seq![' '] + (w[4] + seq![' '] + w[5]))))
        }),
{
    let w = imf_words(secs);
    assert(imf_fixdate(secs) =~= w[0] + seq![' '] + (w[1] + seq![' '] + (w[2] + seq![' '] + (
    w[3] + seq![' '] + (w[4] + seq![' '] + w[5])))));
}

/// Each word of the IMF-fixdate text is non-empty and holds no whitespace.
proof fn lemma_imf_words_plain(secs: nat)
    requires
        printable(secs),
    ensures
        forall|k: int|
            0 <= k < 6 ==> (#[trigger] imf_words(secs)[k]).len() > 0 && no_white_space(
                imf_words(secs)[k],
            ),
{
    let days = secs as int / 86400;
    lemma_civil(days);
    let (y, m, d) = civil(days);
    let w = imf_words(secs);
    lemma_weekday_letters((days + 4) % 7);
    lemma_letters_plain(w[0]);
    lemma_padded_reads_back((d + 1) as nat, 2);
    lemma_digits_plain(w[1]);
    lemma_month_name_number(m);
    lemma_letters_plain(w[2]);
    crate::num::lemma_decimal_reads_back(y as nat);
    lemma_digits_plain(w[3]);
    lemma_clock_reads_back(secs);
    lemma_letters_plain(w[5]);
}

proof fn lemma_imf_words(secs: nat)
    requires
        printable(secs),
    ensures
        words(imf_fixdate(secs)) == imf_words(secs),
        trim(imf_fixdate(secs)) == imf_fixdate(secs),
{
    let w = imf_words(secs);
    let s = imf_fixdate(secs);
    lemma_imf_shape(secs);
    lemma_imf_words_plain(secs);
    assert(w[0].len() > 0 && no_white_space(w[0]));
    assert(w[1].len() > 0 && no_white_space(w[1]));
    assert(w[2].len() > 0 && no_white_space(w[2]));
    assert(w[3].len() > 0 && no_white_space(w[3]));
    assert(w[4].len() > 0 && no_white_space(w[4]));
    assert(w[5].len() > 0 && no_white_space(w[5]));
    lemma_six_words(w[0], w[1], w[2], w[3], w[4], w[5]);
    assert(seq![w[0], w[1], w[2], w[3], w[4], w[5]] =~= w);
    assert(s[0] == w[0][0]);
    assert(s.last() == w[5].last());
    lemma_trim_unchanged(s);
}

proof fn lemma_imf_fields(secs: nat)
    requires
        printable(secs),
    ensures
        ({
            let days = secs as int / 86400;
            let (y, m, d) = civil(days);
            let t = secs % 86400;
            rfc1123_spec(imf_fixdate(secs)) == Some(
                instant_secs(
                    y,
                    m + 1,
                    d + 1,
                    (t / 3600) as int,
                    ((t % 3600) / 60) as int,
                    ((t % 3600) % 60) as int,
                ),
            )
        }),
{
    let days = secs as int / 86400;
    lemma_civil(days);
    let (y, m, d) = civil(days);
    lemma_imf_words(secs);
    let p = imf_words(secs);
    lemma_padded_reads_back((d + 1) as nat, 2);
    lemma_parse_digits(p[1], u32::MAX as nat, 0);
    lemma_month_name_number(m);
    crate::num::lemma_decimal_reads_back(y as nat);
    lemma_parse_digits(p[3], i32::MAX as nat, i32::MIN as int);
    lemma_clock_reads_back(secs);
}

proof fn lemma_instant_of_civil(secs: nat)
    requires
        printable(secs),
    ensures
        ({
            let days = secs as int / 86400;
            let (y, m, d) = civil(days);
            let t = secs % 86400;
            instant_secs(
                y,
                m + 1,
                d + 1,
                (t / 3600) as int,
                ((t % 3600) / 60) as int,
                ((t % 3600) % 60) as int,
            ) == secs
        }),
{
    let days = secs as int / 86400;
    lemma_civil(days);
    let t = secs % 86400;
    assert(secs == days * 86400 + t);
    assert(t == (t / 3600) * 3600 + ((t % 3600) / 60) * 60 + (t % 3600) % 60);
}

/// A date the server writes reads back as the same instant: the
/// `Last-Modified` text of a time, parsed as an HTTP date, is that time.
pub proof fn lemma_http_date_reads_back(secs: nat)
    requires
        printable(secs),
    ensures
        http_date_spec(imf_fixdate(secs)) == Some(secs),
{
    lemma_imf_words(secs);
    lemma_imf_fields(secs);
    lemma_instant_of_civil(secs);
}

} // verus!
