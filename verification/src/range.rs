//! Parsing of the HTTP `Range` request header.
use vstd::prelude::*;
use crate::num::{parse_unsigned, parse_unsigned_chars};
use crate::text::{
    chars_of, first_index, find_char_from, split_chars, split_on, trim,
    trim_chars, views,
};

verus! {

/// An inclusive range of byte offsets `start..=end`.
#[derive(Clone, Copy, Debug, PartialEq, Eq)]
pub struct ByteRange {
    pub start: u64,
    pub end: u64,
}

impl ByteRange {
    /// The number of bytes in the range.
    pub fn length(&self) -> (n: u64)
        requires
            self.start <= self.end,
            self.end - self.start < u64::MAX,
        ensures
            n == self.end - self.start + 1,
    {
        self.end - self.start + 1
    }
}

/// Why a `Range` header was not accepted.
#[derive(Clone, Copy, Debug, PartialEq, Eq)]
pub enum RangeError {
    /// The header is malformed (answered with 400).
    Invalid,
    /// The header is well formed but asks for bytes the file does not have
    /// (answered with 416).
    Unsatisfiable,
}

/// The unit prefix of a byte-range set.
pub open spec fn bytes_unit() -> Seq<char> {
    seq!['b', 'y', 't', 'e', 's', '=']
}

/// One range specification of a `Range` header, against a file of
/// `size` bytes: `-N` (the last N bytes), `S-` (from S to the end) or
/// `S-E` (from S to E, E clamped to the last byte).
pub open spec fn range_spec(raw: Seq<char>, size: u64) -> Result<ByteRange, RangeError> {
    let part = trim(raw);
    let max = u64::MAX as nat;
    if part.len() == 0 {
        Err(RangeError::Invalid)
    } else if part[0] == '-' {
        match parse_unsigned(part.drop_first(), max) {
            None => Err(RangeError::Invalid),
            Some(n) => if n == 0 || n > size {
                Err(RangeError::Unsatisfiable)
            } else {
                Ok(ByteRange { start: (size - n) as u64, end: (size - 1) as u64 })
            },
        }
    } else if part.last() == '-' {
        match parse_unsigned(part.drop_last(), max) {
            None => Err(RangeError::Invalid),
            Some(s) => if s >= size {
                Err(RangeError::Unsatisfiable)
            } else {
                Ok(ByteRange { start: s as u64, end: (size - 1) as u64 })
            },
        }
    } else {
        match first_index(part, '-') {
            None => Err(RangeError::Invalid),
            Some(i) => match (parse_unsigned(part.take(i), max), parse_unsigned(part.skip(i + 1), max)) {
                (Some(s), Some(e)) => if s > e || s >= size {
                    Err(RangeError::Unsatisfiable)
                } else {
                    Ok(ByteRange { start: s as u64, end: if e < size { e as u64 } else { (size - 1) as u64 } })
                },
                (None, _) => Err(RangeError::Invalid),
                (Some(_), None) => Err(RangeError::Invalid),
            },
        }
    }
}

/// The comma-separated range specifications, taken in order; the first one
/// that fails decides the error.
pub open spec fn ranges_spec(parts: Seq<Seq<char>>, size: u64) -> Result<Seq<ByteRange>, RangeError>
    decreases parts.len(),
{
    if parts.len() == 0 {
        Ok(seq![])
    } else {
        match range_spec(parts[0], size) {
            Err(e) => Err(e),
            Ok(r) => match ranges_spec(parts.drop_first(), size) {
                Err(e) => Err(e),
                Ok(rs) => Ok(seq![r] + rs),
            },
        }
    }
}

/// The meaning of a `Range` header value against a file of `size` bytes.
pub open spec fn range_header_spec(header: Seq<char>, size: u64) -> Result<Seq<ByteRange>, RangeError> {
    let h = trim(header);
    if !bytes_unit().is_prefix_of(h) {
        Err(RangeError::Invalid)
    } else {
        let set = h.skip(6);
        if set.len() == 0 {
            Err(RangeError::Invalid)
        } else {
            match ranges_spec(split_on(set, ','), size) {
                Ok(rs) => if rs.len() == 0 {
                    Err(RangeError::Invalid)
                } else {
                    Ok(rs)
                },
                Err(e) => Err(e),
            }
        }
    }
}

/// A range that lies inside a file of `size` bytes.
pub open spec fn within(r: ByteRange, size: u64) -> bool {
    r.start <= r.end && r.end < size
}

proof fn lemma_ranges_within(parts: Seq<Seq<char>>, size: u64)
    ensures
        ranges_spec(parts, size) matches Ok(rs) ==> forall|k: int|
            0 <= k < rs.len() ==> within(#[trigger] rs[k], size),
    decreases parts.len(),
{
    if parts.len() > 0 {
        lemma_ranges_within(parts.drop_first(), size);
        if let Ok(rs) = ranges_spec(parts, size) {
            let r = range_spec(parts[0], size)->Ok_0;
            let rest = ranges_spec(parts.drop_first(), size)->Ok_0;
            assert(rs == seq![r] + rest);
            assert forall|k: int| 0 <= k < rs.len() implies within(#[trigger] rs[k], size) by {
                if k > 0 {
                    assert(rs[k] == rest[k - 1]);
                }
            }
        }
    }
}

/// Every range a `Range` header is read as lies inside the file.
pub proof fn lemma_header_ranges_within(header: Seq<char>, size: u64)
    ensures
        range_header_spec(header, size) matches Ok(rs) ==> forall|k: int|
            0 <= k < rs.len() ==> within(#[trigger] rs[k], size),
{
    let h = trim(header);
    lemma_ranges_within(split_on(h.skip(6), ','), size);
}

fn parse_range_part(raw: &[char], file_size: u64) -> (r: Result<ByteRange, RangeError>)
    ensures
        r == range_spec(raw@, file_size),
{
    let part = trim_chars(raw);
    let n = part.len();
    if n == 0 {
        return Err(RangeError::Invalid);
    }
    if part[0] == '-' {
        let rest = crate::text::sub_chars(part.as_slice(), 1, n);
        assert(rest@ == part@.drop_first());
        match parse_unsigned_chars(rest.as_slice(), u64::MAX) {
            None => Err(RangeError::Invalid),
            Some(len) => {
                if len == 0 || len > file_size {
                    Err(RangeError::Unsatisfiable)
                } else {
                    Ok(ByteRange { start: file_size - len, end: file_size - 1 })
                }
            },
        }
    } else if part[n - 1] == '-' {
        let rest = crate::text::sub_chars(part.as_slice(), 0, n - 1);
        assert(rest@ == part@.drop_last());
        match parse_unsigned_chars(rest.as_slice(), u64::MAX) {
            None => Err(RangeError::Invalid),
            Some(start) => {
                if start >= file_size {
                    Err(RangeError::Unsatisfiable)
                } else {
                    Ok(ByteRange { start, end: file_size - 1 })
                }
            },
        }
    } else {
        assert(part@.skip(0) == part@);
        match find_char_from(part.as_slice(), '-', 0) {
            None => Err(RangeError::Invalid),
            Some(i) => {
                let a = crate::text::sub_chars(part.as_slice(), 0, i);
                let b = crate::text::sub_chars(part.as_slice(), i + 1, n);
                assert(a@ == part@.take(i as int));
                assert(b@ == part@.skip(i + 1));
                let start = match parse_unsigned_chars(a.as_slice(), u64::MAX) {
                    None => {
                        return Err(RangeError::Invalid);
                    },
                    Some(s) => s,
                };
                let end = match parse_unsigned_chars(b.as_slice(), u64::MAX) {
                    None => {
                        return Err(RangeError::Invalid);
                    },
                    Some(e) => e,
                };
                if start > end || start >= file_size {
                    return Err(RangeError::Unsatisfiable);
                }
                let end = if end < file_size - 1 {
                    end
                } else {
                    file_size - 1
                };
                Ok(ByteRange { start, end })
            },
        }
    }
}

/// Parses a `Range` header value against a file of `file_size` bytes.
///
/// Every range returned lies inside the file: `start <= end < file_size`.
pub fn parse_range_header(header: &str, file_size: u64) -> (r: Result<Vec<ByteRange>, RangeError>)
    ensures
        match r {
            Ok(rs) => range_header_spec(header@, file_size) == Ok::<Seq<ByteRange>, RangeError>(
                rs@,
            ),
            Err(e) => range_header_spec(header@, file_size) == Err::<Seq<ByteRange>, RangeError>(
                e,
            ),
        },
        r matches Ok(rs) ==> rs@.len() > 0 && forall|k: int|
            0 <= k < rs@.len() ==> within(#[trigger] rs@[k], file_size),
{
    let raw = chars_of(header);
    let h = trim_chars(raw.as_slice());
    let unit: [char; 6] = ['b', 'y', 't', 'e', 's', '='];
    assert(unit@ == bytes_unit());
    if !crate::text::starts_with(h.as_slice(), &unit) {
        return Err(RangeError::Invalid);
    }
    let set = crate::text::sub_chars(h.as_slice(), 6, h.len());
    assert(set@ == h@.skip(6));
    if set.len() == 0 {
        return Err(RangeError::Invalid);
    }
    let parts = split_chars(set.as_slice(), ',');
    let ghost ps = views(parts@);
    let mut ranges: Vec<ByteRange> = Vec::new();
    let mut k: usize = 0;
    assert(ps.skip(0) == ps);
    while k < parts.len()
        invariant
            k <= parts@.len(),
            ps == views(parts@),
            ps == split_on(set@, ','),
            range_header_spec(header@, file_size) == (match ranges_spec(ps.skip(k as int), file_size) {
                Ok(rs) => if ranges@.len() + rs.len() == 0 {
                    Err(RangeError::Invalid)
                } else {
                    Ok(ranges@ + rs)
                },
                Err(e) => Err(e),
            }),
        decreases parts.len() - k,
    {
        assert(ps.skip(k as int).drop_first() == ps.skip(k + 1));
        assert(ps.skip(k as int)[0] == parts@[k as int]@);
        match parse_range_part(parts[k].as_slice(), file_size) {
            Err(e) => {
                return Err(e);
            },
            Ok(br) => {
                let ghost old_ranges = ranges@;
                ranges.push(br);
                proof {
                    match ranges_spec(ps.skip(k + 1), file_size) {
                        Ok(rs) => {
                            assert(old_ranges + (seq![br] + rs) == ranges@ + rs);
                        },
                        Err(e) => {},
                    }
                }
            },
        }
        k += 1;
    }
    assert(ps.skip(k as int) == Seq::<Seq<char>>::empty());
    assert(ranges@ + Seq::<ByteRange>::empty() == ranges@);
    if ranges.len() == 0 {
        return Err(RangeError::Invalid);
    }
    proof {
        lemma_ranges_within(split_on(set@, ','), file_size);
    }
    Ok(ranges)
}

} // verus!
