//! Reading the epoch fields of a TLE line 1.
//!
//! The epoch occupies columns 19-32 of line 1 as `YYDDD.FFFFFFFF`: a two-digit
//! year, the day of the year and the fraction of that day.  This module reads
//! the year, the day and the fraction digits, and turns the day and a time
//! into it into an instant; the time into the day comes from the fraction by
//! floating-point arithmetic, which is done by the caller.
use vstd::prelude::*;
use crate::time::{day_start_secs, year_day_start, UtcTimestamp, NANOS_PER_SEC};
use crate::text::{
    all_ascii_digits, byte_get, byte_get_range, char_pos_of_byte, char_pos_of_byte_in, digits_value,
    parse_i32_range, parse_i32_spec, parse_signed_spec, str_chars, string_from_range, trim_ws,
    trim_ws_range, utf8_len, utf8_len_at_least, utf8_width,
};

verus! {

/// What reading the epoch of a line 1 gives.
pub enum TleEpochFields {
    /// The four-digit year, the day of the year (1 = January 1st) and the
    /// digits after the decimal point (`"0"` when there is no point).
    Fields { year: i32, day_of_year: i32, fraction: String },
    /// The line does not carry a readable epoch.
    Invalid,
    /// The reading slices the line inside a multi-byte character, which
    /// panics.
    Panics,
}

/// The first position of `c` in `s`.
pub open spec fn first_index_of(s: Seq<char>, c: char) -> Option<int>
    decreases s.len(),
{
    if s.len() == 0 {
        None
    } else if s[0] == c {
        Some(0)
    } else {
        match first_index_of(s.drop_first(), c) {
            Some(i) => Some(i + 1),
            None => None,
        }
    }
}

/// The first two pieces of `s.split('.')`; the second is absent when `s` has
/// no `'.'`.
pub open spec fn split_dot_first_two(s: Seq<char>) -> (Seq<char>, Option<Seq<char>>) {
    match first_index_of(s, '.') {
        None => (s, None),
        Some(i) => {
            let rest = s.skip(i + 1);
            (
                s.take(i),
                Some(
                    match first_index_of(rest, '.') {
                        None => rest,
                        Some(j) => rest.take(j),
                    },
                ),
            )
        },
    }
}

/// Two-digit years from 57 on are in the 1900s, the others in the 2000s.
pub open spec fn tle_century_year(yy: int) -> int {
    if yy >= 57 {
        1900 + yy
    } else {
        2000 + yy
    }
}

/// The epoch fields of a TLE line 1: bytes 18..32 trimmed, split at `'.'`;
/// the part before the first point must be at least three bytes, its first
/// two bytes are the year and the rest the day, both parsed as `i32`.
pub open spec fn tle_epoch_fields_spec(line1: Seq<char>) -> (Option<(int, int, Seq<char>)>, bool) {
    // The second component tells whether the reading panics.
    if utf8_len(line1) < 32 {
        (None, false)
    } else {
        match byte_get(line1, 18, 32) {
            None => (None, true),
            Some(w) => {
                let (yyddd, frac_part) = split_dot_first_two(trim_ws(w));
                let frac = match frac_part {
                    Some(f) => f,
                    None => seq!['0'],
                };
                if utf8_len(yyddd) < 3 {
                    (None, false)
                } else {
                    match char_pos_of_byte(yyddd, 2) {
                        None => (None, true),
                        Some(k) => match (parse_i32_spec(yyddd.take(k)), parse_i32_spec(yyddd.skip(k))) {
                            (Some(yy), Some(ddd)) => (Some((tle_century_year(yy as int), ddd as int, frac)), false),
                            _ => (None, false),
                        },
                    }
                }
            },
        }
    }
}

/// A boundary at byte `b` is at most `b` characters in.
proof fn lemma_char_pos_bounded(s: Seq<char>, b: int)
    ensures
        char_pos_of_byte(s, b) matches Some(k) ==> 0 <= k <= b && k <= s.len(),
    decreases s.len(),
{
    if b != 0 && b >= 0 && s.len() > 0 {
        let w = utf8_width(s[0]) as int;
        lemma_char_pos_bounded(s.drop_first(), b - w);
    }
}

/// A number written with at most two characters lies within -99..=99.
proof fn lemma_short_parse_bounded(s: Seq<char>)
    requires
        s.len() <= 2,
        parse_i32_spec(s) is Some,
    ensures
        -99 <= parse_i32_spec(s)->0 <= 99,
{
    let d = if s.len() > 0 && (s[0] == '+' || s[0] == '-') { s.drop_first() } else { s };
    assert(parse_signed_spec(s, i32::MIN as int, i32::MAX as int) is Some);
    assert(all_ascii_digits(d) && d.len() > 0 && d.len() <= 2);
    if d.len() == 1 {
        assert(d.drop_last().len() == 0);
        assert(digits_value(d) == digits_value(d.drop_last()) * 10 + ((d.last() as u32) - ('0' as u32)));
        assert(digits_value(d) <= 9);
    } else {
        let e = d.drop_last();
        assert(e.len() == 1);
        assert(e.drop_last().len() == 0);
        assert(digits_value(e) == digits_value(e.drop_last()) * 10 + ((e.last() as u32) - ('0' as u32)));
        assert(e.last() == d[0]);
        assert(digits_value(e) <= 9);
        assert(digits_value(d) == digits_value(e) * 10 + ((d.last() as u32) - ('0' as u32)));
        assert(digits_value(d) <= 99);
    }
}

/// The position of the first `'.'` in `cs[from..to]`, relative to `from`.
fn find_dot(cs: &Vec<char>, from: usize, to: usize) -> (r: Option<usize>)
    requires
        from <= to <= cs.len(),
    ensures
        r matches Some(i) ==> first_index_of(cs@.subrange(from as int, to as int), '.') == Some(i as int)
            && from + i < to,
        r is None ==> first_index_of(cs@.subrange(from as int, to as int), '.') is None,
{
    let ghost s = cs@.subrange(from as int, to as int);
    let mut i = from;
    while i < to
        invariant
            from <= i <= to <= cs.len(),
            s == cs@.subrange(from as int, to as int),
            first_index_of(s, '.') == (match first_index_of(cs@.subrange(i as int, to as int), '.') {
                Some(k) => Some(k + (i - from)),
                None => None,
            }),
        decreases to - i,
    {
        let ghost t = cs@.subrange(i as int, to as int);
        assert(t[0] == cs@[i as int]);
        if cs[i] == '.' {
            assert(t.len() > 0);
            assert(first_index_of(t, '.') == Some(0int));
            return Some(i - from);
        }
        assert(t.drop_first() =~= cs@.subrange(i + 1, to as int));
        i += 1;
    }
    assert(cs@.subrange(i as int, to as int).len() == 0);
    None
}

/// Copies `cs[from..to]`.
fn copy_range(cs: &Vec<char>, from: usize, to: usize) -> (r: Vec<char>)
    requires
        from <= to <= cs.len(),
    ensures
        r@ == cs@.subrange(from as int, to as int),
{
    let mut out: Vec<char> = Vec::new();
    let mut i = from;
    while i < to
        invariant
            from <= i <= to <= cs.len(),
            out@ == cs@.subrange(from as int, i as int),
        decreases to - i,
    {
        out.push(cs[i]);
        i += 1;
        assert(out@ =~= cs@.subrange(from as int, i as int));
    }
    out
}

/// Parse the epoch fields of a TLE line 1 (see `tle_epoch_fields_spec`).
pub fn parse_tle_epoch_fields(line1: &str) -> (r: TleEpochFields)
    ensures
        match tle_epoch_fields_spec(line1@) {
            (_, true) => r is Panics,
            (None, false) => r is Invalid,
            (Some((year, day, frac)), false) => r matches TleEpochFields::Fields { year: y, day_of_year: d, fraction: f }
                && y as int == year && d as int == day && f@ == frac,
        },
{
    let cs = str_chars(line1);
    if !utf8_len_at_least(&cs, 32) {
        return TleEpochFields::Invalid;
    }
    let (a, b) = match byte_get_range(&cs, 18, 32) {
        None => return TleEpochFields::Panics,
        Some(range) => range,
    };
    let (x, y) = trim_ws_range(&cs, a, b);
    let ghost t = trim_ws(cs@.subrange(a as int, b as int));
    assert(t == cs@.subrange(x as int, y as int));
    let (yyddd, fraction) = match find_dot(&cs, x, y) {
        None => {
            let mut zero: Vec<char> = Vec::new();
            zero.push('0');
            (copy_range(&cs, x, y), crate::text::string_from_chars(zero.as_slice()))
        },
        Some(i) => {
            let rest_from = x + i + 1;
            let ghost rest = t.skip(i + 1);
            assert(rest =~= cs@.subrange(rest_from as int, y as int));
            assert(t.take(i as int) =~= cs@.subrange(x as int, x + i));
            let frac = match find_dot(&cs, rest_from, y) {
                None => string_from_range(&cs, rest_from, y),
                Some(j) => {
                    assert(rest.take(j as int) =~= cs@.subrange(rest_from as int, rest_from + j));
                    string_from_range(&cs, rest_from, rest_from + j)
                },
            };
            (copy_range(&cs, x, x + i), frac)
        },
    };
    assert(yyddd@ == split_dot_first_two(t).0);
    if !utf8_len_at_least(&yyddd, 3) {
        return TleEpochFields::Invalid;
    }
    let k = match char_pos_of_byte_in(&yyddd, 2) {
        None => return TleEpochFields::Panics,
        Some(k) => k,
    };
    proof {
        lemma_char_pos_bounded(yyddd@, 2);
    }
    assert(yyddd@.take(k as int) =~= yyddd@.subrange(0, k as int));
    assert(yyddd@.skip(k as int) =~= yyddd@.subrange(k as int, yyddd@.len() as int));
    let yy = match parse_i32_range(&yyddd, 0, k) {
        None => return TleEpochFields::Invalid,
        Some(v) => v,
    };
    let ddd = match parse_i32_range(&yyddd, k, yyddd.len()) {
        None => return TleEpochFields::Invalid,
        Some(v) => v,
    };
    proof {
        lemma_short_parse_bounded(yyddd@.take(k as int));
    }
    let year = if yy >= 57 { 1900 + yy } else { 2000 + yy };
    TleEpochFields::Fields { year, day_of_year: ddd, fraction }
}

/// The epoch of a TLE as an instant: the start of its day plus `secs`
/// seconds and `nanos` nanoseconds into it, the nanoseconds past a whole
/// second carried into the seconds.  `None` where chrono has no such day or
/// the seconds leave an `i64`.
pub open spec fn tle_epoch_spec(year: i32, day_of_year: i32, secs: i64, nanos: i64) -> Option<UtcTimestamp> {
    match year_day_start(year, day_of_year) {
        Some(start) => {
            let total = start + secs + (nanos as int) / (NANOS_PER_SEC as int);
            if total <= i64::MAX {
                Some(UtcTimestamp { secs: total as i64, nanos: ((nanos as int) % (NANOS_PER_SEC as int)) as u32 })
            } else {
                None
            }
        },
        None => None,
    }
}

/// The epoch instant of a TLE from its year, its day of the year and the
/// time into that day (see `tle_epoch_spec`).  The time into the day is
/// what the fraction of the day gives, so never negative.
pub fn tle_epoch_utc(year: i32, day_of_year: i32, secs: i64, nanos: i64) -> (r: Option<UtcTimestamp>)
    requires
        day_of_year > i32::MIN,
        secs >= 0,
        nanos >= 0,
    ensures
        r == tle_epoch_spec(year, day_of_year, secs, nanos),
        r matches Some(t) ==> t.wf(),
{
    let start = match day_start_secs(year, day_of_year) {
        Some(s) => s,
        None => return None,
    };
    let carry = nanos / NANOS_PER_SEC;
    let rest = nanos % NANOS_PER_SEC;
    let total = start as i128 + secs as i128 + carry as i128;
    if total > i64::MAX as i128 {
        return None;
    }
    Some(UtcTimestamp { secs: total as i64, nanos: rest as u32 })
}

} // verus!
