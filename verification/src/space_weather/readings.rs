//! The latest value of a column, and the time it was taken.
use vstd::prelude::*;
use crate::json::{JsonText, TextReading};
use crate::space_weather::fetcher::{cell_number, cell_number_spec, cell_spec, get_cell, rows_view};
use crate::text::{str_chars, str_trim, trim_ws};
use crate::time::{naive_utc_instant, parse_naive_utc, parse_rfc3339, rfc3339_instant, UtcTimestamp};

verus! {

/// The layout of SWPC time tags without fractional seconds.
pub open spec fn seconds_format() -> Seq<char> {
    "%Y-%m-%d %H:%M:%S"@
}

/// The layout of SWPC time tags with fractional seconds.
pub open spec fn fraction_format() -> Seq<char> {
    "%Y-%m-%d %H:%M:%S%.f"@
}

/// A time tag read from a text: trimmed; nothing for an empty text or
/// `null`; else the first of RFC 3339, `seconds_format` and
/// `fraction_format` that reads it.
pub open spec fn timestamp_spec(raw: Seq<char>) -> Option<UtcTimestamp> {
    let v = trim_ws(raw);
    if v.len() == 0 || v == seq!['n', 'u', 'l', 'l'] {
        None
    } else if rfc3339_instant(v) is Some {
        rfc3339_instant(v)
    } else if naive_utc_instant(v, seconds_format()) is Some {
        naive_utc_instant(v, seconds_format())
    } else {
        naive_utc_instant(v, fraction_format())
    }
}

/// Reads a time tag as `timestamp_spec` describes.
pub fn parse_timestamp(raw: &str) -> (r: Option<UtcTimestamp>)
    ensures
        r == timestamp_spec(raw@),
        r matches Some(t) ==> t.wf(),
{
    let value = str_trim(raw);
    let cs = str_chars(value);
    if cs.len() == 0 {
        return None;
    }
    if cs.len() == 4 && cs[0] == 'n' && cs[1] == 'u' && cs[2] == 'l' && cs[3] == 'l' {
        assert(cs@ =~= seq!['n', 'u', 'l', 'l']);
        return None;
    }
    assert(cs@ != seq!['n', 'u', 'l', 'l']) by {
        if cs@ == seq!['n', 'u', 'l', 'l'] {
            assert(cs@[0] == 'n' && cs@[1] == 'u' && cs@[2] == 'l' && cs@[3] == 'l');
        }
    }
    if let Some(t) = parse_rfc3339(value) {
        return Some(t);
    }
    if let Some(t) = parse_naive_utc(value, "%Y-%m-%d %H:%M:%S") {
        return Some(t);
    }
    parse_naive_utc(value, "%Y-%m-%d %H:%M:%S%.f")
}

/// The number in column `idx` of the last row that has one there.
pub open spec fn latest_numeric_spec(rows: Seq<Seq<TextReading>>, idx: int) -> Option<u32>
    decreases rows.len(),
{
    if rows.len() == 0 {
        None
    } else if cell_number_spec(rows.last(), idx) is Some {
        cell_number_spec(rows.last(), idx)
    } else {
        latest_numeric_spec(rows.drop_last(), idx)
    }
}

/// The time tag of a row, read from its column `time_idx`.
pub open spec fn row_time_spec(row: Seq<TextReading>, time_idx: Option<usize>) -> Option<UtcTimestamp> {
    match time_idx {
        Some(t) => match cell_spec(row, t as int) {
            Some(c) => timestamp_spec(c),
            None => None,
        },
        None => None,
    }
}

/// The number in column `idx` of the last row that has one there, with that
/// row's time tag.
pub open spec fn latest_numeric_with_time_spec(
    rows: Seq<Seq<TextReading>>,
    idx: int,
    time_idx: Option<usize>,
) -> Option<(u32, Option<UtcTimestamp>)>
    decreases rows.len(),
{
    if rows.len() == 0 {
        None
    } else if cell_number_spec(rows.last(), idx) is Some {
        Some((cell_number_spec(rows.last(), idx)->0, row_time_spec(rows.last(), time_idx)))
    } else {
        latest_numeric_with_time_spec(rows.drop_last(), idx, time_idx)
    }
}

/// The time tag of the last row that has a readable one in column `time_idx`.
pub open spec fn latest_timestamp_spec(rows: Seq<Seq<TextReading>>, time_idx: Option<usize>) -> Option<
    UtcTimestamp,
>
    decreases rows.len(),
{
    if time_idx is None || rows.len() == 0 {
        None
    } else if row_time_spec(rows.last(), time_idx) is Some {
        row_time_spec(rows.last(), time_idx)
    } else {
        latest_timestamp_spec(rows.drop_last(), time_idx)
    }
}

/// The latest number (as `f32` bits) in column `idx`, scanning from the last
/// row back.
pub fn latest_numeric(rows: &[Vec<JsonText>], idx: usize) -> (r: Option<u32>)
    ensures
        r == latest_numeric_spec(rows_view(rows@), idx as int),
{
    let ghost rv = rows_view(rows@);
    let mut i: usize = rows.len();
    assert(rv.take(i as int) =~= rv);
    while i > 0
        invariant
            i <= rows.len(),
            rv == rows_view(rows@),
            latest_numeric_spec(rv, idx as int) == latest_numeric_spec(rv.take(i as int), idx as int),
        decreases i,
    {
        let ghost pre = rv.take(i as int);
        assert(pre.last() == rv[i - 1]);
        assert(pre.drop_last() =~= rv.take(i - 1));
        assert(rv[i - 1] == crate::space_weather::fetcher::texts_view(rows@[i - 1]@));
        if let Some(v) = cell_number(rows[i - 1].as_slice(), idx) {
            return Some(v);
        }
        i -= 1;
    }
    assert(rv.take(0) =~= Seq::<Seq<TextReading>>::empty());
    None
}

/// The time tag in column `time_idx` of a row.
fn row_time(row: &[JsonText], time_idx: Option<usize>) -> (r: Option<UtcTimestamp>)
    ensures
        r == row_time_spec(crate::space_weather::fetcher::texts_view(row@), time_idx),
        r matches Some(t) ==> t.wf(),
{
    match time_idx {
        Some(t) => match get_cell(row, t) {
            Some(c) => parse_timestamp(c),
            None => None,
        },
        None => None,
    }
}

/// The latest number in column `idx`, with the time tag of its row.
pub fn latest_numeric_with_time(rows: &[Vec<JsonText>], idx: usize, time_idx: Option<usize>) -> (r:
    Option<(u32, Option<UtcTimestamp>)>)
    ensures
        r == latest_numeric_with_time_spec(rows_view(rows@), idx as int, time_idx),
{
    let ghost rv = rows_view(rows@);
    let mut i: usize = rows.len();
    assert(rv.take(i as int) =~= rv);
    while i > 0
        invariant
            i <= rows.len(),
            rv == rows_view(rows@),
            latest_numeric_with_time_spec(rv, idx as int, time_idx) == latest_numeric_with_time_spec(
                rv.take(i as int),
                idx as int,
                time_idx,
            ),
        decreases i,
    {
        let ghost pre = rv.take(i as int);
        assert(pre.last() == rv[i - 1]);
        assert(pre.drop_last() =~= rv.take(i - 1));
        assert(rv[i - 1] == crate::space_weather::fetcher::texts_view(rows@[i - 1]@));
        if let Some(v) = cell_number(rows[i - 1].as_slice(), idx) {
            let ts = row_time(rows[i - 1].as_slice(), time_idx);
            return Some((v, ts));
        }
        i -= 1;
    }
    assert(rv.take(0) =~= Seq::<Seq<TextReading>>::empty());
    None
}

/// The latest readable time tag in column `time_idx`.
pub fn latest_timestamp(rows: &[Vec<JsonText>], time_idx: Option<usize>) -> (r: Option<UtcTimestamp>)
    ensures
        r == latest_timestamp_spec(rows_view(rows@), time_idx),
        r matches Some(t) ==> t.wf(),
{
    if time_idx.is_none() {
        return None;
    }
    let ghost rv = rows_view(rows@);
    let mut i: usize = rows.len();
    assert(rv.take(i as int) =~= rv);
    while i > 0
        invariant
            i <= rows.len(),
            time_idx is Some,
            rv == rows_view(rows@),
            latest_timestamp_spec(rv, time_idx) == latest_timestamp_spec(rv.take(i as int), time_idx),
        decreases i,
    {
        let ghost pre = rv.take(i as int);
        assert(pre.last() == rv[i - 1]);
        assert(pre.drop_last() =~= rv.take(i - 1));
        assert(rv[i - 1] == crate::space_weather::fetcher::texts_view(rows@[i - 1]@));
        let ts = row_time(rows[i - 1].as_slice(), time_idx);
        if ts.is_some() {
            return ts;
        }
        i -= 1;
    }
    assert(rv.take(0) =~= Seq::<Seq<TextReading>>::empty());
    None
}

} // verus!
