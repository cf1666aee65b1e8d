//! Turning a Celestrak response body into TLE entries.
use vstd::prelude::*;
use crate::text::{
    all_ascii_digits, digit_value, digits_value, is_ascii_digit, trim_start_by,
    byte_get, char_is_whitespace, is_unicode_whitespace, byte_get_range, char_vecs_view, lemma_trim_end_by_take, lemma_trim_fixed,
    lemma_trim_start_by_skip, parse_u32_range, parse_u32_spec, split_newlines, split_newlines_of,
    str_chars, string_from_range, strs_view, trim_by, trim_ws, trim_ws_range, utf8_len,
    utf8_len_at_least, zero_pad5, zero_pad5_chars, std_lines, join_with, first_lines_joined, concat_str,
    decimal, decimal_string,
};

verus! {

/// Characters stripped from both ends of every response line: the byte-order
/// mark and whitespace (carriage return, line feed and space among it).
pub open spec fn is_tle_trim_char(c: char) -> bool {
    c == '\u{feff}' || is_unicode_whitespace(c)
}

pub open spec fn trim_tle(x: Seq<char>) -> Seq<char> {
    trim_by(x, |c: char| is_tle_trim_char(c))
}

/// The cleaned lines of the pieces `ps`: each trimmed, empty ones dropped.
pub open spec fn clean_pieces(ps: Seq<Seq<char>>) -> Seq<Seq<char>>
    decreases ps.len(),
{
    if ps.len() == 0 {
        Seq::empty()
    } else {
        let prev = clean_pieces(ps.drop_last());
        let t = trim_tle(ps.last());
        if t.len() == 0 {
            prev
        } else {
            prev.push(t)
        }
    }
}

/// The lines of a response body with the byte-order mark and whitespace
/// stripped from both ends, and empty lines dropped.
pub open spec fn clean_tle_lines_spec(body: Seq<char>) -> Seq<Seq<char>> {
    clean_pieces(split_newlines(body))
}

/// Every cleaned piece is a non-empty trimmed piece.
proof fn lemma_clean_pieces_trimmed(ps: Seq<Seq<char>>, k: int)
    requires
        0 <= k < clean_pieces(ps).len(),
    ensures
        clean_pieces(ps)[k].len() > 0,
        exists|j: int| 0 <= j < ps.len() && clean_pieces(ps)[k] == #[trigger] trim_tle(ps[j]),
    decreases ps.len(),
{
    let prev = clean_pieces(ps.drop_last());
    if k < prev.len() {
        lemma_clean_pieces_trimmed(ps.drop_last(), k);
        let j = choose|j: int| 0 <= j < ps.drop_last().len() && prev[k] == #[trigger] trim_tle(ps.drop_last()[j]);
        assert(ps.drop_last()[j] == ps[j]);
    } else {
        assert(clean_pieces(ps)[k] == trim_tle(ps[ps.len() - 1]));
    }
}

/// The cleaned lines of a body are non-empty and neither start nor end with
/// a byte-order mark or whitespace.
pub proof fn cleaned_lines_are_trimmed(body: Seq<char>, k: int)
    requires
        0 <= k < clean_tle_lines_spec(body).len(),
    ensures
        clean_tle_lines_spec(body)[k].len() > 0,
        !is_tle_trim_char(clean_tle_lines_spec(body)[k][0]),
        !is_tle_trim_char(clean_tle_lines_spec(body)[k].last()),
{
    let ps = split_newlines(body);
    lemma_clean_pieces_trimmed(ps, k);
    let j = choose|j: int| 0 <= j < ps.len() && clean_pieces(ps)[k] == #[trigger] trim_tle(ps[j]);
    crate::text::lemma_trim_by_ends(ps[j], |c: char| is_tle_trim_char(c));
}

/// Every entry pairs a line starting with `'1'` with one starting with `'2'`.
pub proof fn pairs_are_element_lines(lines: Seq<Seq<char>>, i: int, k: int)
    requires
        0 <= k < tle_pairs_from(lines, i).len(),
    ensures
        starts_with_char(tle_pairs_from(lines, i)[k].line1, '1'),
        starts_with_char(tle_pairs_from(lines, i)[k].line2, '2'),
    decreases lines.len() - i,
{
    if i < 0 || i + 1 >= lines.len() {
    } else if starts_with_char(lines[i], '1') && starts_with_char(lines[i + 1], '2') {
        if k > 0 {
            pairs_are_element_lines(lines, i + 2, k - 1);
        }
    } else {
        pairs_are_element_lines(lines, i + 1, k);
    }
}

/// The bounds of `cs[from..to]` with the TLE trim characters removed from
/// both ends.
fn trim_tle_range(cs: &Vec<char>, from: usize, to: usize) -> (r: (usize, usize))
    requires
        from <= to <= cs.len(),
    ensures
        from <= r.0 <= r.1 <= to,
        cs@.subrange(r.0 as int, r.1 as int) == trim_tle(cs@.subrange(from as int, to as int)),
{
    let ghost p = |c: char| is_tle_trim_char(c);
    let ghost s = cs@.subrange(from as int, to as int);
    let mut a = from;
    while a < to && (cs[a] == '\u{feff}' || char_is_whitespace(cs[a]))
        invariant
            from <= a <= to <= cs.len(),
            forall|j: int| from <= j < a ==> is_tle_trim_char(#[trigger] cs@[j]),
        decreases to - a,
    {
        a += 1;
    }
    let mut b = to;
    while b > a && (cs[b - 1] == '\u{feff}' || char_is_whitespace(cs[b - 1]))
        invariant
            from <= a <= b <= to <= cs.len(),
            forall|j: int| b <= j < to ==> is_tle_trim_char(#[trigger] cs@[j]),
        decreases b - a,
    {
        b -= 1;
    }
    proof {
        let k = a - from;
        assert forall|j: int| 0 <= j < k implies p(#[trigger] s[j]) by {
            assert(s[j] == cs@[from + j]);
        }
        lemma_trim_start_by_skip(s, p, k);
        let t = s.skip(k);
        assert(t =~= cs@.subrange(a as int, to as int));
        lemma_trim_fixed(t, p);
        if a < to {
            assert(t[0] == cs@[a as int]);
        }
        let m = b - a;
        assert forall|j: int| m <= j < t.len() implies p(#[trigger] t[j]) by {
            assert(t[j] == cs@[a + j]);
        }
        lemma_trim_end_by_take(t, p, m);
        let u = t.take(m);
        assert(u =~= cs@.subrange(a as int, b as int));
        lemma_trim_fixed(u, p);
        if b > a {
            assert(u.last() == cs@[b - 1]);
        }
    }
    (a, b)
}

/// Clean a TLE response body: strip BOM, CRLF, leading/trailing whitespace,
/// and drop empty lines.
pub fn clean_tle_lines(body: &str) -> (r: Vec<String>)
    ensures
        strs_view(r@) == clean_tle_lines_spec(body@),
{
    let cs = str_chars(body);
    let pieces = split_newlines_of(&cs);
    let ghost ps = split_newlines(body@);
    let mut out: Vec<String> = Vec::new();
    let mut k: usize = 0;
    assert(ps.take(0) =~= Seq::<Seq<char>>::empty());
    while k < pieces.len()
        invariant
            k <= pieces.len(),
            char_vecs_view(pieces@) == ps,
            strs_view(out@) == clean_pieces(ps.take(k as int)),
        decreases pieces.len() - k,
    {
        let piece = &pieces[k];
        assert(piece@ == ps[k as int]);
        let (a, b) = trim_tle_range(piece, 0, piece.len());
        assert(piece@.subrange(0, piece.len() as int) =~= piece@);
        assert(ps.take(k + 1).drop_last() =~= ps.take(k as int));
        let ghost before = strs_view(out@);
        if a < b {
            let line = string_from_range(piece, a, b);
            out.push(line);
            assert(strs_view(out@) =~= before.push(trim_tle(ps[k as int])));
        }
        k += 1;
    }
    assert(ps.take(pieces.len() as int) =~= ps);
    out
}

/// A TLE entry: the optional name line, the two element lines and the NORAD
/// catalog number read from line 1.
pub struct TleEntry {
    pub name: Option<String>,
    pub line1: String,
    pub line2: String,
    pub norad: u32,
}

/// The text content of a TLE entry.
pub struct TleRecord {
    pub name: Option<Seq<char>>,
    pub line1: Seq<char>,
    pub line2: Seq<char>,
    pub norad: u32,
}

impl View for TleEntry {
    type V = TleRecord;

    open spec fn view(&self) -> TleRecord {
        TleRecord {
            name: match self.name {
                Some(n) => Some(n@),
                None => None,
            },
            line1: self.line1@,
            line2: self.line2@,
            norad: self.norad,
        }
    }
}

pub open spec fn entries_view(v: Seq<TleEntry>) -> Seq<TleRecord> {
    v.map_values(|e: TleEntry| e@)
}

pub open spec fn starts_with_char(s: Seq<char>, c: char) -> bool {
    s.len() > 0 && s[0] == c
}

/// The catalog number in bytes 2..7 of line 1 (`line1.get(2..7)`, trimmed and
/// parsed as `u32`), or 0 when that field is missing or not a number.
pub open spec fn tle_norad_field(line1: Seq<char>) -> u32 {
    match byte_get(line1, 2, 7) {
        Some(f) => match parse_u32_spec(trim_ws(f)) {
            Some(n) => n,
            None => 0,
        },
        None => 0,
    }
}

/// The entries found from line `i` on: a line starting with `'1'` directly
/// followed by a line starting with `'2'` forms a pair; the line before the
/// pair is its name when it starts with neither `'1'` nor `'2'`.
pub open spec fn tle_pairs_from(lines: Seq<Seq<char>>, i: int) -> Seq<TleRecord>
    decreases lines.len() - i,
{
    if i < 0 || i + 1 >= lines.len() {
        Seq::empty()
    } else if starts_with_char(lines[i], '1') && starts_with_char(lines[i + 1], '2') {
        let name = if i > 0 && !starts_with_char(lines[i - 1], '1') && !starts_with_char(lines[i - 1], '2') {
            Some(lines[i - 1])
        } else {
            None
        };
        seq![TleRecord { name, line1: lines[i], line2: lines[i + 1], norad: tle_norad_field(lines[i]) }]
            + tle_pairs_from(lines, i + 2)
    } else {
        tle_pairs_from(lines, i + 1)
    }
}

/// Every entry is a line starting with `'1'` directly followed by a line
/// starting with `'2'`; it carries a name exactly when the line before its
/// line 1 exists and starts with neither `'1'` nor `'2'`, and that name is
/// the line before.  This holds of every entry, however many come before it.
pub proof fn entries_take_the_line_before_as_name(lines: Seq<Seq<char>>, start: int, k: int)
    requires
        0 <= start,
        0 <= k < tle_pairs_from(lines, start).len(),
    ensures
        exists|i: int|
            #![trigger lines[i]]
            start <= i && i + 1 < lines.len() && {
                let e = tle_pairs_from(lines, start)[k];
                &&& e.line1 == lines[i]
                &&& e.line2 == lines[i + 1]
                &&& starts_with_char(lines[i], '1')
                &&& starts_with_char(lines[i + 1], '2')
                &&& (e.name is Some <==> (i > 0 && !starts_with_char(lines[i - 1], '1') && !starts_with_char(
                    lines[i - 1],
                    '2',
                )))
                &&& (e.name matches Some(n) ==> n == lines[i - 1])
            },
    decreases lines.len() - start,
{
    if start + 1 >= lines.len() {
    } else if starts_with_char(lines[start], '1') && starts_with_char(lines[start + 1], '2') {
        if k == 0 {
            assert(lines[start] == lines[start]);
        } else {
            entries_take_the_line_before_as_name(lines, start + 2, k - 1);
            let rest = tle_pairs_from(lines, start + 2);
            assert(tle_pairs_from(lines, start)[k] == rest[k - 1]);
        }
    } else {
        entries_take_the_line_before_as_name(lines, start + 1, k);
    }
}

/// Every line starting with `'1'` that is directly followed by a line
/// starting with `'2'` gives an entry of those two lines: no pair is missed.
pub proof fn every_pair_gives_an_entry(lines: Seq<Seq<char>>, start: int, i: int)
    requires
        0 <= start <= i,
        i + 1 < lines.len(),
        starts_with_char(lines[i], '1'),
        starts_with_char(lines[i + 1], '2'),
    ensures
        exists|k: int|
            0 <= k < tle_pairs_from(lines, start).len() && (#[trigger] tle_pairs_from(lines, start)[k]).line1
                == lines[i] && tle_pairs_from(lines, start)[k].line2 == lines[i + 1],
    decreases lines.len() - start,
{
    let es = tle_pairs_from(lines, start);
    if starts_with_char(lines[start], '1') && starts_with_char(lines[start + 1], '2') {
        if i == start {
            assert(es[0].line1 == lines[i]);
        } else {
            assert(i != start + 1);
            every_pair_gives_an_entry(lines, start + 2, i);
            let rest = tle_pairs_from(lines, start + 2);
            let k = choose|k: int| 0 <= k < rest.len() && (#[trigger] rest[k]).line1 == lines[i] && rest[k].line2 == lines[i + 1];
            assert(es[k + 1] == rest[k]);
        }
    } else {
        every_pair_gives_an_entry(lines, start + 1, i);
        assert(es == tle_pairs_from(lines, start + 1));
    }
}

/// `10^n`.
pub open spec fn pow10(n: nat) -> nat
    decreases n,
{
    if n == 0 {
        1
    } else {
        10 * pow10((n - 1) as nat)
    }
}

/// A run of `n` digits denotes less than `10^n`.
proof fn lemma_digits_value_below(s: Seq<char>)
    requires
        all_ascii_digits(s),
    ensures
        digits_value(s) < pow10(s.len()),
    decreases s.len(),
{
    if s.len() > 0 {
        let init = s.drop_last();
        assert(all_ascii_digits(init)) by {
            assert forall|i: int| 0 <= i < init.len() implies is_ascii_digit(#[trigger] init[i]) by {
                assert(init[i] == s[i]);
            }
        }
        lemma_digits_value_below(init);
        assert(is_ascii_digit(s[s.len() - 1]));
        assert(digit_value(s.last()) <= 9);
        assert(digits_value(s) <= (pow10(init.len()) - 1) * 10 + 9) by (nonlinear_arith)
            requires
                digits_value(s) == digits_value(init) * 10 + digit_value(s.last()),
                digits_value(init) < pow10(init.len()),
                digit_value(s.last()) <= 9,
        ;
    }
}

/// Every entry's catalog number is read from bytes 2..7 of its line 1: when
/// those are five ASCII digits, the number is the one they write.
pub proof fn entry_number_is_read_from_line_1(lines: Seq<Seq<char>>, start: int, k: int)
    requires
        0 <= start,
        0 <= k < tle_pairs_from(lines, start).len(),
    ensures
        ({
            let e = tle_pairs_from(lines, start)[k];
            match byte_get(e.line1, 2, 7) {
                Some(f) => f.len() == 5 && all_ascii_digits(f) ==> e.norad == digits_value(f),
                None => true,
            }
        }),
    decreases lines.len() - start,
{
    let es = tle_pairs_from(lines, start);
    if start + 1 >= lines.len() {
    } else if starts_with_char(lines[start], '1') && starts_with_char(lines[start + 1], '2') {
        if k > 0 {
            entry_number_is_read_from_line_1(lines, start + 2, k - 1);
            assert(es[k] == tle_pairs_from(lines, start + 2)[k - 1]);
        } else {
            let e = es[0];
            if let Some(f) = byte_get(e.line1, 2, 7) {
                if f.len() == 5 && all_ascii_digits(f) {
                    let p = |c: char| is_unicode_whitespace(c);
                    lemma_trim_fixed(f, p);
                    assert(!p(f[0]));
                    assert(trim_start_by(f, p) == f);
                    assert(!p(f.last()));
                    assert(trim_ws(f) == f);
                    lemma_digits_value_below(f);
                    reveal_with_fuel(pow10, 6);
                    assert(f[0] != '+');
                }
            }
        }
    } else {
        entry_number_is_read_from_line_1(lines, start + 1, k);
    }
}

/// `str::chars().next()`: the first character of a text, if any.
pub(crate) fn first_char(s: &str) -> (r: Option<char>)
    ensures
        r == (if s@.len() > 0 { Some(s@[0]) } else { None::<char> }),
{
    if s.unicode_len() == 0 {
        None
    } else {
        Some(s.get_char(0))
    }
}

fn starts_with(s: &String, c: char) -> (r: bool)
    ensures
        r == starts_with_char(s@, c),
{
    match first_char(s.as_str()) {
        Some(f) => f == c,
        None => false,
    }
}

/// The catalog number field of a TLE line 1 (see `tle_norad_field`).
pub fn tle_norad(line1: &str) -> (r: u32)
    ensures
        r == tle_norad_field(line1@),
{
    let cs = str_chars(line1);
    match byte_get_range(&cs, 2, 7) {
        Some((a, b)) => {
            let (x, y) = trim_ws_range(&cs, a, b);
            match parse_u32_range(&cs, x, y) {
                Some(n) => n,
                None => 0,
            }
        },
        None => 0,
    }
}

/// Iterate over cleaned TLE lines and yield all valid (line1, line2) pairs
/// with optional preceding name line and extracted NORAD ID.
pub fn parse_tle_pairs(lines: &[String]) -> (r: Vec<TleEntry>)
    ensures
        entries_view(r@) == tle_pairs_from(strs_view(lines@), 0),
{
    let ghost ls = strs_view(lines@);
    let mut entries: Vec<TleEntry> = Vec::new();
    let mut i: usize = 0;
    while i < lines.len() && i + 1 < lines.len()
        invariant
            i <= lines.len(),
            ls == strs_view(lines@),
            entries_view(entries@) + tle_pairs_from(ls, i as int) == tle_pairs_from(ls, 0),
        decreases lines.len() - i,
    {
        assert(ls[i as int] == lines@[i as int]@);
        assert(ls[i + 1] == lines@[i + 1]@);
        if starts_with(&lines[i], '1') && starts_with(&lines[i + 1], '2') {
            let line1 = &lines[i];
            let line2 = &lines[i + 1];
            let norad = tle_norad(line1.as_str());
            let name = if i > 0 && !starts_with(&lines[i - 1], '1') && !starts_with(&lines[i - 1], '2') {
                assert(ls[i - 1] == lines@[i - 1]@);
                Some(lines[i - 1].clone())
            } else {
                None
            };
            let entry = TleEntry { name, line1: line1.clone(), line2: line2.clone(), norad };
            let ghost before = entries_view(entries@);
            entries.push(entry);
            assert(entries_view(entries@) =~= before.push(entry@));
            assert(tle_pairs_from(ls, i as int) =~= seq![entry@] + tle_pairs_from(ls, i + 2));
            assert(entries_view(entries@) + tle_pairs_from(ls, i + 2) =~= before + tle_pairs_from(ls, i as int));
            i += 2;
        } else {
            i += 1;
        }
    }
    assert(tle_pairs_from(ls, i as int) =~= Seq::<TleRecord>::empty());
    assert(entries_view(entries@) + tle_pairs_from(ls, i as int) =~= entries_view(entries@));
    entries
}

/// How the worker's lookup of one catalog number ends: it compares bytes 2..7
/// of both element lines with the zero-padded number (`format!("{:05}")`),
/// taking the first entry where both match; slicing a line whose bytes 2 or 7
/// fall inside a character panics.
pub enum TleSelection {
    Found(usize),
    Missing,
    Panics,
}

/// The outcome of checking one entry: 0 no match, 1 match, 2 panic.
pub open spec fn tle_match_step(e: TleRecord, fmt: Seq<char>) -> int {
    if utf8_len(e.line1) >= 7 && utf8_len(e.line2) >= 7 {
        match byte_get(e.line1, 2, 7) {
            None => 2,
            Some(f1) => if f1 != fmt {
                0
            } else {
                match byte_get(e.line2, 2, 7) {
                    None => 2,
                    Some(f2) => if f2 == fmt {
                        1
                    } else {
                        0
                    },
                }
            },
        }
    } else {
        0
    }
}

pub open spec fn tle_select_from(es: Seq<TleRecord>, fmt: Seq<char>, i: int) -> TleSelection
    decreases es.len() - i,
{
    if i < 0 || i >= es.len() {
        TleSelection::Missing
    } else {
        let step = tle_match_step(es[i], fmt);
        if step == 2 {
            TleSelection::Panics
        } else if step == 1 {
            TleSelection::Found(i as usize)
        } else {
            tle_select_from(es, fmt, i + 1)
        }
    }
}

/// Whether `cs[a..b]` equals `want`.
fn range_equals(cs: &Vec<char>, a: usize, b: usize, want: &Vec<char>) -> (r: bool)
    requires
        a <= b <= cs.len(),
    ensures
        r == (cs@.subrange(a as int, b as int) == want@),
{
    if b - a != want.len() {
        assert(cs@.subrange(a as int, b as int).len() != want@.len());
        return false;
    }
    let mut k: usize = 0;
    while k < want.len()
        invariant
            k <= want.len(),
            b - a == want.len(),
            a <= b <= cs.len(),
            forall|m: int| 0 <= m < k ==> cs@[a + m] == want@[m],
        decreases want.len() - k,
    {
        if cs[a + k] != want[k] {
            assert(cs@.subrange(a as int, b as int)[k as int] != want@[k as int]);
            return false;
        }
        k += 1;
    }
    assert(cs@.subrange(a as int, b as int) =~= want@);
    true
}

/// The step outcome for one entry (see `tle_match_step`).
fn tle_match_step_of(e: &TleEntry, fmt: &Vec<char>) -> (r: u8)
    ensures
        r as int == tle_match_step(e@, fmt@),
{
    let c1 = str_chars(e.line1.as_str());
    let c2 = str_chars(e.line2.as_str());
    if utf8_len_at_least(&c1, 7) && utf8_len_at_least(&c2, 7) {
        match byte_get_range(&c1, 2, 7) {
            None => 2,
            Some((a1, b1)) => {
                if !range_equals(&c1, a1, b1, fmt) {
                    0
                } else {
                    match byte_get_range(&c2, 2, 7) {
                        None => 2,
                        Some((a2, b2)) => if range_equals(&c2, a2, b2, fmt) {
                            1
                        } else {
                            0
                        },
                    }
                }
            },
        }
    } else {
        0
    }
}

/// The worker's lookup of the entry for `norad` among parsed entries.
pub fn select_tle_entry(entries: &[TleEntry], norad: u32) -> (r: TleSelection)
    ensures
        r == tle_select_from(entries_view(entries@), zero_pad5(norad as nat), 0),
        r matches TleSelection::Found(i) ==> i < entries.len(),
{
    let fmt = zero_pad5_chars(norad);
    let ghost es = entries_view(entries@);
    let mut i: usize = 0;
    while i < entries.len()
        invariant
            i <= entries.len(),
            es == entries_view(entries@),
            fmt@ == zero_pad5(norad as nat),
            tle_select_from(es, fmt@, i as int) == tle_select_from(es, fmt@, 0),
        decreases entries.len() - i,
    {
        assert(es[i as int] == entries@[i as int]@);
        let step = tle_match_step_of(&entries[i], &fmt);
        if step == 2 {
            return TleSelection::Panics;
        }
        if step == 1 {
            return TleSelection::Found(i);
        }
        i += 1;
    }
    TleSelection::Missing
}

/// The Celestrak address of the TLE of one catalog number.
pub fn tle_url(norad: u32) -> (r: String)
    ensures
        r@ == "https://celestrak.org/NORAD/elements/gp.php?CATNR="@ + decimal(norad as nat) + "&FORMAT=TLE"@,
{
    let digits = decimal_string(norad as u64);
    let a = concat_str("https://celestrak.org/NORAD/elements/gp.php?CATNR=", digits.as_str());
    concat_str(a.as_str(), "&FORMAT=TLE")
}

/// The error of a fetch whose body holds no matching pair.
pub fn no_pair_message(norad: u32, sample: &str) -> (r: String)
    ensures
        r@ == "No valid TLE pair found for "@ + decimal(norad as nat) + ". Sample: "@ + sample@,
{
    let digits = decimal_string(norad as u64);
    let a = concat_str("No valid TLE pair found for ", digits.as_str());
    let b = concat_str(a.as_str(), ". Sample: ");
    concat_str(b.as_str(), sample)
}

/// The error of a fetch that found its pair under a failed HTTP status
/// (`status` as the status prints).
pub fn http_status_message(status: &str) -> (r: String)
    ensures
        r@ == "HTTP "@ + status@ + " after parse"@,
{
    let a = concat_str("HTTP ", status);
    concat_str(a.as_str(), " after parse")
}

/// The error of a group fetch under a failed HTTP status.
pub fn group_status_message(status: &str) -> (r: String)
    ensures
        r@ == "HTTP "@ + status@ + " for group fetch"@,
{
    let a = concat_str("HTTP ", status);
    concat_str(a.as_str(), " for group fetch")
}

/// How fetching one catalog number ends, given the HTTP status and the body.
pub enum TleFetchOutcome {
    /// The matching entry.
    Found { name: Option<String>, line1: String, line2: String },
    /// No matching pair; carries the first six lines of the body.
    NoValidPair { sample: String },
    /// A matching pair was found but the HTTP status was not a success.
    HttpStatus,
    /// The lookup panics on a line that cannot be sliced at bytes 2..7.
    SlicePanic,
}

pub open spec fn opt_str_view(o: Option<String>) -> Option<Seq<char>> {
    match o {
        Some(s) => Some(s@),
        None => None,
    }
}

/// The first six lines of a body, joined with `'\n'`.
pub open spec fn body_sample(body: Seq<char>) -> Seq<char> {
    let ls = std_lines(body);
    join_with(ls.take(if 6 <= ls.len() { 6 } else { ls.len() as int }), seq!['\n'])
}

/// The entries of a response body.
pub open spec fn body_entries(body: Seq<char>) -> Seq<TleRecord> {
    tle_pairs_from(clean_tle_lines_spec(body), 0)
}

/// The single-satellite branch of the TLE worker: the body is parsed whatever
/// the status, the entry whose lines carry `norad` is looked up, and only
/// then a failed status is reported.
pub fn tle_fetch_outcome(norad: u32, http_success: bool, body: &str) -> (r: TleFetchOutcome)
    ensures
        match tle_select_from(body_entries(body@), zero_pad5(norad as nat), 0) {
            TleSelection::Panics => r is SlicePanic,
            TleSelection::Missing => r matches TleFetchOutcome::NoValidPair { sample } && sample@ == body_sample(body@),
            TleSelection::Found(i) => if http_success {
                r matches TleFetchOutcome::Found { name, line1, line2 }
                    && opt_str_view(name) == body_entries(body@)[i as int].name
                    && line1@ == body_entries(body@)[i as int].line1
                    && line2@ == body_entries(body@)[i as int].line2
            } else {
                r is HttpStatus
            },
        },
{
    let lines = clean_tle_lines(body);
    let pairs = parse_tle_pairs(lines.as_slice());
    assert(strs_view(lines@) == clean_tle_lines_spec(body@));
    match select_tle_entry(pairs.as_slice(), norad) {
        TleSelection::Panics => TleFetchOutcome::SlicePanic,
        TleSelection::Missing => TleFetchOutcome::NoValidPair { sample: first_lines_joined(body, 6) },
        TleSelection::Found(i) => {
            if !http_success {
                return TleFetchOutcome::HttpStatus;
            }
            let e = &pairs[i];
            assert(entries_view(pairs@)[i as int] == e@);
            assert(entries_view(pairs@) == body_entries(body@));
            let name = match &e.name {
                Some(n) => Some(n.clone()),
                None => None,
            };
            TleFetchOutcome::Found { name, line1: e.line1.clone(), line2: e.line2.clone() }
        },
    }
}

/// The group branch of the TLE worker: a failed status is an error, otherwise
/// every entry of the body is delivered.
pub fn tle_group_outcome(http_success: bool, body: &str) -> (r: Option<Vec<TleEntry>>)
    ensures
        http_success ==> (r matches Some(es) && entries_view(es@) == body_entries(body@)),
        !http_success ==> r is None,
{
    if !http_success {
        return None;
    }
    let lines = clean_tle_lines(body);
    Some(parse_tle_pairs(lines.as_slice()))
}

} // verus!
