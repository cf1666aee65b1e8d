//! Character-level text helpers shared by the TLE and feed parsers.
//!
//! Text is modelled as `Seq<char>` (the view of `str` and `String`).  Where the
//! parsers work on byte offsets (`str::len`, `&s[a..b]`, `str::get`), the
//! byte offsets are computed from the UTF-8 width of each character.
use vstd::prelude::*;

verus! {

// ----------------------------------------------------------------------------
// Whitespace and trimming
// ----------------------------------------------------------------------------

/// The Unicode `White_Space` property, which `char::is_whitespace` and
/// `str::trim` use.
pub open spec fn is_unicode_whitespace(c: char) -> bool {
    let u = c as u32;
    ||| 0x09 <= u <= 0x0d
    ||| u == 0x20
    ||| u == 0x85
    ||| u == 0xa0
    ||| u == 0x1680
    ||| 0x2000 <= u <= 0x200a
    ||| u == 0x2028
    ||| u == 0x2029
    ||| u == 0x202f
    ||| u == 0x205f
    ||| u == 0x3000
}

/// Drops the leading characters that satisfy `p`.
pub open spec fn trim_start_by(s: Seq<char>, p: spec_fn(char) -> bool) -> Seq<char>
    decreases s.len(),
{
    if s.len() > 0 && p(s[0]) {
        trim_start_by(s.drop_first(), p)
    } else {
        s
    }
}

/// Drops the trailing characters that satisfy `p`.
pub open spec fn trim_end_by(s: Seq<char>, p: spec_fn(char) -> bool) -> Seq<char>
    decreases s.len(),
{
    if s.len() > 0 && p(s.last()) {
        trim_end_by(s.drop_last(), p)
    } else {
        s
    }
}

/// Drops the leading and trailing characters that satisfy `p`.
pub open spec fn trim_by(s: Seq<char>, p: spec_fn(char) -> bool) -> Seq<char> {
    trim_end_by(trim_start_by(s, p), p)
}

/// What `str::trim` leaves of a text.
pub open spec fn trim_ws(s: Seq<char>) -> Seq<char> {
    trim_by(s, |c: char| is_unicode_whitespace(c))
}

/// `trim_start_by` removes exactly the leading run of `p`-characters.
pub proof fn lemma_trim_start_by_skip(s: Seq<char>, p: spec_fn(char) -> bool, i: int)
    requires
        0 <= i <= s.len(),
        forall|j: int| 0 <= j < i ==> p(#[trigger] s[j]),
    ensures
        trim_start_by(s, p) == trim_start_by(s.skip(i), p),
    decreases i,
{
    if i > 0 {
        assert(s.drop_first().skip(i - 1) =~= s.skip(i));
        lemma_trim_start_by_skip(s.drop_first(), p, i - 1);
    } else {
        assert(s.skip(0) =~= s);
    }
}

/// `trim_end_by` removes exactly the trailing run of `p`-characters.
pub proof fn lemma_trim_end_by_take(s: Seq<char>, p: spec_fn(char) -> bool, i: int)
    requires
        0 <= i <= s.len(),
        forall|j: int| i <= j < s.len() ==> p(#[trigger] s[j]),
    ensures
        trim_end_by(s, p) == trim_end_by(s.take(i), p),
    decreases s.len() - i,
{
    if i < s.len() {
        assert(s.drop_last().take(i) =~= s.take(i));
        lemma_trim_end_by_take(s.drop_last(), p, i);
    } else {
        assert(s.take(i) =~= s);
    }
}

/// A text whose first character does not satisfy `p` is left alone by
/// `trim_start_by`, and likewise at the end.
pub proof fn lemma_trim_fixed(s: Seq<char>, p: spec_fn(char) -> bool)
    ensures
        (s.len() == 0 || !p(s[0])) ==> trim_start_by(s, p) == s,
        (s.len() == 0 || !p(s.last())) ==> trim_end_by(s, p) == s,
{
}

/// What `trim_start_by` leaves does not start with a `p`-character.
pub proof fn lemma_trim_start_head(s: Seq<char>, p: spec_fn(char) -> bool)
    ensures
        trim_start_by(s, p).len() == 0 || !p(trim_start_by(s, p)[0]),
    decreases s.len(),
{
    if s.len() > 0 && p(s[0]) {
        lemma_trim_start_head(s.drop_first(), p);
    }
}

/// What `trim_end_by` leaves does not end with a `p`-character, and keeps a
/// first character that is not one.
pub proof fn lemma_trim_end_last(s: Seq<char>, p: spec_fn(char) -> bool)
    ensures
        trim_end_by(s, p).len() == 0 || !p(trim_end_by(s, p).last()),
        s.len() > 0 && !p(s[0]) ==> trim_end_by(s, p).len() > 0 && trim_end_by(s, p)[0] == s[0],
    decreases s.len(),
{
    if s.len() > 0 && p(s.last()) {
        lemma_trim_end_last(s.drop_last(), p);
    }
}

/// What `trim_by` leaves is empty or starts and ends with characters that do
/// not satisfy `p`.
pub proof fn lemma_trim_by_ends(s: Seq<char>, p: spec_fn(char) -> bool)
    ensures
        trim_by(s, p).len() == 0 || (!p(trim_by(s, p)[0]) && !p(trim_by(s, p).last())),
{
    lemma_trim_start_head(s, p);
    lemma_trim_end_last(trim_start_by(s, p), p);
}

/// Trimming twice trims no more than once.
pub proof fn trim_is_idempotent(s: Seq<char>, p: spec_fn(char) -> bool)
    ensures
        trim_by(trim_by(s, p), p) == trim_by(s, p),
{
    let t = trim_by(s, p);
    lemma_trim_by_ends(s, p);
    lemma_trim_fixed(t, p);
    if t.len() > 0 {
        assert(trim_start_by(t, p) == t);
        lemma_trim_fixed(trim_start_by(t, p), p);
    }
}

/// `char::is_whitespace`: whether `c` has the Unicode `White_Space` property.
pub fn char_is_whitespace(c: char) -> (r: bool)
    ensures
        r == is_unicode_whitespace(c),
{
    let u = c as u32;
    (0x09 <= u && u <= 0x0d) || u == 0x20 || u == 0x85 || u == 0xa0 || u == 0x1680 || (0x2000 <= u
        && u <= 0x200a) || u == 0x2028 || u == 0x2029 || u == 0x202f || u == 0x205f || u == 0x3000
}

/// `str::trim`: the text without its leading and trailing Unicode
/// whitespace, as a slice of the same text.
pub(crate) fn str_trim(s: &str) -> (r: &str)
    ensures
        r@ == trim_ws(s@),
{
    let cs = str_chars(s);
    let (a, b) = trim_ws_range(&cs, 0, cs.len());
    assert(cs@.subrange(0, cs.len() as int) =~= cs@);
    s.substring_char(a, b)
}

/// `str::chars` collected: the characters of a text, in order.
#[verifier::external_body]
pub(crate) fn str_chars(s: &str) -> (r: Vec<char>)
    ensures
        r@ == s@,
{
    s.chars().collect()
}

/// `String: FromIterator<char>`: the text made of the given characters.
#[verifier::external_body]
pub(crate) fn string_from_chars(cs: &[char]) -> (r: String)
    ensures
        r@ == cs@,
{
    cs.iter().collect()
}

/// The text of `a` followed by the text of `b`.
pub fn concat_str(a: &str, b: &str) -> (r: String)
    ensures
        r@ == a@ + b@,
{
    let mut cs = str_chars(a);
    let tail = str_chars(b);
    let ghost head = cs@;
    let mut i: usize = 0;
    while i < tail.len()
        invariant
            i <= tail.len(),
            tail@ == b@,
            cs@ == head + tail@.take(i as int),
        decreases tail.len() - i,
    {
        cs.push(tail[i]);
        i += 1;
        assert(cs@ =~= head + tail@.take(i as int));
    }
    assert(tail@.take(tail.len() as int) =~= tail@);
    string_from_chars(cs.as_slice())
}

/// The characters `cs[from..to]` as a new string.
pub fn string_from_range(cs: &Vec<char>, from: usize, to: usize) -> (r: String)
    requires
        from <= to <= cs.len(),
    ensures
        r@ == cs@.subrange(from as int, to as int),
{
    let mut part: Vec<char> = Vec::new();
    let mut i: usize = from;
    while i < to
        invariant
            from <= i <= to <= cs.len(),
            part@ == cs@.subrange(from as int, i as int),
        decreases to - i,
    {
        part.push(cs[i]);
        i += 1;
        assert(part@ =~= cs@.subrange(from as int, i as int));
    }
    string_from_chars(part.as_slice())
}

// ----------------------------------------------------------------------------
// Decimal integers
// ----------------------------------------------------------------------------

pub open spec fn is_ascii_digit(c: char) -> bool {
    '0' <= c <= '9'
}

pub open spec fn digit_value(c: char) -> nat {
    ((c as u32) - ('0' as u32)) as nat
}

pub open spec fn digit_char(d: nat) -> char {
    ((d + ('0' as u32)) as u32) as char
}

pub open spec fn all_ascii_digits(s: Seq<char>) -> bool {
    forall|i: int| 0 <= i < s.len() ==> is_ascii_digit(#[trigger] s[i])
}

/// The number that a run of decimal digits denotes.
pub open spec fn digits_value(s: Seq<char>) -> nat
    decreases s.len(),
{
    if s.len() == 0 {
        0
    } else {
        digits_value(s.drop_last()) * 10 + digit_value(s.last())
    }
}

/// The decimal digits of `n`, without leading zeros (`"0"` for zero): what
/// `Display` writes for an unsigned integer.
pub open spec fn decimal(n: nat) -> Seq<char>
    decreases n,
{
    if n < 10 {
        seq![digit_char(n)]
    } else {
        decimal(n / 10).push(digit_char(n % 10))
    }
}

/// `format!("{:05}", n)`: the decimal digits of `n`, left-padded with `'0'` to
/// at least five characters.
pub open spec fn zero_pad5(n: nat) -> Seq<char> {
    let d = decimal(n);
    if d.len() >= 5 {
        d
    } else {
        Seq::new((5 - d.len()) as nat, |i: int| '0') + d
    }
}

/// `str::parse::<u32>`: an optional `+`, then at least one ASCII digit, with a
/// value that fits in `u32`.
pub open spec fn parse_u32_spec(s: Seq<char>) -> Option<u32> {
    let d = if s.len() > 0 && s[0] == '+' { s.drop_first() } else { s };
    if d.len() > 0 && all_ascii_digits(d) && digits_value(d) <= u32::MAX {
        Some(digits_value(d) as u32)
    } else {
        None
    }
}

/// `str::parse` for a signed integer type whose range is `[lo, hi]`: an
/// optional sign, then at least one ASCII digit, with a value in range.
pub open spec fn parse_signed_spec(s: Seq<char>, lo: int, hi: int) -> Option<int> {
    let neg = s.len() > 0 && s[0] == '-';
    let d = if s.len() > 0 && (s[0] == '+' || s[0] == '-') { s.drop_first() } else { s };
    let v: int = if neg { -(digits_value(d) as int) } else { digits_value(d) as int };
    if d.len() > 0 && all_ascii_digits(d) && lo <= v <= hi {
        Some(v)
    } else {
        None
    }
}

pub open spec fn parse_i32_spec(s: Seq<char>) -> Option<i32> {
    match parse_signed_spec(s, i32::MIN as int, i32::MAX as int) {
        Some(v) => Some(v as i32),
        None => None,
    }
}

pub open spec fn parse_i64_spec(s: Seq<char>) -> Option<i64> {
    match parse_signed_spec(s, i64::MIN as int, i64::MAX as int) {
        Some(v) => Some(v as i64),
        None => None,
    }
}

proof fn lemma_digits_value_push(s: Seq<char>, c: char)
    ensures
        digits_value(s.push(c)) == digits_value(s) * 10 + digit_value(c),
{
    assert(s.push(c).drop_last() =~= s);
}

/// The value of the digits `cs[from..to]`, or `None` when one of them is not
/// an ASCII digit or the value exceeds `limit`.
fn digits_value_upto(cs: &Vec<char>, from: usize, to: usize, limit: u64) -> (r: Option<u64>)
    requires
        from <= to <= cs.len(),
    ensures
        match r {
            Some(v) => all_ascii_digits(cs@.subrange(from as int, to as int)) && v == digits_value(
                cs@.subrange(from as int, to as int),
            ) && v <= limit,
            None => !all_ascii_digits(cs@.subrange(from as int, to as int)) || digits_value(
                cs@.subrange(from as int, to as int),
            ) > limit,
        },
{
    let mut acc: u64 = 0;
    let mut i: usize = from;
    while i < to
        invariant
            from <= i <= to <= cs.len(),
            all_ascii_digits(cs@.subrange(from as int, i as int)),
            acc == digits_value(cs@.subrange(from as int, i as int)),
            acc <= limit,
        decreases to - i,
    {
        let c = cs[i];
        let ghost prev = cs@.subrange(from as int, i as int);
        assert(cs@.subrange(from as int, i + 1) =~= prev.push(c));
        proof {
            lemma_digits_value_push(prev, c);
        }
        if !('0' <= c && c <= '9') {
            assert(!is_ascii_digit(cs@.subrange(from as int, to as int)[i - from]));
            return None;
        }
        let d: u64 = (c as u32 - '0' as u32) as u64;
        if d > limit || acc > (limit - d) / 10 {
            assert(acc * 10 + d > limit) by (nonlinear_arith)
                requires
                    d > limit || acc > (limit - d) / 10,
                    limit >= 0,
            ;
            proof {
                lemma_digits_prefix_le(cs@.subrange(from as int, to as int), (i + 1 - from) as int);
                assert(cs@.subrange(from as int, to as int).take((i + 1 - from) as int) =~= cs@.subrange(from as int, i + 1));
            }
            return None;
        }
        assert(acc * 10 + d <= limit) by (nonlinear_arith)
            requires
                d <= limit,
                acc <= (limit - d) / 10,
        ;
        acc = acc * 10 + d;
        i += 1;
    }
    Some(acc)
}

/// The value of a prefix of a digit run never exceeds the value of the run.
proof fn lemma_digits_prefix_le(s: Seq<char>, k: int)
    requires
        0 <= k <= s.len(),
    ensures
        !all_ascii_digits(s) || digits_value(s.take(k)) <= digits_value(s),
    decreases s.len() - k,
{
    if k < s.len() {
        assert(s.take(k + 1).drop_last() =~= s.take(k));
        lemma_digits_prefix_le(s, k + 1);
        if all_ascii_digits(s) {
            assert(is_ascii_digit(s[k]));
        }
    } else {
        assert(s.take(k) =~= s);
    }
}

/// `str::parse::<u32>` on the characters `cs[from..to]`.
pub fn parse_u32_range(cs: &Vec<char>, from: usize, to: usize) -> (r: Option<u32>)
    requires
        from <= to <= cs.len(),
    ensures
        r == parse_u32_spec(cs@.subrange(from as int, to as int)),
{
    let ghost s = cs@.subrange(from as int, to as int);
    let mut start: usize = from;
    if from < to && cs[from] == '+' {
        start = from + 1;
        assert(s.drop_first() =~= cs@.subrange(start as int, to as int));
    }
    if start == to {
        return None;
    }
    match digits_value_upto(cs, start, to, u32::MAX as u64) {
        Some(v) => Some(v as u32),
        None => None,
    }
}

/// `str::parse` for a signed integer with range `[lo, hi]` on the characters
/// `cs[from..to]`.
fn parse_signed_range(cs: &Vec<char>, from: usize, to: usize, lo: i64, hi: i64) -> (r: Option<i64>)
    requires
        from <= to <= cs.len(),
        lo < 0 < hi,
        lo == i64::MIN || lo == i32::MIN,
        hi == -(lo + 1),
    ensures
        match r {
            Some(v) => parse_signed_spec(cs@.subrange(from as int, to as int), lo as int, hi as int) == Some(v as int),
            None => parse_signed_spec(cs@.subrange(from as int, to as int), lo as int, hi as int) is None,
        },
{
    let ghost s = cs@.subrange(from as int, to as int);
    let mut start: usize = from;
    let mut neg = false;
    if from < to && (cs[from] == '+' || cs[from] == '-') {
        neg = cs[from] == '-';
        start = from + 1;
        assert(s.drop_first() =~= cs@.subrange(start as int, to as int));
    }
    if start == to {
        return None;
    }
    // The magnitude of `lo` is one more than `hi`.
    let limit: u64 = if neg { (hi as u64) + 1 } else { hi as u64 };
    match digits_value_upto(cs, start, to, limit) {
        Some(v) => {
            if neg {
                if v == (hi as u64) + 1 {
                    Some(lo)
                } else {
                    Some(-(v as i64))
                }
            } else {
                Some(v as i64)
            }
        },
        None => None,
    }
}

/// `str::parse::<i32>` on the characters `cs[from..to]`.
pub fn parse_i32_range(cs: &Vec<char>, from: usize, to: usize) -> (r: Option<i32>)
    requires
        from <= to <= cs.len(),
    ensures
        r == parse_i32_spec(cs@.subrange(from as int, to as int)),
{
    match parse_signed_range(cs, from, to, i32::MIN as i64, i32::MAX as i64) {
        Some(v) => Some(v as i32),
        None => None,
    }
}

/// `str::parse::<i64>` on the characters `cs[from..to]`.
pub fn parse_i64_range(cs: &Vec<char>, from: usize, to: usize) -> (r: Option<i64>)
    requires
        from <= to <= cs.len(),
    ensures
        r == parse_i64_spec(cs@.subrange(from as int, to as int)),
{
    parse_signed_range(cs, from, to, i64::MIN, i64::MAX)
}

/// `str::parse::<i64>` on a text.
pub fn parse_i64(s: &str) -> (r: Option<i64>)
    ensures
        r == parse_i64_spec(s@),
{
    let cs = str_chars(s);
    assert(cs@.subrange(0, cs@.len() as int) =~= s@);
    parse_i64_range(&cs, 0, cs.len())
}

proof fn lemma_decimal_nonempty(n: nat)
    ensures
        decimal(n).len() >= 1,
        all_ascii_digits(decimal(n)),
    decreases n,
{
    if n >= 10 {
        lemma_decimal_nonempty(n / 10);
        assert forall|i: int| 0 <= i < decimal(n).len() implies is_ascii_digit(#[trigger] decimal(n)[i]) by {
            if i < decimal(n / 10).len() {
                assert(decimal(n)[i] == decimal(n / 10)[i]);
            }
        }
    }
}

/// Reading back the decimal digits of `n` gives `n`.
pub proof fn lemma_decimal_roundtrip(n: nat)
    ensures
        digits_value(decimal(n)) == n,
        all_ascii_digits(decimal(n)),
        decimal(n).len() >= 1,
    decreases n,
{
    lemma_decimal_nonempty(n);
    lemma_digit_char_value(n % 10);
    if n >= 10 {
        lemma_decimal_roundtrip(n / 10);
        assert(decimal(n).drop_last() =~= decimal(n / 10));
        assert(decimal(n).last() == digit_char(n % 10));
        assert(digits_value(decimal(n)) == digits_value(decimal(n).drop_last()) * 10 + digit_value(decimal(n).last()));
        assert((n / 10) * 10 + n % 10 == n) by (nonlinear_arith);
    } else {
        assert(decimal(n).drop_last() =~= Seq::<char>::empty());
        assert(decimal(n).last() == digit_char(n));
        assert(digits_value(decimal(n)) == digits_value(decimal(n).drop_last()) * 10 + digit_value(decimal(n).last()));
    }
}

proof fn lemma_digit_char_value(d: nat)
    requires
        d < 10,
    ensures
        digit_value(digit_char(d)) == d,
        is_ascii_digit(digit_char(d)),
{
    let u = (d + 48) as u32;
    assert(u as char as u32 == u) by {
        assert(0x30 <= u <= 0x39);
    }
}

/// The decimal digits of `n`, as characters.
pub fn decimal_chars(n: u64) -> (r: Vec<char>)
    ensures
        r@ == decimal(n as nat),
    decreases n,
{
    let d: u64 = n % 10;
    let c = ((d as u8) + 48u8) as char;
    assert(c == digit_char(d as nat));
    if n < 10 {
        let mut v = Vec::new();
        v.push(c);
        assert(v@ =~= seq![digit_char(n as nat)]);
        v
    } else {
        let mut v = decimal_chars(n / 10);
        v.push(c);
        v
    }
}

/// `n.to_string()` for an unsigned integer.
pub fn decimal_string(n: u64) -> (r: String)
    ensures
        r@ == decimal(n as nat),
{
    let v = decimal_chars(n);
    string_from_chars(v.as_slice())
}

/// `format!("{:05}", n)`.
pub fn zero_pad5_chars(n: u32) -> (r: Vec<char>)
    ensures
        r@ == zero_pad5(n as nat),
{
    let d = decimal_chars(n as u64);
    if d.len() >= 5 {
        return d;
    }
    let mut r: Vec<char> = Vec::new();
    let pad: usize = 5 - d.len();
    let mut i: usize = 0;
    while i < pad
        invariant
            i <= pad,
            pad == 5 - d@.len(),
            r@ =~= Seq::new(i as nat, |j: int| '0'),
        decreases pad - i,
    {
        r.push('0');
        i += 1;
    }
    let mut j: usize = 0;
    while j < d.len()
        invariant
            j <= d.len(),
            r@ =~= Seq::new(pad as nat, |k: int| '0') + d@.take(j as int),
        decreases d.len() - j,
    {
        r.push(d[j]);
        j += 1;
        assert(r@ =~= Seq::new(pad as nat, |k: int| '0') + d@.take(j as int));
    }
    assert(d@.take(d.len() as int) =~= d@);
    r
}

// ----------------------------------------------------------------------------
// Character predicates used by the parsers
// ----------------------------------------------------------------------------

pub open spec fn ascii_lower(c: char) -> char {
    if 'A' <= c <= 'Z' {
        ((c as u32) + 32) as char
    } else {
        c
    }
}

/// `char::to_ascii_lowercase`.
pub fn ascii_lower_char(c: char) -> (r: char)
    ensures
        r == ascii_lower(c),
{
    if 'A' <= c && c <= 'Z' {
        ((c as u8) + 32) as char
    } else {
        c
    }
}

/// Whether `needle` occurs as a contiguous part of `hay` (`str::contains`;
/// the empty needle occurs everywhere).
pub open spec fn contains_seq(hay: Seq<char>, needle: Seq<char>) -> bool {
    exists|i: int| 0 <= i && i + needle.len() <= hay.len() && #[trigger] hay.subrange(i, i + needle.len()) == needle
}

/// Whether `needle` starts at position `i` of `hay`.
fn occurs_at(hay: &Vec<char>, needle: &Vec<char>, i: usize) -> (r: bool)
    requires
        i + needle.len() <= hay.len(),
    ensures
        r == (hay@.subrange(i as int, i + needle.len()) == needle@),
{
    let mut k: usize = 0;
    while k < needle.len()
        invariant
            k <= needle.len(),
            i + needle.len() <= hay.len(),
            forall|m: int| 0 <= m < k ==> hay@[i + m] == needle@[m],
        decreases needle.len() - k,
    {
        if hay[i + k] != needle[k] {
            assert(hay@.subrange(i as int, i + needle.len())[k as int] != needle@[k as int]);
            return false;
        }
        k += 1;
    }
    assert(hay@.subrange(i as int, i + needle.len()) =~= needle@);
    true
}

/// `str::contains` for two texts given as characters.
pub fn contains_chars(hay: &Vec<char>, needle: &Vec<char>) -> (r: bool)
    ensures
        r == contains_seq(hay@, needle@),
{
    if needle.len() > hay.len() {
        return false;
    }
    let last: usize = hay.len() - needle.len();
    let mut i: usize = 0;
    loop
        invariant
            i <= last,
            last == hay.len() - needle.len(),
            needle.len() <= hay.len(),
            forall|j: int| 0 <= j < i ==> #[trigger] hay@.subrange(j, j + needle.len()) != needle@,
        decreases last + 1 - i,
    {
        if occurs_at(hay, needle, i) {
            return true;
        }
        if i == last {
            return false;
        }
        i += 1;
    }
}

// ----------------------------------------------------------------------------
// Byte offsets (UTF-8)
// ----------------------------------------------------------------------------

/// Number of bytes of the UTF-8 encoding of `c`.
pub open spec fn utf8_width(c: char) -> nat {
    let u = c as u32;
    if u < 0x80 {
        1
    } else if u < 0x800 {
        2
    } else if u < 0x10000 {
        3
    } else {
        4
    }
}

/// Number of bytes of the UTF-8 encoding of a text (`str::len`).
pub open spec fn utf8_len(s: Seq<char>) -> nat
    decreases s.len(),
{
    if s.len() == 0 {
        0
    } else {
        utf8_width(s[0]) + utf8_len(s.drop_first())
    }
}

/// The index of the character that starts at byte offset `b`, or the length
/// of the text when `b` is its byte length; `None` when `b` falls inside a
/// character or past the end (`str::is_char_boundary` is false).
pub open spec fn char_pos_of_byte(s: Seq<char>, b: int) -> Option<int>
    decreases s.len(),
{
    if b == 0 {
        Some(0)
    } else if b < 0 || s.len() == 0 {
        None
    } else {
        let w = utf8_width(s[0]) as int;
        if b < w {
            None
        } else {
            match char_pos_of_byte(s.drop_first(), b - w) {
                Some(k) => Some(k + 1),
                None => None,
            }
        }
    }
}

/// `str::get(from..to)` on byte offsets: the characters between the two
/// offsets when both are character boundaries and `from <= to`.  Indexing
/// with `&s[from..to]` panics exactly when this is `None`.
pub open spec fn byte_get(s: Seq<char>, from: int, to: int) -> Option<Seq<char>> {
    if from > to {
        None
    } else {
        let a = char_pos_of_byte(s, from);
        let b = char_pos_of_byte(s, to);
        if a is Some && b is Some {
            Some(s.subrange(a->0, b->0))
        } else {
            None
        }
    }
}

pub fn utf8_width_of(c: char) -> (r: usize)
    ensures
        r == utf8_width(c),
        1 <= r <= 4,
{
    let u = c as u32;
    if u < 0x80 {
        1
    } else if u < 0x800 {
        2
    } else if u < 0x10000 {
        3
    } else {
        4
    }
}

/// Whether the text `cs` is at least `n` bytes long in UTF-8.
pub fn utf8_len_at_least(cs: &Vec<char>, n: usize) -> (r: bool)
    ensures
        r == (utf8_len(cs@) >= n),
{
    let mut rem: usize = n;
    let mut i: usize = 0;
    assert(cs@.skip(0) =~= cs@);
    while i < cs.len()
        invariant
            i <= cs.len(),
            rem <= n,
            (n - rem) as nat + utf8_len(cs@.skip(i as int)) == utf8_len(cs@),
        decreases cs.len() - i,
    {
        if rem == 0 {
            return true;
        }
        assert(cs@.skip(i as int).drop_first() =~= cs@.skip(i + 1));
        let w = utf8_width_of(cs[i]);
        if w >= rem {
            return true;
        }
        rem = rem - w;
        i += 1;
    }
    assert(cs@.skip(i as int) =~= Seq::<char>::empty());
    rem == 0
}

/// The character index of byte offset `b` (see `char_pos_of_byte`).
pub fn char_pos_of_byte_in(cs: &Vec<char>, b: usize) -> (r: Option<usize>)
    ensures
        r matches Some(k) ==> char_pos_of_byte(cs@, b as int) == Some(k as int),
        r is None ==> char_pos_of_byte(cs@, b as int) is None,
{
    let mut acc: usize = 0;
    let mut i: usize = 0;
    assert(cs@.skip(0) =~= cs@);
    loop
        invariant
            i <= cs.len(),
            acc <= b,
            char_pos_of_byte(cs@, b as int) == (match char_pos_of_byte(cs@.skip(i as int), (b - acc) as int) {
                Some(k) => Some(k + i),
                None => None,
            }),
        decreases cs.len() - i,
    {
        if acc == b {
            return Some(i);
        }
        if i == cs.len() {
            return None;
        }
        let w = utf8_width_of(cs[i]);
        assert(cs@.skip(i as int)[0] == cs@[i as int]);
        assert(cs@.skip(i as int).drop_first() =~= cs@.skip(i + 1));
        if b - acc < w {
            return None;
        }
        acc = acc + w;
        i += 1;
    }
}

/// `str::get(from..to)` on byte offsets, as a range of character indices.
pub fn byte_get_range(cs: &Vec<char>, from: usize, to: usize) -> (r: Option<(usize, usize)>)
    ensures
        match byte_get(cs@, from as int, to as int) {
            Some(part) => r matches Some((a, b)) && a <= b <= cs.len() && part == cs@.subrange(a as int, b as int),
            None => r is None,
        },
{
    if from > to {
        return None;
    }
    let a = char_pos_of_byte_in(cs, from);
    let b = char_pos_of_byte_in(cs, to);
    proof {
        lemma_char_pos_le(cs@, from as int, to as int);
    }
    match a {
        Some(a) => match b {
            Some(b) => {
                assert(a as int == char_pos_of_byte(cs@, from as int)->0);
                assert(b as int == char_pos_of_byte(cs@, to as int)->0);
                Some((a, b))
            },
            None => None,
        },
        None => None,
    }
}

/// Boundaries lie inside the text and keep the order of their byte offsets.
pub proof fn lemma_char_pos_le(s: Seq<char>, x: int, y: int)
    ensures
        char_pos_of_byte(s, x) matches Some(a) ==> 0 <= a <= s.len(),
        char_pos_of_byte(s, y) matches Some(a) ==> 0 <= a <= s.len(),
        (x <= y && char_pos_of_byte(s, x) is Some && char_pos_of_byte(s, y) is Some)
            ==> char_pos_of_byte(s, x)->0 <= char_pos_of_byte(s, y)->0,
    decreases s.len(),
{
    if s.len() > 0 {
        let w = utf8_width(s[0]) as int;
        lemma_char_pos_le(s.drop_first(), x - w, y - w);
        if x >= w && x <= y && y != 0 {
            let px = char_pos_of_byte(s.drop_first(), x - w);
            let py = char_pos_of_byte(s.drop_first(), y - w);
            if px is Some && py is Some {
                assert(char_pos_of_byte(s, x) == Some(px->0 + 1));
                assert(char_pos_of_byte(s, y) == Some(py->0 + 1));
            }
        }
    }
}

/// The bounds `[a, b)` of `cs[from..to]` with the characters satisfying
/// `is_unicode_whitespace` removed from both ends (`str::trim`).
pub fn trim_ws_range(cs: &Vec<char>, from: usize, to: usize) -> (r: (usize, usize))
    requires
        from <= to <= cs.len(),
    ensures
        from <= r.0 <= r.1 <= to,
        cs@.subrange(r.0 as int, r.1 as int) == trim_ws(cs@.subrange(from as int, to as int)),
{
    let ghost p = |c: char| is_unicode_whitespace(c);
    let ghost s = cs@.subrange(from as int, to as int);
    let mut a = from;
    while a < to && char_is_whitespace(cs[a])
        invariant
            from <= a <= to <= cs.len(),
            forall|j: int| from <= j < a ==> is_unicode_whitespace(#[trigger] cs@[j]),
        decreases to - a,
    {
        a += 1;
    }
    let mut b = to;
    while b > a && char_is_whitespace(cs[b - 1])
        invariant
            from <= a <= b <= to <= cs.len(),
            forall|j: int| b <= j < to ==> is_unicode_whitespace(#[trigger] cs@[j]),
        decreases b - a,
    {
        b -= 1;
    }
    proof {
        let k = a - from;
        assert forall|j: int| 0 <= j < k implies p(#[trigger] s[j]) by {
            assert(s[j] == cs@[from + j]);
        }
        lemma_trim_start_by_skip(s, p, k);
        let t = s.skip(k);
        assert(t =~= cs@.subrange(a as int, to as int));
        lemma_trim_fixed(t, p);
        if a < to {
            assert(t[0] == cs@[a as int]);
        }
        let m = b - a;
        assert forall|j: int| m <= j < t.len() implies p(#[trigger] t[j]) by {
            assert(t[j] == cs@[a + j]);
        }
        lemma_trim_end_by_take(t, p, m);
        let u = t.take(m);
        assert(u =~= cs@.subrange(a as int, b as int));
        lemma_trim_fixed(u, p);
        if b > a {
            assert(u.last() == cs@[b - 1]);
        }
    }
    (a, b)
}

// ----------------------------------------------------------------------------
// Lines
// ----------------------------------------------------------------------------

/// The pieces of a text between `'\n'` characters, in order; the last piece
/// is what follows the last `'\n'` (possibly empty).
pub open spec fn split_newlines(s: Seq<char>) -> Seq<Seq<char>>
    decreases s.len(),
{
    if s.len() == 0 {
        seq![Seq::<char>::empty()]
    } else {
        let prev = split_newlines(s.drop_last());
        if s.last() == '\n' {
            prev.push(Seq::<char>::empty())
        } else {
            prev.update(prev.len() - 1, prev.last().push(s.last()))
        }
    }
}

pub proof fn lemma_split_newlines_nonempty(s: Seq<char>)
    ensures
        split_newlines(s).len() >= 1,
    decreases s.len(),
{
    if s.len() > 0 {
        lemma_split_newlines_nonempty(s.drop_last());
    }
}

pub open spec fn strip_cr(x: Seq<char>) -> Seq<char> {
    if x.len() > 0 && x.last() == '\r' {
        x.drop_last()
    } else {
        x
    }
}

/// `str::lines`: the pieces ended by `'\n'` with one trailing `'\r'` removed,
/// followed by the unterminated rest when it is not empty.
pub open spec fn std_lines(s: Seq<char>) -> Seq<Seq<char>> {
    let p = split_newlines(s);
    let ended = p.drop_last().map_values(|x: Seq<char>| strip_cr(x));
    if p.last().len() == 0 {
        ended
    } else {
        ended.push(p.last())
    }
}

/// The texts viewed as character sequences.
pub open spec fn strs_view(v: Seq<String>) -> Seq<Seq<char>> {
    v.map_values(|x: String| x@)
}

/// Character vectors viewed as character sequences.
pub open spec fn char_vecs_view(v: Seq<Vec<char>>) -> Seq<Seq<char>> {
    v.map_values(|x: Vec<char>| x@)
}

/// Joins texts with `sep` between consecutive ones (`[T]::join`).
pub open spec fn join_with(parts: Seq<Seq<char>>, sep: Seq<char>) -> Seq<char>
    decreases parts.len(),
{
    if parts.len() == 0 {
        Seq::empty()
    } else if parts.len() == 1 {
        parts[0]
    } else {
        join_with(parts.drop_last(), sep) + sep + parts.last()
    }
}

/// Splits the characters at each `'\n'` (see `split_newlines`).
pub fn split_newlines_of(cs: &Vec<char>) -> (r: Vec<Vec<char>>)
    ensures
        char_vecs_view(r@) == split_newlines(cs@),
{
    let mut done: Vec<Vec<char>> = Vec::new();
    let mut cur: Vec<char> = Vec::new();
    let mut i: usize = 0;
    assert(cs@.take(0) =~= Seq::<char>::empty());
    assert(char_vecs_view(done@).push(cur@) =~= split_newlines(cs@.take(0)));
    while i < cs.len()
        invariant
            i <= cs.len(),
            char_vecs_view(done@).push(cur@) == split_newlines(cs@.take(i as int)),
        decreases cs.len() - i,
    {
        let c = cs[i];
        let ghost prev = split_newlines(cs@.take(i as int));
        assert(cs@.take(i + 1).drop_last() =~= cs@.take(i as int));
        assert(cs@.take(i + 1).last() == c);
        if c == '\n' {
            done.push(cur);
            cur = Vec::new();
            assert(char_vecs_view(done@).push(cur@) =~= prev.push(Seq::<char>::empty()));
        } else {
            let ghost old_done = char_vecs_view(done@);
            cur.push(c);
            assert(char_vecs_view(done@) == old_done);
            assert(char_vecs_view(done@).push(cur@) =~= prev.update(prev.len() - 1, prev.last().push(c)));
        }
        i += 1;
    }
    assert(cs@.take(i as int) =~= cs@);
    done.push(cur);
    assert(char_vecs_view(done@) =~= split_newlines(cs@));
    done
}

/// `str::lines` (see `std_lines`).
pub fn std_lines_of(cs: &Vec<char>) -> (r: Vec<Vec<char>>)
    ensures
        char_vecs_view(r@) == std_lines(cs@),
{
    let pieces = split_newlines_of(cs);
    let ghost p = split_newlines(cs@);
    proof {
        lemma_split_newlines_nonempty(cs@);
    }
    let n = pieces.len();
    let mut out: Vec<Vec<char>> = Vec::new();
    let mut k: usize = 0;
    while k + 1 < n
        invariant
            n == pieces.len() == p.len() >= 1,
            char_vecs_view(pieces@) == p,
            k + 1 <= n,
            char_vecs_view(out@) == p.take(k as int).map_values(|x: Seq<char>| strip_cr(x)),
        decreases n - k,
    {
        let piece = &pieces[k];
        assert(piece@ == p[k as int]);
        let mut end = piece.len();
        if end > 0 && piece[end - 1] == '\r' {
            end = end - 1;
        }
        let mut line: Vec<char> = Vec::new();
        let mut j: usize = 0;
        while j < end
            invariant
                j <= end <= piece.len(),
                line@ == piece@.take(j as int),
            decreases end - j,
        {
            line.push(piece[j]);
            j += 1;
            assert(line@ =~= piece@.take(j as int));
        }
        assert(line@ =~= strip_cr(p[k as int]));
        let ghost before = char_vecs_view(out@);
        out.push(line);
        assert(char_vecs_view(out@) =~= before.push(strip_cr(p[k as int])));
        k += 1;
        assert(p.take(k as int).map_values(|x: Seq<char>| strip_cr(x)) =~= p.take(k - 1).map_values(|x: Seq<char>| strip_cr(x)).push(strip_cr(p[k - 1])));
    }
    assert(p.take(k as int) =~= p.drop_last());
    let last = &pieces[n - 1];
    assert(last@ == p.last());
    if last.len() > 0 {
        let ghost before = char_vecs_view(out@);
        out.push(last.clone());
        assert(char_vecs_view(out@) =~= before.push(p.last()));
    }
    out
}

proof fn lemma_join_push(parts: Seq<Seq<char>>, sep: Seq<char>, x: Seq<char>)
    ensures
        join_with(parts.push(x), sep) == (if parts.len() == 0 { x } else { join_with(parts, sep) + sep + x }),
{
    assert(parts.push(x).drop_last() =~= parts);
}

/// `s.lines().take(n).collect::<Vec<_>>().join("\n")`.
pub fn first_lines_joined(s: &str, n: usize) -> (r: String)
    ensures
        r@ == join_with(std_lines(s@).take(if n <= std_lines(s@).len() { n as int } else { std_lines(s@).len() as int }), seq!['\n']),
{
    let cs = str_chars(s);
    let lines = std_lines_of(&cs);
    let ghost ls = std_lines(s@);
    let m = if n <= lines.len() { n } else { lines.len() };
    let mut out: Vec<char> = Vec::new();
    let mut k: usize = 0;
    assert(ls.take(0) =~= Seq::<Seq<char>>::empty());
    while k < m
        invariant
            m <= lines.len(),
            char_vecs_view(lines@) == ls,
            k <= m,
            out@ == join_with(ls.take(k as int), seq!['\n']),
        decreases m - k,
    {
        let line = &lines[k];
        assert(line@ == ls[k as int]);
        proof {
            lemma_join_push(ls.take(k as int), seq!['\n'], ls[k as int]);
            assert(ls.take(k + 1) =~= ls.take(k as int).push(ls[k as int]));
        }
        if k > 0 {
            out.push('\n');
        }
        let ghost base = out@;
        let mut j: usize = 0;
        while j < line.len()
            invariant
                j <= line.len(),
                out@ == base + line@.take(j as int),
            decreases line.len() - j,
        {
            out.push(line[j]);
            j += 1;
            assert(out@ =~= base + line@.take(j as int));
        }
        assert(line@.take(line.len() as int) =~= line@);
        assert(out@ =~= join_with(ls.take(k + 1), seq!['\n']));
        k += 1;
    }
    string_from_chars(out.as_slice())
}

} // verus!
