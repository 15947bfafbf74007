//! Proleptic Gregorian calendar arithmetic for `YYYYMMDDHHMMSS` timestamps.
//!
//! Timestamps are read as second counts relative to 1970-01-01T00:00:00 and
//! written back in the same fixed 14-digit form. Years `1..=9999` are
//! representable; anything else is out of range.

use vstd::prelude::*;

use crate::text::{
    char_of_digit, digit_char, digit_of, digit_value, is_ascii_digit, is_digit, string_from_chars,
    to_chars,
};

verus! {

// ---------------------------------------------------------------------------
// Calendar model
// ---------------------------------------------------------------------------

/// Leap years of the proleptic Gregorian calendar.
pub open spec fn is_leap_year(y: int) -> bool {
    y % 4 == 0 && (y % 100 != 0 || y % 400 == 0)
}

/// Number of days of month `m` of year `y`.
pub open spec fn days_in_month(y: int, m: int) -> int {
    if m == 2 {
        if is_leap_year(y) {
            29
        } else {
            28
        }
    } else if m == 4 || m == 6 || m == 9 || m == 11 {
        30
    } else {
        31
    }
}

/// Dates of the years `1..=9999`.
pub open spec fn is_valid_date(y: int, m: int, d: int) -> bool {
    &&& 1 <= y <= 9999
    &&& 1 <= m <= 12
    &&& 1 <= d <= days_in_month(y, m)
}

/// Days from 0001-01-01 to January 1st of year `y`.
pub open spec fn days_before_year(y: int) -> int {
    let p = y - 1;
    365 * p + p / 4 - p / 100 + p / 400
}

/// Days from January 1st of year `y` to the first day of month `m`.
pub open spec fn days_before_month(y: int, m: int) -> int {
    let common = if m == 1 {
        0int
    } else if m == 2 {
        31
    } else if m == 3 {
        59
    } else if m == 4 {
        90
    } else if m == 5 {
        120
    } else if m == 6 {
        151
    } else if m == 7 {
        181
    } else if m == 8 {
        212
    } else if m == 9 {
        243
    } else if m == 10 {
        273
    } else if m == 11 {
        304
    } else {
        334
    };
    if m > 2 && is_leap_year(y) {
        common + 1
    } else {
        common
    }
}

/// Day number of 1970-01-01 counted from 0001-01-01.
pub open spec fn epoch_day_offset() -> int {
    719162
}

/// Days since 1970-01-01 of the date `y-m-d`.
pub open spec fn days_from_epoch(y: int, m: int, d: int) -> int {
    days_before_year(y) + days_before_month(y, m) + d - 1 - epoch_day_offset()
}

/// First and last day (relative to the epoch) of the representable range.
pub open spec fn first_day() -> int {
    days_from_epoch(1, 1, 1)
}

/// Day number of 9999-12-31.
pub open spec fn last_day() -> int {
    days_from_epoch(9999, 12, 31)
}

/// A year has 366 days when it is a leap year and 365 otherwise.
pub proof fn lemma_year_length(y: int)
    requires
        y >= 1,
    ensures
        days_before_year(y + 1) - days_before_year(y) == if is_leap_year(y) {
            366int
        } else {
            365int
        },
{
    let p = y - 1;
    assert((p + 1) / 4 - p / 4 == if (p + 1) % 4 == 0 { 1int } else { 0int });
    assert((p + 1) / 100 - p / 100 == if (p + 1) % 100 == 0 { 1int } else { 0int });
    assert((p + 1) / 400 - p / 400 == if (p + 1) % 400 == 0 { 1int } else { 0int });
    assert(y % 400 == 0 ==> y % 100 == 0 && y % 4 == 0);
    assert(y % 100 == 0 ==> y % 4 == 0);
}

/// Later years start later, by at least 365 days a year.
pub proof fn lemma_days_before_year_monotone(a: int, b: int)
    requires
        1 <= a <= b,
    ensures
        days_before_year(a) + 365 * (b - a) <= days_before_year(b),
        a < b ==> days_before_year(a) < days_before_year(b),
    decreases b - a,
{
    if a < b {
        lemma_days_before_year_monotone(a, b - 1);
        lemma_year_length(b - 1);
    }
}

/// The days of the months before and including `m` fill at most the year.
pub proof fn lemma_month_bounds(y: int, m: int)
    requires
        1 <= m <= 12,
    ensures
        0 <= days_before_month(y, m),
        days_before_month(y, m) + days_in_month(y, m) == if m == 12 {
            if is_leap_year(y) {
                366int
            } else {
                365int
            }
        } else {
            days_before_month(y, m + 1)
        },
{
}

/// Later months of a year start after the earlier ones end.
pub proof fn lemma_days_before_month_monotone(y: int, a: int, b: int)
    requires
        1 <= a < b <= 12,
    ensures
        days_before_month(y, a) + days_in_month(y, a) <= days_before_month(y, b),
{
}

/// The day number of a valid date lies within its year.
pub proof fn lemma_date_within_year(y: int, m: int, d: int)
    requires
        is_valid_date(y, m, d),
    ensures
        days_before_year(y) <= days_from_epoch(y, m, d) + epoch_day_offset(),
        days_from_epoch(y, m, d) + epoch_day_offset() < days_before_year(y + 1),
{
    lemma_month_bounds(y, m);
    lemma_year_length(y);
    if m < 12 {
        lemma_month_bounds(y, 12);
        if m < 11 {
            lemma_days_before_month_monotone(y, m + 1, 12);
        }
    }
}

/// Distinct valid dates have distinct day numbers.
pub proof fn lemma_date_unique(y1: int, m1: int, d1: int, y2: int, m2: int, d2: int)
    requires
        is_valid_date(y1, m1, d1),
        is_valid_date(y2, m2, d2),
        days_from_epoch(y1, m1, d1) == days_from_epoch(y2, m2, d2),
    ensures
        y1 == y2,
        m1 == m2,
        d1 == d2,
{
    lemma_date_within_year(y1, m1, d1);
    lemma_date_within_year(y2, m2, d2);
    if y1 < y2 {
        lemma_days_before_year_monotone(y1 + 1, y2);
    } else if y2 < y1 {
        lemma_days_before_year_monotone(y2 + 1, y1);
    }
    assert(y1 == y2);
    if m1 < m2 {
        lemma_days_before_month_monotone(y1, m1, m2);
    } else if m2 < m1 {
        lemma_days_before_month_monotone(y1, m2, m1);
    }
}

/// Every day of the representable range is the day number of a valid date.
pub proof fn lemma_range_bounds()
    ensures
        first_day() == -719162,
        last_day() == 2932896,
        days_before_year(10000) == 3652059,
{
}

// ---------------------------------------------------------------------------
// Day number <-> date
// ---------------------------------------------------------------------------

fn days_in_month_exec(y: i64, m: i64) -> (r: i64)
    requires
        1 <= y <= 10000,
        1 <= m <= 12,
    ensures
        r == days_in_month(y as int, m as int),
{
    if m == 2 {
        if y % 4 == 0 && (y % 100 != 0 || y % 400 == 0) {
            29
        } else {
            28
        }
    } else if m == 4 || m == 6 || m == 9 || m == 11 {
        30
    } else {
        31
    }
}

/// Days since 1970-01-01 of `year-month-day`, computed in eras of 400 years
/// whose years start in March; for a month in `1..=12` this is the calendar
/// day count (the day may lie outside its month).
pub fn days_from_civil(year: i32, month: u32, day: u32) -> (days: i64)
    ensures
        days == civil_days(year as int, month as int, day as int),
        1 <= month <= 12 ==> days == days_from_epoch(year as int, month as int, day as int),
{
    proof {
        reveal(civil_days);
        if 1 <= month <= 12 {
            lemma_civil_days_agree(year as int, month as int, day as int);
        }
    }
    let m = month as i64;
    let d = day as i64;
    let y = if m <= 2 {
        year as i64 - 1
    } else {
        year as i64
    };
    let era = if y >= 0 {
        y / 400
    } else {
        -((399 - y) / 400)
    };
    assert(era == y / 400);
    let yoe = y - era * 400;
    let mp = if m > 2 {
        m - 3
    } else {
        m + 9
    };
    let doy = (153 * mp + 2) / 5 + d - 1;
    let doe = yoe * 365 + yoe / 4 - yoe / 100 + doy;
    era * 146097 + doe - 719468
}

/// The date with day number `days_since_epoch`, read with the same
/// closed form; the year is narrowed to `i32`. For day numbers of the years
/// `1..=9999` it is the valid date with that day number.
pub fn civil_from_days(days_since_epoch: i64) -> (date: (i32, u32, u32))
    requires
        days_since_epoch <= i64::MAX - 719468,
    ensures
        date.0 == civil_date(days_since_epoch as int).0 as i32,
        date.1 == civil_date(days_since_epoch as int).1 as u32,
        date.2 == civil_date(days_since_epoch as int).2 as u32,
        first_day() <= days_since_epoch <= last_day() ==> {
            &&& is_valid_date(date.0 as int, date.1 as int, date.2 as int)
            &&& days_from_epoch(date.0 as int, date.1 as int, date.2 as int) == days_since_epoch
        },
{
    let z = days_since_epoch + 719468;
    let era = if z >= 0 {
        z / 146097
    } else {
        -((146096 - z) / 146097)
    };
    assert(era == z / 146097);
    let doe = z - era * 146097;
    proof {
        lemma_year_of_era(doe as int);
    }
    let yoe = (doe - doe / 1460 + doe / 36524 - doe / 146096) / 365;
    let doy = doe - (365 * yoe + yoe / 4 - yoe / 100);
    proof {
        lemma_month_of_era_year(doy as int, era_year_is_long(yoe as int));
    }
    let mp = (5 * doy + 2) / 153;
    let d = doy - (153 * mp + 2) / 5 + 1;
    let m = if mp < 10 {
        mp + 3
    } else {
        mp - 9
    };
    let y = if m <= 2 {
        yoe + era * 400 + 1
    } else {
        yoe + era * 400
    };
    proof {
        reveal(civil_date);
        if first_day() <= days_since_epoch <= last_day() {
            lemma_civil_date_inverts(days_since_epoch as int);
        }
    }
    (y as i32, m as u32, d as u32)
}

// ---------------------------------------------------------------------------
// Seconds <-> calendar fields
// ---------------------------------------------------------------------------

/// Seconds since 1970-01-01T00:00:00 of a date and time of day.
pub open spec fn seconds_of(y: int, m: int, d: int, hh: int, mm: int, ss: int) -> int {
    days_from_epoch(y, m, d) * 86400 + hh * 3600 + mm * 60 + ss
}

/// Times of day `hh:mm:ss`.
pub open spec fn is_valid_time(hh: int, mm: int, ss: int) -> bool {
    0 <= hh <= 23 && 0 <= mm <= 59 && 0 <= ss <= 59
}

/// Valid date and time fields.
pub open spec fn is_valid_fields(f: (int, int, int, int, int, int)) -> bool {
    is_valid_date(f.0, f.1, f.2) && is_valid_time(f.3, f.4, f.5)
}

/// Seconds since the Unix epoch of date and time fields.
pub open spec fn seconds_of_fields(f: (int, int, int, int, int, int)) -> int {
    seconds_of(f.0, f.1, f.2, f.3, f.4, f.5)
}

/// Second counts that name an instant of the years `1..=9999`.
pub open spec fn in_timestamp_range(t: int) -> bool {
    first_day() * 86400 <= t < (last_day() + 1) * 86400
}

/// The calendar fields of an instant in range.
pub open spec fn calendar_fields_of(t: int) -> (int, int, int, int, int, int) {
    choose|f: (int, int, int, int, int, int)| is_valid_fields(f) && seconds_of_fields(f) == t
}

/// Two valid field tuples naming the same instant are equal.
pub proof fn lemma_fields_unique(f: (int, int, int, int, int, int), g: (int, int, int, int, int, int))
    requires
        is_valid_fields(f),
        is_valid_fields(g),
        seconds_of_fields(f) == seconds_of_fields(g),
    ensures
        f == g,
{
    let df = days_from_epoch(f.0, f.1, f.2);
    let dg = days_from_epoch(g.0, g.1, g.2);
    let rf = f.3 * 3600 + f.4 * 60 + f.5;
    let rg = g.3 * 3600 + g.4 * 60 + g.5;
    assert(0 <= rf < 86400);
    assert(0 <= rg < 86400);
    assert(df == dg) by {
        if df < dg {
            assert(df * 86400 + 86400 <= dg * 86400);
        } else if dg < df {
            assert(dg * 86400 + 86400 <= df * 86400);
        }
    }
    lemma_date_unique(f.0, f.1, f.2, g.0, g.1, g.2);
}

/// The fields of valid calendar fields are those fields.
pub proof fn lemma_calendar_fields_of(f: (int, int, int, int, int, int))
    requires
        is_valid_fields(f),
    ensures
        calendar_fields_of(seconds_of_fields(f)) == f,
        in_timestamp_range(seconds_of_fields(f)),
{
    let t = seconds_of_fields(f);
    let g = calendar_fields_of(t);
    assert(is_valid_fields(g) && seconds_of_fields(g) == t);
    lemma_fields_unique(f, g);
    lemma_range_bounds();
    lemma_date_within_year(f.0, f.1, f.2);
    lemma_days_before_year_monotone(1, f.0);
    if f.0 < 9999 {
        lemma_days_before_year_monotone(f.0 + 1, 9999);
    }
    lemma_year_length(9999);
}

// ---------------------------------------------------------------------------
// Fixed-width decimal text
// ---------------------------------------------------------------------------

/// Every character is an ASCII decimal digit.
pub open spec fn all_digits(s: Seq<char>) -> bool {
    forall|i: int| 0 <= i < s.len() ==> is_digit(#[trigger] s[i])
}

/// The number written by the decimal digits `s`.
pub open spec fn digits_value(s: Seq<char>) -> int
    decreases s.len(),
{
    if s.len() == 0 {
        0
    } else {
        digits_value(s.drop_last()) * 10 + digit_value(s.last())
    }
}

/// `10` to the power `w`.
pub open spec fn pow10(w: nat) -> int
    decreases w,
{
    if w == 0 {
        1
    } else {
        10 * pow10((w - 1) as nat)
    }
}

/// `v` written with exactly `w` decimal digits, zero padded.
pub open spec fn padded(v: int, w: nat) -> Seq<char>
    decreases w,
{
    if w == 0 {
        Seq::empty()
    } else {
        padded(v / 10, (w - 1) as nat).push(digit_char(v % 10))
    }
}

/// The powers of ten up to four digits.
pub proof fn lemma_pow10_values()
    ensures
        pow10(0) == 1,
        pow10(1) == 10,
        pow10(2) == 100,
        pow10(3) == 1000,
        pow10(4) == 10000,
{
    assert(pow10(0) == 1);
    assert(pow10(1) == 10);
    assert(pow10(2) == 100);
    assert(pow10(3) == 1000);
    assert(pow10(4) == 10000);
}

/// A value below `10^w` written with `w` digits reads back as itself.
pub proof fn lemma_padded_digits(v: int, w: nat)
    requires
        0 <= v < pow10(w),
    ensures
        padded(v, w).len() == w,
        all_digits(padded(v, w)),
        digits_value(padded(v, w)) == v,
    decreases w,
{
    if w > 0 {
        lemma_padded_digits(v / 10, (w - 1) as nat);
        let s = padded(v, w);
        assert(s.drop_last() == padded(v / 10, (w - 1) as nat));
        let c = digit_char(v % 10);
        assert(digit_value(c) == v % 10);
        assert(is_digit(c));
    }
}

/// Digits read as a value and written back with as many digits give the
/// same digits.
pub proof fn lemma_digits_padded(s: Seq<char>)
    requires
        all_digits(s),
    ensures
        padded(digits_value(s), s.len()) == s,
        0 <= digits_value(s) < pow10(s.len()),
    decreases s.len(),
{
    if s.len() > 0 {
        let t = s.drop_last();
        assert(all_digits(t));
        lemma_digits_padded(t);
        let c = s.last();
        assert(is_digit(c));
        let v = digits_value(s);
        assert(v / 10 == digits_value(t));
        assert(v % 10 == digit_value(c));
        assert(digit_char(digit_value(c)) == c);
        assert(padded(v, s.len()) =~= s);
    }
}

/// The 14-character text of calendar fields.
pub open spec fn timestamp_text(f: (int, int, int, int, int, int)) -> Seq<char> {
    padded(f.0, 4) + padded(f.1, 2) + padded(f.2, 2) + padded(f.3, 2) + padded(f.4, 2) + padded(
        f.5,
        2,
    )
}

/// The number written in `s[a..b]`.
pub open spec fn text_field(s: Seq<char>, a: int, b: int) -> int {
    digits_value(s.subrange(a, b))
}

/// The calendar fields written in a 14-character text.
pub open spec fn text_fields(s: Seq<char>) -> (int, int, int, int, int, int) {
    (
        text_field(s, 0, 4),
        text_field(s, 4, 6),
        text_field(s, 6, 8),
        text_field(s, 8, 10),
        text_field(s, 10, 12),
        text_field(s, 12, 14),
    )
}

/// The instant a `YYYYMMDDHHMMSS` text names, if it is one.
pub open spec fn parse_timestamp_spec(s: Seq<char>) -> Option<int> {
    if s.len() == 14 && all_digits(s) && is_valid_fields(text_fields(s)) {
        Some(seconds_of_fields(text_fields(s)))
    } else {
        None
    }
}

/// The `YYYYMMDDHHMMSS` text of an instant, if it is in range.
pub open spec fn format_timestamp_spec(t: int) -> Option<Seq<char>> {
    if in_timestamp_range(t) {
        Some(timestamp_text(calendar_fields_of(t)))
    } else {
        None
    }
}

/// Reasons a timestamp cannot be read or written.
#[derive(Debug, Clone, Copy, PartialEq, Eq, Structural)]
pub enum TimestampError {
    /// The text is not exactly 14 ASCII digits.
    NotFourteenDigits,
    /// A field of the text lies outside its calendar range.
    InvalidGregorian,
    /// Adding the offset overflows the second counter.
    Overflow,
    /// The instant lies outside the years `1..=9999`.
    OutOfRange,
}

pub(crate) fn field_value(s: &Vec<char>, a: usize, b: usize) -> (v: u32)
    requires
        a <= b <= s.len(),
        b - a <= 4,
        all_digits(s@),
    ensures
        v == text_field(s@, a as int, b as int),
        v < pow10((b - a) as nat),
{
    let mut v: u32 = 0;
    let mut i = a;
    while i < b
        invariant
            a <= i <= b <= s.len(),
            b - a <= 4,
            all_digits(s@),
            v == digits_value(s@.subrange(a as int, i as int)),
            v < pow10((i - a) as nat),
        decreases b - i,
    {
        proof {
            assert(is_digit(s@[i as int]));
            let t = s@.subrange(a as int, i as int + 1);
            assert(t.drop_last() =~= s@.subrange(a as int, i as int));
            assert(t.last() == s@[i as int]);
            assert(pow10((i - a + 1) as nat) == 10 * pow10((i - a) as nat));
            lemma_pow10_values();
            assert(pow10((i - a) as nat) <= 1000) by {
                if i - a == 0 {
                } else if i - a == 1 {
                } else if i - a == 2 {
                } else {
                }
            }
        }
        let d = digit_of(s[i]);
        v = v * 10 + d;
        i = i + 1;
    }
    v
}

/// Read a `YYYYMMDDHHMMSS` text as seconds since 1970-01-01T00:00:00.
pub fn parse_timestamp_seconds(value: &str) -> (r: Result<i64, TimestampError>)
    ensures
        match r {
            Ok(t) => parse_timestamp_spec(value@) == Some(t as int),
            Err(e) => {
                &&& parse_timestamp_spec(value@) is None
                &&& (e == TimestampError::NotFourteenDigits || e == TimestampError::InvalidGregorian)
                &&& (e == TimestampError::NotFourteenDigits <==> !(value@.len() == 14 && all_digits(
                    value@,
                )))
            },
        },
{
    let s = to_chars(value);
    if s.len() != 14 {
        return Err(TimestampError::NotFourteenDigits);
    }
    let mut i: usize = 0;
    while i < 14
        invariant
            s@ == value@,
            s.len() == 14,
            i <= 14,
            forall|j: int| 0 <= j < i ==> is_digit(#[trigger] s@[j]),
        decreases 14 - i,
    {
        if !is_ascii_digit(s[i]) {
            return Err(TimestampError::NotFourteenDigits);
        }
        i = i + 1;
    }
    let year = field_value(&s, 0, 4);
    let month = field_value(&s, 4, 6);
    let day = field_value(&s, 6, 8);
    let hour = field_value(&s, 8, 10);
    let minute = field_value(&s, 10, 12);
    let second = field_value(&s, 12, 14);
    proof {
        lemma_pow10_values();
    }
    if year == 0 || month < 1 || month > 12 || hour > 23 || minute > 59 || second > 59 {
        return Err(TimestampError::InvalidGregorian);
    }
    let dim = days_in_month_exec(year as i64, month as i64);
    if day == 0 || (day as i64) > dim {
        return Err(TimestampError::InvalidGregorian);
    }
    proof {
        lemma_pow10_values();
    }
    let days = days_from_civil(year as i32, month, day);
    Ok(days * 86400 + (hour as i64) * 3600 + (minute as i64) * 60 + (second as i64))
}

fn push_padded(out: &mut Vec<char>, v: u32, w: usize)
    requires
        1 <= w <= 4,
        v < pow10(w as nat),
    ensures
        final(out)@ == old(out)@ + padded(v as int, w as nat),
{
    let ghost start = old(out)@;
    let mut digits: Vec<char> = Vec::new();
    let mut rest = v;
    let mut k: usize = 0;
    while k < w
        invariant
            k <= w <= 4,
            digits.len() == k,
            padded(v as int, w as nat) == padded(rest as int, (w - k) as nat) + digits@.reverse(),
        decreases w - k,
    {
        proof {
            let p = padded(rest as int, (w - k) as nat);
            assert(p == padded(rest as int / 10, (w - k - 1) as nat).push(digit_char(rest as int % 10)));
        }
        let c = char_of_digit(rest % 10);
        let ghost old_digits = digits@;
        digits.push(c);
        proof {
            assert(digits@.reverse() =~= seq![c] + old_digits.reverse());
            let q = padded(rest as int / 10, (w - k - 1) as nat);
            assert(q.push(c) + old_digits.reverse() =~= q + (seq![c] + old_digits.reverse()));
        }
        rest = rest / 10;
        k = k + 1;
    }
    let mut j = w;
    while j > 0
        invariant
            j <= w <= 4,
            digits.len() == w,
            out@ == start + digits@.reverse().subrange(0, (w - j) as int),
            padded(v as int, w as nat) == digits@.reverse(),
        decreases j,
    {
        j = j - 1;
        out.push(digits[j]);
        proof {
            assert(digits@.reverse()[(w - j - 1) as int] == digits@[j as int]);
            assert(out@ =~= start + digits@.reverse().subrange(0, (w - j) as int));
        }
    }
    proof {
        assert(digits@.reverse().subrange(0, w as int) =~= digits@.reverse());
    }
}

/// Write seconds since 1970-01-01T00:00:00 as `YYYYMMDDHHMMSS`.
pub fn format_timestamp_seconds(seconds: i64) -> (r: Result<String, TimestampError>)
    ensures
        match r {
            Ok(s) => format_timestamp_spec(seconds as int) == Some(s@),
            Err(e) => format_timestamp_spec(seconds as int) is None && e
                == TimestampError::OutOfRange,
        },
{
    proof {
        lemma_range_bounds();
    }
    if seconds < -719162 * 86400 || seconds >= (2932896 + 1) * 86400 {
        return Err(TimestampError::OutOfRange);
    }
    let shifted = seconds + 719162 * 86400;
    let day_index = shifted / 86400;
    let sod = shifted % 86400;
    let (year, month, day) = civil_from_days(day_index - 719162);
    let hour = sod / 3600;
    let minute = (sod % 3600) / 60;
    let second = sod % 60;
    let ghost f = (year as int, month as int, day as int, hour as int, minute as int, second as int);
    proof {
        assert(is_valid_fields(f));
        assert(seconds_of_fields(f) == seconds as int);
        lemma_calendar_fields_of(f);
        lemma_pow10_values();
    }
    let mut out: Vec<char> = Vec::new();
    push_padded(&mut out, year as u32, 4);
    push_padded(&mut out, month, 2);
    push_padded(&mut out, day, 2);
    push_padded(&mut out, hour as u32, 2);
    push_padded(&mut out, minute as u32, 2);
    push_padded(&mut out, second as u32, 2);
    proof {
        assert(out@ =~= timestamp_text(f));
    }
    Ok(string_from_chars(out))
}

/// The timestamp `total_s` seconds after `start`.
pub fn end_timestamp(start: &str, total_s: i64) -> (r: Result<String, TimestampError>)
    ensures
        match r {
            Ok(s) => parse_timestamp_spec(start@) is Some && format_timestamp_spec(
                parse_timestamp_spec(start@)->0 + total_s,
            ) == Some(s@),
            Err(e) => match parse_timestamp_spec(start@) {
                None => e == (if start@.len() == 14 && all_digits(start@) {
                    TimestampError::InvalidGregorian
                } else {
                    TimestampError::NotFourteenDigits
                }),
                Some(t) => format_timestamp_spec(t + total_s) is None && e == (if i64::MIN <= t
                    + total_s <= i64::MAX {
                    TimestampError::OutOfRange
                } else {
                    TimestampError::Overflow
                }),
            },
        },
{
    let start_seconds = match parse_timestamp_seconds(start) {
        Ok(t) => t,
        Err(e) => {
            return Err(e);
        },
    };
    match start_seconds.checked_add(total_s) {
        Some(sum) => {
            let r = format_timestamp_seconds(sum);
            proof {
                if r is Ok {
                    assert(parse_timestamp_spec(start@) == Some(start_seconds as int));
                }
            }
            r
        },
        None => {
            proof {
                lemma_range_bounds();
            }
            Err(TimestampError::Overflow)
        },
    }
}

// ---------------------------------------------------------------------------
// Laws
// ---------------------------------------------------------------------------

/// Every valid date has a day number inside the supported range, so the date
/// can be read back from it (`civil_from_days`, with `lemma_date_unique`).
pub proof fn lemma_day_number_in_range(y: int, m: int, d: int)
    requires
        is_valid_date(y, m, d),
    ensures
        first_day() <= days_from_epoch(y, m, d) <= last_day(),
{
    lemma_range_bounds();
    lemma_date_within_year(y, m, d);
    lemma_days_before_year_monotone(1, y);
    if y < 9999 {
        lemma_days_before_year_monotone(y + 1, 9999);
    }
    lemma_year_length(9999);
}

/// Writing back the instant read from a valid timestamp text gives the text.
pub proof fn lemma_format_after_parse(s: Seq<char>)
    requires
        parse_timestamp_spec(s) is Some,
    ensures
        format_timestamp_spec(parse_timestamp_spec(s)->0) == Some(s),
{
    let f = text_fields(s);
    lemma_calendar_fields_of(f);
    lemma_digits_padded(s.subrange(0, 4));
    lemma_digits_padded(s.subrange(4, 6));
    lemma_digits_padded(s.subrange(6, 8));
    lemma_digits_padded(s.subrange(8, 10));
    lemma_digits_padded(s.subrange(10, 12));
    lemma_digits_padded(s.subrange(12, 14));
    assert(timestamp_text(f) =~= s);
}

/// Reading back the text written for an instant gives the instant.
pub proof fn lemma_parse_after_format(t: int)
    requires
        format_timestamp_spec(t) is Some,
    ensures
        parse_timestamp_spec(format_timestamp_spec(t)->0) == Some(t),
{
    lemma_fields_exist(t);
    let f = calendar_fields_of(t);
    lemma_pow10_values();
    lemma_padded_digits(f.0, 4);
    lemma_padded_digits(f.1, 2);
    lemma_padded_digits(f.2, 2);
    lemma_padded_digits(f.3, 2);
    lemma_padded_digits(f.4, 2);
    lemma_padded_digits(f.5, 2);
    let s = timestamp_text(f);
    assert(s.subrange(0, 4) =~= padded(f.0, 4));
    assert(s.subrange(4, 6) =~= padded(f.1, 2));
    assert(s.subrange(6, 8) =~= padded(f.2, 2));
    assert(s.subrange(8, 10) =~= padded(f.3, 2));
    assert(s.subrange(10, 12) =~= padded(f.4, 2));
    assert(s.subrange(12, 14) =~= padded(f.5, 2));
    assert(all_digits(s)) by {
        assert forall|i: int| 0 <= i < s.len() implies is_digit(#[trigger] s[i]) by {
            if i < 4 {
                assert(s[i] == s.subrange(0, 4)[i]);
            } else if i < 6 {
                assert(s[i] == s.subrange(4, 6)[i - 4]);
            } else if i < 8 {
                assert(s[i] == s.subrange(6, 8)[i - 6]);
            } else if i < 10 {
                assert(s[i] == s.subrange(8, 10)[i - 8]);
            } else if i < 12 {
                assert(s[i] == s.subrange(10, 12)[i - 10]);
            } else {
                assert(s[i] == s.subrange(12, 14)[i - 12]);
            }
        }
    }
    assert(text_fields(s) == f);
}

proof fn lemma_year_containing(k: int, y: int) -> (z: int)
    requires
        1 <= y <= 9999,
        days_before_year(y) <= k < days_before_year(10000),
    ensures
        y <= z <= 9999,
        days_before_year(z) <= k < days_before_year(z + 1),
    decreases 10000 - y,
{
    lemma_year_length(y);
    if k < days_before_year(y + 1) {
        y
    } else {
        lemma_year_containing(k, y + 1)
    }
}

proof fn lemma_month_containing(y: int, r: int, m: int) -> (n: int)
    requires
        1 <= m <= 12,
        days_before_month(y, m) <= r,
        r < if is_leap_year(y) {
            366int
        } else {
            365int
        },
    ensures
        m <= n <= 12,
        days_before_month(y, n) <= r < days_before_month(y, n) + days_in_month(y, n),
    decreases 12 - m,
{
    lemma_month_bounds(y, m);
    if r < days_before_month(y, m) + days_in_month(y, m) {
        m
    } else {
        lemma_month_containing(y, r, m + 1)
    }
}

/// Every instant in range has valid calendar fields.
pub proof fn lemma_fields_exist(t: int)
    requires
        in_timestamp_range(t),
    ensures
        is_valid_fields(calendar_fields_of(t)),
        seconds_of_fields(calendar_fields_of(t)) == t,
{
    lemma_range_bounds();
    let shifted = t + 719162 * 86400;
    let n = shifted / 86400;
    let sod = shifted % 86400;
    let k = n;
    assert(0 <= k <= 3652058);
    lemma_days_before_year_monotone(1, 1);
    let y = lemma_year_containing(k, 1);
    lemma_year_length(y);
    let m = lemma_month_containing(y, k - days_before_year(y), 1);
    let d = k - days_before_year(y) - days_before_month(y, m) + 1;
    let f = (y, m, d, sod / 3600, (sod % 3600) / 60, sod % 60);
    assert(is_valid_fields(f));
    assert(seconds_of_fields(f) == t);
}

// ---------------------------------------------------------------------------
// Closed-form day numbers (eras of 400 years starting in March)
// ---------------------------------------------------------------------------

/// The day count of `y-m-d` computed in eras of 400 years whose years start
/// in March: defined for every year, month and day.
#[verifier::opaque]
pub open spec fn civil_days(y: int, m: int, d: int) -> int {
    let yy = if m <= 2 {
        y - 1
    } else {
        y
    };
    let era = yy / 400;
    let yoe = yy - era * 400;
    let mp = if m > 2 {
        m - 3
    } else {
        m + 9
    };
    let doy = (153 * mp + 2) / 5 + d - 1;
    let doe = 365 * yoe + yoe / 4 - yoe / 100 + doy;
    era * 146097 + doe - 719468
}

proof fn lemma_step_div(p: int)
    ensures
        (p + 1) / 4 - p / 4 == if (p + 1) % 4 == 0 {
            1int
        } else {
            0int
        },
        (p + 1) / 100 - p / 100 == if (p + 1) % 100 == 0 {
            1int
        } else {
            0int
        },
        (p + 1) / 400 - p / 400 == if (p + 1) % 400 == 0 {
            1int
        } else {
            0int
        },
{
}

/// The length of year `y` in days, for any (proleptic) year.
proof fn lemma_any_year_length(y: int)
    ensures
        days_before_year(y + 1) - days_before_year(y) == if is_leap_year(y) {
            366int
        } else {
            365int
        },
{
    let p = y - 1;
    lemma_step_div(p);
    let a: int = if y % 4 == 0 { 1 } else { 0 };
    let b: int = if y % 100 == 0 { 1 } else { 0 };
    let c: int = if y % 400 == 0 { 1 } else { 0 };
    assert(days_before_year(y + 1) - days_before_year(y) == 365 + a - b + c);
    assert(y % 400 == 0 ==> y % 100 == 0);
    assert(y % 100 == 0 ==> y % 4 == 0);
}

proof fn lemma_era_split(v: int)
    ensures
        0 <= v - (v / 400) * 400 < 400,
        365 * v + v / 4 - v / 100 + v / 400 == (v / 400) * 146097 + 365 * (v - (v / 400) * 400)
            + (v - (v / 400) * 400) / 4 - (v - (v / 400) * 400) / 100,
{
    let e = v / 400;
    let r = v - e * 400;
    assert(0 <= r < 400);
    let q4 = r / 4;
    let q100 = r / 100;
    assert(r == 4 * q4 + r % 4);
    assert(r == 100 * q100 + r % 100);
    assert(v == 4 * (100 * e + q4) + r % 4);
    assert(v / 4 == 100 * e + q4);
    assert(v == 100 * (4 * e + q100) + r % 100);
    assert(v / 100 == 4 * e + q100);
}

/// On every month the closed form agrees with the day count of the calendar.
pub proof fn lemma_civil_days_agree(y: int, m: int, d: int)
    requires
        1 <= m <= 12,
    ensures
        civil_days(y, m, d) == days_from_epoch(y, m, d),
{
    reveal(civil_days);
    if m <= 2 {
        lemma_era_split(y - 1);
    } else {
        lemma_era_split(y);
        lemma_any_year_length(y);
    }
}

/// Start of the March-based year `k` within an era, in days.
pub open spec fn era_year_start(k: int) -> int {
    365 * k + k / 4 - k / 100
}

/// The March-based year of an era holding day `doe` of the era.
pub open spec fn year_of_era(doe: int) -> int {
    (doe - doe / 1460 + doe / 36524 - doe / 146096) / 365
}

/// The March-based year `k` of an era has a 29th of February.
pub open spec fn era_year_is_long(k: int) -> bool {
    (k + 1) % 4 == 0 && ((k + 1) % 100 != 0 || k == 399)
}

#[verifier::spinoff_prover]
proof fn lemma_year_of_era(doe: int)
    requires
        0 <= doe <= 146096,
    ensures
        0 <= year_of_era(doe) <= 399,
        era_year_start(year_of_era(doe)) <= doe,
        doe - era_year_start(year_of_era(doe)) <= 365,
        doe - era_year_start(year_of_era(doe)) == 365 ==> era_year_is_long(year_of_era(doe)),
{
    if doe == 146096 {
        assert(year_of_era(doe) == 399);
        assert(era_year_start(399) == 145731);
    } else {
        // doe = 36524 a + 1461 b + 365 c + doy: centuries, four-year cycles,
        // years of a cycle, day of the year.
        let a = doe / 36524;
        let r1 = doe - 36524 * a;
        assert(0 <= a <= 3 && 0 <= r1 <= 36523);
        let b = r1 / 1461;
        let r2 = r1 - 1461 * b;
        assert(0 <= b <= 24 && 0 <= r2 <= 1460);
        let c: int = if r2 / 365 > 3 {
            3
        } else {
            r2 / 365
        };
        let doy = r2 - 365 * c;
        assert(0 <= c <= 3 && 0 <= doy <= 365);
        assert(doy == 365 ==> c == 3 && r2 == 1460);
        assert(doy == 365 ==> b < 24);
        let k = 100 * a + 4 * b + c;
        assert(doe == 36524 * a + 1461 * b + 365 * c + doy);
        let big = 24 * a + b + 365 * c + doy;
        let carry: int = if big >= 1460 {
            1
        } else {
            0
        };
        assert(doe == 1460 * (25 * a + b) + big);
        assert(doe / 1460 == 25 * a + b + carry);
        assert(doe / 36524 == a);
        assert(doe / 146096 == 0);
        assert(doy == 365 ==> carry == 1);
        assert(doy == 0 ==> carry == 0);
        assert(doe - doe / 1460 + doe / 36524 - doe / 146096 == 365 * k + (doy - carry));
        assert(0 <= doy - carry <= 364);
        assert(year_of_era(doe) == k);
        assert(k / 4 == 25 * a + b);
        assert(k / 100 == a);
        assert(era_year_start(k) == 36524 * a + 1461 * b + 365 * c);
        assert(doe - era_year_start(k) == doy);
        if doy == 365 {
            assert(k + 1 == 4 * (25 * a + b + 1));
            assert((k + 1) % 4 == 0);
            assert((k + 1) % 100 != 0);
        }
    }
}

/// Length of month `mp` of a March-based year (`0` is March, `11` is
/// February); `long` years have a 29th of February.
pub open spec fn era_month_length(mp: int, long: bool) -> int {
    if mp == 11 {
        if long {
            29
        } else {
            28
        }
    } else if mp == 1 || mp == 3 || mp == 6 || mp == 8 {
        30
    } else {
        31
    }
}

proof fn lemma_month_of_era_year(doy: int, long: bool)
    requires
        0 <= doy <= if long {
            365int
        } else {
            364int
        },
    ensures
        0 <= (5 * doy + 2) / 153 <= 11,
        1 <= doy - (153 * ((5 * doy + 2) / 153) + 2) / 5 + 1 <= era_month_length(
            (5 * doy + 2) / 153,
            long,
        ),
{
    // Months start at days 0, 31, 61, 92, 122, 153, 184, 214, 245, 275, 306
    // and 337 of the March-based year.
    let mp = (5 * doy + 2) / 153;
    if doy < 31 {
        assert(mp == 0);
    } else if doy < 61 {
        assert(mp == 1);
    } else if doy < 92 {
        assert(mp == 2);
    } else if doy < 122 {
        assert(mp == 3);
    } else if doy < 153 {
        assert(mp == 4);
    } else if doy < 184 {
        assert(mp == 5);
    } else if doy < 214 {
        assert(mp == 6);
    } else if doy < 245 {
        assert(mp == 7);
    } else if doy < 275 {
        assert(mp == 8);
    } else if doy < 306 {
        assert(mp == 9);
    } else if doy < 337 {
        assert(mp == 10);
    } else {
        assert(mp == 11);
    }
}

/// The date on day `doy` of the March-based year `yoe` of era `era`:
/// `(year, month, day)`.
pub open spec fn date_of_era(era: int, yoe: int, doy: int) -> (int, int, int) {
    let mp = (5 * doy + 2) / 153;
    let d = doy - (153 * mp + 2) / 5 + 1;
    let m = if mp < 10 {
        mp + 3
    } else {
        mp - 9
    };
    let y = yoe + era * 400 + if m <= 2 {
        1int
    } else {
        0int
    };
    (y, m, d)
}

/// The date that the closed form reads from a day count, with the year not
/// yet narrowed: `(year, month, day)`.
#[verifier::opaque]
pub open spec fn civil_date(days: int) -> (int, int, int) {
    let z = days + 719468;
    let era = z / 146097;
    let doe = z - era * 146097;
    let yoe = year_of_era(doe);
    date_of_era(era, yoe, doe - era_year_start(yoe))
}

/// A day of a March-based era year is a valid date of the calendar, and the
/// closed form counts it back.
proof fn lemma_date_of_era(era: int, yoe: int, doy: int)
    requires
        0 <= yoe <= 399,
        0 <= doy <= 365,
        doy == 365 ==> era_year_is_long(yoe),
    ensures
        1 <= date_of_era(era, yoe, doy).1 <= 12,
        1 <= date_of_era(era, yoe, doy).2 <= days_in_month(
            date_of_era(era, yoe, doy).0,
            date_of_era(era, yoe, doy).1,
        ),
        civil_days(date_of_era(era, yoe, doy).0, date_of_era(era, yoe, doy).1, date_of_era(era, yoe, doy).2)
            == era * 146097 + era_year_start(yoe) + doy - 719468,
{
    reveal(civil_days);
    let long = era_year_is_long(yoe);
    lemma_month_of_era_year(doy, long);
    let mp = (5 * doy + 2) / 153;
    let y = date_of_era(era, yoe, doy).0;
    let m = date_of_era(era, yoe, doy).1;
    let d = date_of_era(era, yoe, doy).2;
    let yy = yoe + era * 400;
    assert(yy / 400 == era);
    assert(yy - (yy / 400) * 400 == yoe);
    assert((if m > 2 {
        m - 3
    } else {
        m + 9
    }) == mp);
    if m == 2 && long {
        assert(y == (yoe + 1) + 400 * era);
        assert(y % 4 == (yoe + 1) % 4);
        assert(y % 100 == (yoe + 1) % 100);
        if yoe == 399 {
            assert(y == 400 * (era + 1));
        }
        assert(is_leap_year(y));
    }
}

proof fn lemma_any_years_monotone(a: int, b: int)
    requires
        a <= b,
    ensures
        days_before_year(a) + 365 * (b - a) <= days_before_year(b),
    decreases b - a,
{
    if a < b {
        lemma_any_years_monotone(a, b - 1);
        lemma_any_year_length(b - 1);
    }
}

proof fn lemma_any_date_within_year(y: int, m: int, d: int)
    requires
        1 <= m <= 12,
        1 <= d <= days_in_month(y, m),
    ensures
        days_before_year(y) <= days_from_epoch(y, m, d) + epoch_day_offset(),
        days_from_epoch(y, m, d) + epoch_day_offset() < days_before_year(y + 1),
{
    lemma_month_bounds(y, m);
    lemma_any_year_length(y);
    if m < 12 {
        lemma_month_bounds(y, 12);
        if m < 11 {
            lemma_days_before_month_monotone(y, m + 1, 12);
        }
    }
}

/// The closed form reads back every day number of the representable range:
/// it gives the valid date with that day number.
pub proof fn lemma_civil_date_inverts(days: int)
    requires
        first_day() <= days <= last_day(),
    ensures
        is_valid_date(civil_date(days).0, civil_date(days).1, civil_date(days).2),
        days_from_epoch(civil_date(days).0, civil_date(days).1, civil_date(days).2) == days,
{
    reveal(civil_date);
    let z = days + 719468;
    let era = z / 146097;
    let doe = z - era * 146097;
    assert(0 <= doe <= 146096);
    lemma_year_of_era(doe);
    let yoe = year_of_era(doe);
    let doy = doe - era_year_start(yoe);
    lemma_date_of_era(era, yoe, doy);
    let (y, m, d) = date_of_era(era, yoe, doy);
    assert(civil_date(days) == (y, m, d));
    lemma_civil_days_agree(y, m, d);
    lemma_any_date_within_year(y, m, d);
    lemma_range_bounds();
    if y <= 0 {
        lemma_any_years_monotone(y + 1, 1);
        assert(days_before_year(1) == 0);
    }
    if y >= 10000 {
        lemma_any_years_monotone(10000, y);
    }
}

} // verus!
