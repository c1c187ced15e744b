//! Parsing of date text in the form `YYYY-MM-DD HH:MM:SS` (proleptic
//! Gregorian calendar, years 0000 through 9999) into seconds since
//! 1970-01-01T00:00:00, with a sentinel fallback for malformed text.

use vstd::prelude::*;

verus! {

/// Timestamp substituted for a record whose date text cannot be parsed:
/// second zero of the epoch, the earliest instant of the keying scheme.
pub const SENTINEL_TIMESTAMP: i64 = 0;

/// Days from 0000-01-01 to 1970-01-01 in the proleptic Gregorian calendar.
pub const DAYS_TO_EPOCH: i64 = 719528;

// ---------------------------------------------------------------------------
// Calendar arithmetic (specification level)
// ---------------------------------------------------------------------------

pub open spec fn is_leap_year(y: int) -> bool {
    (y % 4 == 0 && y % 100 != 0) || y % 400 == 0
}

pub open spec fn days_in_month(y: int, m: int) -> int {
    if m == 2 {
        if is_leap_year(y) {
            29
        } else {
            28
        }
    } else if m == 4 || m == 6 || m == 9 || m == 11 {
        30
    } else {
        31
    }
}

/// Number of leap years among 0, 1, ..., y - 1 (year 0 is a leap year).
pub open spec fn leap_years_before(y: int) -> int {
    (y + 3) / 4 - (y + 99) / 100 + (y + 399) / 400
}

/// Days from 0000-01-01 to the first day of year `y`.
pub open spec fn days_before_year(y: int) -> int {
    365 * y + leap_years_before(y)
}

/// Days of year `y` that precede the first day of month `m` (1 <= m <= 12).
pub open spec fn days_before_month(y: int, m: int) -> int {
    let plain: int = if m == 1 {
        0
    } else if m == 2 {
        31
    } else if m == 3 {
        59
    } else if m == 4 {
        90
    } else if m == 5 {
        120
    } else if m == 6 {
        151
    } else if m == 7 {
        181
    } else if m == 8 {
        212
    } else if m == 9 {
        243
    } else if m == 10 {
        273
    } else if m == 11 {
        304
    } else {
        334
    };
    plain + if m > 2 && is_leap_year(y) {
        1int
    } else {
        0int
    }
}

/// Seconds from 1970-01-01T00:00:00 to the given calendar instant.
pub open spec fn epoch_seconds_of(y: int, mo: int, d: int, h: int, mi: int, s: int) -> int {
    (days_before_year(y) + days_before_month(y, mo) + (d - 1) - DAYS_TO_EPOCH) * 86400 + h * 3600
        + mi * 60 + s
}

// ---------------------------------------------------------------------------
// The date grammar, over the UTF-8 bytes of the text
// ---------------------------------------------------------------------------

pub open spec fn is_digit(b: u8) -> bool {
    48 <= b <= 57  // '0' through '9'

}

pub open spec fn digit_val(b: u8) -> int {
    b - 48
}

pub open spec fn two_digits(s: Seq<u8>, i: int) -> int {
    10 * digit_val(s[i]) + digit_val(s[i + 1])
}

pub open spec fn four_digits(s: Seq<u8>, i: int) -> int {
    1000 * digit_val(s[i]) + 100 * digit_val(s[i + 1]) + 10 * digit_val(s[i + 2]) + digit_val(
        s[i + 3],
    )
}

/// The text has the exact shape `YYYY-MM-DD HH:MM:SS`: nineteen bytes,
/// digits in the numeric positions, `-`, space and `:` as separators.
pub open spec fn wf_date_shape(s: Seq<u8>) -> bool {
    &&& s.len() == 19
    &&& is_digit(s[0]) && is_digit(s[1]) && is_digit(s[2]) && is_digit(s[3])
    &&& s[4] == 45  // '-'
    &&& is_digit(s[5]) && is_digit(s[6])
    &&& s[7] == 45  // '-'
    &&& is_digit(s[8]) && is_digit(s[9])
    &&& s[10] == 32  // ' '
    &&& is_digit(s[11]) && is_digit(s[12])
    &&& s[13] == 58  // ':'
    &&& is_digit(s[14]) && is_digit(s[15])
    &&& s[16] == 58  // ':'
    &&& is_digit(s[17]) && is_digit(s[18])
}

/// The text is a well-formed date: right shape, and every component in range
/// (the day respecting the month's length and leap years).
pub open spec fn wf_datetime(s: Seq<u8>) -> bool {
    &&& wf_date_shape(s)
    &&& 1 <= two_digits(s, 5) <= 12
    &&& 1 <= two_digits(s, 8) <= days_in_month(four_digits(s, 0), two_digits(s, 5))
    &&& two_digits(s, 11) <= 23
    &&& two_digits(s, 14) <= 59
    &&& two_digits(s, 17) <= 59
}

/// The instant a well-formed text denotes, as seconds since the epoch.
pub open spec fn datetime_seconds(s: Seq<u8>) -> int
    recommends
        wf_datetime(s),
{
    epoch_seconds_of(
        four_digits(s, 0),
        two_digits(s, 5),
        two_digits(s, 8),
        two_digits(s, 11),
        two_digits(s, 14),
        two_digits(s, 17),
    )
}

/// The timestamp a record derives from its date text: the denoted instant
/// when the text is well formed, the sentinel otherwise.
pub open spec fn derived_timestamp(s: Seq<u8>) -> int {
    if wf_datetime(s) {
        datetime_seconds(s)
    } else {
        SENTINEL_TIMESTAMP as int
    }
}

/// The instant a well-formed date text denotes is bounded: it lies between
/// 0000-01-01T00:00:00 and 9999-12-31T23:59:59, so it fits in an `i64`.
pub proof fn lemma_datetime_seconds_bounded(s: Seq<u8>)
    requires
        wf_datetime(s),
    ensures
        -62167219200 <= datetime_seconds(s) <= 253408867199,
{
    let y = four_digits(s, 0);
    assert(0 <= y <= 9999);
    vstd::arithmetic::div_mod::lemma_div_pos_is_pos(y + 3, 4);
    vstd::arithmetic::div_mod::lemma_div_pos_is_pos(y + 99, 100);
    vstd::arithmetic::div_mod::lemma_div_pos_is_pos(y + 399, 400);
    vstd::arithmetic::div_mod::lemma_div_is_ordered(y + 3, 10002, 4);
    vstd::arithmetic::div_mod::lemma_div_is_ordered(y + 99, 10098, 100);
    vstd::arithmetic::div_mod::lemma_div_is_ordered(y + 399, 10398, 400);
    assert((y + 99) / 100 <= 100);
    assert((y + 399) / 400 <= 25);
    assert((y + 3) / 4 <= 2500);
}

// ---------------------------------------------------------------------------
// Executable parsing
// ---------------------------------------------------------------------------

/// Value of one decimal digit byte.
fn digit_of(b: u8) -> (r: u32)
    requires
        is_digit(b),
    ensures
        r == digit_val(b),
{
    (b - 48) as u32
}

/// Days from 0000-01-01 to the first day of year `y`.
fn days_before_year_num(y: u32) -> (r: i64)
    requires
        y <= 9999,
    ensures
        r == days_before_year(y as int),
{
    let a: u32 = (y + 3) / 4;
    let b: u32 = (y + 99) / 100;
    let c: u32 = (y + 399) / 400;
    365 * (y as i64) + (a as i64) - (b as i64) + (c as i64)
}

fn is_leap_year_num(y: u32) -> (r: bool)
    ensures
        r == is_leap_year(y as int),
{
    (y % 4 == 0 && y % 100 != 0) || y % 400 == 0
}

fn days_in_month_num(y: u32, m: u32) -> (r: u32)
    requires
        1 <= m <= 12,
    ensures
        r == days_in_month(y as int, m as int),
{
    if m == 2 {
        if is_leap_year_num(y) {
            29
        } else {
            28
        }
    } else if m == 4 || m == 6 || m == 9 || m == 11 {
        30
    } else {
        31
    }
}

fn days_before_month_num(y: u32, m: u32) -> (r: u32)
    requires
        1 <= m <= 12,
    ensures
        r == days_before_month(y as int, m as int),
{
    let plain: u32 = if m == 1 {
        0
    } else if m == 2 {
        31
    } else if m == 3 {
        59
    } else if m == 4 {
        90
    } else if m == 5 {
        120
    } else if m == 6 {
        151
    } else if m == 7 {
        181
    } else if m == 8 {
        212
    } else if m == 9 {
        243
    } else if m == 10 {
        273
    } else if m == 11 {
        304
    } else {
        334
    };
    if m > 2 && is_leap_year_num(y) {
        plain + 1
    } else {
        plain
    }
}

/// Parse date text of the form `YYYY-MM-DD HH:MM:SS`.
///
/// Returns the denoted seconds since the epoch exactly when the text is a
/// well-formed date, and `None` otherwise.
pub fn parse_datetime(s: &[u8]) -> (r: Option<i64>)
    ensures
        r is Some <==> wf_datetime(s@),
        r matches Some(t) ==> t == datetime_seconds(s@),
{
    if s.len() != 19 {
        return None;
    }
    if !(s[4] == 45 && s[7] == 45 && s[10] == 32 && s[13] == 58 && s[16] == 58) {
        return None;
    }
    let digits_ok = s[0] >= 48 && s[0] <= 57 && s[1] >= 48 && s[1] <= 57 && s[2] >= 48 && s[2] <= 57
        && s[3] >= 48 && s[3] <= 57 && s[5] >= 48 && s[5] <= 57 && s[6] >= 48 && s[6] <= 57 && s[8]
        >= 48 && s[8] <= 57 && s[9] >= 48 && s[9] <= 57 && s[11] >= 48 && s[11] <= 57 && s[12] >= 48
        && s[12] <= 57 && s[14] >= 48 && s[14] <= 57 && s[15] >= 48 && s[15] <= 57 && s[17] >= 48
        && s[17] <= 57 && s[18] >= 48 && s[18] <= 57;
    if !digits_ok {
        return None;
    }
    let y: u32 = 1000 * digit_of(s[0]) + 100 * digit_of(s[1]) + 10 * digit_of(s[2]) + digit_of(
        s[3],
    );
    let mo: u32 = 10 * digit_of(s[5]) + digit_of(s[6]);
    let d: u32 = 10 * digit_of(s[8]) + digit_of(s[9]);
    let h: u32 = 10 * digit_of(s[11]) + digit_of(s[12]);
    let mi: u32 = 10 * digit_of(s[14]) + digit_of(s[15]);
    let sec: u32 = 10 * digit_of(s[17]) + digit_of(s[18]);
    if mo < 1 || mo > 12 {
        return None;
    }
    if d < 1 || d > days_in_month_num(y, mo) {
        return None;
    }
    if h > 23 || mi > 59 || sec > 59 {
        return None;
    }
    let days: i64 = days_before_year_num(y) + (days_before_month_num(y, mo) as i64) + (d as i64)
        - 1;
    let seconds: i64 = (days - DAYS_TO_EPOCH) * 86400 + (h as i64) * 3600 + (mi as i64) * 60 + (
    sec as i64);
    Some(seconds)
}

/// Derive a record's timestamp from its date text: the denoted instant for a
/// well-formed date, the sentinel for malformed text.
pub fn derive_timestamp(s: &[u8]) -> (r: i64)
    ensures
        r == derived_timestamp(s@),
{
    match parse_datetime(s) {
        Some(t) => t,
        None => SENTINEL_TIMESTAMP,
    }
}

} // verus!
