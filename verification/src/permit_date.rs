//! The upstream permit-date format: an ISO-8601 date-time with fractional
//! seconds and a trailing `Z`, as in `2024-01-15T00:00:00.000000Z`.
//!
//! A record's permit date must parse from this fixed format; the stored value
//! is the plain calendar-date prefix `YYYY-MM-DD`.

use vstd::prelude::*;

verus! {

pub open spec fn is_digit(c: char) -> bool {
    '0' <= c && c <= '9'
}

pub open spec fn digit_val(c: char) -> int {
    c as int - 48
}

/// The number written by the two digits at positions `i`, `i + 1`.
pub open spec fn two_digits(s: Seq<char>, i: int) -> int {
    10 * digit_val(s[i]) + digit_val(s[i + 1])
}

/// The number written by the four digits at positions `i` .. `i + 3`.
pub open spec fn four_digits(s: Seq<char>, i: int) -> int {
    1000 * digit_val(s[i]) + 100 * digit_val(s[i + 1]) + 10 * digit_val(s[i + 2]) + digit_val(
        s[i + 3],
    )
}

pub open spec fn is_leap_year(y: int) -> bool {
    y % 4 == 0 && (y % 100 != 0 || y % 400 == 0)
}

pub open spec fn days_in_month(y: int, m: int) -> int {
    if m == 2 {
        if is_leap_year(y) {
            29
        } else {
            28
        }
    } else if m == 4 || m == 6 || m == 9 || m == 11 {
        30
    } else {
        31
    }
}

/// The fixed shape `YYYY-MM-DDTHH:MM:SS.f...fZ`: nineteen date-time
/// characters, a dot, at least one fractional-second digit, and a final `Z`.
pub open spec fn shape_ok(s: Seq<char>) -> bool {
    &&& s.len() >= 22
    &&& is_digit(s[0]) && is_digit(s[1]) && is_digit(s[2]) && is_digit(s[3])
    &&& s[4] == '-'
    &&& is_digit(s[5]) && is_digit(s[6])
    &&& s[7] == '-'
    &&& is_digit(s[8]) && is_digit(s[9])
    &&& s[10] == 'T'
    &&& is_digit(s[11]) && is_digit(s[12])
    &&& s[13] == ':'
    &&& is_digit(s[14]) && is_digit(s[15])
    &&& s[16] == ':'
    &&& is_digit(s[17]) && is_digit(s[18])
    &&& s[19] == '.'
    &&& (forall|i: int| 20 <= i < s.len() - 1 ==> is_digit(#[trigger] s[i]))
    &&& s[s.len() - 1] == 'Z'
}

/// Field ranges: a real calendar date (leap years counted) and a time of day.
pub open spec fn fields_ok(s: Seq<char>) -> bool {
    &&& 1 <= two_digits(s, 5) <= 12
    &&& 1 <= two_digits(s, 8) <= days_in_month(four_digits(s, 0), two_digits(s, 5))
    &&& two_digits(s, 11) <= 23
    &&& two_digits(s, 14) <= 59
    &&& two_digits(s, 17) <= 59
}

/// A permit-date string is valid when it has the fixed shape and every field
/// is in range.
pub open spec fn permit_datetime_valid(s: Seq<char>) -> bool {
    shape_ok(s) && fields_ok(s)
}

/// The calendar-date prefix `YYYY-MM-DD` of a valid permit-date string.
pub open spec fn date_part(s: Seq<char>) -> Seq<char> {
    s.subrange(0, 10)
}

/// Digit test matching `is_digit`.
fn digit_char(c: char) -> (r: bool)
    ensures
        r == is_digit(c),
{
    '0' <= c && c <= '9'
}

/// Reads the two-digit number at position `i`.
fn read_two(s: &str, i: usize) -> (r: u32)
    requires
        i + 1 < s@.len() <= usize::MAX,
        is_digit(s@[i as int]),
        is_digit(s@[i as int + 1]),
    ensures
        r == two_digits(s@, i as int),
{
    let a = s.get_char(i) as u32;
    let b = s.get_char(i + 1) as u32;
    10 * (a - 48) + (b - 48)
}

/// Reads the four-digit number at position `i`.
fn read_four(s: &str, i: usize) -> (r: u32)
    requires
        i + 3 < s@.len() <= usize::MAX,
        is_digit(s@[i as int]),
        is_digit(s@[i as int + 1]),
        is_digit(s@[i as int + 2]),
        is_digit(s@[i as int + 3]),
    ensures
        r == four_digits(s@, i as int),
{
    let a = s.get_char(i) as u32;
    let b = s.get_char(i + 1) as u32;
    let c = s.get_char(i + 2) as u32;
    let d = s.get_char(i + 3) as u32;
    1000 * (a - 48) + 100 * (b - 48) + 10 * (c - 48) + (d - 48)
}

/// Parses a permit-date string of the fixed upstream format and returns its
/// calendar-date prefix, or nothing when the string does not match the format
/// or does not name a real date and time.
pub fn parse_permit_date(s: &str) -> (r: Option<String>)
    ensures
        r is Some <==> permit_datetime_valid(s@),
        r is Some ==> r.unwrap()@ == date_part(s@),
{
    let n = s.unicode_len();
    if n < 22 {
        return None;
    }
    // Punctuation of the fixed shape.
    if s.get_char(4) != '-' || s.get_char(7) != '-' || s.get_char(10) != 'T' || s.get_char(13)
        != ':' || s.get_char(16) != ':' || s.get_char(19) != '.' || s.get_char(n - 1) != 'Z' {
        return None;
    }
    // Digits of the date-time fields.
    if !(digit_char(s.get_char(0)) && digit_char(s.get_char(1)) && digit_char(s.get_char(2))
        && digit_char(s.get_char(3)) && digit_char(s.get_char(5)) && digit_char(s.get_char(6))
        && digit_char(s.get_char(8)) && digit_char(s.get_char(9)) && digit_char(s.get_char(11))
        && digit_char(s.get_char(12)) && digit_char(s.get_char(14)) && digit_char(s.get_char(15))
        && digit_char(s.get_char(17)) && digit_char(s.get_char(18))) {
        return None;
    }
    // Fractional-second digits.
    let mut i: usize = 20;
    while i < n - 1
        invariant
            n == s@.len(),
            22 <= n,
            20 <= i <= n - 1,
            forall|j: int| 20 <= j < i ==> is_digit(#[trigger] s@[j]),
        decreases n - 1 - i,
    {
        if !digit_char(s.get_char(i)) {
            return None;
        }
        i = i + 1;
    }
    // Field ranges.
    let year = read_four(s, 0);
    let month = read_two(s, 5);
    let day = read_two(s, 8);
    let hour = read_two(s, 11);
    let minute = read_two(s, 14);
    let second = read_two(s, 17);
    if month < 1 || month > 12 {
        return None;
    }
    let month_days: u32 = if month == 2 {
        if year % 4 == 0 && (year % 100 != 0 || year % 400 == 0) {
            29
        } else {
            28
        }
    } else if month == 4 || month == 6 || month == 9 || month == 11 {
        30
    } else {
        31
    };
    if day < 1 || day > month_days {
        return None;
    }
    if hour > 23 || minute > 59 || second > 59 {
        return None;
    }
    let date = s.substring_char(0, 10);
    Some(date.to_owned())
}

} // verus!
