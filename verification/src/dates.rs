use vstd::prelude::*;

verus! {

/// A calendar date held as plain year, month and day values.
///
/// A `Date` is well formed when the month lies in `1..=12` and the day lies
/// within the month, leap years accounted for.
#[derive(Clone, Copy, Debug, PartialEq, Eq, Structural)]
pub struct Date {
    pub year: u16,
    pub month: u8,
    pub day: u8,
}

pub open spec fn is_leap_year(y: int) -> bool {
    y % 4 == 0 && (y % 100 != 0 || y % 400 == 0)
}

pub open spec fn days_in_month(y: int, m: int) -> int {
    if m == 2 {
        if is_leap_year(y) {
            29
        } else {
            28
        }
    } else if m == 4 || m == 6 || m == 9 || m == 11 {
        30
    } else {
        31
    }
}

impl Date {
    pub open spec fn well_formed(self) -> bool {
        1 <= self.month <= 12 && 1 <= self.day <= days_in_month(
            self.year as int,
            self.month as int,
        )
    }
}

/// `a` is on or before `b` in calendar order (year, then month, then day).
pub open spec fn date_le(a: Date, b: Date) -> bool {
    if a.year != b.year {
        a.year < b.year
    } else if a.month != b.month {
        a.month < b.month
    } else {
        a.day <= b.day
    }
}

pub open spec fn is_digit(b: u8) -> bool {
    48 <= b <= 57
}

pub open spec fn digit_val(b: u8) -> int {
    b - 48
}

/// The date text has the shape `YYYY-MM-DD`: ten bytes, digits in the year,
/// month and day positions, `-` (byte 45) between them.
pub open spec fn date_shape_ok(v: Seq<u8>) -> bool {
    &&& v.len() == 10
    &&& is_digit(v[0]) && is_digit(v[1]) && is_digit(v[2]) && is_digit(v[3])
    &&& v[4] == 45
    &&& is_digit(v[5]) && is_digit(v[6])
    &&& v[7] == 45
    &&& is_digit(v[8]) && is_digit(v[9])
}

pub open spec fn spec_year(v: Seq<u8>) -> int {
    digit_val(v[0]) * 1000 + digit_val(v[1]) * 100 + digit_val(v[2]) * 10 + digit_val(v[3])
}

pub open spec fn spec_month(v: Seq<u8>) -> int {
    digit_val(v[5]) * 10 + digit_val(v[6])
}

pub open spec fn spec_day(v: Seq<u8>) -> int {
    digit_val(v[8]) * 10 + digit_val(v[9])
}

/// The date text is well shaped and names a valid calendar date.
pub open spec fn date_text_ok(v: Seq<u8>) -> bool {
    &&& date_shape_ok(v)
    &&& 1 <= spec_month(v) <= 12
    &&& 1 <= spec_day(v) <= days_in_month(spec_year(v), spec_month(v))
}

pub open spec fn spec_parse_date(v: Seq<u8>) -> Date {
    Date { year: spec_year(v) as u16, month: spec_month(v) as u8, day: spec_day(v) as u8 }
}

/// Parses `YYYY-MM-DD` into a `Date`, rejecting anything that is not a valid
/// calendar date.
pub fn parse_date(v: &Vec<u8>) -> (r: Option<Date>)
    ensures
        r is Some <==> date_text_ok(v@),
        r is Some ==> r->0 == spec_parse_date(v@) && r->0.well_formed(),
{
    if v.len() != 10 {
        return None;
    }
    if !(is_digit_exec(v[0]) && is_digit_exec(v[1]) && is_digit_exec(v[2]) && is_digit_exec(v[3])
        && v[4] == 45 && is_digit_exec(v[5]) && is_digit_exec(v[6]) && v[7] == 45 && is_digit_exec(
        v[8],
    ) && is_digit_exec(v[9])) {
        return None;
    }
    let year: u16 = (v[0] - 48) as u16 * 1000 + (v[1] - 48) as u16 * 100 + (v[2] - 48) as u16 * 10
        + (v[3] - 48) as u16;
    let month: u8 = (v[5] - 48) * 10 + (v[6] - 48);
    let day: u8 = (v[8] - 48) * 10 + (v[9] - 48);
    if month < 1 || month > 12 {
        return None;
    }
    if day < 1 || day > days_in_month_exec(year, month) {
        return None;
    }
    Some(Date { year, month, day })
}

fn is_digit_exec(b: u8) -> (r: bool)
    ensures
        r == is_digit(b),
{
    48 <= b && b <= 57
}

fn days_in_month_exec(y: u16, m: u8) -> (r: u8)
    ensures
        r == days_in_month(y as int, m as int),
{
    if m == 2 {
        if y % 4 == 0 && (y % 100 != 0 || y % 400 == 0) {
            29
        } else {
            28
        }
    } else if m == 4 || m == 6 || m == 9 || m == 11 {
        30
    } else {
        31
    }
}

/// `a >= b` in calendar order, executably.
pub fn date_ge(a: &Date, b: &Date) -> (r: bool)
    ensures
        r == date_le(*b, *a),
{
    if a.year != b.year {
        a.year > b.year
    } else if a.month != b.month {
        a.month > b.month
    } else {
        a.day >= b.day
    }
}

} // verus!
