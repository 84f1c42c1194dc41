//! A calendar date as plain values, and its day/month/year text form.
//! Validity follows the proleptic Gregorian calendar.

use vstd::prelude::*;
use crate::text;

verus! {

#[derive(Debug, Clone, Copy, PartialEq, Eq, Structural)]
pub struct Date {
    pub day: u8,
    pub month: u8,
    pub year: u32,
}

pub open spec fn spec_is_leap(year: u32) -> bool {
    year % 4 == 0 && (year % 100 != 0 || year % 400 == 0)
}

pub open spec fn spec_days_in_month(month: u8, year: u32) -> u8 {
    if month == 2 {
        if spec_is_leap(year) {
            29
        } else {
            28
        }
    } else if month == 4 || month == 6 || month == 9 || month == 11 {
        30
    } else {
        31
    }
}

/// A well-formed calendar date: month and day in range for the year.
pub open spec fn spec_date_valid(d: Date) -> bool {
    1 <= d.month <= 12 && 1 <= d.day <= spec_days_in_month(d.month, d.year) && d.year <= 9999
}

/// The date denoted by ten characters `dd/mm/yyyy`, when well formed.
pub open spec fn spec_parse_dmy(s: Seq<char>) -> Option<Date> {
    if s.len() == 10 && s[2] == '/' && s[5] == '/' && text::all_digits(s.subrange(0, 2))
        && text::all_digits(s.subrange(3, 5)) && text::all_digits(s.subrange(6, 10)) {
        let d = (Date {
            day: text::digits_value(s.subrange(0, 2)) as u8,
            month: text::digits_value(s.subrange(3, 5)) as u8,
            year: text::digits_value(s.subrange(6, 10)) as u32,
        });
        if spec_date_valid(d) {
            Some(d)
        } else {
            None
        }
    } else {
        None
    }
}

impl Date {
    pub open spec fn valid(self) -> bool {
        spec_date_valid(self)
    }

    pub fn is_leap_year(year: u32) -> (r: bool)
        ensures
            r == spec_is_leap(year),
    {
        year % 4 == 0 && (year % 100 != 0 || year % 400 == 0)
    }

    pub fn days_in_month(month: u8, year: u32) -> (r: u8)
        ensures
            r == spec_days_in_month(month, year),
    {
        if month == 2 {
            if Date::is_leap_year(year) {
                29
            } else {
                28
            }
        } else if month == 4 || month == 6 || month == 9 || month == 11 {
            30
        } else {
            31
        }
    }

    /// Parse a `dd/mm/yyyy` text into a valid calendar date.
    pub fn parse_dmy(s: &str) -> (r: Option<Date>)
        ensures
            r == spec_parse_dmy(s@),
    {
        let v = text::chars_of(s);
        Date::parse_dmy_chars(&v)
    }

    /// Parse a `dd/mm/yyyy` character vector into a valid calendar date.
    pub fn parse_dmy_chars(v: &Vec<char>) -> (r: Option<Date>)
        ensures
            r == spec_parse_dmy(v@),
    {
        if v.len() != 10 {
            return None;
        }
        if v[2] != '/' || v[5] != '/' {
            return None;
        }
        let day_part = text::take_range(v, 0, 2);
        let month_part = text::take_range(v, 3, 5);
        let year_part = text::take_range(v, 6, 10);
        let day_opt = text::parse_u32(&day_part);
        let month_opt = text::parse_u32(&month_part);
        let year_opt = text::parse_u32(&year_part);
        proof {
            if text::all_digits(v@.subrange(0, 2)) {
                lemma_two_digits_small(v@.subrange(0, 2));
            }
            if text::all_digits(v@.subrange(3, 5)) {
                lemma_two_digits_small(v@.subrange(3, 5));
            }
            if text::all_digits(v@.subrange(6, 10)) {
                lemma_four_digits_small(v@.subrange(6, 10));
            }
        }
        let (day32, month32, year) = match (day_opt, month_opt, year_opt) {
            (Some(a), Some(b), Some(c)) => (a, b, c),
            _ => {
                return None;
            },
        };
        let d = Date { day: day32 as u8, month: month32 as u8, year };
        if 1 <= d.month && d.month <= 12 && 1 <= d.day && d.day <= Date::days_in_month(
            d.month,
            d.year,
        ) {
            Some(d)
        } else {
            None
        }
    }
}

spec fn pow10(n: nat) -> int
    decreases n,
{
    if n == 0 {
        1
    } else {
        10 * pow10((n - 1) as nat)
    }
}

proof fn lemma_digits_value_bound(s: Seq<char>)
    requires
        text::all_digits(s),
    ensures
        0 <= text::digits_value(s) < pow10(s.len()),
    decreases s.len(),
{
    if s.len() == 0 {
    } else {
        let s1 = s.drop_last();
        assert(forall|i: int| 0 <= i < s1.len() ==> s1[i] == s[i]);
        assert(text::all_digits(s1));
        lemma_digits_value_bound(s1);
        assert(text::is_digit(s.last()));
    }
}

proof fn lemma_two_digits_small(s: Seq<char>)
    requires
        s.len() == 2,
        text::all_digits(s),
    ensures
        0 <= text::digits_value(s) < 100,
{
    lemma_digits_value_bound(s);
    assert(pow10(2) == 100) by {
        reveal_with_fuel(pow10, 3);
    }
}

proof fn lemma_four_digits_small(s: Seq<char>)
    requires
        s.len() == 4,
        text::all_digits(s),
    ensures
        0 <= text::digits_value(s) < 10000,
{
    lemma_digits_value_bound(s);
    assert(pow10(4) == 10000) by {
        reveal_with_fuel(pow10, 5);
    }
}

} // verus!
