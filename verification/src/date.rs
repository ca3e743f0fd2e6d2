//! Calendar dates as plain values.
//!
//! The pipeline holds every date as a [`Date`]: a proleptic Gregorian
//! calendar date with the year restricted to four decimal digits, which is
//! what the ledger's `YYYY-MM-DD` header format can carry.

use chrono::Datelike;
use vstd::prelude::*;
use vstd::string::StringExecFns;

use crate::digits::{spec_pad2, spec_pad4, u64_pad2, u64_pad4};

verus! {

/// The `(year, month, day)` that `chrono::NaiveDate::parse_from_str(s, fmt)`
/// yields, or `None` where it fails. The result depends on the two strings
/// alone.
pub uninterp spec fn chrono_date_from_str(s: Seq<char>, fmt: Seq<char>) -> Option<(int, int, int)>;

/// A calendar date. Well-formed values satisfy [`Date::wf`].
#[derive(Debug, Clone, Copy, PartialEq, Eq, Structural)]
pub struct Date {
    pub year: i32,
    pub month: u8,
    pub day: u8,
}

/// True for leap years of the proleptic Gregorian calendar.
pub open spec fn spec_is_leap_year(y: int) -> bool {
    (y % 4 == 0 && y % 100 != 0) || y % 400 == 0
}

/// Number of days in the given month of the given year.
pub open spec fn spec_days_in_month(y: int, m: int) -> int {
    if m == 2 {
        if spec_is_leap_year(y) {
            29
        } else {
            28
        }
    } else if m == 4 || m == 6 || m == 9 || m == 11 {
        30
    } else {
        31
    }
}

/// A valid calendar day whose year the ledger's date format can carry.
pub open spec fn spec_valid_date(y: int, m: int, d: int) -> bool {
    &&& 0 <= y <= 9999
    &&& 1 <= m <= 12
    &&& 1 <= d <= spec_days_in_month(y, m)
}

impl Date {
    /// Well-formedness: the fields name a valid calendar day.
    pub open spec fn wf(self) -> bool {
        spec_valid_date(self.year as int, self.month as int, self.day as int)
    }

    /// Builds a date, rejecting anything that is not a valid calendar day
    /// with a four-digit year.
    pub fn new(year: i32, month: u8, day: u8) -> (r: Option<Date>)
        ensures
            r matches Some(d) ==> d == (Date { year, month, day }) && d.wf(),
            r is None ==> !spec_valid_date(year as int, month as int, day as int),
    {
        if 0 <= year && year <= 9999 && 1 <= month && month <= 12 && 1 <= day {
            let leap = (year % 4 == 0 && year % 100 != 0) || year % 400 == 0;
            let max_day: u8 = if month == 2 {
                if leap {
                    29
                } else {
                    28
                }
            } else if month == 4 || month == 6 || month == 9 || month == 11 {
                30
            } else {
                31
            };
            if day <= max_day {
                Some(Date { year, month, day })
            } else {
                None
            }
        } else {
            None
        }
    }
}

/// Relies on `chrono::NaiveDate::parse_from_str` for parsing a date out of
/// text under a strftime-style format (time fields, if any, are parsed and
/// ignored), and on `chrono::Datelike::{year, month, day}` to read the parsed
/// date's fields; `month` and `day` are documented to range over 1..=12 and
/// 1..=31, so the narrowing casts lose nothing.
#[verifier::external_body]
fn chrono_parse_date(s: &str, fmt: &str) -> (r: Option<(i32, u8, u8)>)
    ensures
        r matches Some(p) ==> chrono_date_from_str(s@, fmt@) == Some(
            (p.0 as int, p.1 as int, p.2 as int),
        ),
        r is None ==> chrono_date_from_str(s@, fmt@) is None,
{
    match chrono::NaiveDate::parse_from_str(s, fmt) {
        Ok(d) => Some((d.year(), d.month() as u8, d.day() as u8)),
        Err(_) => None,
    }
}

/// What parsing text as a date yields: the parsed day where the underlying
/// parser accepts the text and the result is a date [`Date`] can carry, and
/// nothing otherwise.
pub open spec fn spec_parse_date(s: Seq<char>, fmt: Seq<char>) -> Option<Date> {
    match chrono_date_from_str(s, fmt) {
        Some((y, m, d)) => if spec_valid_date(y, m, d) {
            Some(Date { year: y as i32, month: m as u8, day: d as u8 })
        } else {
            None
        },
        None => None,
    }
}

/// Parses text as a calendar date under the given format. Returns `None`
/// where the text does not parse, or parses to a day outside what [`Date`]
/// carries.
pub fn parse_date(s: &str, fmt: &str) -> (r: Option<Date>)
    ensures
        r == spec_parse_date(s@, fmt@),
        r matches Some(d) ==> d.wf(),
{
    match chrono_parse_date(s, fmt) {
        Some((y, m, d)) => Date::new(y, m, d),
        None => None,
    }
}

/// The `YYYY-MM-DD` rendering of a date: each field in decimal, zero-padded
/// to four, two and two digits.
pub open spec fn spec_format_ymd(d: Date) -> Seq<char> {
    spec_pad4(d.year as nat) + seq!['-'] + spec_pad2(d.month as nat) + seq!['-'] + spec_pad2(
        d.day as nat,
    )
}

impl Date {
    /// Renders the date as `YYYY-MM-DD`.
    pub fn format_ymd(&self) -> (r: String)
        requires
            self.wf(),
        ensures
            r@ == spec_format_ymd(*self),
    {
        proof {
            reveal_strlit("-");
        }
        let mut s = u64_pad4(self.year as u64);
        s.append("-");
        let m = u64_pad2(self.month as u64);
        s.append(m.as_str());
        s.append("-");
        let d = u64_pad2(self.day as u64);
        s.append(d.as_str());
        proof {
            assert("-"@ =~= seq!['-']);
            assert(s@ =~= spec_format_ymd(*self));
        }
        s
    }
}

} // verus!
