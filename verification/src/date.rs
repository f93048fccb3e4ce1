//! Calendar dates as plain year / month / day values.
//!
//! A `Date` is only ever constructed from text that parsed as a calendar
//! date, so every stored date satisfies `Date::wf`.

use vstd::prelude::*;
use std::str::FromStr;
use chrono::Datelike;

verus! {

/// A calendar date held as plain values.
#[derive(Clone, Copy, PartialEq, Eq, Structural, Debug)]
pub struct Date {
    pub year: i32,
    pub month: u32,
    pub day: u32,
}

impl Date {
    /// The ranges a parsed calendar date always lies in.
    pub open spec fn wf(self) -> bool {
        1 <= self.month <= 12 && 1 <= self.day <= 31
    }
}

/// What parsing a string as a calendar date yields: `Some((year, month, day))`
/// when the text is a valid date in the accepted format, `None` otherwise.
/// The result depends on the characters of the string alone.
pub uninterp spec fn date_parse(s: Seq<char>) -> Option<(int, int, int)>;

/// Relies on `chrono::NaiveDate::from_str` to parse an ISO 8601 calendar
/// date (`YYYY-MM-DD`), and on `chrono::Datelike`'s `year`/`month`/`day`
/// accessors, which return the components of a valid calendar date.
#[verifier::external_body]
pub(crate) fn parse_date(s: &str) -> (r: Option<Date>)
    ensures
        (r is None) == (date_parse(s@) is None),
        r matches Some(d) ==> date_parse(s@) == Some(
            (d.year as int, d.month as int, d.day as int),
        ) && d.wf(),
{
    match chrono::NaiveDate::from_str(s) {
        Ok(d) => Some(Date { year: d.year(), month: d.month(), day: d.day() }),
        Err(_) => None,
    }
}

} // verus!
