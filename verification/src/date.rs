//! Calendar dates as plain year, month and day values, and the trusted
//! calls into chrono that produce them.
use chrono::Datelike;
use vstd::prelude::*;

verus! {

/// What chrono's `NaiveDate::parse_from_str` makes of `s` under the
/// `"%Y-%m-%d"` format: the parsed date, or the error's description.
/// The result depends on the text alone.
pub uninterp spec fn parsed_date(s: Seq<char>) -> Result<Date, Seq<char>>;

/// A calendar date: a year with a month and a day, no time component.
#[derive(Clone, Copy, Debug, PartialEq, Eq, Structural)]
pub struct Date {
    pub year: i32,
    pub month: u8,
    pub day: u8,
}

impl Date {
    pub fn new(year: i32, month: u8, day: u8) -> (r: Date)
        ensures
            r == (Date { year, month, day }),
    {
        Date { year, month, day }
    }
}

/// Relies on chrono's `NaiveDate::parse_from_str` with the `"%Y-%m-%d"`
/// format, whose result is a function of the text alone; the year, month
/// and day are read off the parsed date with chrono's `Datelike`
/// accessors, and a failure's description off the error's display form.
#[verifier::external_body]
pub(crate) fn parse_date_text(s: &str) -> (r: Result<Date, String>)
    ensures
        r is Ok <==> parsed_date(s@) is Ok,
        r is Ok ==> r->Ok_0 == parsed_date(s@)->Ok_0,
        r is Err ==> r->Err_0@ == parsed_date(s@)->Err_0,
{
    match chrono::NaiveDate::parse_from_str(s, "%Y-%m-%d") {
        Ok(d) => Ok(Date { year: d.year(), month: d.month() as u8, day: d.day() as u8 }),
        Err(e) => Err(e.to_string()),
    }
}

/// Relies on chrono's `Local::now` and `date_naive` for the current
/// calendar day. Whatever the clock returns, chrono documents the month
/// to lie in 1..=12 and the day in 1..=31.
#[verifier::external_body]
pub fn today() -> (r: Date)
    ensures
        1 <= r.month <= 12,
        1 <= r.day <= 31,
{
    let d = chrono::Local::now().date_naive();
    Date { year: d.year(), month: d.month() as u8, day: d.day() as u8 }
}

} // verus!
