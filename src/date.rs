use vstd::prelude::*;
use chrono::Datelike;

verus! {

/// Earliest year of the calendar that chrono represents.
pub const MIN_YEAR: i32 = -262143;

/// Latest year of the calendar that chrono represents.
pub const MAX_YEAR: i32 = 262142;

/// A leap year of the proleptic Gregorian calendar.
pub open spec fn is_leap_year(y: int) -> bool {
    y % 4 == 0 && (y % 100 != 0 || y % 400 == 0)
}

pub open spec fn days_in_month(y: int, m: int) -> int {
    if m == 2 {
        if is_leap_year(y) { 29 } else { 28 }
    } else if m == 4 || m == 6 || m == 9 || m == 11 {
        30
    } else {
        31
    }
}

/// `(y, m, d)` names a day of the calendar within chrono's range.
pub open spec fn valid_ymd(y: int, m: int, d: int) -> bool {
    &&& MIN_YEAR <= y <= MAX_YEAR
    &&& 1 <= m <= 12
    &&& 1 <= d <= days_in_month(y, m)
}

/// Relies on chrono's `NaiveDate::from_ymd_opt`: it returns `None` exactly for an
/// out-of-range year or a month or day that does not exist, and otherwise the
/// date whose year, month and day are the ones given.
#[verifier::external_body]
fn calendar_date(y: i32, m: u32, d: u32) -> (r: Option<(i32, u32, u32)>)
    ensures
        r.is_some() == valid_ymd(y as int, m as int, d as int),
        r.is_some() ==> r == Some((y, m, d)),
{
    chrono::NaiveDate::from_ymd_opt(y, m, d).map(|nd| (nd.year(), nd.month(), nd.day()))
}

/// A calendar day: the settlement date of a forward.
#[derive(Clone, Copy, Debug, PartialEq, Eq, Structural, Hash)]
pub struct Date {
    year: i32,
    month: u32,
    day: u32,
}

impl Date {
    pub open spec fn wf(&self) -> bool {
        valid_ymd(self.spec_year(), self.spec_month(), self.spec_day())
    }

    pub closed spec fn spec_year(&self) -> int {
        self.year as int
    }

    pub closed spec fn spec_month(&self) -> int {
        self.month as int
    }

    pub closed spec fn spec_day(&self) -> int {
        self.day as int
    }

    /// The day `d` of month `m` of year `y`, or `None` where there is no such day.
    pub fn from_ymd_opt(y: i32, m: u32, d: u32) -> (r: Option<Date>)
        ensures
            r.is_some() == valid_ymd(y as int, m as int, d as int),
            r matches Some(dt) ==> dt.wf() && dt.spec_year() == y && dt.spec_month() == m && dt.spec_day() == d,
    {
        match calendar_date(y, m, d) {
            Some((year, month, day)) => Some(Date { year, month, day }),
            None => None,
        }
    }

    pub fn year(&self) -> (r: i32)
        ensures
            r == self.spec_year(),
    {
        self.year
    }

    pub fn month(&self) -> (r: u32)
        ensures
            r == self.spec_month(),
    {
        self.month
    }

    pub fn day(&self) -> (r: u32)
        ensures
            r == self.spec_day(),
    {
        self.day
    }
}

} // verus!
