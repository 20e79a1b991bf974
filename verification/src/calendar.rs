use vstd::prelude::*;

use chrono::Datelike;

verus! {

/// Why a date could not be read, after chrono's `ParseErrorKind`.
#[derive(Clone, Copy, Debug, PartialEq, Eq, Structural)]
pub enum DateErrorKind {
    OutOfRange,
    Impossible,
    NotEnough,
    Invalid,
    TooShort,
    TooLong,
    BadFormat,
    Other,
}

/// The earliest and latest years that chrono's `NaiveDate` represents.
pub open spec fn min_year() -> int {
    -262143
}

pub open spec fn max_year() -> int {
    262142
}

/// Leap years of the proleptic Gregorian calendar.
pub open spec fn is_leap_year(y: int) -> bool {
    y % 4 == 0 && (y % 100 != 0 || y % 400 == 0)
}

pub open spec fn days_in_month(y: int, m: int) -> int {
    if m == 2 {
        if is_leap_year(y) { 29 } else { 28 }
    } else if m == 4 || m == 6 || m == 9 || m == 11 {
        30
    } else {
        31
    }
}

/// A date that chrono's `NaiveDate` can hold.
pub open spec fn valid_date(y: int, m: int, d: int) -> bool {
    &&& min_year() <= y <= max_year()
    &&& 1 <= m <= 12
    &&& 1 <= d <= days_in_month(y, m)
}

/// Days in the months of a common year before month `m`.
pub open spec fn days_before_month_common(m: int) -> int {
    if m <= 1 { 0 }
    else if m == 2 { 31 }
    else if m == 3 { 59 }
    else if m == 4 { 90 }
    else if m == 5 { 120 }
    else if m == 6 { 151 }
    else if m == 7 { 181 }
    else if m == 8 { 212 }
    else if m == 9 { 243 }
    else if m == 10 { 273 }
    else if m == 11 { 304 }
    else { 334 }
}

/// The day number of a date, counting 0001-01-01 as day 1.
pub open spec fn days_from_ce(y: int, m: int, d: int) -> int {
    365 * (y - 1) + (y - 1) / 4 - (y - 1) / 100 + (y - 1) / 400 + days_before_month_common(m)
        + (if is_leap_year(y) && m > 2 { 1int } else { 0int }) + d
}

/// Seconds from 1970-01-01 00:00:00 UTC to the midnight that starts the date.
pub open spec fn midnight_utc_seconds(y: int, m: int, d: int) -> int {
    (days_from_ce(y, m, d) - 719163) * 86400
}

/// What chrono's `NaiveDate::from_str` gives for `s`, as year, month and day,
/// or the kind of its error. The accepted forms (optional sign and padding
/// of the year, spaces between fields) are chrono's parser.
pub uninterp spec fn naive_date_from_str(s: Seq<char>) -> Result<(i32, u32, u32), DateErrorKind>;

/// Why a date could not be read, with chrono's description of it.
#[derive(Debug)]
pub struct DateError {
    pub kind: DateErrorKind,
    pub text: String,
}

/// What chrono's `ParseError` displays for an error of the kind, as its
/// `Display` impl writes it. chrono never makes an error of any other kind
/// than these seven, so `Other` has no text.
pub open spec fn date_error_text(k: DateErrorKind) -> Seq<char> {
    match k {
        DateErrorKind::OutOfRange => "input is out of range"@,
        DateErrorKind::Impossible => "no possible date and time matching input"@,
        DateErrorKind::NotEnough => "input is not enough for unique date and time"@,
        DateErrorKind::Invalid => "input contains invalid characters"@,
        DateErrorKind::TooShort => "premature end of input"@,
        DateErrorKind::TooLong => "trailing input"@,
        DateErrorKind::BadFormat => "bad or unsupported format string"@,
        DateErrorKind::Other => Seq::empty(),
    }
}

/// `chrono::NaiveDate::from_str`, its error taken apart by `ParseError::kind`
/// and described by `ParseError`'s `Display`. The date is named; chrono
/// documents that a parsed date is a valid date of the calendar within the
/// years it supports, and its source makes errors of the seven named kinds
/// alone, each with the fixed text of `date_error_text`.
#[verifier::external_body]
pub(crate) fn parse_naive_date(s: &str) -> (r: Result<(i32, u32, u32), DateError>)
    ensures
        r is Ok <==> naive_date_from_str(s@) is Ok,
        r matches Ok(t) ==> (naive_date_from_str(s@) matches Ok(u) && u == t),
        r matches Ok(t) ==> valid_date(t.0 as int, t.1 as int, t.2 as int),
        r matches Err(e) ==> (naive_date_from_str(s@) matches Err(k) && k == e.kind),
        r matches Err(e) ==> e.kind != DateErrorKind::Other && e.text@ == date_error_text(e.kind),
{
    match s.parse::<chrono::NaiveDate>() {
        Ok(d) => Ok((d.year(), d.month(), d.day())),
        Err(e) => Err(DateError { kind: match e.kind() {
            chrono::format::ParseErrorKind::OutOfRange => DateErrorKind::OutOfRange,
            chrono::format::ParseErrorKind::Impossible => DateErrorKind::Impossible,
            chrono::format::ParseErrorKind::NotEnough => DateErrorKind::NotEnough,
            chrono::format::ParseErrorKind::Invalid => DateErrorKind::Invalid,
            chrono::format::ParseErrorKind::TooShort => DateErrorKind::TooShort,
            chrono::format::ParseErrorKind::TooLong => DateErrorKind::TooLong,
            chrono::format::ParseErrorKind::BadFormat => DateErrorKind::BadFormat,
            _ => DateErrorKind::Other,
        }, text: e.to_string() }),
    }
}

/// `DateTime::<Utc>::timestamp` of the date at midnight: chrono documents it
/// as the non-leap seconds since 1970-01-01 00:00:00 UTC, which the Gregorian
/// day count gives.
#[verifier::external_body]
pub(crate) fn midnight_timestamp(y: i32, m: u32, d: u32) -> (r: i64)
    requires
        valid_date(y as int, m as int, d as int),
    ensures
        r == midnight_utc_seconds(y as int, m as int, d as int),
{
    let date = chrono::NaiveDate::from_ymd_opt(y, m, d).unwrap().and_hms_opt(0, 0, 0).unwrap();
    chrono::DateTime::<chrono::Utc>::from_naive_utc_and_offset(date, chrono::Utc).timestamp()
}

/// A calendar date in UTC, at midnight.
#[derive(Clone, Copy, Debug, PartialEq, Eq, Structural)]
pub struct UtcDate {
    year: i32,
    month: u32,
    day: u32,
}

impl UtcDate {
    pub closed spec fn spec_year(self) -> i32 {
        self.year
    }

    pub closed spec fn spec_month(self) -> u32 {
        self.month
    }

    pub closed spec fn spec_day(self) -> u32 {
        self.day
    }

    /// The date holds a valid calendar date.
    pub closed spec fn valid(self) -> bool {
        valid_date(self.year as int, self.month as int, self.day as int)
    }

    #[verifier::type_invariant]
    closed spec fn inv(self) -> bool {
        self.valid()
    }

    pub(crate) fn from_parts(year: i32, month: u32, day: u32) -> (r: UtcDate)
        requires
            valid_date(year as int, month as int, day as int),
        ensures
            r.spec_year() == year,
            r.spec_month() == month,
            r.spec_day() == day,
    {
        UtcDate { year, month, day }
    }

    pub fn year(&self) -> (r: i32)
        ensures
            r == self.spec_year(),
    {
        self.year
    }

    pub fn month(&self) -> (r: u32)
        ensures
            r == self.spec_month(),
    {
        self.month
    }

    pub fn day(&self) -> (r: u32)
        ensures
            r == self.spec_day(),
    {
        self.day
    }

    /// Seconds since the Unix epoch at the start of the date.
    pub fn timestamp(&self) -> (r: i64)
        ensures
            r == midnight_utc_seconds(self.spec_year() as int, self.spec_month() as int, self.spec_day() as int),
    {
        proof {
            use_type_invariant(self);
        }
        midnight_timestamp(self.year, self.month, self.day)
    }
}

} // verus!
