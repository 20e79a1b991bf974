use vstd::prelude::*;
use vstd::string::*;

use crate::calendar::{date_error_text, midnight_utc_seconds, naive_date_from_str, parse_naive_date, DateError, DateErrorKind, UtcDate};
use crate::nostr_support::now_seconds;
use crate::strings::{char_is_alphabetic, chars_of, letter, lowered, rest_spells, str_to_lowercase, str_trim, trim};

verus! {

/// The command-line options.
pub struct Cli {
    /// Show the current processing state.
    pub show_state: bool,
    /// Stream live events.
    pub stream: bool,
    /// Fill the gaps between the spans already collected.
    pub fetch_gaps: bool,
    /// Fetch events going back this long, such as `5min`, `4h`, `3d`, `1w`, `2m` or `1y`.
    pub fetch_back: Option<String>,
    /// Fetch events from this date on (`yyyy-mm-dd`).
    pub fetch_from: Option<String>,
    /// Fetch events backwards through time, a step at a time.
    pub fetch_continuous: bool,
    /// The step of chunked fetching, such as `1h`, `6h` or `1d`.
    pub step: Option<String>,
    /// The most events asked for in one request.
    pub limit: usize,
    /// How long to wait between fetches, such as `5s`, `1min` or `1h`.
    pub wait: Option<String>,
}

/// The fetch mode the options select.
#[derive(Debug)]
pub enum FetchMode {
    NoFetch,
    Gaps,
    /// Back by the given duration text.
    Back(String),
    /// From the given date text.
    From(String),
    Continuous,
}

/// Errors in the command-line options and in the durations and dates they hold.
#[derive(Debug)]
pub enum CliError {
    /// More than one fetch mode was chosen.
    ExclusiveFetchModes,
    /// Neither a mode nor `--show-state` was chosen.
    NoMode,
    /// A step was given without a fetch mode that uses it.
    StepWithoutFetch,
    /// The duration text has no unit; holds the text as read.
    InvalidDurationFormat(String),
    /// The number of a duration is not an `i64`; holds the number text.
    InvalidDurationNumber(String),
    /// The unit of a duration is unknown; holds the unit text.
    UnknownTimeUnit(String),
    /// The date is not `yyyy-mm-dd`; holds why, with chrono's description.
    InvalidDate(DateError),
    /// Continuous fetching was asked for without a step.
    ContinuousRequiresStep,
}

/// A signed length of time, in whole seconds.
#[derive(Clone, Copy, Debug, PartialEq, Eq, Structural)]
pub struct Duration {
    pub seconds: i64,
}

impl Duration {
    /// The length in whole seconds.
    pub fn num_seconds(&self) -> (r: i64)
        ensures
            r == self.seconds,
    {
        self.seconds
    }
}

/// The largest number of seconds a duration may hold (`i64::MAX` milliseconds).
pub open spec fn max_duration_seconds() -> int {
    9223372036854775
}

/// The outcome of reading a duration, before its bounds are checked.
pub enum DurationReading {
    Seconds(int),
    BadFormat(Seq<char>),
    BadNumber(Seq<char>),
    BadUnit(Seq<char>),
}

pub open spec fn is_ascii_digit(c: char) -> bool {
    48 <= (c as u32) <= 57
}

pub open spec fn digit_value(c: char) -> int {
    (c as u32) - 48
}

/// The value of a string of decimal digits.
pub open spec fn digits_value(ds: Seq<char>) -> int
    decreases ds.len(),
{
    if ds.len() == 0 {
        0
    } else {
        digits_value(ds.drop_last()) * 10 + digit_value(ds.last())
    }
}

/// The text starts with a sign.
pub open spec fn has_sign(cs: Seq<char>) -> bool {
    cs.len() > 0 && (cs[0] == '+' || cs[0] == '-')
}

/// The digits of a number text, after its sign if it has one.
pub open spec fn number_digits(cs: Seq<char>) -> Seq<char> {
    if has_sign(cs) { cs.drop_first() } else { cs }
}

/// The value of a number text, read with its sign.
pub open spec fn signed_value(cs: Seq<char>) -> int {
    if has_sign(cs) && cs[0] == '-' { -digits_value(number_digits(cs)) } else { digits_value(number_digits(cs)) }
}

pub open spec fn all_digits(ds: Seq<char>) -> bool {
    forall|i: int| 0 <= i < ds.len() ==> is_ascii_digit(#[trigger] ds[i])
}

/// What `str::parse::<i64>` gives: an optional sign followed by at least one
/// decimal digit, whose value fits in an `i64`.
pub open spec fn parse_i64(cs: Seq<char>) -> Option<int> {
    if number_digits(cs).len() > 0 && all_digits(number_digits(cs)) && i64::MIN <= signed_value(cs) <= i64::MAX {
        Some(signed_value(cs))
    } else {
        None
    }
}

/// Seconds in one of the units a duration may name.
pub open spec fn unit_seconds(u: Seq<char>) -> Option<int> {
    if u == "s"@ || u == "sec"@ || u == "secs"@ || u == "second"@ || u == "seconds"@ {
        Some(1)
    } else if u == "min"@ || u == "mins"@ || u == "minute"@ || u == "minutes"@ {
        Some(60)
    } else if u == "h"@ || u == "hr"@ || u == "hrs"@ || u == "hour"@ || u == "hours"@ {
        Some(3600)
    } else if u == "d"@ || u == "day"@ || u == "days"@ {
        Some(86400)
    } else if u == "w"@ || u == "wk"@ || u == "week"@ || u == "weeks"@ {
        Some(604800)
    } else if u == "m"@ || u == "mo"@ || u == "month"@ || u == "months"@ {
        Some(30int * 86400)
    } else if u == "y"@ || u == "yr"@ || u == "year"@ || u == "years"@ {
        Some(365int * 86400)
    } else {
        None
    }
}

/// `k` is the first alphabetic character of `cs`.
pub open spec fn first_alphabetic(cs: Seq<char>, k: int) -> bool {
    &&& 0 <= k < cs.len()
    &&& letter(cs[k])
    &&& forall|j: int| 0 <= j < k ==> !letter(#[trigger] cs[j])
}

/// The text of a duration as it is read: trimmed, then lowercased.
pub open spec fn duration_input(s: Seq<char>) -> Seq<char> {
    lowered(trim(s))
}

/// Reading a duration such as `5min`: the number before the first letter,
/// times the seconds of the unit that starts there. Months count 30 days and
/// years 365.
pub open spec fn read_duration(s: Seq<char>) -> DurationReading {
    let cs = duration_input(s);
    if exists|k: int| first_alphabetic(cs, k) {
        let k = choose|k: int| first_alphabetic(cs, k);
        let num = cs.subrange(0, k);
        let unit = cs.subrange(k, cs.len() as int);
        match parse_i64(num) {
            None => DurationReading::BadNumber(num),
            Some(n) => match unit_seconds(unit) {
                None => DurationReading::BadUnit(unit),
                Some(f) => DurationReading::Seconds(n * f),
            },
        }
    } else {
        DurationReading::BadFormat(cs)
    }
}

/// The duration reads to more seconds than a duration holds; reading it panics.
pub open spec fn duration_overflows(s: Seq<char>) -> bool {
    read_duration(s) matches DurationReading::Seconds(v) && (v > max_duration_seconds() || v
        < -max_duration_seconds())
}

/// The error agrees with a reading that failed.
pub open spec fn duration_error(e: CliError, reading: DurationReading) -> bool {
    match reading {
        DurationReading::Seconds(v) => false,
        DurationReading::BadFormat(t) => e matches CliError::InvalidDurationFormat(m) && m@ == t,
        DurationReading::BadNumber(t) => e matches CliError::InvalidDurationNumber(m) && m@ == t,
        DurationReading::BadUnit(t) => e matches CliError::UnknownTimeUnit(m) && m@ == t,
    }
}

/// The result of `parse_duration` agrees with the reading.
pub open spec fn duration_result(r: Result<Duration, CliError>, reading: DurationReading) -> bool {
    match r {
        Ok(d) => reading == DurationReading::Seconds(d.seconds as int),
        Err(e) => duration_error(e, reading),
    }
}

/// The seconds of a duration, negative ones counting as zero.
pub open spec fn clamp_seconds(v: int) -> int {
    if v > 0 {
        v
    } else {
        0
    }
}

proof fn lemma_digits_value_prefix(ds: Seq<char>, j: int)
    requires
        0 <= j <= ds.len(),
        forall|i: int| 0 <= i < ds.len() ==> is_ascii_digit(#[trigger] ds[i]),
    ensures
        0 <= digits_value(ds.subrange(0, j)) <= digits_value(ds),
    decreases ds.len(),
{
    if ds.len() > 0 {
        if j == ds.len() {
            assert(ds.subrange(0, j) == ds);
            lemma_digits_value_prefix(ds.drop_last(), ds.len() - 1);
            assert(ds.drop_last().subrange(0, ds.len() - 1) == ds.drop_last());
        } else {
            lemma_digits_value_prefix(ds.drop_last(), j);
            assert(ds.drop_last().subrange(0, j) == ds.subrange(0, j));
            lemma_digits_value_prefix(ds.drop_last(), ds.len() - 1);
            assert(ds.drop_last().subrange(0, ds.len() - 1) == ds.drop_last());
        }
    } else {
        assert(ds.subrange(0, j) == ds);
    }
}

proof fn lemma_product_fits(n: int, f: int)
    by (nonlinear_arith)
    requires
        -9223372036854775808 <= n <= 9223372036854775807,
        0 < f <= 31536000,
    ensures
        -300000000000000000000000000 <= n * f <= 300000000000000000000000000,
{
}

/// Every character is an ASCII lower-case letter.
pub open spec fn lowercase_letters(u: Seq<char>) -> bool {
    forall|i: int| 0 <= i < u.len() ==> 97 <= (#[trigger] u[i] as u32) <= 122
}

/// A number written in decimal digits followed by a unit in lower-case letters
/// reads as the number times the seconds of the unit, or as an unknown unit.
proof fn lemma_number_then_unit(ds: Seq<char>, u: Seq<char>)
    requires
        ds.len() > 0,
        all_digits(ds),
        digits_value(ds) <= i64::MAX,
        u.len() > 0,
        lowercase_letters(u),
    ensures
        read_duration(ds + u) == (match unit_seconds(u) {
            Some(f) => DurationReading::Seconds(digits_value(ds) * f),
            None => DurationReading::BadUnit(u),
        }),
{
    let s = ds + u;
    let k = ds.len() as int;
    assert(s[0] == ds[0] && is_ascii_digit(ds[0]));
    assert(crate::strings::trim_start(s) == s);
    assert(s.last() == u.last() && 97 <= (u.last() as u32) <= 122);
    assert(crate::strings::trim_end(s) == s);
    assert(trim(s) == s);
    assert forall|i: int| 0 <= i < s.len() implies crate::strings::is_ascii_char(#[trigger] s[i]) by {
        if i < k {
            assert(s[i] == ds[i] && is_ascii_digit(ds[i]));
        } else {
            assert(s[i] == u[i - k] && 97 <= (u[i - k] as u32) <= 122);
        }
    }
    assert(crate::strings::ascii_lowercase(s) =~= s) by {
        assert forall|i: int| 0 <= i < s.len() implies crate::strings::ascii_lower_char(#[trigger] s[i]) == s[i] by {
            if i < k {
                assert(s[i] == ds[i] && is_ascii_digit(ds[i]));
            } else {
                assert(s[i] == u[i - k] && 97 <= (u[i - k] as u32) <= 122);
            }
        }
    }
    assert(duration_input(s) == s);
    assert(s[k] == u[0] && 97 <= (u[0] as u32) <= 122);
    assert forall|j: int| 0 <= j < k implies !letter(#[trigger] s[j]) by {
        assert(s[j] == ds[j] && is_ascii_digit(ds[j]));
    }
    assert(first_alphabetic(s, k));
    let c = choose|c: int| first_alphabetic(s, c);
    assert(c == k) by {
        if c < k {
            assert(!letter(s[c]));
        }
        if c > k {
            assert(!letter(s[k]));
        }
    }
    assert(s.subrange(0, k) =~= ds);
    assert(s.subrange(k, s.len() as int) =~= u);
    assert(!has_sign(ds));
    assert(number_digits(ds) == ds);
    lemma_digits_value_prefix(ds, k);
    assert(ds.subrange(0, k) =~= ds);
    assert(parse_i64(ds) == Some(digits_value(ds)));
}

/// The seconds of each spelling of each unit.
proof fn lemma_unit_table()
    ensures
        unit_seconds("s"@) == Some(1int),
        unit_seconds("sec"@) == Some(1int),
        unit_seconds("secs"@) == Some(1int),
        unit_seconds("second"@) == Some(1int),
        unit_seconds("seconds"@) == Some(1int),
        unit_seconds("min"@) == Some(60int),
        unit_seconds("mins"@) == Some(60int),
        unit_seconds("minute"@) == Some(60int),
        unit_seconds("minutes"@) == Some(60int),
        unit_seconds("h"@) == Some(3600int),
        unit_seconds("hr"@) == Some(3600int),
        unit_seconds("hrs"@) == Some(3600int),
        unit_seconds("hour"@) == Some(3600int),
        unit_seconds("hours"@) == Some(3600int),
        unit_seconds("d"@) == Some(86400int),
        unit_seconds("day"@) == Some(86400int),
        unit_seconds("days"@) == Some(86400int),
        unit_seconds("w"@) == Some(604800int),
        unit_seconds("wk"@) == Some(604800int),
        unit_seconds("week"@) == Some(604800int),
        unit_seconds("weeks"@) == Some(604800int),
        unit_seconds("m"@) == Some(2592000int),
        unit_seconds("mo"@) == Some(2592000int),
        unit_seconds("month"@) == Some(2592000int),
        unit_seconds("months"@) == Some(2592000int),
        unit_seconds("y"@) == Some(31536000int),
        unit_seconds("yr"@) == Some(31536000int),
        unit_seconds("year"@) == Some(31536000int),
        unit_seconds("years"@) == Some(31536000int),
{
    reveal_strlit("s");
    reveal_strlit("sec");
    reveal_strlit("secs");
    reveal_strlit("second");
    reveal_strlit("seconds");
    reveal_strlit("min");
    reveal_strlit("mins");
    reveal_strlit("minute");
    reveal_strlit("minutes");
    reveal_strlit("h");
    reveal_strlit("hr");
    reveal_strlit("hrs");
    reveal_strlit("hour");
    reveal_strlit("hours");
    reveal_strlit("d");
    reveal_strlit("day");
    reveal_strlit("days");
    reveal_strlit("w");
    reveal_strlit("wk");
    reveal_strlit("week");
    reveal_strlit("weeks");
    reveal_strlit("m");
    reveal_strlit("mo");
    reveal_strlit("month");
    reveal_strlit("months");
    reveal_strlit("y");
    reveal_strlit("yr");
    reveal_strlit("year");
    reveal_strlit("years");
    assert("s"@.len() == 1 && "s"@[0] == 's');
    assert("sec"@.len() == 3 && "sec"@[0] == 's');
    assert("secs"@.len() == 4 && "secs"@[0] == 's');
    assert("second"@.len() == 6 && "second"@[0] == 's');
    assert("seconds"@.len() == 7 && "seconds"@[0] == 's');
    assert("min"@.len() == 3 && "min"@[0] == 'm');
    assert("mins"@.len() == 4 && "mins"@[0] == 'm');
    assert("minute"@.len() == 6 && "minute"@[0] == 'm');
    assert("minutes"@.len() == 7 && "minutes"@[0] == 'm');
    assert("h"@.len() == 1 && "h"@[0] == 'h');
    assert("hr"@.len() == 2 && "hr"@[0] == 'h');
    assert("hrs"@.len() == 3 && "hrs"@[0] == 'h');
    assert("hour"@.len() == 4 && "hour"@[0] == 'h');
    assert("hours"@.len() == 5 && "hours"@[0] == 'h');
    assert("d"@.len() == 1 && "d"@[0] == 'd');
    assert("day"@.len() == 3 && "day"@[0] == 'd');
    assert("days"@.len() == 4 && "days"@[0] == 'd');
    assert("w"@.len() == 1 && "w"@[0] == 'w');
    assert("wk"@.len() == 2 && "wk"@[0] == 'w');
    assert("week"@.len() == 4 && "week"@[0] == 'w');
    assert("weeks"@.len() == 5 && "weeks"@[0] == 'w');
    assert("m"@.len() == 1 && "m"@[0] == 'm');
    assert("mo"@.len() == 2 && "mo"@[0] == 'm');
    assert("month"@.len() == 5 && "month"@[0] == 'm');
    assert("months"@.len() == 6 && "months"@[0] == 'm');
    assert("y"@.len() == 1 && "y"@[0] == 'y');
    assert("yr"@.len() == 2 && "yr"@[0] == 'y');
    assert("year"@.len() == 4 && "year"@[0] == 'y');
    assert("years"@.len() == 5 && "years"@[0] == 'y');
    assert("minute"@[1] == 'i' && "months"@[1] == 'o');
}

/// Every spelling of a unit gives the same length: a number of seconds,
/// minutes (60 s), hours (3600 s), days (86400 s), weeks (7 days), months
/// (30 days) or years (365 days). So `2weeks` and `2w` both read as
/// 1209600 seconds.
pub proof fn law_duration_units(ds: Seq<char>)
    requires
        ds.len() > 0,
        all_digits(ds),
        digits_value(ds) <= i64::MAX,
    ensures
        read_duration(ds + "s"@) == DurationReading::Seconds(digits_value(ds) * 1),
        read_duration(ds + "sec"@) == DurationReading::Seconds(digits_value(ds) * 1),
        read_duration(ds + "secs"@) == DurationReading::Seconds(digits_value(ds) * 1),
        read_duration(ds + "second"@) == DurationReading::Seconds(digits_value(ds) * 1),
        read_duration(ds + "seconds"@) == DurationReading::Seconds(digits_value(ds) * 1),
        read_duration(ds + "min"@) == DurationReading::Seconds(digits_value(ds) * 60),
        read_duration(ds + "mins"@) == DurationReading::Seconds(digits_value(ds) * 60),
        read_duration(ds + "minute"@) == DurationReading::Seconds(digits_value(ds) * 60),
        read_duration(ds + "minutes"@) == DurationReading::Seconds(digits_value(ds) * 60),
        read_duration(ds + "h"@) == DurationReading::Seconds(digits_value(ds) * 3600),
        read_duration(ds + "hr"@) == DurationReading::Seconds(digits_value(ds) * 3600),
        read_duration(ds + "hrs"@) == DurationReading::Seconds(digits_value(ds) * 3600),
        read_duration(ds + "hour"@) == DurationReading::Seconds(digits_value(ds) * 3600),
        read_duration(ds + "hours"@) == DurationReading::Seconds(digits_value(ds) * 3600),
        read_duration(ds + "d"@) == DurationReading::Seconds(digits_value(ds) * 86400),
        read_duration(ds + "day"@) == DurationReading::Seconds(digits_value(ds) * 86400),
        read_duration(ds + "days"@) == DurationReading::Seconds(digits_value(ds) * 86400),
        read_duration(ds + "w"@) == DurationReading::Seconds(digits_value(ds) * 604800),
        read_duration(ds + "wk"@) == DurationReading::Seconds(digits_value(ds) * 604800),
        read_duration(ds + "week"@) == DurationReading::Seconds(digits_value(ds) * 604800),
        read_duration(ds + "weeks"@) == DurationReading::Seconds(digits_value(ds) * 604800),
        read_duration(ds + "m"@) == DurationReading::Seconds(digits_value(ds) * 2592000),
        read_duration(ds + "mo"@) == DurationReading::Seconds(digits_value(ds) * 2592000),
        read_duration(ds + "month"@) == DurationReading::Seconds(digits_value(ds) * 2592000),
        read_duration(ds + "months"@) == DurationReading::Seconds(digits_value(ds) * 2592000),
        read_duration(ds + "y"@) == DurationReading::Seconds(digits_value(ds) * 31536000),
        read_duration(ds + "yr"@) == DurationReading::Seconds(digits_value(ds) * 31536000),
        read_duration(ds + "year"@) == DurationReading::Seconds(digits_value(ds) * 31536000),
        read_duration(ds + "years"@) == DurationReading::Seconds(digits_value(ds) * 31536000),
{
    reveal_strlit("s");
    reveal_strlit("sec");
    reveal_strlit("secs");
    reveal_strlit("second");
    reveal_strlit("seconds");
    reveal_strlit("min");
    reveal_strlit("mins");
    reveal_strlit("minute");
    reveal_strlit("minutes");
    reveal_strlit("h");
    reveal_strlit("hr");
    reveal_strlit("hrs");
    reveal_strlit("hour");
    reveal_strlit("hours");
    reveal_strlit("d");
    reveal_strlit("day");
    reveal_strlit("days");
    reveal_strlit("w");
    reveal_strlit("wk");
    reveal_strlit("week");
    reveal_strlit("weeks");
    reveal_strlit("m");
    reveal_strlit("mo");
    reveal_strlit("month");
    reveal_strlit("months");
    reveal_strlit("y");
    reveal_strlit("yr");
    reveal_strlit("year");
    reveal_strlit("years");
    assert(lowercase_letters("s"@));
    assert(lowercase_letters("sec"@));
    assert(lowercase_letters("secs"@));
    assert(lowercase_letters("second"@));
    assert(lowercase_letters("seconds"@));
    assert(lowercase_letters("min"@));
    assert(lowercase_letters("mins"@));
    assert(lowercase_letters("minute"@));
    assert(lowercase_letters("minutes"@));
    assert(lowercase_letters("h"@));
    assert(lowercase_letters("hr"@));
    assert(lowercase_letters("hrs"@));
    assert(lowercase_letters("hour"@));
    assert(lowercase_letters("hours"@));
    assert(lowercase_letters("d"@));
    assert(lowercase_letters("day"@));
    assert(lowercase_letters("days"@));
    assert(lowercase_letters("w"@));
    assert(lowercase_letters("wk"@));
    assert(lowercase_letters("week"@));
    assert(lowercase_letters("weeks"@));
    assert(lowercase_letters("m"@));
    assert(lowercase_letters("mo"@));
    assert(lowercase_letters("month"@));
    assert(lowercase_letters("months"@));
    assert(lowercase_letters("y"@));
    assert(lowercase_letters("yr"@));
    assert(lowercase_letters("year"@));
    assert(lowercase_letters("years"@));
    lemma_unit_table();
    lemma_number_then_unit(ds, "s"@);
    lemma_number_then_unit(ds, "sec"@);
    lemma_number_then_unit(ds, "secs"@);
    lemma_number_then_unit(ds, "second"@);
    lemma_number_then_unit(ds, "seconds"@);
    lemma_number_then_unit(ds, "min"@);
    lemma_number_then_unit(ds, "mins"@);
    lemma_number_then_unit(ds, "minute"@);
    lemma_number_then_unit(ds, "minutes"@);
    lemma_number_then_unit(ds, "h"@);
    lemma_number_then_unit(ds, "hr"@);
    lemma_number_then_unit(ds, "hrs"@);
    lemma_number_then_unit(ds, "hour"@);
    lemma_number_then_unit(ds, "hours"@);
    lemma_number_then_unit(ds, "d"@);
    lemma_number_then_unit(ds, "day"@);
    lemma_number_then_unit(ds, "days"@);
    lemma_number_then_unit(ds, "w"@);
    lemma_number_then_unit(ds, "wk"@);
    lemma_number_then_unit(ds, "week"@);
    lemma_number_then_unit(ds, "weeks"@);
    lemma_number_then_unit(ds, "m"@);
    lemma_number_then_unit(ds, "mo"@);
    lemma_number_then_unit(ds, "month"@);
    lemma_number_then_unit(ds, "months"@);
    lemma_number_then_unit(ds, "y"@);
    lemma_number_then_unit(ds, "yr"@);
    lemma_number_then_unit(ds, "year"@);
    lemma_number_then_unit(ds, "years"@);
}

/// Reads `cs[0..k]` as `str::parse::<i64>` does.
fn parse_i64_prefix(cs: &Vec<char>, k: usize) -> (r: Option<i64>)
    requires
        k <= cs@.len(),
    ensures
        r matches Some(v) ==> parse_i64(cs@.subrange(0, k as int)) == Some(v as int),
        r is None ==> parse_i64(cs@.subrange(0, k as int)) is None,
{
    let ghost text = cs@.subrange(0, k as int);
    let ghost signed = has_sign(text);
    let mut i: usize = 0;
    let mut negative = false;
    if k > 0 && (cs[0] == '+' || cs[0] == '-') {
        negative = cs[0] == '-';
        i = 1;
    }
    let first = i;
    let ghost ds = if signed { text.drop_first() } else { text };
    proof {
        assert(signed == (first == 1));
        assert(ds =~= cs@.subrange(first as int, k as int));
        assert(negative == (signed && text[0] == '-'));
    }
    if i == k {
        return None;
    }
    let bound: u128 = 9223372036854775808;
    let mut value: u128 = 0;
    while i < k
        invariant
            first <= i <= k <= cs@.len(),
            ds == cs@.subrange(first as int, k as int),
            text == cs@.subrange(0, k as int),
            signed == has_sign(text),
            ds == number_digits(text),
            negative == (signed && text[0] == '-'),
            value == digits_value(cs@.subrange(first as int, i as int)),
            value <= bound,
            bound == 9223372036854775808,
            forall|j: int| first <= j < i ==> is_ascii_digit(#[trigger] cs@[j]),
        decreases k - i,
    {
        let c = cs[i];
        let code = c as u32;
        if !(48 <= code && code <= 57) {
            proof {
                assert(ds[i - first] == c);
                assert(!is_ascii_digit(ds[i - first]));
                assert(!all_digits(ds));
            }
            return None;
        }
        proof {
            assert(cs@.subrange(first as int, i + 1).drop_last() == cs@.subrange(first as int, i as int));
        }
        value = value * 10 + (code as u128 - 48);
        i = i + 1;
        if value > bound {
            proof {
                if all_digits(ds) {
                    lemma_digits_value_prefix(ds, i - first);
                    assert(ds.subrange(0, i - first) == cs@.subrange(first as int, i as int));
                }
            }
            return None;
        }
    }
    proof {
        assert(cs@.subrange(first as int, i as int) == ds);
        assert forall|j: int| 0 <= j < ds.len() implies is_ascii_digit(#[trigger] ds[j]) by {
            assert(ds[j] == cs@[first + j]);
        }
    }
    if negative {
        let v: i128 = 0 - (value as i128);
        Some(v as i64)
    } else {
        if value > 9223372036854775807 {
            return None;
        }
        Some(value as i64)
    }
}

/// Seconds in the unit that `cs[k..]` names.
fn unit_seconds_of(cs: &Vec<char>, k: usize) -> (r: Option<i64>)
    requires
        k <= cs@.len(),
    ensures
        r matches Some(f) ==> unit_seconds(cs@.subrange(k as int, cs@.len() as int)) == Some(f as int),
        r is None ==> unit_seconds(cs@.subrange(k as int, cs@.len() as int)) is None,
{
    if rest_spells(cs, k, "s") || rest_spells(cs, k, "sec") || rest_spells(cs, k, "secs") || rest_spells(
        cs,
        k,
        "second",
    ) || rest_spells(cs, k, "seconds") {
        Some(1)
    } else if rest_spells(cs, k, "min") || rest_spells(cs, k, "mins") || rest_spells(cs, k, "minute")
        || rest_spells(cs, k, "minutes") {
        Some(60)
    } else if rest_spells(cs, k, "h") || rest_spells(cs, k, "hr") || rest_spells(cs, k, "hrs") || rest_spells(
        cs,
        k,
        "hour",
    ) || rest_spells(cs, k, "hours") {
        Some(3600)
    } else if rest_spells(cs, k, "d") || rest_spells(cs, k, "day") || rest_spells(cs, k, "days") {
        Some(86400)
    } else if rest_spells(cs, k, "w") || rest_spells(cs, k, "wk") || rest_spells(cs, k, "week") || rest_spells(
        cs,
        k,
        "weeks",
    ) {
        Some(604800)
    } else if rest_spells(cs, k, "m") || rest_spells(cs, k, "mo") || rest_spells(cs, k, "month") || rest_spells(
        cs,
        k,
        "months",
    ) {
        Some(2592000)
    } else if rest_spells(cs, k, "y") || rest_spells(cs, k, "yr") || rest_spells(cs, k, "year") || rest_spells(
        cs,
        k,
        "years",
    ) {
        Some(31536000)
    } else {
        None
    }
}

/// The parts of a duration: its number and the seconds of its unit, or the
/// error that reading it gives.
fn duration_parts(s: &str) -> (r: Result<(i64, i64), CliError>)
    ensures
        r matches Ok(p) ==> read_duration(s@) == DurationReading::Seconds(p.0 as int * p.1 as int),
        r matches Ok(p) ==> 0 < p.1 <= 31536000,
        r matches Err(e) ==> duration_error(e, read_duration(s@)),
{
    let trimmed = str_trim(s);
    let lower = str_to_lowercase(trimmed);
    let cs = chars_of(lower.as_str());
    let ghost text = duration_input(s@);
    proof {
        assert(cs@ == text);
    }
    let mut k: usize = 0;
    while k < cs.len() && !char_is_alphabetic(cs[k])
        invariant
            k <= cs@.len(),
            forall|j: int| 0 <= j < k ==> !letter(#[trigger] cs@[j]),
        decreases cs.len() - k,
    {
        k = k + 1;
    }
    if k == cs.len() {
        proof {
            assert forall|j: int| !first_alphabetic(text, j) by {
                if first_alphabetic(text, j) {
                    assert(!letter(cs@[j]));
                }
            }
        }
        return Err(CliError::InvalidDurationFormat(lower));
    }
    proof {
        assert(letter(cs@[k as int]));
        assert(first_alphabetic(text, k as int));
        let c = choose|c: int| first_alphabetic(text, c);
        assert(c == k) by {
            if c < k {
                assert(!letter(cs@[c]));
            }
            if k < c {
                assert(!letter(text[k as int]));
            }
        }
    }
    let num = match parse_i64_prefix(&cs, k) {
        Some(n) => n,
        None => {
            return Err(CliError::InvalidDurationNumber(substring_of(&lower, 0, k)));
        },
    };
    match unit_seconds_of(&cs, k) {
        Some(f) => Ok((num, f)),
        None => Err(CliError::UnknownTimeUnit(substring_of(&lower, k, cs.len()))),
    }
}

/// The characters `from..to` of `s`, as a new string.
fn substring_of(s: &String, from: usize, to: usize) -> (r: String)
    requires
        from <= to <= s@.len(),
    ensures
        r@ == s@.subrange(from as int, to as int),
{
    String::from_str(s.as_str().substring_char(from, to))
}

/// Reads a duration such as `5min`, `4h`, `3d`, `1w`, `2m` or `1y`: the number
/// before the first letter and a unit of seconds, minutes, hours, days, weeks,
/// months of 30 days or years of 365 days. The text is trimmed and lowercased
/// first.
pub fn parse_duration(s: &str) -> (r: Result<Duration, CliError>)
    requires
        !duration_overflows(s@),
    ensures
        duration_result(r, read_duration(s@)),
{
    match duration_parts(s) {
        Ok((n, f)) => {
            proof {
                lemma_product_fits(n as int, f as int);
            }
            let v: i128 = n as i128 * f as i128;
            proof {
                assert(-max_duration_seconds() <= v <= max_duration_seconds());
            }
            Ok(Duration { seconds: v as i64 })
        },
        Err(e) => Err(e),
    }
}

/// Reads a duration as `parse_duration` does, giving `None` for a duration
/// too long to hold, on which `parse_duration` would panic.
pub fn parse_duration_checked(s: &str) -> (r: Option<Result<Duration, CliError>>)
    ensures
        r is None <==> duration_overflows(s@),
        r matches Some(res) ==> duration_result(res, read_duration(s@)),
{
    match duration_parts(s) {
        Ok((n, f)) => {
            proof {
                lemma_product_fits(n as int, f as int);
            }
            let v: i128 = n as i128 * f as i128;
            if v > 9223372036854775 || v < -9223372036854775 {
                None
            } else {
                Some(parse_duration(s))
            }
        },
        Err(e) => {
            proof {
                assert(!duration_overflows(s@));
            }
            Some(parse_duration(s))
        },
    }
}

/// Reads a date in the form `yyyy-mm-dd` (as chrono reads a `NaiveDate`), at
/// midnight UTC.
pub fn parse_date(s: &str) -> (r: Result<UtcDate, CliError>)
    ensures
        match naive_date_from_str(s@) {
            Ok(t) => r matches Ok(d) && d.spec_year() == t.0 && d.spec_month() == t.1 && d.spec_day() == t.2,
            Err(kind) => r matches Err(CliError::InvalidDate(e)) && e.kind == kind && e.text@ == date_error_text(kind),
        },
{
    match parse_naive_date(s) {
        Ok((y, m, d)) => Ok(UtcDate::from_parts(y, m, d)),
        Err(e) => Err(CliError::InvalidDate(e)),
    }
}

/// The seconds of a duration, negative ones counting as zero.
pub fn duration_to_seconds(duration: &Duration) -> (r: u64)
    ensures
        r == clamp_seconds(duration.seconds as int),
{
    if duration.seconds > 0 {
        duration.seconds as u64
    } else {
        0
    }
}

/// The instant `seconds` (negative ones counting as zero) before `now`, or the
/// epoch if that is earlier.
pub open spec fn instant_before(now: int, seconds: int) -> int {
    if now >= clamp_seconds(seconds) {
        now - clamp_seconds(seconds)
    } else {
        0
    }
}

/// The instant `duration` before `now`, or the epoch if that is earlier.
pub fn timestamp_before(now: u64, duration: &Duration) -> (r: u64)
    ensures
        r == instant_before(now as int, duration.seconds as int),
{
    let back = duration_to_seconds(duration);
    if now >= back {
        now - back
    } else {
        0
    }
}

/// The instant that lies the given duration before now. Which instant that is
/// depends on the clock; what is stated holds whatever it reads: the result
/// is the duration (negative ones counting as zero) before some reading of
/// the clock, or the epoch when that would be earlier.
pub fn timestamp_from_duration_ago(duration_str: &str) -> (r: Result<u64, CliError>)
    requires
        !duration_overflows(duration_str@),
    ensures
        r is Ok <==> read_duration(duration_str@) is Seconds,
        r matches Err(e) ==> duration_error(e, read_duration(duration_str@)),
        r matches Ok(t) ==> (read_duration(duration_str@) matches DurationReading::Seconds(v) && exists|now: u64|
            t == #[trigger] instant_before(now as int, v)),
{
    let duration = parse_duration(duration_str)?;
    let now = now_seconds();
    let t = timestamp_before(now, &duration);
    proof {
        assert(t == instant_before(now as int, duration.seconds as int));
    }
    Ok(t)
}

/// The instant that lies the given duration before now, as
/// `timestamp_from_duration_ago` gives it, or `None` for a duration too long
/// to hold, on which `timestamp_from_duration_ago` would panic.
pub fn timestamp_from_duration_ago_checked(duration_str: &str) -> (r: Option<Result<u64, CliError>>)
    ensures
        r is None <==> duration_overflows(duration_str@),
        r matches Some(res) ==> (res is Ok <==> read_duration(duration_str@) is Seconds),
        r matches Some(Err(e)) ==> duration_error(e, read_duration(duration_str@)),
        r matches Some(Ok(t)) ==> (read_duration(duration_str@) matches DurationReading::Seconds(v) && exists|now: u64|
            t == #[trigger] instant_before(now as int, v)),
{
    if parse_duration_checked(duration_str).is_none() {
        return None;
    }
    Some(timestamp_from_duration_ago(duration_str))
}

/// The instant that starts the given date, read as `parse_date` reads it. A
/// date before 1970 wraps around, as a cast of the negative count does.
pub fn timestamp_from_date(date_str: &str) -> (r: Result<u64, CliError>)
    ensures
        match naive_date_from_str(date_str@) {
            Ok(t) => r == Ok::<u64, CliError>(midnight_utc_seconds(t.0 as int, t.1 as int, t.2 as int) as u64),
            Err(kind) => r matches Err(CliError::InvalidDate(e)) && e.kind == kind && e.text@ == date_error_text(kind),
        },
{
    let date = parse_date(date_str)?;
    let ts = date.timestamp();
    Ok(ts as u64)
}

/// The number of fetch modes chosen among gaps, back, from and continuous.
pub open spec fn fetch_mode_count(cli: Cli) -> int {
    (if cli.fetch_gaps { 1int } else { 0int }) + (if cli.fetch_back is Some { 1int } else { 0int }) + (
    if cli.fetch_from is Some { 1int } else { 0int }) + (if cli.fetch_continuous { 1int } else { 0int })
}

impl Cli {
    /// Checks that the options make sense together: at most one fetch mode,
    /// at least one thing to do, and a step only with a mode that uses it.
    pub fn validate(&self) -> (r: Result<(), CliError>)
        ensures
            fetch_mode_count(*self) > 1 ==> r matches Err(CliError::ExclusiveFetchModes),
            fetch_mode_count(*self) <= 1 && !self.show_state && !self.stream && fetch_mode_count(*self) == 0
                ==> r matches Err(CliError::NoMode),
            fetch_mode_count(*self) <= 1 && (self.show_state || self.stream || fetch_mode_count(*self) == 1)
                && self.step is Some && !self.fetch_continuous && self.fetch_back is None && self.fetch_from
                is None ==> r matches Err(CliError::StepWithoutFetch),
            fetch_mode_count(*self) <= 1 && (self.show_state || self.stream || fetch_mode_count(*self) == 1)
                && !(self.step is Some && !self.fetch_continuous && self.fetch_back is None
                && self.fetch_from is None) ==> r is Ok,
    {
        let mut fetch_modes: u32 = 0;
        if self.fetch_gaps {
            fetch_modes = fetch_modes + 1;
        }
        if self.fetch_back.is_some() {
            fetch_modes = fetch_modes + 1;
        }
        if self.fetch_from.is_some() {
            fetch_modes = fetch_modes + 1;
        }
        if self.fetch_continuous {
            fetch_modes = fetch_modes + 1;
        }
        if fetch_modes > 1 {
            return Err(CliError::ExclusiveFetchModes);
        }
        if !self.show_state && !self.stream && fetch_modes == 0 {
            return Err(CliError::NoMode);
        }
        if self.step.is_some() && !self.fetch_continuous && !self.fetch_back.is_some()
            && !self.fetch_from.is_some() {
            return Err(CliError::StepWithoutFetch);
        }
        Ok(())
    }

    /// The fetch mode chosen, checked in the order gaps, back, from, continuous.
    pub fn get_fetch_mode(&self) -> (r: FetchMode)
        ensures
            self.fetch_gaps ==> r is Gaps,
            !self.fetch_gaps && self.fetch_back is Some ==> (r matches FetchMode::Back(d) && d@
                == self.fetch_back->0@),
            !self.fetch_gaps && self.fetch_back is None && self.fetch_from is Some ==> (r matches FetchMode::From(d)
                && d@ == self.fetch_from->0@),
            !self.fetch_gaps && self.fetch_back is None && self.fetch_from is None && self.fetch_continuous
                ==> r is Continuous,
            !self.fetch_gaps && self.fetch_back is None && self.fetch_from is None && !self.fetch_continuous
                ==> r is NoFetch,
    {
        if self.fetch_gaps {
            FetchMode::Gaps
        } else if let Some(duration) = &self.fetch_back {
            FetchMode::Back(duration.clone())
        } else if let Some(date) = &self.fetch_from {
            FetchMode::From(date.clone())
        } else if self.fetch_continuous {
            FetchMode::Continuous
        } else {
            FetchMode::NoFetch
        }
    }

    /// Whether live streaming was asked for.
    pub fn has_stream(&self) -> (r: bool)
        ensures
            r == self.stream,
    {
        self.stream
    }

    /// The wait between fetches in seconds: zero when none is given, when it
    /// cannot be read, or when it is negative.
    pub fn get_wait_seconds(&self) -> (r: u64)
        requires
            self.wait matches Some(w) ==> !duration_overflows(w@),
        ensures
            r == match self.wait {
                None => 0,
                Some(w) => match read_duration(w@) {
                    DurationReading::Seconds(v) => clamp_seconds(v),
                    _ => 0,
                },
            },
    {
        if let Some(wait_str) = &self.wait {
            match parse_duration(wait_str.as_str()) {
                Ok(d) => duration_to_seconds(&d),
                Err(_) => 0,
            }
        } else {
            0
        }
    }

    /// The wait between fetches as `get_wait_seconds` gives it, or `None` when
    /// the wait is too long to hold, on which `get_wait_seconds` would panic.
    pub fn wait_seconds_checked(&self) -> (r: Option<u64>)
        ensures
            r is None <==> (self.wait matches Some(w) && duration_overflows(w@)),
            r matches Some(v) ==> v == match self.wait {
                None => 0,
                Some(w) => match read_duration(w@) {
                    DurationReading::Seconds(v) => clamp_seconds(v),
                    _ => 0,
                },
            },
    {
        if let Some(wait_str) = &self.wait {
            if parse_duration_checked(wait_str.as_str()).is_none() {
                return None;
            }
        }
        Some(self.get_wait_seconds())
    }

    /// The step text, if one was given.
    pub fn get_step(&self) -> (r: Option<String>)
        ensures
            r == self.step,
    {
        self.step.clone()
    }
}

impl CliError {
    /// The message shown for the error.
    pub fn message(&self) -> (r: String)
        ensures
            match self {
                CliError::ExclusiveFetchModes => r@ == "Fetch options are mutually exclusive: choose only one of --fetch-gaps, --fetch-back, --fetch-from, or --fetch-continuous"@,
                CliError::NoMode => r@ == "Must specify at least one option: --show-state, --stream, or a fetch option"@,
                CliError::StepWithoutFetch => r@ == "--step requires --fetch-continuous, --fetch-back, or --fetch-from"@,
                CliError::InvalidDurationFormat(t) => r@ == "Invalid duration format: "@ + t@,
                CliError::InvalidDurationNumber(t) => r@ == "Invalid number in duration: "@ + t@,
                CliError::UnknownTimeUnit(t) => r@ == "Unknown time unit: "@ + t@,
                CliError::InvalidDate(e) => r@ == "Invalid date format (expected yyyy-mm-dd): "@ + e.text@,
                CliError::ContinuousRequiresStep => r@ == "--fetch-continuous requires --step"@,
            },
    {
        match self {
            CliError::ExclusiveFetchModes => String::from_str(
                "Fetch options are mutually exclusive: choose only one of --fetch-gaps, --fetch-back, --fetch-from, or --fetch-continuous",
            ),
            CliError::NoMode => String::from_str(
                "Must specify at least one option: --show-state, --stream, or a fetch option",
            ),
            CliError::StepWithoutFetch => String::from_str(
                "--step requires --fetch-continuous, --fetch-back, or --fetch-from",
            ),
            CliError::InvalidDurationFormat(t) => String::from_str("Invalid duration format: ").concat(t.as_str()),
            CliError::InvalidDurationNumber(t) => String::from_str("Invalid number in duration: ").concat(
                t.as_str(),
            ),
            CliError::UnknownTimeUnit(t) => String::from_str("Unknown time unit: ").concat(t.as_str()),
            CliError::InvalidDate(e) => String::from_str("Invalid date format (expected yyyy-mm-dd): ").concat(
                e.text.as_str(),
            ),
            CliError::ContinuousRequiresStep => String::from_str("--fetch-continuous requires --step"),
        }
    }
}

} // verus!
