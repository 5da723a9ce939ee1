//! Raw sensor readings as the remote feed delivers them: a calendar date
//! string, a wall-clock time string, and a current. Parsing the two
//! strings is delegated to chrono; combining the parsed components into a
//! UTC timestamp is verified calendar arithmetic.

use vstd::prelude::*;
use crate::epoch::{epoch_seconds, epoch_seconds_from_civil, TIMESTAMP_MIN, TIMESTAMP_MAX, YEAR_MIN, YEAR_MAX};

verus! {

/// The civil date that chrono reads out of an RFC 3339 date-and-time
/// string, as `(year, month, day)`, or `None` where the string does not
/// parse. The result depends on the string alone.
pub uninterp spec fn date_of(s: Seq<char>) -> Option<(i32, u32, u32)>;

/// The time of day that chrono reads out of an ISO-8601 datetime string
/// with fractional seconds, as `(hour, minute, second)`, or `None` where
/// the string does not parse. The result depends on the string alone.
pub uninterp spec fn time_of(s: Seq<char>) -> Option<(u32, u32, u32)>;

/// Relies on chrono's `DateTime::parse_from_rfc3339` and, through
/// `date_naive`, the `Datelike` accessors of the parsed date: the parse is
/// a function of the string alone; chrono documents months as 1..=12 and
/// days as 1..=31, and its `NaiveDate` years stay within one year of the
/// range `[-262143, 262142]`.
#[verifier::external_body]
fn parse_rfc3339_date(s: &str) -> (r: Option<(i32, u32, u32)>)
    ensures
        r == date_of(s@),
        r matches Some(d) ==> {
            &&& YEAR_MIN <= d.0 <= YEAR_MAX
            &&& 1 <= d.1 <= 12
            &&& 1 <= d.2 <= 31
        },
{
    match chrono::DateTime::parse_from_rfc3339(s) {
        Ok(dt) => {
            let date = dt.date_naive();
            Some((chrono::Datelike::year(&date), chrono::Datelike::month(&date), chrono::Datelike::day(&date)))
        }
        Err(_) => None,
    }
}

/// Relies on chrono's `NaiveDateTime::parse_from_str` with the fixed
/// format `%Y-%m-%dT%H:%M:%S%.fZ` and, through `time`, the `Timelike`
/// accessors of the time-of-day component: the parse is a function of the
/// string alone; chrono documents hours as 0..=23 and minutes and seconds
/// as 0..=59 (a leap second is still reported as second 59).
#[verifier::external_body]
fn parse_iso_time(s: &str) -> (r: Option<(u32, u32, u32)>)
    ensures
        r == time_of(s@),
        r matches Some(t) ==> t.0 <= 23 && t.1 <= 59 && t.2 <= 59,
{
    match chrono::NaiveDateTime::parse_from_str(s, "%Y-%m-%dT%H:%M:%S%.fZ") {
        Ok(dt) => {
            let t = dt.time();
            Some((chrono::Timelike::hour(&t), chrono::Timelike::minute(&t), chrono::Timelike::second(&t)))
        }
        Err(_) => None,
    }
}

/// The UTC timestamp a reading with the given date and time strings
/// normalizes to: the chrono-parsed civil date combined with the
/// chrono-parsed time of day, or `None` where either string is rejected.
pub open spec fn spec_timestamp(date: Seq<char>, time: Seq<char>) -> Option<int> {
    match (date_of(date), time_of(time)) {
        (Some(d), Some(t)) => Some(
            epoch_seconds(d.0 as int, d.1 as int, d.2 as int, t.0 as int, t.1 as int, t.2 as int),
        ),
        _ => None,
    }
}

/// One raw reading from the remote feed. `current` is in hundredths of an
/// ampere; `date` and `time` are the feed's verbatim strings.
pub struct EnergyReading {
    pub date: String,
    pub time: String,
    pub current: i64,
}

impl EnergyReading {
    /// Packs the three wire fields of one reading.
    pub fn new(date: String, time: String, current: i64) -> (r: Self)
        ensures
            r.date == date,
            r.time == time,
            r.current == current,
    {
        EnergyReading { date, time, current }
    }

    /// The reading's current in hundredths of an ampere.
    pub fn current(&self) -> (r: i64)
        ensures
            r == self.current,
    {
        self.current
    }

    /// Combines the date component of `date` with the time-of-day
    /// component of `time` into a UTC timestamp; `None` exactly when
    /// either string fails to parse.
    pub fn parse_timestamp(&self) -> (r: Option<i64>)
        ensures
            r is Some <==> spec_timestamp(self.date@, self.time@) is Some,
            r matches Some(ts) ==> {
                &&& Some(ts as int) == spec_timestamp(self.date@, self.time@)
                &&& TIMESTAMP_MIN <= ts <= TIMESTAMP_MAX
            },
    {
        let d = match parse_rfc3339_date(self.date.as_str()) {
            Some(d) => d,
            None => {
                return None;
            },
        };
        let t = match parse_iso_time(self.time.as_str()) {
            Some(t) => t,
            None => {
                return None;
            },
        };
        Some(epoch_seconds_from_civil(d.0, d.1, d.2, t.0, t.1, t.2))
    }
}

} // verus!
