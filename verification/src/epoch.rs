//! Proleptic-Gregorian calendar arithmetic: turning a civil date and a
//! wall-clock time of day into seconds since the Unix epoch, and back from
//! a timestamp to the time of day shown in chart and table labels.

use vstd::prelude::*;
use vstd::arithmetic::div_mod::{lemma_fundamental_div_mod, lemma_mod_bound, lemma_div_is_ordered};

verus! {

/// Least calendar year accepted by the date arithmetic.
pub const YEAR_MIN: i32 = -262144;

/// Greatest calendar year accepted by the date arithmetic.
pub const YEAR_MAX: i32 = 262143;

/// Every timestamp produced from an accepted civil date lies in
/// `[TIMESTAMP_MIN, TIMESTAMP_MAX]`, comfortably inside `i64`.
pub const TIMESTAMP_MIN: i64 = -10_000_000_000_000;

/// See `TIMESTAMP_MIN`.
pub const TIMESTAMP_MAX: i64 = 10_000_000_000_000;

/// Number of days from 1970-01-01 to the civil date `y-m-d` in the
/// proleptic Gregorian calendar (negative for earlier dates), computed
/// over 400-year eras of exactly 146097 days.
pub open spec fn days_from_civil(y: int, m: int, d: int) -> int {
    let yp = if m <= 2 { y - 1 } else { y };
    let era = yp / 400;
    let yoe = yp % 400;
    let mp = (m + 9) % 12;
    let doy = (153 * mp + 2) / 5 + d - 1;
    let doe = yoe * 365 + yoe / 4 - yoe / 100 + doy;
    era * 146097 + doe - 719468
}

/// Seconds since 1970-01-01T00:00:00Z of the civil datetime
/// `y-m-d h:mi:s`, read as UTC.
pub open spec fn epoch_seconds(y: int, m: int, d: int, h: int, mi: int, s: int) -> int {
    days_from_civil(y, m, d) * 86400 + h * 3600 + mi * 60 + s
}

/// Computes `epoch_seconds` for a civil datetime within the supported
/// calendar range; the result always fits the declared timestamp bounds.
pub fn epoch_seconds_from_civil(y: i32, m: u32, d: u32, h: u32, mi: u32, s: u32) -> (r: i64)
    requires
        YEAR_MIN <= y <= YEAR_MAX,
        1 <= m <= 12,
        1 <= d <= 31,
        h <= 23,
        mi <= 59,
        s <= 59,
    ensures
        r == epoch_seconds(y as int, m as int, d as int, h as int, mi as int, s as int),
        TIMESTAMP_MIN <= r <= TIMESTAMP_MAX,
{
    let yp: i64 = if m <= 2 { y as i64 - 1 } else { y as i64 };
    proof {
        lemma_div_is_ordered(-262400, yp as int, 400);
        lemma_div_is_ordered(yp as int, 262400, 400);
        lemma_fundamental_div_mod(yp as int, 400);
        lemma_mod_bound(yp as int, 400);
    }
    let era: i64 = yp.checked_div_euclid(400).unwrap();
    let yoe: u64 = (yp - era * 400) as u64;
    assert(yoe == (yp as int) % 400);
    let mp: u64 = (m as u64 + 9) % 12;
    let doy: u64 = (153 * mp + 2) / 5 + d as u64 - 1;
    let doe: u64 = yoe * 365 + yoe / 4 - yoe / 100 + doy;
    let days: i64 = era * 146097 + doe as i64 - 719468;
    days * 86400 + h as i64 * 3600 + mi as i64 * 60 + s as i64
}

/// Splits a timestamp into the hour, minute and second of its UTC day;
/// the day boundary is taken in the Euclidean sense, so times before the
/// epoch also map to an ordinary wall-clock reading.
pub fn time_of_day_parts(ts: i64) -> (r: (u8, u8, u8))
    ensures
        r.0 == (ts as int % 86400) / 3600,
        r.1 == ((ts as int % 86400) % 3600) / 60,
        r.2 == (ts as int % 86400) % 60,
{
    proof {
        lemma_mod_bound(ts as int, 86400);
    }
    let sod: u64 = ts.checked_rem_euclid(86400).unwrap() as u64;
    let h: u64 = sod / 3600;
    let mi: u64 = (sod % 3600) / 60;
    let s: u64 = sod % 60;
    (h as u8, mi as u8, s as u8)
}

} // verus!
