//! Normalized energy records: one validated observation of the sensor,
//! with the derived power, the current it was derived from, and the UTC
//! instant the reading belongs to.

use vstd::prelude::*;
use crate::epoch::{TIMESTAMP_MIN, TIMESTAMP_MAX};
use crate::reading::{spec_timestamp, EnergyReading};

verus! {

/// Fixed mains voltage used to derive power from current. With currents
/// in hundredths of an ampere, `VOLTAGE * current` is the power in
/// hundredths of a watt, exactly.
pub const VOLTAGE: i64 = 220;

/// Largest magnitude of current, in hundredths of an ampere, that a
/// reading may carry: the bound under which `VOLTAGE * current` fits `i64`.
pub const CURRENT_LIMIT: i64 = 40_000_000_000_000_000;

/// One normalized, immutable energy observation. `power_watts` is in
/// hundredths of a watt, `current_amperes` in hundredths of an ampere,
/// `timestamp` in UTC seconds since the Unix epoch.
#[derive(Clone, Copy, Debug, PartialEq, Eq, Structural)]
pub struct EnergyMonitor {
    pub power_watts: i64,
    pub current_amperes: i64,
    pub timestamp: i64,
}

/// The record a raw reading normalizes to: power derived from the current
/// at the fixed voltage and a timestamp combined from the two parsed
/// strings, or `None` exactly when either string fails to parse.
pub open spec fn spec_normalize(r: EnergyReading) -> Option<EnergyMonitor> {
    match spec_timestamp(r.date@, r.time@) {
        Some(ts) => Some(
            EnergyMonitor {
                power_watts: (VOLTAGE * r.current) as i64,
                current_amperes: r.current,
                timestamp: ts as i64,
            },
        ),
        None => None,
    }
}

impl EnergyMonitor {
    /// Well-formedness: power is exactly the fixed voltage times the
    /// current, the current is within the representable bound, and the
    /// timestamp lies in the range calendar arithmetic can produce.
    pub open spec fn wf(self) -> bool {
        &&& self.power_watts == VOLTAGE * self.current_amperes
        &&& -CURRENT_LIMIT <= self.current_amperes <= CURRENT_LIMIT
        &&& TIMESTAMP_MIN <= self.timestamp <= TIMESTAMP_MAX
    }

    /// Normalizes one raw reading; rejection (an unparseable date or time
    /// string) is signalled by `None` alone, and the current's value is
    /// never a reason to reject.
    pub fn new(data: &EnergyReading) -> (r: Option<Self>)
        requires
            -CURRENT_LIMIT <= data.current <= CURRENT_LIMIT,
        ensures
            r == spec_normalize(*data),
            r matches Some(m) ==> m.wf(),
    {
        let timestamp = match data.parse_timestamp() {
            Some(ts) => ts,
            None => {
                return None;
            },
        };
        Some(EnergyMonitor {
            power_watts: VOLTAGE * data.current(),
            current_amperes: data.current(),
            timestamp,
        })
    }

    /// Power in hundredths of a watt.
    pub fn power_watts(&self) -> (r: i64)
        ensures
            r == self.power_watts,
    {
        self.power_watts
    }

    /// Current in hundredths of an ampere.
    pub fn current_amperes(&self) -> (r: i64)
        ensures
            r == self.current_amperes,
    {
        self.current_amperes
    }

    /// UTC timestamp in seconds since the Unix epoch.
    pub fn timestamp(&self) -> (r: i64)
        ensures
            r == self.timestamp,
    {
        self.timestamp
    }
}

} // verus!
