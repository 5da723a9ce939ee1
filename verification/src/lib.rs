//! Dashboard engine for a single electrical-current sensor feed: an
//! append-only, deduplicated time series of normalized readings, the
//! windowing arithmetic that maps the series onto a bounded chart width,
//! a wraparound row-selection state machine, and derived statistics.
//!
//! Currents are held in hundredths of an ampere and powers in hundredths
//! of a watt, so that every derived quantity is exact integer arithmetic;
//! timestamps are UTC seconds since 1970-01-01T00:00:00Z.

pub mod app;
pub mod epoch;
pub mod monitor;
pub mod reading;
pub mod selection;
pub mod stats;
pub mod store;
pub mod window;
