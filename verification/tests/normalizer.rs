use energy_dashboard::epoch::{epoch_seconds_from_civil, time_of_day_parts};
use energy_dashboard::monitor::EnergyMonitor;
use energy_dashboard::reading::EnergyReading;

fn reading(date: &str, time: &str, current: i64) -> EnergyReading {
    EnergyReading::new(date.to_string(), time.to_string(), current)
}

#[test]
fn valid_reading_normalizes_exactly() {
    // Current 2.5 A = 250 centiamperes; power 220 * 2.5 = 550.0 W.
    let r = reading("2024-01-01T00:00:00Z", "2024-01-01T08:15:30.000Z", 250);
    let m = EnergyMonitor::new(&r).expect("valid reading must normalize");
    assert_eq!(m.current_amperes(), 250);
    assert_eq!(m.power_watts(), 55000);
    assert_eq!(m.power_watts() as f64 / 100.0, 550.0);
    // 2024-01-01T08:15:30Z as a Unix timestamp.
    assert_eq!(m.timestamp(), 1_704_096_930);
    assert_eq!(time_of_day_parts(m.timestamp()), (8, 15, 30));
}

#[test]
fn unparseable_time_is_rejected() {
    let r = reading("2024-01-01T00:00:00Z", "08:15:30", 250);
    assert!(EnergyMonitor::new(&r).is_none());
    let r = reading("2024-01-01T00:00:00Z", "not a time", 250);
    assert!(EnergyMonitor::new(&r).is_none());
}

#[test]
fn unparseable_date_is_rejected() {
    let r = reading("2024-01-01", "2024-01-01T08:15:30.000Z", 250);
    assert!(EnergyMonitor::new(&r).is_none());
    let r = reading("yesterday", "2024-01-01T08:15:30.000Z", 250);
    assert!(EnergyMonitor::new(&r).is_none());
}

#[test]
fn negative_and_zero_currents_are_accepted() {
    let r = reading("2024-06-01T00:00:00Z", "2024-06-01T12:00:00.000Z", -300);
    let m = EnergyMonitor::new(&r).expect("negative current is not a reason to reject");
    assert_eq!(m.current_amperes(), -300);
    assert_eq!(m.power_watts(), -66000);
    let r = reading("2024-06-01T00:00:00Z", "2024-06-01T12:00:00.000Z", 0);
    let m = EnergyMonitor::new(&r).expect("zero current is not a reason to reject");
    assert_eq!(m.power_watts(), 0);
}

#[test]
fn parse_timestamp_matches_chrono_across_samples() {
    // The verified calendar arithmetic must agree with what chrono itself
    // would say for these instants (values computed independently).
    let cases: Vec<(&str, &str, i64)> = vec![
        ("1970-01-01T00:00:00Z", "1970-01-01T00:00:00.000Z", 0),
        ("1969-12-31T00:00:00Z", "1969-12-31T23:59:59.000Z", -1),
        ("2000-02-29T00:00:00Z", "2000-02-29T12:00:00.000Z", 951_825_600),
        ("2024-02-29T00:00:00Z", "2024-02-29T00:00:00.000Z", 1_709_164_800),
        ("2100-03-01T00:00:00Z", "2100-03-01T00:00:00.000Z", 4_107_542_400),
    ];
    for (date, time, expected) in cases {
        let r = reading(date, time, 100);
        assert_eq!(r.parse_timestamp(), Some(expected), "for {date} {time}");
    }
}

#[test]
fn epoch_seconds_from_civil_concrete() {
    assert_eq!(epoch_seconds_from_civil(1970, 1, 1, 0, 0, 0), 0);
    assert_eq!(epoch_seconds_from_civil(2024, 1, 1, 8, 15, 30), 1_704_096_930);
    assert_eq!(epoch_seconds_from_civil(1969, 12, 31, 23, 59, 59), -1);
}

#[test]
fn time_of_day_handles_negative_timestamps() {
    assert_eq!(time_of_day_parts(-1), (23, 59, 59));
    assert_eq!(time_of_day_parts(0), (0, 0, 0));
    assert_eq!(time_of_day_parts(86_399), (23, 59, 59));
    assert_eq!(time_of_day_parts(86_400), (0, 0, 0));
}

#[test]
fn reading_keeps_its_fields() {
    let r = reading("a", "b", 42);
    assert_eq!(r.current(), 42);
    assert_eq!(r.date, "a");
    assert_eq!(r.time, "b");
}
