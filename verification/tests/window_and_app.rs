use energy_dashboard::app::{should_refresh, App, InputKey};
use energy_dashboard::monitor::EnergyMonitor;
use energy_dashboard::reading::EnergyReading;
use energy_dashboard::selection::SelectionState;
use energy_dashboard::stats::calculate_current_stats;
use energy_dashboard::window::{bar_values, compute_window, sorted_by_timestamp_desc, UpperBlockState};

fn monitor(current_ca: i64, ts: i64) -> EnergyMonitor {
    EnergyMonitor { power_watts: 220 * current_ca, current_amperes: current_ca, timestamp: ts }
}

fn reading(date: &str, time: &str, current: i64) -> EnergyReading {
    EnergyReading::new(date.to_string(), time.to_string(), current)
}

#[test]
fn sort_is_descending_and_keeps_arrival_order_on_ties() {
    let data = vec![monitor(1, 10), monitor(2, 30), monitor(3, 20), monitor(4, 30)];
    let sorted = sorted_by_timestamp_desc(&data);
    let ts: Vec<i64> = sorted.iter().map(|m| m.timestamp).collect();
    assert_eq!(ts, vec![30, 30, 20, 10]);
    // The two records with timestamp 30 keep their arrival order.
    assert_eq!(sorted[0].current_amperes, 2);
    assert_eq!(sorted[1].current_amperes, 4);
}

#[test]
fn window_clamps_offset_and_slices_descending_order() {
    let data = vec![monitor(1, 10), monitor(2, 20), monitor(3, 30), monitor(4, 40), monitor(5, 50)];
    // Width 21 fits 3 groups of 7 columns each.
    let mut state = UpperBlockState { offset: 10, total_groups: 0 };
    let window = compute_window(&data, 21, &mut state);
    assert_eq!(state.total_groups, 5);
    assert_eq!(state.offset, 2); // clamped to total - visible = 5 - 3
    assert_eq!(window.len(), 3);
    let ts: Vec<i64> = window.iter().map(|m| m.timestamp).collect();
    assert_eq!(ts, vec![30, 20, 10]);
}

#[test]
fn window_offset_zero_shows_most_recent() {
    let data = vec![monitor(1, 10), monitor(2, 20), monitor(3, 30)];
    let mut state = UpperBlockState::default();
    let window = compute_window(&data, 14, &mut state);
    assert_eq!(state.offset, 0);
    assert_eq!(window.len(), 2);
    assert_eq!(window[0].timestamp, 30);
    assert_eq!(window[1].timestamp, 20);
}

#[test]
fn window_of_empty_series_is_empty() {
    let data: Vec<EnergyMonitor> = Vec::new();
    let mut state = UpperBlockState { offset: 7, total_groups: 9 };
    let window = compute_window(&data, 80, &mut state);
    assert!(window.is_empty());
    assert_eq!(state.offset, 0);
    assert_eq!(state.total_groups, 0);
}

#[test]
fn narrow_display_shows_no_groups() {
    let data = vec![monitor(1, 10)];
    let mut state = UpperBlockState::default();
    let window = compute_window(&data, 6, &mut state);
    assert!(window.is_empty());
}

#[test]
fn bar_values_round_power_and_scale_current() {
    // 2.5 A -> 550.0 W: bars are 550 (watts) and 250 (hundredths of an ampere).
    assert_eq!(bar_values(&monitor(250, 0)), (550, 250));
    // 0.01 A -> 2.2 W rounds to 2.
    assert_eq!(bar_values(&monitor(1, 0)), (2, 1));
    // 0.03 A -> 6.6 W rounds to 7.
    assert_eq!(bar_values(&monitor(3, 0)), (7, 3));
    // Negative values clamp to zero-height bars.
    assert_eq!(bar_values(&monitor(-250, 0)), (0, 0));
}

#[test]
fn selection_wraps_forward_in_n_steps_and_backward_from_zero() {
    let readings = vec![
        reading("2024-01-01T00:00:00Z", "2024-01-01T00:00:00.000Z", 100),
        reading("2024-01-01T00:00:00Z", "2024-01-01T00:01:00.000Z", 200),
        reading("2024-01-01T00:00:00Z", "2024-01-01T00:02:00.000Z", 300),
    ];
    let mut app = App::new(&readings);
    assert_eq!(app.left_bottom_block_state.selected(), Some(0));
    // N = 3 forward steps return to the start.
    app.move_selection(1);
    assert_eq!(app.left_bottom_block_state.selected(), Some(1));
    app.move_selection(1);
    assert_eq!(app.left_bottom_block_state.selected(), Some(2));
    app.move_selection(1);
    assert_eq!(app.left_bottom_block_state.selected(), Some(0));
    // A backward step from row 0 wraps to N - 1.
    app.move_selection(-1);
    assert_eq!(app.left_bottom_block_state.selected(), Some(2));
}

#[test]
fn key_events_drive_exit_and_selection() {
    let readings = vec![
        reading("2024-01-01T00:00:00Z", "2024-01-01T00:00:00.000Z", 100),
        reading("2024-01-01T00:00:00Z", "2024-01-01T00:01:00.000Z", 200),
    ];
    let mut app = App::new(&readings);
    app.handle_key_event(InputKey::Down);
    assert_eq!(app.left_bottom_block_state.selected(), Some(1));
    app.handle_key_event(InputKey::Up);
    assert_eq!(app.left_bottom_block_state.selected(), Some(0));
    app.handle_key_event(InputKey::Char('x'));
    assert!(!app.exit);
    assert_eq!(app.left_bottom_block_state.selected(), Some(0));
    app.handle_key_event(InputKey::Other);
    assert!(!app.exit);
    app.handle_key_event(InputKey::Char('q'));
    assert!(app.exit);
}

#[test]
fn refresh_appends_new_and_drops_duplicate_and_invalid() {
    let mut app = App::new(&Vec::new());
    let r1 = reading("2024-01-01T00:00:00Z", "2024-01-01T00:00:00.000Z", 100);
    app.update_data_with_last_reading(&r1);
    assert_eq!(app.data.len(), 1);
    // The same latest reading fetched again is dropped.
    app.update_data_with_last_reading(&r1);
    assert_eq!(app.data.len(), 1);
    // A reading that fails to normalize changes nothing.
    let bad = reading("nope", "2024-01-01T00:00:00.000Z", 100);
    app.update_data_with_last_reading(&bad);
    assert_eq!(app.data.len(), 1);
    // A genuinely new reading is appended at the end.
    let r2 = reading("2024-01-01T00:00:00Z", "2024-01-01T00:01:00.000Z", 100);
    app.update_data_with_last_reading(&r2);
    assert_eq!(app.data.len(), 2);
    assert_eq!(app.data.all()[0].current_amperes, 100);
}

#[test]
fn startup_with_empty_series() {
    let app = App::new(&Vec::new());
    assert_eq!(app.data.len(), 0);
    assert_eq!(app.left_bottom_block_state.selected(), None);
    assert!(!app.exit);
    assert!(calculate_current_stats(app.data.all()).is_none());
    let mut state = UpperBlockState::default();
    assert!(compute_window(app.data.all(), 80, &mut state).is_empty());
}

#[test]
fn bulk_load_skips_bad_readings_independently() {
    let readings = vec![
        reading("2024-01-01T00:00:00Z", "2024-01-01T00:00:00.000Z", 100),
        reading("bad", "2024-01-01T00:01:00.000Z", 200),
        reading("2024-01-01T00:00:00Z", "2024-01-01T00:02:00.000Z", 300),
    ];
    let app = App::new(&readings);
    assert_eq!(app.data.len(), 2);
    assert_eq!(app.data.all()[0].current_amperes, 100);
    assert_eq!(app.data.all()[1].current_amperes, 300);
}

#[test]
fn refresh_fires_at_the_interval() {
    assert!(!should_refresh(0));
    assert!(!should_refresh(59_999));
    assert!(should_refresh(60_000));
    assert!(should_refresh(120_000));
}

#[test]
fn select_initial_clears_selection_on_empty_series() {
    let mut state = SelectionState::default();
    state.select(Some(3));
    state.select_initial(0);
    assert_eq!(state.selected(), None);
    state.select_initial(2);
    assert_eq!(state.selected(), Some(0));
}
