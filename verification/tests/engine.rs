//! Tests of the clock, the pulse history and the RPM formula.

use tachometer::clock::Clock;
use tachometer::history::PulseHistory;
use tachometer::rpm::{calculate_rpm, RpmInfo};

#[test]
fn calculate_rpm_window_scenario() {
    // 5 pulses over 5 seconds scale to 60 per minute.
    let info = RpmInfo { oldest_sensor_hit_time: 10_000, count: 5 };
    assert_eq!(calculate_rpm(15_000, &info), 60);
}

#[test]
fn calculate_rpm_no_window_any_time() {
    let info = RpmInfo { oldest_sensor_hit_time: 0, count: 0 };
    assert_eq!(calculate_rpm(0, &info), 0);
    assert_eq!(calculate_rpm(1, &info), 0);
    assert_eq!(calculate_rpm(15_000, &info), 0);
    assert_eq!(calculate_rpm(u32::MAX, &info), 0);
}

#[test]
fn calculate_rpm_zero_count() {
    let info = RpmInfo { oldest_sensor_hit_time: 500, count: 0 };
    assert_eq!(calculate_rpm(700, &info), 0);
}

#[test]
fn calculate_rpm_zero_deltatime() {
    let info = RpmInfo { oldest_sensor_hit_time: 700, count: 3 };
    assert_eq!(calculate_rpm(700, &info), 0);
}

#[test]
fn calculate_rpm_wrapped_window() {
    // A window that straddles the clock rollover still measures 6 ms.
    let info = RpmInfo { oldest_sensor_hit_time: u32::MAX, count: 2 };
    assert_eq!(calculate_rpm(5, &info), 120_000 / 6);
}

#[test]
fn history_starts_without_window() {
    let history = PulseHistory::new();
    let info = history.read_snapshot();
    assert_eq!(info, RpmInfo { oldest_sensor_hit_time: 0, count: 0 });
}

#[test]
fn history_single_pulse_no_window() {
    // The only recent pulse is the one just recorded, so there is no window
    // and the rate is zero.
    let mut history = PulseHistory::new();
    history.record_pulse(5_000);
    let info = history.read_snapshot();
    assert_eq!(info, RpmInfo { oldest_sensor_hit_time: 0, count: 0 });
    assert_eq!(calculate_rpm(5_000, &info), 0);
}

#[test]
fn history_stale_pulses_no_window() {
    // The earlier pulse is older than the staleness bound when the second
    // arrives, so the window resets.
    let mut history = PulseHistory::new();
    history.record_pulse(100);
    history.record_pulse(20_000);
    let info = history.read_snapshot();
    assert_eq!(info, RpmInfo { oldest_sensor_hit_time: 0, count: 0 });
}

#[test]
fn history_window_found() {
    let mut history = PulseHistory::new();
    history.record_pulse(1_000);
    history.record_pulse(1_500);
    history.record_pulse(2_000);
    let info = history.read_snapshot();
    // The oldest in-window pulse sits three slots from the end of the ring,
    // so the derived count spans those three slots.
    assert_eq!(info, RpmInfo { oldest_sensor_hit_time: 1_000, count: 3 });
    assert_eq!(calculate_rpm(2_000, &info), 60_000 * 3 / 1_000);
}

#[test]
fn history_fifo_eviction() {
    // 70 insertions into a 64-slot ring: the first 6 pulses are evicted in
    // FIFO order, and the oldest surviving timestamp is pulse number 7.
    let mut history = PulseHistory::new();
    let mut t: u32 = 0;
    for _ in 0..70 {
        t += 1;
        history.record_pulse(t);
    }
    let info = history.read_snapshot();
    assert_eq!(info, RpmInfo { oldest_sensor_hit_time: 7, count: 64 });
}

#[test]
fn read_snapshot_idempotent() {
    let mut history = PulseHistory::new();
    history.record_pulse(1_000);
    history.record_pulse(1_200);
    let first = history.read_snapshot();
    let second = history.read_snapshot();
    assert_eq!(first, second);
}

#[test]
fn clock_counts_ticks() {
    let mut clock = Clock::new();
    assert_eq!(clock.now(), 0);
    for _ in 0..5 {
        clock.tick();
    }
    // 5 firings at 16 ms per tick.
    assert_eq!(clock.now(), 80);
}
