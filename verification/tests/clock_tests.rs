use caop_dom::clock::{
    abs_i64, allowed_range, compute_sim_time, compute_true_time, current_uncertainty,
    duration_to_us, micros_from_parts, micros_to_i64, read_time, read_time_with_uncertainty,
    resync_at, system_time_us, ClockConfig, ClockState,
};
use std::time::Duration;

fn config(drift: i64, unc: i64, period: i64) -> ClockConfig {
    ClockConfig {
        node_id: 1,
        drift_rate_us_per_sec: drift,
        sync_uncertainty_us: unc,
        sync_period_us: period,
        seed: Some(42),
    }
}

#[test]
fn abs_saturates_at_the_minimum() {
    assert_eq!(abs_i64(-5), 5);
    assert_eq!(abs_i64(7), 7);
    assert_eq!(abs_i64(i64::MIN), i64::MAX);
}

#[test]
fn durations_and_epoch_times_in_microseconds() {
    assert_eq!(duration_to_us(Duration::new(3, 2_500)), 3_000_002);
    assert_eq!(micros_from_parts(u64::MAX, 5), i64::MAX);
    assert_eq!(micros_to_i64(u128::MAX), i64::MAX);
    assert_eq!(micros_to_i64(12), 12);
    assert!(system_time_us() > 0);
    assert_eq!(compute_true_time(i64::MAX - 1, 5), i64::MAX);
}

#[test]
fn simulated_time_adds_offset_and_drift() {
    let cfg = config(100, 50, 1_000_000);
    // One second after the last sync at 100 us per second of drift.
    assert_eq!(compute_sim_time(&cfg, 2_000_000, 7, 1_000_000), 2_000_107);
    // Drift truncates toward zero.
    let neg = config(-3, 50, 1_000_000);
    assert_eq!(compute_sim_time(&neg, 1_500_000, 0, 1_000_000), 1_499_999);
    assert_eq!(allowed_range(&cfg, 1_000), (950, 1_050));
}

#[test]
fn readings_stay_within_the_uncertainty_bound_and_never_go_back() {
    let cfg = config(100_000, 50, 1_000_000_000);
    let mut state = ClockState::new(&cfg, 0);
    // A large drift is clamped to the upper end of the range.
    let t1 = read_time(&cfg, &mut state, 1_000_000).unwrap();
    assert_eq!(t1, 1_000_050);
    // The true time stands still: the reading does not go back.
    let t2 = read_time(&cfg, &mut state, 1_000_000).unwrap();
    assert!(t2 >= t1 && t2 <= 1_000_050);
    let t3 = read_time(&cfg, &mut state, 1_000_010).unwrap();
    assert!(t3 >= t2 && t3 <= 1_000_060 && t3 >= 999_960);
}

#[test]
fn resync_restarts_the_drift_at_the_scheduled_time() {
    let cfg = config(0, 10, 100);
    let mut state = ClockState::new(&cfg, 0);
    state.base_sim_offset_us = 5;
    resync_at(&cfg, 100, &mut state);
    assert_eq!(state.base_sim_offset_us, 0);
    assert_eq!(state.last_sync_true_time, 100);
    assert_eq!(state.next_resync_sim_us, 200);
    let t = read_time(&cfg, &mut state, 450).unwrap();
    assert_eq!(t, 450);
    assert_eq!(state.next_resync_sim_us, 500);
    assert_eq!(state.last_sync_true_time, 400);
}

#[test]
fn uncertainty_covers_the_error_of_the_reading() {
    let cfg = config(100_000, 50, 1_000_000_000);
    let mut state = ClockState::new(&cfg, 0);
    let (t, u) = read_time_with_uncertainty(&cfg, &mut state, 1_000_000).unwrap();
    assert_eq!(t, 1_000_050);
    // The error equals the bound, so the uncertainty is exactly that.
    assert_eq!(u, 50);
    let exact = config(0, 0, 1_000);
    let mut s2 = ClockState::new(&exact, 10);
    read_time(&exact, &mut s2, 20).unwrap();
    assert_eq!(current_uncertainty(&exact, &mut s2), Some(0));
    let wide = config(0, 80, 1_000_000);
    let mut s3 = ClockState::new(&wide, 0);
    let (t3, u3) = read_time_with_uncertainty(&wide, &mut s3, 500).unwrap();
    assert_eq!(t3, 500);
    assert!(u3 <= 80);
}

#[test]
fn resync_moves_the_schedule_by_the_fewest_whole_periods() {
    let cfg = config(0, 10, 1_000);
    let mut state = ClockState::new(&cfg, 0);
    assert_eq!(state.next_resync_sim_us, 1_000);
    resync_at(&cfg, 2_500, &mut state);
    assert_eq!(state.next_resync_sim_us, 3_000);
    assert_eq!(state.last_sync_true_time, 2_500);
    resync_at(&cfg, 3_000, &mut state);
    assert_eq!(state.next_resync_sim_us, 4_000);
}

#[test]
fn a_configured_seed_gives_the_same_uncertainty_draws() {
    let mut cfg = config(0, 1_000, 1_000_000);
    cfg.seed = Some(42);
    let mut a = ClockState::new(&cfg, 0);
    let mut b = ClockState::new(&cfg, 0);
    let mut da = Vec::new();
    let mut db = Vec::new();
    for t in [100i64, 200, 300, 400] {
        da.push(read_time_with_uncertainty(&cfg, &mut a, t).unwrap());
        db.push(read_time_with_uncertainty(&cfg, &mut b, t).unwrap());
    }
    assert_eq!(da, db);
}
