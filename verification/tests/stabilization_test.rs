use chronicle_bot::session::stabilization::{
    evaluate, evaluate_readable, GateInputs, GateVerdict, StreakStatus, StreakTracker,
    STABILIZATION_TIMEOUT,
};
use chronicle_bot::time::{span_millis, span_secs};
use std::collections::{HashMap, HashSet};

fn fresh_inputs() -> GateInputs {
    GateInputs {
        ssrcs_seen: HashSet::new(),
        ssrc_map: HashMap::new(),
        expected_user_ids: HashSet::new(),
    }
}

#[test]
fn gate_unhealthy_when_no_users_and_no_ssrcs() {
    let inputs = fresh_inputs();
    assert_eq!(evaluate(&inputs), GateVerdict::Unhealthy);
}

#[test]
fn gate_healthy_with_all_expected_users_mapped_and_seen() {
    let mut inputs = fresh_inputs();
    inputs.expected_user_ids.extend([10u64, 11]);
    inputs.ssrc_map.extend([(100u32, 10u64), (101, 11)]);
    inputs.ssrcs_seen.extend([100u32, 101]);
    assert_eq!(evaluate(&inputs), GateVerdict::Healthy);
}

#[test]
fn gate_unhealthy_when_one_user_missing_audio() {
    let mut inputs = fresh_inputs();
    inputs.expected_user_ids.extend([10u64, 11]);
    inputs.ssrc_map.extend([(100u32, 10u64), (101, 11)]);
    inputs.ssrcs_seen.insert(100);
    assert_eq!(evaluate(&inputs), GateVerdict::Unhealthy);
}

#[test]
fn streak_requires_continuous_healthy_window() {
    let mut tracker = StreakTracker::new(span_millis(50));
    assert!(matches!(
        tracker.observe_at(GateVerdict::Healthy, span_millis(1)),
        StreakStatus::Streaking
    ));
    assert!(matches!(
        tracker.observe_at(GateVerdict::Unhealthy, span_millis(2)),
        StreakStatus::Unhealthy
    ));
    assert!(matches!(
        tracker.observe_at(GateVerdict::Healthy, span_millis(3)),
        StreakStatus::Streaking
    ));
    assert!(matches!(
        tracker.observe_at(GateVerdict::Healthy, span_millis(63)),
        StreakStatus::GateOpens { .. }
    ));
}

#[test]
fn gate_opens_after_simulated_voice_frames() {
    let mut inputs = fresh_inputs();
    inputs.expected_user_ids.extend([100u64, 101]);
    assert_eq!(evaluate(&inputs), GateVerdict::Unhealthy);

    inputs.ssrc_map.extend([(5000u32, 100u64), (5001, 101)]);
    assert_eq!(evaluate(&inputs), GateVerdict::Unhealthy);

    inputs.ssrcs_seen.extend([5000u32, 5001]);
    assert_eq!(evaluate(&inputs), GateVerdict::Healthy);

    let mut tracker = StreakTracker::new(span_millis(50));
    assert!(matches!(
        tracker.observe_at(evaluate(&inputs), 0),
        StreakStatus::Streaking
    ));
    let verdict = evaluate(&inputs);
    assert!(matches!(
        tracker.observe_at(verdict, span_millis(60)),
        StreakStatus::GateOpens { .. }
    ));
}

#[test]
fn gate_does_not_reopen_after_first_open() {
    let mut tracker = StreakTracker::new(span_millis(10));
    assert!(matches!(
        tracker.observe_at(GateVerdict::Healthy, 0),
        StreakStatus::Streaking
    ));
    assert!(matches!(
        tracker.observe_at(GateVerdict::Healthy, span_millis(15)),
        StreakStatus::GateOpens { .. }
    ));
    assert!(matches!(
        tracker.observe_at(GateVerdict::Healthy, span_millis(15)),
        StreakStatus::GateOpens { .. }
    ));
}

#[test]
fn gate_without_expected_users_needs_one_audible_stream() {
    let mut inputs = fresh_inputs();
    inputs.ssrc_map.insert(7, 70);
    assert_eq!(evaluate(&inputs), GateVerdict::Unhealthy);
    inputs.ssrcs_seen.insert(8);
    assert_eq!(evaluate(&inputs), GateVerdict::Unhealthy);
    inputs.ssrcs_seen.insert(7);
    assert_eq!(evaluate(&inputs), GateVerdict::Healthy);
    assert_eq!(evaluate_readable(Some(&inputs)), GateVerdict::Healthy);
    assert_eq!(evaluate_readable(None), GateVerdict::Unhealthy);
}

#[test]
fn gate_times_out_at_the_cap() {
    assert_eq!(STABILIZATION_TIMEOUT, span_secs(180));
    let mut tracker = StreakTracker::new(span_secs(3));
    assert_eq!(
        tracker.observe_at(GateVerdict::Unhealthy, span_secs(180) - 1),
        StreakStatus::Unhealthy
    );
    assert_eq!(
        tracker.observe_at(GateVerdict::Unhealthy, span_secs(180)),
        StreakStatus::TimedOut
    );
    assert_eq!(
        tracker.observe_at(GateVerdict::Healthy, span_secs(200)),
        StreakStatus::TimedOut
    );
    let mut fresh = StreakTracker::new(span_secs(3));
    fresh.observe_at(GateVerdict::Healthy, span_secs(10));
    assert_eq!(
        fresh.observe_at(GateVerdict::Healthy, span_secs(13)),
        StreakStatus::GateOpens { total_nanos: span_secs(13) }
    );
}

#[test]
fn tracker_reads_the_clock() {
    let mut tracker = StreakTracker::new(0);
    assert!(matches!(
        tracker.observe(GateVerdict::Healthy),
        StreakStatus::GateOpens { .. }
    ));
    let mut tracker = StreakTracker::new(span_secs(3));
    assert_eq!(tracker.observe(GateVerdict::Unhealthy), StreakStatus::Unhealthy);
    assert_eq!(tracker.observe(GateVerdict::Healthy), StreakStatus::Streaking);
}
