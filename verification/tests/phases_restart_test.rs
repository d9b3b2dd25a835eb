use chronicle_bot::session::heal::{after_rejoin, check, HealVerdict, Rejoin, HEAL_FAIL_BUDGET};
use chronicle_bot::session::phases::Phase;
use chronicle_bot::session::restart::{carry_forward, RestartBudget, RESTART_WINDOW};
use chronicle_bot::session::stabilization::GateVerdict;
use chronicle_bot::session::{ConsentScope, ParticipantState, Session};
use chronicle_bot::time::{span_secs, Timestamp};

fn at(secs: i64) -> Timestamp {
    Timestamp { secs, nanos: 0 }
}

#[test]
fn phase_labels_are_distinct() {
    let labels = [
        Phase::AwaitingStabilization { entered_at: at(0) }.label(),
        Phase::Recording { gate_opened_at: at(0) }.label(),
        Phase::Finalizing.label(),
        Phase::Restarting.label(),
        Phase::Cancelled.label(),
    ];
    let unique: std::collections::HashSet<_> = labels.iter().collect();
    assert_eq!(unique.len(), labels.len());
}

#[test]
fn is_stoppable_only_for_pre_terminal() {
    assert!(Phase::AwaitingStabilization { entered_at: at(0) }.is_stoppable());
    assert!(Phase::Recording { gate_opened_at: at(0) }.is_stoppable());
    assert!(!Phase::Finalizing.is_stoppable());
    assert!(!Phase::Cancelled.is_stoppable());
    assert!(!Phase::Restarting.is_stoppable());
}

#[test]
fn terminal_phases_carry_no_time() {
    assert!(Phase::Finalizing.is_terminal());
    assert!(!Phase::Recording { gate_opened_at: at(0) }.is_terminal());
    assert!(Phase::Recording { gate_opened_at: at(0) }.is_recording());
    assert!(!Phase::AwaitingStabilization { entered_at: at(0) }.is_recording());
    assert_eq!(Phase::Cancelled.time_in_phase(), 0);
    let p = Phase::Recording { gate_opened_at: at(100) };
    assert_eq!(p.time_in_phase_at(at(103)), 3_000_000_000);
    assert_eq!(p.time_in_phase_at(at(99)), -1_000_000_000);
    assert!(p.time_in_phase() > 1_600_000_000_000_000_000);
}

#[test]
fn restart_budget_allows_one_per_hour() {
    let mut budget = RestartBudget::new();
    assert!(budget.try_consume(1));
    assert!(!budget.try_consume(1));
    assert!(budget.try_consume(2));
}

#[test]
fn restart_budget_renews_after_the_window() {
    assert_eq!(RESTART_WINDOW, span_secs(3600));
    let mut budget = RestartBudget::new();
    assert!(budget.try_consume_at(1, 10));
    assert!(!budget.try_consume_at(1, 10 + RESTART_WINDOW - 1));
    assert!(budget.try_consume_at(2, 11));
    assert!(budget.try_consume_at(1, 10 + RESTART_WINDOW));
    assert!(!budget.try_consume_at(1, 11 + RESTART_WINDOW));
    assert!(budget.clock() < span_secs(3600));
}

#[test]
fn carry_forward_clones_records_verbatim() {
    let mut s = Session::new(1, 2, 3, 1, 1, true);
    s.add_participant(1, "alice".to_string(), false);
    s.add_participant(2, "bob".to_string(), false);
    s.record_consent(1, ConsentScope::Full);
    let carried = carry_forward(&s.participants);
    assert_eq!(carried.len(), 2);
    assert_eq!(carried[&1].state, ParticipantState::Accepted);
    assert_eq!(carried[&2].state, ParticipantState::Pending);
    assert_eq!(carried[&2].display_name, "bob");
}

#[test]
fn restart_yields_fresh_session_id() {
    let mut original = Session::new(1, 2, 3, 1, 1, true);
    original.add_participant(1, "alice".to_string(), false);
    original.record_consent(1, ConsentScope::Full);
    let carried = carry_forward(&original.participants);
    let next = Session::new_carry_forward(1, 2, 3, 1, 1, true, carried);
    assert_ne!(original.id, next.id, "restart must mint a new session_id");
    assert_eq!(next.participants[&1].state, ParticipantState::Accepted);
}

#[test]
fn three_failed_rejoins_in_a_row_exhaust_the_budget() {
    assert_eq!(HEAL_FAIL_BUDGET, 3);
    let mut failures: u32 = 0;
    assert_eq!(check(GateVerdict::Healthy, &mut failures), Some(HealVerdict::Healthy));
    assert_eq!(check(GateVerdict::Unhealthy, &mut failures), None);
    let bad = Rejoin::Joined { after: GateVerdict::Unhealthy };
    let good = Rejoin::Joined { after: GateVerdict::Healthy };
    assert_eq!(after_rejoin(Rejoin::Failed, &mut failures), HealVerdict::Healed);
    assert_eq!(after_rejoin(bad, &mut failures), HealVerdict::Healed);
    assert_eq!(after_rejoin(good, &mut failures), HealVerdict::Healed);
    assert_eq!(failures, 0);
    assert_eq!(after_rejoin(bad, &mut failures), HealVerdict::Healed);
    assert_eq!(after_rejoin(Rejoin::Failed, &mut failures), HealVerdict::Healed);
    assert_eq!(after_rejoin(bad, &mut failures), HealVerdict::BudgetExhausted);
    assert_eq!(failures, 3);
    assert_eq!(check(GateVerdict::Healthy, &mut failures), Some(HealVerdict::Healthy));
    assert_eq!(failures, 0);
}

#[test]
fn successors_keep_answers_under_a_given_identity() {
    let mut failed = Session::new(1, 2, 3, 1, 1, true);
    failed.add_participant(1, "alice".to_string(), false);
    failed.add_participant(2, "bob".to_string(), true);
    failed.record_consent(1, ConsentScope::Full);
    let at = Timestamp { secs: 1_700_000_000, nanos: 5 };
    let carried = carry_forward(&failed.participants);
    let next = Session::carry_forward_as("x".to_string(), at, 1, 2, 3, 1, 4, false, carried);
    assert_eq!(next.id, "x");
    assert_eq!(next.started_at, at);
    assert_eq!(next.phase, Phase::AwaitingStabilization { entered_at: at });
    assert_eq!(next.min_participants, 4);
    assert!(!next.require_all);
    assert_eq!(next.participants[&1].scope, Some(ConsentScope::Full));
    assert_eq!(next.participants[&2].scope, Some(ConsentScope::Decline));
    assert!(next.participants[&2].mid_session_join);
}
