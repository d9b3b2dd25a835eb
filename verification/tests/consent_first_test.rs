use chronicle_bot::consent_first::{
    consent_buttons, ConsentScope, Phase, Session, SessionManager, CONSENT_TEXT,
};
use chronicle_bot::time::Timestamp;

fn session_with_three_participants(min: usize, require_all: bool) -> Session {
    let mut s = Session::new(111, 222, 333, 1, min, require_all);
    s.add_participant(1, "alice".to_string(), false);
    s.add_participant(2, "bob".to_string(), false);
    s.add_participant(3, "carol".to_string(), false);
    s
}

#[test]
fn phase_is_stoppable_for_non_terminal_states() {
    let s = session_with_three_participants(2, true);
    assert!(s.phase.is_stoppable());
}

#[test]
fn phase_is_terminal_for_finalized_states() {
    assert!(Phase::Finalizing.is_terminal());
    assert!(Phase::Cancelled.is_terminal());
    assert!(Phase::Complete.is_terminal());
}

#[test]
fn phase_awaiting_consent_is_not_terminal() {
    let s = session_with_three_participants(2, true);
    assert!(!s.phase.is_terminal());
}

#[test]
fn phase_is_not_stoppable_for_terminal_states() {
    assert!(!Phase::Finalizing.is_stoppable());
    assert!(!Phase::Cancelled.is_stoppable());
    assert!(!Phase::Complete.is_stoppable());
}

#[test]
fn session_add_participant_is_idempotent() {
    let mut s = session_with_three_participants(2, true);
    let before = s.participants.len();
    s.add_participant(1, "alice renamed".to_string(), false);
    assert_eq!(s.participants.len(), before);
    assert_eq!(s.participants[&1].display_name, "alice");
}

#[test]
fn add_participant_defaults_uuid_to_none() {
    let s = session_with_three_participants(2, true);
    assert_eq!(s.participants[&1].participant_uuid, None);
}

#[test]
fn set_participant_uuid_stores_value() {
    let mut s = session_with_three_participants(2, true);
    let pid = uuid::Uuid::new_v4().as_u128();
    s.set_participant_uuid(1, pid);
    assert_eq!(s.participant_uuid(1), Some(pid));
}

#[test]
fn set_participant_uuid_ignores_unknown_user() {
    let mut s = session_with_three_participants(2, true);
    s.set_participant_uuid(999, uuid::Uuid::new_v4().as_u128());
    assert_eq!(s.participants.len(), 3);
    assert_eq!(s.participant_uuid(999), None);
}

#[test]
fn participant_uuid_returns_none_for_unknown() {
    let s = session_with_three_participants(2, true);
    assert_eq!(s.participant_uuid(42), None);
}

#[test]
fn license_flags_default_to_false_false() {
    let s = session_with_three_participants(2, true);
    assert_eq!(s.license_flags(1), (false, false));
}

#[test]
fn set_license_flags_round_trips() {
    let mut s = session_with_three_participants(2, true);
    s.set_license_flags(1, true, false);
    assert_eq!(s.license_flags(1), (true, false));
    s.set_license_flags(1, true, true);
    assert_eq!(s.license_flags(1), (true, true));
    s.set_license_flags(1, false, true);
    assert_eq!(s.license_flags(1), (false, true));
}

#[test]
fn set_license_flags_ignores_unknown_user() {
    let mut s = session_with_three_participants(2, true);
    s.set_license_flags(999, true, true);
    assert_eq!(s.participants.len(), 3);
    assert_eq!(s.license_flags(999), (false, false));
}

#[test]
fn set_participant_uuid_survives_record_consent() {
    let mut s = session_with_three_participants(2, true);
    let pid = uuid::Uuid::new_v4().as_u128();
    s.set_participant_uuid(1, pid);
    s.record_consent(1, ConsentScope::Full);
    let p = &s.participants[&1];
    assert_eq!(p.participant_uuid, Some(pid));
    assert_eq!(p.scope, Some(ConsentScope::Full));
}

#[test]
fn record_consent_sets_scope_and_timestamp() {
    let mut s = session_with_three_participants(2, true);
    s.record_consent(1, ConsentScope::Full);
    let p = &s.participants[&1];
    assert_eq!(p.scope, Some(ConsentScope::Full));
    assert!(p.consented_at.is_some());
}

#[test]
fn record_consent_ignores_unknown_user() {
    let mut s = session_with_three_participants(2, true);
    s.record_consent(999, ConsentScope::Full);
    assert_eq!(s.participants.len(), 3);
}

#[test]
fn all_responded_false_when_some_pending() {
    let mut s = session_with_three_participants(2, true);
    s.record_consent(1, ConsentScope::Full);
    assert!(!s.all_responded());
}

#[test]
fn all_responded_true_when_every_participant_replied() {
    let mut s = session_with_three_participants(2, true);
    s.record_consent(1, ConsentScope::Full);
    s.record_consent(2, ConsentScope::Full);
    s.record_consent(3, ConsentScope::Decline);
    assert!(s.all_responded());
}

#[test]
fn has_decline_flags_any_decliner() {
    let mut s = session_with_three_participants(2, true);
    assert!(!s.has_decline());
    s.record_consent(1, ConsentScope::Full);
    assert!(!s.has_decline());
    s.record_consent(2, ConsentScope::Decline);
    assert!(s.has_decline());
}

#[test]
fn consented_user_ids_lists_only_full_scope() {
    let mut s = session_with_three_participants(2, true);
    s.record_consent(1, ConsentScope::Full);
    s.record_consent(2, ConsentScope::Decline);
    s.record_consent(3, ConsentScope::Full);
    let ids = s.consented_user_ids();
    assert_eq!(ids.len(), 2);
    assert!(ids.contains(&1));
    assert!(ids.contains(&3));
}

#[test]
fn session_quorum_passes_when_min_accepts_and_no_decline() {
    let mut s = session_with_three_participants(2, true);
    s.record_consent(1, ConsentScope::Full);
    s.record_consent(2, ConsentScope::Full);
    s.record_consent(3, ConsentScope::Full);
    assert!(s.evaluate_quorum());
}

#[test]
fn session_quorum_fails_when_require_all_and_someone_declines() {
    let mut s = session_with_three_participants(2, true);
    s.record_consent(1, ConsentScope::Full);
    s.record_consent(2, ConsentScope::Full);
    s.record_consent(3, ConsentScope::Decline);
    assert!(!s.evaluate_quorum());
}

#[test]
fn quorum_passes_when_not_require_all_and_min_met() {
    let mut s = session_with_three_participants(2, false);
    s.record_consent(1, ConsentScope::Full);
    s.record_consent(2, ConsentScope::Full);
    s.record_consent(3, ConsentScope::Decline);
    assert!(s.evaluate_quorum());
}

#[test]
fn quorum_fails_when_below_min_even_without_declines() {
    let mut s = session_with_three_participants(3, false);
    s.record_consent(1, ConsentScope::Full);
    s.record_consent(2, ConsentScope::Full);
    assert!(!s.evaluate_quorum());
}

#[test]
fn session_meta_json_round_trips_to_valid_json() {
    let s = session_with_three_participants(2, true);
    let meta = s.meta();
    assert_eq!(meta.session_id, s.id);
    assert_eq!(meta.participant_count, 3);
    assert_eq!(meta.audio_format.sample_rate, 48000);
    assert_eq!(meta.audio_format.bit_depth, 16);
}

#[test]
fn consent_json_includes_every_participant_keyed_by_pseudo() {
    let mut s = session_with_three_participants(2, true);
    s.record_consent(1, ConsentScope::Full);
    s.record_consent(2, ConsentScope::Decline);
    let record = s.consent_record();
    assert_eq!(record.license, "CC BY-SA 4.0");
    assert_eq!(record.participants.len(), 3);
    for (k, _) in record.participants.iter() {
        assert_eq!(k.len(), 16);
        assert!(k.chars().all(|c| c.is_ascii_hexdigit()));
    }
}

#[test]
fn meta_json_audio_count_reflects_full_consent_only() {
    let mut s = session_with_three_participants(2, true);
    s.record_consent(1, ConsentScope::Full);
    s.record_consent(2, ConsentScope::Full);
    s.record_consent(3, ConsentScope::Decline);
    let meta = s.meta();
    assert_eq!(meta.consented_audio_count, 2);
    assert_eq!(meta.participant_count, 3);
}

fn try_insert_or_panic(mgr: &mut SessionManager, s: Session) {
    if mgr.try_insert(s).is_err() {
        panic!("try_insert failed unexpectedly");
    }
}

#[test]
fn session_manager_try_insert_ok_when_empty() {
    let mut mgr = SessionManager::new();
    try_insert_or_panic(&mut mgr, session_with_three_participants(2, true));
    assert!(mgr.has_active(111));
}

#[test]
fn session_manager_try_insert_rejects_duplicate_guild() {
    let mut mgr = SessionManager::new();
    try_insert_or_panic(&mut mgr, session_with_three_participants(2, true));
    let second = session_with_three_participants(2, true);
    let second_id = second.id.clone();
    match mgr.try_insert(second) {
        Err(rejected) => assert_eq!(rejected.id, second_id),
        Ok(()) => panic!("expected try_insert to reject duplicate guild"),
    }
}

#[test]
fn session_manager_try_insert_ok_after_remove() {
    let mut mgr = SessionManager::new();
    try_insert_or_panic(&mut mgr, session_with_three_participants(2, true));
    mgr.remove(111);
    assert!(!mgr.has_active(111));
    try_insert_or_panic(&mut mgr, session_with_three_participants(2, true));
}

#[test]
fn session_manager_has_active_false_for_empty() {
    let mgr = SessionManager::new();
    assert!(!mgr.has_active(111));
}

#[test]
fn manager_accepts_a_new_session_once_the_old_one_winds_up() {
    let mut mgr = SessionManager::new();
    try_insert_or_panic(&mut mgr, session_with_three_participants(2, true));
    let now = Timestamp { secs: 1_700_000_000, nanos: 0 };
    mgr.get_mut(111).unwrap().finalize(now);
    assert!(!mgr.has_active(111));
    assert!(matches!(mgr.get(111).unwrap().phase, Phase::Finalizing));
    try_insert_or_panic(&mut mgr, session_with_three_participants(2, true));
    assert!(mgr.get_mut(999).is_none());
    assert!(mgr.get(999).is_none());
}

#[test]
fn startup_records_those_who_accepted() {
    let mut s = session_with_three_participants(2, false);
    s.record_consent(1, ConsentScope::Full);
    s.record_consent(2, ConsentScope::Decline);
    s.record_consent(3, ConsentScope::Full);
    assert!(!s.has_ssrc());
    assert!(s.begin_startup().is_some());
    match &s.phase {
        Phase::StartingRecording(p) => {
            assert_eq!(p.consented_users.len(), 2);
            assert!(p.consented_users.contains(&1));
            assert!(p.consented_users.contains(&3));
            assert!(p.ssrc_map.is_empty());
        }
        _ => panic!("not starting"),
    }
    s.confirm_recording();
    assert!(matches!(s.phase, Phase::Recording(_)));
    s.confirm_recording();
    assert!(matches!(s.phase, Phase::Recording(_)));
    if let Phase::Recording(p) = &mut s.phase {
        p.ssrc_map.insert(5000, 1);
    }
    assert!(s.has_ssrc());
    assert!(s.reattach_audio());
    assert!(!s.has_ssrc());
    assert!(s.finalize(Timestamp { secs: 1_700_000_000, nanos: 0 }));
    assert!(!s.reattach_audio());
    s.complete();
    assert!(matches!(s.phase, Phase::Complete));
}

#[test]
fn startup_needs_a_uuid() {
    let mut s = session_with_three_participants(2, false);
    s.id = "not-a-uuid".to_string();
    assert!(s.begin_startup().is_none());
    assert!(matches!(s.phase, Phase::AwaitingConsent));
}

#[test]
fn cancelled_startup_ends_the_session() {
    let mut s = session_with_three_participants(2, false);
    s.begin_startup();
    let now = Timestamp { secs: 1_700_000_000, nanos: 0 };
    assert!(s.cancel_startup(now));
    assert!(matches!(s.phase, Phase::Cancelled));
    assert_eq!(s.ended_at, Some(now));
    s.confirm_recording();
    assert!(matches!(s.phase, Phase::Cancelled));
    assert!(!s.cancel_startup(now));
}

#[test]
fn background_tasks_are_given_up_together() {
    let mut s = session_with_three_participants(2, false);
    s.license_cleanup_tasks = vec![4, 5];
    s.auto_stop_task = Some(9);
    assert_eq!(s.abort_all_background_tasks(), vec![4, 5, 9]);
    assert_eq!(s.abort_all_background_tasks(), Vec::<u64>::new());
    s.auto_stop_task = Some(3);
    assert_eq!(s.abort_auto_stop(), Some(3));
    assert_eq!(s.abort_auto_stop(), None);
    assert!(!s.has_audio());
    assert!(!s.is_stable());
}

#[test]
fn consent_first_prompt_has_its_own_text() {
    let s = session_with_three_participants(2, false);
    let e = s.consent_embed();
    assert_eq!(e.description, CONSENT_TEXT);
    assert!(CONSENT_TEXT.contains("You can decline without leaving the voice channel."));
    assert_eq!(e.fields.len(), 1);
    assert_eq!(consent_buttons().len(), 2);
}
