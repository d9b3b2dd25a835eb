use chronicle_bot::session::actor::{
    accepting_humans, finish_license, Actor, ConsentOutcome, Effect, EnrolStep, LicenseField, LicenseToggle,
    LicenseStep, Reply, SessionCmd, SessionError, AUTO_STOP_GRACE,
};
use chronicle_bot::session::capture::ParticipantCmd;
use chronicle_bot::session::phases::Phase;
use chronicle_bot::session::{ConsentScope, Session};
use chronicle_bot::time::{span_secs, Timestamp};
use std::collections::HashSet;

fn now() -> Timestamp {
    Timestamp { secs: 1_700_000_000, nanos: 0 }
}

#[test]
fn session_error_variants_have_distinct_messages() {
    let msgs: Vec<String> = vec![
        SessionError::NotParticipant.message().to_string(),
        SessionError::AlreadyResponded.message().to_string(),
        SessionError::NotInitiator.message().to_string(),
        SessionError::NotStoppable.message().to_string(),
        SessionError::ActorGone.message().to_string(),
    ];
    let unique: std::collections::HashSet<&String> = msgs.iter().collect();
    assert_eq!(unique.len(), msgs.len());
    assert_eq!(msgs[2], "only the initiator can stop the session");
}

fn demo_session() -> Session {
    let mut s = Session::new(1, 2, 3, 1, 1, true);
    s.add_participant(10, "alice".to_string(), false);
    s.add_participant(11, "bob".to_string(), false);
    s
}

#[test]
fn accepting_humans_counts_only_non_declined_channel_humans() {
    let mut s = demo_session();
    s.record_consent(11, ConsentScope::Decline);
    let mut in_channel: HashSet<u64> = HashSet::new();
    in_channel.insert(10);
    in_channel.insert(11);
    in_channel.insert(99);
    let acc = accepting_humans(&in_channel, &s);
    assert!(acc.contains(&10));
    assert!(!acc.contains(&11));
    assert!(acc.contains(&99));
}

#[test]
fn accepting_humans_empty_when_only_declined_present() {
    let mut s = demo_session();
    s.record_consent(10, ConsentScope::Decline);
    s.record_consent(11, ConsentScope::Decline);
    let mut in_channel: HashSet<u64> = HashSet::new();
    in_channel.insert(10);
    in_channel.insert(11);
    assert!(accepting_humans(&in_channel, &s).is_empty());
}

fn attached(session: Session) -> Actor {
    let mut a = Actor::new(session);
    a.attach();
    a
}

fn recording() -> Actor {
    let mut a = attached(demo_session());
    a.session_uuid = Some(7);
    a.mixing = true;
    a.session.phase = Phase::Recording { gate_opened_at: now() };
    a.session.set_participant_uuid(10, 100);
    a
}

#[test]
fn actors_start_with_everyone_who_has_not_declined() {
    let mut s = demo_session();
    s.record_consent(11, ConsentScope::Decline);
    let mut a = Actor::new(s);
    assert_eq!(a.expected_user_ids, HashSet::from([10u64]));
    assert_eq!(a.humans_in_channel, HashSet::from([10u64, 11]));
    assert_eq!(a.attach(), vec![10]);
    assert_eq!(a.tasks, HashSet::from([10u64]));
}

#[test]
fn auto_stop_timer_starts_when_the_channel_empties() {
    assert_eq!(AUTO_STOP_GRACE, span_secs(30));
    let mut a = attached(demo_session());
    assert_eq!(a.apply_voice_state(None, 10, false), vec![]);
    assert_eq!(a.apply_voice_state(Some(5), 11, false), vec![Effect::StartTimer]);
    assert_eq!(a.apply_voice_state(None, 11, false), vec![]);
    assert_eq!(a.apply_voice_state(Some(2), 77, true), vec![]);
    assert_eq!(a.apply_voice_state(Some(2), 77, false), vec![Effect::AbortTimer]);
    assert!(!a.timer_running);
}

#[test]
fn the_last_decline_starts_the_timer() {
    let mut s = demo_session();
    s.require_all = false;
    let mut a = attached(s);
    let (r, e) = a.apply_consent(10, ConsentScope::Decline, now());
    assert!(matches!(r, Ok(ConsentOutcome::Ack { .. })));
    assert_eq!(e, vec![Effect::Tell { user: 10, cmd: ParticipantCmd::DropCache }]);
    let (r, e) = a.apply_consent(11, ConsentScope::Decline, now());
    assert!(matches!(r, Ok(ConsentOutcome::QuorumFailed { .. })));
    assert_eq!(
        e,
        vec![
            Effect::Tell { user: 11, cmd: ParticipantCmd::DropCache },
            Effect::StartTimer,
        ]
    );
    assert!(a.expected_user_ids.is_empty());
}

#[test]
fn choices_before_the_gate_stay_local() {
    let mut a = attached(demo_session());
    let (r, e) = a.apply_consent(10, ConsentScope::Full, now());
    assert!(matches!(r, Ok(ConsentOutcome::Ack { .. })));
    assert!(e.is_empty());
    assert_eq!(a.session.participants[&10].consented_at, Some(now()));
    assert_eq!(
        a.apply_license(10, LicenseField::NoLlmTraining, true),
        LicenseStep::Refused { error: SessionError::NotParticipant }
    );
    match a.apply_enrol(50, "eve".to_string()) {
        EnrolStep::Enrolled { row, effects } => {
            assert_eq!(row, 0);
            assert_eq!(effects, vec![Effect::SpawnTask { user: 50 }]);
        }
        EnrolStep::AddRow { .. } => panic!("no row before the stabilization gate"),
    }
    assert!(a.tasks.contains(&50));
    assert!(a.expected_user_ids.contains(&50));
}

#[test]
fn choices_are_final() {
    let mut a = attached(demo_session());
    a.apply_consent(10, ConsentScope::Full, now());
    let (r, e) = a.apply_consent(10, ConsentScope::Decline, now());
    assert!(matches!(r, Err(SessionError::AlreadyResponded)));
    assert!(e.is_empty());
    assert_eq!(a.session.participants[&10].scope, Some(ConsentScope::Full));
    let (r, _) = a.apply_consent(99, ConsentScope::Full, now());
    assert!(matches!(r, Err(SessionError::NotParticipant)));
}

#[test]
fn late_accept_flushes_and_joins_the_mix() {
    let mut a = recording();
    let (_, e) = a.apply_consent(10, ConsentScope::Full, now());
    assert_eq!(
        e,
        vec![
            Effect::PatchConsent { participant: 100, scope: ConsentScope::Full },
            Effect::Tell { user: 10, cmd: ParticipantCmd::LateAccept },
            Effect::Tell {
                user: 10,
                cmd: ParticipantCmd::GateOpened { accepted: true, session_uuid: 7, mix: true },
            },
            Effect::ClearLicenseFlags { participant: 100 },
        ]
    );
}

#[test]
fn late_decline_drops_the_cache() {
    let mut a = recording();
    let (_, e) = a.apply_consent(11, ConsentScope::Decline, now());
    assert_eq!(
        e,
        vec![
            Effect::PatchConsentOfUser { session: 7, user: 11, scope: ConsentScope::Decline },
            Effect::Tell { user: 11, cmd: ParticipantCmd::LateDecline },
        ]
    );
}

#[test]
fn licenses_change_one_flag_after_the_gate() {
    let a = recording();
    assert_eq!(
        a.apply_license(10, LicenseField::NoPublicRelease, true),
        LicenseStep::Patch {
            participant: 100,
            no_llm_training: None,
            no_public_release: Some(true),
        }
    );
    assert_eq!(
        a.apply_license(10, LicenseField::NoLlmTraining, false),
        LicenseStep::Patch {
            participant: 100,
            no_llm_training: Some(false),
            no_public_release: None,
        }
    );
    assert_eq!(
        a.apply_license(11, LicenseField::NoLlmTraining, false),
        LicenseStep::Refused { error: SessionError::NotParticipant }
    );
    assert_eq!(finish_license(true), Ok(()));
    assert_eq!(finish_license(false), Err(SessionError::NotParticipant));
}

#[test]
fn enrolments_after_the_gate_need_a_row() {
    let mut a = recording();
    match a.apply_enrol(50, "eve".to_string()) {
        EnrolStep::AddRow { session, user, mid_session_join, display_name } => {
            assert_eq!(session, 7);
            assert_eq!(user, 50);
            assert!(mid_session_join);
            assert_eq!(display_name, "eve");
        }
        EnrolStep::Enrolled { .. } => panic!("a row is needed"),
    }
    assert!(!a.tasks.contains(&50));
    let (r, e) = a.finish_enrol(50, None);
    assert_eq!(r, Err(SessionError::NotParticipant));
    assert!(e.is_empty());
    let (r, e) = a.finish_enrol(50, Some(500));
    assert_eq!(r, Ok(500));
    assert_eq!(
        e,
        vec![
            Effect::SpawnTask { user: 50 },
            Effect::Tell {
                user: 50,
                cmd: ParticipantCmd::GateOpened { accepted: false, session_uuid: 7, mix: false },
            },
        ]
    );
    assert_eq!(a.session.participant_uuid(50), Some(500));
}

#[test]
fn enrolling_anew_after_the_gate_keeps_the_answer() {
    let mut a = recording();
    a.apply_consent(10, ConsentScope::Full, now());
    a.apply_consent(11, ConsentScope::Decline, now());
    let (_, e) = a.finish_enrol(10, Some(100));
    assert_eq!(
        e,
        vec![
            Effect::SpawnTask { user: 10 },
            Effect::Tell {
                user: 10,
                cmd: ParticipantCmd::GateOpened { accepted: true, session_uuid: 7, mix: true },
            },
        ]
    );
    let (_, e) = a.finish_enrol(11, Some(110));
    assert_eq!(
        e,
        vec![
            Effect::SpawnTask { user: 11 },
            Effect::Tell { user: 11, cmd: ParticipantCmd::LateDecline },
        ]
    );
}

#[test]
fn license_clicks_flip_what_was_shown() {
    let click = |a: &mut Actor, user, field| {
        match a.handle_cmd(SessionCmd::ToggleLicense { user, field }, now()).reply {
            Reply::Toggle { result } => result,
            _ => panic!("a toggle is answered"),
        }
    };
    let flags = |llm, public, row| {
        Ok(LicenseToggle { no_llm_training: llm, no_public_release: public, row })
    };
    let mut a = recording();
    assert_eq!(click(&mut a, 10, LicenseField::NoLlmTraining), flags(true, false, Some(100)));
    assert_eq!(click(&mut a, 10, LicenseField::NoPublicRelease), flags(true, true, Some(100)));
    assert_eq!(click(&mut a, 10, LicenseField::NoLlmTraining), flags(false, true, Some(100)));
    assert_eq!(click(&mut a, 11, LicenseField::NoLlmTraining), flags(true, false, None));
    assert_eq!(
        click(&mut a, 99, LicenseField::NoLlmTraining),
        Err(SessionError::NotParticipant)
    );
    let mut early = attached(demo_session());
    assert_eq!(
        click(&mut early, 10, LicenseField::NoLlmTraining),
        Err(SessionError::NotParticipant)
    );
}

#[test]
fn only_the_initiator_stops() {
    let mut a = recording();
    let h = a.handle_cmd(SessionCmd::Stop { initiator: 10 }, now());
    assert!(!h.stop);
    assert!(matches!(h.reply, Reply::Stop { result: Err(SessionError::NotInitiator) }));
    let h = a.handle_cmd(SessionCmd::Stop { initiator: 1 }, now());
    assert!(h.stop);
    assert_eq!(h.effects, vec![Effect::Cancel]);
    assert!(a.cancelled);
    a.session.phase = Phase::Finalizing;
    let h = a.handle_cmd(SessionCmd::Stop { initiator: 1 }, now());
    assert!(!h.stop);
    assert!(matches!(h.reply, Reply::Stop { result: Err(SessionError::NotStoppable) }));
    let h = a.handle_cmd(SessionCmd::AutoStop, now());
    assert!(!h.stop);
}

#[test]
fn auto_stop_ends_a_stoppable_session() {
    let mut a = attached(demo_session());
    let h = a.handle_cmd(SessionCmd::AutoStop, now());
    assert!(h.stop);
    assert_eq!(h.effects, vec![Effect::Cancel]);
}

#[test]
fn failed_quorum_cancels_the_session() {
    let mut a = attached(demo_session());
    let h = a.handle_cmd(
        SessionCmd::RecordConsent { user: 10, scope: ConsentScope::Full },
        now(),
    );
    assert!(!h.stop);
    let h = a.handle_cmd(
        SessionCmd::RecordConsent { user: 11, scope: ConsentScope::Decline },
        now(),
    );
    assert!(h.stop);
    assert_eq!(*h.effects.last().unwrap(), Effect::Cancel);
    match h.reply {
        Reply::Consent { result: Ok(ConsentOutcome::QuorumFailed { embed }) } => {
            assert_eq!(embed.fields.len(), 2);
        }
        _ => panic!("quorum was met"),
    }
}

#[test]
fn snapshots_show_the_phase() {
    let mut a = attached(demo_session());
    match a.handle_cmd(SessionCmd::GetSnapshot, now()).reply {
        Reply::Snapshot { snapshot } => {
            assert_eq!(snapshot.session_id, a.session.id);
            assert_eq!(snapshot.guild_id, 1);
            assert!(!snapshot.recording && !snapshot.stable);
            assert_eq!(snapshot.phase_label, "awaiting_stabilization");
            assert_eq!(snapshot.participant_count, 2);
        }
        _ => panic!("no snapshot"),
    }
    let mut a = recording();
    match a.handle_cmd(SessionCmd::GetSnapshot, now()).reply {
        Reply::Snapshot { snapshot } => assert!(snapshot.recording && snapshot.stable),
        _ => panic!("no snapshot"),
    }
}

#[test]
fn the_prompt_is_remembered() {
    let mut a = attached(demo_session());
    let h = a.handle_cmd(SessionCmd::SetConsentMessage { channel_id: 3, message_id: 4 }, now());
    assert!(!h.stop && h.effects.is_empty());
    assert_eq!(a.session.consent_message, Some((3, 4)));
}
