use chronicle_bot::session::{
    consent_buttons, ButtonLook, ConsentScope, ParticipantState, Session, CONSENT_TEXT,
};
use chronicle_bot::storage::bundle;
use chronicle_bot::storage::pseudonymize;
use chronicle_bot::time::Timestamp;

fn at(secs: i64) -> Timestamp {
    Timestamp { secs, nanos: 0 }
}

fn session_with_three(min: usize, require_all: bool) -> Session {
    let mut s = Session::new(111, 222, 333, 1, min, require_all);
    s.add_participant(1, "alice".to_string(), false);
    s.add_participant(2, "bob".to_string(), false);
    s.add_participant(3, "carol".to_string(), false);
    s
}

#[test]
fn mod_add_participant_is_idempotent() {
    let mut s = session_with_three(2, true);
    let before = s.participants.len();
    s.add_participant(1, "renamed".to_string(), false);
    assert_eq!(s.participants.len(), before);
    assert_eq!(s.participants[&1].display_name, "alice");
}

#[test]
fn record_consent_moves_participant_state_forward() {
    let mut s = session_with_three(2, true);
    s.record_consent(1, ConsentScope::Full);
    assert_eq!(s.participants[&1].state, ParticipantState::Accepted);
    s.record_consent(2, ConsentScope::Decline);
    assert_eq!(s.participants[&2].state, ParticipantState::Declined);
}

#[test]
fn mod_quorum_passes_when_min_accepts_and_no_decline() {
    let mut s = session_with_three(2, true);
    s.record_consent(1, ConsentScope::Full);
    s.record_consent(2, ConsentScope::Full);
    s.record_consent(3, ConsentScope::Full);
    assert!(s.evaluate_quorum());
}

#[test]
fn mod_quorum_fails_when_require_all_and_someone_declines() {
    let mut s = session_with_three(2, true);
    s.record_consent(1, ConsentScope::Full);
    s.record_consent(2, ConsentScope::Full);
    s.record_consent(3, ConsentScope::Decline);
    assert!(!s.evaluate_quorum());
}

#[test]
fn carry_forward_promotes_pending_to_decline() {
    let mut s = session_with_three(2, true);
    s.record_consent(1, ConsentScope::Full);
    s.record_consent(2, ConsentScope::Decline);
    let carried = chronicle_bot::session::restart::carry_forward(&s.participants);
    let s2 = Session::new_carry_forward(111, 222, 333, 1, 2, true, carried);
    assert_eq!(s2.participants[&1].state, ParticipantState::Accepted);
    assert_eq!(s2.participants[&2].state, ParticipantState::Declined);
    assert_eq!(s2.participants[&3].state, ParticipantState::Declined);
}

#[test]
fn mod_meta_json_round_trips_to_valid_json() {
    let s = session_with_three(2, true);
    let meta = s.meta();
    assert_eq!(meta.session_id, s.id);
    assert_eq!(meta.participant_count, 3);
}

#[test]
fn consent_json_encodes_pseudonymous_participants() {
    let mut s = session_with_three(2, true);
    s.record_consent(1, ConsentScope::Full);
    s.record_consent(2, ConsentScope::Decline);
    let record = s.consent_record();
    assert_eq!(record.license, "CC BY-SA 4.0");
    assert_eq!(record.participants.len(), 3);
    for (k, _) in record.participants.iter() {
        assert_eq!(k.len(), 16);
    }
}

#[test]
fn sessions_get_fresh_ids_and_the_time_of_day() {
    let a = session_with_three(1, true);
    let b = session_with_three(1, true);
    assert_ne!(a.id, b.id);
    assert_eq!(a.id.len(), 36);
    assert!(a.started_at.secs > 1_700_000_000);
    assert!(a.ended_at.is_none());
}

#[test]
fn meta_tells_duration_counts_and_tracks() {
    let mut s = session_with_three(1, false);
    s.started_at = at(1_700_000_000);
    s.ended_at = Some(Timestamp { secs: 1_700_000_090, nanos: 250_999_999 });
    s.record_consent_at(1, ConsentScope::Full, at(1_700_000_010));
    s.record_consent_at(2, ConsentScope::Decline, at(1_700_000_011));
    let meta = s.meta();
    assert_eq!(meta.duration_ms, 90_250);
    assert_eq!(meta.consented_audio_count, 1);
    assert_eq!(meta.audio_format.sample_rate, 48000);
    assert_eq!(meta.audio_format.bit_depth, 16);
    assert_eq!(meta.audio_format.channels, 2);
    assert_eq!(meta.audio_format.codec, "pcm_s16le");
    assert_eq!(meta.audio_format.container, "raw");
    let alice = meta
        .participants
        .iter()
        .find(|p| p.pseudo_id == pseudonymize(1))
        .unwrap();
    assert_eq!(alice.track_file.as_deref(), Some("audio/6b86b273ff34fce1/"));
    assert_eq!(alice.consent_scope, Some(bundle::ConsentScope::Full));
    let bob = meta
        .participants
        .iter()
        .find(|p| p.pseudo_id == pseudonymize(2))
        .unwrap();
    assert!(bob.track_file.is_none());
    assert_eq!(bob.consent_scope, Some(bundle::ConsentScope::Decline));
}

#[test]
fn consent_record_tells_each_choice() {
    let mut s = session_with_three(1, false);
    s.record_consent_at(1, ConsentScope::Full, at(1_700_000_000));
    s.add_participant(9, "late".to_string(), true);
    let record = s.consent_record();
    assert_eq!(record.consent_version, "1.0");
    let find = |id: u64| {
        let key = pseudonymize(id);
        &record.participants.iter().find(|(k, _)| *k == key).unwrap().1
    };
    let alice = find(1);
    assert_eq!(alice.consented_at.as_deref(), Some("2023-11-14T22:13:20+00:00"));
    assert!(alice.audio_release);
    assert!(!alice.mid_session_join);
    let late = find(9);
    assert!(late.consented_at.is_none());
    assert!(late.scope.is_none());
    assert!(!late.audio_release);
    assert!(late.mid_session_join);
}

#[test]
fn consent_embed_shows_only_filled_columns() {
    let mut s = Session::new(1, 2, 3, 1, 1, true);
    s.add_participant(1, "alice".to_string(), false);
    let e = s.consent_embed();
    assert_eq!(e.title, "Session Recording \u{2014} Open Dataset");
    assert_eq!(e.description, CONSENT_TEXT);
    assert_eq!(e.color, 0x5A5A5A);
    assert_eq!(e.fields.len(), 1);
    assert_eq!(e.fields[0].name, "Waiting for");
    assert_eq!(e.fields[0].value, "alice");
    assert!(e.fields[0].inline);

    s.add_participant(2, "bob".to_string(), false);
    s.record_consent(1, ConsentScope::Full);
    s.record_consent(2, ConsentScope::Decline);
    let e = s.consent_embed();
    assert_eq!(e.fields.len(), 2);
    assert_eq!(e.fields[0].name, "Accepted");
    assert_eq!(e.fields[1].name, "Declined");
    assert_eq!(e.fields[1].value, "bob");

    s.add_participant(3, "carol".to_string(), false);
    s.add_participant(4, "dave".to_string(), false);
    let e = s.consent_embed();
    assert_eq!(e.fields.len(), 3);
    let waiting = &e.fields[0].value;
    assert!(waiting == "carol\ndave" || waiting == "dave\ncarol");
}

#[test]
fn consent_buttons_are_accept_and_decline() {
    let row = consent_buttons();
    assert_eq!(row.len(), 2);
    assert_eq!(row[0].custom_id, "consent_accept");
    assert_eq!(row[0].label, "Accept");
    assert_eq!(row[0].look, ButtonLook::Success);
    assert_eq!(row[1].custom_id, "consent_decline");
    assert_eq!(row[1].label, "Decline");
    assert_eq!(row[1].look, ButtonLook::Danger);
}

#[test]
fn scope_words_are_those_of_the_data_api() {
    assert_eq!(ConsentScope::Full.label(), "full");
    assert_eq!(ConsentScope::Decline.label(), "decline");
}

#[test]
fn rows_are_noted_for_known_users_only() {
    let mut s = session_with_three(1, true);
    s.set_participant_uuid(1, 77);
    s.set_participant_uuid(99, 78);
    assert_eq!(s.participant_uuid(1), Some(77));
    assert_eq!(s.participant_uuid(2), None);
    assert_eq!(s.participant_uuid(99), None);
    assert_eq!(s.participants.len(), 3);
}
