use chronicle_bot::consent::manager::{
    ConsentManager, ConsentScope, ConsentSession, SessionState,
};

fn make_session(min_participants: usize, require_all: bool) -> ConsentSession {
    ConsentSession::new(
        12345,
        67890,
        11111,
        1,
        "test-session".to_string(),
        min_participants,
        require_all,
    )
}

#[test]
fn test_quorum_all_accept() {
    let mut session = make_session(2, false);
    session.add_participant(100, "Alice".to_string(), false);
    session.add_participant(200, "Bob".to_string(), false);
    session.add_participant(300, "Carol".to_string(), false);

    session.record_consent(100, ConsentScope::Full);
    session.record_consent(200, ConsentScope::Full);
    session.record_consent(300, ConsentScope::Full);

    assert!(session.all_responded());
    assert!(session.evaluate_quorum());
    assert_eq!(session.consented_user_ids().len(), 3);
}

#[test]
fn test_quorum_one_decline_require_all() {
    let mut session = make_session(2, true);
    session.add_participant(100, "Alice".to_string(), false);
    session.add_participant(200, "Bob".to_string(), false);
    session.add_participant(300, "Carol".to_string(), false);

    session.record_consent(100, ConsentScope::Full);
    session.record_consent(200, ConsentScope::Decline);
    session.record_consent(300, ConsentScope::Full);

    assert!(session.all_responded());
    assert!(!session.evaluate_quorum());
}

#[test]
fn test_quorum_min_participants() {
    let mut session = make_session(2, false);
    session.add_participant(100, "Alice".to_string(), false);
    session.add_participant(200, "Bob".to_string(), false);
    session.add_participant(300, "Carol".to_string(), false);
    session.add_participant(400, "Dave".to_string(), false);

    session.record_consent(100, ConsentScope::Full);
    session.record_consent(200, ConsentScope::Full);
    session.record_consent(300, ConsentScope::Decline);
    session.record_consent(400, ConsentScope::DeclineAudio);

    assert!(session.all_responded());
    assert!(session.evaluate_quorum());
    assert_eq!(session.consented_user_ids().len(), 2);
}

#[test]
fn test_mid_session_join() {
    let mut session = make_session(2, false);
    session.add_participant(100, "Alice".to_string(), false);
    session.add_participant(200, "Bob".to_string(), false);

    session.record_consent(100, ConsentScope::Full);
    session.record_consent(200, ConsentScope::Full);

    assert!(session.evaluate_quorum());

    session.add_participant(300, "Carol".to_string(), true);

    assert!(!session.all_responded());
    assert_eq!(session.pending_user_ids().len(), 1);
    assert_eq!(session.pending_user_ids()[0], 300);

    let carol = session.participants.get(&300).unwrap();
    assert!(carol.mid_session_join);
    assert!(carol.scope.is_none());

    session.record_consent(300, ConsentScope::Full);
    assert!(session.all_responded());
    assert_eq!(session.consented_user_ids().len(), 3);
}

#[test]
fn test_consent_scope_tracking() {
    let mut session = make_session(1, false);
    session.add_participant(100, "Alice".to_string(), false);
    session.add_participant(200, "Bob".to_string(), false);
    session.add_participant(300, "Carol".to_string(), false);

    session.record_consent(100, ConsentScope::Full);
    session.record_consent(200, ConsentScope::DeclineAudio);
    session.record_consent(300, ConsentScope::Decline);

    let consented = session.consented_user_ids();
    assert_eq!(consented.len(), 1);
    assert_eq!(consented[0], 100);

    assert!(session.all_responded());
    assert!(session.has_decline());
}

#[test]
fn pending_participants_can_be_removed() {
    let mut session = make_session(1, false);
    session.add_participant(100, "Alice".to_string(), false);
    session.add_participant(200, "Bob".to_string(), false);
    session.record_consent(100, ConsentScope::Full);
    session.remove_pending(100);
    session.remove_pending(200);
    session.remove_pending(300);
    assert!(session.participants.contains_key(&100));
    assert!(!session.participants.contains_key(&200));
    assert_eq!(session.participants.len(), 1);
}

#[test]
fn audio_decline_is_no_decline() {
    let mut session = make_session(1, true);
    session.add_participant(100, "Alice".to_string(), false);
    session.add_participant(200, "Bob".to_string(), false);
    session.record_consent(100, ConsentScope::Full);
    session.record_consent(200, ConsentScope::DeclineAudio);
    assert!(!session.has_decline());
    assert!(session.evaluate_quorum());
}

#[test]
fn manager_holds_one_session_per_guild() {
    let mut m = ConsentManager::new();
    assert!(m.get_session(12345).is_none());
    assert!(!m.has_active_session(12345));
    m.create_session(make_session(2, true));
    assert!(m.has_active_session(12345));
    assert_eq!(m.get_session(12345).unwrap().min_participants, 2);

    m.get_session_mut(12345).unwrap().state = SessionState::Finalizing;
    assert!(m.has_active_session(12345));
    m.get_session_mut(12345).unwrap().state = SessionState::Complete;
    assert!(!m.has_active_session(12345));
    assert!(m.get_session_mut(1).is_none());

    m.create_session(make_session(5, true));
    assert_eq!(m.get_session(12345).unwrap().min_participants, 5);
    let removed = m.remove_session(12345).unwrap();
    assert_eq!(removed.session_id, "test-session");
    assert!(m.remove_session(12345).is_none());
}
