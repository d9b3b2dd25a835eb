use chronicle_bot::config::Config;
use chronicle_bot::harness;
use chronicle_bot::harness::HealthAnswer;
use chronicle_bot::session::actor::{LicenseField, SessionCmd, SessionError, SessionSnapshot};
use chronicle_bot::session::ConsentScope;
use chronicle_bot::time::span_secs;
use chronicle_bot::version::{build_version, git_version, GitAnswers};

#[test]
fn health_endpoint_reports_state() {
    assert_eq!(
        harness::health(false, true),
        HealthAnswer { ready: false, harness_enabled: true }
    );
}

#[test]
fn enrol_404s_when_no_session() {
    match harness::enrol(false, 100, "alice".to_string(), false) {
        Err(e) => {
            assert_eq!(e.status, 404);
            assert_eq!(e.error, "no active session in guild");
        }
        Ok(_) => panic!("no session"),
    }
    assert!(matches!(
        harness::enrol(true, 100, "alice".to_string(), true),
        Ok(SessionCmd::Enrol { user_id: 100, is_bot: true, .. })
    ));
}

#[test]
fn consent_404s_when_no_session() {
    assert!(matches!(harness::consent(false, 100, "full"), Err(e) if e.status == 404));
    assert!(matches!(
        harness::consent(true, 100, "decline"),
        Ok(SessionCmd::RecordConsent { user: 100, scope: ConsentScope::Decline })
    ));
}

#[test]
fn license_404s_when_no_session() {
    assert!(matches!(
        harness::license(false, 100, "no_llm_training", true),
        Err(e) if e.status == 404
    ));
    assert!(matches!(
        harness::license(true, 100, "no_public_release", true),
        Ok(SessionCmd::SetLicense { user: 100, field: LicenseField::NoPublicRelease, value: true })
    ));
}

#[test]
fn consent_rejects_invalid_scope() {
    match harness::consent(false, 100, "not-a-scope") {
        Err(e) => {
            assert_eq!(e.status, 400);
            assert_eq!(e.error, "scope must be full or decline");
        }
        Ok(_) => panic!("not a scope"),
    }
}

#[test]
fn license_rejects_unknown_field() {
    match harness::license(true, 100, "not-a-field", true) {
        Err(e) => {
            assert_eq!(e.status, 400);
            assert_eq!(e.error, "unknown license field");
        }
        Ok(_) => panic!("not a field"),
    }
}

#[test]
fn record_waits_for_the_bot() {
    match harness::record(None, 1, 2, 1, true) {
        Err(e) => assert_eq!((e.status, e.error.as_str()), (503, "bot not ready")),
        Ok(_) => panic!("not ready"),
    }
    match harness::record(Some(42), 1, 2, 1, true) {
        Ok(s) => {
            assert_eq!(s.initiator_id, 42);
            assert_eq!(s.text_channel_id, 2);
            assert!(s.participants.is_empty());
        }
        Err(_) => panic!("ready"),
    }
    let e = harness::already_active();
    assert_eq!((e.status, e.error.as_str()), (409, "session already active"));
}

#[test]
fn stop_waits_for_the_end() {
    assert!(matches!(harness::stop(true), Ok(SessionCmd::AutoStop)));
    assert!(matches!(harness::stop(false), Err(e) if e.status == 404));
    assert!(harness::still_stopping(0, true));
    assert!(!harness::still_stopping(0, false));
    assert!(!harness::still_stopping(span_secs(60), true));
}

#[test]
fn status_shows_the_session() {
    let a = harness::status(None);
    assert!(!a.recording && !a.stable && a.session_id.is_none() && a.phase.is_none());
    let s = SessionSnapshot {
        session_id: "s".to_string(),
        guild_id: 1,
        recording: true,
        stable: true,
        phase_label: "recording",
        participant_count: 2,
    };
    let a = harness::status(Some(&s));
    assert!(a.recording && a.stable);
    assert_eq!(a.session_id.as_deref(), Some("s"));
    assert_eq!(a.phase.as_deref(), Some("recording"));
}

#[test]
fn command_errors_become_answers() {
    let r: Result<u8, _> = harness::command_answer(Ok(Ok(3)));
    assert!(matches!(r, Ok(3)));
    let r: Result<u8, _> = harness::command_answer(Ok(Err(SessionError::AlreadyResponded)));
    assert!(matches!(r, Err(e) if e.status == 409 && e.error == "user has already responded"));
    let r: Result<u8, _> = harness::command_answer(Err(SessionError::ActorGone));
    assert!(matches!(r, Err(e) if e.status == 500 && e.error == "session actor is gone"));
}

fn cfg(local_buffer_dir_raw: &str) -> Config {
    Config {
        token: "t".to_string(),
        data_api_url: "u".to_string(),
        data_api_shared_secret: "s".to_string(),
        local_buffer_dir_raw: local_buffer_dir_raw.to_string(),
        local_buffer_max_secs: 7200,
        stabilization_gate_secs: 3,
        min_participants: 1,
        require_all_consent: true,
        harness_enabled: false,
        harness_port: 8010,
        harness_bind: "127.0.0.1".to_string(),
    }
}

#[test]
fn local_buffer_dir_defaults_to_tmpdir() {
    let c = cfg("");
    assert_eq!(c.local_buffer_dir("/tmp"), "/tmp/chronicle-bot");
    assert_eq!(cfg(" \t\n").local_buffer_dir("/var/tmp/"), "/var/tmp/chronicle-bot");
}

#[test]
fn local_buffer_dir_uses_explicit_value() {
    let c = cfg("/var/run/chronicle");
    assert_eq!(c.local_buffer_dir("/tmp"), "/var/run/chronicle");
    assert_eq!(cfg("  /a b \u{3000}").local_buffer_dir("/tmp"), "/a b");
}

#[test]
fn versions_name_tag_or_commit() {
    let mut a = GitAnswers {
        tag: Some("v0.3.0\n".to_string()),
        branch: Some("main\n".to_string()),
        hash: Some("abc1234\n".to_string()),
        dirty: false,
    };
    assert_eq!(git_version(&a), "v0.3.0");
    a.dirty = true;
    assert_eq!(git_version(&a), "v0.3.0-dirty");
    a.tag = None;
    assert_eq!(git_version(&a), "main-abc1234-dirty");
    a.branch = None;
    a.hash = None;
    a.dirty = false;
    assert_eq!(build_version(Some(&a)), "unknown-000000");
    assert_eq!(build_version(None), "unknown");
}
