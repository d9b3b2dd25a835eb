use chronicle_bot::api_client::{
    auth_header, check_status, chunk_headers, find_participant, is_blocked, toggle_license_flag,
    ApiError, Endpoint, LicensePatch, ParticipantRow, SendOutcome, SessionPatch, UploadAction,
    UploadRetry,
};
use chronicle_bot::time::Timestamp;
use chronicle_bot::voice::buffer::ChunkUpload;

#[test]
fn upload_chunk_carries_capture_started_at_header() {
    let upload = ChunkUpload {
        session: 1,
        pseudo_id: "pseudo-1".to_string(),
        client_chunk_id: "client-chunk-id-xyz".to_string(),
        capture_started_at: Timestamp { secs: 1_700_000_000, nanos: 0 },
        duration_ms: 42,
    };
    let headers = chunk_headers(&upload);
    let value = |name: &str| {
        headers
            .iter()
            .find(|h| h.name == name)
            .map(|h| h.value.as_str())
    };
    assert_eq!(value("x-capture-started-at"), Some("2023-11-14T22:13:20+00:00"));
    assert_eq!(value("x-duration-ms"), Some("42"));
    assert_eq!(value("x-client-chunk-id"), Some("client-chunk-id-xyz"));
    assert_eq!(value("content-type"), Some("application/octet-stream"));
}

#[test]
fn fractions_of_a_second_stay_in_the_header() {
    let upload = ChunkUpload {
        session: 1,
        pseudo_id: "p".to_string(),
        client_chunk_id: "c".to_string(),
        capture_started_at: Timestamp { secs: 1_700_000_000, nanos: 250_000_000 },
        duration_ms: 1,
    };
    assert_eq!(chunk_headers(&upload)[1].value, "2023-11-14T22:13:20.250+00:00");
}

const ID: u128 = 0x0123_4567_89ab_cdef_0123_4567_89ab_cdef;
const TEXT: &str = "01234567-89ab-cdef-0123-456789abcdef";

#[test]
fn endpoints_have_their_addresses() {
    let base = "http://api";
    assert_eq!(Endpoint::Auth.url(base), "http://api/internal/auth");
    assert_eq!(Endpoint::Heartbeat.url(base), "http://api/internal/heartbeat");
    assert_eq!(Endpoint::Sessions.url(base), "http://api/internal/sessions");
    assert_eq!(
        Endpoint::Session { session: ID }.url(base),
        format!("http://api/internal/sessions/{TEXT}")
    );
    assert_eq!(Endpoint::Users.url(base), "http://api/internal/users");
    assert_eq!(
        Endpoint::DisplayNames { pseudo_id: "p".to_string() }.url(base),
        "http://api/internal/users/p/display_names"
    );
    assert_eq!(
        Endpoint::Participants { session: ID }.url(base),
        format!("http://api/internal/sessions/{TEXT}/participants")
    );
    assert_eq!(
        Endpoint::ParticipantsBatch { session: ID }.url(base),
        format!("http://api/internal/sessions/{TEXT}/participants/batch")
    );
    assert_eq!(
        Endpoint::Consent { participant: ID }.url(base),
        format!("http://api/internal/participants/{TEXT}/consent")
    );
    assert_eq!(
        Endpoint::License { participant: ID }.url(base),
        format!("http://api/internal/participants/{TEXT}/license")
    );
    assert_eq!(
        Endpoint::Chunk { session: ID, pseudo_id: "mixed".to_string() }.url(base),
        format!("http://api/internal/sessions/{TEXT}/audio/mixed/chunk")
    );
    assert_eq!(
        Endpoint::Metadata { session: ID }.url(base),
        format!("http://api/internal/sessions/{TEXT}/metadata")
    );
    assert_eq!(auth_header("tok"), "Bearer tok");
}

#[test]
fn only_success_passes() {
    assert!(matches!(check_status(200, "b".to_string()), Ok(b) if b == "b"));
    assert!(check_status(299, String::new()).is_ok());
    assert!(check_status(199, String::new()).is_err());
    match check_status(404, "gone".to_string()) {
        Err(e) => assert_eq!(e.message(), "API returned 404: gone"),
        Ok(_) => panic!("not a success"),
    }
    let e = ApiError::Http { message: "refused".to_string() };
    assert_eq!(e.message(), "HTTP error: refused");
}

#[test]
fn uploads_are_retried_three_times() {
    let mut r = UploadRetry::new();
    assert_eq!(r.on_outcome(SendOutcome::Network), UploadAction::RetryAfter { secs: 1 });
    assert_eq!(
        r.on_outcome(SendOutcome::Status { status: 503 }),
        UploadAction::RetryAfter { secs: 2 }
    );
    assert_eq!(r.on_outcome(SendOutcome::Network), UploadAction::RetryAfter { secs: 4 });
    assert_eq!(r.on_outcome(SendOutcome::Network), UploadAction::Fail);
}

#[test]
fn uploads_log_in_again_once() {
    let mut r = UploadRetry::new();
    assert_eq!(
        r.on_outcome(SendOutcome::Status { status: 401 }),
        UploadAction::Reauthenticate
    );
    assert_eq!(r.on_outcome(SendOutcome::Status { status: 401 }), UploadAction::Fail);
    let mut r = UploadRetry::new();
    assert_eq!(r.on_outcome(SendOutcome::Status { status: 422 }), UploadAction::Fail);
    let mut r = UploadRetry::new();
    assert_eq!(r.on_outcome(SendOutcome::Status { status: 201 }), UploadAction::Done);
}

#[test]
fn patches_set_status_and_end() {
    let now = Timestamp { secs: 5, nanos: 0 };
    let p = SessionPatch::update_session_state("recording");
    assert_eq!(p.status.as_deref(), Some("recording"));
    assert!(p.ended_at.is_none() && p.participant_count.is_none());
    let p = SessionPatch::abandon_session(now);
    assert_eq!(p.status.as_deref(), Some("abandoned"));
    assert_eq!(p.ended_at, Some(now));
    let p = SessionPatch::finalize_session(now, 3);
    assert_eq!(p.status.as_deref(), Some("uploaded"));
    assert_eq!(p.participant_count, Some(3));
}

#[test]
fn participants_are_found_by_pseudonym() {
    let row = |id: u128, p: &str| ParticipantRow {
        id,
        pseudo_id: p.to_string(),
        no_llm_training: false,
        no_public_release: false,
    };
    let rows = vec![row(1, "a"), row(2, "b"), row(3, "b")];
    assert!(matches!(find_participant(&rows, "b"), Ok(1)));
    match find_participant(&rows, "c") {
        Err(e) => assert_eq!(e.message(), "API returned 404: participant not found for user"),
        Ok(_) => panic!("found"),
    }
}

#[test]
fn wiped_users_are_blocked() {
    assert!(is_blocked(Some(Timestamp { secs: 1, nanos: 0 })));
    assert!(!is_blocked(None));
}

#[test]
fn toggles_flip_one_flag() {
    assert_eq!(
        toggle_license_flag("no_llm_training", false, true),
        Some(LicensePatch { no_llm_training: Some(true), no_public_release: None })
    );
    assert_eq!(
        toggle_license_flag("no_public_release", false, true),
        Some(LicensePatch { no_llm_training: None, no_public_release: Some(false) })
    );
    let patch = LicensePatch { no_llm_training: None, no_public_release: Some(false) };
    assert_eq!(patch.apply((true, true)), (true, false));
    let patch = LicensePatch { no_llm_training: Some(true), no_public_release: None };
    assert_eq!(patch.apply((false, true)), (true, true));
    assert_eq!(toggle_license_flag("other", false, true), None);
}

#[test]
fn server_and_network_errors_are_transient() {
    assert!(UploadRetry::is_transient(SendOutcome::Network));
    assert!(UploadRetry::is_transient(SendOutcome::Status { status: 500 }));
    assert!(!UploadRetry::is_transient(SendOutcome::Status { status: 499 }));
    assert!(!UploadRetry::is_transient(SendOutcome::Status { status: 401 }));
}
