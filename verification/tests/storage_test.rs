use chronicle_bot::db;
use chronicle_bot::db::{Arg, FinalizedSession, NewParticipant, NewSession, Statement};
use chronicle_bot::storage::s3::{
    content_type, upload_plan, AfterAttempt, SessionFile, SessionUpload,
};
use chronicle_bot::time::Timestamp;

fn f(relative: &str, extension: Option<&str>, is_file: bool) -> SessionFile {
    SessionFile {
        relative: relative.to_string(),
        extension: extension.map(str::to_string),
        is_file,
    }
}

#[test]
fn raw_audio_is_not_uploaded() {
    let files = vec![
        f("meta.json", Some("json"), true),
        f("audio/x/a.pcm", Some("pcm"), true),
        f("audio/x/a.flac", Some("flac"), true),
        f("dir", None, false),
        f("notes.md", Some("md"), true),
        f("LICENSE", None, true),
    ];
    let plan = upload_plan(&files, 123456, "sid");
    let got: Vec<(&str, &str)> = plan.iter().map(|p| (p.key.as_str(), p.content_type)).collect();
    assert_eq!(
        got,
        vec![
            ("sessions/123456/sid/meta.json", "application/json"),
            ("sessions/123456/sid/audio/x/a.flac", "audio/flac"),
            ("sessions/123456/sid/notes.md", "text/markdown"),
            ("sessions/123456/sid/LICENSE", "application/octet-stream"),
        ]
    );
    assert_eq!(plan[1].relative, "audio/x/a.flac");
    assert_eq!(content_type(&f("a.pcm", Some("pcm"), true)), "application/octet-stream");
}

#[test]
fn uploads_are_tried_three_times_each() {
    let mut u = SessionUpload::new(2);
    assert_eq!(u.next(), Some(0));
    assert_eq!(u.on_outcome(false), AfterAttempt::Retry { secs: 1 });
    assert_eq!(u.on_outcome(false), AfterAttempt::Retry { secs: 2 });
    assert_eq!(u.on_outcome(true), AfterAttempt::Next);
    assert_eq!(u.next(), Some(1));
    assert_eq!(u.on_outcome(false), AfterAttempt::Retry { secs: 1 });
    assert_eq!(u.on_outcome(false), AfterAttempt::Retry { secs: 2 });
    assert_eq!(u.on_outcome(false), AfterAttempt::Failed);
    let mut u = SessionUpload::new(1);
    assert_eq!(u.on_outcome(true), AfterAttempt::Next);
    assert_eq!(u.next(), None);
    assert_eq!(u.uploaded, 1);
}

fn shown(s: &Statement) -> Vec<String> {
    s.args
        .iter()
        .map(|a| match a {
            Arg::Id { id } => format!("id {id}"),
            Arg::Big { n } => format!("big {n}"),
            Arg::Small { n } => format!("small {n}"),
            Arg::Flag { on } => format!("flag {on}"),
            Arg::At { time } => format!("at {}", time.secs),
            Arg::Text { text } => format!("text {}", text.as_deref().unwrap_or("-")),
        })
        .collect()
}

#[test]
fn statements_carry_their_arguments() {
    let s = db::create_session(&NewSession {
        id: 1,
        guild_id: -2,
        started_at: Timestamp { secs: 3, nanos: 0 },
        game_system: Some("g".to_string()),
        campaign_name: None,
    });
    assert!(s.sql.starts_with("INSERT INTO sessions ("));
    assert_eq!(shown(&s), vec!["id 1", "big -2", "at 3", "text g", "text -"]);
    let s = db::upsert_user(42);
    assert_eq!(shown(&s), vec!["text 73475cb40a568e8d", "text 73475cb40a568e8d"]);
    assert_eq!(shown(&db::user_id_of(42)), vec!["text 73475cb40a568e8d"]);
    let p = NewParticipant { session_id: 1, discord_user_id: 42, mid_session_join: true };
    assert_eq!(shown(&db::add_participant(&p, 9)), vec!["id 1", "id 9", "flag true"]);
    assert_eq!(shown(&db::previous_scope(1, 9)), vec!["id 1", "id 9"]);
    let (change, note) = db::record_consent(1, 9, &None, "full");
    assert_eq!(shown(&change), vec!["text full", "id 1", "id 9"]);
    assert_eq!(shown(&note), vec!["id 9", "id 1", "text -", "text full"]);
    let (_, note) = db::record_consent(1, 9, &Some("full".to_string()), "decline");
    assert_eq!(shown(&note), vec!["id 9", "id 1", "text full", "text decline"]);
    assert_eq!(
        shown(&db::get_license_flags(1, 42)),
        vec!["id 1", "text 73475cb40a568e8d"]
    );
    assert_eq!(shown(&db::update_session_state(1, "recording")), vec!["text recording", "id 1"]);
    let s = db::finalize_session(&FinalizedSession {
        session_id: 1,
        ended_at: Timestamp { secs: 9, nanos: 0 },
        duration_ms: 5,
        participant_count: 4,
        s3_prefix: Some("k".to_string()),
    });
    assert_eq!(shown(&s), vec!["at 9", "small 4", "text k", "id 1"]);
    assert_eq!(shown(&db::check_blocklist(42)), vec!["text 73475cb40a568e8d"]);
}

#[test]
fn only_known_flags_are_toggled() {
    let s = db::toggle_license_flag(1, 2, "no_llm_training").unwrap();
    assert_eq!(s.sql, db::TOGGLE_LLM);
    assert_eq!(shown(&s), vec!["id 1", "id 2"]);
    let s = db::toggle_license_flag(1, 2, "no_public_release").unwrap();
    assert_eq!(s.sql, db::TOGGLE_PUBLIC);
    assert!(db::toggle_license_flag(1, 2, "status = 'x'").is_none());
    assert!(db::is_opted_out(Some(true)));
    assert!(!db::is_opted_out(Some(false)));
    assert!(!db::is_opted_out(None));
}

#[test]
fn test_upload_session_files() {
    let files = vec![
        f("meta.json", Some("json"), true),
        f("consent.json", Some("json"), true),
        f("audio/abcdef0123456789/chunk_0000.flac", Some("flac"), true),
    ];
    let plan = upload_plan(&files, 123456, "s");
    assert_eq!(plan.len(), 3);
    assert_eq!(plan[0].key, "sessions/123456/s/meta.json");
    assert_eq!(plan[0].content_type, "application/json");
    assert_eq!(plan[2].key, "sessions/123456/s/audio/abcdef0123456789/chunk_0000.flac");
    assert_eq!(plan[2].content_type, "audio/flac");
}

#[test]
fn test_upload_skips_pcm() {
    let files = vec![
        f("meta.json", Some("json"), true),
        f("pcm/chunk_0000.pcm", Some("pcm"), true),
    ];
    let plan = upload_plan(&files, 999, "s");
    assert_eq!(plan.len(), 1);
    assert!(plan.iter().all(|p| !p.key.ends_with(".pcm")));
    assert_eq!(plan[0].key, "sessions/999/s/meta.json");
}
