use chronicle_bot::session::actor::{Actor, Effect};
use chronicle_bot::session::capture::ParticipantCmd;
use chronicle_bot::session::drive::{
    announcement_sound, wait_for_gate, GateResult, RecordEvent, RecordStep, SessionRegistry,
    WaitEvent,
};
use chronicle_bot::session::gate::{
    blocklist_filter, s3_prefix, to_signed64, BlocklistReply, GateFailure, GateOpening,
    GateRequest, GateStage,
};
use chronicle_bot::session::heal::HealVerdict;
use chronicle_bot::session::phases::Phase;
use chronicle_bot::session::restart::RestartBudget;
use chronicle_bot::session::stabilization::StreakStatus;
use chronicle_bot::session::{ConsentScope, ParticipantState, Session};
use chronicle_bot::storage::pseudonymize;
use chronicle_bot::time::Timestamp;
use chronicle_bot::voice::buffer::BufferRoot;
use std::collections::HashSet;

const SID: u128 = 0x0123_4567_89ab_cdef_0123_4567_89ab_cdef;
const TEXT: &str = "01234567-89ab-cdef-0123-456789abcdef";

fn now() -> Timestamp {
    Timestamp { secs: 1_700_000_000, nanos: 0 }
}

fn root() -> BufferRoot {
    BufferRoot::new("/buf".to_string(), 7200)
}

fn session() -> Session {
    let mut s = Session::with_identity(TEXT.to_string(), now(), u64::MAX, 2, 3, 1, 1, false);
    for (id, name) in [(10, "alice"), (11, "bob"), (12, "carol"), (13, "dave")] {
        s.add_participant(id, name.to_string(), false);
    }
    s
}

fn attached() -> Actor {
    let mut a = Actor::new(session());
    a.attach();
    a
}

#[test]
fn the_gate_opens_step_by_step() {
    let mut a = attached();
    a.apply_consent(10, ConsentScope::Full, now());
    a.apply_consent(12, ConsentScope::Decline, now());
    let (mut g, first) = GateOpening::begin(&a);
    assert_eq!(g.session_uuid, SID);
    let mut users = match first {
        GateRequest::CheckBlocklist { users } => users,
        _ => panic!("blocklist comes first"),
    };
    users.sort();
    assert_eq!(users, vec![10, 11, 12, 13]);

    let replies = vec![
        (10, BlocklistReply::Clear),
        (11, BlocklistReply::Unanswered),
        (12, BlocklistReply::Clear),
        (13, BlocklistReply::Blocked),
    ];
    match g.blocklist_checked(&mut a, &replies) {
        GateRequest::CreateRow { dropped, row } => {
            assert_eq!(dropped, vec![13]);
            assert_eq!(row.id, SID);
            assert_eq!(row.guild_id, -1);
            assert_eq!(row.started_at, now());
            assert_eq!(row.s3_prefix, format!("sessions/18446744073709551615/{TEXT}"));
        }
        _ => panic!("then the row"),
    }
    assert!(!a.session.participants.contains_key(&13));
    assert_eq!(a.tasks, HashSet::from([10u64, 11, 12]));

    let order: Vec<u64> = match g.row_created(&a, Ok(())) {
        GateRequest::AddParticipants { session, list } => {
            assert_eq!(session, SID);
            list.iter().map(|e| e.user_id).collect()
        }
        _ => panic!("then the participants"),
    };
    assert_eq!(order.len(), 2);
    assert!(!order.contains(&12));

    let rows: Vec<u128> = order.iter().map(|u| *u as u128 * 100).collect();
    match g.participants_added(&mut a, &root(), Ok(rows)) {
        GateRequest::WriteMix { dropped, waiting, sources } => {
            assert_eq!(dropped, vec![12]);
            assert_eq!(sources.len(), 2);
            for (user, cache) in waiting.iter().zip(&sources) {
                assert_eq!(cache.pseudo_id, pseudonymize(*user));
            }
            assert_eq!(waiting.into_iter().collect::<HashSet<u64>>(), a.tasks);
        }
        _ => panic!("then the mix"),
    }
    assert_eq!(a.session.participant_uuid(10), Some(1000));
    assert_eq!(a.session.participant_uuid(11), Some(1100));
    assert_eq!(a.tasks, HashSet::from([10u64, 11]));

    match g.mix_written(&a, &root(), Ok(4)) {
        GateRequest::Flush { session, targets } => {
            assert_eq!(session, SID);
            assert_eq!(targets.len(), 3);
            assert_eq!(targets[2].pseudo_id, "mixed");
            assert_eq!(targets[2].dir, format!("/buf/{TEXT}/mixed"));
            let alice = pseudonymize(10);
            assert!(targets
                .iter()
                .any(|t| t.pseudo_id == alice && t.dir == format!("/buf/{TEXT}/{alice}")));
            let carol = pseudonymize(12);
            assert!(targets.iter().all(|t| t.pseudo_id != carol));
        }
        _ => panic!("then the flush"),
    }

    match g.flushed(&mut a) {
        GateRequest::Opened { session, first_mix_seq, effects } => {
            assert_eq!(session, SID);
            assert_eq!(first_mix_seq, 4);
            assert_eq!(effects.len(), 2);
            assert!(effects.contains(&Effect::Tell {
                user: 10,
                cmd: ParticipantCmd::GateOpened { accepted: true, session_uuid: SID, mix: true },
            }));
            assert!(effects.contains(&Effect::Tell {
                user: 11,
                cmd: ParticipantCmd::GateOpened { accepted: false, session_uuid: SID, mix: false },
            }));
        }
        _ => panic!("the stabilization gate is open"),
    }
    assert_eq!(a.session_uuid, Some(SID));
    assert!(a.mixing);
    assert_eq!(g.stage, GateStage::Over);
}

#[test]
fn a_session_without_a_uuid_never_opens() {
    let mut s = session();
    s.id = "nonsense".to_string();
    let a = Actor::new(s);
    let (g, r) = GateOpening::begin(&a);
    assert_eq!(g.stage, GateStage::Over);
    let why = uuid::Uuid::parse_str("nonsense").unwrap_err().to_string();
    match r {
        GateRequest::Failed { failure: GateFailure::BadSessionId { message } } => {
            assert_eq!(message, why);
            assert!(!message.is_empty());
        }
        _ => panic!("the id is no uuid"),
    }
}

#[test]
fn failures_keep_the_gate_shut() {
    let text = |r: GateRequest| match r {
        GateRequest::Failed { failure } => failure.message(),
        _ => panic!("no failure"),
    };
    let step = |stage: GateStage| GateOpening {
        stage,
        session_uuid: SID,
        added: Vec::new(),
        mix_chunks: 0,
    };
    let mut a = attached();
    assert_eq!(
        text(step(GateStage::CreatingRow).row_created(&a, Err("x".to_string()))),
        "create_session: x"
    );
    assert_eq!(
        text(step(GateStage::AddingParticipants).participants_added(
            &mut a,
            &root(),
            Err("y".to_string())
        )),
        "add_participants_batch: y"
    );
    for (f, m) in [
        (GateFailure::CollectMix { message: "z".to_string() }, "mix_sources_join: z"),
        (GateFailure::JoinMix { message: "z".to_string() }, "mix_write_join: z"),
        (GateFailure::WriteMix { message: "z".to_string() }, "mix_write: z"),
    ] {
        assert_eq!(text(step(GateStage::WritingMix).mix_written(&a, &root(), Err(f))), m);
    }
    let bad = GateFailure::BadSessionId { message: "w".to_string() };
    assert_eq!(bad.message(), "w");
    assert!(a.session_uuid.is_none());
}

#[test]
fn lost_blocklist_lookups_keep_users_out() {
    let allowed = blocklist_filter(&vec![
        (1, BlocklistReply::Clear),
        (2, BlocklistReply::Blocked),
        (3, BlocklistReply::Unanswered),
        (4, BlocklistReply::Lost),
    ]);
    assert_eq!(allowed, HashSet::from([1u64, 3]));
    assert_eq!(to_signed64(5), 5);
    assert_eq!(to_signed64(1 << 63), i64::MIN);
    assert_eq!(s3_prefix(5, "s"), "sessions/5/s");
}

#[test]
fn the_wait_for_the_gate_ends() {
    assert_eq!(wait_for_gate(WaitEvent::Cancelled), Some(GateResult::Stopped));
    assert_eq!(wait_for_gate(WaitEvent::Closed), Some(GateResult::Stopped));
    assert_eq!(wait_for_gate(WaitEvent::Handled { stop: true }), Some(GateResult::Stopped));
    assert_eq!(wait_for_gate(WaitEvent::Handled { stop: false }), None);
    let seen = |status: StreakStatus| wait_for_gate(WaitEvent::Observed { status });
    assert_eq!(seen(StreakStatus::Streaking), None);
    assert_eq!(seen(StreakStatus::Unhealthy), None);
    assert_eq!(seen(StreakStatus::GateOpens { total_nanos: 3 }), Some(GateResult::Opened));
    assert_eq!(seen(StreakStatus::TimedOut), Some(GateResult::TimedOut));
}

#[test]
fn sessions_are_cancelled_without_the_gate() {
    let mut a = attached();
    assert!(a.conclude_wait(GateResult::Opened));
    assert!(!a.conclude_wait(GateResult::TimedOut));
    assert_eq!(a.session.phase, Phase::Cancelled);
    let w = a.finalize_normal(&root(), now());
    assert!(!w.announce);
    assert!(w.row.is_none());
    assert_eq!(w.removal.dir, format!("/buf/{TEXT}"));
    assert!(w.edit.is_none());
    assert_eq!(w.stop_tasks.len(), 4);
    assert_eq!(a.session.phase, Phase::Finalizing);
    assert_eq!(a.session.ended_at, Some(now()));
    let mut b = attached();
    b.gate_failed();
    assert_eq!(b.session.phase, Phase::Cancelled);
}

fn recording() -> Actor {
    let mut a = attached();
    a.session_uuid = Some(SID);
    a.mixing = true;
    a.begin_recording(now());
    a
}

#[test]
fn recording_begins_with_the_prompt() {
    let mut a = attached();
    a.session_uuid = Some(SID);
    a.mixing = true;
    let p = a.begin_recording(now()).unwrap();
    assert_eq!(p.channel_id, 3);
    assert_eq!(p.buttons.len(), 2);
    assert_eq!(p.embed.fields.len(), 1);
    assert_eq!(a.session.phase, Phase::Recording { gate_opened_at: now() });
    let mut b = attached();
    b.session.consent_message = Some((3, 4));
    b.session_uuid = Some(SID);
    b.mixing = true;
    assert!(b.begin_recording(now()).is_none());
}

#[test]
fn recordings_complete_their_row() {
    let mut a = recording();
    a.session.consent_message = Some((3, 4));
    let end = Timestamp { secs: 1_700_000_060, nanos: 0 };
    let w = a.finalize_normal(&root(), end);
    assert!(w.announce);
    assert!(w.stop_mix);
    let row = w.row.unwrap();
    assert_eq!(row.session, SID);
    assert_eq!(row.participant_count, 4);
    assert_eq!(row.meta.duration_ms, 60_000);
    assert_eq!(row.consent.participants.len(), 4);
    let edit = w.edit.unwrap();
    assert_eq!((edit.channel_id, edit.message_id), (3, 4));
    assert_eq!(edit.embed.title, "Session complete");
    assert_eq!(edit.embed.description, "Recording has ended. Thank you for contributing!");
    assert_eq!(edit.embed.color, 0x8b949e);
    assert!(!a.mixing);
    assert!(a.tasks.is_empty());
}

#[test]
fn a_broken_connection_restarts_once() {
    let mut a = recording();
    let mut budget = RestartBudget::new();
    let broken = RecordEvent::Checked { verdict: HealVerdict::BudgetExhausted };
    let step = |a: &mut Actor, b: &mut RestartBudget, e: RecordEvent| a.recording_step_at(b, e, 5);
    let ok = RecordEvent::Checked { verdict: HealVerdict::Healthy };
    let healed = RecordEvent::Checked { verdict: HealVerdict::Healed };
    assert_eq!(step(&mut a, &mut budget, ok), RecordStep::Stay);
    assert_eq!(step(&mut a, &mut budget, healed), RecordStep::Reattach);
    assert_eq!(step(&mut a, &mut budget, RecordEvent::Handled { stop: false }), RecordStep::Stay);
    assert_eq!(step(&mut a, &mut budget, RecordEvent::Handled { stop: true }), RecordStep::Finish);
    assert_eq!(step(&mut a, &mut budget, RecordEvent::Cancelled), RecordStep::Finish);
    assert_eq!(step(&mut a, &mut budget, RecordEvent::Closed), RecordStep::Finish);
    assert_eq!(step(&mut a, &mut budget, broken), RecordStep::Restart);
    assert_eq!(a.session.phase, Phase::Restarting);
    let plan = a.finalize_before_restart(&root());
    assert_eq!(plan.abandon, Some(SID));
    assert_eq!(plan.removal.dir, format!("/buf/{TEXT}"));
    let mut b = recording();
    assert_eq!(step(&mut b, &mut budget, broken), RecordStep::GiveUp);
    for catastrophe in [RecordEvent::Panicked, RecordEvent::UploadGivenUp] {
        let mut fresh = RestartBudget::new();
        let mut c = recording();
        assert_eq!(step(&mut c, &mut fresh, catastrophe), RecordStep::Restart);
        assert_eq!(step(&mut b, &mut fresh, catastrophe), RecordStep::GiveUp);
    }
    assert_eq!(b.session.phase, Phase::Recording { gate_opened_at: now() });
}

#[test]
fn one_session_per_guild() {
    let mut r = SessionRegistry::new();
    assert_eq!(r.holder(u64::MAX), None);
    let a = match r.spawn_session(session(), 1) {
        Ok(a) => a,
        Err(_) => panic!("the guild is free"),
    };
    assert_eq!(r.holder(u64::MAX), Some(1));
    match r.spawn_session(session(), 2) {
        Err(s) => assert_eq!(s.id, TEXT),
        Ok(_) => panic!("the guild is taken"),
    }
    let mut other = session();
    other.guild_id = 8;
    assert!(r.spawn_session(other, 3).is_ok());

    let mut failed = a.session;
    failed.record_consent(10, ConsentScope::Full);
    let next = r.spawn_restart(&failed, 2, true, 4);
    assert_eq!(r.holder(u64::MAX), Some(4));
    assert_ne!(next.session.id, failed.id);
    assert!(uuid::Uuid::parse_str(&next.session.id).is_ok());
    assert!(next.license_flags.is_empty());
    assert_eq!(next.session.min_participants, 2);
    assert_eq!(next.session.participants[&10].state, ParticipantState::Accepted);
    assert_eq!(next.session.participants[&11].state, ParticipantState::Declined);

    r.release(u64::MAX, 1);
    assert_eq!(r.holder(u64::MAX), Some(4));
    r.release(u64::MAX, 4);
    assert_eq!(r.holder(u64::MAX), None);
    assert_eq!(r.holder(8), Some(3));
}

#[test]
fn announcements_have_sounds() {
    assert_eq!(announcement_sound("recording_started"), Some("/assets/recording_started.wav"));
    assert_eq!(announcement_sound("recording_stopped"), Some("/assets/recording_stopped.wav"));
    assert_eq!(announcement_sound("other"), None);
}
