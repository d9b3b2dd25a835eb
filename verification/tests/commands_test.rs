use chronicle_bot::commands::consent::{
    consent_answer, consent_click, offers_license, startup_message, Click, ClickAnswer,
    StartRecordingOutcome, LICENSE_BUTTONS_STAY, QUORUM_NOT_MET,
};
use chronicle_bot::commands::license::{
    build_license_buttons, field_name, license_click, license_sync, LicenseSync,
};
use chronicle_bot::commands::record::{record, Member, RecordRequest, VoiceMember};
use chronicle_bot::commands::respond::{
    translate, Ack, Dispatch, InteractionKind, InteractionReply, RespondRequest, RespondStage,
    Responding,
};
use chronicle_bot::commands::stop::stop_answer;
use chronicle_bot::session::actor::{ConsentOutcome, LicenseField, SessionError};
use chronicle_bot::session::{ButtonLook, ConsentScope, Session};
use chronicle_bot::time::span_secs;

fn edit(text: &str) -> InteractionReply {
    InteractionReply::Edit {
        content: Some(text.to_string()),
        embed: None,
        components: Vec::new(),
    }
}

#[test]
fn command_kind_ack_then_edit_dispatch() {
    let kind = InteractionKind::Command;
    assert_eq!(kind.kind_label(), "command");
    assert_eq!(kind.ack(), Ack::Defer { ephemeral: true });
    match translate(kind, edit("hi")) {
        Dispatch::EditResponse { content, .. } => assert_eq!(content.as_deref(), Some("hi")),
        _ => panic!("not an edit"),
    }
}

#[test]
fn component_kind_ack_then_update_dispatch() {
    let kind = InteractionKind::Component;
    assert_eq!(kind.kind_label(), "component");
    assert_eq!(kind.ack(), Ack::Acknowledge);
    let update = || InteractionReply::UpdateMessage {
        embed: None,
        content: None,
        components: Vec::new(),
    };
    assert!(matches!(translate(kind, update()), Dispatch::EditMessage { .. }));
    assert!(matches!(
        translate(InteractionKind::Command, update()),
        Dispatch::EditResponse { .. }
    ));
}

#[test]
fn followup_variant_goes_to_followup_sink() {
    let reply = InteractionReply::Followup {
        content: "ephemeral".to_string(),
        ephemeral: true,
        components: Vec::new(),
    };
    match translate(InteractionKind::Component, reply) {
        Dispatch::CreateFollowup { content, ephemeral, .. } => {
            assert_eq!(content, "ephemeral");
            assert!(ephemeral);
        }
        _ => panic!("not a followup"),
    }
}

#[test]
fn silent_variant_triggers_no_dispatch() {
    assert!(matches!(
        translate(InteractionKind::Command, InteractionReply::Silent),
        Dispatch::Nothing
    ));
}

#[test]
fn command_kind_label_is_command() {
    let label: fn(InteractionKind) -> &'static str = InteractionKind::kind_label;
    assert_eq!(label(InteractionKind::Command), "command");
    assert_eq!(label(InteractionKind::Component), "component");
}

#[test]
fn clicks_are_told_apart() {
    assert_eq!(consent_click("consent_accept"), Click::Choice { scope: ConsentScope::Full });
    assert_eq!(consent_click("consent_decline"), Click::Choice { scope: ConsentScope::Decline });
    assert_eq!(consent_click("license_no_llm"), Click::License);
    assert_eq!(consent_click("license_no_public"), Click::License);
    assert_eq!(consent_click("other"), Click::Unknown);
    assert_eq!(license_click("license_no_llm"), Some(LicenseField::NoLlmTraining));
    assert_eq!(license_click("license_no_public"), Some(LicenseField::NoPublicRelease));
    assert_eq!(license_click("consent_accept"), None);
    assert_eq!(field_name(LicenseField::NoLlmTraining), "no_llm_training");
    assert_eq!(field_name(LicenseField::NoPublicRelease), "no_public_release");
}

#[test]
fn choices_are_answered() {
    let s = Session::new(1, 2, 3, 4, 1, true);
    match consent_answer(Ok(Ok(ConsentOutcome::Ack { embed: s.consent_embed() }))) {
        ClickAnswer::Refresh { say, .. } => assert!(say.is_none()),
        ClickAnswer::Whisper { .. } => panic!("the choice counts"),
    }
    match consent_answer(Ok(Ok(ConsentOutcome::QuorumFailed { embed: s.consent_embed() }))) {
        ClickAnswer::Refresh { say, .. } => assert_eq!(say, Some(QUORUM_NOT_MET)),
        ClickAnswer::Whisper { .. } => panic!("the choice counts"),
    }
    let whisper = |r: Result<Result<ConsentOutcome, SessionError>, SessionError>| {
        match consent_answer(r) {
            ClickAnswer::Whisper { text } => text,
            ClickAnswer::Refresh { .. } => panic!("the choice does not count"),
        }
    };
    assert_eq!(
        whisper(Ok(Err(SessionError::NotParticipant))),
        "You're not in the voice channel for this session."
    );
    assert_eq!(whisper(Ok(Err(SessionError::AlreadyResponded))), "You've already responded.");
    assert_eq!(whisper(Ok(Err(SessionError::NotStoppable))), "Can't record that click right now.");
    assert_eq!(whisper(Err(SessionError::ActorGone)), "Session is no longer active.");
}

#[test]
fn startups_are_announced() {
    let rec = StartRecordingOutcome::Recording;
    assert_eq!(startup_message(&rec), Some("Recording. Use `/stop` when done."));
    assert_eq!(
        startup_message(&StartRecordingOutcome::DaveFailed),
        Some("Unable to receive audio. Try `/record` again.")
    );
    assert_eq!(
        startup_message(&StartRecordingOutcome::DaveRejoinFailed),
        Some("Failed to reconnect to voice. Try `/record` again.")
    );
    assert_eq!(
        startup_message(&StartRecordingOutcome::VoiceJoinFailed("x".to_string())),
        Some("Failed to join voice channel.")
    );
    assert_eq!(startup_message(&StartRecordingOutcome::Preempted), None);
    assert!(offers_license(&rec, ConsentScope::Full));
    assert!(!offers_license(&rec, ConsentScope::Decline));
    assert!(!offers_license(&StartRecordingOutcome::Preempted, ConsentScope::Full));
    assert_eq!(LICENSE_BUTTONS_STAY, span_secs(14 * 60));
}

#[test]
fn license_buttons_show_what_is_on() {
    let row = build_license_buttons(true, false);
    assert_eq!(row[0].custom_id, "license_no_llm");
    assert_eq!(row[0].label, "No LLM Training \u{2713}");
    assert_eq!(row[0].look, ButtonLook::Danger);
    assert_eq!(row[1].custom_id, "license_no_public");
    assert_eq!(row[1].label, "No Public Release");
    assert_eq!(row[1].look, ButtonLook::Secondary);
    let row = build_license_buttons(false, true);
    assert_eq!(row[0].label, "No LLM Training");
    assert_eq!(row[1].label, "No Public Release \u{2713}");
}

#[test]
fn license_changes_are_synced() {
    match license_sync(Some(9), "x", 1, LicenseField::NoLlmTraining, true, false) {
        LicenseSync::ById { participant, field, no_llm, no_public } => {
            assert_eq!(participant, 9);
            assert_eq!(field, "no_llm_training");
            assert!(!no_llm && !no_public);
        }
        _ => panic!("the row is known"),
    }
    let sid = "01234567-89ab-cdef-0123-456789abcdef";
    match license_sync(None, sid, 1, LicenseField::NoPublicRelease, true, false) {
        LicenseSync::ByUser { session, user, field } => {
            assert_eq!(session, 0x0123_4567_89ab_cdef_0123_4567_89ab_cdef);
            assert_eq!(user, 1);
            assert_eq!(field, "no_public_release");
        }
        _ => panic!("the session is known"),
    }
    assert!(matches!(
        license_sync(None, "x", 1, LicenseField::NoPublicRelease, true, false),
        LicenseSync::Nothing
    ));
}

#[test]
fn stops_are_answered() {
    let a = stop_answer(Ok(Ok(())));
    assert_eq!(a.reply, "Wrapping up...");
    assert_eq!(a.say, Some("Thanks for contributing!"));
    let a = stop_answer(Ok(Err(SessionError::NotInitiator)));
    assert_eq!(a.reply, "Only the person who started the recording can stop it.");
    assert!(a.say.is_none());
    assert_eq!(
        stop_answer(Ok(Err(SessionError::NotStoppable))).reply,
        "No active recording in this server."
    );
    assert_eq!(
        stop_answer(Err(SessionError::ActorGone)).reply,
        "No active recording in this server."
    );
    assert_eq!(
        stop_answer(Ok(Err(SessionError::NotParticipant))).reply,
        "Couldn't stop the recording \u{2014} try again."
    );
}

fn voice(user_id: u64, channel_id: Option<u64>, member: Option<(&str, bool)>) -> VoiceMember {
    VoiceMember {
        user_id,
        channel_id,
        member: member.map(|(n, bot)| Member { display_name: n.to_string(), bot }),
    }
}

#[test]
fn record_enrols_the_people_in_the_channel() {
    let states = vec![
        voice(1, Some(5), Some(("alice", false))),
        voice(2, Some(5), Some(("robot", true))),
        voice(3, Some(6), Some(("far", false))),
        voice(4, Some(5), None),
        voice(7, Some(5), Some(("bob", false))),
        voice(8, None, Some(("gone", false))),
    ];
    let request = RecordRequest { guild_id: Some(9), invoker: 1, text_channel_id: 77 };
    let plan = match record(&request, Some(&states), 2, true) {
        Ok(p) => p,
        Err(e) => panic!("{e}"),
    };
    assert_eq!(plan.session.guild_id, 9);
    assert_eq!(plan.session.channel_id, 5);
    assert_eq!(plan.session.text_channel_id, 77);
    assert_eq!(plan.session.initiator_id, 1);
    assert_eq!(plan.session.participants.len(), 2);
    assert_eq!(plan.session.participants[&7].display_name, "bob");
    assert_eq!(plan.mentions, "<@1> <@7>");
    assert_eq!(plan.embed.fields[0].name, "Waiting for");
}

#[test]
fn record_is_refused_elsewhere() {
    let refused = |guild: Option<u64>, invoker: u64, states: Option<&Vec<VoiceMember>>| {
        let request = RecordRequest { guild_id: guild, invoker, text_channel_id: 7 };
        match record(&request, states, 1, true) {
            Err(text) => text,
            Ok(_) => panic!("not refused"),
        }
    };
    let states = vec![voice(1, None, None)];
    assert_eq!(refused(None, 1, Some(&states)), "Run this in a server.");
    assert_eq!(refused(Some(9), 1, None), "Guild cache not populated yet.");
    assert_eq!(refused(Some(9), 1, Some(&states)), "You need to be in a voice channel.");
    assert_eq!(refused(Some(9), 2, Some(&states)), "You need to be in a voice channel.");
}

#[test]
fn interactions_are_acknowledged_before_anything_else() {
    let (mut r, first) = Responding::begin(InteractionKind::Component);
    assert!(matches!(first, RespondRequest::Acknowledge { ack: Ack::Acknowledge }));
    assert!(matches!(r.acknowledged(true), RespondRequest::Handle));
    let reply = InteractionReply::Followup {
        content: "x".to_string(),
        ephemeral: true,
        components: Vec::new(),
    };
    match r.handled(reply) {
        RespondRequest::Send { call: Dispatch::CreateFollowup { content, ephemeral, .. } } => {
            assert_eq!(content, "x");
            assert!(ephemeral);
        }
        _ => panic!("one call carries the answer"),
    }
    assert!(matches!(r.sent(true), RespondRequest::Done));
    assert_eq!(r.stage, RespondStage::Over);

    let (mut r, first) = Responding::begin(InteractionKind::Command);
    assert!(matches!(
        first,
        RespondRequest::Acknowledge { ack: Ack::Defer { ephemeral: true } }
    ));
    assert!(matches!(r.acknowledged(false), RespondRequest::Failed));
    assert_eq!(r.stage, RespondStage::Over);

    let (mut r, _) = Responding::begin(InteractionKind::Command);
    r.acknowledged(true);
    assert!(matches!(r.handled(InteractionReply::Silent), RespondRequest::Done));
}
