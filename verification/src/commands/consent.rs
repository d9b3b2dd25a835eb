//! Clicks on the consent prompt.

use crate::roll::ConsentEmbed;
use crate::session::actor::{ConsentOutcome, SessionError};
use crate::session::ConsentScope;
use crate::text::same_text;
use vstd::prelude::*;

verus! {

/// What a click is about.
#[derive(Debug, Clone, Copy, PartialEq, Eq, Structural)]
pub enum Click {
    /// An answer to the consent prompt.
    Choice { scope: ConsentScope },
    /// A license preference.
    License,
    /// Nothing that is known.
    Unknown,
}

/// What a click on the button `custom_id` is about.
pub open spec fn click_of(custom_id: Seq<char>) -> Click {
    if custom_id == "consent_accept"@ {
        Click::Choice { scope: ConsentScope::Full }
    } else if custom_id == "consent_decline"@ {
        Click::Choice { scope: ConsentScope::Decline }
    } else if custom_id == "license_no_llm"@ || custom_id == "license_no_public"@ {
        Click::License
    } else {
        Click::Unknown
    }
}

/// What a click on the button `custom_id` is about.
pub fn consent_click(custom_id: &str) -> (c: Click)
    ensures
        c == click_of(custom_id@),
{
    if same_text(custom_id, "consent_accept") {
        Click::Choice { scope: ConsentScope::Full }
    } else if same_text(custom_id, "consent_decline") {
        Click::Choice { scope: ConsentScope::Decline }
    } else if same_text(custom_id, "license_no_llm") || same_text(custom_id, "license_no_public") {
        Click::License
    } else {
        Click::Unknown
    }
}

/// The answer to a click in a guild without a session.
pub const NOTHING_TO_CONSENT_TO: &'static str = "There's no active recording to consent to.";

/// What is said when too few accepted.
pub const QUORUM_NOT_MET: &'static str = "Recording cancelled \u{2014} consent requirements not met.";

/// The answer to a click.
pub enum ClickAnswer {
    /// A message that only the user sees.
    Whisper { text: &'static str },
    /// The prompt is shown anew; `say` goes to the channel.
    Refresh { embed: ConsentEmbed, say: Option<&'static str> },
}

/// The reason for which a choice was not taken.
pub open spec fn refusal(e: SessionError) -> Seq<char> {
    match e {
        SessionError::NotParticipant => "You're not in the voice channel for this session."@,
        SessionError::AlreadyResponded => "You've already responded."@,
        _ => "Can't record that click right now."@,
    }
}

/// The answer to a choice. The outer error says that the session could not be
/// reached.
pub fn consent_answer(result: Result<Result<ConsentOutcome, SessionError>, SessionError>) -> (a:
    ClickAnswer)
    ensures
        match result {
            Err(_) => a matches ClickAnswer::Whisper { text } && text@
                == "Session is no longer active."@,
            Ok(Err(e)) => a matches ClickAnswer::Whisper { text } && text@ == refusal(e),
            Ok(Ok(ConsentOutcome::Ack { embed })) => a == (ClickAnswer::Refresh {
                embed,
                say: None,
            }),
            Ok(Ok(ConsentOutcome::QuorumFailed { embed })) => a == (ClickAnswer::Refresh {
                embed,
                say: Some(QUORUM_NOT_MET),
            }),
        },
{
    match result {
        Err(_) => ClickAnswer::Whisper { text: "Session is no longer active." },
        Ok(Err(SessionError::NotParticipant)) => ClickAnswer::Whisper {
            text: "You're not in the voice channel for this session.",
        },
        Ok(Err(SessionError::AlreadyResponded)) => ClickAnswer::Whisper {
            text: "You've already responded.",
        },
        Ok(Err(_)) => ClickAnswer::Whisper { text: "Can't record that click right now." },
        Ok(Ok(ConsentOutcome::Ack { embed })) => ClickAnswer::Refresh { embed, say: None },
        Ok(Ok(ConsentOutcome::QuorumFailed { embed })) => ClickAnswer::Refresh {
            embed,
            say: Some(QUORUM_NOT_MET),
        },
    }
}

/// How the start of a recording ended.
pub enum StartRecordingOutcome {
    /// Audio flows.
    Recording,
    /// No audio came.
    DaveFailed,
    /// The channel could not be joined again.
    DaveRejoinFailed,
    /// The channel could not be joined.
    VoiceJoinFailed(String),
    /// The session was stopped in the meantime.
    Preempted,
}

/// What is said of the start of a recording.
pub fn startup_message(outcome: &StartRecordingOutcome) -> (m: Option<&'static str>)
    ensures
        match *outcome {
            StartRecordingOutcome::Recording => m is Some && m->0@
                == "Recording. Use `/stop` when done."@,
            StartRecordingOutcome::DaveFailed => m is Some && m->0@
                == "Unable to receive audio. Try `/record` again."@,
            StartRecordingOutcome::DaveRejoinFailed => m is Some && m->0@
                == "Failed to reconnect to voice. Try `/record` again."@,
            StartRecordingOutcome::VoiceJoinFailed(_) => m is Some && m->0@
                == "Failed to join voice channel."@,
            StartRecordingOutcome::Preempted => m is None,
        },
{
    match outcome {
        StartRecordingOutcome::Recording => Some("Recording. Use `/stop` when done."),
        StartRecordingOutcome::DaveFailed => Some("Unable to receive audio. Try `/record` again."),
        StartRecordingOutcome::DaveRejoinFailed => Some(
            "Failed to reconnect to voice. Try `/record` again.",
        ),
        StartRecordingOutcome::VoiceJoinFailed(_) => Some("Failed to join voice channel."),
        StartRecordingOutcome::Preempted => None,
    }
}

/// The text above the license buttons.
pub const LICENSE_TEXT: &'static str = "Your audio defaults to **public dataset + LLM training**. Toggle restrictions below:";

/// How long the license buttons stay, as a span in nanoseconds.
pub const LICENSE_BUTTONS_STAY: u128 = 840_000_000_000;

/// Whether the license buttons are offered: to who accepted, once audio flows.
pub fn offers_license(outcome: &StartRecordingOutcome, scope: ConsentScope) -> (b: bool)
    ensures
        b == (outcome is Recording && scope is Full),
{
    match (outcome, scope) {
        (StartRecordingOutcome::Recording, ConsentScope::Full) => true,
        _ => false,
    }
}

} // verus!
