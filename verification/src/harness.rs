//! The HTTP surface for end-to-end tests.
//!
//! Every request becomes the same command that a click or a slash command would.

use crate::ident::uuid_of_text;
use crate::session::actor::{LicenseField, SessionCmd, SessionError, SessionSnapshot};
use crate::session::{ConsentScope, ParticipantConsent, Session};
use crate::text::{owned, same_text};
use vstd::prelude::*;

verus! {

/// An error as it is answered.
pub struct ErrorAnswer {
    pub status: u16,
    pub error: String,
}

impl ErrorAnswer {
    pub open spec fn says(self, status: u16, error: Seq<char>) -> bool {
        self.status == status && self.error@ == error
    }

    pub fn new(status: u16, error: &str) -> (a: ErrorAnswer)
        ensures
            a.says(status, error@),
    {
        ErrorAnswer { status, error: owned(error) }
    }
}

/// The answer to `GET /status`.
pub struct StatusAnswer {
    pub recording: bool,
    pub stable: bool,
    pub session_id: Option<String>,
    pub phase: Option<String>,
}

/// The answer to `GET /health`.
#[derive(Debug, Clone, Copy, PartialEq, Eq, Structural)]
pub struct HealthAnswer {
    pub ready: bool,
    pub harness_enabled: bool,
}

/// The answer to `GET /health`.
pub fn health(ready: bool, harness_enabled: bool) -> (a: HealthAnswer)
    ensures
        a == (HealthAnswer { ready, harness_enabled }),
{
    HealthAnswer { ready, harness_enabled }
}

/// The answer to `GET /status`, with a session or without one that answers.
pub fn status(snapshot: Option<&SessionSnapshot>) -> (a: StatusAnswer)
    ensures
        match snapshot {
            Some(s) => {
                &&& a.recording == s.recording
                &&& a.stable == s.stable
                &&& a.session_id is Some && a.session_id->0@ == s.session_id@
                &&& a.phase is Some && a.phase->0@ == s.phase_label@
            },
            None => !a.recording && !a.stable && a.session_id is None && a.phase is None,
        },
{
    match snapshot {
        Some(s) => StatusAnswer {
            recording: s.recording,
            stable: s.stable,
            session_id: Some(owned(s.session_id.as_str())),
            phase: Some(owned(s.phase_label)),
        },
        None => StatusAnswer { recording: false, stable: false, session_id: None, phase: None },
    }
}

/// The session that `POST /record` starts, once the bot is ready: initiated by the
/// bot itself, which writes to the voice channel.
pub fn record(
    current_user: Option<u64>,
    guild_id: u64,
    channel_id: u64,
    min_participants: usize,
    require_all: bool,
) -> (r: Result<Session, ErrorAnswer>)
    ensures
        match r {
            Err(e) => current_user is None && e.says(503, "bot not ready"@),
            Ok(s) => {
                &&& Some(s.initiator_id) == current_user
                &&& s.wf()
                &&& uuid_of_text(s.id@) is Some
                &&& s.phase is AwaitingStabilization
                &&& s.guild_id == guild_id
                &&& s.channel_id == channel_id
                &&& s.text_channel_id == channel_id
                &&& s.min_participants == min_participants
                &&& s.require_all == require_all
                &&& s.participants@ == Map::<u64, ParticipantConsent>::empty()
                &&& s.ended_at is None
                &&& s.consent_message is None
            },
        },
{
    match current_user {
        None => Err(ErrorAnswer::new(503, "bot not ready")),
        Some(user) => Ok(
            Session::new(guild_id, channel_id, channel_id, user, min_participants, require_all),
        ),
    }
}

/// The answer where a session runs already.
pub fn already_active() -> (e: ErrorAnswer)
    ensures
        e.says(409, "session already active"@),
{
    ErrorAnswer::new(409, "session already active")
}

/// The answer where no session runs.
pub open spec fn no_session(e: ErrorAnswer) -> bool {
    e.says(404, "no active session in guild"@)
}

/// The command of `POST /enrol`.
pub fn enrol(active: bool, user_id: u64, display_name: String, is_bot: bool) -> (r: Result<
    SessionCmd,
    ErrorAnswer,
>)
    ensures
        match r {
            Ok(cmd) => active && cmd == (SessionCmd::Enrol { user_id, display_name, is_bot }),
            Err(e) => !active && no_session(e),
        },
{
    if !active {
        return Err(ErrorAnswer::new(404, "no active session in guild"));
    }
    Ok(SessionCmd::Enrol { user_id, display_name, is_bot })
}

/// The choice that a word stands for.
pub open spec fn scope_of(word: Seq<char>) -> Option<ConsentScope> {
    if word == "full"@ {
        Some(ConsentScope::Full)
    } else if word == "decline"@ {
        Some(ConsentScope::Decline)
    } else {
        None
    }
}

/// The command of `POST /consent`. A word that is no choice is refused before the
/// session is looked for.
pub fn consent(active: bool, user: u64, scope: &str) -> (r: Result<SessionCmd, ErrorAnswer>)
    ensures
        match r {
            Ok(cmd) => {
                &&& active
                &&& cmd matches SessionCmd::RecordConsent { user: u, scope: s } && u == user
                    && scope_of(scope@) == Some(s)
            },
            Err(e) => if scope_of(scope@) is None {
                e.says(400, "scope must be full or decline"@)
            } else {
                !active && no_session(e)
            },
        },
{
    let choice = if same_text(scope, "full") {
        ConsentScope::Full
    } else if same_text(scope, "decline") {
        ConsentScope::Decline
    } else {
        return Err(ErrorAnswer::new(400, "scope must be full or decline"));
    };
    if !active {
        return Err(ErrorAnswer::new(404, "no active session in guild"));
    }
    Ok(SessionCmd::RecordConsent { user, scope: choice })
}

/// The restriction that a word stands for.
pub open spec fn field_of(word: Seq<char>) -> Option<LicenseField> {
    if word == "no_llm_training"@ {
        Some(LicenseField::NoLlmTraining)
    } else if word == "no_public_release"@ {
        Some(LicenseField::NoPublicRelease)
    } else {
        None
    }
}

/// The command of `POST /license`. A word that is no restriction is refused before
/// the session is looked for.
pub fn license(active: bool, user: u64, field: &str, value: bool) -> (r: Result<
    SessionCmd,
    ErrorAnswer,
>)
    ensures
        match r {
            Ok(cmd) => {
                &&& active
                &&& cmd matches SessionCmd::SetLicense { user: u, field: f, value: v } && u == user
                    && v == value && field_of(field@) == Some(f)
            },
            Err(e) => if field_of(field@) is None {
                e.says(400, "unknown license field"@)
            } else {
                !active && no_session(e)
            },
        },
{
    let restriction = if same_text(field, "no_llm_training") {
        LicenseField::NoLlmTraining
    } else if same_text(field, "no_public_release") {
        LicenseField::NoPublicRelease
    } else {
        return Err(ErrorAnswer::new(400, "unknown license field"));
    };
    if !active {
        return Err(ErrorAnswer::new(404, "no active session in guild"));
    }
    Ok(SessionCmd::SetLicense { user, field: restriction, value })
}

/// The command of `POST /stop`.
pub fn stop(active: bool) -> (r: Result<SessionCmd, ErrorAnswer>)
    ensures
        match r {
            Ok(cmd) => active && cmd is AutoStop,
            Err(e) => !active && no_session(e),
        },
{
    if active {
        Ok(SessionCmd::AutoStop)
    } else {
        Err(ErrorAnswer::new(404, "no active session in guild"))
    }
}

/// How long the end of a session is waited for, as a span in nanoseconds.
pub const STOP_DEADLINE: u128 = 60_000_000_000;

/// The pause between two looks, as a span in nanoseconds.
pub const STOP_POLL: u128 = 100_000_000;

/// Whether the end of a session is waited for any longer.
pub fn still_stopping(waited: u128, active: bool) -> (b: bool)
    ensures
        b == (waited < STOP_DEADLINE && active),
{
    waited < STOP_DEADLINE && active
}

/// The error for a command that the session refused, or that did not reach it.
pub fn command_answer<T>(result: Result<Result<T, SessionError>, SessionError>) -> (r: Result<
    T,
    ErrorAnswer,
>)
    ensures
        match result {
            Ok(Ok(t)) => r == Ok::<T, ErrorAnswer>(t),
            Ok(Err(e)) => r is Err && r->Err_0.says(409, e.text()),
            Err(e) => r is Err && r->Err_0.says(500, e.text()),
        },
{
    match result {
        Ok(Ok(t)) => Ok(t),
        Ok(Err(e)) => Err(ErrorAnswer::new(409, e.message())),
        Err(e) => Err(ErrorAnswer::new(500, e.message())),
    }
}

} // verus!
