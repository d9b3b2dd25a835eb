//! The `/stop` command.

use crate::session::actor::SessionError;
use vstd::prelude::*;

verus! {

/// The answer in a guild without a session.
pub const NOTHING_TO_STOP: &'static str = "No active recording in this server.";

/// The answer to `/stop`.
pub struct StopAnswer {
    /// What only the user sees.
    pub reply: &'static str,
    /// What goes to the channel.
    pub say: Option<&'static str>,
}

/// What the user is told.
pub open spec fn stop_text(result: Result<(), SessionError>) -> Seq<char> {
    match result {
        Ok(_) => "Wrapping up..."@,
        Err(SessionError::NotInitiator) =>
            "Only the person who started the recording can stop it."@,
        Err(SessionError::NotStoppable) => NOTHING_TO_STOP@,
        Err(SessionError::ActorGone) => NOTHING_TO_STOP@,
        Err(_) => "Couldn't stop the recording \u{2014} try again."@,
    }
}

/// The answer to `/stop`. The outer error says that the session could not be
/// reached, and counts like one that the session gave.
pub fn stop_answer(result: Result<Result<(), SessionError>, SessionError>) -> (a: StopAnswer)
    ensures
        a.reply@ == stop_text(
            match result {
                Ok(inner) => inner,
                Err(e) => Err(e),
            },
        ),
        match result {
            Ok(Ok(_)) => a.say is Some && a.say->0@ == "Thanks for contributing!"@,
            _ => a.say is None,
        },
{
    let flattened = match result {
        Ok(inner) => inner,
        Err(e) => Err(e),
    };
    match flattened {
        Ok(_) => StopAnswer { reply: "Wrapping up...", say: Some("Thanks for contributing!") },
        Err(SessionError::NotInitiator) => StopAnswer {
            reply: "Only the person who started the recording can stop it.",
            say: None,
        },
        Err(SessionError::NotStoppable) => StopAnswer { reply: NOTHING_TO_STOP, say: None },
        Err(SessionError::ActorGone) => StopAnswer { reply: NOTHING_TO_STOP, say: None },
        Err(_) => StopAnswer { reply: "Couldn't stop the recording \u{2014} try again.", say: None },
    }
}

} // verus!
