//! Changes of voice states.

use crate::session::actor::SessionCmd;
use crate::text::{dec_string, dec_text, owned};
use vstd::prelude::*;
use vstd::string::*;

verus! {

/// A change of somebody's voice state.
pub struct VoiceUpdate {
    pub guild_id: Option<u64>,
    pub user_id: u64,
    pub old_channel: Option<u64>,
    pub new_channel: Option<u64>,
}

/// What is known of the guild.
pub struct GuildSight {
    /// The bot's own user.
    pub current_user: u64,
    /// What the user is called there, as far as it is known.
    pub display_name: Option<String>,
}

/// The command that the session of the guild gets: it hears of every change,
/// also of other bots; only the bot's own changes are marked as such. `None` if
/// there is no guild, no session (`shutting_down` is `None`), the session is
/// shutting down, or the guild is not known.
pub fn handle_voice_state_update(
    update: &VoiceUpdate,
    shutting_down: Option<bool>,
    guild: Option<&GuildSight>,
) -> (cmd: Option<SessionCmd>)
    ensures
        cmd is Some <==> update.guild_id is Some && shutting_down == Some(false) && guild is Some,
        cmd matches Some(c) ==> {
            &&& c matches SessionCmd::VoiceStateChange {
                old_channel,
                new_channel,
                user_id,
                is_bot,
                display_name,
            }
            &&& old_channel == update.old_channel
            &&& new_channel == update.new_channel
            &&& user_id == update.user_id
            &&& is_bot == (update.user_id == guild->0.current_user)
            &&& display_name@ == (match guild->0.display_name {
                Some(n) => n@,
                None => "User "@ + dec_text(update.user_id as nat),
            })
        },
{
    if update.guild_id.is_none() {
        return None;
    }
    match shutting_down {
        Some(false) => {},
        _ => {
            return None;
        },
    }
    match guild {
        None => None,
        Some(g) => {
            let display_name = match &g.display_name {
                Some(n) => owned(n.as_str()),
                None => {
                    let mut n = owned("User ");
                    n.append(dec_string(update.user_id).as_str());
                    n
                },
            };
            Some(
                SessionCmd::VoiceStateChange {
                    old_channel: update.old_channel,
                    new_channel: update.new_channel,
                    user_id: update.user_id,
                    is_bot: update.user_id == g.current_user,
                    display_name,
                },
            )
        },
    }
}

} // verus!
