//! Settings.

use crate::text::{joined, path_join, trim, trimmed_end, trimmed_start};
use vstd::prelude::*;
use vstd::string::*;

verus! {

/// What can be set.
pub struct Config {
    /// The bot's token.
    pub token: String,
    /// Where the data API is.
    pub data_api_url: String,
    /// The secret that is shared with the data API.
    pub data_api_shared_secret: String,
    /// Where audio is cached; nothing for the default place.
    pub local_buffer_dir_raw: String,
    /// How many seconds of audio are cached per participant.
    pub local_buffer_max_secs: u64,
    /// How many healthy seconds open the stabilization gate.
    pub stabilization_gate_secs: u64,
    /// How many participants have to accept.
    pub min_participants: usize,
    /// Whether a single decline ends a session.
    pub require_all_consent: bool,
    /// Whether the test harness listens.
    pub harness_enabled: bool,
    /// Where the test harness listens.
    pub harness_port: u16,
    pub harness_bind: String,
}

impl Config {
    /// Where audio is cached: the set directory without surrounding space, or a
    /// directory of the bot's own under `temp_dir`.
    pub open spec fn buffer_dir(&self, temp_dir: Seq<char>) -> Seq<char> {
        let raw = trimmed_end(trimmed_start(self.local_buffer_dir_raw@));
        if raw.len() == 0 {
            joined(temp_dir, "chronicle-bot"@)
        } else {
            raw
        }
    }

    /// Where audio is cached.
    pub fn local_buffer_dir(&self, temp_dir: &str) -> (dir: String)
        ensures
            dir@ == self.buffer_dir(temp_dir@),
    {
        let raw = trim(self.local_buffer_dir_raw.as_str());
        if raw.as_str().unicode_len() == 0 {
            path_join(temp_dir, "chronicle-bot")
        } else {
            raw
        }
    }
}

} // verus!
