//! The statements with which sessions are kept in a database.
//!
//! Users are known there by their pseudonyms only.

use crate::storage::bundle::{pseudonym, pseudonymize};
use crate::text::{owned, same_text};
use crate::time::Timestamp;
use vstd::prelude::*;

verus! {

/// A new session.
pub struct NewSession {
    pub id: u128,
    pub guild_id: i64,
    pub started_at: Timestamp,
    pub game_system: Option<String>,
    pub campaign_name: Option<String>,
}

/// A new participant of a session.
pub struct NewParticipant {
    pub session_id: u128,
    pub discord_user_id: u64,
    pub mid_session_join: bool,
}

/// A session that has ended.
pub struct FinalizedSession {
    pub session_id: u128,
    pub ended_at: Timestamp,
    /// Whole milliseconds between start and end.
    pub duration_ms: i64,
    pub participant_count: i32,
    pub s3_prefix: Option<String>,
}

/// An argument of a statement.
pub enum Arg {
    Id { id: u128 },
    Big { n: i64 },
    Small { n: i32 },
    Flag { on: bool },
    At { time: Timestamp },
    Text { text: Option<String> },
}

/// An argument as a value.
pub enum ArgValue {
    Id(u128),
    Big(i64),
    Small(i32),
    Flag(bool),
    At(Timestamp),
    Text(Option<Seq<char>>),
}

impl View for Arg {
    type V = ArgValue;

    open spec fn view(&self) -> ArgValue {
        match self {
            Arg::Id { id } => ArgValue::Id(*id),
            Arg::Big { n } => ArgValue::Big(*n),
            Arg::Small { n } => ArgValue::Small(*n),
            Arg::Flag { on } => ArgValue::Flag(*on),
            Arg::At { time } => ArgValue::At(*time),
            Arg::Text { text } => ArgValue::Text(
                match text {
                    Some(s) => Some(s@),
                    None => None,
                },
            ),
        }
    }
}

/// A statement with its arguments, in the order of its placeholders.
pub struct Statement {
    pub sql: &'static str,
    pub args: Vec<Arg>,
}

impl Statement {
    /// The statement is `sql` with the given arguments.
    pub open spec fn binds(self, sql: Seq<char>, args: Seq<ArgValue>) -> bool {
        self.sql@ == sql && self.args@.map_values(|a: Arg| a@) == args
    }
}

pub const INSERT_SESSION: &'static str = "INSERT INTO sessions (id, guild_id, started_at, game_system, campaign_name, status) VALUES ($1, $2, $3, $4, $5, 'awaiting_consent')";

pub const UPSERT_USER: &'static str = "INSERT INTO users (discord_id_hash, pseudo_id) VALUES ($1, $2) ON CONFLICT (pseudo_id) DO NOTHING";

pub const SELECT_USER: &'static str = "SELECT id FROM users WHERE pseudo_id = $1";

pub const INSERT_PARTICIPANT: &'static str = "INSERT INTO session_participants (session_id, user_id, mid_session_join) VALUES ($1, $2, $3) ON CONFLICT (session_id, user_id) DO NOTHING";

pub const SELECT_SCOPE: &'static str = "SELECT consent_scope FROM session_participants WHERE session_id = $1 AND user_id = $2";

pub const UPDATE_SCOPE: &'static str = "UPDATE session_participants SET consent_scope = $1, consented_at = NOW() WHERE session_id = $2 AND user_id = $3";

pub const INSERT_AUDIT: &'static str = "INSERT INTO consent_audit_log (user_id, session_id, action, previous_scope, new_scope) VALUES ($1, $2, 'consent_recorded', $3, $4)";

pub const TOGGLE_LLM: &'static str = "UPDATE session_participants SET no_llm_training = NOT no_llm_training WHERE session_id = $1 AND user_id = $2";

pub const TOGGLE_PUBLIC: &'static str = "UPDATE session_participants SET no_public_release = NOT no_public_release WHERE session_id = $1 AND user_id = $2";

pub const SELECT_FLAGS: &'static str = "SELECT sp.no_llm_training, sp.no_public_release FROM session_participants sp JOIN users u ON sp.user_id = u.id WHERE sp.session_id = $1 AND u.pseudo_id = $2";

pub const UPDATE_STATE: &'static str = "UPDATE sessions SET status = $1 WHERE id = $2";

pub const FINALIZE_SESSION: &'static str = "UPDATE sessions SET ended_at = $1, participant_count = $2, s3_prefix = $3, status = 'complete' WHERE id = $4";

pub const SELECT_OPT_OUT: &'static str = "SELECT global_opt_out FROM users WHERE pseudo_id = $1";

/// A text that may be missing, as a value.
pub open spec fn text_value(text: Option<String>) -> ArgValue {
    ArgValue::Text(
        match text {
            Some(s) => Some(s@),
            None => None,
        },
    )
}

fn text_arg(text: &Option<String>) -> (a: Arg)
    ensures
        a@ == text_value(*text),
{
    Arg::Text {
        text: match text {
            Some(s) => Some(owned(s.as_str())),
            None => None,
        },
    }
}

fn some_text(text: &str) -> (a: Arg)
    ensures
        a@ == ArgValue::Text(Some(text@)),
{
    Arg::Text { text: Some(owned(text)) }
}

fn pseudonym_arg(discord_user_id: u64) -> (a: Arg)
    ensures
        a@ == ArgValue::Text(Some(pseudonym(discord_user_id))),
{
    Arg::Text { text: Some(pseudonymize(discord_user_id)) }
}

/// Insert a session, which waits for consent.
pub fn create_session(s: &NewSession) -> (st: Statement)
    ensures
        st.binds(
            INSERT_SESSION@,
            seq![
                ArgValue::Id(s.id),
                ArgValue::Big(s.guild_id),
                ArgValue::At(s.started_at),
                text_value(s.game_system),
                text_value(s.campaign_name),
            ],
        ),
{
    let mut args: Vec<Arg> = Vec::new();
    args.push(Arg::Id { id: s.id });
    args.push(Arg::Big { n: s.guild_id });
    args.push(Arg::At { time: s.started_at });
    args.push(text_arg(&s.game_system));
    args.push(text_arg(&s.campaign_name));
    let st = Statement { sql: INSERT_SESSION, args };
    assert(st.args@.map_values(|a: Arg| a@) =~= seq![
        ArgValue::Id(s.id),
        ArgValue::Big(s.guild_id),
        ArgValue::At(s.started_at),
        text_value(s.game_system),
        text_value(s.campaign_name),
    ]);
    st
}

/// Make sure that a user is known, under the pseudonym alone.
pub fn upsert_user(discord_user_id: u64) -> (st: Statement)
    ensures
        st.binds(
            UPSERT_USER@,
            seq![
                ArgValue::Text(Some(pseudonym(discord_user_id))),
                ArgValue::Text(Some(pseudonym(discord_user_id))),
            ],
        ),
{
    let mut args: Vec<Arg> = Vec::new();
    args.push(pseudonym_arg(discord_user_id));
    args.push(pseudonym_arg(discord_user_id));
    let st = Statement { sql: UPSERT_USER, args };
    assert(st.args@.map_values(|a: Arg| a@) =~= seq![
        ArgValue::Text(Some(pseudonym(discord_user_id))),
        ArgValue::Text(Some(pseudonym(discord_user_id))),
    ]);
    st
}

/// Look up a user's row.
pub fn user_id_of(discord_user_id: u64) -> (st: Statement)
    ensures
        st.binds(SELECT_USER@, seq![ArgValue::Text(Some(pseudonym(discord_user_id)))]),
{
    let mut args: Vec<Arg> = Vec::new();
    args.push(pseudonym_arg(discord_user_id));
    let st = Statement { sql: SELECT_USER, args };
    assert(st.args@.map_values(|a: Arg| a@) =~= seq![
        ArgValue::Text(Some(pseudonym(discord_user_id))),
    ]);
    st
}

/// Add a user's row to a session. Someone who takes part already stays as they
/// are.
pub fn add_participant(p: &NewParticipant, user_id: u128) -> (st: Statement)
    ensures
        st.binds(
            INSERT_PARTICIPANT@,
            seq![
                ArgValue::Id(p.session_id),
                ArgValue::Id(user_id),
                ArgValue::Flag(p.mid_session_join),
            ],
        ),
{
    let mut args: Vec<Arg> = Vec::new();
    args.push(Arg::Id { id: p.session_id });
    args.push(Arg::Id { id: user_id });
    args.push(Arg::Flag { on: p.mid_session_join });
    let st = Statement { sql: INSERT_PARTICIPANT, args };
    assert(st.args@.map_values(|a: Arg| a@) =~= seq![
        ArgValue::Id(p.session_id),
        ArgValue::Id(user_id),
        ArgValue::Flag(p.mid_session_join),
    ]);
    st
}

/// Look up a participant's choice.
pub fn previous_scope(session_id: u128, user_id: u128) -> (st: Statement)
    ensures
        st.binds(SELECT_SCOPE@, seq![ArgValue::Id(session_id), ArgValue::Id(user_id)]),
{
    let mut args: Vec<Arg> = Vec::new();
    args.push(Arg::Id { id: session_id });
    args.push(Arg::Id { id: user_id });
    let st = Statement { sql: SELECT_SCOPE, args };
    assert(st.args@.map_values(|a: Arg| a@) =~= seq![
        ArgValue::Id(session_id),
        ArgValue::Id(user_id),
    ]);
    st
}

/// Change a participant's choice, and note the change with the choice before.
pub fn record_consent(
    session_id: u128,
    user_id: u128,
    previous: &Option<String>,
    scope: &str,
) -> (r: (Statement, Statement))
    ensures
        r.0.binds(
            UPDATE_SCOPE@,
            seq![ArgValue::Text(Some(scope@)), ArgValue::Id(session_id), ArgValue::Id(user_id)],
        ),
        r.1.binds(
            INSERT_AUDIT@,
            seq![
                ArgValue::Id(user_id),
                ArgValue::Id(session_id),
                text_value(*previous),
                ArgValue::Text(Some(scope@)),
            ],
        ),
{
    let mut args: Vec<Arg> = Vec::new();
    args.push(some_text(scope));
    args.push(Arg::Id { id: session_id });
    args.push(Arg::Id { id: user_id });
    let change = Statement { sql: UPDATE_SCOPE, args };
    assert(change.args@.map_values(|a: Arg| a@) =~= seq![
        ArgValue::Text(Some(scope@)),
        ArgValue::Id(session_id),
        ArgValue::Id(user_id),
    ]);
    let mut more: Vec<Arg> = Vec::new();
    more.push(Arg::Id { id: user_id });
    more.push(Arg::Id { id: session_id });
    more.push(text_arg(previous));
    more.push(some_text(scope));
    let note = Statement { sql: INSERT_AUDIT, args: more };
    assert(note.args@.map_values(|a: Arg| a@) =~= seq![
        ArgValue::Id(user_id),
        ArgValue::Id(session_id),
        text_value(*previous),
        ArgValue::Text(Some(scope@)),
    ]);
    (change, note)
}

/// The statement that flips a flag; `None` for a field that is not a flag.
pub open spec fn toggle_sql(field: Seq<char>) -> Option<Seq<char>> {
    if field == "no_llm_training"@ {
        Some(TOGGLE_LLM@)
    } else if field == "no_public_release"@ {
        Some(TOGGLE_PUBLIC@)
    } else {
        None
    }
}

/// Flip one license flag of a participant. The field never becomes part of a
/// statement: only known ones have one.
pub fn toggle_license_flag(session_id: u128, user_id: u128, field: &str) -> (st: Option<Statement>)
    ensures
        match st {
            Some(s) => toggle_sql(field@) is Some && s.binds(
                toggle_sql(field@)->0,
                seq![ArgValue::Id(session_id), ArgValue::Id(user_id)],
            ),
            None => toggle_sql(field@) is None,
        },
{
    let sql = if same_text(field, "no_llm_training") {
        TOGGLE_LLM
    } else if same_text(field, "no_public_release") {
        TOGGLE_PUBLIC
    } else {
        return None;
    };
    let mut args: Vec<Arg> = Vec::new();
    args.push(Arg::Id { id: session_id });
    args.push(Arg::Id { id: user_id });
    let st = Statement { sql, args };
    assert(st.args@.map_values(|a: Arg| a@) =~= seq![
        ArgValue::Id(session_id),
        ArgValue::Id(user_id),
    ]);
    Some(st)
}

/// Look up the license flags of a participant.
pub fn get_license_flags(session_id: u128, discord_user_id: u64) -> (st: Statement)
    ensures
        st.binds(
            SELECT_FLAGS@,
            seq![ArgValue::Id(session_id), ArgValue::Text(Some(pseudonym(discord_user_id)))],
        ),
{
    let mut args: Vec<Arg> = Vec::new();
    args.push(Arg::Id { id: session_id });
    args.push(pseudonym_arg(discord_user_id));
    let st = Statement { sql: SELECT_FLAGS, args };
    assert(st.args@.map_values(|a: Arg| a@) =~= seq![
        ArgValue::Id(session_id),
        ArgValue::Text(Some(pseudonym(discord_user_id))),
    ]);
    st
}

/// Change the status of a session.
pub fn update_session_state(session_id: u128, state: &str) -> (st: Statement)
    ensures
        st.binds(UPDATE_STATE@, seq![ArgValue::Text(Some(state@)), ArgValue::Id(session_id)]),
{
    let mut args: Vec<Arg> = Vec::new();
    args.push(some_text(state));
    args.push(Arg::Id { id: session_id });
    let st = Statement { sql: UPDATE_STATE, args };
    assert(st.args@.map_values(|a: Arg| a@) =~= seq![
        ArgValue::Text(Some(state@)),
        ArgValue::Id(session_id),
    ]);
    st
}

/// Complete the row of a session that has ended.
pub fn finalize_session(f: &FinalizedSession) -> (st: Statement)
    ensures
        st.binds(
            FINALIZE_SESSION@,
            seq![
                ArgValue::At(f.ended_at),
                ArgValue::Small(f.participant_count),
                text_value(f.s3_prefix),
                ArgValue::Id(f.session_id),
            ],
        ),
{
    let mut args: Vec<Arg> = Vec::new();
    args.push(Arg::At { time: f.ended_at });
    args.push(Arg::Small { n: f.participant_count });
    args.push(text_arg(&f.s3_prefix));
    args.push(Arg::Id { id: f.session_id });
    let st = Statement { sql: FINALIZE_SESSION, args };
    assert(st.args@.map_values(|a: Arg| a@) =~= seq![
        ArgValue::At(f.ended_at),
        ArgValue::Small(f.participant_count),
        text_value(f.s3_prefix),
        ArgValue::Id(f.session_id),
    ]);
    st
}

/// Look up whether a user has opted out.
pub fn check_blocklist(discord_user_id: u64) -> (st: Statement)
    ensures
        st.binds(SELECT_OPT_OUT@, seq![ArgValue::Text(Some(pseudonym(discord_user_id)))]),
{
    let mut args: Vec<Arg> = Vec::new();
    args.push(pseudonym_arg(discord_user_id));
    let st = Statement { sql: SELECT_OPT_OUT, args };
    assert(st.args@.map_values(|a: Arg| a@) =~= seq![
        ArgValue::Text(Some(pseudonym(discord_user_id))),
    ]);
    st
}

/// Whether a user is blocked. Users who are not known are not.
pub fn is_opted_out(found: Option<bool>) -> (b: bool)
    ensures
        b == (found == Some(true)),
{
    match found {
        Some(b) => b,
        None => false,
    }
}

} // verus!
