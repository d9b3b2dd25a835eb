//! Consent sessions, one per guild.

use crate::collect::enumerates;
use crate::roll::{
    all_responded, choosers, evaluate_quorum, everyone_answered, has_decline, has_quorum, ids_with,
    users_of, Record,
};
use crate::time::{utc_now, Timestamp};
use std::collections::hash_map::Entry;
use std::collections::HashMap;
use vstd::prelude::*;

pub use crate::storage::bundle::ConsentScope;

verus! {

broadcast use vstd::std_specs::hash::group_hash_axioms;

/// Where a consent session stands.
#[derive(Debug, Clone, Copy, PartialEq, Eq, Structural)]
pub enum SessionState {
    AwaitingConsent,
    Recording,
    Finalizing,
    Complete,
    Cancelled,
}

impl SessionState {
    /// The session is neither over nor called off.
    pub open spec fn active(self) -> bool {
        self is AwaitingConsent || self is Recording || self is Finalizing
    }
}

/// One participant's answer.
#[derive(Debug)]
pub struct ParticipantConsent {
    pub user_id: u64,
    pub display_name: String,
    pub scope: Option<ConsentScope>,
    pub consented_at: Option<Timestamp>,
    pub mid_session_join: bool,
}

impl Record for ParticipantConsent {
    open spec fn user(&self) -> u64 {
        self.user_id
    }

    open spec fn name(&self) -> Seq<char> {
        self.display_name@
    }

    open spec fn choice(&self) -> Option<ConsentScope> {
        self.scope
    }

    open spec fn chosen_at(&self) -> Option<Timestamp> {
        self.consented_at
    }

    open spec fn joined_late(&self) -> bool {
        self.mid_session_join
    }

    fn user_ref(&self) -> (u: u64) {
        self.user_id
    }

    fn name_ref(&self) -> (n: &str) {
        self.display_name.as_str()
    }

    fn choice_ref(&self) -> (c: Option<ConsentScope>) {
        self.scope
    }

    fn chosen_at_ref(&self) -> (t: Option<Timestamp>) {
        self.consented_at
    }

    fn joined_late_ref(&self) -> (b: bool) {
        self.mid_session_join
    }
}

/// A session and the answers to its consent prompt.
pub struct ConsentSession {
    pub guild_id: u64,
    pub channel_id: u64,
    pub text_channel_id: u64,
    pub initiator_id: u64,
    pub session_id: String,
    pub state: SessionState,
    pub participants: HashMap<u64, ParticipantConsent>,
    pub min_participants: usize,
    pub require_all: bool,
    /// Channel and message of the consent prompt, for cleaning up.
    pub consent_message: Option<(u64, u64)>,
    /// Tokens and messages of the license followups, for cleaning up.
    pub license_followups: Vec<(String, u64)>,
}

impl ConsentSession {
    /// A session that waits for answers, without participants.
    pub fn new(
        guild_id: u64,
        channel_id: u64,
        text_channel_id: u64,
        initiator_id: u64,
        session_id: String,
        min_participants: usize,
        require_all: bool,
    ) -> (s: ConsentSession)
        ensures
            s.guild_id == guild_id,
            s.channel_id == channel_id,
            s.text_channel_id == text_channel_id,
            s.initiator_id == initiator_id,
            s.session_id == session_id,
            s.state is AwaitingConsent,
            s.participants@ == Map::<u64, ParticipantConsent>::empty(),
            s.min_participants == min_participants,
            s.require_all == require_all,
            s.consent_message is None,
            s.license_followups@.len() == 0,
    {
        ConsentSession {
            guild_id,
            channel_id,
            text_channel_id,
            initiator_id,
            session_id,
            state: SessionState::AwaitingConsent,
            participants: HashMap::new(),
            min_participants,
            require_all,
            consent_message: None,
            license_followups: Vec::new(),
        }
    }

    /// `self` differs from `was` in its participants only.
    pub open spec fn differs_in_participants(&self, was: ConsentSession) -> bool {
        *self == (ConsentSession { participants: self.participants, ..was })
    }

    /// Ask one more user. Someone who is asked already stays as they are.
    pub fn add_participant(&mut self, user_id: u64, display_name: String, mid_session: bool)
        ensures
            final(self).differs_in_participants(*old(self)),
            final(self).participants@ == (if old(self).participants@.contains_key(user_id) {
                old(self).participants@
            } else {
                old(self).participants@.insert(
                    user_id,
                    ParticipantConsent {
                        user_id,
                        display_name,
                        scope: None,
                        consented_at: None,
                        mid_session_join: mid_session,
                    },
                )
            }),
    {
        if !self.participants.contains_key(&user_id) {
            self.participants.insert(
                user_id,
                ParticipantConsent {
                    user_id,
                    display_name,
                    scope: None,
                    consented_at: None,
                    mid_session_join: mid_session,
                },
            );
        }
    }

    /// The records after user `user_id` chose `scope` at `now`.
    pub open spec fn records_after_choice(
        &self,
        user_id: u64,
        scope: ConsentScope,
        now: Timestamp,
    ) -> Map<u64, ParticipantConsent> {
        if self.participants@.contains_key(user_id) {
            self.participants@.insert(
                user_id,
                ParticipantConsent {
                    scope: Some(scope),
                    consented_at: Some(now),
                    ..self.participants@[user_id]
                },
            )
        } else {
            self.participants@
        }
    }

    /// A user's choice at `now`. Unknown users are left out.
    pub fn record_consent_at(&mut self, user_id: u64, scope: ConsentScope, now: Timestamp)
        ensures
            final(self).differs_in_participants(*old(self)),
            final(self).participants@ == old(self).records_after_choice(user_id, scope, now),
    {
        match self.participants.remove(&user_id) {
            Some(p) => {
                let mut p = p;
                p.scope = Some(scope);
                p.consented_at = Some(now);
                self.participants.insert(user_id, p);
            },
            None => {},
        }
        assert(self.participants@ =~= old(self).records_after_choice(user_id, scope, now));
    }

    /// A user's choice at this moment. Unknown users are left out.
    pub fn record_consent(&mut self, user_id: u64, scope: ConsentScope)
        ensures
            final(self).differs_in_participants(*old(self)),
            exists|now: Timestamp|
                now.wf() && final(self).participants@ == #[trigger] old(self).records_after_choice(
                    user_id,
                    scope,
                    now,
                ),
    {
        let now = utc_now();
        self.record_consent_at(user_id, scope, now);
    }

    /// Forget a user who has not answered.
    pub fn remove_pending(&mut self, user_id: u64)
        ensures
            final(self).differs_in_participants(*old(self)),
            final(self).participants@ == (if old(self).participants@.contains_key(user_id)
                && old(self).participants@[user_id].scope is None {
                old(self).participants@.remove(user_id)
            } else {
                old(self).participants@
            }),
    {
        let pending = match self.participants.get(&user_id) {
            Some(p) => p.scope.is_none(),
            None => false,
        };
        if pending {
            self.participants.remove(&user_id);
        }
    }

    /// Whether every participant has answered.
    pub fn all_responded(&self) -> (b: bool)
        ensures
            b == everyone_answered(self.participants@),
    {
        all_responded(&self.participants)
    }

    /// Whether any participant declined altogether.
    pub fn has_decline(&self) -> (b: bool)
        ensures
            b == (choosers(self.participants@, Some(ConsentScope::Decline)).len() > 0),
    {
        has_decline(&self.participants)
    }

    /// The users who accepted, as their records name them, each record once.
    pub fn consented_user_ids(&self) -> (ids: Vec<u64>)
        ensures
            exists|order: Seq<u64>| #[trigger]
                enumerates(order, choosers(self.participants@, Some(ConsentScope::Full))) && ids@
                    == users_of(self.participants@, order),
            ids@.len() == choosers(self.participants@, Some(ConsentScope::Full)).len(),
    {
        ids_with(&self.participants, Some(ConsentScope::Full))
    }

    /// The users who have not answered, as their records name them, each record
    /// once.
    pub fn pending_user_ids(&self) -> (ids: Vec<u64>)
        ensures
            exists|order: Seq<u64>| #[trigger]
                enumerates(order, choosers(self.participants@, None)) && ids@ == users_of(
                    self.participants@,
                    order,
                ),
            ids@.len() == choosers(self.participants@, None).len(),
    {
        ids_with(&self.participants, None)
    }

    /// Whether enough participants accepted.
    pub fn evaluate_quorum(&self) -> (b: bool)
        ensures
            b == has_quorum(self.participants@, self.min_participants, self.require_all),
    {
        evaluate_quorum(&self.participants, self.min_participants, self.require_all)
    }
}

/// The consent sessions of all guilds, at most one for each.
pub struct ConsentManager {
    sessions: HashMap<u64, ConsentSession>,
}

impl ConsentManager {
    /// The sessions, by guild.
    pub closed spec fn sessions(&self) -> Map<u64, ConsentSession> {
        self.sessions@
    }

    pub fn new() -> (m: ConsentManager)
        ensures
            m.sessions() == Map::<u64, ConsentSession>::empty(),
    {
        ConsentManager { sessions: HashMap::new() }
    }

    /// Put a session in its guild's place, whatever was there.
    pub fn create_session(&mut self, session: ConsentSession)
        ensures
            final(self).sessions() == old(self).sessions().insert(session.guild_id, session),
    {
        self.sessions.insert(session.guild_id, session);
    }

    pub fn get_session(&self, guild_id: u64) -> (s: Option<&ConsentSession>)
        ensures
            match s {
                Some(s) => self.sessions().contains_key(guild_id) && *s == self.sessions()[guild_id],
                None => !self.sessions().contains_key(guild_id),
            },
    {
        self.sessions.get(&guild_id)
    }

    /// The session of a guild, to be changed in place.
    pub fn get_session_mut(&mut self, guild_id: u64) -> (s: Option<&mut ConsentSession>)
        ensures
            match s {
                Some(s) => {
                    &&& old(self).sessions().contains_key(guild_id)
                    &&& *s == old(self).sessions()[guild_id]
                    &&& final(self).sessions() == old(self).sessions().insert(guild_id, *final(s))
                },
                None => {
                    &&& !old(self).sessions().contains_key(guild_id)
                    &&& final(self).sessions() == old(self).sessions()
                },
            },
    {
        match self.sessions.entry(guild_id) {
            Entry::Occupied(e) => Some(e.into_mut()),
            Entry::Vacant(_) => None,
        }
    }

    pub fn remove_session(&mut self, guild_id: u64) -> (s: Option<ConsentSession>)
        ensures
            final(self).sessions() == old(self).sessions().remove(guild_id),
            match s {
                Some(s) => old(self).sessions().contains_key(guild_id) && s
                    == old(self).sessions()[guild_id],
                None => !old(self).sessions().contains_key(guild_id),
            },
    {
        self.sessions.remove(&guild_id)
    }

    /// Whether a guild has a session that is neither over nor called off.
    pub fn has_active_session(&self, guild_id: u64) -> (b: bool)
        ensures
            b == (self.sessions().contains_key(guild_id)
                && self.sessions()[guild_id].state.active()),
    {
        match self.sessions.get(&guild_id) {
            Some(s) => match s.state {
                SessionState::AwaitingConsent
                | SessionState::Recording
                | SessionState::Finalizing => true,
                SessionState::Complete | SessionState::Cancelled => false,
            },
            None => false,
        }
    }
}

} // verus!
