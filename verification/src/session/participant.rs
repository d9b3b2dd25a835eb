//! What is known of one participant's consent.

use crate::roll::Record;
use crate::session::{stored_scope, ConsentScope};
use crate::storage::bundle;
use crate::text::owned;
use crate::time::Timestamp;
use vstd::prelude::*;

verus! {

/// Where a participant stands:
///
/// ```text
///   Pending
///     |
///     +--(Accept click)--> Accepted
///     +--(Decline click, or no answer by the end)--> Declined
/// ```
#[derive(Debug, Clone, Copy, PartialEq, Eq, Structural)]
pub enum ParticipantState {
    /// Chunks are cached on disk awaiting a click. What is cached when the
    /// stabilization gate opens is flushed all the same.
    Pending,
    /// The cache was flushed, or will be; live audio goes to the data API.
    Accepted,
    /// The cache is deleted and the pipeline dropped.
    Declined,
}

/// One participant's consent record.
#[derive(Debug)]
pub struct ParticipantConsent {
    pub user_id: u64,
    pub display_name: String,
    pub scope: Option<ConsentScope>,
    pub consented_at: Option<Timestamp>,
    pub mid_session_join: bool,
    /// The participant's row in the data API, once there is one.
    pub participant_uuid: Option<u128>,
    pub state: ParticipantState,
}

impl Record for ParticipantConsent {
    open spec fn user(&self) -> u64 {
        self.user_id
    }

    open spec fn name(&self) -> Seq<char> {
        self.display_name@
    }

    open spec fn choice(&self) -> Option<bundle::ConsentScope> {
        stored_scope(self.scope)
    }

    open spec fn chosen_at(&self) -> Option<Timestamp> {
        self.consented_at
    }

    open spec fn joined_late(&self) -> bool {
        self.mid_session_join
    }

    fn user_ref(&self) -> (u: u64) {
        self.user_id
    }

    fn name_ref(&self) -> (n: &str) {
        self.display_name.as_str()
    }

    fn choice_ref(&self) -> (c: Option<bundle::ConsentScope>) {
        match self.scope {
            Some(ConsentScope::Full) => Some(bundle::ConsentScope::Full),
            Some(ConsentScope::Decline) => Some(bundle::ConsentScope::Decline),
            None => None,
        }
    }

    fn chosen_at_ref(&self) -> (t: Option<Timestamp>) {
        self.consented_at
    }

    fn joined_late_ref(&self) -> (b: bool) {
        self.mid_session_join
    }
}

impl ParticipantConsent {
    /// A participant who has not answered yet.
    pub open spec fn pending(self, user_id: u64, name: Seq<char>, mid_session_join: bool) -> bool {
        &&& self.user_id == user_id
        &&& self.display_name@ == name
        &&& self.scope is None
        &&& self.consented_at is None
        &&& self.mid_session_join == mid_session_join
        &&& self.participant_uuid is None
        &&& self.state is Pending
    }

    /// `other` is an equal record.
    pub open spec fn same(self, other: ParticipantConsent) -> bool {
        &&& self.user_id == other.user_id
        &&& self.display_name@ == other.display_name@
        &&& self.scope == other.scope
        &&& self.consented_at == other.consented_at
        &&& self.mid_session_join == other.mid_session_join
        &&& self.participant_uuid == other.participant_uuid
        &&& self.state == other.state
    }

    /// A participant who has not answered yet.
    pub fn new(user_id: u64, display_name: String, mid_session_join: bool) -> (p: ParticipantConsent)
        ensures
            p == (ParticipantConsent {
                user_id,
                display_name,
                scope: None,
                consented_at: None,
                mid_session_join,
                participant_uuid: None,
                state: ParticipantState::Pending,
            }),
            p.pending(user_id, display_name@, mid_session_join),
    {
        ParticipantConsent {
            user_id,
            display_name,
            scope: None,
            consented_at: None,
            mid_session_join,
            participant_uuid: None,
            state: ParticipantState::Pending,
        }
    }

    /// An equal record.
    pub fn duplicate(&self) -> (p: ParticipantConsent)
        ensures
            p.same(*self),
    {
        ParticipantConsent {
            user_id: self.user_id,
            display_name: owned(self.display_name.as_str()),
            scope: self.scope,
            consented_at: self.consented_at,
            mid_session_join: self.mid_session_join,
            participant_uuid: self.participant_uuid,
            state: self.state,
        }
    }
}

} // verus!
