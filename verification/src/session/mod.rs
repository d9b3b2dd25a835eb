//! A recording session: who takes part, what they chose, and which phase the
//! session is in.

pub mod actor;
pub mod capture;
pub mod capture_laws;
pub mod drive;
pub mod gate;
pub mod gate_laws;
pub mod heal;
pub mod laws;
pub mod participant;
pub mod phases;
pub mod restart;
pub mod stabilization;

use crate::collect::{enumerates, lemma_take_next, map_keys};
use crate::ident::{format_uuid, random_uuid, uuid_of_text};
use crate::roll::{
    all_responded, choosers, consent_embed, consent_record, evaluate_quorum, everyone_answered,
    has_decline, has_quorum, holds_choices, ids_with, lemma_own_ids, session_meta, sums_up, users_of,
    ConsentEmbed,
};
use crate::storage::bundle;
use crate::storage::bundle::{ConsentRecord, SessionMeta};
use crate::text::owned;
use crate::time::{utc_now, Timestamp};
use std::collections::HashMap;
use vstd::prelude::*;

pub use participant::{ParticipantConsent, ParticipantState};
pub use phases::Phase;

verus! {

broadcast use vstd::std_specs::hash::group_hash_axioms;

/// What a participant chose when presented with the consent prompt.
#[derive(Debug, Clone, Copy, PartialEq, Eq, Structural)]
pub enum ConsentScope {
    Full,
    Decline,
}

impl ConsentScope {
    /// The state that a choice leads to.
    pub open spec fn state(self) -> ParticipantState {
        match self {
            ConsentScope::Full => ParticipantState::Accepted,
            ConsentScope::Decline => ParticipantState::Declined,
        }
    }

    /// The choice as it is stored.
    pub open spec fn stored(self) -> bundle::ConsentScope {
        match self {
            ConsentScope::Full => bundle::ConsentScope::Full,
            ConsentScope::Decline => bundle::ConsentScope::Decline,
        }
    }

    /// The word for a choice.
    pub open spec fn word(self) -> Seq<char> {
        match self {
            ConsentScope::Full => "full"@,
            ConsentScope::Decline => "decline"@,
        }
    }

    /// The word for a choice.
    pub fn label(self) -> (w: &'static str)
        ensures
            w@ == self.word(),
    {
        match self {
            ConsentScope::Full => "full",
            ConsentScope::Decline => "decline",
        }
    }
}

/// The choices, without the people.
pub open spec fn stored_scope(scope: Option<ConsentScope>) -> Option<bundle::ConsentScope> {
    match scope {
        Some(s) => Some(s.stored()),
        None => None,
    }
}

/// The text of the consent prompt.
pub const CONSENT_TEXT: &'static str = "This session will be recorded for the **Open Voice Project**.\n\nAudio capture starts immediately; chunks are cached locally until you respond.\n\nOn Accept your cached chunks flush to storage. On Decline they're deleted.";

/// A recording session. There is at most one per guild.
pub struct Session {
    pub id: String,
    pub guild_id: u64,
    pub phase: Phase,
    pub channel_id: u64,
    pub text_channel_id: u64,
    pub initiator_id: u64,
    pub participants: HashMap<u64, ParticipantConsent>,
    pub min_participants: usize,
    pub require_all: bool,
    pub started_at: Timestamp,
    pub ended_at: Option<Timestamp>,
    /// Channel and message of the consent prompt, for cleaning up.
    pub consent_message: Option<(u64, u64)>,
}

impl Session {
    /// Every instant lies in the calendar range, and every record stands under
    /// its own user id.
    pub open spec fn wf(&self) -> bool {
        &&& self.phase.wf()
        &&& self.started_at.wf()
        &&& self.ended_at is Some ==> self.ended_at->0.wf()
        &&& records_wf(self.participants@)
    }

    /// The participants who accepted.
    pub open spec fn accepters(&self) -> Set<u64> {
        choosers(self.participants@, Some(bundle::ConsentScope::Full))
    }

    /// The participants who declined.
    pub open spec fn decliners(&self) -> Set<u64> {
        choosers(self.participants@, Some(bundle::ConsentScope::Decline))
    }

    /// Every participant has answered.
    pub open spec fn everyone_answered(&self) -> bool {
        everyone_answered(self.participants@)
    }

    /// Enough participants accepted, and nobody declined if all have to accept.
    pub open spec fn quorum(&self) -> bool {
        has_quorum(self.participants@, self.min_participants, self.require_all)
    }

    /// `self` differs from `was` in its participants only.
    pub open spec fn differs_in_participants(&self, was: Session) -> bool {
        &&& self.id == was.id
        &&& self.guild_id == was.guild_id
        &&& self.phase == was.phase
        &&& self.channel_id == was.channel_id
        &&& self.text_channel_id == was.text_channel_id
        &&& self.initiator_id == was.initiator_id
        &&& self.min_participants == was.min_participants
        &&& self.require_all == was.require_all
        &&& self.started_at == was.started_at
        &&& self.ended_at == was.ended_at
        &&& self.consent_message == was.consent_message
    }

    /// A session under a given id that starts at `now`, without participants.
    pub fn with_identity(
        id: String,
        now: Timestamp,
        guild_id: u64,
        channel_id: u64,
        text_channel_id: u64,
        initiator_id: u64,
        min_participants: usize,
        require_all: bool,
    ) -> (s: Session)
        ensures
            s.id == id,
            s.guild_id == guild_id,
            s.phase == (Phase::AwaitingStabilization { entered_at: now }),
            s.channel_id == channel_id,
            s.text_channel_id == text_channel_id,
            s.initiator_id == initiator_id,
            s.participants@ == Map::<u64, ParticipantConsent>::empty(),
            s.min_participants == min_participants,
            s.require_all == require_all,
            s.started_at == now,
            s.ended_at is None,
            s.consent_message is None,
            now.wf() ==> s.wf(),
    {
        Session {
            id,
            guild_id,
            phase: Phase::AwaitingStabilization { entered_at: now },
            channel_id,
            text_channel_id,
            initiator_id,
            participants: HashMap::new(),
            min_participants,
            require_all,
            started_at: now,
            ended_at: None,
            consent_message: None,
        }
    }

    /// A session with a fresh random id that starts now, without participants.
    pub fn new(
        guild_id: u64,
        channel_id: u64,
        text_channel_id: u64,
        initiator_id: u64,
        min_participants: usize,
        require_all: bool,
    ) -> (s: Session)
        ensures
            uuid_of_text(s.id@) is Some,
            s.guild_id == guild_id,
            s.phase is AwaitingStabilization,
            s.channel_id == channel_id,
            s.text_channel_id == text_channel_id,
            s.initiator_id == initiator_id,
            s.participants@ == Map::<u64, ParticipantConsent>::empty(),
            s.min_participants == min_participants,
            s.require_all == require_all,
            s.ended_at is None,
            s.consent_message is None,
            s.wf(),
    {
        let id = format_uuid(random_uuid());
        Session::with_identity(
            id,
            utc_now(),
            guild_id,
            channel_id,
            text_channel_id,
            initiator_id,
            min_participants,
            require_all,
        )
    }

    /// The successor of a failed session, with a fresh random id, which starts now:
    /// a session with the given records, where whoever had not answered counts as
    /// having declined.
    pub fn new_carry_forward(
        guild_id: u64,
        channel_id: u64,
        text_channel_id: u64,
        initiator_id: u64,
        min_participants: usize,
        require_all: bool,
        carried: HashMap<u64, ParticipantConsent>,
    ) -> (s: Session)
        ensures
            uuid_of_text(s.id@) is Some,
            s.guild_id == guild_id,
            s.phase is AwaitingStabilization,
            s.channel_id == channel_id,
            s.text_channel_id == text_channel_id,
            s.initiator_id == initiator_id,
            s.participants@ == carried@.map_values(|p: ParticipantConsent| promoted(p)),
            s.min_participants == min_participants,
            s.require_all == require_all,
            s.ended_at is None,
            s.consent_message is None,
            records_wf(carried@) ==> s.wf(),
    {
        let id = format_uuid(random_uuid());
        Session::carry_forward_as(
            id,
            utc_now(),
            guild_id,
            channel_id,
            text_channel_id,
            initiator_id,
            min_participants,
            require_all,
            carried,
        )
    }

    /// The successor of a failed session under a given id, which starts at `now`:
    /// a session with the given records, where whoever had not answered counts as
    /// having declined.
    pub fn carry_forward_as(
        id: String,
        now: Timestamp,
        guild_id: u64,
        channel_id: u64,
        text_channel_id: u64,
        initiator_id: u64,
        min_participants: usize,
        require_all: bool,
        carried: HashMap<u64, ParticipantConsent>,
    ) -> (s: Session)
        ensures
            s.id == id,
            s.guild_id == guild_id,
            s.phase == (Phase::AwaitingStabilization { entered_at: now }),
            s.channel_id == channel_id,
            s.text_channel_id == text_channel_id,
            s.initiator_id == initiator_id,
            s.participants@ == carried@.map_values(|p: ParticipantConsent| promoted(p)),
            s.min_participants == min_participants,
            s.require_all == require_all,
            s.started_at == now,
            s.ended_at is None,
            s.consent_message is None,
            now.wf() && records_wf(carried@) ==> s.wf(),
    {
        let mut s = Session::with_identity(
            id,
            now,
            guild_id,
            channel_id,
            text_channel_id,
            initiator_id,
            min_participants,
            require_all,
        );
        let keys = map_keys(&carried);
        let ghost given = carried@;
        let mut rest = carried;
        let mut i: usize = 0;
        while i < keys.len()
            invariant
                0 <= i <= keys@.len(),
                enumerates(keys@, given.dom()),
                forall|k: u64| #[trigger]
                    rest@.contains_key(k) <==> given.contains_key(k) && !keys@.take(
                        i as int,
                    ).contains(k),
                forall|k: u64| #[trigger] rest@.contains_key(k) ==> rest@[k] == given[k],
                forall|k: u64| #[trigger]
                    s.participants@.contains_key(k) <==> keys@.take(i as int).contains(k),
                forall|k: u64| #[trigger]
                    s.participants@.contains_key(k) ==> s.participants@[k] == promoted(given[k]),
                s.id == id,
                s.guild_id == guild_id,
                s.phase == (Phase::AwaitingStabilization { entered_at: now }),
                s.channel_id == channel_id,
                s.text_channel_id == text_channel_id,
                s.initiator_id == initiator_id,
                s.min_participants == min_participants,
                s.require_all == require_all,
                s.started_at == now,
                s.ended_at is None,
                s.consent_message is None,
            decreases keys@.len() - i,
        {
            let k: u64 = keys[i];
            proof {
                assert(keys@.to_set().contains(keys@[i as int]));
                assert(given.contains_key(k));
                lemma_take_next(keys@, i as int);
            }
            match rest.remove(&k) {
                Some(p) => {
                    let mut p = p;
                    if p.scope.is_none() {
                        p.scope = Some(ConsentScope::Decline);
                        p.state = ParticipantState::Declined;
                    }
                    s.participants.insert(k, p);
                },
                None => {},
            }
            i = i + 1;
        }
        proof {
            assert(keys@.take(keys@.len() as int) =~= keys@);
            assert forall|k: u64| given.contains_key(k) implies s.participants@.contains_key(k) by {
                assert(keys@.to_set().contains(k));
            }
            assert forall|k: u64| s.participants@.contains_key(k) implies given.contains_key(k) by {
                assert(keys@.to_set().contains(k));
            }
            assert(s.participants@ =~= given.map_values(|p: ParticipantConsent| promoted(p)));
        }
        s
    }

    /// Enrol a user. Someone who is enrolled already stays as they are.
    pub fn add_participant(&mut self, user_id: u64, display_name: String, mid_session: bool)
        ensures
            final(self).differs_in_participants(*old(self)),
            old(self).participants@.contains_key(user_id) ==> final(self).participants@
                == old(self).participants@,
            !old(self).participants@.contains_key(user_id) ==> {
                &&& final(self).participants@ == old(self).participants@.insert(
                    user_id,
                    final(self).participants@[user_id],
                )
                &&& final(self).participants@[user_id].pending(user_id, display_name@, mid_session)
            },
            old(self).wf() ==> final(self).wf(),
    {
        if !self.participants.contains_key(&user_id) {
            let p = ParticipantConsent::new(user_id, display_name, mid_session);
            self.participants.insert(user_id, p);
            assert(self.participants@ =~= old(self).participants@.insert(
                user_id,
                self.participants@[user_id],
            ));
        }
    }

    /// Note the data API's row of a participant. Unknown users are left out.
    pub fn set_participant_uuid(&mut self, user_id: u64, pid: u128)
        ensures
            final(self).differs_in_participants(*old(self)),
            final(self).participants@ == (if old(self).participants@.contains_key(user_id) {
                old(self).participants@.insert(
                    user_id,
                    ParticipantConsent {
                        participant_uuid: Some(pid),
                        ..old(self).participants@[user_id]
                    },
                )
            } else {
                old(self).participants@
            }),
            old(self).wf() ==> final(self).wf(),
    {
        match self.participants.remove(&user_id) {
            Some(p) => {
                let mut p = p;
                p.participant_uuid = Some(pid);
                self.participants.insert(user_id, p);
            },
            None => {},
        }
        assert(self.participants@ =~= (if old(self).participants@.contains_key(user_id) {
            old(self).participants@.insert(
                user_id,
                ParticipantConsent {
                    participant_uuid: Some(pid),
                    ..old(self).participants@[user_id]
                },
            )
        } else {
            old(self).participants@
        }));
    }

    /// The data API's row of a user, as far as it is known.
    pub open spec fn row_of(&self, user_id: u64) -> Option<u128> {
        if self.participants@.contains_key(user_id) {
            self.participants@[user_id].participant_uuid
        } else {
            None
        }
    }

    /// The data API's row of a user, as far as it is known.
    pub fn participant_uuid(&self, user_id: u64) -> (pid: Option<u128>)
        ensures
            pid == self.row_of(user_id),
    {
        match self.participants.get(&user_id) {
            Some(p) => p.participant_uuid,
            None => None,
        }
    }

    /// The records after user `user_id` chose `scope` at `now`.
    pub open spec fn records_after_choice(
        &self,
        user_id: u64,
        scope: ConsentScope,
        now: Timestamp,
    ) -> Map<u64, ParticipantConsent> {
        if self.participants@.contains_key(user_id) {
            self.participants@.insert(
                user_id,
                ParticipantConsent {
                    scope: Some(scope),
                    consented_at: Some(now),
                    state: scope.state(),
                    ..self.participants@[user_id]
                },
            )
        } else {
            self.participants@
        }
    }

    /// A user's choice at `now`. Unknown users are left out.
    pub fn record_consent_at(&mut self, user_id: u64, scope: ConsentScope, now: Timestamp)
        ensures
            final(self).differs_in_participants(*old(self)),
            final(self).participants@ == old(self).records_after_choice(user_id, scope, now),
            old(self).wf() && now.wf() ==> final(self).wf(),
    {
        match self.participants.remove(&user_id) {
            Some(p) => {
                let mut p = p;
                p.scope = Some(scope);
                p.consented_at = Some(now);
                p.state = match scope {
                    ConsentScope::Full => ParticipantState::Accepted,
                    ConsentScope::Decline => ParticipantState::Declined,
                };
                self.participants.insert(user_id, p);
            },
            None => {},
        }
        assert(self.participants@ =~= old(self).records_after_choice(user_id, scope, now));
    }

    /// A user's choice at this moment. Unknown users are left out.
    pub fn record_consent(&mut self, user_id: u64, scope: ConsentScope)
        ensures
            final(self).differs_in_participants(*old(self)),
            exists|now: Timestamp|
                now.wf() && final(self).participants@ == #[trigger] old(self).records_after_choice(
                    user_id,
                    scope,
                    now,
                ),
            old(self).wf() ==> final(self).wf(),
    {
        let now = utc_now();
        self.record_consent_at(user_id, scope, now);
    }

    /// Whether every participant has answered.
    pub fn all_responded(&self) -> (b: bool)
        ensures
            b == self.everyone_answered(),
    {
        all_responded(&self.participants)
    }

    /// Whether any participant declined.
    pub fn has_decline(&self) -> (b: bool)
        ensures
            b == (self.decliners().len() > 0),
    {
        has_decline(&self.participants)
    }

    /// The users who accepted, as their records name them, each record once.
    pub fn consented_user_ids(&self) -> (ids: Vec<u64>)
        ensures
            exists|order: Seq<u64>| #[trigger]
                enumerates(order, self.accepters()) && ids@ == users_of(self.participants@, order),
            ids@.len() == self.accepters().len(),
            self.wf() ==> enumerates(ids@, self.accepters()),
    {
        let ids = ids_with(&self.participants, Some(bundle::ConsentScope::Full));
        proof {
            let accepters = choosers(self.participants@, Some(bundle::ConsentScope::Full));
            let order = choose|order: Seq<u64>| #[trigger]
                enumerates(order, accepters) && ids@ == users_of(self.participants@, order);
            assert(enumerates(order, self.accepters()));
            if self.wf() {
                lemma_own_ids(self.participants@, order);
            }
        }
        ids
    }

    /// Whether enough participants accepted.
    pub fn evaluate_quorum(&self) -> (b: bool)
        ensures
            b == self.quorum(),
    {
        evaluate_quorum(&self.participants, self.min_participants, self.require_all)
    }

    /// The consent prompt as it stands.
    pub fn consent_embed(&self) -> (e: ConsentEmbed)
        ensures
            e.asks(CONSENT_TEXT@, self.participants@),
    {
        consent_embed(CONSENT_TEXT, &self.participants)
    }
}

/// Every record stands under its own user id, with an instant in range.
pub open spec fn records_wf(m: Map<u64, ParticipantConsent>) -> bool {
    forall|k: u64| #[trigger]
        m.contains_key(k) ==> m[k].user_id == k && (m[k].consented_at is Some
            ==> m[k].consented_at->0.wf())
}

/// A carried record: no answer counts as a decline.
pub open spec fn promoted(p: ParticipantConsent) -> ParticipantConsent {
    if p.scope is None {
        ParticipantConsent {
            scope: Some(ConsentScope::Decline),
            state: ParticipantState::Declined,
            ..p
        }
    } else {
        p
    }
}

impl Session {
    /// `meta` describes the session.
    pub open spec fn summed_up_by(&self, meta: SessionMeta) -> bool {
        sums_up(meta, self.id@, self.started_at, self.ended_at, self.participants@)
    }

    /// `r` holds the choices of the session.
    pub open spec fn choices_in(&self, r: ConsentRecord) -> bool {
        holds_choices(r, self.id@, self.participants@)
    }

    /// What `meta.json` says of the session.
    pub fn meta(&self) -> (meta: SessionMeta)
        requires
            self.wf(),
        ensures
            self.summed_up_by(meta),
    {
        session_meta(self.id.as_str(), self.started_at, self.ended_at, &self.participants)
    }

    /// What `consent.json` says of the session.
    pub fn consent_record(&self) -> (r: ConsentRecord)
        requires
            self.wf(),
        ensures
            self.choices_in(r),
    {
        consent_record(self.id.as_str(), &self.participants)
    }
}

/// How a button looks.
#[derive(Debug, Clone, Copy, PartialEq, Eq, Structural)]
pub enum ButtonLook {
    Success,
    Danger,
    Secondary,
}

/// A button under a message.
pub struct Button {
    pub custom_id: String,
    pub label: String,
    pub look: ButtonLook,
}

impl Button {
    pub open spec fn reads(self, custom_id: Seq<char>, label: Seq<char>, look: ButtonLook) -> bool {
        self.custom_id@ == custom_id && self.label@ == label && self.look == look
    }

    pub fn new(custom_id: &str, label: &str, look: ButtonLook) -> (b: Button)
        ensures
            b.reads(custom_id@, label@, look),
    {
        Button { custom_id: owned(custom_id), label: owned(label), look }
    }
}

/// The Accept and Decline buttons.
pub fn consent_buttons() -> (row: Vec<Button>)
    ensures
        row@.len() == 2,
        row@[0].reads("consent_accept"@, "Accept"@, ButtonLook::Success),
        row@[1].reads("consent_decline"@, "Decline"@, ButtonLook::Danger),
{
    let mut row: Vec<Button> = Vec::new();
    row.push(Button::new("consent_accept", "Accept", ButtonLook::Success));
    row.push(Button::new("consent_decline", "Decline", ButtonLook::Danger));
    row
}

} // verus!
