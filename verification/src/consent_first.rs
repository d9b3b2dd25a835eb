//! Sessions that record only once everyone was asked.
//!
//! ```text
//!   AwaitingConsent
//!     |  quorum met
//!     v
//!   StartingRecording --- stopped, or no audio ---> Cancelled
//!     |  audio confirmed
//!     v
//!   Recording
//!     |  stopped
//!     v
//!   Finalizing ---> Complete
//! ```
//!
//! A change of phase is how a session is called off: whoever works on its startup
//! sees the new phase and gives up.

use crate::collect::enumerates;
use crate::ident::{format_uuid, parse_uuid, random_uuid, uuid_of_text};
use crate::roll::{
    all_responded, choosers, consent_embed, consent_record, evaluate_quorum, everyone_answered,
    has_decline, has_quorum, holds_choices, ids_with, instants_wf, session_meta, sums_up, users_of,
    ConsentEmbed, Record,
};
use crate::storage::bundle;
use crate::storage::bundle::{ConsentRecord, SessionMeta};
use crate::time::{utc_now, Timestamp};
use std::collections::hash_map::Entry;
use std::collections::{HashMap, HashSet};
use vstd::prelude::*;

pub use crate::session::consent_buttons;

verus! {

broadcast use vstd::std_specs::hash::group_hash_axioms;

/// What a participant chose when presented with the consent prompt.
#[derive(Debug, Clone, Copy, PartialEq, Eq, Structural)]
pub enum ConsentScope {
    /// Audio may be captured and released.
    Full,
    /// Nothing may be recorded.
    Decline,
}

/// A choice as it is stored.
pub open spec fn stored_scope(scope: Option<ConsentScope>) -> Option<bundle::ConsentScope> {
    match scope {
        Some(ConsentScope::Full) => Some(bundle::ConsentScope::Full),
        Some(ConsentScope::Decline) => Some(bundle::ConsentScope::Decline),
        None => None,
    }
}

/// One participant's consent record.
#[derive(Debug)]
pub struct ParticipantConsent {
    pub user_id: u64,
    pub display_name: String,
    pub scope: Option<ConsentScope>,
    pub consented_at: Option<Timestamp>,
    pub mid_session_join: bool,
    /// The participant's row in the data API, once it is known.
    pub participant_uuid: Option<u128>,
    /// The license flags as the data API last told them.
    pub no_llm_training: bool,
    pub no_public_release: bool,
}

impl Record for ParticipantConsent {
    open spec fn user(&self) -> u64 {
        self.user_id
    }

    open spec fn name(&self) -> Seq<char> {
        self.display_name@
    }

    open spec fn choice(&self) -> Option<bundle::ConsentScope> {
        stored_scope(self.scope)
    }

    open spec fn chosen_at(&self) -> Option<Timestamp> {
        self.consented_at
    }

    open spec fn joined_late(&self) -> bool {
        self.mid_session_join
    }

    fn user_ref(&self) -> (u: u64) {
        self.user_id
    }

    fn name_ref(&self) -> (n: &str) {
        self.display_name.as_str()
    }

    fn choice_ref(&self) -> (c: Option<bundle::ConsentScope>) {
        match self.scope {
            Some(ConsentScope::Full) => Some(bundle::ConsentScope::Full),
            Some(ConsentScope::Decline) => Some(bundle::ConsentScope::Decline),
            None => None,
        }
    }

    fn chosen_at_ref(&self) -> (t: Option<Timestamp>) {
        self.consented_at
    }

    fn joined_late_ref(&self) -> (b: bool) {
        self.mid_session_join
    }
}

/// What is known of the audio of a session that starts or records.
pub struct RecordingPipeline {
    /// Who speaks on which SSRC.
    pub ssrc_map: HashMap<u32, u64>,
    /// The users whose audio may be captured.
    pub consented_users: HashSet<u64>,
    /// The SSRCs on which decoded audio was heard.
    pub ssrcs_seen: HashSet<u32>,
}

/// The phase of a session.
pub enum Phase {
    /// Participants are still being asked.
    AwaitingConsent,
    /// The quorum is met and the channel joined; no audio has come yet.
    StartingRecording(RecordingPipeline),
    /// Audio flows.
    Recording(RecordingPipeline),
    /// The recording was stopped and is being wound up.
    Finalizing,
    /// The session was stopped before any audio came.
    Cancelled,
    /// The session is about to be removed.
    Complete,
}

impl Phase {
    pub open spec fn stoppable(self) -> bool {
        self is AwaitingConsent || self is StartingRecording || self is Recording
    }

    /// The audio pipeline, in the phases that have one.
    pub open spec fn pipeline(self) -> Option<RecordingPipeline> {
        match self {
            Phase::StartingRecording(p) => Some(p),
            Phase::Recording(p) => Some(p),
            _ => None,
        }
    }

    /// Whether `/stop` can act on the session.
    pub fn is_stoppable(&self) -> (b: bool)
        ensures
            b == self.stoppable(),
    {
        match self {
            Phase::AwaitingConsent => true,
            Phase::StartingRecording(_) => true,
            Phase::Recording(_) => true,
            _ => false,
        }
    }

    /// Whether the session is on its way out.
    pub fn is_terminal(&self) -> (b: bool)
        ensures
            b == (self is Finalizing || self is Cancelled || self is Complete),
            b == !self.stoppable(),
    {
        match self {
            Phase::Finalizing => true,
            Phase::Cancelled => true,
            Phase::Complete => true,
            _ => false,
        }
    }
}

/// The text of the consent prompt.
pub const CONSENT_TEXT: &'static str = "This session will be recorded for the **Open Voice Project**.\n\nAfter accepting, you can set restrictions on how your audio is used.\n\nYou can decline without leaving the voice channel.";

/// A recording session. There is at most one per guild. Background tasks are
/// known by number.
pub struct Session {
    pub id: String,
    pub guild_id: u64,
    pub phase: Phase,
    pub channel_id: u64,
    pub text_channel_id: u64,
    pub initiator_id: u64,
    pub participants: HashMap<u64, ParticipantConsent>,
    pub min_participants: usize,
    pub require_all: bool,
    pub started_at: Timestamp,
    pub ended_at: Option<Timestamp>,
    /// Channel and message of the consent prompt, for cleaning up.
    pub consent_message: Option<(u64, u64)>,
    /// Tokens and messages of the license followups, for cleaning up.
    pub license_followups: Vec<(String, u64)>,
    /// The tasks that take the license buttons away.
    pub license_cleanup_tasks: Vec<u64>,
    /// The auto-stop timer, while one runs.
    pub auto_stop_task: Option<u64>,
    /// Whether decoded audio has come.
    pub audio_received: bool,
    /// Whether the connection has settled.
    pub recording_stable: bool,
}

impl Session {
    /// Every instant lies in the calendar range.
    pub open spec fn wf(&self) -> bool {
        &&& self.started_at.wf()
        &&& self.ended_at is Some ==> self.ended_at->0.wf()
        &&& instants_wf(self.participants@)
    }

    /// `self` differs from `was` in its participants only.
    pub open spec fn differs_in_participants(&self, was: Session) -> bool {
        *self == (Session { participants: self.participants, ..was })
    }

    /// A session with a fresh random id that starts now, without participants.
    pub fn new(
        guild_id: u64,
        channel_id: u64,
        text_channel_id: u64,
        initiator_id: u64,
        min_participants: usize,
        require_all: bool,
    ) -> (s: Session)
        ensures
            s.wf(),
            uuid_of_text(s.id@) is Some,
            s.guild_id == guild_id,
            s.phase is AwaitingConsent,
            s.channel_id == channel_id,
            s.text_channel_id == text_channel_id,
            s.initiator_id == initiator_id,
            s.participants@ == Map::<u64, ParticipantConsent>::empty(),
            s.min_participants == min_participants,
            s.require_all == require_all,
            s.ended_at is None,
            s.consent_message is None,
            s.license_followups@.len() == 0,
            s.license_cleanup_tasks@.len() == 0,
            s.auto_stop_task is None,
            !s.audio_received,
            !s.recording_stable,
    {
        Session {
            id: format_uuid(random_uuid()),
            guild_id,
            phase: Phase::AwaitingConsent,
            channel_id,
            text_channel_id,
            initiator_id,
            participants: HashMap::new(),
            min_participants,
            require_all,
            started_at: utc_now(),
            ended_at: None,
            consent_message: None,
            license_followups: Vec::new(),
            license_cleanup_tasks: Vec::new(),
            auto_stop_task: None,
            audio_received: false,
            recording_stable: false,
        }
    }

    /// Give up the auto-stop timer. The task to abort, if there is one.
    pub fn abort_auto_stop(&mut self) -> (task: Option<u64>)
        ensures
            task == old(self).auto_stop_task,
            *final(self) == (Session { auto_stop_task: None, ..*old(self) }),
    {
        let task = self.auto_stop_task;
        self.auto_stop_task = None;
        task
    }

    /// Ask one more user. Someone who is asked already stays as they are.
    pub fn add_participant(&mut self, user_id: u64, display_name: String, mid_session: bool)
        ensures
            final(self).differs_in_participants(*old(self)),
            final(self).participants@ == (if old(self).participants@.contains_key(user_id) {
                old(self).participants@
            } else {
                old(self).participants@.insert(
                    user_id,
                    ParticipantConsent {
                        user_id,
                        display_name,
                        scope: None,
                        consented_at: None,
                        mid_session_join: mid_session,
                        participant_uuid: None,
                        no_llm_training: false,
                        no_public_release: false,
                    },
                )
            }),
            old(self).wf() ==> final(self).wf(),
    {
        if !self.participants.contains_key(&user_id) {
            self.participants.insert(
                user_id,
                ParticipantConsent {
                    user_id,
                    display_name,
                    scope: None,
                    consented_at: None,
                    mid_session_join: mid_session,
                    participant_uuid: None,
                    no_llm_training: false,
                    no_public_release: false,
                },
            );
        }
    }

    /// The records with `p` in place of the one of `user_id`, if there is one.
    pub open spec fn records_with(&self, user_id: u64, p: ParticipantConsent) -> Map<
        u64,
        ParticipantConsent,
    > {
        if self.participants@.contains_key(user_id) {
            self.participants@.insert(user_id, p)
        } else {
            self.participants@
        }
    }

    /// Note the license flags of a participant. Unknown users are left out.
    pub fn set_license_flags(&mut self, user_id: u64, no_llm_training: bool, no_public_release: bool)
        ensures
            final(self).differs_in_participants(*old(self)),
            final(self).participants@ == old(self).records_with(
                user_id,
                ParticipantConsent {
                    no_llm_training,
                    no_public_release,
                    ..old(self).participants@[user_id]
                },
            ),
            old(self).wf() ==> final(self).wf(),
    {
        if let Entry::Occupied(mut e) = self.participants.entry(user_id) {
            let p = e.get_mut();
            p.no_llm_training = no_llm_training;
            p.no_public_release = no_public_release;
        }
        assert(self.participants@ =~= old(self).records_with(
            user_id,
            ParticipantConsent {
                no_llm_training,
                no_public_release,
                ..old(self).participants@[user_id]
            },
        ));
    }

    /// The license flags of a user; unset for unknown ones.
    pub fn license_flags(&self, user_id: u64) -> (flags: (bool, bool))
        ensures
            flags == flags_of(self.participants@, user_id),
    {
        match self.participants.get(&user_id) {
            Some(p) => (p.no_llm_training, p.no_public_release),
            None => (false, false),
        }
    }

    /// The records after user `user_id` chose `scope` at `now`.
    pub open spec fn records_after_choice(
        &self,
        user_id: u64,
        scope: ConsentScope,
        now: Timestamp,
    ) -> Map<u64, ParticipantConsent> {
        self.records_with(
            user_id,
            ParticipantConsent {
                scope: Some(scope),
                consented_at: Some(now),
                ..self.participants@[user_id]
            },
        )
    }

    /// A user's choice at `now`. Unknown users are left out.
    pub fn record_consent_at(&mut self, user_id: u64, scope: ConsentScope, now: Timestamp)
        ensures
            final(self).differs_in_participants(*old(self)),
            final(self).participants@ == old(self).records_after_choice(user_id, scope, now),
            old(self).wf() && now.wf() ==> final(self).wf(),
    {
        if let Entry::Occupied(mut e) = self.participants.entry(user_id) {
            let p = e.get_mut();
            p.scope = Some(scope);
            p.consented_at = Some(now);
        }
        assert(self.participants@ =~= old(self).records_after_choice(user_id, scope, now));
    }

    /// A user's choice at this moment. Unknown users are left out.
    pub fn record_consent(&mut self, user_id: u64, scope: ConsentScope)
        ensures
            final(self).differs_in_participants(*old(self)),
            exists|now: Timestamp|
                now.wf() && final(self).participants@ == #[trigger] old(self).records_after_choice(
                    user_id,
                    scope,
                    now,
                ),
            old(self).wf() ==> final(self).wf(),
    {
        let now = utc_now();
        self.record_consent_at(user_id, scope, now);
    }

    /// Note the data API's row of a participant. Unknown users are left out.
    pub fn set_participant_uuid(&mut self, user_id: u64, participant_uuid: u128)
        ensures
            final(self).differs_in_participants(*old(self)),
            final(self).participants@ == old(self).records_with(
                user_id,
                ParticipantConsent {
                    participant_uuid: Some(participant_uuid),
                    ..old(self).participants@[user_id]
                },
            ),
            old(self).wf() ==> final(self).wf(),
    {
        if let Entry::Occupied(mut e) = self.participants.entry(user_id) {
            let p = e.get_mut();
            p.participant_uuid = Some(participant_uuid);
        }
        assert(self.participants@ =~= old(self).records_with(
            user_id,
            ParticipantConsent {
                participant_uuid: Some(participant_uuid),
                ..old(self).participants@[user_id]
            },
        ));
    }

    /// The data API's row of a user, as far as it is known.
    pub fn participant_uuid(&self, user_id: u64) -> (pid: Option<u128>)
        ensures
            pid == row_of(self.participants@, user_id),
    {
        match self.participants.get(&user_id) {
            Some(p) => p.participant_uuid,
            None => None,
        }
    }

    /// Whether every participant has answered.
    pub fn all_responded(&self) -> (b: bool)
        ensures
            b == everyone_answered(self.participants@),
    {
        all_responded(&self.participants)
    }

    /// Whether any participant declined.
    pub fn has_decline(&self) -> (b: bool)
        ensures
            b == (choosers(self.participants@, Some(bundle::ConsentScope::Decline)).len() > 0),
    {
        has_decline(&self.participants)
    }

    /// The participants who accepted.
    pub open spec fn accepters(&self) -> Set<u64> {
        choosers(self.participants@, Some(bundle::ConsentScope::Full))
    }

    /// The users who accepted, as their records name them, each record once.
    pub fn consented_user_ids(&self) -> (ids: Vec<u64>)
        ensures
            exists|order: Seq<u64>| #[trigger]
                enumerates(order, self.accepters()) && ids@ == users_of(self.participants@, order),
            ids@.len() == self.accepters().len(),
    {
        let ids = ids_with(&self.participants, Some(bundle::ConsentScope::Full));
        proof {
            let accepters = choosers(self.participants@, Some(bundle::ConsentScope::Full));
            let order = choose|order: Seq<u64>| #[trigger]
                enumerates(order, accepters) && ids@ == users_of(self.participants@, order);
            assert(enumerates(order, self.accepters()));
        }
        ids
    }

    /// Whether enough participants accepted.
    pub fn evaluate_quorum(&self) -> (b: bool)
        ensures
            b == has_quorum(self.participants@, self.min_participants, self.require_all),
    {
        evaluate_quorum(&self.participants, self.min_participants, self.require_all)
    }

    /// The quorum is met and the channel joined: the audio pipeline is made for
    /// those who accepted. The session's row; without one nothing changes.
    pub fn begin_startup(&mut self) -> (row: Option<u128>)
        ensures
            row == uuid_of_text(old(self).id@),
            row is None ==> *final(self) == *old(self),
            row is Some ==> {
                &&& *final(self) == (Session { phase: final(self).phase, ..*old(self) })
                &&& final(self).phase matches Phase::StartingRecording(p) && {
                    &&& p.ssrc_map@ == Map::<u32, u64>::empty()
                    &&& p.ssrcs_seen@ == Set::<u32>::empty()
                    &&& exists|order: Seq<u64>| #[trigger]
                        enumerates(order, old(self).accepters()) && p.consented_users@ == users_of(
                            old(self).participants@,
                            order,
                        ).to_set()
                }
            },
    {
        match parse_uuid(self.id.as_str()) {
            Err(_) => None,
            Ok(row) => {
                let ids = self.consented_user_ids();
                let mut consented_users: HashSet<u64> = HashSet::new();
                let mut i: usize = 0;
                assert(consented_users@ =~= ids@.take(0).to_set());
                while i < ids.len()
                    invariant
                        0 <= i <= ids@.len(),
                        consented_users@ == ids@.take(i as int).to_set(),
                    decreases ids@.len() - i,
                {
                    proof {
                        crate::collect::lemma_take_next(ids@, i as int);
                    }
                    consented_users.insert(ids[i]);
                    i = i + 1;
                }
                assert(ids@.take(ids@.len() as int) =~= ids@);
                self.phase = Phase::StartingRecording(
                    RecordingPipeline {
                        ssrc_map: HashMap::new(),
                        consented_users,
                        ssrcs_seen: HashSet::new(),
                    },
                );
                Some(row)
            },
        }
    }

    /// Audio has come: a session that was starting records. In any other phase
    /// nothing changes.
    pub fn confirm_recording(&mut self)
        ensures
            *final(self) == (Session {
                phase: match old(self).phase {
                    Phase::StartingRecording(p) => Phase::Recording(p),
                    other => other,
                },
                ..*old(self)
            }),
    {
        let mut current = Phase::AwaitingConsent;
        std::mem::swap(&mut self.phase, &mut current);
        self.phase = match current {
            Phase::StartingRecording(data) => Phase::Recording(data),
            other => other,
        };
    }

    /// The channel was joined anew, while the session starts or when a recording
    /// is healed: nobody's SSRC is known yet. Whether there is a pipeline to listen
    /// with; if not, nothing changes.
    pub fn reattach_audio(&mut self) -> (attached: bool)
        ensures
            attached == (old(self).phase.pipeline() is Some),
            !attached ==> *final(self) == *old(self),
            attached ==> {
                let was = old(self).phase.pipeline()->0;
                &&& *final(self) == (Session { phase: final(self).phase, ..*old(self) })
                &&& final(self).phase is Recording == old(self).phase is Recording
                &&& final(self).phase.pipeline() matches Some(p) && {
                    &&& p.ssrc_map@ == Map::<u32, u64>::empty()
                    &&& p.consented_users == was.consented_users
                    &&& p.ssrcs_seen == was.ssrcs_seen
                }
            },
    {
        match &mut self.phase {
            Phase::StartingRecording(data) => {
                data.ssrc_map = HashMap::new();
                true
            },
            Phase::Recording(data) => {
                data.ssrc_map = HashMap::new();
                true
            },
            _ => false,
        }
    }

    /// Whether decoded audio has come.
    pub fn has_audio(&self) -> (b: bool)
        ensures
            b == self.audio_received,
    {
        self.audio_received
    }

    /// Whether the connection has settled.
    pub fn is_stable(&self) -> (b: bool)
        ensures
            b == self.recording_stable,
    {
        self.recording_stable
    }

    /// Whether anybody's SSRC is known.
    pub fn has_ssrc(&self) -> (b: bool)
        ensures
            b == (self.phase.pipeline() matches Some(p) && p.ssrc_map@.len() > 0),
    {
        match &self.phase {
            Phase::StartingRecording(data) => data.ssrc_map.len() > 0,
            Phase::Recording(data) => data.ssrc_map.len() > 0,
            _ => false,
        }
    }

    /// The session is stopped at `now`. Whether there is a pipeline to shut down.
    pub fn finalize(&mut self, now: Timestamp) -> (shut_down: bool)
        ensures
            shut_down == (old(self).phase.pipeline() is Some),
            *final(self) == (Session {
                phase: Phase::Finalizing,
                ended_at: Some(now),
                ..*old(self)
            }),
            old(self).wf() && now.wf() ==> final(self).wf(),
    {
        self.ended_at = Some(now);
        let shut_down = match &self.phase {
            Phase::Recording(_) => true,
            Phase::StartingRecording(_) => true,
            _ => false,
        };
        self.phase = Phase::Finalizing;
        shut_down
    }

    /// The session is called off at `now`, before it recorded. Whether there is a
    /// pipeline to shut down.
    pub fn cancel_startup(&mut self, now: Timestamp) -> (shut_down: bool)
        ensures
            shut_down == (old(self).phase is StartingRecording),
            *final(self) == (Session {
                phase: Phase::Cancelled,
                ended_at: Some(now),
                ..*old(self)
            }),
            old(self).wf() && now.wf() ==> final(self).wf(),
    {
        self.ended_at = Some(now);
        let shut_down = match &self.phase {
            Phase::StartingRecording(_) => true,
            _ => false,
        };
        self.phase = Phase::Cancelled;
        shut_down
    }

    /// Everything is uploaded.
    pub fn complete(&mut self)
        ensures
            *final(self) == (Session { phase: Phase::Complete, ..*old(self) }),
    {
        self.phase = Phase::Complete;
    }

    /// Give up the tasks that take the license buttons away. The tasks to abort.
    pub fn abort_license_cleanups(&mut self) -> (tasks: Vec<u64>)
        ensures
            tasks@ == old(self).license_cleanup_tasks@,
            final(self).license_cleanup_tasks@.len() == 0,
            *final(self) == (Session {
                license_cleanup_tasks: final(self).license_cleanup_tasks,
                ..*old(self)
            }),
    {
        let mut tasks: Vec<u64> = Vec::new();
        std::mem::swap(&mut self.license_cleanup_tasks, &mut tasks);
        tasks
    }

    /// Give up every background task. The tasks to abort.
    pub fn abort_all_background_tasks(&mut self) -> (tasks: Vec<u64>)
        ensures
            tasks@ == (match old(self).auto_stop_task {
                Some(t) => old(self).license_cleanup_tasks@.push(t),
                None => old(self).license_cleanup_tasks@,
            }),
            final(self).license_cleanup_tasks@.len() == 0,
            *final(self) == (Session {
                license_cleanup_tasks: final(self).license_cleanup_tasks,
                auto_stop_task: None,
                ..*old(self)
            }),
    {
        let mut tasks = self.abort_license_cleanups();
        match self.abort_auto_stop() {
            Some(t) => {
                tasks.push(t);
            },
            None => {},
        }
        tasks
    }

    /// The consent prompt as it stands.
    pub fn consent_embed(&self) -> (e: ConsentEmbed)
        ensures
            e.asks(CONSENT_TEXT@, self.participants@),
    {
        consent_embed(CONSENT_TEXT, &self.participants)
    }

    /// What `meta.json` says of the session.
    pub fn meta(&self) -> (meta: SessionMeta)
        requires
            self.wf(),
        ensures
            sums_up(meta, self.id@, self.started_at, self.ended_at, self.participants@),
    {
        session_meta(self.id.as_str(), self.started_at, self.ended_at, &self.participants)
    }

    /// What `consent.json` says of the session.
    pub fn consent_record(&self) -> (r: ConsentRecord)
        requires
            self.wf(),
        ensures
            holds_choices(r, self.id@, self.participants@),
    {
        consent_record(self.id.as_str(), &self.participants)
    }
}

/// The license flags of a user; unset for unknown ones.
pub open spec fn flags_of(m: Map<u64, ParticipantConsent>, user_id: u64) -> (bool, bool) {
    if m.contains_key(user_id) {
        (m[user_id].no_llm_training, m[user_id].no_public_release)
    } else {
        (false, false)
    }
}

/// The data API's row of a user, as far as it is known.
pub open spec fn row_of(m: Map<u64, ParticipantConsent>, user_id: u64) -> Option<u128> {
    if m.contains_key(user_id) {
        m[user_id].participant_uuid
    } else {
        None
    }
}

/// What is noted of a participant reads back: flags and row. Of other users
/// nothing changes, and nobody is added.
pub proof fn law_notes_read_back(s: Session, user: u64, other: u64, flags: (bool, bool), row: u128)
    requires
        s.participants@.contains_key(user),
        other != user,
    ensures
        ({
            let flagged = s.records_with(
                user,
                ParticipantConsent {
                    no_llm_training: flags.0,
                    no_public_release: flags.1,
                    ..s.participants@[user]
                },
            );
            let rowed = s.records_with(
                user,
                ParticipantConsent { participant_uuid: Some(row), ..s.participants@[user] },
            );
            &&& flags_of(flagged, user) == flags
            &&& row_of(flagged, user) == row_of(s.participants@, user)
            &&& flags_of(flagged, other) == flags_of(s.participants@, other)
            &&& row_of(rowed, user) == Some(row)
            &&& row_of(rowed, other) == row_of(s.participants@, other)
            &&& flagged.dom() == s.participants@.dom()
            &&& rowed.dom() == s.participants@.dom()
        }),
{
    assert(s.participants@.insert(user, s.participants@[user]).dom() =~= s.participants@.dom());
}

/// A choice keeps the row and the license flags of a participant.
pub proof fn law_choice_keeps_notes(s: Session, user: u64, scope: ConsentScope, now: Timestamp)
    ensures
        row_of(s.records_after_choice(user, scope, now), user) == row_of(s.participants@, user),
        flags_of(s.records_after_choice(user, scope, now), user) == flags_of(
            s.participants@,
            user,
        ),
{
}

/// The sessions of all guilds, at most one for each.
pub struct SessionManager {
    sessions: HashMap<u64, Session>,
}

impl SessionManager {
    /// The sessions, by guild.
    pub closed spec fn sessions(&self) -> Map<u64, Session> {
        self.sessions@
    }

    /// A guild has a session that can still be acted on.
    pub open spec fn active(&self, guild_id: u64) -> bool {
        self.sessions().contains_key(guild_id) && self.sessions()[guild_id].phase.stoppable()
    }

    pub fn new() -> (m: SessionManager)
        ensures
            m.sessions() == Map::<u64, Session>::empty(),
    {
        SessionManager { sessions: HashMap::new() }
    }

    /// Take in a session, unless its guild has one that can still be acted on;
    /// then it is handed back.
    pub fn try_insert(&mut self, session: Session) -> (r: Result<(), Box<Session>>)
        ensures
            match r {
                Ok(_) => {
                    &&& !old(self).active(session.guild_id)
                    &&& final(self).sessions() == old(self).sessions().insert(
                        session.guild_id,
                        session,
                    )
                },
                Err(s) => {
                    &&& old(self).active(session.guild_id)
                    &&& *s == session
                    &&& final(self).sessions() == old(self).sessions()
                },
            },
    {
        if self.has_active(session.guild_id) {
            return Err(Box::new(session));
        }
        self.sessions.insert(session.guild_id, session);
        Ok(())
    }

    pub fn get(&self, guild_id: u64) -> (s: Option<&Session>)
        ensures
            match s {
                Some(s) => self.sessions().contains_key(guild_id) && *s == self.sessions()[guild_id],
                None => !self.sessions().contains_key(guild_id),
            },
    {
        self.sessions.get(&guild_id)
    }

    /// The session of a guild, to be changed in place.
    pub fn get_mut(&mut self, guild_id: u64) -> (s: Option<&mut Session>)
        ensures
            match s {
                Some(s) => {
                    &&& old(self).sessions().contains_key(guild_id)
                    &&& *s == old(self).sessions()[guild_id]
                    &&& final(self).sessions() == old(self).sessions().insert(guild_id, *final(s))
                },
                None => {
                    &&& !old(self).sessions().contains_key(guild_id)
                    &&& final(self).sessions() == old(self).sessions()
                },
            },
    {
        match self.sessions.entry(guild_id) {
            Entry::Occupied(e) => Some(e.into_mut()),
            Entry::Vacant(_) => None,
        }
    }

    pub fn remove(&mut self, guild_id: u64) -> (s: Option<Session>)
        ensures
            final(self).sessions() == old(self).sessions().remove(guild_id),
            match s {
                Some(s) => old(self).sessions().contains_key(guild_id) && s
                    == old(self).sessions()[guild_id],
                None => !old(self).sessions().contains_key(guild_id),
            },
    {
        self.sessions.remove(&guild_id)
    }

    /// Whether a guild has a session that can still be acted on.
    pub fn has_active(&self, guild_id: u64) -> (b: bool)
        ensures
            b == self.active(guild_id),
    {
        match self.sessions.get(&guild_id) {
            Some(s) => s.phase.is_stoppable(),
            None => false,
        }
    }
}

} // verus!
