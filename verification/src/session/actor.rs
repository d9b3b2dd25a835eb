//! What the actor of a session does with each command.
//!
//! An actor owns its session. Commands come in one at a time; each changes the
//! session and leads to effects, which the caller performs in order: requests to
//! the data API, commands to capture tasks, timers.
//!
//! Before the stabilization gate opens nothing is said to the data API. Should
//! it never open, the API is never told that the session existed.

use crate::api_client::LicensePatch;
use crate::collect::{enumerates, lemma_take_next, map_keys, set_items};
use crate::roll::ConsentEmbed;
use crate::session::capture::ParticipantCmd;
use crate::session::{
    ConsentScope, ParticipantConsent, ParticipantState, Session, CONSENT_TEXT,
};
use crate::text::owned;
use crate::time::Timestamp;
use std::collections::{HashMap, HashSet};
use vstd::prelude::*;

verus! {

broadcast use vstd::std_specs::hash::group_hash_axioms;

/// How long the channel may stay empty before the session stops by itself, as a
/// span in nanoseconds.
pub const AUTO_STOP_GRACE: u128 = 30_000_000_000;

/// Why a command was refused.
#[derive(Debug, Clone, Copy, PartialEq, Eq, Structural)]
pub enum SessionError {
    NotParticipant,
    AlreadyResponded,
    NotInitiator,
    NotStoppable,
    ActorGone,
}

impl SessionError {
    /// What the error says.
    pub open spec fn text(self) -> Seq<char> {
        match self {
            SessionError::NotParticipant => "user is not a participant in this session"@,
            SessionError::AlreadyResponded => "user has already responded"@,
            SessionError::NotInitiator => "only the initiator can stop the session"@,
            SessionError::NotStoppable => "session is not in a stoppable state"@,
            SessionError::ActorGone => "session actor is gone"@,
        }
    }

    /// What the error says.
    pub fn message(self) -> (m: &'static str)
        ensures
            m@ == self.text(),
    {
        match self {
            SessionError::NotParticipant => "user is not a participant in this session",
            SessionError::AlreadyResponded => "user has already responded",
            SessionError::NotInitiator => "only the initiator can stop the session",
            SessionError::NotStoppable => "session is not in a stoppable state",
            SessionError::ActorGone => "session actor is gone",
        }
    }
}

/// A restriction on how audio may be used.
#[derive(Debug, Clone, Copy, PartialEq, Eq, Structural)]
pub enum LicenseField {
    NoLlmTraining,
    NoPublicRelease,
}

/// What came of a choice.
pub enum ConsentOutcome {
    /// The choice counts.
    Ack { embed: ConsentEmbed },
    /// The choice counts, everyone has answered, and too few accepted.
    QuorumFailed { embed: ConsentEmbed },
}

impl ConsentOutcome {
    /// The consent prompt as it stands now.
    pub open spec fn prompt(self) -> ConsentEmbed {
        match self {
            ConsentOutcome::Ack { embed } => embed,
            ConsentOutcome::QuorumFailed { embed } => embed,
        }
    }
}

/// A session as others see it.
pub struct SessionSnapshot {
    pub session_id: String,
    pub guild_id: u64,
    pub recording: bool,
    pub stable: bool,
    pub phase_label: &'static str,
    pub participant_count: usize,
}

/// A command to the actor.
pub enum SessionCmd {
    RecordConsent { user: u64, scope: ConsentScope },
    SetLicense { user: u64, field: LicenseField, value: bool },
    ToggleLicense { user: u64, field: LicenseField },
    Stop { initiator: u64 },
    AutoStop,
    VoiceStateChange {
        old_channel: Option<u64>,
        new_channel: Option<u64>,
        user_id: u64,
        is_bot: bool,
        display_name: String,
    },
    SetConsentMessage { channel_id: u64, message_id: u64 },
    Enrol { user_id: u64, display_name: String, is_bot: bool },
    GetSnapshot,
}

/// Something that the caller has to do.
#[derive(Debug, Clone, Copy, PartialEq, Eq, Structural)]
pub enum Effect {
    /// Tell the data API of a choice, by the participant's row.
    PatchConsent { participant: u128, scope: ConsentScope },
    /// Tell the data API of a choice, by session and user.
    PatchConsentOfUser { session: u128, user: u64, scope: ConsentScope },
    /// Set both license flags of a participant to "unrestricted".
    ClearLicenseFlags { participant: u128 },
    /// Hand a command to a user's capture task.
    Tell { user: u64, cmd: ParticipantCmd },
    /// Start the capture task of a user, in place of one that is there.
    SpawnTask { user: u64 },
    /// Start the auto-stop timer.
    StartTimer,
    /// Abort the auto-stop timer.
    AbortTimer,
    /// Cancel everything that runs for the session.
    Cancel,
}

impl Effect {
    /// The effect reaches the data API.
    pub open spec fn is_traffic(self) -> bool {
        self is PatchConsent || self is PatchConsentOfUser || self is ClearLicenseFlags
    }
}

/// What an actor knows.
pub struct Actor {
    pub session: Session,
    /// The users who have a capture task.
    pub tasks: HashSet<u64>,
    /// The users from whom audio is expected.
    pub expected_user_ids: HashSet<u64>,
    /// The session's row in the data API. There is none before the
    /// stabilization gate.
    pub session_uuid: Option<u128>,
    /// Whether the mix task runs.
    pub mixing: bool,
    /// The people in the voice channel.
    pub humans_in_channel: HashSet<u64>,
    /// Whether the auto-stop timer runs.
    pub timer_running: bool,
    /// The license flags that users were last shown, unless both are unset.
    pub license_flags: HashMap<u64, (bool, bool)>,
    pub cancelled: bool,
}

/// Those of `humans` who have not declined. People who are not enrolled count.
pub open spec fn accepting(humans: Set<u64>, m: Map<u64, ParticipantConsent>) -> Set<u64> {
    humans.filter(|u: u64| !(m.contains_key(u) && m[u].state is Declined))
}

/// The participants who have not declined.
pub open spec fn undeclined(m: Map<u64, ParticipantConsent>) -> Set<u64> {
    m.dom().filter(|u: u64| !(m[u].state is Declined))
}

/// The participants who accepted.
pub open spec fn accepted(m: Map<u64, ParticipantConsent>) -> Set<u64> {
    m.dom().filter(|u: u64| m[u].state is Accepted)
}

/// Those of the people in the channel who have not declined. People who are not
/// enrolled count.
pub fn accepting_humans(humans_in_channel: &HashSet<u64>, session: &Session) -> (acc: HashSet<u64>)
    ensures
        acc@ == accepting(humans_in_channel@, session.participants@),
{
    let items = set_items(humans_in_channel);
    let ghost m = session.participants@;
    let mut acc: HashSet<u64> = HashSet::new();
    let mut i: usize = 0;
    assert(acc@ =~= accepting(items@.take(0).to_set(), m));
    while i < items.len()
        invariant
            0 <= i <= items@.len(),
            m == session.participants@,
            acc@ == accepting(items@.take(i as int).to_set(), m),
        decreases items@.len() - i,
    {
        let u: u64 = items[i];
        proof {
            lemma_take_next(items@, i as int);
        }
        let declined = match session.participants.get(&u) {
            Some(p) => p.state == ParticipantState::Declined,
            None => false,
        };
        if !declined {
            acc.insert(u);
        }
        assert(acc@ =~= accepting(items@.take(i + 1).to_set(), m));
        i = i + 1;
    }
    assert(items@.take(items@.len() as int) =~= items@);
    acc
}

/// The participants who have not declined, or only those who accepted.
pub(crate) fn participants_where(session: &Session, only_accepted: bool) -> (users: HashSet<u64>)
    ensures
        users@ == (if only_accepted {
            accepted(session.participants@)
        } else {
            undeclined(session.participants@)
        }),
{
    let keys = map_keys(&session.participants);
    let ghost m = session.participants@;
    let ghost want = |u: u64|
        if only_accepted {
            m[u].state is Accepted
        } else {
            !(m[u].state is Declined)
        };
    let mut users: HashSet<u64> = HashSet::new();
    let mut i: usize = 0;
    assert(users@ =~= keys@.take(0).to_set().filter(want));
    while i < keys.len()
        invariant
            0 <= i <= keys@.len(),
            m == session.participants@,
            keys@.to_set() == m.dom(),
            want == (|u: u64|
                if only_accepted {
                    m[u].state is Accepted
                } else {
                    !(m[u].state is Declined)
                }),
            users@ == keys@.take(i as int).to_set().filter(want),
        decreases keys@.len() - i,
    {
        let u: u64 = keys[i];
        proof {
            lemma_take_next(keys@, i as int);
            assert(keys@.to_set().contains(keys@[i as int]));
        }
        match session.participants.get(&u) {
            Some(p) => {
                let wanted = if only_accepted {
                    p.state == ParticipantState::Accepted
                } else {
                    p.state != ParticipantState::Declined
                };
                if wanted {
                    users.insert(u);
                }
            },
            None => {},
        }
        assert(users@ =~= keys@.take(i + 1).to_set().filter(want));
        i = i + 1;
    }
    assert(keys@.take(keys@.len() as int) =~= keys@);
    assert(users@ =~= (if only_accepted {
        accepted(m)
    } else {
        undeclined(m)
    }));
    users
}

impl Actor {
    /// A session that records has a row in the data API and a mix.
    pub open spec fn wf(&self) -> bool {
        &&& self.session.wf()
        &&& self.session.phase.recording() ==> self.session_uuid is Some && self.mixing
    }

    /// Everybody in the channel has declined, or the channel is empty.
    pub open spec fn deserted(&self) -> bool {
        accepting(self.humans_in_channel@, self.session.participants@) == Set::<u64>::empty()
    }

    /// The capture tasks, the row, the mix and the license flags are those of
    /// `was`.
    pub open spec fn same_surroundings(&self, was: Actor) -> bool {
        &&& self.tasks@ == was.tasks@
        &&& self.session_uuid == was.session_uuid
        &&& self.mixing == was.mixing
        &&& self.license_flags@ == was.license_flags@
    }

    /// The actor of a session before it joins the voice channel. Whoever is
    /// enrolled is taken to be in the channel.
    pub fn new(session: Session) -> (a: Actor)
        requires
            session.wf(),
            !session.phase.recording(),
        ensures
            a.wf(),
            a.session == session,
            a.tasks@ == Set::<u64>::empty(),
            a.expected_user_ids@ == undeclined(session.participants@),
            a.session_uuid is None,
            !a.mixing,
            a.humans_in_channel@ == session.participants@.dom(),
            !a.timer_running,
            a.license_flags@ == Map::<u64, (bool, bool)>::empty(),
            !a.cancelled,
    {
        let expected = participants_where(&session, false);
        let keys = map_keys(&session.participants);
        let mut humans: HashSet<u64> = HashSet::new();
        let mut i: usize = 0;
        assert(humans@ =~= keys@.take(0).to_set());
        while i < keys.len()
            invariant
                0 <= i <= keys@.len(),
                humans@ == keys@.take(i as int).to_set(),
            decreases keys@.len() - i,
        {
            proof {
                lemma_take_next(keys@, i as int);
            }
            humans.insert(keys[i]);
            i = i + 1;
        }
        assert(keys@.take(keys@.len() as int) =~= keys@);
        Actor {
            session,
            tasks: HashSet::new(),
            expected_user_ids: expected,
            session_uuid: None,
            mixing: false,
            humans_in_channel: humans,
            timer_running: false,
            license_flags: HashMap::new(),
            cancelled: false,
        }
    }

    /// The voice channel is joined: everyone who has not declined gets a capture
    /// task.
    pub fn attach(&mut self) -> (spawned: Vec<u64>)
        requires
            old(self).wf(),
            old(self).tasks@ == Set::<u64>::empty(),
        ensures
            final(self).wf(),
            enumerates(spawned@, undeclined(old(self).session.participants@)),
            final(self).tasks@ == undeclined(old(self).session.participants@),
            final(self).session == old(self).session,
            final(self).expected_user_ids == old(self).expected_user_ids,
            final(self).session_uuid == old(self).session_uuid,
            final(self).mixing == old(self).mixing,
            final(self).humans_in_channel == old(self).humans_in_channel,
            final(self).timer_running == old(self).timer_running,
            final(self).license_flags == old(self).license_flags,
            final(self).cancelled == old(self).cancelled,
    {
        self.tasks = participants_where(&self.session, false);
        set_items(&self.tasks)
    }

    /// Start the timer once nobody who might be recorded is left, and abort it
    /// once somebody is back.
    fn recompute_timer(&mut self) -> (e: Option<Effect>)
        requires
            old(self).wf(),
        ensures
            final(self).wf(),
            final(self).session == old(self).session,
            final(self).same_surroundings(*old(self)),
            final(self).cancelled == old(self).cancelled,
            final(self).expected_user_ids@ == old(self).expected_user_ids@,
            final(self).humans_in_channel@ == old(self).humans_in_channel@,
            final(self).timer_running == old(self).deserted(),
            match e {
                Some(x) => timer_change(old(self).timer_running, old(self).deserted()) == seq![x],
                None => timer_change(old(self).timer_running, old(self).deserted())
                    == Seq::<Effect>::empty(),
            },
    {
        let acc = accepting_humans(&self.humans_in_channel, &self.session);
        let left = set_items(&acc);
        proof {
            if left@.len() > 0 {
                assert(left@.to_set().contains(left@[0]));
            } else {
                assert(left@.to_set() =~= Set::<u64>::empty());
            }
        }
        if left.len() == 0 {
            if !self.timer_running {
                self.timer_running = true;
                return Some(Effect::StartTimer);
            }
        } else if self.timer_running {
            self.timer_running = false;
            return Some(Effect::AbortTimer);
        }
        None
    }

    /// What the data API is told of a choice. Before the stabilization gate
    /// there is no row to change.
    pub open spec fn consent_traffic(&self, user: u64, scope: ConsentScope) -> Seq<Effect> {
        if !self.session.phase.recording() {
            seq![]
        } else {
            match self.session.row_of(user) {
                Some(pid) => seq![Effect::PatchConsent { participant: pid, scope }],
                None => match self.session_uuid {
                    Some(sid) => seq![Effect::PatchConsentOfUser { session: sid, user, scope }],
                    None => seq![],
                },
            }
        }
    }

    /// What the capture task is told of a choice after the stabilization gate:
    /// an acceptance flushes the backlog and joins the mix, a decline drops
    /// everything.
    pub open spec fn late_commands(&self, user: u64, scope: ConsentScope) -> Seq<Effect> {
        if !self.session.phase.recording() || !self.tasks@.contains(user) {
            seq![]
        } else {
            match scope {
                ConsentScope::Full => seq![
                    Effect::Tell { user, cmd: ParticipantCmd::LateAccept },
                    Effect::Tell {
                        user,
                        cmd: ParticipantCmd::GateOpened {
                            accepted: true,
                            session_uuid: self.session_uuid->0,
                            mix: true,
                        },
                    },
                ],
                ConsentScope::Decline => seq![
                    Effect::Tell { user, cmd: ParticipantCmd::LateDecline },
                ],
            }
        }
    }

    /// An acceptance after the stabilization gate sets the license flags to
    /// their defaults.
    pub open spec fn default_flags(&self, user: u64, scope: ConsentScope) -> Seq<Effect> {
        if self.session.phase.recording() && scope is Full && self.session.row_of(user) is Some {
            seq![Effect::ClearLicenseFlags { participant: self.session.row_of(user)->0 }]
        } else {
            seq![]
        }
    }

    /// A decline before the stabilization gate deletes the cache at once.
    pub open spec fn early_drop(&self, user: u64, scope: ConsentScope) -> Seq<Effect> {
        if !self.session.phase.recording() && scope is Decline && self.tasks@.contains(user) {
            seq![Effect::Tell { user, cmd: ParticipantCmd::DropCache }]
        } else {
            seq![]
        }
    }

    /// User `user` may choose: they take part and have not answered.
    pub open spec fn may_choose(&self, user: u64) -> bool {
        self.session.participants@.contains_key(user)
            && self.session.participants@[user].scope is None
    }

    /// The choice `scope` of `user` at `now` leads to the state `then`, the given
    /// answer and the given effects.
    pub open spec fn consent_applied(
        &self,
        then: Actor,
        user: u64,
        scope: ConsentScope,
        now: Timestamp,
        answer: Result<ConsentOutcome, SessionError>,
        effects: Seq<Effect>,
    ) -> bool {
        &&& then.same_surroundings(*self)
        &&& then.humans_in_channel@ == self.humans_in_channel@
        &&& then.session.differs_in_participants(self.session)
        &&& match answer {
            Err(e) => {
                &&& !self.may_choose(user)
                &&& e == (if self.session.participants@.contains_key(user) {
                    SessionError::AlreadyResponded
                } else {
                    SessionError::NotParticipant
                })
                &&& then.session == self.session
                &&& then.expected_user_ids@ == self.expected_user_ids@
                &&& then.timer_running == self.timer_running
                &&& effects == Seq::<Effect>::empty()
            },
            Ok(outcome) => {
                &&& self.may_choose(user)
                &&& then.session.participants@ == self.session.records_after_choice(
                    user,
                    scope,
                    now,
                )
                &&& then.expected_user_ids@ == (if scope is Decline {
                    self.expected_user_ids@.remove(user)
                } else {
                    self.expected_user_ids@
                })
                &&& then.timer_running == then.deserted()
                &&& effects == self.consent_traffic(user, scope) + self.late_commands(user, scope)
                    + self.default_flags(user, scope) + self.early_drop(user, scope) + timer_change(
                    self.timer_running,
                    then.deserted(),
                )
                &&& outcome is QuorumFailed <==> then.session.everyone_answered()
                    && !then.session.quorum()
                &&& outcome.prompt().asks(CONSENT_TEXT@, then.session.participants@)
            },
        }
    }

    /// A user's choice at `now`. Only participants choose, and only once.
    pub fn apply_consent(&mut self, user: u64, scope: ConsentScope, now: Timestamp) -> (r: (
        Result<ConsentOutcome, SessionError>,
        Vec<Effect>,
    ))
        requires
            old(self).wf(),
            now.wf(),
        ensures
            final(self).wf(),
            final(self).cancelled == old(self).cancelled,
            old(self).consent_applied(*final(self), user, scope, now, r.0, r.1@),
    {
        let mut effects: Vec<Effect> = Vec::new();
        match self.session.participants.get(&user) {
            None => {
                return (Err(SessionError::NotParticipant), effects);
            },
            Some(p) => {
                if p.scope.is_some() {
                    return (Err(SessionError::AlreadyResponded), effects);
                }
            },
        }
        let ghost was = *self;
        let cached_pid = self.session.participant_uuid(user);
        let post_gate = self.session.phase.is_recording();
        self.session.record_consent_at(user, scope, now);
        let has_task = self.tasks.contains(&user);
        if post_gate {
            match (cached_pid, self.session_uuid) {
                (Some(pid), _) => {
                    effects.push(Effect::PatchConsent { participant: pid, scope });
                },
                (None, Some(sid)) => {
                    effects.push(Effect::PatchConsentOfUser { session: sid, user, scope });
                },
                (None, None) => {},
            }
        }
        assert(effects@ =~= was.consent_traffic(user, scope));
        if post_gate && has_task {
            match scope {
                ConsentScope::Full => {
                    effects.push(Effect::Tell { user, cmd: ParticipantCmd::LateAccept });
                    if self.mixing {
                        match self.session_uuid {
                            Some(sid) => {
                                effects.push(
                                    Effect::Tell {
                                        user,
                                        cmd: ParticipantCmd::GateOpened {
                                            accepted: true,
                                            session_uuid: sid,
                                            mix: true,
                                        },
                                    },
                                );
                            },
                            None => {},
                        }
                    }
                },
                ConsentScope::Decline => {
                    effects.push(Effect::Tell { user, cmd: ParticipantCmd::LateDecline });
                },
            }
        }
        assert(effects@ =~= was.consent_traffic(user, scope) + was.late_commands(user, scope));
        if post_gate && scope == ConsentScope::Full {
            match cached_pid {
                Some(pid) => {
                    effects.push(Effect::ClearLicenseFlags { participant: pid });
                },
                None => {},
            }
        }
        assert(effects@ =~= was.consent_traffic(user, scope) + was.late_commands(user, scope)
            + was.default_flags(user, scope));
        if scope == ConsentScope::Decline {
            self.expected_user_ids.remove(&user);
        }
        if !post_gate && scope == ConsentScope::Decline && has_task {
            effects.push(Effect::Tell { user, cmd: ParticipantCmd::DropCache });
        }
        let ghost so_far = effects@;
        assert(so_far =~= was.consent_traffic(user, scope) + was.late_commands(user, scope)
            + was.default_flags(user, scope) + was.early_drop(user, scope));
        match self.recompute_timer() {
            Some(e) => {
                effects.push(e);
            },
            None => {},
        }
        assert(effects@ =~= so_far + timer_change(was.timer_running, self.deserted()));
        let embed = self.session.consent_embed();
        let outcome = if self.session.all_responded() && !self.session.evaluate_quorum() {
            ConsentOutcome::QuorumFailed { embed }
        } else {
            ConsentOutcome::Ack { embed }
        };
        (Ok(outcome), effects)
    }
}

/// The choice ends the session: everyone has answered, and too few accepted.
pub open spec fn quorum_failed(answer: Result<ConsentOutcome, SessionError>) -> bool {
    match answer {
        Ok(ConsentOutcome::QuorumFailed { .. }) => true,
        _ => false,
    }
}

/// `effects`, and a cancellation behind them if the session stops.
pub open spec fn with_cancel(effects: Seq<Effect>, stop: bool) -> Seq<Effect> {
    if stop {
        effects.push(Effect::Cancel)
    } else {
        effects
    }
}

/// What happens to the auto-stop timer when it runs or not and the channel is
/// deserted or not.
pub open spec fn timer_change(running: bool, deserted: bool) -> Seq<Effect> {
    if deserted && !running {
        seq![Effect::StartTimer]
    } else if !deserted && running {
        seq![Effect::AbortTimer]
    } else {
        seq![]
    }
}

/// What a license request leads to.
#[derive(Debug, Clone, Copy, PartialEq, Eq, Structural)]
pub enum LicenseStep {
    /// The request is refused.
    Refused { error: SessionError },
    /// Ask the data API to change the flags of a participant; flags without a
    /// value stay as they are.
    Patch { participant: u128, no_llm_training: Option<bool>, no_public_release: Option<bool> },
}

/// A license flag was flipped.
#[derive(Debug, Clone, Copy, PartialEq, Eq, Structural)]
pub struct LicenseToggle {
    /// The flags from now on.
    pub no_llm_training: bool,
    pub no_public_release: bool,
    /// The participant's row in the data API, as far as it is known.
    pub row: Option<u128>,
}

/// The flags after `field` is flipped.
pub open spec fn flipped(field: LicenseField, flags: (bool, bool)) -> (bool, bool) {
    match field {
        LicenseField::NoLlmTraining => (!flags.0, flags.1),
        LicenseField::NoPublicRelease => (flags.0, !flags.1),
    }
}

/// What an enrolment leads to.
pub enum EnrolStep {
    /// The user is enrolled. Before the stabilization gate the row is still the
    /// nil one.
    Enrolled { row: u128, effects: Vec<Effect> },
    /// Ask the data API for a row first.
    AddRow { session: u128, user: u64, mid_session_join: bool, display_name: String },
}

/// What the actor answers.
pub enum Reply {
    Nothing,
    Consent { result: Result<ConsentOutcome, SessionError> },
    License { step: LicenseStep },
    Toggle { result: Result<LicenseToggle, SessionError> },
    Stop { result: Result<(), SessionError> },
    Enrol { step: EnrolStep },
    Snapshot { snapshot: SessionSnapshot },
}

/// What a command leads to.
pub struct Handled {
    pub reply: Reply,
    /// To be performed in order. `Cancel` comes after the reply.
    pub effects: Vec<Effect>,
    /// The session ends.
    pub stop: bool,
}

/// The answer to a license request, once the data API has answered.
pub fn finish_license(patched: bool) -> (r: Result<(), SessionError>)
    ensures
        patched ==> r is Ok,
        !patched ==> r == Err::<(), SessionError>(SessionError::NotParticipant),
{
    if patched {
        Ok(())
    } else {
        Err(SessionError::NotParticipant)
    }
}

impl Actor {
    /// What a license request leads to.
    pub open spec fn license_step(&self, user: u64, field: LicenseField, value: bool) -> LicenseStep {
        if self.session_uuid is Some && self.session.row_of(user) is Some {
            LicenseStep::Patch {
                participant: self.session.row_of(user)->0,
                no_llm_training: if field is NoLlmTraining {
                    Some(value)
                } else {
                    None
                },
                no_public_release: if field is NoPublicRelease {
                    Some(value)
                } else {
                    None
                },
            }
        } else {
            LicenseStep::Refused { error: SessionError::NotParticipant }
        }
    }

    /// A license request: one flag of a participant's row. Before the
    /// stabilization gate there is no row, and the request is refused.
    pub fn apply_license(&self, user: u64, field: LicenseField, value: bool) -> (step: LicenseStep)
        ensures
            step == self.license_step(user, field, value),
    {
        if self.session_uuid.is_none() {
            return LicenseStep::Refused { error: SessionError::NotParticipant };
        }
        match self.session.participant_uuid(user) {
            None => LicenseStep::Refused { error: SessionError::NotParticipant },
            Some(pid) => match field {
                LicenseField::NoLlmTraining => LicenseStep::Patch {
                    participant: pid,
                    no_llm_training: Some(value),
                    no_public_release: None,
                },
                LicenseField::NoPublicRelease => LicenseStep::Patch {
                    participant: pid,
                    no_llm_training: None,
                    no_public_release: Some(value),
                },
            },
        }
    }

    /// The license flags that `user` was last shown.
    pub open spec fn shown_flags(&self, user: u64) -> (bool, bool) {
        if self.license_flags@.contains_key(user) {
            self.license_flags@[user]
        } else {
            (false, false)
        }
    }

    /// What a click on a license button leads to. Before the stabilization gate
    /// there is no row to change, and strangers have none.
    pub open spec fn toggle_answer(&self, user: u64, field: LicenseField) -> Result<
        LicenseToggle,
        SessionError,
    > {
        if self.session_uuid is Some && self.session.participants@.contains_key(user) {
            let flags = flipped(field, self.shown_flags(user));
            Ok(
                LicenseToggle {
                    no_llm_training: flags.0,
                    no_public_release: flags.1,
                    row: self.session.row_of(user),
                },
            )
        } else {
            Err(SessionError::NotParticipant)
        }
    }

    /// A click on a license button: flip the flag that the user was shown.
    pub fn toggle_license(&mut self, user: u64, field: LicenseField) -> (r: Result<
        LicenseToggle,
        SessionError,
    >)
        ensures
            r == old(self).toggle_answer(user, field),
            *final(self) == (Actor { license_flags: final(self).license_flags, ..*old(self) }),
            final(self).license_flags@ == (match r {
                Ok(t) => old(self).license_flags@.insert(
                    user,
                    (t.no_llm_training, t.no_public_release),
                ),
                Err(_) => old(self).license_flags@,
            }),
    {
        if self.session_uuid.is_none() || !self.session.participants.contains_key(&user) {
            return Err(SessionError::NotParticipant);
        }
        let shown = match self.license_flags.get(&user) {
            Some(f) => *f,
            None => (false, false),
        };
        let patch = match field {
            LicenseField::NoLlmTraining => LicensePatch {
                no_llm_training: Some(!shown.0),
                no_public_release: None,
            },
            LicenseField::NoPublicRelease => LicensePatch {
                no_llm_training: None,
                no_public_release: Some(!shown.1),
            },
        };
        let flags = patch.apply(shown);
        let row = self.session.participant_uuid(user);
        self.license_flags.insert(user, flags);
        Ok(LicenseToggle { no_llm_training: flags.0, no_public_release: flags.1, row })
    }

    /// The records after `user` is enrolled, unless they were before.
    pub open spec fn enrolled(
        before: Map<u64, ParticipantConsent>,
        after: Map<u64, ParticipantConsent>,
        user: u64,
        name: Seq<char>,
    ) -> bool {
        if before.contains_key(user) {
            after == before
        } else {
            &&& after == before.insert(user, after[user])
            &&& after[user].pending(user, name, false)
        }
    }

    /// What the capture task of a user who joins after the stabilization gate is
    /// told: whom their chunks belong to, and whether they have answered.
    pub open spec fn joining_commands(&self, user: u64) -> Seq<Effect> {
        let m = self.session.participants@;
        match self.session_uuid {
            None => seq![],
            Some(session_uuid) => if m.contains_key(user) && m[user].state is Declined {
                seq![Effect::Tell { user, cmd: ParticipantCmd::LateDecline }]
            } else {
                seq![
                    Effect::Tell {
                        user,
                        cmd: ParticipantCmd::GateOpened {
                            accepted: accepted(m).contains(user),
                            session_uuid,
                            mix: accepted(m).contains(user),
                        },
                    },
                ]
            },
        }
    }

    /// A capture task for `user`, from whom audio is expected from now on.
    fn start_capture(&mut self, user: u64) -> (effects: Vec<Effect>)
        requires
            old(self).wf(),
        ensures
            final(self).wf(),
            final(self).session == old(self).session,
            final(self).session_uuid == old(self).session_uuid,
            final(self).mixing == old(self).mixing,
            final(self).cancelled == old(self).cancelled,
            final(self).license_flags@ == old(self).license_flags@,
            final(self).humans_in_channel@ == old(self).humans_in_channel@,
            final(self).tasks@ == old(self).tasks@.insert(user),
            final(self).expected_user_ids@ == old(self).expected_user_ids@.insert(user),
            final(self).timer_running == old(self).deserted(),
            effects@ == seq![Effect::SpawnTask { user }] + old(self).joining_commands(user)
                + timer_change(old(self).timer_running, old(self).deserted()),
    {
        let ghost was = *self;
        self.expected_user_ids.insert(user);
        self.tasks.insert(user);
        let mut effects: Vec<Effect> = Vec::new();
        effects.push(Effect::SpawnTask { user });
        match self.session_uuid {
            Some(session_uuid) => {
                let (declined, is_accepted) = match self.session.participants.get(&user) {
                    Some(p) => (
                        p.state == ParticipantState::Declined,
                        p.state == ParticipantState::Accepted,
                    ),
                    None => (false, false),
                };
                let cmd = if declined {
                    ParticipantCmd::LateDecline
                } else {
                    ParticipantCmd::GateOpened { accepted: is_accepted, session_uuid, mix: is_accepted }
                };
                effects.push(Effect::Tell { user, cmd });
            },
            None => {},
        }
        assert(effects@ =~= seq![Effect::SpawnTask { user }] + was.joining_commands(user));
        match self.recompute_timer() {
            Some(e) => {
                effects.push(e);
            },
            None => {},
        }
        assert(effects@ =~= seq![Effect::SpawnTask { user }] + was.joining_commands(user)
            + timer_change(was.timer_running, was.deserted()));
        effects
    }

    /// The enrolment of `user_id` leads to the state `then` and the given step.
    pub open spec fn enrol_applied(
        &self,
        then: Actor,
        user_id: u64,
        name: Seq<char>,
        step: EnrolStep,
    ) -> bool {
        &&& then.session.differs_in_participants(self.session)
        &&& Actor::enrolled(self.session.participants@, then.session.participants@, user_id, name)
        &&& then.session_uuid == self.session_uuid
        &&& then.mixing == self.mixing
        &&& then.license_flags@ == self.license_flags@
        &&& then.humans_in_channel@ == self.humans_in_channel@
        &&& match step {
            EnrolStep::AddRow { session, user, mid_session_join, display_name } => {
                &&& self.session_uuid == Some(session)
                &&& user == user_id
                &&& mid_session_join
                &&& display_name@ == name
                &&& then.tasks@ == self.tasks@
                &&& then.expected_user_ids@ == self.expected_user_ids@
                &&& then.timer_running == self.timer_running
            },
            EnrolStep::Enrolled { row, effects } => {
                &&& self.session_uuid is None
                &&& row == 0
                &&& then.tasks@ == self.tasks@.insert(user_id)
                &&& then.expected_user_ids@ == self.expected_user_ids@.insert(user_id)
                &&& then.timer_running == then.deserted()
                &&& effects@ == seq![Effect::SpawnTask { user: user_id }]
                    + then.joining_commands(user_id) + timer_change(
                    self.timer_running,
                    then.deserted(),
                )
            },
        }
    }

    /// Enrol a user. Before the stabilization gate nothing is said to the data
    /// API; after it the user needs a row first.
    pub fn apply_enrol(&mut self, user_id: u64, display_name: String) -> (step: EnrolStep)
        requires
            old(self).wf(),
        ensures
            final(self).wf(),
            final(self).cancelled == old(self).cancelled,
            old(self).enrol_applied(*final(self), user_id, display_name@, step),
    {
        let name = owned(display_name.as_str());
        self.session.add_participant(user_id, display_name, false);
        match self.session_uuid {
            Some(sid) => EnrolStep::AddRow {
                session: sid,
                user: user_id,
                mid_session_join: true,
                display_name: name,
            },
            None => {
                let effects = self.start_capture(user_id);
                EnrolStep::Enrolled { row: 0, effects }
            },
        }
    }

    /// The data API has answered: with the user's row the enrolment is complete,
    /// without one it is refused.
    pub fn finish_enrol(&mut self, user_id: u64, row: Option<u128>) -> (r: (
        Result<u128, SessionError>,
        Vec<Effect>,
    ))
        requires
            old(self).wf(),
        ensures
            final(self).wf(),
            final(self).session.differs_in_participants(old(self).session),
            final(self).session_uuid == old(self).session_uuid,
            final(self).mixing == old(self).mixing,
            final(self).license_flags@ == old(self).license_flags@,
            final(self).cancelled == old(self).cancelled,
            final(self).humans_in_channel@ == old(self).humans_in_channel@,
            match row {
                Some(pid) => {
                    &&& r.0 == Ok::<u128, SessionError>(pid)
                    &&& final(self).session.participants@ == rows_assigned(
                        old(self).session.participants@,
                        seq![user_id],
                        seq![pid],
                    )
                    &&& final(self).tasks@ == old(self).tasks@.insert(user_id)
                    &&& final(self).expected_user_ids@ == old(self).expected_user_ids@.insert(
                        user_id,
                    )
                    &&& final(self).timer_running == final(self).deserted()
                    &&& r.1@ == seq![Effect::SpawnTask { user: user_id }]
                        + final(self).joining_commands(user_id) + timer_change(
                        old(self).timer_running,
                        final(self).deserted(),
                    )
                },
                None => {
                    &&& r.0 == Err::<u128, SessionError>(SessionError::NotParticipant)
                    &&& *final(self) == *old(self)
                    &&& r.1@ == Seq::<Effect>::empty()
                },
            },
    {
        match row {
            None => (Err(SessionError::NotParticipant), Vec::new()),
            Some(pid) => {
                self.session.set_participant_uuid(user_id, pid);
                proof {
                    lemma_one_row(old(self).session.participants@, user_id, pid);
                }
                let effects = self.start_capture(user_id);
                (Ok(pid), effects)
            },
        }
    }

    /// A change of voice state leads to the state `then` and the given effects.
    pub open spec fn voice_applied(
        &self,
        then: Actor,
        new_channel: Option<u64>,
        user_id: u64,
        is_bot: bool,
        effects: Seq<Effect>,
    ) -> bool {
        &&& then.session == self.session
        &&& then.same_surroundings(*self)
        &&& then.expected_user_ids@ == self.expected_user_ids@
        &&& if is_bot {
            &&& then.humans_in_channel@ == self.humans_in_channel@
            &&& then.timer_running == self.timer_running
            &&& effects == Seq::<Effect>::empty()
        } else {
            &&& then.humans_in_channel@ == (if new_channel == Some(self.session.channel_id) {
                self.humans_in_channel@.insert(user_id)
            } else {
                self.humans_in_channel@.remove(user_id)
            })
            &&& then.timer_running == then.deserted()
            &&& effects == timer_change(self.timer_running, then.deserted())
        }
    }

    /// Somebody's voice state changed. The bot's own changes do not count.
    pub fn apply_voice_state(&mut self, new_channel: Option<u64>, user_id: u64, is_bot: bool) -> (effects:
        Vec<Effect>)
        requires
            old(self).wf(),
        ensures
            final(self).wf(),
            final(self).cancelled == old(self).cancelled,
            old(self).voice_applied(*final(self), new_channel, user_id, is_bot, effects@),
    {
        let mut effects: Vec<Effect> = Vec::new();
        if is_bot {
            return effects;
        }
        let here = match new_channel {
            Some(c) => c == self.session.channel_id,
            None => false,
        };
        if here {
            self.humans_in_channel.insert(user_id);
        } else {
            self.humans_in_channel.remove(&user_id);
        }
        match self.recompute_timer() {
            Some(e) => {
                effects.push(e);
            },
            None => {},
        }
        assert(effects@ =~= timer_change(old(self).timer_running, self.deserted()));
        effects
    }

    /// `s` shows the session as it is.
    pub open spec fn shown_by(&self, s: SessionSnapshot) -> bool {
        &&& s.session_id@ == self.session.id@
        &&& s.guild_id == self.session.guild_id
        &&& s.recording == self.session.phase.recording()
        &&& s.stable == self.session.phase.recording()
        &&& s.phase_label@ == self.session.phase.name()
        &&& s.participant_count == self.session.participants@.len()
    }

    pub fn snapshot(&self) -> (s: SessionSnapshot)
        ensures
            self.shown_by(s),
    {
        SessionSnapshot {
            session_id: owned(self.session.id.as_str()),
            guild_id: self.session.guild_id,
            recording: self.session.phase.is_recording(),
            stable: self.session.phase.is_recording(),
            phase_label: self.session.phase.label(),
            participant_count: self.session.participants.len(),
        }
    }

    /// The answer to `/stop`: only the initiator stops a session, and only one
    /// that can be stopped.
    pub open spec fn stop_answer(&self, initiator: u64) -> Result<(), SessionError> {
        if self.session.initiator_id != initiator {
            Err(SessionError::NotInitiator)
        } else if !self.session.phase.stoppable() {
            Err(SessionError::NotStoppable)
        } else {
            Ok(())
        }
    }

    /// `self` differs from `was` at most in being cancelled.
    pub open spec fn unchanged_but_cancelled(&self, was: Actor) -> bool {
        *self == (Actor { cancelled: self.cancelled, ..was })
    }

    /// Take in a command at `now`.
    pub fn handle_cmd(&mut self, cmd: SessionCmd, now: Timestamp) -> (h: Handled)
        requires
            old(self).wf(),
            now.wf(),
        ensures
            final(self).wf(),
            final(self).session.phase == old(self).session.phase,
            final(self).session_uuid == old(self).session_uuid,
            final(self).mixing == old(self).mixing,
            final(self).cancelled == (old(self).cancelled || h.stop),
            match cmd {
                SessionCmd::RecordConsent { user, scope } => match h.reply {
                    Reply::Consent { result } => {
                        &&& h.stop == quorum_failed(result)
                        &&& exists|effects: Seq<Effect>| #[trigger]
                            old(self).consent_applied(
                                *final(self),
                                user,
                                scope,
                                now,
                                result,
                                effects,
                            ) && h.effects@ == with_cancel(effects, h.stop)
                    },
                    _ => false,
                },
                SessionCmd::SetLicense { user, field, value } => {
                    &&& !h.stop
                    &&& h.reply == (Reply::License {
                        step: old(self).license_step(user, field, value),
                    })
                    &&& *final(self) == *old(self)
                    &&& h.effects@ == Seq::<Effect>::empty()
                },
                SessionCmd::ToggleLicense { user, field } => {
                    let result = old(self).toggle_answer(user, field);
                    &&& !h.stop
                    &&& h.reply == (Reply::Toggle { result })
                    &&& *final(self) == (Actor {
                        license_flags: final(self).license_flags,
                        ..*old(self)
                    })
                    &&& final(self).license_flags@ == (match result {
                        Ok(t) => old(self).license_flags@.insert(
                            user,
                            (t.no_llm_training, t.no_public_release),
                        ),
                        Err(_) => old(self).license_flags@,
                    })
                    &&& h.effects@ == Seq::<Effect>::empty()
                },
                SessionCmd::Stop { initiator } => {
                    &&& h.reply == (Reply::Stop { result: old(self).stop_answer(initiator) })
                    &&& h.stop == (old(self).stop_answer(initiator) is Ok)
                    &&& final(self).unchanged_but_cancelled(*old(self))
                    &&& h.effects@ == with_cancel(seq![], h.stop)
                },
                SessionCmd::AutoStop => {
                    &&& h.reply is Nothing
                    &&& h.stop == old(self).session.phase.stoppable()
                    &&& final(self).unchanged_but_cancelled(*old(self))
                    &&& h.effects@ == with_cancel(seq![], h.stop)
                },
                SessionCmd::VoiceStateChange { new_channel, user_id, is_bot, .. } => {
                    &&& h.reply is Nothing
                    &&& !h.stop
                    &&& old(self).voice_applied(
                        *final(self),
                        new_channel,
                        user_id,
                        is_bot,
                        h.effects@,
                    )
                },
                SessionCmd::SetConsentMessage { channel_id, message_id } => {
                    &&& h.reply is Nothing
                    &&& !h.stop
                    &&& h.effects@ == Seq::<Effect>::empty()
                    &&& *final(self) == (Actor {
                        session: Session {
                            consent_message: Some((channel_id, message_id)),
                            ..old(self).session
                        },
                        ..*old(self)
                    })
                },
                SessionCmd::Enrol { user_id, display_name, .. } => match h.reply {
                    Reply::Enrol { step } => {
                        &&& !h.stop
                        &&& h.effects@ == Seq::<Effect>::empty()
                        &&& old(self).enrol_applied(*final(self), user_id, display_name@, step)
                    },
                    _ => false,
                },
                SessionCmd::GetSnapshot => match h.reply {
                    Reply::Snapshot { snapshot } => {
                        &&& old(self).shown_by(snapshot)
                        &&& !h.stop
                        &&& *final(self) == *old(self)
                        &&& h.effects@ == Seq::<Effect>::empty()
                    },
                    _ => false,
                },
            },
    {
        match cmd {
            SessionCmd::RecordConsent { user, scope } => {
                let (result, effects) = self.apply_consent(user, scope, now);
                let ghost base = effects@;
                let stop = match &result {
                    Ok(ConsentOutcome::QuorumFailed { .. }) => true,
                    _ => false,
                };
                let mut effects = effects;
                if stop {
                    self.cancelled = true;
                    effects.push(Effect::Cancel);
                }
                assert(old(self).consent_applied(*self, user, scope, now, result, base));
                Handled { reply: Reply::Consent { result }, effects, stop }
            },
            SessionCmd::SetLicense { user, field, value } => {
                let step = self.apply_license(user, field, value);
                Handled { reply: Reply::License { step }, effects: Vec::new(), stop: false }
            },
            SessionCmd::ToggleLicense { user, field } => {
                let result = self.toggle_license(user, field);
                Handled { reply: Reply::Toggle { result }, effects: Vec::new(), stop: false }
            },
            SessionCmd::Stop { initiator } => {
                if self.session.initiator_id != initiator {
                    return Handled {
                        reply: Reply::Stop { result: Err(SessionError::NotInitiator) },
                        effects: Vec::new(),
                        stop: false,
                    };
                }
                if !self.session.phase.is_stoppable() {
                    return Handled {
                        reply: Reply::Stop { result: Err(SessionError::NotStoppable) },
                        effects: Vec::new(),
                        stop: false,
                    };
                }
                self.cancelled = true;
                let mut effects: Vec<Effect> = Vec::new();
                effects.push(Effect::Cancel);
                assert(effects@ =~= with_cancel(seq![], true));
                Handled { reply: Reply::Stop { result: Ok(()) }, effects, stop: true }
            },
            SessionCmd::AutoStop => {
                let mut effects: Vec<Effect> = Vec::new();
                if !self.session.phase.is_stoppable() {
                    return Handled { reply: Reply::Nothing, effects, stop: false };
                }
                self.cancelled = true;
                effects.push(Effect::Cancel);
                assert(effects@ =~= with_cancel(seq![], true));
                Handled { reply: Reply::Nothing, effects, stop: true }
            },
            SessionCmd::VoiceStateChange { new_channel, user_id, is_bot, .. } => {
                let effects = self.apply_voice_state(new_channel, user_id, is_bot);
                Handled { reply: Reply::Nothing, effects, stop: false }
            },
            SessionCmd::SetConsentMessage { channel_id, message_id } => {
                self.session.consent_message = Some((channel_id, message_id));
                Handled { reply: Reply::Nothing, effects: Vec::new(), stop: false }
            },
            SessionCmd::Enrol { user_id, display_name, is_bot: _ } => {
                let step = self.apply_enrol(user_id, display_name);
                Handled { reply: Reply::Enrol { step }, effects: Vec::new(), stop: false }
            },
            SessionCmd::GetSnapshot => {
                let snapshot = self.snapshot();
                Handled { reply: Reply::Snapshot { snapshot }, effects: Vec::new(), stop: false }
            },
        }
    }
}

/// The records with the row `rows[i]` for the user `users[i]`, as far as both
/// go; users without a record are left out.
pub open spec fn rows_assigned(
    m: Map<u64, ParticipantConsent>,
    users: Seq<u64>,
    rows: Seq<u128>,
) -> Map<u64, ParticipantConsent>
    decreases users.len(),
{
    if users.len() == 0 {
        m
    } else {
        let before = rows_assigned(m, users.drop_last(), rows);
        let n = users.len() - 1;
        if n < rows.len() && before.contains_key(users[n]) {
            before.insert(
                users[n],
                ParticipantConsent { participant_uuid: Some(rows[n]), ..before[users[n]] },
            )
        } else {
            before
        }
    }
}

proof fn lemma_one_row(m: Map<u64, ParticipantConsent>, user: u64, row: u128)
    ensures
        rows_assigned(m, seq![user], seq![row]) == (if m.contains_key(user) {
            m.insert(user, ParticipantConsent { participant_uuid: Some(row), ..m[user] })
        } else {
            m
        }),
{
    assert(seq![user].drop_last() =~= seq![]);
    assert(rows_assigned(m, seq![user].drop_last(), seq![row]) == m);
}

/// No effect among `effects` reaches the data API.
pub open spec fn silent(effects: Seq<Effect>) -> bool {
    forall|i: int| 0 <= i < effects.len() ==> !(#[trigger] effects[i]).is_traffic()
}

/// Before the stabilization gate no choice is told to the data API.
pub proof fn law_no_traffic_before_gate(
    a: Actor,
    then: Actor,
    user: u64,
    scope: ConsentScope,
    now: Timestamp,
    answer: Result<ConsentOutcome, SessionError>,
    effects: Seq<Effect>,
)
    requires
        a.wf(),
        a.session_uuid is None,
        a.consent_applied(then, user, scope, now, answer, effects),
    ensures
        silent(effects),
        then.session_uuid is None,
{
    assert(!a.session.phase.recording());
}

/// Before the stabilization gate neither a license request nor an enrolment
/// reaches the data API: the one is refused, the other stays local.
pub proof fn law_requests_stay_local_before_gate(
    a: Actor,
    then: Actor,
    user: u64,
    field: LicenseField,
    value: bool,
    name: Seq<char>,
    step: EnrolStep,
)
    requires
        a.session_uuid is None,
        a.enrol_applied(then, user, name, step),
    ensures
        a.license_step(user, field, value) is Refused,
        a.toggle_answer(user, field) is Err,
        match step {
            EnrolStep::Enrolled { effects, .. } => silent(effects@),
            EnrolStep::AddRow { .. } => false,
        },
        then.session_uuid is None,
{
}

/// Who has chosen cannot choose again: the second answer is refused and changes
/// nothing.
pub proof fn law_choice_is_final(
    a: Actor,
    b: Actor,
    c: Actor,
    user: u64,
    first: ConsentScope,
    second: ConsentScope,
    t1: Timestamp,
    t2: Timestamp,
    outcome: ConsentOutcome,
    effects: Seq<Effect>,
    answer: Result<ConsentOutcome, SessionError>,
    more: Seq<Effect>,
)
    requires
        a.consent_applied(b, user, first, t1, Ok(outcome), effects),
        b.consent_applied(c, user, second, t2, answer, more),
    ensures
        answer == Err::<ConsentOutcome, SessionError>(SessionError::AlreadyResponded),
        c.session == b.session,
        more == Seq::<Effect>::empty(),
{
}

/// A decline makes the user's capture task drop what it holds, and never lets it
/// upload or feed the mix. No more audio is expected of the user.
pub proof fn law_decline_drops_audio(
    a: Actor,
    then: Actor,
    user: u64,
    now: Timestamp,
    outcome: ConsentOutcome,
    effects: Seq<Effect>,
)
    requires
        a.tasks@.contains(user),
        a.consent_applied(then, user, ConsentScope::Decline, now, Ok(outcome), effects),
    ensures
        effects.contains(Effect::Tell { user, cmd: ParticipantCmd::DropCache }) || effects.contains(
            Effect::Tell { user, cmd: ParticipantCmd::LateDecline },
        ),
        !effects.contains(Effect::Tell { user, cmd: ParticipantCmd::LateAccept }),
        forall|i: int|
            0 <= i < effects.len() ==> !((#[trigger] effects[i]) matches Effect::Tell {
                cmd: ParticipantCmd::GateOpened { .. },
                ..
            }),
        !then.expected_user_ids@.contains(user),
{
    let scope = ConsentScope::Decline;
    let traffic = a.consent_traffic(user, scope);
    let late = a.late_commands(user, scope);
    let drop = a.early_drop(user, scope);
    assert(a.default_flags(user, scope) =~= Seq::<Effect>::empty());
    if a.session.phase.recording() {
        assert(effects[traffic.len() as int] == late[0]);
    } else {
        assert(effects[0] == drop[0]);
    }
}

/// An acceptance after the stabilization gate flushes the user's backlog and
/// joins them to the mix, in this order.
pub proof fn law_late_accept_joins_mix(
    a: Actor,
    then: Actor,
    user: u64,
    now: Timestamp,
    outcome: ConsentOutcome,
    effects: Seq<Effect>,
)
    requires
        a.wf(),
        a.session.phase.recording(),
        a.tasks@.contains(user),
        a.consent_applied(then, user, ConsentScope::Full, now, Ok(outcome), effects),
    ensures
        exists|i: int|
            0 <= i < effects.len() - 1 && #[trigger] effects[i] == (Effect::Tell {
                user,
                cmd: ParticipantCmd::LateAccept,
            }) && effects[i + 1] == (Effect::Tell {
                user,
                cmd: ParticipantCmd::GateOpened {
                    accepted: true,
                    session_uuid: a.session_uuid->0,
                    mix: true,
                },
            }),
{
    let scope = ConsentScope::Full;
    let traffic = a.consent_traffic(user, scope);
    let late = a.late_commands(user, scope);
    let n = traffic.len() as int;
    assert(effects[n] == late[0]);
    assert(effects[n + 1] == late[1]);
}

/// The auto-stop timer runs exactly while nobody who might be recorded is in the
/// channel, from the first change of voice state on. Such changes never reach
/// the data API.
pub proof fn law_timer_follows_channel(
    a: Actor,
    then: Actor,
    new_channel: Option<u64>,
    user: u64,
    effects: Seq<Effect>,
)
    requires
        a.voice_applied(then, new_channel, user, false, effects),
    ensures
        then.timer_running <==> then.deserted(),
        effects.contains(Effect::StartTimer) <==> !a.timer_running && then.timer_running,
        effects.contains(Effect::AbortTimer) <==> a.timer_running && !then.timer_running,
        silent(effects),
{
    let e = timer_change(a.timer_running, then.deserted());
    if then.deserted() && !a.timer_running {
        assert(e[0] == Effect::StartTimer);
    } else if !then.deserted() && a.timer_running {
        assert(e[0] == Effect::AbortTimer);
    }
}

} // verus!
