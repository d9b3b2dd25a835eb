//! The life of a session, from the stabilization gate to the end.
//!
//! The caller waits for events and performs what is asked for. Here it is
//! decided what each event leads to: when the wait for the stabilization gate
//! is over, when the recording is, and what is left to do afterwards.

use crate::collect::{enumerates, set_items};
use crate::ident::uuid_of_text;
use crate::roll::ConsentEmbed;
use crate::session::actor::Actor;
use crate::session::heal::HealVerdict;
use crate::session::phases::Phase;
use crate::session::restart::{carry_forward, entries_after, granted, RestartBudget};
use crate::session::stabilization::StreakStatus;
use crate::session::{consent_buttons, promoted, Button, ButtonLook, Session, CONSENT_TEXT};
use crate::storage::bundle::{ConsentRecord, SessionMeta};
use crate::text::owned;
use crate::time::Timestamp;
use crate::voice::buffer::{delete_session, BufferRoot, DirRemoval};
use dashmap::DashMap;
use std::collections::HashSet;
use vstd::prelude::*;

verus! {

broadcast use vstd::std_specs::hash::group_hash_axioms;

/// How the wait for the stabilization gate ended.
#[derive(Debug, Clone, Copy, PartialEq, Eq, Structural)]
pub enum GateResult {
    Opened,
    Stopped,
    TimedOut,
}

/// Something that happens while the stabilization gate is waited for.
#[derive(Debug, Clone, Copy, PartialEq, Eq, Structural)]
pub enum WaitEvent {
    /// The session was cancelled.
    Cancelled,
    /// Nobody can send commands any more.
    Closed,
    /// A command was handled.
    Handled { stop: bool },
    /// The stabilization gate was looked at.
    Observed { status: StreakStatus },
}

/// The wait is over, or goes on (`None`).
pub open spec fn wait_result(event: WaitEvent) -> Option<GateResult> {
    match event {
        WaitEvent::Cancelled | WaitEvent::Closed => Some(GateResult::Stopped),
        WaitEvent::Handled { stop } => if stop {
            Some(GateResult::Stopped)
        } else {
            None
        },
        WaitEvent::Observed { status } => match status {
            StreakStatus::GateOpens { .. } => Some(GateResult::Opened),
            StreakStatus::TimedOut => Some(GateResult::TimedOut),
            StreakStatus::Streaking | StreakStatus::Unhealthy => None,
        },
    }
}

/// The wait is over, or goes on (`None`).
pub fn wait_for_gate(event: WaitEvent) -> (r: Option<GateResult>)
    ensures
        r == wait_result(event),
{
    match event {
        WaitEvent::Cancelled | WaitEvent::Closed => Some(GateResult::Stopped),
        WaitEvent::Handled { stop } => if stop {
            Some(GateResult::Stopped)
        } else {
            None
        },
        WaitEvent::Observed { status } => match status {
            StreakStatus::GateOpens { .. } => Some(GateResult::Opened),
            StreakStatus::TimedOut => Some(GateResult::TimedOut),
            StreakStatus::Streaking | StreakStatus::Unhealthy => None,
        },
    }
}

/// Something that happens while the session records.
#[derive(Debug, Clone, Copy, PartialEq, Eq, Structural)]
pub enum RecordEvent {
    /// The session was cancelled.
    Cancelled,
    /// Nobody can send commands any more.
    Closed,
    /// A command was handled.
    Handled { stop: bool },
    /// The connection was checked, and healed where it had to be.
    Checked { verdict: HealVerdict },
    /// A task of the session panicked.
    Panicked,
    /// The data API failed a chunk until there was no retry left.
    UploadGivenUp,
}

/// The session cannot go on as it is: the connection is beyond healing, a task
/// panicked, or the data API failed past all retries.
pub open spec fn catastrophic(event: RecordEvent) -> bool {
    ||| event == (RecordEvent::Checked { verdict: HealVerdict::BudgetExhausted })
    ||| event is Panicked
    ||| event is UploadGivenUp
}

/// What the event leads to.
#[derive(Debug, Clone, Copy, PartialEq, Eq, Structural)]
pub enum RecordStep {
    /// Go on.
    Stay,
    /// Forget what was heard, listen to the new connection, and go on.
    Reattach,
    /// Wind the session up.
    Finish,
    /// Let a successor take over.
    Restart,
    /// Say that the session is beyond recovery, and wind it up.
    GiveUp,
}

/// What is said when a session is beyond recovery.
pub const UNRECOVERABLE: &'static str = "Session unrecoverable \u{2014} please `/record` again.";

/// What is said when the stabilization gate never opened.
pub const ABANDONED: &'static str = "Session abandoned before recording started.";

/// What is said before a successor takes over.
pub const RESTARTING: &'static str = "Something went catastrophically wrong, restarting session.";

/// The sound that says that recording has started.
pub const STARTED_SOUND: &'static str = "/assets/recording_started.wav";

/// The sound that says that recording has stopped.
pub const STOPPED_SOUND: &'static str = "/assets/recording_stopped.wav";

/// How long a sound may play, as a span in nanoseconds.
pub const SOUND_PAUSE: u128 = 2_000_000_000;

/// Where the sound of an announcement lies, for the announcements that there are.
pub open spec fn sound_of(label: Seq<char>) -> Option<Seq<char>> {
    if label == "recording_started"@ {
        Some(STARTED_SOUND@)
    } else if label == "recording_stopped"@ {
        Some(STOPPED_SOUND@)
    } else {
        None
    }
}

/// Where the sound of an announcement lies, for the announcements that there are.
pub fn announcement_sound(label: &str) -> (path: Option<&'static str>)
    ensures
        match path {
            Some(p) => sound_of(label@) == Some(p@),
            None => sound_of(label@) is None,
        },
{
    if crate::text::same_text(label, "recording_started") {
        Some(STARTED_SOUND)
    } else if crate::text::same_text(label, "recording_stopped") {
        Some(STOPPED_SOUND)
    } else {
        None
    }
}

/// Phase `b` can come directly after phase `a`.
pub open spec fn may_follow(a: Phase, b: Phase) -> bool {
    match b {
        Phase::AwaitingStabilization { .. } => false,
        Phase::Recording { .. } => a is AwaitingStabilization,
        Phase::Cancelled => a is AwaitingStabilization,
        Phase::Restarting => a is Recording,
        Phase::Finalizing => !(a is Restarting),
    }
}

/// A session that is on its way out never comes back.
pub proof fn law_no_way_back(a: Phase, b: Phase)
    requires
        may_follow(a, b),
        !a.stoppable(),
    ensures
        !b.stoppable(),
{
}

/// A session records at most once: only the wait for the stabilization gate
/// leads there, and nothing leads back to that wait.
pub proof fn law_records_once(a: Phase, b: Phase)
    requires
        may_follow(a, b),
    ensures
        !(b is AwaitingStabilization),
        b is Recording ==> a is AwaitingStabilization,
        b is Restarting ==> a is Recording,
{
}

/// The consent prompt with its buttons.
pub struct ConsentPrompt {
    pub channel_id: u64,
    pub embed: ConsentEmbed,
    pub buttons: Vec<Button>,
}

/// What is left to do with the session's row.
pub struct RowClosing {
    pub session: u128,
    pub meta: SessionMeta,
    pub consent: ConsentRecord,
    pub participant_count: i32,
}

/// A last change of the consent prompt.
pub struct ClosingEdit {
    pub channel_id: u64,
    pub message_id: u64,
    pub embed: ConsentEmbed,
}

impl ClosingEdit {
    /// The thanks that stand in place of the prompt.
    pub open spec fn thanks(self, place: (u64, u64)) -> bool {
        &&& self.channel_id == place.0
        &&& self.message_id == place.1
        &&& self.embed.title@ == "Session complete"@
        &&& self.embed.description@ == "Recording has ended. Thank you for contributing!"@
        &&& self.embed.color == 0x8b949e
        &&& self.embed.fields@.len() == 0
    }
}

/// What is left to do when a session ends, in this order.
pub struct Windup {
    /// Announce that recording has stopped.
    pub announce: bool,
    /// Stop the mix task.
    pub stop_mix: bool,
    /// Stop the capture tasks of these users.
    pub stop_tasks: Vec<u64>,
    /// Complete the session's row. Without one, say that the session was
    /// abandoned.
    pub row: Option<RowClosing>,
    pub removal: DirRemoval,
    pub edit: Option<ClosingEdit>,
}

/// What is left to do before a successor takes over, in this order.
pub struct RestartPlan {
    /// Give up this row.
    pub abandon: Option<u128>,
    pub removal: DirRemoval,
}

/// `n` in 32 bits with a sign.
pub open spec fn signed32(n: nat) -> int {
    let r = (n % 0x1_0000_0000) as int;
    if r < 0x8000_0000 {
        r
    } else {
        r - 0x1_0000_0000
    }
}

fn to_signed32(n: usize) -> (r: i32)
    ensures
        r == signed32(n as nat),
{
    let low: u64 = (n as u64) % 0x1_0000_0000;
    if low < 0x8000_0000 {
        low as i32
    } else {
        (low as i64 - 0x1_0000_0000) as i32
    }
}

impl Actor {
    /// `self` is `was` in phase `phase`.
    pub open spec fn entered(&self, was: Actor, phase: Phase) -> bool {
        *self == (Actor { session: Session { phase, ..was.session }, ..was })
    }

    /// The wait for the stabilization gate is over. Whether it is to be opened;
    /// if not, the session is cancelled.
    pub fn conclude_wait(&mut self, result: GateResult) -> (open: bool)
        requires
            old(self).wf(),
            old(self).session.phase is AwaitingStabilization,
        ensures
            final(self).wf(),
            open == (result is Opened),
            open ==> *final(self) == *old(self),
            !open ==> final(self).entered(*old(self), Phase::Cancelled),
            !open ==> may_follow(old(self).session.phase, final(self).session.phase),
    {
        match result {
            GateResult::Opened => true,
            GateResult::Stopped | GateResult::TimedOut => {
                self.session.phase = Phase::Cancelled;
                false
            },
        }
    }

    /// The stabilization gate could not be opened: the session is cancelled.
    pub fn gate_failed(&mut self)
        requires
            old(self).wf(),
            old(self).session.phase is AwaitingStabilization,
        ensures
            final(self).wf(),
            final(self).entered(*old(self), Phase::Cancelled),
            may_follow(old(self).session.phase, final(self).session.phase),
    {
        self.session.phase = Phase::Cancelled;
    }

    /// The stabilization gate is open at `now`: recording begins. The consent
    /// prompt is to be sent, unless there is one already.
    pub fn begin_recording(&mut self, now: Timestamp) -> (prompt: Option<ConsentPrompt>)
        requires
            old(self).wf(),
            old(self).session.phase is AwaitingStabilization,
            old(self).session_uuid is Some,
            old(self).mixing,
            now.wf(),
        ensures
            final(self).wf(),
            final(self).entered(*old(self), Phase::Recording { gate_opened_at: now }),
            may_follow(old(self).session.phase, final(self).session.phase),
            match prompt {
                None => old(self).session.consent_message is Some,
                Some(p) => {
                    &&& old(self).session.consent_message is None
                    &&& p.channel_id == old(self).session.text_channel_id
                    &&& p.embed.asks(CONSENT_TEXT@, old(self).session.participants@)
                    &&& p.buttons@.len() == 2
                    &&& p.buttons@[0].reads("consent_accept"@, "Accept"@, ButtonLook::Success)
                    &&& p.buttons@[1].reads("consent_decline"@, "Decline"@, ButtonLook::Danger)
                },
            },
    {
        self.session.phase = Phase::Recording { gate_opened_at: now };
        if self.session.consent_message.is_some() {
            None
        } else {
            Some(
                ConsentPrompt {
                    channel_id: self.session.text_channel_id,
                    embed: self.session.consent_embed(),
                    buttons: consent_buttons(),
                },
            )
        }
    }

    /// Take in an event while recording, `at` nanoseconds after the budget was
    /// made. A catastrophe leads to a restart, as long as the guild has one left.
    pub fn recording_step_at(&mut self, budget: &mut RestartBudget, event: RecordEvent, at: u128) -> (step:
        RecordStep)
        requires
            old(self).wf(),
            old(self).session.phase.recording(),
        ensures
            final(self).wf(),
            catastrophic(event) ==> step == (if granted(
                old(budget).entries(),
                old(self).session.guild_id,
                at,
            ) {
                RecordStep::Restart
            } else {
                RecordStep::GiveUp
            }),
            !catastrophic(event) ==> match event {
                RecordEvent::Cancelled | RecordEvent::Closed => step is Finish,
                RecordEvent::Handled { stop } => step == (if stop {
                    RecordStep::Finish
                } else {
                    RecordStep::Stay
                }),
                RecordEvent::Checked { verdict } => step == (if verdict is Healed {
                    RecordStep::Reattach
                } else {
                    RecordStep::Stay
                }),
                RecordEvent::Panicked | RecordEvent::UploadGivenUp => false,
            },
            step is Restart ==> final(self).entered(*old(self), Phase::Restarting) && may_follow(
                old(self).session.phase,
                final(self).session.phase,
            ),
            !(step is Restart) ==> *final(self) == *old(self),
            final(budget).entries() == (if catastrophic(event) {
                entries_after(old(budget).entries(), old(self).session.guild_id, at)
            } else {
                old(budget).entries()
            }),
    {
        match event {
            RecordEvent::Cancelled | RecordEvent::Closed => RecordStep::Finish,
            RecordEvent::Handled { stop } => if stop {
                RecordStep::Finish
            } else {
                RecordStep::Stay
            },
            RecordEvent::Checked { verdict: HealVerdict::Healthy } => RecordStep::Stay,
            RecordEvent::Checked { verdict: HealVerdict::Healed } => RecordStep::Reattach,
            RecordEvent::Checked { verdict: HealVerdict::BudgetExhausted }
            | RecordEvent::Panicked
            | RecordEvent::UploadGivenUp => {
                if budget.try_consume_at(self.session.guild_id, at) {
                    self.session.phase = Phase::Restarting;
                    RecordStep::Restart
                } else {
                    RecordStep::GiveUp
                }
            },
        }
    }

    /// Everything has stopped; the session ends at `now`. A session whose gate
    /// opened completes its row. One whose gate never did leaves no trace in the
    /// data API.
    pub fn finalize_normal(&mut self, root: &BufferRoot, now: Timestamp) -> (w: Windup)
        requires
            old(self).wf(),
            !(old(self).session.phase is Restarting),
            now.wf(),
        ensures
            final(self).wf(),
            may_follow(old(self).session.phase, final(self).session.phase),
            final(self).session == (Session {
                phase: Phase::Finalizing,
                ended_at: Some(now),
                ..old(self).session
            }),
            final(self).tasks@ == Set::<u64>::empty(),
            final(self).expected_user_ids == old(self).expected_user_ids,
            final(self).session_uuid == old(self).session_uuid,
            !final(self).mixing,
            final(self).humans_in_channel == old(self).humans_in_channel,
            final(self).timer_running == old(self).timer_running,
            final(self).license_flags == old(self).license_flags,
            final(self).cancelled == old(self).cancelled,
            w.announce == old(self).session.phase.recording(),
            w.stop_mix == old(self).mixing,
            enumerates(w.stop_tasks@, old(self).tasks@),
            match w.row {
                Some(c) => {
                    &&& old(self).session_uuid == Some(c.session)
                    &&& final(self).session.summed_up_by(c.meta)
                    &&& final(self).session.choices_in(c.consent)
                    &&& c.participant_count == signed32(old(self).session.participants@.len())
                },
                None => old(self).session_uuid is None,
            },
            w.removal.dir@ == root.session_path(old(self).session.id@),
            match w.edit {
                Some(e) => old(self).session.consent_message is Some && e.thanks(
                    old(self).session.consent_message->0,
                ),
                None => old(self).session.consent_message is None,
            },
    {
        let announce = self.session.phase.is_recording();
        let stop_mix = self.mixing;
        let stop_tasks = set_items(&self.tasks);
        self.session.phase = Phase::Finalizing;
        self.session.ended_at = Some(now);
        self.mixing = false;
        self.tasks = HashSet::new();
        let row = match self.session_uuid {
            Some(session) => Some(
                RowClosing {
                    session,
                    meta: self.session.meta(),
                    consent: self.session.consent_record(),
                    participant_count: to_signed32(self.session.participants.len()),
                },
            ),
            None => None,
        };
        let removal = delete_session(root, self.session.id.as_str());
        let edit = match self.session.consent_message {
            Some((channel_id, message_id)) => Some(
                ClosingEdit {
                    channel_id,
                    message_id,
                    embed: ConsentEmbed {
                        title: owned("Session complete"),
                        description: owned("Recording has ended. Thank you for contributing!"),
                        color: 0x8b949e,
                        fields: Vec::new(),
                    },
                },
            ),
            None => None,
        };
        Windup { announce, stop_mix, stop_tasks, row, removal, edit }
    }

    /// The session failed and a successor is about to take over: its row is given
    /// up, and what it cached is removed.
    pub fn finalize_before_restart(&self, root: &BufferRoot) -> (plan: RestartPlan)
        ensures
            plan.abandon == self.session_uuid,
            plan.removal.dir@ == root.session_path(self.session.id@),
    {
        RestartPlan {
            abandon: self.session_uuid,
            removal: delete_session(root, self.session.id.as_str()),
        }
    }
}

/// What a registry of sessions holds: per guild, the number of the handle of its
/// session.
pub uninterp spec fn session_slots(m: DashMap<u64, u64>) -> Map<u64, u64>;

/// No guild has a session.
pub open spec fn no_sessions() -> Map<u64, u64> {
    Map::empty()
}

/// `DashMap::new`: an empty map.
#[verifier::external_body]
fn new_slots() -> (m: DashMap<u64, u64>)
    ensures
        session_slots(m) == no_sessions(),
{
    DashMap::new()
}

/// `DashMap::entry` with `VacantEntry::insert`: a key that the map does not have
/// gets the value; one that it has keeps its own. Whether the key was new.
#[verifier::external_body]
fn claim_slot(m: &mut DashMap<u64, u64>, guild: u64, handle: u64) -> (claimed: bool)
    ensures
        claimed == !session_slots(*old(m)).contains_key(guild),
        session_slots(*final(m)) == (if claimed {
            session_slots(*old(m)).insert(guild, handle)
        } else {
            session_slots(*old(m))
        }),
{
    match m.entry(guild) {
        dashmap::mapref::entry::Entry::Occupied(_) => false,
        dashmap::mapref::entry::Entry::Vacant(v) => {
            v.insert(handle);
            true
        },
    }
}

/// `DashMap::get`: the value of a key.
#[verifier::external_body]
fn slot_of(m: &DashMap<u64, u64>, guild: u64) -> (handle: Option<u64>)
    ensures
        handle == (if session_slots(*m).contains_key(guild) {
            Some(session_slots(*m)[guild])
        } else {
            None
        }),
{
    m.get(&guild).map(|h| *h)
}

/// `DashMap::remove`: the map without a key.
#[verifier::external_body]
fn free_slot(m: &mut DashMap<u64, u64>, guild: u64)
    ensures
        session_slots(*final(m)) == session_slots(*old(m)).remove(guild),
{
    m.remove(&guild);
}

/// The sessions that run, at most one per guild. A session is known by the number
/// of the handle through which commands reach it.
pub struct SessionRegistry {
    slots: DashMap<u64, u64>,
}

impl SessionRegistry {
    /// Per guild, the handle of its session.
    pub closed spec fn sessions(&self) -> Map<u64, u64> {
        session_slots(self.slots)
    }

    pub fn new() -> (r: SessionRegistry)
        ensures
            r.sessions() == no_sessions(),
    {
        SessionRegistry { slots: new_slots() }
    }

    /// The handle of a guild's session.
    pub fn holder(&self, guild_id: u64) -> (handle: Option<u64>)
        ensures
            handle == (if self.sessions().contains_key(guild_id) {
                Some(self.sessions()[guild_id])
            } else {
                None
            }),
    {
        slot_of(&self.slots, guild_id)
    }

    /// The session behind `handle` has ended. A successor that took its place
    /// stays.
    pub fn release(&mut self, guild_id: u64, handle: u64)
        ensures
            final(self).sessions() == (if old(self).sessions().contains_pair(guild_id, handle) {
                old(self).sessions().remove(guild_id)
            } else {
                old(self).sessions()
            }),
    {
        if let Some(h) = slot_of(&self.slots, guild_id) {
            if h == handle {
                free_slot(&mut self.slots, guild_id);
            }
        }
    }

    /// Let a session run behind `handle`, unless its guild has one already; then
    /// it is handed back.
    pub fn spawn_session(&mut self, session: Session, handle: u64) -> (r: Result<Actor, Session>)
        requires
            session.wf(),
            !session.phase.recording(),
        ensures
            match r {
                Err(s) => {
                    &&& old(self).sessions().contains_key(session.guild_id)
                    &&& s == session
                    &&& final(self).sessions() == old(self).sessions()
                },
                Ok(a) => {
                    &&& !old(self).sessions().contains_key(session.guild_id)
                    &&& a.wf()
                    &&& a.started_from(session)
                    &&& final(self).sessions() == old(self).sessions().insert(
                        session.guild_id,
                        handle,
                    )
                },
            },
    {
        if claim_slot(&mut self.slots, session.guild_id, handle) {
            Ok(Actor::new(session))
        } else {
            Err(session)
        }
    }

    /// A failed session gives its place to its successor, which runs behind
    /// `handle`: the same guild, channels, initiator and participants under a
    /// fresh id. Whoever had not answered counts as having declined.
    pub fn spawn_restart(
        &mut self,
        failed: &Session,
        min_participants: usize,
        require_all: bool,
        handle: u64,
    ) -> (a: Actor)
        requires
            failed.wf(),
        ensures
            a.wf(),
            final(self).sessions() == old(self).sessions().insert(failed.guild_id, handle),
            exists|next: Session| #[trigger]
                succeeds(next, *failed, min_participants, require_all) && a.started_from(next),
    {
        let carried = carry_forward(&failed.participants);
        proof {
            assert forall|k: u64| #[trigger] carried@.contains_key(k) implies carried@[k].user_id == k
                && (carried@[k].consented_at is Some ==> carried@[k].consented_at->0.wf()) by {
                assert(carried@[k].same(failed.participants@[k]));
                assert(failed.participants@.contains_key(k));
            }
        }
        let next = Session::new_carry_forward(
            failed.guild_id,
            failed.channel_id,
            failed.text_channel_id,
            failed.initiator_id,
            min_participants,
            require_all,
            carried,
        );
        proof {
            assert forall|k: u64| #[trigger] next.participants@.contains_key(k) implies
                next.participants@[k].same(promoted(failed.participants@[k])) by {
                assert(carried@[k].same(failed.participants@[k]));
            }
            assert(next.participants@.dom() =~= failed.participants@.dom());
        }
        assert(succeeds(next, *failed, min_participants, require_all));
        free_slot(&mut self.slots, failed.guild_id);
        claim_slot(&mut self.slots, failed.guild_id, handle);
        assert(self.sessions() =~= old(self).sessions().insert(failed.guild_id, handle));
        Actor::new(next)
    }
}

impl Actor {
    /// The actor of `session` before it has done anything.
    pub open spec fn started_from(&self, session: Session) -> bool {
        &&& self.session == session
        &&& self.tasks@ == Set::<u64>::empty()
        &&& self.expected_user_ids@ == crate::session::actor::undeclined(session.participants@)
        &&& self.session_uuid is None
        &&& !self.mixing
        &&& self.humans_in_channel@ == session.participants@.dom()
        &&& !self.timer_running
        &&& self.license_flags@ == Map::<u64, (bool, bool)>::empty()
        &&& !self.cancelled
    }
}

/// `next` is a successor of `failed`, under an id that stands for a UUID.
pub open spec fn succeeds(
    next: Session,
    failed: Session,
    min_participants: usize,
    require_all: bool,
) -> bool {
    &&& uuid_of_text(next.id@) is Some
    &&& next.wf()
    &&& next.guild_id == failed.guild_id
    &&& next.phase is AwaitingStabilization
    &&& next.channel_id == failed.channel_id
    &&& next.text_channel_id == failed.text_channel_id
    &&& next.initiator_id == failed.initiator_id
    &&& next.min_participants == min_participants
    &&& next.require_all == require_all
    &&& next.ended_at is None
    &&& next.consent_message is None
    &&& next.participants@.dom() == failed.participants@.dom()
    &&& forall|k: u64| #[trigger]
        next.participants@.contains_key(k) ==> next.participants@[k].same(
            promoted(failed.participants@[k]),
        )
}

/// After a restart nobody is still to be asked: who had not answered counts as
/// having declined, and every answer is kept.
pub proof fn law_restart_keeps_answers(
    next: Session,
    failed: Session,
    min_participants: usize,
    require_all: bool,
    user: u64,
)
    requires
        succeeds(next, failed, min_participants, require_all),
        failed.participants@.contains_key(user),
    ensures
        next.participants@.contains_key(user),
        next.everyone_answered(),
        failed.participants@[user].scope is Some ==> next.participants@[user].scope
            == failed.participants@[user].scope,
        failed.participants@[user].scope is None ==> next.participants@[user].scope == Some(
            crate::session::ConsentScope::Decline,
        ),
{
    assert(next.participants@.dom().contains(user));
    assert forall|k: u64| #[trigger] next.participants@.contains_key(k) implies
        next.participants@[k].scope is Some by {
        assert(next.participants@[k].same(promoted(failed.participants@[k])));
    }
}

} // verus!
