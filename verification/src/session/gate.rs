//! Opening the stabilization gate, step by step.
//!
//! In order: check the participants against the blocklist and let go of those
//! who are blocked; create the session's row, which is the first thing the data
//! API hears of the session; add the participants who have not declined; let go
//! of those who have; have the rest cache what still waits; render one mix from
//! their caches; flush every cache; and switch the capture tasks over.
//!
//! The rest are all who have not declined. Of those who have not answered yet,
//! too, what was said before the stabilization gate is mixed and flushed; what
//! they say afterwards is cached until they answer.

use crate::collect::{enumerates, lemma_take_next, map_keys, set_items};
use crate::ident::{parse_uuid, uuid_error, uuid_of_text};
use crate::session::actor::{accepted, participants_where, rows_assigned, undeclined, Actor, Effect};
use crate::session::capture::ParticipantCmd;
use crate::session::{ParticipantConsent, Session};
use crate::storage::bundle::{pseudonym, pseudonymize};
use crate::text::{dec_string, dec_text, owned};
use crate::time::Timestamp;
use crate::voice::buffer::{BufferRoot, MIXED_PSEUDO_ID};
use std::collections::HashSet;
use vstd::prelude::*;
use vstd::string::*;

verus! {

broadcast use vstd::std_specs::hash::group_hash_axioms;

/// What a look at the blocklist came to.
#[derive(Debug, Clone, Copy, PartialEq, Eq, Structural)]
pub enum BlocklistReply {
    Clear,
    Blocked,
    /// The data API did not answer. Nobody is kept out for that.
    Unanswered,
    /// The look itself was lost.
    Lost,
}

/// Nothing stands against the user.
pub open spec fn lets_in(reply: BlocklistReply) -> bool {
    reply is Clear || reply is Unanswered
}

/// The users whom the blocklist lets in.
pub open spec fn let_in(replies: Seq<(u64, BlocklistReply)>) -> Set<u64>
    decreases replies.len(),
{
    if replies.len() == 0 {
        Set::empty()
    } else {
        let before = let_in(replies.drop_last());
        if lets_in(replies.last().1) {
            before.insert(replies.last().0)
        } else {
            before
        }
    }
}

/// The participants whom the blocklist does not let in.
pub open spec fn kept_out(
    m: Map<u64, ParticipantConsent>,
    replies: Seq<(u64, BlocklistReply)>,
) -> Set<u64> {
    m.dom().difference(let_in(replies))
}

/// The participants who have declined.
pub open spec fn declined(m: Map<u64, ParticipantConsent>) -> Set<u64> {
    m.dom().difference(undeclined(m))
}

/// The users whom the blocklist lets in.
pub fn blocklist_filter(replies: &Vec<(u64, BlocklistReply)>) -> (allowed: HashSet<u64>)
    ensures
        allowed@ == let_in(replies@),
{
    let mut allowed: HashSet<u64> = HashSet::new();
    let mut i: usize = 0;
    assert(replies@.take(0) =~= seq![]);
    while i < replies.len()
        invariant
            0 <= i <= replies@.len(),
            allowed@ == let_in(replies@.take(i as int)),
        decreases replies@.len() - i,
    {
        assert(replies@.take(i + 1).drop_last() =~= replies@.take(i as int));
        let (user, reply) = replies[i];
        match reply {
            BlocklistReply::Clear | BlocklistReply::Unanswered => {
                allowed.insert(user);
            },
            BlocklistReply::Blocked | BlocklistReply::Lost => {},
        }
        i = i + 1;
    }
    assert(replies@.take(replies@.len() as int) =~= replies@);
    allowed
}

/// The row of a session, as it is created.
pub struct SessionRow {
    pub id: u128,
    pub guild_id: i64,
    pub started_at: Timestamp,
    pub s3_prefix: String,
}

/// `n` in 64 bits with a sign.
pub open spec fn signed64(n: u64) -> int {
    if n < 0x8000_0000_0000_0000 {
        n as int
    } else {
        n - 0x1_0000_0000_0000_0000
    }
}

/// `n` in 64 bits with a sign.
pub fn to_signed64(n: u64) -> (r: i64)
    ensures
        r == signed64(n),
{
    if n < 0x8000_0000_0000_0000 {
        n as i64
    } else {
        -((u64::MAX - n) as i64) - 1
    }
}

/// Where the audio of a session is stored.
pub open spec fn storage_prefix(guild_id: u64, session_id: Seq<char>) -> Seq<char> {
    "sessions/"@ + dec_text(guild_id as nat) + "/"@ + session_id
}

/// Where the audio of a session is stored.
pub fn s3_prefix(guild_id: u64, session_id: &str) -> (p: String)
    ensures
        p@ == storage_prefix(guild_id, session_id@),
{
    let mut p = owned("sessions/");
    p.append(dec_string(guild_id).as_str());
    p.append("/");
    p.append(session_id);
    p
}

/// A participant who is added to the session's row.
pub struct Enrolment {
    pub user_id: u64,
    pub mid_session_join: bool,
    pub display_name: String,
}

/// `e` is the enrolment of `p`.
pub open spec fn enrols(e: Enrolment, p: ParticipantConsent) -> bool {
    &&& e.user_id == p.user_id
    &&& e.mid_session_join == p.mid_session_join
    &&& e.display_name@ == p.display_name@
}

/// The users of a list of enrolments.
pub open spec fn enrolled_users(list: Seq<Enrolment>) -> Seq<u64> {
    list.map_values(|e: Enrolment| e.user_id)
}

/// A cache that is to be flushed.
pub struct FlushTarget {
    pub pseudo_id: String,
    pub dir: String,
}

impl FlushTarget {
    /// The cache of a pseudonym.
    pub open spec fn caches(self, root: BufferRoot, session_id: Seq<char>, pseudo: Seq<char>) -> bool {
        self.pseudo_id@ == pseudo && self.dir@ == root.participant_path(session_id, pseudo)
    }
}

/// Why the stabilization gate did not open.
pub enum GateFailure {
    /// The session's id is not a UUID.
    BadSessionId { message: String },
    CreateSession { message: String },
    AddParticipants { message: String },
    /// The caches could not be looked through.
    CollectMix { message: String },
    /// The writing of the mix was lost.
    JoinMix { message: String },
    WriteMix { message: String },
}

impl GateFailure {
    /// What the failure says.
    pub open spec fn text(self) -> Seq<char> {
        match self {
            GateFailure::BadSessionId { message } => message@,
            GateFailure::CreateSession { message } => "create_session: "@ + message@,
            GateFailure::AddParticipants { message } => "add_participants_batch: "@ + message@,
            GateFailure::CollectMix { message } => "mix_sources_join: "@ + message@,
            GateFailure::JoinMix { message } => "mix_write_join: "@ + message@,
            GateFailure::WriteMix { message } => "mix_write: "@ + message@,
        }
    }

    /// What the failure says.
    pub fn message(&self) -> (m: String)
        ensures
            m@ == self.text(),
    {
        let (prefix, message) = match self {
            GateFailure::BadSessionId { message } => {
                return owned(message.as_str());
            },
            GateFailure::CreateSession { message } => ("create_session: ", message),
            GateFailure::AddParticipants { message } => ("add_participants_batch: ", message),
            GateFailure::CollectMix { message } => ("mix_sources_join: ", message),
            GateFailure::JoinMix { message } => ("mix_write_join: ", message),
            GateFailure::WriteMix { message } => ("mix_write: ", message),
        };
        let mut m = owned(prefix);
        m.append(message.as_str());
        m
    }
}

/// How far the stabilization gate has come.
#[derive(Debug, Clone, Copy, PartialEq, Eq, Structural)]
pub enum GateStage {
    CheckingBlocklist,
    CreatingRow,
    AddingParticipants,
    WritingMix,
    Flushing,
    Over,
}

/// What has to be done next.
pub enum GateRequest {
    /// Look up each of these users in the blocklist.
    CheckBlocklist { users: Vec<u64> },
    /// Shut these capture tasks down with their caches, then create the row.
    CreateRow { dropped: Vec<u64>, row: SessionRow },
    /// Add these participants, in this order.
    AddParticipants { session: u128, list: Vec<Enrolment> },
    /// Shut these capture tasks down with their caches. Then tell the capture
    /// tasks of `waiting` to cache what waits, and see that they have. Then render
    /// the mix of these caches and write it to the cache of the mix.
    WriteMix { dropped: Vec<u64>, waiting: Vec<u64>, sources: Vec<FlushTarget> },
    /// Flush these caches, all at once.
    Flush { session: u128, targets: Vec<FlushTarget> },
    /// Start the mix task, whose chunks are numbered from `first_mix_seq` on,
    /// then perform the effects. The stabilization gate is open.
    Opened { session: u128, first_mix_seq: u32, effects: Vec<Effect> },
    /// The stabilization gate stays shut.
    Failed { failure: GateFailure },
}

/// The opening of a session's gate.
pub struct GateOpening {
    pub stage: GateStage,
    pub session_uuid: u128,
    /// The participants who were added, in order.
    pub added: Vec<u64>,
    /// How many chunks the mix of the caches has.
    pub mix_chunks: u32,
}

/// Those of `users` who are in `set`, or those who are not.
fn select(users: &Vec<u64>, set: &HashSet<u64>, inside: bool) -> (found: Vec<u64>)
    requires
        users@.no_duplicates(),
    ensures
        enumerates(
            found@,
            if inside {
                users@.to_set().intersect(set@)
            } else {
                users@.to_set().difference(set@)
            },
        ),
{
    let mut found: Vec<u64> = Vec::new();
    let mut i: usize = 0;
    let ghost want = |s: Set<u64>|
        if inside {
            s.intersect(set@)
        } else {
            s.difference(set@)
        };
    assert(found@.to_set() =~= want(users@.take(0).to_set()));
    while i < users.len()
        invariant
            0 <= i <= users@.len(),
            users@.no_duplicates(),
            want == (|s: Set<u64>|
                if inside {
                    s.intersect(set@)
                } else {
                    s.difference(set@)
                }),
            enumerates(found@, want(users@.take(i as int).to_set())),
        decreases users@.len() - i,
    {
        let u: u64 = users[i];
        proof {
            lemma_take_next(users@, i as int);
        }
        let ghost before = found@;
        if set.contains(&u) == inside {
            found.push(u);
            proof {
                assert(!before.contains(u)) by {
                    if before.contains(u) {
                        assert(before.to_set().contains(u));
                    }
                }
                lemma_take_next(found@, before.len() as int);
                assert(found@.take(before.len() as int) =~= before);
                assert(found@.take(found@.len() as int) =~= found@);
            }
        }
        assert(found@.to_set() =~= want(users@.take(i + 1).to_set()));
        i = i + 1;
    }
    assert(users@.take(users@.len() as int) =~= users@);
    found
}

/// Take `gone` out of `tasks`.
fn forget_tasks(tasks: &mut HashSet<u64>, gone: &Vec<u64>)
    ensures
        final(tasks)@ == old(tasks)@.difference(gone@.to_set()),
{
    let ghost start = tasks@;
    let mut i: usize = 0;
    assert(tasks@ =~= start.difference(gone@.take(0).to_set()));
    while i < gone.len()
        invariant
            0 <= i <= gone@.len(),
            tasks@ == start.difference(gone@.take(i as int).to_set()),
        decreases gone@.len() - i,
    {
        proof {
            lemma_take_next(gone@, i as int);
        }
        tasks.remove(&gone[i]);
        assert(tasks@ =~= start.difference(gone@.take(i + 1).to_set()));
        i = i + 1;
    }
    assert(gone@.take(gone@.len() as int) =~= gone@);
}

/// Take `gone` out of the participants.
fn forget_participants(session: &mut Session, gone: &Vec<u64>)
    requires
        old(session).wf(),
    ensures
        final(session).wf(),
        final(session).differs_in_participants(*old(session)),
        final(session).participants@ == old(session).participants@.remove_keys(gone@.to_set()),
{
    let ghost start = session.participants@;
    let mut i: usize = 0;
    assert(start.remove_keys(gone@.take(0).to_set()) =~= start);
    while i < gone.len()
        invariant
            0 <= i <= gone@.len(),
            session.wf(),
            session.differs_in_participants(*old(session)),
            session.participants@ == start.remove_keys(gone@.take(i as int).to_set()),
        decreases gone@.len() - i,
    {
        proof {
            lemma_take_next(gone@, i as int);
        }
        session.participants.remove(&gone[i]);
        assert(session.participants@ =~= start.remove_keys(gone@.take(i + 1).to_set()));
        i = i + 1;
    }
    assert(gone@.take(gone@.len() as int) =~= gone@);
}

/// The caches of the users in `order`.
pub open spec fn cache_of_each(
    targets: Seq<FlushTarget>,
    root: BufferRoot,
    session_id: Seq<char>,
    order: Seq<u64>,
) -> bool {
    &&& targets.len() == order.len()
    &&& forall|i: int|
        0 <= i < order.len() ==> (#[trigger] targets[i]).caches(
            root,
            session_id,
            pseudonym(order[i]),
        )
}

/// What every capture task is told when the stabilization gate opens: accepted
/// speakers upload and feed the mix, the others keep caching.
pub open spec fn switch_over(
    order: Seq<u64>,
    m: Map<u64, ParticipantConsent>,
    session_uuid: u128,
) -> Seq<Effect> {
    order.map_values(
        |u: u64|
            Effect::Tell {
                user: u,
                cmd: ParticipantCmd::GateOpened {
                    accepted: accepted(m).contains(u),
                    session_uuid,
                    mix: accepted(m).contains(u),
                },
            },
    )
}

impl Actor {
    /// `self` differs from `was` at most in participants and capture tasks.
    pub open spec fn same_but_people(&self, was: Actor) -> bool {
        &&& self.session.differs_in_participants(was.session)
        &&& self.expected_user_ids == was.expected_user_ids
        &&& self.session_uuid == was.session_uuid
        &&& self.mixing == was.mixing
        &&& self.humans_in_channel == was.humans_in_channel
        &&& self.timer_running == was.timer_running
        &&& self.license_flags == was.license_flags
        &&& self.cancelled == was.cancelled
    }

    /// The users who have a capture task, and their caches.
    fn task_caches(&self, root: &BufferRoot) -> (r: (Vec<u64>, Vec<FlushTarget>))
        ensures
            enumerates(r.0@, self.tasks@),
            cache_of_each(r.1@, *root, self.session.id@, r.0@),
    {
        let order = set_items(&self.tasks);
        let mut targets: Vec<FlushTarget> = Vec::new();
        let mut i: usize = 0;
        while i < order.len()
            invariant
                0 <= i <= order@.len(),
                targets@.len() == i,
                forall|j: int|
                    0 <= j < i ==> (#[trigger] targets@[j]).caches(
                        *root,
                        self.session.id@,
                        pseudonym(order@[j]),
                    ),
            decreases order@.len() - i,
        {
            let pseudo_id = pseudonymize(order[i]);
            let dir = root.participant_dir(self.session.id.as_str(), pseudo_id.as_str());
            targets.push(FlushTarget { pseudo_id, dir });
            i = i + 1;
        }
        (order, targets)
    }

    /// The participants who have not declined, as they are added to the row.
    fn enrolments(&self) -> (list: Vec<Enrolment>)
        ensures
            exists|order: Seq<u64>| #[trigger]
                enumerates(order, undeclined(self.session.participants@)) && list@.len()
                    == order.len() && forall|i: int|
                    0 <= i < order.len() ==> enrols(
                        #[trigger] list@[i],
                        self.session.participants@[order[i]],
                    ),
    {
        let staying = participants_where(&self.session, false);
        let order = set_items(&staying);
        let mut list: Vec<Enrolment> = Vec::new();
        let mut i: usize = 0;
        while i < order.len()
            invariant
                0 <= i <= order@.len(),
                order@.to_set() == undeclined(self.session.participants@),
                list@.len() == i,
                forall|j: int|
                    0 <= j < i ==> enrols(
                        #[trigger] list@[j],
                        self.session.participants@[order@[j]],
                    ),
            decreases order@.len() - i,
        {
            assert(order@.to_set().contains(order@[i as int]));
            assert(self.session.participants@.contains_key(order@[i as int]));
            match self.session.participants.get(&order[i]) {
                Some(p) => {
                    list.push(
                        Enrolment {
                            user_id: p.user_id,
                            mid_session_join: p.mid_session_join,
                            display_name: owned(p.display_name.as_str()),
                        },
                    );
                },
                None => {},
            }
            i = i + 1;
        }
        assert(enumerates(order@, undeclined(self.session.participants@)));
        list
    }

    /// Note the rows of `users`, as far as there are rows.
    fn assign_rows(&mut self, users: &Vec<u64>, rows: &Vec<u128>)
        requires
            old(self).wf(),
        ensures
            final(self).wf(),
            final(self).same_but_people(*old(self)),
            final(self).tasks == old(self).tasks,
            final(self).session.participants@ == rows_assigned(
                old(self).session.participants@,
                users@,
                rows@,
            ),
    {
        let ghost start = self.session.participants@;
        let mut i: usize = 0;
        assert(users@.take(0) =~= seq![]);
        while i < users.len()
            invariant
                0 <= i <= users@.len(),
                self.wf(),
                self.same_but_people(*old(self)),
                self.tasks == old(self).tasks,
                self.session.participants@ == rows_assigned(start, users@.take(i as int), rows@),
            decreases users@.len() - i,
        {
            assert(users@.take(i + 1).drop_last() =~= users@.take(i as int));
            if i < rows.len() {
                self.session.set_participant_uuid(users[i], rows[i]);
            }
            i = i + 1;
        }
        assert(users@.take(users@.len() as int) =~= users@);
    }
}

impl GateOpening {
    /// Begin to open the stabilization gate of a session: look at the
    /// blocklist. A session whose id is not a UUID never gets that far.
    pub fn begin(actor: &Actor) -> (r: (GateOpening, GateRequest))
        ensures
            match uuid_of_text(actor.session.id@) {
                Some(sid) => {
                    &&& r.0.stage is CheckingBlocklist
                    &&& r.0.session_uuid == sid
                    &&& r.1 matches GateRequest::CheckBlocklist { users } && enumerates(
                        users@,
                        actor.session.participants@.dom(),
                    )
                },
                None => {
                    &&& r.0.stage is Over
                    &&& r.1 matches GateRequest::Failed { failure } && failure matches
                        GateFailure::BadSessionId { message } && message@ == uuid_error(
                        actor.session.id@,
                    )
                },
            },
    {
        match parse_uuid(actor.session.id.as_str()) {
            Ok(sid) => (
                GateOpening {
                    stage: GateStage::CheckingBlocklist,
                    session_uuid: sid,
                    added: Vec::new(),
                    mix_chunks: 0,
                },
                GateRequest::CheckBlocklist { users: map_keys(&actor.session.participants) },
            ),
            Err(message) => (
                GateOpening {
                    stage: GateStage::Over,
                    session_uuid: 0,
                    added: Vec::new(),
                    mix_chunks: 0,
                },
                GateRequest::Failed { failure: GateFailure::BadSessionId { message } },
            ),
        }
    }

    /// The blocklist has answered. Whoever it does not let in leaves the session
    /// with their capture task and cache. Then the row can be created.
    pub fn blocklist_checked(&mut self, actor: &mut Actor, replies: &Vec<(u64, BlocklistReply)>) -> (r:
        GateRequest)
        requires
            old(self).stage is CheckingBlocklist,
            old(actor).wf(),
        ensures
            final(actor).wf(),
            final(self).stage is CreatingRow,
            final(self).session_uuid == old(self).session_uuid,
            final(actor).same_but_people(*old(actor)),
            ({
                let people = old(actor).session.participants@;
                let gone = kept_out(people, replies@);
                &&& final(actor).session.participants@ == people.remove_keys(gone)
                &&& final(actor).tasks@ == old(actor).tasks@.difference(gone)
                &&& r matches GateRequest::CreateRow { dropped, row } && {
                    &&& enumerates(dropped@, gone.intersect(old(actor).tasks@))
                    &&& row.id == old(self).session_uuid
                    &&& row.guild_id == signed64(old(actor).session.guild_id)
                    &&& row.started_at == old(actor).session.started_at
                    &&& row.s3_prefix@ == storage_prefix(
                        old(actor).session.guild_id,
                        old(actor).session.id@,
                    )
                }
            }),
    {
        let allowed = blocklist_filter(replies);
        let people = map_keys(&actor.session.participants);
        let gone = select(&people, &allowed, false);
        let dropped = select(&gone, &actor.tasks, true);
        forget_participants(&mut actor.session, &gone);
        forget_tasks(&mut actor.tasks, &gone);
        self.stage = GateStage::CreatingRow;
        let row = SessionRow {
            id: self.session_uuid,
            guild_id: to_signed64(actor.session.guild_id),
            started_at: actor.session.started_at,
            s3_prefix: s3_prefix(actor.session.guild_id, actor.session.id.as_str()),
        };
        GateRequest::CreateRow { dropped, row }
    }

    /// The row exists, or could not be created. Participants who have not
    /// declined are added next.
    pub fn row_created(&mut self, actor: &Actor, result: Result<(), String>) -> (r: GateRequest)
        requires
            old(self).stage is CreatingRow,
        ensures
            final(self).session_uuid == old(self).session_uuid,
            match result {
                Err(message) => {
                    &&& final(self).stage is Over
                    &&& r == (GateRequest::Failed {
                        failure: GateFailure::CreateSession { message },
                    })
                },
                Ok(_) => {
                    &&& final(self).stage is AddingParticipants
                    &&& r matches GateRequest::AddParticipants { session, list } && {
                        &&& session == old(self).session_uuid
                        &&& final(self).added@ == enrolled_users(list@)
                        &&& exists|order: Seq<u64>| #[trigger]
                            enumerates(order, undeclined(actor.session.participants@))
                                && list@.len() == order.len() && forall|i: int|
                                0 <= i < order.len() ==> enrols(
                                    #[trigger] list@[i],
                                    actor.session.participants@[order[i]],
                                )
                    }
                },
            },
    {
        match result {
            Err(message) => {
                self.stage = GateStage::Over;
                GateRequest::Failed { failure: GateFailure::CreateSession { message } }
            },
            Ok(_) => {
                let list = actor.enrolments();
                let mut added: Vec<u64> = Vec::new();
                let mut i: usize = 0;
                while i < list.len()
                    invariant
                        0 <= i <= list@.len(),
                        added@ == enrolled_users(list@).take(i as int),
                    decreases list@.len() - i,
                {
                    added.push(list[i].user_id);
                    assert(enrolled_users(list@).take(i + 1) =~= enrolled_users(list@).take(
                        i as int,
                    ).push(list@[i as int].user_id));
                    i = i + 1;
                }
                assert(enrolled_users(list@).take(list@.len() as int) =~= enrolled_users(list@));
                self.added = added;
                self.stage = GateStage::AddingParticipants;
                GateRequest::AddParticipants { session: self.session_uuid, list }
            },
        }
    }

    /// The participants are added, or could not be. Their rows are noted in the
    /// order in which they were added. Whoever has declined leaves their capture
    /// task and cache behind; the caches of the rest make the mix.
    pub fn participants_added(
        &mut self,
        actor: &mut Actor,
        root: &BufferRoot,
        rows: Result<Vec<u128>, String>,
    ) -> (r: GateRequest)
        requires
            old(self).stage is AddingParticipants,
            old(actor).wf(),
        ensures
            final(actor).wf(),
            final(self).session_uuid == old(self).session_uuid,
            final(actor).same_but_people(*old(actor)),
            match rows {
                Err(message) => {
                    &&& final(self).stage is Over
                    &&& *final(actor) == *old(actor)
                    &&& r == (GateRequest::Failed {
                        failure: GateFailure::AddParticipants { message },
                    })
                },
                Ok(ids) => {
                    let people = final(actor).session.participants@;
                    let gone = declined(people);
                    &&& final(self).stage is WritingMix
                    &&& people == rows_assigned(
                        old(actor).session.participants@,
                        old(self).added@,
                        ids@,
                    )
                    &&& final(actor).tasks@ == old(actor).tasks@.difference(gone)
                    &&& r matches GateRequest::WriteMix { dropped, waiting, sources } && {
                        &&& enumerates(dropped@, gone.intersect(old(actor).tasks@))
                        &&& enumerates(waiting@, final(actor).tasks@)
                        &&& cache_of_each(sources@, *root, old(actor).session.id@, waiting@)
                    }
                },
            },
    {
        match rows {
            Err(message) => {
                self.stage = GateStage::Over;
                GateRequest::Failed { failure: GateFailure::AddParticipants { message } }
            },
            Ok(ids) => {
                actor.assign_rows(&self.added, &ids);
                let staying = participants_where(&actor.session, false);
                let people = map_keys(&actor.session.participants);
                let gone = select(&people, &staying, false);
                let dropped = select(&gone, &actor.tasks, true);
                forget_tasks(&mut actor.tasks, &gone);
                let (waiting, sources) = actor.task_caches(root);
                self.stage = GateStage::WritingMix;
                GateRequest::WriteMix { dropped, waiting, sources }
            },
        }
    }

    /// The mix is in its cache, in so many chunks, or could not be written. Now
    /// every cache that is left is flushed, and that of the mix.
    pub fn mix_written(&mut self, actor: &Actor, root: &BufferRoot, result: Result<u32, GateFailure>) -> (r:
        GateRequest)
        requires
            old(self).stage is WritingMix,
        ensures
            final(self).session_uuid == old(self).session_uuid,
            match result {
                Err(failure) => {
                    &&& final(self).stage is Over
                    &&& r == (GateRequest::Failed { failure })
                },
                Ok(chunks) => {
                    &&& final(self).stage is Flushing
                    &&& final(self).mix_chunks == chunks
                    &&& r matches GateRequest::Flush { session, targets } && {
                        &&& session == old(self).session_uuid
                        &&& targets@.len() > 0
                        &&& targets@.last().caches(*root, actor.session.id@, MIXED_PSEUDO_ID@)
                        &&& exists|order: Seq<u64>| #[trigger]
                            enumerates(order, actor.tasks@) && cache_of_each(
                                targets@.drop_last(),
                                *root,
                                actor.session.id@,
                                order,
                            )
                    }
                },
            },
    {
        match result {
            Err(failure) => {
                self.stage = GateStage::Over;
                GateRequest::Failed { failure }
            },
            Ok(chunks) => {
                let (order, each) = actor.task_caches(root);
                let mut targets = each;
                let ghost each = targets@;
                let dir = root.participant_dir(actor.session.id.as_str(), MIXED_PSEUDO_ID);
                targets.push(FlushTarget { pseudo_id: owned(MIXED_PSEUDO_ID), dir });
                assert(targets@.drop_last() =~= each);
                assert(enumerates(order@, actor.tasks@));
                self.mix_chunks = chunks;
                self.stage = GateStage::Flushing;
                GateRequest::Flush { session: self.session_uuid, targets }
            },
        }
    }

    /// The flushes are over, whatever came of each. The stabilization gate is open.
    pub fn flushed(&mut self, actor: &mut Actor) -> (r: GateRequest)
        requires
            old(self).stage is Flushing,
            old(actor).wf(),
        ensures
            final(actor).wf(),
            final(self).stage is Over,
            final(self).session_uuid == old(self).session_uuid,
            final(self).mix_chunks == old(self).mix_chunks,
            *final(actor) == (Actor {
                session_uuid: Some(old(self).session_uuid),
                mixing: true,
                ..*old(actor)
            }),
            r matches GateRequest::Opened { session, first_mix_seq, effects } && {
                &&& session == old(self).session_uuid
                &&& first_mix_seq == old(self).mix_chunks
                &&& exists|order: Seq<u64>| #[trigger]
                    enumerates(order, old(actor).tasks@) && effects@ == switch_over(
                        order,
                        old(actor).session.participants@,
                        old(self).session_uuid,
                    )
            },
    {
        let yes = participants_where(&actor.session, true);
        let order = set_items(&actor.tasks);
        let sid: u128 = self.session_uuid;
        let ghost m = actor.session.participants@;
        let mut effects: Vec<Effect> = Vec::new();
        let mut i: usize = 0;
        while i < order.len()
            invariant
                0 <= i <= order@.len(),
                yes@ == accepted(m),
                effects@ == switch_over(order@, m, sid).take(i as int),
            decreases order@.len() - i,
        {
            let is_accepted = yes.contains(&order[i]);
            effects.push(
                Effect::Tell {
                    user: order[i],
                    cmd: ParticipantCmd::GateOpened {
                        accepted: is_accepted,
                        session_uuid: sid,
                        mix: is_accepted,
                    },
                },
            );
            assert(switch_over(order@, m, sid).take(i + 1) =~= switch_over(order@, m, sid).take(
                i as int,
            ).push(effects@.last()));
            i = i + 1;
        }
        assert(switch_over(order@, m, sid).take(order@.len() as int) =~= switch_over(
            order@,
            m,
            sid,
        ));
        assert(enumerates(order@, actor.tasks@));
        actor.session_uuid = Some(sid);
        actor.mixing = true;
        self.stage = GateStage::Over;
        GateRequest::Opened { session: sid, first_mix_seq: self.mix_chunks, effects }
    }
}

/// Who has declined by the time the stabilization gate opens has no capture
/// task left, so nothing of theirs is flushed or mixed.
pub proof fn law_decliners_leave_nothing(m: Map<u64, ParticipantConsent>, tasks: Set<u64>, user: u64)
    requires
        m.contains_key(user),
        m[user].state is Declined,
    ensures
        !tasks.difference(declined(m)).contains(user),
{
}

/// Who has a capture task and has not declined keeps it, answer or no answer, so
/// what they said before the stabilization gate is mixed and flushed.
pub proof fn law_everyone_else_stays(m: Map<u64, ParticipantConsent>, tasks: Set<u64>, user: u64)
    requires
        tasks.contains(user),
        m.contains_key(user) ==> !(m[user].state is Declined),
    ensures
        tasks.difference(declined(m)).contains(user),
{
}

/// Whom the blocklist does not let in is neither a participant nor has a capture
/// task afterwards.
pub proof fn law_blocked_users_leave(
    m: Map<u64, ParticipantConsent>,
    tasks: Set<u64>,
    replies: Seq<(u64, BlocklistReply)>,
    user: u64,
)
    requires
        m.contains_key(user),
        !let_in(replies).contains(user),
    ensures
        ({
            let gone = kept_out(m, replies);
            &&& !m.remove_keys(gone).contains_key(user)
            &&& !tasks.difference(gone).contains(user)
        }),
{
}

/// A user whom no reply lets in is not let in: a lost look at the blocklist
/// counts against them, an unanswered one does not.
pub proof fn law_let_in(replies: Seq<(u64, BlocklistReply)>, user: u64)
    ensures
        let_in(replies).contains(user) <==> exists|i: int|
            0 <= i < replies.len() && (#[trigger] replies[i]).0 == user && lets_in(replies[i].1),
    decreases replies.len(),
{
    if replies.len() > 0 {
        let front = replies.drop_last();
        law_let_in(front, user);
        let n = replies.len() - 1;
        if let_in(front).contains(user) {
            let i = choose|i: int|
                0 <= i < front.len() && (#[trigger] front[i]).0 == user && lets_in(front[i].1);
            assert(replies[i] == front[i]);
        }
        if exists|i: int|
            0 <= i < replies.len() && (#[trigger] replies[i]).0 == user && lets_in(replies[i].1) {
            let i = choose|i: int|
                0 <= i < replies.len() && (#[trigger] replies[i]).0 == user && lets_in(
                    replies[i].1,
                );
            if i < n {
                assert(front[i] == replies[i]);
            }
        }
        assert(replies[n] == replies.last());
    }
}

} // verus!
