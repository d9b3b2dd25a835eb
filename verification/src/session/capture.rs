//! The capture task of one participant, and the mix task.
//!
//! A capture task collects a speaker's frames into chunks. Before the
//! stabilization gate the chunks go to the disk cache; afterwards those of
//! accepted speakers go to the data API, and their frames to the mix. Chunks are
//! numbered on across it.

use crate::text::{joined, owned};
use crate::time::Timestamp;
use crate::voice::buffer::{
    chunk_id, chunk_name, law_chunk_ids_differ, ChunkUpload, DirRemoval, ParticipantCache,
    MIXED_PSEUDO_ID,
};
use crate::voice::mixer::{LiveMixAccum, MixChunk, MixState};
use crate::voice::pcm::{bytes_as_samples, bytes_to_samples, samples_as_bytes, samples_to_bytes};
use vstd::prelude::*;

verus! {

/// The size at which a chunk is complete.
pub const CHUNK_SIZE_BYTES: usize = 2_097_152;

/// What a capture task does with the audio of its speaker.
#[derive(Debug, Clone, Copy, PartialEq, Eq, Structural)]
pub enum PMode {
    /// Before the stabilization gate: cache everything.
    Cache,
    /// After the stabilization gate, accepted: upload, and feed the mix.
    Direct,
    /// After the stabilization gate, no answer yet: keep caching.
    PendingPostGate,
    /// Declined: drop everything.
    Dropping,
}

/// What the session tells a capture task.
#[derive(Debug, Clone, Copy, PartialEq, Eq, Structural)]
pub enum ParticipantCmd {
    /// Declined before the stabilization gate: delete the cache.
    DropCache,
    /// The stabilization gate is about to open: cache the frames that wait.
    CacheWaiting,
    /// The stabilization gate is open. Accepted speakers upload from here on;
    /// `mix` tells whether they feed the mix.
    GateOpened { accepted: bool, session_uuid: u128, mix: bool },
    /// Accepted after the stabilization gate: flush the cache and upload from
    /// here on.
    LateAccept,
    /// Declined after the stabilization gate: delete the cache.
    LateDecline,
    /// Wind up.
    Shutdown,
}

/// The mode of a task after a command.
pub open spec fn mode_after(mode: PMode, cmd: ParticipantCmd) -> PMode {
    match cmd {
        ParticipantCmd::DropCache | ParticipantCmd::LateDecline => PMode::Dropping,
        ParticipantCmd::GateOpened { accepted, .. } => if accepted {
            PMode::Direct
        } else {
            PMode::PendingPostGate
        },
        ParticipantCmd::LateAccept => PMode::Direct,
        ParticipantCmd::CacheWaiting | ParticipantCmd::Shutdown => mode,
    }
}

/// The mode of a task after all of `cmds`.
pub open spec fn mode_after_all(mode: PMode, cmds: Seq<ParticipantCmd>) -> PMode
    decreases cmds.len(),
{
    if cmds.len() == 0 {
        mode
    } else {
        mode_after(mode_after_all(mode, cmds.drop_last()), cmds.last())
    }
}

/// Once a speaker has declined, their task drops every frame, until it is told
/// that they accepted or that the stabilization gate is open.
pub proof fn law_declined_tasks_drop_everything(mode: PMode, cmds: Seq<ParticipantCmd>, n: int)
    requires
        0 <= n < cmds.len(),
        cmds[n] is DropCache || cmds[n] is LateDecline,
        forall|i: int|
            n < i < cmds.len() ==> !((#[trigger] cmds[i]) is GateOpened || cmds[i] is LateAccept),
    ensures
        mode_after_all(mode, cmds) is Dropping,
    decreases cmds.len(),
{
    if n < cmds.len() - 1 {
        let front = cmds.drop_last();
        assert(front[n] == cmds[n]);
        assert forall|i: int| n < i < front.len() implies !((#[trigger] front[i]) is GateOpened
            || front[i] is LateAccept) by {
            assert(front[i] == cmds[i]);
        }
        law_declined_tasks_drop_everything(mode, front, n);
        assert(cmds.last() == cmds[cmds.len() - 1]);
    }
}

/// What becomes of a chunk.
pub enum Emission {
    /// Write it to this file, as chunk `seq`.
    Cache { path: String, seq: u32, bytes: Vec<u8>, capture_started_at: Timestamp },
    /// Upload it.
    Upload { upload: ChunkUpload, bytes: Vec<u8> },
    /// There is nowhere to put it.
    Lost { bytes: Vec<u8> },
}

impl Emission {
    /// The bytes of the chunk.
    pub open spec fn payload(self) -> Seq<u8> {
        match self {
            Emission::Cache { bytes, .. } => bytes@,
            Emission::Upload { bytes, .. } => bytes@,
            Emission::Lost { bytes } => bytes@,
        }
    }
}

/// What a frame leads to.
pub struct PacketStep {
    /// A copy of the frame for the mix.
    pub mix_copy: Option<Vec<u8>>,
    /// The chunk that it completed.
    pub emission: Option<Emission>,
}

/// What a command leads to.
pub struct CmdStep {
    /// The chunk that the frames which waited make.
    pub emission: Option<Emission>,
    /// The cache directory to remove.
    pub removal: Option<DirRemoval>,
    /// The task is over.
    pub exit: bool,
}

/// The capture task of one participant.
pub struct CaptureTask {
    pub pseudo_id: String,
    pub mode: PMode,
    /// The cache, unless it could not be opened or was given up.
    pub cache: Option<ParticipantCache>,
    /// The frames of the chunk that is not complete yet.
    pub accum: Vec<u8>,
    /// When the first of them arrived.
    pub accum_started: Option<Timestamp>,
    pub session_uuid: Option<u128>,
    pub feeds_mix: bool,
    /// The number of the next chunk, wherever it goes.
    pub seq: u32,
    /// The last chunk was handed to the cache, and there is no word of it yet.
    pub writing: bool,
}

/// What counts of a capture task for the frames that it is given.
pub struct CaptureState {
    pub mode: PMode,
    /// The frames of the chunk that is not complete yet, one after the other.
    pub waiting: Seq<u8>,
    /// The number of the next chunk.
    pub next: int,
    /// There is a cache for chunks.
    pub has_cache: bool,
    /// There is a session to upload chunks to.
    pub has_session: bool,
    /// The last chunk was handed to the cache, and there is no word of it yet.
    pub writing: bool,
}

/// What a capture task sees: a frame, a command with the number at which a cache
/// that was opened for it goes on, word from the cache, or its end.
pub enum TaskEvent {
    Frame { bytes: Seq<u8> },
    Told { cmd: ParticipantCmd, reopened: Option<u32> },
    Cached { written: bool },
    End,
}

/// A chunk that a task made.
pub struct MadeChunk {
    pub number: int,
    pub bytes: Seq<u8>,
    /// It has a place: it is uploaded, or written to the cache.
    pub placed: bool,
}

impl CaptureState {
    /// Nothing waits in a task that drops everything.
    pub open spec fn wf(self) -> bool {
        self.mode is Dropping ==> self.waiting.len() == 0
    }

    /// Chunks go to the cache.
    pub open spec fn caches(self) -> bool {
        self.mode is Cache || self.mode is PendingPostGate
    }

    /// The next chunk has a place to go to.
    pub open spec fn has_place(self) -> bool {
        if self.caches() {
            self.has_cache
        } else {
            self.mode is Direct && self.has_session
        }
    }

    /// The number of the next chunk once a cache is opened anew. No number is
    /// used again.
    pub open spec fn next_with(self, reopened: Option<u32>) -> int {
        match reopened {
            Some(n) => if n > self.next {
                n as int
            } else {
                self.next
            },
            None => self.next,
        }
    }

    /// After a command, apart from the chunk that it may make. Only a decline
    /// throws away what waits.
    pub open spec fn told(self, cmd: ParticipantCmd, reopened: Option<u32>) -> CaptureState {
        let mode = mode_after(self.mode, cmd);
        match cmd {
            ParticipantCmd::DropCache | ParticipantCmd::LateDecline => CaptureState {
                mode,
                waiting: seq![],
                has_cache: false,
                writing: false,
                ..self
            },
            ParticipantCmd::GateOpened { .. } => CaptureState {
                mode,
                next: self.next_with(reopened),
                has_cache: reopened is Some,
                has_session: true,
                writing: false,
                ..self
            },
            ParticipantCmd::LateAccept => CaptureState {
                mode,
                next: self.next_with(reopened),
                has_cache: reopened is Some,
                writing: false,
                ..self
            },
            ParticipantCmd::CacheWaiting | ParticipantCmd::Shutdown => self,
        }
    }

    /// After an event, apart from the chunk that it may make. A chunk that could
    /// not be written to the cache leaves its number to the next one.
    pub open spec fn seen(self, e: TaskEvent) -> CaptureState {
        match e {
            TaskEvent::Frame { bytes } => if self.mode is Dropping {
                self
            } else {
                CaptureState { waiting: self.waiting + bytes, ..self }
            },
            TaskEvent::Told { cmd, reopened } => self.told(cmd, reopened),
            TaskEvent::Cached { written } => CaptureState {
                next: if self.writing && !written {
                    self.next - 1
                } else {
                    self.next
                },
                writing: false,
                ..self
            },
            TaskEvent::End => self,
        }
    }

    /// What waits after an event makes a chunk. A frame completes one once there
    /// is enough; the opening of the stabilization gate, before and after, and the
    /// end make one of whatever waits.
    pub open spec fn completes(self, e: TaskEvent) -> bool {
        self.seen(e).waiting.len() > 0 && match e {
            TaskEvent::Frame { .. } => self.mode !is Dropping && self.seen(e).waiting.len()
                >= 2_097_152,
            TaskEvent::Told { cmd, .. } => cmd is CacheWaiting || cmd is GateOpened,
            TaskEvent::Cached { .. } => false,
            TaskEvent::End => true,
        }
    }

    /// The chunk that waiting frames make.
    pub open spec fn made(self) -> MadeChunk {
        MadeChunk { number: self.next, bytes: self.waiting, placed: self.has_place() }
    }

    /// After the frames that wait made a chunk. Only one that has a place uses up
    /// its number.
    pub open spec fn emitted(self) -> CaptureState {
        CaptureState {
            waiting: seq![],
            next: if self.has_place() {
                self.next + 1
            } else {
                self.next
            },
            writing: self.caches() && self.has_cache,
            ..self
        }
    }

    /// The chunk that an event makes.
    pub open spec fn chunk(self, e: TaskEvent) -> Option<MadeChunk> {
        if self.completes(e) {
            Some(self.seen(e).made())
        } else {
            None
        }
    }

    /// The state after an event.
    pub open spec fn after(self, e: TaskEvent) -> CaptureState {
        if self.completes(e) {
            self.seen(e).emitted()
        } else {
            self.seen(e)
        }
    }
}

/// The chunks after an event: with the one that it makes, and without a place for
/// the last one if that could not be written.
pub open spec fn chunks_after(s: CaptureState, out: Seq<MadeChunk>, e: TaskEvent) -> Seq<MadeChunk> {
    match s.chunk(e) {
        Some(c) => out.push(c),
        None => if s.writing && out.len() > 0 && e == (TaskEvent::Cached { written: false }) {
            out.drop_last().push(MadeChunk { placed: false, ..out.last() })
        } else {
            out
        },
    }
}

/// The state after `events`, and the chunks that they make.
pub open spec fn task_run(s: CaptureState, events: Seq<TaskEvent>) -> (
    CaptureState,
    Seq<MadeChunk>,
)
    decreases events.len(),
{
    if events.len() == 0 {
        (s, seq![])
    } else {
        let (then, out) = task_run(s, events.drop_last());
        (then.after(events.last()), chunks_after(then, out, events.last()))
    }
}

/// The frames among `events`, one after the other.
pub open spec fn given(events: Seq<TaskEvent>) -> Seq<u8>
    decreases events.len(),
{
    if events.len() == 0 {
        seq![]
    } else {
        match events.last() {
            TaskEvent::Frame { bytes } => given(events.drop_last()) + bytes,
            _ => given(events.drop_last()),
        }
    }
}

/// The bytes of chunks, one after the other.
pub open spec fn bytes_of(chunks: Seq<MadeChunk>) -> Seq<u8>
    decreases chunks.len(),
{
    if chunks.len() == 0 {
        seq![]
    } else {
        bytes_of(chunks.drop_last()) + chunks.last().bytes
    }
}

/// The event tells a task that its speaker declined.
pub open spec fn declines(e: TaskEvent) -> bool {
    e matches TaskEvent::Told { cmd, .. } && (cmd is DropCache || cmd is LateDecline)
}

/// However many frames arrive and whatever the task is told in between, as long
/// as the speaker does not decline no byte is lost, doubled or reordered: the
/// chunks and what still waits are the frames, one after the other. At the end
/// nothing waits.
pub proof fn law_chunks_keep_every_byte(s: CaptureState, events: Seq<TaskEvent>)
    requires
        s.mode !is Dropping,
        forall|i: int| 0 <= i < events.len() ==> !declines(#[trigger] events[i]),
    ensures
        ({
            let (then, out) = task_run(s, events);
            &&& bytes_of(out) + then.waiting == s.waiting + given(events)
            &&& then.mode !is Dropping
            &&& events.len() > 0 && events.last() is End ==> then.waiting.len() == 0
        }),
    decreases events.len(),
{
    let (then, out) = task_run(s, events);
    if events.len() == 0 {
        assert(bytes_of(out) + then.waiting =~= s.waiting + given(events));
    } else {
        let front = events.drop_last();
        assert forall|i: int| 0 <= i < front.len() implies !declines(#[trigger] front[i]) by {
            assert(front[i] == events[i]);
        }
        law_chunks_keep_every_byte(s, front);
        let (before, so_far) = task_run(s, front);
        let last = events.last();
        assert(!declines(events[events.len() - 1]));
        let heard = match last {
            TaskEvent::Frame { bytes } => bytes,
            _ => seq![],
        };
        assert(given(events) =~= given(front) + heard);
        assert(before.seen(last).waiting =~= before.waiting + heard);
        match before.chunk(last) {
            Some(c) => {
                assert(out.drop_last() =~= so_far);
                assert(bytes_of(out) =~= bytes_of(so_far) + c.bytes);
            },
            None => {
                if out != so_far {
                    assert(out.drop_last() =~= so_far.drop_last());
                }
                assert(bytes_of(out) =~= bytes_of(so_far));
            },
        }
        assert(bytes_of(out) + then.waiting =~= (bytes_of(so_far) + before.waiting) + heard);
        assert(s.waiting + given(events) =~= (s.waiting + given(front)) + heard);
    }
}

/// No two chunks of a speaker that have a place share an idempotency key, before
/// the stabilization gate, after it or across it: their numbers rise, from the
/// number at which the task began up to the one at which a later task of the
/// speaker may go on.
pub proof fn law_no_key_twice(
    s: CaptureState,
    events: Seq<TaskEvent>,
    i: int,
    j: int,
    session: u128,
    pseudo_id: Seq<char>,
)
    requires
        0 <= s.next,
        !s.writing,
        task_run(s, events).0.next <= u32::MAX,
        0 <= i < j < task_run(s, events).1.len(),
        task_run(s, events).1[i].placed,
        task_run(s, events).1[j].placed,
    ensures
        ({
            let (then, out) = task_run(s, events);
            &&& s.next <= out[i].number < out[j].number < then.next
            &&& chunk_id(session, pseudo_id, out[i].number as u32) != chunk_id(
                session,
                pseudo_id,
                out[j].number as u32,
            )
        }),
{
    lemma_numbers_rise(s, events);
    let out = task_run(s, events).1;
    law_chunk_ids_differ(session, pseudo_id, out[i].number as u32, out[j].number as u32);
}

proof fn lemma_numbers_rise(s: CaptureState, events: Seq<TaskEvent>)
    requires
        !s.writing,
    ensures
        ({
            let (then, out) = task_run(s, events);
            &&& s.next <= then.next
            &&& then.writing ==> {
                &&& out.len() > 0
                &&& out.last().placed
                &&& out.last().number == then.next - 1
            }
            &&& forall|i: int|
                0 <= i < out.len() && (#[trigger] out[i]).placed ==> s.next <= out[i].number
                    < then.next
            &&& forall|i: int, j: int|
                0 <= i < j < out.len() && (#[trigger] out[i]).placed && (#[trigger] out[j]).placed
                    ==> out[i].number < out[j].number
        }),
    decreases events.len(),
{
    if events.len() > 0 {
        lemma_numbers_rise(s, events.drop_last());
        let (before, so_far) = task_run(s, events.drop_last());
        let (then, out) = task_run(s, events);
        if before.writing {
            let n = so_far.len() - 1;
            assert(so_far[n].placed);
            assert forall|i: int| 0 <= i < n && (#[trigger] so_far[i]).placed implies so_far[i].number
                < before.next - 1 by {
                assert(so_far[i].number < so_far[n].number);
            }
        }
    }
}

/// Both are the same directory with the same limit, or both are none.
pub open spec fn same_place(a: Option<ParticipantCache>, b: Option<ParticipantCache>) -> bool {
    match (a, b) {
        (Some(x), Some(y)) => x.path() == y.path() && x.cap() == y.cap(),
        (None, None) => true,
        _ => false,
    }
}

/// The number at which a cache goes on.
pub open spec fn number_of(cache: Option<ParticipantCache>) -> Option<u32> {
    match cache {
        Some(c) => Some(c.seq()),
        None => None,
    }
}

impl CaptureTask {
    /// What counts for the frames that the task is given.
    pub open spec fn state(&self) -> CaptureState {
        CaptureState {
            mode: self.mode,
            waiting: self.accum@,
            next: self.seq as int,
            has_cache: self.cache is Some,
            has_session: self.session_uuid is Some,
            writing: self.writing,
        }
    }

    /// Frames that wait have an arrival time, nothing waits in a task that drops
    /// everything, and the cache holds no number that is still to come: while a
    /// chunk is being written, the cache is at that chunk's number.
    pub open spec fn wf(&self) -> bool {
        &&& self.state().wf()
        &&& self.accum@.len() > 0 ==> self.accum_started is Some
        &&& self.accum_started is Some ==> self.accum_started->0.wf()
        &&& self.cache is Some ==> self.cache->0.seq() <= self.seq
        &&& self.writing ==> self.cache is Some && self.cache->0.seq() + 1 == self.seq
    }

    /// `self` differs from `was` at most in the frames that wait, their arrival
    /// time and the chunk numbers.
    pub open spec fn same_setup(&self, was: CaptureTask) -> bool {
        &&& self.pseudo_id == was.pseudo_id
        &&& self.mode == was.mode
        &&& same_place(self.cache, was.cache)
        &&& self.session_uuid == was.session_uuid
        &&& self.feeds_mix == was.feeds_mix
    }

    /// `e` is what becomes of chunk `c`, which began at `started`.
    pub open spec fn emits(&self, e: Emission, c: MadeChunk, started: Timestamp) -> bool {
        &&& e.payload() == c.bytes
        &&& !(e is Lost) <==> c.placed
        &&& match e {
            Emission::Cache { path, seq, capture_started_at, .. } => {
                &&& self.state().caches()
                &&& self.cache is Some
                &&& seq == c.number
                &&& path@ == joined(self.cache->0.path(), chunk_name(seq, started.as_millis()))
                &&& capture_started_at == started
            },
            Emission::Upload { upload, .. } => {
                &&& self.mode is Direct
                &&& self.session_uuid is Some
                &&& 0 <= c.number <= u32::MAX
                &&& upload.describes(
                    self.session_uuid->0,
                    self.pseudo_id@,
                    c.number as u32,
                    c.bytes.len() as int,
                    started,
                )
            },
            Emission::Lost { .. } => true,
        }
    }

    /// A task that caches from the start. Its chunks are numbered from
    /// `first_seq` on, or from where the cache goes on if that is further: a
    /// speaker who had a task before goes on at the number where it ended.
    pub fn new(pseudo_id: String, cache: Option<ParticipantCache>, first_seq: u32) -> (t: CaptureTask)
        ensures
            t.wf(),
            t.pseudo_id == pseudo_id,
            t.mode is Cache,
            t.cache == cache,
            t.accum@ == Seq::<u8>::empty(),
            t.accum_started is None,
            t.session_uuid is None,
            !t.feeds_mix,
            t.seq == (if cache is Some && cache->0.seq() > first_seq {
                cache->0.seq()
            } else {
                first_seq
            }),
            !t.writing,
    {
        let found: u32 = match &cache {
            Some(c) => c.next_seq(),
            None => 0,
        };
        CaptureTask {
            pseudo_id,
            mode: PMode::Cache,
            cache,
            accum: Vec::new(),
            accum_started: None,
            session_uuid: None,
            feeds_mix: false,
            seq: if found > first_seq {
                found
            } else {
                first_seq
            },
            writing: false,
        }
    }

    /// What becomes of the next chunk. Its number is used up, if it has a place.
    fn emit_chunk(&mut self, bytes: Vec<u8>, started: Timestamp) -> (e: Emission)
        requires
            old(self).wf(),
            old(self).seq < u32::MAX,
            started.wf(),
        ensures
            final(self).wf(),
            final(self).same_setup(*old(self)),
            final(self).accum == old(self).accum,
            final(self).accum_started == old(self).accum_started,
            ({
                let then = old(self).state().emitted();
                &&& final(self).seq == then.next
                &&& final(self).writing == then.writing
            }),
            old(self).emits(
                e,
                (MadeChunk { bytes: bytes@, ..old(self).state().made() }),
                started,
            ),
    {
        let number: u32 = self.seq;
        self.writing = false;
        match self.mode {
            PMode::Cache | PMode::PendingPostGate => match self.cache.take() {
                Some(c) => {
                    let mut c = c;
                    c.continue_at(number);
                    let path = c.chunk_path(started);
                    self.cache = Some(c);
                    self.seq = number + 1;
                    self.writing = true;
                    Emission::Cache { path, seq: number, bytes, capture_started_at: started }
                },
                None => Emission::Lost { bytes },
            },
            PMode::Direct => match self.session_uuid {
                Some(sid) => {
                    self.seq = number + 1;
                    Emission::Upload {
                        upload: ChunkUpload::new(
                            sid,
                            self.pseudo_id.as_str(),
                            number,
                            bytes.len(),
                            started,
                        ),
                        bytes,
                    }
                },
                None => Emission::Lost { bytes },
            },
            PMode::Dropping => Emission::Lost { bytes },
        }
    }

    /// The frames that wait make the next chunk, if there are any.
    fn emit_waiting(&mut self) -> (e: Option<Emission>)
        requires
            old(self).wf(),
            old(self).accum@.len() > 0 ==> old(self).seq < u32::MAX,
        ensures
            final(self).wf(),
            final(self).same_setup(*old(self)),
            final(self).accum_started is None,
            e is Some <==> old(self).accum@.len() > 0,
            match e {
                Some(e) => {
                    &&& final(self).state() == old(self).state().emitted()
                    &&& old(self).emits(e, old(self).state().made(), old(self).accum_started->0)
                },
                None => {
                    &&& final(self).state() == old(self).state()
                    &&& final(self).cache == old(self).cache
                },
            },
    {
        if self.accum.len() == 0 {
            self.accum_started = None;
            return None;
        }
        let started = self.accum_started.unwrap();
        let mut payload: Vec<u8> = Vec::new();
        std::mem::swap(&mut payload, &mut self.accum);
        self.accum_started = None;
        assert(self.accum@ =~= Seq::<u8>::empty());
        Some(self.emit_chunk(payload, started))
    }

    /// A frame arrived at `now`. A declined speaker's frames vanish. Any other
    /// frame joins those that wait, and completes a chunk once there is enough.
    /// The mix gets a copy of what an accepted speaker says.
    pub fn on_packet(&mut self, samples: &Vec<i16>, now: Timestamp) -> (step: PacketStep)
        requires
            old(self).wf(),
            now.wf(),
            old(self).seq < u32::MAX,
        ensures
            final(self).wf(),
            final(self).same_setup(*old(self)),
            old(self).mode is Dropping ==> {
                &&& *final(self) == *old(self)
                &&& step.mix_copy is None
                &&& step.emission is None
            },
            step.mix_copy is Some <==> old(self).mode is Direct && old(self).feeds_mix,
            step.mix_copy is Some ==> step.mix_copy->0@ == samples_as_bytes(samples@),
            ({
                let frame = TaskEvent::Frame { bytes: samples_as_bytes(samples@) };
                let started = if old(self).accum_started is Some {
                    old(self).accum_started->0
                } else {
                    now
                };
                &&& final(self).state() == old(self).state().after(frame)
                &&& match old(self).state().chunk(frame) {
                    Some(c) => {
                        &&& step.emission is Some
                        &&& old(self).emits(step.emission->0, c, started)
                        &&& final(self).accum_started is None
                    },
                    None => {
                        &&& step.emission is None
                        &&& old(self).mode !is Dropping ==> final(self).accum_started == Some(
                            started,
                        )
                        &&& final(self).cache == old(self).cache
                    },
                }
            }),
    {
        if self.mode == PMode::Dropping {
            return PacketStep { mix_copy: None, emission: None };
        }
        let started = match self.accum_started {
            Some(t) => t,
            None => now,
        };
        self.accum_started = Some(started);
        let mut bytes = samples_to_bytes(samples);
        let mix_copy = if self.mode == PMode::Direct && self.feeds_mix {
            Some(samples_to_bytes(samples))
        } else {
            None
        };
        self.accum.append(&mut bytes);
        assert(self.accum@ =~= old(self).accum@ + samples_as_bytes(samples@));
        if self.accum.len() >= CHUNK_SIZE_BYTES {
            let emission = self.emit_waiting();
            PacketStep { mix_copy, emission }
        } else {
            PacketStep { mix_copy, emission: None }
        }
    }

    /// The chunk that the cache was given is written, or could not be; then the
    /// next chunk gets its number. Without such a chunk nothing changes.
    pub fn chunk_cached(&mut self, written: bool)
        requires
            old(self).wf(),
        ensures
            final(self).wf(),
            final(self).same_setup(*old(self)),
            final(self).accum_started == old(self).accum_started,
            final(self).state() == old(self).state().after(TaskEvent::Cached { written }),
            old(self).writing && written ==> final(self).cache->0.seq() == final(self).seq,
            !(old(self).writing && written) ==> final(self).cache == old(self).cache,
    {
        if !self.writing {
            return;
        }
        self.writing = false;
        if written {
            match self.cache.take() {
                Some(c) => {
                    let mut c = c;
                    c.append_chunk(true);
                    self.cache = Some(c);
                },
                None => {},
            }
        } else {
            self.seq = self.seq - 1;
        }
    }

    /// The directory that has to be flushed before an acceptance after the
    /// stabilization gate takes effect, and the session that it goes to.
    pub fn backlog(&self) -> (b: Option<(u128, String)>)
        ensures
            match b {
                Some((sid, dir)) => self.session_uuid == Some(sid) && self.cache is Some && dir@
                    == self.cache->0.path(),
                None => self.session_uuid is None || self.cache is None,
            },
    {
        match (&self.cache, self.session_uuid) {
            (Some(c), Some(sid)) => Some((sid, owned(c.dir()))),
            _ => None,
        }
    }

    /// Whether every chunk number is used up.
    pub fn is_exhausted(&self) -> (b: bool)
        ensures
            b == (self.seq == u32::MAX),
    {
        self.seq == u32::MAX
    }

    /// Go on with a cache that was opened anew. No number is used again.
    fn reopen(&mut self, reopened: Option<ParticipantCache>)
        requires
            old(self).wf(),
        ensures
            final(self).wf(),
            final(self).pseudo_id == old(self).pseudo_id,
            final(self).mode == old(self).mode,
            final(self).accum == old(self).accum,
            final(self).accum_started == old(self).accum_started,
            final(self).session_uuid == old(self).session_uuid,
            final(self).feeds_mix == old(self).feeds_mix,
            final(self).cache == reopened,
            final(self).seq == old(self).state().next_with(number_of(reopened)),
            !final(self).writing,
    {
        match &reopened {
            Some(c) => {
                let found: u32 = c.next_seq();
                if found > self.seq {
                    self.seq = found;
                }
            },
            None => {},
        }
        self.cache = reopened;
        self.writing = false;
    }

    /// A command arrived. For `GateOpened` and `LateAccept` the cache is opened
    /// anew; `reopened` is what came of that. The backlog of a `LateAccept` was
    /// flushed before. When the stabilization gate is about to open, the frames
    /// that wait go where the task put its chunks so far; once it is open, where
    /// the task puts them from then on.
    pub fn on_cmd(&mut self, cmd: ParticipantCmd, reopened: Option<ParticipantCache>) -> (step:
        CmdStep)
        requires
            old(self).wf(),
            cmd is CacheWaiting ==> old(self).seq < u32::MAX,
            cmd is GateOpened ==> old(self).state().next_with(number_of(reopened)) < u32::MAX,
        ensures
            final(self).wf(),
            final(self).pseudo_id == old(self).pseudo_id,
            step.exit == (cmd is Shutdown),
            step.removal is Some <==> (cmd is DropCache || cmd is LateDecline)
                && old(self).cache is Some,
            step.removal is Some ==> step.removal->0.dir@ == old(self).cache->0.path(),
            ({
                let told = TaskEvent::Told { cmd, reopened: number_of(reopened) };
                &&& final(self).state() == old(self).state().after(told)
                &&& match old(self).state().chunk(told) {
                    Some(c) => {
                        &&& step.emission is Some
                        &&& final(self).emits(step.emission->0, c, old(self).accum_started->0)
                    },
                    None => step.emission is None,
                }
            }),
            final(self).accum_started == (if cmd is LateAccept || cmd is Shutdown {
                old(self).accum_started
            } else {
                None
            }),
            final(self).session_uuid == (match cmd {
                ParticipantCmd::GateOpened { session_uuid, .. } => Some(session_uuid),
                _ => old(self).session_uuid,
            }),
            final(self).feeds_mix == (match cmd {
                ParticipantCmd::GateOpened { mix, .. } => mix,
                _ => old(self).feeds_mix,
            }),
            match cmd {
                ParticipantCmd::DropCache | ParticipantCmd::LateDecline => final(self).cache is None,
                ParticipantCmd::GateOpened { .. } => same_place(final(self).cache, reopened),
                ParticipantCmd::LateAccept => final(self).cache == reopened,
                ParticipantCmd::CacheWaiting => same_place(final(self).cache, old(self).cache),
                ParticipantCmd::Shutdown => *final(self) == *old(self),
            },
    {
        match cmd {
            ParticipantCmd::DropCache | ParticipantCmd::LateDecline => {
                let removal = match &self.cache {
                    Some(c) => Some(c.delete()),
                    None => None,
                };
                self.cache = None;
                self.accum.clear();
                self.accum_started = None;
                self.writing = false;
                self.mode = PMode::Dropping;
                CmdStep { emission: None, removal, exit: false }
            },
            ParticipantCmd::CacheWaiting => {
                let emission = self.emit_waiting();
                CmdStep { emission, removal: None, exit: false }
            },
            ParticipantCmd::GateOpened { accepted, session_uuid, mix } => {
                self.session_uuid = Some(session_uuid);
                self.mode = if accepted {
                    PMode::Direct
                } else {
                    PMode::PendingPostGate
                };
                self.feeds_mix = mix;
                self.reopen(reopened);
                let emission = self.emit_waiting();
                CmdStep { emission, removal: None, exit: false }
            },
            ParticipantCmd::LateAccept => {
                self.reopen(reopened);
                self.mode = PMode::Direct;
                CmdStep { emission: None, removal: None, exit: false }
            },
            ParticipantCmd::Shutdown => CmdStep { emission: None, removal: None, exit: true },
        }
    }

    /// The task ends: the frames that wait make a last chunk.
    pub fn finish(&mut self) -> (e: Option<Emission>)
        requires
            old(self).wf(),
            old(self).seq < u32::MAX,
        ensures
            final(self).wf(),
            final(self).same_setup(*old(self)),
            final(self).state() == old(self).state().after(TaskEvent::End),
            final(self).accum_started is None,
            match old(self).state().chunk(TaskEvent::End) {
                Some(c) => {
                    &&& e is Some
                    &&& old(self).emits(e->0, c, old(self).accum_started->0)
                },
                None => e is None,
            },
    {
        self.emit_waiting()
    }
}

/// What the mix task is told.
pub enum MixerCmd {
    Packet { now: Timestamp, samples_bytes: Vec<u8> },
    Shutdown,
}

/// A mix chunk on its way to the data API.
pub struct MixUpload {
    pub upload: ChunkUpload,
    pub bytes: Vec<u8>,
}

/// `u` is the upload of what `m` emits.
pub open spec fn uploads(u: MixUpload, session: u128, m: MixState) -> bool {
    &&& u.bytes@ == m.staged
    &&& m.start is Some
    &&& u.upload.describes(
        session,
        MIXED_PSEUDO_ID@,
        m.next_seq,
        m.staged.len() as int,
        m.start->0,
    )
}

fn upload_mix_chunk(session: u128, chunk: MixChunk) -> (u: MixUpload)
    ensures
        u.bytes@ == chunk.bytes@,
        u.upload.describes(
            session,
            MIXED_PSEUDO_ID@,
            chunk.seq,
            chunk.bytes@.len() as int,
            chunk.capture_started_at,
        ),
{
    let upload = ChunkUpload::new(
        session,
        MIXED_PSEUDO_ID,
        chunk.seq,
        chunk.bytes.len(),
        chunk.capture_started_at,
    );
    MixUpload { upload, bytes: chunk.bytes }
}

/// A frame of an accepted speaker reaches the mix.
pub fn mix_packet(accum: &mut LiveMixAccum, session: u128, now: Timestamp, samples_bytes: &Vec<u8>) -> (u:
    Option<MixUpload>)
    requires
        old(accum).wf(),
        now.wf(),
        old(accum)@.next_seq < u32::MAX,
    ensures
        final(accum).wf(),
        final(accum).cap() == old(accum).cap(),
        final(accum).roll_over() == old(accum).roll_over(),
        ({
            let d = old(accum)@.with_frame(
                now,
                bytes_as_samples(samples_bytes@),
                old(accum).cap(),
            ).drained(now);
            if d.staged.len() >= old(accum).roll_over() {
                u is Some && uploads(u->0, session, d) && final(accum)@ == d.emitted()
            } else {
                u is None && final(accum)@ == d
            }
        }),
{
    let samples = bytes_to_samples(samples_bytes);
    match accum.submit(now, &samples) {
        Some(chunk) => Some(upload_mix_chunk(session, chunk)),
        None => None,
    }
}

/// The mix task's regular look at what is complete by `now`.
pub fn mix_tick(accum: &mut LiveMixAccum, session: u128, now: Timestamp) -> (u: Option<MixUpload>)
    requires
        old(accum).wf(),
        now.wf(),
        old(accum)@.next_seq < u32::MAX,
    ensures
        final(accum).wf(),
        final(accum).cap() == old(accum).cap(),
        final(accum).roll_over() == old(accum).roll_over(),
        ({
            let d = old(accum)@.drained(now);
            if d.staged.len() >= old(accum).roll_over() {
                u is Some && uploads(u->0, session, d) && final(accum)@ == d.emitted()
            } else {
                u is None && final(accum)@ == d
            }
        }),
{
    match accum.drain_ready(now) {
        Some(chunk) => Some(upload_mix_chunk(session, chunk)),
        None => None,
    }
}

/// The mix task ends: all that the mix still holds is its last chunk.
pub fn mix_finish(accum: &mut LiveMixAccum, session: u128) -> (u: Option<MixUpload>)
    requires
        old(accum).wf(),
        old(accum)@.next_seq < u32::MAX,
    ensures
        final(accum).wf(),
        final(accum).cap() == old(accum).cap(),
        final(accum).roll_over() == old(accum).roll_over(),
        ({
            let d = old(accum)@.all_closed();
            if d.staged.len() > 0 {
                u is Some && uploads(u->0, session, d) && final(accum)@ == d.emitted()
            } else {
                u is None && final(accum)@ == d
            }
        }),
{
    match accum.finish() {
        Some(chunk) => Some(upload_mix_chunk(session, chunk)),
        None => None,
    }
}

} // verus!
