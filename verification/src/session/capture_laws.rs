//! What becomes of the frames of a speaker, in words of frames, chunks and
//! commands.

use crate::ident::uuid_text;
use crate::plain::larger;
use crate::session::capture::{
    chunks_after, declines, mode_after_all, number_of, task_run, uploads, CaptureState, CaptureTask,
    Emission, MadeChunk, MixUpload, PMode, ParticipantCmd, TaskEvent,
};
use crate::text::{dec_text, joined};
use crate::time::Timestamp;
use crate::voice::buffer::{chunk_name, ParticipantCache};
use crate::voice::buffer_laws::law_upload_says;
use crate::voice::mixer::MixState;
use vstd::prelude::*;
use vstd::string::*;

verus! {

/// A chunk is complete as soon as two mebibytes wait, and not before: as long as
/// the speaker has not declined, less than that waits after every frame, and a
/// frame that completes a chunk is the one that reaches the size.
pub proof fn law_chunk_size(s: CaptureState, frame: Seq<u8>)
    requires
        s.mode !is Dropping,
    ensures
        ({
            let e = TaskEvent::Frame { bytes: frame };
            let all = s.waiting.len() + frame.len();
            &&& s.chunk(e) is Some <==> all >= 2_097_152
            &&& s.chunk(e) is Some ==> s.chunk(e)->0.bytes == s.waiting + frame && s.after(
                e,
            ).waiting.len() == 0
            &&& s.chunk(e) is None ==> s.after(e).waiting == s.waiting + frame
        }),
{
}

/// A speaker who declined leaves nothing: their frames neither wait nor make a
/// chunk.
pub proof fn law_dropped_frames_vanish(s: CaptureState, frame: Seq<u8>)
    requires
        s.mode is Dropping,
    ensures
        s.after(TaskEvent::Frame { bytes: frame }) == s,
        s.chunk(TaskEvent::Frame { bytes: frame }) is None,
{
}

/// Whatever waits becomes a chunk when the stabilization gate is about to open,
/// when it is open and when the task ends. Other commands make no chunk.
pub proof fn law_when_waiting_frames_go(s: CaptureState, e: TaskEvent)
    requires
        e !is Frame,
    ensures
        ({
            let goes = match e {
                TaskEvent::Told { cmd, .. } => match cmd {
                    ParticipantCmd::CacheWaiting => true,
                    ParticipantCmd::GateOpened { .. } => true,
                    _ => false,
                },
                TaskEvent::End => true,
                _ => false,
            };
            &&& s.chunk(e) is Some <==> goes && s.waiting.len() > 0
            &&& s.chunk(e) is Some ==> s.chunk(e)->0.bytes == s.waiting
            &&& goes ==> s.after(e).waiting.len() == 0
            &&& declines(e) ==> s.after(e).waiting.len() == 0
            &&& !goes && !declines(e) ==> s.after(e).waiting == s.waiting
        }),
{
}

/// The command says where chunks go.
pub open spec fn decides(cmd: ParticipantCmd) -> bool {
    cmd is DropCache || cmd is LateDecline || cmd is GateOpened || cmd is LateAccept
}

/// The last command that says where chunks go decides: an accepted speaker's are
/// uploaded, those of one who has not answered are cached, a declined one's are
/// dropped.
pub proof fn law_last_command_decides(mode: PMode, cmds: Seq<ParticipantCmd>, n: int)
    requires
        0 <= n < cmds.len(),
        decides(cmds[n]),
        forall|i: int| n < i < cmds.len() ==> !decides(#[trigger] cmds[i]),
    ensures
        mode_after_all(mode, cmds) == (match cmds[n] {
            ParticipantCmd::GateOpened { accepted: true, .. } => PMode::Direct,
            ParticipantCmd::GateOpened { accepted: false, .. } => PMode::PendingPostGate,
            ParticipantCmd::LateAccept => PMode::Direct,
            _ => PMode::Dropping,
        }),
    decreases cmds.len(),
{
    if n < cmds.len() - 1 {
        let front = cmds.drop_last();
        assert(front[n] == cmds[n]);
        assert forall|i: int| n < i < front.len() implies !decides(#[trigger] front[i]) by {
            assert(front[i] == cmds[i]);
        }
        law_last_command_decides(mode, front, n);
        assert(cmds.last() == cmds[cmds.len() - 1]);
        assert(!decides(cmds.last()));
    }
}

/// Commands that do not say where chunks go leave that as it is.
pub proof fn law_other_commands_keep_mode(mode: PMode, cmds: Seq<ParticipantCmd>)
    requires
        forall|i: int| 0 <= i < cmds.len() ==> !decides(#[trigger] cmds[i]),
    ensures
        mode_after_all(mode, cmds) == mode,
    decreases cmds.len(),
{
    if cmds.len() > 0 {
        let front = cmds.drop_last();
        assert forall|i: int| 0 <= i < front.len() implies !decides(#[trigger] front[i]) by {
            assert(front[i] == cmds[i]);
        }
        law_other_commands_keep_mode(mode, front);
        assert(cmds.last() == cmds[cmds.len() - 1]);
    }
}

/// The commands among `events`.
pub open spec fn commands(events: Seq<TaskEvent>) -> Seq<ParticipantCmd>
    decreases events.len(),
{
    if events.len() == 0 {
        seq![]
    } else {
        match events.last() {
            TaskEvent::Told { cmd, .. } => commands(events.drop_last()).push(cmd),
            _ => commands(events.drop_last()),
        }
    }
}

/// Frames, word from the cache and the end do not change where chunks go.
pub proof fn law_only_commands_change_mode(s: CaptureState, events: Seq<TaskEvent>)
    ensures
        task_run(s, events).0.mode == mode_after_all(s.mode, commands(events)),
    decreases events.len(),
{
    if events.len() > 0 {
        law_only_commands_change_mode(s, events.drop_last());
        match events.last() {
            TaskEvent::Told { cmd, .. } => {
                assert(commands(events).drop_last() =~= commands(events.drop_last()));
            },
            _ => {},
        }
    }
}

/// Where a chunk goes: with the speaker accepted and a session to upload to, it is
/// uploaded; before an answer, it is written to the cache if there is one. Either
/// way it keeps its number, its bytes and the time of its first frame. Otherwise
/// there is no place for it.
pub proof fn law_where_chunks_go(t: CaptureTask, e: Emission, bytes: Seq<u8>, started: Timestamp)
    requires
        t.emits(e, (MadeChunk { bytes, ..t.state().made() }), started),
        bytes.len() * 1000 <= u64::MAX,
    ensures
        e is Upload <==> t.mode is Direct && t.session_uuid is Some,
        e is Cache <==> (t.mode is Cache || t.mode is PendingPostGate) && t.cache is Some,
        match e {
            Emission::Upload { upload, bytes: sent } => {
                &&& sent@ == bytes
                &&& upload.session == t.session_uuid->0
                &&& upload.pseudo_id@ == t.pseudo_id@
                &&& upload.capture_started_at == started
                &&& upload.client_chunk_id@ == uuid_text(t.session_uuid->0).push(':')
                    + t.pseudo_id@.push(':') + dec_text(t.seq as nat)
                &&& 192 * upload.duration_ms <= bytes.len() < 192 * (upload.duration_ms + 1)
            },
            Emission::Cache { path, seq, bytes: kept, capture_started_at } => {
                &&& kept@ == bytes
                &&& seq == t.seq
                &&& capture_started_at == started
                &&& path@ == joined(t.cache->0.path(), chunk_name(t.seq, started.as_millis()))
            },
            Emission::Lost { bytes: lost } => lost@ == bytes,
        },
{
    match e {
        Emission::Upload { upload, .. } => {
            law_upload_says(
                upload,
                t.session_uuid->0,
                t.pseudo_id@,
                t.seq,
                bytes.len() as int,
                started,
            );
        },
        _ => {},
    }
}

/// A mix chunk is uploaded whole, as the mix track's, with the next number and the
/// time of its first window.
pub proof fn law_mix_uploads(u: MixUpload, session: u128, m: MixState)
    requires
        uploads(u, session, m),
        m.staged.len() * 1000 <= u64::MAX,
    ensures
        u.bytes@ == m.staged,
        u.upload.session == session,
        u.upload.pseudo_id@ == "mixed"@,
        m.start == Some(u.upload.capture_started_at),
        u.upload.client_chunk_id@ == uuid_text(session).push(':') + "mixed"@.push(':') + dec_text(
            m.next_seq as nat,
        ),
        192 * u.upload.duration_ms <= m.staged.len() < 192 * (u.upload.duration_ms + 1),
{
    law_upload_says(
        u.upload,
        session,
        "mixed"@,
        m.next_seq,
        m.staged.len() as int,
        m.start->0,
    );
}

/// How many of the first `n` chunks have a place.
pub open spec fn placed_among(out: Seq<MadeChunk>, n: int) -> int
    decreases n,
{
    if n <= 0 {
        0
    } else {
        placed_among(out, n - 1) + (if out[n - 1].placed {
            1int
        } else {
            0
        })
    }
}

/// No cache is opened anew for this event, or one that is not ahead.
pub open spec fn not_ahead(e: TaskEvent, first: int) -> bool {
    match e {
        TaskEvent::Told { reopened: Some(n), .. } => n <= first,
        _ => true,
    }
}

/// Chunks that have a place are numbered without a gap, from the number at which
/// the task began, as long as no cache is opened that is further: a chunk that
/// could not be written leaves its number to the next.
#[verifier::rlimit(40)]
pub proof fn law_numbers_without_gap(s: CaptureState, events: Seq<TaskEvent>)
    requires
        !s.writing,
        forall|i: int| 0 <= i < events.len() ==> not_ahead(#[trigger] events[i], s.next),
    ensures
        ({
            let (then, out) = task_run(s, events);
            &&& then.next == s.next + placed_among(out, out.len() as int)
            &&& forall|i: int|
                0 <= i < out.len() && (#[trigger] out[i]).placed ==> out[i].number == s.next
                    + placed_among(out, i)
            &&& then.writing ==> out.len() > 0 && out.last().placed
        }),
    decreases events.len(),
{
    if events.len() > 0 {
        let front = events.drop_last();
        let e = events.last();
        assert(e == events[events.len() - 1]);
        assert(not_ahead(e, s.next));
        assert forall|i: int| 0 <= i < front.len() implies not_ahead(#[trigger] front[i], s.next) by {
            assert(front[i] == events[i]);
        }
        law_numbers_without_gap(s, front);
        let (before, so_far) = task_run(s, front);
        let (then, out) = task_run(s, events);
        let n = so_far.len() as int;
        lemma_placed_nonneg(so_far, n);
        assert(out == chunks_after(before, so_far, e));
        match before.chunk(e) {
            Some(c) => {
                lemma_placed_same(so_far, out, n);
                assert(placed_among(out, n + 1) == placed_among(out, n) + (if out[n].placed {
                    1int
                } else {
                    0
                }));
                assert forall|i: int| 0 <= i < out.len() && (#[trigger] out[i]).placed implies out[i].number
                    == s.next + placed_among(out, i) by {
                    lemma_placed_same(so_far, out, i);
                    if i < n {
                        assert(out[i] == so_far[i]);
                    }
                }
            },
            None => {
                if before.writing && so_far.len() > 0 && e == (TaskEvent::Cached {
                    written: false,
                }) {
                    assert(so_far.last() == so_far[n - 1]);
                    assert forall|i: int| 0 <= i < n - 1 implies #[trigger] out[i] == so_far[i] by {}
                    lemma_placed_prefix(so_far, out, n - 1);
                    assert(placed_among(out, n) == placed_among(out, n - 1));
                    assert(placed_among(so_far, n) == placed_among(so_far, n - 1) + 1);
                    assert forall|i: int| 0 <= i < out.len() && (#[trigger] out[i]).placed implies out[i].number
                        == s.next + placed_among(out, i) by {
                        lemma_placed_prefix(so_far, out, i);
                        assert(i < n - 1);
                        assert(out[i] == so_far[i]);
                    }
                } else {
                    assert(out == so_far);
                }
            },
        }
    }
}

proof fn lemma_placed_nonneg(out: Seq<MadeChunk>, n: int)
    ensures
        placed_among(out, n) >= 0,
    decreases n,
{
    if n > 0 {
        lemma_placed_nonneg(out, n - 1);
    }
}

proof fn lemma_placed_prefix(a: Seq<MadeChunk>, b: Seq<MadeChunk>, n: int)
    requires
        n <= a.len(),
        n <= b.len(),
        forall|i: int| 0 <= i < n ==> #[trigger] b[i] == a[i],
    ensures
        placed_among(a, n) == placed_among(b, n),
    decreases n,
{
    if n > 0 {
        lemma_placed_prefix(a, b, n - 1);
        assert(b[n - 1] == a[n - 1]);
    }
}

proof fn lemma_placed_same(a: Seq<MadeChunk>, b: Seq<MadeChunk>, n: int)
    requires
        n <= a.len(),
        a.len() <= b.len(),
        forall|i: int| 0 <= i < a.len() ==> #[trigger] b[i] == a[i],
    ensures
        placed_among(a, n) == placed_among(b, n),
{
    lemma_placed_prefix(a, b, n);
}

/// A cache that is opened anew and is further sets the number from which chunks go
/// on; one that is behind does not set it back.
pub proof fn law_reopened_cache_goes_on(s: CaptureState, cmd: ParticipantCmd, n: u32)
    requires
        cmd is GateOpened || cmd is LateAccept,
        s.waiting.len() == 0,
    ensures
        s.after(TaskEvent::Told { cmd, reopened: Some(n) }).next == larger(s.next, n as int),
        s.after(TaskEvent::Told { cmd, reopened: None }).next == s.next,
        s.after(TaskEvent::Told { cmd, reopened: Some(n) }).has_cache,
        !s.after(TaskEvent::Told { cmd, reopened: None }).has_cache,
{
}

/// What counts of a task is what it holds.
pub proof fn law_task_state(t: CaptureTask)
    ensures
        t.state().mode == t.mode,
        t.state().waiting == t.accum@,
        t.state().next == t.seq,
        t.state().has_cache <==> t.cache is Some,
        t.state().has_session <==> t.session_uuid is Some,
        t.state().writing == t.writing,
{
}

/// A frame changes what waits, since when, and the chunk numbers; nothing else.
pub proof fn law_same_setup(t: CaptureTask, was: CaptureTask)
    requires
        t.same_setup(was),
    ensures
        t.pseudo_id == was.pseudo_id,
        t.mode == was.mode,
        t.session_uuid == was.session_uuid,
        t.feeds_mix == was.feeds_mix,
        t.cache is Some <==> was.cache is Some,
        t.cache is Some ==> t.cache->0.path() == was.cache->0.path() && t.cache->0.cap()
            == was.cache->0.cap(),
{
}

/// A chunk that could not be written to the cache leaves its number to the next;
/// word of any other kind changes no number.
pub proof fn law_word_from_the_cache(s: CaptureState, written: bool)
    ensures
        ({
            let then = s.after(TaskEvent::Cached { written });
            &&& then.next == (if s.writing && !written {
                s.next - 1
            } else {
                s.next
            })
            &&& !then.writing
            &&& then.mode == s.mode
            &&& then.waiting == s.waiting
            &&& then.has_cache == s.has_cache
            &&& then.has_session == s.has_session
        }),
{
}

/// The number at which a cache goes on is its own.
pub proof fn law_number_of(cache: Option<ParticipantCache>)
    ensures
        number_of(cache) is Some <==> cache is Some,
        cache is Some ==> number_of(cache) == Some(cache->0.seq()),
{
}

} // verus!
