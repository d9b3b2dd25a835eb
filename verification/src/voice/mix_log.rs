//! What becomes of the frames that the live mix is given.
//!
//! The mix itself holds sums only. Here each frame is followed: into its window,
//! and with the window into a chunk.

use crate::time::Timestamp;
use crate::voice::buffer::{chunk_id, law_chunk_ids_differ, MIXED_PSEUDO_ID};
use crate::voice::mixer::{
    bucket_with, drained_bytes, earliest, in_order, is_mix_chunk, is_mix_of, law_windows_rise,
    lemma_window_in_range, mix_samples, window_of, MixChunk, MixState, SourceChunk,
};
use crate::voice::pcm::samples_as_bytes;
use vstd::prelude::*;

verus! {

/// What the live mix sees: a frame, or a regular look at what is complete.
pub enum MixEvent {
    Frame { now: Timestamp, samples: Seq<i16> },
    Tick { now: Timestamp },
}

impl MixEvent {
    pub open spec fn time(self) -> Timestamp {
        match self {
            MixEvent::Frame { now, .. } => now,
            MixEvent::Tick { now } => now,
        }
    }
}

/// A frame, with the number of the event that it came with.
pub type Heard = (int, Seq<i16>);

/// What a window with these frames holds.
pub open spec fn summed(frames: Seq<Heard>, cap: int) -> Seq<i16>
    decreases frames.len(),
{
    if frames.len() == 0 {
        seq![]
    } else {
        bucket_with(summed(frames.drop_last(), cap), frames.last().1, cap)
    }
}

/// What these windows hold, one after the other, as bytes.
pub open spec fn windows_bytes(windows: Seq<Seq<Heard>>, cap: int) -> Seq<u8>
    decreases windows.len(),
{
    if windows.len() == 0 {
        seq![]
    } else {
        windows_bytes(windows.drop_last(), cap) + samples_as_bytes(summed(windows.last(), cap))
    }
}

/// The bytes of numbered chunks, one after the other.
pub open spec fn emitted_bytes(out: Seq<(u32, Seq<u8>)>) -> Seq<u8>
    decreases out.len(),
{
    if out.len() == 0 {
        seq![]
    } else {
        emitted_bytes(out.drop_last()) + out.last().1
    }
}

/// Frame `f` is in an open window or in a closed one.
pub open spec fn in_windows(open: Map<i64, Seq<Heard>>, closed: Seq<Seq<Heard>>, f: Heard) -> bool {
    ||| exists|k: i64, p: int|
        open.contains_key(k) && 0 <= p < open[k].len() && #[trigger] open[k][p] == f
    ||| exists|w: int, p: int|
        0 <= w < closed.len() && 0 <= p < closed[w].len() && #[trigger] closed[w][p] == f
}

/// A run of the live mix.
pub struct MixRun {
    pub state: MixState,
    /// The chunks that were emitted, with their numbers.
    pub out: Seq<(u32, Seq<u8>)>,
    /// The frames of each window that is still open.
    pub open: Map<i64, Seq<Heard>>,
    /// The frames of each closed window, in the order in which they were closed.
    pub closed: Seq<Seq<Heard>>,
    /// The capture time that each emitted chunk has.
    pub starts: Seq<Option<Timestamp>>,
    /// How many windows were closed when each chunk was emitted.
    pub marks: Seq<int>,
}

impl MixRun {
    /// Nothing was heard; the first chunk will have the number `first`.
    pub open spec fn begin(first: u32) -> MixRun {
        MixRun {
            state: MixState { buckets: Map::empty(), staged: seq![], start: None, next_seq: first },
            out: seq![],
            open: Map::empty(),
            closed: seq![],
            starts: seq![],
            marks: seq![],
        }
    }

    /// After frame number `n`.
    pub open spec fn hearing(self, n: int, now: Timestamp, samples: Seq<i16>, cap: int) -> MixRun {
        let key = window_of(now) as i64;
        let frames = if self.open.contains_key(key) {
            self.open[key]
        } else {
            seq![]
        };
        MixRun {
            state: self.state.with_frame(now, samples, cap),
            open: self.open.insert(key, frames.push((n, samples))),
            ..self
        }
    }

    /// After the windows of `keys` are closed, in that order.
    pub open spec fn closing(self, keys: Seq<i64>) -> MixRun {
        MixRun {
            state: self.state.closing(keys),
            open: self.open.remove_keys(keys.to_set()),
            closed: self.closed + keys.map_values(|k: i64| self.open[k]),
            ..self
        }
    }

    /// After the windows that are complete at `now` are closed.
    pub open spec fn draining(self, now: Timestamp) -> MixRun {
        MixRun { state: self.state.drained(now), ..self.closing(in_order(self.state.ready(now))) }
    }

    /// After a chunk is emitted, if at least `limit` bytes are staged.
    pub open spec fn rolling(self, limit: int) -> MixRun {
        if self.state.is_full(limit) {
            MixRun {
                state: self.state.emitted(),
                out: self.out.push((self.state.next_seq, self.state.staged)),
                starts: self.starts.push(self.state.start),
                marks: self.marks.push(self.closed.len() as int),
                ..self
            }
        } else {
            self
        }
    }

    /// After event number `n`: `LiveMixAccum::submit` or `drain_ready`.
    pub open spec fn after(self, n: int, e: MixEvent, cap: int, roll_over: int) -> MixRun {
        let heard = match e {
            MixEvent::Frame { now, samples } => self.hearing(n, now, samples, cap),
            MixEvent::Tick { .. } => self,
        };
        heard.draining(e.time()).rolling(roll_over)
    }

    /// After the end: `LiveMixAccum::finish`.
    pub open spec fn ended(self) -> MixRun {
        MixRun {
            state: self.state.all_closed(),
            ..self.closing(in_order(self.state.buckets.dom()))
        }.rolling(1)
    }

    /// Frame `f` is in a window, open or closed.
    pub open spec fn holds(self, f: Heard) -> bool {
        in_windows(self.open, self.closed, f)
    }

    /// The mix holds the sum of what was heard, and its chunks are the closed
    /// windows.
    pub open spec fn wf(self, cap: int) -> bool {
        &&& self.state.wf()
        &&& self.open.dom() == self.state.buckets.dom()
        &&& forall|k: i64| #[trigger]
            self.open.contains_key(k) ==> self.state.buckets[k] == summed(self.open[k], cap)
        &&& emitted_bytes(self.out) + self.state.staged == windows_bytes(self.closed, cap)
    }
}

/// The run of a mix through `events`.
pub open spec fn mix_run(first: u32, events: Seq<MixEvent>, cap: int, roll_over: int) -> MixRun
    decreases events.len(),
{
    if events.len() == 0 {
        MixRun::begin(first)
    } else {
        mix_run(first, events.drop_last(), cap, roll_over).after(
            events.len() - 1,
            events.last(),
            cap,
            roll_over,
        )
    }
}

/// Closing windows moves what they hold behind what is staged.
proof fn lemma_closing_bytes(run: MixRun, keys: Seq<i64>, cap: int)
    requires
        run.wf(cap),
        forall|i: int| 0 <= i < keys.len() ==> run.open.contains_key(#[trigger] keys[i]),
    ensures
        windows_bytes(run.closed + keys.map_values(|k: i64| run.open[k]), cap) == windows_bytes(
            run.closed,
            cap,
        ) + drained_bytes(keys, run.state.buckets),
    decreases keys.len(),
{
    let moved = keys.map_values(|k: i64| run.open[k]);
    if keys.len() == 0 {
        assert(run.closed + moved =~= run.closed);
    } else {
        let front = keys.drop_last();
        assert forall|i: int| 0 <= i < front.len() implies run.open.contains_key(
            #[trigger] front[i],
        ) by {
            assert(front[i] == keys[i]);
        }
        lemma_closing_bytes(run, front, cap);
        let all = run.closed + moved;
        assert(all.drop_last() =~= run.closed + front.map_values(|k: i64| run.open[k]));
        assert(all.last() == run.open[keys.last()]);
        assert(run.open.contains_key(keys[keys.len() - 1]));
        assert(windows_bytes(all, cap) =~= windows_bytes(run.closed, cap) + drained_bytes(
            keys,
            run.state.buckets,
        ));
    }
}

pub proof fn lemma_closing(run: MixRun, s: Set<i64>, cap: int)
    requires
        run.wf(cap),
        s.subset_of(run.open.dom()),
    ensures
        run.closing(in_order(s)).wf(cap),
        run.closing(in_order(s)).open.dom() == run.open.dom().difference(s),
        forall|f: Heard| #[trigger] run.holds(f) ==> run.closing(in_order(s)).holds(f),
{
    vstd::set_lib::lemma_set_subset_finite(run.open.dom(), s);
    law_windows_rise(s);
    let keys = in_order(s);
    let then = run.closing(keys);
    assert forall|i: int| 0 <= i < keys.len() implies run.open.contains_key(#[trigger] keys[i]) by {
        assert(keys.to_set().contains(keys[i]));
    }
    lemma_closing_bytes(run, keys, cap);
    assert(then.open.dom() =~= then.state.buckets.dom());
    assert(then.open.dom() =~= run.open.dom().difference(s));
    assert(then.state.buckets.dom() =~= run.state.buckets.dom().difference(s));
    assert(emitted_bytes(run.out) + then.state.staged =~= (emitted_bytes(run.out) + run.state.staged)
        + drained_bytes(keys, run.state.buckets));
    if then.state.staged.len() > 0 && keys.len() == 0 {
        assert(then.state.staged =~= run.state.staged);
    }
    assert forall|f: Heard| #[trigger] run.holds(f) implies then.holds(f) by {
        if exists|w: int, p: int|
            0 <= w < run.closed.len() && 0 <= p < run.closed[w].len() && #[trigger] run.closed[w][p]
                == f {
            let (w, p) = choose|w: int, p: int|
                0 <= w < run.closed.len() && 0 <= p < run.closed[w].len()
                    && #[trigger] run.closed[w][p] == f;
            assert(then.closed[w][p] == f);
        } else {
            let (k, p) = choose|k: i64, p: int|
                run.open.contains_key(k) && 0 <= p < run.open[k].len() && #[trigger] run.open[k][p]
                    == f;
            if s.contains(k) {
                assert(keys.to_set().contains(k));
                let i = choose|i: int| 0 <= i < keys.len() && keys[i] == k;
                assert(then.closed[run.closed.len() + i][p] == f);
            } else {
                assert(then.open[k][p] == f);
            }
        }
    }
}

pub proof fn lemma_hearing(run: MixRun, n: int, now: Timestamp, samples: Seq<i16>, cap: int)
    requires
        run.wf(cap),
        now.wf(),
    ensures
        run.hearing(n, now, samples, cap).wf(cap),
        run.hearing(n, now, samples, cap).holds((n, samples)),
        forall|f: Heard| #[trigger] run.holds(f) ==> run.hearing(n, now, samples, cap).holds(f),
{
    lemma_window_in_range(now);
    let then = run.hearing(n, now, samples, cap);
    let key = window_of(now) as i64;
    let frames = if run.open.contains_key(key) {
        run.open[key]
    } else {
        seq![]
    };
    assert(frames.push((n, samples)).drop_last() =~= frames);
    assert(run.state.buckets.contains_key(key) == run.open.contains_key(key));
    assert(summed(then.open[key], cap) == bucket_with(summed(frames, cap), samples, cap));
    assert(then.open.dom() =~= then.state.buckets.dom());
    assert(then.state.buckets.dom() =~= run.state.buckets.dom().insert(key));
    assert(then.open[key][frames.len() as int] == (n, samples));
    assert forall|f: Heard| #[trigger] run.holds(f) implies then.holds(f) by {
        if exists|w: int, p: int|
            0 <= w < run.closed.len() && 0 <= p < run.closed[w].len() && #[trigger] run.closed[w][p]
                == f {
            let (w, p) = choose|w: int, p: int|
                0 <= w < run.closed.len() && 0 <= p < run.closed[w].len()
                    && #[trigger] run.closed[w][p] == f;
            assert(then.closed[w][p] == f);
        } else {
            let (k, p) = choose|k: i64, p: int|
                run.open.contains_key(k) && 0 <= p < run.open[k].len() && #[trigger] run.open[k][p]
                    == f;
            assert(then.open[k][p] == f);
        }
    }
}

pub proof fn lemma_rolling(run: MixRun, limit: int, cap: int)
    requires
        run.wf(cap),
    ensures
        run.rolling(limit).wf(cap),
        run.rolling(limit).open == run.open,
        run.rolling(limit).closed == run.closed,
        forall|f: Heard| #[trigger] run.holds(f) ==> run.rolling(limit).holds(f),
{
    let then = run.rolling(limit);
    if run.state.is_full(limit) {
        assert(then.out.drop_last() =~= run.out);
        assert(emitted_bytes(then.out) + then.state.staged =~= emitted_bytes(run.out)
            + run.state.staged);
    }
}

pub proof fn lemma_mix_run(first: u32, events: Seq<MixEvent>, cap: int, roll_over: int)
    requires
        forall|i: int| 0 <= i < events.len() ==> (#[trigger] events[i]).time().wf(),
    ensures
        mix_run(first, events, cap, roll_over).wf(cap),
        forall|n: int|
            0 <= n < events.len() ==> match #[trigger] events[n] {
                MixEvent::Frame { samples, .. } => mix_run(first, events, cap, roll_over).holds(
                    (n, samples),
                ),
                MixEvent::Tick { .. } => true,
            },
    decreases events.len(),
{
    if events.len() == 0 {
        let run = MixRun::begin(first);
        assert(run.open.dom() =~= run.state.buckets.dom());
        assert(emitted_bytes(run.out) + run.state.staged =~= windows_bytes(run.closed, cap));
    } else {
        let front = events.drop_last();
        let last = events.last();
        let count = events.len() - 1;
        assert(last == events[count]);
        assert forall|i: int| 0 <= i < front.len() implies (#[trigger] front[i]).time().wf() by {
            assert(front[i] == events[i]);
        }
        lemma_mix_run(first, front, cap, roll_over);
        let run = mix_run(first, front, cap, roll_over);
        let heard = match last {
            MixEvent::Frame { now, samples } => run.hearing(count, now, samples, cap),
            MixEvent::Tick { .. } => run,
        };
        match last {
            MixEvent::Frame { now, samples } => {
                lemma_hearing(run, count, now, samples, cap);
            },
            MixEvent::Tick { .. } => {},
        }
        let ready = heard.state.ready(last.time());
        lemma_closing(heard, ready, cap);
        lemma_rolling(heard.closing(in_order(ready)), roll_over, cap);
        let then = run.after(count, last, cap, roll_over);
        assert forall|n: int| 0 <= n < events.len() implies match #[trigger] events[n] {
            MixEvent::Frame { samples, .. } => then.holds((n, samples)),
            MixEvent::Tick { .. } => true,
        } by {
            match events[n] {
                MixEvent::Frame { samples, .. } => {
                    if n < count {
                        assert(front[n] == events[n]);
                        assert(run.holds((n, samples)));
                    }
                    assert(heard.holds((n, samples)));
                },
                MixEvent::Tick { .. } => {},
            }
        }
    }
}

/// Every frame that the live mix is given comes out: at the end no window is
/// open and nothing is staged, the chunks are the closed windows, one after the
/// other, and each frame is part of what one of them sums up.
pub proof fn law_live_mix_keeps_every_frame(
    first: u32,
    events: Seq<MixEvent>,
    cap: int,
    roll_over: int,
    n: int,
)
    requires
        forall|i: int| 0 <= i < events.len() ==> (#[trigger] events[i]).time().wf(),
        0 <= n < events.len(),
        events[n] is Frame,
    ensures
        ({
            let end = mix_run(first, events, cap, roll_over).ended();
            &&& end.state.buckets == Map::<i64, Seq<i16>>::empty()
            &&& end.state.staged.len() == 0
            &&& emitted_bytes(end.out) == windows_bytes(end.closed, cap)
            &&& exists|w: int, p: int|
                0 <= w < end.closed.len() && 0 <= p < end.closed[w].len()
                    && #[trigger] end.closed[w][p] == (n, events[n]->samples)
        }),
{
    lemma_mix_run(first, events, cap, roll_over);
    let run = mix_run(first, events, cap, roll_over);
    let frame = (n, events[n]->samples);
    assert(run.holds(frame));
    let all = run.state.buckets.dom();
    lemma_closing(run, all, cap);
    let shut = run.closing(in_order(all));
    lemma_rolling(shut, 1, cap);
    let end = run.ended();
    assert(end.holds(frame));
    assert(end.state.buckets.dom() =~= Set::<i64>::empty());
    assert(end.state.buckets =~= Map::<i64, Seq<i16>>::empty());
    assert(end.open.dom() =~= Set::<i64>::empty());
    assert(emitted_bytes(end.out) + end.state.staged =~= emitted_bytes(end.out));
}

/// The chunks of a live mix are numbered on from its first number, without a gap.
pub proof fn law_live_mix_numbers(first: u32, events: Seq<MixEvent>, cap: int, roll_over: int)
    requires
        first + events.len() < u32::MAX,
    ensures
        ({
            let end = mix_run(first, events, cap, roll_over).ended();
            &&& end.state.next_seq == first + end.out.len()
            &&& forall|i: int|
                0 <= i < end.out.len() ==> (#[trigger] end.out[i]).0 == first + i
        }),
{
    lemma_numbers(first, events, cap, roll_over);
}

proof fn lemma_numbers(first: u32, events: Seq<MixEvent>, cap: int, roll_over: int)
    requires
        first + events.len() < u32::MAX,
    ensures
        ({
            let run = mix_run(first, events, cap, roll_over);
            &&& run.state.next_seq == first + run.out.len()
            &&& run.out.len() <= events.len()
            &&& forall|i: int|
                0 <= i < run.out.len() ==> (#[trigger] run.out[i]).0 == first + i
        }),
    decreases events.len(),
{
    if events.len() > 0 {
        lemma_numbers(first, events.drop_last(), cap, roll_over);
    }
}

/// No two chunks of the mix track share an idempotency key: neither those that
/// are rendered from the caches, nor those of a live mix that goes on with the
/// next number, nor one of each.
pub proof fn law_no_mix_key_twice(
    rendered: Seq<MixChunk>,
    sources: Seq<SourceChunk>,
    events: Seq<MixEvent>,
    cap: int,
    roll_over: int,
    session: u128,
)
    requires
        is_mix_of(rendered, sources),
        rendered.len() + events.len() < u32::MAX,
    ensures
        ({
            let live = mix_run(rendered.len() as u32, events, cap, roll_over).ended().out;
            let key = |seq: u32| chunk_id(session, MIXED_PSEUDO_ID@, seq);
            &&& forall|i: int, j: int|
                0 <= i < j < rendered.len() ==> key(#[trigger] rendered[i].seq) != key(
                    #[trigger] rendered[j].seq,
                )
            &&& forall|i: int, j: int|
                0 <= i < rendered.len() && 0 <= j < live.len() ==> key(#[trigger] rendered[i].seq)
                    != key((#[trigger] live[j]).0)
            &&& forall|i: int, j: int|
                0 <= i < j < live.len() ==> key((#[trigger] live[i]).0) != key(
                    (#[trigger] live[j]).0,
                )
        }),
{
    let first = rendered.len() as u32;
    law_live_mix_numbers(first, events, cap, roll_over);
    let live = mix_run(first, events, cap, roll_over).ended().out;
    let key = |seq: u32| chunk_id(session, MIXED_PSEUDO_ID@, seq);
    let mix = samples_as_bytes(mix_samples(sources));
    assert forall|i: int| 0 <= i < rendered.len() implies (#[trigger] rendered[i]).seq == i by {
        assert(is_mix_chunk(rendered[i], mix, earliest(sources), i));
    }
    assert forall|i: int, j: int| 0 <= i < j < rendered.len() implies key(
        #[trigger] rendered[i].seq,
    ) != key(#[trigger] rendered[j].seq) by {
        law_chunk_ids_differ(session, MIXED_PSEUDO_ID@, rendered[i].seq, rendered[j].seq);
    }
    assert forall|i: int, j: int| 0 <= i < rendered.len() && 0 <= j < live.len() implies key(
        #[trigger] rendered[i].seq,
    ) != key((#[trigger] live[j]).0) by {
        law_chunk_ids_differ(session, MIXED_PSEUDO_ID@, rendered[i].seq, live[j].0);
    }
    assert forall|i: int, j: int| 0 <= i < j < live.len() implies key((#[trigger] live[i]).0)
        != key((#[trigger] live[j]).0) by {
        law_chunk_ids_differ(session, MIXED_PSEUDO_ID@, live[i].0, live[j].0);
    }
}

} // verus!
