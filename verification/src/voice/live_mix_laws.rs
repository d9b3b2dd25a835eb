//! What the live mix sounds like.
//!
//! The laws speak of the bytes of the emitted chunks, one after the other, and of
//! the frames that came in, by their times and samples.

use crate::plain::{clip, larger, millis, nanos, smaller, value_at};
use crate::time::{lemma_at_millis, Timestamp};
use crate::voice::mix_log::{
    emitted_bytes, lemma_closing, lemma_hearing, lemma_mix_run,
    lemma_rolling, mix_run, summed, windows_bytes, Heard, MixEvent, MixRun,
};
use crate::voice::mixer::{
    bucket_with, in_order, law_windows_rise, lemma_window_in_range, window_of, MixChunk, MixState,
};
use crate::voice::pcm::{law_pcm_layout, samples_as_bytes};
use vstd::prelude::*;

verus! {

/// The 20 ms tick of an instant, counted from the epoch toward the instant.
pub open spec fn tick(t: Timestamp) -> int {
    if millis(t) >= 0 {
        millis(t) / 20
    } else {
        -((-millis(t)) / 20)
    }
}

/// How many samples a window with these frames has: as many as the longest of
/// them, up to the cap.
pub open spec fn width(frames: Seq<Heard>, cap: int) -> int
    decreases frames.len(),
{
    if frames.len() == 0 {
        0
    } else {
        larger(width(frames.drop_last(), cap), smaller(frames.last().1.len() as int, cap))
    }
}

/// What a frame says at sample `s`: nothing beyond its end.
pub open spec fn sample(frame: Heard, s: int) -> int {
    if s < frame.1.len() {
        frame.1[s] as int
    } else {
        0
    }
}

/// All frames together at sample `s`, each added to those before it.
pub open spec fn level(frames: Seq<Heard>, s: int) -> int
    decreases frames.len(),
{
    if frames.len() == 0 {
        0
    } else {
        clip(level(frames.drop_last(), s) + sample(frames.last(), s))
    }
}

/// How many samples the first `n` windows have.
pub open spec fn samples_before(windows: Seq<Seq<Heard>>, n: int, cap: int) -> int
    decreases n,
{
    if n <= 0 {
        0
    } else {
        samples_before(windows, n - 1, cap) + width(windows[n - 1], cap)
    }
}

proof fn lemma_bucket(bucket: Seq<i16>, frame: Seq<i16>, cap: int)
    requires
        bucket.len() <= cap,
    ensures
        bucket_with(bucket, frame, cap).len() == larger(
            bucket.len() as int,
            smaller(frame.len() as int, cap),
        ),
        forall|s: int|
            0 <= s < bucket_with(bucket, frame, cap).len() ==> #[trigger] bucket_with(
                bucket,
                frame,
                cap,
            )[s] == clip(
                (if s < bucket.len() {
                    bucket[s] as int
                } else {
                    0
                }) + (if s < frame.len() {
                    frame[s] as int
                } else {
                    0
                }),
            ),
{
}

proof fn lemma_summed(frames: Seq<Heard>, cap: int)
    requires
        0 <= cap,
    ensures
        summed(frames, cap).len() == width(frames, cap),
        width(frames, cap) <= cap,
        forall|s: int|
            0 <= s < width(frames, cap) ==> #[trigger] summed(frames, cap)[s] == level(frames, s),
        forall|s: int| width(frames, cap) <= s < cap ==> #[trigger] level(frames, s) == 0,
    decreases frames.len(),
{
    if frames.len() > 0 {
        let front = frames.drop_last();
        lemma_summed(front, cap);
        lemma_bucket(summed(front, cap), frames.last().1, cap);
        assert forall|s: int| 0 <= s < width(frames, cap) implies #[trigger] summed(frames, cap)[s]
            == level(frames, s) by {
            if s >= width(front, cap) {
                assert(level(front, s) == 0);
            } else {
                assert(summed(front, cap)[s] == level(front, s));
            }
        }
        assert forall|s: int| width(frames, cap) <= s < cap implies #[trigger] level(frames, s)
            == 0 by {
            assert(level(front, s) == 0);
        }
    }
}

proof fn lemma_samples_before(windows: Seq<Seq<Heard>>, more: Seq<Seq<Heard>>, n: int, cap: int)
    requires
        n <= windows.len() <= more.len(),
        forall|i: int| 0 <= i < windows.len() ==> #[trigger] windows[i] == more[i],
    ensures
        samples_before(windows, n, cap) == samples_before(more, n, cap),
    decreases n,
{
    if n > 0 {
        lemma_samples_before(windows, more, n - 1, cap);
    }
}

proof fn lemma_windows_bytes(windows: Seq<Seq<Heard>>, cap: int)
    requires
        0 <= cap,
    ensures
        windows_bytes(windows, cap).len() == 2 * samples_before(windows, windows.len() as int, cap),
    decreases windows.len(),
{
    if windows.len() > 0 {
        let front = windows.drop_last();
        lemma_windows_bytes(front, cap);
        lemma_summed(windows.last(), cap);
        law_pcm_layout(summed(windows.last(), cap), Seq::empty());
        lemma_samples_before(front, windows, front.len() as int, cap);
    }
}

#[verifier::rlimit(40)]
proof fn lemma_window_value(windows: Seq<Seq<Heard>>, cap: int, w: int, s: int)
    requires
        0 <= cap,
        0 <= w < windows.len(),
        0 <= s < width(windows[w], cap),
    ensures
        samples_before(windows, w, cap) >= 0,
        2 * (samples_before(windows, w, cap) + s) + 1 < windows_bytes(windows, cap).len(),
        value_at(windows_bytes(windows, cap), samples_before(windows, w, cap) + s) == level(
            windows[w],
            s,
        ),
    decreases windows.len(),
{
    let front = windows.drop_last();
    let n = windows.len() - 1;
    let head = windows_bytes(front, cap);
    let tail = samples_as_bytes(summed(windows.last(), cap));
    assert(windows_bytes(windows, cap) == head + tail);
    lemma_windows_bytes(front, cap);
    lemma_windows_bytes(windows, cap);
    lemma_samples_before(front, windows, w, cap);
    lemma_samples_before(front, windows, n, cap);
    if w < n {
        assert(front[w] == windows[w]);
        lemma_window_value(front, cap, w, s);
        lemma_value_in_head(head, tail, samples_before(windows, w, cap) + s);
    } else {
        let frames = windows.last();
        lemma_summed(frames, cap);
        assert(summed(frames, cap)[s] == level(frames, s));
        lemma_value_in_tail(head, summed(frames, cap), samples_before(windows, w, cap), s);
    }
}

proof fn lemma_value_in_head(head: Seq<u8>, tail: Seq<u8>, i: int)
    requires
        0 <= i,
        2 * i + 1 < head.len(),
    ensures
        value_at(head + tail, i) == value_at(head, i),
{
}

proof fn lemma_value_in_tail(head: Seq<u8>, samples: Seq<i16>, at: int, i: int)
    requires
        0 <= i < samples.len(),
        head.len() == 2 * at,
    ensures
        value_at(head + samples_as_bytes(samples), at + i) == samples[i],
{
    let tail = samples_as_bytes(samples);
    law_pcm_layout(samples, Seq::empty());
    assert(value_at(tail, i) == samples[i]);
    assert((head + tail)[2 * (at + i)] == tail[2 * i]);
    assert((head + tail)[2 * (at + i) + 1] == tail[2 * i + 1]);
}

/// The emitted bytes of a run that ended are those of its windows.
proof fn lemma_end(first: u32, events: Seq<MixEvent>, cap: int, roll_over: int)
    requires
        forall|i: int| 0 <= i < events.len() ==> (#[trigger] events[i]).time().wf(),
    ensures
        ({
            let end = mix_run(first, events, cap, roll_over).ended();
            emitted_bytes(end.out) == windows_bytes(end.closed, cap)
        }),
{
    lemma_mix_run(first, events, cap, roll_over);
    let run = mix_run(first, events, cap, roll_over);
    let all = run.state.buckets.dom();
    lemma_closing(run, all, cap);
    lemma_rolling(run.closing(in_order(all)), 1, cap);
    let end = run.ended();
    assert(end.state.staged.len() == 0);
    assert(emitted_bytes(end.out) + end.state.staged =~= emitted_bytes(end.out));
}

/// A window whose only frame is within the cap comes out as that frame, sample for
/// sample.
#[verifier::rlimit(40)]
pub proof fn law_single_frame_comes_out(
    first: u32,
    events: Seq<MixEvent>,
    cap: int,
    roll_over: int,
    w: int,
    s: int,
)
    requires
        forall|i: int| 0 <= i < events.len() ==> (#[trigger] events[i]).time().wf(),
        0 <= cap,
        ({
            let windows = mix_run(first, events, cap, roll_over).ended().closed;
            &&& 0 <= w < windows.len()
            &&& windows[w].len() == 1
            &&& windows[w][0].1.len() <= cap
            &&& 0 <= s < windows[w][0].1.len()
        }),
    ensures
        ({
            let end = mix_run(first, events, cap, roll_over).ended();
            let at = samples_before(end.closed, w, cap) + s;
            &&& width(end.closed[w], cap) == end.closed[w][0].1.len()
            &&& 2 * at + 1 < emitted_bytes(end.out).len()
            &&& value_at(emitted_bytes(end.out), at) == end.closed[w][0].1[s]
        }),
{
    let end = mix_run(first, events, cap, roll_over).ended();
    let frames = end.closed[w];
    reveal_with_fuel(width, 2);
    reveal_with_fuel(level, 2);
    assert(frames.last() == frames[0]);
    lemma_end(first, events, cap, roll_over);
    lemma_window_value(end.closed, cap, w, s);
}

/// Each sample of a window with two frames is the sum of their samples, or the
/// nearest value that a sample can have. Where one has ended the other is heard
/// alone.
#[verifier::rlimit(40)]
pub proof fn law_two_frames_are_summed(
    first: u32,
    events: Seq<MixEvent>,
    cap: int,
    roll_over: int,
    w: int,
    s: int,
)
    requires
        forall|i: int| 0 <= i < events.len() ==> (#[trigger] events[i]).time().wf(),
        0 <= cap,
        ({
            let windows = mix_run(first, events, cap, roll_over).ended().closed;
            &&& 0 <= w < windows.len()
            &&& windows[w].len() == 2
            &&& 0 <= s < cap
            &&& s < windows[w][0].1.len() || s < windows[w][1].1.len()
        }),
    ensures
        ({
            let end = mix_run(first, events, cap, roll_over).ended();
            let at = samples_before(end.closed, w, cap) + s;
            let one = end.closed[w][0];
            let two = end.closed[w][1];
            &&& 2 * at + 1 < emitted_bytes(end.out).len()
            &&& value_at(emitted_bytes(end.out), at) == clip(sample(one, s) + sample(two, s))
        }),
{
    let end = mix_run(first, events, cap, roll_over).ended();
    let frames = end.closed[w];
    reveal_with_fuel(width, 3);
    reveal_with_fuel(level, 3);
    assert(frames.last() == frames[1]);
    assert(frames.drop_last().last() == frames[0]);
    lemma_end(first, events, cap, roll_over);
    lemma_window_value(end.closed, cap, w, s);
}

/// The emitted bytes are the windows, one after the other. Each has the samples of
/// its longest frame, up to the cap, and each sample is the level of its frames.
pub proof fn law_windows_come_out(
    first: u32,
    events: Seq<MixEvent>,
    cap: int,
    roll_over: int,
)
    requires
        forall|i: int| 0 <= i < events.len() ==> (#[trigger] events[i]).time().wf(),
        0 <= cap,
    ensures
        ({
            let end = mix_run(first, events, cap, roll_over).ended();
            &&& emitted_bytes(end.out).len() == 2 * samples_before(
                end.closed,
                end.closed.len() as int,
                cap,
            )
            &&& forall|w: int, s: int|
                0 <= w < end.closed.len() && 0 <= s < width(end.closed[w], cap) ==> value_at(
                    emitted_bytes(end.out),
                    samples_before(end.closed, w, cap) + s,
                ) == #[trigger] level(end.closed[w], s)
        }),
{
    let end = mix_run(first, events, cap, roll_over).ended();
    lemma_end(first, events, cap, roll_over);
    lemma_windows_bytes(end.closed, cap);
    assert forall|w: int, s: int|
        0 <= w < end.closed.len() && 0 <= s < width(end.closed[w], cap) implies value_at(
        emitted_bytes(end.out),
        samples_before(end.closed, w, cap) + s,
    ) == #[trigger] level(end.closed[w], s) by {
        lemma_window_value(end.closed, cap, w, s);
    }
}

/// Every frame of the window is one of the events, and falls into the tick that
/// begins at millisecond `start`.
pub open spec fn is_of_tick(events: Seq<MixEvent>, window: Seq<Heard>, start: int) -> bool {
    forall|p: int|
        0 <= p < window.len() ==> {
            let f = #[trigger] window[p];
            &&& 0 <= f.0 < events.len()
            &&& events[f.0] is Frame
            &&& events[f.0]->samples == f.1
            &&& 20 * tick(events[f.0].time()) == start
        }
}

/// The millisecond at which the tick of a window's first frame begins.
pub open spec fn start_of(events: Seq<MixEvent>, window: Seq<Heard>) -> int {
    20 * tick(events[window[0].0].time())
}

/// Time does not go back from one event to the next.
pub open spec fn in_time(events: Seq<MixEvent>) -> bool {
    forall|i: int, j: int|
        0 <= i <= j < events.len() ==> nanos((#[trigger] events[i]).time()) <= nanos(
            (#[trigger] events[j]).time(),
        )
}

/// Where the windows of chunk `i` begin.
pub open spec fn first_window(marks: Seq<int>, i: int) -> int {
    if i == 0 {
        0
    } else {
        marks[i - 1]
    }
}

/// Each window holds frames of one tick, and the closed ones rise.
spec fn orderly(events: Seq<MixEvent>, open: Map<i64, Seq<Heard>>, closed: Seq<Seq<Heard>>) -> bool {
    &&& forall|k: i64| #[trigger]
        open.contains_key(k) ==> open[k].len() > 0 && is_of_tick(events, open[k], k as int)
    &&& forall|w: int|
        0 <= w < closed.len() ==> (#[trigger] closed[w]).len() > 0 && is_of_tick(
            events,
            closed[w],
            start_of(events, closed[w]),
        )
    &&& forall|w: int, v: int|
        0 <= w < v < closed.len() ==> start_of(events, #[trigger] closed[w]) < start_of(
            events,
            #[trigger] closed[v],
        )
}

/// Each chunk is dated by its first window and reaches up to its mark.
spec fn dated(events: Seq<MixEvent>, run: MixRun, cap: int) -> bool {
    let n = run.out.len() as int;
    &&& run.starts.len() == n && run.marks.len() == n
    &&& 0 <= first_window(run.marks, n) <= run.closed.len()
    &&& if run.closed.len() > first_window(run.marks, n) {
        &&& run.state.start is Some
        &&& nanos(run.state.start->0) == 1_000_000 * start_of(
            events,
            run.closed[first_window(run.marks, n)],
        )
    } else {
        run.state.start is None
    }
    &&& forall|i: int|
        0 <= i < n ==> chunk_is_dated(events, run.closed, run.marks, run.starts, i)
            && #[trigger] run.marks[i] <= first_window(run.marks, n) && emitted_bytes(
            run.out.take(i + 1),
        ).len() == 2 * samples_before(run.closed, run.marks[i], cap)
}

/// Chunk `i` begins with a window of its own, whose start is its capture time.
pub open spec fn chunk_is_dated(
    events: Seq<MixEvent>,
    closed: Seq<Seq<Heard>>,
    marks: Seq<int>,
    starts: Seq<Option<Timestamp>>,
    i: int,
) -> bool {
    &&& 0 <= first_window(marks, i) < marks[i] <= closed.len()
    &&& starts[i] is Some
    &&& nanos(starts[i]->0) == 1_000_000 * start_of(events, closed[first_window(marks, i)])
}

proof fn lemma_tick(t: Timestamp)
    requires
        t.wf(),
    ensures
        window_of(t) == 20 * tick(t),
        (window_of(t) as i64) == 20 * tick(t),
        20 * tick(t) > millis(t) - 20,
        millis(t) == t.as_millis(),
{
    lemma_window_in_range(t);
}

/// What was orderly stays so when an event is added.
#[verifier::rlimit(40)]
proof fn lemma_orderly_grows(
    events: Seq<MixEvent>,
    e: MixEvent,
    open: Map<i64, Seq<Heard>>,
    closed: Seq<Seq<Heard>>,
)
    requires
        orderly(events, open, closed),
    ensures
        orderly(events.push(e), open, closed),
        forall|w: int|
            0 <= w < closed.len() ==> start_of(events.push(e), #[trigger] closed[w]) == start_of(
                events,
                closed[w],
            ),
{
    let more = events.push(e);
    assert forall|w: int| 0 <= w < closed.len() implies start_of(more, #[trigger] closed[w])
        == start_of(events, closed[w]) by {
        assert(closed[w].len() > 0);
        let f = closed[w][0];
        assert(more[f.0] == events[f.0]);
    }
    assert forall|w: int| 0 <= w < closed.len() implies is_of_tick(
        more,
        #[trigger] closed[w],
        start_of(more, closed[w]),
    ) by {
        assert(is_of_tick(events, closed[w], start_of(events, closed[w])));
        assert forall|p: int| 0 <= p < closed[w].len() implies more[(#[trigger] closed[w][p]).0]
            == events[closed[w][p].0] by {}
    }
    assert forall|k: i64| #[trigger] open.contains_key(k) implies is_of_tick(
        more,
        open[k],
        k as int,
    ) by {
        assert(is_of_tick(events, open[k], k as int));
        assert forall|p: int| 0 <= p < open[k].len() implies more[(#[trigger] open[k][p]).0]
            == events[open[k][p].0] by {}
    }
}

#[verifier::rlimit(40)]
proof fn lemma_dated_grows(events: Seq<MixEvent>, e: MixEvent, run: MixRun, cap: int)
    requires
        orderly(events, run.open, run.closed),
        dated(events, run, cap),
    ensures
        dated(events.push(e), run, cap),
{
    lemma_orderly_grows(events, e, run.open, run.closed);
    assert forall|i: int| 0 <= i < run.out.len() implies chunk_is_dated(
        events.push(e),
        run.closed,
        run.marks,
        run.starts,
        i,
    ) && #[trigger] run.marks[i] <= first_window(run.marks, run.out.len() as int) && emitted_bytes(
        run.out.take(i + 1),
    ).len() == 2 * samples_before(run.closed, run.marks[i], cap) by {
        assert(chunk_is_dated(events, run.closed, run.marks, run.starts, i));
        let w = run.closed[first_window(run.marks, i)];
    }
    if run.closed.len() > first_window(run.marks, run.out.len() as int) {
        let w = run.closed[first_window(run.marks, run.out.len() as int)];
    }
}

#[verifier::rlimit(40)]
proof fn lemma_hearing_orderly(
    events: Seq<MixEvent>,
    run: MixRun,
    n: int,
    now: Timestamp,
    samples: Seq<i16>,
    cap: int,
)
    requires
        now.wf(),
        0 <= n < events.len(),
        events[n] == (MixEvent::Frame { now, samples }),
        orderly(events, run.open, run.closed),
        dated(events, run, cap),
    ensures
        orderly(
            events,
            run.hearing(n, now, samples, cap).open,
            run.hearing(n, now, samples, cap).closed,
        ),
        dated(events, run.hearing(n, now, samples, cap), cap),
{
    lemma_tick(now);
    let then = run.hearing(n, now, samples, cap);
    let key = window_of(now) as i64;
    assert forall|k: i64| #[trigger] then.open.contains_key(k) implies then.open[k].len() > 0
        && is_of_tick(events, then.open[k], k as int) by {
        if k == key {
            let frames = if run.open.contains_key(key) {
                run.open[key]
            } else {
                seq![]
            };
            assert(then.open[k] == frames.push((n, samples)));
            assert forall|p: int| 0 <= p < then.open[k].len() implies {
                let f = #[trigger] then.open[k][p];
                &&& 0 <= f.0 < events.len()
                &&& events[f.0] is Frame
                &&& events[f.0]->samples == f.1
                &&& 20 * tick(events[f.0].time()) == k
            } by {
                if p < frames.len() {
                    assert(run.open.contains_key(key));
                    assert(then.open[k][p] == run.open[key][p]);
                }
            }
        } else {
            assert(run.open.contains_key(k));
        }
    }
    assert forall|i: int| 0 <= i < then.out.len() implies chunk_is_dated(
        events,
        then.closed,
        then.marks,
        then.starts,
        i,
    ) && #[trigger] then.marks[i] <= first_window(then.marks, then.out.len() as int)
        && emitted_bytes(then.out.take(i + 1)).len() == 2 * samples_before(
        then.closed,
        then.marks[i],
        cap,
    ) by {
        assert(run.marks[i] <= first_window(run.marks, run.out.len() as int));
    }
}

#[verifier::rlimit(40)]
proof fn lemma_closing_orderly(events: Seq<MixEvent>, run: MixRun, s: Set<i64>, cap: int)
    requires
        run.wf(cap),
        s.subset_of(run.open.dom()),
        orderly(events, run.open, run.closed),
        dated(events, run, cap),
        forall|w: int, k: i64|
            0 <= w < run.closed.len() && #[trigger] s.contains(k) ==> start_of(
                events,
                #[trigger] run.closed[w],
            ) < k,
    ensures
        ({
            let then = run.closing(in_order(s));
            &&& orderly(events, then.open, then.closed)
            &&& dated(events, then, cap)
            &&& forall|w: int|
                0 <= w < then.closed.len() ==> (w < run.closed.len() && then.closed[w]
                    == run.closed[w]) || exists|k: i64|
                    #[trigger] s.contains(k) && k == start_of(
                        events,
                        #[trigger] then.closed[w],
                    )
        }),
{
    vstd::set_lib::lemma_set_subset_finite(run.open.dom(), s);
    law_windows_rise(s);
    let keys = in_order(s);
    let then = run.closing(keys);
    let base = run.closed.len() as int;
    assert forall|i: int| 0 <= i < keys.len() implies s.contains(#[trigger] keys[i])
        && run.open.contains_key(keys[i]) && run.open[keys[i]].len() > 0 && start_of(
        events,
        run.open[keys[i]],
    ) == keys[i] && then.closed[base + i] == run.open[keys[i]] by {
        assert(keys.to_set().contains(keys[i]));
        assert(is_of_tick(events, run.open[keys[i]], keys[i] as int));
        let f = run.open[keys[i]][0];
    }
    assert forall|w: int| 0 <= w < then.closed.len() implies (w < base && then.closed[w]
        == run.closed[w]) || (w >= base && then.closed[w] == run.open[keys[w - base]]
        && start_of(events, #[trigger] then.closed[w]) == keys[w - base] && s.contains(
        keys[w - base],
    )) by {
        if w >= base {
            assert(then.closed[base + (w - base)] == run.open[keys[w - base]]);
        }
    }
    assert forall|w: int| 0 <= w < then.closed.len() implies (#[trigger] then.closed[w]).len() > 0
        && is_of_tick(events, then.closed[w], start_of(events, then.closed[w])) by {
        if w >= base {
            assert(run.open.contains_key(keys[w - base]));
        } else {
            assert(then.closed[w] == run.closed[w]);
        }
    }
    assert forall|w: int, v: int| 0 <= w < v < then.closed.len() implies start_of(
        events,
        #[trigger] then.closed[w],
    ) < start_of(events, #[trigger] then.closed[v]) by {
        if v < base {
            assert(then.closed[w] == run.closed[w] && then.closed[v] == run.closed[v]);
        } else if w < base {
            let k = keys[v - base];
            assert(s.contains(k));
            assert(start_of(events, run.closed[w]) < (k as int));
        } else {
            assert(keys[w - base] < keys[v - base]);
        }
    }
    assert forall|k: i64| #[trigger] then.open.contains_key(k) implies then.open[k].len() > 0
        && is_of_tick(events, then.open[k], k as int) by {
        assert(run.open.contains_key(k));
    }
    assert(orderly(events, then.open, then.closed));
    let n = run.out.len() as int;
    let mark = first_window(run.marks, n);
    if then.closed.len() > mark {
        if base > mark {
            assert(then.closed[mark] == run.closed[mark]);
            assert(then.state.start == run.state.start);
        } else {
            assert(keys.len() > 0);
            assert(then.closed[base] == run.open[keys[0]]);
            assert(run.state.buckets.contains_key(keys[0]));
            lemma_at_millis(keys[0] as int);
        }
    } else {
        assert(keys.len() == 0);
    }
    assert forall|i: int| 0 <= i < n implies chunk_is_dated(
        events,
        then.closed,
        then.marks,
        then.starts,
        i,
    ) && #[trigger] then.marks[i] <= first_window(then.marks, n) && emitted_bytes(
        then.out.take(i + 1),
    ).len() == 2 * samples_before(then.closed, then.marks[i], cap) by {
        assert(run.marks[i] <= first_window(run.marks, n));
        assert(chunk_is_dated(events, run.closed, run.marks, run.starts, i));
        assert(then.closed[first_window(run.marks, i)] == run.closed[first_window(run.marks, i)]);
        assert forall|w: int| 0 <= w < run.closed.len() implies #[trigger] run.closed[w]
            == then.closed[w] by {}
        lemma_samples_before(run.closed, then.closed, run.marks[i], cap);
    }
    assert forall|w: int| 0 <= w < then.closed.len() implies (w < run.closed.len()
        && then.closed[w] == run.closed[w]) || exists|k: i64|
        #[trigger] s.contains(k) && k == start_of(events, #[trigger] then.closed[w]) by {
        if w >= base {
            let k = keys[w - base];
            assert(s.contains(k) && (k as int) == start_of(events, then.closed[w]));
        }
    }
}

#[verifier::rlimit(40)]
proof fn lemma_rolling_orderly(events: Seq<MixEvent>, run: MixRun, limit: int, cap: int)
    requires
        run.wf(cap),
        0 < limit,
        0 <= cap,
        orderly(events, run.open, run.closed),
        dated(events, run, cap),
    ensures
        orderly(events, run.rolling(limit).open, run.rolling(limit).closed),
        dated(events, run.rolling(limit), cap),
{
    let then = run.rolling(limit);
    if run.state.is_full(limit) {
        let n = run.out.len() as int;
        lemma_rolling(run, limit, cap);
        lemma_windows_bytes(run.closed, cap);
        assert(then.out.take(n + 1) =~= then.out);
        assert(emitted_bytes(then.out) + then.state.staged =~= emitted_bytes(then.out));
        assert(run.closed.len() > first_window(run.marks, n));
        assert forall|i: int| 0 <= i < n + 1 implies chunk_is_dated(
            events,
            then.closed,
            then.marks,
            then.starts,
            i,
        ) && #[trigger] then.marks[i] <= first_window(then.marks, n + 1) && emitted_bytes(
            then.out.take(i + 1),
        ).len() == 2 * samples_before(then.closed, then.marks[i], cap) by {
            if i < n {
                assert(run.marks[i] <= first_window(run.marks, n));
                assert(chunk_is_dated(events, run.closed, run.marks, run.starts, i));
                assert(then.out.take(i + 1) =~= run.out.take(i + 1));
                assert(first_window(then.marks, i) == first_window(run.marks, i));
            } else {
                assert(first_window(then.marks, n) == first_window(run.marks, n));
            }
        }
    }
}

/// What a run in time keeps.
spec fn timely(events: Seq<MixEvent>, run: MixRun, cap: int) -> bool {
    &&& orderly(events, run.open, run.closed)
    &&& dated(events, run, cap)
    &&& events.len() == 0 ==> run.closed.len() == 0
    &&& events.len() > 0 ==> {
        let cutoff = millis(events.last().time()) - 100;
        &&& forall|k: i64| #[trigger] run.open.contains_key(k) ==> k > cutoff
        &&& forall|w: int|
            0 <= w < run.closed.len() ==> start_of(events, #[trigger] run.closed[w]) <= cutoff
    }
}

#[verifier::rlimit(40)]
proof fn lemma_timely(first: u32, events: Seq<MixEvent>, cap: int, roll_over: int)
    requires
        forall|i: int| 0 <= i < events.len() ==> (#[trigger] events[i]).time().wf(),
        in_time(events),
        0 <= cap,
        0 < roll_over,
    ensures
        timely(events, mix_run(first, events, cap, roll_over), cap),
    decreases events.len(),
{
    if events.len() > 0 {
        let front = events.drop_last();
        let e = events.last();
        let count = events.len() - 1;
        assert(e == events[count]);
        assert(front.push(e) =~= events);
        assert forall|i: int| 0 <= i < front.len() implies #[trigger] front[i] == events[i] by {}
        lemma_timely(first, front, cap, roll_over);
        lemma_mix_run(first, front, cap, roll_over);
        let run = mix_run(first, front, cap, roll_over);
        lemma_orderly_grows(front, e, run.open, run.closed);
        lemma_dated_grows(front, e, run, cap);
        let cutoff = millis(e.time()) - 100;
        lemma_tick(e.time());
        assert forall|w: int| 0 <= w < run.closed.len() implies start_of(
            events,
            #[trigger] run.closed[w],
        ) <= cutoff by {
            assert(start_of(front, run.closed[w]) <= millis(front.last().time()) - 100);
            assert(nanos(events[count - 1].time()) <= nanos(events[count].time()));
        }
        let heard = match e {
            MixEvent::Frame { now, samples } => run.hearing(count, now, samples, cap),
            MixEvent::Tick { .. } => run,
        };
        match e {
            MixEvent::Frame { now, samples } => {
                lemma_hearing(run, count, now, samples, cap);
                lemma_hearing_orderly(events, run, count, now, samples, cap);
            },
            MixEvent::Tick { .. } => {},
        }
        assert(heard.closed == run.closed);
        let s = heard.state.ready(e.time());
        if front.len() > 0 {
            let was = millis(front.last().time()) - 100;
            assert forall|w: int, k: i64|
                0 <= w < heard.closed.len() && #[trigger] s.contains(k) implies start_of(
                events,
                #[trigger] heard.closed[w],
            ) < k by {
                assert(start_of(front, run.closed[w]) <= was);
                if !run.open.contains_key(k) {
                    assert(k == 20 * tick(e.time()));
                    assert(nanos(events[count - 1].time()) <= nanos(events[count].time()));
                } else {
                    assert(k > was);
                }
            }
        }
        lemma_closing_orderly(events, heard, s, cap);
        lemma_closing(heard, s, cap);
        let shut = heard.closing(in_order(s));
        lemma_rolling_orderly(events, shut, roll_over, cap);
        lemma_rolling(shut, roll_over, cap);
        let then = run.after(count, e, cap, roll_over);
        assert(then == shut.rolling(roll_over));
        assert forall|k: i64| #[trigger] then.open.contains_key(k) implies k > cutoff by {
            assert(heard.open.dom().difference(s).contains(k));
            assert(heard.state.buckets.dom().contains(k));
        }
        assert forall|w: int| 0 <= w < then.closed.len() implies start_of(
            events,
            #[trigger] then.closed[w],
        ) <= cutoff by {
            if !(w < heard.closed.len() && shut.closed[w] == heard.closed[w]) {
                let k = choose|k: i64|
                    #[trigger] s.contains(k) && k == start_of(events, shut.closed[w]);
                assert(s.contains(k));
            }
        }
    } else {
        let run = mix_run(first, events, cap, roll_over);
        assert(run == MixRun::begin(first));
    }
}

#[verifier::rlimit(40)]
proof fn lemma_ends_timely(first: u32, events: Seq<MixEvent>, cap: int, roll_over: int)
    requires
        forall|i: int| 0 <= i < events.len() ==> (#[trigger] events[i]).time().wf(),
        in_time(events),
        0 <= cap,
        0 < roll_over,
    ensures
        ({
            let end = mix_run(first, events, cap, roll_over).ended();
            &&& orderly(events, end.open, end.closed)
            &&& dated(events, end, cap)
        }),
{
    lemma_timely(first, events, cap, roll_over);
    lemma_mix_run(first, events, cap, roll_over);
    let run = mix_run(first, events, cap, roll_over);
    let s = run.state.buckets.dom();
    assert forall|w: int, k: i64| 0 <= w < run.closed.len() && #[trigger] s.contains(k) implies start_of(
        events,
        #[trigger] run.closed[w],
    ) < k by {
        assert(run.open.contains_key(k));
    }
    lemma_closing_orderly(events, run, s, cap);
    lemma_closing(run, s, cap);
    lemma_rolling_orderly(events, run.closing(in_order(s)), 1, cap);
}

/// A frame that a window holds falls into the window's tick.
proof fn lemma_frame_tick(events: Seq<MixEvent>, window: Seq<Heard>, start: int, f: Heard)
    requires
        is_of_tick(events, window, start),
        window.contains(f),
    ensures
        20 * tick(events[f.0].time()) == start,
{
    let p = choose|p: int| 0 <= p < window.len() && window[p] == f;
    assert(window[p] == f);
}

/// Where time does not go back, there is one window for each 20 ms tick with a
/// frame: all frames of a tick, and none of another, share a window, and the
/// windows come out in the order of their ticks.
pub proof fn law_one_window_per_tick(
    first: u32,
    events: Seq<MixEvent>,
    cap: int,
    roll_over: int,
    f: Heard,
    w: int,
    g: Heard,
    v: int,
)
    requires
        forall|i: int| 0 <= i < events.len() ==> (#[trigger] events[i]).time().wf(),
        in_time(events),
        0 <= cap,
        0 < roll_over,
        ({
            let closed = mix_run(first, events, cap, roll_over).ended().closed;
            &&& 0 <= w < closed.len() && closed[w].contains(f)
            &&& 0 <= v < closed.len() && closed[v].contains(g)
        }),
    ensures
        w == v <==> tick(events[f.0].time()) == tick(events[g.0].time()),
        w < v <==> tick(events[f.0].time()) < tick(events[g.0].time()),
{
    lemma_ends_timely(first, events, cap, roll_over);
    let end = mix_run(first, events, cap, roll_over).ended();
    lemma_windows_apart(events, end.open, end.closed, f, w, g, v);
}

proof fn lemma_windows_apart(
    events: Seq<MixEvent>,
    open: Map<i64, Seq<Heard>>,
    closed: Seq<Seq<Heard>>,
    f: Heard,
    w: int,
    g: Heard,
    v: int,
)
    requires
        orderly(events, open, closed),
        0 <= w < closed.len() && closed[w].contains(f),
        0 <= v < closed.len() && closed[v].contains(g),
    ensures
        w == v <==> tick(events[f.0].time()) == tick(events[g.0].time()),
        w < v <==> tick(events[f.0].time()) < tick(events[g.0].time()),
{
    let a = start_of(events, closed[w]);
    let b = start_of(events, closed[v]);
    lemma_frame_tick(events, closed[w], a, f);
    lemma_frame_tick(events, closed[v], b, g);
    assert(w < v ==> a < b);
    assert(v < w ==> b < a);
}

/// Where time does not go back, each chunk of the live mix is dated by its first
/// window, to the start of the tick, and the windows of one chunk follow those of
/// the chunk before.
#[verifier::rlimit(40)]
pub proof fn law_live_chunks_are_dated(
    first: u32,
    events: Seq<MixEvent>,
    cap: int,
    roll_over: int,
    i: int,
)
    requires
        forall|i: int| 0 <= i < events.len() ==> (#[trigger] events[i]).time().wf(),
        in_time(events),
        0 <= cap,
        0 < roll_over,
        0 <= i < mix_run(first, events, cap, roll_over).ended().out.len(),
    ensures
        ({
            let end = mix_run(first, events, cap, roll_over).ended();
            &&& end.marks.len() == end.out.len() && end.starts.len() == end.out.len()
            &&& chunk_is_dated(events, end.closed, end.marks, end.starts, i)
            &&& emitted_bytes(end.out.take(i + 1)).len() == 2 * samples_before(
                end.closed,
                end.marks[i],
                cap,
            )
        }),
{
    lemma_ends_timely(first, events, cap, roll_over);
    let end = mix_run(first, events, cap, roll_over).ended();
    assert(end.marks[i] <= first_window(end.marks, end.out.len() as int));
}

/// A window is closed once the clock is a tenth of a second past its start, and not
/// before: after each event every open window began less than that ago, and every
/// closed one at least that.
#[verifier::rlimit(40)]
pub proof fn law_windows_close_in_time(
    first: u32,
    events: Seq<MixEvent>,
    cap: int,
    roll_over: int,
)
    requires
        forall|i: int| 0 <= i < events.len() ==> (#[trigger] events[i]).time().wf(),
        in_time(events),
        events.len() > 0,
        0 <= cap,
        0 < roll_over,
    ensures
        ({
            let run = mix_run(first, events, cap, roll_over);
            let now = millis(events.last().time());
            &&& forall|k: i64, p: int|
                run.open.contains_key(k) && 0 <= p < run.open[k].len() ==> 20 * tick(
                    events[(#[trigger] run.open[k][p]).0].time(),
                ) > now - 100
            &&& forall|w: int, p: int|
                0 <= w < run.closed.len() && 0 <= p < run.closed[w].len() ==> 20 * tick(
                    events[(#[trigger] run.closed[w][p]).0].time(),
                ) <= now - 100
        }),
{
    lemma_timely(first, events, cap, roll_over);
    let run = mix_run(first, events, cap, roll_over);
    assert forall|k: i64, p: int| run.open.contains_key(k) && 0 <= p < run.open[k].len() implies 20
        * tick(events[(#[trigger] run.open[k][p]).0].time()) > millis(events.last().time()) - 100 by {
        assert(is_of_tick(events, run.open[k], k as int));
    }
    assert forall|w: int, p: int|
        0 <= w < run.closed.len() && 0 <= p < run.closed[w].len() implies 20 * tick(
        events[(#[trigger] run.closed[w][p]).0].time(),
    ) <= millis(events.last().time()) - 100 by {
        assert(is_of_tick(events, run.closed[w], start_of(events, run.closed[w])));
        assert(start_of(events, run.closed[w]) <= millis(events.last().time()) - 100);
    }
}

/// A chunk is emitted as soon as enough is staged, and not before.
pub proof fn law_live_chunks_are_full(
    first: u32,
    events: Seq<MixEvent>,
    cap: int,
    roll_over: int,
)
    requires
        0 < roll_over,
    ensures
        ({
            let run = mix_run(first, events, cap, roll_over);
            &&& run.state.staged.len() < roll_over
            &&& forall|i: int| 0 <= i < run.out.len() ==> (#[trigger] run.out[i]).1.len() >= roll_over
            &&& run.ended().state.staged.len() == 0
            &&& run.ended().out.len() <= run.out.len() + 1
        }),
    decreases events.len(),
{
    if events.len() > 0 {
        law_live_chunks_are_full(first, events.drop_last(), cap, roll_over);
    }
}

/// What is handed out as a chunk is what is staged, under the next number and with
/// the time of its first window.
pub proof fn law_emitted_chunk(state: MixState, c: MixChunk)
    requires
        state.emits(c),
    ensures
        c.bytes@ == state.staged,
        c.seq == state.next_seq,
        state.start == Some(c.capture_started_at),
{
}

} // verus!
