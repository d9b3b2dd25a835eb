//! What the mix of cached chunks sounds like.
//!
//! The laws speak of the bytes that are uploaded and of the chunks that were
//! cached, in samples and milliseconds: 96 samples of both stereo sides make a
//! millisecond.

use crate::plain::{clip, nanos, value_at};
use crate::text::joined;
use crate::time::{lemma_at_millis, Timestamp, MAX_SECS};
use crate::voice::buffer::{
    chunk_name, law_chunk_name_round_trip, parsed_capture_ms, BufferRoot,
};
use crate::voice::mixer::{
    all_chunks, by_name, bytes_of_ms, chunk_bytes, chunks_in_range, earliest, end_in_mix,
    is_mix_chunk, is_mix_of,
    law_split_is_lossless, lemma_earliest, lemma_mix_end, mix_chunk_path, mix_end, mix_len,
    mix_sample, mix_samples, mixable, ms_of_bytes, name_before, offset_in_mix, placed_by_name,
    source_of_file, source_value, sources_among, with_chunk, MixChunk, PerSpeakerSource,
    SourceChunk, SourceFile,
};
use crate::voice::pcm::{law_pcm_layout, samples_as_bytes};
use vstd::prelude::*;
use vstd::string::*;

verus! {

/// How many whole milliseconds after `first` a chunk was captured.
pub open spec fn lag(c: SourceChunk, first: SourceChunk) -> int {
    (nanos(c.capture_started_at) - nanos(first.capture_started_at)) / 1_000_000
}

/// Chunk `b` of speaker `a` exists.
pub open spec fn is_cached(sources: Seq<PerSpeakerSource>, a: int, b: int) -> bool {
    0 <= a < sources.len() && 0 <= b < sources[a].chunks@.len()
}

/// No chunk was captured before `first`, which is one of them, and none so long
/// after it that the mix could not be addressed.
pub open spec fn begins(sources: Seq<PerSpeakerSource>, first: SourceChunk) -> bool {
    &&& exists|a: int, b: int|
        is_cached(sources, a, b) && #[trigger] sources[a].chunks@[b] == first
    &&& forall|a: int, b: int|
        is_cached(sources, a, b) ==> {
            let c = #[trigger] sources[a].chunks@[b];
            &&& nanos(first.capture_started_at) <= nanos(c.capture_started_at)
            &&& lag(c, first) * 192_000 <= usize::MAX
        }
}

/// Chunk `c` is heard at sample `p` of a mix that begins with `first`.
pub open spec fn heard_at(c: SourceChunk, first: SourceChunk, p: int) -> bool {
    96 * lag(c, first) <= p < 96 * lag(c, first) + c.bytes@.len() as int / 2
}

/// What `c` says at sample `p` of a mix that begins with `first`.
pub open spec fn said_at(c: SourceChunk, first: SourceChunk, p: int) -> int {
    value_at(c.bytes@, p - 96 * lag(c, first))
}

/// Where the chunks of speaker `a` begin in the row of all chunks.
spec fn place(sources: Seq<PerSpeakerSource>, a: int) -> int {
    all_chunks(sources.take(a)).len() as int
}

proof fn lemma_place(sources: Seq<PerSpeakerSource>, a: int)
    requires
        0 <= a < sources.len(),
    ensures
        place(sources, a + 1) == place(sources, a) + sources[a].chunks@.len(),
        place(sources, a + 1) <= all_chunks(sources).len(),
        forall|b: int|
            0 <= b < sources[a].chunks@.len() ==> all_chunks(sources)[place(sources, a) + b]
                == #[trigger] sources[a].chunks@[b],
    decreases sources.len(),
{
    assert(sources.take(a + 1).drop_last() =~= sources.take(a));
    assert(sources.take(a + 1).last() == sources[a]);
    if a == sources.len() - 1 {
        assert(sources.take(a + 1) =~= sources);
    } else {
        let front = sources.drop_last();
        lemma_place(front, a);
        assert(front.take(a) =~= sources.take(a));
        assert(front.take(a + 1) =~= sources.take(a + 1));
        assert forall|b: int| 0 <= b < sources[a].chunks@.len() implies all_chunks(sources)[place(
            sources,
            a,
        ) + b] == #[trigger] sources[a].chunks@[b] by {
            assert(front[a].chunks@[b] == sources[a].chunks@[b]);
        }
    }
}

/// Every chunk in the row is some speaker's.
proof fn lemma_find(sources: Seq<PerSpeakerSource>, k: int) -> (r: (int, int))
    requires
        0 <= k < all_chunks(sources).len(),
    ensures
        is_cached(sources, r.0, r.1),
        k == place(sources, r.0) + r.1,
        all_chunks(sources)[k] == sources[r.0].chunks@[r.1],
    decreases sources.len(),
{
    let front = sources.drop_last();
    let n = sources.len() - 1;
    assert(sources.take(n) =~= front);
    if k < all_chunks(front).len() {
        let r = lemma_find(front, k);
        assert(front.take(r.0) =~= sources.take(r.0));
        r
    } else {
        (n, k - all_chunks(front).len())
    }
}

proof fn lemma_begins(sources: Seq<PerSpeakerSource>, first: SourceChunk)
    requires
        begins(sources, first),
    ensures
        all_chunks(sources).len() > 0,
        earliest(all_chunks(sources)) == nanos(first.capture_started_at),
        forall|k: int|
            0 <= k < all_chunks(sources).len() ==> {
                let c = #[trigger] all_chunks(sources)[k];
                &&& nanos(first.capture_started_at) <= nanos(c.capture_started_at)
                &&& lag(c, first) * 192_000 <= usize::MAX
            },
{
    let chunks = all_chunks(sources);
    let (a, b) = choose|a: int, b: int|
        is_cached(sources, a, b) && #[trigger] sources[a].chunks@[b] == first;
    lemma_place(sources, a);
    let k = place(sources, a) + b;
    assert(chunks[k] == first);
    assert forall|k: int| 0 <= k < chunks.len() implies {
        let c = #[trigger] chunks[k];
        &&& nanos(first.capture_started_at) <= nanos(c.capture_started_at)
        &&& lag(c, first) * 192_000 <= usize::MAX
    } by {
        let r = lemma_find(sources, k);
        assert(sources[r.0].chunks@[r.1] == chunks[k]);
    }
    lemma_earliest(chunks);
    assert(earliest(chunks) <= chunks[k].capture_started_at.as_nanos());
    lemma_earliest_is_one(chunks);
}

proof fn lemma_earliest_is_one(chunks: Seq<SourceChunk>)
    requires
        chunks.len() > 0,
    ensures
        exists|k: int|
            0 <= k < chunks.len() && earliest(chunks) == (
            #[trigger] chunks[k]).capture_started_at.as_nanos(),
    decreases chunks.len(),
{
    assert(chunks.last() == chunks[chunks.len() - 1]);
    if chunks.len() > 1 {
        let front = chunks.drop_last();
        lemma_earliest_is_one(front);
        let k = choose|k: int|
            0 <= k < front.len() && earliest(front) == (
            #[trigger] front[k]).capture_started_at.as_nanos();
        assert(chunks[k] == front[k]);
    }
}

/// One chunk's part in a sample.
proof fn lemma_with_chunk(acc: i16, c: SourceChunk, first: SourceChunk, p: int)
    requires
        nanos(first.capture_started_at) <= nanos(c.capture_started_at),
        lag(c, first) * 192_000 <= usize::MAX,
    ensures
        with_chunk(acc, c, nanos(first.capture_started_at), p) == (if heard_at(c, first, p) {
            clip(acc + said_at(c, first, p))
        } else {
            acc as int
        }),
        offset_in_mix(c, nanos(first.capture_started_at)) == 96 * lag(c, first),
{
    assert(0 <= lag(c, first));
}

/// A sample at which none of the chunks is heard is silent.
proof fn lemma_none(chunks: Seq<SourceChunk>, first: SourceChunk, p: int)
    requires
        forall|k: int|
            0 <= k < chunks.len() ==> {
                let c = #[trigger] chunks[k];
                &&& nanos(first.capture_started_at) <= nanos(c.capture_started_at)
                &&& lag(c, first) * 192_000 <= usize::MAX
                &&& !heard_at(c, first, p)
            },
    ensures
        mix_sample(chunks, nanos(first.capture_started_at), p) == 0,
    decreases chunks.len(),
{
    if chunks.len() > 0 {
        let front = chunks.drop_last();
        assert forall|k: int| 0 <= k < front.len() implies {
            let c = #[trigger] front[k];
            &&& nanos(first.capture_started_at) <= nanos(c.capture_started_at)
            &&& lag(c, first) * 192_000 <= usize::MAX
            &&& !heard_at(c, first, p)
        } by {
            assert(front[k] == chunks[k]);
        }
        lemma_none(front, first, p);
        assert(chunks.last() == chunks[chunks.len() - 1]);
        lemma_with_chunk(0, chunks.last(), first, p);
    }
}

/// A sample at which at most chunks `i` and `j` are heard.
proof fn lemma_two(chunks: Seq<SourceChunk>, first: SourceChunk, p: int, i: int, j: int)
    requires
        0 <= i < j < chunks.len(),
        forall|k: int|
            0 <= k < chunks.len() ==> {
                let c = #[trigger] chunks[k];
                &&& nanos(first.capture_started_at) <= nanos(c.capture_started_at)
                &&& lag(c, first) * 192_000 <= usize::MAX
                &&& k != i && k != j ==> !heard_at(c, first, p)
            },
    ensures
        mix_sample(chunks, nanos(first.capture_started_at), p) == clip(
            (if heard_at(chunks[i], first, p) {
                said_at(chunks[i], first, p)
            } else {
                0
            }) + (if heard_at(chunks[j], first, p) {
                said_at(chunks[j], first, p)
            } else {
                0
            }),
        ),
    decreases chunks.len(),
{
    let front = chunks.drop_last();
    let n = chunks.len() - 1;
    let last = chunks.last();
    let t0 = nanos(first.capture_started_at);
    assert(last == chunks[n]);
    lemma_with_chunk(mix_sample(front, t0, p), last, first, p);
    if j < n {
        assert forall|k: int| 0 <= k < front.len() implies {
            let c = #[trigger] front[k];
            &&& nanos(first.capture_started_at) <= nanos(c.capture_started_at)
            &&& lag(c, first) * 192_000 <= usize::MAX
            &&& k != i && k != j ==> !heard_at(c, first, p)
        } by {
            assert(front[k] == chunks[k]);
        }
        lemma_two(front, first, p, i, j);
        assert(front[i] == chunks[i] && front[j] == chunks[j]);
    } else {
        lemma_one(front, first, p, i);
        assert(front[i] == chunks[i]);
    }
}

/// A sample at which at most chunk `i` is heard.
proof fn lemma_one(chunks: Seq<SourceChunk>, first: SourceChunk, p: int, i: int)
    requires
        0 <= i < chunks.len(),
        forall|k: int|
            0 <= k < chunks.len() ==> {
                let c = #[trigger] chunks[k];
                &&& nanos(first.capture_started_at) <= nanos(c.capture_started_at)
                &&& lag(c, first) * 192_000 <= usize::MAX
                &&& k != i ==> !heard_at(c, first, p)
            },
    ensures
        mix_sample(chunks, nanos(first.capture_started_at), p) == (if heard_at(chunks[i], first, p) {
            said_at(chunks[i], first, p)
        } else {
            0
        }),
    decreases chunks.len(),
{
    let front = chunks.drop_last();
    let n = chunks.len() - 1;
    let last = chunks.last();
    let t0 = nanos(first.capture_started_at);
    assert(last == chunks[n]);
    lemma_with_chunk(mix_sample(front, t0, p), last, first, p);
    assert forall|k: int| 0 <= k < front.len() implies {
        let c = #[trigger] front[k];
        &&& nanos(first.capture_started_at) <= nanos(c.capture_started_at)
        &&& lag(c, first) * 192_000 <= usize::MAX
        &&& k != i ==> !heard_at(c, first, p)
    } by {
        assert(front[k] == chunks[k]);
    }
    if i < n {
        lemma_one(front, first, p, i);
        assert(front[i] == chunks[i]);
    } else {
        lemma_none(front, first, p);
    }
}

/// What comes out at a sample is the mix of the chunks there.
proof fn lemma_out(out: Seq<MixChunk>, chunks: Seq<SourceChunk>, p: int)
    requires
        is_mix_of(out, chunks),
        chunks.len() > 0,
        0 <= p,
        2 * p + 1 < chunk_bytes(out).len(),
    ensures
        value_at(chunk_bytes(out), p) == mix_sample(chunks, earliest(chunks), p),
        chunk_bytes(out).len() == 2 * mix_samples(chunks).len(),
{
    let mix = mix_samples(chunks);
    assert(chunk_bytes(out) == samples_as_bytes(mix)) by {
        law_split_is_lossless(out, chunks);
    }
    lemma_layout(mix, p);
    assert(mix[p] == mix_sample(chunks, earliest(chunks), p));
}

proof fn lemma_layout(mix: Seq<i16>, p: int)
    requires
        0 <= p,
        2 * p + 1 < samples_as_bytes(mix).len(),
    ensures
        p < mix.len(),
        value_at(samples_as_bytes(mix), p) == mix[p],
        samples_as_bytes(mix).len() == 2 * mix.len(),
{
    law_pcm_layout(mix, Seq::empty());
    assert(value_at(samples_as_bytes(mix), p) == mix[p]);
}

/// Every chunk begins where its capture time puts it: a sample of a chunk that
/// was captured `d` whole milliseconds after the first one comes out `96 * d`
/// samples further on, unchanged where nobody else is heard there. So chunks
/// whose times do not overlap share no sample.
#[verifier::rlimit(40)]
pub proof fn law_chunks_lie_at_their_times(
    out: Seq<MixChunk>,
    sources: Seq<PerSpeakerSource>,
    first: SourceChunk,
    a: int,
    b: int,
    i: int,
)
    requires
        is_mix_of(out, all_chunks(sources)),
        begins(sources, first),
        is_cached(sources, a, b),
        0 <= i,
        2 * i + 1 < sources[a].chunks@[b].bytes@.len(),
        forall|x: int, y: int|
            is_cached(sources, x, y) && (x != a || y != b) ==> !heard_at(
                #[trigger] sources[x].chunks@[y],
                first,
                96 * lag(sources[a].chunks@[b], first) + i,
            ),
    ensures
        ({
            let c = sources[a].chunks@[b];
            let p = 96 * lag(c, first) + i;
            &&& 2 * p + 1 < chunk_bytes(out).len()
            &&& value_at(chunk_bytes(out), p) == value_at(c.bytes@, i)
        }),
{
    let chunks = all_chunks(sources);
    let c = sources[a].chunks@[b];
    let p = 96 * lag(c, first) + i;
    lemma_begins(sources, first);
    lemma_place(sources, a);
    let k = place(sources, a) + b;
    assert(chunks[k] == c);
    assert forall|j: int| 0 <= j < chunks.len() implies {
        let other = #[trigger] chunks[j];
        &&& nanos(first.capture_started_at) <= nanos(other.capture_started_at)
        &&& lag(other, first) * 192_000 <= usize::MAX
        &&& j != k ==> !heard_at(other, first, p)
    } by {
        let r = lemma_find(sources, j);
        assert(sources[r.0].chunks@[r.1] == chunks[j]);
    }
    lemma_one(chunks, first, p, k);
    law_mix_reaches_every_chunk(out, sources, first, a, b);
    lemma_out(out, chunks, p);
}

/// Chunks that were captured `d` whole milliseconds apart begin `96 * d` samples
/// apart, whatever the chunk that the mix begins with.
pub proof fn law_distance(one: SourceChunk, two: SourceChunk, first: SourceChunk, d: int)
    requires
        nanos(two.capture_started_at) - nanos(one.capture_started_at) == 1_000_000 * d,
    ensures
        96 * lag(two, first) - 96 * lag(one, first) == 96 * d,
{
}

/// Chunks whose time spans do not overlap share no sample: where one plays for at
/// most `d` milliseconds and the other was captured at least that much later.
pub proof fn law_spans_apart(one: SourceChunk, two: SourceChunk, first: SourceChunk, d: int, p: int)
    requires
        nanos(two.capture_started_at) - nanos(one.capture_started_at) >= 1_000_000 * d,
        one.bytes@.len() <= 192 * d,
    ensures
        !(heard_at(one, first, p) && heard_at(two, first, p)),
{
    assert(lag(two, first) - lag(one, first) >= d);
}

/// Two chunks that were captured `d` whole milliseconds apart and do not overlap
/// come out `96 * d` samples apart, sample for sample, where nobody else is heard.
#[verifier::rlimit(40)]
pub proof fn law_two_chunks_apart(
    out: Seq<MixChunk>,
    sources: Seq<PerSpeakerSource>,
    first: SourceChunk,
    one: (int, int),
    two: (int, int),
    d: int,
)
    requires
        is_mix_of(out, all_chunks(sources)),
        begins(sources, first),
        is_cached(sources, one.0, one.1),
        is_cached(sources, two.0, two.1),
        ({
            let a = sources[one.0].chunks@[one.1];
            let b = sources[two.0].chunks@[two.1];
            &&& nanos(b.capture_started_at) - nanos(a.capture_started_at) == 1_000_000 * d
            &&& a.bytes@.len() <= 192 * d
            &&& forall|x: int, y: int, p: int|
                #![trigger heard_at(sources[x].chunks@[y], first, p)]
                is_cached(sources, x, y) && (x, y) != one && (x, y) != two && heard_at(
                    sources[x].chunks@[y],
                    first,
                    p,
                ) ==> !heard_at(a, first, p) && !heard_at(b, first, p)
        }),
    ensures
        ({
            let a = sources[one.0].chunks@[one.1];
            let b = sources[two.0].chunks@[two.1];
            let start = 96 * lag(a, first);
            &&& forall|i: int|
                0 <= i && 2 * i + 1 < a.bytes@.len() ==> value_at(chunk_bytes(out), start + i)
                    == #[trigger] value_at(a.bytes@, i)
            &&& forall|i: int|
                0 <= i && 2 * i + 1 < b.bytes@.len() ==> value_at(
                    chunk_bytes(out),
                    start + 96 * d + i,
                ) == #[trigger] value_at(b.bytes@, i)
        }),
{
    let a = sources[one.0].chunks@[one.1];
    let b = sources[two.0].chunks@[two.1];
    let start = 96 * lag(a, first);
    law_distance(a, b, first, d);
    assert forall|i: int| 0 <= i && 2 * i + 1 < a.bytes@.len() implies value_at(
        chunk_bytes(out),
        start + i,
    ) == #[trigger] value_at(a.bytes@, i) by {
        let p = start + i;
        assert(heard_at(a, first, p));
        law_spans_apart(a, b, first, d, p);
        assert forall|x: int, y: int|
            is_cached(sources, x, y) && (x != one.0 || y != one.1) implies !heard_at(
            #[trigger] sources[x].chunks@[y],
            first,
            p,
        ) by {
            if (x, y) == two {
                assert(sources[x].chunks@[y] == b);
            }
        }
        law_chunks_lie_at_their_times(out, sources, first, one.0, one.1, i);
    }
    assert forall|i: int| 0 <= i && 2 * i + 1 < b.bytes@.len() implies value_at(
        chunk_bytes(out),
        start + 96 * d + i,
    ) == #[trigger] value_at(b.bytes@, i) by {
        let p = start + 96 * d + i;
        assert(p == 96 * lag(b, first) + i);
        assert(heard_at(b, first, p));
        law_spans_apart(a, b, first, d, p);
        assert forall|x: int, y: int|
            is_cached(sources, x, y) && (x != two.0 || y != two.1) implies !heard_at(
            #[trigger] sources[x].chunks@[y],
            first,
            p,
        ) by {
            if (x, y) == one {
                assert(sources[x].chunks@[y] == a);
            }
        }
        law_chunks_lie_at_their_times(out, sources, first, two.0, two.1, i);
    }
}

/// Where two chunks are heard at once and nobody else is, both come out: the sum
/// of the two samples, or the nearest value that a sample can have.
#[verifier::rlimit(40)]
pub proof fn law_two_at_once_are_summed(
    out: Seq<MixChunk>,
    sources: Seq<PerSpeakerSource>,
    first: SourceChunk,
    one: (int, int),
    two: (int, int),
    p: int,
)
    requires
        is_mix_of(out, all_chunks(sources)),
        begins(sources, first),
        is_cached(sources, one.0, one.1),
        is_cached(sources, two.0, two.1),
        one != two,
        heard_at(sources[one.0].chunks@[one.1], first, p),
        heard_at(sources[two.0].chunks@[two.1], first, p),
        forall|x: int, y: int|
            is_cached(sources, x, y) && (x, y) != one && (x, y) != two ==> !heard_at(
                #[trigger] sources[x].chunks@[y],
                first,
                p,
            ),
    ensures
        2 * p + 1 < chunk_bytes(out).len(),
        value_at(chunk_bytes(out), p) == clip(
            said_at(sources[one.0].chunks@[one.1], first, p) + said_at(
                sources[two.0].chunks@[two.1],
                first,
                p,
            ),
        ),
{
    let chunks = all_chunks(sources);
    lemma_begins(sources, first);
    lemma_place(sources, one.0);
    lemma_place(sources, two.0);
    let k = place(sources, one.0) + one.1;
    let l = place(sources, two.0) + two.1;
    assert(chunks[k] == sources[one.0].chunks@[one.1]);
    assert(chunks[l] == sources[two.0].chunks@[two.1]);
    lemma_places_differ(sources, one, two);
    assert forall|j: int| 0 <= j < chunks.len() implies {
        let other = #[trigger] chunks[j];
        &&& nanos(first.capture_started_at) <= nanos(other.capture_started_at)
        &&& lag(other, first) * 192_000 <= usize::MAX
        &&& j != k && j != l ==> !heard_at(other, first, p)
    } by {
        let r = lemma_find(sources, j);
        assert(sources[r.0].chunks@[r.1] == chunks[j]);
    }
    if k < l {
        lemma_two(chunks, first, p, k, l);
    } else {
        lemma_two(chunks, first, p, l, k);
    }
    law_mix_reaches_every_chunk(out, sources, first, one.0, one.1);
    assert(0 <= lag(chunks[k], first));
    lemma_out(out, chunks, p);
}

proof fn lemma_places_differ(sources: Seq<PerSpeakerSource>, one: (int, int), two: (int, int))
    requires
        is_cached(sources, one.0, one.1),
        is_cached(sources, two.0, two.1),
        one != two,
    ensures
        place(sources, one.0) + one.1 != place(sources, two.0) + two.1,
{
    if one.0 < two.0 {
        lemma_place_rises(sources, one.0, two.0);
    } else if two.0 < one.0 {
        lemma_place_rises(sources, two.0, one.0);
    }
}

proof fn lemma_place_rises(sources: Seq<PerSpeakerSource>, a: int, b: int)
    requires
        0 <= a < b < sources.len(),
    ensures
        place(sources, a) + sources[a].chunks@.len() <= place(sources, b),
    decreases b - a,
{
    lemma_place(sources, a);
    if a + 1 < b {
        lemma_place_rises(sources, a + 1, b);
    }
}

/// Where nobody is heard the mix is silent.
pub proof fn law_gaps_are_silent(
    out: Seq<MixChunk>,
    sources: Seq<PerSpeakerSource>,
    first: SourceChunk,
    p: int,
)
    requires
        is_mix_of(out, all_chunks(sources)),
        begins(sources, first),
        0 <= p,
        2 * p + 1 < chunk_bytes(out).len(),
        forall|x: int, y: int|
            is_cached(sources, x, y) ==> !heard_at(#[trigger] sources[x].chunks@[y], first, p),
    ensures
        value_at(chunk_bytes(out), p) == 0,
{
    let chunks = all_chunks(sources);
    lemma_begins(sources, first);
    assert forall|j: int| 0 <= j < chunks.len() implies {
        let other = #[trigger] chunks[j];
        &&& nanos(first.capture_started_at) <= nanos(other.capture_started_at)
        &&& lag(other, first) * 192_000 <= usize::MAX
        &&& !heard_at(other, first, p)
    } by {
        let r = lemma_find(sources, j);
        assert(sources[r.0].chunks@[r.1] == chunks[j]);
    }
    lemma_none(chunks, first, p);
    lemma_out(out, chunks, p);
}

/// The mix holds the last sample of every chunk.
pub proof fn law_mix_reaches_every_chunk(
    out: Seq<MixChunk>,
    sources: Seq<PerSpeakerSource>,
    first: SourceChunk,
    a: int,
    b: int,
)
    requires
        is_mix_of(out, all_chunks(sources)),
        begins(sources, first),
        is_cached(sources, a, b),
    ensures
        ({
            let c = sources[a].chunks@[b];
            2 * (96 * lag(c, first) + c.bytes@.len() as int / 2) <= chunk_bytes(out).len()
        }),
{
    let chunks = all_chunks(sources);
    let c = sources[a].chunks@[b];
    let t0 = nanos(first.capture_started_at);
    lemma_begins(sources, first);
    lemma_place(sources, a);
    let k = place(sources, a) + b;
    assert(chunks[k] == c);
    law_split_is_lossless(out, chunks);
    lemma_ends(chunks, first);
    lemma_with_chunk(0, c, first, 0);
    assert(end_in_mix(chunks[k], t0) <= mix_end(chunks, t0));
}

proof fn lemma_ends(chunks: Seq<SourceChunk>, first: SourceChunk)
    requires
        chunks.len() > 0,
        earliest(chunks) == nanos(first.capture_started_at),
        forall|k: int|
            0 <= k < chunks.len() ==> nanos(first.capture_started_at) <= nanos(
                (#[trigger] chunks[k]).capture_started_at,
            ),
    ensures
        ({
            let t0 = nanos(first.capture_started_at);
            &&& mix_end(chunks, t0) >= 0
            &&& forall|i: int|
                0 <= i < chunks.len() ==> end_in_mix(#[trigger] chunks[i], t0) <= mix_end(
                    chunks,
                    t0,
                )
            &&& mix_end(chunks, t0) > 0 ==> exists|i: int|
                0 <= i < chunks.len() && mix_end(chunks, t0) == end_in_mix(
                    #[trigger] chunks[i],
                    t0,
                )
            &&& mix_samples(chunks).len() == mix_end(chunks, t0) + mix_end(chunks, t0) % 2
        }),
{
    let t0 = nanos(first.capture_started_at);
    assert forall|i: int| 0 <= i < chunks.len() implies t0 <= (
    #[trigger] chunks[i]).capture_started_at.as_nanos() by {
        assert(nanos(first.capture_started_at) <= nanos(chunks[i].capture_started_at));
    }
    lemma_mix_end(chunks, t0);
    assert(mix_len(chunks) == mix_end(chunks, t0) + mix_end(chunks, t0) % 2);
}

/// The mix is made of whole stereo frames, and ends with the last chunk that is
/// heard, give or take half a frame.
#[verifier::rlimit(40)]
pub proof fn law_mix_ends_with_the_last_chunk(
    out: Seq<MixChunk>,
    sources: Seq<PerSpeakerSource>,
    first: SourceChunk,
)
    requires
        is_mix_of(out, all_chunks(sources)),
        begins(sources, first),
    ensures
        chunk_bytes(out).len() % 4 == 0,
        chunk_bytes(out).len() > 0 ==> exists|a: int, b: int|
            is_cached(sources, a, b) && {
                let c = #[trigger] sources[a].chunks@[b];
                let end = 2 * (96 * lag(c, first) + c.bytes@.len() as int / 2);
                end <= chunk_bytes(out).len() < end + 4
            },
{
    let chunks = all_chunks(sources);
    let t0 = nanos(first.capture_started_at);
    lemma_begins(sources, first);
    law_split_is_lossless(out, chunks);
    lemma_ends(chunks, first);
    if chunk_bytes(out).len() > 0 {
        let k = choose|k: int|
            0 <= k < chunks.len() && mix_end(chunks, t0) == end_in_mix(#[trigger] chunks[k], t0);
        lemma_with_chunk(0, chunks[k], first, 0);
        let r = lemma_find(sources, k);
        assert(sources[r.0].chunks@[r.1] == chunks[k]);
    }
}

/// One more chunk, of one more speaker, changes only the samples at which it is
/// heard: there its own samples are added to what came out without it.
#[verifier::rlimit(40)]
pub proof fn law_one_more_speaker(
    out: Seq<MixChunk>,
    sources: Seq<PerSpeakerSource>,
    first: SourceChunk,
    extra: PerSpeakerSource,
    more: Seq<MixChunk>,
    p: int,
)
    requires
        is_mix_of(out, all_chunks(sources)),
        begins(sources, first),
        extra.chunks@.len() == 1,
        begins(sources.push(extra), first),
        is_mix_of(more, all_chunks(sources.push(extra))),
        0 <= p,
        2 * p + 1 < chunk_bytes(more).len(),
    ensures
        ({
            let c = extra.chunks@[0];
            let before = if 2 * p + 1 < chunk_bytes(out).len() {
                value_at(chunk_bytes(out), p)
            } else {
                0
            };
            value_at(chunk_bytes(more), p) == (if heard_at(c, first, p) {
                clip(before + said_at(c, first, p))
            } else {
                before
            })
        }),
{
    let c = extra.chunks@[0];
    let all = sources.push(extra);
    let chunks = all_chunks(sources);
    let t0 = nanos(first.capture_started_at);
    assert(all.drop_last() =~= sources);
    assert(all_chunks(all) =~= chunks.push(c));
    assert(chunks.push(c).drop_last() =~= chunks);
    lemma_begins(sources, first);
    lemma_begins(all, first);
    assert(all_chunks(all)[chunks.len() as int] == c);
    lemma_with_chunk(mix_sample(chunks, t0, p), c, first, p);
    lemma_out(more, all_chunks(all), p);
    if 2 * p + 1 < chunk_bytes(out).len() {
        lemma_out(out, chunks, p);
    } else {
        law_split_is_lossless(out, chunks);
        lemma_ends(chunks, first);
        assert forall|j: int| 0 <= j < chunks.len() implies {
            let other = #[trigger] chunks[j];
            &&& nanos(first.capture_started_at) <= nanos(other.capture_started_at)
            &&& lag(other, first) * 192_000 <= usize::MAX
            &&& !heard_at(other, first, p)
        } by {
            lemma_with_chunk(0, chunks[j], first, p);
            assert(end_in_mix(chunks[j], t0) <= mix_end(chunks, t0));
        }
        lemma_none(chunks, first, p);
    }
}

/// The upload chunks of a mix are numbered from zero; all but the last have two
/// mebibytes, and the last is not empty. Each is dated by the bytes before it, 192
/// of which make a millisecond, from the start of the first source on.
pub proof fn law_mix_chunks_are_dated(
    out: Seq<MixChunk>,
    sources: Seq<PerSpeakerSource>,
    first: SourceChunk,
    k: int,
)
    requires
        is_mix_of(out, all_chunks(sources)),
        begins(sources, first),
        0 <= k < out.len(),
        k * 2_097_152 * 1000 <= usize::MAX,
    ensures
        out[k].seq == k,
        k < out.len() - 1 ==> out[k].bytes@.len() == 2_097_152,
        0 < out[k].bytes@.len() <= 2_097_152,
        nanos(out[k].capture_started_at) == nanos(first.capture_started_at) + (k * 2_097_152
            / 192) * 1_000_000,
{
    let chunks = all_chunks(sources);
    lemma_begins(sources, first);
    let mix = samples_as_bytes(mix_samples(chunks));
    assert(is_mix_chunk(out[k], mix, earliest(chunks), k));
}

/// Without a chunk there is no mix.
pub proof fn law_no_mix_without_chunks(out: Seq<MixChunk>, sources: Seq<PerSpeakerSource>)
    requires
        is_mix_of(out, all_chunks(sources)),
        forall|a: int| 0 <= a < sources.len() ==> (#[trigger] sources[a]).chunks@.len() == 0,
    ensures
        out.len() == 0,
{
    if all_chunks(sources).len() > 0 {
        let r = lemma_find(sources, 0);
        assert(sources[r.0].chunks@.len() == 0);
    }
}

/// 192 bytes make a millisecond, as far as numbers reach.
pub proof fn law_milliseconds(ms: int, bytes: int)
    requires
        0 <= ms,
        ms * 192_000 <= usize::MAX,
        0 <= bytes,
        bytes * 1000 <= usize::MAX,
    ensures
        bytes_of_ms(ms) == 192 * ms,
        192 * ms_of_bytes(bytes) <= bytes < 192 * (ms_of_bytes(bytes) + 1),
{
}

/// Neither is before the other only if both are the same.
proof fn lemma_names(a: Seq<char>, b: Seq<char>)
    ensures
        !(name_before(a, b) && name_before(b, a)),
        !name_before(a, b) && !name_before(b, a) ==> a == b,
    decreases a.len(),
{
    if a.len() > 0 && b.len() > 0 && a[0] == b[0] {
        lemma_names(a.skip(1), b.skip(1));
        if a.skip(1) == b.skip(1) {
            assert(a =~= seq![a[0]] + a.skip(1));
            assert(b =~= seq![b[0]] + b.skip(1));
        }
    } else if a.len() == 0 && b.len() == 0 {
        assert(a =~= b);
    }
}

proof fn lemma_names_rise(a: Seq<char>, b: Seq<char>, c: Seq<char>)
    requires
        !name_before(b, a),
        !name_before(c, b),
    ensures
        !name_before(c, a),
    decreases a.len(),
{
    if a.len() > 0 && b.len() > 0 && c.len() > 0 && a[0] == b[0] && b[0] == c[0] {
        lemma_names_rise(a.skip(1), b.skip(1), c.skip(1));
    }
}

/// One name comes before another exactly if it breaks off first, or has the smaller
/// character where they first differ.
pub proof fn law_name_order(a: Seq<char>, b: Seq<char>, i: int)
    requires
        0 <= i <= a.len(),
        i <= b.len(),
        forall|j: int| 0 <= j < i ==> a[j] == b[j],
        i == a.len() || i == b.len() || a[i] != b[i],
    ensures
        name_before(a, b) <==> i < b.len() && (i == a.len() || a[i] < b[i]),
    decreases i,
{
    if i > 0 {
        assert forall|j: int| 0 <= j < i - 1 implies a.skip(1)[j] == b.skip(1)[j] by {
            assert(a[j + 1] == b[j + 1]);
        }
        assert(a[0] == b[0]);
        law_name_order(a.skip(1), b.skip(1), i - 1);
    }
}

#[verifier::rlimit(40)]
proof fn lemma_placed_by_name(files: Seq<SourceFile>, f: SourceFile)
    requires
        forall|i: int, j: int|
            0 <= i <= j < files.len() ==> !name_before(
                (#[trigger] files[j]).name@,
                (#[trigger] files[i]).name@,
            ),
    ensures
        placed_by_name(files, f).len() == files.len() + 1,
        placed_by_name(files, f).to_multiset() == files.to_multiset().insert(f),
        forall|i: int, j: int|
            0 <= i <= j < files.len() + 1 ==> !name_before(
                (#[trigger] placed_by_name(files, f)[j]).name@,
                (#[trigger] placed_by_name(files, f)[i]).name@,
            ),
        forall|i: int|
            0 <= i < files.len() + 1 ==> #[trigger] placed_by_name(files, f)[i] == f
                || files.contains(placed_by_name(files, f)[i]),
    decreases files.len(),
{
    let then = placed_by_name(files, f);
    files.to_multiset_ensures();
    if files.len() == 0 || !name_before(f.name@, files.last().name@) {
        assert(then == files.push(f));
        assert forall|i: int, j: int| 0 <= i <= j < then.len() implies !name_before(
            (#[trigger] then[j]).name@,
            (#[trigger] then[i]).name@,
        ) by {
            if j == files.len() {
                if i < j {
                    let last = files[files.len() - 1];
                    assert(!name_before(last.name@, files[i].name@));
                    lemma_names_rise(files[i].name@, last.name@, f.name@);
                } else {
                    lemma_names(f.name@, f.name@);
                }
            } else {
                assert(then[i] == files[i] && then[j] == files[j]);
            }
        }
        assert forall|i: int| 0 <= i < then.len() implies #[trigger] then[i] == f || files.contains(
            then[i],
        ) by {
            if i < files.len() {
                assert(files[i] == then[i]);
            }
        }
    } else {
        let front = files.drop_last();
        let last = files.last();
        assert(last == files[files.len() - 1]);
        assert forall|i: int, j: int| 0 <= i <= j < front.len() implies !name_before(
            (#[trigger] front[j]).name@,
            (#[trigger] front[i]).name@,
        ) by {
            assert(front[i] == files[i] && front[j] == files[j]);
        }
        lemma_placed_by_name(front, f);
        let part = placed_by_name(front, f);
        assert(then == part.push(last));
        part.to_multiset_ensures();
        front.to_multiset_ensures();
        assert(files =~= front.push(last));
        assert(then.to_multiset() =~= files.to_multiset().insert(f));
        assert forall|i: int| 0 <= i < part.len() implies !name_before(
            last.name@,
            (#[trigger] part[i]).name@,
        ) && (part[i] == f || files.contains(part[i])) by {
            if part[i] == f {
                lemma_names(f.name@, last.name@);
            } else {
                let k = choose|k: int| 0 <= k < front.len() && front[k] == part[i];
                assert(files[k] == part[i]);
            }
        }
        assert forall|i: int, j: int| 0 <= i <= j < then.len() implies !name_before(
            (#[trigger] then[j]).name@,
            (#[trigger] then[i]).name@,
        ) by {
            if j == part.len() {
                if i < j {
                    assert(then[i] == part[i]);
                } else {
                    lemma_names(last.name@, last.name@);
                }
            } else {
                assert(then[i] == part[i] && then[j] == part[j]);
            }
        }
        assert forall|i: int| 0 <= i < then.len() implies #[trigger] then[i] == f || files.contains(
            then[i],
        ) by {
            if i < part.len() {
                assert(then[i] == part[i]);
            } else {
                assert(files[files.len() - 1] == then[i]);
            }
        }
    }
}

/// Files are taken by name: no later one has an earlier name, none is lost and none
/// is invented.
pub proof fn law_files_by_name(files: Seq<SourceFile>)
    ensures
        by_name(files).len() == files.len(),
        by_name(files).to_multiset() == files.to_multiset(),
        forall|i: int, j: int|
            0 <= i <= j < files.len() ==> !name_before(
                (#[trigger] by_name(files)[j]).name@,
                (#[trigger] by_name(files)[i]).name@,
            ),
    decreases files.len(),
{
    if files.len() > 0 {
        let front = files.drop_last();
        law_files_by_name(front);
        lemma_placed_by_name(by_name(front), files.last());
        front.to_multiset_ensures();
        assert(files =~= front.push(files.last()));
    } else {
        assert(by_name(files) =~= files);
    }
}

/// Where the sources come from.
proof fn lemma_sources_from(files: Seq<SourceFile>) -> (from: Seq<int>)
    ensures
        from.len() == sources_among(files).len(),
        forall|a: int, b: int| 0 <= a < b < from.len() ==> from[a] < from[b],
        forall|k: int|
            0 <= k < from.len() ==> 0 <= #[trigger] from[k] < files.len() && source_of_file(
                files[from[k]],
            ) == Some(sources_among(files)[k]),
        forall|i: int|
            0 <= i < files.len() && source_of_file(#[trigger] files[i]) is Some ==> from.contains(i),
    decreases files.len(),
{
    if files.len() == 0 {
        Seq::empty()
    } else {
        let front = files.drop_last();
        let n = files.len() - 1;
        let before = lemma_sources_from(front);
        assert(files.last() == files[n]);
        assert forall|k: int| 0 <= k < before.len() implies 0 <= #[trigger] before[k] < n
            && files[before[k]] == front[before[k]] by {}
        let from = if source_of_file(files[n]) is Some {
            before.push(n)
        } else {
            before
        };
        assert forall|i: int|
            0 <= i < files.len() && source_of_file(#[trigger] files[i]) is Some implies from.contains(
            i,
        ) by {
            if i < n {
                assert(front[i] == files[i]);
                let a = choose|a: int| 0 <= a < before.len() && before[a] == i;
                assert(from[a] == i);
            } else {
                assert(from[before.len() as int] == n);
            }
        }
        from
    }
}

/// A chunk that was cached is mixed: with its bytes, and at the time that its name
/// carries. A file that could not be read is left out.
pub proof fn law_cached_chunks_are_mixed(
    files: Seq<SourceFile>,
    chunks: Seq<SourceChunk>,
    i: int,
    seq: u32,
    captured_at: Timestamp,
)
    requires
        chunks.map_values(|c: SourceChunk| source_value(c)) == sources_among(by_name(files)),
        0 <= i < files.len(),
        captured_at.wf(),
        files[i].name@ == chunk_name(seq, captured_at.as_millis()),
        files[i].bytes is Some,
    ensures
        exists|k: int|
            0 <= k < chunks.len() && (#[trigger] chunks[k]).bytes@ == files[i].bytes->0@ && nanos(
                chunks[k].capture_started_at,
            ) == 1_000_000 * captured_at.as_millis(),
        chunks.len() <= files.len(),
{
    let ms = captured_at.as_millis();
    law_chunk_name_round_trip(seq, ms as i64);
    lemma_at_millis(ms);
    let sorted = by_name(files);
    law_files_by_name(files);
    files.to_multiset_ensures();
    sorted.to_multiset_ensures();
    assert(files.contains(files[i]));
    assert(files.to_multiset().count(files[i]) > 0);
    assert(sorted.contains(files[i]));
    let j = choose|j: int| 0 <= j < sorted.len() && sorted[j] == files[i];
    let from = lemma_sources_from(sorted);
    assert(source_of_file(sorted[j]) is Some);
    let k = choose|k: int| 0 <= k < from.len() && from[k] == j;
    assert(source_of_file(sorted[from[k]]) == Some(sources_among(sorted)[k]));
    let values = chunks.map_values(|c: SourceChunk| source_value(c));
    assert(values[k] == source_value(chunks[k]));
    lemma_rising(from, sorted.len() as int);
}

proof fn lemma_rising(from: Seq<int>, n: int)
    requires
        0 <= n,
        forall|a: int, b: int| 0 <= a < b < from.len() ==> from[a] < from[b],
        forall|k: int| 0 <= k < from.len() ==> 0 <= #[trigger] from[k] < n,
    ensures
        from.len() <= n,
    decreases n,
{
    if from.len() > 0 {
        let front = from.drop_last();
        assert(from.last() == from[from.len() - 1]);
        assert forall|k: int| 0 <= k < front.len() implies 0 <= #[trigger] front[k] < n - 1 by {
            assert(from[k] < from[from.len() - 1]);
        }
        lemma_rising(front, n - 1);
    }
}

/// Every source is a file with a chunk's name: nothing is mixed that was not
/// cached.
pub proof fn law_sources_were_cached(files: Seq<SourceFile>, chunks: Seq<SourceChunk>, k: int)
    requires
        chunks.map_values(|c: SourceChunk| source_value(c)) == sources_among(by_name(files)),
        0 <= k < chunks.len(),
    ensures
        exists|i: int|
            0 <= i < files.len() && (#[trigger] files[i]).bytes is Some && files[i].bytes->0@
                == chunks[k].bytes@ && parsed_capture_ms(files[i].name@) is Some && nanos(
                chunks[k].capture_started_at,
            ) == 1_000_000 * parsed_capture_ms(files[i].name@)->0,
{
    let sorted = by_name(files);
    law_files_by_name(files);
    files.to_multiset_ensures();
    sorted.to_multiset_ensures();
    let from = lemma_sources_from(sorted);
    let values = chunks.map_values(|c: SourceChunk| source_value(c));
    assert(values[k] == source_value(chunks[k]));
    let f = sorted[from[k]];
    assert(source_of_file(f) == Some(sources_among(sorted)[k]));
    assert(sorted.contains(f));
    assert(sorted.to_multiset().count(f) > 0);
    assert(files.contains(f));
    let i = choose|i: int| 0 <= i < files.len() && files[i] == f;
    assert(files[i] == f);
    let ms = parsed_capture_ms(f.name@)->0;
    lemma_at_millis(ms as int);
}

/// The chunks of the mix are cached like a participant's, under the name of the mix
/// track.
pub proof fn law_mix_files(root: BufferRoot, session_id: Seq<char>, c: MixChunk)
    ensures
        mix_chunk_path(root, session_id, c) == joined(
            root.participant_path(session_id, "mixed"@),
            chunk_name(c.seq, c.capture_started_at.as_millis()),
        ),
{
}

/// A mix can be rendered whenever its chunks lie in the calendar and it fits into as
/// many upload chunks as can be numbered; without chunks there is nothing to render.
#[verifier::rlimit(40)]
pub proof fn law_what_can_be_rendered(sources: Seq<PerSpeakerSource>, first: SourceChunk)
    requires
        begins(sources, first),
        forall|a: int, b: int|
            is_cached(sources, a, b) ==> {
                let c = #[trigger] sources[a].chunks@[b];
                &&& c.capture_started_at.wf()
                &&& c.bytes@.len() * 1000 <= usize::MAX
                &&& nanos(c.capture_started_at) + 1_000_000 * (c.bytes@.len() as int / 192) < (
                MAX_SECS + 1) * 1_000_000_000
                &&& 192 * lag(c, first) + c.bytes@.len() + 2 <= 0xffff_ffff * 2_097_152
            },
    ensures
        mixable(all_chunks(sources)),
{
    let chunks = all_chunks(sources);
    let t0 = nanos(first.capture_started_at);
    lemma_begins(sources, first);
    assert forall|k: int| 0 <= k < chunks.len() implies {
        let c = #[trigger] chunks[k];
        &&& c.capture_started_at.wf()
        &&& c.bytes@.len() * 1000 <= usize::MAX
        &&& nanos(c.capture_started_at) + 1_000_000 * (c.bytes@.len() as int / 192) < (MAX_SECS + 1)
            * 1_000_000_000
        &&& 192 * lag(c, first) + c.bytes@.len() + 2 <= 0xffff_ffff * 2_097_152
    } by {
        let r = lemma_find(sources, k);
        assert(sources[r.0].chunks@[r.1] == chunks[k]);
    }
    assert(chunks_in_range(chunks));
    lemma_ends(chunks, first);
    if mix_end(chunks, t0) > 0 {
        let k = choose|k: int|
            0 <= k < chunks.len() && mix_end(chunks, t0) == end_in_mix(#[trigger] chunks[k], t0);
        lemma_with_chunk(0, chunks[k], first, 0);
    }
}

} // verus!
