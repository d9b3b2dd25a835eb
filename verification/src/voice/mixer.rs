//! The mix track.
//!
//! Before the stabilization gate opens nothing is mixed; at gate-open one mix
//! is rendered from the caches of the participants who are left. From then on a
//! live accumulator sums the frames of the accepted speakers in windows of 20
//! ms.

use crate::collect::{ascending, lemma_ascending_unique, ordered_keys};
use crate::text::{chars_of, joined, path_join};
use crate::time::{
    at_millis, millis_in_range, quotient_toward_zero, utc_from_millis, Timestamp, MAX_SECS,
    MIN_SECS,
};
use crate::voice::buffer::{
    chunk_name, format_chunk_name, parse_capture_ms, parsed_capture_ms, BufferRoot, MIXED_PSEUDO_ID,
};
use crate::voice::pcm::{
    append_samples, high_byte, join_sample, low_byte, mix_pair, mixed_pair, sample_of, samples_as_bytes,
    samples_to_bytes,
};
use std::collections::BTreeMap;
use vstd::prelude::*;

verus! {

broadcast use vstd::std_specs::btree::group_btree_axioms;

/// 48 kHz, stereo, two bytes a sample.
pub const BYTES_PER_SEC: usize = 192_000;

/// The size of an emitted mix chunk.
pub const MIX_CHUNK_SIZE_BYTES: usize = 2_097_152;

/// `a * b`, at most `usize::MAX`.
pub open spec fn capped_product(a: int, b: int) -> int {
    if a * b <= usize::MAX {
        a * b
    } else {
        usize::MAX as int
    }
}

/// The PCM bytes of a number of milliseconds.
pub open spec fn bytes_of_ms(ms: int) -> int {
    capped_product(ms, 192_000) / 1000
}

/// The milliseconds of a number of PCM bytes.
pub open spec fn ms_of_bytes(bytes: int) -> int {
    capped_product(bytes, 1000) / 192_000
}

/// 192 bytes make a millisecond.
pub fn ms_to_bytes(ms: usize) -> (bytes: usize)
    ensures
        bytes == bytes_of_ms(ms as int),
        bytes <= 192 * ms,
{
    let scaled: usize = match ms.checked_mul(BYTES_PER_SEC) {
        Some(n) => n,
        None => usize::MAX,
    };
    scaled / 1000
}

/// 192 bytes make a millisecond.
pub fn bytes_to_ms(bytes: usize) -> (ms: usize)
    ensures
        ms == ms_of_bytes(bytes as int),
        192 * ms <= bytes,
{
    let scaled: usize = match bytes.checked_mul(1000) {
        Some(n) => n,
        None => usize::MAX,
    };
    scaled / BYTES_PER_SEC
}

/// A rendered mix chunk ready to upload.
pub struct MixChunk {
    pub seq: u32,
    pub capture_started_at: Timestamp,
    pub bytes: Vec<u8>,
}

/// The cached chunks of one speaker, in order.
pub struct PerSpeakerSource {
    pub chunks: Vec<SourceChunk>,
}

/// One cached chunk.
pub struct SourceChunk {
    pub capture_started_at: Timestamp,
    pub bytes: Vec<u8>,
}

/// The chunks of all speakers, one speaker after the other.
pub open spec fn all_chunks(sources: Seq<PerSpeakerSource>) -> Seq<SourceChunk>
    decreases sources.len(),
{
    if sources.len() == 0 {
        seq![]
    } else {
        all_chunks(sources.drop_last()) + sources.last().chunks@
    }
}

/// When a chunk ends, in nanoseconds since the epoch.
pub open spec fn chunk_end(c: SourceChunk) -> int {
    c.capture_started_at.as_nanos() + ms_of_bytes(c.bytes@.len() as int) * 1_000_000
}

/// The earliest start, in nanoseconds since the epoch.
pub open spec fn earliest(chunks: Seq<SourceChunk>) -> int
    recommends
        chunks.len() > 0,
    decreases chunks.len(),
{
    let t = chunks.last().capture_started_at.as_nanos();
    if chunks.len() <= 1 {
        t
    } else {
        let before = earliest(chunks.drop_last());
        if t < before {
            t
        } else {
            before
        }
    }
}

/// The sample at which a chunk begins in a mix that begins at `t0`.
pub open spec fn offset_in_mix(c: SourceChunk, t0: int) -> int {
    bytes_of_ms((c.capture_started_at.as_nanos() - t0) / 1_000_000) / 2
}

/// The sample behind the last one of a chunk in a mix that begins at `t0`.
pub open spec fn end_in_mix(c: SourceChunk, t0: int) -> int {
    offset_in_mix(c, t0) + c.bytes@.len() as int / 2
}

/// The sample behind the last one of all chunks in a mix that begins at `t0`.
pub open spec fn mix_end(chunks: Seq<SourceChunk>, t0: int) -> int
    decreases chunks.len(),
{
    if chunks.len() == 0 {
        0
    } else {
        let before = mix_end(chunks.drop_last(), t0);
        let e = end_in_mix(chunks.last(), t0);
        if e > before {
            e
        } else {
            before
        }
    }
}

/// The number of samples in the mix: it reaches from the earliest start to the
/// end of the last sample, and is padded to whole stereo frames.
pub open spec fn mix_len(chunks: Seq<SourceChunk>) -> int {
    let end = mix_end(chunks, earliest(chunks));
    end + end % 2
}

/// What chunk `c` adds to sample `i` of a mix that begins at `t0`, onto `acc`.
pub open spec fn with_chunk(acc: i16, c: SourceChunk, t0: int, i: int) -> i16 {
    let j = i - offset_in_mix(c, t0);
    if 0 <= j && 2 * j + 1 < c.bytes@.len() {
        mixed_pair(acc, sample_of(c.bytes@[2 * j], c.bytes@[2 * j + 1]))
    } else {
        acc
    }
}

/// Sample `i` of the mix: the chunks that cover it, added one after the other,
/// each sum kept in range.
pub open spec fn mix_sample(chunks: Seq<SourceChunk>, t0: int, i: int) -> i16
    decreases chunks.len(),
{
    if chunks.len() == 0 {
        0
    } else {
        with_chunk(mix_sample(chunks.drop_last(), t0, i), chunks.last(), t0, i)
    }
}

/// All samples of the mix.
pub open spec fn mix_samples(chunks: Seq<SourceChunk>) -> Seq<i16> {
    Seq::new(mix_len(chunks) as nat, |i: int| mix_sample(chunks, earliest(chunks), i))
}

/// How many chunks `len` bytes of mix are split into.
pub open spec fn split_count(len: int) -> int {
    (len + 2_097_151) / 2_097_152
}

/// Chunk `k` of a mix that is split into chunks of equal size; the last one may
/// be shorter.
pub open spec fn is_mix_chunk(c: MixChunk, mix: Seq<u8>, t0: int, k: int) -> bool {
    let from = k * 2_097_152;
    let to = if from + 2_097_152 < mix.len() {
        from + 2_097_152
    } else {
        mix.len() as int
    };
    &&& c.seq == k
    &&& c.capture_started_at.wf()
    &&& c.capture_started_at.as_nanos() == t0 + ms_of_bytes(from) * 1_000_000
    &&& c.bytes@ == mix.subrange(from, to)
}

/// `out` is the mix of `chunks`, split into upload chunks.
pub open spec fn is_mix_of(out: Seq<MixChunk>, chunks: Seq<SourceChunk>) -> bool {
    let mix = samples_as_bytes(mix_samples(chunks));
    if chunks.len() == 0 {
        out.len() == 0
    } else {
        &&& out.len() == split_count(mix.len() as int)
        &&& forall|k: int|
            0 <= k < out.len() ==> is_mix_chunk(#[trigger] out[k], mix, earliest(chunks), k)
    }
}

/// Every start and every end lies in the calendar range.
pub open spec fn chunks_in_range(chunks: Seq<SourceChunk>) -> bool {
    forall|i: int|
        0 <= i < chunks.len() ==> (#[trigger] chunks[i]).capture_started_at.wf() && chunk_end(
            chunks[i],
        ) < (MAX_SECS + 1) * 1_000_000_000
}

/// The mix of `chunks` can be told in calendar time and numbered in 32 bits.
pub open spec fn mixable(chunks: Seq<SourceChunk>) -> bool {
    &&& chunks_in_range(chunks)
    &&& chunks.len() > 0 ==> split_count(2 * mix_len(chunks)) <= u32::MAX
}

/// No chunk starts before the earliest start.
pub proof fn lemma_earliest(chunks: Seq<SourceChunk>)
    requires
        chunks.len() > 0,
    ensures
        forall|i: int|
            0 <= i < chunks.len() ==> earliest(chunks) <= (
            #[trigger] chunks[i]).capture_started_at.as_nanos(),
    decreases chunks.len(),
{
    let n = chunks.len() - 1;
    assert(chunks.last() == chunks[n]);
    if chunks.len() > 1 {
        let front = chunks.drop_last();
        lemma_earliest(front);
        assert forall|i: int| 0 <= i < chunks.len() implies earliest(chunks) <= (
        #[trigger] chunks[i]).capture_started_at.as_nanos() by {
            if i < n {
                assert(front[i] == chunks[i]);
            }
        }
    }
}

/// Every chunk ends within the mix, and one of them at its end.
pub proof fn lemma_mix_end(chunks: Seq<SourceChunk>, t0: int)
    requires
        forall|i: int|
            0 <= i < chunks.len() ==> t0 <= (#[trigger] chunks[i]).capture_started_at.as_nanos(),
    ensures
        mix_end(chunks, t0) >= 0,
        forall|i: int|
            0 <= i < chunks.len() ==> end_in_mix(#[trigger] chunks[i], t0) <= mix_end(chunks, t0),
        mix_end(chunks, t0) > 0 ==> exists|i: int|
            0 <= i < chunks.len() && mix_end(chunks, t0) == end_in_mix(#[trigger] chunks[i], t0),
    decreases chunks.len(),
{
    if chunks.len() > 0 {
        let n = chunks.len() - 1;
        let front = chunks.drop_last();
        assert(chunks.last() == chunks[n]);
        assert forall|i: int| 0 <= i < front.len() implies t0 <= (
        #[trigger] front[i]).capture_started_at.as_nanos() by {
            assert(front[i] == chunks[i]);
        }
        lemma_mix_end(front, t0);
        assert forall|i: int| 0 <= i < chunks.len() implies end_in_mix(#[trigger] chunks[i], t0)
            <= mix_end(chunks, t0) by {
            if i < n {
                assert(front[i] == chunks[i]);
            }
        }
        if mix_end(chunks, t0) == mix_end(front, t0) && mix_end(front, t0) > 0 {
            let i = choose|i: int|
                0 <= i < front.len() && mix_end(front, t0) == end_in_mix(#[trigger] front[i], t0);
            assert(chunks[i] == front[i]);
        } else if mix_end(chunks, t0) > 0 {
            assert(mix_end(chunks, t0) == end_in_mix(chunks[n], t0));
        }
    }
}

/// Whatever begins within the mix begins in calendar range.
proof fn lemma_mix_in_range(chunks: Seq<SourceChunk>)
    requires
        chunks.len() > 0,
        chunks_in_range(chunks),
        mix_len(chunks) > 0,
    ensures
        earliest(chunks) + ms_of_bytes(2 * mix_len(chunks) - 4) * 1_000_000 < (MAX_SECS + 1)
            * 1_000_000_000,
{
    let t0 = earliest(chunks);
    lemma_earliest(chunks);
    lemma_mix_end(chunks, t0);
    let i = choose|i: int|
        0 <= i < chunks.len() && mix_end(chunks, t0) == end_in_mix(#[trigger] chunks[i], t0);
    let c = chunks[i];
    assert(c.capture_started_at.wf());
    let len = c.bytes@.len() as int;
    let d = (c.capture_started_at.as_nanos() - t0) / 1_000_000;
    let e = mix_end(chunks, t0);
    let x = 2 * mix_len(chunks) - 4;
    assert(bytes_of_ms(d) <= 192 * d);
    assert(2 * e <= 192 * d + len);
    assert(x <= 192 * d + len - 2);
    assert(ms_of_bytes(x) <= d + ms_of_bytes(len)) by {
        if len * 1000 <= usize::MAX {
            assert(ms_of_bytes(len) == len / 192);
            assert(ms_of_bytes(x) <= x / 192);
        } else {
            assert(ms_of_bytes(len) == usize::MAX as int / 192_000);
        }
    }
    assert(t0 + d * 1_000_000 <= c.capture_started_at.as_nanos());
}

/// Add the samples of `src` into `mix` from `start_sample` on.
fn sum_bytes_into_mix(src: &Vec<u8>, mix: &mut Vec<i16>, start_sample: usize)
    ensures
        final(mix)@.len() == old(mix)@.len(),
        forall|i: int|
            0 <= i < final(mix)@.len() ==> #[trigger] final(mix)@[i] == ({
                let j = i - start_sample;
                if 0 <= j && 2 * j + 1 < src@.len() {
                    mixed_pair(old(mix)@[i], sample_of(src@[2 * j], src@[2 * j + 1]))
                } else {
                    old(mix)@[i]
                }
            }),
{
    let ghost start = mix@;
    let n: usize = src.len();
    let m: usize = mix.len();
    let mut i: usize = start_sample;
    let mut j: usize = 0;
    while i < m && j < n && n - j >= 2
        invariant
            n == src@.len(),
            m == mix@.len() == start.len(),
            j % 2 == 0,
            j <= n,
            i - start_sample == j / 2,
            forall|k: int|
                0 <= k < m ==> #[trigger] mix@[k] == ({
                    let d = k - start_sample;
                    if 0 <= d && 2 * d < j {
                        mixed_pair(start[k], sample_of(src@[2 * d], src@[2 * d + 1]))
                    } else {
                        start[k]
                    }
                }),
        decreases m - i,
    {
        let s: i16 = join_sample(src[j], src[j + 1]);
        let sum: i16 = mix_pair(mix[i], s);
        assert(2 * (i - start_sample) == j);
        mix.set(i, sum);
        i = i + 1;
        j = j + 2;
    }
}

/// The chunks of all speakers in one row, by their indices.
fn chunk_indices(sources: &Vec<PerSpeakerSource>) -> (ix: Vec<(usize, usize)>)
    ensures
        indexes(ix@, sources@, all_chunks(sources@)),
{
    let mut ix: Vec<(usize, usize)> = Vec::new();
    let mut a: usize = 0;
    assert(sources@.take(0) =~= seq![]);
    while a < sources.len()
        invariant
            0 <= a <= sources@.len(),
            ix@.len() == all_chunks(sources@.take(a as int)).len(),
            forall|k: int|
                0 <= k < ix@.len() ==> (#[trigger] ix@[k]).0 < sources@.len() && ix@[k].1
                    < sources@[ix@[k].0 as int].chunks@.len()
                    && sources@[ix@[k].0 as int].chunks@[ix@[k].1 as int] == all_chunks(
                    sources@.take(a as int),
                )[k],
        decreases sources@.len() - a,
    {
        let ghost before = all_chunks(sources@.take(a as int));
        let ghost after = all_chunks(sources@.take(a + 1));
        proof {
            assert(sources@.take(a + 1).drop_last() =~= sources@.take(a as int));
            assert(after == before + sources@[a as int].chunks@);
        }
        let mut b: usize = 0;
        while b < sources[a].chunks.len()
            invariant
                0 <= a < sources@.len(),
                0 <= b <= sources@[a as int].chunks@.len(),
                after == before + sources@[a as int].chunks@,
                ix@.len() == before.len() + b,
                forall|k: int|
                    0 <= k < ix@.len() ==> (#[trigger] ix@[k]).0 < sources@.len() && ix@[k].1
                        < sources@[ix@[k].0 as int].chunks@.len()
                        && sources@[ix@[k].0 as int].chunks@[ix@[k].1 as int] == after[k],
            decreases sources@[a as int].chunks@.len() - b,
        {
            ix.push((a, b));
            b = b + 1;
        }
        a = a + 1;
    }
    assert(sources@.take(sources@.len() as int) =~= sources@);
    ix
}

/// `ix` names the chunks of `chunks`, in order.
spec fn indexes(
    ix: Seq<(usize, usize)>,
    sources: Seq<PerSpeakerSource>,
    chunks: Seq<SourceChunk>,
) -> bool {
    &&& ix.len() == chunks.len()
    &&& forall|k: int|
        0 <= k < ix.len() ==> (#[trigger] ix[k]).0 < sources.len() && ix[k].1
            < sources[ix[k].0 as int].chunks@.len()
            && sources[ix[k].0 as int].chunks@[ix[k].1 as int] == chunks[k]
}

/// The earliest start.
fn earliest_start(
    sources: &Vec<PerSpeakerSource>,
    ix: &Vec<(usize, usize)>,
    Ghost(chunks): Ghost<Seq<SourceChunk>>,
) -> (t0: Timestamp)
    requires
        indexes(ix@, sources@, chunks),
        chunks.len() > 0,
        chunks_in_range(chunks),
    ensures
        t0.wf(),
        t0.as_nanos() == earliest(chunks),
{
    let first = &sources[ix[0].0].chunks[ix[0].1];
    let mut t0: Timestamp = first.capture_started_at;
    assert(chunks[0] == first);
    let mut k: usize = 1;
    assert(chunks.take(1).last() == chunks[0]);
    while k < ix.len()
        invariant
            1 <= k <= ix@.len(),
            indexes(ix@, sources@, chunks),
            chunks_in_range(chunks),
            t0.wf(),
            t0.as_nanos() == earliest(chunks.take(k as int)),
        decreases ix@.len() - k,
    {
        let c = &sources[ix[k].0].chunks[ix[k].1];
        proof {
            assert(chunks[k as int] == c);
            assert(chunks.take(k + 1).drop_last() =~= chunks.take(k as int));
            assert(chunks.take(k + 1).last() == c);
        }
        if c.capture_started_at.before(&t0) {
            t0 = c.capture_started_at;
        }
        k = k + 1;
    }
    assert(chunks.take(chunks.len() as int) =~= chunks);
    t0
}

/// The number of samples in the mix.
fn count_samples(
    sources: &Vec<PerSpeakerSource>,
    ix: &Vec<(usize, usize)>,
    t0: Timestamp,
    Ghost(chunks): Ghost<Seq<SourceChunk>>,
) -> (len: usize)
    requires
        indexes(ix@, sources@, chunks),
        chunks.len() > 0,
        chunks_in_range(chunks),
        t0.wf(),
        t0.as_nanos() == earliest(chunks),
    ensures
        len == mix_len(chunks),
{
    let ghost begin = earliest(chunks);
    let mut end: usize = 0;
    let mut k: usize = 0;
    assert(chunks.take(0) =~= seq![]);
    proof {
        lemma_earliest(chunks);
    }
    while k < ix.len()
        invariant
            0 <= k <= ix@.len(),
            indexes(ix@, sources@, chunks),
            chunks_in_range(chunks),
            t0.wf(),
            t0.as_nanos() == begin,
            forall|i: int|
                0 <= i < chunks.len() ==> begin <= (
                #[trigger] chunks[i]).capture_started_at.as_nanos(),
            end == mix_end(chunks.take(k as int), begin),
            end <= usize::MAX - 1,
        decreases ix@.len() - k,
    {
        let c = &sources[ix[k].0].chunks[ix[k].1];
        proof {
            assert(chunks[k as int] == c);
            assert(chunks.take(k + 1).drop_last() =~= chunks.take(k as int));
            assert(chunks.take(k + 1).last() == c);
        }
        let lag: i64 = c.capture_started_at.millis_since(&t0);
        let offset: usize = ms_to_bytes_i64(lag) / 2;
        assert(offset == offset_in_mix(*c, begin));
        let e: usize = offset + c.bytes.len() / 2;
        if e > end {
            end = e;
        }
        k = k + 1;
    }
    assert(chunks.take(chunks.len() as int) =~= chunks);
    end + end % 2
}

/// The first `len` samples of a mix that begins at `t0`.
fn fill_mix(
    sources: &Vec<PerSpeakerSource>,
    ix: &Vec<(usize, usize)>,
    t0: Timestamp,
    len: usize,
    Ghost(chunks): Ghost<Seq<SourceChunk>>,
) -> (mix: Vec<i16>)
    requires
        indexes(ix@, sources@, chunks),
        chunks.len() > 0,
        chunks_in_range(chunks),
        t0.wf(),
        t0.as_nanos() == earliest(chunks),
    ensures
        mix@ == Seq::new(len as nat, |i: int| mix_sample(chunks, earliest(chunks), i)),
{
    let mut mix: Vec<i16> = vec![0i16; len];
    let mut k: usize = 0;
    let ghost begin = earliest(chunks);
    assert(chunks.take(0) =~= seq![]);
    while k < ix.len()
        invariant
            0 <= k <= ix@.len(),
            indexes(ix@, sources@, chunks),
            chunks.len() > 0,
            chunks_in_range(chunks),
            t0.wf(),
            t0.as_nanos() == begin,
            begin == earliest(chunks),
            mix@.len() == len,
            forall|i: int|
                0 <= i < mix@.len() ==> #[trigger] mix@[i] == mix_sample(
                    chunks.take(k as int),
                    begin,
                    i,
                ),
        decreases ix@.len() - k,
    {
        let c = &sources[ix[k].0].chunks[ix[k].1];
        proof {
            assert(chunks[k as int] == c);
            assert(chunks.take(k + 1).drop_last() =~= chunks.take(k as int));
            assert(chunks.take(k + 1).last() == c);
            lemma_earliest(chunks);
        }
        let ghost before = mix@;
        let lag: i64 = c.capture_started_at.millis_since(&t0);
        let offset: usize = ms_to_bytes_i64(lag) / 2;
        sum_bytes_into_mix(&c.bytes, &mut mix, offset);
        assert(offset == offset_in_mix(*c, begin));
        assert forall|i: int| 0 <= i < mix@.len() implies #[trigger] mix@[i] == mix_sample(
            chunks.take(k + 1),
            begin,
            i,
        ) by {
            assert(before[i] == mix_sample(chunks.take(k as int), begin, i));
        }
        k = k + 1;
    }
    assert(chunks.take(chunks.len() as int) =~= chunks);
    assert(mix@ =~= Seq::new(len as nat, |i: int| mix_sample(chunks, earliest(chunks), i)));
    mix
}

/// One mix of all speakers, from their original capture times, in chunks of
/// two mebibytes. Without any input there is no chunk.
pub fn render_mix_from_caches(sources: &Vec<PerSpeakerSource>) -> (out: Vec<MixChunk>)
    requires
        mixable(all_chunks(sources@)),
    ensures
        is_mix_of(out@, all_chunks(sources@)),
{
    let ghost chunks = all_chunks(sources@);
    let ix = chunk_indices(sources);
    if ix.len() == 0 {
        return Vec::new();
    }
    let t0 = earliest_start(sources, &ix, Ghost(chunks));
    let len: usize = count_samples(sources, &ix, t0, Ghost(chunks));
    let mix = fill_mix(sources, &ix, t0, len, Ghost(chunks));
    assert(mix@ =~= mix_samples(chunks));
    let mix_bytes = samples_to_bytes(&mix);
    proof {
        if len > 0 {
            lemma_mix_in_range(chunks);
        }
    }
    split_mix_into_chunks(&mix_bytes, t0)
}

/// The PCM bytes of a number of milliseconds that is not negative.
fn ms_to_bytes_i64(ms: i64) -> (bytes: usize)
    requires
        0 <= ms,
    ensures
        bytes == bytes_of_ms(ms as int),
        bytes <= usize::MAX / 1000,
{
    if ms as u64 > usize::MAX as u64 {
        assert(ms * 192_000 > usize::MAX);
        usize::MAX / 1000
    } else {
        ms_to_bytes(ms as usize)
    }
}

fn split_mix_into_chunks(mix: &Vec<u8>, t0: Timestamp) -> (out: Vec<MixChunk>)
    requires
        mix@.len() % 4 == 0,
        t0.wf(),
        mix@.len() > 0 ==> t0.as_nanos() + ms_of_bytes(mix@.len() - 4) * 1_000_000 < (MAX_SECS + 1)
            * 1_000_000_000,
        split_count(mix@.len() as int) <= u32::MAX,
    ensures
        out@.len() == split_count(mix@.len() as int),
        forall|k: int|
            0 <= k < out@.len() ==> is_mix_chunk(#[trigger] out@[k], mix@, t0.as_nanos(), k),
{
    let mut out: Vec<MixChunk> = Vec::new();
    let mut seq: u32 = 0;
    let mut offset: usize = 0;
    let n: usize = mix.len();
    while offset < n
        invariant
            n == mix@.len(),
            n % 4 == 0,
            offset <= n,
            seq == out@.len(),
            seq <= split_count(n as int) <= u32::MAX,
            offset == (if seq * 2_097_152 < n {
                seq * 2_097_152
            } else {
                n as int
            }),
            offset == n ==> seq == split_count(n as int),
            t0.wf(),
            n > 0 ==> t0.as_nanos() + ms_of_bytes(n - 4) * 1_000_000 < (MAX_SECS + 1)
                * 1_000_000_000,
            forall|k: int|
                0 <= k < out@.len() ==> is_mix_chunk(#[trigger] out@[k], mix@, t0.as_nanos(), k),
        decreases n - offset,
    {
        let end: usize = if n - offset > MIX_CHUNK_SIZE_BYTES {
            offset + MIX_CHUNK_SIZE_BYTES
        } else {
            n
        };
        let offset_ms: usize = bytes_to_ms(offset);
        assert(offset <= n - 4);
        assert(offset_ms <= ms_of_bytes(n - 4));
        let capture_started_at = t0.plus_millis(offset_ms as u64);
        let bytes = vstd::slice::slice_to_vec(
            vstd::slice::slice_subrange(mix.as_slice(), offset, end),
        );
        let c = MixChunk { seq, capture_started_at, bytes };
        assert(is_mix_chunk(c, mix@, t0.as_nanos(), seq as int));
        out.push(c);
        seq = seq + 1;
        offset = end;
    }
    out
}

/// Whether a mix of `sources` can be rendered: every start and end in calendar
/// range, and no more chunks than 32 bits number.
pub fn can_render(sources: &Vec<PerSpeakerSource>) -> (b: bool)
    ensures
        b == mixable(all_chunks(sources@)),
{
    let ghost chunks = all_chunks(sources@);
    let ix = chunk_indices(sources);
    let mut k: usize = 0;
    while k < ix.len()
        invariant
            0 <= k <= ix@.len(),
            chunks == all_chunks(sources@),
            indexes(ix@, sources@, chunks),
            forall|i: int|
                0 <= i < k ==> (#[trigger] chunks[i]).capture_started_at.wf() && chunk_end(
                    chunks[i],
                ) < (MAX_SECS + 1) * 1_000_000_000,
        decreases ix@.len() - k,
    {
        let c = &sources[ix[k].0].chunks[ix[k].1];
        assert(chunks[k as int] == c);
        let t = c.capture_started_at;
        if t.secs < MIN_SECS || t.secs > MAX_SECS || t.nanos >= 1_000_000_000 {
            return false;
        }
        let end: i128 = t.secs as i128 * 1_000_000_000 + t.nanos as i128 + bytes_to_ms(
            c.bytes.len(),
        ) as i128 * 1_000_000;
        assert(end == chunk_end(*c));
        if end >= (MAX_SECS as i128 + 1) * 1_000_000_000 {
            return false;
        }
        k = k + 1;
    }
    if ix.len() == 0 {
        return true;
    }
    let t0 = earliest_start(sources, &ix, Ghost(chunks));
    let len: usize = count_samples(sources, &ix, t0, Ghost(chunks));
    (2 * (len as u128) + 2_097_151) / 2_097_152 <= u32::MAX as u128
}

/// The file of a mix chunk in the cache.
pub open spec fn mix_chunk_path(root: BufferRoot, session_id: Seq<char>, c: MixChunk) -> Seq<char> {
    joined(
        root.participant_path(session_id, MIXED_PSEUDO_ID@),
        chunk_name(c.seq, c.capture_started_at.as_millis()),
    )
}

/// The files that mix chunks are cached in, so that a flush finds them like any
/// participant's.
pub fn mix_cache_paths(root: &BufferRoot, session_id: &str, chunks: &Vec<MixChunk>) -> (paths: Vec<
    String,
>)
    requires
        forall|i: int| 0 <= i < chunks@.len() ==> (#[trigger] chunks@[i]).capture_started_at.wf(),
    ensures
        paths@.len() == chunks@.len(),
        forall|i: int|
            0 <= i < paths@.len() ==> (#[trigger] paths@[i])@ == mix_chunk_path(
                *root,
                session_id@,
                chunks@[i],
            ),
{
    let dir = root.participant_dir(session_id, MIXED_PSEUDO_ID);
    let mut paths: Vec<String> = Vec::new();
    let mut i: usize = 0;
    while i < chunks.len()
        invariant
            0 <= i <= chunks@.len(),
            dir@ == root.participant_path(session_id@, MIXED_PSEUDO_ID@),
            forall|i: int|
                0 <= i < chunks@.len() ==> (#[trigger] chunks@[i]).capture_started_at.wf(),
            paths@.len() == i,
            forall|k: int|
                0 <= k < i ==> (#[trigger] paths@[k])@ == mix_chunk_path(
                    *root,
                    session_id@,
                    chunks@[k],
                ),
        decreases chunks@.len() - i,
    {
        let c = &chunks[i];
        let name = format_chunk_name(c.seq, c.capture_started_at.millis());
        paths.push(path_join(dir.as_str(), name.as_str()));
        i = i + 1;
    }
    paths
}

/// A file of a participant's cache directory; `None` for one that could not be
/// read.
pub struct SourceFile {
    pub name: String,
    pub bytes: Option<Vec<u8>>,
}

/// Whether `a` comes before `b` in the order of character codes.
pub open spec fn name_before(a: Seq<char>, b: Seq<char>) -> bool
    decreases a.len(),
{
    if b.len() == 0 {
        false
    } else if a.len() == 0 {
        true
    } else if a[0] != b[0] {
        a[0] < b[0]
    } else {
        name_before(a.skip(1), b.skip(1))
    }
}

/// `files` with `f` behind every file whose name is not later.
pub open spec fn placed_by_name(files: Seq<SourceFile>, f: SourceFile) -> Seq<SourceFile>
    decreases files.len(),
{
    if files.len() == 0 || !name_before(f.name@, files.last().name@) {
        files.push(f)
    } else {
        placed_by_name(files.drop_last(), f).push(files.last())
    }
}

/// `files` by name.
pub open spec fn by_name(files: Seq<SourceFile>) -> Seq<SourceFile>
    decreases files.len(),
{
    if files.len() == 0 {
        seq![]
    } else {
        placed_by_name(by_name(files.drop_last()), files.last())
    }
}

/// A chunk's capture time and bytes.
pub open spec fn source_value(c: SourceChunk) -> (Timestamp, Seq<u8>) {
    (c.capture_started_at, c.bytes@)
}

/// The chunk that a file holds: one with a chunk's name, a capture time in
/// calendar range, and readable.
pub open spec fn source_of_file(f: SourceFile) -> Option<(Timestamp, Seq<u8>)> {
    match (parsed_capture_ms(f.name@), f.bytes) {
        (Some(ms), Some(bytes)) => if millis_in_range(ms as int) {
            Some((at_millis(ms as int), bytes@))
        } else {
            None
        },
        _ => None,
    }
}

/// The chunks that `files` hold, in order.
pub open spec fn sources_among(files: Seq<SourceFile>) -> Seq<(Timestamp, Seq<u8>)>
    decreases files.len(),
{
    if files.len() == 0 {
        seq![]
    } else {
        let before = sources_among(files.drop_last());
        match source_of_file(files.last()) {
            Some(c) => before.push(c),
            None => before,
        }
    }
}

/// Whether `a[i..]` comes before `b[i..]` in the order of character codes.
fn suffix_before(a: &Vec<char>, b: &Vec<char>, i: usize) -> (r: bool)
    requires
        i <= a@.len(),
        i <= b@.len(),
    ensures
        r == name_before(a@.skip(i as int), b@.skip(i as int)),
    decreases a@.len() - i,
{
    if i == b.len() {
        false
    } else if i == a.len() {
        true
    } else if a[i] != b[i] {
        a[i] < b[i]
    } else {
        assert(a@.skip(i as int).skip(1) =~= a@.skip(i + 1));
        assert(b@.skip(i as int).skip(1) =~= b@.skip(i + 1));
        suffix_before(a, b, i + 1)
    }
}

fn earlier_name(a: &str, b: &str) -> (r: bool)
    ensures
        r == name_before(a@, b@),
{
    let x = chars_of(a);
    let y = chars_of(b);
    assert(x@.skip(0) =~= x@);
    assert(y@.skip(0) =~= y@);
    suffix_before(&x, &y, 0)
}

fn place_by_name(files: &mut Vec<SourceFile>, f: SourceFile)
    ensures
        final(files)@ == placed_by_name(old(files)@, f),
    decreases old(files)@.len(),
{
    let n: usize = files.len();
    if n == 0 || !earlier_name(f.name.as_str(), files[n - 1].name.as_str()) {
        files.push(f);
    } else {
        let last = files.pop().unwrap();
        place_by_name(files, f);
        files.push(last);
    }
}

/// The chunks that the files of a cache directory hold, by file name, each with
/// the capture time that its name carries.
pub fn collect_source_chunks(files: Vec<SourceFile>) -> (chunks: Vec<SourceChunk>)
    ensures
        chunks@.map_values(|c: SourceChunk| source_value(c)) == sources_among(by_name(files@)),
{
    let ghost given = files@;
    let mut rest = files;
    let mut sorted: Vec<SourceFile> = Vec::new();
    assert(given.skip(0) =~= given);
    assert(given.take(0) =~= seq![]);
    while rest.len() > 0
        invariant
            rest@.len() <= given.len(),
            rest@ == given.skip(given.len() - rest@.len()),
            sorted@ == by_name(given.take(given.len() - rest@.len())),
        decreases rest@.len(),
    {
        let ghost done = given.len() - rest@.len();
        let f = rest.remove(0);
        proof {
            assert(f == given[done]);
            assert(rest@ =~= given.skip(done + 1));
            assert(given.take(done + 1).drop_last() =~= given.take(done));
        }
        place_by_name(&mut sorted, f);
    }
    assert(given.take(given.len() as int) =~= given);
    let ghost order = sorted@;
    let mut chunks: Vec<SourceChunk> = Vec::new();
    assert(order.skip(0) =~= order);
    assert(order.take(0) =~= seq![]);
    assert(chunks@.map_values(|c: SourceChunk| source_value(c)) =~= sources_among(seq![]));
    while sorted.len() > 0
        invariant
            sorted@.len() <= order.len(),
            sorted@ == order.skip(order.len() - sorted@.len()),
            chunks@.map_values(|c: SourceChunk| source_value(c)) == sources_among(
                order.take(order.len() - sorted@.len()),
            ),
        decreases sorted@.len(),
    {
        let ghost done = order.len() - sorted@.len();
        let ghost before = chunks@.map_values(|c: SourceChunk| source_value(c));
        let f = sorted.remove(0);
        proof {
            assert(f == order[done]);
            assert(sorted@ =~= order.skip(done + 1));
            assert(order.take(done + 1).drop_last() =~= order.take(done));
        }
        match (parse_capture_ms(f.name.as_str()), f.bytes) {
            (Some(ms), Some(bytes)) => {
                match utc_from_millis(ms) {
                    Some(t) => {
                        let c = SourceChunk { capture_started_at: t, bytes };
                        chunks.push(c);
                        assert(chunks@.map_values(|c: SourceChunk| source_value(c)) =~= before.push(
                            source_value(c),
                        ));
                    },
                    None => {},
                }
            },
            _ => {},
        }
    }
    assert(order.take(order.len() as int) =~= order);
    chunks
}

/// The samples of a bucket after a frame is added to it: it grows to the length
/// of the frame, up to `cap`, and what lies beyond is left out.
pub open spec fn bucket_with(bucket: Seq<i16>, samples: Seq<i16>, cap: int) -> Seq<i16> {
    let len = if bucket.len() >= samples.len() {
        bucket.len() as int
    } else if samples.len() <= cap {
        samples.len() as int
    } else {
        cap
    };
    Seq::new(
        len as nat,
        |i: int|
            {
                let have: i16 = if i < bucket.len() {
                    bucket[i]
                } else {
                    0
                };
                if i < samples.len() {
                    mixed_pair(have, samples[i])
                } else {
                    have
                }
            },
    )
}

/// The buckets of `keys`, one after the other, as bytes.
pub open spec fn drained_bytes(keys: Seq<i64>, buckets: Map<i64, Seq<i16>>) -> Seq<u8>
    decreases keys.len(),
{
    if keys.len() == 0 {
        seq![]
    } else {
        drained_bytes(keys.drop_last(), buckets) + samples_as_bytes(buckets[keys.last()])
    }
}

/// The elements of `s`, smallest first.
pub open spec fn in_order(s: Set<i64>) -> Seq<i64> {
    choose|keys: Seq<i64>| ascending(keys) && keys.to_set() == s
}

/// An ascending sequence with one more element.
proof fn lemma_insert_ascending(keys: Seq<i64>, x: i64) -> (r: Seq<i64>)
    requires
        ascending(keys),
        !keys.contains(x),
    ensures
        ascending(r),
        r.to_set() == keys.to_set().insert(x),
    decreases keys.len(),
{
    if keys.len() == 0 || keys.last() < x {
        let r = keys.push(x);
        assert(r[keys.len() as int] == x);
        assert forall|y: i64| keys.contains(y) implies r.contains(y) by {
            let i = choose|i: int| 0 <= i < keys.len() && keys[i] == y;
            assert(r[i] == y);
        }
        assert(r.to_set() =~= keys.to_set().insert(x));
        r
    } else {
        let front = keys.drop_last();
        let last = keys.last();
        assert(!front.contains(x)) by {
            if front.contains(x) {
                let i = choose|i: int| 0 <= i < front.len() && front[i] == x;
                assert(keys[i] == x);
            }
        }
        assert(keys[keys.len() - 1] == last);
        let inner = lemma_insert_ascending(front, x);
        let r = inner.push(last);
        assert forall|i: int| 0 <= i < inner.len() implies inner[i] < last by {
            assert(inner.to_set().contains(inner[i]));
            if inner[i] != x {
                assert(front.to_set().contains(inner[i]));
                let j = choose|j: int| 0 <= j < front.len() && front[j] == inner[i];
                assert(keys[j] < keys[keys.len() - 1]);
            }
        }
        assert(r[inner.len() as int] == last);
        assert forall|y: i64| keys.to_set().insert(x).contains(y) implies r.to_set().contains(y) by {
            if y != last {
                if y != x {
                    let j = choose|j: int| 0 <= j < keys.len() && keys[j] == y;
                    assert(front[j] == y);
                    assert(front.to_set().contains(y));
                }
                assert(inner.to_set().contains(y));
                let i = choose|i: int| 0 <= i < inner.len() && inner[i] == y;
                assert(r[i] == y);
            }
        }
        assert forall|y: i64| r.to_set().contains(y) implies keys.to_set().insert(x).contains(y) by {
            let i = choose|i: int| 0 <= i < r.len() && r[i] == y;
            if i < inner.len() {
                assert(inner.to_set().contains(inner[i]));
                if y != x {
                    assert(front.to_set().contains(y));
                    let j = choose|j: int| 0 <= j < front.len() && front[j] == y;
                    assert(keys[j] == y);
                }
            }
        }
        assert(r.to_set() =~= keys.to_set().insert(x));
        r
    }
}

proof fn lemma_ascending_exists(s: Set<i64>) -> (r: Seq<i64>)
    requires
        s.finite(),
    ensures
        ascending(r),
        r.to_set() == s,
    decreases s.len(),
{
    if s.len() == 0 {
        let r: Seq<i64> = seq![];
        assert(r.to_set() =~= s);
        r
    } else {
        let x = s.choose();
        let t = lemma_ascending_exists(s.remove(x));
        assert(!t.contains(x)) by {
            if t.contains(x) {
                assert(t.to_set().contains(x));
            }
        }
        let r = lemma_insert_ascending(t, x);
        assert(s.remove(x).insert(x) =~= s);
        r
    }
}

/// Windows come out in rising order, each of them once.
pub proof fn law_windows_rise(s: Set<i64>)
    requires
        s.finite(),
    ensures
        ascending(in_order(s)),
        in_order(s).to_set() == s,
{
    let r = lemma_ascending_exists(s);
    assert(ascending(r) && r.to_set() == s);
}

proof fn lemma_in_order(keys: Seq<i64>)
    requires
        ascending(keys),
    ensures
        in_order(keys.to_set()) == keys,
{
    let other = in_order(keys.to_set());
    assert(ascending(other) && other.to_set() == keys.to_set());
    lemma_ascending_unique(keys, other);
}

/// The 20 ms window that an instant falls into.
pub open spec fn window_of(now: Timestamp) -> int {
    quotient_toward_zero(now.as_millis(), 20) * 20
}

/// The window of an instant begins in the calendar range.
pub proof fn lemma_window_in_range(now: Timestamp)
    requires
        now.wf(),
    ensures
        millis_in_range(window_of(now)),
        millis_in_range(now.as_millis()),
{
    let ms = now.as_millis();
    assert(MIN_SECS * 1000 <= ms <= MAX_SECS * 1000 + 999);
}

/// What the live mix holds.
pub struct MixState {
    /// The frames of each 20 ms window that is still open.
    pub buckets: Map<i64, Seq<i16>>,
    /// Bytes of closed windows that wait to be emitted.
    pub staged: Seq<u8>,
    /// When the first staged byte was captured.
    pub start: Option<Timestamp>,
    pub next_seq: u32,
}

impl MixState {
    /// There are finitely many open windows, each begins in the calendar range,
    /// and what is staged has a capture time.
    pub open spec fn wf(self) -> bool {
        &&& self.buckets.dom().finite()
        &&& forall|k: i64| #[trigger]
            self.buckets.contains_key(k) ==> millis_in_range(k as int)
        &&& self.staged.len() > 0 ==> self.start is Some
    }

    /// The windows that are complete at `now`.
    pub open spec fn ready(self, now: Timestamp) -> Set<i64> {
        self.buckets.dom().filter(|k: i64| k <= now.as_millis() - 100)
    }

    /// After a frame is added to the window of `now`.
    pub open spec fn with_frame(self, now: Timestamp, samples: Seq<i16>, cap: int) -> MixState {
        let key = window_of(now) as i64;
        let bucket = if self.buckets.contains_key(key) {
            self.buckets[key]
        } else {
            seq![]
        };
        MixState { buckets: self.buckets.insert(key, bucket_with(bucket, samples, cap)), ..self }
    }

    /// After the windows of `keys` are closed, in that order.
    pub open spec fn closing(self, keys: Seq<i64>) -> MixState {
        MixState {
            buckets: self.buckets.remove_keys(keys.to_set()),
            staged: self.staged + drained_bytes(keys, self.buckets),
            start: if self.start is Some || keys.len() == 0 {
                self.start
            } else {
                Some(at_millis(keys[0] as int))
            },
            next_seq: self.next_seq,
        }
    }

    /// After the windows that are complete at `now` are closed, earliest first.
    pub open spec fn drained(self, now: Timestamp) -> MixState {
        self.closing(in_order(self.ready(now)))
    }

    /// After every window is closed, earliest first.
    pub open spec fn all_closed(self) -> MixState {
        self.closing(in_order(self.buckets.dom()))
    }

    /// At least `limit` bytes are staged.
    pub open spec fn is_full(self, limit: int) -> bool {
        self.staged.len() >= limit
    }

    /// After what is staged was emitted.
    pub open spec fn emitted(self) -> MixState {
        MixState {
            buckets: self.buckets,
            staged: seq![],
            start: None,
            next_seq: (self.next_seq + 1) as u32,
        }
    }

    /// `c` is what this state emits.
    pub open spec fn emits(self, c: MixChunk) -> bool {
        &&& c.seq == self.next_seq
        &&& self.start == Some(c.capture_started_at)
        &&& c.bytes@ == self.staged
    }
}

/// The live mix. Every frame of an accepted speaker goes through `submit`; once
/// enough bytes are staged they are handed back as a chunk ready to upload.
pub struct LiveMixAccum {
    bucket: BTreeMap<i64, Vec<i16>>,
    max_samples_per_bucket: usize,
    roll_over_bytes: usize,
    staged: Vec<u8>,
    staged_start: Option<Timestamp>,
    next_seq: u32,
}

impl View for LiveMixAccum {
    type V = MixState;

    closed spec fn view(&self) -> MixState {
        MixState {
            buckets: self.bucket@.map_values(|v: Vec<i16>| v@),
            staged: self.staged@,
            start: self.staged_start,
            next_seq: self.next_seq,
        }
    }
}

fn sum_into_bucket(bucket: &mut Vec<i16>, samples: &Vec<i16>, cap: usize)
    ensures
        final(bucket)@ == bucket_with(old(bucket)@, samples@, cap as int),
{
    let ghost start = bucket@;
    if bucket.len() < samples.len() {
        let len: usize = if samples.len() <= cap {
            samples.len()
        } else {
            cap
        };
        bucket.resize(len, 0i16);
    }
    let ghost grown = bucket@;
    assert(forall|i: int|
        0 <= i < grown.len() ==> #[trigger] grown[i] == (if i < start.len() {
            start[i]
        } else {
            0i16
        }));
    let n: usize = bucket.len();
    let m: usize = samples.len();
    let mut i: usize = 0;
    while i < m && i < n
        invariant
            0 <= i <= m,
            i <= n,
            m == samples@.len(),
            n == bucket@.len() == grown.len(),
            forall|k: int|
                0 <= k < n ==> #[trigger] bucket@[k] == (if k < i {
                    mixed_pair(grown[k], samples@[k])
                } else {
                    grown[k]
                }),
        decreases m - i,
    {
        let sum: i16 = mix_pair(bucket[i], samples[i]);
        bucket.set(i, sum);
        i = i + 1;
    }
    assert(bucket@ =~= bucket_with(start, samples@, cap as int));
}

impl LiveMixAccum {
    /// What the mix holds is in order, and nothing is emitted empty.
    pub open spec fn wf(&self) -> bool {
        self@.wf() && self.roll_over() > 0
    }

    /// The number of samples that a window holds at most.
    pub closed spec fn cap(&self) -> int {
        self.max_samples_per_bucket as int
    }

    /// The number of staged bytes at which a chunk is emitted.
    pub closed spec fn roll_over(&self) -> int {
        self.roll_over_bytes as int
    }

    /// An empty mix: a second of samples per window at most, chunks of two
    /// mebibytes.
    pub fn new() -> (m: LiveMixAccum)
        ensures
            m.wf(),
            m.cap() == 96_000,
            m.roll_over() == 2_097_152,
            m@.buckets == Map::<i64, Seq<i16>>::empty(),
            m@.staged == Seq::<u8>::empty(),
            m@.start is None,
            m@.next_seq == 0,
    {
        LiveMixAccum::with_limits(96_000, MIX_CHUNK_SIZE_BYTES)
    }

    /// An empty mix like `new`, whose first chunk has the number `first_seq`.
    pub fn continuing(first_seq: u32) -> (m: LiveMixAccum)
        ensures
            m.wf(),
            m.cap() == 96_000,
            m.roll_over() == 2_097_152,
            m@.buckets == Map::<i64, Seq<i16>>::empty(),
            m@.staged == Seq::<u8>::empty(),
            m@.start is None,
            m@.next_seq == first_seq,
    {
        let mut m = LiveMixAccum::new();
        m.next_seq = first_seq;
        m
    }

    /// An empty mix with limits of its own.
    pub fn with_limits(max_samples_per_bucket: usize, roll_over_bytes: usize) -> (m: LiveMixAccum)
        requires
            roll_over_bytes > 0,
        ensures
            m.wf(),
            m.cap() == max_samples_per_bucket,
            m.roll_over() == roll_over_bytes,
            m@.buckets == Map::<i64, Seq<i16>>::empty(),
            m@.staged == Seq::<u8>::empty(),
            m@.start is None,
            m@.next_seq == 0,
    {
        let m = LiveMixAccum {
            bucket: BTreeMap::new(),
            max_samples_per_bucket,
            roll_over_bytes,
            staged: Vec::new(),
            staged_start: None,
            next_seq: 0,
        };
        assert(m@.buckets =~= Map::<i64, Seq<i16>>::empty());
        m
    }

    /// Whether every chunk number is used up.
    pub fn is_exhausted(&self) -> (b: bool)
        ensures
            b == (self@.next_seq == u32::MAX),
    {
        self.next_seq == u32::MAX
    }

    /// Add a frame at wall-clock `now`, and close what is complete by then.
    /// Returns a chunk once enough is staged.
    pub fn submit(&mut self, now: Timestamp, samples: &Vec<i16>) -> (r: Option<MixChunk>)
        requires
            old(self).wf(),
            now.wf(),
            old(self)@.next_seq < u32::MAX,
        ensures
            final(self).wf(),
            final(self).cap() == old(self).cap(),
            final(self).roll_over() == old(self).roll_over(),
            ({
                let d = old(self)@.with_frame(now, samples@, old(self).cap()).drained(now);
                if d.is_full(old(self).roll_over()) {
                    r is Some && d.emits(r->0) && final(self)@ == d.emitted()
                } else {
                    r is None && final(self)@ == d
                }
            }),
    {
        let ms: i64 = now.millis();
        let key: i64 = if ms < 0 {
            -((-ms) / 20) * 20
        } else {
            ms / 20 * 20
        };
        assert(key == window_of(now));
        let ghost before = self.bucket@;
        let mut bucket: Vec<i16> = match self.bucket.remove(&key) {
            Some(b) => b,
            None => Vec::new(),
        };
        let ghost had = bucket@;
        let cap: usize = self.max_samples_per_bucket;
        sum_into_bucket(&mut bucket, samples, cap);
        self.bucket.insert(key, bucket);
        proof {
            let f = |v: Vec<i16>| v@;
            assert(before.contains_key(key) ==> before.map_values(f)[key] == had);
            assert(self@.buckets =~= old(self)@.with_frame(now, samples@, old(self).cap()).buckets);
            assert(self@.buckets.dom() =~= old(self)@.buckets.dom().insert(key));
            lemma_window_in_range(now);
        }
        self.drain_ready(now)
    }

    /// Move the windows of `keys` to what is staged.
    fn close_windows(&mut self, keys: &Vec<i64>)
        requires
            old(self).wf(),
            keys@.no_duplicates(),
            forall|i: int| 0 <= i < keys@.len() ==> old(self)@.buckets.contains_key(#[trigger] keys@[i]),
        ensures
            final(self).wf(),
            final(self).cap() == old(self).cap(),
            final(self).roll_over() == old(self).roll_over(),
            final(self)@ == old(self)@.closing(keys@),
    {
        let ghost start = self@;
        let mut i: usize = 0;
        proof {
            assert(keys@.take(0) =~= seq![]);
            assert(start.buckets.remove_keys(keys@.take(0).to_set()) =~= start.buckets);
            assert(start.closing(keys@.take(0)).staged =~= start.staged);
        }
        while i < keys.len()
            invariant
                0 <= i <= keys@.len(),
                self.wf(),
                self.cap() == old(self).cap(),
                self.roll_over() == old(self).roll_over(),
                start == old(self)@,
                keys@.no_duplicates(),
                forall|i: int| 0 <= i < keys@.len() ==> start.buckets.contains_key(#[trigger] keys@[i]),
                self@ == start.closing(keys@.take(i as int)),
            decreases keys@.len() - i,
        {
            let k: i64 = keys[i];
            let ghost m0 = self.bucket@;
            let ghost f = |v: Vec<i16>| v@;
            let ghost was = self@;
            proof {
                assert(!keys@.take(i as int).to_set().contains(k)) by {
                    if keys@.take(i as int).contains(k) {
                        let j = choose|j: int| 0 <= j < i && keys@.take(i as int)[j] == k;
                        assert(keys@[j] == keys@[i as int]);
                    }
                }
                assert(self@.buckets.contains_key(k));
                assert(m0.map_values(f).contains_key(k));
                assert(self@.buckets[k] == start.buckets[k]);
            }
            match self.bucket.remove(&k) {
                Some(samples) => {
                    assert(samples@ == start.buckets[k]);
                    if self.staged_start.is_none() {
                        self.staged_start = utc_from_millis(k);
                    }
                    append_samples(&mut self.staged, &samples);
                },
                None => {},
            }
            proof {
                let a = keys@.take(i as int);
                let b = keys@.take(i + 1);
                assert(b.drop_last() =~= a);
                assert(b.last() == k);
                assert(b.to_set() =~= a.to_set().insert(k)) by {
                    assert(b =~= a.push(k));
                    assert forall|x: i64| b.to_set().contains(x) implies a.to_set().insert(k).contains(x) by {
                        let j = choose|j: int| 0 <= j < b.len() && b[j] == x;
                        if j < i {
                            assert(a[j] == x);
                        }
                    }
                    assert forall|x: i64| a.to_set().insert(k).contains(x) implies b.to_set().contains(x) by {
                        if x == k {
                            assert(b[i as int] == k);
                        } else {
                            let j = choose|j: int| 0 <= j < a.len() && a[j] == x;
                            assert(b[j] == x);
                        }
                    }
                }
                assert(self.bucket@ =~= m0.remove(k));
                assert(self@.buckets =~= was.buckets.remove(k));
                assert(was.buckets.remove(k) =~= start.buckets.remove_keys(b.to_set()));
                assert(self@.buckets.dom() =~= was.buckets.dom().remove(k));
                assert(self@.staged =~= start.closing(b).staged);
                assert(a.len() > 0 ==> a[0] == b[0]);
                assert(self@.start == start.closing(b).start);
            }
            i = i + 1;
        }
        assert(keys@.take(keys@.len() as int) =~= keys@);
    }

    /// Close the windows that are complete at `now`, and return a chunk once
    /// enough is staged.
    pub fn drain_ready(&mut self, now: Timestamp) -> (r: Option<MixChunk>)
        requires
            old(self).wf(),
            now.wf(),
            old(self)@.next_seq < u32::MAX,
        ensures
            final(self).wf(),
            final(self).cap() == old(self).cap(),
            final(self).roll_over() == old(self).roll_over(),
            ({
                let d = old(self)@.drained(now);
                if d.is_full(old(self).roll_over()) {
                    r is Some && d.emits(r->0) && final(self)@ == d.emitted()
                } else {
                    r is None && final(self)@ == d
                }
            }),
    {
        let cutoff: i64 = now.millis() - 100;
        let keys = ordered_keys(&self.bucket);
        let mut ready: Vec<i64> = Vec::new();
        let mut i: usize = 0;
        while i < keys.len()
            invariant
                0 <= i <= keys@.len(),
                ascending(keys@),
                ready@.len() <= i,
                ready@ == keys@.take(ready@.len() as int),
                forall|j: int| 0 <= j < ready@.len() ==> keys@[j] <= cutoff,
                forall|j: int| ready@.len() <= j < i ==> keys@[j] > cutoff,
            decreases keys@.len() - i,
        {
            if keys[i] <= cutoff {
                assert(ready@.len() == i) by {
                    if ready@.len() < i {
                        assert(keys@[ready@.len() as int] > cutoff);
                    }
                }
                ready.push(keys[i]);
                assert(ready@ =~= keys@.take(i + 1));
            }
            i = i + 1;
        }
        proof {
            assert(old(self)@.buckets.dom() =~= self.bucket@.dom());
            let s = old(self)@.ready(now);
            assert forall|k: i64| s.contains(k) implies ready@.to_set().contains(k) by {
                assert(keys@.to_set().contains(k));
                let j = choose|j: int| 0 <= j < keys@.len() && keys@[j] == k;
                assert(ready@[j] == k);
            }
            assert forall|k: i64| ready@.to_set().contains(k) implies s.contains(k) by {
                let j = choose|j: int| 0 <= j < ready@.len() && ready@[j] == k;
                assert(keys@[j] == k);
                assert(keys@.to_set().contains(k));
            }
            assert(ready@.to_set() =~= s);
            lemma_in_order(ready@);
            assert forall|j: int| 0 <= j < ready@.len() implies old(self)@.buckets.contains_key(
                #[trigger] ready@[j],
            ) by {
                assert(keys@.to_set().contains(keys@[j]));
            }
        }
        self.close_windows(&ready);
        if self.staged.len() >= self.roll_over_bytes {
            Some(self.emit_staged_chunk())
        } else {
            None
        }
    }

    /// Close every window, and return all that is staged then as the last chunk.
    pub fn finish(&mut self) -> (r: Option<MixChunk>)
        requires
            old(self).wf(),
            old(self)@.next_seq < u32::MAX,
        ensures
            final(self).wf(),
            final(self).cap() == old(self).cap(),
            final(self).roll_over() == old(self).roll_over(),
            ({
                let d = old(self)@.all_closed();
                if d.is_full(1) {
                    r is Some && d.emits(r->0) && final(self)@ == d.emitted()
                } else {
                    r is None && final(self)@ == d
                }
            }),
    {
        let keys = ordered_keys(&self.bucket);
        proof {
            assert(old(self)@.buckets.dom() =~= self.bucket@.dom());
            lemma_in_order(keys@);
            assert forall|j: int| 0 <= j < keys@.len() implies old(self)@.buckets.contains_key(
                #[trigger] keys@[j],
            ) by {
                assert(keys@.to_set().contains(keys@[j]));
            }
        }
        self.close_windows(&keys);
        if self.staged.len() == 0 {
            None
        } else {
            Some(self.emit_staged_chunk())
        }
    }

    fn emit_staged_chunk(&mut self) -> (c: MixChunk)
        requires
            old(self).wf(),
            old(self)@.staged.len() > 0,
            old(self)@.next_seq < u32::MAX,
        ensures
            final(self).wf(),
            final(self).cap() == old(self).cap(),
            final(self).roll_over() == old(self).roll_over(),
            old(self)@.emits(c),
            final(self)@ == old(self)@.emitted(),
    {
        let start = self.staged_start.unwrap();
        let mut bytes: Vec<u8> = Vec::new();
        std::mem::swap(&mut bytes, &mut self.staged);
        self.staged_start = None;
        let seq: u32 = self.next_seq;
        self.next_seq = seq + 1;
        assert(self@.staged =~= seq![]);
        MixChunk { seq, capture_started_at: start, bytes }
    }
}

/// The bytes of chunks, one after the other.
pub open spec fn chunk_bytes(out: Seq<MixChunk>) -> Seq<u8>
    decreases out.len(),
{
    if out.len() == 0 {
        seq![]
    } else {
        chunk_bytes(out.drop_last()) + out.last().bytes@
    }
}

proof fn lemma_split_prefix(out: Seq<MixChunk>, mix: Seq<u8>, t0: int, n: int)
    requires
        0 <= n <= out.len(),
        out.len() == split_count(mix.len() as int),
        forall|k: int| 0 <= k < out.len() ==> is_mix_chunk(#[trigger] out[k], mix, t0, k),
    ensures
        chunk_bytes(out.take(n)) == mix.take(
            if n * 2_097_152 < mix.len() {
                n * 2_097_152
            } else {
                mix.len() as int
            },
        ),
    decreases n,
{
    if n == 0 {
        assert(out.take(0) =~= seq![]);
        assert(mix.take(0) =~= seq![]);
    } else {
        lemma_split_prefix(out, mix, t0, n - 1);
        assert(out.take(n).drop_last() =~= out.take(n - 1));
        assert(out.take(n).last() == out[n - 1]);
        assert(is_mix_chunk(out[n - 1], mix, t0, n - 1));
        assert((n - 1) * 2_097_152 < mix.len());
        let to = if n * 2_097_152 < mix.len() {
            n * 2_097_152
        } else {
            mix.len() as int
        };
        assert(mix.take(to) =~= mix.take((n - 1) * 2_097_152) + mix.subrange(
            (n - 1) * 2_097_152,
            to,
        ));
    }
}

/// Splitting loses nothing: the upload chunks make up the whole mix.
pub proof fn law_split_is_lossless(out: Seq<MixChunk>, chunks: Seq<SourceChunk>)
    requires
        is_mix_of(out, chunks),
        chunks.len() > 0,
    ensures
        chunk_bytes(out) == samples_as_bytes(mix_samples(chunks)),
{
    let mix = samples_as_bytes(mix_samples(chunks));
    lemma_split_prefix(out, mix, earliest(chunks), out.len() as int);
    assert(out.take(out.len() as int) =~= out);
    assert(mix.take(mix.len() as int) =~= mix);
}

/// The mix of a single speaker is that speaker's audio, as long as it is made of
/// whole stereo frames.
pub proof fn law_single_speaker_mix(c: SourceChunk)
    requires
        c.capture_started_at.wf(),
        c.bytes@.len() % 4 == 0,
    ensures
        samples_as_bytes(mix_samples(seq![c])) == c.bytes@,
{
    let chunks = seq![c];
    let n = c.bytes@.len() as int / 2;
    let t0 = c.capture_started_at.as_nanos();
    assert(chunks.last() == c);
    assert(earliest(chunks) == t0);
    assert(offset_in_mix(c, t0) == 0);
    assert(chunks.drop_last() =~= seq![]);
    assert(mix_end(chunks.drop_last(), t0) == 0);
    assert(mix_len(chunks) == n);
    let samples = mix_samples(chunks);
    assert forall|i: int| 0 <= i < n implies samples[i] == sample_of(
        c.bytes@[2 * i],
        c.bytes@[2 * i + 1],
    ) by {
        assert(mix_sample(chunks.drop_last(), t0, i) == 0);
        assert(mix_sample(chunks, t0, i) == with_chunk(0, c, t0, i));
    }
    assert(samples_as_bytes(samples) =~= c.bytes@) by {
        let b = samples_as_bytes(samples);
        assert forall|i: int| 0 <= i < b.len() implies b[i] == c.bytes@[i] by {
            let j = i / 2;
            let low = c.bytes@[2 * j];
            let high = c.bytes@[2 * j + 1];
            assert(low_byte(sample_of(low, high)) == low && high_byte(sample_of(low, high)) == high);
        }
    }
}

/// Every sample of every speaker is in the mix: none begins before it or ends
/// behind it.
pub proof fn law_mix_covers_every_chunk(chunks: Seq<SourceChunk>, i: int)
    requires
        0 <= i < chunks.len(),
    ensures
        offset_in_mix(chunks[i], earliest(chunks)) >= 0,
        end_in_mix(chunks[i], earliest(chunks)) <= mix_len(chunks),
{
    let t0 = earliest(chunks);
    lemma_earliest(chunks);
    lemma_mix_end(chunks, t0);
    assert(t0 <= chunks[i].capture_started_at.as_nanos());
    assert(end_in_mix(chunks[i], t0) <= mix_end(chunks, t0));
}

/// Two speakers are mixed alike in either order.
pub proof fn law_mix_of_two_is_symmetric(a: SourceChunk, b: SourceChunk)
    ensures
        mix_samples(seq![a, b]) == mix_samples(seq![b, a]),
{
    let x = seq![a, b];
    let y = seq![b, a];
    assert(x.drop_last() =~= seq![a]);
    assert(y.drop_last() =~= seq![b]);
    assert(seq![a].drop_last() =~= seq![]);
    assert(seq![b].drop_last() =~= seq![]);
    assert(earliest(seq![a]) == a.capture_started_at.as_nanos());
    assert(earliest(seq![b]) == b.capture_started_at.as_nanos());
    assert(earliest(x) == earliest(y));
    let t0 = earliest(x);
    let none = Seq::<SourceChunk>::empty();
    assert(mix_end(none, t0) == 0);
    assert(mix_end(seq![a], t0) == if end_in_mix(a, t0) > 0 { end_in_mix(a, t0) } else { 0 });
    assert(mix_end(seq![b], t0) == if end_in_mix(b, t0) > 0 { end_in_mix(b, t0) } else { 0 });
    assert(mix_end(x, t0) == mix_end(y, t0));
    assert forall|i: int| mix_sample(x, t0, i) == mix_sample(y, t0, i) by {
        assert(mix_sample(none, t0, i) == 0);
        assert(mix_sample(seq![a], t0, i) == with_chunk(0, a, t0, i));
        assert(mix_sample(seq![b], t0, i) == with_chunk(0, b, t0, i));
    }
    assert(mix_samples(x) =~= mix_samples(y));
}

} // verus!
