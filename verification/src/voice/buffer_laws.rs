//! What is found in the cache again, and what goes along with an upload.

use crate::ident::uuid_text;
use crate::plain::nanos;
use crate::text::{
    dec_text, joined, lemma_first_index_behind, parse_signed, parse_unsigned,
};
use crate::time::{lemma_at_millis, millis_in_range, Timestamp};
use crate::voice::buffer::{
    by_seq, capture_instant, chunk_name, chunk_of_entry, chunks_among, duration_ms, evicted,
    infos, law_by_seq, law_cached_chunks_are_flushed, law_chunk_name_round_trip, law_eviction, listed,
    max_seq, parsed_capture_ms, parsed_chunk_name, placed, size_sum, stale_dirs, total_bytes, BufferRoot, CachedChunk, ChunkInfo,
    ChunkUpload, DirEntry,
};
use vstd::prelude::*;
use vstd::string::*;

verus! {

/// A file whose name does not begin with `chunk_` and end with `.pcm` is no chunk.
pub proof fn law_other_files_are_no_chunks(name: Seq<char>)
    ensures
        parsed_chunk_name(name) is Some ==> name.len() >= 10 && name.take(6) == seq![
            'c',
            'h',
            'u',
            'n',
            'k',
            '_',
        ] && name.skip(name.len() - 4) == seq!['.', 'p', 'c', 'm'],
{
    reveal_strlit("chunk_");
    reveal_strlit(".pcm");
    if parsed_chunk_name(name) is Some {
        assert("chunk_"@ =~= seq!['c', 'h', 'u', 'n', 'k', '_']);
        assert(".pcm"@ =~= seq!['.', 'p', 'c', 'm']);
        assert(name.skip(6).skip(name.skip(6).len() - 4) =~= name.skip(name.len() - 4));
    }
}

/// The name of a chunk's file: the number with at least six digits, and the
/// capture time in milliseconds.
pub proof fn law_chunk_names_differ(a: u32, s: i64, b: u32, t: i64)
    requires
        (a, s) != (b, t),
    ensures
        chunk_name(a, s as int) != chunk_name(b, t as int),
{
    law_chunk_name_round_trip(a, s);
    law_chunk_name_round_trip(b, t);
}

/// Position `k` of the listing is the chunk that entry `from[k]` is.
proof fn lemma_among_from(dir: Seq<char>, entries: Seq<DirEntry>, now: Timestamp) -> (from: Seq<int>)
    ensures
        from.len() == chunks_among(dir, entries, now).len(),
        forall|a: int, b: int| 0 <= a < b < from.len() ==> from[a] < from[b],
        forall|k: int|
            0 <= k < from.len() ==> 0 <= #[trigger] from[k] < entries.len() && chunk_of_entry(
                dir,
                entries[from[k]],
                now,
            ) == Some(chunks_among(dir, entries, now)[k]),
    decreases entries.len(),
{
    if entries.len() == 0 {
        Seq::empty()
    } else {
        let front = entries.drop_last();
        let n = entries.len() - 1;
        let before = lemma_among_from(dir, front, now);
        assert(entries.last() == entries[n]);
        assert forall|k: int| 0 <= k < before.len() implies 0 <= #[trigger] before[k] < n
            && entries[before[k]] == front[before[k]] by {}
        if chunk_of_entry(dir, entries[n], now) is Some {
            before.push(n)
        } else {
            before
        }
    }
}

/// What a directory listing gives is there: every chunk is a file in the directory
/// whose name carries its number and its capture time. Numbers never fall.
pub proof fn law_listed_chunks_are_files(
    dir: Seq<char>,
    entries: Seq<DirEntry>,
    now: Timestamp,
    k: int,
)
    requires
        0 <= k < listed(dir, entries, now).len(),
    ensures
        exists|i: int|
            0 <= i < entries.len() && {
                let c = listed(dir, entries, now)[k];
                let e = #[trigger] entries[i];
                &&& e.is_file
                &&& c.path == joined(dir, e.name@)
                &&& c.bytes == e.bytes
                &&& match parsed_chunk_name(e.name@) {
                    Some((seq, ms)) => {
                        &&& c.seq == seq
                        &&& millis_in_range(ms as int) ==> nanos(c.capture_started_at) == 1_000_000
                            * ms
                    },
                    None => false,
                }
            },
        forall|j: int|
            0 <= j <= k ==> (#[trigger] listed(dir, entries, now)[j]).seq <= listed(
                dir,
                entries,
                now,
            )[k].seq,
{
    let among = chunks_among(dir, entries, now);
    let all = by_seq(among);
    law_by_seq(among);
    among.to_multiset_ensures();
    all.to_multiset_ensures();
    assert(all.contains(all[k]));
    assert(all.to_multiset().count(all[k]) > 0);
    assert(among.contains(all[k]));
    let a = choose|a: int| 0 <= a < among.len() && among[a] == all[k];
    let from = lemma_among_from(dir, entries, now);
    let i = from[a];
    assert(chunk_of_entry(dir, entries[i], now) == Some(among[a]));
    match parsed_chunk_name(entries[i].name@) {
        Some((_, ms)) => {
            if millis_in_range(ms as int) {
                lemma_at_millis(ms as int);
            }
        },
        None => {},
    }
}

/// Chunks with the same number keep the order of the listing, and no other order
/// is changed than that of numbers.
pub proof fn law_same_numbers_keep_order(chunks: Seq<ChunkInfo>, n: u32)
    ensures
        by_seq(chunks).filter(|c: ChunkInfo| c.seq == n) == chunks.filter(
            |c: ChunkInfo| c.seq == n,
        ),
    decreases chunks.len(),
{
    reveal(Seq::filter);
    let p = |c: ChunkInfo| c.seq == n;
    if chunks.len() > 0 {
        let front = chunks.drop_last();
        law_same_numbers_keep_order(front, n);
        law_by_seq(front);
        lemma_placed_filter(by_seq(front), chunks.last(), n);
        assert(by_seq(chunks) == placed(by_seq(front), chunks.last()));
    } else {
        assert(by_seq(chunks) =~= chunks);
    }
}

proof fn lemma_placed_filter(chunks: Seq<ChunkInfo>, c: ChunkInfo, n: u32)
    requires
        forall|i: int, j: int| 0 <= i <= j < chunks.len() ==> chunks[i].seq <= chunks[j].seq,
    ensures
        ({
            let p = |c: ChunkInfo| c.seq == n;
            placed(chunks, c).filter(p) == (if c.seq == n {
                chunks.filter(p).push(c)
            } else {
                chunks.filter(p)
            })
        }),
    decreases chunks.len(),
{
    reveal(Seq::filter);
    let p = |c: ChunkInfo| c.seq == n;
    let after = placed(chunks, c);
    if chunks.len() == 0 || chunks.last().seq <= c.seq {
        assert(after.drop_last() =~= chunks);
        assert(after.last() == c);
    } else {
        let front = chunks.drop_last();
        lemma_placed_filter(front, c, n);
        assert(after.drop_last() =~= placed(front, c));
        assert(after.last() == chunks.last());
        if c.seq == n {
            assert(!p(chunks.last()));
        }
    }
}

/// A cache goes on behind every chunk that lies in its directory.
pub proof fn law_numbers_go_on(
    dir: Seq<char>,
    entries: Seq<DirEntry>,
    now: Timestamp,
    i: int,
    seq: u32,
    captured_at: Timestamp,
)
    requires
        captured_at.wf(),
        0 <= i < entries.len(),
        entries[i].is_file,
        entries[i].name@ == chunk_name(seq, captured_at.as_millis()),
    ensures
        seq <= max_seq(listed(dir, entries, now)),
        exists|k: int|
            0 <= k < listed(dir, entries, now).len() && (#[trigger] listed(
                dir,
                entries,
                now,
            )[k]).seq == max_seq(listed(dir, entries, now)),
{
    law_cached_chunks_are_flushed(dir, entries, now, i, seq, captured_at);
    let all = listed(dir, entries, now);
    law_by_seq(chunks_among(dir, entries, now));
    assert(all.last() == all[all.len() - 1]);
}

/// The bytes of chunks add up.
pub proof fn law_total_bytes(chunks: Seq<ChunkInfo>, c: ChunkInfo)
    ensures
        total_bytes(Seq::empty()) == 0,
        total_bytes(chunks.push(c)) == total_bytes(chunks) + c.bytes,
    decreases chunks.len(),
{
    reveal_with_fuel(total_bytes, 2);
    if chunks.len() == 0 {
        assert(chunks.push(c).skip(1) =~= Seq::empty());
        assert(chunks =~= Seq::empty());
    } else {
        law_total_bytes(chunks.skip(1), c);
        assert(chunks.push(c).skip(1) =~= chunks.skip(1).push(c));
    }
}

/// A cache within its limit loses nothing; one chunk over it, it loses its oldest
/// chunks only, and what is left fits.
pub proof fn law_eviction_is_needed(chunks: Seq<ChunkInfo>, cap: int)
    requires
        cap >= 0,
    ensures
        total_bytes(chunks) <= cap <==> evicted(chunks, cap) == 0,
        0 < evicted(chunks, cap) ==> total_bytes(chunks.skip(evicted(chunks, cap) - 1)) > cap,
        total_bytes(chunks.skip(evicted(chunks, cap) as int)) <= cap,
{
    law_eviction(chunks, cap);
    if evicted(chunks, cap) > 0 {
        let n = evicted(chunks, cap) - 1;
        assert(total_bytes(chunks.skip(n)) > cap);
    } else {
        assert(chunks.skip(0) =~= chunks);
    }
}

/// At the start every directory under the root is removed, and no file.
pub proof fn law_stale_dirs(root: Seq<char>, entries: Seq<DirEntry>) -> (from: Seq<int>)
    ensures
        stale_dirs(root, entries).len() == from.len(),
        forall|a: int, b: int| 0 <= a < b < from.len() ==> from[a] < from[b],
        forall|i: int|
            (0 <= i < entries.len() && (#[trigger] entries[i]).is_dir) <==> from.contains(i),
        forall|k: int|
            0 <= k < from.len() ==> #[trigger] stale_dirs(root, entries)[k] == joined(
                root,
                entries[from[k]].name@,
            ),
    decreases entries.len(),
{
    if entries.len() == 0 {
        Seq::empty()
    } else {
        let front = entries.drop_last();
        let n = entries.len() - 1;
        let before = law_stale_dirs(root, front);
        assert(entries.last() == entries[n]);
        assert forall|a: int| 0 <= a < before.len() implies 0 <= #[trigger] before[a] < n
            && front[before[a]] == entries[before[a]] by {
            assert(before.contains(before[a]));
            assert(front[before[a]].is_dir);
        }
        let from = if entries[n].is_dir {
            before.push(n)
        } else {
            before
        };
        assert forall|i: int|
            (0 <= i < entries.len() && (#[trigger] entries[i]).is_dir) <==> from.contains(i) by {
            if 0 <= i < n {
                assert(front[i] == entries[i]);
                if before.contains(i) {
                    let a = choose|a: int| 0 <= a < before.len() && before[a] == i;
                    assert(from[a] == i);
                }
            }
            if i == n && entries[n].is_dir {
                assert(from[before.len() as int] == n);
            }
            if from.contains(i) {
                let a = choose|a: int| 0 <= a < from.len() && from[a] == i;
                if a < before.len() {
                    assert(before[a] == i);
                    assert(before.contains(i));
                    assert(front[i].is_dir);
                }
            }
        }
        from
    }
}

/// File sizes add up.
pub proof fn law_size_sum(sizes: Seq<u64>, size: u64)
    ensures
        size_sum(Seq::empty()) == 0,
        size_sum(sizes.push(size)) == size_sum(sizes) + size,
{
    assert(sizes.push(size).drop_last() =~= sizes);
}

/// 192 bytes make a millisecond.
pub proof fn law_duration(bytes: int)
    requires
        0 <= bytes,
        bytes * 1000 <= u64::MAX,
    ensures
        192 * duration_ms(bytes) <= bytes < 192 * (duration_ms(bytes) + 1),
{
}

/// An upload says whose chunk it is and when it was captured, how long it plays,
/// and bears the key `session:pseudonym:number`.
pub proof fn law_upload_says(
    u: ChunkUpload,
    session: u128,
    pseudo_id: Seq<char>,
    seq: u32,
    size: int,
    captured_at: Timestamp,
)
    requires
        u.describes(session, pseudo_id, seq, size, captured_at),
        0 <= size,
        size * 1000 <= u64::MAX,
    ensures
        u.session == session,
        u.pseudo_id@ == pseudo_id,
        u.capture_started_at == captured_at,
        u.client_chunk_id@ == uuid_text(session).push(':') + pseudo_id.push(':') + dec_text(
            seq as nat,
        ),
        192 * u.duration_ms <= size < 192 * (u.duration_ms + 1),
{
    reveal_strlit(":");
    assert(":"@ =~= seq![':']);
    assert(u.client_chunk_id@ =~= uuid_text(session).push(':') + pseudo_id.push(':') + dec_text(
        seq as nat,
    ));
    law_duration(size);
}

/// The cache of a participant lies under that of the session, which lies under the
/// root.
pub proof fn law_cache_layout(root: BufferRoot, session_id: Seq<char>, pseudo_id: Seq<char>)
    requires
        root.path().len() > 0,
        root.path().last() != '/',
        session_id.len() > 0,
        session_id[0] != '/',
        session_id.last() != '/',
        pseudo_id.len() > 0,
        pseudo_id[0] != '/',
    ensures
        root.session_path(session_id) == root.path().push('/') + session_id,
        root.participant_path(session_id, pseudo_id) == (root.path().push('/') + session_id).push(
            '/',
        ) + pseudo_id,
{
    assert((root.path().push('/') + session_id).last() == session_id.last());
}

/// What is listed of a chunk is what is known of it.
pub proof fn law_infos(chunks: Seq<CachedChunk>, i: int)
    requires
        0 <= i < chunks.len(),
    ensures
        infos(chunks).len() == chunks.len(),
        infos(chunks)[i].seq == chunks[i].seq,
        infos(chunks)[i].path == chunks[i].path@,
        infos(chunks)[i].bytes == chunks[i].bytes,
        infos(chunks)[i].capture_started_at == chunks[i].capture_started_at,
{
}

/// The instant of a capture time is that millisecond, or `now` if there is none in
/// the calendar.
pub proof fn law_capture_instant(ms: i64, now: Timestamp)
    ensures
        millis_in_range(ms as int) ==> nanos(capture_instant(ms, now)) == 1_000_000 * ms,
        !millis_in_range(ms as int) ==> capture_instant(ms, now) == now,
{
    if millis_in_range(ms as int) {
        lemma_at_millis(ms as int);
    }
}

/// A file name between `chunk_` and `.pcm` is read at its first underscore: what
/// stands before it is the number, what stands behind it the capture time.
pub proof fn law_chunk_name_parts(number: Seq<char>, time: Seq<char>)
    requires
        forall|i: int| 0 <= i < number.len() ==> number[i] != '_',
    ensures
        ({
            let name = "chunk_"@ + number + "_"@ + time + ".pcm"@;
            let n = parse_unsigned(number, 0xffff_ffff);
            let ms = parse_signed(time);
            &&& parsed_chunk_name(name) == (if n is Some && ms is Some {
                Some((n->0 as u32, ms->0 as i64))
            } else {
                None
            })
            &&& parsed_capture_ms(name) == (if ms is Some {
                Some(ms->0 as i64)
            } else {
                None
            })
        }),
{
    reveal_strlit("chunk_");
    reveal_strlit("_");
    reveal_strlit(".pcm");
    let name = "chunk_"@ + number + "_"@ + time + ".pcm"@;
    let base = number + seq!['_'] + time;
    assert("_"@ =~= seq!['_']);
    assert(name.take(6) =~= "chunk_"@);
    assert(name.skip(6) =~= base + ".pcm"@);
    assert((base + ".pcm"@).skip((base + ".pcm"@).len() - 4) =~= ".pcm"@);
    assert(name.skip(6).take(name.len() - 10) =~= base);
    lemma_first_index_behind(number, '_', time);
    assert(base.take(number.len() as int) =~= number);
    assert(base.skip(number.len() as int + 1) =~= time);
}

} // verus!
