//! The disk cache of captured chunks.
//!
//! ```text
//! <root>/<session_id>/
//!   <pseudo_id>/                         # one directory per participant
//!     chunk_<seq:06>_<capture_ms>.pcm    # the name carries the capture time
//!   mixed/                               # the mix track
//!     chunk_<seq:06>_<capture_ms>.pcm
//! ```
//!
//! The functions here work on directory listings and decide on names, order and
//! eviction; reading, writing and unlinking are up to the caller.

use crate::ident::{format_uuid, uuid_text};
use crate::text::{
    chars_of, dec_text, ends_with, find_char, first_index, int_text, is_digit, joined,
    lemma_dec_text, lemma_first_index_behind, lemma_parse_signed_text, lemma_parse_unsigned_text, owned,
    parse_signed, parse_unsigned, path_join, push_dec, push_int, push_padded, read_signed,
    read_unsigned, starts_with, zero_pad,
};
use crate::time::{at_millis, lemma_at_millis, millis_in_range, utc_from_millis, Timestamp};
use vstd::prelude::*;
use vstd::string::*;

verus! {

/// 48 kHz, 16 bits, stereo: 192,000 bytes per second and participant.
pub const BYTES_PER_SECOND_48K_S16_STEREO: u64 = 192_000;

/// The reserved pseudonym of the mix track.
pub const MIXED_PSEUDO_ID: &'static str = "mixed";

/// The file name of a chunk.
pub open spec fn chunk_name(seq: u32, ms: int) -> Seq<char> {
    "chunk_"@ + zero_pad(dec_text(seq as nat), 6) + "_"@ + int_text(ms) + ".pcm"@
}

/// What stands between `chunk_` and `.pcm` in a file name.
pub open spec fn chunk_base(name: Seq<char>) -> Option<Seq<char>> {
    if starts_with(name, "chunk_"@) && ends_with(name.skip(6), ".pcm"@) {
        Some(name.skip(6).take(name.len() - 10))
    } else {
        None
    }
}

/// The sequence number and the capture time that a file name carries.
pub open spec fn parsed_chunk_name(name: Seq<char>) -> Option<(u32, i64)> {
    match chunk_base(name) {
        None => None,
        Some(base) => {
            let cut = first_index(base, '_') as int;
            if cut >= base.len() {
                None
            } else {
                match (
                    parse_unsigned(base.take(cut), 0xffff_ffff),
                    parse_signed(base.skip(cut + 1)),
                ) {
                    (Some(seq), Some(ms)) => Some((seq as u32, ms as i64)),
                    _ => None,
                }
            }
        },
    }
}

/// The capture time that a file name carries, whatever its sequence number
/// looks like.
pub open spec fn parsed_capture_ms(name: Seq<char>) -> Option<i64> {
    match chunk_base(name) {
        None => None,
        Some(base) => {
            let cut = first_index(base, '_') as int;
            if cut >= base.len() {
                None
            } else {
                match parse_signed(base.skip(cut + 1)) {
                    Some(ms) => Some(ms as i64),
                    None => None,
                }
            }
        },
    }
}

/// The two numbers that a chunk's file name carries can be read back from it.
pub proof fn law_chunk_name_round_trip(seq: u32, ms: i64)
    ensures
        parsed_chunk_name(chunk_name(seq, ms as int)) == Some((seq, ms)),
        parsed_capture_ms(chunk_name(seq, ms as int)) == Some(ms),
{
    reveal_strlit("chunk_");
    reveal_strlit("_");
    reveal_strlit(".pcm");
    let name = chunk_name(seq, ms as int);
    let number = zero_pad(dec_text(seq as nat), 6);
    let time = int_text(ms as int);
    lemma_parse_unsigned_text(seq as nat, 6, 0xffff_ffff);
    lemma_parse_signed_text(ms as int);
    let base = number + seq!['_'] + time;
    assert(name.take(6) =~= "chunk_"@);
    assert(name.skip(6) =~= base + ".pcm"@);
    assert(name.skip(6).skip(name.skip(6).len() - 4) =~= ".pcm"@);
    assert(name.skip(6).take(name.len() - 10) =~= base);
    assert forall|i: int| 0 <= i < number.len() implies number[i] != '_' by {
        assert(is_digit(number[i]));
    }
    lemma_first_index_behind(number, '_', time);
    assert(base.take(number.len() as int) =~= number);
    assert(base.skip(number.len() as int + 1) =~= time);
}

/// The file name of a chunk.
pub fn format_chunk_name(seq: u32, ms: i64) -> (name: String)
    ensures
        name@ == chunk_name(seq, ms as int),
{
    let mut name = owned("chunk_");
    push_padded(&mut name, seq as u64, 6);
    name.append("_");
    push_int(&mut name, ms);
    name.append(".pcm");
    name
}

/// Where the base of a chunk's file name begins and ends, if it is one.
fn find_base(v: &Vec<char>) -> (r: Option<(usize, usize)>)
    ensures
        match (chunk_base(v@), r) {
            (Some(base), Some((from, to))) => from <= to <= v@.len() && v@.subrange(
                from as int,
                to as int,
            ) == base,
            (None, None) => true,
            _ => false,
        },
{
    proof {
        reveal_strlit("chunk_");
        reveal_strlit(".pcm");
    }
    let n: usize = v.len();
    if n < 6 || v[0] != 'c' || v[1] != 'h' || v[2] != 'u' || v[3] != 'n' || v[4] != 'k' || v[5]
        != '_' {
        proof {
            if n >= 6 && v@.take(6) == "chunk_"@ {
                assert(v@.take(6)[0] == v@[0]);
                assert(v@.take(6)[1] == v@[1]);
                assert(v@.take(6)[2] == v@[2]);
                assert(v@.take(6)[3] == v@[3]);
                assert(v@.take(6)[4] == v@[4]);
                assert(v@.take(6)[5] == v@[5]);
            }
        }
        return None;
    }
    assert(v@.take(6) =~= "chunk_"@);
    let ghost rest = v@.skip(6);
    if n < 10 || v[n - 4] != '.' || v[n - 3] != 'p' || v[n - 2] != 'c' || v[n - 1] != 'm' {
        proof {
            if n >= 10 && rest.skip(rest.len() - 4) == ".pcm"@ {
                assert(rest.skip(rest.len() - 4)[0] == v@[n - 4]);
                assert(rest.skip(rest.len() - 4)[1] == v@[n - 3]);
                assert(rest.skip(rest.len() - 4)[2] == v@[n - 2]);
                assert(rest.skip(rest.len() - 4)[3] == v@[n - 1]);
            }
        }
        return None;
    }
    assert(rest.skip(rest.len() - 4) =~= ".pcm"@);
    assert(v@.subrange(6, n - 4) =~= rest.take(v@.len() - 10));
    Some((6, n - 4))
}

/// The sequence number and the capture time that a file name carries.
pub fn parse_chunk_name(name: &str) -> (r: Option<(u32, i64)>)
    ensures
        r == parsed_chunk_name(name@),
{
    let v = chars_of(name);
    match find_base(&v) {
        None => None,
        Some((from, to)) => {
            let ghost base = v@.subrange(from as int, to as int);
            let cut: usize = find_char(&v, from, to, '_');
            if cut >= to {
                return None;
            }
            assert(v@.subrange(from as int, cut as int) =~= base.take(cut - from));
            assert(v@.subrange(cut + 1, to as int) =~= base.skip(cut - from + 1));
            let seq = read_unsigned(&v, from, cut, 0xffff_ffff);
            let ms = read_signed(&v, cut + 1, to);
            match (seq, ms) {
                (Some(s), Some(m)) => Some((s as u32, m)),
                _ => None,
            }
        },
    }
}

/// The capture time that a file name carries, whatever its sequence number
/// looks like.
pub fn parse_capture_ms(name: &str) -> (r: Option<i64>)
    ensures
        r == parsed_capture_ms(name@),
{
    let v = chars_of(name);
    match find_base(&v) {
        None => None,
        Some((from, to)) => {
            let ghost base = v@.subrange(from as int, to as int);
            let cut: usize = find_char(&v, from, to, '_');
            if cut >= to {
                return None;
            }
            assert(v@.subrange(cut + 1, to as int) =~= base.skip(cut - from + 1));
            read_signed(&v, cut + 1, to)
        },
    }
}

/// Roots the cache layout.
pub struct BufferRoot {
    root: String,
    max_bytes_per_participant: u64,
}

impl BufferRoot {
    /// The directory under which every session has its own.
    pub closed spec fn path(&self) -> Seq<char> {
        self.root@
    }

    /// The number of cached bytes above which a participant's oldest chunks go.
    pub closed spec fn cap(&self) -> u64 {
        self.max_bytes_per_participant
    }

    pub open spec fn session_path(&self, session_id: Seq<char>) -> Seq<char> {
        joined(self.path(), session_id)
    }

    pub open spec fn participant_path(
        &self,
        session_id: Seq<char>,
        pseudo_id: Seq<char>,
    ) -> Seq<char> {
        joined(self.session_path(session_id), pseudo_id)
    }

    /// A cache that holds at most `max_seconds` of audio per participant.
    pub fn new(root: String, max_seconds: u64) -> (r: BufferRoot)
        ensures
            r.path() == root@,
            r.cap() == (if max_seconds * 192_000 <= u64::MAX {
                max_seconds * 192_000
            } else {
                u64::MAX as int
            }),
    {
        let cap: u64 = if max_seconds <= u64::MAX / 192_000 {
            max_seconds * BYTES_PER_SECOND_48K_S16_STEREO
        } else {
            u64::MAX
        };
        BufferRoot { root, max_bytes_per_participant: cap }
    }

    /// A cache that holds at most `max_bytes` per participant.
    pub fn with_cap(root: String, max_bytes: u64) -> (r: BufferRoot)
        ensures
            r.path() == root@,
            r.cap() == max_bytes,
    {
        BufferRoot { root, max_bytes_per_participant: max_bytes }
    }

    pub fn root(&self) -> (p: &str)
        ensures
            p@ == self.path(),
    {
        self.root.as_str()
    }

    /// The directory of a session.
    pub fn session_dir(&self, session_id: &str) -> (p: String)
        ensures
            p@ == self.session_path(session_id@),
    {
        path_join(self.root.as_str(), session_id)
    }

    /// The directory of a participant in a session.
    pub fn participant_dir(&self, session_id: &str, pseudo_id: &str) -> (p: String)
        ensures
            p@ == self.participant_path(session_id@, pseudo_id@),
    {
        let dir = self.session_dir(session_id);
        path_join(dir.as_str(), pseudo_id)
    }

    /// A copy of this root.
    pub fn duplicate(&self) -> (r: BufferRoot)
        ensures
            r.path() == self.path(),
            r.cap() == self.cap(),
    {
        BufferRoot {
            root: owned(self.root.as_str()),
            max_bytes_per_participant: self.max_bytes_per_participant,
        }
    }
}

/// One entry of a directory listing.
pub struct DirEntry {
    pub name: String,
    pub is_file: bool,
    pub is_dir: bool,
    pub bytes: u64,
}

/// One cached chunk on disk.
pub struct CachedChunk {
    pub seq: u32,
    pub path: String,
    pub bytes: u64,
    pub capture_started_at: Timestamp,
}

/// A cached chunk, as a value.
pub struct ChunkInfo {
    pub seq: u32,
    pub path: Seq<char>,
    pub bytes: u64,
    pub capture_started_at: Timestamp,
}

impl View for CachedChunk {
    type V = ChunkInfo;

    open spec fn view(&self) -> ChunkInfo {
        ChunkInfo {
            seq: self.seq,
            path: self.path@,
            bytes: self.bytes,
            capture_started_at: self.capture_started_at,
        }
    }
}

/// The contents of a vector of chunks.
pub open spec fn infos(chunks: Seq<CachedChunk>) -> Seq<ChunkInfo> {
    chunks.map_values(|c: CachedChunk| c@)
}

/// The instant of a capture time; `now` for one outside the calendar range.
pub open spec fn capture_instant(ms: i64, now: Timestamp) -> Timestamp {
    if millis_in_range(ms as int) {
        at_millis(ms as int)
    } else {
        now
    }
}

/// The chunk that a directory entry is, if it is one.
pub open spec fn chunk_of_entry(dir: Seq<char>, e: DirEntry, now: Timestamp) -> Option<ChunkInfo> {
    if e.is_file {
        match parsed_chunk_name(e.name@) {
            Some((seq, ms)) => Some(
                ChunkInfo {
                    seq,
                    path: joined(dir, e.name@),
                    bytes: e.bytes,
                    capture_started_at: capture_instant(ms, now),
                },
            ),
            None => None,
        }
    } else {
        None
    }
}

/// The chunks among the entries of a directory, in the order of the listing.
pub open spec fn chunks_among(dir: Seq<char>, entries: Seq<DirEntry>, now: Timestamp) -> Seq<
    ChunkInfo,
>
    decreases entries.len(),
{
    if entries.len() == 0 {
        seq![]
    } else {
        let before = chunks_among(dir, entries.drop_last(), now);
        match chunk_of_entry(dir, entries.last(), now) {
            Some(c) => before.push(c),
            None => before,
        }
    }
}

/// `chunks` with `c` behind every chunk whose number is not larger.
pub open spec fn placed(chunks: Seq<ChunkInfo>, c: ChunkInfo) -> Seq<ChunkInfo>
    decreases chunks.len(),
{
    if chunks.len() == 0 || chunks.last().seq <= c.seq {
        chunks.push(c)
    } else {
        placed(chunks.drop_last(), c).push(chunks.last())
    }
}

/// `chunks` by sequence number; equal numbers keep their order.
pub open spec fn by_seq(chunks: Seq<ChunkInfo>) -> Seq<ChunkInfo>
    decreases chunks.len(),
{
    if chunks.len() == 0 {
        seq![]
    } else {
        placed(by_seq(chunks.drop_last()), chunks.last())
    }
}

/// Numbers never fall along `chunks`.
pub open spec fn in_seq_order(chunks: Seq<ChunkInfo>) -> bool {
    forall|i: int, j: int| 0 <= i <= j < chunks.len() ==> chunks[i].seq <= chunks[j].seq
}

proof fn lemma_placed(chunks: Seq<ChunkInfo>, c: ChunkInfo)
    requires
        in_seq_order(chunks),
    ensures
        in_seq_order(placed(chunks, c)),
        placed(chunks, c).to_multiset() == chunks.to_multiset().insert(c),
        placed(chunks, c).len() == chunks.len() + 1,
        forall|i: int|
            0 <= i < placed(chunks, c).len() ==> (#[trigger] placed(chunks, c)[i]).seq <= c.seq || (
            chunks.len() > 0 && placed(chunks, c)[i].seq <= chunks.last().seq),
    decreases chunks.len(),
{
    broadcast use vstd::seq_lib::group_to_multiset_ensures;

    if chunks.len() == 0 || chunks.last().seq <= c.seq {
        assert(placed(chunks, c) =~= chunks.push(c));
    } else {
        let front = chunks.drop_last();
        lemma_placed(front, c);
        let p = placed(front, c);
        assert(chunks =~= front.push(chunks.last()));
        assert forall|i: int| 0 <= i < p.len() implies (#[trigger] p[i]).seq <= chunks.last().seq by {
            if front.len() > 0 {
                assert(front.last() == chunks[chunks.len() - 2]);
            }
        }
        assert(placed(chunks, c) =~= p.push(chunks.last()));
        assert(placed(chunks, c).to_multiset() =~= chunks.to_multiset().insert(c));
    }
}

/// Listing a directory by sequence number loses no chunk, invents none, and
/// never lets a number fall.
pub proof fn law_by_seq(chunks: Seq<ChunkInfo>)
    ensures
        in_seq_order(by_seq(chunks)),
        by_seq(chunks).to_multiset() == chunks.to_multiset(),
        by_seq(chunks).len() == chunks.len(),
    decreases chunks.len(),
{
    broadcast use vstd::seq_lib::group_to_multiset_ensures;

    if chunks.len() > 0 {
        law_by_seq(chunks.drop_last());
        lemma_placed(by_seq(chunks.drop_last()), chunks.last());
        assert(chunks =~= chunks.drop_last().push(chunks.last()));
    } else {
        assert(by_seq(chunks) =~= chunks);
    }
}

/// The chunks of a directory, by sequence number.
pub open spec fn listed(dir: Seq<char>, entries: Seq<DirEntry>, now: Timestamp) -> Seq<ChunkInfo> {
    by_seq(chunks_among(dir, entries, now))
}

proof fn lemma_among(dir: Seq<char>, entries: Seq<DirEntry>, now: Timestamp, i: int)
    requires
        0 <= i < entries.len(),
        chunk_of_entry(dir, entries[i], now) is Some,
    ensures
        chunks_among(dir, entries, now).contains(chunk_of_entry(dir, entries[i], now)->0),
    decreases entries.len(),
{
    let c = chunk_of_entry(dir, entries[i], now)->0;
    let before = chunks_among(dir, entries.drop_last(), now);
    if i == entries.len() - 1 {
        assert(before.push(c)[before.len() as int] == c);
    } else {
        lemma_among(dir, entries.drop_last(), now, i);
        let k = choose|k: int| 0 <= k < before.len() && before[k] == c;
        assert(chunks_among(dir, entries, now)[k] == c);
    }
}

/// A chunk that was cached is flushed: with the number and the capture time
/// under which it was written, to the millisecond, whatever else lies in the
/// directory.
pub proof fn law_cached_chunks_are_flushed(
    dir: Seq<char>,
    entries: Seq<DirEntry>,
    now: Timestamp,
    i: int,
    seq: u32,
    captured_at: Timestamp,
)
    requires
        captured_at.wf(),
        0 <= i < entries.len(),
        entries[i].is_file,
        entries[i].name@ == chunk_name(seq, captured_at.as_millis()),
    ensures
        exists|k: int|
            0 <= k < listed(dir, entries, now).len() && {
                let c = #[trigger] listed(dir, entries, now)[k];
                &&& c.seq == seq
                &&& c.path == joined(dir, entries[i].name@)
                &&& c.bytes == entries[i].bytes
                &&& c.capture_started_at.as_millis() == captured_at.as_millis()
            },
{
    let ms = captured_at.as_millis();
    law_chunk_name_round_trip(seq, ms as i64);
    lemma_at_millis(ms);
    let c = chunk_of_entry(dir, entries[i], now)->0;
    lemma_among(dir, entries, now, i);
    let among = chunks_among(dir, entries, now);
    law_by_seq(among);
    among.to_multiset_ensures();
    by_seq(among).to_multiset_ensures();
    assert(among.to_multiset().count(c) > 0);
    assert(by_seq(among).to_multiset().count(c) > 0);
    let k = choose|k: int| 0 <= k < by_seq(among).len() && by_seq(among)[k] == c;
    assert(listed(dir, entries, now)[k] == c);
}

/// The instant of a capture time; `now` for one outside the calendar range.
pub fn ms_to_datetime(ms: i64, now: Timestamp) -> (t: Timestamp)
    ensures
        t == capture_instant(ms, now),
{
    match utc_from_millis(ms) {
        Some(t) => t,
        None => now,
    }
}

/// Put `c` behind every chunk whose number is not larger.
fn place(chunks: &mut Vec<CachedChunk>, c: CachedChunk)
    ensures
        infos(final(chunks)@) == placed(infos(old(chunks)@), c@),
    decreases old(chunks)@.len(),
{
    let n: usize = chunks.len();
    if n == 0 || chunks[n - 1].seq <= c.seq {
        proof {
            assert(n > 0 ==> infos(chunks@).last() == chunks@.last()@);
        }
        chunks.push(c);
        assert(infos(chunks@) =~= infos(old(chunks)@).push(c@));
    } else {
        let ghost whole = chunks@;
        let last = chunks.pop().unwrap();
        proof {
            assert(infos(whole).last() == last@);
            assert(infos(chunks@) =~= infos(whole).drop_last());
        }
        place(chunks, c);
        let ghost front = chunks@;
        chunks.push(last);
        assert(infos(chunks@) =~= infos(front).push(last@));
    }
}

/// The chunks of a directory, by sequence number. Chunks whose capture time
/// lies outside the calendar range count as captured at `now`.
pub fn list_chunks(dir: &str, entries: &Vec<DirEntry>, now: Timestamp) -> (chunks: Vec<CachedChunk>)
    ensures
        infos(chunks@) == listed(dir@, entries@, now),
{
    let mut chunks: Vec<CachedChunk> = Vec::new();
    let mut i: usize = 0;
    assert(infos(chunks@) =~= seq![]);
    assert(entries@.take(0) =~= seq![]);
    while i < entries.len()
        invariant
            0 <= i <= entries@.len(),
            infos(chunks@) == listed(dir@, entries@.take(i as int), now),
        decreases entries@.len() - i,
    {
        proof {
            let t = entries@.take(i + 1);
            assert(t.drop_last() =~= entries@.take(i as int));
            assert(t.last() == entries@[i as int]);
        }
        let e = &entries[i];
        if e.is_file {
            match parse_chunk_name(e.name.as_str()) {
                Some((seq, ms)) => {
                    let c = CachedChunk {
                        seq,
                        path: path_join(dir, e.name.as_str()),
                        bytes: e.bytes,
                        capture_started_at: ms_to_datetime(ms, now),
                    };
                    proof {
                        let before = chunks_among(dir@, entries@.take(i as int), now);
                        assert(before.push(c@).drop_last() =~= before);
                        assert(chunks_among(dir@, entries@.take(i + 1), now) == before.push(c@));
                    }
                    place(&mut chunks, c);
                },
                None => {},
            }
        }
        i = i + 1;
    }
    assert(entries@.take(entries@.len() as int) =~= entries@);
    chunks
}

/// The largest sequence number, or zero without a chunk.
pub open spec fn max_seq(chunks: Seq<ChunkInfo>) -> u32 {
    if chunks.len() == 0 {
        0
    } else {
        chunks.last().seq
    }
}

fn max_existing_seq(chunks: &Vec<CachedChunk>) -> (seq: u32)
    ensures
        seq == max_seq(infos(chunks@)),
{
    let n: usize = chunks.len();
    if n == 0 {
        0
    } else {
        assert(infos(chunks@).last() == chunks@.last()@);
        chunks[n - 1].seq
    }
}

/// The bytes of a run of chunks.
pub open spec fn total_bytes(chunks: Seq<ChunkInfo>) -> int
    decreases chunks.len(),
{
    if chunks.len() == 0 {
        0
    } else {
        chunks[0].bytes + total_bytes(chunks.skip(1))
    }
}

/// How many of the oldest chunks have to go so that the rest fits the cap.
pub open spec fn evicted(chunks: Seq<ChunkInfo>, cap: int) -> nat
    decreases chunks.len(),
{
    if chunks.len() == 0 || total_bytes(chunks) <= cap {
        0
    } else {
        1 + evicted(chunks.skip(1), cap)
    }
}

proof fn lemma_total_nonneg(chunks: Seq<ChunkInfo>)
    ensures
        total_bytes(chunks) >= 0,
    decreases chunks.len(),
{
    if chunks.len() > 0 {
        lemma_total_nonneg(chunks.skip(1));
    }
}

/// Eviction takes the oldest chunks, leaves what fits the cap, and takes no
/// chunk more than that.
pub proof fn law_eviction(chunks: Seq<ChunkInfo>, cap: int)
    requires
        cap >= 0,
    ensures
        evicted(chunks, cap) <= chunks.len(),
        total_bytes(chunks.skip(evicted(chunks, cap) as int)) <= cap,
        forall|n: int|
            0 <= n < evicted(chunks, cap) ==> total_bytes(#[trigger] chunks.skip(n)) > cap,
    decreases chunks.len(),
{
    if chunks.len() == 0 || total_bytes(chunks) <= cap {
        assert(chunks.skip(0) =~= chunks);
    } else {
        let rest = chunks.skip(1);
        law_eviction(rest, cap);
        let e = evicted(rest, cap);
        assert(chunks.skip(1 + e as int) =~= rest.skip(e as int));
        assert forall|n: int| 0 <= n < 1 + e implies total_bytes(#[trigger] chunks.skip(n)) > cap by {
            if n == 0 {
                assert(chunks.skip(0) =~= chunks);
            } else {
                assert(chunks.skip(n) =~= rest.skip(n - 1));
            }
        }
    }
}

/// A directory that is to be removed with all that is in it.
pub struct DirRemoval {
    pub dir: String,
}

/// How the removal of a directory ended.
pub enum RemovalOutcome {
    Removed,
    NotFound,
    Failed { message: String },
}

impl DirRemoval {
    /// A directory that is not there counts as removed.
    pub fn settle(&self, outcome: RemovalOutcome) -> (r: Result<(), String>)
        ensures
            match outcome {
                RemovalOutcome::Removed => r is Ok,
                RemovalOutcome::NotFound => r is Ok,
                RemovalOutcome::Failed { message } => r == Err::<(), String>(message),
            },
    {
        match outcome {
            RemovalOutcome::Removed => Ok(()),
            RemovalOutcome::NotFound => Ok(()),
            RemovalOutcome::Failed { message } => Err(message),
        }
    }
}

/// A participant's cache directory, and the number of its next chunk.
pub struct ParticipantCache {
    dir: String,
    next_seq: u32,
    max_bytes: u64,
}

impl ParticipantCache {
    pub closed spec fn path(&self) -> Seq<char> {
        self.dir@
    }

    pub closed spec fn seq(&self) -> u32 {
        self.next_seq
    }

    pub closed spec fn cap(&self) -> u64 {
        self.max_bytes
    }

    /// The cache of a participant whose directory, once created, holds
    /// `entries`. Numbering goes on behind the chunks that are there.
    pub fn open(
        root: &BufferRoot,
        session_id: &str,
        pseudo_id: &str,
        entries: &Vec<DirEntry>,
        now: Timestamp,
    ) -> (c: ParticipantCache)
        requires
            max_seq(
                listed(root.participant_path(session_id@, pseudo_id@), entries@, now),
            ) < u32::MAX,
        ensures
            c.path() == root.participant_path(session_id@, pseudo_id@),
            c.cap() == root.cap(),
            c.seq() == (if entries@.len() == 0 {
                0
            } else {
                max_seq(listed(c.path(), entries@, now)) + 1
            }),
    {
        let dir = root.participant_dir(session_id, pseudo_id);
        let chunks = list_chunks(dir.as_str(), entries, now);
        let highest: u32 = max_existing_seq(&chunks);
        let next_seq: u32 = if entries.len() == 0 {
            0
        } else {
            highest + 1
        };
        ParticipantCache { dir, next_seq, max_bytes: root.max_bytes_per_participant }
    }

    /// The file that the next chunk goes to.
    pub fn chunk_path(&self, capture_started_at: Timestamp) -> (p: String)
        requires
            capture_started_at.wf(),
        ensures
            p@ == joined(self.path(), chunk_name(self.seq(), capture_started_at.as_millis())),
    {
        let name = format_chunk_name(self.next_seq, capture_started_at.millis());
        path_join(self.dir.as_str(), name.as_str())
    }

    /// Take note of whether the next chunk was written: its number is then used
    /// up and returned, and kept for the next try otherwise.
    pub fn append_chunk(&mut self, written: bool) -> (seq: Option<u32>)
        ensures
            final(self).path() == old(self).path(),
            final(self).cap() == old(self).cap(),
            written ==> seq == Some(old(self).seq()) && final(self).seq() == (if old(self).seq()
                < u32::MAX {
                old(self).seq() + 1
            } else {
                u32::MAX as int
            }),
            !written ==> seq is None && final(self).seq() == old(self).seq(),
    {
        if written {
            let seq: u32 = self.next_seq;
            self.next_seq = self.next_seq.saturating_add(1);
            Some(seq)
        } else {
            None
        }
    }

    /// The number of the next chunk.
    pub fn next_seq(&self) -> (seq: u32)
        ensures
            seq == self.seq(),
    {
        self.next_seq
    }

    /// Leave out the numbers below `seq`.
    pub fn continue_at(&mut self, seq: u32)
        ensures
            final(self).path() == old(self).path(),
            final(self).cap() == old(self).cap(),
            final(self).seq() == (if seq > old(self).seq() {
                seq
            } else {
                old(self).seq()
            }),
    {
        if seq > self.next_seq {
            self.next_seq = seq;
        }
    }

    /// The cached chunks, by sequence number.
    pub fn chunks_in_order(&self, entries: &Vec<DirEntry>, now: Timestamp) -> (chunks: Vec<
        CachedChunk,
    >)
        ensures
            infos(chunks@) == listed(self.path(), entries@, now),
    {
        list_chunks(self.dir.as_str(), entries, now)
    }

    /// How many chunks at the front of `chunks` have to be unlinked so that the
    /// rest fits the cap.
    pub fn enforce_cap(&self, chunks: &Vec<CachedChunk>) -> (n: usize)
        requires
            total_bytes(infos(chunks@)) <= u64::MAX,
        ensures
            n == evicted(infos(chunks@), self.cap() as int),
            n <= chunks@.len(),
    {
        let ghost all = infos(chunks@);
        let mut total: u64 = 0;
        let mut i: usize = chunks.len();
        assert(all.skip(all.len() as int) =~= seq![]);
        while i > 0
            invariant
                0 <= i <= chunks@.len(),
                all == infos(chunks@),
                total == total_bytes(all.skip(i as int)),
                total_bytes(all) <= u64::MAX,
            decreases i,
        {
            proof {
                assert(all.skip(i - 1).skip(1) =~= all.skip(i as int));
                lemma_total_suffix(all, i - 1);
            }
            total = total + chunks[i - 1].bytes;
            i = i - 1;
        }
        assert(all.skip(0) =~= all);
        let mut n: usize = 0;
        while n < chunks.len() && total > self.max_bytes
            invariant
                0 <= n <= chunks@.len(),
                all == infos(chunks@),
                total == total_bytes(all.skip(n as int)),
                evicted(all, self.cap() as int) == n + evicted(
                    all.skip(n as int),
                    self.cap() as int,
                ),
            decreases chunks@.len() - n,
        {
            proof {
                assert(all.skip(n as int).skip(1) =~= all.skip(n + 1));
                lemma_total_nonneg(all.skip(n + 1));
            }
            total = total - chunks[n].bytes;
            n = n + 1;
        }
        n
    }

    /// Remove the whole cache.
    pub fn delete(&self) -> (r: DirRemoval)
        ensures
            r.dir@ == self.path(),
    {
        DirRemoval { dir: owned(self.dir.as_str()) }
    }

    pub fn dir(&self) -> (p: &str)
        ensures
            p@ == self.path(),
    {
        self.dir.as_str()
    }
}

proof fn lemma_total_suffix(chunks: Seq<ChunkInfo>, n: int)
    requires
        0 <= n <= chunks.len(),
    ensures
        total_bytes(chunks.skip(n)) <= total_bytes(chunks),
    decreases n,
{
    if n == 0 {
        assert(chunks.skip(0) =~= chunks);
    } else {
        lemma_total_suffix(chunks.skip(1), n - 1);
        assert(chunks.skip(1).skip(n - 1) =~= chunks.skip(n));
    }
}

/// Remove all that is cached of a session.
pub fn delete_session(root: &BufferRoot, session_id: &str) -> (r: DirRemoval)
    ensures
        r.dir@ == root.session_path(session_id@),
{
    DirRemoval { dir: root.session_dir(session_id) }
}

/// Remove all that is cached of a participant.
pub fn delete_participant(root: &BufferRoot, session_id: &str, pseudo_id: &str) -> (r: DirRemoval)
    ensures
        r.dir@ == root.participant_path(session_id@, pseudo_id@),
{
    DirRemoval { dir: root.participant_dir(session_id, pseudo_id) }
}

/// The directories among the entries of `root`, in order.
pub open spec fn stale_dirs(root: Seq<char>, entries: Seq<DirEntry>) -> Seq<Seq<char>>
    decreases entries.len(),
{
    if entries.len() == 0 {
        seq![]
    } else {
        let before = stale_dirs(root, entries.drop_last());
        if entries.last().is_dir {
            before.push(joined(root, entries.last().name@))
        } else {
            before
        }
    }
}

/// What is left in the cache by an earlier run: every directory under the root.
pub fn sweep_on_startup(root: &str, entries: &Vec<DirEntry>) -> (removals: Vec<DirRemoval>)
    ensures
        removals@.map_values(|r: DirRemoval| r.dir@) == stale_dirs(root@, entries@),
{
    let mut removals: Vec<DirRemoval> = Vec::new();
    let mut i: usize = 0;
    assert(entries@.take(0) =~= seq![]);
    assert(removals@.map_values(|r: DirRemoval| r.dir@) =~= seq![]);
    while i < entries.len()
        invariant
            0 <= i <= entries@.len(),
            removals@.map_values(|r: DirRemoval| r.dir@) == stale_dirs(
                root@,
                entries@.take(i as int),
            ),
        decreases entries@.len() - i,
    {
        proof {
            assert(entries@.take(i + 1).drop_last() =~= entries@.take(i as int));
        }
        if entries[i].is_dir {
            let ghost before = removals@.map_values(|r: DirRemoval| r.dir@);
            let dir = path_join(root, entries[i].name.as_str());
            removals.push(DirRemoval { dir });
            assert(removals@.map_values(|r: DirRemoval| r.dir@) =~= before.push(
                joined(root@, entries@[i as int].name@),
            ));
        }
        i = i + 1;
    }
    assert(entries@.take(entries@.len() as int) =~= entries@);
    removals
}

/// The sum of file sizes.
pub open spec fn size_sum(sizes: Seq<u64>) -> int
    decreases sizes.len(),
{
    if sizes.len() == 0 {
        0
    } else {
        size_sum(sizes.drop_last()) + sizes.last()
    }
}

/// The bytes that the files under the root take up, at most `u64::MAX`.
pub fn walk_total_bytes(file_sizes: &Vec<u64>) -> (total: u64)
    ensures
        total == (if size_sum(file_sizes@) <= u64::MAX {
            size_sum(file_sizes@)
        } else {
            u64::MAX as int
        }),
{
    let mut total: u64 = 0;
    let mut i: usize = 0;
    assert(file_sizes@.take(0) =~= seq![]);
    while i < file_sizes.len()
        invariant
            0 <= i <= file_sizes@.len(),
            total == (if size_sum(file_sizes@.take(i as int)) <= u64::MAX {
                size_sum(file_sizes@.take(i as int))
            } else {
                u64::MAX as int
            }),
        decreases file_sizes@.len() - i,
    {
        assert(file_sizes@.take(i + 1).drop_last() =~= file_sizes@.take(i as int));
        total = total.saturating_add(file_sizes[i]);
        i = i + 1;
    }
    assert(file_sizes@.take(file_sizes@.len() as int) =~= file_sizes@);
    total
}

/// The playing time of a number of PCM bytes, in milliseconds.
pub open spec fn duration_ms(bytes: int) -> int {
    (if bytes * 1000 <= u64::MAX {
        bytes * 1000
    } else {
        u64::MAX as int
    }) / 192_000
}

/// 48 kHz stereo: 192,000 bytes make a second.
pub fn pcm_bytes_to_duration_ms(bytes: usize) -> (ms: u64)
    ensures
        ms == duration_ms(bytes as int),
{
    let b: u64 = bytes as u64;
    let scaled: u64 = if b <= u64::MAX / 1000 {
        b * 1000
    } else {
        u64::MAX
    };
    scaled / BYTES_PER_SECOND_48K_S16_STEREO
}

/// The idempotency key of an uploaded chunk.
pub open spec fn chunk_id(session: u128, pseudo_id: Seq<char>, seq: u32) -> Seq<char> {
    uuid_text(session) + ":"@ + pseudo_id + ":"@ + dec_text(seq as nat)
}

/// Different chunk numbers of one speaker give different idempotency keys.
pub proof fn law_chunk_ids_differ(session: u128, pseudo_id: Seq<char>, a: u32, b: u32)
    requires
        a != b,
    ensures
        chunk_id(session, pseudo_id, a) != chunk_id(session, pseudo_id, b),
{
    let start = uuid_text(session) + ":"@ + pseudo_id + ":"@;
    lemma_dec_text(a as nat);
    lemma_dec_text(b as nat);
    assert(chunk_id(session, pseudo_id, a).skip(start.len() as int) =~= dec_text(a as nat));
    assert(chunk_id(session, pseudo_id, b).skip(start.len() as int) =~= dec_text(b as nat));
}

/// The idempotency key of an uploaded chunk: `{session}:{pseudonym}:{number}`.
pub fn client_chunk_id(session: u128, pseudo_id: &str, seq: u32) -> (id: String)
    ensures
        id@ == chunk_id(session, pseudo_id@, seq),
{
    let mut id = format_uuid(session);
    id.append(":");
    id.append(pseudo_id);
    id.append(":");
    push_dec(&mut id, seq as u64);
    id
}

/// What goes along with the bytes of an uploaded chunk.
pub struct ChunkUpload {
    pub session: u128,
    pub pseudo_id: String,
    pub client_chunk_id: String,
    pub capture_started_at: Timestamp,
    pub duration_ms: u64,
}

impl ChunkUpload {
    /// The upload of chunk `seq` with `size` bytes.
    pub open spec fn describes(
        self,
        session: u128,
        pseudo_id: Seq<char>,
        seq: u32,
        size: int,
        capture_started_at: Timestamp,
    ) -> bool {
        &&& self.session == session
        &&& self.pseudo_id@ == pseudo_id
        &&& self.client_chunk_id@ == chunk_id(session, pseudo_id, seq)
        &&& self.capture_started_at == capture_started_at
        &&& self.duration_ms == duration_ms(size)
    }

    /// The upload of chunk `seq` with `size` bytes.
    pub fn new(
        session: u128,
        pseudo_id: &str,
        seq: u32,
        size: usize,
        capture_started_at: Timestamp,
    ) -> (u: ChunkUpload)
        ensures
            u.describes(session, pseudo_id@, seq, size as int, capture_started_at),
    {
        ChunkUpload {
            session,
            pseudo_id: owned(pseudo_id),
            client_chunk_id: client_chunk_id(session, pseudo_id, seq),
            capture_started_at,
            duration_ms: pcm_bytes_to_duration_ms(size),
        }
    }
}

/// Uploading every cached chunk of a directory in order, then removing it.
pub struct Flush {
    session: u128,
    pseudo_id: String,
    dir: String,
    chunks: Vec<CachedChunk>,
    uploaded: usize,
}

/// The next thing that a flush needs done.
pub enum FlushAction {
    /// Read the file; its bytes are the next upload.
    Read { path: String },
    /// Every chunk is uploaded: remove the directory.
    RemoveDir { removal: DirRemoval },
}

impl Flush {
    pub closed spec fn wf(&self) -> bool {
        self.uploaded <= self.chunks@.len()
    }

    pub closed spec fn chunk_list(&self) -> Seq<ChunkInfo> {
        infos(self.chunks@)
    }

    /// How many chunks are uploaded.
    pub closed spec fn done(&self) -> nat {
        self.uploaded as nat
    }

    pub closed spec fn target(&self) -> (u128, Seq<char>, Seq<char>) {
        (self.session, self.pseudo_id@, self.dir@)
    }

    /// A flush of what a directory holds.
    pub fn new(session: u128, pseudo_id: &str, dir: &str, entries: &Vec<DirEntry>, now: Timestamp) -> (f:
        Flush)
        ensures
            f.wf(),
            f.target() == (session, pseudo_id@, dir@),
            f.chunk_list() == listed(dir@, entries@, now),
            f.done() == 0,
    {
        Flush {
            session,
            pseudo_id: owned(pseudo_id),
            dir: owned(dir),
            chunks: list_chunks(dir, entries, now),
            uploaded: 0,
        }
    }

    /// Read the next chunk in sequence order; without one left, remove the
    /// directory.
    pub fn next_action(&self) -> (a: FlushAction)
        requires
            self.wf(),
        ensures
            match a {
                FlushAction::Read { path } => self.done() < self.chunk_list().len() && path@
                    == self.chunk_list()[self.done() as int].path,
                FlushAction::RemoveDir { removal } => self.done() == self.chunk_list().len()
                    && removal.dir@ == self.target().2,
            },
    {
        if self.uploaded < self.chunks.len() {
            FlushAction::Read { path: owned(self.chunks[self.uploaded].path.as_str()) }
        } else {
            FlushAction::RemoveDir { removal: DirRemoval { dir: owned(self.dir.as_str()) } }
        }
    }

    /// How the chunk that was just read is uploaded: under its own number, with
    /// its original capture time and the playing time of its bytes.
    pub fn upload(&self, size: usize) -> (u: ChunkUpload)
        requires
            self.wf(),
            self.done() < self.chunk_list().len(),
        ensures
            ({
                let c = self.chunk_list()[self.done() as int];
                u.describes(
                    self.target().0,
                    self.target().1,
                    c.seq,
                    size as int,
                    c.capture_started_at,
                )
            }),
    {
        let c = &self.chunks[self.uploaded];
        ChunkUpload::new(self.session, self.pseudo_id.as_str(), c.seq, size, c.capture_started_at)
    }

    /// The chunk was uploaded.
    pub fn advance(&mut self)
        requires
            old(self).wf(),
            old(self).done() < old(self).chunk_list().len(),
        ensures
            final(self).wf(),
            final(self).done() == old(self).done() + 1,
            final(self).chunk_list() == old(self).chunk_list(),
            final(self).target() == old(self).target(),
    {
        let total: usize = self.chunks.len();
        if self.uploaded < total {
            self.uploaded = self.uploaded + 1;
        }
    }

    /// How many chunks are uploaded.
    pub fn count(&self) -> (n: usize)
        ensures
            n == self.done(),
    {
        self.uploaded
    }
}

} // verus!
