use chronicle_bot::time::Timestamp;
use chronicle_bot::voice::buffer::{
    client_chunk_id, delete_participant, delete_session, format_chunk_name, list_chunks,
    ms_to_datetime, parse_capture_ms, parse_chunk_name, pcm_bytes_to_duration_ms,
    sweep_on_startup, walk_total_bytes, BufferRoot, DirEntry, Flush, FlushAction,
    ParticipantCache, RemovalOutcome, MIXED_PSEUDO_ID,
};

fn now_plus_ms(offset_ms: i64) -> Timestamp {
    let ms = 1_700_000_000_000 + offset_ms;
    Timestamp { secs: ms / 1000, nanos: (ms % 1000) as u32 * 1_000_000 }
}

fn root_with(max_secs: u64) -> BufferRoot {
    BufferRoot::new("/buf".to_string(), max_secs)
}

fn file(path: &str, bytes: u64) -> DirEntry {
    let name = path.rsplit('/').next().unwrap().to_string();
    DirEntry { name, is_file: true, is_dir: false, bytes }
}

fn dir(name: &str) -> DirEntry {
    DirEntry { name: name.to_string(), is_file: false, is_dir: true, bytes: 0 }
}

/// Write one chunk to a pretended directory.
fn append(cache: &mut ParticipantCache, disk: &mut Vec<DirEntry>, data: &[u8], at: Timestamp) -> u32 {
    disk.push(file(&cache.chunk_path(at), data.len() as u64));
    cache.append_chunk(true).unwrap()
}

#[test]
fn append_then_list_preserves_sequence_and_timestamps() {
    let root = root_with(7200);
    let mut disk: Vec<DirEntry> = Vec::new();
    let mut cache = ParticipantCache::open(&root, "sess1", "pseudo1", &disk, now_plus_ms(0));
    let ts0 = now_plus_ms(0);
    let ts1 = now_plus_ms(100);
    let ts2 = now_plus_ms(250);
    assert_eq!(append(&mut cache, &mut disk, b"aaa", ts0), 0);
    assert_eq!(append(&mut cache, &mut disk, b"bbbb", ts1), 1);
    assert_eq!(append(&mut cache, &mut disk, b"ccccc", ts2), 2);
    let chunks = cache.chunks_in_order(&disk, now_plus_ms(9));
    assert_eq!(chunks.len(), 3);
    assert_eq!(chunks[0].seq, 0);
    assert_eq!(chunks[0].capture_started_at, ts0);
    assert_eq!(chunks[1].capture_started_at, ts1);
    assert_eq!(chunks[2].capture_started_at, ts2);
    assert_eq!(chunks[2].bytes, 5);
    assert_eq!(chunks[2].path, "/buf/sess1/pseudo1/chunk_000002_1700000000250.pcm");
}

#[test]
fn delete_removes_all_chunks() {
    let root = root_with(7200);
    let mut disk: Vec<DirEntry> = Vec::new();
    let mut cache = ParticipantCache::open(&root, "sess2", "pseudo2", &disk, now_plus_ms(0));
    append(&mut cache, &mut disk, b"aaa", now_plus_ms(0));
    assert_eq!(cache.dir(), "/buf/sess2/pseudo2");
    let removal = cache.delete();
    assert_eq!(removal.dir, "/buf/sess2/pseudo2");
    assert!(removal.settle(RemovalOutcome::Removed).is_ok());
    assert!(cache.delete().settle(RemovalOutcome::NotFound).is_ok());
}

#[test]
fn delete_participant_is_idempotent() {
    let root = root_with(7200);
    let removal = delete_participant(&root, "sess-ghost", "pseudo-ghost");
    assert_eq!(removal.dir, "/buf/sess-ghost/pseudo-ghost");
    assert!(removal.settle(RemovalOutcome::NotFound).is_ok());
}

#[test]
fn delete_session_removes_every_participant() {
    let root = root_with(7200);
    let mut d1: Vec<DirEntry> = Vec::new();
    let mut d2: Vec<DirEntry> = Vec::new();
    let mut c1 = ParticipantCache::open(&root, "sess3", "p1", &d1, now_plus_ms(0));
    append(&mut c1, &mut d1, b"aaaa", now_plus_ms(0));
    let mut c2 = ParticipantCache::open(&root, "sess3", "p2", &d2, now_plus_ms(0));
    append(&mut c2, &mut d2, b"bbbb", now_plus_ms(0));
    let removal = delete_session(&root, "sess3");
    assert_eq!(removal.dir, root.session_dir("sess3"));
    assert!(c1.dir().starts_with(&removal.dir));
    assert!(c2.dir().starts_with(&removal.dir));
}

#[test]
fn oldest_chunk_drops_when_cap_exceeded() {
    let root = BufferRoot::with_cap("/buf".to_string(), 10);
    let mut disk: Vec<DirEntry> = Vec::new();
    let mut cache = ParticipantCache::open(&root, "sess4", "p1", &disk, now_plus_ms(0));
    for i in 0..6 {
        append(&mut cache, &mut disk, &[1u8, 2, 3, 4], now_plus_ms(i * 10));
        let chunks = cache.chunks_in_order(&disk, now_plus_ms(0));
        let n = cache.enforce_cap(&chunks);
        disk.drain(0..n);
    }
    let remaining = cache.chunks_in_order(&disk, now_plus_ms(0));
    assert!(remaining.len() <= 3, "remaining: {}", remaining.len());
    let seqs: Vec<u32> = remaining.iter().map(|c| c.seq).collect();
    assert_eq!(seqs, (6 - remaining.len() as u32..6).collect::<Vec<_>>());
    assert_eq!(remaining.len(), 2);
}

#[test]
fn sweep_on_startup_removes_stale_session_dirs() {
    let root = root_with(7200);
    let entries = vec![dir("old-sess"), file("stray.txt", 3), dir("older")];
    let removals = sweep_on_startup(root.root(), &entries);
    let dirs: Vec<&str> = removals.iter().map(|r| r.dir.as_str()).collect();
    assert_eq!(dirs, vec!["/buf/old-sess", "/buf/older"]);
    assert_eq!(dirs[0], root.session_dir("old-sess"));
}

#[test]
fn walk_total_bytes_sums_across_all_participants() {
    let total = walk_total_bytes(&vec![5, 7]);
    assert_eq!(total, 12);
    assert_eq!(walk_total_bytes(&Vec::new()), 0);
    assert_eq!(walk_total_bytes(&vec![u64::MAX, 1]), u64::MAX);
}

#[test]
fn chunk_filename_roundtrips_seq_and_timestamp() {
    let ts = now_plus_ms(1_234);
    let name = format!("chunk_{:06}_{}.pcm", 42, ts.millis());
    let (seq, ms) = parse_chunk_name(&name).unwrap();
    assert_eq!(seq, 42);
    assert_eq!(ms, ts.millis());
}

#[test]
fn pcm_bytes_to_duration_ms_handles_common_sizes() {
    assert_eq!(pcm_bytes_to_duration_ms(192_000), 1_000);
    assert_eq!(pcm_bytes_to_duration_ms(96_000), 500);
    assert_eq!(pcm_bytes_to_duration_ms(0), 0);
}

#[test]
fn chunk_names_are_read_back() {
    assert_eq!(format_chunk_name(42, 1_700_000_001_234), "chunk_000042_1700000001234.pcm");
    assert_eq!(format_chunk_name(4_294_967_295, -5), "chunk_4294967295_-5.pcm");
    for (seq, ms) in [(0u32, 0i64), (7, -1), (1_000_000, i64::MAX), (u32::MAX, i64::MIN)] {
        assert_eq!(parse_chunk_name(&format_chunk_name(seq, ms)), Some((seq, ms)));
        assert_eq!(parse_capture_ms(&format_chunk_name(seq, ms)), Some(ms));
    }
}

#[test]
fn other_names_are_no_chunks() {
    for name in [
        "chunk_1.pcm",
        "chunk_1_2.wav",
        "chunkk_1_2.pcm",
        "chunk_x_2.pcm",
        "chunk_1_y.pcm",
        "chunk_1_2_3.pcm",
        "chunk__.pcm",
        "",
        "chunk_4294967296_1.pcm",
    ] {
        assert_eq!(parse_chunk_name(name), None, "{name}");
    }
    assert_eq!(parse_capture_ms("chunk_x_2.pcm"), Some(2));
}

#[test]
fn numbering_goes_on_behind_cached_chunks() {
    let root = root_with(7200);
    let disk = vec![
        file("chunk_000004_1700000000000.pcm", 4),
        file("chunk_000002_1700000000000.pcm", 4),
    ];
    let cache = ParticipantCache::open(&root, "s", "p", &disk, now_plus_ms(0));
    assert_eq!(
        cache.chunk_path(now_plus_ms(1)),
        "/buf/s/p/chunk_000005_1700000000001.pcm"
    );
    let listed = cache.chunks_in_order(&disk, now_plus_ms(0));
    assert_eq!(listed[0].seq, 2);
    assert_eq!(listed[1].seq, 4);
}

#[test]
fn a_failed_write_keeps_its_number() {
    let root = root_with(7200);
    let mut cache = ParticipantCache::open(&root, "s", "p", &Vec::new(), now_plus_ms(0));
    assert_eq!(cache.append_chunk(false), None);
    assert_eq!(cache.append_chunk(true), Some(0));
    assert_eq!(cache.append_chunk(true), Some(1));
}

#[test]
fn failed_removals_are_reported() {
    let root = root_with(1);
    let r = delete_session(&root, "s").settle(RemovalOutcome::Failed { message: "denied".to_string() });
    assert_eq!(r, Err("denied".to_string()));
}

#[test]
fn capture_times_come_from_names() {
    let now = now_plus_ms(5);
    assert_eq!(ms_to_datetime(1_700_000_000_123, now), now_plus_ms(123));
    assert_eq!(ms_to_datetime(-1, now), Timestamp { secs: -1, nanos: 999_000_000 });
    assert_eq!(ms_to_datetime(i64::MAX, now), now);
    assert_eq!(ms_to_datetime(8_210_266_876_799_999, now).secs, 8_210_266_876_799);
    assert_eq!(ms_to_datetime(8_210_266_876_800_000, now), now);
    assert_eq!(ms_to_datetime(-8_334_601_228_800_000, now).secs, -8_334_601_228_800);
    assert_eq!(ms_to_datetime(-8_334_601_228_800_001, now), now);
}

#[test]
fn foreign_files_are_not_listed() {
    let disk = vec![
        file("chunk_000001_5.pcm", 8),
        file("notes.txt", 8),
        DirEntry { name: "chunk_000000_5.pcm".to_string(), is_file: false, is_dir: true, bytes: 0 },
    ];
    let chunks = list_chunks("/d", &disk, now_plus_ms(0));
    assert_eq!(chunks.len(), 1);
    assert_eq!(chunks[0].seq, 1);
    assert_eq!(chunks[0].path, "/d/chunk_000001_5.pcm");
}

#[test]
fn chunk_ids_name_session_pseudonym_and_number() {
    let id = client_chunk_id(0x0123_4567_89ab_cdef_0123_4567_89ab_cdef, "mixed", 3);
    assert_eq!(id, "01234567-89ab-cdef-0123-456789abcdef:mixed:3");
    assert_eq!(MIXED_PSEUDO_ID, "mixed");
}

#[test]
fn flush_uploads_in_order_and_removes_the_directory() {
    let disk = vec![
        file("chunk_000001_1700000000500.pcm", 192_000),
        file("chunk_000000_1700000000000.pcm", 96_000),
    ];
    let mut f = Flush::new(7, "p", "/buf/s/p", &disk, now_plus_ms(0));
    match f.next_action() {
        FlushAction::Read { path } => assert_eq!(path, "/buf/s/p/chunk_000000_1700000000000.pcm"),
        FlushAction::RemoveDir { .. } => panic!("chunks are left"),
    }
    let u = f.upload(96_000);
    assert_eq!(u.capture_started_at, now_plus_ms(0));
    assert_eq!(u.duration_ms, 500);
    assert_eq!(u.client_chunk_id, "00000000-0000-0000-0000-000000000007:p:0");
    f.advance();
    assert_eq!(f.count(), 1);
    let u = f.upload(192_000);
    assert_eq!(u.capture_started_at, now_plus_ms(500));
    assert_eq!(u.duration_ms, 1000);
    f.advance();
    match f.next_action() {
        FlushAction::RemoveDir { removal } => assert_eq!(removal.dir, "/buf/s/p"),
        FlushAction::Read { .. } => panic!("no chunk is left"),
    }
    assert_eq!(f.count(), 2);
}

#[test]
fn eviction_keeps_the_newest_chunks_within_the_cap() {
    let root = BufferRoot::with_cap("/buf".to_string(), 8);
    let disk = vec![
        file("chunk_000000_1.pcm", 4),
        file("chunk_000001_2.pcm", 4),
        file("chunk_000002_3.pcm", 4),
    ];
    let cache = ParticipantCache::open(&root, "s", "p", &disk, now_plus_ms(0));
    let chunks = cache.chunks_in_order(&disk, now_plus_ms(0));
    assert_eq!(cache.enforce_cap(&chunks), 1);
    let roomy = BufferRoot::with_cap("/buf".to_string(), 12);
    let cache = ParticipantCache::open(&roomy, "s", "p", &disk, now_plus_ms(0));
    assert_eq!(cache.enforce_cap(&chunks), 0);
    let tiny = BufferRoot::with_cap("/buf".to_string(), 3);
    let cache = ParticipantCache::open(&tiny, "s", "p", &disk, now_plus_ms(0));
    assert_eq!(cache.enforce_cap(&chunks), 3);
}
