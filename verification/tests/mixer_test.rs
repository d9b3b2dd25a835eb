use chronicle_bot::time::Timestamp;
use chronicle_bot::voice::buffer::{BufferRoot, DirEntry, ParticipantCache};
use chronicle_bot::voice::mixer::{
    bytes_to_ms, can_render, collect_source_chunks, mix_cache_paths, ms_to_bytes,
    render_mix_from_caches, LiveMixAccum, PerSpeakerSource, SourceChunk, SourceFile,
    BYTES_PER_SEC, MIX_CHUNK_SIZE_BYTES,
};
use chronicle_bot::voice::pcm::{bytes_to_samples, mix_pair, samples_to_bytes};

fn ts(offset_ms: i64) -> Timestamp {
    let ms = 1_700_000_000_000 + offset_ms;
    Timestamp { secs: ms / 1000, nanos: (ms % 1000) as u32 * 1_000_000 }
}

fn pcm_with_value(samples: usize, value: i16) -> Vec<u8> {
    let mut v = Vec::with_capacity(samples * 4);
    for _ in 0..samples {
        v.extend_from_slice(&value.to_le_bytes());
        v.extend_from_slice(&value.to_le_bytes());
    }
    v
}

fn source(at: Timestamp, bytes: Vec<u8>) -> PerSpeakerSource {
    PerSpeakerSource { chunks: vec![SourceChunk { capture_started_at: at, bytes }] }
}

#[test]
fn render_mix_empty_input_yields_no_chunks() {
    assert!(render_mix_from_caches(&Vec::new()).is_empty());
    let s = PerSpeakerSource { chunks: vec![] };
    assert!(render_mix_from_caches(&vec![s]).is_empty());
}

#[test]
fn render_mix_sums_two_aligned_streams() {
    let a = pcm_with_value(48_000, 100);
    let b = pcm_with_value(48_000, 200);
    let out = render_mix_from_caches(&vec![source(ts(0), a), source(ts(0), b)]);
    assert!(!out.is_empty());
    assert_eq!(out[0].capture_started_at, ts(0));
    let first = i16::from_le_bytes([out[0].bytes[0], out[0].bytes[1]]);
    assert_eq!(first, 300);
}

#[test]
fn render_mix_offsets_laggy_streams_by_timestamp() {
    let a = pcm_with_value(24_000, 100);
    let b = pcm_with_value(24_000, 200);
    let out = render_mix_from_caches(&vec![source(ts(0), a), source(ts(500), b)]);
    assert!(!out.is_empty());
    let all: Vec<u8> = out.iter().flat_map(|c| c.bytes.clone()).collect();
    let at0 = i16::from_le_bytes([all[0], all[1]]);
    let at500ms_offset = (500 * BYTES_PER_SEC) / 1000;
    let at500 = i16::from_le_bytes([all[at500ms_offset], all[at500ms_offset + 1]]);
    assert_eq!(at0, 100);
    assert_eq!(at500, 200);
    assert_eq!(all.len(), 192_000);
}

#[test]
fn live_mix_accum_rolls_over_on_size() {
    let mut acc = LiveMixAccum::with_limits(48_000 * 2, 400);
    let samples = vec![10i16; 200];
    let out = acc.submit(ts(0), &samples);
    assert!(out.is_none());
    let later = ts(500);
    let out2 = acc.drain_ready(later);
    assert!(out2.is_some());
    let mc = out2.unwrap();
    assert_eq!(mc.seq, 0);
}

#[test]
fn live_mix_sums_simultaneous_speakers() {
    let mut acc = LiveMixAccum::with_limits(48_000 * 2, 4);
    let t0 = ts(0);
    acc.submit(t0, &vec![10i16, 10, 10, 10]);
    acc.submit(t0, &vec![5i16, 5, 5, 5]);
    let later = ts(500);
    let out = acc.drain_ready(later).unwrap();
    let first = i16::from_le_bytes([out.bytes[0], out.bytes[1]]);
    assert_eq!(first, 15);
}

/// A pretended cache directory with the bytes of its files.
struct Disk {
    entries: Vec<DirEntry>,
    files: Vec<(String, Vec<u8>)>,
}

impl Disk {
    fn new() -> Disk {
        Disk { entries: Vec::new(), files: Vec::new() }
    }

    fn append(&mut self, cache: &mut ParticipantCache, data: &[u8], at: Timestamp) {
        let path = cache.chunk_path(at);
        let name = path.rsplit('/').next().unwrap().to_string();
        self.entries.push(DirEntry {
            name: name.clone(),
            is_file: true,
            is_dir: false,
            bytes: data.len() as u64,
        });
        self.files.push((name, data.to_vec()));
        cache.append_chunk(true).unwrap();
    }

    fn delete(&mut self) {
        self.entries.clear();
        self.files.clear();
    }

    fn source_files(&self) -> Vec<SourceFile> {
        self.files
            .iter()
            .map(|(n, b)| SourceFile { name: n.clone(), bytes: Some(b.clone()) })
            .collect()
    }
}

#[test]
fn mix_render_excludes_declined_participants() {
    let root = BufferRoot::new("/buf".to_string(), 7200);
    let mut on_disk_alice = Disk::new();
    let mut on_disk_bob = Disk::new();
    let mut alice = ParticipantCache::open(&root, "s", "alice", &on_disk_alice.entries, ts(0));
    let mut bob = ParticipantCache::open(&root, "s", "bob", &on_disk_bob.entries, ts(0));
    let at = ts(0);
    on_disk_alice.append(&mut alice, &vec![100i16.to_le_bytes()[0]; 4], at);
    on_disk_bob.append(&mut bob, &vec![100i16.to_le_bytes()[0]; 4], at);
    assert_eq!(bob.delete().dir, "/buf/s/bob");
    on_disk_bob.delete();

    let alice_chunks = collect_source_chunks(on_disk_alice.source_files());
    let bob_chunks = collect_source_chunks(on_disk_bob.source_files());
    assert_eq!(bob_chunks.len(), 0);
    assert_eq!(alice_chunks.len(), 1);

    let sources = vec![PerSpeakerSource { chunks: alice_chunks }];
    let mix = render_mix_from_caches(&sources);
    assert!(!mix.is_empty());
}

#[test]
fn collect_source_chunks_preserves_capture_timestamp() {
    let root = BufferRoot::new("/buf".to_string(), 7200);
    let t_a = ts(0);
    let t_b = ts(500);
    let t_c = ts(1_200);
    let mut disk = Disk::new();
    let mut c = ParticipantCache::open(&root, "s", "p", &disk.entries, ts(0));
    disk.append(&mut c, b"chunk_a", t_a);
    disk.append(&mut c, b"chunk_b", t_b);
    disk.append(&mut c, b"chunk_c", t_c);
    disk.files.reverse();
    let src = collect_source_chunks(disk.source_files());
    assert_eq!(src.len(), 3);
    assert_eq!(src[0].capture_started_at, t_a);
    assert_eq!(src[1].capture_started_at, t_b);
    assert_eq!(src[2].capture_started_at, t_c);
    assert_eq!(src[2].bytes, b"chunk_c".to_vec());
}

#[test]
fn unreadable_and_foreign_files_are_left_out() {
    let src = collect_source_chunks(vec![
        SourceFile { name: "chunk_000000_1.pcm".to_string(), bytes: None },
        SourceFile { name: "notes.txt".to_string(), bytes: Some(vec![1]) },
        SourceFile { name: "chunk_000001_99999999999999999.pcm".to_string(), bytes: Some(vec![1]) },
        SourceFile { name: "chunk_000002_1.pcm".to_string(), bytes: Some(vec![9]) },
    ]);
    assert_eq!(src.len(), 1);
    assert_eq!(src[0].bytes, vec![9]);
}

#[test]
fn a_single_speaker_is_mixed_verbatim() {
    let bytes: Vec<u8> = (0..1000u32).map(|i| (i * 7 % 251) as u8).collect();
    let out = render_mix_from_caches(&vec![source(ts(3), bytes.clone())]);
    assert_eq!(out.len(), 1);
    assert_eq!(out[0].seq, 0);
    assert_eq!(out[0].bytes, bytes);
    let odd = render_mix_from_caches(&vec![source(ts(3), vec![1, 2, 3, 4, 5, 6, 7])]);
    assert_eq!(odd[0].bytes, vec![1, 2, 3, 4, 5, 6, 0, 0]);
}

#[test]
fn long_mixes_are_split_without_loss() {
    let bytes = pcm_with_value(600_000, 7);
    assert_eq!(bytes.len(), 2_400_000);
    let out = render_mix_from_caches(&vec![source(ts(0), bytes.clone())]);
    assert_eq!(out.len(), 2);
    assert_eq!(out[0].bytes.len(), MIX_CHUNK_SIZE_BYTES);
    assert_eq!(out[1].seq, 1);
    assert_eq!(out[1].capture_started_at, ts(10_922));
    let all: Vec<u8> = out.iter().flat_map(|c| c.bytes.clone()).collect();
    assert_eq!(all, bytes);
}

#[test]
fn mixing_two_speakers_does_not_depend_on_their_order() {
    let a = || source(ts(0), pcm_with_value(480, 20_000));
    let b = || source(ts(5), pcm_with_value(480, 20_000));
    let x = render_mix_from_caches(&vec![a(), b()]);
    let y = render_mix_from_caches(&vec![b(), a()]);
    assert_eq!(x[0].bytes, y[0].bytes);
    let samples = bytes_to_samples(&x[0].bytes);
    assert_eq!(samples[0], 20_000);
    assert_eq!(samples[480], 32_767);
    assert_eq!(samples.len(), 960 + 480);
}

#[test]
fn renderable_sources_are_recognised() {
    assert!(can_render(&Vec::new()));
    assert!(can_render(&vec![source(ts(0), vec![0; 8])]));
    let off = Timestamp { secs: i64::MAX, nanos: 0 };
    assert!(!can_render(&vec![source(off, vec![0; 8])]));
}

#[test]
fn conversions_between_bytes_and_milliseconds() {
    assert_eq!(ms_to_bytes(1), 192);
    assert_eq!(ms_to_bytes(1000), 192_000);
    assert_eq!(bytes_to_ms(191), 0);
    assert_eq!(bytes_to_ms(192), 1);
    assert_eq!(bytes_to_ms(2_097_152), 10_922);
    assert_eq!(ms_to_bytes(usize::MAX), usize::MAX / 1000);
}

#[test]
fn mix_chunks_are_cached_like_a_participants() {
    let root = BufferRoot::new("/buf".to_string(), 7200);
    let out = render_mix_from_caches(&vec![source(ts(0), pcm_with_value(600_000, 7))]);
    let paths = mix_cache_paths(&root, "s", &out);
    assert_eq!(
        paths,
        vec![
            "/buf/s/mixed/chunk_000000_1700000000000.pcm".to_string(),
            "/buf/s/mixed/chunk_000001_1700000010922.pcm".to_string(),
        ]
    );
}

#[test]
fn live_mix_starts_at_the_window_of_its_first_frame() {
    let mut acc = LiveMixAccum::with_limits(96_000, 8);
    assert!(acc.submit(ts(13), &vec![1i16, 2]).is_none());
    assert!(acc.submit(ts(41), &vec![3i16, 4]).is_none());
    let out = acc.drain_ready(ts(145)).unwrap();
    assert_eq!(out.capture_started_at, ts(0));
    assert_eq!(bytes_to_samples(&out.bytes), vec![1, 2, 3, 4]);
    assert!(acc.finish().is_none());
    assert!(!acc.is_exhausted());
}

#[test]
fn live_mix_hands_out_what_is_left_at_the_end() {
    let mut acc = LiveMixAccum::new();
    acc.submit(ts(0), &vec![1i16, 2]);
    assert!(acc.drain_ready(ts(100)).is_none());
    acc.submit(ts(101), &vec![3i16, 4]);
    let out = acc.finish().unwrap();
    assert_eq!(out.seq, 0);
    assert_eq!(out.capture_started_at, ts(0));
    assert_eq!(bytes_to_samples(&out.bytes), vec![1, 2, 3, 4]);
    assert!(acc.finish().is_none());
}

#[test]
fn live_mix_hands_out_windows_that_were_never_closed() {
    let mut acc = LiveMixAccum::new();
    assert!(acc.submit(ts(0), &vec![10i16, 10]).is_none());
    let out = acc.finish().unwrap();
    assert_eq!(out.seq, 0);
    assert_eq!(out.capture_started_at, ts(0));
    assert_eq!(out.bytes, vec![10, 0, 10, 0]);
    assert!(acc.finish().is_none());

    acc.submit(ts(40), &vec![4i16]);
    acc.submit(ts(20), &vec![2i16]);
    acc.submit(ts(45), &vec![1i16, 1]);
    let out = acc.finish().unwrap();
    assert_eq!(out.seq, 1);
    assert_eq!(out.capture_started_at, ts(20));
    assert_eq!(bytes_to_samples(&out.bytes), vec![2, 5, 1]);
}

#[test]
fn live_mix_goes_on_behind_the_rendered_mix() {
    let rendered = render_mix_from_caches(&vec![source(ts(0), pcm_with_value(600_000, 1))]);
    assert_eq!(rendered.iter().map(|c| c.seq).collect::<Vec<_>>(), vec![0, 1]);
    let mut acc = LiveMixAccum::continuing(rendered.len() as u32);
    acc.submit(ts(20_000), &vec![1i16]);
    assert_eq!(acc.finish().unwrap().seq, 2);
    acc.submit(ts(21_000), &vec![1i16]);
    assert_eq!(acc.finish().unwrap().seq, 3);
}

#[test]
fn live_mix_windows_are_capped() {
    let mut acc = LiveMixAccum::with_limits(2, 1);
    acc.submit(ts(0), &vec![1i16, 2, 3]);
    let out = acc.drain_ready(ts(500)).unwrap();
    assert_eq!(bytes_to_samples(&out.bytes), vec![1, 2]);
}

#[test]
fn samples_survive_their_bytes() {
    let samples = vec![0i16, 1, -1, 256, -256, i16::MAX, i16::MIN];
    let bytes = samples_to_bytes(&samples);
    assert_eq!(bytes[0..6], [0, 0, 1, 0, 255, 255]);
    assert_eq!(bytes_to_samples(&bytes), samples);
    assert_eq!(bytes_to_samples(&vec![1, 0, 9]), vec![1]);
    assert_eq!(mix_pair(30_000, 30_000), 32_767);
    assert_eq!(mix_pair(-30_000, -30_000), -32_768);
    assert_eq!(mix_pair(5, -7), -2);
}
