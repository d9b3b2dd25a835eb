use chronicle_bot::session::capture::{
    mix_finish, mix_packet, mix_tick, CaptureTask, Emission, PMode, ParticipantCmd, CHUNK_SIZE_BYTES,
};
use chronicle_bot::time::Timestamp;
use chronicle_bot::voice::buffer::{BufferRoot, ParticipantCache};
use chronicle_bot::voice::mixer::LiveMixAccum;
use chronicle_bot::voice::pcm::samples_to_bytes;

fn at(ms: i64) -> Timestamp {
    let ms = 1_700_000_000_000 + ms;
    Timestamp { secs: ms / 1000, nanos: (ms % 1000) as u32 * 1_000_000 }
}

fn cache() -> ParticipantCache {
    let root = BufferRoot::new("/buf".to_string(), 7200);
    ParticipantCache::open(&root, "s", "p", &Vec::new(), at(0))
}

fn half() -> Vec<i16> {
    vec![7; CHUNK_SIZE_BYTES / 4]
}

#[test]
fn frames_are_cached_before_the_gate() {
    let mut t = CaptureTask::new("p".to_string(), Some(cache()), 0);
    let step = t.on_packet(&half(), at(10));
    assert!(step.emission.is_none() && step.mix_copy.is_none());
    let step = t.on_packet(&half(), at(20));
    match step.emission {
        Some(Emission::Cache { path, seq, bytes, capture_started_at }) => {
            assert_eq!(seq, 0);
            assert_eq!(path, "/buf/s/p/chunk_000000_1700000000010.pcm");
            assert_eq!(bytes.len(), CHUNK_SIZE_BYTES);
            assert_eq!(capture_started_at, at(10));
        }
        _ => panic!("a chunk is complete"),
    }
    t.chunk_cached(true);
    assert_eq!(t.seq, 1);
    t.on_packet(&vec![1], at(30));
    match t.finish() {
        Some(Emission::Cache { path, bytes, .. }) => {
            assert_eq!(path, "/buf/s/p/chunk_000001_1700000000030.pcm");
            assert_eq!(bytes, vec![1, 0]);
        }
        _ => panic!("a last chunk is due"),
    }
    assert!(t.finish().is_none());
}

fn opened(accepted: bool) -> ParticipantCmd {
    ParticipantCmd::GateOpened { accepted, session_uuid: 7, mix: accepted }
}

#[test]
fn accepted_frames_are_uploaded_and_mixed() {
    let mut t = CaptureTask::new("p".to_string(), Some(cache()), 0);
    t.on_packet(&vec![1], at(0));
    let step = t.on_cmd(opened(true), Some(cache()));
    assert!(step.removal.is_none() && !step.exit);
    match step.emission {
        Some(Emission::Upload { upload, bytes }) => {
            assert_eq!(bytes, vec![1, 0]);
            assert_eq!(upload.client_chunk_id, "00000000-0000-0000-0000-000000000007:p:0");
            assert_eq!(upload.capture_started_at, at(0));
        }
        _ => panic!("what waited is uploaded"),
    }
    assert_eq!(t.mode, PMode::Direct);
    let step = t.on_packet(&vec![3, 4], at(5));
    assert_eq!(step.mix_copy, Some(samples_to_bytes(&vec![3, 4])));
    match t.finish() {
        Some(Emission::Upload { upload, bytes }) => {
            assert_eq!(bytes, vec![3, 0, 4, 0]);
            assert_eq!(upload.session, 7);
            assert_eq!(upload.pseudo_id, "p");
            assert_eq!(upload.client_chunk_id, "00000000-0000-0000-0000-000000000007:p:1");
            assert_eq!(upload.capture_started_at, at(5));
            assert_eq!(upload.duration_ms, 0);
        }
        _ => panic!("an upload is due"),
    }
}

#[test]
fn what_waits_is_cached_before_the_gate_opens() {
    let mut t = CaptureTask::new("p".to_string(), Some(cache()), 0);
    t.on_packet(&vec![1], at(0));
    match t.on_cmd(ParticipantCmd::CacheWaiting, None).emission {
        Some(Emission::Cache { path, seq, bytes, capture_started_at }) => {
            assert_eq!(path, "/buf/s/p/chunk_000000_1700000000000.pcm");
            assert_eq!(seq, 0);
            assert_eq!(bytes, vec![1, 0]);
            assert_eq!(capture_started_at, at(0));
        }
        _ => panic!("what waited is cached"),
    }
    t.chunk_cached(true);
    assert_eq!(t.mode, PMode::Cache);
    assert!(t.on_cmd(ParticipantCmd::CacheWaiting, None).emission.is_none());

    assert!(t.on_packet(&half(), at(10)).emission.is_none());
    match t.on_packet(&half(), at(20)).emission {
        Some(Emission::Cache { path, seq, bytes, .. }) => {
            assert_eq!(path, "/buf/s/p/chunk_000001_1700000000010.pcm");
            assert_eq!(seq, 1);
            assert_eq!(bytes.len(), CHUNK_SIZE_BYTES);
        }
        _ => panic!("a chunk is complete"),
    }
    t.chunk_cached(true);
    assert!(t.on_packet(&vec![5], at(30)).emission.is_none());
    match t.on_cmd(opened(true), Some(cache())).emission {
        Some(Emission::Upload { upload, bytes }) => {
            assert_eq!(bytes, vec![5, 0]);
            assert_eq!(upload.client_chunk_id, "00000000-0000-0000-0000-000000000007:p:2");
            assert_eq!(upload.capture_started_at, at(30));
        }
        _ => panic!("what waited is uploaded"),
    }
}

#[test]
fn chunk_numbers_go_on_across_the_gate() {
    let mut t = CaptureTask::new("p".to_string(), Some(cache()), 0);
    t.on_packet(&half(), at(0));
    assert!(t.on_packet(&half(), at(10)).emission.is_some());
    t.chunk_cached(false);
    t.on_packet(&half(), at(20));
    match t.on_packet(&half(), at(30)).emission {
        Some(Emission::Cache { path, seq, .. }) => {
            assert_eq!(seq, 0);
            assert_eq!(path, "/buf/s/p/chunk_000000_1700000000020.pcm");
        }
        _ => panic!("a chunk is complete"),
    }
    t.chunk_cached(true);
    assert!(t.on_cmd(opened(false), Some(cache())).emission.is_none());
    t.on_packet(&vec![9], at(40));
    match t.on_cmd(opened(false), Some(cache())).emission {
        Some(Emission::Cache { path, seq, .. }) => {
            assert_eq!(seq, 1);
            assert_eq!(path, "/buf/s/p/chunk_000001_1700000000040.pcm");
        }
        _ => panic!("what waited is cached"),
    }
    t.chunk_cached(true);
    t.on_cmd(ParticipantCmd::LateAccept, Some(cache()));
    t.on_cmd(opened(true), Some(cache()));
    t.on_packet(&vec![9], at(50));
    match t.finish() {
        Some(Emission::Upload { upload, .. }) => {
            assert_eq!(upload.client_chunk_id, "00000000-0000-0000-0000-000000000007:p:2");
        }
        _ => panic!("an upload is due"),
    }
    t.chunk_cached(false);
    assert_eq!(t.seq, 3);
    let next = CaptureTask::new("p".to_string(), Some(cache()), t.seq);
    assert_eq!(next.seq, 3);
    assert!(!next.is_exhausted());
}

#[test]
fn late_acceptance_keeps_what_waits() {
    let mut t = CaptureTask::new("p".to_string(), Some(cache()), 0);
    t.on_cmd(opened(false), Some(cache()));
    t.on_packet(&vec![1], at(0));
    assert!(t.on_cmd(ParticipantCmd::LateAccept, Some(cache())).emission.is_none());
    match t.on_cmd(opened(true), Some(cache())).emission {
        Some(Emission::Upload { bytes, .. }) => assert_eq!(bytes, vec![1, 0]),
        _ => panic!("what waited is uploaded"),
    }
}

#[test]
fn pending_speakers_keep_caching_until_they_accept() {
    let mut t = CaptureTask::new("p".to_string(), Some(cache()), 0);
    assert!(t.backlog().is_none());
    t.on_cmd(
        ParticipantCmd::GateOpened { accepted: false, session_uuid: 7, mix: false },
        Some(cache()),
    );
    assert_eq!(t.mode, PMode::PendingPostGate);
    assert!(t.on_packet(&vec![1], at(0)).mix_copy.is_none());
    assert_eq!(t.backlog(), Some((7, "/buf/s/p".to_string())));
    t.on_cmd(ParticipantCmd::LateAccept, None);
    assert_eq!(t.mode, PMode::Direct);
    assert_eq!(t.accum, vec![1, 0]);
    assert!(t.backlog().is_none());
    assert!(t.on_cmd(ParticipantCmd::Shutdown, None).exit);
}

#[test]
fn declined_frames_vanish() {
    for cmd in [ParticipantCmd::DropCache, ParticipantCmd::LateDecline] {
        let mut t = CaptureTask::new("p".to_string(), Some(cache()), 0);
        t.on_packet(&vec![1], at(0));
        let step = t.on_cmd(cmd, None);
        assert_eq!(step.removal.unwrap().dir, "/buf/s/p");
        assert_eq!(t.mode, PMode::Dropping);
        assert!(t.cache.is_none());
        let step = t.on_packet(&half(), at(1));
        assert!(step.emission.is_none() && step.mix_copy.is_none());
        assert!(t.finish().is_none());
    }
}

#[test]
fn chunks_without_a_place_are_lost() {
    let mut t = CaptureTask::new("p".to_string(), None, 0);
    t.on_packet(&vec![9], at(0));
    assert!(matches!(t.finish(), Some(Emission::Lost { bytes }) if bytes == vec![9, 0]));
    t.chunk_cached(true);
    assert!(t.cache.is_none());
    assert_eq!(t.seq, 0);
    t.on_packet(&vec![8], at(1));
    let step = t.on_cmd(opened(false), None);
    assert!(matches!(step.emission, Some(Emission::Lost { bytes }) if bytes == vec![8, 0]));
}

#[test]
fn mix_frames_become_uploads() {
    let mut m = LiveMixAccum::with_limits(96_000, 4);
    assert!(mix_packet(&mut m, 7, at(0), &vec![1, 0, 2, 0]).is_none());
    assert!(mix_tick(&mut m, 7, at(50)).is_none());
    let u = mix_tick(&mut m, 7, at(100)).unwrap();
    assert_eq!(u.bytes, vec![1, 0, 2, 0]);
    assert_eq!(u.upload.pseudo_id, "mixed");
    assert_eq!(u.upload.capture_started_at, at(0));
    assert_eq!(u.upload.client_chunk_id, "00000000-0000-0000-0000-000000000007:mixed:0");
    mix_packet(&mut m, 7, at(200), &vec![1, 0, 2, 0]);
    let u = mix_packet(&mut m, 7, at(400), &vec![1, 0]).unwrap();
    assert_eq!(u.upload.client_chunk_id, "00000000-0000-0000-0000-000000000007:mixed:1");
    let u = mix_finish(&mut m, 7).unwrap();
    assert_eq!(u.bytes, vec![1, 0]);
    assert_eq!(u.upload.client_chunk_id, "00000000-0000-0000-0000-000000000007:mixed:2");
    assert_eq!(u.upload.capture_started_at, at(400));
    assert!(mix_finish(&mut m, 7).is_none());
}

#[test]
fn decline_before_gate_deletes_participant_cache() {
    let root = BufferRoot::new("/buf".to_string(), 7200);
    let cache = ParticipantCache::open(&root, "sess-1", "pseudo-xyz", &Vec::new(), at(0));
    let mut t = CaptureTask::new("pseudo-xyz".to_string(), Some(cache), 0);
    let hello: Vec<i16> = "hello".bytes().map(i16::from).collect();
    t.on_packet(&hello, at(0));
    let removal = t.on_cmd(ParticipantCmd::DropCache, None).removal.unwrap();
    assert_eq!(removal.dir, "/buf/sess-1/pseudo-xyz");
    assert!(t.accum.is_empty());
    assert!(t.finish().is_none());
}
