use chronicle_bot::session::actor::SessionCmd;
use chronicle_bot::voice::events::{handle_voice_state_update, GuildSight, VoiceUpdate};
use chronicle_bot::voice::receiver::{AudioObservables, AudioReceiver, Op5Event};

#[test]
fn frames_of_known_speakers_are_forwarded() {
    let mut obs = AudioObservables::new();
    assert_eq!(
        obs.map_speaker(100, Some(10)),
        Some((Op5Event { ssrc: 100, user_id: 10 }, true))
    );
    assert_eq!(
        obs.map_speaker(100, Some(11)),
        Some((Op5Event { ssrc: 100, user_id: 11 }, false))
    );
    assert_eq!(obs.map_speaker(101, None), None);
    let mut r = AudioReceiver::new(obs);
    let out = r.act(vec![
        (100, Some(vec![1, 2])),
        (101, Some(vec![3])),
        (102, None),
    ]);
    assert_eq!(out.packets.len(), 1);
    assert_eq!(out.packets[0].user_id, 11);
    assert_eq!(out.packets[0].ssrc, 100);
    assert_eq!(out.packets[0].samples, vec![1, 2]);
    assert!(out.rollup.is_none());
    assert!(r.obs.ssrcs_seen.contains(&100));
    assert!(r.obs.ssrcs_seen.contains(&101));
    assert!(!r.obs.ssrcs_seen.contains(&102));
    assert_eq!(r.counters.decoded_packets, 2);
    assert_eq!(r.counters.silent_packets, 1);
    assert_eq!(r.counters.unmapped_ssrc, 1);
    assert_eq!(r.counters.packets_forwarded, 1);
    r.act(Vec::new());
    assert_eq!(r.counters.ticks_total, 2);
    assert_eq!(r.counters.ticks_with_speaking, 1);
    assert_eq!(r.counters.ticks_empty_speaking, 1);
}

#[test]
fn reset_forgets_every_stream() {
    let mut obs = AudioObservables::new();
    obs.map_speaker(1, Some(2));
    obs.ssrcs_seen.insert(1);
    obs.reset();
    assert!(obs.ssrc_map.is_empty());
    assert!(obs.ssrcs_seen.is_empty());
}

#[test]
fn every_250th_tick_is_logged() {
    let mut r = AudioReceiver::new(AudioObservables::new());
    let mut logged = 0;
    for _ in 0..501 {
        if r.act(Vec::new()).rollup.is_some() {
            logged += 1;
        }
    }
    assert_eq!(logged, 2);
    let line = r.maybe_log_rollup(250).unwrap();
    assert_eq!(line.counters.0, 501);
    assert!(r.maybe_log_rollup(0).is_none());
    assert!(r.maybe_log_rollup(249).is_none());
}

fn update(guild_id: Option<u64>) -> VoiceUpdate {
    VoiceUpdate { guild_id, user_id: 5, old_channel: Some(1), new_channel: None }
}

#[test]
fn voice_changes_reach_a_running_session() {
    let sight = GuildSight { current_user: 5, display_name: Some("me".to_string()) };
    match handle_voice_state_update(&update(Some(9)), Some(false), Some(&sight)) {
        Some(SessionCmd::VoiceStateChange { old_channel, new_channel, user_id, is_bot, display_name }) => {
            assert_eq!(old_channel, Some(1));
            assert_eq!(new_channel, None);
            assert_eq!(user_id, 5);
            assert!(is_bot);
            assert_eq!(display_name, "me");
        }
        _ => panic!("no command"),
    }
    let other = GuildSight { current_user: 6, display_name: None };
    match handle_voice_state_update(&update(Some(9)), Some(false), Some(&other)) {
        Some(SessionCmd::VoiceStateChange { is_bot, display_name, .. }) => {
            assert!(!is_bot);
            assert_eq!(display_name, "User 5");
        }
        _ => panic!("no command"),
    }
    assert!(handle_voice_state_update(&update(None), Some(false), Some(&sight)).is_none());
    assert!(handle_voice_state_update(&update(Some(9)), None, Some(&sight)).is_none());
    assert!(handle_voice_state_update(&update(Some(9)), Some(true), Some(&sight)).is_none());
    assert!(handle_voice_state_update(&update(Some(9)), Some(false), None).is_none());
}
