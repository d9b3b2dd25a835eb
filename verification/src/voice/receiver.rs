//! What each voice tick does to the speakers that are known, and which frames
//! it forwards.

use std::collections::{HashMap, HashSet};
use vstd::prelude::*;

verus! {

broadcast use vstd::std_specs::hash::group_hash_axioms;

/// The PCM frame of one speaker on one tick.
pub struct AudioPacket {
    pub ssrc: u32,
    pub user_id: u64,
    pub samples: Vec<i16>,
}

/// A speaking-state event: which user an audio stream belongs to.
#[derive(Debug, Clone, Copy, PartialEq, Eq, Structural)]
pub struct Op5Event {
    pub ssrc: u32,
    pub user_id: u64,
}

/// What the stabilization gate looks at.
pub struct AudioObservables {
    /// The user of each audio stream.
    pub ssrc_map: HashMap<u32, u64>,
    /// The streams that have produced decoded audio.
    pub ssrcs_seen: HashSet<u32>,
}

impl AudioObservables {
    /// Nothing is known yet.
    pub fn new() -> (o: AudioObservables)
        ensures
            o.ssrc_map@ == Map::<u32, u64>::empty(),
            o.ssrcs_seen@ == Set::<u32>::empty(),
    {
        AudioObservables { ssrc_map: HashMap::new(), ssrcs_seen: HashSet::new() }
    }

    /// Forget everything, so that streams of a lost connection do not pass for
    /// healthy ones of the next.
    pub fn reset(&mut self)
        ensures
            final(self).ssrc_map@ == Map::<u32, u64>::empty(),
            final(self).ssrcs_seen@ == Set::<u32>::empty(),
    {
        self.ssrc_map.clear();
        self.ssrcs_seen.clear();
    }

    /// A stream was announced as a user's. Announcements without a user change
    /// nothing and are not passed on. The flag tells a new stream from one that
    /// had a user before.
    pub fn map_speaker(&mut self, ssrc: u32, user: Option<u64>) -> (r: Option<(Op5Event, bool)>)
        ensures
            final(self).ssrcs_seen@ == old(self).ssrcs_seen@,
            match user {
                Some(uid) => {
                    &&& final(self).ssrc_map@ == old(self).ssrc_map@.insert(ssrc, uid)
                    &&& r == Some(
                        (Op5Event { ssrc, user_id: uid }, !old(self).ssrc_map@.contains_key(ssrc)),
                    )
                },
                None => r is None && final(self).ssrc_map@ == old(self).ssrc_map@,
            },
    {
        match user {
            Some(uid) => {
                let is_new = self.ssrc_map.insert(ssrc, uid).is_none();
                Some((Op5Event { ssrc, user_id: uid }, is_new))
            },
            None => None,
        }
    }
}

/// Diagnostic counters. They wrap around.
#[derive(Debug, Clone, Copy, PartialEq, Eq, Structural)]
pub struct TickCounters {
    pub ticks_total: u64,
    pub ticks_with_speaking: u64,
    pub ticks_empty_speaking: u64,
    pub decoded_packets: u64,
    pub silent_packets: u64,
    pub unmapped_ssrc: u64,
    pub packets_forwarded: u64,
}

/// `a + b` in 64 bits.
pub open spec fn wrapped_sum(a: u64, b: int) -> int {
    (a + b) % 0x1_0000_0000_0000_0000
}

impl TickCounters {
    /// All counters at zero.
    pub fn zero() -> (c: TickCounters)
        ensures
            c == (TickCounters {
                ticks_total: 0,
                ticks_with_speaking: 0,
                ticks_empty_speaking: 0,
                decoded_packets: 0,
                silent_packets: 0,
                unmapped_ssrc: 0,
                packets_forwarded: 0,
            }),
    {
        TickCounters {
            ticks_total: 0,
            ticks_with_speaking: 0,
            ticks_empty_speaking: 0,
            decoded_packets: 0,
            silent_packets: 0,
            unmapped_ssrc: 0,
            packets_forwarded: 0,
        }
    }

    /// Count a tick. Returns the number of ticks before it.
    pub fn bump_tick(&mut self, speaking_empty: bool) -> (tick: u64)
        ensures
            tick == old(self).ticks_total,
            *final(self) == (TickCounters {
                ticks_total: wrapped_sum(old(self).ticks_total, 1) as u64,
                ticks_with_speaking: wrapped_sum(
                    old(self).ticks_with_speaking,
                    if speaking_empty { 0 } else { 1 },
                ) as u64,
                ticks_empty_speaking: wrapped_sum(
                    old(self).ticks_empty_speaking,
                    if speaking_empty { 1 } else { 0 },
                ) as u64,
                ..*old(self)
            }),
    {
        let tick: u64 = self.ticks_total;
        self.ticks_total = tick.wrapping_add(1);
        if speaking_empty {
            self.ticks_empty_speaking = self.ticks_empty_speaking.wrapping_add(1);
        } else {
            self.ticks_with_speaking = self.ticks_with_speaking.wrapping_add(1);
        }
        tick
    }

    /// Ticks, ticks with speakers, decoded, silent, unmapped and forwarded
    /// frames.
    pub fn snapshot(&self) -> (s: (u64, u64, u64, u64, u64, u64))
        ensures
            s == (
                self.ticks_total,
                self.ticks_with_speaking,
                self.decoded_packets,
                self.silent_packets,
                self.unmapped_ssrc,
                self.packets_forwarded,
            ),
    {
        (
            self.ticks_total,
            self.ticks_with_speaking,
            self.decoded_packets,
            self.silent_packets,
            self.unmapped_ssrc,
            self.packets_forwarded,
        )
    }
}

/// One speaker of a tick: the stream, and its decoded samples if there are any.
pub type Speaker = (u32, Option<Vec<i16>>);

/// What a periodic log line shows.
#[derive(Debug, Clone, Copy)]
pub struct Rollup {
    pub counters: (u64, u64, u64, u64, u64, u64),
    pub ssrc_map_len: usize,
    pub ssrcs_seen: usize,
}

/// What a tick leads to.
pub struct TickOutcome {
    /// The frames to forward, in the order of the speakers.
    pub packets: Vec<AudioPacket>,
    /// The log line that is due, if one is.
    pub rollup: Option<Rollup>,
}

/// A frame, as a value.
pub open spec fn packet_value(p: AudioPacket) -> (u32, u64, Seq<i16>) {
    (p.ssrc, p.user_id, p.samples@)
}

/// The frames that are forwarded: those with decoded audio from a stream whose
/// user is known.
pub open spec fn forwarded(speaking: Seq<Speaker>, map: Map<u32, u64>) -> Seq<(u32, u64, Seq<i16>)>
    decreases speaking.len(),
{
    if speaking.len() == 0 {
        seq![]
    } else {
        let before = forwarded(speaking.drop_last(), map);
        match speaking.last() {
            (ssrc, Some(samples)) => if map.contains_key(ssrc) {
                before.push((ssrc, map[ssrc], samples@))
            } else {
                before
            },
            _ => before,
        }
    }
}

/// The streams with decoded audio.
pub open spec fn heard(speaking: Seq<Speaker>) -> Set<u32> {
    Set::new(|ssrc: u32| exists|i: int|
        0 <= i < speaking.len() && (#[trigger] speaking[i]).0 == ssrc && speaking[i].1 is Some)
}

/// How many speakers have decoded audio.
pub open spec fn decoded_count(speaking: Seq<Speaker>) -> int
    decreases speaking.len(),
{
    if speaking.len() == 0 {
        0
    } else {
        decoded_count(speaking.drop_last()) + if speaking.last().1 is Some {
            1int
        } else {
            0int
        }
    }
}

proof fn lemma_counts(speaking: Seq<Speaker>, map: Map<u32, u64>)
    ensures
        forwarded(speaking, map).len() <= decoded_count(speaking) <= speaking.len(),
    decreases speaking.len(),
{
    if speaking.len() > 0 {
        lemma_counts(speaking.drop_last(), map);
    }
}

proof fn lemma_heard_step(speaking: Seq<Speaker>, n: int)
    requires
        0 <= n < speaking.len(),
    ensures
        heard(speaking.take(n + 1)) == (if speaking[n].1 is Some {
            heard(speaking.take(n)).insert(speaking[n].0)
        } else {
            heard(speaking.take(n))
        }),
{
    let a = speaking.take(n);
    let b = speaking.take(n + 1);
    let x = speaking[n];
    assert(b[n] == x);
    assert forall|s: u32| heard(b).contains(s) implies heard(a).contains(s) || (x.1 is Some && s
        == x.0) by {
        let i = choose|i: int| 0 <= i < b.len() && (#[trigger] b[i]).0 == s && b[i].1 is Some;
        if i < n {
            assert(a[i] == b[i]);
        }
    }
    assert forall|s: u32| heard(a).contains(s) implies heard(b).contains(s) by {
        let i = choose|i: int| 0 <= i < a.len() && (#[trigger] a[i]).0 == s && a[i].1 is Some;
        assert(a[i] == b[i]);
    }
    if x.1 is Some {
        assert(heard(b) =~= heard(a).insert(x.0));
    } else {
        assert(heard(b) =~= heard(a));
    }
}

impl AudioObservables {
    /// Take note of the streams with decoded audio. Returns the frames to
    /// forward, and how many speakers had decoded audio.
    fn hear(&mut self, speaking: Vec<Speaker>) -> (r: (Vec<AudioPacket>, usize))
        ensures
            final(self).ssrc_map@ == old(self).ssrc_map@,
            final(self).ssrcs_seen@ == old(self).ssrcs_seen@.union(heard(speaking@)),
            r.0@.map_values(|p: AudioPacket| packet_value(p)) == forwarded(
                speaking@,
                old(self).ssrc_map@,
            ),
            r.1 == decoded_count(speaking@),
    {
        let ghost all = speaking@;
        let ghost map = self.ssrc_map@;
        let ghost seen = self.ssrcs_seen@;
        let total: usize = speaking.len();
        let mut packets: Vec<AudioPacket> = Vec::new();
        let mut decoded: usize = 0;
        let mut rest = speaking;
        proof {
            assert(all.skip(0) =~= all);
            assert(all.take(0) =~= seq![]);
            assert(packets@.map_values(|p: AudioPacket| packet_value(p)) =~= seq![]);
            assert(seen.union(heard(all.take(0))) =~= seen);
        }
        while rest.len() > 0
            invariant
                total == all.len(),
                rest@.len() <= all.len(),
                rest@ == all.skip(all.len() - rest@.len()),
                self.ssrc_map@ == map,
                self.ssrcs_seen@ == seen.union(heard(all.take(all.len() - rest@.len()))),
                packets@.map_values(|p: AudioPacket| packet_value(p)) == forwarded(
                    all.take(all.len() - rest@.len()),
                    map,
                ),
                decoded == decoded_count(all.take(all.len() - rest@.len())),
                decoded <= all.len() - rest@.len(),
            decreases rest@.len(),
        {
            let ghost n = all.len() - rest@.len();
            let ghost before = packets@.map_values(|p: AudioPacket| packet_value(p));
            let (ssrc, frame) = rest.remove(0);
            proof {
                assert((ssrc, frame) == all[n]);
                assert(rest@ =~= all.skip(n + 1));
                assert(all.take(n + 1).drop_last() =~= all.take(n));
                assert(all.take(n + 1).last() == all[n]);
                lemma_heard_step(all, n);
            }
            match frame {
                None => {},
                Some(samples) => {
                    decoded = decoded + 1;
                    self.ssrcs_seen.insert(ssrc);
                    assert(self.ssrcs_seen@ =~= seen.union(heard(all.take(n + 1))));
                    match self.ssrc_map.get(&ssrc) {
                        Some(uid) => {
                            let p = AudioPacket { ssrc, user_id: *uid, samples };
                            packets.push(p);
                            assert(packets@.map_values(|p: AudioPacket| packet_value(p))
                                =~= before.push(packet_value(p)));
                        },
                        None => {},
                    }
                },
            }
        }
        assert(all.take(all.len() as int) =~= all);
        (packets, decoded)
    }
}

/// Streams of voice ticks, and what has been learned from them.
pub struct AudioReceiver {
    pub obs: AudioObservables,
    pub counters: TickCounters,
}

impl AudioReceiver {
    /// A receiver that starts from what is already known of the speakers.
    pub fn new(obs: AudioObservables) -> (r: AudioReceiver)
        ensures
            r.obs == obs,
            r.counters == (TickCounters {
                ticks_total: 0,
                ticks_with_speaking: 0,
                ticks_empty_speaking: 0,
                decoded_packets: 0,
                silent_packets: 0,
                unmapped_ssrc: 0,
                packets_forwarded: 0,
            }),
    {
        AudioReceiver { obs, counters: TickCounters::zero() }
    }

    /// A log line every 250 ticks, about five seconds.
    pub fn maybe_log_rollup(&self, tick: u64) -> (r: Option<Rollup>)
        ensures
            r is Some <==> tick != 0 && tick % 250 == 0,
            r is Some ==> r->0 == (Rollup {
                counters: (
                    self.counters.ticks_total,
                    self.counters.ticks_with_speaking,
                    self.counters.decoded_packets,
                    self.counters.silent_packets,
                    self.counters.unmapped_ssrc,
                    self.counters.packets_forwarded,
                ),
                ssrc_map_len: self.obs.ssrc_map@.len() as usize,
                ssrcs_seen: self.obs.ssrcs_seen@.len() as usize,
            }),
    {
        if tick == 0 || tick % 250 != 0 {
            return None;
        }
        Some(
            Rollup {
                counters: self.counters.snapshot(),
                ssrc_map_len: self.obs.ssrc_map.len(),
                ssrcs_seen: self.obs.ssrcs_seen.len(),
            },
        )
    }

    /// Take in one tick. Every stream with decoded audio counts as seen; frames
    /// of streams whose user is known are forwarded.
    pub fn act(&mut self, speaking: Vec<Speaker>) -> (out: TickOutcome)
        ensures
            final(self).obs.ssrc_map@ == old(self).obs.ssrc_map@,
            final(self).obs.ssrcs_seen@ == old(self).obs.ssrcs_seen@.union(heard(speaking@)),
            out.packets@.map_values(|p: AudioPacket| packet_value(p)) == forwarded(
                speaking@,
                old(self).obs.ssrc_map@,
            ),
            out.rollup is Some <==> old(self).counters.ticks_total != 0
                && old(self).counters.ticks_total % 250 == 0,
            out.rollup is Some ==> out.rollup->0 == (Rollup {
                counters: (
                    wrapped_sum(old(self).counters.ticks_total, 1) as u64,
                    wrapped_sum(
                        old(self).counters.ticks_with_speaking,
                        if speaking@.len() == 0 { 0 } else { 1 },
                    ) as u64,
                    old(self).counters.decoded_packets,
                    old(self).counters.silent_packets,
                    old(self).counters.unmapped_ssrc,
                    old(self).counters.packets_forwarded,
                ),
                ssrc_map_len: old(self).obs.ssrc_map@.len() as usize,
                ssrcs_seen: old(self).obs.ssrcs_seen@.len() as usize,
            }),
            ({
                let was = old(self).counters;
                let now = final(self).counters;
                let empty = speaking@.len() == 0;
                let decoded = decoded_count(speaking@);
                let sent = forwarded(speaking@, old(self).obs.ssrc_map@).len();
                &&& now.ticks_total == wrapped_sum(was.ticks_total, 1)
                &&& now.ticks_with_speaking == wrapped_sum(
                    was.ticks_with_speaking,
                    if empty { 0 } else { 1 },
                )
                &&& now.ticks_empty_speaking == wrapped_sum(
                    was.ticks_empty_speaking,
                    if empty { 1 } else { 0 },
                )
                &&& now.decoded_packets == wrapped_sum(was.decoded_packets, decoded)
                &&& now.silent_packets == wrapped_sum(
                    was.silent_packets,
                    speaking@.len() - decoded,
                )
                &&& now.packets_forwarded == wrapped_sum(was.packets_forwarded, sent as int)
                &&& now.unmapped_ssrc == wrapped_sum(was.unmapped_ssrc, decoded - sent)
            }),
    {
        let ghost map = self.obs.ssrc_map@;
        let total: usize = speaking.len();
        let tick: u64 = self.counters.bump_tick(total == 0);
        let rollup = self.maybe_log_rollup(tick);
        let ghost all = speaking@;
        let (packets, decoded) = self.obs.hear(speaking);
        let sent: usize = packets.len();
        assert(sent == packets@.map_values(|p: AudioPacket| packet_value(p)).len());
        proof {
            lemma_counts(all, map);
        }
        let c = self.counters;
        self.counters = TickCounters {
            decoded_packets: c.decoded_packets.wrapping_add(decoded as u64),
            silent_packets: c.silent_packets.wrapping_add((total - decoded) as u64),
            packets_forwarded: c.packets_forwarded.wrapping_add(sent as u64),
            unmapped_ssrc: c.unmapped_ssrc.wrapping_add((decoded - sent) as u64),
            ..c
        };
        TickOutcome { packets, rollup }
    }
}

/// Speaker `i` has decoded audio on a stream whose user is known.
pub open spec fn is_known_frame(speaking: Seq<Speaker>, map: Map<u32, u64>, i: int) -> bool {
    0 <= i < speaking.len() && speaking[i].1 is Some && map.contains_key(speaking[i].0)
}

/// Every frame that is decoded and whose user is known is forwarded, once, in the
/// order of the speakers, and nothing else is: there is one packet for each such
/// speaker, with that stream, that user and those samples.
pub proof fn law_known_frames_are_forwarded(
    speaking: Seq<Speaker>,
    map: Map<u32, u64>,
    packets: Seq<AudioPacket>,
) -> (from: Seq<int>)
    requires
        packets.map_values(|p: AudioPacket| packet_value(p)) == forwarded(speaking, map),
    ensures
        packets.len() == from.len(),
        forall|a: int, b: int| 0 <= a < b < from.len() ==> from[a] < from[b],
        forall|i: int| #[trigger] is_known_frame(speaking, map, i) <==> from.contains(i),
        forall|n: int|
            0 <= n < from.len() ==> {
                let i = from[n];
                let p = #[trigger] packets[n];
                &&& is_known_frame(speaking, map, i)
                &&& p.ssrc == speaking[i].0
                &&& p.user_id == map[speaking[i].0]
                &&& p.samples@ == speaking[i].1->0@
            },
{
    let values = packets.map_values(|p: AudioPacket| packet_value(p));
    let from = lemma_forwarded_from(speaking, map);
    assert forall|n: int| 0 <= n < from.len() implies {
        let i = from[n];
        let p = #[trigger] packets[n];
        &&& is_known_frame(speaking, map, i)
        &&& p.ssrc == speaking[i].0
        &&& p.user_id == map[speaking[i].0]
        &&& p.samples@ == speaking[i].1->0@
    } by {
        assert(values[n] == packet_value(packets[n]));
        assert(from.contains(from[n]));
        assert(is_known_frame(speaking, map, from[n]));
    }
    from
}

proof fn lemma_forwarded_from(speaking: Seq<Speaker>, map: Map<u32, u64>) -> (from: Seq<int>)
    ensures
        forwarded(speaking, map).len() == from.len(),
        forall|a: int, b: int| 0 <= a < b < from.len() ==> from[a] < from[b],
        forall|i: int| #[trigger] is_known_frame(speaking, map, i) <==> from.contains(i),
        forall|n: int|
            0 <= n < from.len() ==> {
                let i = from[n];
                #[trigger] forwarded(speaking, map)[n] == (
                    speaking[i].0,
                    map[speaking[i].0],
                    speaking[i].1->0@,
                )
            },
    decreases speaking.len(),
{
    if speaking.len() == 0 {
        Seq::empty()
    } else {
        let front = speaking.drop_last();
        let n = speaking.len() - 1;
        let before = lemma_forwarded_from(front, map);
        assert(speaking.last() == speaking[n]);
        assert forall|a: int| 0 <= a < before.len() implies 0 <= #[trigger] before[a] < n
            && front[before[a]] == speaking[before[a]] by {
            assert(before.contains(before[a]));
            assert(is_known_frame(front, map, before[a]));
        }
        assert forall|i: int| i != n implies (is_known_frame(speaking, map, i) == is_known_frame(
            front,
            map,
            i,
        )) by {}
        if is_known_frame(speaking, map, n) {
            let from = before.push(n);
            assert forall|i: int| #[trigger] is_known_frame(speaking, map, i) <==> from.contains(
                i,
            ) by {
                if i == n {
                    assert(from[before.len() as int] == n);
                } else {
                    assert(is_known_frame(front, map, i) == before.contains(i));
                    if before.contains(i) {
                        let a = choose|a: int| 0 <= a < before.len() && before[a] == i;
                        assert(from[a] == i);
                    }
                    if from.contains(i) {
                        let a = choose|a: int| 0 <= a < from.len() && from[a] == i;
                        assert(before[a] == i);
                    }
                }
            }
            from
        } else {
            assert forall|i: int| #[trigger] is_known_frame(speaking, map, i) <==> before.contains(
                i,
            ) by {
                assert(is_known_frame(front, map, i) == before.contains(i));
            }
            before
        }
    }
}

/// A stream counts as heard exactly if some frame of it was decoded, whoever it
/// belongs to.
pub proof fn law_heard_streams(speaking: Seq<Speaker>, ssrc: u32)
    ensures
        heard(speaking).contains(ssrc) <==> exists|i: int|
            0 <= i < speaking.len() && (#[trigger] speaking[i]).0 == ssrc && speaking[i].1 is Some,
{
}

/// As many speakers are decoded as there are with decoded audio.
pub proof fn law_decoded_speakers(speaking: Seq<Speaker>) -> (from: Seq<int>)
    ensures
        decoded_count(speaking) == from.len(),
        forall|a: int, b: int| 0 <= a < b < from.len() ==> from[a] < from[b],
        forall|i: int|
            (0 <= i < speaking.len() && (#[trigger] speaking[i]).1 is Some) <==> from.contains(i),
    decreases speaking.len(),
{
    if speaking.len() == 0 {
        Seq::empty()
    } else {
        let front = speaking.drop_last();
        let n = speaking.len() - 1;
        let before = law_decoded_speakers(front);
        assert(speaking.last() == speaking[n]);
        assert forall|a: int| 0 <= a < before.len() implies 0 <= #[trigger] before[a] < n by {
            assert(before.contains(before[a]));
            assert(front[before[a]].1 is Some);
        }
        let from = if speaking[n].1 is Some {
            before.push(n)
        } else {
            before
        };
        assert forall|i: int|
            (0 <= i < speaking.len() && (#[trigger] speaking[i]).1 is Some) <==> from.contains(i) by {
            if 0 <= i < n {
                assert(front[i] == speaking[i]);
                if before.contains(i) {
                    let a = choose|a: int| 0 <= a < before.len() && before[a] == i;
                    assert(from[a] == i);
                }
            }
            if i == n && speaking[n].1 is Some {
                assert(from[before.len() as int] == n);
            }
            if from.contains(i) {
                let a = choose|a: int| 0 <= a < from.len() && from[a] == i;
                if a < before.len() {
                    assert(before[a] == i);
                    assert(before.contains(i));
                    assert(front[i].1 is Some);
                }
            }
        }
        from
    }
}

/// A counter counts on, and from the largest number to zero.
pub proof fn law_counters(a: u64, b: int)
    requires
        0 <= b,
    ensures
        a + b <= u64::MAX ==> wrapped_sum(a, b) == a + b,
        (a + b - wrapped_sum(a, b)) % 0x1_0000_0000_0000_0000 == 0,
        0 <= wrapped_sum(a, b) <= u64::MAX,
{
}

} // verus!
