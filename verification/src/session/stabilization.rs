//! The stabilization gate.
//!
//! It opens when every expected speaker has been healthy for a number of
//! continuous seconds. There is a hard cap of 180 seconds from the moment the
//! gate is entered: a gate that has not opened by then never does.

use crate::collect::{map_keys, set_items};
use crate::time::elapsed_nanos;
use std::collections::{HashMap, HashSet};
use std::time::Instant;
use vstd::prelude::*;

verus! {

broadcast use vstd::std_specs::hash::group_hash_axioms;

/// The hard cap on the time before the stabilization gate, as a span in nanoseconds.
pub const STABILIZATION_TIMEOUT: u128 = 180_000_000_000;

/// What the stabilization gate looks at.
pub struct GateInputs {
    /// The audio streams that have produced decoded audio since the last reset.
    pub ssrcs_seen: HashSet<u32>,
    /// The user of each audio stream.
    pub ssrc_map: HashMap<u32, u64>,
    /// The users from whom audio is expected.
    pub expected_user_ids: HashSet<u64>,
}

/// The stabilization gate's verdict at a point in time.
#[derive(Debug, Clone, Copy, PartialEq, Eq, Structural)]
pub enum GateVerdict {
    /// Every expected user has a stream with decoded audio; without expected
    /// users, some stream has both a user and decoded audio.
    Healthy,
    /// A mapping, audio, or any speaker at all is missing.
    Unhealthy,
}

impl GateInputs {
    /// User `uid` has a stream with decoded audio.
    pub open spec fn audible(self, uid: u64) -> bool {
        exists|ssrc: u32| #[trigger]
            self.ssrc_map@.contains_key(ssrc) && self.ssrc_map@[ssrc] == uid
                && self.ssrcs_seen@.contains(ssrc)
    }

    /// Some stream has both a user and decoded audio.
    pub open spec fn anyone_audible(self) -> bool {
        exists|ssrc: u32| #[trigger]
            self.ssrc_map@.contains_key(ssrc) && self.ssrcs_seen@.contains(ssrc)
    }

    /// The stabilization gate may open.
    pub open spec fn healthy(self) -> bool {
        if self.expected_user_ids@ == Set::<u64>::empty() {
            self.anyone_audible()
        } else {
            forall|uid: u64| #[trigger]
                self.expected_user_ids@.contains(uid) ==> self.audible(uid)
        }
    }
}

/// The users with a stream that has decoded audio.
fn audible_users(inputs: &GateInputs) -> (users: HashSet<u64>)
    ensures
        forall|uid: u64| #[trigger] users@.contains(uid) <==> inputs.audible(uid),
{
    let mut users: HashSet<u64> = HashSet::new();
    let keys = map_keys(&inputs.ssrc_map);
    let mut i: usize = 0;
    while i < keys.len()
        invariant
            0 <= i <= keys@.len(),
            keys@.to_set() == inputs.ssrc_map@.dom(),
            forall|uid: u64| #[trigger]
                users@.contains(uid) <==> exists|j: int|
                    0 <= j < i && inputs.ssrc_map@[#[trigger] keys@[j]] == uid
                        && inputs.ssrcs_seen@.contains(keys@[j]),
        decreases keys@.len() - i,
    {
        let ssrc: u32 = keys[i];
        assert(keys@.to_set().contains(keys@[i as int]));
        assert(inputs.ssrc_map@.contains_key(ssrc));
        let ghost before = users@;
        if inputs.ssrcs_seen.contains(&ssrc) {
            match inputs.ssrc_map.get(&ssrc) {
                Some(uid) => {
                    users.insert(*uid);
                },
                None => {},
            }
        }
        proof {
            assert forall|uid: u64| #[trigger] users@.contains(uid) implies exists|j: int|
                0 <= j < i + 1 && inputs.ssrc_map@[#[trigger] keys@[j]] == uid
                    && inputs.ssrcs_seen@.contains(keys@[j]) by {
                if before.contains(uid) {
                    let j = choose|j: int|
                        0 <= j < i && inputs.ssrc_map@[#[trigger] keys@[j]] == uid
                            && inputs.ssrcs_seen@.contains(keys@[j]);
                    assert(inputs.ssrc_map@[keys@[j]] == uid);
                } else {
                    assert(inputs.ssrc_map@[keys@[i as int]] == uid);
                }
            }
        }
        i = i + 1;
    }
    proof {
        assert forall|uid: u64| inputs.audible(uid) implies #[trigger] users@.contains(uid) by {
            let ssrc = choose|ssrc: u32| #[trigger]
                inputs.ssrc_map@.contains_key(ssrc) && inputs.ssrc_map@[ssrc] == uid
                    && inputs.ssrcs_seen@.contains(ssrc);
            assert(keys@.to_set().contains(ssrc));
            let j = choose|j: int| 0 <= j < keys@.len() && keys@[j] == ssrc;
            assert(inputs.ssrc_map@[keys@[j]] == uid);
        }
        assert forall|uid: u64| #[trigger] users@.contains(uid) implies inputs.audible(uid) by {
            let j = choose|j: int|
                0 <= j < keys@.len() && inputs.ssrc_map@[#[trigger] keys@[j]] == uid
                    && inputs.ssrcs_seen@.contains(keys@[j]);
            assert(keys@.to_set().contains(keys@[j]));
            assert(inputs.ssrc_map@.contains_key(keys@[j]));
        }
    }
    users
}

/// The stabilization gate's verdict right now.
pub fn evaluate(inputs: &GateInputs) -> (v: GateVerdict)
    ensures
        v == (if inputs.healthy() {
            GateVerdict::Healthy
        } else {
            GateVerdict::Unhealthy
        }),
{
    let expected = set_items(&inputs.expected_user_ids);
    let users = audible_users(inputs);
    if expected.len() == 0 {
        assert(inputs.expected_user_ids@ =~= Set::<u64>::empty()) by {
            assert(expected@.to_set() =~= Set::<u64>::empty());
        }
        let found = set_items(&users);
        proof {
            if inputs.anyone_audible() {
                let ssrc = choose|ssrc: u32| #[trigger]
                    inputs.ssrc_map@.contains_key(ssrc) && inputs.ssrcs_seen@.contains(ssrc);
                assert(inputs.audible(inputs.ssrc_map@[ssrc]));
                assert(found@.to_set().contains(inputs.ssrc_map@[ssrc]));
            }
            if found@.len() > 0 {
                assert(found@.to_set().contains(found@[0]));
                assert(inputs.audible(found@[0]));
            }
        }
        return if found.len() > 0 {
            GateVerdict::Healthy
        } else {
            GateVerdict::Unhealthy
        };
    }
    assert(expected@.to_set().contains(expected@[0]));
    let mut i: usize = 0;
    while i < expected.len()
        invariant
            0 <= i <= expected@.len(),
            expected@.len() > 0,
            expected@.to_set() == inputs.expected_user_ids@,
            inputs.expected_user_ids@ != Set::<u64>::empty(),
            forall|uid: u64| #[trigger] users@.contains(uid) <==> inputs.audible(uid),
            forall|j: int| 0 <= j < i ==> inputs.audible(#[trigger] expected@[j]),
        decreases expected@.len() - i,
    {
        if !users.contains(&expected[i]) {
            assert(!users@.contains(expected@[i as int]));
            assert(expected@.to_set().contains(expected@[i as int]));
            return GateVerdict::Unhealthy;
        }
        assert(users@.contains(expected@[i as int]));
        i = i + 1;
    }
    assert forall|uid: u64| #[trigger] inputs.expected_user_ids@.contains(uid) implies inputs.audible(
        uid,
    ) by {
        assert(expected@.to_set().contains(uid));
        let j = choose|j: int| 0 <= j < expected@.len() && expected@[j] == uid;
        assert(inputs.audible(expected@[j]));
    }
    GateVerdict::Healthy
}

/// The verdict on what could be read of the stabilization gate's inputs:
/// without them it is unhealthy.
pub fn evaluate_readable(inputs: Option<&GateInputs>) -> (v: GateVerdict)
    ensures
        v == (if inputs is Some && inputs->0.healthy() {
            GateVerdict::Healthy
        } else {
            GateVerdict::Unhealthy
        }),
{
    match inputs {
        Some(i) => evaluate(i),
        None => GateVerdict::Unhealthy,
    }
}

/// Where the streak of healthy verdicts stands.
#[derive(Debug, Clone, Copy, PartialEq, Eq, Structural)]
pub enum StreakStatus {
    /// Healthy, but not for long enough yet.
    Streaking,
    /// The stabilization gate opens now, this many nanoseconds after it was entered.
    GateOpens { total_nanos: u128 },
    /// Not healthy, still under the cap.
    Unhealthy,
    /// The cap is hit: the session must be cancelled.
    TimedOut,
}

/// Tracks for how long the verdict has been healthy without a break.
pub struct StreakTracker {
    entered: Instant,
    healthy_since: Option<u128>,
    required: u128,
}

/// When the streak began, once a verdict at `elapsed` is taken in: the first
/// healthy one begins it, an unhealthy one breaks it.
pub open spec fn next_since(since: Option<u128>, verdict: GateVerdict, elapsed: u128) -> Option<
    u128,
> {
    match verdict {
        GateVerdict::Healthy => if since is Some {
            since
        } else {
            Some(elapsed)
        },
        GateVerdict::Unhealthy => None,
    }
}

/// When the streak began, after a row of verdicts with their times.
pub open spec fn streak(history: Seq<(GateVerdict, u128)>) -> Option<u128>
    decreases history.len(),
{
    if history.len() == 0 {
        None
    } else {
        next_since(streak(history.drop_last()), history.last().0, history.last().1)
    }
}

impl StreakTracker {
    /// When the current streak began, in nanoseconds after the stabilization
    /// gate was entered.
    pub closed spec fn since(&self) -> Option<u128> {
        self.healthy_since
    }

    /// How long a streak has to last, in nanoseconds.
    pub closed spec fn needed(&self) -> u128 {
        self.required
    }

    /// Enter the stabilization gate, which opens after `required` nanoseconds
    /// of health.
    pub fn new(required: u128) -> (t: StreakTracker)
        ensures
            t.since() is None,
            t.needed() == required,
    {
        StreakTracker { entered: Instant::now(), healthy_since: None, required }
    }

    /// When the streak began, once the verdict at `elapsed` is taken in.
    pub open spec fn since_after(&self, verdict: GateVerdict, elapsed: u128) -> Option<u128> {
        next_since(self.since(), verdict, elapsed)
    }

    /// The status that the verdict at `elapsed` leads to.
    pub open spec fn status(&self, verdict: GateVerdict, elapsed: u128) -> StreakStatus {
        if elapsed >= STABILIZATION_TIMEOUT {
            StreakStatus::TimedOut
        } else {
            match self.since_after(verdict, elapsed) {
                Some(since) => if elapsed - since >= self.needed() {
                    StreakStatus::GateOpens { total_nanos: elapsed }
                } else {
                    StreakStatus::Streaking
                },
                None => StreakStatus::Unhealthy,
            }
        }
    }

    /// Take in a verdict `elapsed` nanoseconds after the stabilization gate was
    /// entered.
    pub fn observe_at(&mut self, verdict: GateVerdict, elapsed: u128) -> (s: StreakStatus)
        ensures
            s == old(self).status(verdict, elapsed),
            final(self).since() == old(self).since_after(verdict, elapsed),
            final(self).needed() == old(self).needed(),
    {
        match verdict {
            GateVerdict::Healthy => {
                let since: u128 = match self.healthy_since {
                    Some(since) => since,
                    None => elapsed,
                };
                self.healthy_since = Some(since);
                if elapsed >= STABILIZATION_TIMEOUT {
                    StreakStatus::TimedOut
                } else if elapsed >= since && elapsed - since >= self.required {
                    StreakStatus::GateOpens { total_nanos: elapsed }
                } else {
                    StreakStatus::Streaking
                }
            },
            GateVerdict::Unhealthy => {
                self.healthy_since = None;
                if elapsed >= STABILIZATION_TIMEOUT {
                    StreakStatus::TimedOut
                } else {
                    StreakStatus::Unhealthy
                }
            },
        }
    }

    /// Take in a verdict at this moment.
    pub fn observe(&mut self, verdict: GateVerdict) -> (s: StreakStatus)
        ensures
            final(self).needed() == old(self).needed(),
            exists|elapsed: u128|
                s == #[trigger] old(self).status(verdict, elapsed) && final(self).since()
                    == old(self).since_after(verdict, elapsed),
            verdict is Unhealthy ==> s is Unhealthy || s is TimedOut,
            verdict is Unhealthy ==> final(self).since() is None,
            verdict is Healthy ==> final(self).since() is Some,
            verdict is Healthy && old(self).since() is Some ==> final(self).since()
                == old(self).since(),
    {
        let elapsed: u128 = elapsed_nanos(&self.entered);
        self.observe_at(verdict, elapsed)
    }
}

/// A streak is unbroken: every verdict since it began was healthy.
pub proof fn law_streak_is_unbroken(history: Seq<(GateVerdict, u128)>)
    requires
        streak(history) is Some,
    ensures
        exists|i: int|
            0 <= i < history.len() && Some((#[trigger] history[i]).1) == streak(history) && (forall|
                j: int,
            |
                i <= j < history.len() ==> (#[trigger] history[j]).0 is Healthy),
    decreases history.len(),
{
    let n = history.len() - 1;
    let front = history.drop_last();
    assert(history.last() == history[n]);
    if streak(front) is Some {
        law_streak_is_unbroken(front);
        let i = choose|i: int|
            0 <= i < front.len() && Some((#[trigger] front[i]).1) == streak(front) && (forall|j: int|
                i <= j < front.len() ==> (#[trigger] front[j]).0 is Healthy);
        assert(history[i] == front[i]);
        assert forall|j: int| i <= j < history.len() implies (#[trigger] history[j]).0 is Healthy by {
            if j < n {
                assert(history[j] == front[j]);
            }
        }
    } else {
        assert(Some(history[n].1) == streak(history));
    }
}

/// The stabilization gate opens only after so long a streak, and never at or
/// after the cap. A single unhealthy verdict starts the wait anew.
pub proof fn law_gate_opens_after_streak(t: StreakTracker, verdict: GateVerdict, elapsed: u128)
    ensures
        t.status(verdict, elapsed) is GateOpens ==> {
            &&& elapsed < STABILIZATION_TIMEOUT
            &&& verdict is Healthy
            &&& t.since_after(verdict, elapsed) is Some
            &&& elapsed - t.since_after(verdict, elapsed)->0 >= t.needed()
        },
        verdict is Unhealthy ==> t.since_after(verdict, elapsed) is None,
        t.since() is None && t.needed() > 0 ==> !(t.status(verdict, elapsed) is GateOpens),
{
}

/// When the stabilization gate opens, every verdict was healthy for as long as it
/// takes: from one that lies so far back on to the last one.
pub proof fn law_gate_needs_continuous_health(
    history: Seq<(GateVerdict, u128)>,
    t: StreakTracker,
    verdict: GateVerdict,
    elapsed: u128,
)
    requires
        t.since() == streak(history),
        t.status(verdict, elapsed) is GateOpens,
    ensures
        ({
            let all = history.push((verdict, elapsed));
            exists|i: int|
                0 <= i < all.len() && elapsed - (#[trigger] all[i]).1 >= t.needed() && (forall|j: int|
                    i <= j < all.len() ==> (#[trigger] all[j]).0 is Healthy)
        }),
{
    let all = history.push((verdict, elapsed));
    assert(all.drop_last() =~= history);
    assert(all.last() == (verdict, elapsed));
    law_streak_is_unbroken(all);
    let i = choose|i: int|
        0 <= i < all.len() && Some((#[trigger] all[i]).1) == streak(all) && (forall|j: int|
            i <= j < all.len() ==> (#[trigger] all[j]).0 is Healthy);
    assert(elapsed - all[i].1 >= t.needed());
}

/// A streak that has not been broken since verdict `i` began there or earlier.
proof fn lemma_streak_reaches(history: Seq<(GateVerdict, u128)>, i: int)
    requires
        0 <= i < history.len(),
        forall|j: int| i <= j < history.len() ==> (#[trigger] history[j]).0 is Healthy,
        forall|j: int, k: int|
            0 <= j <= k < history.len() ==> (#[trigger] history[j]).1 <= (#[trigger] history[k]).1,
    ensures
        streak(history) is Some,
        streak(history)->0 <= history[i].1,
    decreases history.len(),
{
    let front = history.drop_last();
    let n = history.len() - 1;
    assert(history.last() == history[n]);
    assert forall|j: int| 0 <= j < front.len() implies #[trigger] front[j] == history[j] by {}
    if i < n {
        lemma_streak_reaches(front, i);
    } else if streak(front) is Some {
        law_streak_is_unbroken(front);
        let k = choose|k: int|
            0 <= k < front.len() && Some((#[trigger] front[k]).1) == streak(front) && (forall|j: int|
                k <= j < front.len() ==> (#[trigger] front[j]).0 is Healthy);
        assert(history[k].1 <= history[n].1);
    }
}

/// The stabilization gate opens as soon as it may: whenever the cap is not hit
/// and every verdict was healthy, from one at least the required span back up to
/// the one at hand.
pub proof fn law_gate_opens_when_healthy_for_long_enough(
    history: Seq<(GateVerdict, u128)>,
    t: StreakTracker,
    verdict: GateVerdict,
    elapsed: u128,
    i: int,
)
    requires
        t.since() == streak(history),
        elapsed < 180_000_000_000,
        ({
            let all = history.push((verdict, elapsed));
            &&& forall|j: int, k: int|
                0 <= j <= k < all.len() ==> (#[trigger] all[j]).1 <= (#[trigger] all[k]).1
            &&& 0 <= i < all.len()
            &&& elapsed - all[i].1 >= t.needed()
            &&& forall|j: int| i <= j < all.len() ==> (#[trigger] all[j]).0 is Healthy
        }),
    ensures
        t.status(verdict, elapsed) == (StreakStatus::GateOpens { total_nanos: elapsed }),
{
    let all = history.push((verdict, elapsed));
    assert(all.drop_last() =~= history);
    assert(all.last() == (verdict, elapsed));
    assert(all[history.len() as int] == (verdict, elapsed));
    lemma_streak_reaches(all, i);
}

/// Three minutes after it was entered the stabilization gate has timed out,
/// whatever the verdict. Before, it is unhealthy exactly if the verdict is.
pub proof fn law_gate_gives_up(t: StreakTracker, verdict: GateVerdict, elapsed: u128)
    ensures
        t.status(verdict, elapsed) is TimedOut <==> elapsed >= 180_000_000_000,
        t.status(verdict, elapsed) is Unhealthy <==> elapsed < 180_000_000_000
            && verdict is Unhealthy,
{
}

/// The channel is healthy exactly if each user from whom audio is expected is
/// heard: one of their streams has decoded audio. With nobody expected, somebody
/// has to be heard.
pub proof fn law_health(inputs: GateInputs)
    ensures
        (forall|uid: u64| !inputs.expected_user_ids@.contains(uid)) ==> (inputs.healthy()
            <==> exists|ssrc: u32| #[trigger]
            inputs.ssrc_map@.contains_key(ssrc) && inputs.ssrcs_seen@.contains(ssrc)),
        (exists|uid: u64| inputs.expected_user_ids@.contains(uid)) ==> (inputs.healthy()
            <==> forall|uid: u64| #[trigger]
            inputs.expected_user_ids@.contains(uid) ==> exists|ssrc: u32| #[trigger]
                inputs.ssrc_map@.contains_key(ssrc) && inputs.ssrc_map@[ssrc] == uid
                    && inputs.ssrcs_seen@.contains(ssrc)),
{
    if forall|uid: u64| !inputs.expected_user_ids@.contains(uid) {
        assert(inputs.expected_user_ids@ =~= Set::<u64>::empty());
    }
    if inputs.healthy() && inputs.expected_user_ids@ != Set::<u64>::empty() {
        assert forall|uid: u64| #[trigger] inputs.expected_user_ids@.contains(uid) implies exists|
            ssrc: u32,
        | #[trigger]
            inputs.ssrc_map@.contains_key(ssrc) && inputs.ssrc_map@[ssrc] == uid
                && inputs.ssrcs_seen@.contains(ssrc) by {
            assert(inputs.audible(uid));
        }
    }
}

/// A tracker that has taken in a row of verdicts has their streak, from the first on.
pub proof fn law_tracker_follows_verdicts(
    history: Seq<(GateVerdict, u128)>,
    t: StreakTracker,
    verdict: GateVerdict,
    elapsed: u128,
)
    requires
        t.since() == streak(history),
    ensures
        t.since_after(verdict, elapsed) == streak(history.push((verdict, elapsed))),
        streak(Seq::empty()) is None,
{
    assert(history.push((verdict, elapsed)).drop_last() =~= history);
}

} // verus!
