//! Recovery from a catastrophic failure.
//!
//! A session that fails while recording is followed by a successor with a fresh
//! id and the same participants, at most once per guild and hour.

use crate::collect::{enumerates, lemma_take_next, map_keys};
use crate::session::participant::ParticipantConsent;
use crate::time::elapsed_nanos;
use dashmap::DashMap;
use std::collections::HashMap;
use std::time::Instant;
use vstd::prelude::*;

verus! {

broadcast use vstd::std_specs::hash::group_hash_axioms;

/// The time in which one restart is allowed, as a span in nanoseconds.
pub const RESTART_WINDOW: u128 = 3_600_000_000_000;

/// The restarts that are allowed in that time.
pub const RESTART_BUDGET_PER_WINDOW: u32 = 1;

/// When a guild's window began, and how many restarts it has used.
#[derive(Debug, Clone, Copy, PartialEq, Eq, Structural)]
pub struct Window {
    pub start: u128,
    pub used: u32,
}

/// `dashmap::DashMap`: a concurrent hash map.
#[verifier::external_type_specification]
#[verifier::external_body]
#[verifier::reject_recursive_types(K)]
#[verifier::reject_recursive_types(V)]
#[verifier::reject_recursive_types(S)]
pub struct ExDashMap<K, V, S>(DashMap<K, V, S>);

/// What a map of budgets holds: per guild, when its window began and how many
/// restarts it has used.
pub uninterp spec fn budget_entries(m: DashMap<u64, Window>) -> Map<u64, Window>;

/// No guild has a window.
pub open spec fn no_windows() -> Map<u64, Window> {
    Map::empty()
}

/// `DashMap::new`: an empty map.
#[verifier::external_body]
fn new_budgets() -> (m: DashMap<u64, Window>)
    ensures
        budget_entries(m) == no_windows(),
{
    DashMap::new()
}

/// `DashMap::entry` and `Entry::or_insert`: the value of a key, which becomes
/// `default` if the map has none.
#[verifier::external_body]
fn budget_or_insert(m: &mut DashMap<u64, Window>, guild: u64, default: Window) -> (v: Window)
    ensures
        v == (if budget_entries(*old(m)).contains_key(guild) {
            budget_entries(*old(m))[guild]
        } else {
            default
        }),
        budget_entries(*final(m)) == budget_entries(*old(m)).insert(guild, v),
{
    *m.entry(guild).or_insert(default)
}

/// `DashMap::insert`: the map with `value` under `guild`.
#[verifier::external_body]
fn put_budget(m: &mut DashMap<u64, Window>, guild: u64, value: Window)
    ensures
        budget_entries(*final(m)) == budget_entries(*old(m)).insert(guild, value),
{
    m.insert(guild, value);
}

/// The restarts of each guild. Instants are counted in nanoseconds from the
/// moment the budget was made.
pub struct RestartBudget {
    made: Instant,
    inner: DashMap<u64, Window>,
}

/// A guild's window at `now`: the one it has, unless it is over; else a new one.
pub open spec fn window_at(entries: Map<u64, Window>, guild: u64, now: u128) -> Window {
    if entries.contains_key(guild) && now - entries[guild].start < RESTART_WINDOW {
        entries[guild]
    } else {
        Window { start: now, used: 0 }
    }
}

/// A request at `now` is granted: the guild's window has a restart left.
pub open spec fn granted(entries: Map<u64, Window>, guild: u64, now: u128) -> bool {
    window_at(entries, guild, now).used < RESTART_BUDGET_PER_WINDOW
}

/// The windows after a request at `now`.
pub open spec fn entries_after(entries: Map<u64, Window>, guild: u64, now: u128) -> Map<u64, Window> {
    let w = window_at(entries, guild, now);
    entries.insert(
        guild,
        if granted(entries, guild, now) {
            Window { start: w.start, used: (w.used + 1) as u32 }
        } else {
            w
        },
    )
}

impl RestartBudget {
    /// Per guild, when its window began and how many restarts it has used.
    pub closed spec fn entries(&self) -> Map<u64, Window> {
        budget_entries(self.inner)
    }

    /// Nothing is used up.
    pub fn new() -> (b: RestartBudget)
        ensures
            b.entries() == no_windows(),
    {
        RestartBudget { made: Instant::now(), inner: new_budgets() }
    }

    /// Ask for a restart at `now`. It is allowed while the guild's window has
    /// one left, and then used up.
    pub fn try_consume_at(&mut self, guild_id: u64, now: u128) -> (allowed: bool)
        ensures
            allowed == granted(old(self).entries(), guild_id, now),
            final(self).entries() == entries_after(old(self).entries(), guild_id, now),
    {
        let ghost was = self.entries();
        let mut w = budget_or_insert(&mut self.inner, guild_id, Window { start: now, used: 0 });
        if now >= w.start && now - w.start >= RESTART_WINDOW {
            w = Window { start: now, used: 0 };
        }
        assert(w == window_at(was, guild_id, now));
        let allowed = w.used < RESTART_BUDGET_PER_WINDOW;
        if allowed {
            w = Window { start: w.start, used: w.used + 1 };
        }
        put_budget(&mut self.inner, guild_id, w);
        assert(self.entries() =~= was.insert(guild_id, w));
        allowed
    }

    /// The nanoseconds since the budget was made. Nothing is said of their number.
    pub fn clock(&self) -> (now: u128) {
        elapsed_nanos(&self.made)
    }

    /// Ask for a restart at this moment.
    pub fn try_consume(&mut self, guild_id: u64) -> (allowed: bool)
        ensures
            exists|now: u128|
                allowed == #[trigger] granted(old(self).entries(), guild_id, now)
                    && final(self).entries() == entries_after(
                    old(self).entries(),
                    guild_id,
                    now,
                ),
            !old(self).entries().contains_key(guild_id) ==> allowed,
    {
        let now: u128 = self.clock();
        self.try_consume_at(guild_id, now)
    }
}

/// The windows after requests of guilds at given times.
pub open spec fn after_requests(requests: Seq<(u64, u128)>) -> Map<u64, Window>
    decreases requests.len(),
{
    if requests.len() == 0 {
        no_windows()
    } else {
        entries_after(
            after_requests(requests.drop_last()),
            requests.last().0,
            requests.last().1,
        )
    }
}

/// Request `i` of `requests` is granted.
pub open spec fn request_granted(requests: Seq<(u64, u128)>, i: int) -> bool {
    granted(after_requests(requests.take(i)), requests[i].0, requests[i].1)
}

/// The requests come one after the other.
pub open spec fn in_time_order(requests: Seq<(u64, u128)>) -> bool {
    forall|i: int, j: int|
        0 <= i <= j < requests.len() ==> (#[trigger] requests[i]).1 <= (#[trigger] requests[j]).1
}

/// Every window there is has used up its restart: a guild gets one with its
/// first request, which is granted.
proof fn lemma_windows_used_up(requests: Seq<(u64, u128)>, guild: u64)
    ensures
        after_requests(requests).contains_key(guild) ==> after_requests(requests)[guild].used == 1,
    decreases requests.len(),
{
    if requests.len() > 0 {
        lemma_windows_used_up(requests.drop_last(), guild);
    }
}

/// A granted request begins a window, which stays until it is over.
proof fn lemma_window_stays(requests: Seq<(u64, u128)>, i: int, n: int)
    requires
        0 <= i < n <= requests.len(),
        in_time_order(requests),
        request_granted(requests, i),
        n <= i + 1 || requests[n - 1].1 - requests[i].1 < RESTART_WINDOW,
    ensures
        after_requests(requests.take(n)).contains_pair(
            requests[i].0,
            Window { start: requests[i].1, used: 1 },
        ),
    decreases n,
{
    let guild = requests[i].0;
    let before = requests.take(n - 1);
    assert(requests.take(n).drop_last() =~= before);
    assert(requests.take(n).last() == requests[n - 1]);
    if n == i + 1 {
        lemma_windows_used_up(before, guild);
    } else {
        assert(requests[n - 2].1 <= requests[n - 1].1);
        lemma_window_stays(requests, i, n - 1);
    }
}

/// At most one restart per guild and hour: once a request is granted, no later
/// one of the same guild is granted within the hour, whatever else is asked for
/// in between.
pub proof fn law_one_restart_per_hour(requests: Seq<(u64, u128)>, i: int, j: int)
    requires
        0 <= i < j < requests.len(),
        in_time_order(requests),
        requests[i].0 == requests[j].0,
        request_granted(requests, i),
        requests[j].1 - requests[i].1 < RESTART_WINDOW,
    ensures
        !request_granted(requests, j),
{
    assert(requests[j - 1].1 <= requests[j].1);
    lemma_window_stays(requests, i, j);
}

/// Once the window is over, a request is granted again.
pub proof fn law_budget_renews(entries: Map<u64, Window>, guild: u64, now: u128)
    requires
        entries.contains_key(guild) ==> now - entries[guild].start >= RESTART_WINDOW,
    ensures
        granted(entries, guild, now),
{
}

/// A request of one guild does not change what another is granted.
pub proof fn law_guilds_are_independent(
    entries: Map<u64, Window>,
    guild: u64,
    other: u64,
    a: u128,
    b: u128,
)
    requires
        guild != other,
    ensures
        granted(entries_after(entries, guild, a), other, b) == granted(entries, other, b),
{
}

/// `b` holds equal records under the same keys as `a`.
pub open spec fn same_records(
    a: Map<u64, ParticipantConsent>,
    b: Map<u64, ParticipantConsent>,
) -> bool {
    &&& b.dom() == a.dom()
    &&& forall|k: u64| #[trigger] b.contains_key(k) ==> b[k].same(a[k])
}

/// The records of a failed session, for its successor.
pub fn carry_forward(participants: &HashMap<u64, ParticipantConsent>) -> (carried: HashMap<
    u64,
    ParticipantConsent,
>)
    ensures
        same_records(participants@, carried@),
{
    let mut carried: HashMap<u64, ParticipantConsent> = HashMap::new();
    let keys = map_keys(participants);
    let mut i: usize = 0;
    assert(keys@.take(0).to_set() =~= Set::<u64>::empty());
    while i < keys.len()
        invariant
            0 <= i <= keys@.len(),
            enumerates(keys@, participants@.dom()),
            carried@.dom() == keys@.take(i as int).to_set(),
            forall|k: u64| #[trigger] carried@.contains_key(k) ==> carried@[k].same(participants@[k]),
        decreases keys@.len() - i,
    {
        let k: u64 = keys[i];
        proof {
            lemma_take_next(keys@, i as int);
            assert(keys@.to_set().contains(keys@[i as int]));
        }
        match participants.get(&k) {
            Some(p) => {
                carried.insert(k, p.duplicate());
            },
            None => {},
        }
        assert(carried@.dom() =~= keys@.take(i + 1).to_set());
        i = i + 1;
    }
    assert(keys@.take(keys@.len() as int) =~= keys@);
    carried
}

} // verus!
