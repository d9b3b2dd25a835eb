//! Interactions that were seen before.
//!
//! The gateway may replay an interaction after a reconnect. Answering it again
//! would fail, so replays are recognised by their ids and skipped.

use std::collections::VecDeque;
use vstd::prelude::*;

verus! {

/// How many ids are remembered.
pub const RECENT_INTERACTION_CAPACITY: usize = 128;

/// The interactions that were seen last.
pub struct RecentInteractions {
    ids: VecDeque<u64>,
}

/// The ids that are remembered once `id` has come in.
pub open spec fn remembered(ids: Seq<u64>, id: u64) -> Seq<u64> {
    if ids.contains(id) {
        ids
    } else if ids.len() >= RECENT_INTERACTION_CAPACITY {
        ids.skip(1).push(id)
    } else {
        ids.push(id)
    }
}

impl RecentInteractions {
    /// The ids that are remembered, oldest first.
    pub closed spec fn ids(&self) -> Seq<u64> {
        self.ids@
    }

    /// At most so many ids as fit, none of them twice.
    pub open spec fn wf(&self) -> bool {
        self.ids().len() <= RECENT_INTERACTION_CAPACITY && self.ids().no_duplicates()
    }

    /// Nothing was seen.
    pub fn new() -> (r: RecentInteractions)
        ensures
            r.wf(),
            r.ids().len() == 0,
    {
        RecentInteractions { ids: VecDeque::new() }
    }

    /// Take in an id. Whether it is new; a replay changes nothing.
    pub fn record(&mut self, id: u64) -> (new: bool)
        requires
            old(self).wf(),
        ensures
            final(self).wf(),
            new == !old(self).ids().contains(id),
            final(self).ids() == remembered(old(self).ids(), id),
    {
        let mut i: usize = 0;
        while i < self.ids.len()
            invariant
                0 <= i <= self.ids@.len(),
                self.ids@ == old(self).ids(),
                old(self).wf(),
                forall|j: int| 0 <= j < i ==> self.ids@[j] != id,
            decreases self.ids@.len() - i,
        {
            if self.ids[i] == id {
                assert(old(self).ids()[i as int] == id);
                return false;
            }
            i = i + 1;
        }
        if self.ids.len() >= RECENT_INTERACTION_CAPACITY {
            self.ids.pop_front();
            assert(self.ids@ =~= old(self).ids().skip(1));
        }
        self.ids.push_back(id);
        true
    }
}

/// An id that was just taken in is a replay when it comes again.
pub proof fn law_replay_is_recognised(ids: Seq<u64>, id: u64)
    ensures
        remembered(ids, id).contains(id),
{
    let r = remembered(ids, id);
    if !ids.contains(id) {
        assert(r[r.len() - 1] == id);
    }
}

/// What is remembered stays remembered while there is room.
pub proof fn law_ids_stay_while_there_is_room(ids: Seq<u64>, id: u64, other: u64)
    requires
        ids.len() < RECENT_INTERACTION_CAPACITY,
        ids.contains(other),
    ensures
        remembered(ids, id).contains(other),
{
    let i = choose|i: int| 0 <= i < ids.len() && ids[i] == other;
    assert(remembered(ids, id)[i] == other);
}

/// Without room the oldest id is forgotten, and no other.
pub proof fn law_oldest_id_goes_first(ids: Seq<u64>, id: u64, other: u64)
    requires
        ids.len() == RECENT_INTERACTION_CAPACITY,
        ids.no_duplicates(),
        !ids.contains(id),
        ids.contains(other),
    ensures
        remembered(ids, id).contains(other) <==> other != ids[0],
{
    let r = remembered(ids, id);
    let i = choose|i: int| 0 <= i < ids.len() && ids[i] == other;
    if i > 0 {
        assert(r[i - 1] == other);
    }
    if r.contains(other) {
        let j = choose|j: int| 0 <= j < r.len() && r[j] == other;
        if j < ids.len() - 1 {
            assert(ids[j + 1] == other);
        } else {
            assert(r[j] == id);
        }
    }
}

/// When an interaction was created, in milliseconds of the Unix clock.
pub open spec fn created_ms(id: u64) -> int {
    id as int / 0x40_0000 + 1420070400000
}

/// How long ago an interaction was created at `now_ms`, in milliseconds; zero for
/// one from the future.
pub fn gateway_lag_ms(id: u64, now_ms: u64) -> (lag: u64)
    ensures
        lag == (if now_ms >= created_ms(id) {
            now_ms - created_ms(id)
        } else {
            0
        }),
{
    let created: u64 = id / 0x40_0000 + 1420070400000;
    if now_ms >= created {
        now_ms - created
    } else {
        0
    }
}

} // verus!
