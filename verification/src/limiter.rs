//! How many connections are handled at once: a fixed number of slots, and the
//! gauge that counts those that are occupied.

use crate::config::ServiceConfig;
use crate::metrics;
use crate::metrics::Stats;
use vstd::prelude::*;

verus! {

/// Stands for one occupied slot. It is handed back to
/// `ConnectionLimiter::release` when the connection ends, however it ends.
#[derive(Debug)]
pub struct ConnectionSlot {
    _held: (),
}

/// The stats with one slot more occupied.
pub open spec fn slot_taken(s: Stats) -> Stats {
    Stats { connections: s.connections.wrapping_add(1), ..s }
}

/// The stats with one slot less occupied.
pub open spec fn slot_given_back(s: Stats) -> Stats {
    Stats { connections: s.connections.wrapping_sub(1), ..s }
}

/// The slots left occupied after one is given back.
pub open spec fn one_less(live: usize) -> usize {
    if live > 0 {
        (live - 1) as usize
    } else {
        0
    }
}

/// The slots of all connections that are handled at once.
pub struct ConnectionLimiter {
    permits: usize,
    live: usize,
}

impl ConnectionLimiter {
    /// How many slots there are.
    pub closed spec fn permits(self) -> usize {
        self.permits
    }

    /// How many of them are occupied.
    pub closed spec fn live(self) -> usize {
        self.live
    }

    /// No more slots are occupied than there are.
    pub open spec fn well_formed(self) -> bool {
        self.live() <= self.permits()
    }

    /// So many slots, all of them free.
    pub fn new(permits: usize) -> (res: ConnectionLimiter)
        ensures
            res.well_formed(),
            res.permits() == permits,
            res.live() == 0,
    {
        ConnectionLimiter { permits, live: 0 }
    }

    /// Occupies a slot. `None` means that none is free, and that the
    /// connection has to wait.
    pub fn acquire_slot(&mut self, stats: &mut Stats) -> (res: Option<ConnectionSlot>)
        requires
            old(self).well_formed(),
        ensures
            final(self).well_formed(),
            final(self).permits() == old(self).permits(),
            res is Some <==> old(self).live() < old(self).permits(),
            res is Some ==> final(self).live() == old(self).live() + 1 && *final(stats)
                == slot_taken(*old(stats)),
            res is None ==> final(self).live() == old(self).live() && *final(stats) == *old(
                stats,
            ),
    {
        if self.live >= self.permits {
            return None;
        }
        self.live = self.live + 1;
        stats.connections = stats.connections.wrapping_add(1);
        Some(ConnectionSlot { _held: () })
    }

    /// Gives a slot back.
    pub fn release(&mut self, slot: ConnectionSlot, stats: &mut Stats)
        requires
            old(self).well_formed(),
        ensures
            final(self).well_formed(),
            final(self).permits() == old(self).permits(),
            final(self).live() == one_less(old(self).live()),
            *final(stats) == slot_given_back(*old(stats)),
    {
        if self.live > 0 {
            self.live = self.live - 1;
        }
        stats.connections = stats.connections.wrapping_sub(1);
    }
}

// ---------------------------------------------------------------------
// Laws
// ---------------------------------------------------------------------

/// Giving a slot back undoes occupying it.
pub proof fn law_slot_release_undoes_acquire(s: Stats, live: usize)
    requires
        live < usize::MAX,
    ensures
        slot_given_back(slot_taken(s)) == s,
        one_less((live + 1) as usize) == live,
{
}

/// Connections that only ever occupy a slot that is free never exceed the cap.
pub proof fn law_free_slots_keep_within_the_cap(s: Stats, config: ServiceConfig)
    requires
        metrics::available_slots(config, s) > 0,
    ensures
        slot_taken(s).connections <= config.max_connections,
        metrics::available_slots(config, slot_taken(s)) == metrics::available_slots(config, s) - 1,
{
}

/// One thing that happens to the number of occupied slots and to the stats: a
/// free slot is occupied, an occupied one is given back, or something is
/// counted that has nothing to do with slots.
pub open spec fn slot_step(permits: usize, before: (usize, Stats), after: (usize, Stats)) -> bool {
    ||| {
        &&& before.0 < permits
        &&& after.0 == before.0 + 1
        &&& after.1 == slot_taken(before.1)
    }
    ||| {
        &&& before.0 > 0
        &&& after.0 == one_less(before.0)
        &&& after.1 == slot_given_back(before.1)
    }
    ||| {
        &&& after.0 == before.0
        &&& after.1.connections == before.1.connections
    }
}

/// However slots are occupied and given back, and whatever else is counted in
/// between: at every moment the gauge shows the number of occupied slots, and
/// that number does not pass the cap.
pub proof fn law_gauge_counts_the_occupied_slots(
    permits: usize,
    states: Seq<(usize, Stats)>,
    i: int,
)
    requires
        0 <= i < states.len(),
        states[0].0 == 0,
        states[0].1.connections == 0,
        forall|j: int|
            0 < j < states.len() ==> slot_step(permits, states[j - 1], #[trigger] states[j]),
    ensures
        states[i].1.connections == states[i].0,
        states[i].0 <= permits,
    decreases i,
{
    if i > 0 {
        law_gauge_counts_the_occupied_slots(permits, states, i - 1);
        assert(slot_step(permits, states[i - 1], states[i]));
    }
}

/// Occupying a slot raises the gauge by one and giving one back lowers it by
/// one; nothing else is touched.
pub proof fn law_slots_move_the_gauge_by_one(s: Stats, live: usize)
    ensures
        s.connections < u64::MAX ==> slot_taken(s) == (Stats {
            connections: (s.connections + 1) as u64,
            ..s
        }),
        s.connections > 0 ==> slot_given_back(s) == (Stats {
            connections: (s.connections - 1) as u64,
            ..s
        }),
        live > 0 ==> one_less(live) == live - 1,
        one_less(0) == 0,
{
}

/// The gauge of slots starts over at either end of 64 bits.
pub proof fn law_gauge_of_slots_starts_over(s: Stats)
    ensures
        s.connections == u64::MAX ==> slot_taken(s).connections == 0,
        s.connections == 0 ==> slot_given_back(s).connections == u64::MAX,
{
}

} // verus!
