//! How many connections one client may have open at once: a counter per
//! address, which is there only while it is not zero.

use crate::net::IpAddr;
use crate::tables;
use crate::tables::SlotTable;
use vstd::multiset::Multiset;
use vstd::prelude::*;

verus! {

/// Stands for one connection that a client has open. It is handed back to
/// `IpLimiter::release` when the connection ends, however it ends.
#[derive(Debug, PartialEq, Eq, Structural)]
pub struct IpSlot {
    pub addr: IpAddr,
    /// Whether the connection was counted. It was not if no limit applied to
    /// the client when the slot was taken.
    pub counted: bool,
}

/// How many connections are counted for a client.
pub open spec fn count_for(counts: Map<(bool, u128), usize>, addr: IpAddr) -> usize {
    if counts.contains_key(addr.key()) {
        counts[addr.key()]
    } else {
        0
    }
}

/// A client to which no limit applies: any client while the limit is zero,
/// and a client on a loopback address.
pub open spec fn exempt(limit: usize, addr: IpAddr) -> bool {
    limit == 0 || addr.loopback()
}

/// Whether a client may open one more connection.
pub open spec fn may_acquire(
    counts: Map<(bool, u128), usize>,
    limit: usize,
    addr: IpAddr,
) -> bool {
    exempt(limit, addr) || count_for(counts, addr) < limit
}

/// The counters after a client has asked for one more connection. Nothing is
/// counted of a client to which no limit applies.
pub open spec fn acquired(
    counts: Map<(bool, u128), usize>,
    limit: usize,
    addr: IpAddr,
) -> Map<(bool, u128), usize> {
    if !exempt(limit, addr) && may_acquire(counts, limit, addr) {
        counts.insert(addr.key(), (count_for(counts, addr) + 1) as usize)
    } else {
        counts
    }
}

/// The slot that a client gets under a limit.
pub open spec fn slot_for(limit: usize, addr: IpAddr) -> IpSlot {
    IpSlot { addr, counted: !exempt(limit, addr) }
}

/// The counters after a slot was given back. One that was not counted changes
/// nothing, and a counter that reaches zero is forgotten.
pub open spec fn released(counts: Map<(bool, u128), usize>, slot: IpSlot) -> Map<
    (bool, u128),
    usize,
> {
    let key = slot.addr.key();
    if !slot.counted || !counts.contains_key(key) {
        counts
    } else if counts[key] <= 1 {
        counts.remove(key)
    } else {
        counts.insert(key, (counts[key] - 1) as usize)
    }
}

/// No counter is zero.
pub open spec fn no_idle_counter(counts: Map<(bool, u128), usize>) -> bool {
    forall|key: (bool, u128)| #[trigger] counts.contains_key(key) ==> counts[key] >= 1
}

/// Limits how many connections each client may have open at once.
pub struct IpLimiter {
    slots: SlotTable,
    max_per_ip: usize,
}

impl IpLimiter {
    /// The counters by client.
    pub closed spec fn counts(self) -> Map<(bool, u128), usize> {
        tables::slots_in(self.slots)
    }

    /// The limit; zero for none.
    pub closed spec fn limit(self) -> usize {
        self.max_per_ip
    }

    /// Only clients with open connections are kept track of, and finitely many
    /// of them.
    pub open spec fn well_formed(self) -> bool {
        no_idle_counter(self.counts()) && self.counts().dom().finite()
    }

    /// A limiter with `max_per_ip` connections per client. With zero there is
    /// no limit, and nothing is counted.
    pub fn new(max_per_ip: usize) -> (res: IpLimiter)
        ensures
            res.well_formed(),
            res.counts() == Map::<(bool, u128), usize>::empty(),
            res.limit() == max_per_ip,
    {
        IpLimiter { slots: SlotTable::new(), max_per_ip }
    }

    /// Takes a slot for a client, unless the client has as many connections
    /// open as it may have.
    pub fn try_acquire_slot(&mut self, addr: IpAddr) -> (res: Option<IpSlot>)
        requires
            old(self).well_formed(),
        ensures
            final(self).well_formed(),
            final(self).limit() == old(self).limit(),
            res == (if may_acquire(old(self).counts(), old(self).limit(), addr) {
                Some(slot_for(old(self).limit(), addr))
            } else {
                None
            }),
            final(self).counts() == acquired(old(self).counts(), old(self).limit(), addr),
    {
        if self.max_per_ip == 0 || addr.is_loopback() {
            return Some(IpSlot { addr, counted: false });
        }
        let key = addr.table_key();
        let count: usize = match self.slots.get(key) {
            Some(n) => n,
            None => 0,
        };
        if count >= self.max_per_ip {
            return None;
        }
        self.slots.insert(key, count + 1);
        Some(IpSlot { addr, counted: true })
    }

    /// Gives a slot back.
    pub fn release(&mut self, slot: IpSlot)
        requires
            old(self).well_formed(),
        ensures
            final(self).well_formed(),
            final(self).limit() == old(self).limit(),
            final(self).counts() == released(old(self).counts(), slot),
    {
        if !slot.counted {
            return;
        }
        let key = slot.addr.table_key();
        if let Some(count) = self.slots.get(key) {
            if count <= 1 {
                self.slots.remove(key);
            } else {
                self.slots.insert(key, count - 1);
            }
        }
    }

    /// Changes the limit. Slots that were taken stay taken.
    pub fn set_limit(&mut self, max_per_ip: usize)
        ensures
            final(self).counts() == old(self).counts(),
            final(self).limit() == max_per_ip,
    {
        self.max_per_ip = max_per_ip;
    }

    /// How many clients are being kept track of.
    pub fn ips_count(&self) -> (res: usize)
        ensures
            res == self.counts().dom().len(),
    {
        self.slots.len()
    }
}

// ---------------------------------------------------------------------
// Laws
// ---------------------------------------------------------------------

/// Giving a slot back undoes taking it: the counters are what they were, down
/// to which clients are kept track of, whether or not a limit applied.
pub proof fn law_release_undoes_acquire(
    counts: Map<(bool, u128), usize>,
    limit: usize,
    addr: IpAddr,
)
    requires
        no_idle_counter(counts),
        may_acquire(counts, limit, addr),
    ensures
        released(acquired(counts, limit, addr), slot_for(limit, addr)) == counts,
{
    assert(released(acquired(counts, limit, addr), slot_for(limit, addr)) =~= counts);
}

/// The counters are those of the slots that are out: for each client the
/// number of counted slots that it holds, and none but for a client.
pub open spec fn counts_the_live(counts: Map<(bool, u128), usize>, live: Multiset<IpSlot>) -> bool {
    &&& no_idle_counter(counts)
    &&& forall|addr: IpAddr| #[trigger]
        count_for(counts, addr) == live.count(IpSlot { addr, counted: true })
    &&& forall|key: (bool, u128)| #[trigger]
        counts.contains_key(key) ==> exists|addr: IpAddr| #[trigger] addr.key() == key
}

/// Through any taking and giving back of slots, under limits that may change
/// at any time, the counters stay those of the slots that are out. So a client
/// to which a limit applies is refused exactly when it holds as many counted
/// slots as the limit says.
pub proof fn law_counters_are_those_of_live_slots(
    counts: Map<(bool, u128), usize>,
    live: Multiset<IpSlot>,
    limit: usize,
    addr: IpAddr,
    slot: IpSlot,
)
    requires
        counts_the_live(counts, live),
    ensures
        counts_the_live(Map::empty(), Multiset::empty()),
        may_acquire(counts, limit, addr) ==> counts_the_live(
            acquired(counts, limit, addr),
            live.insert(slot_for(limit, addr)),
        ),
        live.contains(slot) ==> counts_the_live(released(counts, slot), live.remove(slot)),
        !exempt(limit, addr) ==> (may_acquire(counts, limit, addr) <==> live.count(
            IpSlot { addr, counted: true },
        ) < limit),
{
    if may_acquire(counts, limit, addr) {
        let after = acquired(counts, limit, addr);
        let out = live.insert(slot_for(limit, addr));
        assert forall|a: IpAddr| #[trigger] count_for(after, a) == out.count(
            IpSlot { addr: a, counted: true },
        ) by {
            assert(count_for(counts, a) == live.count(IpSlot { addr: a, counted: true }));
            crate::net::law_keys_tell_addresses_apart(a, addr);
        }
    }
    if live.contains(slot) {
        let after = released(counts, slot);
        let out = live.remove(slot);
        assert(count_for(counts, slot.addr) == live.count(
            IpSlot { addr: slot.addr, counted: true },
        ));
        assert forall|a: IpAddr| #[trigger] count_for(after, a) == out.count(
            IpSlot { addr: a, counted: true },
        ) by {
            assert(count_for(counts, a) == live.count(IpSlot { addr: a, counted: true }));
            crate::net::law_keys_tell_addresses_apart(a, slot.addr);
        }
    }
    assert(count_for(counts, addr) == live.count(IpSlot { addr, counted: true }));
}

/// While the limit stays the same, no client to which it applies ever has
/// more connections counted than the limit.
pub proof fn law_limit_is_never_exceeded(
    counts: Map<(bool, u128), usize>,
    limit: usize,
    addr: IpAddr,
    slot: IpSlot,
)
    requires
        limit > 0,
        forall|key: (bool, u128)| #[trigger] counts.contains_key(key) ==> counts[key] <= limit,
    ensures
        forall|key: (bool, u128)| #[trigger]
            acquired(counts, limit, addr).contains_key(key) ==> acquired(
                counts,
                limit,
                addr,
            )[key] <= limit,
        forall|key: (bool, u128)| #[trigger]
            released(counts, slot).contains_key(key) ==> released(counts, slot)[key] <= limit,
{
}

/// What one client does leaves the counters of all others as they are.
pub proof fn law_clients_are_counted_apart(
    counts: Map<(bool, u128), usize>,
    limit: usize,
    slot: IpSlot,
    other: IpAddr,
)
    requires
        slot.addr != other,
    ensures
        count_for(acquired(counts, limit, slot.addr), other) == count_for(counts, other),
        count_for(released(counts, slot), other) == count_for(counts, other),
{
}

/// The clients that are kept track of are those with counted connections:
/// counting a connection adds a client that had none, and giving back its last
/// counted slot takes the client away.
pub proof fn law_tracked_clients_have_connections(
    counts: Map<(bool, u128), usize>,
    limit: usize,
    slot: IpSlot,
)
    requires
        no_idle_counter(counts),
        counts.dom().finite(),
        may_acquire(counts, limit, slot.addr),
    ensures
        acquired(counts, limit, slot.addr).dom().len() == counts.dom().len() + (if !exempt(
            limit,
            slot.addr,
        ) && count_for(counts, slot.addr) == 0 {
            1int
        } else {
            0int
        }),
        released(counts, slot).dom().len() == counts.dom().len() - (if slot.counted && count_for(
            counts,
            slot.addr,
        ) == 1 {
            1int
        } else {
            0int
        }),
{
    let key = slot.addr.key();
    if !exempt(limit, slot.addr) {
        assert(acquired(counts, limit, slot.addr).dom() =~= counts.dom().insert(key));
    }
    if counts.contains_key(key) {
        assert(counts.dom().insert(key) =~= counts.dom());
        if slot.counted && counts[key] == 1 {
            assert(released(counts, slot).dom() =~= counts.dom().remove(key));
        } else {
            assert(released(counts, slot).dom() =~= counts.dom());
        }
    }
}

/// A client on a loopback address is never refused, and never counted.
pub proof fn law_loopback_is_never_limited(
    counts: Map<(bool, u128), usize>,
    limit: usize,
    addr: IpAddr,
)
    requires
        addr.loopback(),
    ensures
        may_acquire(counts, limit, addr),
        acquired(counts, limit, addr) == counts,
        released(counts, slot_for(limit, addr)) == counts,
{
}

/// While a limit is set, no client escapes it but one on a loopback address: a
/// slot is given exactly if the client holds fewer than the limit, it counts,
/// and the count goes up by one.
pub proof fn law_only_loopback_escapes_the_limit(
    counts: Map<(bool, u128), usize>,
    live: Multiset<IpSlot>,
    limit: usize,
    addr: IpAddr,
)
    requires
        limit > 0,
        !(match addr {
            crate::net::IpAddr::V4(bits) => 0x7f00_0000 <= bits <= 0x7fff_ffff,
            crate::net::IpAddr::V6(bits) => bits == 1,
        }),
    ensures
        ({
            let held = if counts.contains_key(addr.key()) {
                counts[addr.key()]
            } else {
                0
            };
            &&& may_acquire(counts, limit, addr) <==> held < limit
            &&& slot_for(limit, addr) == (IpSlot { addr, counted: true })
            &&& acquired(counts, limit, addr) == (if held < limit {
                counts.insert(addr.key(), (held + 1) as usize)
            } else {
                counts
            })
            &&& held == live.count(IpSlot { addr, counted: true }) ==> (may_acquire(
                counts,
                limit,
                addr,
            ) <==> live.count(IpSlot { addr, counted: true }) < limit)
        }),
{
    crate::net::law_loopback_addresses(addr);
}

/// Without a limit, and on a loopback address, every client is given a slot,
/// and none of them counts.
pub proof fn law_without_a_limit_nothing_counts(
    counts: Map<(bool, u128), usize>,
    limit: usize,
    addr: IpAddr,
)
    requires
        limit == 0 || (match addr {
            crate::net::IpAddr::V4(bits) => 0x7f00_0000 <= bits <= 0x7fff_ffff,
            crate::net::IpAddr::V6(bits) => bits == 1,
        }),
    ensures
        may_acquire(counts, limit, addr),
        acquired(counts, limit, addr) == counts,
        slot_for(limit, addr) == (IpSlot { addr, counted: false }),
{
    crate::net::law_loopback_addresses(addr);
}

/// Giving a counted slot back lowers the count of its client by one, and
/// nothing else; the last one takes the client off the books. A slot that was
/// not counted changes nothing.
pub proof fn law_release_lowers_one_count(
    counts: Map<(bool, u128), usize>,
    slot: IpSlot,
    key: (bool, u128),
)
    ensures
        !slot.counted ==> released(counts, slot) == counts,
        key != slot.addr.key() ==> {
            &&& released(counts, slot).contains_key(key) <==> counts.contains_key(key)
            &&& counts.contains_key(key) ==> released(counts, slot)[key] == counts[key]
        },
        slot.counted && counts.contains_key(slot.addr.key()) && counts[slot.addr.key()] > 1 ==> {
            &&& released(counts, slot).contains_key(slot.addr.key())
            &&& released(counts, slot)[slot.addr.key()] == counts[slot.addr.key()] - 1
        },
        slot.counted && counts.contains_key(slot.addr.key()) && counts[slot.addr.key()] <= 1
            ==> !released(counts, slot).contains_key(slot.addr.key()),
        !counts.contains_key(slot.addr.key()) ==> released(counts, slot) == counts,
{
}

/// The count of a client is what is on the books under its address, and zero
/// where nothing is.
pub proof fn law_counts_are_what_is_on_the_books(counts: Map<(bool, u128), usize>, addr: IpAddr)
    ensures
        counts.contains_key(addr.key()) ==> count_for(counts, addr) == counts[addr.key()],
        !counts.contains_key(addr.key()) ==> count_for(counts, addr) == 0,
{
}

} // verus!
