//! Which accepted connections are served, and when a shutdown is over.

use crate::ip_limiter;
use crate::ip_limiter::{IpLimiter, IpSlot};
use crate::limiter;
use crate::limiter::{ConnectionLimiter, ConnectionSlot};
use crate::metrics::Stats;
use crate::net::IpAddr;
use crate::rate_limiter;
use crate::rate_limiter::RateLimiter;
use vstd::prelude::*;

verus! {

/// How long connections that are being served get to end after a shutdown
/// signal, in nanoseconds.
pub const SHUTDOWN_GRACE: u64 = 30_000_000_000;

/// How often a shutdown looks whether they have, in milliseconds.
pub const DRAIN_POLL_MILLIS: u64 = 200;

/// How long to wait after a failed accept, in milliseconds.
pub const ACCEPT_ERROR_BACKOFF_MILLIS: u64 = 100;

/// How often full buckets are forgotten, in seconds.
pub const SWEEP_INTERVAL_SECS: u64 = 300;

/// What accepting a connection came to.
#[derive(Clone, Copy, Debug, PartialEq, Eq, Structural)]
pub enum AcceptEvent {
    Failed,
    /// A connection from this address.
    Accepted(IpAddr),
}

/// What is to be done about it.
#[derive(Debug)]
pub enum AcceptAction {
    /// Wait a moment, and accept again.
    BackOff,
    /// Close the connection: the client opens them too fast.
    RejectRate,
    /// Close the connection: the client has too many of them.
    RejectIpLimit,
    /// Serve the connection, which holds these slots until it ends.
    Serve(ConnectionSlot, IpSlot),
}

/// The rate limiter lets the client through.
pub open spec fn rate_allows(rates: RateLimiter, peer: IpAddr, now: u64) -> bool {
    rates.exempt(peer) || rate_limiter::has_token(
        rate_limiter::bucket_for(rates.buckets(), peer.key(), now, rates.burst()),
        now,
        rates.rate(),
        rates.burst(),
    )
}

/// The buckets after the client has been looked at.
pub open spec fn rate_asked(rates: RateLimiter, peer: IpAddr, now: u64) -> Map<
    (bool, u128),
    rate_limiter::Bucket,
> {
    if rates.exempt(peer) {
        rates.buckets()
    } else {
        rates.buckets().insert(
            peer.key(),
            rate_limiter::asked(
                rate_limiter::bucket_for(rates.buckets(), peer.key(), now, rates.burst()),
                now,
                rates.rate(),
                rates.burst(),
            ),
        )
    }
}

/// The stats after a connection was turned away for its rate.
pub open spec fn rate_rejection(s: Stats) -> Stats {
    Stats {
        connections_rejected_rate_limit_total: s.connections_rejected_rate_limit_total.wrapping_add(
            1,
        ),
        ..limiter::slot_given_back(s)
    }
}

/// The stats after a connection was turned away for the number of them.
pub open spec fn ip_rejection(s: Stats) -> Stats {
    Stats {
        connections_rejected_ip_limit_total: s.connections_rejected_ip_limit_total.wrapping_add(1),
        ..limiter::slot_given_back(s)
    }
}

/// Decides about a connection for which a slot is held. Unless it is to be
/// served, the slot is given back. The rate is looked at first.
pub fn accept_step(
    slot: ConnectionSlot,
    event: AcceptEvent,
    slots: &mut ConnectionLimiter,
    rates: &mut RateLimiter,
    ips: &mut IpLimiter,
    stats: &mut Stats,
    now: u64,
) -> (res: AcceptAction)
    requires
        old(slots).well_formed(),
        old(ips).well_formed(),
    ensures
        final(slots).well_formed(),
        final(slots).permits() == old(slots).permits(),
        final(slots).live() == (if res is Serve {
            old(slots).live()
        } else {
            limiter::one_less(old(slots).live())
        }),
        final(ips).well_formed(),
        final(ips).limit() == old(ips).limit(),
        final(rates).rate() == old(rates).rate(),
        final(rates).burst() == old(rates).burst(),
        match event {
            AcceptEvent::Failed => {
                &&& res is BackOff
                &&& *final(stats) == limiter::slot_given_back(*old(stats))
                &&& final(ips).counts() == old(ips).counts()
                &&& final(rates).buckets() == old(rates).buckets()
            },
            AcceptEvent::Accepted(peer) => {
                &&& final(rates).buckets() == rate_asked(*old(rates), peer, now)
                &&& if !rate_allows(*old(rates), peer, now) {
                    &&& res is RejectRate
                    &&& final(ips).counts() == old(ips).counts()
                    &&& *final(stats) == rate_rejection(*old(stats))
                } else if !ip_limiter::may_acquire(old(ips).counts(), old(ips).limit(), peer) {
                    &&& res is RejectIpLimit
                    &&& final(ips).counts() == old(ips).counts()
                    &&& *final(stats) == ip_rejection(*old(stats))
                } else {
                    &&& res matches AcceptAction::Serve(kept, ip_slot)
                    &&& kept == slot
                    &&& ip_slot == ip_limiter::slot_for(old(ips).limit(), peer)
                    &&& final(ips).counts() == ip_limiter::acquired(
                        old(ips).counts(),
                        old(ips).limit(),
                        peer,
                    )
                    &&& *final(stats) == *old(stats)
                }
            },
        },
{
    let peer = match event {
        AcceptEvent::Accepted(peer) => peer,
        AcceptEvent::Failed => {
            slots.release(slot, stats);
            return AcceptAction::BackOff;
        },
    };
    if !rates.allow(peer, now) {
        slots.release(slot, stats);
        stats.connections_rejected_rate_limit_total =
            stats.connections_rejected_rate_limit_total.wrapping_add(1);
        return AcceptAction::RejectRate;
    }
    match ips.try_acquire_slot(peer) {
        Some(ip_slot) => AcceptAction::Serve(slot, ip_slot),
        None => {
            slots.release(slot, stats);
            stats.connections_rejected_ip_limit_total =
                stats.connections_rejected_ip_limit_total.wrapping_add(1);
            AcceptAction::RejectIpLimit
        },
    }
}

/// Gives back what a connection held when it ends.
pub fn end_connection(
    slot: ConnectionSlot,
    ip_slot: IpSlot,
    slots: &mut ConnectionLimiter,
    ips: &mut IpLimiter,
    stats: &mut Stats,
)
    requires
        old(slots).well_formed(),
        old(ips).well_formed(),
    ensures
        final(slots).well_formed(),
        final(slots).permits() == old(slots).permits(),
        final(slots).live() == limiter::one_less(old(slots).live()),
        final(ips).well_formed(),
        final(ips).limit() == old(ips).limit(),
        final(ips).counts() == ip_limiter::released(old(ips).counts(), ip_slot),
        *final(stats) == limiter::slot_given_back(*old(stats)),
{
    ips.release(ip_slot);
    slots.release(slot, stats);
}

/// What a shutdown does next.
#[derive(Clone, Copy, Debug, PartialEq, Eq, Structural)]
pub enum DrainStep {
    /// No connection is left.
    Drained,
    /// The grace period is over.
    GraceOver,
    /// Look again after a moment.
    Wait,
}

/// Whether a shutdown goes on waiting for connections to end. `active` is the
/// number of those that are left.
pub fn drain_step(active: i64, now: u64, deadline: u64) -> (res: DrainStep)
    ensures
        res == (if active <= 0 {
            DrainStep::Drained
        } else if now >= deadline {
            DrainStep::GraceOver
        } else {
            DrainStep::Wait
        }),
{
    if active <= 0 {
        DrainStep::Drained
    } else if now >= deadline {
        DrainStep::GraceOver
    } else {
        DrainStep::Wait
    }
}

/// A connection that was served and has ended leaves nothing behind: the
/// counters of its client and the number of occupied slots are what they were
/// before, whether or not the limit applied to the client.
pub proof fn law_ended_connection_leaves_nothing(
    counts: Map<(bool, u128), usize>,
    limit: usize,
    peer: IpAddr,
    s: Stats,
)
    requires
        ip_limiter::no_idle_counter(counts),
        ip_limiter::may_acquire(counts, limit, peer),
    ensures
        ip_limiter::released(
            ip_limiter::acquired(counts, limit, peer),
            ip_limiter::slot_for(limit, peer),
        ) == counts,
        limiter::slot_given_back(limiter::slot_taken(s)) == s,
{
    ip_limiter::law_release_undoes_acquire(counts, limit, peer);
}

/// A connection that is turned away gives back the slot that was taken for it,
/// and is counted once under its reason.
pub proof fn law_turned_away_is_counted_and_frees_its_slot(s: Stats)
    requires
        s.has_room(1),
    ensures
        rate_rejection(limiter::slot_taken(s)) == (Stats {
            connections_rejected_rate_limit_total: (s.connections_rejected_rate_limit_total
                + 1) as u64,
            ..s
        }),
        ip_rejection(limiter::slot_taken(s)) == (Stats {
            connections_rejected_ip_limit_total: (s.connections_rejected_ip_limit_total + 1) as u64,
            ..s
        }),
{
}

/// A client on a loopback address is never turned away, and leaves no trace in
/// either limiter.
pub proof fn law_loopback_is_never_turned_away(
    rates: RateLimiter,
    ips: IpLimiter,
    peer: IpAddr,
    now: u64,
)
    requires
        peer.loopback(),
    ensures
        rate_allows(rates, peer, now),
        rate_asked(rates, peer, now) == rates.buckets(),
        ip_limiter::may_acquire(ips.counts(), ips.limit(), peer),
        ip_limiter::acquired(ips.counts(), ips.limit(), peer) == ips.counts(),
{
}

/// Which connections the rate lets through: all of them without a rate and
/// from a loopback address, and otherwise those for which the bucket of the
/// client has a token. Asking is what takes it.
pub proof fn law_rate_decides(rates: RateLimiter, peer: IpAddr, now: u64)
    ensures
        ({
            let free = rates.rate().digits == 0 || match peer {
            IpAddr::V4(bits) => 0x7f00_0000 <= bits <= 0x7fff_ffff,
            IpAddr::V6(bits) => bits == 1,
        };
            let b = rate_limiter::bucket_for(rates.buckets(), peer.key(), now, rates.burst());
            &&& free ==> rate_allows(rates, peer, now) && rate_asked(rates, peer, now)
                == rates.buckets()
            &&& !free ==> (rate_allows(rates, peer, now) <==> rate_limiter::has_token(
                b,
                now,
                rates.rate(),
                rates.burst(),
            ))
            &&& !free ==> rate_asked(rates, peer, now) == rates.buckets().insert(
                peer.key(),
                rate_limiter::asked(b, now, rates.rate(), rates.burst()),
            )
        }),
{
    rate_limiter::law_only_loopback_escapes_the_rate(rates, peer);
}

/// Turning a connection away counts it under its reason, gives its slot back,
/// and touches nothing else.
pub proof fn law_each_rejection_has_its_counter(s: Stats)
    requires
        s.connections > 0,
        s.connections_rejected_rate_limit_total < u64::MAX,
        s.connections_rejected_ip_limit_total < u64::MAX,
    ensures
        rate_rejection(s) == (Stats {
            connections: (s.connections - 1) as u64,
            connections_rejected_rate_limit_total: (s.connections_rejected_rate_limit_total
                + 1) as u64,
            ..s
        }),
        ip_rejection(s) == (Stats {
            connections: (s.connections - 1) as u64,
            connections_rejected_ip_limit_total: (s.connections_rejected_ip_limit_total + 1) as u64,
            ..s
        }),
{
}

/// The counters of connections that were turned away start over at the end of
/// 64 bits.
pub proof fn law_counters_of_rejections_start_over(s: Stats)
    ensures
        rate_rejection(s).connections_rejected_rate_limit_total as int == (s.connections_rejected_rate_limit_total + 1) % 0x1_0000_0000_0000_0000,
        ip_rejection(s).connections_rejected_ip_limit_total as int == (s.connections_rejected_ip_limit_total + 1) % 0x1_0000_0000_0000_0000,
{
}

} // verus!
