//! Forwarding a connection to the service behind a route.
//!
//! With passthrough the bytes go to the service untouched, the bytes that were
//! read ahead first. Without it TLS is terminated here, and the service gets
//! the plaintext over a connection of its own.
//!
//! Connecting to the service is tried a bounded number of times, with a delay
//! in between that doubles up to a bound.

use crate::buffers;
use crate::metrics::Stats;
use crate::sni::Probe;
use crate::time::Duration;
use bytes::Bytes;
use vstd::arithmetic::power2::{lemma2_to64, lemma_pow2_pos, lemma_pow2_unfold, pow2};
use vstd::prelude::*;

verus! {

/// How connecting to a service is tried again.
#[derive(Clone, Copy, Debug, PartialEq, Eq, Structural)]
pub struct ConnectRetryPolicy {
    /// How long one attempt may take.
    pub attempt_timeout: Duration,
    /// How many attempts there are, the first one counted. Zero is one.
    pub max_attempts: u32,
    /// The delay before the second attempt.
    pub base_delay: Duration,
    /// The longest delay before any attempt.
    pub max_delay: Duration,
}

/// The delay before an attempt, in nanoseconds: nothing before the first, and
/// then the base delay, doubled with each further attempt, up to the bound.
pub open spec fn delay_nanos(policy: ConnectRetryPolicy, attempt: int) -> int {
    if attempt <= 1 {
        0
    } else {
        let grown = policy.base_delay.nanos * pow2((attempt - 2) as nat);
        if grown < policy.max_delay.nanos {
            grown
        } else {
            policy.max_delay.nanos as int
        }
    }
}

/// How many attempts are made at most.
pub open spec fn attempts_allowed(policy: ConnectRetryPolicy) -> u32 {
    if policy.max_attempts == 0 {
        1
    } else {
        policy.max_attempts
    }
}

/// The policy that connections are forwarded with.
pub open spec fn default_policy() -> ConnectRetryPolicy {
    ConnectRetryPolicy {
        attempt_timeout: Duration { nanos: 3_000_000_000 },
        max_attempts: 4,
        base_delay: Duration { nanos: 200_000_000 },
        max_delay: Duration { nanos: 2_000_000_000 },
    }
}

impl Default for ConnectRetryPolicy {
    /// Four attempts of three seconds each, with 200, 400 and 800 milliseconds
    /// in between.
    fn default() -> (res: ConnectRetryPolicy)
        ensures
            res == default_policy(),
    {
        ConnectRetryPolicy {
            attempt_timeout: Duration::from_secs(3),
            max_attempts: 4,
            base_delay: Duration::from_millis(200),
            max_delay: Duration::from_secs(2),
        }
    }
}

/// Doubling once and then `left - 1` times is doubling `left` times.
proof fn lemma_doubling(delay: int, left: nat)
    requires
        delay >= 0,
        left > 0,
    ensures
        delay * pow2(left) == (2 * delay) * pow2((left - 1) as nat),
        delay * pow2(left) >= 2 * delay,
{
    let rest = pow2((left - 1) as nat) as int;
    lemma_pow2_pos((left - 1) as nat);
    lemma_pow2_unfold(left);
    assert(delay * (2 * rest) == (2 * delay) * rest) by (nonlinear_arith);
    assert((2 * delay) * rest >= 2 * delay) by (nonlinear_arith)
        requires
            delay >= 0,
            rest >= 1,
    ;
}

impl ConnectRetryPolicy {
    /// The delay before attempt number `attempt`; the first is number 1.
    pub fn get_delay(&self, attempt: u32) -> (res: Duration)
        ensures
            res.nanos == delay_nanos(*self, attempt as int),
    {
        if attempt <= 1 {
            return Duration::zero();
        }
        let ghost grown = self.base_delay.nanos * pow2((attempt - 2) as nat);
        if self.base_delay.nanos == 0 {
            assert(grown == 0) by (nonlinear_arith)
                requires
                    grown == 0 * pow2((attempt - 2) as nat),
            ;
            return Duration::zero();
        }
        let bound: u128 = self.max_delay.nanos;
        let mut delay: u128 = self.base_delay.nanos;
        let mut left: u32 = attempt - 2;
        while left > 0 && delay < bound
            invariant
                delay * pow2(left as nat) == grown,
                bound == self.max_delay.nanos,
                attempt > 1,
                grown == self.base_delay.nanos * pow2((attempt - 2) as nat),
            decreases left,
        {
            proof {
                lemma_doubling(delay as int, left as nat);
            }
            if delay > bound - delay {
                return self.max_delay;
            }
            delay = delay + delay;
            left = left - 1;
        }
        proof {
            if left > 0 {
                lemma_doubling(delay as int, left as nat);
            } else {
                lemma2_to64();
            }
        }
        if delay < bound {
            Duration { nanos: delay }
        } else {
            self.max_delay
        }
    }
}

// ---------------------------------------------------------------------
// Relaying
// ---------------------------------------------------------------------

/// How far a relay has come.
#[derive(Clone, Copy, Debug, PartialEq, Eq, Structural)]
pub enum Phase {
    Connecting,
    SendingPrefix,
    Copying,
    Over,
}

/// What happened to a relay.
#[derive(Clone, Copy, Debug, PartialEq, Eq, Structural)]
pub enum RelayEvent {
    /// An attempt to connect failed, or took too long.
    ConnectFailed,
    Connected,
    PrefixSent,
    PrefixFailed,
    /// Both sides are done, after so many bytes each way.
    SessionClosed { from_client: u64, from_service: u64 },
    /// One side broke off.
    SessionBroken,
}

/// What is to be done next.
#[derive(Debug, PartialEq, Eq)]
pub enum RelayAction {
    /// Wait, and then try to connect.
    Connect { delay: Duration, timeout: Duration },
    /// Send the bytes that were read ahead.
    SendPrefix(Bytes),
    /// Copy bytes both ways until both sides are done.
    Copy,
    /// All is done.
    Finish,
    /// The service cannot be reached.
    Unreachable,
    /// The bytes that were read ahead could not be sent.
    PrefixLost,
}

/// An action, with the bytes themselves in place of the buffer.
pub ghost enum ActionView {
    Connect { delay: Duration, timeout: Duration },
    SendPrefix(Seq<u8>),
    Copy,
    Finish,
    Unreachable,
    PrefixLost,
}

impl View for RelayAction {
    type V = ActionView;

    open spec fn view(&self) -> ActionView {
        match *self {
            RelayAction::Connect { delay, timeout } => ActionView::Connect { delay, timeout },
            RelayAction::SendPrefix(prefix) => ActionView::SendPrefix(
                buffers::shared_bytes(prefix),
            ),
            RelayAction::Copy => ActionView::Copy,
            RelayAction::Finish => ActionView::Finish,
            RelayAction::Unreachable => ActionView::Unreachable,
            RelayAction::PrefixLost => ActionView::PrefixLost,
        }
    }
}

/// One connection that is being forwarded to a service.
#[derive(Debug)]
pub struct Relay {
    pub policy: ConnectRetryPolicy,
    /// The bytes that were read ahead and are to be sent first.
    pub prefix: Bytes,
    pub phase: Phase,
    /// The number of the attempt to connect.
    pub attempt: u32,
}

/// A relay, with the bytes themselves in place of the buffer.
pub ghost struct RelayView {
    pub policy: ConnectRetryPolicy,
    pub prefix: Seq<u8>,
    pub phase: Phase,
    pub attempt: u32,
}

impl View for Relay {
    type V = RelayView;

    open spec fn view(&self) -> RelayView {
        RelayView {
            policy: self.policy,
            prefix: buffers::shared_bytes(self.prefix),
            phase: self.phase,
            attempt: self.attempt,
        }
    }
}

/// A relay that is about to connect for the first time.
pub open spec fn starting(policy: ConnectRetryPolicy, prefix: Seq<u8>) -> RelayView {
    RelayView { policy, prefix, phase: Phase::Connecting, attempt: 1 }
}

/// Whether an event can happen to a relay.
pub open spec fn expected(relay: RelayView, event: RelayEvent) -> bool {
    match event {
        RelayEvent::ConnectFailed | RelayEvent::Connected => relay.phase == Phase::Connecting,
        RelayEvent::PrefixSent | RelayEvent::PrefixFailed => relay.phase == Phase::SendingPrefix,
        RelayEvent::SessionClosed { .. } | RelayEvent::SessionBroken => relay.phase
            == Phase::Copying,
    }
}

/// The relay after an event.
pub open spec fn relay_after(relay: RelayView, event: RelayEvent) -> RelayView {
    match event {
        RelayEvent::ConnectFailed => if relay.attempt < attempts_allowed(relay.policy) {
            RelayView { attempt: (relay.attempt + 1) as u32, ..relay }
        } else {
            RelayView { phase: Phase::Over, ..relay }
        },
        RelayEvent::Connected => if relay.prefix.len() > 0 {
            RelayView { phase: Phase::SendingPrefix, ..relay }
        } else {
            RelayView { phase: Phase::Copying, ..relay }
        },
        RelayEvent::PrefixSent => RelayView { phase: Phase::Copying, ..relay },
        _ => RelayView { phase: Phase::Over, ..relay },
    }
}

/// What is to be done after an event.
pub open spec fn relay_action(relay: RelayView, event: RelayEvent) -> ActionView {
    match event {
        RelayEvent::ConnectFailed => if relay.attempt < attempts_allowed(relay.policy) {
            ActionView::Connect {
                delay: Duration { nanos: delay_nanos(relay.policy, relay.attempt + 1) as u128 },
                timeout: relay.policy.attempt_timeout,
            }
        } else {
            ActionView::Unreachable
        },
        RelayEvent::Connected => if relay.prefix.len() > 0 {
            ActionView::SendPrefix(relay.prefix)
        } else {
            ActionView::Copy
        },
        RelayEvent::PrefixSent => ActionView::Copy,
        RelayEvent::PrefixFailed => ActionView::PrefixLost,
        RelayEvent::SessionClosed { .. } | RelayEvent::SessionBroken => ActionView::Finish,
    }
}

/// The stats after an event. A failed attempt counts as a retry if another
/// follows, and the last one as a failure.
pub open spec fn relay_stats(relay: RelayView, event: RelayEvent, s: Stats) -> Stats {
    match event {
        RelayEvent::ConnectFailed => if relay.attempt < attempts_allowed(relay.policy) {
            Stats {
                proxy_service_connect_retries_total:
                    s.proxy_service_connect_retries_total.wrapping_add(1),
                ..s
            }
        } else {
            Stats {
                proxy_service_connect_failures_total:
                    s.proxy_service_connect_failures_total.wrapping_add(1),
                ..s
            }
        },
        RelayEvent::PrefixSent => Stats {
            proxy_bytes_client_to_service_total: s.proxy_bytes_client_to_service_total.wrapping_add(
                relay.prefix.len() as u64,
            ),
            ..s
        },
        RelayEvent::SessionClosed { from_client, from_service } => Stats {
            proxy_bytes_client_to_service_total: s.proxy_bytes_client_to_service_total.wrapping_add(
                from_client,
            ),
            proxy_bytes_service_to_client_total: s.proxy_bytes_service_to_client_total.wrapping_add(
                from_service,
            ),
            ..s
        },
        _ => s,
    }
}

impl Relay {
    /// A relay, and the first thing to be done: to connect, without delay.
    pub fn new(policy: ConnectRetryPolicy, prefix: Bytes) -> (res: (Relay, RelayAction))
        ensures
            res.0@ == starting(policy, buffers::shared_bytes(prefix)),
            res.1@ == (ActionView::Connect {
                delay: Duration { nanos: 0 },
                timeout: policy.attempt_timeout,
            }),
    {
        (
            Relay { policy, prefix, phase: Phase::Connecting, attempt: 1 },
            RelayAction::Connect { delay: policy.get_delay(1), timeout: policy.attempt_timeout },
        )
    }

    /// Takes in what happened, and says what is to be done next.
    pub fn step(&mut self, event: RelayEvent, stats: &mut Stats) -> (res: RelayAction)
        requires
            expected(old(self)@, event),
        ensures
            final(self)@ == relay_after(old(self)@, event),
            res@ == relay_action(old(self)@, event),
            *final(stats) == relay_stats(old(self)@, event, *old(stats)),
    {
        match event {
            RelayEvent::ConnectFailed => {
                let allowed: u32 = if self.policy.max_attempts == 0 {
                    1
                } else {
                    self.policy.max_attempts
                };
                if self.attempt < allowed {
                    stats.proxy_service_connect_retries_total =
                        stats.proxy_service_connect_retries_total.wrapping_add(1);
                    self.attempt = self.attempt + 1;
                    RelayAction::Connect {
                        delay: self.policy.get_delay(self.attempt),
                        timeout: self.policy.attempt_timeout,
                    }
                } else {
                    stats.proxy_service_connect_failures_total =
                        stats.proxy_service_connect_failures_total.wrapping_add(1);
                    self.phase = Phase::Over;
                    RelayAction::Unreachable
                }
            },
            RelayEvent::Connected => {
                if buffers::shared_slice(&self.prefix).len() > 0 {
                    self.phase = Phase::SendingPrefix;
                    RelayAction::SendPrefix(buffers::shared_clone(&self.prefix))
                } else {
                    self.phase = Phase::Copying;
                    RelayAction::Copy
                }
            },
            RelayEvent::PrefixSent => {
                let len: usize = buffers::shared_slice(&self.prefix).len();
                stats.proxy_bytes_client_to_service_total =
                    stats.proxy_bytes_client_to_service_total.wrapping_add(len as u64);
                self.phase = Phase::Copying;
                RelayAction::Copy
            },
            RelayEvent::PrefixFailed => {
                self.phase = Phase::Over;
                RelayAction::PrefixLost
            },
            RelayEvent::SessionClosed { from_client, from_service } => {
                stats.proxy_bytes_client_to_service_total =
                    stats.proxy_bytes_client_to_service_total.wrapping_add(from_client);
                stats.proxy_bytes_service_to_client_total =
                    stats.proxy_bytes_service_to_client_total.wrapping_add(from_service);
                self.phase = Phase::Over;
                RelayAction::Finish
            },
            RelayEvent::SessionBroken => {
                self.phase = Phase::Over;
                RelayAction::Finish
            },
        }
    }
}

/// Forwards a connection untouched, the bytes that were read ahead first.
pub fn proxy(prefix: &Bytes) -> (res: (Relay, RelayAction))
    ensures
        res.0@ == starting(default_policy(), buffers::shared_bytes(*prefix)),
        res.1@ == (ActionView::Connect {
            delay: Duration { nanos: 0 },
            timeout: default_policy().attempt_timeout,
        }),
{
    Relay::new(ConnectRetryPolicy::default(), buffers::shared_clone(prefix))
}

/// How a TLS handshake ended.
#[derive(Clone, Copy, Debug, PartialEq, Eq, Structural)]
pub enum Handshake {
    Completed,
    Failed,
    TimedOut,
}

/// The stats after a handshake on a route without passthrough.
pub open spec fn proxy_handshake_stats(handshake: Handshake, s: Stats) -> Stats {
    if handshake == Handshake::Completed {
        Stats {
            proxy_tls_handshake_success_total: s.proxy_tls_handshake_success_total.wrapping_add(1),
            ..s
        }
    } else {
        Stats {
            proxy_tls_handshake_failure_total: s.proxy_tls_handshake_failure_total.wrapping_add(1),
            ..s
        }
    }
}

/// Forwards the plaintext of a connection whose TLS is terminated here. The
/// bytes that were read ahead have gone into the handshake, so there are none
/// to send first. A handshake that did not complete ends the connection.
pub fn proxy_with_tls_termination(handshake: Handshake, stats: &mut Stats) -> (res: Option<
    (Relay, RelayAction),
>)
    ensures
        *final(stats) == proxy_handshake_stats(handshake, *old(stats)),
        res is Some <==> handshake == Handshake::Completed,
        res matches Some(relay) ==> {
            &&& relay.0@ == starting(default_policy(), Seq::<u8>::empty())
            &&& relay.1@ == (ActionView::Connect {
                delay: Duration { nanos: 0 },
                timeout: default_policy().attempt_timeout,
            })
        },
{
    match handshake {
        Handshake::Completed => {
            stats.proxy_tls_handshake_success_total =
                stats.proxy_tls_handshake_success_total.wrapping_add(1);
            let prefix = buffers::shared_from_vec(Vec::new());
            Some(Relay::new(ConnectRetryPolicy::default(), prefix))
        },
        Handshake::Failed | Handshake::TimedOut => {
            stats.proxy_tls_handshake_failure_total =
                stats.proxy_tls_handshake_failure_total.wrapping_add(1);
            None
        },
    }
}

// ---------------------------------------------------------------------
// Laws
// ---------------------------------------------------------------------

/// No delay is longer than the bound, and no delay but the first is shorter
/// than the one before.
pub proof fn law_delays_grow_up_to_the_bound(policy: ConnectRetryPolicy, attempt: int)
    requires
        attempt >= 1,
    ensures
        0 <= delay_nanos(policy, attempt) <= policy.max_delay.nanos,
        delay_nanos(policy, attempt) <= delay_nanos(policy, attempt + 1),
{
    let base = policy.base_delay.nanos as int;
    let doublings = if attempt >= 2 {
        (attempt - 2) as nat
    } else {
        0
    };
    lemma_pow2_pos(doublings);
    let factor = pow2(doublings) as int;
    assert(0 <= base * factor) by (nonlinear_arith)
        requires
            0 <= factor,
            0 <= base,
    ;
    if attempt >= 2 {
        lemma_pow2_unfold((attempt - 1) as nat);
        assert(base * (2 * factor) == 2 * (base * factor)) by (nonlinear_arith);
    }
}

/// Each delay is twice the one before, or the bound where twice the one before
/// would pass it.
pub proof fn law_delays_double(policy: ConnectRetryPolicy, attempt: int)
    requires
        attempt >= 2,
    ensures
        delay_nanos(policy, attempt + 1) == (if 2 * delay_nanos(policy, attempt)
            < policy.max_delay.nanos {
            2 * delay_nanos(policy, attempt)
        } else {
            policy.max_delay.nanos as int
        }),
{
    let base = policy.base_delay.nanos as int;
    let factor = pow2((attempt - 2) as nat) as int;
    lemma_pow2_unfold((attempt - 1) as nat);
    assert(base * (2 * factor) == 2 * (base * factor)) by (nonlinear_arith);
    assert(0 <= base * factor) by (nonlinear_arith)
        requires
            0 <= factor,
            0 <= base,
    ;
}

/// The longest that connecting can take, in nanoseconds, from an attempt on:
/// each attempt with the delay before it.
pub open spec fn longest_wait(policy: ConnectRetryPolicy, attempt: int) -> int
    decreases attempts_allowed(policy) + 1 - attempt,
{
    if attempt > attempts_allowed(policy) {
        0
    } else {
        delay_nanos(policy, attempt) + policy.attempt_timeout.nanos + longest_wait(
            policy,
            attempt + 1,
        )
    }
}

/// Connecting to a service that does not answer is over in bounded time.
pub proof fn law_connecting_is_bounded(policy: ConnectRetryPolicy, attempt: int)
    requires
        1 <= attempt <= attempts_allowed(policy) + 1,
    ensures
        longest_wait(policy, attempt) <= (attempts_allowed(policy) + 1 - attempt) * (
        policy.max_delay.nanos + policy.attempt_timeout.nanos),
    decreases attempts_allowed(policy) + 1 - attempt,
{
    let each = policy.max_delay.nanos + policy.attempt_timeout.nanos;
    let left = attempts_allowed(policy) + 1 - attempt;
    if attempt <= attempts_allowed(policy) {
        law_connecting_is_bounded(policy, attempt + 1);
        law_delays_grow_up_to_the_bound(policy, attempt);
        assert(left * each == (left - 1) * each + each) by (nonlinear_arith);
    } else {
        assert(0 * each == 0) by (nonlinear_arith);
    }
}

/// With the policy that connections are forwarded with, a service that does
/// not answer is given up after at most 13.4 seconds.
pub proof fn law_default_policy_gives_up_in_time()
    ensures
        longest_wait(default_policy(), 1) == 13_400_000_000,
{
    lemma2_to64();
    reveal_with_fuel(longest_wait, 5);
}

/// The relay and the stats after so many failed attempts to connect.
pub open spec fn after_failures(relay: RelayView, s: Stats, n: int) -> (RelayView, Stats)
    decreases n,
{
    if n <= 0 {
        (relay, s)
    } else {
        let before = after_failures(relay, s, n - 1);
        (
            relay_after(before.0, RelayEvent::ConnectFailed),
            relay_stats(before.0, RelayEvent::ConnectFailed, before.1),
        )
    }
}

/// A service that never answers is given up after exactly the attempts that
/// the policy allows. All but the last count as retries, and the last as one
/// failure.
pub proof fn law_dead_service_is_given_up(policy: ConnectRetryPolicy, prefix: Seq<u8>, s: Stats)
    requires
        s.has_room(attempts_allowed(policy) as int),
    ensures
        ({
            let allowed = attempts_allowed(policy) as int;
            let last = after_failures(starting(policy, prefix), s, allowed - 1);
            let end = after_failures(starting(policy, prefix), s, allowed);
            &&& last.0.phase == Phase::Connecting
            &&& last.0.attempt == allowed
            &&& relay_action(last.0, RelayEvent::ConnectFailed) == ActionView::Unreachable
            &&& end.0.phase == Phase::Over
            &&& end.1 == (Stats {
                proxy_service_connect_retries_total: (s.proxy_service_connect_retries_total
                    + allowed - 1) as u64,
                proxy_service_connect_failures_total: (s.proxy_service_connect_failures_total
                    + 1) as u64,
                ..s
            })
        }),
{
    lemma_failures_so_far(policy, prefix, s, attempts_allowed(policy) - 1);
}

proof fn lemma_failures_so_far(policy: ConnectRetryPolicy, prefix: Seq<u8>, s: Stats, n: int)
    requires
        0 <= n < attempts_allowed(policy),
        s.has_room(attempts_allowed(policy) as int),
    ensures
        after_failures(starting(policy, prefix), s, n) == (
            RelayView { attempt: (n + 1) as u32, ..starting(policy, prefix) },
            Stats {
                proxy_service_connect_retries_total: (s.proxy_service_connect_retries_total
                    + n) as u64,
                ..s
            },
        ),
    decreases n,
{
    if n > 0 {
        lemma_failures_so_far(policy, prefix, s, n - 1);
    }
}

/// Once the service has answered, the bytes that were read ahead go first, if
/// there are any, and every byte is counted: those, and what the session
/// carried each way.
pub proof fn law_session_sends_and_counts_every_byte(
    relay: RelayView,
    from_client: u64,
    from_service: u64,
    s: Stats,
)
    requires
        relay.phase == Phase::Connecting,
        s.proxy_bytes_client_to_service_total + relay.prefix.len() + from_client <= u64::MAX,
        s.proxy_bytes_service_to_client_total + from_service <= u64::MAX,
    ensures
        ({
            let closed = RelayEvent::SessionClosed { from_client, from_service };
            let connected = relay_after(relay, RelayEvent::Connected);
            let ready = if relay.prefix.len() > 0 {
                relay_after(connected, RelayEvent::PrefixSent)
            } else {
                connected
            };
            let sent = if relay.prefix.len() > 0 {
                relay_stats(connected, RelayEvent::PrefixSent, s)
            } else {
                s
            };
            let end = relay_stats(ready, closed, sent);
            &&& relay.prefix.len() > 0 ==> relay_action(relay, RelayEvent::Connected)
                == ActionView::SendPrefix(relay.prefix) && relay_action(connected, RelayEvent::PrefixSent)
                == ActionView::Copy
            &&& relay.prefix.len() == 0 ==> relay_action(relay, RelayEvent::Connected)
                == ActionView::Copy
            &&& expected(ready, closed)
            &&& end.proxy_bytes_client_to_service_total == s.proxy_bytes_client_to_service_total
                + relay.prefix.len() + from_client
            &&& end.proxy_bytes_service_to_client_total == s.proxy_bytes_service_to_client_total
                + from_service
        }),
{
}

/// The bytes that an action gives the service, if `session` is what the client
/// sends from then on.
pub open spec fn carried(action: ActionView, session: Seq<u8>) -> Seq<u8> {
    match action {
        ActionView::SendPrefix(prefix) => prefix,
        ActionView::Copy => session,
        _ => Seq::empty(),
    }
}

/// All that the service gets once it has answered, if `session` is what the
/// client sends from then on and nothing breaks.
pub open spec fn to_service(relay: RelayView, session: Seq<u8>) -> Seq<u8> {
    let first = relay_action(relay, RelayEvent::Connected);
    if first is SendPrefix {
        let connected = relay_after(relay, RelayEvent::Connected);
        carried(first, session) + carried(
            relay_action(connected, RelayEvent::PrefixSent),
            session,
        )
    } else {
        carried(first, session)
    }
}

/// A connection that is forwarded untouched reaches the service in full and in
/// order: what was read from the client to find its server name, and then what
/// the client sends.
pub proof fn law_service_gets_what_the_client_sent(
    probe: Probe,
    prefix: Bytes,
    session: Seq<u8>,
    policy: ConnectRetryPolicy,
)
    requires
        buffers::shared_bytes(prefix) == probe.gathered(),
    ensures
        to_service(starting(policy, buffers::shared_bytes(prefix)), session) == probe.gathered()
            + session,
{
    if probe.gathered().len() == 0 {
        assert(probe.gathered() + session =~= session);
    }
}

/// Nothing that happens to a relay or to its handshake lowers a counter.
pub proof fn law_relaying_grows_counters(
    relay: RelayView,
    event: RelayEvent,
    handshake: Handshake,
    s: Stats,
)
    requires
        s.has_room(1),
        event is PrefixSent ==> s.has_room(relay.prefix.len() as int),
        event matches RelayEvent::SessionClosed { from_client, from_service } ==> s.has_room(
            from_client as int,
        ) && s.has_room(from_service as int),
    ensures
        s.grown_to(relay_stats(relay, event, s)),
        s.grown_to(proxy_handshake_stats(handshake, s)),
{
}

/// There is no delay before the first attempt, and the base delay before the
/// second, up to the bound.
pub proof fn law_first_delays(policy: ConnectRetryPolicy)
    ensures
        delay_nanos(policy, 1) == 0,
        delay_nanos(policy, 2) == (if policy.base_delay.nanos < policy.max_delay.nanos {
            policy.base_delay.nanos as int
        } else {
            policy.max_delay.nanos as int
        }),
        policy.max_attempts == 0 ==> attempts_allowed(policy) == 1,
        policy.max_attempts > 0 ==> attempts_allowed(policy) == policy.max_attempts,
{
    lemma2_to64();
    let base = policy.base_delay.nanos as int;
    assert(pow2((2 - 2) as nat) == 1);
    assert(base * 1 == base) by (nonlinear_arith);
}

/// The policy that connections are forwarded with: four attempts of three
/// seconds each, with delays from 200 milliseconds up to two seconds.
pub proof fn law_default_policy()
    ensures
        default_policy().attempt_timeout.nanos == 3_000_000_000,
        default_policy().max_attempts == 4,
        default_policy().base_delay.nanos == 200_000_000,
        default_policy().max_delay.nanos == 2_000_000_000,
{
}

/// What follows each thing that can happen to a relay. A failed attempt is
/// followed by another as long as the policy allows, and each is counted; the
/// bytes that were read ahead are sent before anything is copied; and only
/// what was carried over is counted.
pub proof fn law_steps_of_a_relay(
    relay: RelayView,
    from_client: u64,
    from_service: u64,
    s: Stats,
)
    requires
        s.proxy_service_connect_retries_total < u64::MAX,
        s.proxy_service_connect_failures_total < u64::MAX,
        relay.prefix.len() <= u64::MAX,
        s.proxy_bytes_client_to_service_total + relay.prefix.len() <= u64::MAX,
        s.proxy_bytes_client_to_service_total + from_client <= u64::MAX,
        s.proxy_bytes_service_to_client_total + from_service <= u64::MAX,
    ensures
        ({
            let again = relay.attempt < (if relay.policy.max_attempts == 0 {
                1
            } else {
                relay.policy.max_attempts
            });
            let failed = RelayEvent::ConnectFailed;
            let closed = RelayEvent::SessionClosed { from_client, from_service };
            let over = RelayView { phase: Phase::Over, ..relay };
            let copying = RelayView { phase: Phase::Copying, ..relay };
            &&& again ==> {
                &&& relay_after(relay, failed) == (RelayView {
                    attempt: (relay.attempt + 1) as u32,
                    ..relay
                })
                &&& relay_action(relay, failed) == (ActionView::Connect {
                    delay: Duration { nanos: delay_nanos(relay.policy, relay.attempt + 1) as u128 },
                    timeout: relay.policy.attempt_timeout,
                })
                &&& relay_stats(relay, failed, s) == (Stats {
                    proxy_service_connect_retries_total: (s.proxy_service_connect_retries_total
                        + 1) as u64,
                    ..s
                })
            }
            &&& !again ==> {
                &&& relay_after(relay, failed) == over
                &&& relay_action(relay, failed) is Unreachable
                &&& relay_stats(relay, failed, s) == (Stats {
                    proxy_service_connect_failures_total: (s.proxy_service_connect_failures_total
                        + 1) as u64,
                    ..s
                })
            }
            &&& relay.prefix.len() > 0 ==> {
                &&& relay_after(relay, RelayEvent::Connected) == (RelayView {
                    phase: Phase::SendingPrefix,
                    ..relay
                })
                &&& relay_action(relay, RelayEvent::Connected) == ActionView::SendPrefix(
                    relay.prefix,
                )
            }
            &&& relay.prefix.len() == 0 ==> {
                &&& relay_after(relay, RelayEvent::Connected) == copying
                &&& relay_action(relay, RelayEvent::Connected) is Copy
            }
            &&& relay_stats(relay, RelayEvent::Connected, s) == s
            &&& relay_after(relay, RelayEvent::PrefixSent) == copying
            &&& relay_action(relay, RelayEvent::PrefixSent) is Copy
            &&& relay_stats(relay, RelayEvent::PrefixSent, s) == (Stats {
                proxy_bytes_client_to_service_total: (s.proxy_bytes_client_to_service_total
                    + relay.prefix.len()) as u64,
                ..s
            })
            &&& relay_after(relay, RelayEvent::PrefixFailed) == over
            &&& relay_action(relay, RelayEvent::PrefixFailed) is PrefixLost
            &&& relay_stats(relay, RelayEvent::PrefixFailed, s) == s
            &&& relay_after(relay, closed) == over
            &&& relay_action(relay, closed) is Finish
            &&& relay_stats(relay, closed, s) == (Stats {
                proxy_bytes_client_to_service_total: (s.proxy_bytes_client_to_service_total
                    + from_client) as u64,
                proxy_bytes_service_to_client_total: (s.proxy_bytes_service_to_client_total
                    + from_service) as u64,
                ..s
            })
            &&& relay_after(relay, RelayEvent::SessionBroken) == over
            &&& relay_action(relay, RelayEvent::SessionBroken) is Finish
            &&& relay_stats(relay, RelayEvent::SessionBroken, s) == s
        }),
{
}

/// A relay starts out connecting for the first time, with its policy and the
/// bytes that were read ahead, and what can happen to it goes by its phase.
pub proof fn law_relays_start_by_connecting(
    policy: ConnectRetryPolicy,
    prefix: Seq<u8>,
    relay: RelayView,
    event: RelayEvent,
)
    ensures
        starting(policy, prefix) == (RelayView {
            policy,
            prefix,
            phase: Phase::Connecting,
            attempt: 1,
        }),
        expected(relay, event) <==> match event {
            RelayEvent::ConnectFailed | RelayEvent::Connected => relay.phase is Connecting,
            RelayEvent::PrefixSent | RelayEvent::PrefixFailed => relay.phase is SendingPrefix,
            RelayEvent::SessionClosed { .. } | RelayEvent::SessionBroken => relay.phase is Copying,
        },
{
}

/// A handshake on a route that terminates TLS counts once, as a success
/// exactly if it completed, and moves nothing else.
pub proof fn law_terminated_handshakes_are_counted(handshake: Handshake, s: Stats)
    requires
        s.proxy_tls_handshake_success_total < u64::MAX,
        s.proxy_tls_handshake_failure_total < u64::MAX,
    ensures
        handshake is Completed ==> proxy_handshake_stats(handshake, s) == (Stats {
            proxy_tls_handshake_success_total: (s.proxy_tls_handshake_success_total + 1) as u64,
            ..s
        }),
        !(handshake is Completed) ==> proxy_handshake_stats(handshake, s) == (Stats {
            proxy_tls_handshake_failure_total: (s.proxy_tls_handshake_failure_total + 1) as u64,
            ..s
        }),
{
}

/// The views of a relay and of its actions show what they are.
pub proof fn law_relays_are_shown_as_they_are(relay: Relay, action: RelayAction)
    ensures
        relay@.policy == relay.policy,
        relay@.prefix == buffers::shared_bytes(relay.prefix),
        relay@.phase == relay.phase,
        relay@.attempt == relay.attempt,
        action matches RelayAction::Connect { delay, timeout } ==> action@ == (ActionView::Connect {
            delay,
            timeout,
        }),
        action matches RelayAction::SendPrefix(bytes) ==> action@ == ActionView::SendPrefix(
            buffers::shared_bytes(bytes),
        ),
        action is Copy <==> action@ is Copy,
        action is Finish <==> action@ is Finish,
        action is Unreachable <==> action@ is Unreachable,
        action is PrefixLost <==> action@ is PrefixLost,
{
}

/// The counters of forwarding start over at the end of 64 bits.
pub proof fn law_counters_of_forwarding_start_over(
    relay: RelayView,
    from_client: u64,
    from_service: u64,
    s: Stats,
)
    requires
        relay.prefix.len() <= u64::MAX,
    ensures
        ({
            let failed = relay_stats(relay, RelayEvent::ConnectFailed, s);
            let closed = relay_stats(
                relay,
                RelayEvent::SessionClosed { from_client, from_service },
                s,
            );
            let again = relay.attempt < (if relay.policy.max_attempts == 0 {
                1
            } else {
                relay.policy.max_attempts
            });
            &&& again ==> failed.proxy_service_connect_retries_total as int == (
            s.proxy_service_connect_retries_total + 1) % 0x1_0000_0000_0000_0000
            &&& !again ==> failed.proxy_service_connect_failures_total as int == (
            s.proxy_service_connect_failures_total + 1) % 0x1_0000_0000_0000_0000
            &&& relay_stats(
                relay,
                RelayEvent::PrefixSent,
                s,
            ).proxy_bytes_client_to_service_total as int == (s.proxy_bytes_client_to_service_total
                + relay.prefix.len()) % 0x1_0000_0000_0000_0000
            &&& closed.proxy_bytes_client_to_service_total as int == (
            s.proxy_bytes_client_to_service_total + from_client) % 0x1_0000_0000_0000_0000
            &&& closed.proxy_bytes_service_to_client_total as int == (
            s.proxy_bytes_service_to_client_total + from_service) % 0x1_0000_0000_0000_0000
        }),
        proxy_handshake_stats(Handshake::Completed, s).proxy_tls_handshake_success_total as int == (s.proxy_tls_handshake_success_total + 1) % 0x1_0000_0000_0000_0000,
        proxy_handshake_stats(Handshake::Failed, s).proxy_tls_handshake_failure_total as int == (s.proxy_tls_handshake_failure_total + 1) % 0x1_0000_0000_0000_0000,
        proxy_handshake_stats(Handshake::TimedOut, s).proxy_tls_handshake_failure_total as int == (s.proxy_tls_handshake_failure_total + 1) % 0x1_0000_0000_0000_0000,
{
}

} // verus!
