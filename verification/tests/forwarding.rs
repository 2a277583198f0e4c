//! Forwarding connections to services.

use bytes::Bytes;
use reprox::metrics::Stats;
use reprox::prefixed_stream::PrefixedStream;
use reprox::route::proxy::{
    proxy, proxy_with_tls_termination, ConnectRetryPolicy, Handshake, Phase, Relay, RelayAction,
    RelayEvent,
};
use reprox::time::Duration;

fn test_policy() -> ConnectRetryPolicy {
    ConnectRetryPolicy {
        attempt_timeout: Duration::from_millis(200),
        max_attempts: 4,
        base_delay: Duration::from_millis(1),
        max_delay: Duration::from_millis(4),
    }
}

/// Drives a relay until it has connected or given up; `attempt` says whether
/// an attempt succeeds. Gives the number of the attempt that succeeded, or
/// nothing, and how many attempts were made.
fn drive<F: FnMut(u32) -> bool>(
    policy: ConnectRetryPolicy,
    stats: &mut Stats,
    mut attempt: F,
) -> (Option<u32>, u32) {
    let (mut relay, mut action) = Relay::new(policy, Bytes::new());
    let mut made = 0;
    loop {
        match action {
            RelayAction::Connect { delay, timeout } => {
                assert_eq!(delay, policy.get_delay(relay.attempt));
                assert_eq!(timeout, policy.attempt_timeout);
                made += 1;
                if attempt(relay.attempt) {
                    let number = relay.attempt;
                    assert_eq!(relay.step(RelayEvent::Connected, stats), RelayAction::Copy);
                    return (Some(number), made);
                }
                action = relay.step(RelayEvent::ConnectFailed, stats);
            }
            RelayAction::Unreachable => return (None, made),
            other => panic!("unexpected {other:?}"),
        }
    }
}

#[test]
fn get_delay_first_attempt_is_zero() {
    assert_eq!(ConnectRetryPolicy::default().get_delay(1), Duration::zero());
}

#[test]
fn get_delay_doubles_each_attempt() {
    let policy = ConnectRetryPolicy {
        attempt_timeout: Duration::from_secs(1),
        max_attempts: 6,
        base_delay: Duration::from_millis(100),
        max_delay: Duration::from_secs(10),
    };
    assert_eq!(policy.get_delay(2), Duration::from_millis(100));
    assert_eq!(policy.get_delay(3), Duration::from_millis(200));
    assert_eq!(policy.get_delay(4), Duration::from_millis(400));
    assert_eq!(policy.get_delay(5), Duration::from_millis(800));
}

#[test]
fn get_delay_is_capped_at_max_delay() {
    let policy = ConnectRetryPolicy {
        attempt_timeout: Duration::from_secs(1),
        max_attempts: 20,
        base_delay: Duration::from_millis(100),
        max_delay: Duration::from_secs(2),
    };
    // Uncapped this would be 100ms * 2^12, about 409.6s.
    assert_eq!(policy.get_delay(14), Duration::from_secs(2));
    assert_eq!(policy.get_delay(20), Duration::from_secs(2));
}

#[test]
fn get_delay_never_panics_on_extreme_attempt_numbers() {
    let policy = ConnectRetryPolicy {
        attempt_timeout: Duration::from_millis(1),
        max_attempts: u32::MAX,
        base_delay: Duration::from_millis(1),
        max_delay: Duration::from_millis(5),
    };
    assert_eq!(policy.get_delay(u32::MAX), Duration::from_millis(5));
}

#[test]
fn delays_with_huge_lengths_stay_at_the_bound() {
    let policy = ConnectRetryPolicy {
        attempt_timeout: Duration::from_secs(1),
        max_attempts: 40,
        base_delay: Duration { nanos: u128::MAX / 2 },
        max_delay: Duration { nanos: u128::MAX - 1 },
    };
    assert_eq!(policy.get_delay(2).nanos, u128::MAX / 2);
    assert_eq!(policy.get_delay(3).nanos, u128::MAX - 1);
    assert_eq!(policy.get_delay(4).nanos, u128::MAX - 1);
    let slow = ConnectRetryPolicy { base_delay: Duration { nanos: 1 }, ..policy };
    assert_eq!(slow.get_delay(33).nanos, 1 << 31);
    assert_eq!(slow.get_delay(34).nanos, 1 << 32);
    assert_eq!(slow.get_delay(35).nanos, 1 << 33);
    assert_eq!(slow.get_delay(129).nanos, 1 << 127);
    assert_eq!(slow.get_delay(130).nanos, u128::MAX - 1);
    let bounded = ConnectRetryPolicy { max_delay: Duration::from_secs(100), ..slow };
    assert_eq!(bounded.get_delay(38), Duration { nanos: 1 << 36 });
    assert_eq!(bounded.get_delay(39), Duration::from_secs(100));
    assert_eq!(bounded.get_delay(40), Duration::from_secs(100));
    let none = ConnectRetryPolicy { base_delay: Duration::zero(), ..policy };
    assert!(none.get_delay(u32::MAX).is_zero());
}

#[test]
fn the_default_policy_waits_as_documented() {
    let policy = ConnectRetryPolicy::default();
    assert_eq!(policy.max_attempts, 4);
    assert_eq!(policy.attempt_timeout, Duration::from_secs(3));
    assert_eq!(policy.get_delay(2), Duration::from_millis(200));
    assert_eq!(policy.get_delay(3), Duration::from_millis(400));
    assert_eq!(policy.get_delay(4), Duration::from_millis(800));
    assert!(policy.get_delay(1).is_zero());
    assert!(!policy.get_delay(2).is_zero());
}

#[test]
fn a_dead_service_is_given_up_in_bounded_time() {
    let policy = ConnectRetryPolicy::default();
    let mut longest = 0;
    for attempt in 1..=policy.max_attempts {
        longest += policy.get_delay(attempt).nanos + policy.attempt_timeout.nanos;
    }
    assert_eq!(Duration { nanos: longest }, Duration::from_millis(13_400));
}

#[test]
fn retry_with_backoff_returns_first_success_without_retrying() {
    let mut stats = Stats::new(0);
    let mut calls = 0;
    let result = drive(test_policy(), &mut stats, |_attempt| {
        calls += 1;
        true
    });
    assert_eq!(result, (Some(1), 1));
    assert_eq!(calls, 1);
}

#[test]
fn retry_with_backoff_retries_until_success() {
    let mut stats = Stats::new(0);
    let result = drive(test_policy(), &mut stats, |attempt| attempt >= 3);
    assert_eq!(result, (Some(3), 3));
    assert_eq!(stats.proxy_service_connect_retries_total, 2);
}

#[test]
fn retry_with_backoff_gives_up_after_max_attempts() {
    let mut stats = Stats::new(0);
    let result = drive(test_policy(), &mut stats, |_attempt| false);
    assert_eq!(result, (None, 4));
}

#[test]
fn connect_with_backoff_succeeds_on_the_first_attempt() {
    let mut stats = Stats::new(0);
    let result = drive(test_policy(), &mut stats, |_attempt| true);
    assert!(result.0.is_some());
    assert_eq!(
        stats.proxy_service_connect_retries_total, 0,
        "a first-try success must not be counted as a retry"
    );
}

#[test]
fn connect_with_backoff_gives_up_and_counts_retries_on_a_dead_port() {
    let mut stats = Stats::new(0);
    let result = drive(test_policy(), &mut stats, |_attempt| false);
    assert!(result.0.is_none());
    assert_eq!(stats.proxy_service_connect_retries_total, 3);
    assert_eq!(stats.proxy_service_connect_failures_total, 1);
}

#[test]
fn zero_attempts_are_one() {
    let mut stats = Stats::new(0);
    let policy = ConnectRetryPolicy { max_attempts: 0, ..test_policy() };
    assert_eq!(drive(policy, &mut stats, |_attempt| false), (None, 1));
    assert_eq!(stats.proxy_service_connect_retries_total, 0);
    assert_eq!(stats.proxy_service_connect_failures_total, 1);
}

#[test]
fn the_prefix_goes_first_and_every_byte_is_counted() {
    let mut stats = Stats::new(0);
    let (mut relay, first) = proxy(&Bytes::from(vec![1, 2, 3, 4, 5]));
    assert_eq!(
        first,
        RelayAction::Connect { delay: Duration::zero(), timeout: Duration::from_secs(3) }
    );
    let prefix = Bytes::from(vec![1, 2, 3, 4, 5]);
    assert_eq!(relay.step(RelayEvent::Connected, &mut stats), RelayAction::SendPrefix(prefix));
    assert_eq!(relay.step(RelayEvent::PrefixSent, &mut stats), RelayAction::Copy);
    let closed = RelayEvent::SessionClosed { from_client: 10, from_service: 20 };
    assert_eq!(relay.step(closed, &mut stats), RelayAction::Finish);
    assert_eq!(relay.phase, Phase::Over);
    assert_eq!(stats.proxy_bytes_client_to_service_total, 15);
    assert_eq!(stats.proxy_bytes_service_to_client_total, 20);
}

#[test]
fn an_empty_prefix_is_not_sent() {
    let mut stats = Stats::new(0);
    let (mut relay, _) = proxy(&Bytes::new());
    assert_eq!(relay.step(RelayEvent::Connected, &mut stats), RelayAction::Copy);
    assert_eq!(relay.step(RelayEvent::SessionBroken, &mut stats), RelayAction::Finish);
    assert_eq!(stats, Stats::new(0));
}

#[test]
fn a_prefix_that_cannot_be_sent_ends_the_relay() {
    let mut stats = Stats::new(0);
    let (mut relay, _) = proxy(&Bytes::from(vec![1]));
    relay.step(RelayEvent::Connected, &mut stats);
    assert_eq!(relay.step(RelayEvent::PrefixFailed, &mut stats), RelayAction::PrefixLost);
    assert_eq!(stats, Stats::new(0));
}

#[test]
fn terminated_connections_are_relayed_without_a_prefix() {
    let mut stats = Stats::new(0);
    let (mut relay, _) = proxy_with_tls_termination(Handshake::Completed, &mut stats).unwrap();
    assert_eq!(stats.proxy_tls_handshake_success_total, 1);
    assert_eq!(relay.step(RelayEvent::Connected, &mut stats), RelayAction::Copy);
    assert!(proxy_with_tls_termination(Handshake::Failed, &mut stats).is_none());
    assert!(proxy_with_tls_termination(Handshake::TimedOut, &mut stats).is_none());
    assert_eq!(stats.proxy_tls_handshake_failure_total, 2);
}

#[test]
fn bytes_read_ahead_are_handed_out_first() {
    let prefix: Vec<u8> = (0..100).collect();
    for room in [1usize, 7, 99, 100, 1000] {
        let mut stream = PrefixedStream::new(Bytes::from(prefix.clone()), "socket");
        let mut seen = Vec::new();
        while let Some(piece) = stream.read_prefix(room) {
            assert!(!piece.is_empty() && piece.len() <= room);
            seen.extend_from_slice(&piece);
        }
        assert_eq!(seen, prefix);
        assert_eq!(stream.read_prefix(room), None);
        assert_eq!(stream.inner, "socket");
    }
}

#[test]
fn a_reader_without_room_gets_nothing_and_loses_nothing() {
    let mut stream = PrefixedStream::new(Bytes::from(vec![9, 8]), ());
    assert_eq!(stream.read_prefix(0), Some(vec![]));
    assert_eq!(stream.read_prefix(5), Some(vec![9, 8]));
    let mut empty = PrefixedStream::new(Bytes::new(), ());
    assert_eq!(empty.read_prefix(5), None);
}
