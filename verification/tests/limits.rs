//! Limits per client, slots, and what is done with accepted connections.

use reprox::accept::{accept_step, drain_step, end_connection, AcceptAction, AcceptEvent, DrainStep};
use reprox::ip_limiter::IpLimiter;
use reprox::limiter::ConnectionLimiter;
use reprox::metrics::Stats;
use reprox::net::IpAddr;
use reprox::rate::{ConnectionRate, Rate};
use reprox::rate_limiter::RateLimiter;

/// 203.0.113.n
fn ip(n: u8) -> IpAddr {
    IpAddr::V4(0xcb00_7100 + n as u32)
}

fn per_second(n: u64) -> Rate {
    Rate { digits: n, exponent: 0 }
}

const PER_SECOND: u64 = 1_000_000_000;
const MILLIS: u64 = 1_000_000;

#[test]
fn allows_up_to_the_limit_then_rejects() {
    let mut limiter = IpLimiter::new(2);
    let a = limiter.try_acquire_slot(ip(1));
    let b = limiter.try_acquire_slot(ip(1));
    let c = limiter.try_acquire_slot(ip(1));
    assert!(a.is_some());
    assert!(b.is_some());
    assert!(c.is_none());
}

#[test]
fn different_ips_have_independent_counters() {
    let mut limiter = IpLimiter::new(1);
    assert!(limiter.try_acquire_slot(ip(1)).is_some());
    assert!(limiter.try_acquire_slot(ip(2)).is_some());
}

#[test]
fn dropping_a_slot_frees_it_up_again() {
    let mut limiter = IpLimiter::new(1);
    let a = limiter.try_acquire_slot(ip(1));
    assert!(limiter.try_acquire_slot(ip(1)).is_none());
    limiter.release(a.unwrap());
    assert!(limiter.try_acquire_slot(ip(1)).is_some());
}

#[test]
fn idle_ips_are_swept_from_the_map() {
    let mut limiter = IpLimiter::new(5);
    let a = limiter.try_acquire_slot(ip(1));
    assert_eq!(limiter.ips_count(), 1);
    limiter.release(a.unwrap());
    assert_eq!(limiter.ips_count(), 0);
}

#[test]
fn zero_means_disabled() {
    let mut limiter = IpLimiter::new(0);
    for _ in 0..1000 {
        assert!(limiter.try_acquire_slot(ip(1)).is_some());
    }
    assert_eq!(limiter.ips_count(), 0);
}

#[test]
fn set_max_per_ip_applies_to_subsequent_acquires() {
    let mut limiter = IpLimiter::new(1);
    let _a = limiter.try_acquire_slot(ip(1)).unwrap();
    assert!(limiter.try_acquire_slot(ip(1)).is_none());
    limiter.set_limit(2);
    assert!(limiter.try_acquire_slot(ip(1)).is_some());
}

#[test]
fn loopback_clients_are_never_limited() {
    let mut limiter = IpLimiter::new(1);
    let mut rates = RateLimiter::new(per_second(1), 1);
    for local in [IpAddr::V4(0x7f00_0001), IpAddr::V4(0x7fff_ffff), IpAddr::V6(1)] {
        for _ in 0..10 {
            assert!(limiter.try_acquire_slot(local).is_some());
            assert!(rates.allow(local, 0));
        }
    }
    assert_eq!(limiter.ips_count(), 0);
    assert_eq!(rates.ips_count(), 0);
}

#[test]
fn an_ipv6_address_is_not_the_ipv4_address_with_the_same_bits() {
    let mut limiter = IpLimiter::new(1);
    assert!(limiter.try_acquire_slot(IpAddr::V4(5)).is_some());
    assert!(limiter.try_acquire_slot(IpAddr::V6(5)).is_some());
    assert_eq!(limiter.ips_count(), 2);
}

#[test]
fn counters_go_down_one_by_one() {
    let mut limiter = IpLimiter::new(3);
    let a = limiter.try_acquire_slot(ip(1)).unwrap();
    let b = limiter.try_acquire_slot(ip(1)).unwrap();
    limiter.release(a);
    assert_eq!(limiter.ips_count(), 1);
    limiter.release(b);
    assert_eq!(limiter.ips_count(), 0);
}

#[test]
fn a_slot_that_was_not_counted_frees_no_counted_one() {
    let mut limiter = IpLimiter::new(1);
    let _held = limiter.try_acquire_slot(ip(1)).unwrap();
    limiter.set_limit(0);
    let uncounted = limiter.try_acquire_slot(ip(1)).unwrap();
    limiter.release(uncounted);
    limiter.set_limit(1);
    assert!(limiter.try_acquire_slot(ip(1)).is_none());
    assert_eq!(limiter.ips_count(), 1);
}

#[test]
fn a_counted_slot_is_given_back_after_the_limit_was_lifted() {
    let mut limiter = IpLimiter::new(1);
    let held = limiter.try_acquire_slot(ip(1)).unwrap();
    limiter.set_limit(0);
    limiter.release(held);
    assert_eq!(limiter.ips_count(), 0);
    limiter.set_limit(1);
    assert!(limiter.try_acquire_slot(ip(1)).is_some());
}

#[test]
fn allows_burst_then_throttles() {
    let mut rl = RateLimiter::new(per_second(1), 2);
    assert!(rl.allow(ip(1), 0));
    assert!(rl.allow(ip(1), 0));
    assert!(!rl.allow(ip(1), 0), "burst of 2 exhausted, 3rd must be rejected");
}

#[test]
fn refills_over_time() {
    let mut rl = RateLimiter::new(per_second(1000), 1);
    assert!(rl.allow(ip(1), 0));
    assert!(!rl.allow(ip(1), 0), "bucket of 1 exhausted immediately");
    assert!(rl.allow(ip(1), 10 * MILLIS), "should have refilled after waiting");
}

#[test]
fn different_ips_independent() {
    let mut rl = RateLimiter::new(per_second(1), 1);
    assert!(rl.allow(ip(1), 0));
    assert!(rl.allow(ip(2), 0));
}

#[test]
fn zero_rate_disables_and_tracks_nothing() {
    let mut rl = RateLimiter::new(per_second(0), 1);
    for _ in 0..1000 {
        assert!(rl.allow(ip(1), 0));
    }
    assert_eq!(rl.ips_count(), 0);
}

#[test]
fn sweep_removes_fully_recovered_buckets() {
    let mut rl = RateLimiter::new(per_second(1000), 1);
    assert!(rl.allow(ip(1), 0));
    rl.sweep(10 * MILLIS);
    assert_eq!(rl.ips_count(), 0);
}

#[test]
fn sweep_keeps_buckets_still_recovering() {
    let mut rl = RateLimiter::new(per_second(1), 5);
    for _ in 0..5 {
        assert!(rl.allow(ip(1), 0));
    }
    assert!(!rl.allow(ip(1), 0));
    rl.sweep(0);
    assert_eq!(rl.ips_count(), 1, "bucket hasn't recovered yet, must not be swept");
}

#[test]
fn a_token_takes_exactly_its_time() {
    let mut rl = RateLimiter::new(per_second(2), 1);
    assert!(rl.allow(ip(1), 0));
    assert!(!rl.allow(ip(1), 499_999_999));
    assert!(rl.allow(ip(1), 500_000_000));
    // waiting long earns no more than the burst
    assert!(rl.allow(ip(1), u64::MAX));
    assert!(!rl.allow(ip(1), u64::MAX));
}

#[test]
fn grants_over_time_stay_within_burst_and_rate() {
    let mut rl = RateLimiter::new(per_second(10), 3);
    let mut granted = 0;
    for tenth in 0..100u64 {
        if rl.allow(ip(1), tenth * 10 * MILLIS) {
            granted += 1;
        }
    }
    // 3 at once, and 10 a second over 0.99 seconds
    assert_eq!(granted, 12);
}

#[test]
fn sweeping_changes_nothing_for_anybody() {
    let mut swept = RateLimiter::new(per_second(4), 2);
    let mut kept = RateLimiter::new(per_second(4), 2);
    for step in 0..200u64 {
        let now = step * step * 3 * MILLIS;
        let client = ip((step % 3) as u8);
        swept.sweep(now);
        assert_eq!(swept.allow(client, now), kept.allow(client, now), "step {step}");
    }
    assert_eq!(kept.ips_count(), 3);
}

#[test]
fn changed_limits_apply_at_once() {
    let mut rl = RateLimiter::new(per_second(1), 1);
    assert!(rl.allow(ip(1), 0));
    assert!(!rl.allow(ip(1), 0));
    rl.set_limit(per_second(0), 1);
    assert!(rl.allow(ip(1), 0));
    rl.set_limit(per_second(1), 1);
    assert!(!rl.allow(ip(1), 0));
}

#[test]
fn time_that_runs_backwards_earns_nothing() {
    let mut rl = RateLimiter::new(per_second(1), 1);
    assert!(rl.allow(ip(1), 5 * PER_SECOND));
    assert!(!rl.allow(ip(1), 4 * PER_SECOND));
    assert!(rl.allow(ip(1), 5 * PER_SECOND));
}

#[test]
fn very_slow_rates_keep_their_value() {
    // a token every 10^12 seconds is none in all the time there is
    let mut rl = RateLimiter::new(Rate { digits: 1, exponent: -12 }, 1);
    assert!(rl.allow(ip(1), 0));
    assert!(!rl.allow(ip(1), u64::MAX));
    // one every 10^10 seconds is there after that time, and not before
    let mut rl = RateLimiter::new(Rate { digits: 1, exponent: -10 }, 1);
    assert!(rl.allow(ip(1), 0));
    assert!(!rl.allow(ip(1), 10_000_000_000 * PER_SECOND - 1));
    assert!(rl.allow(ip(1), 10_000_000_000 * PER_SECOND));
    let mut rl = RateLimiter::new(Rate { digits: u64::MAX, exponent: -300 }, 2);
    assert!(rl.allow(ip(1), 0));
    assert!(rl.allow(ip(1), u64::MAX));
    assert!(!rl.allow(ip(1), u64::MAX));
}

#[test]
fn very_fast_rates_keep_their_value() {
    // 10^12 a second are 1000 in a nanosecond
    let mut rl = RateLimiter::new(Rate { digits: 1, exponent: 12 }, 5000);
    for _ in 0..5000 {
        assert!(rl.allow(ip(1), 0));
    }
    assert!(!rl.allow(ip(1), 0));
    for _ in 0..1000 {
        assert!(rl.allow(ip(1), 1));
    }
    assert!(!rl.allow(ip(1), 1));
    let mut rl = RateLimiter::new(Rate { digits: 17976931348623157, exponent: 292 }, 3);
    for now in [0, 1] {
        for _ in 0..3 {
            assert!(rl.allow(ip(1), now));
        }
        assert!(!rl.allow(ip(1), now));
    }
}

#[test]
fn fractions_of_tokens_add_up() {
    // 7 in 10 seconds, looked at every second
    let mut rl = RateLimiter::new(Rate { digits: 7, exponent: -1 }, 1);
    let mut granted = 0;
    for second in 0..=100u64 {
        if rl.allow(ip(1), second * PER_SECOND) {
            granted += 1;
        }
    }
    // one second is not enough, and after two the burst caps what is over
    assert!(rl.allow(ip(1), 200 * PER_SECOND));
    assert_eq!(granted, 51);
    let mut rl = RateLimiter::new(Rate { digits: 7, exponent: -1 }, 10);
    for _ in 0..10 {
        assert!(rl.allow(ip(1), 0));
    }
    for _ in 0..7 {
        assert!(rl.allow(ip(1), 10 * PER_SECOND));
    }
    assert!(!rl.allow(ip(1), 10 * PER_SECOND));
}

#[test]
fn rates_are_read_from_scientific_notation() {
    let read = |x: f64| ConnectionRate::read(&format!("{x:e}"));
    let rate = |digits, exponent| ConnectionRate::PerSecond(Rate { digits, exponent });
    assert_eq!(read(0.7), rate(7, -1));
    assert_eq!(read(2.5), rate(25, -1));
    assert_eq!(read(1000.0), rate(1, 3));
    assert_eq!(read(1e-12), rate(1, -12));
    assert_eq!(read(1e12), rate(1, 12));
    assert_eq!(read(f64::MAX), rate(17976931348623157, 292));
    assert_eq!(read(f64::MIN_POSITIVE), rate(22250738585072014, -324));
    assert_eq!(read(5e-324), rate(5, -324));
    assert_eq!(read(0.0), rate(0, 0));
    assert_eq!(read(-0.0), rate(0, 0));
    assert_eq!(read(-0.5), ConnectionRate::Negative);
    assert_eq!(read(f64::NAN), ConnectionRate::NotFinite);
    assert_eq!(read(f64::INFINITY), ConnectionRate::NotFinite);
    assert_eq!(read(f64::NEG_INFINITY), ConnectionRate::NotFinite);
    assert_eq!(ConnectionRate::read("1"), ConnectionRate::NotFinite);
    assert_eq!(ConnectionRate::read("e1"), ConnectionRate::NotFinite);
}

#[test]
fn what_a_rate_comes_to() {
    assert_eq!(per_second(3).gain(PER_SECOND), Some((3, 0)));
    assert_eq!(per_second(1).gain(PER_SECOND / 4), Some((0, 25 * 10u128.pow(36))));
    assert_eq!(Rate { digits: 5, exponent: 10 }.gain(2), Some((100, 0)));
    assert_eq!(Rate { digits: 1, exponent: -30 }.gain(PER_SECOND), Some((0, 10u128.pow(8))));
    assert_eq!(Rate { digits: 1, exponent: i32::MAX }.gain(1), None);
    assert_eq!(Rate { digits: 1, exponent: i32::MAX }.gain(0), Some((0, 0)));
    assert_eq!(Rate { digits: u64::MAX, exponent: i32::MIN }.gain(u64::MAX), Some((0, 0)));
    assert_eq!(Rate { digits: u64::MAX, exponent: 9 }.gain(2), None);
}

#[test]
fn slots_are_counted() {
    let mut stats = Stats::new(0);
    let mut slots = ConnectionLimiter::new(2);
    let a = slots.acquire_slot(&mut stats).unwrap();
    let b = slots.acquire_slot(&mut stats).unwrap();
    assert_eq!(stats.occupied_slots(), 2);
    slots.release(a, &mut stats);
    slots.release(b, &mut stats);
    assert_eq!(stats, Stats::new(0));
}

#[test]
fn no_more_slots_are_occupied_than_there_are() {
    let mut stats = Stats::new(0);
    let mut slots = ConnectionLimiter::new(2);
    let a = slots.acquire_slot(&mut stats).unwrap();
    let _b = slots.acquire_slot(&mut stats).unwrap();
    for _ in 0..3 {
        assert!(slots.acquire_slot(&mut stats).is_none());
        assert_eq!(stats.occupied_slots(), 2);
    }
    slots.release(a, &mut stats);
    assert!(slots.acquire_slot(&mut stats).is_some());
    assert_eq!(stats.occupied_slots(), 2);
    assert!(ConnectionLimiter::new(0).acquire_slot(&mut stats).is_none());
}

#[test]
fn accepted_connections_are_served_within_the_limits() {
    let mut stats = Stats::new(0);
    let mut slots = ConnectionLimiter::new(2);
    let mut rates = RateLimiter::new(per_second(1), 3);
    let mut ips = IpLimiter::new(1);

    let slot = slots.acquire_slot(&mut stats).unwrap();
    let event = AcceptEvent::Accepted(ip(1));
    let action = accept_step(slot, event, &mut slots, &mut rates, &mut ips, &mut stats, 0);
    let (kept, ip_slot) = match action {
        AcceptAction::Serve(kept, ip_slot) => (kept, ip_slot),
        other => panic!("expected the connection to be served, got {other:?}"),
    };
    assert_eq!(stats.occupied_slots(), 1);

    let slot = slots.acquire_slot(&mut stats).unwrap();
    let action = accept_step(slot, event, &mut slots, &mut rates, &mut ips, &mut stats, 0);
    assert!(matches!(action, AcceptAction::RejectIpLimit));
    assert_eq!(stats.connections_rejected_ip_limit_total, 1);
    assert_eq!(stats.occupied_slots(), 1);

    end_connection(kept, ip_slot, &mut slots, &mut ips, &mut stats);
    assert_eq!(stats.occupied_slots(), 0);
    assert_eq!(ips.ips_count(), 0);

    let slot = slots.acquire_slot(&mut stats).unwrap();
    let action = accept_step(slot, event, &mut slots, &mut rates, &mut ips, &mut stats, 0);
    assert!(matches!(action, AcceptAction::Serve(_, _)));

    // the third token is gone
    let slot = slots.acquire_slot(&mut stats).unwrap();
    let action = accept_step(slot, event, &mut slots, &mut rates, &mut ips, &mut stats, 0);
    assert!(matches!(action, AcceptAction::RejectRate));
    assert_eq!(stats.connections_rejected_rate_limit_total, 1);

    let slot = slots.acquire_slot(&mut stats).unwrap();
    let event = AcceptEvent::Failed;
    let action = accept_step(slot, event, &mut slots, &mut rates, &mut ips, &mut stats, 0);
    assert!(matches!(action, AcceptAction::BackOff));
    assert_eq!(stats.occupied_slots(), 1);
}

#[test]
fn draining_waits_for_connections_or_for_the_deadline() {
    assert_eq!(drain_step(0, 0, 10), DrainStep::Drained);
    assert_eq!(drain_step(-1, 99, 10), DrainStep::Drained);
    assert_eq!(drain_step(1, 9, 10), DrainStep::Wait);
    assert_eq!(drain_step(1, 10, 10), DrainStep::GraceOver);
}
