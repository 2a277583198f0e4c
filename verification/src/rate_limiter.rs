//! How fast one client may open connections: a token bucket per address.
//!
//! A bucket holds up to `burst` tokens and gains them at a rate. Opening a
//! connection takes one. Buckets are refilled when they are looked at; nothing
//! has to run in between. A full bucket is the same as none, so full buckets
//! can be forgotten.
//!
//! Times are nanoseconds, and tokens are counted in parts.

use crate::metrics;
use crate::net::IpAddr;
use crate::rate;
use crate::rate::{Rate, TOKEN};
use crate::tables;
use crate::tables::BucketTable;
use vstd::prelude::*;

verus! {

/// What one client has left.
#[derive(Clone, Copy, Debug, PartialEq, Eq, Structural)]
pub struct Bucket {
    /// Whole tokens.
    pub tokens: u64,
    /// Parts of a token.
    pub parts: u128,
    /// When the bucket was last looked at.
    pub last_refill: u64,
}

/// The parts that a full bucket holds.
pub open spec fn capacity(burst: u64) -> int {
    burst * TOKEN
}

/// The parts in a bucket when it was last looked at.
pub open spec fn level(b: Bucket) -> int {
    b.tokens * TOKEN + b.parts
}

/// The bucket with so many parts in it.
pub open spec fn bucket_with(parts: int, now: u64) -> Bucket {
    Bucket {
        tokens: (parts / TOKEN as int) as u64,
        parts: (parts % TOKEN as int) as u128,
        last_refill: now,
    }
}

/// The parts in a bucket at a later time.
pub open spec fn refilled(b: Bucket, now: u64, rate: Rate, burst: u64) -> int {
    let full = level(b) + rate::gained(
        rate,
        metrics::elapsed_nanos(b.last_refill, now) as int,
    );
    if full < capacity(burst) {
        full
    } else {
        capacity(burst)
    }
}

/// Whether a bucket has a token to give.
pub open spec fn has_token(b: Bucket, now: u64, rate: Rate, burst: u64) -> bool {
    refilled(b, now, rate, burst) >= TOKEN
}

/// The bucket after it was asked for a token.
pub open spec fn asked(b: Bucket, now: u64, rate: Rate, burst: u64) -> Bucket {
    let parts = refilled(b, now, rate, burst);
    bucket_with(
        if parts >= TOKEN {
            parts - TOKEN
        } else {
            parts
        },
        now,
    )
}

/// A full bucket.
pub open spec fn full_bucket(now: u64, burst: u64) -> Bucket {
    Bucket { tokens: burst, parts: 0, last_refill: now }
}

/// The bucket of a client: a full one if there is none yet.
pub open spec fn bucket_for(
    buckets: Map<(bool, u128), Bucket>,
    key: (bool, u128),
    now: u64,
    burst: u64,
) -> Bucket {
    if buckets.contains_key(key) {
        buckets[key]
    } else {
        full_bucket(now, burst)
    }
}

/// The entries whose buckets are not full.
pub open spec fn still_recovering(
    buckets: Map<(bool, u128), Bucket>,
    now: u64,
    rate: Rate,
    burst: u64,
) -> Map<(bool, u128), Bucket> {
    Map::new(
        |key: (bool, u128)|
            buckets.contains_key(key) && refilled(buckets[key], now, rate, burst) < capacity(burst),
        |key: (bool, u128)| buckets[key],
    )
}

/// A bucket with whole tokens and less than a token in parts.
proof fn lemma_bucket_with(b: Bucket)
    requires
        b.parts < TOKEN,
    ensures
        bucket_with(level(b), b.last_refill) == b,
{
    let (n, p) = (b.tokens as int, b.parts as int);
    let one = TOKEN as int;
    assert((n * one + p) / one == n && (n * one + p) % one == p) by (nonlinear_arith)
        requires
            0 <= p < one,
    ;
}

/// Putting parts into a bucket and counting them again.
proof fn lemma_level_of(parts: int, now: u64, burst: u64)
    requires
        0 <= parts <= capacity(burst),
    ensures
        level(bucket_with(parts, now)) == parts,
        bucket_with(parts, now).parts < TOKEN,
{
    let one = TOKEN as int;
    let (q, r) = (parts / one, parts % one);
    assert(parts == q * one + r && 0 <= r < one && 0 <= q <= burst) by (nonlinear_arith)
        requires
            0 <= parts <= burst * one,
            one >= 1,
            q == parts / one,
            r == parts % one,
    ;
}

impl Bucket {
    #[verifier::spinoff_prover]
    #[verifier::rlimit(40)]
    fn refill(&self, now: u64, rate: Rate, burst: u64) -> (res: Bucket)
        ensures
            level(res) == refilled(*self, now, rate, burst),
            res.parts < TOKEN,
            res.tokens <= burst,
            res.last_refill == now,
    {
        let elapsed: u64 = metrics::elapsed(self.last_refill, now);
        let full = Bucket { tokens: burst, parts: 0, last_refill: now };
        let ghost before = level(*self);
        let ghost gain = rate::gained(rate, elapsed as int);
        let (gained, more) = match rate.gain(elapsed) {
            Some(found) => found,
            None => {
                proof {
                    assert(burst * TOKEN <= (u64::MAX + 1) * TOKEN) by (nonlinear_arith)
                        requires
                            burst <= u64::MAX,
                    ;
                    assert(0 <= self.tokens * TOKEN) by (nonlinear_arith)
                        requires
                            0 <= self.tokens,
                    ;
                }
                return full;
            },
        };
        let carried: u128 = self.parts / TOKEN;
        let parts: u128 = self.parts % TOKEN + more;
        let over: u128 = if parts >= TOKEN {
            1
        } else {
            0
        };
        let left: u128 = if parts >= TOKEN {
            parts - TOKEN
        } else {
            parts
        };
        let tokens: u128 = self.tokens as u128 + gained as u128 + carried + over;
        proof {
            let (a, g, c, o, t) = (
                self.tokens as int,
                gained as int,
                carried as int,
                over as int,
                tokens as int,
            );
            let one = TOKEN as int;
            assert(t * one == a * one + g * one + c * one + o * one) by (nonlinear_arith)
                requires
                    t == a + g + c + o,
            ;
            assert(t * one + left == before + gain);
            let full_tokens = burst as int;
            if t >= full_tokens {
                assert(t * one >= full_tokens * one) by (nonlinear_arith)
                    requires
                        t >= full_tokens,
                        one >= 0,
                ;
            } else {
                assert(full_tokens * one >= t * one + one) by (nonlinear_arith)
                    requires
                        full_tokens >= t + 1,
                        one >= 0,
                ;
            }
        }
        if tokens >= burst as u128 {
            full
        } else {
            Bucket { tokens: tokens as u64, parts: left, last_refill: now }
        }
    }

    /// Whether the bucket is not full.
    pub fn is_recovering(&self, now: u64, rate: Rate, burst: u64) -> (res: bool)
        ensures
            res == (refilled(*self, now, rate, burst) < capacity(burst)),
    {
        let later = self.refill(now, rate, burst);
        proof {
            let (t, n) = (later.tokens as int, burst as int);
            if t < n {
                assert(n * TOKEN >= t * TOKEN + TOKEN) by (nonlinear_arith)
                    requires
                        n >= t + 1,
                ;
            }
        }
        later.tokens < burst
    }
}

/// Limits how fast each client may open connections.
pub struct RateLimiter {
    buckets: BucketTable,
    rate: Rate,
    burst: u64,
}

impl RateLimiter {
    /// The buckets by client.
    pub closed spec fn buckets(self) -> Map<(bool, u128), Bucket> {
        tables::buckets_in(self.buckets)
    }

    /// Tokens gained per second; zero for no limit.
    pub closed spec fn rate(self) -> Rate {
        self.rate
    }

    /// The tokens in a full bucket.
    pub closed spec fn burst(self) -> u64 {
        self.burst
    }

    /// A client to which no limit applies: any client while there is no
    /// limit, and a client on a loopback address.
    pub open spec fn exempt(self, ip: IpAddr) -> bool {
        self.rate().zero() || ip.loopback()
    }

    /// A limiter that gives each client connections at a rate, and `burst` of
    /// them back to back. With a rate of zero there is no limit, and nothing
    /// is kept.
    pub fn new(rate: Rate, burst: u64) -> (res: RateLimiter)
        ensures
            res.buckets() == Map::<(bool, u128), Bucket>::empty(),
            res.rate() == rate,
            res.burst() == burst,
    {
        RateLimiter { buckets: BucketTable::new(), rate, burst }
    }

    /// Changes the limits. What clients have left stays.
    pub fn set_limit(&mut self, rate: Rate, burst: u64)
        ensures
            final(self).buckets() == old(self).buckets(),
            final(self).rate() == rate,
            final(self).burst() == burst,
    {
        self.rate = rate;
        self.burst = burst;
    }

    /// Whether a client may open a connection now. If so, that takes a token.
    pub fn allow(&mut self, ip: IpAddr, now: u64) -> (res: bool)
        ensures
            final(self).rate() == old(self).rate(),
            final(self).burst() == old(self).burst(),
            old(self).exempt(ip) ==> res && final(self).buckets() == old(self).buckets(),
            !old(self).exempt(ip) ==> ({
                let bucket = bucket_for(old(self).buckets(), ip.key(), now, old(self).burst());
                &&& res == has_token(bucket, now, old(self).rate(), old(self).burst())
                &&& final(self).buckets() == old(self).buckets().insert(
                    ip.key(),
                    asked(bucket, now, old(self).rate(), old(self).burst()),
                )
            }),
    {
        if self.rate.digits == 0 || ip.is_loopback() {
            return true;
        }
        let key = ip.table_key();
        let bucket = match self.buckets.get(key) {
            Some(b) => b,
            None => Bucket { tokens: self.burst, parts: 0, last_refill: now },
        };
        let later = bucket.refill(now, self.rate, self.burst);
        proof {
            lemma_bucket_with(later);
        }
        if later.tokens >= 1 {
            let rest = Bucket { tokens: later.tokens - 1, ..later };
            proof {
                lemma_bucket_with(rest);
                let t = later.tokens as int;
                assert(t * TOKEN == (t - 1) * TOKEN + TOKEN) by (nonlinear_arith);
                assert((t - 1) * TOKEN >= 0) by (nonlinear_arith)
                    requires
                        t >= 1,
                ;
            }
            self.buckets.insert(key, rest);
            true
        } else {
            self.buckets.insert(key, later);
            false
        }
    }

    /// Forgets the buckets that are full.
    pub fn sweep(&mut self, now: u64)
        ensures
            final(self).rate() == old(self).rate(),
            final(self).burst() == old(self).burst(),
            final(self).buckets() == still_recovering(
                old(self).buckets(),
                now,
                old(self).rate(),
                old(self).burst(),
            ),
    {
        self.buckets.retain_recovering(now, self.rate, self.burst);
    }

    /// How many clients are being kept track of.
    pub fn ips_count(&self) -> (res: usize)
        ensures
            res == self.buckets().dom().len(),
    {
        self.buckets.len()
    }
}

// ---------------------------------------------------------------------
// Laws
// ---------------------------------------------------------------------

/// Forgetting full buckets changes nothing for anybody: under the same limits
/// every client is answered as before, and is left with the same bucket.
pub proof fn law_sweep_loses_nothing(
    buckets: Map<(bool, u128), Bucket>,
    key: (bool, u128),
    swept_at: u64,
    now: u64,
    rate: Rate,
    burst: u64,
)
    requires
        swept_at <= now,
    ensures
        ({
            let kept = still_recovering(buckets, swept_at, rate, burst);
            let before = bucket_for(buckets, key, now, burst);
            let after = bucket_for(kept, key, now, burst);
            &&& has_token(after, now, rate, burst) == has_token(before, now, rate, burst)
            &&& asked(after, now, rate, burst) == asked(before, now, rate, burst)
        }),
{
    let kept = still_recovering(buckets, swept_at, rate, burst);
    if buckets.contains_key(key) && !kept.contains_key(key) {
        let b = buckets[key];
        lemma_refill_grows(b, swept_at, now, rate, burst);
        rate::law_gain_grows(rate, 0, 0);
        assert(refilled(full_bucket(now, burst), now, rate, burst) == capacity(burst));
    }
}

proof fn lemma_refill_grows(b: Bucket, earlier: u64, later: u64, rate: Rate, burst: u64)
    requires
        earlier <= later,
    ensures
        refilled(b, earlier, rate, burst) <= refilled(b, later, rate, burst),
{
    let e1 = metrics::elapsed_nanos(b.last_refill, earlier);
    let e2 = metrics::elapsed_nanos(b.last_refill, later);
    rate::law_gain_grows(rate, e1 as int, e2 as int);
}

/// Sweeping never adds to what is kept track of.
pub proof fn law_sweep_never_adds(
    buckets: Map<(bool, u128), Bucket>,
    now: u64,
    rate: Rate,
    burst: u64,
)
    requires
        buckets.dom().finite(),
    ensures
        still_recovering(buckets, now, rate, burst).dom().finite(),
        still_recovering(buckets, now, rate, burst).dom().len() <= buckets.dom().len(),
{
    vstd::set_lib::lemma_len_subset(
        still_recovering(buckets, now, rate, burst).dom(),
        buckets.dom(),
    );
}

/// What one client asks and does not get, or gets, leaves the buckets of all
/// others as they are.
pub proof fn law_clients_are_independent(
    buckets: Map<(bool, u128), Bucket>,
    asking: IpAddr,
    other: IpAddr,
    bucket: Bucket,
    now: u64,
    burst: u64,
)
    requires
        asking != other,
    ensures
        bucket_for(buckets.insert(asking.key(), bucket), other.key(), now, burst) == bucket_for(
            buckets,
            other.key(),
            now,
            burst,
        ),
{
}

/// A client that has waited long enough for one token is granted its next
/// request.
pub proof fn law_waiting_earns_a_token(b: Bucket, now: u64, rate: Rate, burst: u64)
    requires
        burst >= 1,
        rate::gained(rate, metrics::elapsed_nanos(b.last_refill, now) as int) >= TOKEN,
    ensures
        has_token(b, now, rate, burst),
{
    assert(burst * TOKEN >= TOKEN) by (nonlinear_arith)
        requires
            burst >= 1,
    ;
    assert(0 <= b.tokens * TOKEN) by (nonlinear_arith)
        requires
            0 <= b.tokens,
    ;
}

/// How many of the requests of one client, made at the given times, are
/// granted.
pub open spec fn granted(b: Bucket, times: Seq<u64>, rate: Rate, burst: u64) -> int
    decreases times.len(),
{
    if times.len() == 0 {
        0
    } else {
        (if has_token(b, times[0], rate, burst) {
            1int
        } else {
            0int
        }) + granted(asked(b, times[0], rate, burst), times.skip(1), rate, burst)
    }
}

/// The times do not run backwards, from a given time on.
pub open spec fn in_order(from: u64, times: Seq<u64>) -> bool {
    forall|i: int|
        0 <= i < times.len() ==> (if i == 0 {
            from
        } else {
            times[i - 1]
        }) <= #[trigger] times[i]
}

/// One request takes a token where it is granted, and what is left is no more
/// than what was there and what was gained.
proof fn lemma_one_request(b: Bucket, now: u64, rate: Rate, burst: u64)
    requires
        b.last_refill <= now,
    ensures
        level(asked(b, now, rate, burst)) + (if has_token(b, now, rate, burst) {
            TOKEN as int
        } else {
            0int
        }) <= level(b) + rate::gained(rate, now - b.last_refill),
        asked(b, now, rate, burst).last_refill == now,
{
    rate::law_gain_grows(rate, 0, now - b.last_refill);
    assert(0 <= b.tokens * TOKEN && 0 <= burst * TOKEN) by (nonlinear_arith)
        requires
            0 <= b.tokens,
            0 <= burst,
    ;
    let parts = refilled(b, now, rate, burst);
    if parts >= TOKEN {
        lemma_level_of(parts - TOKEN, now, burst);
    } else {
        lemma_level_of(parts, now, burst);
    }
}

/// Over any stretch of time one client is granted no more than what its
/// bucket held at the start and what it gained since: a burst, and the rate
/// times the time that went by.
#[verifier::spinoff_prover]
#[verifier::rlimit(40)]
pub proof fn law_grants_are_bounded(b: Bucket, times: Seq<u64>, rate: Rate, burst: u64, end: u64)
    requires
        in_order(b.last_refill, times),
        times.len() > 0 ==> times.last() <= end,
        b.last_refill <= end,
    ensures
        granted(b, times, rate, burst) * TOKEN <= level(b) + rate::gained(
            rate,
            end - b.last_refill,
        ),
    decreases times.len(),
{
    if times.len() == 0 {
        rate::law_gain_grows(rate, 0, end - b.last_refill);
        assert(0 <= b.tokens * TOKEN) by (nonlinear_arith)
            requires
                0 <= b.tokens,
        ;
    } else {
        let t = times[0];
        let next = asked(b, t, rate, burst);
        let rest = times.skip(1);
        assert(in_order(t, rest)) by {
            assert forall|i: int| 0 <= i < rest.len() implies (if i == 0 {
                t
            } else {
                rest[i - 1]
            }) <= #[trigger] rest[i] by {
                assert(rest[i] == times[i + 1]);
                assert(times[i] <= times[i + 1]);
            }
        }
        lemma_last_is_latest(times, 0);
        if rest.len() > 0 {
            assert(rest.last() == times.last());
        }
        law_grants_are_bounded(next, rest, rate, burst, end);
        assert(b.last_refill <= t);
        lemma_one_request(b, t, rate, burst);
        rate::law_gain_of_two_times(rate, t - b.last_refill, end - t);
        let one = if has_token(b, t, rate, burst) {
            1int
        } else {
            0int
        };
        let more = granted(next, rest, rate, burst);
        assert((one + more) * TOKEN == one * TOKEN + more * TOKEN) by (nonlinear_arith);
    }
}

proof fn lemma_last_is_latest(times: Seq<u64>, i: int)
    requires
        0 <= i < times.len(),
        forall|j: int| 1 <= j < times.len() ==> times[j - 1] <= #[trigger] times[j],
    ensures
        times[i] <= times.last(),
    decreases times.len() - i,
{
    if i + 1 < times.len() {
        lemma_last_is_latest(times, i + 1);
        assert(times[i] <= times[i + 1]);
    }
}

/// A client that was not seen before is granted `burst` requests back to back
/// and no more.
pub proof fn law_burst_and_no_more(now: u64, times: Seq<u64>, rate: Rate, burst: u64)
    requires
        forall|i: int| 0 <= i < times.len() ==> #[trigger] times[i] == now,
    ensures
        granted(full_bucket(now, burst), times, rate, burst) == (if times.len() < burst {
            times.len() as int
        } else {
            burst as int
        }),
{
    lemma_back_to_back(now, times, rate, burst, burst);
}

#[verifier::spinoff_prover]
#[verifier::rlimit(40)]
proof fn lemma_back_to_back(now: u64, times: Seq<u64>, rate: Rate, burst: u64, left: u64)
    requires
        left <= burst,
        forall|i: int| 0 <= i < times.len() ==> #[trigger] times[i] == now,
    ensures
        granted(full_bucket(now, left), times, rate, burst) == (if times.len() < left {
            times.len() as int
        } else {
            left as int
        }),
    decreases times.len(),
{
    let b = full_bucket(now, left);
    if times.len() > 0 {
        let n = left as int;
        assert(0 <= n * TOKEN <= burst * TOKEN) by (nonlinear_arith)
            requires
                0 <= n <= burst,
        ;
        let rest = times.skip(1);
        assert forall|i: int| 0 <= i < rest.len() implies #[trigger] rest[i] == now by {
            assert(rest[i] == times[i + 1]);
        }
        assert(times[0] == now);
        rate::law_gain_grows(rate, 0, 0);
        assert(refilled(b, now, rate, burst) == n * TOKEN);
        if left == 0 {
            lemma_bucket_with(b);
            lemma_back_to_back(now, rest, rate, burst, 0);
        } else {
            let less = full_bucket(now, (left - 1) as u64);
            assert(n * TOKEN == (n - 1) * TOKEN + TOKEN) by (nonlinear_arith);
            assert((n - 1) * TOKEN >= 0) by (nonlinear_arith)
                requires
                    n >= 1,
            ;
            lemma_bucket_with(less);
            lemma_back_to_back(now, rest, rate, burst, (left - 1) as u64);
        }
    }
}

/// The books of a bucket balance: what is in it after a request is what was in
/// it, and what the rate came to since, up to a full bucket, less one token if
/// the request was granted. It is granted exactly if that leaves nothing owed.
pub proof fn law_bucket_balances(b: Bucket, now: u64, rate: Rate, burst: u64)
    ensures
        ({
            let before = b.tokens * TOKEN + b.parts;
            let gain = rate::gained(
                rate,
                if b.last_refill <= now {
                    now - b.last_refill
                } else {
                    0
                },
            );
            let have = if before + gain < burst * TOKEN {
                before + gain
            } else {
                burst * TOKEN
            };
            let after = asked(b, now, rate, burst);
            &&& has_token(b, now, rate, burst) <==> have >= TOKEN
            &&& after.tokens * TOKEN + after.parts == (if have >= TOKEN {
                have - TOKEN
            } else {
                have
            })
            &&& after.parts < TOKEN
            &&& after.last_refill == now
        }),
{
    let nanos = metrics::elapsed_nanos(b.last_refill, now) as int;
    rate::law_gain_grows(rate, 0, nanos);
    assert(0 <= b.tokens * TOKEN && 0 <= burst * TOKEN) by (nonlinear_arith)
        requires
            0 <= b.tokens,
            0 <= burst,
    ;
    let parts = refilled(b, now, rate, burst);
    if parts >= TOKEN {
        lemma_level_of(parts - TOKEN, now, burst);
    } else {
        lemma_level_of(parts, now, burst);
    }
}

/// A client that was not seen before starts with a full burst, and one that
/// was seen with what it has left.
pub proof fn law_clients_start_with_a_burst(
    buckets: Map<(bool, u128), Bucket>,
    key: (bool, u128),
    now: u64,
    burst: u64,
)
    ensures
        !buckets.contains_key(key) ==> {
            let b = bucket_for(buckets, key, now, burst);
            b.tokens == burst && b.parts == 0 && b.last_refill == now
        },
        buckets.contains_key(key) ==> bucket_for(buckets, key, now, burst) == buckets[key],
{
}

/// Sweeping keeps exactly the buckets that are not full, as they are.
pub proof fn law_sweep_keeps_what_is_not_full(
    buckets: Map<(bool, u128), Bucket>,
    key: (bool, u128),
    now: u64,
    rate: Rate,
    burst: u64,
)
    ensures
        ({
            let kept = still_recovering(buckets, now, rate, burst);
            let b = buckets[key];
            let gain = rate::gained(
                rate,
                if b.last_refill <= now {
                    now - b.last_refill
                } else {
                    0
                },
            );
            &&& kept.contains_key(key) <==> buckets.contains_key(key) && b.tokens * TOKEN + b.parts
                + gain < burst * TOKEN
            &&& kept.contains_key(key) ==> kept[key] == b
        }),
{
}

/// While a rate is set, no client escapes it but one on a loopback address;
/// while none is set, every client does.
pub proof fn law_only_loopback_escapes_the_rate(rates: RateLimiter, ip: IpAddr)
    ensures
        rates.exempt(ip) <==> rates.rate().digits == 0 || match ip {
            crate::net::IpAddr::V4(bits) => 0x7f00_0000 <= bits <= 0x7fff_ffff,
            crate::net::IpAddr::V6(bits) => bits == 1,
        },
{
    crate::net::law_loopback_addresses(ip);
}

/// What is in a bucket later on is what was in it and what the rate came to
/// since, and never more than a full bucket, which holds a burst.
pub proof fn law_buckets_fill_up_to_a_burst(b: Bucket, now: u64, rate: Rate, burst: u64)
    ensures
        level(b) == b.tokens * TOKEN + b.parts,
        capacity(burst) == burst * TOKEN,
        ({
            let full = b.tokens * TOKEN + b.parts + rate::gained(
                rate,
                if b.last_refill <= now {
                    now - b.last_refill
                } else {
                    0
                },
            );
            refilled(b, now, rate, burst) == (if full < burst * TOKEN {
                full
            } else {
                burst * TOKEN
            })
        }),
        full_bucket(now, burst) == (Bucket { tokens: burst, parts: 0, last_refill: now }),
{
}

/// Refused or granted, nothing that a client has earned is lost on the way: if
/// it asks twice and its bucket is not full in between, it has the same left as
/// if what it earned had come in one piece.
pub proof fn law_earnings_add_up(b: Bucket, first: u64, second: u64, rate: Rate, burst: u64)
    requires
        b.last_refill <= first <= second,
        rate.exponent >= -29,
        b.tokens * TOKEN + b.parts + rate::gained(rate, second - b.last_refill) < burst * TOKEN,
    ensures
        ({
            let once = asked(b, first, rate, burst);
            let twice = asked(once, second, rate, burst);
            let taken = (if has_token(b, first, rate, burst) {
                1int
            } else {
                0int
            }) + (if has_token(once, second, rate, burst) {
                1int
            } else {
                0int
            });
            twice.tokens * TOKEN + twice.parts + taken * TOKEN == b.tokens * TOKEN + b.parts
                + rate::gained(rate, second - b.last_refill)
        }),
{
    let once = asked(b, first, rate, burst);
    rate::law_gain_of_two_times(rate, first - b.last_refill, second - first);
    rate::law_gain_grows(rate, 0, second - first);
    law_bucket_balances(b, first, rate, burst);
    law_bucket_balances(once, second, rate, burst);
}

} // verus!
