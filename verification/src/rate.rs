//! Rates per second, as decimal numbers of any magnitude, and what they come
//! to over a time.

use crate::text;
use vstd::prelude::*;

verus! {

/// The parts of one token.
pub const TOKEN: u128 = 100_000_000_000_000_000_000_000_000_000_000_000_000;

/// `digits` times ten to the power of `exponent`, per second.
#[derive(Clone, Copy, Debug, PartialEq, Eq, Structural)]
pub struct Rate {
    pub digits: u64,
    pub exponent: i32,
}

/// Ten to the power of `n`.
pub open spec fn pow10(n: nat) -> nat
    decreases n,
{
    if n == 0 {
        1
    } else {
        10 * pow10((n - 1) as nat)
    }
}

/// What a rate comes to over a number of nanoseconds, in parts of tokens. What
/// is less than a part is left out; that happens only at rates that do not
/// come to a token in 64 bits of nanoseconds.
///
/// A token is 10^38 parts and a second 10^9 nanoseconds, hence the 29.
pub open spec fn gained(rate: Rate, nanos: int) -> int {
    let count = rate.digits * nanos;
    if rate.exponent >= -29 {
        count * pow10((rate.exponent + 29) as nat)
    } else {
        count / (pow10((-29 - rate.exponent) as nat) as int)
    }
}

proof fn lemma_pow10_pos(n: nat)
    ensures
        pow10(n) >= 1,
    decreases n,
{
    if n > 0 {
        lemma_pow10_pos((n - 1) as nat);
    }
}

proof fn lemma_pow10_adds(a: nat, b: nat)
    ensures
        pow10(a) * pow10(b) == pow10(a + b),
    decreases a,
{
    if a > 0 {
        lemma_pow10_adds((a - 1) as nat, b);
        let x = pow10((a - 1) as nat) as int;
        let y = pow10(b) as int;
        assert((10 * x) * y == 10 * (x * y)) by (nonlinear_arith);
    } else {
        assert(1 * pow10(b) == pow10(b)) by (nonlinear_arith);
    }
}

proof fn lemma_pow10_grows(a: nat, b: nat)
    requires
        a <= b,
    ensures
        pow10(a) <= pow10(b),
{
    lemma_pow10_adds(a, (b - a) as nat);
    lemma_pow10_pos((b - a) as nat);
    let x = pow10(a) as int;
    let y = pow10((b - a) as nat) as int;
    assert(x <= x * y) by (nonlinear_arith)
        requires
            0 <= x,
            1 <= y,
    ;
}

proof fn lemma_token()
    ensures
        pow10(38) == TOKEN,
{
    reveal_with_fuel(pow10, 20);
    assert(pow10(19) == 10_000_000_000_000_000_000);
    lemma_pow10_adds(19, 19);
}

fn ten_to(n: u32) -> (res: u128)
    requires
        n <= 38,
    ensures
        res == pow10(n as nat),
        1 <= res <= TOKEN,
{
    let mut res: u128 = 1;
    proof {
        lemma_token();
    }
    for i in 0..n
        invariant
            n <= 38,
            pow10(38) == TOKEN,
            res == pow10(i as nat),
            res <= TOKEN,
    {
        proof {
            lemma_pow10_grows((i + 1) as nat, 38);
        }
        res = res * 10;
    }
    proof {
        lemma_pow10_pos(n as nat);
    }
    res
}

impl Rate {
    /// Whether this is a rate of nothing at all.
    pub open spec fn zero(self) -> bool {
        self.digits == 0
    }

    fn product(&self, nanos: u64) -> (res: u128)
        ensures
            res == self.digits * nanos,
    {
        proof {
            assert(self.digits * nanos <= u64::MAX * u64::MAX) by (nonlinear_arith)
                requires
                    self.digits <= u64::MAX,
                    nanos <= u64::MAX,
            ;
        }
        self.digits as u128 * nanos as u128
    }

    /// What the rate comes to over a time, in whole tokens and parts; nothing
    /// if that is more tokens than 64 bits can tell.
    pub fn gain(&self, nanos: u64) -> (res: Option<(u64, u128)>)
        ensures
            match res {
                Some((tokens, parts)) => parts < TOKEN && gained(*self, nanos as int) == tokens
                    * TOKEN + parts,
                None => gained(*self, nanos as int) >= (u64::MAX + 1) * TOKEN,
            },
    {
        if self.exponent >= 9 {
            self.fast_gain(nanos)
        } else if self.exponent >= -29 {
            self.usual_gain(nanos)
        } else {
            Some((0, self.slow_gain(nanos)))
        }
    }

    #[verifier::spinoff_prover]
    #[verifier::rlimit(40)]
    fn fast_gain(&self, nanos: u64) -> (res: Option<(u64, u128)>)
        requires
            self.exponent >= 9,
        ensures
            match res {
                Some((tokens, parts)) => parts == 0 && gained(*self, nanos as int) == tokens
                    * TOKEN,
                None => gained(*self, nanos as int) >= (u64::MAX + 1) * TOKEN,
            },
    {
        let ghost count = self.digits * nanos;
        let ghost power = (self.exponent - 9) as nat;
        let mut tokens: u128 = self.product(nanos);
        let mut left: i32 = self.exponent - 9;
        while left > 0 && tokens > 0 && tokens <= u64::MAX as u128
            invariant
                left >= 0,
                tokens * pow10(left as nat) == count * pow10(power),
            decreases left,
        {
            proof {
                let rest = pow10((left - 1) as nat) as int;
                assert(tokens * (10 * rest) == (tokens * 10) * rest) by (nonlinear_arith);
            }
            tokens = tokens * 10;
            left = left - 1;
        }
        proof {
            lemma_token();
            lemma_pow10_adds(power, 38);
            lemma_pow10_pos(left as nat);
            let rest = pow10(left as nat) as int;
            let whole = tokens as int;
            let p = pow10(power) as int;
            assert(count * (p * TOKEN) == (count * p) * TOKEN) by (nonlinear_arith);
            if left == 0 {
                assert(whole * 1 == whole);
            }
            assert(0 * rest == 0);
            assert(whole * rest >= whole) by (nonlinear_arith)
                requires
                    whole >= 0,
                    rest >= 1,
            ;
            let all = whole * rest;
            if whole > u64::MAX {
                assert(all * TOKEN >= (u64::MAX + 1) * TOKEN) by (nonlinear_arith)
                    requires
                        all >= u64::MAX + 1,
                ;
            }
        }
        if tokens > u64::MAX as u128 {
            None
        } else {
            Some((tokens as u64, 0))
        }
    }

    #[verifier::spinoff_prover]
    #[verifier::rlimit(40)]
    fn usual_gain(&self, nanos: u64) -> (res: Option<(u64, u128)>)
        requires
            -29 <= self.exponent < 9,
        ensures
            match res {
                Some((tokens, parts)) => parts < TOKEN && gained(*self, nanos as int) == tokens
                    * TOKEN + parts,
                None => gained(*self, nanos as int) >= (u64::MAX + 1) * TOKEN,
            },
    {
        let count: u128 = self.product(nanos);
        let places: u32 = (9 - self.exponent) as u32;
        let unit: u128 = ten_to(places);
        let scale: u128 = ten_to(38 - places);
        let tokens: u128 = count / unit;
        let rest: u128 = count % unit;
        proof {
            lemma_token();
            lemma_pow10_adds(places as nat, (38 - places) as nat);
            let (t, r, u, s) = (tokens as int, rest as int, unit as int, scale as int);
            assert(count == t * u + r) by (nonlinear_arith)
                requires
                    t == count as int / u,
                    r == count as int % u,
                    u >= 1,
            ;
            assert((t * u + r) * s == t * (u * s) + r * s) by (nonlinear_arith);
            assert(0 <= r * s < u * s) by (nonlinear_arith)
                requires
                    0 <= r < u,
                    s >= 1,
            ;
            if t > u64::MAX {
                assert(t * TOKEN >= (u64::MAX + 1) * TOKEN) by (nonlinear_arith)
                    requires
                        t >= u64::MAX + 1,
                ;
            }
        }
        if tokens > u64::MAX as u128 {
            None
        } else {
            Some((tokens as u64, rest * scale))
        }
    }

    #[verifier::spinoff_prover]
    #[verifier::rlimit(40)]
    fn slow_gain(&self, nanos: u64) -> (res: u128)
        requires
            self.exponent < -29,
        ensures
            res < TOKEN,
            res == gained(*self, nanos as int),
    {
        let ghost count = self.digits * nanos;
        let ghost places = (-29 - self.exponent) as nat;
        let mut parts: u128 = self.product(nanos);
        let mut left: i64 = -29 - self.exponent as i64;
        proof {
            lemma_pow10_pos(places);
        }
        while left > 0 && parts > 0
            invariant
                0 <= left <= places,
                pow10(places) >= 1,
                parts as int / (pow10(left as nat) as int) == count / (pow10(places) as int),
                left == places ==> parts == count,
                left < places ==> parts < TOKEN,
                places > 0,
            decreases left,
        {
            proof {
                let rest = pow10((left - 1) as nat) as int;
                lemma_pow10_pos((left - 1) as nat);
                vstd::arithmetic::div_mod::lemma_div_denominator(parts as int, 10, rest);
                assert(10 * rest == pow10(left as nat));
            }
            parts = parts / 10;
            left = left - 1;
        }
        proof {
            let rest = pow10(left as nat) as int;
            lemma_pow10_pos(left as nat);
            if parts == 0 {
                assert(0int / rest == 0) by (nonlinear_arith)
                    requires
                        rest >= 1,
                ;
            } else {
                assert(left == 0);
                assert(rest == 1);
                assert(parts as int / 1 == parts);
            }
        }
        parts
    }
}

// ---------------------------------------------------------------------
// Reading
// ---------------------------------------------------------------------

/// How many connections per second one client may open, as it is configured;
/// zero means no limit.
#[derive(Clone, Copy, Debug, PartialEq, Eq, Structural)]
pub enum ConnectionRate {
    /// What was given is infinite or not a number.
    NotFinite,
    /// The number given is below zero.
    Negative,
    PerSecond(Rate),
}

/// The largest exponent that is read, up or down.
pub const MAX_EXPONENT: u64 = 1000;

/// The exponent that a text gives: a number, with a `-` before it or not.
pub open spec fn exponent_in(s: Seq<char>) -> Option<int> {
    if s.len() > 0 && s[0] == '-' {
        match text::parsed_number(s.skip(1), MAX_EXPONENT as nat) {
            Some(n) => Some(-n),
            None => None,
        }
    } else {
        match text::parsed_number(s, MAX_EXPONENT as nat) {
            Some(n) => Some(n as int),
            None => None,
        }
    }
}

/// The number without its sign that a text in scientific notation gives, such
/// as `25e-1` or `2.5e0`: digits with a point among them or not, an `e`, and
/// an exponent.
pub open spec fn scientific(s: Seq<char>) -> Option<Rate> {
    let mantissa = text::before_first(s, 'e');
    let whole = text::before_first(mantissa, '.');
    let fraction = text::after_first(mantissa, '.');
    match (
        text::parsed_number(whole + fraction, u64::MAX as nat),
        exponent_in(text::after_first(s, 'e')),
    ) {
        (Some(digits), Some(exponent)) => if fraction.len() <= MAX_EXPONENT {
            Some(Rate { digits: digits as u64, exponent: (exponent - fraction.len()) as i32 })
        } else {
            None
        },
        _ => None,
    }
}

/// The rate that a text in scientific notation gives. A zero below zero is a
/// zero.
pub open spec fn rate_in(s: Seq<char>) -> ConnectionRate {
    let below = s.len() > 0 && s[0] == '-';
    match scientific(
        if below {
            s.skip(1)
        } else {
            s
        },
    ) {
        None => ConnectionRate::NotFinite,
        Some(rate) => if below && !rate.zero() {
            ConnectionRate::Negative
        } else {
            ConnectionRate::PerSecond(rate)
        },
    }
}

fn starts_below(chars: &Vec<char>) -> (res: bool)
    ensures
        res == (chars@.len() > 0 && chars@[0] == '-'),
{
    chars.len() > 0 && chars[0] == '-'
}

fn read_exponent(s: &str) -> (res: Option<i32>)
    ensures
        match exponent_in(s@) {
            Some(n) => res == Some(n as i32) && -MAX_EXPONENT <= n <= MAX_EXPONENT,
            None => res is None,
        },
{
    let chars = text::chars_of(s);
    if starts_below(&chars) {
        match text::parse_number(text::text_from(&chars, 1).as_str(), MAX_EXPONENT) {
            Some(n) => Some(-(n as i32)),
            None => None,
        }
    } else {
        match text::parse_number(s, MAX_EXPONENT) {
            Some(n) => Some(n as i32),
            None => None,
        }
    }
}

fn read_scientific(s: &str) -> (res: Option<Rate>)
    ensures
        res == scientific(s@),
{
    let mantissa = text::text_before(s, 'e');
    let fraction = text::text_after(mantissa.as_str(), '.');
    let mut digits = text::text_before(mantissa.as_str(), '.');
    text::append_text(&mut digits, fraction.as_str());
    let places: usize = text::chars_of(fraction.as_str()).len();
    let exponent = read_exponent(text::text_after(s, 'e').as_str());
    match (text::parse_number(digits.as_str(), u64::MAX), exponent) {
        (Some(digits), Some(exponent)) => {
            if places as u64 <= MAX_EXPONENT {
                Some(Rate { digits, exponent: exponent - places as i32 })
            } else {
                None
            }
        },
        _ => None,
    }
}

impl ConnectionRate {
    /// Reads a rate in scientific notation. What is not a number is infinite or
    /// not a number.
    pub fn read(s: &str) -> (res: ConnectionRate)
        ensures
            res == rate_in(s@),
    {
        let chars = text::chars_of(s);
        let below = starts_below(&chars);
        let rest = text::text_from(
            &chars,
            if below {
                1
            } else {
                0
            },
        );
        proof {
            assert(s@.skip(0) =~= s@);
        }
        match read_scientific(rest.as_str()) {
            None => ConnectionRate::NotFinite,
            Some(rate) => {
                if below && rate.digits != 0 {
                    ConnectionRate::Negative
                } else {
                    ConnectionRate::PerSecond(rate)
                }
            },
        }
    }
}

// ---------------------------------------------------------------------
// Laws
// ---------------------------------------------------------------------

/// A rate comes to the more the longer the time is, and to nothing in no time.
pub proof fn law_gain_grows(rate: Rate, shorter: int, longer: int)
    requires
        0 <= shorter <= longer,
    ensures
        0 <= gained(rate, shorter) <= gained(rate, longer),
        gained(rate, 0) == 0,
{
    let (a, b) = (rate.digits * shorter, rate.digits * longer);
    assert(0 <= a <= b && rate.digits * 0 == 0) by (nonlinear_arith)
        requires
            0 <= shorter <= longer,
            a == rate.digits * shorter,
            b == rate.digits * longer,
    ;
    if rate.exponent >= -29 {
        let m = pow10((rate.exponent + 29) as nat) as int;
        assert(0 <= a * m <= b * m && 0 * m == 0) by (nonlinear_arith)
            requires
                0 <= a <= b,
                0 <= m,
        ;
    } else {
        let d = pow10((-29 - rate.exponent) as nat) as int;
        lemma_pow10_pos((-29 - rate.exponent) as nat);
        assert(0 <= a / d <= b / d && 0int / d == 0) by (nonlinear_arith)
            requires
                0 <= a <= b,
                1 <= d,
        ;
    }
}

/// Cutting a time in two gains nothing.
pub proof fn law_gain_of_two_times(rate: Rate, first: int, second: int)
    requires
        0 <= first,
        0 <= second,
    ensures
        gained(rate, first) + gained(rate, second) <= gained(rate, first + second),
        rate.exponent >= -29 ==> gained(rate, first) + gained(rate, second) == gained(
            rate,
            first + second,
        ),
{
    let (a, b, c) = (
        rate.digits * first,
        rate.digits * second,
        rate.digits * (first + second),
    );
    assert(a + b == c) by (nonlinear_arith)
        requires
            a == rate.digits * first,
            b == rate.digits * second,
            c == rate.digits * (first + second),
    ;
    if rate.exponent >= -29 {
        let m = pow10((rate.exponent + 29) as nat) as int;
        assert(a * m + b * m == (a + b) * m) by (nonlinear_arith);
    } else {
        let d = pow10((-29 - rate.exponent) as nat) as int;
        lemma_pow10_pos((-29 - rate.exponent) as nat);
        assert(a / d + b / d <= (a + b) / d) by (nonlinear_arith)
            requires
                1 <= d,
        ;
    }
}

/// What is left out where a rate is too slow to be told in parts never amounts
/// to a token: in 64 bits of nanoseconds such a rate does not come to one.
pub proof fn law_slow_rates_never_come_to_a_token(rate: Rate, nanos: u64)
    requires
        rate.exponent < -29,
    ensures
        gained(rate, nanos as int) < TOKEN,
        rate.digits * nanos < TOKEN * pow10((-29 - rate.exponent) as nat),
{
    let count = rate.digits * nanos;
    let d = pow10((-29 - rate.exponent) as nat) as int;
    lemma_pow10_grows(1, (-29 - rate.exponent) as nat);
    reveal_with_fuel(pow10, 2);
    assert(count <= u64::MAX * u64::MAX) by (nonlinear_arith)
        requires
            count == rate.digits * nanos,
            rate.digits <= u64::MAX,
            nanos <= u64::MAX,
    ;
    assert(count < TOKEN * d) by (nonlinear_arith)
        requires
            count <= u64::MAX * u64::MAX,
            10 <= d,
    ;
    assert(count / d < TOKEN) by (nonlinear_arith)
        requires
            count < TOKEN * d,
            10 <= d,
    ;
}

/// A rate is what it says: `digits` per second gain that many tokens in each
/// second and in proportion in any other time, a rate with an exponent one
/// higher gains ten times as much, and one with an exponent one lower a tenth.
/// So rates of the same value gain the same, however they are written.
pub proof fn law_rate_is_its_value(digits: u64, exponent: i32, nanos: int)
    requires
        nanos >= 0,
    ensures
        TOKEN == 100_000_000_000_000_000_000_000_000_000_000_000_000,
        gained(Rate { digits, exponent: 0 }, nanos) * 1_000_000_000 == digits * nanos
            * 100_000_000_000_000_000_000_000_000_000_000_000_000,
        gained(Rate { digits, exponent: 0 }, 1_000_000_000) == digits
            * 100_000_000_000_000_000_000_000_000_000_000_000_000,
        -29 <= exponent < i32::MAX ==> gained(
            Rate { digits, exponent: (exponent + 1) as i32 },
            nanos,
        ) == 10 * gained(Rate { digits, exponent }, nanos),
        i32::MIN < exponent <= -29 ==> gained(
            Rate { digits, exponent: (exponent - 1) as i32 },
            nanos,
        ) == gained(Rate { digits, exponent }, nanos) / 10,
        (Rate { digits, exponent }).zero() <==> digits == 0,
{
    let count = digits * nanos;
    assert(count >= 0) by (nonlinear_arith)
        requires
            nanos >= 0,
            count == digits * nanos,
    ;
    reveal_with_fuel(pow10, 30);
    assert(pow10(29) == 100_000_000_000_000_000_000_000_000_000);
    if -29 <= exponent < i32::MAX {
        let m = pow10((exponent + 29) as nat) as int;
        assert(pow10((exponent + 30) as nat) == 10 * m);
        assert(count * (10 * m) == 10 * (count * m)) by (nonlinear_arith);
    }
    if i32::MIN < exponent <= -29 {
        let m = pow10((-29 - exponent) as nat) as int;
        lemma_pow10_pos((-29 - exponent) as nat);
        assert(pow10((-28 - exponent) as nat) == 10 * m);
        vstd::arithmetic::div_mod::lemma_div_denominator(count, m, 10);
        assert(m * 10 == 10 * m);
        if exponent == -29 {
            assert(m == 1);
            assert(count * 1 == count && count / 1 == count);
        }
    }
}

/// A rate of tokens gains nothing in no time, and twice as much in twice the
/// time: what it gains over whole seconds is the number of seconds times what
/// it gains in one.
pub proof fn law_gain_is_in_proportion_to_time(rate: Rate, seconds: int)
    requires
        seconds >= 0,
        rate.exponent >= -29,
    ensures
        gained(rate, seconds * 1_000_000_000) == seconds * gained(rate, 1_000_000_000),
{
    let m = pow10((rate.exponent + 29) as nat) as int;
    let d = rate.digits as int;
    assert((d * (seconds * 1_000_000_000)) * m == seconds * ((d * 1_000_000_000) * m))
        by (nonlinear_arith);
}

/// Rates are read as they are written in scientific notation: the digits with
/// the point left out, and the exponent less the digits behind the point. A
/// sign before it makes anything but a zero negative.
pub proof fn law_rates_are_read_as_written(
    whole: Seq<char>,
    fraction: Seq<char>,
    exponent: Seq<char>,
    digits: u64,
    n: nat,
)
    requires
        forall|i: int| 0 <= i < whole.len() ==> 48 <= #[trigger] whole[i] as int <= 57,
        forall|i: int| 0 <= i < fraction.len() ==> 48 <= #[trigger] fraction[i] as int <= 57,
        fraction.len() <= 1000,
        text::parsed_number(whole + fraction, u64::MAX as nat) == Some(digits as nat),
        forall|i: int| 0 <= i < exponent.len() ==> 48 <= #[trigger] exponent[i] as int <= 57,
        text::parsed_number(exponent, 1000) == Some(n),
    ensures
        rate_in(whole + seq!['.'] + fraction + seq!['e'] + exponent) == ConnectionRate::PerSecond(
            Rate { digits, exponent: (n - fraction.len()) as i32 },
        ),
        rate_in(whole + seq!['.'] + fraction + seq!['e'] + (seq!['-'] + exponent))
            == ConnectionRate::PerSecond(
            Rate { digits, exponent: (-n - fraction.len()) as i32 },
        ),
        fraction.len() == 0 ==> rate_in(whole + seq!['e'] + exponent) == ConnectionRate::PerSecond(
            Rate { digits, exponent: n as i32 },
        ),
        fraction.len() == 0 ==> rate_in(whole + seq!['e'] + (seq!['-'] + exponent))
            == ConnectionRate::PerSecond(Rate { digits, exponent: (-(n as int)) as i32 }),
        rate_in(seq!['-'] + (whole + seq!['.'] + fraction + seq!['e'] + exponent)) == (if digits
            == 0 {
            ConnectionRate::PerSecond(Rate { digits, exponent: (n - fraction.len()) as i32 })
        } else {
            ConnectionRate::Negative
        }),
        fraction.len() == 0 ==> rate_in(seq!['-'] + (whole + seq!['e'] + exponent)) == (if digits
            == 0 {
            ConnectionRate::PerSecond(Rate { digits, exponent: n as i32 })
        } else {
            ConnectionRate::Negative
        }),
{
    let pointed = whole + seq!['.'] + fraction;
    let below = seq!['-'] + exponent;
    assert(!whole.contains('e') && !whole.contains('.'));
    assert(!pointed.contains('e'));
    text::law_cut_at_the_first(pointed, 'e', exponent);
    text::law_cut_at_the_first(pointed, 'e', below);
    text::law_cut_at_the_first(whole, '.', fraction);
    text::law_cut_at_the_first(whole, 'e', exponent);
    text::law_cut_at_the_first(whole, 'e', below);
    assert(below.skip(1) =~= exponent);
    let a = pointed + seq!['e'] + exponent;
    let b = whole + seq!['e'] + exponent;
    assert((seq!['-'] + a).skip(1) =~= a);
    assert((seq!['-'] + b).skip(1) =~= b);
    if fraction.len() == 0 {
        assert(whole + fraction =~= whole);
        assert(whole + Seq::<char>::empty() =~= whole);
    }
    if whole.len() > 0 {
        assert(a[0] == whole[0] && b[0] == whole[0]);
        assert((pointed + seq!['e'] + below)[0] == whole[0]);
        assert((whole + seq!['e'] + below)[0] == whole[0]);
    } else {
        assert(a[0] == '.');
        assert((pointed + seq!['e'] + below)[0] == '.');
    }
    assert(exponent.len() > 0);
    assert(exponent[0] as int >= 48);
}

/// What has no exponent, such as the names of what is not a number, is read as
/// no number.
pub proof fn law_what_has_no_exponent_is_no_number(s: Seq<char>)
    requires
        !s.contains('e'),
    ensures
        rate_in(s) == ConnectionRate::NotFinite,
{
    let rest = if s.len() > 0 && s[0] == '-' {
        s.skip(1)
    } else {
        s
    };
    assert forall|i: int| 0 <= i < rest.len() implies #[trigger] rest[i] != 'e' by {
        if s[0] == '-' {
            assert(rest[i] == s[i + 1]);
            assert(s.contains(s[i + 1]));
        } else {
            assert(s.contains(s[i]));
        }
    }
    text::law_cut_at_the_first(rest, 'e', Seq::empty());
}

/// A sign before a rate makes it negative unless it is zero, and makes a number
/// of nothing that is none.
pub proof fn law_signs(s: Seq<char>)
    requires
        s.len() == 0 || s[0] != '-',
    ensures
        rate_in(s) matches ConnectionRate::PerSecond(rate) ==> rate_in(seq!['-'] + s) == (
        if rate.digits == 0 {
            ConnectionRate::PerSecond(rate)
        } else {
            ConnectionRate::Negative
        }),
        rate_in(s) is NotFinite ==> rate_in(seq!['-'] + s) is NotFinite,
        !(rate_in(s) is Negative),
{
    assert((seq!['-'] + s).skip(1) =~= s);
}

} // verus!
