//! Small verified building blocks for text: ASCII lowercasing, trimming,
//! decimal and hexadecimal numbers, and reading unsigned numbers back.

use vstd::prelude::*;

verus! {

/// `String::push` appends one character at the end.
pub assume_specification[ String::push ](s: &mut String, c: char)
    ensures
        final(s)@ == old(s)@.push(c),
;

/// `==` on string slices compares their characters.
pub assume_specification[ <str as PartialEq>::eq ](s: &str, other: &str) -> (res: bool)
    ensures
        res == (s@ == other@),
;

/// `std::str::from_utf8` accepts exactly the well-formed UTF-8 byte sequences
/// and hands back the characters that they encode.
#[verifier::external_body]
pub(crate) fn utf8_text(bytes: &[u8]) -> (res: Option<String>)
    ensures
        res is Some <==> vstd::utf8::valid_utf8(bytes@),
        res matches Some(s) ==> s@ == vstd::utf8::decode_utf8(bytes@),
{
    std::str::from_utf8(bytes).ok().map(String::from)
}

// ---------------------------------------------------------------------
// Characters
// ---------------------------------------------------------------------

/// An ASCII capital letter becomes its small letter; anything else stays.
pub open spec fn lower_char(c: char) -> char {
    if 'A' <= c && c <= 'Z' {
        ((c as u32) + 32) as char
    } else {
        c
    }
}

/// Every character of `s`, lowercased if it is an ASCII capital.
pub open spec fn ascii_lowercase(s: Seq<char>) -> Seq<char> {
    Seq::new(s.len(), |i: int| lower_char(s[i]))
}

/// `s` without the dots at its end.
pub open spec fn trim_end_dots(s: Seq<char>) -> Seq<char>
    decreases s.len(),
{
    if s.len() > 0 && s.last() == '.' {
        trim_end_dots(s.drop_last())
    } else {
        s
    }
}

/// The form in which host names are compared: no trailing dot, lowercase.
pub open spec fn normalize_host(s: Seq<char>) -> Seq<char> {
    ascii_lowercase(trim_end_dots(s))
}

/// The Unicode White_Space property.
pub open spec fn white_space(c: char) -> bool {
    ||| '\u{9}' <= c && c <= '\u{d}'
    ||| c == ' '
    ||| c == '\u{85}'
    ||| c == '\u{a0}'
    ||| c == '\u{1680}'
    ||| '\u{2000}' <= c && c <= '\u{200a}'
    ||| c == '\u{2028}'
    ||| c == '\u{2029}'
    ||| c == '\u{202f}'
    ||| c == '\u{205f}'
    ||| c == '\u{3000}'
}

/// No character of `s` is anything but white space (so `s` trims to nothing).
pub open spec fn blank(s: Seq<char>) -> bool {
    forall|i: int| 0 <= i < s.len() ==> white_space(#[trigger] s[i])
}

pub fn is_white_space(c: char) -> (res: bool)
    ensures
        res == white_space(c),
{
    ('\u{9}' <= c && c <= '\u{d}') || c == ' ' || c == '\u{85}' || c == '\u{a0}' || c == '\u{1680}'
        || ('\u{2000}' <= c && c <= '\u{200a}') || c == '\u{2028}' || c == '\u{2029}' || c
        == '\u{202f}' || c == '\u{205f}' || c == '\u{3000}'
}

pub fn lowered(c: char) -> (res: char)
    ensures
        res == lower_char(c),
{
    if 'A' <= c && c <= 'Z' {
        let b: u8 = c as u8;
        (b + 32) as char
    } else {
        c
    }
}

/// The characters of `s`, one by one.
pub fn chars_of(s: &str) -> (res: Vec<char>)
    ensures
        res@ == s@,
{
    let mut out: Vec<char> = Vec::new();
    for c in it: s.chars()
        invariant
            out@ == it.seq().take(it.index()),
            it.seq() == s@,
    {
        out.push(c);
    }
    out
}

/// A string made of the first `n` of `chars`.
pub fn text_of(chars: &Vec<char>, n: usize) -> (res: String)
    requires
        n <= chars@.len(),
    ensures
        res@ == chars@.take(n as int),
{
    let mut out = String::new();
    for i in 0..n
        invariant
            n <= chars@.len(),
            out@ == chars@.take(i as int),
    {
        out.push(chars[i]);
        assert(chars@.take(i + 1) =~= chars@.take(i as int).push(chars@[i as int]));
    }
    out
}

/// `s` as an owned string.
pub fn owned(s: &str) -> (res: String)
    ensures
        res@ == s@,
{
    s.to_string()
}

/// Appends all of `extra` to `out`.
pub fn append_text(out: &mut String, extra: &str)
    ensures
        final(out)@ == old(out)@ + extra@,
{
    let ghost before = out@;
    for c in it: extra.chars()
        invariant
            it.seq() == extra@,
            out@ == before + extra@.take(it.index()),
    {
        proof {
            assert(extra@.take(it.index() + 1) =~= extra@.take(it.index()).push(c));
        }
        out.push(c);
    }
    proof {
        assert(extra@.take(extra@.len() as int) =~= extra@);
    }
}

/// A host name in the form in which it is compared.
pub fn normalized_host(s: &str) -> (res: String)
    ensures
        res@ == normalize_host(s@),
{
    let chars = chars_of(s);
    let mut n: usize = chars.len();
    proof {
        assert(s@.take(n as int) =~= s@);
    }
    while n > 0 && chars[n - 1] == '.'
        invariant
            n <= chars@.len(),
            chars@ == s@,
            trim_end_dots(s@.take(n as int)) == trim_end_dots(s@),
        decreases n,
    {
        proof {
            assert(s@.take(n as int).drop_last() =~= s@.take(n - 1));
        }
        n = n - 1;
    }
    lowercase_of(&chars, n)
}

fn lowercase_of(chars: &Vec<char>, n: usize) -> (res: String)
    requires
        n <= chars@.len(),
    ensures
        res@ == ascii_lowercase(chars@.take(n as int)),
{
    let mut out = String::new();
    for i in 0..n
        invariant
            n <= chars@.len(),
            out@ == ascii_lowercase(chars@.take(i as int)),
    {
        out.push(lowered(chars[i]));
        proof {
            assert(ascii_lowercase(chars@.take(i + 1)) =~= ascii_lowercase(
                chars@.take(i as int),
            ).push(lower_char(chars@[i as int])));
        }
    }
    out
}

/// `s` with its ASCII capitals lowercased.
pub fn lowercased(s: &str) -> (res: String)
    ensures
        res@ == ascii_lowercase(s@),
{
    let chars = chars_of(s);
    proof {
        assert(chars@.take(chars@.len() as int) =~= s@);
    }
    lowercase_of(&chars, chars.len())
}

/// Whether `s` begins with `prefix`.
pub fn begins_with(s: &str, prefix: &str) -> (res: bool)
    ensures
        res == prefix@.is_prefix_of(s@),
{
    let chars = chars_of(s);
    let wanted = chars_of(prefix);
    if wanted.len() > chars.len() {
        return false;
    }
    for i in 0..wanted.len()
        invariant
            chars@ == s@,
            wanted@ == prefix@,
            wanted@.len() <= chars@.len(),
            forall|j: int| 0 <= j < i ==> prefix@[j] == s@[j],
    {
        if chars[i] != wanted[i] {
            proof {
                assert(prefix@[i as int] != s@.subrange(0, prefix@.len() as int)[i as int]);
            }
            return false;
        }
    }
    proof {
        assert(prefix@ =~= s@.subrange(0, prefix@.len() as int));
    }
    true
}

/// What stands in `s` before the first `c`; all of it if there is none.
pub open spec fn before_first(s: Seq<char>, c: char) -> Seq<char>
    decreases s.len(),
{
    if s.len() == 0 || s[0] == c {
        Seq::empty()
    } else {
        seq![s[0]] + before_first(s.skip(1), c)
    }
}

proof fn lemma_before_first(s: Seq<char>, c: char, n: int)
    requires
        0 <= n <= s.len(),
        forall|i: int| 0 <= i < n ==> #[trigger] s[i] != c,
        n < s.len() ==> s[n] == c,
    ensures
        before_first(s, c) == s.take(n),
    decreases s.len(),
{
    if n == 0 {
        assert(s.take(0) =~= Seq::empty());
    } else {
        let rest = s.skip(1);
        assert forall|i: int| 0 <= i < n - 1 implies #[trigger] rest[i] != c by {
            assert(rest[i] == s[i + 1]);
        }
        lemma_before_first(rest, c, n - 1);
        assert(s.take(n) =~= seq![s[0]] + rest.take(n - 1));
    }
}

/// What stands in `s` before the first `c`; all of it if there is none.
pub fn text_before(s: &str, c: char) -> (res: String)
    ensures
        res@ == before_first(s@, c),
{
    let chars = chars_of(s);
    let mut n: usize = 0;
    while n < chars.len() && chars[n] != c
        invariant
            n <= chars@.len(),
            chars@ == s@,
            forall|i: int| 0 <= i < n ==> #[trigger] s@[i] != c,
        decreases chars@.len() - n,
    {
        n = n + 1;
    }
    proof {
        lemma_before_first(s@, c, n as int);
    }
    text_of(&chars, n)
}

/// What stands after the first `c`; nothing if there is none.
pub open spec fn after_first(s: Seq<char>, c: char) -> Seq<char> {
    let n = before_first(s, c).len();
    if n < s.len() {
        s.skip(n as int + 1)
    } else {
        Seq::empty()
    }
}

/// The text of the characters from `start` on.
pub fn text_from(chars: &Vec<char>, start: usize) -> (res: String)
    requires
        start <= chars@.len(),
    ensures
        res@ == chars@.skip(start as int),
{
    let mut out = String::new();
    for i in start..chars.len()
        invariant
            start <= chars@.len(),
            out@ == chars@.subrange(start as int, i as int),
    {
        out.push(chars[i]);
        proof {
            assert(chars@.subrange(start as int, i + 1) =~= chars@.subrange(
                start as int,
                i as int,
            ).push(chars@[i as int]));
        }
    }
    proof {
        assert(chars@.subrange(start as int, chars@.len() as int) =~= chars@.skip(start as int));
    }
    out
}

/// What stands after the first `c`; nothing if there is none.
pub fn text_after(s: &str, c: char) -> (res: String)
    ensures
        res@ == after_first(s@, c),
{
    let chars = chars_of(s);
    let before = text_before(s, c);
    let n: usize = chars_of(before.as_str()).len();
    if n < chars.len() {
        text_from(&chars, n + 1)
    } else {
        String::new()
    }
}

/// The last place at which `c` stands in `s`.
pub open spec fn last_place(s: Seq<char>, c: char) -> Option<int>
    decreases s.len(),
{
    if s.len() == 0 {
        None
    } else if s.last() == c {
        Some(s.len() - 1)
    } else {
        last_place(s.drop_last(), c)
    }
}

/// Where `c` stands last, if it is there at all.
pub fn find_last(chars: &Vec<char>, c: char) -> (res: Option<usize>)
    ensures
        match res {
            Some(i) => i < chars.len() && last_place(chars@, c) == Some(i as int),
            None => last_place(chars@, c) is None,
        },
{
    let mut n: usize = chars.len();
    proof {
        assert(chars@.take(n as int) =~= chars@);
    }
    while n > 0
        invariant
            n <= chars@.len(),
            last_place(chars@.take(n as int), c) == last_place(chars@, c),
        decreases n,
    {
        if chars[n - 1] == c {
            return Some(n - 1);
        }
        proof {
            assert(chars@.take(n as int).drop_last() =~= chars@.take(n - 1));
        }
        n = n - 1;
    }
    None
}

/// What stands before and after the last `c` has no part in where it is.
pub proof fn law_last_place(head: Seq<char>, c: char, tail: Seq<char>)
    requires
        !tail.contains(c),
    ensures
        last_place(head + seq![c] + tail, c) == Some(head.len() as int),
        last_place(tail, c) is None,
    decreases tail.len(),
{
    let all = head + seq![c] + tail;
    if tail.len() > 0 {
        let less = tail.drop_last();
        assert(tail.contains(tail.last()));
        assert forall|i: int| 0 <= i < less.len() implies #[trigger] less[i] != c by {
            assert(tail.contains(tail[i]));
        }
        law_last_place(head, c, less);
        assert(all.drop_last() =~= head + seq![c] + less);
        assert(all.last() == tail.last());
    } else {
        assert(all.last() == c);
    }
}

/// What follows the first `c`, whatever it is, does not matter.
pub proof fn law_before_first_ignores_the_rest(s: Seq<char>, c: char, rest: Seq<char>)
    requires
        !s.contains(c),
    ensures
        before_first(s + seq![c] + rest, c) == s,
{
    let all = s + seq![c] + rest;
    assert forall|i: int| 0 <= i < s.len() implies #[trigger] all[i] != c by {
        assert(s.contains(s[i]));
    }
    lemma_before_first(all, c, s.len() as int);
    assert(all.take(s.len() as int) =~= s);
}

/// Whether `s` holds nothing but white space.
pub fn is_blank(s: &str) -> (res: bool)
    ensures
        res == blank(s@),
{
    let chars = chars_of(s);
    for i in 0..chars.len()
        invariant
            chars@ == s@,
            forall|j: int| 0 <= j < i ==> white_space(#[trigger] s@[j]),
    {
        if !is_white_space(chars[i]) {
            proof {
                assert(!white_space(s@[i as int]));
            }
            return false;
        }
    }
    true
}

// ---------------------------------------------------------------------
// Numbers
// ---------------------------------------------------------------------

/// The character for one digit: `0` to `9`, then `a` to `f`.
pub open spec fn digit_char(d: nat) -> char {
    if d < 10 {
        (('0' as u32) + d) as char
    } else {
        (('a' as u32) + (d - 10)) as char
    }
}

/// `n` written in the given base, without leading zeros.
pub open spec fn digits(n: nat, base: nat) -> Seq<char>
    decreases n,
{
    if base < 2 {
        Seq::empty()
    } else if n < base {
        seq![digit_char(n)]
    } else {
        proof {
            vstd::arithmetic::div_mod::lemma_div_decreases(n as int, base as int);
        }
        digits(n / base, base).push(digit_char(n % base))
    }
}

/// `n` in decimal.
pub open spec fn decimal(n: nat) -> Seq<char> {
    digits(n, 10)
}

/// `n` in lowercase hexadecimal.
pub open spec fn hexadecimal(n: nat) -> Seq<char> {
    digits(n, 16)
}

/// A signed number in decimal, with a leading `-` where it is negative.
pub open spec fn signed_decimal(n: int) -> Seq<char> {
    if n < 0 {
        seq!['-'] + decimal((-n) as nat)
    } else {
        decimal(n as nat)
    }
}

fn digit(d: u8) -> (res: char)
    requires
        d < 16,
    ensures
        res == digit_char(d as nat),
{
    if d < 10 {
        (48 + d) as char
    } else {
        (87 + d) as char
    }
}

fn digits_text(n: u64, base: u64) -> (res: String)
    requires
        2 <= base <= 16,
    ensures
        res@ == digits(n as nat, base as nat),
    decreases n,
{
    if n < base {
        let mut out = String::new();
        out.push(digit(n as u8));
        out
    } else {
        proof {
            assert(n / base < n) by (nonlinear_arith)
                requires
                    base >= 2,
                    n >= base,
            ;
        }
        let mut out = digits_text(n / base, base);
        out.push(digit((n % base) as u8));
        out
    }
}

/// `n` in decimal.
pub fn decimal_text(n: u64) -> (res: String)
    ensures
        res@ == decimal(n as nat),
{
    digits_text(n, 10)
}

/// `n` in lowercase hexadecimal.
pub fn hex_text(n: u64) -> (res: String)
    ensures
        res@ == hexadecimal(n as nat),
{
    digits_text(n, 16)
}

/// `n` in decimal, with its sign where it is negative.
pub fn signed_text(n: i64) -> (res: String)
    ensures
        res@ == signed_decimal(n as int),
{
    if n < 0 {
        let mut out = String::new();
        out.push('-');
        let magnitude: u64 = (-(n as i128)) as u64;
        let tail = decimal_text(magnitude);
        append_text(&mut out, tail.as_str());
        proof {
            assert(out@ =~= seq!['-'] + decimal((-n) as nat));
        }
        out
    } else {
        decimal_text(n as u64)
    }
}

/// The value of a decimal digit, or nothing for any other character.
pub open spec fn digit_value(c: char) -> Option<nat> {
    if '0' <= c && c <= '9' {
        Some(((c as u32) - ('0' as u32)) as nat)
    } else {
        None
    }
}

/// The number that a run of decimal digits stands for; nothing if any
/// character is not a decimal digit.
pub open spec fn digits_value(s: Seq<char>) -> Option<nat>
    decreases s.len(),
{
    if s.len() == 0 {
        Some(0)
    } else {
        match (digits_value(s.drop_last()), digit_value(s.last())) {
            (Some(head), Some(d)) => Some(head * 10 + d),
            _ => None,
        }
    }
}

/// Reading an unsigned number no larger than `max`: an optional `+`, then one
/// or more decimal digits and nothing else.
pub open spec fn parsed_number(s: Seq<char>, max: nat) -> Option<nat> {
    let body = if s.len() > 0 && s[0] == '+' {
        s.skip(1)
    } else {
        s
    };
    if body.len() == 0 {
        None
    } else {
        match digits_value(body) {
            Some(n) => if n <= max {
                Some(n)
            } else {
                None
            },
            None => None,
        }
    }
}

proof fn lemma_digits_prefix(s: Seq<char>, n: int)
    requires
        0 <= n <= s.len(),
    ensures
        digits_value(s.take(n)) is None ==> digits_value(s) is None,
        digits_value(s) matches Some(v) ==> digits_value(s.take(n))->0 <= v,
    decreases s.len() - n,
{
    if n < s.len() {
        lemma_digits_prefix(s, n + 1);
        assert(s.take(n + 1).drop_last() =~= s.take(n));
    } else {
        assert(s.take(n) =~= s);
    }
}

/// Reads an unsigned number no larger than `max`.
pub fn parse_number(s: &str, max: u64) -> (res: Option<u64>)
    ensures
        res is Some <==> parsed_number(s@, max as nat) is Some,
        res matches Some(n) ==> parsed_number(s@, max as nat) == Some(n as nat),
{
    let chars = chars_of(s);
    let plus: bool = chars.len() > 0 && chars[0] == '+';
    let start: usize = if plus { 1 } else { 0 };
    let ghost body = s@.skip(start as int);
    proof {
        assert(s@.skip(0) =~= s@);
    }
    if chars.len() == start {
        return None;
    }
    let mut value: u64 = 0;
    for i in start..chars.len()
        invariant
            chars@ == s@,
            start <= chars@.len(),
            body == s@.skip(start as int),
            digits_value(body.take(i - start)) == Some(value as nat),
            value <= max,
            parsed_number(s@, max as nat) == (match digits_value(body) {
                Some(n) => if n <= max {
                    Some(n)
                } else {
                    None
                },
                None => None,
            }),
    {
        let c: char = chars[i];
        proof {
            assert(body.take(i - start + 1).drop_last() =~= body.take(i - start));
            assert(body.take(i - start + 1).last() == c);
            lemma_digits_prefix(body, i - start + 1);
        }
        if !('0' <= c && c <= '9') {
            return None;
        }
        let d: u64 = (c as u32 - '0' as u32) as u64;
        let next: u128 = value as u128 * 10 + d as u128;
        if next > max as u128 {
            return None;
        }
        value = next as u64;
    }
    proof {
        assert(body.take(body.len() as int) =~= body);
    }
    Some(value)
}

// ---------------------------------------------------------------------
// Laws
// ---------------------------------------------------------------------

proof fn lemma_trim_fixed(s: Seq<char>)
    ensures
        trim_end_dots(s).len() > 0 ==> trim_end_dots(s).last() != '.',
        trim_end_dots(trim_end_dots(s)) == trim_end_dots(s),
    decreases s.len(),
{
    if s.len() > 0 && s.last() == '.' {
        lemma_trim_fixed(s.drop_last());
    }
}

/// A normalised host name holds no ASCII capital and does not end in a dot,
/// and normalising it again changes nothing.
pub proof fn law_normalize_is_canonical(s: Seq<char>)
    ensures
        forall|i: int|
            0 <= i < normalize_host(s).len() ==> !('A' <= #[trigger] normalize_host(s)[i]
                && normalize_host(s)[i] <= 'Z'),
        normalize_host(s).len() > 0 ==> normalize_host(s).last() != '.',
        normalize_host(normalize_host(s)) == normalize_host(s),
{
    lemma_trim_fixed(s);
    let t = trim_end_dots(s);
    let n = ascii_lowercase(t);
    assert(trim_end_dots(n) == n);
    assert(ascii_lowercase(n) =~= n);
}

proof fn lemma_digits_read_back(n: nat)
    ensures
        digits_value(decimal(n)) == Some(n),
        decimal(n).len() > 0,
        forall|i: int| 0 <= i < decimal(n).len() ==> #[trigger] decimal(n)[i] != '+',
    decreases n,
{
    reveal_with_fuel(digits_value, 2);
    if n >= 10 {
        lemma_digits_read_back(n / 10);
        assert(decimal(n).drop_last() =~= decimal(n / 10));
    } else {
        assert(decimal(n).drop_last() =~= Seq::<char>::empty());
    }
}

/// Reading a number back from its decimal text gives the number.
pub proof fn law_decimal_reads_back(n: nat, max: nat)
    ensures
        parsed_number(decimal(n), max) == (if n <= max {
            Some(n)
        } else {
            None
        }),
{
    lemma_digits_read_back(n);
}

/// No digit of a hexadecimal number is a dash.
pub proof fn lemma_hex_digits(n: nat)
    ensures
        hexadecimal(n).len() > 0,
        forall|i: int| 0 <= i < hexadecimal(n).len() ==> #[trigger] hexadecimal(n)[i] != '-',
    decreases n,
{
    if n >= 16 {
        lemma_hex_digits(n / 16);
    }
}

/// The digits of a number are printable ASCII.
pub proof fn lemma_hex_is_printable(n: nat)
    ensures
        forall|i: int|
            0 <= i < hexadecimal(n).len() ==> '0' <= #[trigger] hexadecimal(n)[i]
                && hexadecimal(n)[i] <= 'f',
    decreases n,
{
    if n >= 16 {
        lemma_hex_is_printable(n / 16);
        assert(hexadecimal(n) =~= hexadecimal(n / 16).push(digit_char(n % 16)));
    }
}

/// The digits of a number are printable ASCII.
pub proof fn lemma_decimal_is_printable(n: nat)
    ensures
        forall|i: int|
            0 <= i < decimal(n).len() ==> '0' <= #[trigger] decimal(n)[i] && decimal(n)[i] <= '9',
    decreases n,
{
    if n >= 10 {
        lemma_decimal_is_printable(n / 10);
        assert(decimal(n) =~= decimal(n / 10).push(digit_char(n % 10)));
    }
}

/// Two numbers with the same hexadecimal text are the same.
pub proof fn law_hexadecimal_tells_numbers_apart(a: nat, b: nat)
    requires
        hexadecimal(a) == hexadecimal(b),
    ensures
        a == b,
    decreases a,
{
    let s = hexadecimal(a);
    assert(s.last() == digit_char(a % 16));
    assert(s.last() == digit_char(b % 16));
    assert(a % 16 == b % 16);
    if a >= 16 {
        lemma_hex_digits(a / 16);
        assert(s.len() >= 2);
        assert(b >= 16);
        assert(s.drop_last() =~= hexadecimal(a / 16));
        assert(s.drop_last() =~= hexadecimal(b / 16));
        law_hexadecimal_tells_numbers_apart(a / 16, b / 16);
    } else if b >= 16 {
        lemma_hex_digits(b / 16);
    }
}

/// A text without the character is all before it.
pub proof fn lemma_before_first_whole(s: Seq<char>, c: char)
    requires
        !s.contains(c),
    ensures
        before_first(s, c) == s,
{
    assert forall|i: int| 0 <= i < s.len() implies #[trigger] s[i] != c by {
        assert(s.contains(s[i]));
    }
    lemma_before_first(s, c, s.len() as int);
    assert(s.take(s.len() as int) =~= s);
}

/// A character takes up at most four bytes in UTF-8.
pub proof fn lemma_utf8_length(s: Seq<char>)
    ensures
        vstd::utf8::encode_utf8(s).len() <= 4 * s.len(),
    decreases s.len(),
{
    if s.len() > 0 {
        lemma_utf8_length(s.drop_first());
    }
}

/// Lowercasing turns each ASCII capital into its small letter, 32 places
/// further on, and leaves every other character where and what it is.
pub proof fn law_lowercase_changes_capitals_only(s: Seq<char>)
    ensures
        ascii_lowercase(s).len() == s.len(),
        forall|i: int|
            0 <= i < s.len() ==> (#[trigger] ascii_lowercase(s)[i]) as int == (if 65 <= s[i] as int
                <= 90 {
                s[i] as int + 32
            } else {
                s[i] as int
            }),
{
}

/// So many dots.
pub open spec fn dots(k: nat) -> Seq<char> {
    Seq::new(k, |i: int| '.')
}

proof fn lemma_trim_dots(h: Seq<char>, k: nat)
    requires
        h.len() > 0 ==> h.last() != '.',
    ensures
        trim_end_dots(h + dots(k)) == h,
    decreases k,
{
    let s = h + dots(k);
    if k > 0 {
        lemma_trim_dots(h, (k - 1) as nat);
        assert(s.drop_last() =~= h + dots((k - 1) as nat));
        assert(s.last() == '.');
    } else {
        assert(s =~= h);
    }
}

/// Normalising a host name drops the dots at its end and lowers its ASCII
/// capitals, and keeps every other character: a name that has neither is
/// already normalised, however long it is.
pub proof fn law_normalize_keeps_all_but_case_and_trailing_dots(h: Seq<char>, tail: Seq<char>)
    requires
        h.len() > 0 ==> h.last() != '.',
        forall|i: int| 0 <= i < tail.len() ==> #[trigger] tail[i] == '.',
    ensures
        normalize_host(h + tail).len() == h.len(),
        forall|i: int|
            0 <= i < h.len() ==> (#[trigger] normalize_host(h + tail)[i]) as int == (if 65
                <= h[i] as int <= 90 {
                h[i] as int + 32
            } else {
                h[i] as int
            }),
        (forall|i: int| 0 <= i < h.len() ==> !(65 <= #[trigger] h[i] as int <= 90))
            ==> normalize_host(h + tail) == h && normalize_host(h) == h,
{
    lemma_trim_dots(h, tail.len());
    lemma_trim_dots(h, 0);
    assert(tail =~= dots(tail.len()));
    assert(h + dots(0) =~= h);
    law_lowercase_changes_capitals_only(h);
    if forall|i: int| 0 <= i < h.len() ==> !(65 <= #[trigger] h[i] as int <= 90) {
        assert(ascii_lowercase(h) =~= h);
    }
}

/// Two host names compare as the same exactly if they are equal up to ASCII
/// case and the dots at their ends.
pub proof fn law_hosts_compare_up_to_case_and_trailing_dots(
    a: Seq<char>,
    a_tail: Seq<char>,
    b: Seq<char>,
    b_tail: Seq<char>,
)
    requires
        a.len() > 0 ==> a.last() != '.',
        b.len() > 0 ==> b.last() != '.',
        forall|i: int| 0 <= i < a_tail.len() ==> #[trigger] a_tail[i] == '.',
        forall|i: int| 0 <= i < b_tail.len() ==> #[trigger] b_tail[i] == '.',
    ensures
        normalize_host(a + a_tail) == normalize_host(b + b_tail) <==> a.len() == b.len() && forall|
            i: int,
        |
            0 <= i < a.len() ==> (if 65 <= #[trigger] a[i] as int <= 90 {
                a[i] as int + 32
            } else {
                a[i] as int
            }) == (if 65 <= b[i] as int <= 90 {
                b[i] as int + 32
            } else {
                b[i] as int
            }),
{
    let x = normalize_host(a + a_tail);
    let y = normalize_host(b + b_tail);
    law_normalize_keeps_all_but_case_and_trailing_dots(a, a_tail);
    law_normalize_keeps_all_but_case_and_trailing_dots(b, b_tail);
    if a.len() == b.len() && forall|i: int|
        0 <= i < a.len() ==> (if 65 <= #[trigger] a[i] as int <= 90 {
            a[i] as int + 32
        } else {
            a[i] as int
        }) == (if 65 <= b[i] as int <= 90 {
            b[i] as int + 32
        } else {
            b[i] as int
        }) {
        assert forall|i: int| 0 <= i < x.len() implies x[i] == y[i] by {
            let c = a[i] as int;
            assert(x[i] as int == y[i] as int);
        }
        assert(x =~= y);
    }
    if x == y {
        assert forall|i: int| 0 <= i < a.len() implies (if 65 <= #[trigger] a[i] as int <= 90 {
            a[i] as int + 32
        } else {
            a[i] as int
        }) == (if 65 <= b[i] as int <= 90 {
            b[i] as int + 32
        } else {
            b[i] as int
        }) by {
            assert(x[i] as int == y[i] as int);
        }
    }
}

/// White space is: the tab, the line feed and what lies between that and the
/// carriage return, the space, and the white space beyond ASCII.
pub proof fn law_white_space(c: char)
    ensures
        c as int <= 0x7f ==> (white_space(c) <==> 9 <= c as int <= 13 || c as int == 32),
        c as int > 0x7f ==> (white_space(c) <==> c as int == 0x85 || c as int == 0xa0 || c as int
            == 0x1680 || 0x2000 <= c as int <= 0x200a || c as int == 0x2028 || c as int == 0x2029
            || c as int == 0x202f || c as int == 0x205f || c as int == 0x3000),
{
}

/// A text is cut in two at the first place where a character stands, and is
/// all before it where the character does not stand at all.
pub proof fn law_cut_at_the_first(s: Seq<char>, c: char, rest: Seq<char>)
    requires
        !s.contains(c),
    ensures
        before_first(s + seq![c] + rest, c) == s,
        after_first(s + seq![c] + rest, c) == rest,
        before_first(s, c) == s,
        after_first(s, c) == Seq::<char>::empty(),
{
    law_before_first_ignores_the_rest(s, c, rest);
    lemma_before_first_whole(s, c);
    assert((s + seq![c] + rest).skip(s.len() as int + 1) =~= rest);
}

/// Reading numbers, digit by digit: a digit behind a number makes it ten times
/// as large and adds the digit, a `+` before it changes nothing, and a number
/// above the bound is none.
pub proof fn law_reading_numbers(s: Seq<char>, n: nat, d: nat, max: nat)
    requires
        d < 10,
    ensures
        parsed_number(Seq::empty(), max) is None,
        parsed_number(seq![(48 + d) as char], max) == (if d <= max {
            Some(d)
        } else {
            None
        }),
        parsed_number(s, n) == Some(n) ==> parsed_number(s.push((48 + d) as char), max) == (if 10
            * n + d <= max {
            Some((10 * n + d) as nat)
        } else {
            None
        }),
        s.len() == 0 || s[0] as int != 43 ==> parsed_number(seq!['+'] + s, max) == parsed_number(
            s,
            max,
        ),
        (exists|i: int|
            0 <= i < s.len() && !(48 <= #[trigger] s[i] as int <= 57) && (i > 0 || s[i] as int
                != 43)) ==> parsed_number(s, max) is None,
{
    reveal_with_fuel(digits_value, 2);
    let one = seq![(48 + d) as char];
    assert(one.drop_last() =~= Seq::<char>::empty());
    assert(one.last() as int == 48 + d);
    assert(digit_value(one.last()) == Some(d));
    let longer = s.push((48 + d) as char);
    if parsed_number(s, n) == Some(n) {
        if s[0] == '+' {
            assert(longer.skip(1).drop_last() =~= s.skip(1));
            assert(longer.skip(1).last() == (48 + d) as char);
        } else {
            assert(longer.drop_last() =~= s);
        }
    }
    assert((seq!['+'] + s).skip(1) =~= s);
    if exists|i: int|
        0 <= i < s.len() && !(48 <= #[trigger] s[i] as int <= 57) && (i > 0 || s[i] as int
            != 43) {
        let i = choose|i: int|
            0 <= i < s.len() && !(48 <= #[trigger] s[i] as int <= 57) && (i > 0 || s[i] as int
                != 43);
        if s[0] == '+' {
            assert(s.skip(1)[i - 1] == s[i]);
            lemma_odd_digit(s.skip(1), i - 1);
        } else {
            lemma_odd_digit(s, i);
        }
    }
}

proof fn lemma_odd_digit(s: Seq<char>, i: int)
    requires
        0 <= i < s.len(),
        !(48 <= s[i] as int <= 57),
    ensures
        digits_value(s) is None,
    decreases s.len(),
{
    if i < s.len() - 1 {
        lemma_odd_digit(s.drop_last(), i);
    }
}

/// Writing numbers, digit by digit, in decimal and in hexadecimal.
pub proof fn law_writing_numbers(n: nat, d: nat)
    ensures
        d < 10 ==> decimal(d) == seq![(48 + d) as char],
        d < 10 && n > 0 ==> decimal((10 * n + d) as nat) == decimal(n).push((48 + d) as char),
        d < 16 ==> hexadecimal(d) == seq![
            (if d < 10 {
                48 + d
            } else {
                87 + d
            }) as char,
        ],
        d < 16 && n > 0 ==> hexadecimal((16 * n + d) as nat) == hexadecimal(n).push(
            (if d < 10 {
                48 + d
            } else {
                87 + d
            }) as char,
        ),
        signed_decimal(n as int) == decimal(n),
        n > 0 ==> signed_decimal(-(n as int)) == seq!['-'] + decimal(n),
{
    if d < 10 && n > 0 {
        assert((10 * n + d) / 10 == n && (10 * n + d) % 10 == d);
    }
    if d < 16 && n > 0 {
        assert((16 * n + d) / 16 == n && (16 * n + d) % 16 == d);
    }
}

} // verus!
