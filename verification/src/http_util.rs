//! HTTP responses, and what building them takes from outside: dates, the rule
//! for header values, and percent-decoding.

use crate::buffers;
use crate::text;
use bytes::Bytes;
use vstd::prelude::*;

verus! {

/// The first second that has no HTTP date: the start of the year 10000.
pub const HTTP_DATE_END: u64 = 253_402_300_800;

/// The HTTP date (IMF-fixdate) of a second since the Unix epoch.
pub uninterp spec fn http_date_text(secs: u64) -> Seq<char>;

/// `httpdate::fmt_http_date` writes a time as an HTTP date: 29 characters of
/// printable ASCII. It panics on times from the year 10000 on.
#[verifier::external_body]
pub(crate) fn http_date(secs: u64) -> (res: String)
    requires
        secs < HTTP_DATE_END,
    ensures
        res@ == http_date_text(secs),
        res@.len() == 29,
        forall|i: int| 0 <= i < res@.len() ==> ' ' <= #[trigger] res@[i] && res@[i] <= '~',
{
    httpdate::fmt_http_date(std::time::UNIX_EPOCH + std::time::Duration::from_secs(secs))
}

/// A text that can be the value of a header: no control character but the tab.
pub open spec fn header_text(s: Seq<char>) -> bool {
    forall|i: int|
        0 <= i < s.len() ==> (#[trigger] s[i] == '\t' || (s[i] >= ' ' && s[i] != '\u{7f}'))
}

/// `http::HeaderValue::from_str` accepts a text if no byte of it is a control
/// character other than the tab. The bytes of characters beyond ASCII are none.
#[verifier::external_body]
pub(crate) fn is_header_text(s: &str) -> (res: bool)
    ensures
        res == header_text(s@),
{
    http::HeaderValue::from_str(s).is_ok()
}

/// The value of a hexadecimal digit given as an ASCII byte.
pub open spec fn hex_value(b: u8) -> Option<int> {
    if 0x30 <= b <= 0x39 {
        Some(b - 0x30)
    } else if 0x41 <= b <= 0x46 {
        Some(b - 0x41 + 10)
    } else if 0x61 <= b <= 0x66 {
        Some(b - 0x61 + 10)
    } else {
        None
    }
}

/// A percent sign with two hexadecimal digits behind it starts the bytes.
pub open spec fn starts_with_escape(s: Seq<u8>) -> bool {
    s.len() >= 3 && s[0] == 0x25 && hex_value(s[1]) is Some && hex_value(s[2]) is Some
}

/// The bytes with every percent sign and the two hexadecimal digits behind it
/// replaced by the byte that they stand for. Any other percent sign stays.
pub open spec fn percent_decoded_bytes(s: Seq<u8>) -> Seq<u8>
    decreases s.len(),
{
    if s.len() == 0 {
        Seq::empty()
    } else if starts_with_escape(s) {
        seq![(hex_value(s[1])->0 * 16 + hex_value(s[2])->0) as u8] + percent_decoded_bytes(
            s.skip(3),
        )
    } else {
        seq![s[0]] + percent_decoded_bytes(s.skip(1))
    }
}

/// The text of bytes that may not be well-formed UTF-8: what is not is
/// replaced by U+FFFD.
pub uninterp spec fn lossy_text(s: Seq<u8>) -> Seq<char>;

/// `percent_encoding::percent_decode_str` and `decode_utf8_lossy` decode the
/// escapes of a text and read the bytes as UTF-8. Well-formed bytes give the
/// characters that they encode. How much of other bytes one replacement
/// character stands for is left unsaid.
#[verifier::external_body]
pub(crate) fn percent_decoded(s: &str) -> (res: String)
    ensures
        res@ == lossy_text(percent_decoded_bytes(vstd::utf8::encode_utf8(s@))),
        vstd::utf8::valid_utf8(percent_decoded_bytes(vstd::utf8::encode_utf8(s@))) ==> res@
            == vstd::utf8::decode_utf8(percent_decoded_bytes(vstd::utf8::encode_utf8(s@))),
{
    percent_encoding::percent_decode_str(s).decode_utf8_lossy().into_owned()
}

// ---------------------------------------------------------------------
// Responses
// ---------------------------------------------------------------------

/// A response: its status, its headers and its body.
#[derive(Debug)]
pub struct HttpResponse {
    pub status: u16,
    pub headers: Vec<(&'static str, String)>,
    pub body: Bytes,
}

/// `HttpResponse` over mathematical values.
#[verifier::ext_equal]
pub struct Answer {
    pub status: u16,
    pub headers: Seq<(Seq<char>, Seq<char>)>,
    pub body: Seq<u8>,
}

pub open spec fn header_texts(headers: Seq<(&'static str, String)>) -> Seq<
    (Seq<char>, Seq<char>),
> {
    Seq::new(headers.len(), |i: int| (headers[i].0@, headers[i].1@))
}

impl View for HttpResponse {
    type V = Answer;

    open spec fn view(&self) -> Answer {
        Answer {
            status: self.status,
            headers: header_texts(self.headers@),
            body: buffers::shared_bytes(self.body),
        }
    }
}

/// Adds a header.
pub(crate) fn push_header(
    headers: &mut Vec<(&'static str, String)>,
    name: &'static str,
    value: &str,
)
    ensures
        header_texts(final(headers)@) == header_texts(old(headers)@).push((name@, value@)),
{
    headers.push((name, text::owned(value)));
    proof {
        assert(header_texts(headers@) =~= header_texts(old(headers)@).push((name@, value@)));
    }
}

/// A body without a byte in it.
pub(crate) fn empty_body() -> (res: Bytes)
    ensures
        buffers::shared_bytes(res) == Seq::<u8>::empty(),
{
    buffers::shared_from_vec(Vec::new())
}

/// The value of the first header of that name, read as a number.
pub open spec fn header_number(headers: Seq<(Seq<char>, Seq<char>)>, name: Seq<char>) -> Option<
    nat,
>
    decreases headers.len(),
{
    if headers.len() == 0 {
        None
    } else if headers[0].0 == name {
        text::parsed_number(headers[0].1, u64::MAX as nat)
    } else {
        header_number(headers.skip(1), name)
    }
}

/// The value of the first header of that name, read as a number.
pub(crate) fn number_in_header(headers: &Vec<(&'static str, String)>, name: &str) -> (res: Option<
    u64,
>)
    ensures
        res is Some <==> header_number(header_texts(headers@), name@) is Some,
        res matches Some(n) ==> header_number(header_texts(headers@), name@) == Some(n as nat),
{
    let ghost all = header_texts(headers@);
    let mut i: usize = 0;
    proof {
        assert(all.skip(0) =~= all);
    }
    while i < headers.len()
        invariant
            i <= headers@.len(),
            all == header_texts(headers@),
            header_number(all.skip(i as int), name@) == header_number(all, name@),
        decreases headers@.len() - i,
    {
        proof {
            assert(all.skip(i as int)[0] == all[i as int]);
            assert(all.skip(i as int).skip(1) =~= all.skip(i + 1));
        }
        if *headers[i].0 == *name {
            return text::parse_number(headers[i].1.as_str(), u64::MAX);
        }
        i = i + 1;
    }
    None
}

/// Decoding escapes, byte by byte: a percent sign with two hexadecimal digits
/// behind it becomes the byte that they stand for, and anything else stays.
pub proof fn law_escapes(first: u8, high: u8, low: u8, rest: Seq<u8>)
    ensures
        percent_decoded_bytes(Seq::empty()) == Seq::<u8>::empty(),
        first != 0x25 ==> percent_decoded_bytes(seq![first] + rest) == seq![first]
            + percent_decoded_bytes(rest),
        hex_value(high) is Some && hex_value(low) is Some ==> percent_decoded_bytes(
            seq![0x25, high, low] + rest,
        ) == seq![(hex_value(high)->0 * 16 + hex_value(low)->0) as u8] + percent_decoded_bytes(rest),
        hex_value(high) is None || hex_value(low) is None ==> percent_decoded_bytes(
            seq![0x25, high, low] + rest,
        ) == seq![0x25u8] + percent_decoded_bytes(seq![high, low] + rest),
        rest.len() < 2 ==> percent_decoded_bytes(seq![0x25u8] + rest) == seq![0x25u8]
            + percent_decoded_bytes(rest),
{
    let one = seq![first] + rest;
    assert(one.skip(1) =~= rest);
    let escape = seq![0x25, high, low] + rest;
    assert(escape.skip(3) =~= rest);
    assert(escape.skip(1) =~= seq![high, low] + rest);
    assert((seq![0x25u8] + rest).skip(1) =~= rest);
}

/// The digits of escapes: `0` to `9`, and `a` to `f` in either case.
pub proof fn law_hexadecimal_digits(b: u8)
    ensures
        48 <= b <= 57 ==> hex_value(b) == Some(b - 48),
        65 <= b <= 70 ==> hex_value(b) == Some(b - 55),
        97 <= b <= 102 ==> hex_value(b) == Some(b - 87),
        !(48 <= b <= 57 || 65 <= b <= 70 || 97 <= b <= 102) ==> hex_value(b) is None,
{
}

/// What has no percent sign in it has nothing to decode.
pub proof fn law_nothing_to_decode(s: Seq<u8>)
    requires
        !s.contains(0x25u8),
    ensures
        percent_decoded_bytes(s) == s,
    decreases s.len(),
{
    if s.len() > 0 {
        let rest = s.skip(1);
        assert(s.contains(s[0]));
        assert forall|i: int| 0 <= i < rest.len() implies #[trigger] rest[i] != 0x25u8 by {
            assert(s.contains(s[i + 1]));
        }
        law_nothing_to_decode(rest);
        assert(seq![s[0]] + rest =~= s);
    } else {
        assert(s =~= Seq::empty());
    }
}

/// A text can be the value of a header exactly if it has no control character
/// in it but tabs.
pub proof fn law_header_values(s: Seq<char>)
    ensures
        header_text(s) <==> !(exists|i: int|
            0 <= i < s.len() && (#[trigger] s[i] as int) != 9 && ((s[i] as int) < 32 || s[i] as int
                == 127)),
{
    if header_text(s) {
        assert forall|i: int| 0 <= i < s.len() implies !((#[trigger] s[i] as int) != 9 && ((
        s[i] as int) < 32 || s[i] as int == 127)) by {
            assert(s[i] == '\t' || (s[i] >= ' ' && s[i] != '\u{7f}'));
        }
    }
}

/// The first header of a name gives the number, and there is none without one.
pub proof fn law_numbers_in_headers(
    headers: Seq<(Seq<char>, Seq<char>)>,
    name: Seq<char>,
    i: int,
)
    ensures
        0 <= i < headers.len() && headers[i].0 == name && (forall|j: int|
            0 <= j < i ==> (#[trigger] headers[j]).0 != name) ==> header_number(headers, name)
            == text::parsed_number(headers[i].1, u64::MAX as nat),
        (forall|j: int| 0 <= j < headers.len() ==> (#[trigger] headers[j]).0 != name)
            ==> header_number(headers, name) is None,
    decreases headers.len(),
{
    if headers.len() > 0 && headers[0].0 != name {
        let rest = headers.skip(1);
        law_numbers_in_headers(rest, name, i - 1);
        if 0 <= i < headers.len() && headers[i].0 == name && (forall|j: int|
            0 <= j < i ==> (#[trigger] headers[j]).0 != name) {
            assert(rest[i - 1] == headers[i]);
            assert forall|j: int| 0 <= j < i - 1 implies (#[trigger] rest[j]).0 != name by {
                assert(rest[j] == headers[j + 1]);
            }
        }
        if forall|j: int| 0 <= j < headers.len() ==> (#[trigger] headers[j]).0 != name {
            assert forall|j: int| 0 <= j < rest.len() implies (#[trigger] rest[j]).0 != name by {
                assert(rest[j] == headers[j + 1]);
            }
        }
    }
}

/// The view of a response shows what it is.
pub proof fn law_responses_are_shown_as_they_are(response: HttpResponse)
    ensures
        response@.status == response.status,
        response@.body == buffers::shared_bytes(response.body),
        response@.headers.len() == response.headers@.len(),
        forall|i: int|
            0 <= i < response.headers@.len() ==> (#[trigger] response@.headers[i]).0
                == response.headers@[i].0@ && response@.headers[i].1 == response.headers@[i].1@,
{
}

} // verus!
