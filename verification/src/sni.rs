//! Reading the server name (SNI) out of a TLS ClientHello without taking part
//! in the TLS session.
//!
//! Raw bytes are gathered until the first TLS record is there in full. The
//! handshake message inside it is parsed for its `server_name` extension
//! (RFC 6066). The bytes gathered so far stay available, so that whoever
//! serves the connection can replay all of them.

use crate::buffers;
use crate::text;
use bytes::{Bytes, BytesMut};
use vstd::prelude::*;
use vstd::slice::slice_subrange;

verus! {

/// The largest TLS record, 2^14 bytes, and its 5-byte header: nothing beyond
/// that is gathered while looking for a server name.
pub const MAX_PROBE_BYTES: usize = 16389;

pub const MAX_RECORD_BYTES: usize = 16384;

pub const CONTENT_TYPE_HANDSHAKE: u8 = 0x16;

pub const HANDSHAKE_TYPE_CLIENT_HELLO: u8 = 0x01;

pub const EXTENSION_SERVER_NAME: usize = 0x0000;

pub const SERVER_NAME_TYPE_HOST_NAME: u8 = 0x00;

/// What looking for the server name of a connection came to.
#[derive(Debug, PartialEq, Eq)]
pub enum ProbeResult {
    /// A ClientHello with a server name.
    Sni(String),
    /// A ClientHello without a server name.
    NoSni,
    /// The bytes are not a TLS handshake, or not one that is looked into.
    NotTls,
    /// The peer closed the connection before anything could be decided.
    ConnectionClosed,
}

/// What one attempt at parsing the bytes gathered so far came to.
#[derive(Debug, PartialEq, Eq)]
pub enum ParseOutcome {
    /// A ClientHello, with its server name where it has one.
    Complete(Option<String>),
    /// The first record is not there in full yet.
    Incomplete,
    /// Certainly not a ClientHello.
    Invalid,
}

// ---------------------------------------------------------------------
// The format
// ---------------------------------------------------------------------

/// `ParseOutcome` over mathematical values.
pub enum Outcome {
    Complete(Option<Seq<char>>),
    Incomplete,
    Invalid,
}

/// The big-endian number in the two bytes from `i` on.
pub open spec fn be16(s: Seq<u8>, i: int) -> int {
    s[i] * 256 + s[i + 1]
}

/// The big-endian number in the three bytes from `i` on.
pub open spec fn be24(s: Seq<u8>, i: int) -> int {
    s[i] * 65536 + s[i + 1] * 256 + s[i + 2]
}

/// Where the vector that starts at `pos`, with its length in one byte, ends.
pub open spec fn after_vec8(s: Seq<u8>, pos: int) -> Option<int> {
    if pos + 1 <= s.len() && pos + 1 + s[pos] <= s.len() {
        Some(pos + 1 + s[pos])
    } else {
        None
    }
}

/// Where the vector that starts at `pos`, with its length in two bytes, ends.
pub open spec fn after_vec16(s: Seq<u8>, pos: int) -> Option<int> {
    if pos + 2 <= s.len() && pos + 2 + be16(s, pos) <= s.len() {
        Some(pos + 2 + be16(s, pos))
    } else {
        None
    }
}

/// Where the extensions of a ClientHello start: behind the version and the
/// random (34 bytes), the session id, the cipher suites and the compression
/// methods.
pub open spec fn extensions_start(body: Seq<u8>) -> Option<int> {
    if body.len() < 34 {
        None
    } else {
        match after_vec8(body, 34) {
            None => None,
            Some(suites) => match after_vec16(body, suites) {
                None => None,
                Some(methods) => after_vec8(body, methods),
            },
        }
    }
}

/// The server name in the body of a ClientHello.
pub open spec fn client_hello_name(body: Seq<u8>) -> Option<Seq<char>> {
    match extensions_start(body) {
        None => None,
        Some(pos) => match after_vec16(body, pos) {
            None => None,
            Some(end) => extension_name(body.subrange(pos + 2, end)),
        },
    }
}

/// The server name in a list of extensions: that of the first `server_name`
/// extension, if every extension before it lies within the list.
pub open spec fn extension_name(list: Seq<u8>) -> Option<Seq<char>>
    decreases list.len(),
{
    if list.len() < 4 || 4 + be16(list, 2) > list.len() {
        None
    } else if be16(list, 0) == EXTENSION_SERVER_NAME {
        server_name(list.subrange(4, 4 + be16(list, 2)))
    } else {
        extension_name(list.skip(4 + be16(list, 2)))
    }
}

/// The server name in the data of a `server_name` extension. A list that
/// claims to be longer than the data ends where the data ends.
pub open spec fn server_name(data: Seq<u8>) -> Option<Seq<char>> {
    if data.len() < 2 {
        None
    } else {
        let end = if 2 + be16(data, 0) < data.len() {
            2 + be16(data, 0)
        } else {
            data.len() as int
        };
        listed_name(data.subrange(2, end))
    }
}

/// The first host name in a list of server names, in the form in which host
/// names are compared, if it is well-formed UTF-8.
pub open spec fn listed_name(list: Seq<u8>) -> Option<Seq<char>>
    decreases list.len(),
{
    if list.len() < 3 || 3 + be16(list, 1) > list.len() {
        None
    } else if list[0] == SERVER_NAME_TYPE_HOST_NAME {
        let name = list.subrange(3, 3 + be16(list, 1));
        if vstd::utf8::valid_utf8(name) {
            Some(text::normalize_host(vstd::utf8::decode_utf8(name)))
        } else {
            None
        }
    } else {
        listed_name(list.skip(3 + be16(list, 1)))
    }
}

/// What the content of a handshake record comes to. A ClientHello that goes
/// on in another record is not looked into.
pub open spec fn handshake_outcome(payload: Seq<u8>) -> Outcome {
    if payload.len() < 4 || payload[0] != HANDSHAKE_TYPE_CLIENT_HELLO || payload.len() < 4 + be24(
        payload,
        1,
    ) {
        Outcome::Invalid
    } else {
        Outcome::Complete(client_hello_name(payload.subrange(4, 4 + be24(payload, 1))))
    }
}

/// What the bytes at the start of a connection come to.
pub open spec fn outcome(buf: Seq<u8>) -> Outcome {
    if buf.len() < 5 {
        Outcome::Incomplete
    } else if buf[0] != CONTENT_TYPE_HANDSHAKE || be16(buf, 3) == 0 || be16(buf, 3)
        > MAX_RECORD_BYTES {
        Outcome::Invalid
    } else if buf.len() < 5 + be16(buf, 3) {
        Outcome::Incomplete
    } else {
        handshake_outcome(buf.subrange(5, 5 + be16(buf, 3)))
    }
}

pub open spec fn name_view(name: Option<String>) -> Option<Seq<char>> {
    match name {
        Some(s) => Some(s@),
        None => None,
    }
}

impl View for ParseOutcome {
    type V = Outcome;

    open spec fn view(&self) -> Outcome {
        match *self {
            ParseOutcome::Complete(name) => Outcome::Complete(name_view(name)),
            ParseOutcome::Incomplete => Outcome::Incomplete,
            ParseOutcome::Invalid => Outcome::Invalid,
        }
    }
}

// ---------------------------------------------------------------------
// Parsing
// ---------------------------------------------------------------------

fn read_be16(data: &[u8], i: usize) -> (res: usize)
    requires
        i + 1 < data@.len(),
    ensures
        res == be16(data@, i as int),
        res <= 0xffff,
{
    data[i] as usize * 256 + data[i + 1] as usize
}

/// Parses the bytes at the start of a connection.
pub fn parse_sni(buf: &[u8]) -> (res: ParseOutcome)
    ensures
        res@ == outcome(buf@),
{
    // TLSPlaintext: content_type(1) + legacy_version(2) + length(2) + fragment
    if buf.len() < 5 {
        return ParseOutcome::Incomplete;
    }
    if buf[0] != CONTENT_TYPE_HANDSHAKE {
        return ParseOutcome::Invalid;
    }
    let record_len: usize = read_be16(buf, 3);
    if record_len == 0 || record_len > MAX_RECORD_BYTES {
        return ParseOutcome::Invalid;
    }
    let record_end: usize = 5 + record_len;
    if buf.len() < record_end {
        return ParseOutcome::Incomplete;
    }
    let payload = slice_subrange(buf, 5, record_end);

    // Handshake: msg_type(1) + length(3) + body
    if payload.len() < 4 {
        return ParseOutcome::Invalid;
    }
    if payload[0] != HANDSHAKE_TYPE_CLIENT_HELLO {
        return ParseOutcome::Invalid;
    }
    let hs_len: usize = payload[1] as usize * 65536 + payload[2] as usize * 256
        + payload[3] as usize;
    if payload.len() < 4 + hs_len {
        return ParseOutcome::Invalid;
    }
    ParseOutcome::Complete(extract_sni(slice_subrange(payload, 4, 4 + hs_len)))
}

/// Looks for the server name in the body of a ClientHello.
pub fn extract_sni(body: &[u8]) -> (res: Option<String>)
    ensures
        name_view(res) == client_hello_name(body@),
{
    // client_version(2) + random(32)
    let len: usize = body.len();
    if len < 34 {
        return None;
    }
    // session_id
    if len < 35 || len - 35 < body[34] as usize {
        return None;
    }
    let suites: usize = 35 + body[34] as usize;

    // cipher_suites
    if len - suites < 2 {
        return None;
    }
    let suites_len: usize = read_be16(body, suites);
    if len - suites - 2 < suites_len {
        return None;
    }
    let methods: usize = suites + 2 + suites_len;

    // compression_methods
    if len - methods < 1 || len - methods - 1 < body[methods] as usize {
        return None;
    }
    let exts: usize = methods + 1 + body[methods] as usize;

    // extensions (may be absent)
    if len - exts < 2 {
        return None;
    }
    let exts_len: usize = read_be16(body, exts);
    if len - exts - 2 < exts_len {
        return None;
    }
    let list = slice_subrange(body, exts + 2, exts + 2 + exts_len);
    let mut pos: usize = 0;
    proof {
        assert(list@.skip(0) =~= list@);
    }
    while pos <= list.len() && list.len() - pos >= 4
        invariant
            pos <= list@.len(),
            extension_name(list@.skip(pos as int)) == extension_name(list@),
            extension_name(list@) == client_hello_name(body@),
        decreases list@.len() - pos,
    {
        let ghost rest = list@.skip(pos as int);
        let kind: usize = read_be16(list, pos);
        let size: usize = read_be16(list, pos + 2);
        proof {
            assert(be16(rest, 0) == kind);
            assert(be16(rest, 2) == size);
        }
        if list.len() - pos - 4 < size {
            return None;
        }
        if kind == EXTENSION_SERVER_NAME {
            let data = slice_subrange(list, pos + 4, pos + 4 + size);
            proof {
                assert(data@ =~= rest.subrange(4, 4 + size));
            }
            return parse_server_name_extension(data);
        }
        proof {
            assert(rest.skip(4 + size) =~= list@.skip(pos + 4 + size));
        }
        pos = pos + 4 + size;
    }
    None
}

/// Looks for a host name in the data of a `server_name` extension:
/// `struct { ServerName server_name_list<1..2^16-1> }`.
pub fn parse_server_name_extension(data: &[u8]) -> (res: Option<String>)
    ensures
        name_view(res) == server_name(data@),
{
    if data.len() < 2 {
        return None;
    }
    let claimed: usize = 2 + read_be16(data, 0);
    let end: usize = if claimed < data.len() {
        claimed
    } else {
        data.len()
    };
    let list = slice_subrange(data, 2, end);
    let mut pos: usize = 0;
    proof {
        assert(list@.skip(0) =~= list@);
    }
    while pos <= list.len() && list.len() - pos >= 3
        invariant
            pos <= list@.len(),
            listed_name(list@.skip(pos as int)) == listed_name(list@),
            listed_name(list@) == server_name(data@),
        decreases list@.len() - pos,
    {
        let ghost rest = list@.skip(pos as int);
        let size: usize = read_be16(list, pos + 1);
        proof {
            assert(be16(rest, 1) == size);
        }
        if list.len() - pos - 3 < size {
            return None;
        }
        if list[pos] == SERVER_NAME_TYPE_HOST_NAME {
            let name = slice_subrange(list, pos + 3, pos + 3 + size);
            proof {
                assert(name@ =~= rest.subrange(3, 3 + size));
            }
            return match text::utf8_text(name) {
                Some(host) => Some(text::normalized_host(host.as_str())),
                None => None,
            };
        }
        proof {
            assert(rest.skip(3 + size) =~= list@.skip(pos + 3 + size));
        }
        pos = pos + 3 + size;
    }
    None
}

// ---------------------------------------------------------------------
// Probing
// ---------------------------------------------------------------------

/// The most that is taken in at once while probing.
pub const MAX_CHUNK_BYTES: usize = 0x1000_0000;

/// `ProbeResult` over mathematical values.
pub enum Probed {
    Sni(Seq<char>),
    NoSni,
    NotTls,
    ConnectionClosed,
}

impl View for ProbeResult {
    type V = Probed;

    open spec fn view(&self) -> Probed {
        match *self {
            ProbeResult::Sni(host) => Probed::Sni(host@),
            ProbeResult::NoSni => Probed::NoSni,
            ProbeResult::NotTls => Probed::NotTls,
            ProbeResult::ConnectionClosed => Probed::ConnectionClosed,
        }
    }
}

impl Clone for ProbeResult {
    fn clone(&self) -> (res: ProbeResult)
        ensures
            res@ == self@,
    {
        match self {
            ProbeResult::Sni(host) => ProbeResult::Sni(host.clone()),
            ProbeResult::NoSni => ProbeResult::NoSni,
            ProbeResult::NotTls => ProbeResult::NotTls,
            ProbeResult::ConnectionClosed => ProbeResult::ConnectionClosed,
        }
    }
}

/// What the bytes gathered so far decide; nothing while more are needed.
pub open spec fn verdict(gathered: Seq<u8>) -> Option<Probed> {
    match outcome(gathered) {
        Outcome::Complete(Some(host)) => Some(Probed::Sni(host)),
        Outcome::Complete(None) => Some(Probed::NoSni),
        Outcome::Invalid => Some(Probed::NotTls),
        Outcome::Incomplete => None,
    }
}

/// A connection whose server name is being looked for.
pub struct Probe {
    buf: BytesMut,
}

impl Probe {
    /// All bytes taken in, in order.
    pub closed spec fn gathered(self) -> Seq<u8> {
        buffers::grown_bytes(self.buf)
    }

    /// Nothing is decided yet.
    pub open spec fn undecided(self) -> bool {
        outcome(self.gathered()) is Incomplete
    }

    pub fn new() -> (res: Probe)
        ensures
            res.gathered() == Seq::<u8>::empty(),
            res.undecided(),
    {
        Probe { buf: BytesMut::with_capacity(4096) }
    }

    /// Takes in what one read of the connection gave. A read that gave
    /// nothing means that the peer closed the connection. Hands back the
    /// result as soon as there is one.
    pub fn feed(&mut self, chunk: &[u8]) -> (res: Option<ProbeResult>)
        requires
            old(self).undecided(),
            chunk@.len() <= MAX_CHUNK_BYTES,
        ensures
            final(self).gathered() == old(self).gathered() + chunk@,
            chunk@.len() == 0 ==> (res matches Some(r) && r@ == Probed::ConnectionClosed),
            chunk@.len() > 0 ==> match verdict(final(self).gathered()) {
                Some(v) => res matches Some(r) && r@ == v,
                None => res is None,
            },
            res is None <==> chunk@.len() > 0 && final(self).undecided(),
    {
        proof {
            law_undecided_is_bounded(self.gathered());
        }
        if chunk.len() == 0 {
            proof {
                assert(self.gathered() + chunk@ =~= self.gathered());
            }
            return Some(ProbeResult::ConnectionClosed);
        }
        self.buf.extend_from_slice(chunk);
        match parse_sni(buffers::grown_slice(&self.buf)) {
            ParseOutcome::Complete(Some(host)) => Some(ProbeResult::Sni(host)),
            ParseOutcome::Complete(None) => Some(ProbeResult::NoSni),
            ParseOutcome::Incomplete => {
                if buffers::grown_slice(&self.buf).len() >= MAX_PROBE_BYTES {
                    proof {
                        law_undecided_is_bounded(self.gathered());
                    }
                    return Some(ProbeResult::NotTls);
                }
                None
            },
            ParseOutcome::Invalid => Some(ProbeResult::NotTls),
        }
    }

    /// All bytes taken in, to be replayed to whoever serves the connection.
    pub fn into_bytes(self) -> (res: Bytes)
        ensures
            buffers::shared_bytes(res) == self.gathered(),
    {
        self.buf.freeze()
    }
}

// ---------------------------------------------------------------------
// Laws
// ---------------------------------------------------------------------

/// Probing buffers a bounded amount: while nothing is decided, less than one
/// full record with its header has been gathered.
pub proof fn law_undecided_is_bounded(gathered: Seq<u8>)
    requires
        outcome(gathered) is Incomplete,
    ensures
        gathered.len() < MAX_PROBE_BYTES,
{
}

/// Once decided, the outcome does not depend on what comes after.
pub proof fn law_outcome_ignores_what_follows(gathered: Seq<u8>, more: Seq<u8>)
    requires
        outcome(gathered) !is Incomplete,
    ensures
        outcome(gathered + more) == outcome(gathered),
{
    let all = gathered + more;
    assert(be16(all, 3) == be16(gathered, 3));
    if gathered.len() >= 5 + be16(gathered, 3) {
        assert(all.subrange(5, 5 + be16(gathered, 3)) =~= gathered.subrange(
            5,
            5 + be16(gathered, 3),
        ));
    }
}

/// Pieces put together in order.
pub open spec fn joined(pieces: Seq<Seq<u8>>) -> Seq<u8>
    decreases pieces.len(),
{
    if pieces.len() == 0 {
        Seq::empty()
    } else {
        joined(pieces.drop_last()) + pieces.last()
    }
}

/// What has been gathered is what the reads gave, put together in order:
/// `gathered[i]` is what there is before read number `i`.
pub proof fn law_reads_add_up(gathered: Seq<Seq<u8>>, reads: Seq<Seq<u8>>)
    requires
        gathered.len() == reads.len() + 1,
        gathered[0] == Seq::<u8>::empty(),
        forall|i: int|
            0 <= i < reads.len() ==> gathered[i + 1] == gathered[i] + #[trigger] reads[i],
    ensures
        gathered.last() == joined(reads),
    decreases reads.len(),
{
    if reads.len() > 0 {
        let earlier = reads.drop_last();
        let before = gathered.drop_last();
        assert forall|i: int| 0 <= i < earlier.len() implies before[i + 1] == before[i]
            + #[trigger] earlier[i] by {
            assert(earlier[i] == reads[i]);
        }
        law_reads_add_up(before, earlier);
        let last = reads.len() - 1;
        assert(gathered[last + 1] == gathered[last] + reads[last]);
    }
}

/// Whichever reads a connection is split into, what is decided about it is the
/// same: any two beginnings that decide agree.
pub proof fn law_splitting_does_not_matter(stream: Seq<u8>, n: int, m: int)
    requires
        0 <= n <= m <= stream.len(),
        verdict(stream.take(n)) is Some,
    ensures
        verdict(stream.take(m)) == verdict(stream.take(n)),
{
    law_outcome_ignores_what_follows(stream.take(n), stream.subrange(n, m));
    assert(stream.take(m) =~= stream.take(n) + stream.subrange(n, m));
}

/// A server name that parsing hands back is in the form in which host names
/// are compared.
pub proof fn law_parsed_name_is_normalized(buf: Seq<u8>)
    ensures
        outcome(buf) matches Outcome::Complete(Some(host)) ==> text::normalize_host(host) == host,
{
    if outcome(buf) is Complete {
        let payload = buf.subrange(5, 5 + be16(buf, 3));
        let body = payload.subrange(4, 4 + be24(payload, 1));
        if let Some(pos) = extensions_start(body) {
            if let Some(end) = after_vec16(body, pos) {
                lemma_extension_name_normalized(body.subrange(pos + 2, end));
            }
        }
    }
}

proof fn lemma_extension_name_normalized(list: Seq<u8>)
    ensures
        extension_name(list) matches Some(host) ==> text::normalize_host(host) == host,
    decreases list.len(),
{
    if list.len() < 4 || 4 + be16(list, 2) > list.len() {
    } else if be16(list, 0) == EXTENSION_SERVER_NAME {
        let data = list.subrange(4, 4 + be16(list, 2));
        if data.len() >= 2 {
            let end = if 2 + be16(data, 0) < data.len() {
                2 + be16(data, 0)
            } else {
                data.len() as int
            };
            lemma_listed_name_normalized(data.subrange(2, end));
        }
    } else {
        lemma_extension_name_normalized(list.skip(4 + be16(list, 2)));
    }
}

proof fn lemma_listed_name_normalized(list: Seq<u8>)
    ensures
        listed_name(list) matches Some(host) ==> text::normalize_host(host) == host,
    decreases list.len(),
{
    if list.len() < 3 || 3 + be16(list, 1) > list.len() {
    } else if list[0] == SERVER_NAME_TYPE_HOST_NAME {
        let name = list.subrange(3, 3 + be16(list, 1));
        text::law_normalize_is_canonical(vstd::utf8::decode_utf8(name));
    } else {
        lemma_listed_name_normalized(list.skip(3 + be16(list, 1)));
    }
}

/// A vector with its length in one byte before it.
pub open spec fn vec8(data: Seq<u8>) -> Seq<u8> {
    seq![data.len() as u8] + data
}

/// A number in two bytes, big-endian.
pub open spec fn two_bytes(n: int) -> Seq<u8> {
    seq![(n / 256) as u8, (n % 256) as u8]
}

/// A vector with its length in two bytes before it.
pub open spec fn vec16(data: Seq<u8>) -> Seq<u8> {
    two_bytes(data.len() as int) + data
}

/// A vector with its length in three bytes before it.
pub open spec fn vec24(data: Seq<u8>) -> Seq<u8> {
    seq![
        (data.len() / 65536) as u8,
        (data.len() / 256 % 256) as u8,
        (data.len() % 256) as u8,
    ] + data
}

/// One extension as a ClientHello carries it.
pub open spec fn extension(kind: int, data: Seq<u8>) -> Seq<u8> {
    two_bytes(kind) + vec16(data)
}

/// A list of extensions, one after the other.
pub open spec fn extensions(list: Seq<(int, Seq<u8>)>) -> Seq<u8>
    decreases list.len(),
{
    if list.len() == 0 {
        Seq::empty()
    } else {
        extension(list[0].0, list[0].1) + extensions(list.skip(1))
    }
}

/// Extensions that fit their length fields and are not `server_name`.
pub open spec fn unrelated(list: Seq<(int, Seq<u8>)>) -> bool {
    forall|i: int|
        0 <= i < list.len() ==> 0 < (#[trigger] list[i]).0 < 65536 && list[i].1.len() < 65536
}

/// The data of a `server_name` extension that names one host.
pub open spec fn host_extension(host: Seq<char>) -> Seq<u8> {
    vec16(seq![SERVER_NAME_TYPE_HOST_NAME] + vec16(vstd::utf8::encode_utf8(host)))
}

/// The body of a ClientHello made of its parts.
pub open spec fn client_hello_body(
    version_and_random: Seq<u8>,
    session: Seq<u8>,
    suites: Seq<u8>,
    methods: Seq<u8>,
    exts: Seq<u8>,
) -> Seq<u8> {
    version_and_random + vec8(session) + vec16(suites) + vec8(methods) + vec16(exts)
}

/// A handshake record that carries a ClientHello with the given body.
pub open spec fn client_hello_record(record_version: (u8, u8), body: Seq<u8>) -> Seq<u8> {
    seq![CONTENT_TYPE_HANDSHAKE, record_version.0, record_version.1] + vec16(
        seq![HANDSHAKE_TYPE_CLIENT_HELLO] + vec24(body),
    )
}

proof fn lemma_vec8(pre: Seq<u8>, data: Seq<u8>, post: Seq<u8>)
    requires
        data.len() < 256,
    ensures
        after_vec8(pre + vec8(data) + post, pre.len() as int) == Some(
            pre.len() as int + 1 + data.len() as int,
        ),
        pre.len() + 1 + data.len() == (pre + vec8(data)).len(),
{
    let s = pre + vec8(data) + post;
    assert(s[pre.len() as int] == vec8(data)[0]);
}

proof fn lemma_vec16(pre: Seq<u8>, data: Seq<u8>, post: Seq<u8>)
    requires
        data.len() < 65536,
    ensures
        after_vec16(pre + vec16(data) + post, pre.len() as int) == Some(
            pre.len() as int + 2 + data.len() as int,
        ),
        pre.len() + 2 + data.len() == (pre + vec16(data)).len(),
        be16(pre + vec16(data) + post, pre.len() as int) == data.len(),
        (pre + vec16(data) + post).subrange(
            pre.len() as int + 2,
            pre.len() as int + 2 + data.len() as int,
        ) == data,
{
    let s = pre + vec16(data) + post;
    assert(s[pre.len() as int] == vec16(data)[0]);
    assert(s[pre.len() as int + 1] == vec16(data)[1]);
    assert(s.subrange(pre.len() as int + 2, pre.len() as int + 2 + data.len() as int) =~= data);
}

#[verifier::spinoff_prover]
#[verifier::rlimit(40)]
proof fn lemma_first_extension(kind: int, data: Seq<u8>, rest: Seq<u8>)
    requires
        0 <= kind < 65536,
        data.len() < 65536,
    ensures
        extension_name(extension(kind, data) + rest) == (if kind == EXTENSION_SERVER_NAME {
            server_name(data)
        } else {
            extension_name(rest)
        }),
{
    let list = extension(kind, data) + rest;
    lemma_vec16(two_bytes(kind), data, rest);
    assert(list =~= two_bytes(kind) + vec16(data) + rest);
    assert(list[0] == two_bytes(kind)[0]);
    assert(list[1] == two_bytes(kind)[1]);
    assert(list.skip(4 + data.len() as int) =~= rest);
}

#[verifier::spinoff_prover]
#[verifier::rlimit(40)]
proof fn lemma_skip_unrelated(list: Seq<(int, Seq<u8>)>, rest: Seq<u8>)
    requires
        unrelated(list),
    ensures
        extension_name(extensions(list) + rest) == extension_name(rest),
    decreases list.len(),
{
    if list.len() == 0 {
        assert(extensions(list) + rest =~= rest);
    } else {
        let tail = list.skip(1);
        assert(unrelated(tail)) by {
            assert forall|i: int| 0 <= i < tail.len() implies 0 < (#[trigger] tail[i]).0 < 65536
                && tail[i].1.len() < 65536 by {
                assert(tail[i] == list[i + 1]);
            }
        }
        lemma_skip_unrelated(tail, rest);
        assert(list[0].0 > 0);
        lemma_first_extension(list[0].0, list[0].1, extensions(tail) + rest);
        assert(extensions(list) + rest =~= extension(list[0].0, list[0].1) + (extensions(tail)
            + rest));
    }
}

#[verifier::spinoff_prover]
#[verifier::rlimit(40)]
proof fn lemma_host_extension(host: Seq<char>)
    requires
        vstd::utf8::encode_utf8(host).len() < 65000,
    ensures
        server_name(host_extension(host)) == Some(text::normalize_host(host)),
{
    let name = vstd::utf8::encode_utf8(host);
    vstd::utf8::encode_utf8_valid_utf8(host);
    vstd::utf8::encode_utf8_decode_utf8(host);
    let list = seq![SERVER_NAME_TYPE_HOST_NAME] + vec16(name);
    let data = host_extension(host);
    lemma_vec16(Seq::empty(), list, Seq::empty());
    assert(data =~= Seq::<u8>::empty() + vec16(list) + Seq::<u8>::empty());
    lemma_vec16(seq![SERVER_NAME_TYPE_HOST_NAME], name, Seq::empty());
    assert(list =~= seq![SERVER_NAME_TYPE_HOST_NAME] + vec16(name) + Seq::<u8>::empty());
    assert(list[0] == SERVER_NAME_TYPE_HOST_NAME);
}

#[verifier::spinoff_prover]
#[verifier::rlimit(40)]
proof fn lemma_named_extensions(before: Seq<(int, Seq<u8>)>, host: Seq<char>, after: Seq<u8>)
    requires
        unrelated(before),
        (extensions(before) + extension(0, host_extension(host)) + after).len()
            <= MAX_RECORD_BYTES,
    ensures
        extension_name(extensions(before) + extension(0, host_extension(host)) + after) == Some(
            text::normalize_host(host),
        ),
{
    let named = extension(0, host_extension(host));
    assert(extensions(before) + named + after =~= extensions(before) + (named + after));
    lemma_skip_unrelated(before, named + after);
    assert(named.len() == host_extension(host).len() + 4);
    lemma_first_extension(0, host_extension(host), after);
    assert(host_extension(host).len() == vstd::utf8::encode_utf8(host).len() + 5);
    lemma_host_extension(host);
}

proof fn lemma_body_lengths(
    version_and_random: Seq<u8>,
    session: Seq<u8>,
    suites: Seq<u8>,
    methods: Seq<u8>,
    exts: Seq<u8>,
)
    ensures
        client_hello_body(version_and_random, session, suites, methods, exts).len()
            == version_and_random.len() + session.len() + suites.len() + methods.len() + exts.len()
            + 6,
{
}

#[verifier::spinoff_prover]
#[verifier::rlimit(40)]
proof fn lemma_body_extensions(
    version_and_random: Seq<u8>,
    session: Seq<u8>,
    suites: Seq<u8>,
    methods: Seq<u8>,
    exts: Seq<u8>,
)
    requires
        version_and_random.len() == 34,
        session.len() < 256,
        suites.len() < 65536,
        methods.len() < 256,
        exts.len() < 65536,
    ensures
        client_hello_name(
            client_hello_body(version_and_random, session, suites, methods, exts),
        ) == extension_name(exts),
{
    let body = client_hello_body(version_and_random, session, suites, methods, exts);
    let a = version_and_random;
    let b = a + vec8(session);
    let c = b + vec16(suites);
    let d = c + vec8(methods);
    lemma_vec8(a, session, vec16(suites) + vec8(methods) + vec16(exts));
    assert(body =~= a + vec8(session) + (vec16(suites) + vec8(methods) + vec16(exts)));
    lemma_vec16(b, suites, vec8(methods) + vec16(exts));
    assert(body =~= b + vec16(suites) + (vec8(methods) + vec16(exts)));
    lemma_vec8(c, methods, vec16(exts));
    assert(body =~= c + vec8(methods) + vec16(exts));
    lemma_vec16(d, exts, Seq::empty());
    assert(body =~= d + vec16(exts) + Seq::<u8>::empty());
}

#[verifier::spinoff_prover]
#[verifier::rlimit(40)]
proof fn lemma_payload_body(body: Seq<u8>)
    requires
        body.len() + 4 <= MAX_RECORD_BYTES,
    ensures
        handshake_outcome(seq![HANDSHAKE_TYPE_CLIENT_HELLO] + vec24(body)) == Outcome::Complete(
            client_hello_name(body),
        ),
{
    let payload = seq![HANDSHAKE_TYPE_CLIENT_HELLO] + vec24(body);
    let size = body.len() as int;
    assert(payload.len() == size + 4);
    assert(payload[0] == HANDSHAKE_TYPE_CLIENT_HELLO);
    assert(payload[1] == vec24(body)[0] == (size / 65536) as u8);
    assert(payload[2] == vec24(body)[1] == (size / 256 % 256) as u8);
    assert(payload[3] == vec24(body)[2] == (size % 256) as u8);
    assert(be24(payload, 1) == size);
    assert(payload.subrange(4, 4 + size) =~= body);
}

#[verifier::spinoff_prover]
#[verifier::rlimit(40)]
proof fn lemma_record_body(record_version: (u8, u8), body: Seq<u8>)
    requires
        body.len() + 4 <= MAX_RECORD_BYTES,
    ensures
        outcome(client_hello_record(record_version, body)) == Outcome::Complete(
            client_hello_name(body),
        ),
{
    let payload = seq![HANDSHAKE_TYPE_CLIENT_HELLO] + vec24(body);
    let head = seq![CONTENT_TYPE_HANDSHAKE, record_version.0, record_version.1];
    let record = client_hello_record(record_version, body);
    assert(payload.len() == body.len() + 4);
    lemma_vec16(head, payload, Seq::empty());
    assert(record =~= head + vec16(payload) + Seq::<u8>::empty());
    assert(record[0] == head[0]);
    assert(head.len() == 3);
    lemma_payload_body(body);
}

/// Every ClientHello that fits one record and names a host is recognised, and
/// the host is found, whatever the other fields and extensions hold.
pub proof fn law_client_hello_names_its_host(
    record_version: (u8, u8),
    version_and_random: Seq<u8>,
    session: Seq<u8>,
    suites: Seq<u8>,
    methods: Seq<u8>,
    before: Seq<(int, Seq<u8>)>,
    host: Seq<char>,
    after: Seq<u8>,
)
    requires
        version_and_random.len() == 34,
        session.len() < 256,
        methods.len() < 256,
        unrelated(before),
        client_hello_body(
            version_and_random,
            session,
            suites,
            methods,
            extensions(before) + extension(0, host_extension(host)) + after,
        ).len() + 4 <= MAX_RECORD_BYTES,
    ensures
        outcome(
            client_hello_record(
                record_version,
                client_hello_body(
                    version_and_random,
                    session,
                    suites,
                    methods,
                    extensions(before) + extension(0, host_extension(host)) + after,
                ),
            ),
        ) == Outcome::Complete(Some(text::normalize_host(host))),
{
    let exts = extensions(before) + extension(0, host_extension(host)) + after;
    let body = client_hello_body(version_and_random, session, suites, methods, exts);
    lemma_body_lengths(version_and_random, session, suites, methods, exts);
    lemma_record_body(record_version, body);
    lemma_body_extensions(version_and_random, session, suites, methods, exts);
    lemma_named_extensions(before, host, after);
}

/// Every ClientHello that fits one record and has no `server_name` extension
/// is recognised as one without a server name.
pub proof fn law_client_hello_without_host(
    record_version: (u8, u8),
    version_and_random: Seq<u8>,
    session: Seq<u8>,
    suites: Seq<u8>,
    methods: Seq<u8>,
    exts: Seq<(int, Seq<u8>)>,
)
    requires
        version_and_random.len() == 34,
        session.len() < 256,
        methods.len() < 256,
        unrelated(exts),
        client_hello_body(
            version_and_random,
            session,
            suites,
            methods,
            extensions(exts),
        ).len() + 4 <= MAX_RECORD_BYTES,
    ensures
        outcome(
            client_hello_record(
                record_version,
                client_hello_body(version_and_random, session, suites, methods, extensions(exts)),
            ),
        ) == Outcome::Complete(None),
{
    let body = client_hello_body(version_and_random, session, suites, methods, extensions(exts));
    lemma_body_lengths(version_and_random, session, suites, methods, extensions(exts));
    lemma_record_body(record_version, body);
    lemma_body_extensions(version_and_random, session, suites, methods, extensions(exts));
    lemma_skip_unrelated(exts, Seq::empty());
    assert(extensions(exts) + Seq::<u8>::empty() =~= extensions(exts));
}

/// The first record of a connection, byte by byte: what is no handshake record
/// of 1 to 16384 bytes is refused as soon as its header is there, what is not
/// there in full is waited for, and what is there in full is refused unless it
/// holds a whole ClientHello, whose body is then looked into.
pub proof fn law_first_record(buf: Seq<u8>)
    ensures
        ({
            let size = buf[3] * 256 + buf[4];
            let message = buf[6] * 65536 + buf[7] * 256 + buf[8];
            let framed = buf.len() >= 5 && buf[0] == 0x16 && 0 < size <= 16384;
            &&& buf.len() < 5 ==> outcome(buf) is Incomplete
            &&& buf.len() >= 5 && !framed ==> outcome(buf) is Invalid
            &&& framed && buf.len() < 5 + size ==> outcome(buf) is Incomplete
            &&& framed && buf.len() >= 5 + size && (size < 4 || buf[5] != 0x01 || 4 + message > size)
                ==> outcome(buf) is Invalid
            &&& framed && buf.len() >= 5 + size && size >= 4 && buf[5] == 0x01 && 4 + message
                <= size ==> outcome(buf) == Outcome::Complete(
                client_hello_name(buf.subrange(9, 9 + message)),
            )
        }),
{
    let size = buf[3] * 256 + buf[4];
    let message = buf[6] * 65536 + buf[7] * 256 + buf[8];
    if buf.len() >= 5 + size && 4 + message <= size {
        assert(buf.subrange(5, 5 + size).subrange(4, 4 + message) =~= buf.subrange(
            9,
            9 + message,
        ));
    }
}

/// The fields of a ClientHello up to its extensions, each with its length
/// before it, are stepped over whatever they hold, and what follows the
/// extensions does not matter.
#[verifier::spinoff_prover]
#[verifier::rlimit(60)]
pub proof fn law_client_hello_fields(
    version_and_random: Seq<u8>,
    session: Seq<u8>,
    suites: Seq<u8>,
    methods: Seq<u8>,
    exts: Seq<u8>,
    rest: Seq<u8>,
)
    requires
        version_and_random.len() == 34,
        session.len() < 256,
        suites.len() < 65536,
        methods.len() < 256,
        exts.len() < 65536,
    ensures
        client_hello_name(
            version_and_random + seq![session.len() as u8] + session + seq![
                (suites.len() / 256) as u8,
                (suites.len() % 256) as u8,
            ] + suites + seq![methods.len() as u8] + methods + seq![
                (exts.len() / 256) as u8,
                (exts.len() % 256) as u8,
            ] + exts + rest,
        ) == extension_name(exts),
{
    let body = version_and_random + seq![session.len() as u8] + session + seq![
        (suites.len() / 256) as u8,
        (suites.len() % 256) as u8,
    ] + suites + seq![methods.len() as u8] + methods + seq![
        (exts.len() / 256) as u8,
        (exts.len() % 256) as u8,
    ] + exts + rest;
    let a = version_and_random;
    let b = a + vec8(session);
    let c = b + vec16(suites);
    let d = c + vec8(methods);
    lemma_vec8(a, session, vec16(suites) + vec8(methods) + vec16(exts) + rest);
    assert(body =~= a + vec8(session) + (vec16(suites) + vec8(methods) + vec16(exts) + rest));
    lemma_vec16(b, suites, vec8(methods) + vec16(exts) + rest);
    assert(body =~= b + vec16(suites) + (vec8(methods) + vec16(exts) + rest));
    lemma_vec8(c, methods, vec16(exts) + rest);
    assert(body =~= c + vec8(methods) + (vec16(exts) + rest));
    lemma_vec16(d, exts, rest);
    assert(body =~= d + vec16(exts) + rest);
}

/// A ClientHello that ends before its extensions do has no server name.
#[verifier::spinoff_prover]
#[verifier::rlimit(60)]
pub proof fn law_cut_client_hello_has_no_name(
    version_and_random: Seq<u8>,
    session: Seq<u8>,
    suites: Seq<u8>,
    methods: Seq<u8>,
    exts: Seq<u8>,
    n: int,
)
    requires
        version_and_random.len() == 34,
        session.len() < 256,
        suites.len() < 65536,
        methods.len() < 256,
        exts.len() < 65536,
        0 <= n < 40 + session.len() + suites.len() + methods.len() + exts.len(),
    ensures
        client_hello_name(
            (version_and_random + seq![session.len() as u8] + session + seq![
                (suites.len() / 256) as u8,
                (suites.len() % 256) as u8,
            ] + suites + seq![methods.len() as u8] + methods + seq![
                (exts.len() / 256) as u8,
                (exts.len() % 256) as u8,
            ] + exts).take(n),
        ) is None,
{
    let body = version_and_random + seq![session.len() as u8] + session + seq![
        (suites.len() / 256) as u8,
        (suites.len() % 256) as u8,
    ] + suites + seq![methods.len() as u8] + methods + seq![
        (exts.len() / 256) as u8,
        (exts.len() % 256) as u8,
    ] + exts;
    let cut = body.take(n);
    let p1 = 35 + session.len() as int;
    let p2 = p1 + 2 + suites.len() as int;
    let p3 = p2 + 1 + methods.len() as int;
    assert(body.len() == p3 + 2 + exts.len());
    assert(body[34] == session.len() as u8);
    assert(body[p1] == (suites.len() / 256) as u8 && body[p1 + 1] == (suites.len() % 256) as u8);
    assert(body[p2] == methods.len() as u8);
    assert(body[p3] == (exts.len() / 256) as u8 && body[p3 + 1] == (exts.len() % 256) as u8);
    assert(be16(body, p1) == suites.len());
    assert(be16(body, p3) == exts.len());
    if n > 34 {
        assert(cut[34] == body[34]);
    }
    if n >= p1 + 2 {
        assert(be16(cut, p1) == be16(body, p1));
    }
    if n > p2 {
        assert(cut[p2] == body[p2]);
    }
    if n >= p3 + 2 {
        assert(be16(cut, p3) == be16(body, p3));
    }
}

/// Extensions, one after the other: the first `server_name` extension decides,
/// any other is stepped over whatever it holds, and one that is cut off ends
/// the search.
#[verifier::spinoff_prover]
#[verifier::rlimit(60)]
pub proof fn law_extensions(kind: int, data: Seq<u8>, rest: Seq<u8>, n: int)
    requires
        0 <= kind < 65536,
        data.len() < 65536,
        0 <= n < 4 + data.len(),
    ensures
        extension_name(
            seq![
                (kind / 256) as u8,
                (kind % 256) as u8,
                (data.len() / 256) as u8,
                (data.len() % 256) as u8,
            ] + data + rest,
        ) == (if kind == 0 {
            server_name(data)
        } else {
            extension_name(rest)
        }),
        extension_name(
            (seq![
                (kind / 256) as u8,
                (kind % 256) as u8,
                (data.len() / 256) as u8,
                (data.len() % 256) as u8,
            ] + data).take(n),
        ) is None,
{
    let head = seq![
        (kind / 256) as u8,
        (kind % 256) as u8,
        (data.len() / 256) as u8,
        (data.len() % 256) as u8,
    ];
    lemma_first_extension(kind, data, rest);
    assert(head + data + rest =~= extension(kind, data) + rest);
    let all = head + data;
    let cut = all.take(n);
    assert(be16(all, 2) == data.len());
    if n >= 4 {
        assert(be16(cut, 2) == be16(all, 2));
    }
}

/// The data of a `server_name` extension: the list ends where its length says,
/// or where the data ends if that is sooner.
pub proof fn law_server_name_data(list: Seq<u8>, rest: Seq<u8>, claimed: int)
    requires
        list.len() <= claimed < 65536,
    ensures
        list.len() < 65536 ==> server_name(
            seq![(list.len() / 256) as u8, (list.len() % 256) as u8] + list + rest,
        ) == listed_name(list),
        server_name(seq![(claimed / 256) as u8, (claimed % 256) as u8] + list) == listed_name(list),
        rest.len() < 2 ==> server_name(rest) is None,
{
    let exact = seq![(list.len() / 256) as u8, (list.len() % 256) as u8] + list + rest;
    let more = seq![(claimed / 256) as u8, (claimed % 256) as u8] + list;
    assert(be16(exact, 0) == list.len());
    assert(exact.subrange(2, 2 + list.len() as int) =~= list);
    assert(be16(more, 0) == claimed);
    assert(more.subrange(2, more.len() as int) =~= list);
}

/// The names in the list, one after the other: the first host name decides, a
/// name of another kind is stepped over, and one that is cut off ends the
/// search. A host name that is not well-formed text is none.
pub proof fn law_listed_names(kind: u8, name: Seq<u8>, rest: Seq<u8>, n: int)
    requires
        name.len() < 65536,
        0 <= n < 3 + name.len(),
    ensures
        listed_name(
            seq![kind, (name.len() / 256) as u8, (name.len() % 256) as u8] + name + rest,
        ) == (if kind != 0 {
            listed_name(rest)
        } else if vstd::utf8::valid_utf8(name) {
            Some(text::normalize_host(vstd::utf8::decode_utf8(name)))
        } else {
            None
        }),
        listed_name(
            (seq![kind, (name.len() / 256) as u8, (name.len() % 256) as u8] + name).take(n),
        ) is None,
{
    let all = seq![kind, (name.len() / 256) as u8, (name.len() % 256) as u8] + name;
    let list = all + rest;
    assert(be16(list, 1) == name.len());
    assert(list.subrange(3, 3 + name.len() as int) =~= name);
    assert(list.skip(3 + name.len() as int) =~= rest);
    let cut = all.take(n);
    if n >= 3 {
        assert(be16(cut, 1) == be16(all, 1));
        assert(be16(all, 1) == name.len());
    }
}

/// What is decided about a connection is what its first record came to, and
/// nothing is decided while more is needed.
pub proof fn law_verdicts(gathered: Seq<u8>, host: Seq<char>)
    ensures
        verdict(gathered) is None <==> outcome(gathered) is Incomplete,
        verdict(gathered) == Some(Probed::Sni(host)) <==> outcome(gathered) == Outcome::Complete(
            Some(host),
        ),
        verdict(gathered) == Some(Probed::NoSni) <==> outcome(gathered) == Outcome::Complete(None),
        verdict(gathered) == Some(Probed::NotTls) <==> outcome(gathered) is Invalid,
        verdict(gathered) != Some(Probed::ConnectionClosed),
{
}

/// The views of parsing and probing results show what they are.
pub proof fn law_results_are_shown_as_they_are(parsed: ParseOutcome, probed: ProbeResult)
    ensures
        parsed is Incomplete <==> parsed@ is Incomplete,
        parsed is Invalid <==> parsed@ is Invalid,
        parsed matches ParseOutcome::Complete(Some(host)) ==> parsed@ == Outcome::Complete(
            Some(host@),
        ),
        parsed matches ParseOutcome::Complete(None) ==> parsed@ == Outcome::Complete(None),
        probed matches ProbeResult::Sni(host) ==> probed@ == Probed::Sni(host@),
        probed is NoSni <==> probed@ is NoSni,
        probed is NotTls <==> probed@ is NotTls,
        probed is ConnectionClosed <==> probed@ is ConnectionClosed,
{
}

/// A probe is undecided exactly while the first record is not there in full,
/// and names are shown as they are.
pub proof fn law_undecided_means_incomplete(probe: Probe, name: Option<String>)
    ensures
        probe.undecided() <==> outcome(probe.gathered()) is Incomplete,
        name matches Some(s) ==> name_view(name) == Some(s@),
        name is None ==> name_view(name) is None,
{
}

} // verus!
