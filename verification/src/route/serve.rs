//! Serving the fallback site over HTTPS: how the TLS handshake ended, which
//! protocol was negotiated, and what each request is answered.

use crate::buffers;
use crate::config::ServiceConfig;
use crate::http_util;
use crate::http_util::{Answer, HttpResponse, HTTP_DATE_END};
use crate::metrics::Stats;
use crate::route::fallback;
use crate::route::fallback::{FileEntry, Served, StaticSite};
use crate::route::proxy::Handshake;
use crate::text;
use vstd::prelude::*;

verus! {

// ---------------------------------------------------------------------
// The handshake
// ---------------------------------------------------------------------

/// Which HTTP a connection speaks.
#[derive(Clone, Copy, Debug, PartialEq, Eq, Structural)]
pub enum Protocol {
    Http2,
    Http1,
}

/// `h2` as it stands in the ALPN extension.
pub open spec fn alpn_h2() -> Seq<u8> {
    seq![0x68, 0x32]
}

/// `http/1.1` as it stands in the ALPN extension.
pub open spec fn alpn_http1() -> Seq<u8> {
    seq![0x68, 0x74, 0x74, 0x70, 0x2f, 0x31, 0x2e, 0x31]
}

pub open spec fn alpn_view(alpn: Option<Vec<u8>>) -> Option<Seq<u8>> {
    match alpn {
        Some(name) => Some(name@),
        None => None,
    }
}

/// The stats after a handshake and, where it completed, the negotiation.
pub open spec fn handshake_stats(handshake: Handshake, alpn: Option<Seq<u8>>, s: Stats) -> Stats {
    if handshake != Handshake::Completed {
        Stats {
            fallback_tls_handshake_failure_total:
                s.fallback_tls_handshake_failure_total.wrapping_add(1),
            ..s
        }
    } else {
        let done = Stats {
            fallback_tls_handshake_success_total:
                s.fallback_tls_handshake_success_total.wrapping_add(1),
            ..s
        };
        if alpn == Some(alpn_h2()) {
            Stats { fallback_alpn_h2_total: s.fallback_alpn_h2_total.wrapping_add(1), ..done }
        } else if alpn == Some(alpn_http1()) {
            Stats { fallback_alpn_http1_total: s.fallback_alpn_http1_total.wrapping_add(1), ..done }
        } else {
            Stats { fallback_alpn_none_total: s.fallback_alpn_none_total.wrapping_add(1), ..done }
        }
    }
}

/// What a connection speaks after a handshake; nothing if it did not complete.
pub open spec fn spoken(handshake: Handshake, alpn: Option<Seq<u8>>) -> Option<Protocol> {
    if handshake != Handshake::Completed {
        None
    } else if alpn == Some(alpn_h2()) {
        Some(Protocol::Http2)
    } else {
        Some(Protocol::Http1)
    }
}

fn same_bytes(a: &Vec<u8>, b: &[u8]) -> (res: bool)
    ensures
        res == (a@ == b@),
{
    if a.len() != b.len() {
        return false;
    }
    for i in 0..a.len()
        invariant
            a@.len() == b@.len(),
            forall|j: int| 0 <= j < i ==> a@[j] == b@[j],
    {
        if a[i] != b[i] {
            return false;
        }
    }
    proof {
        assert(a@ =~= b@);
    }
    true
}

/// Takes in how a handshake ended and what was negotiated, and says which
/// protocol to serve. `None` means that the connection is over.
pub fn serve(handshake: Handshake, alpn: Option<Vec<u8>>, stats: &mut Stats) -> (res: Option<
    Protocol,
>)
    ensures
        res == spoken(handshake, alpn_view(alpn)),
        *final(stats) == handshake_stats(handshake, alpn_view(alpn), *old(stats)),
{
    match handshake {
        Handshake::Failed | Handshake::TimedOut => {
            stats.fallback_tls_handshake_failure_total =
                stats.fallback_tls_handshake_failure_total.wrapping_add(1);
            return None;
        },
        Handshake::Completed => {},
    }
    stats.fallback_tls_handshake_success_total =
        stats.fallback_tls_handshake_success_total.wrapping_add(1);
    let h2: [u8; 2] = [0x68, 0x32];
    let http1: [u8; 8] = [0x68, 0x74, 0x74, 0x70, 0x2f, 0x31, 0x2e, 0x31];
    proof {
        assert(h2@ =~= alpn_h2());
        assert(http1@ =~= alpn_http1());
        assert(alpn_h2().len() != alpn_http1().len());
    }
    if let Some(name) = alpn {
        if same_bytes(&name, h2.as_slice()) {
            stats.fallback_alpn_h2_total = stats.fallback_alpn_h2_total.wrapping_add(1);
            return Some(Protocol::Http2);
        }
        if same_bytes(&name, http1.as_slice()) {
            stats.fallback_alpn_http1_total = stats.fallback_alpn_http1_total.wrapping_add(1);
            return Some(Protocol::Http1);
        }
    }
    stats.fallback_alpn_none_total = stats.fallback_alpn_none_total.wrapping_add(1);
    Some(Protocol::Http1)
}

// ---------------------------------------------------------------------
// Answers
// ---------------------------------------------------------------------

/// How long a file may be kept without asking again: pages never, anything
/// else for a month.
pub open spec fn cache_rule(content_type: Seq<char>) -> Seq<char> {
    if "text/html"@.is_prefix_of(content_type) {
        "no-cache"@
    } else {
        "public, max-age=2592000, immutable"@
    }
}

/// The headers that every answer carries. A configured `Server` header that
/// cannot be one is left out.
pub open spec fn common_headers(server: Seq<char>, date: Seq<char>) -> Seq<
    (Seq<char>, Seq<char>),
> {
    (if http_util::header_text(server) {
        seq![("server"@, server)]
    } else {
        Seq::empty()
    }) + seq![
        ("date"@, date),
        ("strict-transport-security"@, "max-age=63072000; includeSubDomains; preload"@),
        ("x-content-type-options"@, "nosniff"@),
        ("x-frame-options"@, "SAMEORIGIN"@),
        ("referrer-policy"@, "strict-origin-when-cross-origin"@),
    ]
}

/// The headers that go with a configuration at a time.
pub open spec fn headers_at(config: ServiceConfig, now: u64) -> Seq<(Seq<char>, Seq<char>)> {
    common_headers(config.server_header@, http_util::http_date_text(now))
}

/// The body, unless only the headers were asked for.
pub open spec fn body_for(method: Seq<char>, bytes: Seq<u8>) -> Seq<u8> {
    if method == "HEAD"@ {
        Seq::empty()
    } else {
        bytes
    }
}

/// The answer that carries a file.
pub open spec fn file_answer(method: Seq<char>, file: Served, common: Seq<(Seq<char>, Seq<char>)>)
    -> Answer {
    Answer {
        status: 200,
        headers: seq![
            ("content-type"@, file.content_type),
            ("content-length"@, text::decimal(file.bytes.len())),
            ("etag"@, file.etag),
            ("last-modified"@, file.last_modified),
            ("cache-control"@, cache_rule(file.content_type)),
        ] + common,
        body: body_for(method, file.bytes),
    }
}

/// The answer to a client that has the file already.
pub open spec fn unchanged_answer(file: Served, common: Seq<(Seq<char>, Seq<char>)>) -> Answer {
    Answer {
        status: 304,
        headers: seq![("etag"@, file.etag), ("last-modified"@, file.last_modified)] + common,
        body: Seq::empty(),
    }
}

/// The answer where there is no such file.
pub open spec fn missing_answer(
    method: Seq<char>,
    page: Served,
    common: Seq<(Seq<char>, Seq<char>)>,
) -> Answer {
    Answer {
        status: 404,
        headers: seq![
            ("content-type"@, page.content_type),
            ("content-length"@, text::decimal(page.bytes.len())),
            ("cache-control"@, "no-cache"@),
        ] + common,
        body: body_for(method, page.bytes),
    }
}

/// The answer to `OPTIONS`.
pub open spec fn options_answer(common: Seq<(Seq<char>, Seq<char>)>) -> Answer {
    Answer {
        status: 204,
        headers: seq![("allow"@, "GET, HEAD, OPTIONS"@), ("content-length"@, "0"@)] + common,
        body: Seq::empty(),
    }
}

/// The page for methods that are not served.
pub open spec fn not_allowed_html() -> Seq<char> {
    "<!doctype html><html><head><title>405 Not Allowed</title></head><body><center><h1>405 Not Allowed</h1></center></body></html>"@
}

/// The answer to any other method.
pub open spec fn not_allowed_answer(common: Seq<(Seq<char>, Seq<char>)>) -> Answer {
    let page = vstd::utf8::encode_utf8(not_allowed_html());
    Answer {
        status: 405,
        headers: seq![
            ("content-type"@, "text/html; charset=utf-8"@),
            ("allow"@, "GET, HEAD, OPTIONS"@),
            ("content-length"@, text::decimal(page.len())),
        ] + common,
        body: page,
    }
}

/// What a request is answered: `path` with its escapes decoded, and
/// `if_none_match` the tag that the client has.
pub open spec fn site_answer(
    method: Seq<char>,
    path: Seq<char>,
    if_none_match: Option<Seq<char>>,
    files: Map<Seq<char>, Served>,
    missing: Served,
    common: Seq<(Seq<char>, Seq<char>)>,
) -> Answer {
    if method == "OPTIONS"@ {
        options_answer(common)
    } else if method != "GET"@ && method != "HEAD"@ {
        not_allowed_answer(common)
    } else if !files.contains_key(fallback::wanted_path(path)) {
        missing_answer(method, missing, common)
    } else {
        let file = files[fallback::wanted_path(path)];
        if if_none_match == Some(file.etag) {
            unchanged_answer(file, common)
        } else {
            file_answer(method, file, common)
        }
    }
}

/// Every value of the headers can be sent.
pub open spec fn all_sendable(headers: Seq<(Seq<char>, Seq<char>)>) -> bool {
    forall|i: int|
        0 <= i < headers.len() ==> http_util::header_text((#[trigger] headers[i]).1)
}

/// The stats after a request with that method.
pub open spec fn method_counted(method: Seq<char>, s: Stats) -> Stats {
    if method == "GET"@ {
        Stats { http_method_get_total: s.http_method_get_total.wrapping_add(1), ..s }
    } else if method == "HEAD"@ {
        Stats { http_method_head_total: s.http_method_head_total.wrapping_add(1), ..s }
    } else if method == "OPTIONS"@ {
        Stats { http_method_options_total: s.http_method_options_total.wrapping_add(1), ..s }
    } else {
        Stats { http_method_other_total: s.http_method_other_total.wrapping_add(1), ..s }
    }
}

/// The stats after an answer with that status.
pub open spec fn status_counted(status: u16, s: Stats) -> Stats {
    if status == 200 {
        Stats { http_status_200_total: s.http_status_200_total.wrapping_add(1), ..s }
    } else if status == 204 {
        Stats { http_status_204_total: s.http_status_204_total.wrapping_add(1), ..s }
    } else if status == 304 {
        Stats { http_status_304_total: s.http_status_304_total.wrapping_add(1), ..s }
    } else if status == 404 {
        Stats { http_status_404_total: s.http_status_404_total.wrapping_add(1), ..s }
    } else if status == 405 {
        Stats { http_status_405_total: s.http_status_405_total.wrapping_add(1), ..s }
    } else {
        Stats { http_status_other_total: s.http_status_other_total.wrapping_add(1), ..s }
    }
}

/// The stats after an answer: its status, and the bytes that its
/// `Content-Length` gives.
pub open spec fn answer_counted(answer: Answer, s: Stats) -> Stats {
    let counted = status_counted(answer.status, s);
    match http_util::header_number(answer.headers, "content-length"@) {
        Some(n) => Stats {
            http_bytes_sent_total: s.http_bytes_sent_total.wrapping_add(n as u64),
            ..counted
        },
        None => counted,
    }
}

proof fn lemma_cache_rule_is_sendable(content_type: Seq<char>)
    ensures
        http_util::header_text(cache_rule(content_type)),
{
    reveal_strlit("no-cache");
    reveal_strlit("public, max-age=2592000, immutable");
}

fn cache_control_for(content_type: &str) -> (res: &'static str)
    ensures
        res@ == cache_rule(content_type@),
{
    if text::begins_with(content_type, "text/html") {
        "no-cache"
    } else {
        "public, max-age=2592000, immutable"
    }
}

fn apply_common_headers(
    headers: &mut Vec<(&'static str, String)>,
    config: &ServiceConfig,
    now: u64,
)
    requires
        now < HTTP_DATE_END,
    ensures
        http_util::header_texts(final(headers)@) == http_util::header_texts(old(headers)@)
            + common_headers(config.server_header@, http_util::http_date_text(now)),
        all_sendable(headers_at(*config, now)),
{
    let ghost before = http_util::header_texts(headers@);
    if http_util::is_header_text(config.server_header.as_str()) {
        http_util::push_header(headers, "server", config.server_header.as_str());
    }
    let date = http_util::http_date(now);
    if http_util::is_header_text(date.as_str()) {
        http_util::push_header(headers, "date", date.as_str());
    }
    http_util::push_header(
        headers,
        "strict-transport-security",
        "max-age=63072000; includeSubDomains; preload",
    );
    http_util::push_header(headers, "x-content-type-options", "nosniff");
    http_util::push_header(headers, "x-frame-options", "SAMEORIGIN");
    http_util::push_header(headers, "referrer-policy", "strict-origin-when-cross-origin");
    proof {
        reveal_strlit("max-age=63072000; includeSubDomains; preload");
        reveal_strlit("nosniff");
        reveal_strlit("SAMEORIGIN");
        reveal_strlit("strict-origin-when-cross-origin");
        assert(http_util::header_texts(headers@) =~= before + common_headers(
            config.server_header@,
            http_util::http_date_text(now),
        ));
    }
}

fn body_of(method: &str, entry: &FileEntry) -> (res: bytes::Bytes)
    ensures
        buffers::shared_bytes(res) == body_for(method@, entry@.bytes),
{
    if *method == *"HEAD" {
        http_util::empty_body()
    } else {
        buffers::shared_clone(&entry.bytes)
    }
}

fn length_text(entry: &FileEntry) -> (res: String)
    ensures
        res@ == text::decimal(entry@.bytes.len()),
{
    text::decimal_text(buffers::shared_slice(&entry.bytes).len() as u64)
}

/// Answers with a file, or with word that the client has it already.
pub fn file_response(
    method: &str,
    if_none_match: &Option<String>,
    entry: &FileEntry,
    config: &ServiceConfig,
    now: u64,
) -> (res: HttpResponse)
    requires
        now < HTTP_DATE_END,
    ensures
        res@ == (if tag_view(*if_none_match) == Some(entry@.etag) {
            unchanged_answer(entry@, headers_at(*config, now))
        } else {
            file_answer(method@, entry@, headers_at(*config, now))
        }),
        entry@.sendable() ==> all_sendable(res@.headers),
{
    if let Some(tag) = if_none_match {
        if *tag.as_str() == *entry.etag.as_str() {
            return not_modified_response(entry, config, now);
        }
    }
    let mut headers: Vec<(&'static str, String)> = Vec::new();
    http_util::push_header(&mut headers, "content-type", entry.content_type);
    http_util::push_header(&mut headers, "content-length", length_text(entry).as_str());
    http_util::push_header(&mut headers, "etag", entry.etag.as_str());
    http_util::push_header(&mut headers, "last-modified", entry.last_modified.as_str());
    http_util::push_header(&mut headers, "cache-control", cache_control_for(entry.content_type));
    apply_common_headers(&mut headers, config, now);
    let res = HttpResponse { status: 200, headers, body: body_of(method, entry) };
    proof {
        assert(res@ =~= file_answer(method@, entry@, headers_at(*config, now)));
        text::lemma_decimal_is_printable(entry@.bytes.len());
        lemma_cache_rule_is_sendable(entry@.content_type);
    }
    res
}

/// Answers that there is no such file.
pub fn not_found_response(method: &str, site: &StaticSite, config: &ServiceConfig, now: u64) -> (res:
    HttpResponse)
    requires
        now < HTTP_DATE_END,
    ensures
        res@ == missing_answer(method@, site.missing(), headers_at(*config, now)),
        site.missing().sendable() ==> all_sendable(res@.headers),
{
    let entry = site.not_found();
    let mut headers: Vec<(&'static str, String)> = Vec::new();
    http_util::push_header(&mut headers, "content-type", entry.content_type);
    http_util::push_header(&mut headers, "content-length", length_text(entry).as_str());
    http_util::push_header(&mut headers, "cache-control", "no-cache");
    apply_common_headers(&mut headers, config, now);
    let res = HttpResponse { status: 404, headers, body: body_of(method, entry) };
    proof {
        assert(res@ =~= missing_answer(method@, site.missing(), headers_at(*config, now)));
        text::lemma_decimal_is_printable(entry@.bytes.len());
        reveal_strlit("no-cache");
    }
    res
}

fn not_modified_response(entry: &FileEntry, config: &ServiceConfig, now: u64) -> (res: HttpResponse)
    requires
        now < HTTP_DATE_END,
    ensures
        res@ == unchanged_answer(entry@, headers_at(*config, now)),
        entry@.sendable() ==> all_sendable(res@.headers),
{
    let mut headers: Vec<(&'static str, String)> = Vec::new();
    http_util::push_header(&mut headers, "etag", entry.etag.as_str());
    http_util::push_header(&mut headers, "last-modified", entry.last_modified.as_str());
    apply_common_headers(&mut headers, config, now);
    let res = HttpResponse { status: 304, headers, body: http_util::empty_body() };
    proof {
        assert(res@ =~= unchanged_answer(entry@, headers_at(*config, now)));
    }
    res
}

/// Answers which methods there are.
pub fn options_response(config: &ServiceConfig, now: u64) -> (res: HttpResponse)
    requires
        now < HTTP_DATE_END,
    ensures
        res@ == options_answer(headers_at(*config, now)),
        all_sendable(res@.headers),
{
    let mut headers: Vec<(&'static str, String)> = Vec::new();
    http_util::push_header(&mut headers, "allow", "GET, HEAD, OPTIONS");
    http_util::push_header(&mut headers, "content-length", "0");
    apply_common_headers(&mut headers, config, now);
    let res = HttpResponse { status: 204, headers, body: http_util::empty_body() };
    proof {
        assert(res@ =~= options_answer(headers_at(*config, now)));
        reveal_strlit("GET, HEAD, OPTIONS");
        reveal_strlit("0");
    }
    res
}

/// Answers that the method is not one of them.
pub fn method_not_allowed_response(config: &ServiceConfig, now: u64) -> (res: HttpResponse)
    requires
        now < HTTP_DATE_END,
    ensures
        res@ == not_allowed_answer(headers_at(*config, now)),
        all_sendable(res@.headers),
{
    let html = fallback::bytes_of(
        "<!doctype html><html><head><title>405 Not Allowed</title></head><body><center><h1>405 Not Allowed</h1></center></body></html>",
    );
    let mut headers: Vec<(&'static str, String)> = Vec::new();
    http_util::push_header(&mut headers, "content-type", "text/html; charset=utf-8");
    http_util::push_header(&mut headers, "allow", "GET, HEAD, OPTIONS");
    http_util::push_header(
        &mut headers,
        "content-length",
        text::decimal_text(html.len() as u64).as_str(),
    );
    apply_common_headers(&mut headers, config, now);
    let res = HttpResponse { status: 405, headers, body: buffers::shared_from_vec(html) };
    proof {
        assert(res@ =~= not_allowed_answer(headers_at(*config, now)));
        reveal_strlit("text/html; charset=utf-8");
        reveal_strlit("GET, HEAD, OPTIONS");
        text::lemma_decimal_is_printable(vstd::utf8::encode_utf8(not_allowed_html()).len());
    }
    res
}

/// Counts an answer.
pub fn record_response_metrics(stats: &mut Stats, response: &HttpResponse)
    ensures
        *final(stats) == answer_counted(response@, *old(stats)),
{
    match response.status {
        200 => stats.http_status_200_total = stats.http_status_200_total.wrapping_add(1),
        204 => stats.http_status_204_total = stats.http_status_204_total.wrapping_add(1),
        304 => stats.http_status_304_total = stats.http_status_304_total.wrapping_add(1),
        404 => stats.http_status_404_total = stats.http_status_404_total.wrapping_add(1),
        405 => stats.http_status_405_total = stats.http_status_405_total.wrapping_add(1),
        _ => stats.http_status_other_total = stats.http_status_other_total.wrapping_add(1),
    }
    if let Some(n) = http_util::number_in_header(&response.headers, "content-length") {
        stats.http_bytes_sent_total = stats.http_bytes_sent_total.wrapping_add(n);
    }
}

pub open spec fn tag_view(tag: Option<String>) -> Option<Seq<char>> {
    match tag {
        Some(s) => Some(s@),
        None => None,
    }
}

/// Answers a request whose path has been decoded, and counts it.
pub fn respond(
    method: &str,
    decoded_path: &str,
    if_none_match: &Option<String>,
    site: &StaticSite,
    config: &ServiceConfig,
    stats: &mut Stats,
    now: u64,
) -> (res: HttpResponse)
    requires
        now < HTTP_DATE_END,
    ensures
        res@ == site_answer(
            method@,
            decoded_path@,
            tag_view(*if_none_match),
            site.files(),
            site.missing(),
            headers_at(*config, now),
        ),
        *final(stats) == answer_counted(res@, method_counted(method@, *old(stats))),
        site.well_formed() ==> all_sendable(res@.headers),
{
    if *method == *"GET" {
        stats.http_method_get_total = stats.http_method_get_total.wrapping_add(1);
    } else if *method == *"HEAD" {
        stats.http_method_head_total = stats.http_method_head_total.wrapping_add(1);
    } else if *method == *"OPTIONS" {
        stats.http_method_options_total = stats.http_method_options_total.wrapping_add(1);
    } else {
        stats.http_method_other_total = stats.http_method_other_total.wrapping_add(1);
    }
    let response = if *method == *"OPTIONS" {
        options_response(config, now)
    } else if *method != *"GET" && *method != *"HEAD" {
        method_not_allowed_response(config, now)
    } else {
        match site.resolve(decoded_path) {
            Some(entry) => file_response(method, if_none_match, entry, config, now),
            None => not_found_response(method, site, config, now),
        }
    };
    record_response_metrics(stats, &response);
    response
}

/// The path of a request with its escapes decoded.
pub open spec fn decoded(path: Seq<char>) -> Seq<char> {
    http_util::lossy_text(http_util::percent_decoded_bytes(vstd::utf8::encode_utf8(path)))
}

/// Answers a request, and counts it. `path` is the path as it was sent, and
/// `if_none_match` the tag that the client sent, if it is readable text. `now`
/// is the current time, in seconds since the Unix epoch.
pub fn handle_http(
    method: &str,
    path: &str,
    if_none_match: &Option<String>,
    site: &StaticSite,
    config: &ServiceConfig,
    stats: &mut Stats,
    now: u64,
) -> (res: HttpResponse)
    requires
        now < HTTP_DATE_END,
    ensures
        res@ == site_answer(
            method@,
            decoded(path@),
            tag_view(*if_none_match),
            site.files(),
            site.missing(),
            headers_at(*config, now),
        ),
        !vstd::utf8::encode_utf8(path@).contains(0x25u8) ==> res@ == site_answer(
            method@,
            path@,
            tag_view(*if_none_match),
            site.files(),
            site.missing(),
            headers_at(*config, now),
        ),
        *final(stats) == answer_counted(res@, method_counted(method@, *old(stats))),
        site.well_formed() ==> all_sendable(res@.headers),
{
    let decoded_path = http_util::percent_decoded(path);
    proof {
        if !vstd::utf8::encode_utf8(path@).contains(0x25u8) {
            http_util::law_nothing_to_decode(vstd::utf8::encode_utf8(path@));
            vstd::utf8::encode_utf8_valid_utf8(path@);
            vstd::utf8::encode_utf8_decode_utf8(path@);
        }
    }
    respond(method, decoded_path.as_str(), if_none_match, site, config, stats, now)
}

// ---------------------------------------------------------------------
// Laws
// ---------------------------------------------------------------------

/// `HEAD` is answered like `GET`, without the body.
pub proof fn law_head_is_get_without_body(
    path: Seq<char>,
    if_none_match: Option<Seq<char>>,
    files: Map<Seq<char>, Served>,
    missing: Served,
    common: Seq<(Seq<char>, Seq<char>)>,
)
    ensures
        ({
            let get = site_answer("GET"@, path, if_none_match, files, missing, common);
            let head = site_answer("HEAD"@, path, if_none_match, files, missing, common);
            head == (Answer { body: Seq::empty(), ..get })
        }),
{
    lemma_methods_differ();
}

proof fn lemma_methods_differ()
    ensures
        "GET"@ != "HEAD"@,
        "GET"@ != "OPTIONS"@,
        "HEAD"@ != "OPTIONS"@,
{
    reveal_strlit("GET");
    reveal_strlit("HEAD");
    reveal_strlit("OPTIONS");
    assert("GET"@.len() == 3);
    assert("HEAD"@.len() == 4);
    assert("OPTIONS"@.len() == 7);
}

/// A client that sends back the tag of a file is told that it has the file,
/// and gets the same tag without a body. A client with another tag, or with
/// none, gets the file.
pub proof fn law_own_tag_revalidates(
    method: Seq<char>,
    path: Seq<char>,
    if_none_match: Option<Seq<char>>,
    files: Map<Seq<char>, Served>,
    missing: Served,
    common: Seq<(Seq<char>, Seq<char>)>,
)
    requires
        method == "GET"@ || method == "HEAD"@,
        files.contains_key(fallback::wanted_path(path)),
    ensures
        ({
            let file = files[fallback::wanted_path(path)];
            let answer = site_answer(method, path, if_none_match, files, missing, common);
            &&& answer.status == 304 <==> if_none_match == Some(file.etag)
            &&& answer.status == 200 <==> if_none_match != Some(file.etag)
            &&& answer.status == 304 ==> answer.body.len() == 0
            &&& answer.headers.contains(("etag"@, file.etag))
            &&& method == "GET"@ && answer.status == 200 ==> answer.body == file.bytes
        }),
{
    lemma_methods_differ();
    let file = files[fallback::wanted_path(path)];
    let answer = site_answer(method, path, if_none_match, files, missing, common);
    if if_none_match == Some(file.etag) {
        assert(answer.headers[0] == ("etag"@, file.etag));
    } else {
        assert(answer.headers[2] == ("etag"@, file.etag));
    }
}

/// Which requests are refused, and how: a method that is not served with a
/// 405, `OPTIONS` never, and a path that is not there with a 404 and the page
/// of the site.
pub proof fn law_refusals(
    method: Seq<char>,
    path: Seq<char>,
    if_none_match: Option<Seq<char>>,
    files: Map<Seq<char>, Served>,
    missing: Served,
    common: Seq<(Seq<char>, Seq<char>)>,
)
    ensures
        ({
            let answer = site_answer(method, path, if_none_match, files, missing, common);
            let served = method == "GET"@ || method == "HEAD"@;
            &&& answer.status == 405 <==> !served && method != "OPTIONS"@
            &&& answer.status == 204 <==> method == "OPTIONS"@
            &&& answer.status == 404 <==> served && !files.contains_key(
                fallback::wanted_path(path),
            )
            &&& answer.status == 404 && method == "GET"@ ==> answer.body == missing.bytes
            &&& answer.status == 204 || answer.status == 405 ==> answer.headers.contains(
                ("allow"@, "GET, HEAD, OPTIONS"@),
            )
        }),
{
    lemma_methods_differ();
    let answer = site_answer(method, path, if_none_match, files, missing, common);
    if answer.status == 204 {
        assert(answer.headers[0] == ("allow"@, "GET, HEAD, OPTIONS"@));
    }
    if answer.status == 405 {
        assert(answer.headers[1] == ("allow"@, "GET, HEAD, OPTIONS"@));
    }
}

/// Every answer, whatever was asked, carries the common headers.
pub proof fn law_every_answer_has_the_common_headers(
    method: Seq<char>,
    path: Seq<char>,
    if_none_match: Option<Seq<char>>,
    files: Map<Seq<char>, Served>,
    missing: Served,
    common: Seq<(Seq<char>, Seq<char>)>,
    i: int,
)
    requires
        0 <= i < common.len(),
    ensures
        site_answer(method, path, if_none_match, files, missing, common).headers.contains(
            common[i],
        ),
{
    let headers = site_answer(method, path, if_none_match, files, missing, common).headers;
    let own = headers.len() - common.len();
    assert(headers[own + i] == common[i]);
}

/// The length that an answer with a body gives is the length of the body.
pub proof fn law_length_is_that_of_the_body(
    method: Seq<char>,
    path: Seq<char>,
    if_none_match: Option<Seq<char>>,
    files: Map<Seq<char>, Served>,
    missing: Served,
    common: Seq<(Seq<char>, Seq<char>)>,
)
    requires
        method != "HEAD"@,
        missing.bytes.len() <= u64::MAX,
        forall|p: Seq<char>| #[trigger] files.contains_key(p) ==> files[p].bytes.len() <= u64::MAX,
    ensures
        ({
            let answer = site_answer(method, path, if_none_match, files, missing, common);
            answer.status != 304 ==> http_util::header_number(answer.headers, "content-length"@)
                == Some(answer.body.len())
        }),
{
    let answer = site_answer(method, path, if_none_match, files, missing, common);
    let headers = answer.headers;
    lemma_header_names_differ();
    text::law_decimal_reads_back(answer.body.len(), u64::MAX as nat);
    reveal_with_fuel(http_util::header_number, 4);
    if answer.status == 405 {
        lemma_not_allowed_page_is_short();
        assert(headers.skip(1)[0] == headers[1]);
        assert(headers.skip(1).skip(1)[0] == headers[2]);
    } else if answer.status == 204 {
        reveal_strlit("0");
        assert("0"@ =~= text::decimal(0));
        text::law_decimal_reads_back(0, u64::MAX as nat);
        assert(headers.skip(1)[0] == headers[1]);
    } else if answer.status == 200 || answer.status == 404 {
        assert(headers.skip(1)[0] == headers[1]);
    }
}

proof fn lemma_header_names_differ()
    ensures
        "content-type"@ != "content-length"@,
        "allow"@ != "content-length"@,
{
    reveal_strlit("content-type");
    reveal_strlit("content-length");
    reveal_strlit("allow");
    assert("content-type"@.len() == 12);
    assert("content-length"@.len() == 14);
    assert("allow"@.len() == 5);
}

proof fn lemma_not_allowed_page_is_short()
    ensures
        vstd::utf8::encode_utf8(not_allowed_html()).len() <= u64::MAX,
{
    reveal_strlit(
        "<!doctype html><html><head><title>405 Not Allowed</title></head><body><center><h1>405 Not Allowed</h1></center></body></html>",
    );
    text::lemma_utf8_length(not_allowed_html());
}

/// The requests that have been counted, by method.
pub open spec fn requests_counted(s: Stats) -> int {
    s.http_method_get_total + s.http_method_head_total + s.http_method_options_total
        + s.http_method_other_total
}

/// The answers that have been counted, by status.
pub open spec fn answers_counted(s: Stats) -> int {
    s.http_status_200_total + s.http_status_204_total + s.http_status_304_total
        + s.http_status_404_total + s.http_status_405_total + s.http_status_other_total
}

/// Every request is counted once as a request and once as an answer, together
/// with the bytes that the answer announces, and no counter ever falls.
pub proof fn law_every_request_is_counted_once(method: Seq<char>, answer: Answer, s: Stats)
    requires
        s.has_room(1),
        http_util::header_number(answer.headers, "content-length"@) matches Some(n) ==> s.has_room(
            n as int,
        ),
    ensures
        ({
            let after = answer_counted(answer, method_counted(method, s));
            &&& requests_counted(after) == requests_counted(s) + 1
            &&& answers_counted(after) == answers_counted(s) + 1
            &&& after.http_bytes_sent_total == s.http_bytes_sent_total + (
            match http_util::header_number(answer.headers, "content-length"@) {
                Some(n) => n,
                None => 0,
            })
            &&& s.grown_to(after)
        }),
{
}

/// Every handshake is counted once, as a success or as a failure, and every
/// success once by the protocol that was negotiated. No counter ever falls.
pub proof fn law_every_handshake_is_counted_once(
    handshake: Handshake,
    alpn: Option<Seq<u8>>,
    s: Stats,
)
    requires
        s.has_room(1),
    ensures
        ({
            let after = handshake_stats(handshake, alpn, s);
            let succeeded = after.fallback_tls_handshake_success_total
                - s.fallback_tls_handshake_success_total;
            &&& succeeded + after.fallback_tls_handshake_failure_total
                - s.fallback_tls_handshake_failure_total == 1
            &&& succeeded == (if handshake == Handshake::Completed {
                1int
            } else {
                0int
            })
            &&& after.fallback_alpn_h2_total + after.fallback_alpn_http1_total
                + after.fallback_alpn_none_total == s.fallback_alpn_h2_total
                + s.fallback_alpn_http1_total + s.fallback_alpn_none_total + succeeded
            &&& s.grown_to(after)
        }),
{
}

/// Every file of the site can be had: a GET of its path is answered with its
/// own bytes, and a HEAD in the same way without them, unless a file that was
/// read later has the same path. The query does not matter.
pub proof fn law_every_file_can_be_had(
    files: Seq<fallback::LoadedFile>,
    i: int,
    query: Seq<char>,
    missing: Served,
    common: Seq<(Seq<char>, Seq<char>)>,
)
    requires
        0 <= i < files.len(),
        files[i].path@.len() > 0,
        !files[i].path@.contains('?'),
        forall|j: int|
            i < j < files.len() ==> fallback::url_path((#[trigger] files[j]).path@)
                != fallback::url_path(files[i].path@),
    ensures
        ({
            let path = fallback::url_path(files[i].path@);
            let table = fallback::served_files(files);
            let get = site_answer("GET"@, path, None, table, missing, common);
            let asked = site_answer(
                "GET"@,
                path + seq!['?'] + query,
                None,
                table,
                missing,
                common,
            );
            let head = site_answer("HEAD"@, path, None, table, missing, common);
            &&& get.status == 200
            &&& get.body == files[i].bytes@
            &&& asked == get
            &&& head.status == 200
            &&& head.body.len() == 0
        }),
{
    let path = fallback::url_path(files[i].path@);
    lemma_methods_differ();
    fallback::law_files_are_asked_for_under_their_paths(files[i].path@);
    assert forall|k: int| 0 <= k < path.len() implies #[trigger] path[k] != '?' by {
        if k > 0 {
            assert(files[i].path@.contains(files[i].path@[k - 1]));
            assert(path[(k - 1) + 1] == path[k]);
        }
    }
    assert(path.len() > 1);
    assert(path != seq!['/']) by {
        assert(seq!['/'].len() == 1);
    }
    fallback::law_paths_mean_themselves(path, query);
    fallback::law_only_read_files_are_served(files, path);
    let table = fallback::served_files(files);
    assert(table.contains_key(path));
    let k = choose|k: int|
        {
            &&& 0 <= k < files.len()
            &&& fallback::url_path((#[trigger] files[k]).path@) == path
            &&& table[path] == fallback::served(files[k])
            &&& forall|j: int|
                k < j < files.len() ==> fallback::url_path((#[trigger] files[j]).path@) != path
        };
    assert(k == i);
    fallback::law_files_are_served_as_read(files[i]);
}

/// What is asked for and is not there, under any path that is not empty, not
/// the root and has no query, is answered with a 404 and the page for it.
pub proof fn law_what_was_not_read_is_not_found(
    files: Seq<fallback::LoadedFile>,
    path: Seq<char>,
    missing: Served,
    common: Seq<(Seq<char>, Seq<char>)>,
)
    requires
        path.len() > 0,
        path != seq!['/'],
        !path.contains('?'),
        forall|j: int|
            0 <= j < files.len() ==> fallback::url_path((#[trigger] files[j]).path@) != path,
    ensures
        ({
            let get = site_answer(
                "GET"@,
                path,
                None,
                fallback::served_files(files),
                missing,
                common,
            );
            get.status == 404 && get.body == missing.bytes
        }),
{
    lemma_methods_differ();
    fallback::law_paths_mean_themselves(path, Seq::empty());
    fallback::law_only_read_files_are_served(files, path);
}

/// What the answers carry: a file its type, its length, its tag, its date and
/// for how long it may be kept; word that nothing has changed the tag and the
/// date; and the page for what is missing its type and its length, and that it
/// is not to be kept.
pub proof fn law_what_answers_carry(
    path: Seq<char>,
    tag: Option<Seq<char>>,
    files: Map<Seq<char>, Served>,
    missing: Served,
    common: Seq<(Seq<char>, Seq<char>)>,
)
    ensures
        ({
            let answer = site_answer("GET"@, path, tag, files, missing, common);
            let file = files[fallback::wanted_path(path)];
            let kept = if "text/html"@.is_prefix_of(file.content_type) {
                "no-cache"@
            } else {
                "public, max-age=2592000, immutable"@
            };
            &&& answer.status == 200 ==> answer.headers == seq![
                ("content-type"@, file.content_type),
                ("content-length"@, text::decimal(file.bytes.len())),
                ("etag"@, file.etag),
                ("last-modified"@, file.last_modified),
                ("cache-control"@, kept),
            ] + common
            &&& answer.status == 304 ==> answer.headers == seq![
                ("etag"@, file.etag),
                ("last-modified"@, file.last_modified),
            ] + common
            &&& answer.status == 404 ==> answer.headers == seq![
                ("content-type"@, missing.content_type),
                ("content-length"@, text::decimal(missing.bytes.len())),
                ("cache-control"@, "no-cache"@),
            ] + common
        }),
{
    lemma_methods_differ();
}

/// `OPTIONS` and methods that are not served are answered with the methods
/// there are, and the latter with a page that says so.
pub proof fn law_answers_to_other_methods(
    method: Seq<char>,
    path: Seq<char>,
    tag: Option<Seq<char>>,
    files: Map<Seq<char>, Served>,
    missing: Served,
    common: Seq<(Seq<char>, Seq<char>)>,
)
    ensures
        ({
            let answer = site_answer(method, path, tag, files, missing, common);
            let page = vstd::utf8::encode_utf8(
                "<!doctype html><html><head><title>405 Not Allowed</title></head><body><center><h1>405 Not Allowed</h1></center></body></html>"@,
            );
            &&& method == "OPTIONS"@ ==> answer == (Answer {
                status: 204,
                headers: seq![("allow"@, "GET, HEAD, OPTIONS"@), ("content-length"@, "0"@)]
                    + common,
                body: Seq::empty(),
            })
            &&& method != "OPTIONS"@ && method != "GET"@ && method != "HEAD"@ ==> answer
                == (Answer {
                status: 405,
                headers: seq![
                    ("content-type"@, "text/html; charset=utf-8"@),
                    ("allow"@, "GET, HEAD, OPTIONS"@),
                    ("content-length"@, text::decimal(page.len())),
                ] + common,
                body: page,
            })
        }),
{
}

/// The headers that every answer carries: the configured server, unless it
/// cannot be a header, the date of the answer, and what browsers are told
/// about the site.
pub proof fn law_common_headers(config: ServiceConfig, now: u64)
    ensures
        ({
            let fixed = seq![
                ("date"@, http_util::http_date_text(now)),
                ("strict-transport-security"@, "max-age=63072000; includeSubDomains; preload"@),
                ("x-content-type-options"@, "nosniff"@),
                ("x-frame-options"@, "SAMEORIGIN"@),
                ("referrer-policy"@, "strict-origin-when-cross-origin"@),
            ];
            &&& http_util::header_text(config.server_header@) ==> headers_at(config, now) == seq![
                ("server"@, config.server_header@),
            ] + fixed
            &&& !http_util::header_text(config.server_header@) ==> headers_at(config, now) == fixed
        }),
{
    let fixed = seq![
        ("date"@, http_util::http_date_text(now)),
        ("strict-transport-security"@, "max-age=63072000; includeSubDomains; preload"@),
        ("x-content-type-options"@, "nosniff"@),
        ("x-frame-options"@, "SAMEORIGIN"@),
        ("referrer-policy"@, "strict-origin-when-cross-origin"@),
    ];
    assert(Seq::<(Seq<char>, Seq<char>)>::empty() + fixed =~= fixed);
}

/// Each method and each status has its counter, and no other moves.
pub proof fn law_each_request_has_its_counters(method: Seq<char>, status: u16, s: Stats)
    requires
        s.http_method_get_total < u64::MAX,
        s.http_method_head_total < u64::MAX,
        s.http_method_options_total < u64::MAX,
        s.http_method_other_total < u64::MAX,
        s.http_status_200_total < u64::MAX,
        s.http_status_204_total < u64::MAX,
        s.http_status_304_total < u64::MAX,
        s.http_status_404_total < u64::MAX,
        s.http_status_405_total < u64::MAX,
        s.http_status_other_total < u64::MAX,
    ensures
        method == "GET"@ ==> method_counted(method, s) == (Stats {
            http_method_get_total: (s.http_method_get_total + 1) as u64,
            ..s
        }),
        method == "HEAD"@ ==> method_counted(method, s) == (Stats {
            http_method_head_total: (s.http_method_head_total + 1) as u64,
            ..s
        }),
        method == "OPTIONS"@ ==> method_counted(method, s) == (Stats {
            http_method_options_total: (s.http_method_options_total + 1) as u64,
            ..s
        }),
        method != "GET"@ && method != "HEAD"@ && method != "OPTIONS"@ ==> method_counted(method, s)
            == (Stats { http_method_other_total: (s.http_method_other_total + 1) as u64, ..s }),
        status_counted(200, s) == (Stats {
            http_status_200_total: (s.http_status_200_total + 1) as u64,
            ..s
        }),
        status_counted(204, s) == (Stats {
            http_status_204_total: (s.http_status_204_total + 1) as u64,
            ..s
        }),
        status_counted(304, s) == (Stats {
            http_status_304_total: (s.http_status_304_total + 1) as u64,
            ..s
        }),
        status_counted(404, s) == (Stats {
            http_status_404_total: (s.http_status_404_total + 1) as u64,
            ..s
        }),
        status_counted(405, s) == (Stats {
            http_status_405_total: (s.http_status_405_total + 1) as u64,
            ..s
        }),
        status != 200 && status != 204 && status != 304 && status != 404 && status != 405
            ==> status_counted(status, s) == (Stats {
            http_status_other_total: (s.http_status_other_total + 1) as u64,
            ..s
        }),
{
    lemma_methods_differ();
}

/// An answer counts under its status, with the bytes that its `Content-Length`
/// announces, and moves nothing else.
pub proof fn law_announced_bytes_are_counted(answer: Answer, s: Stats, n: nat)
    ensures
        http_util::header_number(answer.headers, "content-length"@) is None ==> answer_counted(
            answer,
            s,
        ) == status_counted(answer.status, s),
        http_util::header_number(answer.headers, "content-length"@) == Some(n)
            && s.http_bytes_sent_total + n <= u64::MAX ==> answer_counted(answer, s) == (Stats {
            http_bytes_sent_total: (s.http_bytes_sent_total + n) as u64,
            ..status_counted(answer.status, s)
        }),
{
}

/// What is spoken after a handshake, and what is counted: HTTP/2 exactly if it
/// was negotiated, HTTP/1.1 otherwise, and nothing if the handshake did not
/// complete.
pub proof fn law_what_is_spoken(handshake: Handshake, alpn: Option<Seq<u8>>, s: Stats)
    requires
        s.fallback_tls_handshake_success_total < u64::MAX,
        s.fallback_tls_handshake_failure_total < u64::MAX,
        s.fallback_alpn_h2_total < u64::MAX,
        s.fallback_alpn_http1_total < u64::MAX,
        s.fallback_alpn_none_total < u64::MAX,
    ensures
        ({
            let h2 = seq![0x68u8, 0x32u8];
            let http1 = seq![
                0x68u8,
                0x74u8,
                0x74u8,
                0x70u8,
                0x2fu8,
                0x31u8,
                0x2eu8,
                0x31u8,
            ];
            let done = Stats {
                fallback_tls_handshake_success_total: (s.fallback_tls_handshake_success_total
                    + 1) as u64,
                ..s
            };
            &&& !(handshake is Completed) ==> spoken(handshake, alpn) is None && handshake_stats(
                handshake,
                alpn,
                s,
            ) == (Stats {
                fallback_tls_handshake_failure_total: (s.fallback_tls_handshake_failure_total
                    + 1) as u64,
                ..s
            })
            &&& handshake is Completed && alpn == Some(h2) ==> spoken(handshake, alpn) == Some(
                Protocol::Http2,
            ) && handshake_stats(handshake, alpn, s) == (Stats {
                fallback_alpn_h2_total: (s.fallback_alpn_h2_total + 1) as u64,
                ..done
            })
            &&& handshake is Completed && alpn == Some(http1) ==> spoken(handshake, alpn) == Some(
                Protocol::Http1,
            ) && handshake_stats(handshake, alpn, s) == (Stats {
                fallback_alpn_http1_total: (s.fallback_alpn_http1_total + 1) as u64,
                ..done
            })
            &&& handshake is Completed && alpn != Some(h2) && alpn != Some(http1) ==> spoken(
                handshake,
                alpn,
            ) == Some(Protocol::Http1) && handshake_stats(handshake, alpn, s) == (Stats {
                fallback_alpn_none_total: (s.fallback_alpn_none_total + 1) as u64,
                ..done
            })
        }),
{
    assert(alpn_h2().len() == 2 && alpn_http1().len() == 8);
}

/// The names of the protocols, as they are offered and compared.
pub proof fn law_protocol_names()
    ensures
        alpn_h2() == seq![0x68u8, 0x32u8],
        alpn_http1() == seq![0x68u8, 0x74u8, 0x74u8, 0x70u8, 0x2fu8, 0x31u8, 0x2eu8, 0x31u8],
{
}

/// The views of tags and protocol names show what they are.
pub proof fn law_tags_are_shown_as_they_are(tag: Option<String>, alpn: Option<Vec<u8>>)
    ensures
        tag matches Some(s) ==> tag_view(tag) == Some(s@),
        tag is None ==> tag_view(tag) is None,
        alpn matches Some(name) ==> alpn_view(alpn) == Some(name@),
        alpn is None ==> alpn_view(alpn) is None,
{
}

/// Headers can be sent exactly if every one of their values can.
pub proof fn law_sendable_headers(headers: Seq<(Seq<char>, Seq<char>)>)
    ensures
        all_sendable(headers) <==> !(exists|i: int|
            0 <= i < headers.len() && !http_util::header_text((#[trigger] headers[i]).1)),
{
}

/// The path of a request is decoded from its bytes.
pub proof fn law_paths_are_decoded(path: Seq<char>)
    ensures
        decoded(path) == http_util::lossy_text(
            http_util::percent_decoded_bytes(vstd::utf8::encode_utf8(path)),
        ),
        !vstd::utf8::encode_utf8(path).contains(0x25u8) ==> decoded(path) == http_util::lossy_text(
            vstd::utf8::encode_utf8(path),
        ),
{
    if !vstd::utf8::encode_utf8(path).contains(0x25u8) {
        http_util::law_nothing_to_decode(vstd::utf8::encode_utf8(path));
    }
}

/// The counters of the fallback site start over at the end of 64 bits.
pub proof fn law_counters_of_the_site_start_over(
    answer: Answer,
    alpn: Option<Seq<u8>>,
    n: nat,
    s: Stats,
)
    ensures
        method_counted("GET"@, s).http_method_get_total as int == (s.http_method_get_total + 1) % 0x1_0000_0000_0000_0000,
        method_counted("HEAD"@, s).http_method_head_total as int == (s.http_method_head_total + 1) % 0x1_0000_0000_0000_0000,
        method_counted("OPTIONS"@, s).http_method_options_total as int == (s.http_method_options_total + 1) % 0x1_0000_0000_0000_0000,
        answer.status == 200 ==> status_counted(answer.status, s).http_status_200_total as int == (
        s.http_status_200_total + 1) % 0x1_0000_0000_0000_0000,
        status_counted(204, s).http_status_204_total as int == (s.http_status_204_total + 1) % 0x1_0000_0000_0000_0000,
        status_counted(304, s).http_status_304_total as int == (s.http_status_304_total + 1) % 0x1_0000_0000_0000_0000,
        status_counted(404, s).http_status_404_total as int == (s.http_status_404_total + 1) % 0x1_0000_0000_0000_0000,
        status_counted(405, s).http_status_405_total as int == (s.http_status_405_total + 1) % 0x1_0000_0000_0000_0000,
        status_counted(500, s).http_status_other_total as int == (s.http_status_other_total + 1) % 0x1_0000_0000_0000_0000,
        http_util::header_number(answer.headers, "content-length"@) == Some(n) && n <= u64::MAX
            ==> answer_counted(answer, s).http_bytes_sent_total as int == (s.http_bytes_sent_total
            + n) % 0x1_0000_0000_0000_0000,
        handshake_stats(Handshake::Failed, alpn, s).fallback_tls_handshake_failure_total as int == (s.fallback_tls_handshake_failure_total + 1) % 0x1_0000_0000_0000_0000,
        handshake_stats(Handshake::TimedOut, alpn, s).fallback_tls_handshake_failure_total as int == (s.fallback_tls_handshake_failure_total + 1) % 0x1_0000_0000_0000_0000,
        handshake_stats(Handshake::Completed, alpn, s).fallback_tls_handshake_success_total as int == (s.fallback_tls_handshake_success_total + 1) % 0x1_0000_0000_0000_0000,
        handshake_stats(Handshake::Completed, Some(seq![0x68u8, 0x32u8]), s).fallback_alpn_h2_total as int == (s.fallback_alpn_h2_total + 1) % 0x1_0000_0000_0000_0000,
        handshake_stats(Handshake::Completed, Some(seq![0x68u8, 0x74u8, 0x74u8, 0x70u8, 0x2fu8, 0x31u8, 0x2eu8, 0x31u8]), s).fallback_alpn_http1_total as int == (s.fallback_alpn_http1_total + 1) % 0x1_0000_0000_0000_0000,
        handshake_stats(Handshake::Completed, None, s).fallback_alpn_none_total as int == (s.fallback_alpn_none_total + 1) % 0x1_0000_0000_0000_0000,
{
    lemma_methods_differ();
    law_protocol_names();
    assert(alpn_h2().len() == 2 && alpn_http1().len() == 8);
}

/// The counter of methods that are not served starts over at the end of 64
/// bits.
pub proof fn law_counter_of_other_methods_starts_over(method: Seq<char>, s: Stats)
    requires
        method != "GET"@,
        method != "HEAD"@,
        method != "OPTIONS"@,
    ensures
        method_counted(method, s).http_method_other_total as int == (s.http_method_other_total + 1) % 0x1_0000_0000_0000_0000,
{
}

} // verus!
