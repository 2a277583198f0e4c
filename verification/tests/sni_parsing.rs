//! Reading server names out of ClientHellos.

use reprox::sni::{
    extract_sni, parse_server_name_extension, parse_sni, ParseOutcome, Probe, ProbeResult,
    CONTENT_TYPE_HANDSHAKE, HANDSHAKE_TYPE_CLIENT_HELLO, MAX_PROBE_BYTES,
};

/// The data of a server_name extension with one host name.
fn host_extension(host: &[u8]) -> Vec<u8> {
    let mut data = Vec::new();
    data.extend_from_slice(&((host.len() + 3) as u16).to_be_bytes());
    data.push(0x00);
    data.extend_from_slice(&(host.len() as u16).to_be_bytes());
    data.extend_from_slice(host);
    data
}

fn extension(kind: u16, data: &[u8]) -> Vec<u8> {
    let mut ext = Vec::new();
    ext.extend_from_slice(&kind.to_be_bytes());
    ext.extend_from_slice(&(data.len() as u16).to_be_bytes());
    ext.extend_from_slice(data);
    ext
}

/// Everything of a ClientHello up to the extensions.
fn hello_head(session: &[u8]) -> Vec<u8> {
    let mut body = Vec::new();
    body.extend_from_slice(&[0x03, 0x03]);
    body.extend_from_slice(&[0u8; 32]);
    body.push(session.len() as u8);
    body.extend_from_slice(session);
    body.extend_from_slice(&2u16.to_be_bytes());
    body.extend_from_slice(&[0x13, 0x01]);
    body.push(1);
    body.push(0);
    body
}

fn hello_body(session: &[u8], exts: &[u8]) -> Vec<u8> {
    let mut body = hello_head(session);
    body.extend_from_slice(&(exts.len() as u16).to_be_bytes());
    body.extend_from_slice(exts);
    body
}

fn record_of(body: &[u8]) -> Vec<u8> {
    let mut handshake = vec![HANDSHAKE_TYPE_CLIENT_HELLO];
    handshake.extend_from_slice(&(body.len() as u32).to_be_bytes()[1..4]);
    handshake.extend_from_slice(body);
    let mut record = vec![CONTENT_TYPE_HANDSHAKE, 0x03, 0x01];
    record.extend_from_slice(&(handshake.len() as u16).to_be_bytes());
    record.extend_from_slice(&handshake);
    record
}

fn build_client_hello_with_sni(host: &str) -> Vec<u8> {
    record_of(&hello_body(&[], &extension(0, &host_extension(host.as_bytes()))))
}

fn build_client_hello_without_sni() -> Vec<u8> {
    record_of(&hello_body(&[], &[]))
}

#[test]
fn parses_sni_from_well_formed_client_hello() {
    let record = build_client_hello_with_sni("example.com");
    match parse_sni(&record) {
        ParseOutcome::Complete(Some(host)) => assert_eq!(host, "example.com"),
        _ => panic!("expected to parse SNI"),
    }
}

#[test]
fn client_hello_without_sni_extension_is_complete_with_none() {
    let record = build_client_hello_without_sni();
    match parse_sni(&record) {
        ParseOutcome::Complete(None) => {}
        _ => panic!("expected a valid ClientHello with no SNI to map to Complete(None)"),
    }
}

#[test]
fn incomplete_buffer_requests_more_data() {
    let record = build_client_hello_with_sni("example.com");
    assert!(matches!(parse_sni(&record[..10]), ParseOutcome::Incomplete));
}

#[test]
fn garbage_is_invalid() {
    let garbage = vec![0xAA; 64];
    match parse_sni(&garbage) {
        ParseOutcome::Invalid => {}
        _ => panic!("expected garbage to be rejected"),
    }
}

#[test]
fn plain_http_is_invalid() {
    let http = b"GET / HTTP/1.1\r\nHost: example.com\r\n\r\n".to_vec();
    match parse_sni(&http) {
        ParseOutcome::Invalid => {}
        _ => panic!("expected plaintext HTTP to be rejected as non-TLS"),
    }
}

#[test]
fn names_are_lowercased_and_lose_trailing_dots() {
    let record = build_client_hello_with_sni("ExAmPle.COM..");
    assert_eq!(parse_sni(&record), ParseOutcome::Complete(Some("example.com".to_string())));
}

#[test]
fn other_extensions_and_a_session_id_are_skipped() {
    let mut exts = extension(0x000a, &[0, 2, 0, 29]);
    exts.extend_from_slice(&extension(0xff01, &[0]));
    exts.extend_from_slice(&extension(0, &host_extension(b"hidden.example")));
    exts.extend_from_slice(&extension(0x0010, &[1, 2, 3]));
    let record = record_of(&hello_body(&[7; 32], &exts));
    assert_eq!(parse_sni(&record), ParseOutcome::Complete(Some("hidden.example".to_string())));
}

#[test]
fn every_proper_prefix_of_a_record_is_incomplete() {
    let record = build_client_hello_with_sni("example.com");
    for n in 0..record.len() {
        assert_eq!(parse_sni(&record[..n]), ParseOutcome::Incomplete);
    }
}

#[test]
fn what_follows_the_record_does_not_matter() {
    let mut record = build_client_hello_with_sni("example.com");
    let alone = parse_sni(&record);
    record.extend_from_slice(&[0xff; 100]);
    assert_eq!(parse_sni(&record), alone);
}

#[test]
fn record_lengths_are_bounded() {
    assert_eq!(parse_sni(&[0x16, 3, 1, 0, 0]), ParseOutcome::Invalid);
    assert_eq!(parse_sni(&[0x16, 3, 1, 0x40, 0x01]), ParseOutcome::Invalid);
    assert_eq!(parse_sni(&[0x16, 3, 1, 0x40, 0x00]), ParseOutcome::Incomplete);
}

#[test]
fn other_handshakes_and_split_hellos_are_invalid() {
    let mut record = build_client_hello_with_sni("example.com");
    record[5] = 2;
    assert_eq!(parse_sni(&record), ParseOutcome::Invalid);
    let mut split = build_client_hello_with_sni("example.com");
    split[8] = split[8] + 1;
    assert_eq!(parse_sni(&split), ParseOutcome::Invalid);
    assert_eq!(parse_sni(&[0x16, 3, 1, 0, 3, 1, 0, 0]), ParseOutcome::Invalid);
}

#[test]
fn malformed_bodies_have_no_name() {
    assert_eq!(extract_sni(&[0; 33]), None);
    assert_eq!(extract_sni(&[0; 34]), None);
    let head = hello_head(&[]);
    assert_eq!(extract_sni(&head), None);
    let mut overlong = hello_body(&[], &extension(0, &host_extension(b"a.b")));
    let len = overlong.len();
    overlong.truncate(len - 1);
    assert_eq!(extract_sni(&overlong), None);
}

#[test]
fn server_name_extension_edges() {
    assert_eq!(parse_server_name_extension(&[0]), None);
    assert_eq!(parse_server_name_extension(&host_extension(b"a.b")), Some("a.b".to_string()));
    // a list that claims more than there is ends where the data ends
    let mut claims_more = host_extension(b"a.b");
    claims_more[1] = 200;
    assert_eq!(parse_server_name_extension(&claims_more), Some("a.b".to_string()));
    // an entry of another type before the host name
    let mut two = vec![0, 0, 7, 0, 1, 0xee];
    two.extend_from_slice(&[0, 0, 3]);
    two.extend_from_slice(b"x.y");
    two[1] = (two.len() - 2) as u8;
    assert_eq!(parse_server_name_extension(&two), Some("x.y".to_string()));
    // a name that is not UTF-8
    assert_eq!(parse_server_name_extension(&host_extension(&[0xff, 0xfe])), None);
    // an empty name
    assert_eq!(parse_server_name_extension(&host_extension(b"")), Some(String::new()));
}

#[test]
fn probing_gathers_every_byte_however_it_is_split() {
    let record = build_client_hello_with_sni("example.com");
    for size in [1usize, 7, 64, 4096] {
        let mut probe = Probe::new();
        let mut result = None;
        for chunk in record.chunks(size) {
            result = probe.feed(chunk);
            if result.is_some() {
                break;
            }
        }
        assert_eq!(result, Some(ProbeResult::Sni("example.com".to_string())));
        assert_eq!(&probe.into_bytes()[..], &record[..]);
    }
}

#[test]
fn probing_classifies_what_it_sees() {
    let mut probe = Probe::new();
    assert_eq!(probe.feed(&build_client_hello_without_sni()), Some(ProbeResult::NoSni));
    let mut probe = Probe::new();
    assert_eq!(probe.feed(b"GET / HTTP/1.1\r\n"), Some(ProbeResult::NotTls));
    let mut probe = Probe::new();
    assert_eq!(probe.feed(&[0x16, 3]), None);
    assert_eq!(probe.feed(&[]), Some(ProbeResult::ConnectionClosed));
    assert_eq!(&probe.into_bytes()[..], &[0x16, 3]);
}

#[test]
fn the_largest_record_is_decided_at_its_end() {
    let mut bytes = vec![0x16, 3, 1, 0x40, 0x00];
    bytes.resize(MAX_PROBE_BYTES, 0);
    let mut probe = Probe::new();
    assert_eq!(probe.feed(&bytes[..MAX_PROBE_BYTES - 1]), None);
    assert_eq!(probe.feed(&bytes[MAX_PROBE_BYTES - 1..]), Some(ProbeResult::NotTls));
}
