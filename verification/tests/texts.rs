//! Building blocks for text.

use reprox::net::IpAddr;
use reprox::text::{
    begins_with, decimal_text, hex_text, is_blank, is_white_space, lowercased, normalized_host,
    parse_number, signed_text, text_before,
};
use reprox::time::Duration;

#[test]
fn white_space_is_that_of_the_standard_library() {
    for code in 0..=0x10ffffu32 {
        if let Some(c) = char::from_u32(code) {
            assert_eq!(is_white_space(c), c.is_whitespace(), "{code:x}");
        }
    }
    assert!(is_blank(""));
    assert!(is_blank(" \t\u{a0}\r\n"));
    assert!(!is_blank(" x "));
}

#[test]
fn host_names_are_normalized() {
    for s in ["", ".", "...", "A.B.", "a..b..", "\u{c4}.De", "already.fine", "X"] {
        assert_eq!(normalized_host(s), s.trim_end_matches('.').to_ascii_lowercase());
        assert_eq!(normalized_host(&normalized_host(s)), normalized_host(s));
        assert_eq!(lowercased(s), s.to_ascii_lowercase());
    }
}

#[test]
fn numbers_are_written_as_the_standard_library_does() {
    for n in [0u64, 1, 9, 10, 15, 16, 255, 256, 1_000_000, u64::MAX] {
        assert_eq!(decimal_text(n), n.to_string());
        assert_eq!(hex_text(n), format!("{n:x}"));
        assert_eq!(parse_number(&decimal_text(n), u64::MAX), Some(n));
    }
    for n in [0i64, -1, 7, i64::MAX, i64::MIN] {
        assert_eq!(signed_text(n), n.to_string());
    }
}

#[test]
fn numbers_are_read_as_the_standard_library_does() {
    for s in [
        "", "+", "-", "0", "00", "+7", "-7", "7 ", " 7", "1e3", "0x1", "65535", "65536", "099",
        "18446744073709551615", "18446744073709551616", "99999999999999999999999", "\u{661}",
    ] {
        assert_eq!(parse_number(s, u64::MAX), s.parse::<u64>().ok(), "{s:?}");
        assert_eq!(parse_number(s, 65535), s.parse::<u16>().ok().map(u64::from), "{s:?}");
    }
}

#[test]
fn prefixes_and_queries() {
    assert!(begins_with("text/html; charset=utf-8", "text/html"));
    assert!(begins_with("x", ""));
    assert!(!begins_with("text", "text/html"));
    assert!(!begins_with("Text/html", "text/html"));
    assert_eq!(text_before("/a?b?c", '?'), "/a");
    assert_eq!(text_before("/a", '?'), "/a");
    assert_eq!(text_before("?", '?'), "");
}

#[test]
fn loopback_addresses() {
    assert!(IpAddr::V4(0x7f00_0000).is_loopback());
    assert!(IpAddr::V4(0x7fff_ffff).is_loopback());
    assert!(!IpAddr::V4(0x7eff_ffff).is_loopback());
    assert!(!IpAddr::V4(0x8000_0000).is_loopback());
    assert!(IpAddr::V6(1).is_loopback());
    assert!(!IpAddr::V6(0x7f00_0001).is_loopback());
}

#[test]
fn lengths_of_time() {
    assert_eq!(Duration::from_secs(2), Duration::from_millis(2000));
    assert_eq!(Duration::from_secs(u64::MAX).nanos, u64::MAX as u128 * 1_000_000_000);
    assert!(Duration::zero().is_zero());
}
