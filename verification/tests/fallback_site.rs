//! The fallback site.

use reprox::config::ServiceConfig;
use reprox::http_util::HttpResponse;
use reprox::metrics::Stats;
use reprox::net::{IpAddr, SocketAddr};
use reprox::route::fallback::{
    content_type_for, extension_of, make_etag, url_path_for, LoadedFile, SiteError, StaticSite,
};
use reprox::route::proxy::Handshake;
use reprox::route::serve::{handle_http, respond, serve, Protocol};

/// Sun, 06 Nov 1994 08:49:37 GMT
const NOW: u64 = 784_111_777;

fn config(server_header: &str) -> ServiceConfig {
    ServiceConfig {
        listen_addr: SocketAddr { ip: IpAddr::V4(0), port: 443, flowinfo: 0, scope_id: 0 },
        routes: vec![],
        tls_cert_path: String::new(),
        tls_key_path: String::new(),
        static_dir: String::new(),
        server_header: server_header.to_string(),
        handshake_timeout_secs: 10,
        tls_min_version: "1.2".to_string(),
        metrics_addr: None,
        max_connections: 100,
        max_connections_per_ip: None,
        connection_rate_per_ip: None,
        connection_burst_per_ip: None,
    }
}

fn file(path: &str, bytes: &[u8]) -> LoadedFile {
    LoadedFile {
        path: path.to_string(),
        bytes: bytes.to_vec(),
        modified: 0x5f5e100,
    }
}

fn site() -> StaticSite {
    let files = vec![
        file("index.html", b"<h1>home</h1>"),
        file("css\\style.css", b"body{}"),
        file("a b.txt", b"text"),
    ];
    match StaticSite::try_load(files, NOW) {
        Ok(site) => site,
        Err(e) => panic!("{e:?}"),
    }
}

fn header<'a>(response: &'a HttpResponse, name: &str) -> Option<&'a str> {
    response.headers.iter().find(|h| h.0 == name).map(|h| h.1.as_str())
}

fn get(site: &StaticSite, stats: &mut Stats, method: &str, path: &str) -> HttpResponse {
    handle_http(method, path, &None, site, &config("nginx"), stats, NOW)
}

#[test]
fn media_types_go_by_extension() {
    assert_eq!(content_type_for("html"), "text/html; charset=utf-8");
    assert_eq!(content_type_for("HTM"), "text/html; charset=utf-8");
    assert_eq!(content_type_for("mjs"), "application/javascript; charset=utf-8");
    assert_eq!(content_type_for("jpeg"), "image/jpeg");
    assert_eq!(content_type_for("woff2"), "font/woff2");
    assert_eq!(content_type_for("webmanifest"), "application/manifest+json");
    assert_eq!(content_type_for(""), "application/octet-stream");
    assert_eq!(content_type_for("exe"), "application/octet-stream");
}

#[test]
fn extensions_follow_the_last_dot_of_the_name() {
    for (path, extension) in [
        ("index.html", "html"),
        ("a.b/style.min.CSS", "CSS"),
        ("a.b/readme", ""),
        (".htaccess", ""),
        ("a/.htaccess", ""),
        ("a/.config.json", "json"),
        ("name.", ""),
        ("..", ""),
        ("", ""),
        ("a\\b.css", "css"),
    ] {
        assert_eq!(extension_of(path), extension, "{path}");
    }
}

#[test]
fn files_are_served_as_their_extensions_say() {
    let files = vec![file("index.html", b""), file("a.b/A.CSS", b""), file("css", b"")];
    let site = StaticSite::try_load(files, NOW).ok().unwrap();
    assert_eq!(site.resolve("/").unwrap().content_type, "text/html; charset=utf-8");
    assert_eq!(site.resolve("/a.b/A.CSS").unwrap().content_type, "text/css; charset=utf-8");
    assert_eq!(site.resolve("/css").unwrap().content_type, "application/octet-stream");
}

#[test]
fn tags_hold_time_and_size_in_hexadecimal() {
    assert_eq!(make_etag(0x1a2b, 0x5f5e100), "\"5f5e100-1a2b\"");
    assert_eq!(make_etag(0, 0), "\"0-0\"");
    assert_eq!(make_etag(u64::MAX, u64::MAX), "\"ffffffffffffffff-ffffffffffffffff\"");
    assert_ne!(make_etag(0x11, 1), make_etag(1, 0x11));
}

#[test]
fn paths_get_slashes() {
    assert_eq!(url_path_for("index.html"), "/index.html");
    assert_eq!(url_path_for("a\\b\\c"), "/a/b/c");
    assert_eq!(url_path_for(""), "/");
}

#[test]
fn a_site_needs_an_index() {
    let res = StaticSite::try_load(vec![file("about.html", b"")], NOW);
    assert!(matches!(res, Err(SiteError::MissingIndex)));
    let res = StaticSite::try_load(vec![file("sub/index.html", b"")], NOW);
    assert!(matches!(res, Err(SiteError::MissingIndex)));
}

#[test]
fn files_are_found_by_their_paths() {
    let site = site();
    for path in ["/", "", "/index.html", "/?q=1", "?x", "/index.html?a?b"] {
        let entry = site.resolve(path).unwrap();
        assert_eq!(&entry.bytes[..], b"<h1>home</h1>");
        assert_eq!(entry.etag, "\"5f5e100-d\"");
        assert_eq!(entry.last_modified, "Sat, 03 Mar 1973 09:46:40 GMT");
    }
    assert_eq!(site.resolve("/css/style.css").unwrap().content_type, "text/css; charset=utf-8");
    assert!(site.resolve("/css").is_none());
    assert!(site.resolve("index.html").is_none());
    assert!(site.resolve("/../index.html").is_none());
    assert!(site.resolve("/INDEX.html").is_none());
}

#[test]
fn the_last_file_under_a_path_counts() {
    let files = vec![file("index.html", b"old"), file("index.html", b"new")];
    let site = StaticSite::try_load(files, NOW).ok().unwrap();
    assert_eq!(&site.resolve("/").unwrap().bytes[..], b"new");
}

#[test]
fn the_missing_page_is_that_of_the_site_or_a_default() {
    let default = site();
    let page = default.not_found();
    assert_eq!(page.content_type, "text/html; charset=utf-8");
    assert_eq!(page.last_modified, "Sun, 06 Nov 1994 08:49:37 GMT");
    assert_eq!(page.bytes.len(), 181);
    assert_eq!(page.etag, "\"0-b5\"");
    assert!(page.bytes.starts_with(b"<!doctype html><html lang=\"en\"><head>"));
    let files = vec![file("index.html", b"x"), file("404.html", b"gone")];
    let own = StaticSite::try_load(files, NOW).ok().unwrap();
    assert_eq!(&own.not_found().bytes[..], b"gone");
}

#[test]
fn get_answers_with_the_file() {
    let mut stats = Stats::new(0);
    let res = get(&site(), &mut stats, "GET", "/");
    assert_eq!(res.status, 200);
    assert_eq!(&res.body[..], b"<h1>home</h1>");
    let names: Vec<&str> = res.headers.iter().map(|h| h.0).collect();
    assert_eq!(
        names,
        [
            "content-type",
            "content-length",
            "etag",
            "last-modified",
            "cache-control",
            "server",
            "date",
            "strict-transport-security",
            "x-content-type-options",
            "x-frame-options",
            "referrer-policy",
        ]
    );
    assert_eq!(header(&res, "content-type"), Some("text/html; charset=utf-8"));
    assert_eq!(header(&res, "content-length"), Some("13"));
    assert_eq!(header(&res, "cache-control"), Some("no-cache"));
    assert_eq!(header(&res, "server"), Some("nginx"));
    assert_eq!(header(&res, "date"), Some("Sun, 06 Nov 1994 08:49:37 GMT"));
    assert_eq!(
        header(&res, "strict-transport-security"),
        Some("max-age=63072000; includeSubDomains; preload")
    );
    assert_eq!(header(&res, "x-content-type-options"), Some("nosniff"));
    assert_eq!(header(&res, "x-frame-options"), Some("SAMEORIGIN"));
    assert_eq!(header(&res, "referrer-policy"), Some("strict-origin-when-cross-origin"));
    assert_eq!(stats.http_method_get_total, 1);
    assert_eq!(stats.http_status_200_total, 1);
    assert_eq!(stats.http_bytes_sent_total, 13);
}

#[test]
fn assets_may_be_kept_for_a_month() {
    let mut stats = Stats::new(0);
    let res = get(&site(), &mut stats, "GET", "/css/style.css");
    assert_eq!(header(&res, "cache-control"), Some("public, max-age=2592000, immutable"));
}

#[test]
fn head_is_get_without_a_body() {
    let mut stats = Stats::new(0);
    let site = site();
    for path in ["/", "/nope"] {
        let get_res = get(&site, &mut stats, "GET", path);
        let head_res = get(&site, &mut stats, "HEAD", path);
        assert_eq!(head_res.status, get_res.status);
        assert_eq!(head_res.headers, get_res.headers);
        assert!(head_res.body.is_empty());
    }
    assert_eq!(stats.http_method_head_total, 2);
}

#[test]
fn escapes_in_paths_are_decoded() {
    let mut stats = Stats::new(0);
    let site = site();
    assert_eq!(&get(&site, &mut stats, "GET", "/a%20b.txt").body[..], b"text");
    assert_eq!(&get(&site, &mut stats, "GET", "/css%2Fstyle%2ecss").body[..], b"body{}");
    assert_eq!(get(&site, &mut stats, "GET", "/index.html%3Fx").status, 200);
    assert_eq!(get(&site, &mut stats, "GET", "/a%2").status, 404);
    assert_eq!(get(&site, &mut stats, "GET", "/%ff%fe").status, 404);
    // a path that was decoded already is taken as it is
    let res = respond("GET", "/a%20b.txt", &None, &site, &config("x"), &mut stats, NOW);
    assert_eq!(res.status, 404);
}

#[test]
fn the_own_tag_is_answered_with_304() {
    let mut stats = Stats::new(0);
    let site = site();
    let cfg = config("nginx");
    let tag = Some("\"5f5e100-d\"".to_string());
    let res = handle_http("GET", "/", &tag, &site, &cfg, &mut stats, NOW);
    assert_eq!(res.status, 304);
    assert!(res.body.is_empty());
    assert_eq!(header(&res, "etag"), Some("\"5f5e100-d\""));
    assert_eq!(header(&res, "last-modified"), Some("Sat, 03 Mar 1973 09:46:40 GMT"));
    assert_eq!(header(&res, "content-length"), None);
    assert_eq!(stats.http_status_304_total, 1);
    assert_eq!(stats.http_bytes_sent_total, 0);
    let other = Some("\"0-d\"".to_string());
    assert_eq!(handle_http("GET", "/", &other, &site, &cfg, &mut stats, NOW).status, 200);
}

#[test]
fn missing_files_are_answered_with_the_page_of_the_site() {
    let mut stats = Stats::new(0);
    let res = get(&site(), &mut stats, "GET", "/no-such-page");
    assert_eq!(res.status, 404);
    assert_eq!(res.body.len(), 181);
    assert_eq!(header(&res, "content-length"), Some("181"));
    assert_eq!(header(&res, "cache-control"), Some("no-cache"));
    assert_eq!(header(&res, "etag"), None);
    assert_eq!(stats.http_status_404_total, 1);
}

#[test]
fn options_and_other_methods() {
    let mut stats = Stats::new(0);
    let site = site();
    let res = get(&site, &mut stats, "OPTIONS", "/no-such-page");
    assert_eq!(res.status, 204);
    assert_eq!(header(&res, "allow"), Some("GET, HEAD, OPTIONS"));
    assert_eq!(header(&res, "content-length"), Some("0"));
    assert!(res.body.is_empty());
    for method in ["POST", "get", "DELETE"] {
        let res = get(&site, &mut stats, method, "/");
        assert_eq!(res.status, 405);
        assert_eq!(header(&res, "allow"), Some("GET, HEAD, OPTIONS"));
        assert_eq!(
            &res.body[..],
            &b"<!doctype html><html><head><title>405 Not Allowed</title></head><body><center><h1>405 Not Allowed</h1></center></body></html>"[..]
        );
        assert_eq!(header(&res, "content-length"), Some("125"));
    }
    assert_eq!(stats.http_method_options_total, 1);
    assert_eq!(stats.http_method_other_total, 3);
    assert_eq!(stats.http_status_204_total, 1);
    assert_eq!(stats.http_status_405_total, 3);
    assert_eq!(stats.http_bytes_sent_total, 375);
}

#[test]
fn a_server_header_that_cannot_be_one_is_left_out() {
    let mut stats = Stats::new(0);
    let site = site();
    for bad in ["a\nb", "\u{7f}", "\u{0}"] {
        let res = handle_http("GET", "/", &None, &site, &config(bad), &mut stats, NOW);
        assert_eq!(header(&res, "server"), None);
        assert!(header(&res, "date").is_some());
    }
    for good in ["", "a\tb", "caf\u{e9}"] {
        let res = handle_http("GET", "/", &None, &site, &config(good), &mut stats, NOW);
        assert_eq!(header(&res, "server"), Some(good));
    }
}

#[test]
fn handshakes_choose_the_protocol() {
    let mut stats = Stats::new(0);
    let h2 = Some(b"h2".to_vec());
    let http1 = Some(b"http/1.1".to_vec());
    assert_eq!(serve(Handshake::Completed, h2.clone(), &mut stats), Some(Protocol::Http2));
    assert_eq!(serve(Handshake::Completed, http1, &mut stats), Some(Protocol::Http1));
    assert_eq!(serve(Handshake::Completed, None, &mut stats), Some(Protocol::Http1));
    let other = Some(b"h3".to_vec());
    assert_eq!(serve(Handshake::Completed, other, &mut stats), Some(Protocol::Http1));
    assert_eq!(serve(Handshake::Failed, h2, &mut stats), None);
    assert_eq!(serve(Handshake::TimedOut, None, &mut stats), None);
    assert_eq!(stats.fallback_tls_handshake_success_total, 4);
    assert_eq!(stats.fallback_tls_handshake_failure_total, 2);
    assert_eq!(stats.fallback_alpn_h2_total, 1);
    assert_eq!(stats.fallback_alpn_http1_total, 1);
    assert_eq!(stats.fallback_alpn_none_total, 2);
}
