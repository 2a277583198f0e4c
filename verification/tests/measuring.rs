//! Counters, snapshots, and the API that shows them.

use reprox::config::{ProxyTarget, ServiceConfig};
use reprox::metrics::{
    handle_request, may_listen_on, push_metric, ApiBody, Route, Sample, Stats, Value,
};
use reprox::net::{IpAddr, SocketAddr};

fn addr(ip: IpAddr) -> SocketAddr {
    SocketAddr { ip, port: 9090, flowinfo: 0, scope_id: 0 }
}

fn config() -> ServiceConfig {
    ServiceConfig {
        listen_addr: addr(IpAddr::V4(0)),
        routes: vec![ProxyTarget {
            sni: "a".to_string(),
            upstream: "h:1".to_string(),
            tls_passthrough: true,
        }],
        tls_cert_path: String::new(),
        tls_key_path: String::new(),
        static_dir: String::new(),
        server_header: String::new(),
        handshake_timeout_secs: 10,
        tls_min_version: "1.2".to_string(),
        metrics_addr: None,
        max_connections: 100,
        max_connections_per_ip: None,
        connection_rate_per_ip: None,
        connection_burst_per_ip: None,
    }
}

#[test]
fn serving_moves_gauges_and_counters() {
    let mut stats = Stats::new(0);
    let a = stats.begin_proxied(1_000_000);
    let b = stats.begin_fallback(0);
    assert_eq!(a.route, Route::Proxied);
    assert_eq!(b.route, Route::Fallback);
    assert_eq!((stats.active_proxied, stats.active_fallback), (1, 1));
    assert_eq!((stats.connections_proxied_total, stats.connections_fallback_total), (1, 1));
    stats.finish(a, 8_999_999);
    stats.finish(b, 2_000_000_000);
    assert_eq!((stats.active_proxied, stats.active_fallback), (0, 0));
    assert_eq!(stats.connections_proxied_completed_total, 1);
    assert_eq!(stats.connections_fallback_completed_total, 1);
    assert_eq!(stats.proxy_connection_duration_ms_total, 7);
    assert_eq!(stats.fallback_connection_duration_ms_total, 2000);
}

#[test]
fn counters_wrap_around() {
    let mut stats = Stats::new(0);
    stats.connections_proxied_total = u64::MAX;
    let guard = stats.begin_proxied(0);
    assert_eq!(stats.connections_proxied_total, 0);
    stats.finish(guard, 0);
}

#[test]
fn uptime_and_gauges() {
    let mut stats = Stats::new(5);
    assert_eq!(stats.uptime_nanos(12), 7);
    assert_eq!(stats.uptime_nanos(3), 0);
    stats.connections = 42;
    assert_eq!(stats.occupied_slots(), 42);
    assert_eq!(stats.active_connections(), 0);
}

#[test]
fn active_connections_are_those_being_served_both_ways() {
    let mut stats = Stats::new(0);
    let a = stats.begin_proxied(0);
    assert_eq!(stats.active_connections(), 1);
    let b = stats.begin_fallback(0);
    assert_eq!(stats.active_connections(), 2);
    assert_eq!(stats.occupied_slots(), 0);
    stats.finish(a, 0);
    stats.finish(b, 0);
    assert_eq!(stats.active_connections(), 0);
    stats.active_proxied = i64::MAX;
    stats.active_fallback = 1;
    assert_eq!(stats.active_connections(), i64::MAX);
    stats.active_proxied = i64::MIN;
    stats.active_fallback = -1;
    assert_eq!(stats.active_connections(), i64::MIN);
}

#[test]
fn a_snapshot_shows_the_stats() {
    let mut stats = Stats::new(0);
    stats.connections = 30;
    stats.sni_present_total = 5;
    stats.clienthello_not_tls_total = 6;
    stats.proxy_bytes_client_to_service_total = 7;
    stats.fallback_alpn_h2_total = 8;
    stats.http_status_404_total = 9;
    stats.connections_rejected_rate_limit_total = 10;
    let shown = stats.snapshot(&config(), 1234);
    assert_eq!(shown.uptime_nanos, 1234);
    assert_eq!(shown.connections.connections_limit, 100);
    assert_eq!(shown.connections.connections_available, 70);
    assert_eq!(shown.clienthello.sni_present_total, 5);
    assert_eq!(shown.clienthello.not_tls_total, 6);
    assert_eq!(shown.proxy.bytes_client_to_service_total, 7);
    assert_eq!(shown.tls.fallback_alpn_h2_total, 8);
    assert_eq!(shown.http.status_404_total, 9);
    assert_eq!(shown.connections.rate_limit_total, 10);
    assert_eq!(shown.config.routes_count, 1);
    assert_eq!(shown.config.tls_profile, "1.2");
    stats.connections = 101;
    assert_eq!(stats.snapshot(&config(), 0).connections.connections_available, 0);
}

#[test]
fn metrics_are_written_in_the_text_format() {
    let mut out = String::new();
    let samples = vec![
        Sample { labels: vec![], value: Value::I(-5) },
        Sample { labels: vec![("a", "x")], value: Value::U(18446744073709551615) },
        Sample { labels: vec![("a", "x"), ("b", "y")], value: Value::F("1.250".to_string()) },
        Sample { labels: vec![], value: Value::I(i64::MIN) },
    ];
    push_metric(&mut out, "name", "gauge", "some help", &samples);
    assert_eq!(
        out,
        "# HELP name some help\n# TYPE name gauge\nname -5\nname{a=\"x\"} 18446744073709551615\n\
         name{a=\"x\",b=\"y\"} 1.250\nname -9223372036854775808\n\n"
    );
}

#[test]
fn every_documented_metric_is_rendered() {
    let mut stats = Stats::new(0);
    stats.connections_proxied_total = 3;
    stats.active_fallback = -1;
    stats.http_status_other_total = 77;
    let text = stats.render_prometheus(&config(), 0, "12.500");
    assert!(text.starts_with(
        "# HELP reprox_uptime_seconds Time in seconds since the process started.\n\
         # TYPE reprox_uptime_seconds gauge\nreprox_uptime_seconds 12.500\n\n\
         # HELP reprox_connections_total Total TCP connections accepted, by route.\n\
         # TYPE reprox_connections_total counter\n\
         reprox_connections_total{route=\"proxied\"} 3\n\
         reprox_connections_total{route=\"fallback\"} 0\n\n"
    ));
    for line in [
        "reprox_connections_active{route=\"fallback\"} -1\n",
        "reprox_connection_duration_ms_sum{route=\"proxied\"} 0\n",
        "reprox_connection_duration_ms_count{route=\"fallback\"} 0\n",
        "reprox_connections_rejected_total{reason=\"probe_timeout\"} 0\n",
        "reprox_connections_rejected_total{reason=\"probe_io_error\"} 0\n",
        "reprox_connections_rejected_total{reason=\"closed_early\"} 0\n",
        "reprox_connections_rejected_total{reason=\"ip_limit\"} 0\n",
        "reprox_connections_rejected_total{reason=\"rate_limit\"} 0\n",
        "reprox_connections_limit 100\n",
        "reprox_connections_available 100\n",
        "reprox_clienthello_total{result=\"sni_present\"} 0\n",
        "reprox_clienthello_total{result=\"sni_absent\"} 0\n",
        "reprox_clienthello_total{result=\"not_tls\"} 0\n",
        "reprox_proxy_bytes_total{direction=\"client_to_service\"} 0\n",
        "reprox_proxy_bytes_total{direction=\"service_to_client\"} 0\n",
        "reprox_proxy_service_connect_failures_total 0\n",
        "reprox_proxy_service_connect_retries_total 0\n",
        "reprox_tls_handshakes_total{result=\"success\"} 0\n",
        "reprox_tls_handshakes_total{result=\"failure\"} 0\n",
        "reprox_alpn_selected_total{protocol=\"h2\"} 0\n",
        "reprox_alpn_selected_total{protocol=\"http1\"} 0\n",
        "reprox_alpn_selected_total{protocol=\"none\"} 0\n",
        "reprox_proxy_tls_handshakes_total{result=\"success\"} 0\n",
        "reprox_http_requests_total{method=\"GET\"} 0\n",
        "reprox_http_requests_total{method=\"HEAD\"} 0\n",
        "reprox_http_requests_total{method=\"OPTIONS\"} 0\n",
        "reprox_http_requests_total{method=\"other\"} 0\n",
        "reprox_http_responses_total{status=\"200\"} 0\n",
        "reprox_http_responses_total{status=\"other\"} 77\n",
        "reprox_http_response_bytes_total 0\n",
    ] {
        assert!(text.contains(line), "missing {line:?}");
    }
    assert!(text.ends_with("# TYPE reprox_config_secret_domains gauge\nreprox_config_secret_domains 1\n\n"));
    assert_eq!(text.matches("# TYPE ").count(), 19);
}

#[test]
fn the_api_answers_get_requests_only() {
    let stats = Stats::new(0);
    let cfg = config();
    let text = |method: &str, path: &str| {
        let res = handle_request(method, path, &stats, &cfg, 0, "0.000");
        match res.body {
            ApiBody::Text(body) => (res.status, res.content_type, body),
            ApiBody::Json(_) => (res.status, res.content_type, "json".to_string()),
        }
    };
    let plain = "text/plain; charset=utf-8";
    assert_eq!(text("GET", "/healthz"), (200, plain, "ok\n".to_string()));
    assert_eq!(text("GET", "/nope"), (404, plain, "not found\n".to_string()));
    assert_eq!(text("POST", "/metrics"), (405, plain, "method not allowed\n".to_string()));
    assert_eq!(text("HEAD", "/nope"), (405, plain, "method not allowed\n".to_string()));
    let metrics = text("GET", "/metrics");
    assert_eq!(metrics.0, 200);
    assert_eq!(metrics.1, "text/plain; version=0.0.4; charset=utf-8");
    assert_eq!(metrics.2, stats.render_prometheus(&cfg, 0, "0.000"));
    assert_eq!(
        text("GET", "/metrics.json"),
        (200, "application/json; charset=utf-8", "json".to_string())
    );
}

#[test]
fn the_api_listens_on_loopback_only() {
    assert!(may_listen_on(&addr(IpAddr::V4(0x7f00_0001))));
    assert!(may_listen_on(&addr(IpAddr::V6(1))));
    assert!(!may_listen_on(&addr(IpAddr::V4(0))));
    assert!(!may_listen_on(&addr(IpAddr::V4(0x8000_0001))));
    assert!(!may_listen_on(&addr(IpAddr::V6(0))));
}
