//! Sending connections their way, and reloading.

use reprox::config::{FixedSetting, ProxyTarget, ServiceConfig};
use reprox::ip_limiter::IpLimiter;
use reprox::metrics::{ActiveGuard, Route, Stats};
use reprox::net::{IpAddr, SocketAddr};
use reprox::rate::{ConnectionRate, Rate};
use reprox::rate_limiter::RateLimiter;
use reprox::reload::{config_read, hot_reload, take_over, ReloadStep};
use reprox::route::router::{ProbeOutcome, RouteAction, Router};
use reprox::sni::{Probe, ProbeResult};
use reprox::time::Duration;
use reprox::tls::{KeyFormat, KeyMaterial, TlsError};

fn target(sni: &str, upstream: &str, tls_passthrough: bool) -> ProxyTarget {
    ProxyTarget { sni: sni.to_string(), upstream: upstream.to_string(), tls_passthrough }
}

fn config(routes: Vec<ProxyTarget>) -> ServiceConfig {
    ServiceConfig {
        listen_addr: SocketAddr { ip: IpAddr::V4(0), port: 443, flowinfo: 0, scope_id: 0 },
        routes,
        tls_cert_path: String::new(),
        tls_key_path: String::new(),
        static_dir: String::new(),
        server_header: String::new(),
        handshake_timeout_secs: 7,
        tls_min_version: "1.2".to_string(),
        metrics_addr: None,
        max_connections: 100,
        max_connections_per_ip: None,
        connection_rate_per_ip: None,
        connection_burst_per_ip: None,
    }
}

fn router() -> Router {
    Router::new(config(vec![
        target("domain.com", "127.0.0.1:8080", true),
        target("api.domain.com", "127.0.0.1:4443", false),
    ]))
}

fn sni(host: &str) -> ProbeOutcome {
    ProbeOutcome::Done(ProbeResult::Sni(host.to_string()))
}

#[test]
fn names_lead_to_their_services() {
    let router = router();
    assert_eq!(router.lookup("domain.com"), Some(0));
    assert_eq!(router.lookup("api.domain.com"), Some(1));
    assert_eq!(router.lookup("www.domain.com"), None);
    assert_eq!(router.lookup(""), None);
    assert_eq!(router.upstream(1), "127.0.0.1:4443");
    assert_eq!(router.handshake_timeout(), Duration::from_secs(7));
}

#[test]
fn the_last_route_with_a_name_counts() {
    let router = Router::new(config(vec![target("a", "h:1", true), target("a", "h:2", true)]));
    assert_eq!(router.lookup("a"), Some(1));
}

#[test]
fn connections_go_their_way() {
    let router = router();
    let mut stats = Stats::new(0);
    let proxied = ActiveGuard { route: Route::Proxied, started: 3 };
    assert_eq!(
        router.route(&sni("domain.com"), &mut stats, 3),
        RouteAction::Passthrough { route: 0, active: proxied }
    );
    let proxied = ActiveGuard { route: Route::Proxied, started: 4 };
    assert_eq!(
        router.route(&sni("api.domain.com"), &mut stats, 4),
        RouteAction::Terminate { route: 1, active: proxied }
    );
    for outcome in [
        sni("other.com"),
        ProbeOutcome::Done(ProbeResult::NoSni),
        ProbeOutcome::Done(ProbeResult::NotTls),
    ] {
        let fallback = ActiveGuard { route: Route::Fallback, started: 5 };
        assert_eq!(
            router.route(&outcome, &mut stats, 5),
            RouteAction::Fallback { active: fallback }
        );
    }
    let closed = ProbeOutcome::Done(ProbeResult::ConnectionClosed);
    assert_eq!(router.route(&closed, &mut stats, 6), RouteAction::Leave);
    assert_eq!(router.route(&ProbeOutcome::TimedOut, &mut stats, 6), RouteAction::Shutdown);
    assert_eq!(router.route(&ProbeOutcome::ReadFailed, &mut stats, 6), RouteAction::Shutdown);

    let mut expected = Stats::new(0);
    expected.sni_present_total = 3;
    expected.sni_absent_total = 1;
    expected.clienthello_not_tls_total = 1;
    expected.connections_closed_early_total = 1;
    expected.connections_probe_timeout_total = 1;
    expected.connections_probe_io_error_total = 1;
    expected.connections_proxied_total = 2;
    expected.active_proxied = 2;
    expected.connections_fallback_total = 3;
    expected.active_fallback = 3;
    assert_eq!(stats, expected);
}

/// A ClientHello for a host, as one record.
fn client_hello(host: &str) -> Vec<u8> {
    let name = host.as_bytes();
    let mut ext = vec![0, 0];
    ext.extend_from_slice(&((name.len() + 5) as u16).to_be_bytes());
    ext.extend_from_slice(&((name.len() + 3) as u16).to_be_bytes());
    ext.push(0);
    ext.extend_from_slice(&(name.len() as u16).to_be_bytes());
    ext.extend_from_slice(name);
    let mut body = vec![0u8; 34];
    body.extend_from_slice(&[0, 0, 2, 0x13, 0x01, 1, 0]);
    body.extend_from_slice(&(ext.len() as u16).to_be_bytes());
    body.extend_from_slice(&ext);
    let mut record = vec![0x16, 3, 1];
    record.extend_from_slice(&((body.len() + 4) as u16).to_be_bytes());
    record.extend_from_slice(&[1, 0]);
    record.extend_from_slice(&(body.len() as u16).to_be_bytes());
    record.extend_from_slice(&body);
    record
}

#[test]
fn a_client_hello_reaches_its_service_however_it_is_written() {
    let mut cfg = config(vec![target("Domain.COM.", "127.0.0.1:8080", true)]);
    cfg.normalize_routes();
    let router = Router::new(cfg);
    for host in ["domain.com", "DOMAIN.com", "domain.com.", "dOmAiN.cOm.."] {
        let mut stats = Stats::new(0);
        let mut probe = Probe::new();
        let result = probe.feed(&client_hello(host)).unwrap();
        let action = router.route(&ProbeOutcome::Done(result), &mut stats, 0);
        assert!(matches!(action, RouteAction::Passthrough { route: 0, .. }), "{host}");
    }
    let mut stats = Stats::new(0);
    let mut probe = Probe::new();
    let result = probe.feed(&client_hello("domain.co")).unwrap();
    let action = router.route(&ProbeOutcome::Done(result), &mut stats, 0);
    assert!(matches!(action, RouteAction::Fallback { .. }));
}

#[test]
fn a_reload_takes_over_everything_or_nothing() {
    let running = router();
    let mut ips = IpLimiter::new(5);
    let mut rates = RateLimiter::new(Rate { digits: 0, exponent: 0 }, 10);
    let _slot = ips.try_acquire_slot(IpAddr::V4(1));

    let mut new = config(vec![target("new.com", "h:1", true)]);
    new.max_connections = 1;
    new.max_connections_per_ip = Some(1);
    new.connection_rate_per_ip = Some(ConnectionRate::PerSecond(Rate { digits: 1, exponent: 0 }));
    new.connection_burst_per_ip = Some(1);
    let (new, ignored) = match config_read(running.current_config(), Some(new)) {
        ReloadStep::LoadCertificate { new, ignored } => (new, ignored),
        ReloadStep::ConfigFailed => panic!("the configuration was read"),
    };
    assert_eq!(ignored, vec![FixedSetting::MaxConnections]);
    let next = hot_reload(&running, &mut ips, &mut rates, new, true).unwrap();
    assert_eq!(next.lookup("new.com"), Some(0));
    assert_eq!(next.lookup("domain.com"), None);
    assert_eq!(next.current_config().max_connections, 100);
    // connections that are being served keep what they have
    assert_eq!(running.lookup("domain.com"), Some(0));
    // the connection that was open still counts
    assert!(ips.try_acquire_slot(IpAddr::V4(1)).is_none());
    assert!(rates.allow(IpAddr::V4(1), 0));
    assert!(!rates.allow(IpAddr::V4(1), 0));
}

#[test]
fn a_failed_reload_changes_nothing() {
    let running = router();
    let mut ips = IpLimiter::new(1);
    let mut rates = RateLimiter::new(Rate { digits: 0, exponent: 0 }, 10);
    assert!(matches!(config_read(running.current_config(), None), ReloadStep::ConfigFailed));
    let mut new = config(vec![]);
    new.max_connections_per_ip = Some(9);
    assert!(hot_reload(&running, &mut ips, &mut rates, new, false).is_none());
    assert!(ips.try_acquire_slot(IpAddr::V4(1)).is_some());
    assert!(ips.try_acquire_slot(IpAddr::V4(1)).is_none());
}

#[test]
fn new_routes_come_with_the_certificate_that_was_loaded_for_them() {
    let running = router();
    let mut ips = IpLimiter::new(1);
    let mut rates = RateLimiter::new(Rate { digits: 0, exponent: 0 }, 10);

    let mut new = config(vec![target("new.com", "h:1", true)]);
    new.max_connections_per_ip = Some(9);
    let refused = take_over(&running, &mut ips, &mut rates, new, Err(TlsError::KeyMismatch));
    assert!(refused.is_none());
    assert!(ips.try_acquire_slot(IpAddr::V4(1)).is_some());
    assert!(ips.try_acquire_slot(IpAddr::V4(1)).is_none());

    let mut new = config(vec![target("new.com", "h:1", true)]);
    new.max_connections_per_ip = Some(2);
    let key = KeyMaterial { certs: vec![vec![1], vec![2]], format: KeyFormat::Sec1, key: vec![3] };
    let (next, key) = take_over(&running, &mut ips, &mut rates, new, Ok(key)).unwrap();
    assert_eq!(next.lookup("new.com"), Some(0));
    assert_eq!(next.lookup("domain.com"), None);
    assert_eq!(key.certs, vec![vec![1], vec![2]]);
    assert_eq!(key.format, KeyFormat::Sec1);
    assert_eq!(key.key, vec![3]);
    assert!(ips.try_acquire_slot(IpAddr::V4(1)).is_some());
    assert!(ips.try_acquire_slot(IpAddr::V4(1)).is_none());
}
