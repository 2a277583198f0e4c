//! Configurations: defaults, overrides, validation, reloading.

use reprox::config::{
    config_path, default_handshake_timeout, default_max_connections, default_server_header,
    default_tls_min_version, default_tls_passthrough, validate_upstream, variable_names,
    ConfigError, ConfigFacts, EnvOverrides, EnvTexts, FixedSetting, ProxyTarget, ServiceConfig,
    UpstreamError,
};
use reprox::net::{IpAddr, SocketAddr};
use reprox::rate::{ConnectionRate, Rate};

fn addr(ip: IpAddr, port: u16) -> SocketAddr {
    SocketAddr { ip, port, flowinfo: 0, scope_id: 0 }
}

fn loopback(port: u16) -> SocketAddr {
    addr(IpAddr::V4(0x7f00_0001), port)
}

fn target(sni: &str, upstream: &str) -> ProxyTarget {
    ProxyTarget { sni: sni.to_string(), upstream: upstream.to_string(), tls_passthrough: true }
}

fn config(routes: Vec<ProxyTarget>) -> ServiceConfig {
    ServiceConfig {
        listen_addr: addr(IpAddr::V4(0), 443),
        routes,
        tls_cert_path: "cert.pem".to_string(),
        tls_key_path: "key.pem".to_string(),
        static_dir: "static".to_string(),
        server_header: default_server_header(),
        handshake_timeout_secs: default_handshake_timeout(),
        tls_min_version: default_tls_min_version(),
        metrics_addr: None,
        max_connections: default_max_connections(),
        max_connections_per_ip: None,
        connection_rate_per_ip: None,
        connection_burst_per_ip: None,
    }
}

fn facts(ports: Vec<Option<u16>>) -> ConfigFacts {
    ConfigFacts {
        cert_is_file: true,
        key_is_file: true,
        static_dir_is_dir: true,
        literal_ports: ports,
    }
}

fn no_env() -> EnvOverrides {
    EnvOverrides {
        listen_addr: None,
        tls_cert_path: None,
        tls_key_path: None,
        static_dir: None,
        server_header: None,
        handshake_timeout_secs: None,
        tls_min_version: None,
        metrics_addr: None,
        max_connections: None,
        max_connections_per_ip: None,
        connection_rate_per_ip: None,
        connection_burst_per_ip: None,
    }
}

#[test]
fn accepts_plain_ip_and_port() {
    assert!(validate_upstream("127.0.0.1:8080", Some(8080)).is_ok());
    assert!(validate_upstream("0.0.0.0:443", Some(443)).is_ok());
}

#[test]
fn accepts_bracketed_ipv6() {
    assert!(validate_upstream("[::1]:8080", Some(8080)).is_ok());
}

#[test]
fn accepts_plausible_hostname() {
    assert!(validate_upstream("backend.internal:8080", None).is_ok());
    assert!(validate_upstream("service-2_a.local:4443", None).is_ok());
}

#[test]
fn rejects_missing_port() {
    assert!(validate_upstream("127.0.0.1", None).is_err());
    assert!(validate_upstream("backend.internal", None).is_err());
}

#[test]
fn rejects_url_scheme() {
    assert!(validate_upstream("https://127.0.0.1:8080", None).is_err());
}

#[test]
fn rejects_trailing_path() {
    assert!(validate_upstream("127.0.0.1:8080/", None).is_err());
}

#[test]
fn rejects_zero_port_and_garbage_port() {
    assert!(validate_upstream("127.0.0.1:0", Some(0)).is_err());
    assert!(validate_upstream("127.0.0.1:notaport", None).is_err());
}

#[test]
fn rejects_empty_host() {
    assert!(validate_upstream(":8080", None).is_err());
}

#[test]
fn rejects_whitespace() {
    assert!(validate_upstream("127.0.0.1 :8080", None).is_err());
}

#[test]
fn upstream_errors_say_what_is_wrong() {
    assert_eq!(validate_upstream("https://a:1", None), Err(UpstreamError::HasScheme));
    assert_eq!(validate_upstream("a b:1", None), Err(UpstreamError::HasWhitespace));
    assert_eq!(validate_upstream("a\u{3000}b:1", None), Err(UpstreamError::HasWhitespace));
    assert_eq!(validate_upstream("backend", None), Err(UpstreamError::MissingPort));
    assert_eq!(validate_upstream(":1", None), Err(UpstreamError::EmptyHost));
    assert_eq!(validate_upstream("a/b:1", None), Err(UpstreamError::HasPath));
    assert_eq!(validate_upstream("a(b:1", None), Err(UpstreamError::InvalidHost));
    assert_eq!(validate_upstream("[::1]:0", Some(0)), Err(UpstreamError::InvalidHost));
    assert_eq!(validate_upstream("a:0", None), Err(UpstreamError::ZeroPort));
    assert_eq!(validate_upstream("a:65536", None), Err(UpstreamError::InvalidPort));
    assert_eq!(validate_upstream("a:", None), Err(UpstreamError::InvalidPort));
    assert_eq!(validate_upstream("a:65535", None), Ok(()));
    assert_eq!(validate_upstream("a:+80", None), Ok(()));
    assert_eq!(validate_upstream("::1:8080", None), Err(UpstreamError::InvalidHost));
}

#[test]
fn defaults_are_as_documented() {
    assert_eq!(default_server_header(), "nginx/1.26.2 (Ubuntu)");
    assert_eq!(default_handshake_timeout(), 10);
    assert_eq!(default_tls_min_version(), "1.2");
    assert_eq!(default_max_connections(), 10_000);
    assert!(default_tls_passthrough());
    let cfg = config(vec![]);
    assert_eq!(cfg.ip_limit(), 0);
    assert_eq!(cfg.ip_rate().digits, 0);
    assert_eq!(cfg.ip_burst(), 10);
}

#[test]
fn configured_limits_are_used() {
    let mut cfg = config(vec![]);
    cfg.max_connections_per_ip = Some(100);
    cfg.connection_rate_per_ip = Some(ConnectionRate::PerSecond(Rate { digits: 5, exponent: 0 }));
    cfg.connection_burst_per_ip = Some(20);
    assert_eq!(cfg.ip_limit(), 100);
    assert_eq!(cfg.ip_rate(), Rate { digits: 5, exponent: 0 });
    assert_eq!(cfg.ip_burst(), 20);
    cfg.connection_rate_per_ip = Some(ConnectionRate::NotFinite);
    assert_eq!(cfg.ip_rate().digits, 0);
}

#[test]
fn server_names_are_normalized_on_loading() {
    let cfg = config(vec![target("Secret.Example.", "127.0.0.1:1")]).prepared(no_env());
    assert_eq!(cfg.routes[0].sni, "secret.example");
    assert_eq!(cfg.routes[0].upstream, "127.0.0.1:1");
    assert!(cfg.routes[0].tls_passthrough);
}

#[test]
fn the_environment_overrides_what_was_read() {
    let mut env = no_env();
    env.listen_addr = Some(loopback(8443));
    env.tls_cert_path = Some("c".to_string());
    env.tls_key_path = Some("k".to_string());
    env.static_dir = Some("s".to_string());
    env.server_header = Some("h".to_string());
    env.handshake_timeout_secs = Some("25".to_string());
    env.tls_min_version = Some("1.3".to_string());
    env.metrics_addr = Some(loopback(9090));
    env.max_connections = Some("+77".to_string());
    env.max_connections_per_ip = Some("8".to_string());
    env.connection_rate_per_ip = Some(ConnectionRate::PerSecond(Rate { digits: 1, exponent: -9 }));
    env.connection_burst_per_ip = Some("9".to_string());
    let cfg = config(vec![]).prepared(env);
    assert_eq!(cfg.listen_addr, loopback(8443));
    assert_eq!(cfg.tls_cert_path, "c");
    assert_eq!(cfg.tls_key_path, "k");
    assert_eq!(cfg.static_dir, "s");
    assert_eq!(cfg.server_header, "h");
    assert_eq!(cfg.handshake_timeout_secs, 25);
    assert_eq!(cfg.tls_min_version, "1.3");
    assert_eq!(cfg.metrics_addr, Some(loopback(9090)));
    assert_eq!(cfg.max_connections, 77);
    assert_eq!(cfg.max_connections_per_ip, Some(8));
    assert_eq!(cfg.connection_rate_per_ip, Some(ConnectionRate::PerSecond(Rate { digits: 1, exponent: -9 })));
    assert_eq!(cfg.connection_burst_per_ip, Some(9));
}

#[test]
fn each_variable_gives_its_own_field() {
    let names = variable_names();
    let vars: Vec<(String, String)> =
        names.iter().map(|name| (name.to_string(), format!("of {name}"))).collect();
    let texts = EnvTexts::find(&vars);
    assert_eq!(texts.listen_addr.as_deref(), Some("of REPROX_LISTEN_ADDR"));
    assert_eq!(texts.tls_cert_path.as_deref(), Some("of REPROX_TLS_CERT_PATH"));
    assert_eq!(texts.tls_key_path.as_deref(), Some("of REPROX_TLS_KEY_PATH"));
    assert_eq!(texts.static_dir.as_deref(), Some("of REPROX_STATIC_DIR"));
    assert_eq!(texts.server_header.as_deref(), Some("of REPROX_SERVER_HEADER"));
    assert_eq!(texts.handshake_timeout_secs.as_deref(), Some("of REPROX_HANDSHAKE_TIMEOUT_SECS"));
    assert_eq!(texts.tls_min_version.as_deref(), Some("of REPROX_TLS_MIN_VERSION"));
    assert_eq!(texts.metrics_addr.as_deref(), Some("of REPROX_METRICS_ADDR"));
    assert_eq!(texts.max_connections.as_deref(), Some("of REPROX_MAX_CONNECTIONS"));
    assert_eq!(texts.max_connections_per_ip.as_deref(), Some("of REPROX_MAX_CONNECTIONS_PER_IP"));
    assert_eq!(texts.connection_rate_per_ip.as_deref(), Some("of REPROX_CONNECTION_RATE_PER_IP"));
    assert_eq!(texts.connection_burst_per_ip.as_deref(), Some("of REPROX_CONNECTION_BURST_PER_IP"));
    assert_eq!(config_path(&vars), "of REPROX_CONFIG");

    let overrides = texts.overrides(Some(loopback(1)), None, None);
    assert_eq!(overrides.listen_addr, Some(loopback(1)));
    assert_eq!(overrides.metrics_addr, None);
    assert_eq!(overrides.tls_cert_path.as_deref(), Some("of REPROX_TLS_CERT_PATH"));
    assert_eq!(overrides.tls_key_path.as_deref(), Some("of REPROX_TLS_KEY_PATH"));
    assert_eq!(overrides.max_connections.as_deref(), Some("of REPROX_MAX_CONNECTIONS"));
}

#[test]
fn variables_that_are_not_set_give_nothing() {
    let vars = vec![
        ("HOME".to_string(), "/root".to_string()),
        ("REPROX_STATIC_DIR".to_string(), "a".to_string()),
        ("REPROX_STATIC_DIR".to_string(), "b".to_string()),
    ];
    let texts = EnvTexts::find(&vars);
    assert_eq!(texts.static_dir.as_deref(), Some("a"));
    assert_eq!(texts.tls_cert_path, None);
    assert_eq!(config_path(&vars), "config.toml");
}

#[test]
fn values_that_do_not_parse_change_nothing() {
    let mut env = no_env();
    env.handshake_timeout_secs = Some("soon".to_string());
    env.max_connections = Some("-1".to_string());
    env.max_connections_per_ip = Some(String::new());
    env.connection_burst_per_ip = Some("18446744073709551616".to_string());
    let cfg = config(vec![]).prepared(env);
    assert_eq!(cfg.handshake_timeout_secs, 10);
    assert_eq!(cfg.max_connections, 10_000);
    assert_eq!(cfg.max_connections_per_ip, None);
    assert_eq!(cfg.connection_burst_per_ip, None);
}

#[test]
fn an_ordinary_configuration_is_accepted() {
    assert_eq!(config(vec![]).validate(&facts(vec![])), Ok(()));
    let cfg = config(vec![target("a.b", "127.0.0.1:1"), target("c.d", "host:2")]);
    assert_eq!(cfg.validate(&facts(vec![Some(1), None])), Ok(()));
}

#[test]
fn each_refusal_has_its_reason() {
    let cfg = config(vec![target(" ", "host:1")]);
    assert_eq!(cfg.validate(&facts(vec![None])), Err(ConfigError::EmptyRoute));
    let cfg = config(vec![target("a", "\t")]);
    assert_eq!(cfg.validate(&facts(vec![None])), Err(ConfigError::EmptyRoute));
    let cfg = config(vec![target("a", "h:1"), target("b", "h:1"), target("a", "h:2")]);
    assert_eq!(cfg.validate(&facts(vec![None, None, None])), Err(ConfigError::DuplicateSni(2)));
    let cfg = config(vec![target("a", "h:1"), target("b", "nope")]);
    assert_eq!(
        cfg.validate(&facts(vec![None, None])),
        Err(ConfigError::InvalidUpstream(1, UpstreamError::MissingPort))
    );
    let mut cfg = config(vec![]);
    cfg.handshake_timeout_secs = 0;
    assert_eq!(cfg.validate(&facts(vec![])), Err(ConfigError::ZeroHandshakeTimeout));
    let cfg = config(vec![]);
    let mut f = facts(vec![]);
    f.cert_is_file = false;
    assert_eq!(cfg.validate(&f), Err(ConfigError::CertNotFound));
    let mut f = facts(vec![]);
    f.key_is_file = false;
    assert_eq!(cfg.validate(&f), Err(ConfigError::KeyNotFound));
    let mut f = facts(vec![]);
    f.static_dir_is_dir = false;
    assert_eq!(cfg.validate(&f), Err(ConfigError::StaticDirNotFound));
    let mut cfg = config(vec![]);
    cfg.tls_min_version = "1.1".to_string();
    assert_eq!(cfg.validate(&facts(vec![])), Err(ConfigError::UnknownTlsVersion));
    let mut cfg = config(vec![]);
    cfg.metrics_addr = Some(addr(IpAddr::V4(0x0a00_0001), 9090));
    assert_eq!(cfg.validate(&facts(vec![])), Err(ConfigError::MetricsAddrNotLoopback));
    let mut cfg = config(vec![]);
    cfg.max_connections = 0;
    assert_eq!(cfg.validate(&facts(vec![])), Err(ConfigError::ZeroMaxConnections));
    let mut cfg = config(vec![]);
    cfg.connection_rate_per_ip = Some(ConnectionRate::NotFinite);
    assert_eq!(cfg.validate(&facts(vec![])), Err(ConfigError::InvalidRate));
    cfg.connection_rate_per_ip = Some(ConnectionRate::Negative);
    assert_eq!(cfg.validate(&facts(vec![])), Err(ConfigError::InvalidRate));
    let mut cfg = config(vec![]);
    cfg.connection_burst_per_ip = Some(0);
    assert_eq!(cfg.validate(&facts(vec![])), Err(ConfigError::ZeroBurst));
}

#[test]
fn a_zero_rate_and_a_loopback_metrics_address_are_accepted() {
    let mut cfg = config(vec![]);
    cfg.connection_rate_per_ip = Some(ConnectionRate::PerSecond(Rate { digits: 0, exponent: 0 }));
    cfg.metrics_addr = Some(addr(IpAddr::V6(1), 9090));
    cfg.tls_min_version = "1.3".to_string();
    assert_eq!(cfg.validate(&facts(vec![])), Ok(()));
    cfg.metrics_addr = Some(loopback(9090));
    assert_eq!(cfg.validate(&facts(vec![])), Ok(()));
}

#[test]
fn the_first_refused_route_decides() {
    let cfg = config(vec![target("a", "bad"), target("", "")]);
    assert_eq!(
        cfg.validate(&facts(vec![None, None])),
        Err(ConfigError::InvalidUpstream(0, UpstreamError::MissingPort))
    );
}

#[test]
fn changes_that_take_a_restart_are_reported_and_kept_out() {
    let running = config(vec![]);
    let mut new = config(vec![target("a", "h:1")]);
    new.listen_addr = loopback(444);
    new.metrics_addr = Some(loopback(9));
    new.tls_min_version = "1.3".to_string();
    new.max_connections = 5;
    new.static_dir = "other".to_string();
    new.server_header = "x".to_string();
    let all = vec![
        FixedSetting::ListenAddr,
        FixedSetting::MetricsAddr,
        FixedSetting::TlsMinVersion,
        FixedSetting::MaxConnections,
        FixedSetting::StaticDir,
    ];
    assert_eq!(running.warn_about_unreloadable_changes(&new), all);
    assert_eq!(running.warn_about_unreloadable_changes(&running), vec![]);
    let merged = running.reloaded(new);
    assert_eq!(running.warn_about_unreloadable_changes(&merged), vec![]);
    assert_eq!(merged.routes.len(), 1);
    assert_eq!(merged.server_header, "x");
    assert_eq!(merged.max_connections, 10_000);
    assert_eq!(merged.static_dir, "static");
}
