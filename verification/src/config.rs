//! The configuration of the front: its fields and their defaults, how the
//! environment overrides them, when a configuration is refused, and what of
//! it a running process can take over.

use crate::net::SocketAddr;
use crate::rate::{ConnectionRate, Rate};
use crate::text;
use vstd::hash_set::StringHashSet;
use vstd::prelude::*;

verus! {

/// One route: a server name, and where its traffic goes.
#[derive(Debug)]
pub struct ProxyTarget {
    /// The server name that this route answers to.
    pub sni: String,
    /// Where the service listens, as `host:port`.
    pub upstream: String,
    /// Whether the TLS bytes are forwarded untouched. If not, TLS is
    /// terminated here and the service gets the plaintext.
    pub tls_passthrough: bool,
}

/// The configuration of the front.
#[derive(Debug)]
pub struct ServiceConfig {
    /// The public address.
    pub listen_addr: SocketAddr,
    /// The hidden services. May be empty.
    pub routes: Vec<ProxyTarget>,
    /// The certificate chain (PEM) of the fallback site.
    pub tls_cert_path: String,
    /// The private key (PEM) of the fallback site.
    pub tls_key_path: String,
    /// The directory of the fallback site.
    pub static_dir: String,
    /// The `Server` header of the fallback site.
    pub server_header: String,
    /// How long a ClientHello, and how long a TLS handshake, may take.
    pub handshake_timeout_secs: u64,
    /// `1.2` for TLS 1.2 and 1.3, `1.3` for TLS 1.3 alone.
    pub tls_min_version: String,
    /// The address of the metrics API, which must be a loopback address.
    pub metrics_addr: Option<SocketAddr>,
    /// How many connections are handled at once.
    pub max_connections: usize,
    /// How many of them one client may have. Unset or zero: no limit.
    pub max_connections_per_ip: Option<usize>,
    /// How fast one client may open connections. Unset or zero: no limit.
    pub connection_rate_per_ip: Option<ConnectionRate>,
    /// How many connections one client may open back to back.
    pub connection_burst_per_ip: Option<u64>,
}

// ---------------------------------------------------------------------
// Defaults
// ---------------------------------------------------------------------

/// The burst where a rate is set without one.
pub const DEFAULT_BURST: u64 = 10;

/// The `Server` header where none is configured.
pub fn default_server_header() -> (res: String)
    ensures
        res@ == "nginx/1.26.2 (Ubuntu)"@,
{
    text::owned("nginx/1.26.2 (Ubuntu)")
}

/// The handshake timeout in seconds where none is configured.
pub fn default_handshake_timeout() -> (res: u64)
    ensures
        res == 10,
{
    10
}

/// The TLS profile where none is configured.
pub fn default_tls_min_version() -> (res: String)
    ensures
        res@ == "1.2"@,
{
    text::owned("1.2")
}

/// The cap on connections where none is configured.
pub fn default_max_connections() -> (res: usize)
    ensures
        res == 10_000,
{
    10_000
}

/// Routes forward TLS untouched where they do not say otherwise.
pub fn default_tls_passthrough() -> (res: bool)
    ensures
        res,
{
    true
}

// ---------------------------------------------------------------------
// Limits
// ---------------------------------------------------------------------

impl ServiceConfig {
    /// How many connections one client may have; zero for no limit.
    pub open spec fn per_ip_limit(self) -> usize {
        match self.max_connections_per_ip {
            Some(n) => n,
            None => 0,
        }
    }

    /// How fast one client may open connections; zero for no limit.
    pub open spec fn per_ip_rate(self) -> Rate {
        match self.connection_rate_per_ip {
            Some(ConnectionRate::PerSecond(rate)) => rate,
            _ => Rate { digits: 0, exponent: 0 },
        }
    }

    /// How many connections one client may open back to back.
    pub open spec fn per_ip_burst(self) -> u64 {
        match self.connection_burst_per_ip {
            Some(n) => n,
            None => DEFAULT_BURST,
        }
    }

    pub fn ip_limit(&self) -> (res: usize)
        ensures
            res == self.per_ip_limit(),
    {
        match self.max_connections_per_ip {
            Some(n) => n,
            None => 0,
        }
    }

    pub fn ip_rate(&self) -> (res: Rate)
        ensures
            res == self.per_ip_rate(),
    {
        match self.connection_rate_per_ip {
            Some(ConnectionRate::PerSecond(rate)) => rate,
            _ => Rate { digits: 0, exponent: 0 },
        }
    }

    pub fn ip_burst(&self) -> (res: u64)
        ensures
            res == self.per_ip_burst(),
    {
        match self.connection_burst_per_ip {
            Some(n) => n,
            None => DEFAULT_BURST,
        }
    }
}

// ---------------------------------------------------------------------
// Upstreams
// ---------------------------------------------------------------------

/// Why an upstream is refused.
#[derive(Clone, Copy, Debug, PartialEq, Eq, Structural)]
pub enum UpstreamError {
    /// It is a URL with a scheme.
    HasScheme,
    HasWhitespace,
    /// There is no `:port`.
    MissingPort,
    /// There is nothing before the `:`.
    EmptyHost,
    HasPath,
    /// A character of the host is not one of a host name.
    InvalidHost,
    ZeroPort,
    /// What follows the last `:` is not a port number.
    InvalidPort,
}

/// A scheme separator stands at `i`.
pub open spec fn scheme_at(s: Seq<char>, i: int) -> bool {
    0 <= i && i + 3 <= s.len() && s[i] == ':' && s[i + 1] == '/' && s[i + 2] == '/'
}

pub open spec fn has_scheme(s: Seq<char>) -> bool {
    exists|i: int| scheme_at(s, i)
}

pub open spec fn has_white_space(s: Seq<char>) -> bool {
    exists|i: int| 0 <= i < s.len() && text::white_space(#[trigger] s[i])
}

/// An ASCII letter or digit, `.`, `-` or `_`.
pub open spec fn host_char(c: char) -> bool {
    ||| 'a' <= c && c <= 'z'
    ||| 'A' <= c && c <= 'Z'
    ||| '0' <= c && c <= '9'
    ||| c == '.'
    ||| c == '-'
    ||| c == '_'
}

pub open spec fn host_error(host: Seq<char>) -> Option<UpstreamError> {
    if host.len() == 0 {
        Some(UpstreamError::EmptyHost)
    } else if host.contains('/') {
        Some(UpstreamError::HasPath)
    } else if !(forall|i: int| 0 <= i < host.len() ==> host_char(#[trigger] host[i])) {
        Some(UpstreamError::InvalidHost)
    } else {
        None
    }
}

pub open spec fn port_error(port: Seq<char>) -> Option<UpstreamError> {
    match text::parsed_number(port, 65535) {
        None => Some(UpstreamError::InvalidPort),
        Some(n) => if n == 0 {
            Some(UpstreamError::ZeroPort)
        } else {
            None
        },
    }
}

/// Why an upstream is refused, if it is. A literal `ip:port`, whose port is
/// `literal_port`, is accepted unless the port is zero; anything else has to
/// be `hostname:port`.
pub open spec fn upstream_error(s: Seq<char>, literal_port: Option<u16>) -> Option<UpstreamError> {
    if literal_port is Some && literal_port != Some(0u16) {
        None
    } else if has_scheme(s) {
        Some(UpstreamError::HasScheme)
    } else if has_white_space(s) {
        Some(UpstreamError::HasWhitespace)
    } else {
        match text::last_place(s, ':') {
            None => Some(UpstreamError::MissingPort),
            Some(i) => match host_error(s.take(i)) {
                Some(e) => Some(e),
                None => port_error(s.skip(i + 1)),
            },
        }
    }
}

fn is_host_char(c: char) -> (res: bool)
    ensures
        res == host_char(c),
{
    ('a' <= c && c <= 'z') || ('A' <= c && c <= 'Z') || ('0' <= c && c <= '9') || c == '.' || c
        == '-' || c == '_'
}

fn find_scheme(chars: &Vec<char>) -> (res: bool)
    ensures
        res == has_scheme(chars@),
{
    let mut i: usize = 0;
    while i < chars.len()
        invariant
            i <= chars@.len(),
            forall|j: int| #[trigger] scheme_at(chars@, j) ==> j >= i,
        decreases chars@.len() - i,
    {
        if chars.len() - i >= 3 && chars[i] == ':' && chars[i + 1] == '/' && chars[i + 2] == '/' {
            proof {
                assert(scheme_at(chars@, i as int));
            }
            return true;
        }
        i = i + 1;
    }
    false
}

fn find_white_space(chars: &Vec<char>) -> (res: bool)
    ensures
        res == has_white_space(chars@),
{
    for i in 0..chars.len()
        invariant
            forall|j: int| 0 <= j < i ==> !text::white_space(#[trigger] chars@[j]),
    {
        if text::is_white_space(chars[i]) {
            return true;
        }
    }
    false
}

fn check_host(chars: &Vec<char>, n: usize) -> (res: Option<UpstreamError>)
    requires
        n <= chars@.len(),
    ensures
        res == host_error(chars@.take(n as int)),
{
    let ghost host = chars@.take(n as int);
    if n == 0 {
        return Some(UpstreamError::EmptyHost);
    }
    let mut odd: bool = false;
    for i in 0..n
        invariant
            n <= chars@.len(),
            n > 0,
            host == chars@.take(n as int),
            forall|j: int| 0 <= j < i ==> #[trigger] host[j] != '/',
            odd == !(forall|j: int| 0 <= j < i ==> host_char(#[trigger] host[j])),
    {
        let c: char = chars[i];
        proof {
            assert(host[i as int] == c);
        }
        if c == '/' {
            proof {
                assert(host.contains('/'));
            }
            return Some(UpstreamError::HasPath);
        }
        if !is_host_char(c) {
            odd = true;
        }
    }
    proof {
        assert(!host.contains('/'));
    }
    if odd {
        Some(UpstreamError::InvalidHost)
    } else {
        None
    }
}

/// Checks the shape of an upstream. `literal_port` is the port of `upstream`
/// where it is a literal `ip:port` (an IPv6 address in brackets).
pub fn validate_upstream(upstream: &str, literal_port: Option<u16>) -> (res: Result<
    (),
    UpstreamError,
>)
    ensures
        res == (match upstream_error(upstream@, literal_port) {
            Some(e) => Err::<(), UpstreamError>(e),
            None => Ok(()),
        }),
{
    if let Some(port) = literal_port {
        if port != 0 {
            return Ok(());
        }
    }
    let chars = text::chars_of(upstream);
    if find_scheme(&chars) {
        return Err(UpstreamError::HasScheme);
    }
    if find_white_space(&chars) {
        return Err(UpstreamError::HasWhitespace);
    }
    let colon: usize = match text::find_last(&chars, ':') {
        Some(i) => i,
        None => {
            return Err(UpstreamError::MissingPort);
        },
    };
    if let Some(e) = check_host(&chars, colon) {
        return Err(e);
    }
    let port = text::text_from(&chars, colon + 1);
    match text::parse_number(port.as_str(), 65535) {
        Some(0) => Err(UpstreamError::ZeroPort),
        Some(_) => Ok(()),
        None => Err(UpstreamError::InvalidPort),
    }
}

// ---------------------------------------------------------------------
// Loading
// ---------------------------------------------------------------------

/// What the environment has to say. Addresses and the rate are `None` where
/// the variable is unset or does not parse; numbers are still text.
pub struct EnvOverrides {
    pub listen_addr: Option<SocketAddr>,
    pub tls_cert_path: Option<String>,
    pub tls_key_path: Option<String>,
    pub static_dir: Option<String>,
    pub server_header: Option<String>,
    pub handshake_timeout_secs: Option<String>,
    pub tls_min_version: Option<String>,
    pub metrics_addr: Option<SocketAddr>,
    pub max_connections: Option<String>,
    pub max_connections_per_ip: Option<String>,
    pub connection_rate_per_ip: Option<ConnectionRate>,
    pub connection_burst_per_ip: Option<String>,
}

/// Variables of the environment, each with its name and its text, by their
/// views.
pub open spec fn variables_view(vars: Seq<(String, String)>) -> Seq<(Seq<char>, Seq<char>)> {
    Seq::new(vars.len(), |i: int| (vars[i].0@, vars[i].1@))
}

/// The text of the first variable of that name.
pub open spec fn variable(vars: Seq<(Seq<char>, Seq<char>)>, name: Seq<char>) -> Option<Seq<char>>
    decreases vars.len(),
{
    if vars.len() == 0 {
        None
    } else if vars[0].0 == name {
        Some(vars[0].1)
    } else {
        variable(vars.skip(1), name)
    }
}

/// A text by its view, where there is one.
pub open spec fn text_view(v: Option<String>) -> Option<Seq<char>> {
    match v {
        Some(s) => Some(s@),
        None => None,
    }
}

/// The text of the first variable of that name.
pub fn variable_text(vars: &Vec<(String, String)>, name: &str) -> (res: Option<String>)
    ensures
        text_view(res) == variable(variables_view(vars@), name@),
{
    let ghost all = variables_view(vars@);
    proof {
        assert(all.skip(0) =~= all);
    }
    for i in 0..vars.len()
        invariant
            all == variables_view(vars@),
            variable(all, name@) == variable(all.skip(i as int), name@),
    {
        proof {
            assert(all.skip(i as int).skip(1) =~= all.skip(i + 1));
            assert(all.skip(i as int)[0] == (vars@[i as int].0@, vars@[i as int].1@));
        }
        if *vars[i].0.as_str() == *name {
            return Some(text::owned(vars[i].1.as_str()));
        }
    }
    None
}

/// The names of the variables that are looked up: those that override the
/// configuration, and the one that says where it is.
pub fn variable_names() -> (res: Vec<&'static str>)
    ensures
        res@.len() == 13,
        res@[0]@ == "REPROX_LISTEN_ADDR"@,
        res@[1]@ == "REPROX_TLS_CERT_PATH"@,
        res@[2]@ == "REPROX_TLS_KEY_PATH"@,
        res@[3]@ == "REPROX_STATIC_DIR"@,
        res@[4]@ == "REPROX_SERVER_HEADER"@,
        res@[5]@ == "REPROX_HANDSHAKE_TIMEOUT_SECS"@,
        res@[6]@ == "REPROX_TLS_MIN_VERSION"@,
        res@[7]@ == "REPROX_METRICS_ADDR"@,
        res@[8]@ == "REPROX_MAX_CONNECTIONS"@,
        res@[9]@ == "REPROX_MAX_CONNECTIONS_PER_IP"@,
        res@[10]@ == "REPROX_CONNECTION_RATE_PER_IP"@,
        res@[11]@ == "REPROX_CONNECTION_BURST_PER_IP"@,
        res@[12]@ == "REPROX_CONFIG"@,
{
    vec![
        "REPROX_LISTEN_ADDR",
        "REPROX_TLS_CERT_PATH",
        "REPROX_TLS_KEY_PATH",
        "REPROX_STATIC_DIR",
        "REPROX_SERVER_HEADER",
        "REPROX_HANDSHAKE_TIMEOUT_SECS",
        "REPROX_TLS_MIN_VERSION",
        "REPROX_METRICS_ADDR",
        "REPROX_MAX_CONNECTIONS",
        "REPROX_MAX_CONNECTIONS_PER_IP",
        "REPROX_CONNECTION_RATE_PER_IP",
        "REPROX_CONNECTION_BURST_PER_IP",
        "REPROX_CONFIG",
    ]
}

/// Where the configuration is read from: the file that `REPROX_CONFIG` names,
/// or `config.toml`.
pub fn config_path(vars: &Vec<(String, String)>) -> (res: String)
    ensures
        res@ == (match variable(variables_view(vars@), "REPROX_CONFIG"@) {
            Some(path) => path,
            None => "config.toml"@,
        }),
{
    match variable_text(vars, "REPROX_CONFIG") {
        Some(path) => path,
        None => text::owned("config.toml"),
    }
}

/// The texts that the environment gives for the fields of a configuration.
pub struct EnvTexts {
    pub listen_addr: Option<String>,
    pub tls_cert_path: Option<String>,
    pub tls_key_path: Option<String>,
    pub static_dir: Option<String>,
    pub server_header: Option<String>,
    pub handshake_timeout_secs: Option<String>,
    pub tls_min_version: Option<String>,
    pub metrics_addr: Option<String>,
    pub max_connections: Option<String>,
    pub max_connections_per_ip: Option<String>,
    pub connection_rate_per_ip: Option<String>,
    pub connection_burst_per_ip: Option<String>,
}

/// `EnvTexts` by their views.
pub ghost struct EnvTextsView {
    pub listen_addr: Option<Seq<char>>,
    pub tls_cert_path: Option<Seq<char>>,
    pub tls_key_path: Option<Seq<char>>,
    pub static_dir: Option<Seq<char>>,
    pub server_header: Option<Seq<char>>,
    pub handshake_timeout_secs: Option<Seq<char>>,
    pub tls_min_version: Option<Seq<char>>,
    pub metrics_addr: Option<Seq<char>>,
    pub max_connections: Option<Seq<char>>,
    pub max_connections_per_ip: Option<Seq<char>>,
    pub connection_rate_per_ip: Option<Seq<char>>,
    pub connection_burst_per_ip: Option<Seq<char>>,
}

impl View for EnvTexts {
    type V = EnvTextsView;

    open spec fn view(&self) -> EnvTextsView {
        EnvTextsView {
            listen_addr: text_view(self.listen_addr),
            tls_cert_path: text_view(self.tls_cert_path),
            tls_key_path: text_view(self.tls_key_path),
            static_dir: text_view(self.static_dir),
            server_header: text_view(self.server_header),
            handshake_timeout_secs: text_view(self.handshake_timeout_secs),
            tls_min_version: text_view(self.tls_min_version),
            metrics_addr: text_view(self.metrics_addr),
            max_connections: text_view(self.max_connections),
            max_connections_per_ip: text_view(self.max_connections_per_ip),
            connection_rate_per_ip: text_view(self.connection_rate_per_ip),
            connection_burst_per_ip: text_view(self.connection_burst_per_ip),
        }
    }
}

/// Which variable gives which field.
pub open spec fn env_texts(vars: Seq<(Seq<char>, Seq<char>)>) -> EnvTextsView {
    EnvTextsView {
        listen_addr: variable(vars, "REPROX_LISTEN_ADDR"@),
        tls_cert_path: variable(vars, "REPROX_TLS_CERT_PATH"@),
        tls_key_path: variable(vars, "REPROX_TLS_KEY_PATH"@),
        static_dir: variable(vars, "REPROX_STATIC_DIR"@),
        server_header: variable(vars, "REPROX_SERVER_HEADER"@),
        handshake_timeout_secs: variable(vars, "REPROX_HANDSHAKE_TIMEOUT_SECS"@),
        tls_min_version: variable(vars, "REPROX_TLS_MIN_VERSION"@),
        metrics_addr: variable(vars, "REPROX_METRICS_ADDR"@),
        max_connections: variable(vars, "REPROX_MAX_CONNECTIONS"@),
        max_connections_per_ip: variable(vars, "REPROX_MAX_CONNECTIONS_PER_IP"@),
        connection_rate_per_ip: variable(vars, "REPROX_CONNECTION_RATE_PER_IP"@),
        connection_burst_per_ip: variable(vars, "REPROX_CONNECTION_BURST_PER_IP"@),
    }
}

impl EnvTexts {
    /// Finds the text for each field among the variables of the environment.
    pub fn find(vars: &Vec<(String, String)>) -> (res: EnvTexts)
        ensures
            res@ == env_texts(variables_view(vars@)),
    {
        EnvTexts {
            listen_addr: variable_text(vars, "REPROX_LISTEN_ADDR"),
            tls_cert_path: variable_text(vars, "REPROX_TLS_CERT_PATH"),
            tls_key_path: variable_text(vars, "REPROX_TLS_KEY_PATH"),
            static_dir: variable_text(vars, "REPROX_STATIC_DIR"),
            server_header: variable_text(vars, "REPROX_SERVER_HEADER"),
            handshake_timeout_secs: variable_text(vars, "REPROX_HANDSHAKE_TIMEOUT_SECS"),
            tls_min_version: variable_text(vars, "REPROX_TLS_MIN_VERSION"),
            metrics_addr: variable_text(vars, "REPROX_METRICS_ADDR"),
            max_connections: variable_text(vars, "REPROX_MAX_CONNECTIONS"),
            max_connections_per_ip: variable_text(vars, "REPROX_MAX_CONNECTIONS_PER_IP"),
            connection_rate_per_ip: variable_text(vars, "REPROX_CONNECTION_RATE_PER_IP"),
            connection_burst_per_ip: variable_text(vars, "REPROX_CONNECTION_BURST_PER_IP"),
        }
    }

    /// What the environment has to say, with the addresses and the rate read
    /// from their texts.
    pub fn overrides(
        self,
        listen_addr: Option<SocketAddr>,
        metrics_addr: Option<SocketAddr>,
        connection_rate_per_ip: Option<ConnectionRate>,
    ) -> (res: EnvOverrides)
        ensures
            res == (EnvOverrides {
                listen_addr,
                metrics_addr,
                connection_rate_per_ip,
                tls_cert_path: self.tls_cert_path,
                tls_key_path: self.tls_key_path,
                static_dir: self.static_dir,
                server_header: self.server_header,
                handshake_timeout_secs: self.handshake_timeout_secs,
                tls_min_version: self.tls_min_version,
                max_connections: self.max_connections,
                max_connections_per_ip: self.max_connections_per_ip,
                connection_burst_per_ip: self.connection_burst_per_ip,
            }),
    {
        EnvOverrides {
            listen_addr,
            metrics_addr,
            connection_rate_per_ip,
            tls_cert_path: self.tls_cert_path,
            tls_key_path: self.tls_key_path,
            static_dir: self.static_dir,
            server_header: self.server_header,
            handshake_timeout_secs: self.handshake_timeout_secs,
            tls_min_version: self.tls_min_version,
            max_connections: self.max_connections,
            max_connections_per_ip: self.max_connections_per_ip,
            connection_burst_per_ip: self.connection_burst_per_ip,
        }
    }
}

/// The number that a variable gives, if it is set and parses.
pub open spec fn given_number(v: Option<String>, max: nat) -> Option<nat> {
    match v {
        Some(s) => text::parsed_number(s@, max),
        None => None,
    }
}

/// The first, if there is one, otherwise the second.
pub open spec fn preferred<T>(given: Option<T>, otherwise: T) -> T {
    match given {
        Some(v) => v,
        None => otherwise,
    }
}

/// `cfg` with every field that the environment gives taken from there. A
/// value that does not parse leaves its field as it is.
pub open spec fn overridden(cfg: ServiceConfig, env: EnvOverrides) -> ServiceConfig {
    ServiceConfig {
        listen_addr: preferred(env.listen_addr, cfg.listen_addr),
        routes: cfg.routes,
        tls_cert_path: preferred(env.tls_cert_path, cfg.tls_cert_path),
        tls_key_path: preferred(env.tls_key_path, cfg.tls_key_path),
        static_dir: preferred(env.static_dir, cfg.static_dir),
        server_header: preferred(env.server_header, cfg.server_header),
        handshake_timeout_secs: match given_number(env.handshake_timeout_secs, u64::MAX as nat) {
            Some(n) => n as u64,
            None => cfg.handshake_timeout_secs,
        },
        tls_min_version: preferred(env.tls_min_version, cfg.tls_min_version),
        metrics_addr: match env.metrics_addr {
            Some(a) => Some(a),
            None => cfg.metrics_addr,
        },
        max_connections: match given_number(env.max_connections, usize::MAX as nat) {
            Some(n) => n as usize,
            None => cfg.max_connections,
        },
        max_connections_per_ip: match given_number(
            env.max_connections_per_ip,
            usize::MAX as nat,
        ) {
            Some(n) => Some(n as usize),
            None => cfg.max_connections_per_ip,
        },
        connection_rate_per_ip: match env.connection_rate_per_ip {
            Some(r) => Some(r),
            None => cfg.connection_rate_per_ip,
        },
        connection_burst_per_ip: match given_number(env.connection_burst_per_ip, u64::MAX as nat) {
            Some(n) => Some(n as u64),
            None => cfg.connection_burst_per_ip,
        },
    }
}

/// `after` is `before` with every server name in the form in which host names
/// are compared.
pub open spec fn routes_normalized(before: Seq<ProxyTarget>, after: Seq<ProxyTarget>) -> bool {
    &&& after.len() == before.len()
    &&& forall|i: int|
        0 <= i < before.len() ==> {
            &&& (#[trigger] after[i]).sni@ == text::normalize_host(before[i].sni@)
            &&& after[i].upstream == before[i].upstream
            &&& after[i].tls_passthrough == before[i].tls_passthrough
        }
}

fn env_number(v: &Option<String>, max: u64) -> (res: Option<u64>)
    ensures
        res is Some <==> given_number(*v, max as nat) is Some,
        res matches Some(n) ==> given_number(*v, max as nat) == Some(n as nat) && n <= max,
{
    match v {
        Some(s) => text::parse_number(s.as_str(), max),
        None => None,
    }
}

impl ServiceConfig {
    /// Puts every configured server name into the form in which host names
    /// are compared.
    pub fn normalize_routes(&mut self)
        ensures
            routes_normalized(old(self).routes@, final(self).routes@),
            *final(self) == (ServiceConfig { routes: final(self).routes, ..*old(self) }),
    {
        let ghost before = self.routes@;
        let mut i: usize = 0;
        while i < self.routes.len()
            invariant
                i <= self.routes@.len(),
                self.routes@.len() == before.len(),
                before == old(self).routes@,
                *self == (ServiceConfig { routes: self.routes, ..*old(self) }),
                forall|j: int|
                    0 <= j < i ==> {
                        &&& (#[trigger] self.routes@[j]).sni@ == text::normalize_host(
                            before[j].sni@,
                        )
                        &&& self.routes@[j].upstream == before[j].upstream
                        &&& self.routes@[j].tls_passthrough == before[j].tls_passthrough
                    },
                forall|j: int| i <= j < before.len() ==> #[trigger] self.routes@[j] == before[j],
            decreases before.len() - i,
        {
            let sni = text::normalized_host(self.routes[i].sni.as_str());
            self.routes[i].sni = sni;
            i = i + 1;
        }
    }

    /// Takes from the environment every field that it gives.
    pub fn apply_env_overrides(&mut self, env: EnvOverrides)
        ensures
            *final(self) == overridden(*old(self), env),
    {
        if let Some(addr) = env.listen_addr {
            self.listen_addr = addr;
        }
        let timeout = env_number(&env.handshake_timeout_secs, u64::MAX);
        let cap = env_number(&env.max_connections, usize::MAX as u64);
        let per_ip = env_number(&env.max_connections_per_ip, usize::MAX as u64);
        let burst = env_number(&env.connection_burst_per_ip, u64::MAX);
        if let Some(path) = env.tls_cert_path {
            self.tls_cert_path = path;
        }
        if let Some(path) = env.tls_key_path {
            self.tls_key_path = path;
        }
        if let Some(path) = env.static_dir {
            self.static_dir = path;
        }
        if let Some(header) = env.server_header {
            self.server_header = header;
        }
        if let Some(n) = timeout {
            self.handshake_timeout_secs = n;
        }
        if let Some(version) = env.tls_min_version {
            self.tls_min_version = version;
        }
        if let Some(addr) = env.metrics_addr {
            self.metrics_addr = Some(addr);
        }
        if let Some(n) = cap {
            self.max_connections = n as usize;
        }
        if let Some(n) = per_ip {
            self.max_connections_per_ip = Some(n as usize);
        }
        if let Some(rate) = env.connection_rate_per_ip {
            self.connection_rate_per_ip = Some(rate);
        }
        if let Some(n) = burst {
            self.connection_burst_per_ip = Some(n);
        }
    }
}

impl ServiceConfig {
    /// A configuration as it is used: the server names of what was read put
    /// into the form in which host names are compared, and every field that
    /// the environment gives taken from there.
    pub fn prepared(self, env: EnvOverrides) -> (res: ServiceConfig)
        ensures
            routes_normalized(self.routes@, res.routes@),
            res == (ServiceConfig { routes: res.routes, ..overridden(self, env) }),
    {
        let mut cfg = self;
        cfg.normalize_routes();
        cfg.apply_env_overrides(env);
        cfg
    }
}

// ---------------------------------------------------------------------
// Validation
// ---------------------------------------------------------------------

/// Why a configuration is refused. A route is given by its place in the list.
#[derive(Clone, Copy, Debug, PartialEq, Eq, Structural)]
pub enum ConfigError {
    /// A route has an empty server name or upstream.
    EmptyRoute,
    /// A route has the server name of an earlier one.
    DuplicateSni(usize),
    InvalidUpstream(usize, UpstreamError),
    ZeroHandshakeTimeout,
    CertNotFound,
    KeyNotFound,
    StaticDirNotFound,
    UnknownTlsVersion,
    MetricsAddrNotLoopback,
    ZeroMaxConnections,
    /// The rate is not a finite number, or below zero.
    InvalidRate,
    ZeroBurst,
}

/// What the file system and the address parser say of a configuration.
pub struct ConfigFacts {
    pub cert_is_file: bool,
    pub key_is_file: bool,
    pub static_dir_is_dir: bool,
    /// For each route, the port of its upstream where that is a literal
    /// `ip:port`.
    pub literal_ports: Vec<Option<u16>>,
}

/// An earlier route than `i` has the same server name.
pub open spec fn sni_taken(routes: Seq<ProxyTarget>, i: int) -> bool {
    exists|j: int| 0 <= j < i && (#[trigger] routes[j]).sni@ == routes[i].sni@
}

/// Why the route at `i` is refused, if it is.
pub open spec fn route_error(
    routes: Seq<ProxyTarget>,
    ports: Seq<Option<u16>>,
    i: int,
) -> Option<ConfigError> {
    if text::blank(routes[i].sni@) || text::blank(routes[i].upstream@) {
        Some(ConfigError::EmptyRoute)
    } else if sni_taken(routes, i) {
        Some(ConfigError::DuplicateSni(i as usize))
    } else {
        match upstream_error(routes[i].upstream@, ports[i]) {
            Some(e) => Some(ConfigError::InvalidUpstream(i as usize, e)),
            None => None,
        }
    }
}

/// Why the first refused route among the first `n` is refused.
pub open spec fn routes_error(
    routes: Seq<ProxyTarget>,
    ports: Seq<Option<u16>>,
    n: int,
) -> Option<ConfigError>
    decreases n,
{
    if n <= 0 {
        None
    } else {
        match routes_error(routes, ports, n - 1) {
            Some(e) => Some(e),
            None => route_error(routes, ports, n - 1),
        }
    }
}

pub open spec fn rate_refused(rate: Option<ConnectionRate>) -> bool {
    rate == Some(ConnectionRate::NotFinite) || rate == Some(ConnectionRate::Negative)
}

/// Why anything but the routes is refused, if it is.
pub open spec fn settings_error(cfg: ServiceConfig, facts: ConfigFacts) -> Option<ConfigError> {
    if cfg.handshake_timeout_secs == 0 {
        Some(ConfigError::ZeroHandshakeTimeout)
    } else if !facts.cert_is_file {
        Some(ConfigError::CertNotFound)
    } else if !facts.key_is_file {
        Some(ConfigError::KeyNotFound)
    } else if !facts.static_dir_is_dir {
        Some(ConfigError::StaticDirNotFound)
    } else if cfg.tls_min_version@ != "1.2"@ && cfg.tls_min_version@ != "1.3"@ {
        Some(ConfigError::UnknownTlsVersion)
    } else if cfg.metrics_addr is Some && !cfg.metrics_addr->0.ip.loopback() {
        Some(ConfigError::MetricsAddrNotLoopback)
    } else if cfg.max_connections == 0 {
        Some(ConfigError::ZeroMaxConnections)
    } else if rate_refused(cfg.connection_rate_per_ip) {
        Some(ConfigError::InvalidRate)
    } else if cfg.connection_burst_per_ip == Some(0u64) {
        Some(ConfigError::ZeroBurst)
    } else {
        None
    }
}

/// Why a configuration is refused, if it is: the first reason in order.
pub open spec fn config_error(cfg: ServiceConfig, facts: ConfigFacts) -> Option<ConfigError> {
    match routes_error(cfg.routes@, facts.literal_ports@, cfg.routes@.len() as int) {
        Some(e) => Some(e),
        None => settings_error(cfg, facts),
    }
}

proof fn lemma_first_error_stays(
    routes: Seq<ProxyTarget>,
    ports: Seq<Option<u16>>,
    i: int,
    n: int,
)
    requires
        0 <= i <= n,
        routes_error(routes, ports, i) is Some,
    ensures
        routes_error(routes, ports, n) == routes_error(routes, ports, i),
    decreases n - i,
{
    if i < n {
        lemma_first_error_stays(routes, ports, i, n - 1);
    }
}

impl ServiceConfig {
    fn validate_routes(&self, facts: &ConfigFacts) -> (res: Result<(), ConfigError>)
        requires
            facts.literal_ports@.len() == self.routes@.len(),
        ensures
            res == (match routes_error(
                self.routes@,
                facts.literal_ports@,
                self.routes@.len() as int,
            ) {
                Some(e) => Err::<(), ConfigError>(e),
                None => Ok(()),
            }),
    {
        let mut seen_sni = StringHashSet::new();
        let ghost routes = self.routes@;
        let ghost ports = facts.literal_ports@;
        let mut i: usize = 0;
        while i < self.routes.len()
            invariant
                i <= routes.len(),
                routes == self.routes@,
                ports == facts.literal_ports@,
                ports.len() == routes.len(),
                routes_error(routes, ports, i as int) is None,
                forall|name: Seq<char>| #[trigger]
                    seen_sni@.contains(name) <==> exists|j: int|
                        0 <= j < i && (#[trigger] routes[j]).sni@ == name,
            decreases routes.len() - i,
        {
            let target = &self.routes[i];
            proof {
                if routes_error(routes, ports, i + 1) is Some {
                    lemma_first_error_stays(routes, ports, i + 1, routes.len() as int);
                }
            }
            if text::is_blank(target.sni.as_str()) || text::is_blank(target.upstream.as_str()) {
                return Err(ConfigError::EmptyRoute);
            }
            if seen_sni.contains(target.sni.as_str()) {
                proof {
                    assert(sni_taken(routes, i as int));
                }
                return Err(ConfigError::DuplicateSni(i));
            }
            let ghost before = seen_sni@;
            seen_sni.insert(target.sni.clone());
            if let Err(e) = validate_upstream(target.upstream.as_str(), facts.literal_ports[i]) {
                return Err(ConfigError::InvalidUpstream(i, e));
            }
            proof {
                assert(!sni_taken(routes, i as int));
                assert forall|name: Seq<char>| #[trigger] seen_sni@.contains(name) implies exists|
                    j: int,
                |
                    0 <= j < i + 1 && (#[trigger] routes[j]).sni@ == name by {
                    if before.contains(name) {
                        let j = choose|j: int|
                            0 <= j < i && (#[trigger] routes[j]).sni@ == name;
                        assert(routes[j].sni@ == name);
                    } else {
                        assert(routes[i as int].sni@ == name);
                    }
                }
            }
            i = i + 1;
        }
        Ok(())
    }

    /// Refuses a configuration that cannot be run. An empty list of routes is
    /// fine: everything then goes to the fallback site.
    pub fn validate(&self, facts: &ConfigFacts) -> (res: Result<(), ConfigError>)
        requires
            facts.literal_ports@.len() == self.routes@.len(),
        ensures
            res == (match config_error(*self, *facts) {
                Some(e) => Err::<(), ConfigError>(e),
                None => Ok(()),
            }),
    {
        if let Err(e) = self.validate_routes(facts) {
            return Err(e);
        }
        if self.handshake_timeout_secs == 0 {
            return Err(ConfigError::ZeroHandshakeTimeout);
        }
        if !facts.cert_is_file {
            return Err(ConfigError::CertNotFound);
        }
        if !facts.key_is_file {
            return Err(ConfigError::KeyNotFound);
        }
        if !facts.static_dir_is_dir {
            return Err(ConfigError::StaticDirNotFound);
        }
        if *self.tls_min_version.as_str() != *"1.2" && *self.tls_min_version.as_str() != *"1.3" {
            return Err(ConfigError::UnknownTlsVersion);
        }
        if let Some(addr) = self.metrics_addr {
            if !addr.ip.is_loopback() {
                return Err(ConfigError::MetricsAddrNotLoopback);
            }
        }
        if self.max_connections == 0 {
            return Err(ConfigError::ZeroMaxConnections);
        }
        match self.connection_rate_per_ip {
            Some(ConnectionRate::NotFinite) | Some(ConnectionRate::Negative) => {
                return Err(ConfigError::InvalidRate);
            },
            _ => {},
        }
        if let Some(burst) = self.connection_burst_per_ip {
            if burst == 0 {
                return Err(ConfigError::ZeroBurst);
            }
        }
        Ok(())
    }
}

// ---------------------------------------------------------------------
// Reloading
// ---------------------------------------------------------------------

/// A setting that a running process cannot take over from a new
/// configuration: something that is made once at startup rests on it.
#[derive(Clone, Copy, Debug, PartialEq, Eq, Structural)]
pub enum FixedSetting {
    ListenAddr,
    MetricsAddr,
    TlsMinVersion,
    MaxConnections,
    StaticDir,
}

pub open spec fn listed_if(changed: bool, setting: FixedSetting) -> Seq<FixedSetting> {
    if changed {
        seq![setting]
    } else {
        Seq::empty()
    }
}

/// The fixed settings in which two configurations differ.
pub open spec fn fixed_changes(running: ServiceConfig, new: ServiceConfig) -> Seq<FixedSetting> {
    listed_if(running.listen_addr != new.listen_addr, FixedSetting::ListenAddr) + listed_if(
        running.metrics_addr != new.metrics_addr,
        FixedSetting::MetricsAddr,
    ) + listed_if(
        running.tls_min_version@ != new.tls_min_version@,
        FixedSetting::TlsMinVersion,
    ) + listed_if(
        running.max_connections != new.max_connections,
        FixedSetting::MaxConnections,
    ) + listed_if(running.static_dir@ != new.static_dir@, FixedSetting::StaticDir)
}

/// `res` is `new`, with the fixed settings as they are in `running`.
pub open spec fn fixed_settings_kept(
    running: ServiceConfig,
    new: ServiceConfig,
    res: ServiceConfig,
) -> bool {
    &&& res.listen_addr == running.listen_addr
    &&& res.metrics_addr == running.metrics_addr
    &&& res.tls_min_version@ == running.tls_min_version@
    &&& res.max_connections == running.max_connections
    &&& res.static_dir@ == running.static_dir@
    &&& res.routes == new.routes
    &&& res.tls_cert_path == new.tls_cert_path
    &&& res.tls_key_path == new.tls_key_path
    &&& res.server_header == new.server_header
    &&& res.handshake_timeout_secs == new.handshake_timeout_secs
    &&& res.max_connections_per_ip == new.max_connections_per_ip
    &&& res.connection_rate_per_ip == new.connection_rate_per_ip
    &&& res.connection_burst_per_ip == new.connection_burst_per_ip
}

fn same_addr(a: &Option<SocketAddr>, b: &Option<SocketAddr>) -> (res: bool)
    ensures
        res == (*a == *b),
{
    match (a, b) {
        (Some(x), Some(y)) => *x == *y,
        (None, None) => true,
        _ => false,
    }
}

impl ServiceConfig {
    /// The settings in which `new` differs from the running configuration and
    /// that only a restart applies, so that an operator can be told.
    pub fn warn_about_unreloadable_changes(&self, new: &ServiceConfig) -> (res: Vec<FixedSetting>)
        ensures
            res@ == fixed_changes(*self, *new),
    {
        let mut out: Vec<FixedSetting> = Vec::new();
        if self.listen_addr != new.listen_addr {
            out.push(FixedSetting::ListenAddr);
        }
        if !same_addr(&self.metrics_addr, &new.metrics_addr) {
            out.push(FixedSetting::MetricsAddr);
        }
        if *self.tls_min_version.as_str() != *new.tls_min_version.as_str() {
            out.push(FixedSetting::TlsMinVersion);
        }
        if self.max_connections != new.max_connections {
            out.push(FixedSetting::MaxConnections);
        }
        if *self.static_dir.as_str() != *new.static_dir.as_str() {
            out.push(FixedSetting::StaticDir);
        }
        proof {
            assert(out@ =~= fixed_changes(*self, *new));
        }
        out
    }

    /// What the process runs with after taking over `new`: the fixed settings
    /// stay as they are.
    pub fn reloaded(&self, new: ServiceConfig) -> (res: ServiceConfig)
        ensures
            fixed_settings_kept(*self, new, res),
    {
        ServiceConfig {
            listen_addr: self.listen_addr,
            routes: new.routes,
            tls_cert_path: new.tls_cert_path,
            tls_key_path: new.tls_key_path,
            static_dir: self.static_dir.clone(),
            server_header: new.server_header,
            handshake_timeout_secs: new.handshake_timeout_secs,
            tls_min_version: self.tls_min_version.clone(),
            metrics_addr: self.metrics_addr,
            max_connections: self.max_connections,
            max_connections_per_ip: new.max_connections_per_ip,
            connection_rate_per_ip: new.connection_rate_per_ip,
            connection_burst_per_ip: new.connection_burst_per_ip,
        }
    }
}

// ---------------------------------------------------------------------
// Laws
// ---------------------------------------------------------------------

proof fn lemma_no_route_refused(routes: Seq<ProxyTarget>, ports: Seq<Option<u16>>, n: int, i: int)
    requires
        0 <= i < n,
        routes_error(routes, ports, n) is None,
    ensures
        route_error(routes, ports, i) is None,
    decreases n,
{
    if i < n - 1 {
        lemma_no_route_refused(routes, ports, n - 1, i);
    }
}

/// In a configuration that is accepted every route has a server name, no two
/// have the same, and every upstream has the shape `host:port`.
pub proof fn law_accepted_routes_are_sound(cfg: ServiceConfig, facts: ConfigFacts)
    requires
        config_error(cfg, facts) is None,
    ensures
        forall|i: int|
            0 <= i < cfg.routes@.len() ==> {
                &&& !text::blank((#[trigger] cfg.routes@[i]).sni@)
                &&& !text::blank(cfg.routes@[i].upstream@)
                &&& upstream_error(cfg.routes@[i].upstream@, facts.literal_ports@[i]) is None
            },
        forall|i: int, j: int|
            0 <= i < j < cfg.routes@.len() ==> (#[trigger] cfg.routes@[i]).sni@ != (
            #[trigger] cfg.routes@[j]).sni@,
{
    let routes = cfg.routes@;
    let ports = facts.literal_ports@;
    let n = routes.len() as int;
    assert forall|i: int| 0 <= i < routes.len() implies {
        &&& !text::blank((#[trigger] routes[i]).sni@)
        &&& !text::blank(routes[i].upstream@)
        &&& upstream_error(routes[i].upstream@, ports[i]) is None
    } by {
        lemma_no_route_refused(routes, ports, n, i);
    }
    assert forall|i: int, j: int| 0 <= i < j < routes.len() implies (#[trigger] routes[i]).sni@ != (
    #[trigger] routes[j]).sni@ by {
        lemma_no_route_refused(routes, ports, n, j);
        if routes[i].sni@ == routes[j].sni@ {
            assert(sni_taken(routes, j));
        }
    }
}

/// The metrics API of an accepted configuration is on a loopback address.
pub proof fn law_accepted_metrics_addr_is_loopback(cfg: ServiceConfig, facts: ConfigFacts)
    requires
        config_error(cfg, facts) is None,
    ensures
        cfg.metrics_addr matches Some(addr) ==> addr.ip.loopback(),
{
}

/// An upstream that is no literal address is never accepted with a scheme or
/// with white space, without a port, or with a slash at its end.
pub proof fn law_bad_upstream_is_refused(s: Seq<char>)
    ensures
        has_scheme(s) ==> upstream_error(s, None) is Some,
        has_white_space(s) ==> upstream_error(s, None) is Some,
        !s.contains(':') ==> upstream_error(s, None) is Some,
        s.len() > 0 && s.last() == '/' ==> upstream_error(s, None) is Some,
{
    if !s.contains(':') {
        lemma_last_place(s, ':');
    }
    if s.len() > 0 && s.last() == '/' {
        lemma_last_place(s, ':');
        if let Some(i) = text::last_place(s, ':') {
            let port = s.skip(i + 1);
            assert(port.last() == '/');
            lemma_odd_last_digit(port);
        }
    }
}

proof fn lemma_last_place(s: Seq<char>, c: char)
    ensures
        match text::last_place(s, c) {
            Some(i) => 0 <= i < s.len() && s[i] == c && forall|j: int|
                i < j < s.len() ==> #[trigger] s[j] != c,
            None => !s.contains(c),
        },
    decreases s.len(),
{
    if s.len() > 0 && s.last() != c {
        lemma_last_place(s.drop_last(), c);
        assert forall|j: int| 0 <= j < s.len() && s[j] == c implies s.drop_last().contains(c) by {
            assert(s.drop_last()[j] == c);
        }
        if let Some(i) = text::last_place(s, c) {
            assert forall|j: int| i < j < s.len() implies #[trigger] s[j] != c by {
                if j < s.len() - 1 {
                    assert(s.drop_last()[j] == s[j]);
                }
            }
        }
    }
}

proof fn lemma_odd_last_digit(port: Seq<char>)
    requires
        port.len() > 0,
        port.last() == '/',
    ensures
        text::parsed_number(port, 65535) is None,
{
    let body = if port[0] == '+' {
        port.skip(1)
    } else {
        port
    };
    if body.len() > 0 {
        assert(body.last() == port.last());
        assert(text::digits_value(body) is None);
    }
}

/// An environment that gives nothing changes nothing.
pub proof fn law_empty_environment_changes_nothing(cfg: ServiceConfig, env: EnvOverrides)
    requires
        env.listen_addr is None,
        env.tls_cert_path is None,
        env.tls_key_path is None,
        env.static_dir is None,
        env.server_header is None,
        env.handshake_timeout_secs is None,
        env.tls_min_version is None,
        env.metrics_addr is None,
        env.max_connections is None,
        env.max_connections_per_ip is None,
        env.connection_rate_per_ip is None,
        env.connection_burst_per_ip is None,
    ensures
        overridden(cfg, env) == cfg,
{
}

/// After a reload nothing that only a restart applies has changed, so the
/// same change is reported again by the next reload.
pub proof fn law_reload_keeps_fixed_settings(
    running: ServiceConfig,
    new: ServiceConfig,
    res: ServiceConfig,
)
    requires
        fixed_settings_kept(running, new, res),
    ensures
        fixed_changes(running, res) == Seq::<FixedSetting>::empty(),
        fixed_changes(res, new) == fixed_changes(running, new),
{
    assert(fixed_changes(running, res) =~= Seq::<FixedSetting>::empty());
}

/// What the environment gives takes the place of what the file says, whatever
/// that is: a text, an address or a rate as it is, and a number if it reads as
/// one that fits. What it does not give stays as the file has it.
pub proof fn law_environment_overrides_the_file(cfg: ServiceConfig, env: EnvOverrides)
    ensures
        overridden(cfg, env).routes == cfg.routes,
        env.listen_addr matches Some(given) ==> overridden(cfg, env).listen_addr == given,
        env.listen_addr is None ==> overridden(cfg, env).listen_addr == cfg.listen_addr,
        env.tls_cert_path matches Some(given) ==> overridden(cfg, env).tls_cert_path == given,
        env.tls_cert_path is None ==> overridden(cfg, env).tls_cert_path == cfg.tls_cert_path,
        env.tls_key_path matches Some(given) ==> overridden(cfg, env).tls_key_path == given,
        env.tls_key_path is None ==> overridden(cfg, env).tls_key_path == cfg.tls_key_path,
        env.static_dir matches Some(given) ==> overridden(cfg, env).static_dir == given,
        env.static_dir is None ==> overridden(cfg, env).static_dir == cfg.static_dir,
        env.server_header matches Some(given) ==> overridden(cfg, env).server_header == given,
        env.server_header is None ==> overridden(cfg, env).server_header == cfg.server_header,
        env.tls_min_version matches Some(given) ==> overridden(cfg, env).tls_min_version == given,
        env.tls_min_version is None ==> overridden(cfg, env).tls_min_version == cfg.tls_min_version,
        env.metrics_addr matches Some(given) ==> overridden(cfg, env).metrics_addr == Some(given),
        env.metrics_addr is None ==> overridden(cfg, env).metrics_addr == cfg.metrics_addr,
        env.connection_rate_per_ip matches Some(given) ==> overridden(cfg, env).connection_rate_per_ip == Some(given),
        env.connection_rate_per_ip is None ==> overridden(cfg, env).connection_rate_per_ip == cfg.connection_rate_per_ip,
        env.handshake_timeout_secs matches Some(given) ==> (text::parsed_number(
            given@,
            u64::MAX as nat,
        ) matches Some(n) ==> overridden(cfg, env).handshake_timeout_secs == n),
        env.handshake_timeout_secs matches Some(given) ==> (text::parsed_number(
            given@,
            u64::MAX as nat,
        ) is None ==> overridden(cfg, env).handshake_timeout_secs == cfg.handshake_timeout_secs),
        env.handshake_timeout_secs is None ==> overridden(cfg, env).handshake_timeout_secs == cfg.handshake_timeout_secs,
        env.max_connections matches Some(given) ==> (text::parsed_number(
            given@,
            usize::MAX as nat,
        ) matches Some(n) ==> overridden(cfg, env).max_connections == n),
        env.max_connections matches Some(given) ==> (text::parsed_number(
            given@,
            usize::MAX as nat,
        ) is None ==> overridden(cfg, env).max_connections == cfg.max_connections),
        env.max_connections is None ==> overridden(cfg, env).max_connections == cfg.max_connections,
        env.max_connections_per_ip matches Some(given) ==> (text::parsed_number(
            given@,
            usize::MAX as nat,
        ) matches Some(n) ==> overridden(cfg, env).max_connections_per_ip == Some(n as usize)),
        env.max_connections_per_ip matches Some(given) ==> (text::parsed_number(
            given@,
            usize::MAX as nat,
        ) is None ==> overridden(cfg, env).max_connections_per_ip == cfg.max_connections_per_ip),
        env.max_connections_per_ip is None ==> overridden(cfg, env).max_connections_per_ip == cfg.max_connections_per_ip,
        env.connection_burst_per_ip matches Some(given) ==> (text::parsed_number(
            given@,
            u64::MAX as nat,
        ) matches Some(n) ==> overridden(cfg, env).connection_burst_per_ip == Some(n as u64)),
        env.connection_burst_per_ip matches Some(given) ==> (text::parsed_number(
            given@,
            u64::MAX as nat,
        ) is None ==> overridden(cfg, env).connection_burst_per_ip == cfg.connection_burst_per_ip),
        env.connection_burst_per_ip is None ==> overridden(cfg, env).connection_burst_per_ip == cfg.connection_burst_per_ip,
{
}

/// A number that the environment gives in decimal is the number that is used,
/// whatever the file says.
pub proof fn law_numbers_in_the_environment_are_used(
    cfg: ServiceConfig,
    env: EnvOverrides,
    n: nat,
)
    ensures
        n <= u64::MAX && (env.handshake_timeout_secs matches Some(given) && given@ == text::decimal(n))
            ==> overridden(cfg, env).handshake_timeout_secs == n,
        n <= usize::MAX && (env.max_connections matches Some(given) && given@ == text::decimal(n))
            ==> overridden(cfg, env).max_connections == n,
        n <= usize::MAX && (env.max_connections_per_ip matches Some(given) && given@ == text::decimal(n))
            ==> overridden(cfg, env).max_connections_per_ip == Some(n as usize),
        n <= u64::MAX && (env.connection_burst_per_ip matches Some(given) && given@ == text::decimal(n))
            ==> overridden(cfg, env).connection_burst_per_ip == Some(n as u64),
{
    text::law_decimal_reads_back(n, u64::MAX as nat);
    text::law_decimal_reads_back(n, usize::MAX as nat);
}

/// Looking up a variable finds the first of that name, and nothing where there
/// is none.
pub proof fn law_variables_are_found_by_name(
    vars: Seq<(Seq<char>, Seq<char>)>,
    name: Seq<char>,
    i: int,
)
    ensures
        0 <= i < vars.len() && vars[i].0 == name && (forall|j: int|
            0 <= j < i ==> (#[trigger] vars[j]).0 != name) ==> variable(vars, name) == Some(
            vars[i].1,
        ),
        (forall|j: int| 0 <= j < vars.len() ==> (#[trigger] vars[j]).0 != name) ==> variable(
            vars,
            name,
        ) is None,
    decreases vars.len(),
{
    if vars.len() > 0 && vars[0].0 != name {
        let rest = vars.skip(1);
        law_variables_are_found_by_name(rest, name, i - 1);
        if 0 <= i < vars.len() && vars[i].0 == name && (forall|j: int|
            0 <= j < i ==> (#[trigger] vars[j]).0 != name) {
            assert(rest[i - 1] == vars[i]);
            assert forall|j: int| 0 <= j < i - 1 implies (#[trigger] rest[j]).0 != name by {
                assert(rest[j] == vars[j + 1]);
            }
        }
        if forall|j: int| 0 <= j < vars.len() ==> (#[trigger] vars[j]).0 != name {
            assert forall|j: int| 0 <= j < rest.len() implies (#[trigger] rest[j]).0 != name by {
                assert(rest[j] == vars[j + 1]);
            }
        }
    }
}

/// Each field has its variable.
pub proof fn law_each_field_has_its_variable(vars: Seq<(Seq<char>, Seq<char>)>)
    ensures
        env_texts(vars).listen_addr == variable(vars, "REPROX_LISTEN_ADDR"@),
        env_texts(vars).tls_cert_path == variable(vars, "REPROX_TLS_CERT_PATH"@),
        env_texts(vars).tls_key_path == variable(vars, "REPROX_TLS_KEY_PATH"@),
        env_texts(vars).static_dir == variable(vars, "REPROX_STATIC_DIR"@),
        env_texts(vars).server_header == variable(vars, "REPROX_SERVER_HEADER"@),
        env_texts(vars).handshake_timeout_secs == variable(vars, "REPROX_HANDSHAKE_TIMEOUT_SECS"@),
        env_texts(vars).tls_min_version == variable(vars, "REPROX_TLS_MIN_VERSION"@),
        env_texts(vars).metrics_addr == variable(vars, "REPROX_METRICS_ADDR"@),
        env_texts(vars).max_connections == variable(vars, "REPROX_MAX_CONNECTIONS"@),
        env_texts(vars).max_connections_per_ip == variable(vars, "REPROX_MAX_CONNECTIONS_PER_IP"@),
        env_texts(vars).connection_rate_per_ip == variable(vars, "REPROX_CONNECTION_RATE_PER_IP"@),
        env_texts(vars).connection_burst_per_ip == variable(vars, "REPROX_CONNECTION_BURST_PER_IP"@),
{
}

/// The views of variables and texts show what they are.
pub proof fn law_texts_are_shown_as_they_are(
    texts: EnvTexts,
    vars: Seq<(String, String)>,
    given: Option<String>,
)
    ensures
        texts.listen_addr matches Some(s) ==> texts@.listen_addr == Some(s@),
        texts.listen_addr is None ==> texts@.listen_addr is None,
        texts.tls_cert_path matches Some(s) ==> texts@.tls_cert_path == Some(s@),
        texts.tls_cert_path is None ==> texts@.tls_cert_path is None,
        texts.tls_key_path matches Some(s) ==> texts@.tls_key_path == Some(s@),
        texts.tls_key_path is None ==> texts@.tls_key_path is None,
        texts.static_dir matches Some(s) ==> texts@.static_dir == Some(s@),
        texts.static_dir is None ==> texts@.static_dir is None,
        texts.server_header matches Some(s) ==> texts@.server_header == Some(s@),
        texts.server_header is None ==> texts@.server_header is None,
        texts.handshake_timeout_secs matches Some(s) ==> texts@.handshake_timeout_secs == Some(s@),
        texts.handshake_timeout_secs is None ==> texts@.handshake_timeout_secs is None,
        texts.tls_min_version matches Some(s) ==> texts@.tls_min_version == Some(s@),
        texts.tls_min_version is None ==> texts@.tls_min_version is None,
        texts.metrics_addr matches Some(s) ==> texts@.metrics_addr == Some(s@),
        texts.metrics_addr is None ==> texts@.metrics_addr is None,
        texts.max_connections matches Some(s) ==> texts@.max_connections == Some(s@),
        texts.max_connections is None ==> texts@.max_connections is None,
        texts.max_connections_per_ip matches Some(s) ==> texts@.max_connections_per_ip == Some(s@),
        texts.max_connections_per_ip is None ==> texts@.max_connections_per_ip is None,
        texts.connection_rate_per_ip matches Some(s) ==> texts@.connection_rate_per_ip == Some(s@),
        texts.connection_rate_per_ip is None ==> texts@.connection_rate_per_ip is None,
        texts.connection_burst_per_ip matches Some(s) ==> texts@.connection_burst_per_ip == Some(s@),
        texts.connection_burst_per_ip is None ==> texts@.connection_burst_per_ip is None,
        variables_view(vars).len() == vars.len(),
        forall|i: int|
            0 <= i < vars.len() ==> (#[trigger] variables_view(vars)[i]).0 == vars[i].0@
                && variables_view(vars)[i].1 == vars[i].1@,
        given matches Some(s) ==> text_view(given) == Some(s@),
        given is None ==> text_view(given) is None,
{
}

/// Preparing the routes touches nothing but their server names, which are put
/// into the form in which host names are compared; none is lost or moved.
pub proof fn law_prepared_routes(before: Seq<ProxyTarget>, after: Seq<ProxyTarget>, i: int)
    requires
        routes_normalized(before, after),
        0 <= i < before.len(),
    ensures
        after.len() == before.len(),
        after[i].sni@ == text::normalize_host(before[i].sni@),
        after[i].upstream@ == before[i].upstream@,
        after[i].tls_passthrough == before[i].tls_passthrough,
{
    assert(after[i].sni@ == text::normalize_host(before[i].sni@));
}

/// The limits per client are those configured; without one there is no limit,
/// and ten connections make a burst.
pub proof fn law_limits_are_those_configured(cfg: ServiceConfig)
    ensures
        cfg.max_connections_per_ip matches Some(n) ==> cfg.per_ip_limit() == n,
        cfg.max_connections_per_ip is None ==> cfg.per_ip_limit() == 0,
        cfg.connection_rate_per_ip matches Some(ConnectionRate::PerSecond(rate))
            ==> cfg.per_ip_rate() == rate,
        !(cfg.connection_rate_per_ip matches Some(rate) && rate is PerSecond)
            ==> cfg.per_ip_rate().digits == 0,
        cfg.connection_burst_per_ip matches Some(n) ==> cfg.per_ip_burst() == n,
        cfg.connection_burst_per_ip is None ==> cfg.per_ip_burst() == 10,
{
}

/// An upstream is accepted if it is a literal address with a port that is not
/// zero, or a host name of ASCII letters, digits, dots, dashes and underscores
/// with a port from 1 to 65535 behind a colon.
pub proof fn law_upstreams_that_are_accepted(
    s: Seq<char>,
    host: Seq<char>,
    port: Seq<char>,
    n: nat,
    literal: u16,
)
    ensures
        literal != 0 ==> upstream_error(s, Some(literal)) is None,
        upstream_error(s, Some(0u16)) == upstream_error(s, None),
        host.len() > 0 && (forall|i: int| 0 <= i < host.len() ==> (48 <= #[trigger] host[i] as int <= 57 || 65 <= host[i] as int <= 90 || 97 <= host[i] as int <= 122 || host[i] == '.' || host[i] == '-' || host[i] == '_'))
            && n > 0 && text::parsed_number(port, 65535) == Some(n) ==> upstream_error(
            host + seq![':'] + port,
            None,
        ) is None,
{
    let whole = host + seq![':'] + port;
    if host.len() > 0 && (forall|i: int| 0 <= i < host.len() ==> host_char(#[trigger] host[i])) && n
        > 0 && text::parsed_number(port, 65535) == Some(n) {
        text::law_reading_numbers(port, n, 0, 65535);
        assert forall|i: int| 0 <= i < port.len() implies (48 <= #[trigger] port[i] as int <= 57
            || port[i] as int == 43) by {}
        assert(!port.contains(':'));
        text::law_last_place(host, ':', port);
        assert(whole.take(host.len() as int) =~= host);
        assert(whole.skip(host.len() as int + 1) =~= port);
        assert forall|i: int| 0 <= i < whole.len() implies #[trigger] whole[i] != '/'
            && !text::white_space(whole[i]) by {
            if i < host.len() {
                assert(whole[i] == host[i]);
                assert(host_char(host[i]));
            } else if i > host.len() {
                assert(whole[i] == port[i - host.len() - 1]);
            }
        }
        assert forall|i: int| !scheme_at(whole, i) by {
            if scheme_at(whole, i) {
                assert(whole[i + 1] == '/');
            }
        }
        assert(!host.contains('/')) by {
            if host.contains('/') {
                let i = choose|i: int| 0 <= i < host.len() && host[i] == '/';
                assert(host_char(host[i]));
            }
        }
    }
}

/// Why an upstream that is no literal address is refused, the first reason in
/// order: it has a scheme, it has white space, it has no colon; and by what
/// stands before and after its last colon, it has no host, a path, a character
/// that is not one of a host name, or no port from 1 to 65535.
pub proof fn law_why_upstreams_are_refused(s: Seq<char>, host: Seq<char>, port: Seq<char>)
    ensures
        (exists|i: int| 0 <= i < s.len() - 2 && #[trigger] s[i] == ':' && s[i + 1] == '/' && s[i + 2] == '/') <==> upstream_error(s, None) == Some(UpstreamError::HasScheme),
        !(exists|i: int| 0 <= i < s.len() - 2 && #[trigger] s[i] == ':' && s[i + 1] == '/' && s[i + 2] == '/') ==> ((exists|i: int| 0 <= i < s.len() && text::white_space(#[trigger] s[i])) <==> upstream_error(s, None) == Some(UpstreamError::HasWhitespace)),
        !(exists|i: int| 0 <= i < s.len() - 2 && #[trigger] s[i] == ':' && s[i + 1] == '/' && s[i + 2] == '/') && !(exists|i: int| 0 <= i < s.len() && text::white_space(#[trigger] s[i])) ==> (!s.contains(':') <==> upstream_error(s, None) == Some(
            UpstreamError::MissingPort,
        )),
        !(exists|i: int| 0 <= i < s.len() - 2 && #[trigger] s[i] == ':' && s[i + 1] == '/' && s[i + 2] == '/') && !(exists|i: int| 0 <= i < s.len() && text::white_space(#[trigger] s[i])) && s == host + seq![':'] + port && !port.contains(':') ==> {
            let odd = exists|i: int| 0 <= i < host.len() && !(48 <= #[trigger] host[i] as int <= 57 || 65 <= host[i] as int <= 90 || 97 <= host[i] as int <= 122 || host[i] == '.' || host[i] == '-' || host[i] == '_');
            upstream_error(s, None) == (if host.len() == 0 {
                Some(UpstreamError::EmptyHost)
            } else if host.contains('/') {
                Some(UpstreamError::HasPath)
            } else if odd {
                Some(UpstreamError::InvalidHost)
            } else if text::parsed_number(port, 65535) is None {
                Some(UpstreamError::InvalidPort)
            } else if text::parsed_number(port, 65535) == Some(0nat) {
                Some(UpstreamError::ZeroPort)
            } else {
                None
            })
        },
{
    if (exists|i: int| 0 <= i < s.len() - 2 && #[trigger] s[i] == ':' && s[i + 1] == '/' && s[i + 2] == '/') {
        let i = choose|i: int| 0 <= i < s.len() - 2 && #[trigger] s[i] == ':' && s[i + 1] == '/' && s[i + 2] == '/';
        assert(scheme_at(s, i));
    }
    if has_scheme(s) {
        let i = choose|i: int| scheme_at(s, i);
        assert(s[i] == ':');
    }
    lemma_last_place(s, ':');
    if let Some(i) = text::last_place(s, ':') {
        assert(s.contains(s[i]));
    }
    if s == host + seq![':'] + port && !port.contains(':') {
        text::law_last_place(host, ':', port);
        assert(s.take(host.len() as int) =~= host);
        assert(s.skip(host.len() as int + 1) =~= port);
        if exists|i: int| 0 <= i < host.len() && !host_char(#[trigger] host[i]) {
            let i = choose|i: int| 0 <= i < host.len() && !host_char(#[trigger] host[i]);
            assert(!host_char(host[i]));
        }
        assert forall|i: int| 0 <= i < host.len() && !(48 <= #[trigger] host[i] as int <= 57 || 65 <= host[i] as int <= 90 || 97 <= host[i] as int <= 122 || host[i] == '.' || host[i] == '-' || host[i] == '_') implies !host_char(host[i]) by {}
    }
}

/// A configuration is accepted exactly if every route has a server name of its
/// own and an upstream that can be one, and no setting is out of bounds.
pub proof fn law_which_configurations_are_accepted(cfg: ServiceConfig, facts: ConfigFacts)
    ensures
        config_error(cfg, facts) is None <==> {
            &&& forall|i: int|
                0 <= i < cfg.routes@.len() ==> {
                    let target = #[trigger] cfg.routes@[i];
                    &&& (exists|k: int| 0 <= k < target.sni@.len() && !text::white_space(#[trigger] target.sni@[k]))
                    &&& (exists|k: int| 0 <= k < target.upstream@.len() && !text::white_space(#[trigger] target.upstream@[k]))
                    &&& upstream_error(target.upstream@, facts.literal_ports@[i]) is None
                    &&& forall|j: int|
                        0 <= j < i ==> (#[trigger] cfg.routes@[j]).sni@ != target.sni@
                }
            &&& !(cfg.handshake_timeout_secs == 0) && !(!facts.cert_is_file) && !(!facts.key_is_file) && !(!facts.static_dir_is_dir) && !((cfg.tls_min_version@ != "1.2"@ && cfg.tls_min_version@ != "1.3"@)) && !((cfg.metrics_addr matches Some(addr) && !addr.ip.loopback())) && !(cfg.max_connections == 0) && !((cfg.connection_rate_per_ip matches Some(rate) && rate !is PerSecond)) && !(cfg.connection_burst_per_ip == Some(0u64))
        },
{
    let routes = cfg.routes@;
    let ports = facts.literal_ports@;
    let n = routes.len() as int;
    if routes_error(routes, ports, n) is None {
        assert forall|i: int| 0 <= i < n implies {
            let target = #[trigger] routes[i];
            &&& (exists|k: int| 0 <= k < target.sni@.len() && !text::white_space(#[trigger] target.sni@[k]))
            &&& (exists|k: int| 0 <= k < target.upstream@.len() && !text::white_space(#[trigger] target.upstream@[k]))
            &&& upstream_error(target.upstream@, ports[i]) is None
            &&& forall|j: int| 0 <= j < i ==> (#[trigger] routes[j]).sni@ != target.sni@
        } by {
            lemma_no_route_refused(routes, ports, n, i);
            assert(!sni_taken(routes, i));
        }
    } else {
        let i = lemma_some_route_refused(routes, ports, n);
        let target = routes[i];
        if sni_taken(routes, i) {
            let j = choose|j: int| 0 <= j < i && (#[trigger] routes[j]).sni@ == routes[i].sni@;
            assert(routes[j].sni@ == target.sni@);
        }
    }
}

proof fn lemma_some_route_refused(
    routes: Seq<ProxyTarget>,
    ports: Seq<Option<u16>>,
    n: int,
) -> (i: int)
    requires
        routes_error(routes, ports, n) is Some,
    ensures
        0 <= i < n,
        route_error(routes, ports, i) is Some,
    decreases n,
{
    if routes_error(routes, ports, n - 1) is Some {
        lemma_some_route_refused(routes, ports, n - 1)
    } else {
        n - 1
    }
}

/// Each reason to refuse the settings stands for a fault that is there, where
/// no fault earlier in order is.
pub proof fn law_each_reason_is_a_fault(cfg: ServiceConfig, facts: ConfigFacts)
    ensures
        config_error(cfg, facts) == Some(ConfigError::ZeroHandshakeTimeout) ==> cfg.handshake_timeout_secs == 0,
        config_error(cfg, facts) == Some(ConfigError::CertNotFound) ==> !facts.cert_is_file && !(cfg.handshake_timeout_secs == 0),
        config_error(cfg, facts) == Some(ConfigError::KeyNotFound) ==> !facts.key_is_file && !(cfg.handshake_timeout_secs == 0) && !(!facts.cert_is_file),
        config_error(cfg, facts) == Some(ConfigError::StaticDirNotFound) ==> !facts.static_dir_is_dir && !(cfg.handshake_timeout_secs == 0) && !(!facts.cert_is_file) && !(!facts.key_is_file),
        config_error(cfg, facts) == Some(ConfigError::UnknownTlsVersion) ==> (cfg.tls_min_version@ != "1.2"@ && cfg.tls_min_version@ != "1.3"@) && !(cfg.handshake_timeout_secs == 0) && !(!facts.cert_is_file) && !(!facts.key_is_file) && !(!facts.static_dir_is_dir),
        config_error(cfg, facts) == Some(ConfigError::MetricsAddrNotLoopback) ==> (cfg.metrics_addr matches Some(addr) && !addr.ip.loopback()) && !(cfg.handshake_timeout_secs == 0) && !(!facts.cert_is_file) && !(!facts.key_is_file) && !(!facts.static_dir_is_dir) && !((cfg.tls_min_version@ != "1.2"@ && cfg.tls_min_version@ != "1.3"@)),
        config_error(cfg, facts) == Some(ConfigError::ZeroMaxConnections) ==> cfg.max_connections == 0 && !(cfg.handshake_timeout_secs == 0) && !(!facts.cert_is_file) && !(!facts.key_is_file) && !(!facts.static_dir_is_dir) && !((cfg.tls_min_version@ != "1.2"@ && cfg.tls_min_version@ != "1.3"@)) && !((cfg.metrics_addr matches Some(addr) && !addr.ip.loopback())),
        config_error(cfg, facts) == Some(ConfigError::InvalidRate) ==> (cfg.connection_rate_per_ip matches Some(rate) && rate !is PerSecond) && !(cfg.handshake_timeout_secs == 0) && !(!facts.cert_is_file) && !(!facts.key_is_file) && !(!facts.static_dir_is_dir) && !((cfg.tls_min_version@ != "1.2"@ && cfg.tls_min_version@ != "1.3"@)) && !((cfg.metrics_addr matches Some(addr) && !addr.ip.loopback())) && !(cfg.max_connections == 0),
        config_error(cfg, facts) == Some(ConfigError::ZeroBurst) ==> cfg.connection_burst_per_ip == Some(0u64) && !(cfg.handshake_timeout_secs == 0) && !(!facts.cert_is_file) && !(!facts.key_is_file) && !(!facts.static_dir_is_dir) && !((cfg.tls_min_version@ != "1.2"@ && cfg.tls_min_version@ != "1.3"@)) && !((cfg.metrics_addr matches Some(addr) && !addr.ip.loopback())) && !(cfg.max_connections == 0) && !((cfg.connection_rate_per_ip matches Some(rate) && rate !is PerSecond)),
{
    lemma_route_errors(cfg.routes@, facts.literal_ports@, cfg.routes@.len() as int);
}

proof fn lemma_route_errors(routes: Seq<ProxyTarget>, ports: Seq<Option<u16>>, n: int)
    ensures
        routes_error(routes, ports, n) matches Some(e) ==> e is EmptyRoute || e is DuplicateSni || e
            is InvalidUpstream,
    decreases n,
{
    if n > 0 {
        lemma_route_errors(routes, ports, n - 1);
    }
}

/// The first route with a fault decides, before any setting: a name or an
/// upstream with nothing but white space, then a name that an earlier route
/// has, then the upstream.
pub proof fn law_first_refused_route_decides(cfg: ServiceConfig, facts: ConfigFacts, i: int)
    requires
        0 <= i < cfg.routes@.len() <= usize::MAX,
        forall|k: int|
            0 <= k < i ==> {
                let target = #[trigger] cfg.routes@[k];
                &&& (exists|k: int| 0 <= k < target.sni@.len() && !text::white_space(#[trigger] target.sni@[k]))
                &&& (exists|k: int| 0 <= k < target.upstream@.len() && !text::white_space(#[trigger] target.upstream@[k]))
                &&& upstream_error(target.upstream@, facts.literal_ports@[k]) is None
                &&& forall|j: int| 0 <= j < k ==> (#[trigger] cfg.routes@[j]).sni@ != target.sni@
            },
    ensures
        ({
            let target = cfg.routes@[i];
            let filled = (exists|k: int| 0 <= k < target.sni@.len() && !text::white_space(#[trigger] target.sni@[k])) && (exists|k: int| 0 <= k < target.upstream@.len() && !text::white_space(#[trigger] target.upstream@[k]));
            let taken = exists|j: int|
                0 <= j < i && (#[trigger] cfg.routes@[j]).sni@ == target.sni@;
            &&& !filled ==> config_error(cfg, facts) == Some(ConfigError::EmptyRoute)
            &&& filled && taken ==> config_error(cfg, facts) == Some(
                ConfigError::DuplicateSni(i as usize),
            )
            &&& filled && !taken ==> (upstream_error(
                target.upstream@,
                facts.literal_ports@[i],
            ) matches Some(e) ==> config_error(cfg, facts) == Some(
                ConfigError::InvalidUpstream(i as usize, e),
            ))
        }),
{
    let routes = cfg.routes@;
    let ports = facts.literal_ports@;
    lemma_no_error_before(routes, ports, i);
    if route_error(routes, ports, i) is Some {
        lemma_first_error_stays(routes, ports, i + 1, routes.len() as int);
    }
}

proof fn lemma_no_error_before(routes: Seq<ProxyTarget>, ports: Seq<Option<u16>>, n: int)
    requires
        forall|k: int|
            0 <= k < n ==> {
                let target = #[trigger] routes[k];
                &&& (exists|k: int| 0 <= k < target.sni@.len() && !text::white_space(#[trigger] target.sni@[k]))
                &&& (exists|k: int| 0 <= k < target.upstream@.len() && !text::white_space(#[trigger] target.upstream@[k]))
                &&& upstream_error(target.upstream@, ports[k]) is None
                &&& forall|j: int| 0 <= j < k ==> (#[trigger] routes[j]).sni@ != target.sni@
            },
    ensures
        routes_error(routes, ports, n) is None,
    decreases n,
{
    if n > 0 {
        lemma_no_error_before(routes, ports, n - 1);
        let target = routes[n - 1];
        assert(!sni_taken(routes, n - 1));
    }
}

/// A fixed setting is reported exactly if it differs.
pub proof fn law_fixed_changes_are_reported(running: ServiceConfig, new: ServiceConfig)
    ensures
        fixed_changes(running, new).contains(FixedSetting::ListenAddr) <==> running.listen_addr
            != new.listen_addr,
        fixed_changes(running, new).contains(FixedSetting::MetricsAddr) <==> running.metrics_addr
            != new.metrics_addr,
        fixed_changes(running, new).contains(FixedSetting::TlsMinVersion)
            <==> running.tls_min_version@ != new.tls_min_version@,
        fixed_changes(running, new).contains(FixedSetting::MaxConnections)
            <==> running.max_connections != new.max_connections,
        fixed_changes(running, new).contains(FixedSetting::StaticDir) <==> running.static_dir@
            != new.static_dir@,
{
    let a = listed_if(running.listen_addr != new.listen_addr, FixedSetting::ListenAddr);
    let metrics = running.metrics_addr != new.metrics_addr;
    let version = running.tls_min_version@ != new.tls_min_version@;
    let cap = running.max_connections != new.max_connections;
    let dir = running.static_dir@ != new.static_dir@;
    let b = a + listed_if(metrics, FixedSetting::MetricsAddr);
    let c = b + listed_if(version, FixedSetting::TlsMinVersion);
    let d = c + listed_if(cap, FixedSetting::MaxConnections);
    lemma_listed(Seq::empty(), running.listen_addr != new.listen_addr, FixedSetting::ListenAddr);
    assert(Seq::<FixedSetting>::empty() + a =~= a);
    lemma_listed(a, metrics, FixedSetting::MetricsAddr);
    lemma_listed(b, version, FixedSetting::TlsMinVersion);
    lemma_listed(c, cap, FixedSetting::MaxConnections);
    lemma_listed(d, dir, FixedSetting::StaticDir);
}

proof fn lemma_listed(list: Seq<FixedSetting>, changed: bool, setting: FixedSetting)
    ensures
        forall|t: FixedSetting| #[trigger]
            (list + listed_if(changed, setting)).contains(t) <==> list.contains(t) || (changed && t
                == setting),
{
    let all = list + listed_if(changed, setting);
    assert forall|t: FixedSetting| #[trigger] all.contains(t) <==> list.contains(t) || (changed && t
        == setting) by {
        if list.contains(t) {
            let i = choose|i: int| 0 <= i < list.len() && list[i] == t;
            assert(all[i] == t);
        }
        if changed && t == setting {
            assert(all[list.len() as int] == t);
        }
        if all.contains(t) {
            let i = choose|i: int| 0 <= i < all.len() && all[i] == t;
            if i < list.len() {
                assert(list[i] == t);
            }
        }
    }
}

/// Taking over a configuration keeps the fixed settings of the running one and
/// takes everything else from the new one.
pub proof fn law_what_a_reload_takes_over(
    running: ServiceConfig,
    new: ServiceConfig,
    res: ServiceConfig,
)
    requires
        fixed_settings_kept(running, new, res),
    ensures
        res.listen_addr == running.listen_addr,
        res.metrics_addr == running.metrics_addr,
        res.tls_min_version@ == running.tls_min_version@,
        res.max_connections == running.max_connections,
        res.static_dir@ == running.static_dir@,
        res.routes@ == new.routes@,
        res.tls_cert_path@ == new.tls_cert_path@,
        res.tls_key_path@ == new.tls_key_path@,
        res.server_header@ == new.server_header@,
        res.handshake_timeout_secs == new.handshake_timeout_secs,
        res.max_connections_per_ip == new.max_connections_per_ip,
        res.connection_rate_per_ip == new.connection_rate_per_ip,
        res.connection_burst_per_ip == new.connection_burst_per_ip,
{
}

} // verus!
