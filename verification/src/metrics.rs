//! What the process counts, and the internal API that shows it.
//!
//! The API answers GET requests on a loopback address: `/metrics` in the
//! Prometheus text format, `/metrics.json` as JSON, and `/healthz`. Anything
//! else is a 404, and any other method a 405.
//!
//! Times are nanoseconds on the monotonic clock of the process.

use crate::config::ServiceConfig;
use crate::net::SocketAddr;
use crate::text;
use vstd::prelude::*;

verus! {

/// Which way a connection went.
#[derive(Clone, Copy, Debug, PartialEq, Eq, Structural)]
pub enum Route {
    Proxied,
    Fallback,
}

/// Stands for one connection that is being served. It is handed back to
/// `Stats::finish` when the connection ends, however it ends.
#[derive(Debug, PartialEq, Eq, Structural)]
pub struct ActiveGuard {
    pub route: Route,
    /// When serving began.
    pub started: u64,
}

/// Every counter and gauge of the process. Counters wrap around.
#[derive(Clone, Copy, Debug, PartialEq, Eq, Structural)]
pub struct Stats {
    /// When the process started.
    pub start: u64,
    // --- connections ---
    /// Connections that occupy a slot right now.
    pub connections: u64,
    pub connections_rejected_ip_limit_total: u64,
    pub connections_rejected_rate_limit_total: u64,
    pub connections_proxied_total: u64,
    pub connections_fallback_total: u64,
    pub connections_proxied_completed_total: u64,
    pub connections_fallback_completed_total: u64,
    pub proxy_connection_duration_ms_total: u64,
    pub fallback_connection_duration_ms_total: u64,
    pub connections_probe_timeout_total: u64,
    pub connections_probe_io_error_total: u64,
    pub connections_closed_early_total: u64,
    pub active_proxied: i64,
    pub active_fallback: i64,
    // --- ClientHello classification ---
    pub sni_present_total: u64,
    pub sni_absent_total: u64,
    pub clienthello_not_tls_total: u64,
    // --- proxying ---
    pub proxy_bytes_client_to_service_total: u64,
    pub proxy_bytes_service_to_client_total: u64,
    pub proxy_service_connect_failures_total: u64,
    pub proxy_service_connect_retries_total: u64,
    // --- TLS of the fallback site ---
    pub fallback_tls_handshake_success_total: u64,
    pub fallback_tls_handshake_failure_total: u64,
    pub fallback_alpn_h2_total: u64,
    pub fallback_alpn_http1_total: u64,
    pub fallback_alpn_none_total: u64,
    // --- TLS of proxied connections ---
    pub proxy_tls_handshake_success_total: u64,
    pub proxy_tls_handshake_failure_total: u64,
    // --- HTTP of the fallback site ---
    pub http_method_get_total: u64,
    pub http_method_head_total: u64,
    pub http_method_options_total: u64,
    pub http_method_other_total: u64,
    pub http_status_200_total: u64,
    pub http_status_204_total: u64,
    pub http_status_304_total: u64,
    pub http_status_404_total: u64,
    pub http_status_405_total: u64,
    pub http_status_other_total: u64,
    pub http_bytes_sent_total: u64,
}

// ---------------------------------------------------------------------
// Connections being served
// ---------------------------------------------------------------------

/// The stats after a connection has begun to be served.
pub open spec fn begun(s: Stats, route: Route) -> Stats {
    match route {
        Route::Proxied => Stats {
            connections_proxied_total: s.connections_proxied_total.wrapping_add(1),
            active_proxied: s.active_proxied.wrapping_add(1),
            ..s
        },
        Route::Fallback => Stats {
            connections_fallback_total: s.connections_fallback_total.wrapping_add(1),
            active_fallback: s.active_fallback.wrapping_add(1),
            ..s
        },
    }
}

/// The stats after a connection has been served for so many milliseconds.
pub open spec fn finished(s: Stats, route: Route, elapsed_ms: u64) -> Stats {
    match route {
        Route::Proxied => Stats {
            active_proxied: s.active_proxied.wrapping_sub(1),
            connections_proxied_completed_total: s.connections_proxied_completed_total.wrapping_add(
                1,
            ),
            proxy_connection_duration_ms_total: s.proxy_connection_duration_ms_total.wrapping_add(
                elapsed_ms,
            ),
            ..s
        },
        Route::Fallback => Stats {
            active_fallback: s.active_fallback.wrapping_sub(1),
            connections_fallback_completed_total:
                s.connections_fallback_completed_total.wrapping_add(1),
            fallback_connection_duration_ms_total:
                s.fallback_connection_duration_ms_total.wrapping_add(elapsed_ms),
            ..s
        },
    }
}

/// From one time to a later one; zero if the second is not later.
pub open spec fn elapsed_nanos(from: u64, to: u64) -> u64 {
    if from <= to {
        (to - from) as u64
    } else {
        0
    }
}

pub fn elapsed(from: u64, to: u64) -> (res: u64)
    ensures
        res == elapsed_nanos(from, to),
{
    if from <= to {
        to - from
    } else {
        0
    }
}

impl Stats {
    /// Everything at zero.
    pub fn new(start: u64) -> (res: Stats)
        ensures
            res == Stats::zero(start),
    {
        Stats {
            start,
            connections: 0,
            connections_rejected_ip_limit_total: 0,
            connections_rejected_rate_limit_total: 0,
            connections_proxied_total: 0,
            connections_fallback_total: 0,
            connections_proxied_completed_total: 0,
            connections_fallback_completed_total: 0,
            proxy_connection_duration_ms_total: 0,
            fallback_connection_duration_ms_total: 0,
            connections_probe_timeout_total: 0,
            connections_probe_io_error_total: 0,
            connections_closed_early_total: 0,
            active_proxied: 0,
            active_fallback: 0,
            sni_present_total: 0,
            sni_absent_total: 0,
            clienthello_not_tls_total: 0,
            proxy_bytes_client_to_service_total: 0,
            proxy_bytes_service_to_client_total: 0,
            proxy_service_connect_failures_total: 0,
            proxy_service_connect_retries_total: 0,
            fallback_tls_handshake_success_total: 0,
            fallback_tls_handshake_failure_total: 0,
            fallback_alpn_h2_total: 0,
            fallback_alpn_http1_total: 0,
            fallback_alpn_none_total: 0,
            proxy_tls_handshake_success_total: 0,
            proxy_tls_handshake_failure_total: 0,
            http_method_get_total: 0,
            http_method_head_total: 0,
            http_method_options_total: 0,
            http_method_other_total: 0,
            http_status_200_total: 0,
            http_status_204_total: 0,
            http_status_304_total: 0,
            http_status_404_total: 0,
            http_status_405_total: 0,
            http_status_other_total: 0,
            http_bytes_sent_total: 0,
        }
    }

    pub open spec fn zero(start: u64) -> Stats {
        Stats {
            start,
            connections: 0,
            connections_rejected_ip_limit_total: 0,
            connections_rejected_rate_limit_total: 0,
            connections_proxied_total: 0,
            connections_fallback_total: 0,
            connections_proxied_completed_total: 0,
            connections_fallback_completed_total: 0,
            proxy_connection_duration_ms_total: 0,
            fallback_connection_duration_ms_total: 0,
            connections_probe_timeout_total: 0,
            connections_probe_io_error_total: 0,
            connections_closed_early_total: 0,
            active_proxied: 0,
            active_fallback: 0,
            sni_present_total: 0,
            sni_absent_total: 0,
            clienthello_not_tls_total: 0,
            proxy_bytes_client_to_service_total: 0,
            proxy_bytes_service_to_client_total: 0,
            proxy_service_connect_failures_total: 0,
            proxy_service_connect_retries_total: 0,
            fallback_tls_handshake_success_total: 0,
            fallback_tls_handshake_failure_total: 0,
            fallback_alpn_h2_total: 0,
            fallback_alpn_http1_total: 0,
            fallback_alpn_none_total: 0,
            proxy_tls_handshake_success_total: 0,
            proxy_tls_handshake_failure_total: 0,
            http_method_get_total: 0,
            http_method_head_total: 0,
            http_method_options_total: 0,
            http_method_other_total: 0,
            http_status_200_total: 0,
            http_status_204_total: 0,
            http_status_304_total: 0,
            http_status_404_total: 0,
            http_status_405_total: 0,
            http_status_other_total: 0,
            http_bytes_sent_total: 0,
        }
    }

    /// A connection begins to be forwarded to a service.
    pub fn begin_proxied(&mut self, now: u64) -> (res: ActiveGuard)
        ensures
            *final(self) == begun(*old(self), Route::Proxied),
            res == (ActiveGuard { route: Route::Proxied, started: now }),
    {
        self.connections_proxied_total = self.connections_proxied_total.wrapping_add(1);
        self.active_proxied = self.active_proxied.wrapping_add(1);
        ActiveGuard { route: Route::Proxied, started: now }
    }

    /// A connection begins to be served by the fallback site.
    pub fn begin_fallback(&mut self, now: u64) -> (res: ActiveGuard)
        ensures
            *final(self) == begun(*old(self), Route::Fallback),
            res == (ActiveGuard { route: Route::Fallback, started: now }),
    {
        self.connections_fallback_total = self.connections_fallback_total.wrapping_add(1);
        self.active_fallback = self.active_fallback.wrapping_add(1);
        ActiveGuard { route: Route::Fallback, started: now }
    }

    /// The connection that the guard stands for has ended.
    pub fn finish(&mut self, guard: ActiveGuard, now: u64)
        ensures
            *final(self) == finished(
                *old(self),
                guard.route,
                elapsed_nanos(guard.started, now) / 1_000_000,
            ),
    {
        let elapsed_ms: u64 = elapsed(guard.started, now) / 1_000_000;
        match guard.route {
            Route::Proxied => {
                self.active_proxied = self.active_proxied.wrapping_sub(1);
                self.connections_proxied_completed_total =
                    self.connections_proxied_completed_total.wrapping_add(1);
                self.proxy_connection_duration_ms_total =
                    self.proxy_connection_duration_ms_total.wrapping_add(elapsed_ms);
            },
            Route::Fallback => {
                self.active_fallback = self.active_fallback.wrapping_sub(1);
                self.connections_fallback_completed_total =
                    self.connections_fallback_completed_total.wrapping_add(1);
                self.fallback_connection_duration_ms_total =
                    self.fallback_connection_duration_ms_total.wrapping_add(elapsed_ms);
            },
        }
    }

    /// How long the process has been running.
    pub fn uptime_nanos(&self, now: u64) -> (res: u64)
        ensures
            res == elapsed_nanos(self.start, now),
    {
        elapsed(self.start, now)
    }

    /// How many connections are being served right now, both ways together.
    pub open spec fn served(self) -> int {
        self.active_proxied + self.active_fallback
    }

    /// How many connections are being served right now, both ways together. A
    /// number beyond 64 bits is held at the nearest that fits.
    pub fn active_connections(&self) -> (res: i64)
        ensures
            res == (if self.served() > i64::MAX {
                i64::MAX as int
            } else if self.served() < i64::MIN {
                i64::MIN as int
            } else {
                self.served()
            }),
    {
        let served: i128 = self.active_proxied as i128 + self.active_fallback as i128;
        if served > i64::MAX as i128 {
            i64::MAX
        } else if served < i64::MIN as i128 {
            i64::MIN
        } else {
            served as i64
        }
    }

    /// How many connections occupy a slot right now: those that are being
    /// served, and those that are still being probed. A shutdown waits for
    /// all of them.
    pub fn occupied_slots(&self) -> (res: i64)
        ensures
            res == self.connections as i64,
            self.connections <= i64::MAX ==> res == self.connections,
    {
        #[verifier::truncate]
        (self.connections as i64)
    }
}

// ---------------------------------------------------------------------
// Laws of the counters
// ---------------------------------------------------------------------

impl Stats {
    /// The gauges of connections being served agree with the counters of
    /// connections begun and ended.
    pub open spec fn gauges_agree(self) -> bool {
        &&& self.active_proxied == self.connections_proxied_total
            - self.connections_proxied_completed_total
        &&& self.active_fallback == self.connections_fallback_total
            - self.connections_fallback_completed_total
    }

    /// No counter is within `n` of wrapping around.
    pub open spec fn has_room(self, n: int) -> bool {
        &&& self.connections_rejected_ip_limit_total + n <= u64::MAX
        &&& self.connections_rejected_rate_limit_total + n <= u64::MAX
        &&& self.connections_proxied_total + n <= u64::MAX
        &&& self.connections_fallback_total + n <= u64::MAX
        &&& self.connections_proxied_completed_total + n <= u64::MAX
        &&& self.connections_fallback_completed_total + n <= u64::MAX
        &&& self.proxy_connection_duration_ms_total + n <= u64::MAX
        &&& self.fallback_connection_duration_ms_total + n <= u64::MAX
        &&& self.connections_probe_timeout_total + n <= u64::MAX
        &&& self.connections_probe_io_error_total + n <= u64::MAX
        &&& self.connections_closed_early_total + n <= u64::MAX
        &&& self.sni_present_total + n <= u64::MAX
        &&& self.sni_absent_total + n <= u64::MAX
        &&& self.clienthello_not_tls_total + n <= u64::MAX
        &&& self.proxy_bytes_client_to_service_total + n <= u64::MAX
        &&& self.proxy_bytes_service_to_client_total + n <= u64::MAX
        &&& self.proxy_service_connect_failures_total + n <= u64::MAX
        &&& self.proxy_service_connect_retries_total + n <= u64::MAX
        &&& self.fallback_tls_handshake_success_total + n <= u64::MAX
        &&& self.fallback_tls_handshake_failure_total + n <= u64::MAX
        &&& self.fallback_alpn_h2_total + n <= u64::MAX
        &&& self.fallback_alpn_http1_total + n <= u64::MAX
        &&& self.fallback_alpn_none_total + n <= u64::MAX
        &&& self.proxy_tls_handshake_success_total + n <= u64::MAX
        &&& self.proxy_tls_handshake_failure_total + n <= u64::MAX
        &&& self.http_method_get_total + n <= u64::MAX
        &&& self.http_method_head_total + n <= u64::MAX
        &&& self.http_method_options_total + n <= u64::MAX
        &&& self.http_method_other_total + n <= u64::MAX
        &&& self.http_status_200_total + n <= u64::MAX
        &&& self.http_status_204_total + n <= u64::MAX
        &&& self.http_status_304_total + n <= u64::MAX
        &&& self.http_status_404_total + n <= u64::MAX
        &&& self.http_status_405_total + n <= u64::MAX
        &&& self.http_status_other_total + n <= u64::MAX
        &&& self.http_bytes_sent_total + n <= u64::MAX
        &&& self.active_proxied + n <= i64::MAX
        &&& self.active_fallback + n <= i64::MAX
    }

    /// No counter of `later` is below that of `self`.
    pub open spec fn grown_to(self, later: Stats) -> bool {
        &&& self.connections_rejected_ip_limit_total <= later.connections_rejected_ip_limit_total
        &&& self.connections_rejected_rate_limit_total <= later.connections_rejected_rate_limit_total
        &&& self.connections_proxied_total <= later.connections_proxied_total
        &&& self.connections_fallback_total <= later.connections_fallback_total
        &&& self.connections_proxied_completed_total <= later.connections_proxied_completed_total
        &&& self.connections_fallback_completed_total <= later.connections_fallback_completed_total
        &&& self.proxy_connection_duration_ms_total <= later.proxy_connection_duration_ms_total
        &&& self.fallback_connection_duration_ms_total <= later.fallback_connection_duration_ms_total
        &&& self.connections_probe_timeout_total <= later.connections_probe_timeout_total
        &&& self.connections_probe_io_error_total <= later.connections_probe_io_error_total
        &&& self.connections_closed_early_total <= later.connections_closed_early_total
        &&& self.sni_present_total <= later.sni_present_total
        &&& self.sni_absent_total <= later.sni_absent_total
        &&& self.clienthello_not_tls_total <= later.clienthello_not_tls_total
        &&& self.proxy_bytes_client_to_service_total <= later.proxy_bytes_client_to_service_total
        &&& self.proxy_bytes_service_to_client_total <= later.proxy_bytes_service_to_client_total
        &&& self.proxy_service_connect_failures_total <= later.proxy_service_connect_failures_total
        &&& self.proxy_service_connect_retries_total <= later.proxy_service_connect_retries_total
        &&& self.fallback_tls_handshake_success_total <= later.fallback_tls_handshake_success_total
        &&& self.fallback_tls_handshake_failure_total <= later.fallback_tls_handshake_failure_total
        &&& self.fallback_alpn_h2_total <= later.fallback_alpn_h2_total
        &&& self.fallback_alpn_http1_total <= later.fallback_alpn_http1_total
        &&& self.fallback_alpn_none_total <= later.fallback_alpn_none_total
        &&& self.proxy_tls_handshake_success_total <= later.proxy_tls_handshake_success_total
        &&& self.proxy_tls_handshake_failure_total <= later.proxy_tls_handshake_failure_total
        &&& self.http_method_get_total <= later.http_method_get_total
        &&& self.http_method_head_total <= later.http_method_head_total
        &&& self.http_method_options_total <= later.http_method_options_total
        &&& self.http_method_other_total <= later.http_method_other_total
        &&& self.http_status_200_total <= later.http_status_200_total
        &&& self.http_status_204_total <= later.http_status_204_total
        &&& self.http_status_304_total <= later.http_status_304_total
        &&& self.http_status_404_total <= later.http_status_404_total
        &&& self.http_status_405_total <= later.http_status_405_total
        &&& self.http_status_other_total <= later.http_status_other_total
        &&& self.http_bytes_sent_total <= later.http_bytes_sent_total
    }
}

/// Ending a connection takes back what beginning it did to the gauge; the
/// counters of begun and ended connections have both gone up by one.
pub proof fn law_finish_undoes_begin(s: Stats, route: Route, elapsed_ms: u64)
    ensures
        ({
            let after = finished(begun(s, route), route, elapsed_ms);
            &&& after.active_proxied == s.active_proxied
            &&& after.active_fallback == s.active_fallback
            &&& route == Route::Proxied ==> after.connections_proxied_total
                == s.connections_proxied_total.wrapping_add(1)
                && after.connections_proxied_completed_total
                == s.connections_proxied_completed_total.wrapping_add(1)
            &&& route == Route::Fallback ==> after.connections_fallback_total
                == s.connections_fallback_total.wrapping_add(1)
                && after.connections_fallback_completed_total
                == s.connections_fallback_completed_total.wrapping_add(1)
        }),
{
}

/// The gauges start out in agreement with the counters, and stay so.
pub proof fn law_gauges_stay_in_step(s: Stats, route: Route, elapsed_ms: u64, start: u64)
    requires
        s.gauges_agree(),
        s.has_room(1),
    ensures
        Stats::zero(start).gauges_agree(),
        begun(s, route).gauges_agree(),
        (match route {
            Route::Proxied => s.active_proxied > 0,
            Route::Fallback => s.active_fallback > 0,
        }) ==> finished(s, route, elapsed_ms).gauges_agree(),
{
}

/// Every connection that begins to be served is counted among those being
/// served until it ends.
pub proof fn law_served_connections_are_counted(s: Stats, route: Route, elapsed_ms: u64)
    requires
        s.has_room(1),
    ensures
        Stats::zero(s.start).served() == 0,
        begun(s, route).served() == s.served() + 1,
        finished(begun(s, route), route, elapsed_ms).served() == s.served(),
{
}

/// Serving a connection never lowers a counter.
pub proof fn law_serving_grows_counters(s: Stats, route: Route, elapsed_ms: u64)
    requires
        s.has_room(1),
        s.has_room(elapsed_ms as int),
    ensures
        s.grown_to(begun(s, route)),
        s.grown_to(finished(s, route, elapsed_ms)),
{
}

// ---------------------------------------------------------------------
// Snapshots
// ---------------------------------------------------------------------

/// Connections, by the way they went and by what became of them.
#[derive(Clone, Copy, Debug, PartialEq, Eq, Structural)]
pub struct ConnectionsSnapshot {
    pub proxied_total: u64,
    pub fallback_total: u64,
    pub proxied_completed_total: u64,
    pub fallback_completed_total: u64,
    pub active_proxied: i64,
    pub active_fallback: i64,
    pub proxied_duration_ms_sum: u64,
    pub fallback_duration_ms_sum: u64,
    pub probe_timeout_total: u64,
    pub probe_io_error_total: u64,
    pub closed_early_total: u64,
    pub connections_limit: u64,
    pub connections_available: u64,
    pub ip_limit_total: u64,
    pub rate_limit_total: u64,
}

/// What the first bytes of connections were.
#[derive(Clone, Copy, Debug, PartialEq, Eq, Structural)]
pub struct ClientHelloSnapshot {
    pub sni_present_total: u64,
    pub sni_absent_total: u64,
    pub not_tls_total: u64,
}

/// What was relayed to services.
#[derive(Clone, Copy, Debug, PartialEq, Eq, Structural)]
pub struct ProxySnapshot {
    pub bytes_client_to_service_total: u64,
    pub bytes_service_to_client_total: u64,
    pub service_connect_failures_total: u64,
    pub service_connect_retries_total: u64,
}

/// How TLS handshakes ended.
#[derive(Clone, Copy, Debug, PartialEq, Eq, Structural)]
pub struct TlsSnapshot {
    pub fallback_handshake_success_total: u64,
    pub fallback_handshake_failure_total: u64,
    pub fallback_alpn_h2_total: u64,
    pub fallback_alpn_http1_total: u64,
    pub fallback_alpn_none_total: u64,
    pub proxy_handshake_success_total: u64,
    pub proxy_handshake_failure_total: u64,
}

/// Requests and responses of the fallback site.
#[derive(Clone, Copy, Debug, PartialEq, Eq, Structural)]
pub struct HttpSnapshot {
    pub method_get_total: u64,
    pub method_head_total: u64,
    pub method_options_total: u64,
    pub method_other_total: u64,
    pub status_200_total: u64,
    pub status_204_total: u64,
    pub status_304_total: u64,
    pub status_404_total: u64,
    pub status_405_total: u64,
    pub status_other_total: u64,
    pub bytes_sent_total: u64,
}

/// What the configuration in use says.
#[derive(Debug)]
pub struct ConfigSnapshot {
    pub routes_count: usize,
    pub tls_profile: String,
}

/// All that the API shows, at one moment.
#[derive(Debug)]
pub struct MetricsSnapshot {
    pub uptime_nanos: u64,
    pub connections: ConnectionsSnapshot,
    pub clienthello: ClientHelloSnapshot,
    pub proxy: ProxySnapshot,
    pub tls: TlsSnapshot,
    pub http: HttpSnapshot,
    pub config: ConfigSnapshot,
}

/// The slots that are free: none where more are occupied than there are.
pub open spec fn available_slots(config: ServiceConfig, stats: Stats) -> u64 {
    if stats.connections <= config.max_connections {
        (config.max_connections - stats.connections) as u64
    } else {
        0
    }
}

/// What the API shows of the stats, under a configuration and at a time.
pub open spec fn snapshot_of(stats: Stats, config: ServiceConfig, now: u64) -> MetricsSnapshot {
    MetricsSnapshot {
        uptime_nanos: elapsed_nanos(stats.start, now),
        connections: ConnectionsSnapshot {
            proxied_total: stats.connections_proxied_total,
            fallback_total: stats.connections_fallback_total,
            proxied_completed_total: stats.connections_proxied_completed_total,
            fallback_completed_total: stats.connections_fallback_completed_total,
            active_proxied: stats.active_proxied,
            active_fallback: stats.active_fallback,
            proxied_duration_ms_sum: stats.proxy_connection_duration_ms_total,
            fallback_duration_ms_sum: stats.fallback_connection_duration_ms_total,
            probe_timeout_total: stats.connections_probe_timeout_total,
            probe_io_error_total: stats.connections_probe_io_error_total,
            closed_early_total: stats.connections_closed_early_total,
            connections_limit: config.max_connections as u64,
            connections_available: available_slots(config, stats),
            ip_limit_total: stats.connections_rejected_ip_limit_total,
            rate_limit_total: stats.connections_rejected_rate_limit_total,
        },
        clienthello: ClientHelloSnapshot {
            sni_present_total: stats.sni_present_total,
            sni_absent_total: stats.sni_absent_total,
            not_tls_total: stats.clienthello_not_tls_total,
        },
        proxy: ProxySnapshot {
            bytes_client_to_service_total: stats.proxy_bytes_client_to_service_total,
            bytes_service_to_client_total: stats.proxy_bytes_service_to_client_total,
            service_connect_failures_total: stats.proxy_service_connect_failures_total,
            service_connect_retries_total: stats.proxy_service_connect_retries_total,
        },
        tls: TlsSnapshot {
            fallback_handshake_success_total: stats.fallback_tls_handshake_success_total,
            fallback_handshake_failure_total: stats.fallback_tls_handshake_failure_total,
            fallback_alpn_h2_total: stats.fallback_alpn_h2_total,
            fallback_alpn_http1_total: stats.fallback_alpn_http1_total,
            fallback_alpn_none_total: stats.fallback_alpn_none_total,
            proxy_handshake_success_total: stats.proxy_tls_handshake_success_total,
            proxy_handshake_failure_total: stats.proxy_tls_handshake_failure_total,
        },
        http: HttpSnapshot {
            method_get_total: stats.http_method_get_total,
            method_head_total: stats.http_method_head_total,
            method_options_total: stats.http_method_options_total,
            method_other_total: stats.http_method_other_total,
            status_200_total: stats.http_status_200_total,
            status_204_total: stats.http_status_204_total,
            status_304_total: stats.http_status_304_total,
            status_404_total: stats.http_status_404_total,
            status_405_total: stats.http_status_405_total,
            status_other_total: stats.http_status_other_total,
            bytes_sent_total: stats.http_bytes_sent_total,
        },
        config: ConfigSnapshot {
            routes_count: config.routes@.len() as usize,
            tls_profile: config.tls_min_version,
        },
    }
}

impl Stats {
    /// What the API shows at this moment.
    pub fn snapshot(&self, config: &ServiceConfig, now: u64) -> (res: MetricsSnapshot)
        ensures
            res == snapshot_of(*self, *config, now),
    {
        let available: u64 = if self.connections <= config.max_connections as u64 {
            config.max_connections as u64 - self.connections
        } else {
            0
        };
        MetricsSnapshot {
            uptime_nanos: self.uptime_nanos(now),
            connections: ConnectionsSnapshot {
                proxied_total: self.connections_proxied_total,
                fallback_total: self.connections_fallback_total,
                proxied_completed_total: self.connections_proxied_completed_total,
                fallback_completed_total: self.connections_fallback_completed_total,
                active_proxied: self.active_proxied,
                active_fallback: self.active_fallback,
                proxied_duration_ms_sum: self.proxy_connection_duration_ms_total,
                fallback_duration_ms_sum: self.fallback_connection_duration_ms_total,
                probe_timeout_total: self.connections_probe_timeout_total,
                probe_io_error_total: self.connections_probe_io_error_total,
                closed_early_total: self.connections_closed_early_total,
                connections_limit: config.max_connections as u64,
                connections_available: available,
                ip_limit_total: self.connections_rejected_ip_limit_total,
                rate_limit_total: self.connections_rejected_rate_limit_total,
            },
            clienthello: ClientHelloSnapshot {
                sni_present_total: self.sni_present_total,
                sni_absent_total: self.sni_absent_total,
                not_tls_total: self.clienthello_not_tls_total,
            },
            proxy: ProxySnapshot {
                bytes_client_to_service_total: self.proxy_bytes_client_to_service_total,
                bytes_service_to_client_total: self.proxy_bytes_service_to_client_total,
                service_connect_failures_total: self.proxy_service_connect_failures_total,
                service_connect_retries_total: self.proxy_service_connect_retries_total,
            },
            tls: TlsSnapshot {
                fallback_handshake_success_total: self.fallback_tls_handshake_success_total,
                fallback_handshake_failure_total: self.fallback_tls_handshake_failure_total,
                fallback_alpn_h2_total: self.fallback_alpn_h2_total,
                fallback_alpn_http1_total: self.fallback_alpn_http1_total,
                fallback_alpn_none_total: self.fallback_alpn_none_total,
                proxy_handshake_success_total: self.proxy_tls_handshake_success_total,
                proxy_handshake_failure_total: self.proxy_tls_handshake_failure_total,
            },
            http: HttpSnapshot {
                method_get_total: self.http_method_get_total,
                method_head_total: self.http_method_head_total,
                method_options_total: self.http_method_options_total,
                method_other_total: self.http_method_other_total,
                status_200_total: self.http_status_200_total,
                status_204_total: self.http_status_204_total,
                status_304_total: self.http_status_304_total,
                status_404_total: self.http_status_404_total,
                status_405_total: self.http_status_405_total,
                status_other_total: self.http_status_other_total,
                bytes_sent_total: self.http_bytes_sent_total,
            },
            config: ConfigSnapshot {
                routes_count: config.routes.len(),
                tls_profile: config.tls_min_version.clone(),
            },
        }
    }
}

/// The free slots and the occupied ones make up the limit, as long as no more
/// are occupied than there are.
pub proof fn law_slots_add_up(stats: Stats, config: ServiceConfig, now: u64)
    requires
        stats.connections <= config.max_connections,
    ensures
        ({
            let shown = snapshot_of(stats, config, now).connections;
            shown.connections_available + stats.connections == shown.connections_limit
        }),
{
}

// ---------------------------------------------------------------------
// The Prometheus text format
// ---------------------------------------------------------------------

/// The value of one sample. A fractional value is given as its text.
#[derive(Debug)]
pub enum Value {
    U(u64),
    I(i64),
    F(String),
}

pub open spec fn value_text(v: Value) -> Seq<char> {
    match v {
        Value::U(n) => text::decimal(n as nat),
        Value::I(n) => text::signed_decimal(n as int),
        Value::F(s) => s@,
    }
}

/// One sample of a metric: its labels and its value.
#[derive(Debug)]
pub struct Sample {
    pub labels: Vec<(&'static str, &'static str)>,
    pub value: Value,
}

/// Labels as pairs of texts.
pub open spec fn label_texts(labels: Seq<(&'static str, &'static str)>) -> Seq<
    (Seq<char>, Seq<char>),
> {
    Seq::new(labels.len(), |i: int| (labels[i].0@, labels[i].1@))
}

/// Samples as pairs of labels and the text of the value.
pub open spec fn sample_texts(samples: Seq<Sample>) -> Seq<
    (Seq<(Seq<char>, Seq<char>)>, Seq<char>),
> {
    Seq::new(samples.len(), |i: int| (label_texts(samples[i].labels@), value_text(samples[i].value)))
}

/// A single sample without labels.
pub open spec fn one_sample(v: Value) -> Seq<(Seq<(Seq<char>, Seq<char>)>, Seq<char>)> {
    seq![(Seq::empty(), value_text(v))]
}

/// One sample for each value of a label.
pub open spec fn labelled_samples(key: Seq<char>, entries: Seq<(&'static str, Value)>) -> Seq<
    (Seq<(Seq<char>, Seq<char>)>, Seq<char>),
> {
    Seq::new(
        entries.len(),
        |i: int| (seq![(key, entries[i].0@)], value_text(entries[i].1)),
    )
}

/// `key="value"`.
pub open spec fn label_text(label: (Seq<char>, Seq<char>)) -> Seq<char> {
    label.0 + "=\""@ + label.1 + "\""@
}

/// The labels, with commas between them.
pub open spec fn joined_labels(labels: Seq<(Seq<char>, Seq<char>)>) -> Seq<char>
    decreases labels.len(),
{
    if labels.len() == 0 {
        Seq::empty()
    } else if labels.len() == 1 {
        label_text(labels[0])
    } else {
        joined_labels(labels.drop_last()) + ","@ + label_text(labels.last())
    }
}

/// One line: the name, the labels in braces where there are any, the value.
pub open spec fn sample_line(
    name: Seq<char>,
    sample: (Seq<(Seq<char>, Seq<char>)>, Seq<char>),
) -> Seq<char> {
    if sample.0.len() == 0 {
        name + " "@ + sample.1 + "\n"@
    } else {
        name + "{"@ + joined_labels(sample.0) + "} "@ + sample.1 + "\n"@
    }
}

/// The lines of all samples.
pub open spec fn sample_lines(
    name: Seq<char>,
    samples: Seq<(Seq<(Seq<char>, Seq<char>)>, Seq<char>)>,
) -> Seq<char>
    decreases samples.len(),
{
    if samples.len() == 0 {
        Seq::empty()
    } else {
        sample_lines(name, samples.drop_last()) + sample_line(name, samples.last())
    }
}

/// One metric: a line of help, a line with the type, the samples, and an
/// empty line.
#[verifier::opaque]
pub open spec fn metric_text(
    name: Seq<char>,
    metric_type: Seq<char>,
    help: Seq<char>,
    samples: Seq<(Seq<(Seq<char>, Seq<char>)>, Seq<char>)>,
) -> Seq<char> {
    "# HELP "@ + name + " "@ + help + "\n"@ + "# TYPE "@ + name + " "@ + metric_type + "\n"@
        + sample_lines(name, samples) + "\n"@
}

/// All metrics of a snapshot. The uptime, a fraction, is given as its text.
pub open spec fn prometheus_text(s: MetricsSnapshot, uptime: Seq<char>) -> Seq<char> {
    Seq::<char>::empty() + metric_text(
        "reprox_uptime_seconds"@,
        "gauge"@,
        "Time in seconds since the process started."@,
        seq![(Seq::empty(), uptime)],
    ) + metric_text(
        "reprox_connections_total"@,
        "counter"@,
        "Total TCP connections accepted, by route."@,
        labelled_samples(
            "route"@,
            seq![
                ("proxied", Value::U(s.connections.proxied_total)),
                ("fallback", Value::U(s.connections.fallback_total)),
            ],
        ),
    ) + metric_text(
        "reprox_connections_active"@,
        "gauge"@,
        "Connections currently being served, by route."@,
        labelled_samples(
            "route"@,
            seq![
                ("proxied", Value::I(s.connections.active_proxied)),
                ("fallback", Value::I(s.connections.active_fallback)),
            ],
        ),
    ) + metric_text(
        "reprox_connection_duration_ms_sum"@,
        "counter"@,
        "Total time spent serving completed connections, by route, in milliseconds."@,
        labelled_samples(
            "route"@,
            seq![
                ("proxied", Value::U(s.connections.proxied_duration_ms_sum)),
                ("fallback", Value::U(s.connections.fallback_duration_ms_sum)),
            ],
        ),
    ) + metric_text(
        "reprox_connection_duration_ms_count"@,
        "counter"@,
        "Number of completed connections included in connection_duration_ms_sum, by route."@,
        labelled_samples(
            "route"@,
            seq![
                ("proxied", Value::U(s.connections.proxied_completed_total)),
                ("fallback", Value::U(s.connections.fallback_completed_total)),
            ],
        ),
    ) + metric_text(
        "reprox_connections_rejected_total"@,
        "counter"@,
        "Connections that never produced a usable ClientHello."@,
        labelled_samples(
            "reason"@,
            seq![
                ("probe_timeout", Value::U(s.connections.probe_timeout_total)),
                ("probe_io_error", Value::U(s.connections.probe_io_error_total)),
                ("closed_early", Value::U(s.connections.closed_early_total)),
                ("ip_limit", Value::U(s.connections.ip_limit_total)),
                ("rate_limit", Value::U(s.connections.rate_limit_total)),
            ],
        ),
    ) + metric_text(
        "reprox_connections_limit"@,
        "gauge"@,
        "Configured cap on connections handled at once, across both routes (max_connections)."@,
        one_sample(Value::U(s.connections.connections_limit)),
    ) + metric_text(
        "reprox_connections_available"@,
        "gauge"@,
        "Connections currently free out of reprox_connections_limit. A sustained 0 means max_connections is the current bottleneck."@,
        one_sample(Value::U(s.connections.connections_available)),
    ) + metric_text(
        "reprox_clienthello_total"@,
        "counter"@,
        "ClientHello classification results (see sni::ProbeResult)."@,
        labelled_samples(
            "result"@,
            seq![
                ("sni_present", Value::U(s.clienthello.sni_present_total)),
                ("sni_absent", Value::U(s.clienthello.sni_absent_total)),
                ("not_tls", Value::U(s.clienthello.not_tls_total)),
            ],
        ),
    ) + metric_text(
        "reprox_proxy_bytes_total"@,
        "counter"@,
        "Bytes relayed between clients and service."@,
        labelled_samples(
            "direction"@,
            seq![
                ("client_to_service", Value::U(s.proxy.bytes_client_to_service_total)),
                ("service_to_client", Value::U(s.proxy.bytes_service_to_client_total)),
            ],
        ),
    ) + metric_text(
        "reprox_proxy_service_connect_failures_total"@,
        "counter"@,
        "Connections that could not reach the local service instance after exhausting connect retries (see reprox_proxy_service_connect_retries_total). A non-zero rate usually means the service is down or misconfigured."@,
        one_sample(Value::U(s.proxy.service_connect_failures_total)),
    ) + metric_text(
        "reprox_proxy_service_connect_retries_total"@,
        "counter"@,
        "Individual failed connect attempts to the local service that were retried with backoff (excludes each route's final, giving-up attempt, which is counted in reprox_proxy_service_connect_failures_total instead). A high rate here relative to the failures counter means the service is usually just briefly slow to accept, not actually down."@,
        one_sample(Value::U(s.proxy.service_connect_retries_total)),
    ) + metric_text(
        "reprox_tls_handshakes_total"@,
        "counter"@,
        "Fallback-path TLS handshake outcomes."@,
        labelled_samples(
            "result"@,
            seq![
                ("success", Value::U(s.tls.fallback_handshake_success_total)),
                ("failure", Value::U(s.tls.fallback_handshake_failure_total)),
            ],
        ),
    ) + metric_text(
        "reprox_alpn_selected_total"@,
        "counter"@,
        "Negotiated ALPN protocol on the fallback path."@,
        labelled_samples(
            "protocol"@,
            seq![
                ("h2", Value::U(s.tls.fallback_alpn_h2_total)),
                ("http1", Value::U(s.tls.fallback_alpn_http1_total)),
                ("none", Value::U(s.tls.fallback_alpn_none_total)),
            ],
        ),
    ) + metric_text(
        "reprox_proxy_tls_handshakes_total"@,
        "counter"@,
        "Proxy-path TLS handshake outcomes."@,
        labelled_samples(
            "result"@,
            seq![
                ("success", Value::U(s.tls.proxy_handshake_success_total)),
                ("failure", Value::U(s.tls.proxy_handshake_failure_total)),
            ],
        ),
    ) + metric_text(
        "reprox_http_requests_total"@,
        "counter"@,
        "Fallback-site HTTP requests, by method."@,
        labelled_samples(
            "method"@,
            seq![
                ("GET", Value::U(s.http.method_get_total)),
                ("HEAD", Value::U(s.http.method_head_total)),
                ("OPTIONS", Value::U(s.http.method_options_total)),
                ("other", Value::U(s.http.method_other_total)),
            ],
        ),
    ) + metric_text(
        "reprox_http_responses_total"@,
        "counter"@,
        "Fallback-site HTTP responses, by status code."@,
        labelled_samples(
            "status"@,
            seq![
                ("200", Value::U(s.http.status_200_total)),
                ("204", Value::U(s.http.status_204_total)),
                ("304", Value::U(s.http.status_304_total)),
                ("404", Value::U(s.http.status_404_total)),
                ("405", Value::U(s.http.status_405_total)),
                ("other", Value::U(s.http.status_other_total)),
            ],
        ),
    ) + metric_text(
        "reprox_http_response_bytes_total"@,
        "counter"@,
        "Approximate response body bytes sent by the fallback site (read from Content-Length)."@,
        one_sample(Value::U(s.http.bytes_sent_total)),
    ) + metric_text(
        "reprox_config_secret_domains"@,
        "gauge"@,
        "Number of service routes currently configured."@,
        one_sample(Value::U(s.config.routes_count as u64)),
    )
}

fn push_value(out: &mut String, value: &Value)
    ensures
        final(out)@ == old(out)@ + value_text(*value),
{
    match value {
        Value::U(n) => text::append_text(out, text::decimal_text(*n).as_str()),
        Value::I(n) => text::append_text(out, text::signed_text(*n).as_str()),
        Value::F(s) => text::append_text(out, s.as_str()),
    }
}

fn push_labels(out: &mut String, labels: &Vec<(&'static str, &'static str)>)
    ensures
        final(out)@ == old(out)@ + joined_labels(label_texts(labels@)),
{
    let ghost all = label_texts(labels@);
    let ghost before = out@;
    for i in 0..labels.len()
        invariant
            all == label_texts(labels@),
            out@ == before + joined_labels(all.take(i as int)),
    {
        proof {
            assert(all.take(i + 1).drop_last() =~= all.take(i as int));
            assert(all.take(i + 1).last() == all[i as int]);
        }
        if i > 0 {
            text::append_text(out, ",");
        }
        text::append_text(out, labels[i].0);
        text::append_text(out, "=\"");
        text::append_text(out, labels[i].1);
        text::append_text(out, "\"");
        proof {
            assert(out@ =~= before + joined_labels(all.take(i + 1)));
        }
    }
    proof {
        assert(all.take(all.len() as int) =~= all);
    }
}

/// Appends one metric: its help, its type and its samples.
pub fn push_metric(
    out: &mut String,
    name: &str,
    metric_type: &str,
    help: &str,
    samples: &Vec<Sample>,
)
    ensures
        final(out)@ == old(out)@ + metric_text(
            name@,
            metric_type@,
            help@,
            sample_texts(samples@),
        ),
{
    let ghost before = out@;
    text::append_text(out, "# HELP ");
    text::append_text(out, name);
    text::append_text(out, " ");
    text::append_text(out, help);
    text::append_text(out, "\n");
    text::append_text(out, "# TYPE ");
    text::append_text(out, name);
    text::append_text(out, " ");
    text::append_text(out, metric_type);
    text::append_text(out, "\n");
    let ghost head = out@;
    let ghost all = sample_texts(samples@);
    for i in 0..samples.len()
        invariant
            all == sample_texts(samples@),
            out@ == head + sample_lines(name@, all.take(i as int)),
    {
        proof {
            assert(all.take(i + 1).drop_last() =~= all.take(i as int));
            assert(all.take(i + 1).last() == all[i as int]);
        }
        text::append_text(out, name);
        if samples[i].labels.len() == 0 {
            text::append_text(out, " ");
        } else {
            text::append_text(out, "{");
            push_labels(out, &samples[i].labels);
            text::append_text(out, "} ");
        }
        push_value(out, &samples[i].value);
        text::append_text(out, "\n");
        proof {
            assert(out@ =~= head + sample_lines(name@, all.take(i + 1)));
        }
    }
    text::append_text(out, "\n");
    proof {
        reveal(metric_text);
        assert(all.take(all.len() as int) =~= all);
        assert(out@ =~= before + metric_text(name@, metric_type@, help@, all));
    }
}

fn unlabelled(value: Value) -> (res: Vec<Sample>)
    ensures
        sample_texts(res@) == one_sample(value),
{
    let res = vec![Sample { labels: Vec::new(), value }];
    proof {
        assert(label_texts(res@[0].labels@) =~= Seq::empty());
        assert(sample_texts(res@) =~= one_sample(value));
    }
    res
}

fn by_label(key: &'static str, entries: Vec<(&'static str, Value)>) -> (res: Vec<Sample>)
    ensures
        sample_texts(res@) == labelled_samples(key@, entries@),
{
    let ghost all = entries@;
    let mut res: Vec<Sample> = Vec::new();
    for entry in it: entries
        invariant
            it.seq() == all,
            res@.len() == it.index(),
            forall|i: int|
                0 <= i < res@.len() ==> label_texts((#[trigger] res@[i]).labels@) == seq![
                    (key@, all[i].0@),
                ] && res@[i].value == all[i].1,
    {
        let labels = vec![(key, entry.0)];
        proof {
            assert(label_texts(labels@) =~= seq![(key@, entry.0@)]);
        }
        res.push(Sample { labels, value: entry.1 });
    }
    proof {
        assert(sample_texts(res@) =~= labelled_samples(key@, all));
    }
    res
}

impl Stats {
    /// All metrics in the Prometheus text format. `uptime` is the uptime in
    /// seconds, with three decimals.
    #[verifier::rlimit(60)]
    pub fn render_prometheus(&self, config: &ServiceConfig, now: u64, uptime: &str) -> (res: String)
        ensures
            res@ == prometheus_text(snapshot_of(*self, *config, now), uptime@),
    {
        let s = self.snapshot(config, now);
        let mut out = String::new();
        push_metric(
            &mut out,
            "reprox_uptime_seconds",
            "gauge",
            "Time in seconds since the process started.",
            &unlabelled(Value::F(text::owned(uptime))),
        );
        push_metric(
            &mut out,
            "reprox_connections_total",
            "counter",
            "Total TCP connections accepted, by route.",
            &by_label(
                "route",
                vec![
                    ("proxied", Value::U(s.connections.proxied_total)),
                    ("fallback", Value::U(s.connections.fallback_total)),
                ],
            ),
        );
        push_metric(
            &mut out,
            "reprox_connections_active",
            "gauge",
            "Connections currently being served, by route.",
            &by_label(
                "route",
                vec![
                    ("proxied", Value::I(s.connections.active_proxied)),
                    ("fallback", Value::I(s.connections.active_fallback)),
                ],
            ),
        );
        push_metric(
            &mut out,
            "reprox_connection_duration_ms_sum",
            "counter",
            "Total time spent serving completed connections, by route, in milliseconds.",
            &by_label(
                "route",
                vec![
                    ("proxied", Value::U(s.connections.proxied_duration_ms_sum)),
                    ("fallback", Value::U(s.connections.fallback_duration_ms_sum)),
                ],
            ),
        );
        push_metric(
            &mut out,
            "reprox_connection_duration_ms_count",
            "counter",
            "Number of completed connections included in connection_duration_ms_sum, by route.",
            &by_label(
                "route",
                vec![
                    ("proxied", Value::U(s.connections.proxied_completed_total)),
                    ("fallback", Value::U(s.connections.fallback_completed_total)),
                ],
            ),
        );
        push_metric(
            &mut out,
            "reprox_connections_rejected_total",
            "counter",
            "Connections that never produced a usable ClientHello.",
            &by_label(
                "reason",
                vec![
                    ("probe_timeout", Value::U(s.connections.probe_timeout_total)),
                    ("probe_io_error", Value::U(s.connections.probe_io_error_total)),
                    ("closed_early", Value::U(s.connections.closed_early_total)),
                    ("ip_limit", Value::U(s.connections.ip_limit_total)),
                    ("rate_limit", Value::U(s.connections.rate_limit_total)),
                ],
            ),
        );
        push_metric(
            &mut out,
            "reprox_connections_limit",
            "gauge",
            "Configured cap on connections handled at once, across both routes (max_connections).",
            &unlabelled(Value::U(s.connections.connections_limit)),
        );
        push_metric(
            &mut out,
            "reprox_connections_available",
            "gauge",
            "Connections currently free out of reprox_connections_limit. A sustained 0 means max_connections is the current bottleneck.",
            &unlabelled(Value::U(s.connections.connections_available)),
        );
        push_metric(
            &mut out,
            "reprox_clienthello_total",
            "counter",
            "ClientHello classification results (see sni::ProbeResult).",
            &by_label(
                "result",
                vec![
                    ("sni_present", Value::U(s.clienthello.sni_present_total)),
                    ("sni_absent", Value::U(s.clienthello.sni_absent_total)),
                    ("not_tls", Value::U(s.clienthello.not_tls_total)),
                ],
            ),
        );
        push_metric(
            &mut out,
            "reprox_proxy_bytes_total",
            "counter",
            "Bytes relayed between clients and service.",
            &by_label(
                "direction",
                vec![
                    ("client_to_service", Value::U(s.proxy.bytes_client_to_service_total)),
                    ("service_to_client", Value::U(s.proxy.bytes_service_to_client_total)),
                ],
            ),
        );
        push_metric(
            &mut out,
            "reprox_proxy_service_connect_failures_total",
            "counter",
            "Connections that could not reach the local service instance after exhausting connect retries (see reprox_proxy_service_connect_retries_total). A non-zero rate usually means the service is down or misconfigured.",
            &unlabelled(Value::U(s.proxy.service_connect_failures_total)),
        );
        push_metric(
            &mut out,
            "reprox_proxy_service_connect_retries_total",
            "counter",
            "Individual failed connect attempts to the local service that were retried with backoff (excludes each route's final, giving-up attempt, which is counted in reprox_proxy_service_connect_failures_total instead). A high rate here relative to the failures counter means the service is usually just briefly slow to accept, not actually down.",
            &unlabelled(Value::U(s.proxy.service_connect_retries_total)),
        );
        push_metric(
            &mut out,
            "reprox_tls_handshakes_total",
            "counter",
            "Fallback-path TLS handshake outcomes.",
            &by_label(
                "result",
                vec![
                    ("success", Value::U(s.tls.fallback_handshake_success_total)),
                    ("failure", Value::U(s.tls.fallback_handshake_failure_total)),
                ],
            ),
        );
        push_metric(
            &mut out,
            "reprox_alpn_selected_total",
            "counter",
            "Negotiated ALPN protocol on the fallback path.",
            &by_label(
                "protocol",
                vec![
                    ("h2", Value::U(s.tls.fallback_alpn_h2_total)),
                    ("http1", Value::U(s.tls.fallback_alpn_http1_total)),
                    ("none", Value::U(s.tls.fallback_alpn_none_total)),
                ],
            ),
        );
        push_metric(
            &mut out,
            "reprox_proxy_tls_handshakes_total",
            "counter",
            "Proxy-path TLS handshake outcomes.",
            &by_label(
                "result",
                vec![
                    ("success", Value::U(s.tls.proxy_handshake_success_total)),
                    ("failure", Value::U(s.tls.proxy_handshake_failure_total)),
                ],
            ),
        );
        push_metric(
            &mut out,
            "reprox_http_requests_total",
            "counter",
            "Fallback-site HTTP requests, by method.",
            &by_label(
                "method",
                vec![
                    ("GET", Value::U(s.http.method_get_total)),
                    ("HEAD", Value::U(s.http.method_head_total)),
                    ("OPTIONS", Value::U(s.http.method_options_total)),
                    ("other", Value::U(s.http.method_other_total)),
                ],
            ),
        );
        push_metric(
            &mut out,
            "reprox_http_responses_total",
            "counter",
            "Fallback-site HTTP responses, by status code.",
            &by_label(
                "status",
                vec![
                    ("200", Value::U(s.http.status_200_total)),
                    ("204", Value::U(s.http.status_204_total)),
                    ("304", Value::U(s.http.status_304_total)),
                    ("404", Value::U(s.http.status_404_total)),
                    ("405", Value::U(s.http.status_405_total)),
                    ("other", Value::U(s.http.status_other_total)),
                ],
            ),
        );
        push_metric(
            &mut out,
            "reprox_http_response_bytes_total",
            "counter",
            "Approximate response body bytes sent by the fallback site (read from Content-Length).",
            &unlabelled(Value::U(s.http.bytes_sent_total)),
        );
        push_metric(
            &mut out,
            "reprox_config_secret_domains",
            "gauge",
            "Number of service routes currently configured.",
            &unlabelled(Value::U(s.config.routes_count as u64)),
        );
        out
    }
}

// ---------------------------------------------------------------------
// The API
// ---------------------------------------------------------------------

/// What a response of the API carries. A snapshot is sent as JSON.
#[derive(Debug)]
pub enum ApiBody {
    Text(String),
    Json(MetricsSnapshot),
}

/// A response of the API.
#[derive(Debug)]
pub struct ApiResponse {
    pub status: u16,
    pub content_type: &'static str,
    pub body: ApiBody,
}

/// `ApiBody` over mathematical values.
pub enum ApiContent {
    Text(Seq<char>),
    Json(MetricsSnapshot),
}

impl View for ApiBody {
    type V = ApiContent;

    open spec fn view(&self) -> ApiContent {
        match *self {
            ApiBody::Text(s) => ApiContent::Text(s@),
            ApiBody::Json(snapshot) => ApiContent::Json(snapshot),
        }
    }
}

impl View for ApiResponse {
    type V = (u16, Seq<char>, ApiContent);

    open spec fn view(&self) -> (u16, Seq<char>, ApiContent) {
        (self.status, self.content_type@, self.body@)
    }
}

/// A short plain-text response.
pub open spec fn plain(status: u16, body: Seq<char>) -> (u16, Seq<char>, ApiContent) {
    (status, "text/plain; charset=utf-8"@, ApiContent::Text(body))
}

/// What the API answers.
pub open spec fn api_answer(
    method: Seq<char>,
    path: Seq<char>,
    snapshot: MetricsSnapshot,
    uptime: Seq<char>,
) -> (u16, Seq<char>, ApiContent) {
    if method != "GET"@ {
        plain(405, "method not allowed\n"@)
    } else if path == "/metrics"@ {
        (
            200,
            "text/plain; version=0.0.4; charset=utf-8"@,
            ApiContent::Text(prometheus_text(snapshot, uptime)),
        )
    } else if path == "/metrics.json"@ {
        (200, "application/json; charset=utf-8"@, ApiContent::Json(snapshot))
    } else if path == "/healthz"@ {
        plain(200, "ok\n"@)
    } else {
        plain(404, "not found\n"@)
    }
}

fn plain_response(status: u16, body: &'static str) -> (res: ApiResponse)
    ensures
        res@ == plain(status, body@),
{
    ApiResponse {
        status,
        content_type: "text/plain; charset=utf-8",
        body: ApiBody::Text(text::owned(body)),
    }
}

/// Answers a request to the API.
pub fn handle_request(
    method: &str,
    path: &str,
    stats: &Stats,
    config: &ServiceConfig,
    now: u64,
    uptime: &str,
) -> (res: ApiResponse)
    ensures
        res@ == api_answer(method@, path@, snapshot_of(*stats, *config, now), uptime@),
{
    if *method != *"GET" {
        return plain_response(405, "method not allowed\n");
    }
    if *path == *"/metrics" {
        ApiResponse {
            status: 200,
            content_type: "text/plain; version=0.0.4; charset=utf-8",
            body: ApiBody::Text(stats.render_prometheus(config, now, uptime)),
        }
    } else if *path == *"/metrics.json" {
        ApiResponse {
            status: 200,
            content_type: "application/json; charset=utf-8",
            body: ApiBody::Json(stats.snapshot(config, now)),
        }
    } else if *path == *"/healthz" {
        plain_response(200, "ok\n")
    } else {
        plain_response(404, "not found\n")
    }
}

/// Whether the API may listen on an address: on a loopback address only.
pub fn may_listen_on(addr: &SocketAddr) -> (res: bool)
    ensures
        res == addr.ip.loopback(),
{
    addr.ip.is_loopback()
}

/// Anything but a GET is answered with a 405, whatever its path, and a GET of
/// an unknown path with a 404.
pub proof fn law_api_refusals(
    method: Seq<char>,
    path: Seq<char>,
    snapshot: MetricsSnapshot,
    uptime: Seq<char>,
)
    ensures
        method != "GET"@ <==> api_answer(method, path, snapshot, uptime).0 == 405,
        method == "GET"@ && path != "/metrics"@ && path != "/metrics.json"@ && path != "/healthz"@
            <==> api_answer(method, path, snapshot, uptime).0 == 404,
{
}

/// The text and the JSON form show the same snapshot.
pub proof fn law_api_forms_show_the_same(snapshot: MetricsSnapshot, uptime: Seq<char>)
    ensures
        api_answer("GET"@, "/metrics"@, snapshot, uptime).2 == ApiContent::Text(
            prometheus_text(snapshot, uptime),
        ),
        api_answer("GET"@, "/metrics.json"@, snapshot, uptime).2 == ApiContent::Json(snapshot),
{
    reveal_strlit("/metrics");
    reveal_strlit("/metrics.json");
    assert("/metrics"@.len() != "/metrics.json"@.len());
}

/// The lines stand somewhere in the text, as they are.
pub open spec fn shows(text: Seq<char>, lines: Seq<char>) -> bool {
    exists|before: Seq<char>, after: Seq<char>| text == #[trigger] (before + lines + after)
}

proof fn lemma_shown_in_a_part(before: Seq<char>, part: Seq<char>, after: Seq<char>, lines: Seq<char>)
    requires
        shows(part, lines),
    ensures
        shows(before + part + after, lines),
{
    let (a, b) = choose|a: Seq<char>, b: Seq<char>| part == #[trigger] (a + lines + b);
    assert(before + part + after =~= (before + a) + lines + (b + after));
}

/// Parts of a text put together in order.
spec fn put_together(parts: Seq<Seq<char>>) -> Seq<char>
    decreases parts.len(),
{
    if parts.len() == 0 {
        Seq::empty()
    } else {
        put_together(parts.drop_last()) + parts.last()
    }
}

proof fn lemma_shown_together(parts: Seq<Seq<char>>, i: int, lines: Seq<char>)
    requires
        0 <= i < parts.len(),
        shows(parts[i], lines),
    ensures
        shows(put_together(parts), lines),
    decreases parts.len(),
{
    let rest = parts.drop_last();
    if i == rest.len() {
        lemma_shown_in_a_part(put_together(rest), parts.last(), Seq::empty(), lines);
        assert(put_together(rest) + parts.last() + Seq::<char>::empty() =~= put_together(parts));
    } else {
        assert(rest[i] == parts[i]);
        lemma_shown_together(rest, i, lines);
        lemma_shown_in_a_part(Seq::empty(), put_together(rest), parts.last(), lines);
        assert(Seq::<char>::empty() + put_together(rest) + parts.last() =~= put_together(parts));
    }
}

proof fn lemma_sample_is_shown(
    name: Seq<char>,
    samples: Seq<(Seq<(Seq<char>, Seq<char>)>, Seq<char>)>,
    i: int,
)
    requires
        0 <= i < samples.len(),
    ensures
        shows(sample_lines(name, samples), sample_line(name, samples[i])),
    decreases samples.len(),
{
    let rest = samples.drop_last();
    let line = sample_line(name, samples[i]);
    if i == rest.len() {
        assert(sample_lines(name, samples) =~= sample_lines(name, rest) + line
            + Seq::<char>::empty());
    } else {
        assert(rest[i] == samples[i]);
        lemma_sample_is_shown(name, rest, i);
        let last = sample_line(name, samples.last());
        lemma_shown_in_a_part(Seq::empty(), sample_lines(name, rest), last, line);
        assert(Seq::<char>::empty() + sample_lines(name, rest) + last =~= sample_lines(
            name,
            samples,
        ));
    }
}

proof fn lemma_metric_shows(
    name: Seq<char>,
    metric_type: Seq<char>,
    help: Seq<char>,
    samples: Seq<(Seq<(Seq<char>, Seq<char>)>, Seq<char>)>,
)
    ensures
        shows(
            metric_text(name, metric_type, help, samples),
            "# HELP "@ + name + " "@ + help + "\n"@,
        ),
        shows(
            metric_text(name, metric_type, help, samples),
            "# TYPE "@ + name + " "@ + metric_type + "\n"@,
        ),
        forall|i: int|
            0 <= i < samples.len() ==> shows(
                metric_text(name, metric_type, help, samples),
                sample_line(name, #[trigger] samples[i]),
            ),
{
    reveal(metric_text);
    let all = metric_text(name, metric_type, help, samples);
    let head = "# HELP "@ + name + " "@ + help + "\n"@;
    let kind = "# TYPE "@ + name + " "@ + metric_type + "\n"@;
    let lines = sample_lines(name, samples);
    assert(all =~= head + kind + (lines + "\n"@));
    assert(all =~= Seq::<char>::empty() + head + (kind + lines + "\n"@));
    assert forall|i: int| 0 <= i < samples.len() implies shows(
        all,
        sample_line(name, #[trigger] samples[i]),
    ) by {
        lemma_sample_is_shown(name, samples, i);
        lemma_shown_in_a_part(head + kind, lines, "\n"@, sample_line(name, samples[i]));
        assert(head + kind + lines + "\n"@ =~= all);
    }
}

/// The metrics of a snapshot, one by one.
spec fn metric_parts(s: MetricsSnapshot, uptime: Seq<char>) -> Seq<Seq<char>> {
    seq![
        metric_text(
            "reprox_uptime_seconds"@,
            "gauge"@,
            "Time in seconds since the process started."@,
            seq![(Seq::empty(), uptime)],
        ),
        metric_text(
            "reprox_connections_total"@,
            "counter"@,
            "Total TCP connections accepted, by route."@,
            labelled_samples(
                "route"@,
                seq![
                    ("proxied", Value::U(s.connections.proxied_total)),
                    ("fallback", Value::U(s.connections.fallback_total)),
                ],
            ),
        ),
        metric_text(
            "reprox_connections_active"@,
            "gauge"@,
            "Connections currently being served, by route."@,
            labelled_samples(
                "route"@,
                seq![
                    ("proxied", Value::I(s.connections.active_proxied)),
                    ("fallback", Value::I(s.connections.active_fallback)),
                ],
            ),
        ),
        metric_text(
            "reprox_connection_duration_ms_sum"@,
            "counter"@,
            "Total time spent serving completed connections, by route, in milliseconds."@,
            labelled_samples(
                "route"@,
                seq![
                    ("proxied", Value::U(s.connections.proxied_duration_ms_sum)),
                    ("fallback", Value::U(s.connections.fallback_duration_ms_sum)),
                ],
            ),
        ),
        metric_text(
            "reprox_connection_duration_ms_count"@,
            "counter"@,
            "Number of completed connections included in connection_duration_ms_sum, by route."@,
            labelled_samples(
                "route"@,
                seq![
                    ("proxied", Value::U(s.connections.proxied_completed_total)),
                    ("fallback", Value::U(s.connections.fallback_completed_total)),
                ],
            ),
        ),
        metric_text(
            "reprox_connections_rejected_total"@,
            "counter"@,
            "Connections that never produced a usable ClientHello."@,
            labelled_samples(
                "reason"@,
                seq![
                    ("probe_timeout", Value::U(s.connections.probe_timeout_total)),
                    ("probe_io_error", Value::U(s.connections.probe_io_error_total)),
                    ("closed_early", Value::U(s.connections.closed_early_total)),
                    ("ip_limit", Value::U(s.connections.ip_limit_total)),
                    ("rate_limit", Value::U(s.connections.rate_limit_total)),
                ],
            ),
        ),
        metric_text(
            "reprox_connections_limit"@,
            "gauge"@,
            "Configured cap on connections handled at once, across both routes (max_connections)."@,
            one_sample(Value::U(s.connections.connections_limit)),
        ),
        metric_text(
            "reprox_connections_available"@,
            "gauge"@,
            "Connections currently free out of reprox_connections_limit. A sustained 0 means max_connections is the current bottleneck."@,
            one_sample(Value::U(s.connections.connections_available)),
        ),
        metric_text(
            "reprox_clienthello_total"@,
            "counter"@,
            "ClientHello classification results (see sni::ProbeResult)."@,
            labelled_samples(
                "result"@,
                seq![
                    ("sni_present", Value::U(s.clienthello.sni_present_total)),
                    ("sni_absent", Value::U(s.clienthello.sni_absent_total)),
                    ("not_tls", Value::U(s.clienthello.not_tls_total)),
                ],
            ),
        ),
        metric_text(
            "reprox_proxy_bytes_total"@,
            "counter"@,
            "Bytes relayed between clients and service."@,
            labelled_samples(
                "direction"@,
                seq![
                    ("client_to_service", Value::U(s.proxy.bytes_client_to_service_total)),
                    ("service_to_client", Value::U(s.proxy.bytes_service_to_client_total)),
                ],
            ),
        ),
        metric_text(
            "reprox_proxy_service_connect_failures_total"@,
            "counter"@,
            "Connections that could not reach the local service instance after exhausting connect retries (see reprox_proxy_service_connect_retries_total). A non-zero rate usually means the service is down or misconfigured."@,
            one_sample(Value::U(s.proxy.service_connect_failures_total)),
        ),
        metric_text(
            "reprox_proxy_service_connect_retries_total"@,
            "counter"@,
            "Individual failed connect attempts to the local service that were retried with backoff (excludes each route's final, giving-up attempt, which is counted in reprox_proxy_service_connect_failures_total instead). A high rate here relative to the failures counter means the service is usually just briefly slow to accept, not actually down."@,
            one_sample(Value::U(s.proxy.service_connect_retries_total)),
        ),
        metric_text(
            "reprox_tls_handshakes_total"@,
            "counter"@,
            "Fallback-path TLS handshake outcomes."@,
            labelled_samples(
                "result"@,
                seq![
                    ("success", Value::U(s.tls.fallback_handshake_success_total)),
                    ("failure", Value::U(s.tls.fallback_handshake_failure_total)),
                ],
            ),
        ),
        metric_text(
            "reprox_alpn_selected_total"@,
            "counter"@,
            "Negotiated ALPN protocol on the fallback path."@,
            labelled_samples(
                "protocol"@,
                seq![
                    ("h2", Value::U(s.tls.fallback_alpn_h2_total)),
                    ("http1", Value::U(s.tls.fallback_alpn_http1_total)),
                    ("none", Value::U(s.tls.fallback_alpn_none_total)),
                ],
            ),
        ),
        metric_text(
            "reprox_proxy_tls_handshakes_total"@,
            "counter"@,
            "Proxy-path TLS handshake outcomes."@,
            labelled_samples(
                "result"@,
                seq![
                    ("success", Value::U(s.tls.proxy_handshake_success_total)),
                    ("failure", Value::U(s.tls.proxy_handshake_failure_total)),
                ],
            ),
        ),
        metric_text(
            "reprox_http_requests_total"@,
            "counter"@,
            "Fallback-site HTTP requests, by method."@,
            labelled_samples(
                "method"@,
                seq![
                    ("GET", Value::U(s.http.method_get_total)),
                    ("HEAD", Value::U(s.http.method_head_total)),
                    ("OPTIONS", Value::U(s.http.method_options_total)),
                    ("other", Value::U(s.http.method_other_total)),
                ],
            ),
        ),
        metric_text(
            "reprox_http_responses_total"@,
            "counter"@,
            "Fallback-site HTTP responses, by status code."@,
            labelled_samples(
                "status"@,
                seq![
                    ("200", Value::U(s.http.status_200_total)),
                    ("204", Value::U(s.http.status_204_total)),
                    ("304", Value::U(s.http.status_304_total)),
                    ("404", Value::U(s.http.status_404_total)),
                    ("405", Value::U(s.http.status_405_total)),
                    ("other", Value::U(s.http.status_other_total)),
                ],
            ),
        ),
        metric_text(
            "reprox_http_response_bytes_total"@,
            "counter"@,
            "Approximate response body bytes sent by the fallback site (read from Content-Length)."@,
            one_sample(Value::U(s.http.bytes_sent_total)),
        ),
        metric_text(
            "reprox_config_secret_domains"@,
            "gauge"@,
            "Number of service routes currently configured."@,
            one_sample(Value::U(s.config.routes_count as u64)),
        ),
    ]
}

#[verifier::spinoff_prover]
#[verifier::rlimit(60)]
proof fn lemma_text_is_its_parts(s: MetricsSnapshot, uptime: Seq<char>)
    ensures
        prometheus_text(s, uptime) == put_together(metric_parts(s, uptime)),
        metric_parts(s, uptime).len() == 19,
{
    let parts = metric_parts(s, uptime);
    assert(parts.take(0) =~= Seq::empty());
    lemma_one_more_part(parts, 0);
    lemma_one_more_part(parts, 1);
    lemma_one_more_part(parts, 2);
    lemma_one_more_part(parts, 3);
    lemma_one_more_part(parts, 4);
    lemma_one_more_part(parts, 5);
    lemma_one_more_part(parts, 6);
    lemma_one_more_part(parts, 7);
    lemma_one_more_part(parts, 8);
    lemma_one_more_part(parts, 9);
    lemma_one_more_part(parts, 10);
    lemma_one_more_part(parts, 11);
    lemma_one_more_part(parts, 12);
    lemma_one_more_part(parts, 13);
    lemma_one_more_part(parts, 14);
    lemma_one_more_part(parts, 15);
    lemma_one_more_part(parts, 16);
    lemma_one_more_part(parts, 17);
    lemma_one_more_part(parts, 18);
    assert(parts.take(19) =~= parts);
}

proof fn lemma_one_more_part(parts: Seq<Seq<char>>, i: int)
    requires
        0 <= i < parts.len(),
    ensures
        put_together(parts.take(i + 1)) == put_together(parts.take(i)) + parts[i],
{
    assert(parts.take(i + 1).drop_last() =~= parts.take(i));
}

/// The text form is these metrics, in this order, and nothing else.
#[verifier::spinoff_prover]
#[verifier::rlimit(60)]
pub proof fn law_text_is_these_metrics(s: MetricsSnapshot, uptime: Seq<char>)
    ensures
        prometheus_text(s, uptime) == metric_text(
            "reprox_uptime_seconds"@,
            "gauge"@,
            "Time in seconds since the process started."@,
            seq![(Seq::empty(), uptime)],
        ) + metric_text(
            "reprox_connections_total"@,
            "counter"@,
            "Total TCP connections accepted, by route."@,
            labelled_samples(
                "route"@,
                seq![
                    ("proxied", Value::U(s.connections.proxied_total)),
                    ("fallback", Value::U(s.connections.fallback_total)),
                ],
            ),
        ) + metric_text(
            "reprox_connections_active"@,
            "gauge"@,
            "Connections currently being served, by route."@,
            labelled_samples(
                "route"@,
                seq![
                    ("proxied", Value::I(s.connections.active_proxied)),
                    ("fallback", Value::I(s.connections.active_fallback)),
                ],
            ),
        ) + metric_text(
            "reprox_connection_duration_ms_sum"@,
            "counter"@,
            "Total time spent serving completed connections, by route, in milliseconds."@,
            labelled_samples(
                "route"@,
                seq![
                    ("proxied", Value::U(s.connections.proxied_duration_ms_sum)),
                    ("fallback", Value::U(s.connections.fallback_duration_ms_sum)),
                ],
            ),
        ) + metric_text(
            "reprox_connection_duration_ms_count"@,
            "counter"@,
            "Number of completed connections included in connection_duration_ms_sum, by route."@,
            labelled_samples(
                "route"@,
                seq![
                    ("proxied", Value::U(s.connections.proxied_completed_total)),
                    ("fallback", Value::U(s.connections.fallback_completed_total)),
                ],
            ),
        ) + metric_text(
            "reprox_connections_rejected_total"@,
            "counter"@,
            "Connections that never produced a usable ClientHello."@,
            labelled_samples(
                "reason"@,
                seq![
                    ("probe_timeout", Value::U(s.connections.probe_timeout_total)),
                    ("probe_io_error", Value::U(s.connections.probe_io_error_total)),
                    ("closed_early", Value::U(s.connections.closed_early_total)),
                    ("ip_limit", Value::U(s.connections.ip_limit_total)),
                    ("rate_limit", Value::U(s.connections.rate_limit_total)),
                ],
            ),
        ) + metric_text(
            "reprox_connections_limit"@,
            "gauge"@,
            "Configured cap on connections handled at once, across both routes (max_connections)."@,
            one_sample(Value::U(s.connections.connections_limit)),
        ) + metric_text(
            "reprox_connections_available"@,
            "gauge"@,
            "Connections currently free out of reprox_connections_limit. A sustained 0 means max_connections is the current bottleneck."@,
            one_sample(Value::U(s.connections.connections_available)),
        ) + metric_text(
            "reprox_clienthello_total"@,
            "counter"@,
            "ClientHello classification results (see sni::ProbeResult)."@,
            labelled_samples(
                "result"@,
                seq![
                    ("sni_present", Value::U(s.clienthello.sni_present_total)),
                    ("sni_absent", Value::U(s.clienthello.sni_absent_total)),
                    ("not_tls", Value::U(s.clienthello.not_tls_total)),
                ],
            ),
        ) + metric_text(
            "reprox_proxy_bytes_total"@,
            "counter"@,
            "Bytes relayed between clients and service."@,
            labelled_samples(
                "direction"@,
                seq![
                    ("client_to_service", Value::U(s.proxy.bytes_client_to_service_total)),
                    ("service_to_client", Value::U(s.proxy.bytes_service_to_client_total)),
                ],
            ),
        ) + metric_text(
            "reprox_proxy_service_connect_failures_total"@,
            "counter"@,
            "Connections that could not reach the local service instance after exhausting connect retries (see reprox_proxy_service_connect_retries_total). A non-zero rate usually means the service is down or misconfigured."@,
            one_sample(Value::U(s.proxy.service_connect_failures_total)),
        ) + metric_text(
            "reprox_proxy_service_connect_retries_total"@,
            "counter"@,
            "Individual failed connect attempts to the local service that were retried with backoff (excludes each route's final, giving-up attempt, which is counted in reprox_proxy_service_connect_failures_total instead). A high rate here relative to the failures counter means the service is usually just briefly slow to accept, not actually down."@,
            one_sample(Value::U(s.proxy.service_connect_retries_total)),
        ) + metric_text(
            "reprox_tls_handshakes_total"@,
            "counter"@,
            "Fallback-path TLS handshake outcomes."@,
            labelled_samples(
                "result"@,
                seq![
                    ("success", Value::U(s.tls.fallback_handshake_success_total)),
                    ("failure", Value::U(s.tls.fallback_handshake_failure_total)),
                ],
            ),
        ) + metric_text(
            "reprox_alpn_selected_total"@,
            "counter"@,
            "Negotiated ALPN protocol on the fallback path."@,
            labelled_samples(
                "protocol"@,
                seq![
                    ("h2", Value::U(s.tls.fallback_alpn_h2_total)),
                    ("http1", Value::U(s.tls.fallback_alpn_http1_total)),
                    ("none", Value::U(s.tls.fallback_alpn_none_total)),
                ],
            ),
        ) + metric_text(
            "reprox_proxy_tls_handshakes_total"@,
            "counter"@,
            "Proxy-path TLS handshake outcomes."@,
            labelled_samples(
                "result"@,
                seq![
                    ("success", Value::U(s.tls.proxy_handshake_success_total)),
                    ("failure", Value::U(s.tls.proxy_handshake_failure_total)),
                ],
            ),
        ) + metric_text(
            "reprox_http_requests_total"@,
            "counter"@,
            "Fallback-site HTTP requests, by method."@,
            labelled_samples(
                "method"@,
                seq![
                    ("GET", Value::U(s.http.method_get_total)),
                    ("HEAD", Value::U(s.http.method_head_total)),
                    ("OPTIONS", Value::U(s.http.method_options_total)),
                    ("other", Value::U(s.http.method_other_total)),
                ],
            ),
        ) + metric_text(
            "reprox_http_responses_total"@,
            "counter"@,
            "Fallback-site HTTP responses, by status code."@,
            labelled_samples(
                "status"@,
                seq![
                    ("200", Value::U(s.http.status_200_total)),
                    ("204", Value::U(s.http.status_204_total)),
                    ("304", Value::U(s.http.status_304_total)),
                    ("404", Value::U(s.http.status_404_total)),
                    ("405", Value::U(s.http.status_405_total)),
                    ("other", Value::U(s.http.status_other_total)),
                ],
            ),
        ) + metric_text(
            "reprox_http_response_bytes_total"@,
            "counter"@,
            "Approximate response body bytes sent by the fallback site (read from Content-Length)."@,
            one_sample(Value::U(s.http.bytes_sent_total)),
        ) + metric_text(
            "reprox_config_secret_domains"@,
            "gauge"@,
            "Number of service routes currently configured."@,
            one_sample(Value::U(s.config.routes_count as u64)),
        ),
{
    let first = metric_parts(s, uptime)[0];
    assert(Seq::<char>::empty() + first =~= first);
}

/// The text form shows the uptime and what became of connections.
#[verifier::spinoff_prover]
#[verifier::rlimit(80)]
pub proof fn law_text_shows_connections(s: MetricsSnapshot, uptime: Seq<char>)
    ensures
        shows(prometheus_text(s, uptime), "# HELP "@ + "reprox_uptime_seconds"@ + " "@ + "Time in seconds since the process started."@ + "\n"@),
        shows(prometheus_text(s, uptime), "# TYPE "@ + "reprox_uptime_seconds"@ + " "@ + "gauge"@ + "\n"@),
        shows(prometheus_text(s, uptime), "reprox_uptime_seconds"@ + " "@ + uptime + "\n"@),
        shows(prometheus_text(s, uptime), "# HELP "@ + "reprox_connections_total"@ + " "@ + "Total TCP connections accepted, by route."@ + "\n"@),
        shows(prometheus_text(s, uptime), "# TYPE "@ + "reprox_connections_total"@ + " "@ + "counter"@ + "\n"@),
        shows(prometheus_text(s, uptime), "reprox_connections_total"@ + "{"@ + ("route"@ + "=\""@ + "proxied"@ + "\""@) + "} "@ + text::decimal(s.connections.proxied_total as nat) + "\n"@),
        shows(prometheus_text(s, uptime), "reprox_connections_total"@ + "{"@ + ("route"@ + "=\""@ + "fallback"@ + "\""@) + "} "@ + text::decimal(s.connections.fallback_total as nat) + "\n"@),
        shows(prometheus_text(s, uptime), "# HELP "@ + "reprox_connections_active"@ + " "@ + "Connections currently being served, by route."@ + "\n"@),
        shows(prometheus_text(s, uptime), "# TYPE "@ + "reprox_connections_active"@ + " "@ + "gauge"@ + "\n"@),
        shows(prometheus_text(s, uptime), "reprox_connections_active"@ + "{"@ + ("route"@ + "=\""@ + "proxied"@ + "\""@) + "} "@ + text::signed_decimal(s.connections.active_proxied as int) + "\n"@),
        shows(prometheus_text(s, uptime), "reprox_connections_active"@ + "{"@ + ("route"@ + "=\""@ + "fallback"@ + "\""@) + "} "@ + text::signed_decimal(s.connections.active_fallback as int) + "\n"@),
        shows(prometheus_text(s, uptime), "# HELP "@ + "reprox_connection_duration_ms_sum"@ + " "@ + "Total time spent serving completed connections, by route, in milliseconds."@ + "\n"@),
        shows(prometheus_text(s, uptime), "# TYPE "@ + "reprox_connection_duration_ms_sum"@ + " "@ + "counter"@ + "\n"@),
        shows(prometheus_text(s, uptime), "reprox_connection_duration_ms_sum"@ + "{"@ + ("route"@ + "=\""@ + "proxied"@ + "\""@) + "} "@ + text::decimal(s.connections.proxied_duration_ms_sum as nat) + "\n"@),
        shows(prometheus_text(s, uptime), "reprox_connection_duration_ms_sum"@ + "{"@ + ("route"@ + "=\""@ + "fallback"@ + "\""@) + "} "@ + text::decimal(s.connections.fallback_duration_ms_sum as nat) + "\n"@),
        shows(prometheus_text(s, uptime), "# HELP "@ + "reprox_connection_duration_ms_count"@ + " "@ + "Number of completed connections included in connection_duration_ms_sum, by route."@ + "\n"@),
        shows(prometheus_text(s, uptime), "# TYPE "@ + "reprox_connection_duration_ms_count"@ + " "@ + "counter"@ + "\n"@),
        shows(prometheus_text(s, uptime), "reprox_connection_duration_ms_count"@ + "{"@ + ("route"@ + "=\""@ + "proxied"@ + "\""@) + "} "@ + text::decimal(s.connections.proxied_completed_total as nat) + "\n"@),
        shows(prometheus_text(s, uptime), "reprox_connection_duration_ms_count"@ + "{"@ + ("route"@ + "=\""@ + "fallback"@ + "\""@) + "} "@ + text::decimal(s.connections.fallback_completed_total as nat) + "\n"@),
        shows(prometheus_text(s, uptime), "# HELP "@ + "reprox_connections_rejected_total"@ + " "@ + "Connections that never produced a usable ClientHello."@ + "\n"@),
        shows(prometheus_text(s, uptime), "# TYPE "@ + "reprox_connections_rejected_total"@ + " "@ + "counter"@ + "\n"@),
        shows(prometheus_text(s, uptime), "reprox_connections_rejected_total"@ + "{"@ + ("reason"@ + "=\""@ + "probe_timeout"@ + "\""@) + "} "@ + text::decimal(s.connections.probe_timeout_total as nat) + "\n"@),
        shows(prometheus_text(s, uptime), "reprox_connections_rejected_total"@ + "{"@ + ("reason"@ + "=\""@ + "probe_io_error"@ + "\""@) + "} "@ + text::decimal(s.connections.probe_io_error_total as nat) + "\n"@),
        shows(prometheus_text(s, uptime), "reprox_connections_rejected_total"@ + "{"@ + ("reason"@ + "=\""@ + "closed_early"@ + "\""@) + "} "@ + text::decimal(s.connections.closed_early_total as nat) + "\n"@),
        shows(prometheus_text(s, uptime), "reprox_connections_rejected_total"@ + "{"@ + ("reason"@ + "=\""@ + "ip_limit"@ + "\""@) + "} "@ + text::decimal(s.connections.ip_limit_total as nat) + "\n"@),
        shows(prometheus_text(s, uptime), "reprox_connections_rejected_total"@ + "{"@ + ("reason"@ + "=\""@ + "rate_limit"@ + "\""@) + "} "@ + text::decimal(s.connections.rate_limit_total as nat) + "\n"@),
        shows(prometheus_text(s, uptime), "# HELP "@ + "reprox_connections_limit"@ + " "@ + "Configured cap on connections handled at once, across both routes (max_connections)."@ + "\n"@),
        shows(prometheus_text(s, uptime), "# TYPE "@ + "reprox_connections_limit"@ + " "@ + "gauge"@ + "\n"@),
        shows(prometheus_text(s, uptime), "reprox_connections_limit"@ + " "@ + text::decimal(s.connections.connections_limit as nat) + "\n"@),
        shows(prometheus_text(s, uptime), "# HELP "@ + "reprox_connections_available"@ + " "@ + "Connections currently free out of reprox_connections_limit. A sustained 0 means max_connections is the current bottleneck."@ + "\n"@),
        shows(prometheus_text(s, uptime), "# TYPE "@ + "reprox_connections_available"@ + " "@ + "gauge"@ + "\n"@),
        shows(prometheus_text(s, uptime), "reprox_connections_available"@ + " "@ + text::decimal(s.connections.connections_available as nat) + "\n"@),
{
    let parts = metric_parts(s, uptime);
    lemma_text_is_its_parts(s, uptime);
    let samples0 = seq![(Seq::empty(), uptime)];
    lemma_metric_shows("reprox_uptime_seconds"@, "gauge"@, "Time in seconds since the process started."@, samples0);
    lemma_shown_together(parts, 0, "# HELP "@ + "reprox_uptime_seconds"@ + " "@ + "Time in seconds since the process started."@ + "\n"@);
    lemma_shown_together(parts, 0, "# TYPE "@ + "reprox_uptime_seconds"@ + " "@ + "gauge"@ + "\n"@);
    assert(sample_line("reprox_uptime_seconds"@, samples0[0]) == "reprox_uptime_seconds"@ + " "@ + uptime + "\n"@);
    lemma_shown_together(parts, 0, "reprox_uptime_seconds"@ + " "@ + uptime + "\n"@);
    let samples1 = labelled_samples(
            "route"@,
            seq![
                ("proxied", Value::U(s.connections.proxied_total)),
                ("fallback", Value::U(s.connections.fallback_total)),
            ],
        );
    lemma_metric_shows("reprox_connections_total"@, "counter"@, "Total TCP connections accepted, by route."@, samples1);
    lemma_shown_together(parts, 1, "# HELP "@ + "reprox_connections_total"@ + " "@ + "Total TCP connections accepted, by route."@ + "\n"@);
    lemma_shown_together(parts, 1, "# TYPE "@ + "reprox_connections_total"@ + " "@ + "counter"@ + "\n"@);
    assert(samples1[0].0.len() == 1);
    assert(sample_line("reprox_connections_total"@, samples1[0]) == "reprox_connections_total"@ + "{"@ + ("route"@ + "=\""@ + "proxied"@ + "\""@) + "} "@ + text::decimal(s.connections.proxied_total as nat) + "\n"@);
    lemma_shown_together(parts, 1, "reprox_connections_total"@ + "{"@ + ("route"@ + "=\""@ + "proxied"@ + "\""@) + "} "@ + text::decimal(s.connections.proxied_total as nat) + "\n"@);
    assert(samples1[1].0.len() == 1);
    assert(sample_line("reprox_connections_total"@, samples1[1]) == "reprox_connections_total"@ + "{"@ + ("route"@ + "=\""@ + "fallback"@ + "\""@) + "} "@ + text::decimal(s.connections.fallback_total as nat) + "\n"@);
    lemma_shown_together(parts, 1, "reprox_connections_total"@ + "{"@ + ("route"@ + "=\""@ + "fallback"@ + "\""@) + "} "@ + text::decimal(s.connections.fallback_total as nat) + "\n"@);
    let samples2 = labelled_samples(
            "route"@,
            seq![
                ("proxied", Value::I(s.connections.active_proxied)),
                ("fallback", Value::I(s.connections.active_fallback)),
            ],
        );
    lemma_metric_shows("reprox_connections_active"@, "gauge"@, "Connections currently being served, by route."@, samples2);
    lemma_shown_together(parts, 2, "# HELP "@ + "reprox_connections_active"@ + " "@ + "Connections currently being served, by route."@ + "\n"@);
    lemma_shown_together(parts, 2, "# TYPE "@ + "reprox_connections_active"@ + " "@ + "gauge"@ + "\n"@);
    assert(samples2[0].0.len() == 1);
    assert(sample_line("reprox_connections_active"@, samples2[0]) == "reprox_connections_active"@ + "{"@ + ("route"@ + "=\""@ + "proxied"@ + "\""@) + "} "@ + text::signed_decimal(s.connections.active_proxied as int) + "\n"@);
    lemma_shown_together(parts, 2, "reprox_connections_active"@ + "{"@ + ("route"@ + "=\""@ + "proxied"@ + "\""@) + "} "@ + text::signed_decimal(s.connections.active_proxied as int) + "\n"@);
    assert(samples2[1].0.len() == 1);
    assert(sample_line("reprox_connections_active"@, samples2[1]) == "reprox_connections_active"@ + "{"@ + ("route"@ + "=\""@ + "fallback"@ + "\""@) + "} "@ + text::signed_decimal(s.connections.active_fallback as int) + "\n"@);
    lemma_shown_together(parts, 2, "reprox_connections_active"@ + "{"@ + ("route"@ + "=\""@ + "fallback"@ + "\""@) + "} "@ + text::signed_decimal(s.connections.active_fallback as int) + "\n"@);
    let samples3 = labelled_samples(
            "route"@,
            seq![
                ("proxied", Value::U(s.connections.proxied_duration_ms_sum)),
                ("fallback", Value::U(s.connections.fallback_duration_ms_sum)),
            ],
        );
    lemma_metric_shows("reprox_connection_duration_ms_sum"@, "counter"@, "Total time spent serving completed connections, by route, in milliseconds."@, samples3);
    lemma_shown_together(parts, 3, "# HELP "@ + "reprox_connection_duration_ms_sum"@ + " "@ + "Total time spent serving completed connections, by route, in milliseconds."@ + "\n"@);
    lemma_shown_together(parts, 3, "# TYPE "@ + "reprox_connection_duration_ms_sum"@ + " "@ + "counter"@ + "\n"@);
    assert(samples3[0].0.len() == 1);
    assert(sample_line("reprox_connection_duration_ms_sum"@, samples3[0]) == "reprox_connection_duration_ms_sum"@ + "{"@ + ("route"@ + "=\""@ + "proxied"@ + "\""@) + "} "@ + text::decimal(s.connections.proxied_duration_ms_sum as nat) + "\n"@);
    lemma_shown_together(parts, 3, "reprox_connection_duration_ms_sum"@ + "{"@ + ("route"@ + "=\""@ + "proxied"@ + "\""@) + "} "@ + text::decimal(s.connections.proxied_duration_ms_sum as nat) + "\n"@);
    assert(samples3[1].0.len() == 1);
    assert(sample_line("reprox_connection_duration_ms_sum"@, samples3[1]) == "reprox_connection_duration_ms_sum"@ + "{"@ + ("route"@ + "=\""@ + "fallback"@ + "\""@) + "} "@ + text::decimal(s.connections.fallback_duration_ms_sum as nat) + "\n"@);
    lemma_shown_together(parts, 3, "reprox_connection_duration_ms_sum"@ + "{"@ + ("route"@ + "=\""@ + "fallback"@ + "\""@) + "} "@ + text::decimal(s.connections.fallback_duration_ms_sum as nat) + "\n"@);
    let samples4 = labelled_samples(
            "route"@,
            seq![
                ("proxied", Value::U(s.connections.proxied_completed_total)),
                ("fallback", Value::U(s.connections.fallback_completed_total)),
            ],
        );
    lemma_metric_shows("reprox_connection_duration_ms_count"@, "counter"@, "Number of completed connections included in connection_duration_ms_sum, by route."@, samples4);
    lemma_shown_together(parts, 4, "# HELP "@ + "reprox_connection_duration_ms_count"@ + " "@ + "Number of completed connections included in connection_duration_ms_sum, by route."@ + "\n"@);
    lemma_shown_together(parts, 4, "# TYPE "@ + "reprox_connection_duration_ms_count"@ + " "@ + "counter"@ + "\n"@);
    assert(samples4[0].0.len() == 1);
    assert(sample_line("reprox_connection_duration_ms_count"@, samples4[0]) == "reprox_connection_duration_ms_count"@ + "{"@ + ("route"@ + "=\""@ + "proxied"@ + "\""@) + "} "@ + text::decimal(s.connections.proxied_completed_total as nat) + "\n"@);
    lemma_shown_together(parts, 4, "reprox_connection_duration_ms_count"@ + "{"@ + ("route"@ + "=\""@ + "proxied"@ + "\""@) + "} "@ + text::decimal(s.connections.proxied_completed_total as nat) + "\n"@);
    assert(samples4[1].0.len() == 1);
    assert(sample_line("reprox_connection_duration_ms_count"@, samples4[1]) == "reprox_connection_duration_ms_count"@ + "{"@ + ("route"@ + "=\""@ + "fallback"@ + "\""@) + "} "@ + text::decimal(s.connections.fallback_completed_total as nat) + "\n"@);
    lemma_shown_together(parts, 4, "reprox_connection_duration_ms_count"@ + "{"@ + ("route"@ + "=\""@ + "fallback"@ + "\""@) + "} "@ + text::decimal(s.connections.fallback_completed_total as nat) + "\n"@);
    let samples5 = labelled_samples(
            "reason"@,
            seq![
                ("probe_timeout", Value::U(s.connections.probe_timeout_total)),
                ("probe_io_error", Value::U(s.connections.probe_io_error_total)),
                ("closed_early", Value::U(s.connections.closed_early_total)),
                ("ip_limit", Value::U(s.connections.ip_limit_total)),
                ("rate_limit", Value::U(s.connections.rate_limit_total)),
            ],
        );
    lemma_metric_shows("reprox_connections_rejected_total"@, "counter"@, "Connections that never produced a usable ClientHello."@, samples5);
    lemma_shown_together(parts, 5, "# HELP "@ + "reprox_connections_rejected_total"@ + " "@ + "Connections that never produced a usable ClientHello."@ + "\n"@);
    lemma_shown_together(parts, 5, "# TYPE "@ + "reprox_connections_rejected_total"@ + " "@ + "counter"@ + "\n"@);
    assert(samples5[0].0.len() == 1);
    assert(sample_line("reprox_connections_rejected_total"@, samples5[0]) == "reprox_connections_rejected_total"@ + "{"@ + ("reason"@ + "=\""@ + "probe_timeout"@ + "\""@) + "} "@ + text::decimal(s.connections.probe_timeout_total as nat) + "\n"@);
    lemma_shown_together(parts, 5, "reprox_connections_rejected_total"@ + "{"@ + ("reason"@ + "=\""@ + "probe_timeout"@ + "\""@) + "} "@ + text::decimal(s.connections.probe_timeout_total as nat) + "\n"@);
    assert(samples5[1].0.len() == 1);
    assert(sample_line("reprox_connections_rejected_total"@, samples5[1]) == "reprox_connections_rejected_total"@ + "{"@ + ("reason"@ + "=\""@ + "probe_io_error"@ + "\""@) + "} "@ + text::decimal(s.connections.probe_io_error_total as nat) + "\n"@);
    lemma_shown_together(parts, 5, "reprox_connections_rejected_total"@ + "{"@ + ("reason"@ + "=\""@ + "probe_io_error"@ + "\""@) + "} "@ + text::decimal(s.connections.probe_io_error_total as nat) + "\n"@);
    assert(samples5[2].0.len() == 1);
    assert(sample_line("reprox_connections_rejected_total"@, samples5[2]) == "reprox_connections_rejected_total"@ + "{"@ + ("reason"@ + "=\""@ + "closed_early"@ + "\""@) + "} "@ + text::decimal(s.connections.closed_early_total as nat) + "\n"@);
    lemma_shown_together(parts, 5, "reprox_connections_rejected_total"@ + "{"@ + ("reason"@ + "=\""@ + "closed_early"@ + "\""@) + "} "@ + text::decimal(s.connections.closed_early_total as nat) + "\n"@);
    assert(samples5[3].0.len() == 1);
    assert(sample_line("reprox_connections_rejected_total"@, samples5[3]) == "reprox_connections_rejected_total"@ + "{"@ + ("reason"@ + "=\""@ + "ip_limit"@ + "\""@) + "} "@ + text::decimal(s.connections.ip_limit_total as nat) + "\n"@);
    lemma_shown_together(parts, 5, "reprox_connections_rejected_total"@ + "{"@ + ("reason"@ + "=\""@ + "ip_limit"@ + "\""@) + "} "@ + text::decimal(s.connections.ip_limit_total as nat) + "\n"@);
    assert(samples5[4].0.len() == 1);
    assert(sample_line("reprox_connections_rejected_total"@, samples5[4]) == "reprox_connections_rejected_total"@ + "{"@ + ("reason"@ + "=\""@ + "rate_limit"@ + "\""@) + "} "@ + text::decimal(s.connections.rate_limit_total as nat) + "\n"@);
    lemma_shown_together(parts, 5, "reprox_connections_rejected_total"@ + "{"@ + ("reason"@ + "=\""@ + "rate_limit"@ + "\""@) + "} "@ + text::decimal(s.connections.rate_limit_total as nat) + "\n"@);
    let samples6 = one_sample(Value::U(s.connections.connections_limit));
    lemma_metric_shows("reprox_connections_limit"@, "gauge"@, "Configured cap on connections handled at once, across both routes (max_connections)."@, samples6);
    lemma_shown_together(parts, 6, "# HELP "@ + "reprox_connections_limit"@ + " "@ + "Configured cap on connections handled at once, across both routes (max_connections)."@ + "\n"@);
    lemma_shown_together(parts, 6, "# TYPE "@ + "reprox_connections_limit"@ + " "@ + "gauge"@ + "\n"@);
    assert(sample_line("reprox_connections_limit"@, samples6[0]) == "reprox_connections_limit"@ + " "@ + text::decimal(s.connections.connections_limit as nat) + "\n"@);
    lemma_shown_together(parts, 6, "reprox_connections_limit"@ + " "@ + text::decimal(s.connections.connections_limit as nat) + "\n"@);
    let samples7 = one_sample(Value::U(s.connections.connections_available));
    lemma_metric_shows("reprox_connections_available"@, "gauge"@, "Connections currently free out of reprox_connections_limit. A sustained 0 means max_connections is the current bottleneck."@, samples7);
    lemma_shown_together(parts, 7, "# HELP "@ + "reprox_connections_available"@ + " "@ + "Connections currently free out of reprox_connections_limit. A sustained 0 means max_connections is the current bottleneck."@ + "\n"@);
    lemma_shown_together(parts, 7, "# TYPE "@ + "reprox_connections_available"@ + " "@ + "gauge"@ + "\n"@);
    assert(sample_line("reprox_connections_available"@, samples7[0]) == "reprox_connections_available"@ + " "@ + text::decimal(s.connections.connections_available as nat) + "\n"@);
    lemma_shown_together(parts, 7, "reprox_connections_available"@ + " "@ + text::decimal(s.connections.connections_available as nat) + "\n"@);
}

/// The text form shows what ClientHellos were and what was forwarded.
#[verifier::spinoff_prover]
#[verifier::rlimit(80)]
pub proof fn law_text_shows_hellos_and_forwarding(s: MetricsSnapshot, uptime: Seq<char>)
    ensures
        shows(prometheus_text(s, uptime), "# HELP "@ + "reprox_clienthello_total"@ + " "@ + "ClientHello classification results (see sni::ProbeResult)."@ + "\n"@),
        shows(prometheus_text(s, uptime), "# TYPE "@ + "reprox_clienthello_total"@ + " "@ + "counter"@ + "\n"@),
        shows(prometheus_text(s, uptime), "reprox_clienthello_total"@ + "{"@ + ("result"@ + "=\""@ + "sni_present"@ + "\""@) + "} "@ + text::decimal(s.clienthello.sni_present_total as nat) + "\n"@),
        shows(prometheus_text(s, uptime), "reprox_clienthello_total"@ + "{"@ + ("result"@ + "=\""@ + "sni_absent"@ + "\""@) + "} "@ + text::decimal(s.clienthello.sni_absent_total as nat) + "\n"@),
        shows(prometheus_text(s, uptime), "reprox_clienthello_total"@ + "{"@ + ("result"@ + "=\""@ + "not_tls"@ + "\""@) + "} "@ + text::decimal(s.clienthello.not_tls_total as nat) + "\n"@),
        shows(prometheus_text(s, uptime), "# HELP "@ + "reprox_proxy_bytes_total"@ + " "@ + "Bytes relayed between clients and service."@ + "\n"@),
        shows(prometheus_text(s, uptime), "# TYPE "@ + "reprox_proxy_bytes_total"@ + " "@ + "counter"@ + "\n"@),
        shows(prometheus_text(s, uptime), "reprox_proxy_bytes_total"@ + "{"@ + ("direction"@ + "=\""@ + "client_to_service"@ + "\""@) + "} "@ + text::decimal(s.proxy.bytes_client_to_service_total as nat) + "\n"@),
        shows(prometheus_text(s, uptime), "reprox_proxy_bytes_total"@ + "{"@ + ("direction"@ + "=\""@ + "service_to_client"@ + "\""@) + "} "@ + text::decimal(s.proxy.bytes_service_to_client_total as nat) + "\n"@),
        shows(prometheus_text(s, uptime), "# HELP "@ + "reprox_proxy_service_connect_failures_total"@ + " "@ + "Connections that could not reach the local service instance after exhausting connect retries (see reprox_proxy_service_connect_retries_total). A non-zero rate usually means the service is down or misconfigured."@ + "\n"@),
        shows(prometheus_text(s, uptime), "# TYPE "@ + "reprox_proxy_service_connect_failures_total"@ + " "@ + "counter"@ + "\n"@),
        shows(prometheus_text(s, uptime), "reprox_proxy_service_connect_failures_total"@ + " "@ + text::decimal(s.proxy.service_connect_failures_total as nat) + "\n"@),
        shows(prometheus_text(s, uptime), "# HELP "@ + "reprox_proxy_service_connect_retries_total"@ + " "@ + "Individual failed connect attempts to the local service that were retried with backoff (excludes each route's final, giving-up attempt, which is counted in reprox_proxy_service_connect_failures_total instead). A high rate here relative to the failures counter means the service is usually just briefly slow to accept, not actually down."@ + "\n"@),
        shows(prometheus_text(s, uptime), "# TYPE "@ + "reprox_proxy_service_connect_retries_total"@ + " "@ + "counter"@ + "\n"@),
        shows(prometheus_text(s, uptime), "reprox_proxy_service_connect_retries_total"@ + " "@ + text::decimal(s.proxy.service_connect_retries_total as nat) + "\n"@),
{
    let parts = metric_parts(s, uptime);
    lemma_text_is_its_parts(s, uptime);
    let samples8 = labelled_samples(
            "result"@,
            seq![
                ("sni_present", Value::U(s.clienthello.sni_present_total)),
                ("sni_absent", Value::U(s.clienthello.sni_absent_total)),
                ("not_tls", Value::U(s.clienthello.not_tls_total)),
            ],
        );
    lemma_metric_shows("reprox_clienthello_total"@, "counter"@, "ClientHello classification results (see sni::ProbeResult)."@, samples8);
    lemma_shown_together(parts, 8, "# HELP "@ + "reprox_clienthello_total"@ + " "@ + "ClientHello classification results (see sni::ProbeResult)."@ + "\n"@);
    lemma_shown_together(parts, 8, "# TYPE "@ + "reprox_clienthello_total"@ + " "@ + "counter"@ + "\n"@);
    assert(samples8[0].0.len() == 1);
    assert(sample_line("reprox_clienthello_total"@, samples8[0]) == "reprox_clienthello_total"@ + "{"@ + ("result"@ + "=\""@ + "sni_present"@ + "\""@) + "} "@ + text::decimal(s.clienthello.sni_present_total as nat) + "\n"@);
    lemma_shown_together(parts, 8, "reprox_clienthello_total"@ + "{"@ + ("result"@ + "=\""@ + "sni_present"@ + "\""@) + "} "@ + text::decimal(s.clienthello.sni_present_total as nat) + "\n"@);
    assert(samples8[1].0.len() == 1);
    assert(sample_line("reprox_clienthello_total"@, samples8[1]) == "reprox_clienthello_total"@ + "{"@ + ("result"@ + "=\""@ + "sni_absent"@ + "\""@) + "} "@ + text::decimal(s.clienthello.sni_absent_total as nat) + "\n"@);
    lemma_shown_together(parts, 8, "reprox_clienthello_total"@ + "{"@ + ("result"@ + "=\""@ + "sni_absent"@ + "\""@) + "} "@ + text::decimal(s.clienthello.sni_absent_total as nat) + "\n"@);
    assert(samples8[2].0.len() == 1);
    assert(sample_line("reprox_clienthello_total"@, samples8[2]) == "reprox_clienthello_total"@ + "{"@ + ("result"@ + "=\""@ + "not_tls"@ + "\""@) + "} "@ + text::decimal(s.clienthello.not_tls_total as nat) + "\n"@);
    lemma_shown_together(parts, 8, "reprox_clienthello_total"@ + "{"@ + ("result"@ + "=\""@ + "not_tls"@ + "\""@) + "} "@ + text::decimal(s.clienthello.not_tls_total as nat) + "\n"@);
    let samples9 = labelled_samples(
            "direction"@,
            seq![
                ("client_to_service", Value::U(s.proxy.bytes_client_to_service_total)),
                ("service_to_client", Value::U(s.proxy.bytes_service_to_client_total)),
            ],
        );
    lemma_metric_shows("reprox_proxy_bytes_total"@, "counter"@, "Bytes relayed between clients and service."@, samples9);
    lemma_shown_together(parts, 9, "# HELP "@ + "reprox_proxy_bytes_total"@ + " "@ + "Bytes relayed between clients and service."@ + "\n"@);
    lemma_shown_together(parts, 9, "# TYPE "@ + "reprox_proxy_bytes_total"@ + " "@ + "counter"@ + "\n"@);
    assert(samples9[0].0.len() == 1);
    assert(sample_line("reprox_proxy_bytes_total"@, samples9[0]) == "reprox_proxy_bytes_total"@ + "{"@ + ("direction"@ + "=\""@ + "client_to_service"@ + "\""@) + "} "@ + text::decimal(s.proxy.bytes_client_to_service_total as nat) + "\n"@);
    lemma_shown_together(parts, 9, "reprox_proxy_bytes_total"@ + "{"@ + ("direction"@ + "=\""@ + "client_to_service"@ + "\""@) + "} "@ + text::decimal(s.proxy.bytes_client_to_service_total as nat) + "\n"@);
    assert(samples9[1].0.len() == 1);
    assert(sample_line("reprox_proxy_bytes_total"@, samples9[1]) == "reprox_proxy_bytes_total"@ + "{"@ + ("direction"@ + "=\""@ + "service_to_client"@ + "\""@) + "} "@ + text::decimal(s.proxy.bytes_service_to_client_total as nat) + "\n"@);
    lemma_shown_together(parts, 9, "reprox_proxy_bytes_total"@ + "{"@ + ("direction"@ + "=\""@ + "service_to_client"@ + "\""@) + "} "@ + text::decimal(s.proxy.bytes_service_to_client_total as nat) + "\n"@);
    let samples10 = one_sample(Value::U(s.proxy.service_connect_failures_total));
    lemma_metric_shows("reprox_proxy_service_connect_failures_total"@, "counter"@, "Connections that could not reach the local service instance after exhausting connect retries (see reprox_proxy_service_connect_retries_total). A non-zero rate usually means the service is down or misconfigured."@, samples10);
    lemma_shown_together(parts, 10, "# HELP "@ + "reprox_proxy_service_connect_failures_total"@ + " "@ + "Connections that could not reach the local service instance after exhausting connect retries (see reprox_proxy_service_connect_retries_total). A non-zero rate usually means the service is down or misconfigured."@ + "\n"@);
    lemma_shown_together(parts, 10, "# TYPE "@ + "reprox_proxy_service_connect_failures_total"@ + " "@ + "counter"@ + "\n"@);
    assert(sample_line("reprox_proxy_service_connect_failures_total"@, samples10[0]) == "reprox_proxy_service_connect_failures_total"@ + " "@ + text::decimal(s.proxy.service_connect_failures_total as nat) + "\n"@);
    lemma_shown_together(parts, 10, "reprox_proxy_service_connect_failures_total"@ + " "@ + text::decimal(s.proxy.service_connect_failures_total as nat) + "\n"@);
    let samples11 = one_sample(Value::U(s.proxy.service_connect_retries_total));
    lemma_metric_shows("reprox_proxy_service_connect_retries_total"@, "counter"@, "Individual failed connect attempts to the local service that were retried with backoff (excludes each route's final, giving-up attempt, which is counted in reprox_proxy_service_connect_failures_total instead). A high rate here relative to the failures counter means the service is usually just briefly slow to accept, not actually down."@, samples11);
    lemma_shown_together(parts, 11, "# HELP "@ + "reprox_proxy_service_connect_retries_total"@ + " "@ + "Individual failed connect attempts to the local service that were retried with backoff (excludes each route's final, giving-up attempt, which is counted in reprox_proxy_service_connect_failures_total instead). A high rate here relative to the failures counter means the service is usually just briefly slow to accept, not actually down."@ + "\n"@);
    lemma_shown_together(parts, 11, "# TYPE "@ + "reprox_proxy_service_connect_retries_total"@ + " "@ + "counter"@ + "\n"@);
    assert(sample_line("reprox_proxy_service_connect_retries_total"@, samples11[0]) == "reprox_proxy_service_connect_retries_total"@ + " "@ + text::decimal(s.proxy.service_connect_retries_total as nat) + "\n"@);
    lemma_shown_together(parts, 11, "reprox_proxy_service_connect_retries_total"@ + " "@ + text::decimal(s.proxy.service_connect_retries_total as nat) + "\n"@);
}

/// The text form shows how handshakes ended and what was negotiated.
#[verifier::spinoff_prover]
#[verifier::rlimit(80)]
pub proof fn law_text_shows_handshakes(s: MetricsSnapshot, uptime: Seq<char>)
    ensures
        shows(prometheus_text(s, uptime), "# HELP "@ + "reprox_tls_handshakes_total"@ + " "@ + "Fallback-path TLS handshake outcomes."@ + "\n"@),
        shows(prometheus_text(s, uptime), "# TYPE "@ + "reprox_tls_handshakes_total"@ + " "@ + "counter"@ + "\n"@),
        shows(prometheus_text(s, uptime), "reprox_tls_handshakes_total"@ + "{"@ + ("result"@ + "=\""@ + "success"@ + "\""@) + "} "@ + text::decimal(s.tls.fallback_handshake_success_total as nat) + "\n"@),
        shows(prometheus_text(s, uptime), "reprox_tls_handshakes_total"@ + "{"@ + ("result"@ + "=\""@ + "failure"@ + "\""@) + "} "@ + text::decimal(s.tls.fallback_handshake_failure_total as nat) + "\n"@),
        shows(prometheus_text(s, uptime), "# HELP "@ + "reprox_alpn_selected_total"@ + " "@ + "Negotiated ALPN protocol on the fallback path."@ + "\n"@),
        shows(prometheus_text(s, uptime), "# TYPE "@ + "reprox_alpn_selected_total"@ + " "@ + "counter"@ + "\n"@),
        shows(prometheus_text(s, uptime), "reprox_alpn_selected_total"@ + "{"@ + ("protocol"@ + "=\""@ + "h2"@ + "\""@) + "} "@ + text::decimal(s.tls.fallback_alpn_h2_total as nat) + "\n"@),
        shows(prometheus_text(s, uptime), "reprox_alpn_selected_total"@ + "{"@ + ("protocol"@ + "=\""@ + "http1"@ + "\""@) + "} "@ + text::decimal(s.tls.fallback_alpn_http1_total as nat) + "\n"@),
        shows(prometheus_text(s, uptime), "reprox_alpn_selected_total"@ + "{"@ + ("protocol"@ + "=\""@ + "none"@ + "\""@) + "} "@ + text::decimal(s.tls.fallback_alpn_none_total as nat) + "\n"@),
        shows(prometheus_text(s, uptime), "# HELP "@ + "reprox_proxy_tls_handshakes_total"@ + " "@ + "Proxy-path TLS handshake outcomes."@ + "\n"@),
        shows(prometheus_text(s, uptime), "# TYPE "@ + "reprox_proxy_tls_handshakes_total"@ + " "@ + "counter"@ + "\n"@),
        shows(prometheus_text(s, uptime), "reprox_proxy_tls_handshakes_total"@ + "{"@ + ("result"@ + "=\""@ + "success"@ + "\""@) + "} "@ + text::decimal(s.tls.proxy_handshake_success_total as nat) + "\n"@),
        shows(prometheus_text(s, uptime), "reprox_proxy_tls_handshakes_total"@ + "{"@ + ("result"@ + "=\""@ + "failure"@ + "\""@) + "} "@ + text::decimal(s.tls.proxy_handshake_failure_total as nat) + "\n"@),
{
    let parts = metric_parts(s, uptime);
    lemma_text_is_its_parts(s, uptime);
    let samples12 = labelled_samples(
            "result"@,
            seq![
                ("success", Value::U(s.tls.fallback_handshake_success_total)),
                ("failure", Value::U(s.tls.fallback_handshake_failure_total)),
            ],
        );
    lemma_metric_shows("reprox_tls_handshakes_total"@, "counter"@, "Fallback-path TLS handshake outcomes."@, samples12);
    lemma_shown_together(parts, 12, "# HELP "@ + "reprox_tls_handshakes_total"@ + " "@ + "Fallback-path TLS handshake outcomes."@ + "\n"@);
    lemma_shown_together(parts, 12, "# TYPE "@ + "reprox_tls_handshakes_total"@ + " "@ + "counter"@ + "\n"@);
    assert(samples12[0].0.len() == 1);
    assert(sample_line("reprox_tls_handshakes_total"@, samples12[0]) == "reprox_tls_handshakes_total"@ + "{"@ + ("result"@ + "=\""@ + "success"@ + "\""@) + "} "@ + text::decimal(s.tls.fallback_handshake_success_total as nat) + "\n"@);
    lemma_shown_together(parts, 12, "reprox_tls_handshakes_total"@ + "{"@ + ("result"@ + "=\""@ + "success"@ + "\""@) + "} "@ + text::decimal(s.tls.fallback_handshake_success_total as nat) + "\n"@);
    assert(samples12[1].0.len() == 1);
    assert(sample_line("reprox_tls_handshakes_total"@, samples12[1]) == "reprox_tls_handshakes_total"@ + "{"@ + ("result"@ + "=\""@ + "failure"@ + "\""@) + "} "@ + text::decimal(s.tls.fallback_handshake_failure_total as nat) + "\n"@);
    lemma_shown_together(parts, 12, "reprox_tls_handshakes_total"@ + "{"@ + ("result"@ + "=\""@ + "failure"@ + "\""@) + "} "@ + text::decimal(s.tls.fallback_handshake_failure_total as nat) + "\n"@);
    let samples13 = labelled_samples(
            "protocol"@,
            seq![
                ("h2", Value::U(s.tls.fallback_alpn_h2_total)),
                ("http1", Value::U(s.tls.fallback_alpn_http1_total)),
                ("none", Value::U(s.tls.fallback_alpn_none_total)),
            ],
        );
    lemma_metric_shows("reprox_alpn_selected_total"@, "counter"@, "Negotiated ALPN protocol on the fallback path."@, samples13);
    lemma_shown_together(parts, 13, "# HELP "@ + "reprox_alpn_selected_total"@ + " "@ + "Negotiated ALPN protocol on the fallback path."@ + "\n"@);
    lemma_shown_together(parts, 13, "# TYPE "@ + "reprox_alpn_selected_total"@ + " "@ + "counter"@ + "\n"@);
    assert(samples13[0].0.len() == 1);
    assert(sample_line("reprox_alpn_selected_total"@, samples13[0]) == "reprox_alpn_selected_total"@ + "{"@ + ("protocol"@ + "=\""@ + "h2"@ + "\""@) + "} "@ + text::decimal(s.tls.fallback_alpn_h2_total as nat) + "\n"@);
    lemma_shown_together(parts, 13, "reprox_alpn_selected_total"@ + "{"@ + ("protocol"@ + "=\""@ + "h2"@ + "\""@) + "} "@ + text::decimal(s.tls.fallback_alpn_h2_total as nat) + "\n"@);
    assert(samples13[1].0.len() == 1);
    assert(sample_line("reprox_alpn_selected_total"@, samples13[1]) == "reprox_alpn_selected_total"@ + "{"@ + ("protocol"@ + "=\""@ + "http1"@ + "\""@) + "} "@ + text::decimal(s.tls.fallback_alpn_http1_total as nat) + "\n"@);
    lemma_shown_together(parts, 13, "reprox_alpn_selected_total"@ + "{"@ + ("protocol"@ + "=\""@ + "http1"@ + "\""@) + "} "@ + text::decimal(s.tls.fallback_alpn_http1_total as nat) + "\n"@);
    assert(samples13[2].0.len() == 1);
    assert(sample_line("reprox_alpn_selected_total"@, samples13[2]) == "reprox_alpn_selected_total"@ + "{"@ + ("protocol"@ + "=\""@ + "none"@ + "\""@) + "} "@ + text::decimal(s.tls.fallback_alpn_none_total as nat) + "\n"@);
    lemma_shown_together(parts, 13, "reprox_alpn_selected_total"@ + "{"@ + ("protocol"@ + "=\""@ + "none"@ + "\""@) + "} "@ + text::decimal(s.tls.fallback_alpn_none_total as nat) + "\n"@);
    let samples14 = labelled_samples(
            "result"@,
            seq![
                ("success", Value::U(s.tls.proxy_handshake_success_total)),
                ("failure", Value::U(s.tls.proxy_handshake_failure_total)),
            ],
        );
    lemma_metric_shows("reprox_proxy_tls_handshakes_total"@, "counter"@, "Proxy-path TLS handshake outcomes."@, samples14);
    lemma_shown_together(parts, 14, "# HELP "@ + "reprox_proxy_tls_handshakes_total"@ + " "@ + "Proxy-path TLS handshake outcomes."@ + "\n"@);
    lemma_shown_together(parts, 14, "# TYPE "@ + "reprox_proxy_tls_handshakes_total"@ + " "@ + "counter"@ + "\n"@);
    assert(samples14[0].0.len() == 1);
    assert(sample_line("reprox_proxy_tls_handshakes_total"@, samples14[0]) == "reprox_proxy_tls_handshakes_total"@ + "{"@ + ("result"@ + "=\""@ + "success"@ + "\""@) + "} "@ + text::decimal(s.tls.proxy_handshake_success_total as nat) + "\n"@);
    lemma_shown_together(parts, 14, "reprox_proxy_tls_handshakes_total"@ + "{"@ + ("result"@ + "=\""@ + "success"@ + "\""@) + "} "@ + text::decimal(s.tls.proxy_handshake_success_total as nat) + "\n"@);
    assert(samples14[1].0.len() == 1);
    assert(sample_line("reprox_proxy_tls_handshakes_total"@, samples14[1]) == "reprox_proxy_tls_handshakes_total"@ + "{"@ + ("result"@ + "=\""@ + "failure"@ + "\""@) + "} "@ + text::decimal(s.tls.proxy_handshake_failure_total as nat) + "\n"@);
    lemma_shown_together(parts, 14, "reprox_proxy_tls_handshakes_total"@ + "{"@ + ("result"@ + "=\""@ + "failure"@ + "\""@) + "} "@ + text::decimal(s.tls.proxy_handshake_failure_total as nat) + "\n"@);
}

/// The text form shows the requests and answers of the fallback site, and how
/// many routes there are.
#[verifier::spinoff_prover]
#[verifier::rlimit(80)]
pub proof fn law_text_shows_requests(s: MetricsSnapshot, uptime: Seq<char>)
    ensures
        shows(prometheus_text(s, uptime), "# HELP "@ + "reprox_http_requests_total"@ + " "@ + "Fallback-site HTTP requests, by method."@ + "\n"@),
        shows(prometheus_text(s, uptime), "# TYPE "@ + "reprox_http_requests_total"@ + " "@ + "counter"@ + "\n"@),
        shows(prometheus_text(s, uptime), "reprox_http_requests_total"@ + "{"@ + ("method"@ + "=\""@ + "GET"@ + "\""@) + "} "@ + text::decimal(s.http.method_get_total as nat) + "\n"@),
        shows(prometheus_text(s, uptime), "reprox_http_requests_total"@ + "{"@ + ("method"@ + "=\""@ + "HEAD"@ + "\""@) + "} "@ + text::decimal(s.http.method_head_total as nat) + "\n"@),
        shows(prometheus_text(s, uptime), "reprox_http_requests_total"@ + "{"@ + ("method"@ + "=\""@ + "OPTIONS"@ + "\""@) + "} "@ + text::decimal(s.http.method_options_total as nat) + "\n"@),
        shows(prometheus_text(s, uptime), "reprox_http_requests_total"@ + "{"@ + ("method"@ + "=\""@ + "other"@ + "\""@) + "} "@ + text::decimal(s.http.method_other_total as nat) + "\n"@),
        shows(prometheus_text(s, uptime), "# HELP "@ + "reprox_http_responses_total"@ + " "@ + "Fallback-site HTTP responses, by status code."@ + "\n"@),
        shows(prometheus_text(s, uptime), "# TYPE "@ + "reprox_http_responses_total"@ + " "@ + "counter"@ + "\n"@),
        shows(prometheus_text(s, uptime), "reprox_http_responses_total"@ + "{"@ + ("status"@ + "=\""@ + "200"@ + "\""@) + "} "@ + text::decimal(s.http.status_200_total as nat) + "\n"@),
        shows(prometheus_text(s, uptime), "reprox_http_responses_total"@ + "{"@ + ("status"@ + "=\""@ + "204"@ + "\""@) + "} "@ + text::decimal(s.http.status_204_total as nat) + "\n"@),
        shows(prometheus_text(s, uptime), "reprox_http_responses_total"@ + "{"@ + ("status"@ + "=\""@ + "304"@ + "\""@) + "} "@ + text::decimal(s.http.status_304_total as nat) + "\n"@),
        shows(prometheus_text(s, uptime), "reprox_http_responses_total"@ + "{"@ + ("status"@ + "=\""@ + "404"@ + "\""@) + "} "@ + text::decimal(s.http.status_404_total as nat) + "\n"@),
        shows(prometheus_text(s, uptime), "reprox_http_responses_total"@ + "{"@ + ("status"@ + "=\""@ + "405"@ + "\""@) + "} "@ + text::decimal(s.http.status_405_total as nat) + "\n"@),
        shows(prometheus_text(s, uptime), "reprox_http_responses_total"@ + "{"@ + ("status"@ + "=\""@ + "other"@ + "\""@) + "} "@ + text::decimal(s.http.status_other_total as nat) + "\n"@),
        shows(prometheus_text(s, uptime), "# HELP "@ + "reprox_http_response_bytes_total"@ + " "@ + "Approximate response body bytes sent by the fallback site (read from Content-Length)."@ + "\n"@),
        shows(prometheus_text(s, uptime), "# TYPE "@ + "reprox_http_response_bytes_total"@ + " "@ + "counter"@ + "\n"@),
        shows(prometheus_text(s, uptime), "reprox_http_response_bytes_total"@ + " "@ + text::decimal(s.http.bytes_sent_total as nat) + "\n"@),
        shows(prometheus_text(s, uptime), "# HELP "@ + "reprox_config_secret_domains"@ + " "@ + "Number of service routes currently configured."@ + "\n"@),
        shows(prometheus_text(s, uptime), "# TYPE "@ + "reprox_config_secret_domains"@ + " "@ + "gauge"@ + "\n"@),
        shows(prometheus_text(s, uptime), "reprox_config_secret_domains"@ + " "@ + text::decimal(s.config.routes_count as u64 as nat) + "\n"@),
{
    let parts = metric_parts(s, uptime);
    lemma_text_is_its_parts(s, uptime);
    let samples15 = labelled_samples(
            "method"@,
            seq![
                ("GET", Value::U(s.http.method_get_total)),
                ("HEAD", Value::U(s.http.method_head_total)),
                ("OPTIONS", Value::U(s.http.method_options_total)),
                ("other", Value::U(s.http.method_other_total)),
            ],
        );
    lemma_metric_shows("reprox_http_requests_total"@, "counter"@, "Fallback-site HTTP requests, by method."@, samples15);
    lemma_shown_together(parts, 15, "# HELP "@ + "reprox_http_requests_total"@ + " "@ + "Fallback-site HTTP requests, by method."@ + "\n"@);
    lemma_shown_together(parts, 15, "# TYPE "@ + "reprox_http_requests_total"@ + " "@ + "counter"@ + "\n"@);
    assert(samples15[0].0.len() == 1);
    assert(sample_line("reprox_http_requests_total"@, samples15[0]) == "reprox_http_requests_total"@ + "{"@ + ("method"@ + "=\""@ + "GET"@ + "\""@) + "} "@ + text::decimal(s.http.method_get_total as nat) + "\n"@);
    lemma_shown_together(parts, 15, "reprox_http_requests_total"@ + "{"@ + ("method"@ + "=\""@ + "GET"@ + "\""@) + "} "@ + text::decimal(s.http.method_get_total as nat) + "\n"@);
    assert(samples15[1].0.len() == 1);
    assert(sample_line("reprox_http_requests_total"@, samples15[1]) == "reprox_http_requests_total"@ + "{"@ + ("method"@ + "=\""@ + "HEAD"@ + "\""@) + "} "@ + text::decimal(s.http.method_head_total as nat) + "\n"@);
    lemma_shown_together(parts, 15, "reprox_http_requests_total"@ + "{"@ + ("method"@ + "=\""@ + "HEAD"@ + "\""@) + "} "@ + text::decimal(s.http.method_head_total as nat) + "\n"@);
    assert(samples15[2].0.len() == 1);
    assert(sample_line("reprox_http_requests_total"@, samples15[2]) == "reprox_http_requests_total"@ + "{"@ + ("method"@ + "=\""@ + "OPTIONS"@ + "\""@) + "} "@ + text::decimal(s.http.method_options_total as nat) + "\n"@);
    lemma_shown_together(parts, 15, "reprox_http_requests_total"@ + "{"@ + ("method"@ + "=\""@ + "OPTIONS"@ + "\""@) + "} "@ + text::decimal(s.http.method_options_total as nat) + "\n"@);
    assert(samples15[3].0.len() == 1);
    assert(sample_line("reprox_http_requests_total"@, samples15[3]) == "reprox_http_requests_total"@ + "{"@ + ("method"@ + "=\""@ + "other"@ + "\""@) + "} "@ + text::decimal(s.http.method_other_total as nat) + "\n"@);
    lemma_shown_together(parts, 15, "reprox_http_requests_total"@ + "{"@ + ("method"@ + "=\""@ + "other"@ + "\""@) + "} "@ + text::decimal(s.http.method_other_total as nat) + "\n"@);
    let samples16 = labelled_samples(
            "status"@,
            seq![
                ("200", Value::U(s.http.status_200_total)),
                ("204", Value::U(s.http.status_204_total)),
                ("304", Value::U(s.http.status_304_total)),
                ("404", Value::U(s.http.status_404_total)),
                ("405", Value::U(s.http.status_405_total)),
                ("other", Value::U(s.http.status_other_total)),
            ],
        );
    lemma_metric_shows("reprox_http_responses_total"@, "counter"@, "Fallback-site HTTP responses, by status code."@, samples16);
    lemma_shown_together(parts, 16, "# HELP "@ + "reprox_http_responses_total"@ + " "@ + "Fallback-site HTTP responses, by status code."@ + "\n"@);
    lemma_shown_together(parts, 16, "# TYPE "@ + "reprox_http_responses_total"@ + " "@ + "counter"@ + "\n"@);
    assert(samples16[0].0.len() == 1);
    assert(sample_line("reprox_http_responses_total"@, samples16[0]) == "reprox_http_responses_total"@ + "{"@ + ("status"@ + "=\""@ + "200"@ + "\""@) + "} "@ + text::decimal(s.http.status_200_total as nat) + "\n"@);
    lemma_shown_together(parts, 16, "reprox_http_responses_total"@ + "{"@ + ("status"@ + "=\""@ + "200"@ + "\""@) + "} "@ + text::decimal(s.http.status_200_total as nat) + "\n"@);
    assert(samples16[1].0.len() == 1);
    assert(sample_line("reprox_http_responses_total"@, samples16[1]) == "reprox_http_responses_total"@ + "{"@ + ("status"@ + "=\""@ + "204"@ + "\""@) + "} "@ + text::decimal(s.http.status_204_total as nat) + "\n"@);
    lemma_shown_together(parts, 16, "reprox_http_responses_total"@ + "{"@ + ("status"@ + "=\""@ + "204"@ + "\""@) + "} "@ + text::decimal(s.http.status_204_total as nat) + "\n"@);
    assert(samples16[2].0.len() == 1);
    assert(sample_line("reprox_http_responses_total"@, samples16[2]) == "reprox_http_responses_total"@ + "{"@ + ("status"@ + "=\""@ + "304"@ + "\""@) + "} "@ + text::decimal(s.http.status_304_total as nat) + "\n"@);
    lemma_shown_together(parts, 16, "reprox_http_responses_total"@ + "{"@ + ("status"@ + "=\""@ + "304"@ + "\""@) + "} "@ + text::decimal(s.http.status_304_total as nat) + "\n"@);
    assert(samples16[3].0.len() == 1);
    assert(sample_line("reprox_http_responses_total"@, samples16[3]) == "reprox_http_responses_total"@ + "{"@ + ("status"@ + "=\""@ + "404"@ + "\""@) + "} "@ + text::decimal(s.http.status_404_total as nat) + "\n"@);
    lemma_shown_together(parts, 16, "reprox_http_responses_total"@ + "{"@ + ("status"@ + "=\""@ + "404"@ + "\""@) + "} "@ + text::decimal(s.http.status_404_total as nat) + "\n"@);
    assert(samples16[4].0.len() == 1);
    assert(sample_line("reprox_http_responses_total"@, samples16[4]) == "reprox_http_responses_total"@ + "{"@ + ("status"@ + "=\""@ + "405"@ + "\""@) + "} "@ + text::decimal(s.http.status_405_total as nat) + "\n"@);
    lemma_shown_together(parts, 16, "reprox_http_responses_total"@ + "{"@ + ("status"@ + "=\""@ + "405"@ + "\""@) + "} "@ + text::decimal(s.http.status_405_total as nat) + "\n"@);
    assert(samples16[5].0.len() == 1);
    assert(sample_line("reprox_http_responses_total"@, samples16[5]) == "reprox_http_responses_total"@ + "{"@ + ("status"@ + "=\""@ + "other"@ + "\""@) + "} "@ + text::decimal(s.http.status_other_total as nat) + "\n"@);
    lemma_shown_together(parts, 16, "reprox_http_responses_total"@ + "{"@ + ("status"@ + "=\""@ + "other"@ + "\""@) + "} "@ + text::decimal(s.http.status_other_total as nat) + "\n"@);
    let samples17 = one_sample(Value::U(s.http.bytes_sent_total));
    lemma_metric_shows("reprox_http_response_bytes_total"@, "counter"@, "Approximate response body bytes sent by the fallback site (read from Content-Length)."@, samples17);
    lemma_shown_together(parts, 17, "# HELP "@ + "reprox_http_response_bytes_total"@ + " "@ + "Approximate response body bytes sent by the fallback site (read from Content-Length)."@ + "\n"@);
    lemma_shown_together(parts, 17, "# TYPE "@ + "reprox_http_response_bytes_total"@ + " "@ + "counter"@ + "\n"@);
    assert(sample_line("reprox_http_response_bytes_total"@, samples17[0]) == "reprox_http_response_bytes_total"@ + " "@ + text::decimal(s.http.bytes_sent_total as nat) + "\n"@);
    lemma_shown_together(parts, 17, "reprox_http_response_bytes_total"@ + " "@ + text::decimal(s.http.bytes_sent_total as nat) + "\n"@);
    let samples18 = one_sample(Value::U(s.config.routes_count as u64));
    lemma_metric_shows("reprox_config_secret_domains"@, "gauge"@, "Number of service routes currently configured."@, samples18);
    lemma_shown_together(parts, 18, "# HELP "@ + "reprox_config_secret_domains"@ + " "@ + "Number of service routes currently configured."@ + "\n"@);
    lemma_shown_together(parts, 18, "# TYPE "@ + "reprox_config_secret_domains"@ + " "@ + "gauge"@ + "\n"@);
    assert(sample_line("reprox_config_secret_domains"@, samples18[0]) == "reprox_config_secret_domains"@ + " "@ + text::decimal(s.config.routes_count as u64 as nat) + "\n"@);
    lemma_shown_together(parts, 18, "reprox_config_secret_domains"@ + " "@ + text::decimal(s.config.routes_count as u64 as nat) + "\n"@);
}

/// What is shown is what was counted, each counter under its own name, with
/// the limit and the routes of the configuration and the time since the start.
pub proof fn law_snapshots_show_what_was_counted(stats: Stats, config: ServiceConfig, now: u64)
    ensures
        snapshot_of(stats, config, now).connections.proxied_total == stats.connections_proxied_total,
        snapshot_of(stats, config, now).connections.fallback_total == stats.connections_fallback_total,
        snapshot_of(stats, config, now).connections.proxied_completed_total == stats.connections_proxied_completed_total,
        snapshot_of(stats, config, now).connections.fallback_completed_total == stats.connections_fallback_completed_total,
        snapshot_of(stats, config, now).connections.active_proxied == stats.active_proxied,
        snapshot_of(stats, config, now).connections.active_fallback == stats.active_fallback,
        snapshot_of(stats, config, now).connections.proxied_duration_ms_sum == stats.proxy_connection_duration_ms_total,
        snapshot_of(stats, config, now).connections.fallback_duration_ms_sum == stats.fallback_connection_duration_ms_total,
        snapshot_of(stats, config, now).connections.probe_timeout_total == stats.connections_probe_timeout_total,
        snapshot_of(stats, config, now).connections.probe_io_error_total == stats.connections_probe_io_error_total,
        snapshot_of(stats, config, now).connections.closed_early_total == stats.connections_closed_early_total,
        snapshot_of(stats, config, now).connections.ip_limit_total == stats.connections_rejected_ip_limit_total,
        snapshot_of(stats, config, now).connections.rate_limit_total == stats.connections_rejected_rate_limit_total,
        snapshot_of(stats, config, now).clienthello.sni_present_total == stats.sni_present_total,
        snapshot_of(stats, config, now).clienthello.sni_absent_total == stats.sni_absent_total,
        snapshot_of(stats, config, now).clienthello.not_tls_total == stats.clienthello_not_tls_total,
        snapshot_of(stats, config, now).proxy.bytes_client_to_service_total == stats.proxy_bytes_client_to_service_total,
        snapshot_of(stats, config, now).proxy.bytes_service_to_client_total == stats.proxy_bytes_service_to_client_total,
        snapshot_of(stats, config, now).proxy.service_connect_failures_total == stats.proxy_service_connect_failures_total,
        snapshot_of(stats, config, now).proxy.service_connect_retries_total == stats.proxy_service_connect_retries_total,
        snapshot_of(stats, config, now).tls.fallback_handshake_success_total == stats.fallback_tls_handshake_success_total,
        snapshot_of(stats, config, now).tls.fallback_handshake_failure_total == stats.fallback_tls_handshake_failure_total,
        snapshot_of(stats, config, now).tls.fallback_alpn_h2_total == stats.fallback_alpn_h2_total,
        snapshot_of(stats, config, now).tls.fallback_alpn_http1_total == stats.fallback_alpn_http1_total,
        snapshot_of(stats, config, now).tls.fallback_alpn_none_total == stats.fallback_alpn_none_total,
        snapshot_of(stats, config, now).tls.proxy_handshake_success_total == stats.proxy_tls_handshake_success_total,
        snapshot_of(stats, config, now).tls.proxy_handshake_failure_total == stats.proxy_tls_handshake_failure_total,
        snapshot_of(stats, config, now).http.method_get_total == stats.http_method_get_total,
        snapshot_of(stats, config, now).http.method_head_total == stats.http_method_head_total,
        snapshot_of(stats, config, now).http.method_options_total == stats.http_method_options_total,
        snapshot_of(stats, config, now).http.method_other_total == stats.http_method_other_total,
        snapshot_of(stats, config, now).http.status_200_total == stats.http_status_200_total,
        snapshot_of(stats, config, now).http.status_204_total == stats.http_status_204_total,
        snapshot_of(stats, config, now).http.status_304_total == stats.http_status_304_total,
        snapshot_of(stats, config, now).http.status_404_total == stats.http_status_404_total,
        snapshot_of(stats, config, now).http.status_405_total == stats.http_status_405_total,
        snapshot_of(stats, config, now).http.status_other_total == stats.http_status_other_total,
        snapshot_of(stats, config, now).http.bytes_sent_total == stats.http_bytes_sent_total,
        snapshot_of(stats, config, now).connections.connections_limit == config.max_connections,
        stats.connections <= config.max_connections ==> snapshot_of(
            stats,
            config,
            now,
        ).connections.connections_available == config.max_connections - stats.connections,
        stats.connections > config.max_connections ==> snapshot_of(
            stats,
            config,
            now,
        ).connections.connections_available == 0,
        config.routes@.len() <= usize::MAX ==> snapshot_of(stats, config, now).config.routes_count
            == config.routes@.len(),
        snapshot_of(stats, config, now).config.tls_profile@ == config.tls_min_version@,
        stats.start <= now ==> snapshot_of(stats, config, now).uptime_nanos == now - stats.start,
        stats.start > now ==> snapshot_of(stats, config, now).uptime_nanos == 0,
{
}

/// Everything starts at zero.
pub proof fn law_everything_starts_at_zero(start: u64)
    ensures
        Stats::zero(start).start == start,
        Stats::zero(start).connections == 0,
        Stats::zero(start).connections_rejected_ip_limit_total == 0,
        Stats::zero(start).connections_rejected_rate_limit_total == 0,
        Stats::zero(start).connections_proxied_total == 0,
        Stats::zero(start).connections_fallback_total == 0,
        Stats::zero(start).connections_proxied_completed_total == 0,
        Stats::zero(start).connections_fallback_completed_total == 0,
        Stats::zero(start).proxy_connection_duration_ms_total == 0,
        Stats::zero(start).fallback_connection_duration_ms_total == 0,
        Stats::zero(start).connections_probe_timeout_total == 0,
        Stats::zero(start).connections_probe_io_error_total == 0,
        Stats::zero(start).connections_closed_early_total == 0,
        Stats::zero(start).active_proxied == 0,
        Stats::zero(start).active_fallback == 0,
        Stats::zero(start).sni_present_total == 0,
        Stats::zero(start).sni_absent_total == 0,
        Stats::zero(start).clienthello_not_tls_total == 0,
        Stats::zero(start).proxy_bytes_client_to_service_total == 0,
        Stats::zero(start).proxy_bytes_service_to_client_total == 0,
        Stats::zero(start).proxy_service_connect_failures_total == 0,
        Stats::zero(start).proxy_service_connect_retries_total == 0,
        Stats::zero(start).fallback_tls_handshake_success_total == 0,
        Stats::zero(start).fallback_tls_handshake_failure_total == 0,
        Stats::zero(start).fallback_alpn_h2_total == 0,
        Stats::zero(start).fallback_alpn_http1_total == 0,
        Stats::zero(start).fallback_alpn_none_total == 0,
        Stats::zero(start).proxy_tls_handshake_success_total == 0,
        Stats::zero(start).proxy_tls_handshake_failure_total == 0,
        Stats::zero(start).http_method_get_total == 0,
        Stats::zero(start).http_method_head_total == 0,
        Stats::zero(start).http_method_options_total == 0,
        Stats::zero(start).http_method_other_total == 0,
        Stats::zero(start).http_status_200_total == 0,
        Stats::zero(start).http_status_204_total == 0,
        Stats::zero(start).http_status_304_total == 0,
        Stats::zero(start).http_status_404_total == 0,
        Stats::zero(start).http_status_405_total == 0,
        Stats::zero(start).http_status_other_total == 0,
        Stats::zero(start).http_bytes_sent_total == 0,
{
}

/// What beginning and ending a connection move, each way, and that they move
/// nothing else.
pub proof fn law_each_way_has_its_counters(s: Stats, elapsed_ms: u64)
    requires
        s.connections_proxied_total < u64::MAX,
        s.connections_fallback_total < u64::MAX,
        s.connections_proxied_completed_total < u64::MAX,
        s.connections_fallback_completed_total < u64::MAX,
        s.proxy_connection_duration_ms_total + elapsed_ms <= u64::MAX,
        s.fallback_connection_duration_ms_total + elapsed_ms <= u64::MAX,
        i64::MIN < s.active_proxied < i64::MAX,
        i64::MIN < s.active_fallback < i64::MAX,
    ensures
        begun(s, Route::Proxied) == (Stats {
            connections_proxied_total: (s.connections_proxied_total + 1) as u64,
            active_proxied: (s.active_proxied + 1) as i64,
            ..s
        }),
        begun(s, Route::Fallback) == (Stats {
            connections_fallback_total: (s.connections_fallback_total + 1) as u64,
            active_fallback: (s.active_fallback + 1) as i64,
            ..s
        }),
        finished(s, Route::Proxied, elapsed_ms) == (Stats {
            active_proxied: (s.active_proxied - 1) as i64,
            connections_proxied_completed_total: (s.connections_proxied_completed_total + 1) as u64,
            proxy_connection_duration_ms_total: (s.proxy_connection_duration_ms_total
                + elapsed_ms) as u64,
            ..s
        }),
        finished(s, Route::Fallback, elapsed_ms) == (Stats {
            active_fallback: (s.active_fallback - 1) as i64,
            connections_fallback_completed_total: (s.connections_fallback_completed_total
                + 1) as u64,
            fallback_connection_duration_ms_total: (s.fallback_connection_duration_ms_total
                + elapsed_ms) as u64,
            ..s
        }),
        s.served() == s.active_proxied + s.active_fallback,
{
}

/// The time from one moment to another is their difference, and nothing if
/// the second is not later.
pub proof fn law_time_goes_by(from: u64, to: u64)
    ensures
        from <= to ==> elapsed_nanos(from, to) == to - from,
        from > to ==> elapsed_nanos(from, to) == 0,
{
}

/// What each path of the API answers.
pub proof fn law_api_answers(
    method: Seq<char>,
    path: Seq<char>,
    snapshot: MetricsSnapshot,
    uptime: Seq<char>,
)
    ensures
        api_answer("GET"@, "/metrics"@, snapshot, uptime) == (
            200u16,
            "text/plain; version=0.0.4; charset=utf-8"@,
            ApiContent::Text(prometheus_text(snapshot, uptime)),
        ),
        api_answer("GET"@, "/metrics.json"@, snapshot, uptime) == (
            200u16,
            "application/json; charset=utf-8"@,
            ApiContent::Json(snapshot),
        ),
        api_answer("GET"@, "/healthz"@, snapshot, uptime) == (
            200u16,
            "text/plain; charset=utf-8"@,
            ApiContent::Text("ok\n"@),
        ),
        method != "GET"@ ==> api_answer(method, path, snapshot, uptime) == (
            405u16,
            "text/plain; charset=utf-8"@,
            ApiContent::Text("method not allowed\n"@),
        ),
        path != "/metrics"@ && path != "/metrics.json"@ && path != "/healthz"@ ==> api_answer(
            "GET"@,
            path,
            snapshot,
            uptime,
        ) == (404u16, "text/plain; charset=utf-8"@, ApiContent::Text("not found\n"@)),
{
    reveal_strlit("/metrics");
    reveal_strlit("/metrics.json");
    reveal_strlit("/healthz");
    assert("/metrics"@.len() == 8 && "/metrics.json"@.len() == 13 && "/healthz"@.len() == 8);
    assert("/metrics"@[1] == 'm' && "/healthz"@[1] == 'h');
}

/// The views of the API's responses show what they are.
pub proof fn law_api_responses_are_shown_as_they_are(response: ApiResponse)
    ensures
        response@.0 == response.status,
        response@.1 == response.content_type@,
        response.body matches ApiBody::Text(s) ==> response@.2 == ApiContent::Text(s@),
        response.body matches ApiBody::Json(shown) ==> response@.2 == ApiContent::Json(shown),
{
}

/// The form of a metric: a line of help, a line with its type, its samples
/// each on a line of its own, and an empty line.
pub proof fn law_form_of_a_metric(
    name: Seq<char>,
    metric_type: Seq<char>,
    help: Seq<char>,
    samples: Seq<(Seq<(Seq<char>, Seq<char>)>, Seq<char>)>,
    value: Seq<char>,
    labels: Seq<(Seq<char>, Seq<char>)>,
)
    ensures
        metric_text(name, metric_type, help, samples) == "# HELP "@ + name + " "@ + help + "\n"@
            + "# TYPE "@ + name + " "@ + metric_type + "\n"@ + sample_lines(name, samples)
            + "\n"@,
        sample_lines(name, Seq::empty()) == Seq::<char>::empty(),
        labels.len() == 0 ==> sample_lines(name, samples.push((labels, value))) == sample_lines(
            name,
            samples,
        ) + (name + " "@ + value + "\n"@),
        labels.len() > 0 ==> sample_lines(name, samples.push((labels, value))) == sample_lines(
            name,
            samples,
        ) + (name + "{"@ + joined_labels(labels) + "} "@ + value + "\n"@),
{
    reveal(metric_text);
    assert(samples.push((labels, value)).drop_last() =~= samples);
}

/// Labels are written as a key and a value in quotes, with commas between
/// them.
pub proof fn law_form_of_labels(
    labels: Seq<(Seq<char>, Seq<char>)>,
    key: Seq<char>,
    value: Seq<char>,
)
    ensures
        joined_labels(seq![(key, value)]) == key + "=\""@ + value + "\""@,
        labels.len() > 0 ==> joined_labels(labels.push((key, value))) == joined_labels(labels)
            + ","@ + (key + "=\""@ + value + "\""@),
{
    assert(labels.push((key, value)).drop_last() =~= labels);
}

/// Values are written in decimal, and samples with their own labels and
/// values.
pub proof fn law_form_of_samples(
    n: u64,
    i: i64,
    s: String,
    samples: Seq<Sample>,
    labels: Seq<(&'static str, &'static str)>,
)
    ensures
        value_text(Value::U(n)) == text::decimal(n as nat),
        value_text(Value::I(i)) == text::signed_decimal(i as int),
        value_text(Value::F(s)) == s@,
        label_texts(labels).len() == labels.len(),
        forall|k: int|
            0 <= k < labels.len() ==> #[trigger] label_texts(labels)[k] == (
                labels[k].0@,
                labels[k].1@,
            ),
        sample_texts(samples).len() == samples.len(),
        forall|k: int|
            0 <= k < samples.len() ==> #[trigger] sample_texts(samples)[k] == (
                label_texts(samples[k].labels@),
                value_text(samples[k].value),
            ),
{
}

/// Counters that have come to the end of 64 bits start over, and so do the
/// gauges at either end.
pub proof fn law_counters_of_connections_start_over(s: Stats, elapsed_ms: u64)
    ensures
        begun(s, Route::Proxied).connections_proxied_total as int == (s.connections_proxied_total + 1) % 0x1_0000_0000_0000_0000,
        begun(s, Route::Fallback).connections_fallback_total as int == (s.connections_fallback_total + 1) % 0x1_0000_0000_0000_0000,
        finished(s, Route::Proxied, elapsed_ms).connections_proxied_completed_total as int == (s.connections_proxied_completed_total + 1) % 0x1_0000_0000_0000_0000,
        finished(s, Route::Fallback, elapsed_ms).connections_fallback_completed_total as int == (s.connections_fallback_completed_total + 1) % 0x1_0000_0000_0000_0000,
        finished(s, Route::Proxied, elapsed_ms).proxy_connection_duration_ms_total as int == (s.proxy_connection_duration_ms_total + elapsed_ms) % 0x1_0000_0000_0000_0000,
        finished(s, Route::Fallback, elapsed_ms).fallback_connection_duration_ms_total as int == (s.fallback_connection_duration_ms_total + elapsed_ms) % 0x1_0000_0000_0000_0000,
        s.active_proxied == i64::MAX ==> begun(s, Route::Proxied).active_proxied == i64::MIN,
        s.active_fallback == i64::MAX ==> begun(s, Route::Fallback).active_fallback == i64::MIN,
        s.active_proxied == i64::MIN ==> finished(s, Route::Proxied, elapsed_ms).active_proxied
            == i64::MAX,
        s.active_fallback == i64::MIN ==> finished(s, Route::Fallback, elapsed_ms).active_fallback
            == i64::MAX,
{
}

} // verus!
