//! Taking over a new configuration while running. A reload that fails at any
//! step changes nothing.

use crate::config;
use crate::config::{FixedSetting, ServiceConfig};
use crate::ip_limiter::IpLimiter;
use crate::rate_limiter::RateLimiter;
use crate::route::router::Router;
use crate::tls::{KeyMaterial, TlsError};
use vstd::prelude::*;

verus! {

/// What a reload does after the configuration has been read.
#[derive(Debug)]
pub enum ReloadStep {
    /// The configuration could not be read, or was refused. Nothing changes.
    ConfigFailed,
    /// Load the certificate and the key of this configuration. The settings
    /// listed have changed but take a restart.
    LoadCertificate { new: ServiceConfig, ignored: Vec<FixedSetting> },
}

/// Goes on from what reading the configuration came to.
pub fn config_read(running: &ServiceConfig, loaded: Option<ServiceConfig>) -> (res: ReloadStep)
    ensures
        match loaded {
            None => res is ConfigFailed,
            Some(cfg) => res matches ReloadStep::LoadCertificate { new, ignored } && new == cfg
                && ignored@ == config::fixed_changes(*running, cfg),
        },
{
    match loaded {
        None => ReloadStep::ConfigFailed,
        Some(new) => {
            let ignored = running.warn_about_unreloadable_changes(&new);
            ReloadStep::LoadCertificate { new, ignored }
        },
    }
}

/// Everything that a reload touches is as the configuration says, with the
/// settings that take a restart as they were.
pub open spec fn taken_over(
    running: ServiceConfig,
    new: ServiceConfig,
    router: Router,
    ips: IpLimiter,
    rates: RateLimiter,
) -> bool {
    &&& router.well_formed()
    &&& config::fixed_settings_kept(running, new, router.config())
    &&& ips.limit() == new.per_ip_limit()
    &&& rates.rate() == new.per_ip_rate()
    &&& rates.burst() == new.per_ip_burst()
}

/// Ends a reload: takes over all of the new configuration if its certificate
/// could be loaded, and nothing of it otherwise. What comes back is the router
/// for the connections to come, to be used together with the new certificate.
/// Connections that clients have open stay counted, and what clients have used
/// up stays used.
pub fn hot_reload(
    router: &Router,
    ips: &mut IpLimiter,
    rates: &mut RateLimiter,
    new: ServiceConfig,
    certificate_loaded: bool,
) -> (res: Option<Router>)
    ensures
        res is Some <==> certificate_loaded,
        res is None ==> *final(ips) == *old(ips) && *final(rates) == *old(rates),
        res matches Some(next) ==> taken_over(
            router.config(),
            new,
            next,
            *final(ips),
            *final(rates),
        ),
        final(ips).counts() == old(ips).counts(),
        final(rates).buckets() == old(rates).buckets(),
{
    if !certificate_loaded {
        return None;
    }
    ips.set_limit(new.ip_limit());
    rates.set_limit(new.ip_rate(), new.ip_burst());
    Some(router.reload(new))
}

/// Ends a reload with what loading the certificate came to. The router for the
/// connections to come comes back together with the certificate and the key
/// that were loaded for it, so that the two are put to use as one.
pub fn take_over(
    router: &Router,
    ips: &mut IpLimiter,
    rates: &mut RateLimiter,
    new: ServiceConfig,
    material: Result<KeyMaterial, TlsError>,
) -> (res: Option<(Router, KeyMaterial)>)
    ensures
        res is Some <==> material is Ok,
        res is None ==> *final(ips) == *old(ips) && *final(rates) == *old(rates),
        res matches Some((next, key)) ==> {
            &&& material == Ok::<KeyMaterial, TlsError>(key)
            &&& taken_over(router.config(), new, next, *final(ips), *final(rates))
        },
        final(ips).counts() == old(ips).counts(),
        final(rates).buckets() == old(rates).buckets(),
{
    match material {
        Ok(key) => match hot_reload(router, ips, rates, new, true) {
            Some(next) => Some((next, key)),
            None => None,
        },
        Err(_) => None,
    }
}

/// One reload: a configuration, and what loading its certificate came to.
pub ghost struct Reload {
    pub new: ServiceConfig,
    pub material: Result<KeyMaterial, TlsError>,
}

/// What is in force before and after a reload: a router, and the certificate
/// with its key.
pub open spec fn reload_step(
    before: (Router, KeyMaterial),
    reload: Reload,
    after: (Router, KeyMaterial),
) -> bool {
    match reload.material {
        Ok(key) => {
            &&& after.0.well_formed()
            &&& config::fixed_settings_kept(before.0.config(), reload.new, after.0.config())
            &&& after.1 == key
        },
        Err(_) => after == before,
    }
}

/// The routes and the certificate in force are those of one reload, unless no
/// reload has succeeded yet: routes of one configuration never go with the
/// certificate of another.
pub proof fn law_routes_and_certificate_go_together(
    states: Seq<(Router, KeyMaterial)>,
    reloads: Seq<Reload>,
    i: int,
)
    requires
        states.len() == reloads.len() + 1,
        forall|j: int|
            0 <= j < reloads.len() ==> reload_step(states[j], #[trigger] reloads[j], states[j + 1]),
        0 <= i < states.len(),
    ensures
        states[i] == states[0] || exists|j: int|
            0 <= j < i && (#[trigger] reloads[j]).material == Ok::<KeyMaterial, TlsError>(
                states[i].1,
            ) && states[i].0.routes() == reloads[j].new.routes@,
    decreases i,
{
    if i > 0 {
        law_routes_and_certificate_go_together(states, reloads, i - 1);
        let last = reloads[i - 1];
        assert(reload_step(states[i - 1], last, states[i]));
        if last.material is Ok {
            config::law_reload_keeps_fixed_settings(
                states[i - 1].0.config(),
                last.new,
                states[i].0.config(),
            );
        }
    }
}

/// A reload never changes a setting that takes a restart, whatever the new
/// configuration says of it.
pub proof fn law_reload_leaves_fixed_settings(
    running: ServiceConfig,
    new: ServiceConfig,
    router: Router,
    ips: IpLimiter,
    rates: RateLimiter,
)
    requires
        taken_over(running, new, router, ips, rates),
    ensures
        config::fixed_changes(running, router.config()) == Seq::<FixedSetting>::empty(),
        router.routes() == new.routes@,
{
    config::law_reload_keeps_fixed_settings(running, new, router.config());
}

/// What a reload that succeeds leaves behind: the routes, the limits and every
/// other setting of the new configuration, but for the fixed ones.
pub proof fn law_what_is_in_force_after_a_reload(
    running: ServiceConfig,
    new: ServiceConfig,
    router: Router,
    ips: IpLimiter,
    rates: RateLimiter,
)
    requires
        taken_over(running, new, router, ips, rates),
    ensures
        router.well_formed(),
        router.routes() == new.routes@,
        router.config().handshake_timeout_secs == new.handshake_timeout_secs,
        router.config().server_header@ == new.server_header@,
        router.config().listen_addr == running.listen_addr,
        router.config().metrics_addr == running.metrics_addr,
        router.config().tls_min_version@ == running.tls_min_version@,
        router.config().max_connections == running.max_connections,
        router.config().static_dir@ == running.static_dir@,
        new.max_connections_per_ip matches Some(n) ==> ips.limit() == n,
        new.max_connections_per_ip is None ==> ips.limit() == 0,
        new.connection_rate_per_ip matches Some(crate::rate::ConnectionRate::PerSecond(rate))
            ==> rates.rate() == rate,
        new.connection_rate_per_ip is None ==> rates.rate().digits == 0,
        new.connection_burst_per_ip matches Some(n) ==> rates.burst() == n,
        new.connection_burst_per_ip is None ==> rates.burst() == 10,
{
}

/// A reload whose certificate was loaded puts that certificate in force; one
/// whose certificate was not changes nothing at all.
pub proof fn law_one_reload(
    before: (Router, KeyMaterial),
    reload: Reload,
    after: (Router, KeyMaterial),
)
    requires
        reload_step(before, reload, after),
    ensures
        reload.material matches Ok(key) ==> after.1 == key && after.0.routes() == reload.new.routes@,
        reload.material is Err ==> after == before,
{
}

} // verus!
