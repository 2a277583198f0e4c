//! Which way each connection goes: to the service behind a route, or to the
//! fallback site.

use crate::config;
use crate::config::{ConfigFacts, ProxyTarget, ServiceConfig};
use crate::metrics;
use crate::metrics::{ActiveGuard, Route, Stats};
use crate::sni;
use crate::sni::{ProbeResult, Probed};
use crate::tables;
use crate::tables::RouteTable;
use crate::text;
use crate::time::Duration;
use vstd::prelude::*;

verus! {

/// What probing a connection came to.
#[derive(Debug)]
pub enum ProbeOutcome {
    /// No ClientHello arrived in time.
    TimedOut,
    /// Reading from the connection failed.
    ReadFailed,
    Done(ProbeResult),
}

/// `ProbeOutcome` over mathematical values.
pub enum Outcome {
    TimedOut,
    ReadFailed,
    Done(Probed),
}

impl View for ProbeOutcome {
    type V = Outcome;

    open spec fn view(&self) -> Outcome {
        match *self {
            ProbeOutcome::TimedOut => Outcome::TimedOut,
            ProbeOutcome::ReadFailed => Outcome::ReadFailed,
            ProbeOutcome::Done(result) => Outcome::Done(result@),
        }
    }
}

/// What is done with a connection. Routes are given by their place in the
/// configuration.
#[derive(Debug, PartialEq, Eq, Structural)]
pub enum RouteAction {
    /// Shut the connection down.
    Shutdown,
    /// The peer is gone; there is nothing to do.
    Leave,
    /// Forward the bytes untouched.
    Passthrough { route: usize, active: ActiveGuard },
    /// Terminate TLS, and forward the plaintext.
    Terminate { route: usize, active: ActiveGuard },
    /// Serve the fallback site.
    Fallback { active: ActiveGuard },
}

/// The place of each route by its server name; of routes with the same name
/// the last counts.
pub open spec fn route_places(routes: Seq<ProxyTarget>) -> Map<Seq<char>, usize>
    decreases routes.len(),
{
    if routes.len() == 0 {
        Map::empty()
    } else {
        route_places(routes.drop_last()).insert(
            routes.last().sni@,
            (routes.len() - 1) as usize,
        )
    }
}

/// The route that answers to a server name.
pub open spec fn route_for(routes: Seq<ProxyTarget>, host: Seq<char>) -> Option<usize> {
    if route_places(routes).contains_key(host) {
        Some(route_places(routes)[host])
    } else {
        None
    }
}

/// The route for what probing found.
pub open spec fn route_for_probed(routes: Seq<ProxyTarget>, probed: Probed) -> Option<usize> {
    match probed {
        Probed::Sni(host) => route_for(routes, host),
        _ => None,
    }
}

/// What is done with a connection after probing.
pub open spec fn action_for(routes: Seq<ProxyTarget>, outcome: Outcome, now: u64) -> RouteAction {
    match outcome {
        Outcome::TimedOut | Outcome::ReadFailed => RouteAction::Shutdown,
        Outcome::Done(Probed::ConnectionClosed) => RouteAction::Leave,
        Outcome::Done(probed) => match route_for_probed(routes, probed) {
            Some(route) => if routes[route as int].tls_passthrough {
                RouteAction::Passthrough {
                    route,
                    active: ActiveGuard { route: Route::Proxied, started: now },
                }
            } else {
                RouteAction::Terminate {
                    route,
                    active: ActiveGuard { route: Route::Proxied, started: now },
                }
            },
            None => RouteAction::Fallback {
                active: ActiveGuard { route: Route::Fallback, started: now },
            },
        },
    }
}

/// The stats with what probing found counted.
pub open spec fn probe_counted(outcome: Outcome, s: Stats) -> Stats {
    match outcome {
        Outcome::TimedOut => Stats {
            connections_probe_timeout_total: s.connections_probe_timeout_total.wrapping_add(1),
            ..s
        },
        Outcome::ReadFailed => Stats {
            connections_probe_io_error_total: s.connections_probe_io_error_total.wrapping_add(1),
            ..s
        },
        Outcome::Done(Probed::Sni(_)) => Stats {
            sni_present_total: s.sni_present_total.wrapping_add(1),
            ..s
        },
        Outcome::Done(Probed::NoSni) => Stats {
            sni_absent_total: s.sni_absent_total.wrapping_add(1),
            ..s
        },
        Outcome::Done(Probed::NotTls) => Stats {
            clienthello_not_tls_total: s.clienthello_not_tls_total.wrapping_add(1),
            ..s
        },
        Outcome::Done(Probed::ConnectionClosed) => Stats {
            connections_closed_early_total: s.connections_closed_early_total.wrapping_add(1),
            ..s
        },
    }
}

/// The stats after a connection has been sent its way.
pub open spec fn routed_stats(action: RouteAction, outcome: Outcome, s: Stats) -> Stats {
    let counted = probe_counted(outcome, s);
    match action {
        RouteAction::Shutdown | RouteAction::Leave => counted,
        RouteAction::Passthrough { .. } | RouteAction::Terminate { .. } => metrics::begun(
            counted,
            Route::Proxied,
        ),
        RouteAction::Fallback { .. } => metrics::begun(counted, Route::Fallback),
    }
}

/// The routes of a configuration, ready to be looked up.
pub struct Router {
    table: RouteTable,
    config: ServiceConfig,
}

proof fn lemma_places_are_in_range(routes: Seq<ProxyTarget>, host: Seq<char>)
    requires
        routes.len() <= usize::MAX,
    ensures
        route_places(routes).contains_key(host) ==> {
            let i = route_places(routes)[host];
            i < routes.len() && routes[i as int].sni@ == host
        },
    decreases routes.len(),
{
    if routes.len() > 0 {
        lemma_places_are_in_range(routes.drop_last(), host);
        if routes.last().sni@ != host && route_places(routes).contains_key(host) {
            let i = route_places(routes)[host];
            assert(routes.drop_last()[i as int] == routes[i as int]);
        }
    }
}

fn build_table(routes: &Vec<ProxyTarget>) -> (res: RouteTable)
    ensures
        tables::routes_in(res) == route_places(routes@),
{
    let mut table = RouteTable::new();
    for i in 0..routes.len()
        invariant
            tables::routes_in(table) == route_places(routes@.take(i as int)),
    {
        proof {
            assert(routes@.take(i + 1).drop_last() =~= routes@.take(i as int));
            assert(routes@.take(i + 1).last() == routes@[i as int]);
        }
        table.insert(routes[i].sni.clone(), i);
    }
    proof {
        assert(routes@.take(routes@.len() as int) =~= routes@);
    }
    table
}

impl Router {
    /// The configuration in use.
    pub closed spec fn config(self) -> ServiceConfig {
        self.config
    }

    /// The routes in use.
    pub open spec fn routes(self) -> Seq<ProxyTarget> {
        self.config().routes@
    }

    /// The table is that of the routes.
    pub closed spec fn well_formed(self) -> bool {
        tables::routes_in(self.table) == route_places(self.config.routes@)
    }

    /// Makes the routes of a configuration ready to be looked up.
    pub fn new(config: ServiceConfig) -> (res: Router)
        ensures
            res.well_formed(),
            res.config() == config,
    {
        Router { table: build_table(&config.routes), config }
    }

    /// The router for the connections to come once `new` is taken over. The
    /// settings that take a restart stay as they are. Connections that are
    /// being served keep the router that they have.
    pub fn reload(&self, new: ServiceConfig) -> (res: Router)
        ensures
            res.well_formed(),
            config::fixed_settings_kept(self.config(), new, res.config()),
    {
        Router::new(self.config.reloaded(new))
    }

    /// The configuration in use.
    pub fn current_config(&self) -> (res: &ServiceConfig)
        ensures
            *res == self.config(),
    {
        &self.config
    }

    /// How long probing, and how long a handshake, may take.
    pub fn handshake_timeout(&self) -> (res: Duration)
        ensures
            res.nanos == self.config().handshake_timeout_secs * 1_000_000_000,
    {
        Duration::from_secs(self.config.handshake_timeout_secs)
    }

    /// The route that answers to a server name, given in the form in which
    /// host names are compared.
    pub fn lookup(&self, host: &str) -> (res: Option<usize>)
        requires
            self.well_formed(),
        ensures
            res == route_for(self.routes(), host@),
            res matches Some(i) ==> i < self.routes().len(),
    {
        proof {
            assert(self.config.routes@.len() <= usize::MAX) by {
                let n: usize = self.config.routes.len();
                assert(n == self.config.routes@.len());
            }
            lemma_places_are_in_range(self.config.routes@, host@);
        }
        self.table.get(host)
    }

    /// Where the service behind a route listens.
    pub fn upstream(&self, route: usize) -> (res: &str)
        requires
            route < self.routes().len(),
        ensures
            res@ == self.routes()[route as int].upstream@,
    {
        self.config.routes[route].upstream.as_str()
    }

    /// Sends a connection its way: to the service whose name it asks for, and
    /// to the fallback site if there is none, if it names none, and if it does
    /// not speak TLS at all.
    pub fn route(&self, outcome: &ProbeOutcome, stats: &mut Stats, now: u64) -> (res: RouteAction)
        requires
            self.well_formed(),
        ensures
            res == action_for(self.routes(), outcome@, now),
            *final(stats) == routed_stats(res, outcome@, *old(stats)),
            res matches RouteAction::Passthrough { route, .. } ==> route < self.routes().len(),
            res matches RouteAction::Terminate { route, .. } ==> route < self.routes().len(),
    {
        let result = match outcome {
            ProbeOutcome::TimedOut => {
                stats.connections_probe_timeout_total =
                    stats.connections_probe_timeout_total.wrapping_add(1);
                return RouteAction::Shutdown;
            },
            ProbeOutcome::ReadFailed => {
                stats.connections_probe_io_error_total =
                    stats.connections_probe_io_error_total.wrapping_add(1);
                return RouteAction::Shutdown;
            },
            ProbeOutcome::Done(result) => result,
        };
        let target: Option<usize> = match result {
            ProbeResult::Sni(host) => {
                stats.sni_present_total = stats.sni_present_total.wrapping_add(1);
                self.lookup(host.as_str())
            },
            ProbeResult::NoSni => {
                stats.sni_absent_total = stats.sni_absent_total.wrapping_add(1);
                None
            },
            ProbeResult::NotTls => {
                stats.clienthello_not_tls_total = stats.clienthello_not_tls_total.wrapping_add(1);
                None
            },
            ProbeResult::ConnectionClosed => {
                stats.connections_closed_early_total =
                    stats.connections_closed_early_total.wrapping_add(1);
                return RouteAction::Leave;
            },
        };
        match target {
            Some(route) => {
                let active = stats.begin_proxied(now);
                if self.config.routes[route].tls_passthrough {
                    RouteAction::Passthrough { route, active }
                } else {
                    RouteAction::Terminate { route, active }
                }
            },
            None => RouteAction::Fallback { active: stats.begin_fallback(now) },
        }
    }
}

// ---------------------------------------------------------------------
// Laws
// ---------------------------------------------------------------------

proof fn lemma_named_route_is_found(routes: Seq<ProxyTarget>, i: int)
    requires
        0 <= i < routes.len() <= usize::MAX,
        forall|j: int| i < j < routes.len() ==> (#[trigger] routes[j]).sni@ != routes[i].sni@,
    ensures
        route_for(routes, routes[i].sni@) == Some(i as usize),
    decreases routes.len(),
{
    if i < routes.len() - 1 {
        let rest = routes.drop_last();
        assert(rest[i] == routes[i]);
        assert forall|j: int| i < j < rest.len() implies (#[trigger] rest[j]).sni@
            != rest[i].sni@ by {
            assert(rest[j] == routes[j]);
        }
        lemma_named_route_is_found(rest, i);
        assert(routes[routes.len() - 1].sni@ != routes[i].sni@);
    }
}

proof fn lemma_unnamed_route_is_not_found(routes: Seq<ProxyTarget>, host: Seq<char>)
    requires
        forall|j: int| 0 <= j < routes.len() ==> (#[trigger] routes[j]).sni@ != host,
    ensures
        route_for(routes, host) is None,
    decreases routes.len(),
{
    if routes.len() > 0 {
        let rest = routes.drop_last();
        assert forall|j: int| 0 <= j < rest.len() implies (#[trigger] rest[j]).sni@ != host by {
            assert(rest[j] == routes[j]);
        }
        lemma_unnamed_route_is_not_found(rest, host);
        assert(routes[routes.len() - 1].sni@ != host);
    }
}

/// In a configuration that is accepted, every route answers to its own name,
/// and to no other.
pub proof fn law_every_route_answers_to_its_name(cfg: ServiceConfig, facts: ConfigFacts, i: int)
    requires
        config::config_error(cfg, facts) is None,
        0 <= i < cfg.routes@.len() <= usize::MAX,
    ensures
        route_for(cfg.routes@, cfg.routes@[i].sni@) == Some(i as usize),
        forall|host: Seq<char>| #[trigger]
            route_for(cfg.routes@, host) == Some(i as usize) ==> host == cfg.routes@[i].sni@,
{
    config::law_accepted_routes_are_sound(cfg, facts);
    let routes = cfg.routes@;
    assert forall|j: int| i < j < routes.len() implies (#[trigger] routes[j]).sni@
        != routes[i].sni@ by {
        assert(routes[i].sni@ != routes[j].sni@);
    }
    lemma_named_route_is_found(routes, i);
    assert forall|host: Seq<char>| #[trigger] route_for(routes, host) == Some(
        i as usize,
    ) implies host == routes[i].sni@ by {
        lemma_places_are_in_range(routes, host);
    }
}

/// A connection that names no configured service, names nothing, or does not
/// speak TLS goes to the fallback site; it is never dropped.
pub proof fn law_everything_else_goes_to_the_fallback_site(
    routes: Seq<ProxyTarget>,
    probed: Probed,
    now: u64,
)
    requires
        probed !is ConnectionClosed,
        probed matches Probed::Sni(host) ==> forall|j: int|
            0 <= j < routes.len() ==> (#[trigger] routes[j]).sni@ != host,
    ensures
        action_for(routes, Outcome::Done(probed), now) == (RouteAction::Fallback {
            active: ActiveGuard { route: Route::Fallback, started: now },
        }),
{
    if let Probed::Sni(host) = probed {
        lemma_unnamed_route_is_not_found(routes, host);
    }
}

/// From the first bytes of a connection to its service: a ClientHello for a
/// host reaches the service that is configured for that host, however either
/// of them is capitalised and whether or not it ends in a dot.
pub proof fn law_client_hello_reaches_its_service(
    cfg: ServiceConfig,
    facts: ConfigFacts,
    i: int,
    host: Seq<char>,
    configured: Seq<char>,
    gathered: Seq<u8>,
    now: u64,
)
    requires
        config::config_error(cfg, facts) is None,
        0 <= i < cfg.routes@.len() <= usize::MAX,
        cfg.routes@[i].sni@ == text::normalize_host(configured),
        text::normalize_host(host) == text::normalize_host(configured),
        sni::outcome(gathered) == sni::Outcome::Complete(Some(text::normalize_host(host))),
    ensures
        sni::verdict(gathered) is Some,
        ({
            let action = action_for(
                cfg.routes@,
                Outcome::Done(sni::verdict(gathered)->0),
                now,
            );
            let active = ActiveGuard { route: Route::Proxied, started: now };
            action == (if cfg.routes@[i].tls_passthrough {
                RouteAction::Passthrough { route: i as usize, active }
            } else {
                RouteAction::Terminate { route: i as usize, active }
            })
        }),
{
    law_every_route_answers_to_its_name(cfg, facts, i);
}

/// The connections that have been counted by what became of them.
pub open spec fn connections_counted(s: Stats) -> int {
    s.connections_proxied_total + s.connections_fallback_total + s.connections_probe_timeout_total
        + s.connections_probe_io_error_total + s.connections_closed_early_total
}

/// Every connection is counted once by what became of it, and every
/// ClientHello once by what it was.
pub proof fn law_every_connection_is_counted_once(
    routes: Seq<ProxyTarget>,
    outcome: Outcome,
    s: Stats,
    now: u64,
)
    requires
        s.has_room(1),
    ensures
        ({
            let after = routed_stats(action_for(routes, outcome, now), outcome, s);
            let hellos = after.sni_present_total + after.sni_absent_total
                + after.clienthello_not_tls_total - s.sni_present_total - s.sni_absent_total
                - s.clienthello_not_tls_total;
            &&& connections_counted(after) == connections_counted(s) + 1
            &&& hellos == (if outcome matches Outcome::Done(probed) && probed
                !is ConnectionClosed {
                1int
            } else {
                0int
            })
            &&& s.grown_to(after)
        }),
{
}

/// A server name leads to the last route that is configured for exactly that
/// name, and to none if none is.
pub proof fn law_names_lead_to_their_routes(routes: Seq<ProxyTarget>, host: Seq<char>, i: int)
    requires
        routes.len() <= usize::MAX,
    ensures
        0 <= i < routes.len() && routes[i].sni@ == host && (forall|j: int|
            i < j < routes.len() ==> (#[trigger] routes[j]).sni@ != host) ==> route_for(routes, host)
            == Some(i as usize),
        (forall|j: int| 0 <= j < routes.len() ==> (#[trigger] routes[j]).sni@ != host) ==> route_for(
            routes,
            host,
        ) is None,
        route_for(routes, host) matches Some(k) ==> k < routes.len() && routes[k as int].sni@
            == host,
{
    if 0 <= i < routes.len() && routes[i].sni@ == host && (forall|j: int|
        i < j < routes.len() ==> (#[trigger] routes[j]).sni@ != host) {
        lemma_named_route_is_found(routes, i);
    }
    if forall|j: int| 0 <= j < routes.len() ==> (#[trigger] routes[j]).sni@ != host {
        lemma_unnamed_route_is_not_found(routes, host);
    }
    lemma_places_are_in_range(routes, host);
}

/// What becomes of a connection: it is shut down if nothing came of probing it
/// and left alone if the peer is gone. One that asks for a configured name is
/// forwarded to that route, untouched or with TLS terminated as the route says,
/// and any other gets the fallback site.
pub proof fn law_where_connections_go(
    routes: Seq<ProxyTarget>,
    host: Seq<char>,
    i: int,
    now: u64,
)
    requires
        routes.len() <= usize::MAX,
    ensures
        action_for(routes, Outcome::TimedOut, now) is Shutdown,
        action_for(routes, Outcome::ReadFailed, now) is Shutdown,
        action_for(routes, Outcome::Done(Probed::ConnectionClosed), now) is Leave,
        action_for(routes, Outcome::Done(Probed::NoSni), now) == (RouteAction::Fallback {
            active: ActiveGuard { route: Route::Fallback, started: now },
        }),
        action_for(routes, Outcome::Done(Probed::NotTls), now) == (RouteAction::Fallback {
            active: ActiveGuard { route: Route::Fallback, started: now },
        }),
        (forall|j: int| 0 <= j < routes.len() ==> (#[trigger] routes[j]).sni@ != host)
            ==> action_for(routes, Outcome::Done(Probed::Sni(host)), now)
            == (RouteAction::Fallback {
            active: ActiveGuard { route: Route::Fallback, started: now },
        }),
        0 <= i < routes.len() && routes[i].sni@ == host && (forall|j: int|
            i < j < routes.len() ==> (#[trigger] routes[j]).sni@ != host) ==> action_for(
            routes,
            Outcome::Done(Probed::Sni(host)),
            now,
        ) == (if routes[i].tls_passthrough {
            RouteAction::Passthrough {
                route: i as usize,
                active: ActiveGuard { route: Route::Proxied, started: now },
            }
        } else {
            RouteAction::Terminate {
                route: i as usize,
                active: ActiveGuard { route: Route::Proxied, started: now },
            }
        }),
{
    law_names_lead_to_their_routes(routes, host, i);
}

/// A connection is forwarded to a service only if the name it asked for and
/// the name that the route is configured with are equal up to ASCII case and
/// the dots at their ends.
pub proof fn law_only_the_own_name_is_forwarded(
    routes: Seq<ProxyTarget>,
    asked: Seq<char>,
    asked_tail: Seq<char>,
    configured: Seq<char>,
    configured_tail: Seq<char>,
    k: usize,
)
    requires
        routes.len() <= usize::MAX,
        asked.len() > 0 ==> asked.last() != '.',
        configured.len() > 0 ==> configured.last() != '.',
        forall|i: int| 0 <= i < asked_tail.len() ==> #[trigger] asked_tail[i] == '.',
        forall|i: int| 0 <= i < configured_tail.len() ==> #[trigger] configured_tail[i] == '.',
        route_for(routes, text::normalize_host(asked + asked_tail)) == Some(k),
        k < routes.len() ==> routes[k as int].sni@ == text::normalize_host(
            configured + configured_tail,
        ),
    ensures
        k < routes.len(),
        asked.len() == configured.len(),
        forall|i: int|
            0 <= i < asked.len() ==> (if 65 <= #[trigger] asked[i] as int <= 90 {
                asked[i] as int + 32
            } else {
                asked[i] as int
            }) == (if 65 <= configured[i] as int <= 90 {
                configured[i] as int + 32
            } else {
                configured[i] as int
            }),
{
    law_names_lead_to_their_routes(routes, text::normalize_host(asked + asked_tail), 0);
    text::law_hosts_compare_up_to_case_and_trailing_dots(
        asked,
        asked_tail,
        configured,
        configured_tail,
    );
}

/// Which counters a connection moves, and that it moves no others.
pub proof fn law_each_outcome_has_its_counters(outcome: Outcome, active: ActiveGuard, s: Stats)
    requires
        s.connections_probe_timeout_total < u64::MAX,
        s.connections_probe_io_error_total < u64::MAX,
        s.connections_closed_early_total < u64::MAX,
        s.sni_present_total < u64::MAX,
        s.sni_absent_total < u64::MAX,
        s.clienthello_not_tls_total < u64::MAX,
        s.connections_proxied_total < u64::MAX,
        s.connections_fallback_total < u64::MAX,
        s.active_proxied < i64::MAX,
        s.active_fallback < i64::MAX,
    ensures
        ({
            let counted = match outcome {
                Outcome::TimedOut => Stats {
                    connections_probe_timeout_total: (s.connections_probe_timeout_total + 1) as u64,
                    ..s
                },
                Outcome::ReadFailed => Stats {
                    connections_probe_io_error_total: (s.connections_probe_io_error_total
                        + 1) as u64,
                    ..s
                },
                Outcome::Done(Probed::ConnectionClosed) => Stats {
                    connections_closed_early_total: (s.connections_closed_early_total + 1) as u64,
                    ..s
                },
                Outcome::Done(Probed::Sni(_)) => Stats {
                    sni_present_total: (s.sni_present_total + 1) as u64,
                    ..s
                },
                Outcome::Done(Probed::NoSni) => Stats {
                    sni_absent_total: (s.sni_absent_total + 1) as u64,
                    ..s
                },
                Outcome::Done(Probed::NotTls) => Stats {
                    clienthello_not_tls_total: (s.clienthello_not_tls_total + 1) as u64,
                    ..s
                },
            };
            let proxied = Stats {
                connections_proxied_total: (s.connections_proxied_total + 1) as u64,
                active_proxied: (s.active_proxied + 1) as i64,
                ..counted
            };
            let fallen_back = Stats {
                connections_fallback_total: (s.connections_fallback_total + 1) as u64,
                active_fallback: (s.active_fallback + 1) as i64,
                ..counted
            };
            &&& routed_stats(RouteAction::Shutdown, outcome, s) == counted
            &&& routed_stats(RouteAction::Leave, outcome, s) == counted
            &&& forall|route: usize| #[trigger]
                routed_stats(RouteAction::Passthrough { route, active }, outcome, s) == proxied
            &&& forall|route: usize| #[trigger]
                routed_stats(RouteAction::Terminate { route, active }, outcome, s) == proxied
            &&& routed_stats(RouteAction::Fallback { active }, outcome, s) == fallen_back
        }),
{
}

/// The view of what probing came to shows what it is.
pub proof fn law_probing_is_shown_as_it_is(outcome: ProbeOutcome)
    ensures
        outcome is TimedOut <==> outcome@ is TimedOut,
        outcome is ReadFailed <==> outcome@ is ReadFailed,
        outcome matches ProbeOutcome::Done(result) ==> outcome@ == Outcome::Done(result@),
{
}

/// The counters of what probing came to start over at the end of 64 bits.
pub proof fn law_counters_of_probing_start_over(host: Seq<char>, s: Stats)
    ensures
        routed_stats(RouteAction::Shutdown, Outcome::TimedOut, s).connections_probe_timeout_total as int == (s.connections_probe_timeout_total + 1) % 0x1_0000_0000_0000_0000,
        routed_stats(RouteAction::Shutdown, Outcome::ReadFailed, s).connections_probe_io_error_total as int == (s.connections_probe_io_error_total + 1) % 0x1_0000_0000_0000_0000,
        routed_stats(RouteAction::Shutdown, Outcome::Done(Probed::ConnectionClosed), s).connections_closed_early_total as int == (s.connections_closed_early_total + 1) % 0x1_0000_0000_0000_0000,
        routed_stats(RouteAction::Shutdown, Outcome::Done(Probed::Sni(host)), s).sni_present_total as int == (s.sni_present_total + 1) % 0x1_0000_0000_0000_0000,
        routed_stats(RouteAction::Shutdown, Outcome::Done(Probed::NoSni), s).sni_absent_total as int == (s.sni_absent_total + 1) % 0x1_0000_0000_0000_0000,
        routed_stats(RouteAction::Shutdown, Outcome::Done(Probed::NotTls), s).clienthello_not_tls_total as int == (s.clienthello_not_tls_total + 1) % 0x1_0000_0000_0000_0000,
{
}

} // verus!
