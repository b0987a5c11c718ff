//! Putting the proxy's routes right again.
//!
//! Every running app's routes are applied anew, each on its own: one that
//! fails is noted and the others go on.

use crate::config::AppConfig;
use crate::deploy::{AppRuntimeState, AppStatus, RouteState};
use crate::text::{opt_text, same};
use vstd::prelude::*;
use vstd::string::*;

verus! {

/// A route of an app.
#[derive(Debug)]
pub struct RouteInfo {
    pub app_name: String,
    pub domain: String,
    pub port: u16,
}

/// App, domain and port of routes.
pub open spec fn info_views(v: Seq<RouteInfo>) -> Seq<(Seq<char>, Seq<char>, u16)> {
    v.map_values(|r: RouteInfo| (r.app_name@, r.domain@, r.port))
}

/// A route that could not be applied.
#[derive(Debug)]
pub struct RouteFailure {
    pub app: String,
    pub route_id: String,
    pub error: String,
}

/// What a round came to.
#[derive(Debug)]
pub struct ReconcileSummary {
    pub routes_total: usize,
    pub routes_ok: usize,
    pub routes_failed: usize,
    pub failures: Vec<RouteFailure>,
}

// ── Everything but the routes ───────────────────────────────────────────────

/// What of the proxy is put right before the routes. One part that fails keeps
/// neither the next nor the routes from being applied.
#[derive(Debug)]
pub enum RestorePart {
    /// The server that the routes belong to.
    Server,
    /// The route of the deploy webhook, which leads to the daemon.
    Webhook { host: Option<String>, upstream: String },
    /// The certificates of previews under a domain.
    Certificates { domain: String },
}

/// A part as a mathematical value.
pub ghost enum RestoreView {
    Server,
    Webhook(Option<Seq<char>>, Seq<char>),
    Certificates(Seq<char>),
}

impl View for RestorePart {
    type V = RestoreView;

    open spec fn view(&self) -> RestoreView {
        match self {
            RestorePart::Server => RestoreView::Server,
            RestorePart::Webhook { host, upstream } => RestoreView::Webhook(opt_text(*host), upstream@),
            RestorePart::Certificates { domain } => RestoreView::Certificates(domain@),
        }
    }
}

/// The parts to put right: the server always; the webhook if deploys are
/// configured; the certificates if previews and certificates both are.
pub open spec fn parts(
    webhook: Option<Option<String>>,
    listen: Seq<char>,
    previews: Option<String>,
    has_tls: bool,
) -> Seq<RestoreView> {
    seq![RestoreView::Server] + (match webhook {
        Some(domain) => seq![RestoreView::Webhook(opt_text(domain), listen)],
        None => seq![],
    }) + (match previews {
        Some(domain) => if has_tls {
            seq![RestoreView::Certificates(domain@)]
        } else {
            seq![]
        },
        None => seq![],
    })
}

/// Plans what is put right before the routes. `webhook` is the domain of the
/// deploy webhook, if deploys are configured, and `previews` the domain of
/// previews, if they are.
pub fn plan_restore(
    webhook: &Option<Option<String>>,
    listen: &str,
    previews: &Option<String>,
    has_tls: bool,
) -> (r: Vec<RestorePart>)
    ensures
        r@.map_values(|p: RestorePart| p@) == parts(*webhook, listen@, *previews, has_tls),
{
    let mut out: Vec<RestorePart> = Vec::new();
    out.push(RestorePart::Server);
    match webhook {
        Some(domain) => {
            out.push(RestorePart::Webhook { host: domain.clone(), upstream: listen.to_owned() });
        },
        None => {},
    }
    match previews {
        Some(domain) => if has_tls {
            out.push(RestorePart::Certificates { domain: domain.clone() });
        },
        None => {},
    }
    assert(out@.map_values(|p: RestorePart| p@) =~= parts(*webhook, listen@, *previews, has_tls));
    out
}

// ── Routes ──────────────────────────────────────────────────────────────────

/// The configuration of an app.
pub open spec fn config_of(configs: Seq<(String, AppConfig)>, app: Seq<char>) -> Option<AppConfig>
    decreases configs.len(),
{
    if configs.len() == 0 {
        None
    } else if configs[0].0@ == app {
        Some(configs[0].1)
    } else {
        config_of(configs.skip(1), app)
    }
}

/// The routes of one app: those it runs with, else its port under the
/// configured domain. An app that does not run has none, and neither has one
/// with a port alone that is not configured.
pub open spec fn app_routes(
    app: Seq<char>,
    state: AppRuntimeState,
    configs: Seq<(String, AppConfig)>,
) -> Seq<(Seq<char>, Seq<char>, u16)> {
    if state.status != AppStatus::Running {
        seq![]
    } else if state.current_routes@.len() > 0 {
        state.current_routes@.map_values(|r: RouteState| (app, r.hostname@, r.port))
    } else {
        match (state.current_port, config_of(configs, app)) {
            (Some(port), Some(config)) => seq![
                (
                    app,
                    match config.routing.domain {
                        Some(d) => d@,
                        None => seq![],
                    },
                    port,
                ),
            ],
            _ => seq![],
        }
    }
}

/// The routes of all apps, in their order.
pub open spec fn all_routes(
    states: Seq<(String, AppRuntimeState)>,
    configs: Seq<(String, AppConfig)>,
) -> Seq<(Seq<char>, Seq<char>, u16)>
    decreases states.len(),
{
    if states.len() == 0 {
        seq![]
    } else {
        all_routes(states.drop_last(), configs) + app_routes(states.last().0@, states.last().1, configs)
    }
}

fn find_config<'a>(configs: &'a Vec<(String, AppConfig)>, app: &str) -> (r: Option<&'a AppConfig>)
    ensures
        config_of(configs@, app@) == (match r {
            Some(c) => Some(*c),
            None => None,
        }),
{
    let mut i: usize = 0;
    assert(configs@.skip(0) =~= configs@);
    while i < configs.len()
        invariant
            i <= configs@.len(),
            config_of(configs@, app@) == config_of(configs@.skip(i as int), app@),
        decreases configs@.len() - i,
    {
        if same(configs[i].0.as_str(), app) {
            return Some(&configs[i].1);
        }
        assert(configs@.skip(i as int).skip(1) =~= configs@.skip(i + 1));
        i = i + 1;
    }
    None
}

fn routes_of_app(app: &String, state: &AppRuntimeState, configs: &Vec<(String, AppConfig)>) -> (r: Vec<RouteInfo>)
    ensures
        info_views(r@) == app_routes(app@, *state, configs@),
{
    let mut out: Vec<RouteInfo> = Vec::new();
    assert(info_views(out@) =~= seq![]);
    if state.status != AppStatus::Running {
        return out;
    }
    if state.current_routes.len() > 0 {
        let mut i: usize = 0;
        while i < state.current_routes.len()
            invariant
                i <= state.current_routes@.len(),
                out@.len() == i,
                forall|k: int|
                    0 <= k < i ==> ((#[trigger] out@[k]).app_name@, out@[k].domain@, out@[k].port) == (
                        app@,
                        state.current_routes@[k].hostname@,
                        state.current_routes@[k].port,
                    ),
            decreases state.current_routes@.len() - i,
        {
            let route = &state.current_routes[i];
            out.push(RouteInfo { app_name: app.clone(), domain: route.hostname.clone(), port: route.port });
            i = i + 1;
        }
        assert(info_views(out@) =~= app_routes(app@, *state, configs@));
        return out;
    }
    match (state.current_port, find_config(configs, app.as_str())) {
        (Some(port), Some(config)) => {
            let domain = match &config.routing.domain {
                Some(d) => d.clone(),
                None => String::new(),
            };
            out.push(RouteInfo { app_name: app.clone(), domain, port });
            assert(info_views(out@) =~= app_routes(app@, *state, configs@));
        },
        _ => {},
    }
    out
}

/// Lists the routes of all running apps.
pub fn collect_routes(states: &Vec<(String, AppRuntimeState)>, configs: &Vec<(String, AppConfig)>) -> (r: Vec<
    RouteInfo,
>)
    ensures
        info_views(r@) == all_routes(states@, configs@),
{
    let mut out: Vec<RouteInfo> = Vec::new();
    let mut i: usize = 0;
    assert(info_views(out@) =~= seq![]);
    while i < states.len()
        invariant
            i <= states@.len(),
            info_views(out@) == all_routes(states@.take(i as int), configs@),
        decreases states@.len() - i,
    {
        assert(states@.take(i + 1).drop_last() =~= states@.take(i as int));
        assert(states@.take(i + 1).last() == states@[i as int]);
        let ghost before = info_views(out@);
        let mut part = routes_of_app(&states[i].0, &states[i].1, configs);
        let ghost added = info_views(part@);
        out.append(&mut part);
        assert(info_views(out@) =~= before + added);
        i = i + 1;
    }
    assert(states@.take(i as int) =~= states@);
    out
}

/// The id of an app's route in the proxy.
pub open spec fn route_id(app: Seq<char>) -> Seq<char> {
    "slip-"@ + app + "-0"@
}

/// Failures as app, route id and error.
pub open spec fn failure_views(v: Seq<RouteFailure>) -> Seq<(Seq<char>, Seq<char>, Seq<char>)> {
    v.map_values(|f: RouteFailure| (f.app@, f.route_id@, f.error@))
}

impl ReconcileSummary {
    /// Whether the counts fit together after some routes were applied.
    pub open spec fn wf(self) -> bool {
        &&& self.routes_ok + self.routes_failed <= self.routes_total
        &&& self.failures@.len() == self.routes_failed
    }

    /// A round over a number of routes.
    pub fn new(routes_total: usize) -> (r: ReconcileSummary)
        ensures
            r.wf(),
            r.routes_total == routes_total,
            r.routes_ok == 0,
            r.routes_failed == 0,
            r.failures@.len() == 0,
    {
        ReconcileSummary { routes_total, routes_ok: 0, routes_failed: 0, failures: Vec::new() }
    }

    /// Notes what applying a route came to.
    pub fn record(&mut self, route: &RouteInfo, result: Result<(), String>)
        requires
            old(self).wf(),
            old(self).routes_ok + old(self).routes_failed < old(self).routes_total,
        ensures
            final(self).wf(),
            final(self).routes_total == old(self).routes_total,
            match result {
                Ok(_) => {
                    &&& final(self).routes_ok == old(self).routes_ok + 1
                    &&& final(self).routes_failed == old(self).routes_failed
                    &&& final(self).failures@ == old(self).failures@
                },
                Err(e) => {
                    &&& final(self).routes_ok == old(self).routes_ok
                    &&& final(self).routes_failed == old(self).routes_failed + 1
                    &&& failure_views(final(self).failures@) == failure_views(old(self).failures@).push(
                        (route.app_name@, route_id(route.app_name@), e@),
                    )
                },
            },
    {
        match result {
            Ok(_) => {
                self.routes_ok = self.routes_ok + 1;
            },
            Err(error) => {
                self.routes_failed = self.routes_failed + 1;
                let ghost before = self.failures@;
                let f = RouteFailure {
                    app: route.app_name.clone(),
                    route_id: "slip-".to_owned().concat(route.app_name.as_str()).concat("-0"),
                    error,
                };
                self.failures.push(f);
                assert(failure_views(self.failures@) =~= failure_views(before).push(
                    (f.app@, f.route_id@, f.error@),
                ));
            },
        }
    }
}

/// The failures among results, each with the app of its route.
pub open spec fn failures_among(routes: Seq<RouteInfo>, results: Seq<Result<(), String>>) -> Seq<
    (Seq<char>, Seq<char>, Seq<char>),
>
    decreases results.len(),
{
    if results.len() == 0 {
        seq![]
    } else {
        let before = failures_among(routes, results.drop_last());
        let app = routes[results.len() - 1].app_name@;
        match results.last() {
            Ok(_) => before,
            Err(e) => before.push((app, route_id(app), e@)),
        }
    }
}

/// Sums up what applying every route came to. No failure keeps a later route
/// from being counted.
pub fn summarize(routes: &Vec<RouteInfo>, results: Vec<Result<(), String>>) -> (r: ReconcileSummary)
    requires
        results@.len() == routes@.len(),
    ensures
        r.wf(),
        r.routes_total == routes@.len(),
        r.routes_ok + r.routes_failed == r.routes_total,
        failure_views(r.failures@) == failures_among(routes@, results@),
{
    let mut summary = ReconcileSummary::new(routes.len());
    let ghost all = results@;
    let mut i: usize = 0;
    assert(failure_views(summary.failures@) =~= seq![]);
    while i < results.len()
        invariant
            i <= results@.len(),
            all == results@,
            results@.len() == routes@.len(),
            summary.wf(),
            summary.routes_total == routes@.len(),
            summary.routes_ok + summary.routes_failed == i,
            failure_views(summary.failures@) == failures_among(routes@, all.take(i as int)),
        decreases results@.len() - i,
    {
        assert(all.take(i + 1).drop_last() =~= all.take(i as int));
        assert(all.take(i + 1).last() == all[i as int]);
        let result: Result<(), String> = match &results[i] {
            Ok(_) => Ok(()),
            Err(e) => Err(e.clone()),
        };
        summary.record(&routes[i], result);
        i = i + 1;
    }
    assert(all.take(i as int) =~= all);
    summary
}

/// Only running apps have routes, and a running app keeps every route it was
/// deployed with, under its hostnames and ports.
pub proof fn only_running_apps_have_routes(
    app: Seq<char>,
    state: AppRuntimeState,
    configs: Seq<(String, AppConfig)>,
)
    ensures
        state.status != AppStatus::Running ==> app_routes(app, state, configs).len() == 0,
        state.status == AppStatus::Running && state.current_routes@.len() > 0 ==> app_routes(app, state, configs).len()
            == state.current_routes@.len(),
{
}

/// The proxy's server is always put right, first; then the webhook of deploys if
/// they are configured, with the daemon's address behind it, and the certificates of
/// previews if previews and certificates both are. There is nothing else.
pub proof fn what_is_put_right(
    webhook: Option<Option<String>>,
    listen: Seq<char>,
    previews: Option<String>,
    has_tls: bool,
)
    ensures
        ({
            let all = parts(webhook, listen, previews, has_tls);
            &&& all.len() == 1 + (if webhook is Some {
                1int
            } else {
                0
            }) + (if previews is Some && has_tls {
                1int
            } else {
                0
            })
            &&& all[0] == RestoreView::Server
            &&& webhook matches Some(host) ==> all[1] == RestoreView::Webhook(opt_text(host), listen)
            &&& previews matches Some(domain) ==> has_tls ==> all[all.len() - 1] == RestoreView::Certificates(domain@)
        }),
{
}

/// Every route that a running app was deployed with is applied, to its port; an app
/// without any is reached under its configured domain at the port it runs on.
pub proof fn every_running_app_is_reached(
    states: Seq<(String, AppRuntimeState)>,
    configs: Seq<(String, AppConfig)>,
    i: int,
    k: int,
)
    requires
        0 <= i < states.len(),
        states[i].1.status == AppStatus::Running,
    ensures
        0 <= k < states[i].1.current_routes@.len() ==> all_routes(states, configs).contains(
            (states[i].0@, states[i].1.current_routes@[k].hostname@, states[i].1.current_routes@[k].port),
        ),
        states[i].1.current_routes@.len() == 0 && states[i].1.current_port is Some && 0 <= k < configs.len()
            && configs[k].0@ == states[i].0@ && configs[k].1.routing.domain is Some && (forall|j: int|
            0 <= j < k ==> (#[trigger] configs[j]).0@ != states[i].0@) ==> all_routes(states, configs).contains(
            (states[i].0@, configs[k].1.routing.domain->0@, states[i].1.current_port->0),
        ),
    decreases states.len(),
{
    let init = all_routes(states.drop_last(), configs);
    let last = app_routes(states.last().0@, states.last().1, configs);
    let app = states[i].0@;
    let state = states[i].1;
    if i == states.len() - 1 {
        if 0 <= k < state.current_routes@.len() {
            assert((init + last)[init.len() + k] == (
                app,
                state.current_routes@[k].hostname@,
                state.current_routes@[k].port,
            ));
        }
        if 0 <= k < configs.len() && configs[k].0@ == app && (forall|j: int|
            0 <= j < k ==> (#[trigger] configs[j]).0@ != app) {
            config_is_found(configs, app, k);
            if state.current_routes@.len() == 0 && state.current_port is Some && configs[k].1.routing.domain is Some {
                assert((init + last)[init.len() as int] == (
                    app,
                    configs[k].1.routing.domain->0@,
                    state.current_port->0,
                ));
            }
        }
    } else {
        assert(states.drop_last()[i] == states[i]);
        every_running_app_is_reached(states.drop_last(), configs, i, k);
        assert forall|x: (Seq<char>, Seq<char>, u16)| init.contains(x) implies #[trigger] (init + last).contains(x) by {
            let j = choose|j: int| 0 <= j < init.len() && init[j] == x;
            assert((init + last)[j] == x);
        }
    }
}

proof fn config_is_found(configs: Seq<(String, AppConfig)>, app: Seq<char>, k: int)
    requires
        0 <= k < configs.len(),
        configs[k].0@ == app,
        forall|j: int| 0 <= j < k ==> (#[trigger] configs[j]).0@ != app,
    ensures
        config_of(configs, app) == Some(configs[k].1),
    decreases k,
{
    if k > 0 {
        let rest = configs.skip(1);
        assert(configs[0].0@ != app);
        assert forall|j: int| 0 <= j < k - 1 implies (#[trigger] rest[j]).0@ != app by {
            assert(rest[j] == configs[j + 1]);
        }
        config_is_found(rest, app, k - 1);
    }
}

/// Every route that could not be applied is among the failures, with its app and
/// its own error, and nothing else is.
pub proof fn every_failure_is_told(
    routes: Seq<RouteInfo>,
    results: Seq<Result<(), String>>,
    f: (Seq<char>, Seq<char>, Seq<char>),
)
    requires
        results.len() <= routes.len(),
    ensures
        failures_among(routes, results).contains(f) <==> exists|i: int|
            0 <= i < results.len() && is_failure(routes[i], #[trigger] results[i], f),
    decreases results.len(),
{
    if results.len() > 0 {
        let init = results.drop_last();
        let before = failures_among(routes, init);
        let all = failures_among(routes, results);
        every_failure_is_told(routes, init, f);
        if all.contains(f) {
            let k = choose|k: int| 0 <= k < all.len() && all[k] == f;
            if k < before.len() {
                assert(before[k] == f);
                assert(before.contains(f));
                let i = choose|i: int| 0 <= i < init.len() && is_failure(routes[i], #[trigger] init[i], f);
                assert(is_failure(routes[i], results[i], f));
            } else {
                assert(is_failure(routes[results.len() - 1], results[results.len() - 1], f));
            }
        }
        if exists|i: int| 0 <= i < results.len() && is_failure(routes[i], #[trigger] results[i], f) {
            let i = choose|i: int| 0 <= i < results.len() && is_failure(routes[i], #[trigger] results[i], f);
            if i < init.len() {
                assert(is_failure(routes[i], init[i], f));
                let k = choose|k: int| 0 <= k < before.len() && before[k] == f;
                assert(all[k] == f);
            } else {
                assert(all[all.len() - 1] == f);
            }
        }
    }
}

/// Whether a failure is what applying a route came to.
pub open spec fn is_failure(
    route: RouteInfo,
    result: Result<(), String>,
    f: (Seq<char>, Seq<char>, Seq<char>),
) -> bool {
    result matches Err(e) && f == (route.app_name@, route_id(route.app_name@), e@)
}

} // verus!
