//! Configuration of the server, of the apps it runs, and of the repositories
//! the apps come from.

use crate::text::opt_text;
use crate::time::Duration;
use vstd::prelude::*;

verus! {

/// A type whose values can be copied faithfully.
pub trait Duplicate: Sized {
    /// Whether two values hold the same.
    spec fn alike(&self, other: &Self) -> bool;

    /// A copy.
    fn duplicate(&self) -> (r: Self)
        ensures
            r.alike(self),
    ;
}

/// Copies every item of a list whose items are alike only when equal.
pub fn duplicate_all<T: Duplicate>(v: &Vec<T>) -> (r: Vec<T>)
    requires
        forall|a: T, b: T| #[trigger] a.alike(&b) ==> a == b,
    ensures
        r@ == v@,
{
    let mut out: Vec<T> = Vec::new();
    let mut i: usize = 0;
    while i < v.len()
        invariant
            i <= v@.len(),
            out@ == v@.take(i as int),
            forall|a: T, b: T| #[trigger] a.alike(&b) ==> a == b,
        decreases v@.len() - i,
    {
        let c = v[i].duplicate();
        out.push(c);
        i = i + 1;
        assert(v@.take(i as int) =~= v@.take(i - 1).push(v@[i - 1]));
    }
    assert(v@.take(v@.len() as int) =~= v@);
    out
}

/// Copies a list of key and value pairs.
pub fn copy_pairs(v: &Vec<(String, String)>) -> (r: Vec<(String, String)>)
    ensures
        r@ == v@,
{
    let mut out: Vec<(String, String)> = Vec::new();
    let mut i: usize = 0;
    while i < v.len()
        invariant
            i <= v@.len(),
            out@ == v@.take(i as int),
        decreases v@.len() - i,
    {
        out.push((v[i].0.clone(), v[i].1.clone()));
        i = i + 1;
        assert(v@.take(i as int) =~= v@.take(i - 1).push(v@[i - 1]));
    }
    assert(v@.take(v@.len() as int) =~= v@);
    out
}

// ── Apps as the server knows them ───────────────────────────────────────────

/// What an app is called and which image it runs.
#[derive(Debug)]
pub struct AppInfo {
    pub name: String,
    pub image: String,
    pub secret: Option<String>,
}

/// One public hostname of an app.
#[derive(Debug)]
pub struct RouteEntry {
    pub hostname: String,
    pub port: Option<u16>,
}

/// How requests reach an app: one domain and port, or a list of routes.
#[derive(Debug)]
pub struct RoutingConfig {
    pub domain: Option<String>,
    pub port: Option<u16>,
    pub routes: Vec<RouteEntry>,
}

/// The HTTP status codes that count as healthy.
#[derive(Debug)]
pub struct StatusExpectation {
    /// The notation the expectation is shown in.
    pub notation: String,
    /// Inclusive ranges of accepted codes.
    pub ranges: Vec<(u16, u16)>,
}

/// How an app's health is polled.
#[derive(Debug)]
pub struct HealthConfig {
    pub path: Option<String>,
    pub interval: Duration,
    pub timeout: Duration,
    pub retries: u32,
    pub start_period: Duration,
    pub expect_status: Option<StatusExpectation>,
}

/// How an app is rolled out.
#[derive(Debug)]
pub struct DeployConfig {
    pub strategy: String,
    pub drain_timeout: Duration,
    pub timeout: Option<Duration>,
}

/// A file with environment variables.
#[derive(Debug)]
pub struct EnvFileConfig {
    pub path: String,
}

/// Resource limits of a container.
#[derive(Debug)]
pub struct ResourceConfig {
    pub memory: Option<String>,
    pub cpus: Option<String>,
}

/// The network a container joins.
#[derive(Debug)]
pub struct NetworkConfig {
    pub name: String,
}

/// Preview settings of one app.
#[derive(Debug)]
pub struct AppPreviewConfig {
    pub domain: Option<String>,
    pub max: Option<u32>,
}

/// A host directory mounted into a container.
#[derive(Debug)]
pub struct VolumeConfig {
    pub host_path: String,
    pub mount_path: String,
    pub read_only: bool,
}

/// The server's configuration of one app.
#[derive(Debug)]
pub struct AppConfig {
    pub app: AppInfo,
    pub routing: RoutingConfig,
    pub health: HealthConfig,
    pub deploy: DeployConfig,
    /// Environment variables, each key once.
    pub env: Vec<(String, String)>,
    pub env_file: Option<EnvFileConfig>,
    pub resources: ResourceConfig,
    pub network: NetworkConfig,
    pub preview: Option<AppPreviewConfig>,
    pub volumes: Vec<VolumeConfig>,
}

impl Duplicate for RouteEntry {
    open spec fn alike(&self, other: &Self) -> bool {
        *self == *other
    }

    fn duplicate(&self) -> (r: Self) {
        RouteEntry { hostname: self.hostname.clone(), port: self.port }
    }
}

impl Duplicate for VolumeConfig {
    open spec fn alike(&self, other: &Self) -> bool {
        *self == *other
    }

    fn duplicate(&self) -> (r: Self) {
        VolumeConfig {
            host_path: self.host_path.clone(),
            mount_path: self.mount_path.clone(),
            read_only: self.read_only,
        }
    }
}

impl Duplicate for RoutingConfig {
    open spec fn alike(&self, other: &Self) -> bool {
        self.domain == other.domain && self.port == other.port && self.routes@ == other.routes@
    }

    fn duplicate(&self) -> (r: Self) {
        RoutingConfig {
            domain: self.domain.clone(),
            port: self.port,
            routes: duplicate_all(&self.routes),
        }
    }
}

impl Duplicate for StatusExpectation {
    open spec fn alike(&self, other: &Self) -> bool {
        self.notation == other.notation && self.ranges@ == other.ranges@
    }

    fn duplicate(&self) -> (r: Self) {
        let mut ranges: Vec<(u16, u16)> = Vec::new();
        let mut i: usize = 0;
        while i < self.ranges.len()
            invariant
                i <= self.ranges@.len(),
                ranges@ == self.ranges@.take(i as int),
            decreases self.ranges@.len() - i,
        {
            ranges.push((self.ranges[i].0, self.ranges[i].1));
            i = i + 1;
            assert(self.ranges@.take(i as int) =~= self.ranges@.take(i - 1).push(self.ranges@[i - 1]));
        }
        assert(self.ranges@.take(i as int) =~= self.ranges@);
        StatusExpectation { notation: self.notation.clone(), ranges }
    }
}

/// Whether two optional expectations hold the same.
pub open spec fn alike_expectation(a: Option<StatusExpectation>, b: Option<StatusExpectation>) -> bool {
    match (a, b) {
        (Some(x), Some(y)) => x.alike(&y),
        (None, None) => true,
        _ => false,
    }
}

impl Duplicate for HealthConfig {
    open spec fn alike(&self, other: &Self) -> bool {
        &&& self.path == other.path
        &&& self.interval == other.interval
        &&& self.timeout == other.timeout
        &&& self.retries == other.retries
        &&& self.start_period == other.start_period
        &&& alike_expectation(self.expect_status, other.expect_status)
    }

    fn duplicate(&self) -> (r: Self) {
        HealthConfig {
            path: self.path.clone(),
            interval: self.interval,
            timeout: self.timeout,
            retries: self.retries,
            start_period: self.start_period,
            expect_status: match &self.expect_status {
                Some(e) => Some(e.duplicate()),
                None => None,
            },
        }
    }
}

impl Duplicate for ResourceConfig {
    open spec fn alike(&self, other: &Self) -> bool {
        *self == *other
    }

    fn duplicate(&self) -> (r: Self) {
        ResourceConfig { memory: self.memory.clone(), cpus: self.cpus.clone() }
    }
}

impl Duplicate for AppConfig {
    open spec fn alike(&self, other: &Self) -> bool {
        &&& self.app == other.app
        &&& self.routing.alike(&other.routing)
        &&& self.health.alike(&other.health)
        &&& self.deploy == other.deploy
        &&& self.env@ == other.env@
        &&& self.env_file == other.env_file
        &&& self.resources == other.resources
        &&& self.network == other.network
        &&& self.preview == other.preview
        &&& self.volumes@ == other.volumes@
    }

    fn duplicate(&self) -> (r: Self) {
        AppConfig {
            app: AppInfo {
                name: self.app.name.clone(),
                image: self.app.image.clone(),
                secret: self.app.secret.clone(),
            },
            routing: self.routing.duplicate(),
            health: self.health.duplicate(),
            deploy: DeployConfig {
                strategy: self.deploy.strategy.clone(),
                drain_timeout: self.deploy.drain_timeout,
                timeout: self.deploy.timeout,
            },
            env: copy_pairs(&self.env),
            env_file: match &self.env_file {
                Some(f) => Some(EnvFileConfig { path: f.path.clone() }),
                None => None,
            },
            resources: self.resources.duplicate(),
            network: NetworkConfig { name: self.network.name.clone() },
            preview: match &self.preview {
                Some(p) => Some(AppPreviewConfig { domain: p.domain.clone(), max: p.max }),
                None => None,
            },
            volumes: duplicate_all(&self.volumes),
        }
    }
}

/// A hostname and the port that was set for it.
pub open spec fn route_entry_view(r: RouteEntry) -> (Seq<char>, Option<u16>) {
    (r.hostname@, r.port)
}

impl RoutingConfig {
    /// The routes in force: the list if it holds any, else the single domain
    /// with its port, else none.
    pub open spec fn routes_in_force(self) -> Seq<(Seq<char>, Option<u16>)> {
        if self.routes@.len() > 0 {
            self.routes@.map_values(|r: RouteEntry| route_entry_view(r))
        } else {
            match self.domain {
                Some(d) => seq![(d@, self.port)],
                None => seq![],
            }
        }
    }

    /// The routes in force.
    pub fn effective_routes(&self) -> (r: Vec<RouteEntry>)
        ensures
            r@.map_values(|e: RouteEntry| route_entry_view(e)) == self.routes_in_force(),
    {
        if self.routes.len() > 0 {
            duplicate_all(&self.routes)
        } else {
            let mut out: Vec<RouteEntry> = Vec::new();
            match &self.domain {
                Some(d) => {
                    out.push(RouteEntry { hostname: d.clone(), port: self.port });
                },
                None => {},
            }
            assert(out@.map_values(|e: RouteEntry| route_entry_view(e)) =~= self.routes_in_force());
            out
        }
    }
}

impl StatusExpectation {
    /// Whether a status code lies in one of the ranges.
    pub open spec fn admits(self, code: u16) -> bool {
        exists|i: int| 0 <= i < self.ranges@.len() && self.ranges@[i].0 <= code <= (#[trigger] self.ranges@[i]).1
    }

    /// Tests a status code.
    pub fn accepts(&self, code: u16) -> (r: bool)
        ensures
            r == self.admits(code),
    {
        let mut i: usize = 0;
        while i < self.ranges.len()
            invariant
                i <= self.ranges@.len(),
                forall|k: int| 0 <= k < i ==> !(self.ranges@[k].0 <= code <= (#[trigger] self.ranges@[k]).1),
            decreases self.ranges@.len() - i,
        {
            let (low, high) = self.ranges[i];
            if low <= code && code <= high {
                return true;
            }
            i = i + 1;
        }
        false
    }

    /// The notation the expectation is shown in.
    pub fn canonical(&self) -> (r: String)
        ensures
            r@ == self.notation@,
    {
        self.notation.clone()
    }
}

impl Default for StatusExpectation {
    /// Every code from 200 to 399.
    fn default() -> (r: Self)
        ensures
            r.notation@ == "200-399"@,
            r.ranges@ == seq![(200u16, 399u16)],
    {
        let mut ranges: Vec<(u16, u16)> = Vec::new();
        ranges.push((200, 399));
        assert(ranges@ =~= seq![(200u16, 399u16)]);
        StatusExpectation { notation: "200-399".to_owned(), ranges }
    }
}

// ── Repositories ────────────────────────────────────────────────────────────

/// What a repository says of its app.
#[derive(Debug)]
pub struct RepoAppInfo {
    pub name: String,
    pub kind: String,
    pub manifest: Option<String>,
    pub image: Option<String>,
}

/// Health settings of a repository.
#[derive(Debug)]
pub struct RepoHealthConfig {
    pub path: Option<String>,
    pub container: Option<String>,
    pub interval: Option<Duration>,
    pub timeout: Option<Duration>,
    pub retries: Option<u32>,
    pub start_period: Option<Duration>,
}

/// One route of a repository: which port of which container it leads to.
#[derive(Debug)]
pub struct RepoRouteEntry {
    pub port: Option<u16>,
    pub container: Option<String>,
    pub kind: String,
}

/// Routing settings of a repository.
#[derive(Debug)]
pub struct RepoRoutingConfig {
    pub domain: Option<String>,
    pub port: Option<u16>,
    pub container: Option<String>,
    pub routes: Vec<RepoRouteEntry>,
}

/// Resource limits that a repository asks for.
#[derive(Debug)]
pub struct RepoResourceConfig {
    pub memory: Option<String>,
    pub cpus: Option<String>,
}

/// Defaults of a repository.
#[derive(Debug)]
pub struct RepoDefaults {
    pub resources: Option<RepoResourceConfig>,
}

/// Commands run in a fresh preview.
#[derive(Debug)]
pub struct PreviewHooks {
    pub migrate: Option<String>,
    pub seed: Option<String>,
}

/// Preview settings of a repository.
#[derive(Debug)]
pub struct PreviewConfig {
    pub enabled: bool,
    pub ttl: Option<Duration>,
    pub max: Option<u32>,
    pub resources: Option<RepoResourceConfig>,
    pub hooks: Option<PreviewHooks>,
}

/// A mount point that a repository declares.
#[derive(Debug)]
pub struct RepoVolume {
    pub mount_path: String,
    pub read_only: bool,
}

/// Rollout settings of a repository.
#[derive(Debug)]
pub struct RepoDeployConfig {
    pub strategy: Option<String>,
    pub drain_timeout: Option<Duration>,
    pub timeout: Option<Duration>,
}

/// The configuration that a repository carries.
#[derive(Debug)]
pub struct RepoConfig {
    pub app: RepoAppInfo,
    pub health: RepoHealthConfig,
    pub routing: RepoRoutingConfig,
    pub defaults: RepoDefaults,
    pub preview: Option<PreviewConfig>,
    pub volumes: Vec<RepoVolume>,
    /// Environment variables, each key once.
    pub env: Vec<(String, String)>,
    pub deploy: Option<RepoDeployConfig>,
}

/// A route of a repository as a mathematical value.
pub ghost struct RepoRouteView {
    pub port: Option<u16>,
    pub container: Option<Seq<char>>,
    pub kind: Seq<char>,
}

impl View for RepoRouteEntry {
    type V = RepoRouteView;

    open spec fn view(&self) -> RepoRouteView {
        RepoRouteView { port: self.port, container: opt_text(self.container), kind: self.kind@ }
    }
}

impl Duplicate for RepoRouteEntry {
    open spec fn alike(&self, other: &Self) -> bool {
        *self == *other
    }

    fn duplicate(&self) -> (r: Self) {
        RepoRouteEntry { port: self.port, container: self.container.clone(), kind: self.kind.clone() }
    }
}

impl RepoRoutingConfig {
    /// The routes in force: the list if it holds any, else one HTTP route from
    /// the single port and container if either is set, else none.
    pub open spec fn routes_in_force(self) -> Seq<RepoRouteView> {
        if self.routes@.len() > 0 {
            self.routes@.map_values(|r: RepoRouteEntry| r@)
        } else if self.port is Some || self.container is Some {
            seq![RepoRouteView { port: self.port, container: opt_text(self.container), kind: "http"@ }]
        } else {
            seq![]
        }
    }

    /// The routes in force.
    pub fn effective_routes(&self) -> (r: Vec<RepoRouteEntry>)
        ensures
            r@.map_values(|e: RepoRouteEntry| e@) == self.routes_in_force(),
    {
        if self.routes.len() > 0 {
            duplicate_all(&self.routes)
        } else {
            let mut out: Vec<RepoRouteEntry> = Vec::new();
            if self.port.is_some() || self.container.is_some() {
                out.push(RepoRouteEntry {
                    port: self.port,
                    container: self.container.clone(),
                    kind: "http".to_owned(),
                });
            }
            assert(out@.map_values(|e: RepoRouteEntry| e@) =~= self.routes_in_force());
            out
        }
    }
}

impl Duplicate for PreviewConfig {
    open spec fn alike(&self, other: &Self) -> bool {
        *self == *other
    }

    fn duplicate(&self) -> (r: Self) {
        PreviewConfig {
            enabled: self.enabled,
            ttl: self.ttl,
            max: self.max,
            resources: match &self.resources {
                Some(x) => Some(RepoResourceConfig { memory: x.memory.clone(), cpus: x.cpus.clone() }),
                None => None,
            },
            hooks: match &self.hooks {
                Some(h) => Some(PreviewHooks { migrate: h.migrate.clone(), seed: h.seed.clone() }),
                None => None,
            },
        }
    }
}

// ── The server ──────────────────────────────────────────────────────────────

/// A registry declared in the server's configuration.
#[derive(Debug)]
pub struct RegistryEntry {
    pub url: String,
    pub username: Option<String>,
    pub token: Option<String>,
}

/// Preview settings of the server.
#[derive(Debug)]
pub struct ServerPreviewConfig {
    pub domain: String,
    pub max_per_app: Option<u32>,
    pub default_ttl: Option<String>,
    pub max_memory: Option<String>,
    pub max_cpus: Option<String>,
}

/// Deploy limits of the server.
#[derive(Debug)]
pub struct ServerDeployConfig {
    pub timeout: Duration,
    pub preview_timeout: Duration,
}

/// The server's configuration.
#[derive(Debug)]
pub struct SlipConfig {
    /// Declared registries, in the order they are consulted.
    pub registries: Vec<RegistryEntry>,
    pub preview: Option<ServerPreviewConfig>,
    pub deploy: Option<ServerDeployConfig>,
}

// ── Laws ────────────────────────────────────────────────────────────────────

/// A list of routes counts before the single one, which counts if it is set.
pub proof fn a_list_counts_before_the_single_route(server: RoutingConfig, repo: RepoRoutingConfig)
    ensures
        forall|i: int|
            0 <= i < server.routes@.len() ==> (#[trigger] server.routes_in_force()[i]) == (
                server.routes@[i].hostname@,
                server.routes@[i].port,
            ),
        server.routes@.len() > 0 ==> server.routes_in_force().len() == server.routes@.len(),
        server.routes@.len() == 0 ==> (server.domain matches Some(d) ==> server.routes_in_force().len() == 1
            && server.routes_in_force()[0] == (d@, server.port)),
        server.routes@.len() == 0 && server.domain is None ==> server.routes_in_force().len() == 0,
        forall|i: int|
            0 <= i < repo.routes@.len() ==> {
                &&& (#[trigger] repo.routes_in_force()[i]).port == repo.routes@[i].port
                &&& repo.routes_in_force()[i].container == opt_text(repo.routes@[i].container)
                &&& repo.routes_in_force()[i].kind == repo.routes@[i].kind@
            },
        repo.routes@.len() > 0 ==> repo.routes_in_force().len() == repo.routes@.len(),
        repo.routes@.len() == 0 && (repo.port is Some || repo.container is Some) ==> {
            &&& repo.routes_in_force().len() == 1
            &&& repo.routes_in_force()[0].port == repo.port
            &&& repo.routes_in_force()[0].container == opt_text(repo.container)
            &&& repo.routes_in_force()[0].kind == "http"@
        },
        repo.routes@.len() == 0 && repo.port is None && repo.container is None ==> repo.routes_in_force().len() == 0,
{
}

} // verus!
