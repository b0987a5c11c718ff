//! What applying a repository's configuration would change on the server.
//!
//! Both sides are reduced to the fields that can be pushed. What the repository
//! leaves unset is left to the server and never counts as a difference.

use crate::config::{
    AppPreviewConfig, DeployConfig, HealthConfig, NetworkConfig, RepoConfig, RepoDeployConfig, RepoHealthConfig,
    RepoResourceConfig, RepoVolume, ResourceConfig, RouteEntry, VolumeConfig,
};
use crate::json::{
    is_distinct, json_of, json_text, json_unsigned, models, object_of, print, seconds_view, sort_value, told_apart,
    Json, JsonView,
};
use crate::patch::{
    found, lies_in_difference, object_at, patches, plain, plain_array, plain_leaf, plain_object, spares,
    what_agrees_is_left_alone,
};
use crate::text::{begins, join, join_texts, same, starts_with, texts, to_chars, from_chars};
use crate::time::Duration;
use vstd::prelude::*;
use vstd::string::*;

verus! {

/// A JSON Patch operation of `json_patch`.
#[verifier::external_type_specification]
#[verifier::external_body]
pub struct ExPatchOperation(json_patch::PatchOperation);

/// An error of `serde_json`.
#[verifier::external_type_specification]
#[verifier::external_body]
pub struct ExJsonError(serde_json::Error);

/// The server's configuration of an app, as it answers requests for it.
#[derive(Debug)]
pub struct AppResponse {
    pub name: String,
    pub image: String,
    pub domain: String,
    pub port: u16,
    pub secret: Option<String>,
    /// Environment variables, each key once.
    pub env: Vec<(String, String)>,
    pub resources: ResourceConfig,
    pub network: NetworkConfig,
    pub health: HealthConfig,
    pub deploy: DeployConfig,
    pub preview: Option<AppPreviewConfig>,
    pub volumes: Vec<VolumeConfig>,
    pub routes: Vec<RouteEntry>,
}

// ── Fields that can be pushed ───────────────────────────────────────────────

/// The fields that can be pushed from a repository to the server.
#[derive(Debug)]
pub struct Pushable {
    pub image: Option<String>,
    pub domain: Option<String>,
    pub port: Option<u16>,
    pub health: PushableHealth,
    pub resources: PushableResources,
    pub deploy: PushableDeploy,
    pub env: Vec<(String, String)>,
    pub volumes: Vec<PushableVolume>,
    pub routes: Vec<PushableRoute>,
}

/// Health settings that can be pushed.
#[derive(Debug)]
pub struct PushableHealth {
    pub path: Option<String>,
    pub interval_secs: Option<Duration>,
    pub timeout_secs: Option<Duration>,
    pub retries: Option<u32>,
    pub start_period_secs: Option<Duration>,
}

/// Resource limits that can be pushed.
#[derive(Debug)]
pub struct PushableResources {
    pub memory: Option<String>,
    pub cpus: Option<String>,
}

/// Rollout settings that can be pushed.
#[derive(Debug)]
pub struct PushableDeploy {
    pub strategy: Option<String>,
    pub drain_timeout_secs: Option<Duration>,
    pub timeout_secs: Option<Duration>,
}

/// A volume that can be pushed.
#[derive(Debug)]
pub struct PushableVolume {
    pub mount_path: String,
    pub read_only: bool,
}

/// A route that can be pushed.
#[derive(Debug)]
pub struct PushableRoute {
    pub hostname: String,
    pub port: Option<u16>,
}

/// A text or null.
pub open spec fn str_or_null(o: Option<String>) -> JsonView {
    match o {
        Some(s) => JsonView::Str(s@),
        None => JsonView::Null,
    }
}

/// A number of seconds or null.
pub open spec fn secs_or_null(o: Option<Duration>) -> JsonView {
    match o {
        Some(d) => seconds_view(d),
        None => JsonView::Null,
    }
}

/// Whether a span's nanoseconds stay below one second.
pub open spec fn in_seconds(o: Option<Duration>) -> bool {
    o matches Some(d) ==> d.nanos() < 1_000_000_000
}

/// A port or null.
pub open spec fn port_or_null(o: Option<u16>) -> JsonView {
    match o {
        Some(n) => JsonView::Number(json_unsigned(n as u64)),
        None => JsonView::Null,
    }
}

/// A count or null.
pub open spec fn count_or_null(o: Option<u32>) -> JsonView {
    match o {
        Some(n) => JsonView::Number(json_unsigned(n as u64)),
        None => JsonView::Null,
    }
}

/// Variables as a JSON object.
pub open spec fn env_view(env: Seq<(String, String)>) -> JsonView {
    JsonView::Object(object_of(env.map_values(|p: (String, String)| (p.0@, JsonView::Str(p.1@)))))
}

/// A volume as a JSON object.
pub open spec fn volume_view(mount_path: Seq<char>, read_only: bool) -> JsonView {
    JsonView::Object(
        Map::empty().insert("mount_path"@, JsonView::Str(mount_path)).insert("read_only"@, JsonView::Bool(read_only)),
    )
}

/// A route as a JSON object.
pub open spec fn route_view(hostname: Seq<char>, port: Option<u16>) -> JsonView {
    JsonView::Object(Map::empty().insert("hostname"@, JsonView::Str(hostname)).insert("port"@, port_or_null(port)))
}

/// Health settings as entries of a JSON object.
pub open spec fn health_map(h: PushableHealth) -> Map<Seq<char>, JsonView> {
    Map::empty().insert("path"@, str_or_null(h.path)).insert("interval_secs"@, secs_or_null(h.interval_secs)).insert(
        "timeout_secs"@,
        secs_or_null(h.timeout_secs),
    ).insert("retries"@, count_or_null(h.retries)).insert("start_period_secs"@, secs_or_null(h.start_period_secs))
}

/// Resource limits as entries of a JSON object.
pub open spec fn resource_map(r: PushableResources) -> Map<Seq<char>, JsonView> {
    Map::empty().insert("memory"@, str_or_null(r.memory)).insert("cpus"@, str_or_null(r.cpus))
}

/// Rollout settings as entries of a JSON object.
pub open spec fn deploy_map(d: PushableDeploy) -> Map<Seq<char>, JsonView> {
    Map::empty().insert("strategy"@, str_or_null(d.strategy)).insert(
        "drain_timeout_secs"@,
        secs_or_null(d.drain_timeout_secs),
    ).insert("timeout_secs"@, secs_or_null(d.timeout_secs))
}

impl View for Pushable {
    type V = JsonView;

    /// The fields as one JSON object.
    open spec fn view(&self) -> JsonView {
        JsonView::Object(
            Map::empty().insert("image"@, str_or_null(self.image)).insert("domain"@, str_or_null(self.domain)).insert(
                "port"@,
                port_or_null(self.port),
            ).insert("health"@, JsonView::Object(health_map(self.health))).insert(
                "resources"@,
                JsonView::Object(resource_map(self.resources)),
            ).insert("deploy"@, JsonView::Object(deploy_map(self.deploy))).insert("env"@, env_view(self.env@)).insert(
                "volumes"@,
                JsonView::Array(self.volumes@.map_values(|v: PushableVolume| volume_view(v.mount_path@, v.read_only))),
            ).insert(
                "routes"@,
                JsonView::Array(self.routes@.map_values(|r: PushableRoute| route_view(r.hostname@, r.port))),
            ),
        )
    }
}

fn json_str(o: &Option<String>) -> (r: Json)
    ensures
        r@ == str_or_null(*o),
{
    match o {
        Some(s) => Json::text(s.as_str()),
        None => Json::Null,
    }
}

fn json_secs(o: Option<Duration>) -> (r: Json)
    ensures
        r@ == secs_or_null(o),
        in_seconds(o),
        o matches Some(d) ==> told_apart(d),
{
    match o {
        Some(d) => Json::seconds(d),
        None => Json::Null,
    }
}

fn json_port(o: Option<u16>) -> (r: Json)
    ensures
        r@ == port_or_null(o),
        forall|other: Option<u16>| #[trigger] port_or_null(other) == r@ ==> other == o,
{
    match o {
        Some(n) => Json::unsigned(n as u64),
        None => Json::Null,
    }
}

fn json_count(o: Option<u32>) -> (r: Json)
    ensures
        r@ == count_or_null(o),
        forall|other: Option<u32>| #[trigger] count_or_null(other) == r@ ==> other == o,
{
    match o {
        Some(n) => Json::unsigned(n as u64),
        None => Json::Null,
    }
}

fn json_env(env: &Vec<(String, String)>) -> (r: Json)
    ensures
        r@ == env_view(env@),
{
    let ghost all = env@.map_values(|p: (String, String)| (p.0@, JsonView::Str(p.1@)));
    let mut out = Json::object();
    let mut i: usize = 0;
    assert(object_of(all.take(0)) =~= Map::empty());
    while i < env.len()
        invariant
            i <= env@.len(),
            all == env@.map_values(|p: (String, String)| (p.0@, JsonView::Str(p.1@))),
            out is Object,
            out@ == JsonView::Object(object_of(all.take(i as int))),
        decreases env@.len() - i,
    {
        assert(all.take(i + 1).drop_last() =~= all.take(i as int));
        assert(all.take(i + 1).last() == (env@[i as int].0@, JsonView::Str(env@[i as int].1@)));
        out.set(env[i].0.as_str(), Json::text(env[i].1.as_str()));
        i = i + 1;
    }
    assert(all.take(i as int) =~= all);
    out
}

fn json_volume(mount_path: &str, read_only: bool) -> (r: Json)
    ensures
        r@ == volume_view(mount_path@, read_only),
{
    let mut o = Json::object();
    o.set("mount_path", Json::text(mount_path));
    o.set("read_only", Json::Bool(read_only));
    o
}

proof fn plain_secs(o: Option<Duration>)
    requires
        in_seconds(o),
    ensures
        plain(secs_or_null(o)),
{
    plain_leaf(secs_or_null(o));
}

proof fn plain_env(entries: Seq<(Seq<char>, JsonView)>)
    requires
        forall|i: int| 0 <= i < entries.len() ==> (#[trigger] entries[i]).1 is Str,
    ensures
        forall|k: Seq<char>| object_of(entries).contains_key(k) ==> plain(#[trigger] object_of(entries)[k]),
    decreases entries.len(),
{
    if entries.len() > 0 {
        let init = entries.drop_last();
        plain_env(init);
        assert(entries.last() == entries[entries.len() - 1]);
        plain_leaf(entries.last().1);
        assert forall|k: Seq<char>| object_of(entries).contains_key(k) implies plain(
            #[trigger] object_of(entries)[k],
        ) by {
            if k != entries.last().0 {
                assert(object_of(init).contains_key(k));
                assert(object_of(entries)[k] == object_of(init)[k]);
            }
        }
    }
}

/// The numbers in the JSON object of the fields are ports, counts and spans of
/// time.
proof fn plain_pushable(p: Pushable)
    requires
        in_seconds(p.health.interval_secs),
        in_seconds(p.health.timeout_secs),
        in_seconds(p.health.start_period_secs),
        in_seconds(p.deploy.drain_timeout_secs),
        in_seconds(p.deploy.timeout_secs),
    ensures
        plain(p@),
{
    plain_secs(p.health.interval_secs);
    plain_secs(p.health.timeout_secs);
    plain_secs(p.health.start_period_secs);
    plain_secs(p.deploy.drain_timeout_secs);
    plain_secs(p.deploy.timeout_secs);
    plain_leaf(str_or_null(p.health.path));
    plain_leaf(count_or_null(p.health.retries));
    plain_leaf(str_or_null(p.resources.memory));
    plain_leaf(str_or_null(p.resources.cpus));
    plain_leaf(str_or_null(p.deploy.strategy));
    plain_leaf(str_or_null(p.image));
    plain_leaf(str_or_null(p.domain));
    plain_leaf(port_or_null(p.port));
    let top = p@->Object_0;
    plain_object(health_map(p.health));
    plain_object(resource_map(p.resources));
    plain_object(deploy_map(p.deploy));
    let entries = p.env@.map_values(|e: (String, String)| (e.0@, JsonView::Str(e.1@)));
    plain_env(entries);
    plain_object(object_of(entries));
    let volumes = p.volumes@.map_values(|v: PushableVolume| volume_view(v.mount_path@, v.read_only));
    assert forall|i: int| 0 <= i < volumes.len() implies plain(#[trigger] volumes[i]) by {
        let v = p.volumes@[i];
        plain_leaf(JsonView::Str(v.mount_path@));
        plain_leaf(JsonView::Bool(v.read_only));
        plain_object(volume_view(v.mount_path@, v.read_only)->Object_0);
    }
    plain_array(volumes);
    let routes = p.routes@.map_values(|r: PushableRoute| route_view(r.hostname@, r.port));
    assert forall|i: int| 0 <= i < routes.len() implies plain(#[trigger] routes[i]) by {
        let r = p.routes@[i];
        plain_leaf(JsonView::Str(r.hostname@));
        plain_leaf(port_or_null(r.port));
        plain_object(route_view(r.hostname@, r.port)->Object_0);
    }
    plain_array(routes);
    plain_object(top);
}

impl Pushable {
    /// The fields as one JSON value.
    pub fn to_json(&self) -> (r: Json)
        ensures
            r@ == self@,
            plain(r@),
            forall|port: Option<u16>| #[trigger] port_or_null(port) == port_or_null(self.port) ==> port == self.port,
            forall|n: Option<u32>|
                #[trigger] count_or_null(n) == count_or_null(self.health.retries) ==> n == self.health.retries,
            self.health.interval_secs matches Some(d) ==> told_apart(d),
            self.health.timeout_secs matches Some(d) ==> told_apart(d),
            self.health.start_period_secs matches Some(d) ==> told_apart(d),
            self.deploy.drain_timeout_secs matches Some(d) ==> told_apart(d),
            self.deploy.timeout_secs matches Some(d) ==> told_apart(d),
    {
        let mut health = Json::object();
        health.set("path", json_str(&self.health.path));
        health.set("interval_secs", json_secs(self.health.interval_secs));
        health.set("timeout_secs", json_secs(self.health.timeout_secs));
        health.set("retries", json_count(self.health.retries));
        health.set("start_period_secs", json_secs(self.health.start_period_secs));
        let mut resources = Json::object();
        resources.set("memory", json_str(&self.resources.memory));
        resources.set("cpus", json_str(&self.resources.cpus));
        let mut deploy = Json::object();
        deploy.set("strategy", json_str(&self.deploy.strategy));
        deploy.set("drain_timeout_secs", json_secs(self.deploy.drain_timeout_secs));
        deploy.set("timeout_secs", json_secs(self.deploy.timeout_secs));
        let mut volumes: Vec<Json> = Vec::new();
        let mut i: usize = 0;
        while i < self.volumes.len()
            invariant
                i <= self.volumes@.len(),
                volumes@.len() == i,
                forall|k: int|
                    0 <= k < i ==> (#[trigger] volumes@[k])@ == volume_view(
                        self.volumes@[k].mount_path@,
                        self.volumes@[k].read_only,
                    ),
            decreases self.volumes@.len() - i,
        {
            volumes.push(json_volume(self.volumes[i].mount_path.as_str(), self.volumes[i].read_only));
            i = i + 1;
        }
        assert(models(volumes@) =~= self.volumes@.map_values(
            |v: PushableVolume| volume_view(v.mount_path@, v.read_only),
        ));
        let mut routes: Vec<Json> = Vec::new();
        let mut j: usize = 0;
        while j < self.routes.len()
            invariant
                j <= self.routes@.len(),
                routes@.len() == j,
                forall|k: int|
                    0 <= k < j ==> (#[trigger] routes@[k])@ == route_view(
                        self.routes@[k].hostname@,
                        self.routes@[k].port,
                    ),
            decreases self.routes@.len() - j,
        {
            let mut o = Json::object();
            o.set("hostname", Json::text(self.routes[j].hostname.as_str()));
            o.set("port", json_port(self.routes[j].port));
            routes.push(o);
            j = j + 1;
        }
        assert(models(routes@) =~= self.routes@.map_values(|r: PushableRoute| route_view(r.hostname@, r.port)));
        let volume_array = Json::Array(volumes);
        let route_array = Json::Array(routes);
        proof {
            volume_array.unfold();
            route_array.unfold();
        }
        let mut out = Json::object();
        out.set("image", json_str(&self.image));
        out.set("domain", json_str(&self.domain));
        out.set("port", json_port(self.port));
        out.set("health", health);
        out.set("resources", resources);
        out.set("deploy", deploy);
        out.set("env", json_env(&self.env));
        out.set("volumes", volume_array);
        out.set("routes", route_array);
        proof {
            plain_pushable(*self);
        }
        out
    }
}

/// The fields of a repository. Routes are the server's and never come from
/// here.
pub fn repo_pushable(cfg: &RepoConfig) -> (r: Pushable)
    ensures
        repo_fields(r, *cfg),
{
    let mut volumes: Vec<PushableVolume> = Vec::new();
    let mut i: usize = 0;
    while i < cfg.volumes.len()
        invariant
            i <= cfg.volumes@.len(),
            volumes@.len() == i,
            forall|k: int|
                0 <= k < i ==> (#[trigger] volumes@[k]).mount_path == cfg.volumes@[k].mount_path
                    && volumes@[k].read_only == cfg.volumes@[k].read_only,
        decreases cfg.volumes@.len() - i,
    {
        volumes.push(
            PushableVolume { mount_path: cfg.volumes[i].mount_path.clone(), read_only: cfg.volumes[i].read_only },
        );
        i = i + 1;
    }
    assert(volumes@ =~= cfg.volumes@.map_values(
        |v: RepoVolume| PushableVolume { mount_path: v.mount_path, read_only: v.read_only },
    ));
    Pushable {
        image: cfg.app.image.clone(),
        domain: cfg.routing.domain.clone(),
        port: cfg.routing.port,
        health: PushableHealth {
            path: cfg.health.path.clone(),
            interval_secs: cfg.health.interval,
            timeout_secs: cfg.health.timeout,
            retries: cfg.health.retries,
            start_period_secs: cfg.health.start_period,
        },
        resources: PushableResources {
            memory: match &cfg.defaults.resources {
                Some(x) => x.memory.clone(),
                None => None,
            },
            cpus: match &cfg.defaults.resources {
                Some(x) => x.cpus.clone(),
                None => None,
            },
        },
        deploy: PushableDeploy {
            strategy: match &cfg.deploy {
                Some(d) => d.strategy.clone(),
                None => None,
            },
            drain_timeout_secs: match &cfg.deploy {
                Some(d) => d.drain_timeout,
                None => None,
            },
            timeout_secs: match &cfg.deploy {
                Some(d) => d.timeout,
                None => None,
            },
        },
        env: crate::config::copy_pairs(&cfg.env),
        volumes,
        routes: Vec::new(),
    }
}

/// What a repository pushes.
pub open spec fn repo_fields(p: Pushable, cfg: RepoConfig) -> bool {
    &&& p.image == cfg.app.image
    &&& p.domain == cfg.routing.domain
    &&& p.port == cfg.routing.port
    &&& p.health.path == cfg.health.path
    &&& p.health.interval_secs == cfg.health.interval
    &&& p.health.timeout_secs == cfg.health.timeout
    &&& p.health.retries == cfg.health.retries
    &&& p.health.start_period_secs == cfg.health.start_period
    &&& p.resources.memory == (match cfg.defaults.resources {
        Some(x) => x.memory,
        None => None,
    })
    &&& p.resources.cpus == (match cfg.defaults.resources {
        Some(x) => x.cpus,
        None => None,
    })
    &&& p.deploy.strategy == (match cfg.deploy {
        Some(d) => d.strategy,
        None => None,
    })
    &&& p.deploy.drain_timeout_secs == (match cfg.deploy {
        Some(d) => d.drain_timeout,
        None => None,
    })
    &&& p.deploy.timeout_secs == (match cfg.deploy {
        Some(d) => d.timeout,
        None => None,
    })
    &&& p.env@ == cfg.env@
    &&& p.volumes@ == cfg.volumes@.map_values(
        |v: RepoVolume| PushableVolume { mount_path: v.mount_path, read_only: v.read_only },
    )
    &&& p.routes@.len() == 0
}

/// What the server has. A port of 0 and an empty domain count as unset.
pub open spec fn server_fields(p: Pushable, resp: AppResponse) -> bool {
    &&& p.image == Some(resp.image)
    &&& p.domain == if resp.domain@.len() == 0 {
        None
    } else {
        Some(resp.domain)
    }
    &&& p.port == if resp.port == 0 {
        None
    } else {
        Some(resp.port)
    }
    &&& p.health.path == resp.health.path
    &&& p.health.interval_secs == Some(resp.health.interval)
    &&& p.health.timeout_secs == Some(resp.health.timeout)
    &&& p.health.retries == Some(resp.health.retries)
    &&& p.health.start_period_secs == Some(resp.health.start_period)
    &&& p.resources.memory == resp.resources.memory
    &&& p.resources.cpus == resp.resources.cpus
    &&& p.deploy.strategy == Some(resp.deploy.strategy)
    &&& p.deploy.drain_timeout_secs == Some(resp.deploy.drain_timeout)
    &&& p.deploy.timeout_secs == resp.deploy.timeout
    &&& p.env@ == resp.env@
    &&& p.volumes@ == resp.volumes@.map_values(
        |v: VolumeConfig| PushableVolume { mount_path: v.mount_path, read_only: v.read_only },
    )
    &&& p.routes@ == resp.routes@.map_values(
        |r: RouteEntry| PushableRoute { hostname: r.hostname, port: r.port },
    )
}

/// The fields of the server.
pub fn server_pushable(resp: &AppResponse) -> (r: Pushable)
    ensures
        server_fields(r, *resp),
{
    let mut volumes: Vec<PushableVolume> = Vec::new();
    let mut i: usize = 0;
    while i < resp.volumes.len()
        invariant
            i <= resp.volumes@.len(),
            volumes@.len() == i,
            forall|k: int|
                0 <= k < i ==> (#[trigger] volumes@[k]).mount_path == resp.volumes@[k].mount_path
                    && volumes@[k].read_only == resp.volumes@[k].read_only,
        decreases resp.volumes@.len() - i,
    {
        volumes.push(
            PushableVolume { mount_path: resp.volumes[i].mount_path.clone(), read_only: resp.volumes[i].read_only },
        );
        i = i + 1;
    }
    assert(volumes@ =~= resp.volumes@.map_values(
        |v: VolumeConfig| PushableVolume { mount_path: v.mount_path, read_only: v.read_only },
    ));
    let mut routes: Vec<PushableRoute> = Vec::new();
    let mut j: usize = 0;
    while j < resp.routes.len()
        invariant
            j <= resp.routes@.len(),
            routes@.len() == j,
            forall|k: int|
                0 <= k < j ==> (#[trigger] routes@[k]).hostname == resp.routes@[k].hostname && routes@[k].port
                    == resp.routes@[k].port,
        decreases resp.routes@.len() - j,
    {
        routes.push(PushableRoute { hostname: resp.routes[j].hostname.clone(), port: resp.routes[j].port });
        j = j + 1;
    }
    assert(routes@ =~= resp.routes@.map_values(
        |r: RouteEntry| PushableRoute { hostname: r.hostname, port: r.port },
    ));
    Pushable {
        image: Some(resp.image.clone()),
        domain: if resp.domain.as_str().is_empty() {
            None
        } else {
            Some(resp.domain.clone())
        },
        port: if resp.port == 0 {
            None
        } else {
            Some(resp.port)
        },
        health: PushableHealth {
            path: resp.health.path.clone(),
            interval_secs: Some(resp.health.interval),
            timeout_secs: Some(resp.health.timeout),
            retries: Some(resp.health.retries),
            start_period_secs: Some(resp.health.start_period),
        },
        resources: PushableResources { memory: resp.resources.memory.clone(), cpus: resp.resources.cpus.clone() },
        deploy: PushableDeploy {
            strategy: Some(resp.deploy.strategy.clone()),
            drain_timeout_secs: Some(resp.deploy.drain_timeout),
            timeout_secs: resp.deploy.timeout,
        },
        env: crate::config::copy_pairs(&resp.env),
        volumes,
        routes,
    }
}

/// A value where the repository has one, else nothing.
pub open spec fn managed<A, B>(repo: Option<A>, server: Option<B>) -> Option<B> {
    if repo is None {
        None
    } else {
        server
    }
}

/// Health settings without those that the repository leaves unset.
pub open spec fn managed_health(repo: PushableHealth, server: PushableHealth) -> PushableHealth {
    PushableHealth {
        path: managed(repo.path, server.path),
        interval_secs: managed(repo.interval_secs, server.interval_secs),
        timeout_secs: managed(repo.timeout_secs, server.timeout_secs),
        retries: managed(repo.retries, server.retries),
        start_period_secs: managed(repo.start_period_secs, server.start_period_secs),
    }
}

/// Rollout settings without those that the repository leaves unset.
pub open spec fn managed_deploy(repo: PushableDeploy, server: PushableDeploy) -> PushableDeploy {
    PushableDeploy {
        strategy: managed(repo.strategy, server.strategy),
        drain_timeout_secs: managed(repo.drain_timeout_secs, server.drain_timeout_secs),
        timeout_secs: managed(repo.timeout_secs, server.timeout_secs),
    }
}

/// The server's fields without those that the repository leaves unset. Routes
/// are the server's own unless the repository has any.
pub open spec fn normalized(repo: Pushable, server: Pushable) -> Pushable {
    Pushable {
        image: managed(repo.image, server.image),
        domain: managed(repo.domain, server.domain),
        port: managed(repo.port, server.port),
        health: managed_health(repo.health, server.health),
        resources: PushableResources {
            memory: managed(repo.resources.memory, server.resources.memory),
            cpus: managed(repo.resources.cpus, server.resources.cpus),
        },
        deploy: managed_deploy(repo.deploy, server.deploy),
        routes: if repo.routes@.len() == 0 {
            repo.routes
        } else {
            server.routes
        },
        ..server
    }
}

/// Whether two sets of fields are the same, with the same routes in each.
pub open spec fn same_fields(a: Pushable, b: Pushable) -> bool {
    &&& a == (Pushable { routes: a.routes, ..b })
    &&& a.routes@ == b.routes@
}

fn clear_health(repo: &PushableHealth, server: &mut PushableHealth)
    ensures
        *final(server) == managed_health(*repo, *old(server)),
{
    if repo.path.is_none() {
        server.path = None;
    }
    if repo.interval_secs.is_none() {
        server.interval_secs = None;
    }
    if repo.timeout_secs.is_none() {
        server.timeout_secs = None;
    }
    if repo.retries.is_none() {
        server.retries = None;
    }
    if repo.start_period_secs.is_none() {
        server.start_period_secs = None;
    }
}

fn clear_deploy(repo: &PushableDeploy, server: &mut PushableDeploy)
    ensures
        *final(server) == managed_deploy(*repo, *old(server)),
{
    if repo.strategy.is_none() {
        server.strategy = None;
    }
    if repo.drain_timeout_secs.is_none() {
        server.drain_timeout_secs = None;
    }
    if repo.timeout_secs.is_none() {
        server.timeout_secs = None;
    }
}

/// Clears the server's fields that the repository leaves unset.
pub fn normalize_server_to_repo(repo: &Pushable, server: &mut Pushable)
    ensures
        same_fields(*final(server), normalized(*repo, *old(server))),
{
    if repo.image.is_none() {
        server.image = None;
    }
    if repo.domain.is_none() {
        server.domain = None;
    }
    if repo.port.is_none() {
        server.port = None;
    }
    clear_health(&repo.health, &mut server.health);
    if repo.resources.memory.is_none() {
        server.resources.memory = None;
    }
    if repo.resources.cpus.is_none() {
        server.resources.cpus = None;
    }
    clear_deploy(&repo.deploy, &mut server.deploy);
    if repo.routes.len() == 0 {
        server.routes = Vec::new();
        assert(server.routes@ =~= repo.routes@);
    }
}

// ── Patches ─────────────────────────────────────────────────────────────────

/// One operation of a JSON Patch. Its path is a JSON Pointer.
#[derive(Debug)]
pub enum PatchOp {
    Add { path: String, value: serde_json::Value },
    Remove { path: String },
    Replace { path: String, value: serde_json::Value },
    /// An operation of another kind, kept as it is.
    Other { path: String, op: json_patch::PatchOperation },
}

/// An operation as a mathematical value.
pub enum OpView {
    Add { path: Seq<char>, value: JsonView },
    Remove { path: Seq<char> },
    Replace { path: Seq<char>, value: JsonView },
    Other { path: Seq<char>, op: json_patch::PatchOperation },
}

impl View for PatchOp {
    type V = OpView;

    open spec fn view(&self) -> OpView {
        match self {
            PatchOp::Add { path, value } => OpView::Add { path: path@, value: json_of(*value) },
            PatchOp::Remove { path } => OpView::Remove { path: path@ },
            PatchOp::Replace { path, value } => OpView::Replace { path: path@, value: json_of(*value) },
            PatchOp::Other { path, op } => OpView::Other { path: path@, op: *op },
        }
    }
}

impl OpView {
    /// Where the operation applies.
    pub open spec fn path(self) -> Seq<char> {
        match self {
            OpView::Add { path, .. } => path,
            OpView::Remove { path } => path,
            OpView::Replace { path, .. } => path,
            OpView::Other { path, .. } => path,
        }
    }
}

/// What the operations of a list hold.
pub open spec fn op_views(v: Seq<PatchOp>) -> Seq<OpView> {
    v.map_values(|o: PatchOp| o@)
}

/// What `json_patch::diff` finds between two values.
pub uninterp spec fn json_diff(left: JsonView, right: JsonView) -> Seq<OpView>;

/// `json_patch::diff` finds the operations that turn one value into another.
/// They depend on the two values alone and are named `json_diff`. It adds,
/// removes and replaces only, and finds nothing between equal values. Applied
/// one after the other, the operations turn the first value into the second;
/// this is said of values with plain numbers alone, since to `serde_json` the
/// two zeros among floating-point numbers are equal. Each operation lies where
/// the two values differ.
#[verifier::external_body]
fn diff_values(left: &serde_json::Value, right: &serde_json::Value) -> (r: Vec<PatchOp>)
    ensures
        op_views(r@) == json_diff(json_of(*left), json_of(*right)),
        json_of(*left) == json_of(*right) ==> r@.len() == 0,
        forall|i: int| 0 <= i < r@.len() ==> !((#[trigger] r@[i]) is Other),
        plain(json_of(*left)) && plain(json_of(*right)) ==> patches(json_of(*left), op_views(r@), json_of(*right)),
        forall|i: int|
            0 <= i < r@.len() ==> lies_in_difference(json_of(*left), json_of(*right), (#[trigger] r@[i])@),
{
    json_patch::diff(left, right).0.into_iter().map(|op| match op {
        json_patch::PatchOperation::Add(a) => PatchOp::Add { path: a.path.to_string(), value: a.value },
        json_patch::PatchOperation::Remove(a) => PatchOp::Remove { path: a.path.to_string() },
        json_patch::PatchOperation::Replace(a) => PatchOp::Replace { path: a.path.to_string(), value: a.value },
        other => PatchOp::Other { path: other.path().to_string(), op: other },
    }).collect()
}

/// `json_patch::PatchOperation`'s `clone` gives the same operation.
pub assume_specification[ <json_patch::PatchOperation as Clone>::clone ](
    o: &json_patch::PatchOperation,
) -> (r: json_patch::PatchOperation)
    ensures
        r == *o,
;

/// What an apply would change, or has changed.
#[derive(Debug)]
pub struct ApplyDiff {
    /// Always `slip.apply.diff/v1`.
    pub schema: String,
    pub app: String,
    pub changed: bool,
    pub ops: Vec<PatchOp>,
    /// Whether the app would be created.
    pub create: Option<bool>,
    pub message: Option<String>,
    /// `created` or `applied`, after an apply.
    pub status: Option<String>,
}

/// Whether a path leads into the environment.
pub open spec fn is_env_path(path: Seq<char>) -> bool {
    starts_with(path, "/env/"@) || path == "/env"@
}

fn in_env(path: &str) -> (r: bool)
    ensures
        r == is_env_path(path@),
{
    begins(path, "/env/") || same(path, "/env")
}

/// An operation with a value from the environment hidden.
pub open spec fn hidden(op: OpView) -> OpView {
    match op {
        OpView::Add { path, .. } => if is_env_path(path) {
            OpView::Add { path, value: JsonView::Str("(redacted)"@) }
        } else {
            op
        },
        OpView::Replace { path, .. } => if is_env_path(path) {
            OpView::Replace { path, value: JsonView::Str("(redacted)"@) }
        } else {
            op
        },
        _ => op,
    }
}

impl PatchOp {
    /// A copy.
    pub fn copy(&self) -> (r: PatchOp)
        ensures
            r@ == self@,
    {
        match self {
            PatchOp::Add { path, value } => PatchOp::Add { path: path.clone(), value: value.clone() },
            PatchOp::Remove { path } => PatchOp::Remove { path: path.clone() },
            PatchOp::Replace { path, value } => PatchOp::Replace { path: path.clone(), value: value.clone() },
            PatchOp::Other { path, op } => PatchOp::Other { path: path.clone(), op: op.clone() },
        }
    }

    /// Where the operation applies.
    pub fn path(&self) -> (r: &String)
        ensures
            r@ == self@.path(),
    {
        match self {
            PatchOp::Add { path, .. } => path,
            PatchOp::Remove { path } => path,
            PatchOp::Replace { path, .. } => path,
            PatchOp::Other { path, .. } => path,
        }
    }

    fn redact(&self) -> (r: PatchOp)
        ensures
            r@ == hidden(self@),
    {
        match self {
            PatchOp::Add { path, .. } => if in_env(path.as_str()) {
                PatchOp::Add { path: path.clone(), value: Json::text("(redacted)").to_value() }
            } else {
                self.copy()
            },
            PatchOp::Replace { path, .. } => if in_env(path.as_str()) {
                PatchOp::Replace { path: path.clone(), value: Json::text("(redacted)").to_value() }
            } else {
                self.copy()
            },
            _ => self.copy(),
        }
    }
}

impl ApplyDiff {
    /// A copy for display with the values of environment variables hidden.
    pub fn redacted(&self) -> (r: ApplyDiff)
        ensures
            op_views(r.ops@) == op_views(self.ops@).map_values(|o: OpView| hidden(o)),
            r == (ApplyDiff { ops: r.ops, ..*self }),
    {
        let mut ops: Vec<PatchOp> = Vec::new();
        let mut i: usize = 0;
        while i < self.ops.len()
            invariant
                i <= self.ops@.len(),
                ops@.len() == i,
                forall|k: int| 0 <= k < i ==> (#[trigger] ops@[k])@ == hidden(self.ops@[k]@),
            decreases self.ops@.len() - i,
        {
            let o = self.ops[i].redact();
            ops.push(o);
            i = i + 1;
        }
        assert(op_views(ops@) =~= op_views(self.ops@).map_values(|o: OpView| hidden(o)));
        ApplyDiff {
            schema: self.schema.clone(),
            app: self.app.clone(),
            changed: self.changed,
            ops,
            create: self.create,
            message: self.message.clone(),
            status: self.status.clone(),
        }
    }
}

/// No operation of a redacted diff shows a value of the environment, and the
/// paths are those of the diff.
pub proof fn redaction_hides_the_environment(ops: Seq<OpView>, i: int)
    requires
        0 <= i < ops.len(),
    ensures
        ({
            let shown = ops.map_values(|o: OpView| hidden(o));
            &&& shown.len() == ops.len()
            &&& shown[i].path() == ops[i].path()
            &&& is_env_path(ops[i].path()) ==> {
                &&& shown[i] matches OpView::Add { value, .. } ==> value == JsonView::Str("(redacted)"@)
                &&& shown[i] matches OpView::Replace { value, .. } ==> value == JsonView::Str("(redacted)"@)
            }
            &&& !is_env_path(ops[i].path()) ==> shown[i] == ops[i]
        }),
{
}

/// Whether the repository sets a span of time that the server has not, or has
/// another of, if both are spans that JSON numbers tell apart.
pub open spec fn lasts_otherwise(repo: Option<Duration>, server: Option<Duration>) -> bool {
    match (repo, server) {
        (Some(r), Some(s)) => is_distinct(r) && is_distinct(s) && (r.secs() != s.secs() || r.nanos() != s.nanos()),
        (Some(_), None) => true,
        (None, _) => false,
    }
}

/// Whether a diff is what lies between a repository and the server: its
/// operations make the server's fields match the repository's, each lies where
/// the two differ, and there are none exactly if they match already.
pub open spec fn diff_between(d: ApplyDiff, repo: RepoConfig, repo_p: Pushable, server_p: Pushable) -> bool {
    &&& d.schema@ == "slip.apply.diff/v1"@
    &&& d.app == repo.app.name
    &&& d.changed == (d.ops@.len() > 0)
    &&& op_views(d.ops@) == json_diff(normalized(repo_p, server_p)@, repo_p@)
    &&& patches(normalized(repo_p, server_p)@, op_views(d.ops@), repo_p@)
    &&& d.changed == (normalized(repo_p, server_p)@ != repo_p@)
    &&& repo_p.port is Some && repo_p.port != server_p.port ==> d.changed && port_or_null(repo_p.port)
        != port_or_null(server_p.port)
    &&& repo_p.health.retries is Some && repo_p.health.retries != server_p.health.retries ==> d.changed
        && count_or_null(repo_p.health.retries) != count_or_null(server_p.health.retries)
    &&& lasts_otherwise(repo_p.health.interval_secs, server_p.health.interval_secs) ==> d.changed && secs_or_null(repo_p.health.interval_secs)
        != secs_or_null(server_p.health.interval_secs)
    &&& lasts_otherwise(repo_p.health.timeout_secs, server_p.health.timeout_secs) ==> d.changed && secs_or_null(repo_p.health.timeout_secs)
        != secs_or_null(server_p.health.timeout_secs)
    &&& lasts_otherwise(repo_p.health.start_period_secs, server_p.health.start_period_secs) ==> d.changed && secs_or_null(repo_p.health.start_period_secs)
        != secs_or_null(server_p.health.start_period_secs)
    &&& lasts_otherwise(repo_p.deploy.drain_timeout_secs, server_p.deploy.drain_timeout_secs) ==> d.changed && secs_or_null(repo_p.deploy.drain_timeout_secs)
        != secs_or_null(server_p.deploy.drain_timeout_secs)
    &&& lasts_otherwise(repo_p.deploy.timeout_secs, server_p.deploy.timeout_secs) ==> d.changed && secs_or_null(repo_p.deploy.timeout_secs)
        != secs_or_null(server_p.deploy.timeout_secs)
    &&& forall|i: int|
        0 <= i < d.ops@.len() ==> lies_in_difference(
            normalized(repo_p, server_p)@,
            repo_p@,
            (#[trigger] d.ops@[i])@,
        )
    &&& d.create is None
    &&& d.message is None
    &&& d.status is None
}

/// What would have to change on the server to match the repository.
pub fn compute_diff(repo: &RepoConfig, server: &AppResponse) -> (r: Result<ApplyDiff, serde_json::Error>)
    ensures
        r is Ok,
        exists|repo_p: Pushable, server_p: Pushable|
            repo_fields(repo_p, *repo) && server_fields(server_p, *server) && #[trigger] diff_between(
                r->Ok_0,
                *repo,
                repo_p,
                server_p,
            ),
{
    let repo_p = repo_pushable(repo);
    let mut server_p = server_pushable(server);
    let ghost given = server_p;
    normalize_server_to_repo(&repo_p, &mut server_p);
    let repo_json = sort_value(&repo_p.to_json());
    let server_json = sort_value(&server_p.to_json());
    let ops = diff_values(&server_json.to_value(), &repo_json.to_value());
    let d = ApplyDiff {
        schema: "slip.apply.diff/v1".to_owned(),
        app: repo.app.name.clone(),
        changed: ops.len() > 0,
        ops,
        create: None,
        message: None,
        status: None,
    };
    let r: Result<ApplyDiff, serde_json::Error> = Ok(d);
    proof {
        fields_read_back(repo_p);
        fields_read_back(server_p);
    }
    assert(repo_fields(repo_p, *repo) && server_fields(given, *server));
    assert(diff_between(r->Ok_0, *repo, repo_p, given));
    r
}

/// Whether two optional values that a repository may set agree where it does.
pub open spec fn agrees<A>(repo: Option<A>, server: Option<A>) -> bool {
    repo is None || repo == server
}

/// A server that agrees with the repository in every field that the
/// repository sets, and in variables and volumes, differs in nothing, whatever
/// routes it has: both sides read the same, so nothing is to change.
pub proof fn agreement_is_no_change(repo: RepoConfig, server: AppResponse, repo_p: Pushable, server_p: Pushable)
    requires
        repo_fields(repo_p, repo),
        server_fields(server_p, server),
        agrees(repo_p.image, server_p.image),
        agrees(repo_p.domain, server_p.domain),
        agrees(repo_p.port, server_p.port),
        agrees(repo_p.health.path, server_p.health.path),
        agrees(repo_p.health.interval_secs, server_p.health.interval_secs),
        agrees(repo_p.health.timeout_secs, server_p.health.timeout_secs),
        agrees(repo_p.health.retries, server_p.health.retries),
        agrees(repo_p.health.start_period_secs, server_p.health.start_period_secs),
        agrees(repo_p.resources.memory, server_p.resources.memory),
        agrees(repo_p.resources.cpus, server_p.resources.cpus),
        agrees(repo_p.deploy.strategy, server_p.deploy.strategy),
        agrees(repo_p.deploy.drain_timeout_secs, server_p.deploy.drain_timeout_secs),
        agrees(repo_p.deploy.timeout_secs, server_p.deploy.timeout_secs),
        env_view(server_p.env@) == env_view(repo_p.env@),
        server_p.volumes@ == repo_p.volumes@,
    ensures
        normalized(repo_p, server_p)@ == repo_p@,
{
    assert(server_p.volumes@.map_values(|v: PushableVolume| volume_view(v.mount_path@, v.read_only))
        =~= repo_p.volumes@.map_values(|v: PushableVolume| volume_view(v.mount_path@, v.read_only)));
}

/// Whether two optional texts read the same.
pub open spec fn same_text(a: Option<String>, b: Option<String>) -> bool {
    crate::text::opt_text(a) == crate::text::opt_text(b)
}

/// What the repository leaves unset is unset on both sides, whatever the
/// server has; what it sets is held against the server's own value.
pub proof fn unset_fields_are_left_to_the_server(repo_p: Pushable, server_p: Pushable)
    ensures
        repo_p.image is None ==> normalized(repo_p, server_p).image is None,
        repo_p.domain is None ==> normalized(repo_p, server_p).domain is None,
        repo_p.port is None ==> normalized(repo_p, server_p).port is None,
        repo_p.health.path is None ==> normalized(repo_p, server_p).health.path is None,
        repo_p.health.interval_secs is None ==> normalized(repo_p, server_p).health.interval_secs is None,
        repo_p.health.timeout_secs is None ==> normalized(repo_p, server_p).health.timeout_secs is None,
        repo_p.health.retries is None ==> normalized(repo_p, server_p).health.retries is None,
        repo_p.health.start_period_secs is None ==> normalized(repo_p, server_p).health.start_period_secs is None,
        repo_p.resources.memory is None ==> normalized(repo_p, server_p).resources.memory is None,
        repo_p.resources.cpus is None ==> normalized(repo_p, server_p).resources.cpus is None,
        repo_p.deploy.strategy is None ==> normalized(repo_p, server_p).deploy.strategy is None,
        repo_p.deploy.drain_timeout_secs is None ==> normalized(repo_p, server_p).deploy.drain_timeout_secs is None,
        repo_p.deploy.timeout_secs is None ==> normalized(repo_p, server_p).deploy.timeout_secs is None,
        repo_p.routes@.len() == 0 ==> normalized(repo_p, server_p).routes@.len() == 0,
        repo_p.image is Some ==> normalized(repo_p, server_p).image == server_p.image,
        repo_p.port is Some ==> normalized(repo_p, server_p).port == server_p.port,
{
}

proof fn spared_field(l: JsonView, r: JsonView, op: OpView, key: Seq<char>)
    requires
        lies_in_difference(l, r, op),
        l is Object && l->Object_0.contains_key(key),
        r is Object && r->Object_0.contains_key(key),
        l->Object_0[key] == r->Object_0[key],
    ensures
        spares(op.path(), seq![key]),
{
    let steps = seq![key];
    assert(steps.take(0) =~= seq![]);
    assert(steps.skip(1) =~= seq![]);
    assert(found(l->Object_0[key], steps.skip(1)) == Some(l->Object_0[key]));
    what_agrees_is_left_alone(l, r, op, steps);
}

proof fn spared_part(l: JsonView, r: JsonView, op: OpView, key: Seq<char>, part: Seq<char>)
    requires
        lies_in_difference(l, r, op),
        l is Object && l->Object_0.contains_key(key),
        r is Object && r->Object_0.contains_key(key),
        l->Object_0[key] is Object && l->Object_0[key]->Object_0.contains_key(part),
        r->Object_0[key] is Object && r->Object_0[key]->Object_0.contains_key(part),
        l->Object_0[key]->Object_0[part] == r->Object_0[key]->Object_0[part],
    ensures
        spares(op.path(), seq![key, part]),
{
    let steps = seq![key, part];
    let a = l->Object_0[key];
    let b = r->Object_0[key];
    assert(steps.take(0) =~= seq![]);
    assert(steps.take(1) =~= seq![key]);
    assert(seq![key].skip(1) =~= seq![]);
    assert(steps.skip(1) =~= seq![part]);
    assert(seq![part].skip(1) =~= seq![]);
    assert(found(a, seq![]) == Some(a) && found(b, seq![]) == Some(b));
    assert(found(l, seq![key]) == found(a, seq![key].skip(1)));
    assert(found(r, seq![key]) == found(b, seq![key].skip(1)));
    assert(found(a, seq![part]) == found(a->Object_0[part], seq![part].skip(1)));
    assert(found(b, seq![part]) == found(b->Object_0[part], seq![part].skip(1)));
    assert(found(l, steps) == found(a, steps.skip(1)));
    assert(found(r, steps) == found(b, steps.skip(1)));
    assert forall|n: int| 0 <= n < steps.len() implies object_at(l, #[trigger] steps.take(n)) && object_at(
        r,
        steps.take(n),
    ) by {
        assert(n == 0 || n == 1);
    }
    what_agrees_is_left_alone(l, r, op, steps);
}

/// No operation of a diff touches a field that the repository leaves unset, nor
/// the server's routes unless the repository has any.
pub proof fn no_operation_touches_what_is_unset(
    d: ApplyDiff,
    repo: RepoConfig,
    repo_p: Pushable,
    server_p: Pushable,
    i: int,
)
    requires
        diff_between(d, repo, repo_p, server_p),
        0 <= i < d.ops@.len(),
    ensures
        repo_p.image is None ==> spares(d.ops@[i]@.path(), seq!["image"@]),
        repo_p.domain is None ==> spares(d.ops@[i]@.path(), seq!["domain"@]),
        repo_p.port is None ==> spares(d.ops@[i]@.path(), seq!["port"@]),
        repo_p.health.path is None ==> spares(d.ops@[i]@.path(), seq!["health"@, "path"@]),
        repo_p.health.interval_secs is None ==> spares(d.ops@[i]@.path(), seq!["health"@, "interval_secs"@]),
        repo_p.health.timeout_secs is None ==> spares(d.ops@[i]@.path(), seq!["health"@, "timeout_secs"@]),
        repo_p.health.retries is None ==> spares(d.ops@[i]@.path(), seq!["health"@, "retries"@]),
        repo_p.health.start_period_secs is None ==> spares(d.ops@[i]@.path(), seq!["health"@, "start_period_secs"@]),
        repo_p.resources.memory is None ==> spares(d.ops@[i]@.path(), seq!["resources"@, "memory"@]),
        repo_p.resources.cpus is None ==> spares(d.ops@[i]@.path(), seq!["resources"@, "cpus"@]),
        repo_p.deploy.strategy is None ==> spares(d.ops@[i]@.path(), seq!["deploy"@, "strategy"@]),
        repo_p.deploy.drain_timeout_secs is None ==> spares(d.ops@[i]@.path(), seq!["deploy"@, "drain_timeout_secs"@]),
        repo_p.deploy.timeout_secs is None ==> spares(d.ops@[i]@.path(), seq!["deploy"@, "timeout_secs"@]),
        repo_p.routes@.len() == 0 ==> spares(d.ops@[i]@.path(), seq!["routes"@]),
{
    let n = normalized(repo_p, server_p);
    let op = d.ops@[i]@;
    fields_read_back(repo_p);
    fields_read_back(n);
    if repo_p.image is None {
        spared_field(n@, repo_p@, op, "image"@);
    }
    if repo_p.domain is None {
        spared_field(n@, repo_p@, op, "domain"@);
    }
    if repo_p.port is None {
        spared_field(n@, repo_p@, op, "port"@);
    }
    if repo_p.health.path is None {
        spared_part(n@, repo_p@, op, "health"@, "path"@);
    }
    if repo_p.health.interval_secs is None {
        spared_part(n@, repo_p@, op, "health"@, "interval_secs"@);
    }
    if repo_p.health.timeout_secs is None {
        spared_part(n@, repo_p@, op, "health"@, "timeout_secs"@);
    }
    if repo_p.health.retries is None {
        spared_part(n@, repo_p@, op, "health"@, "retries"@);
    }
    if repo_p.health.start_period_secs is None {
        spared_part(n@, repo_p@, op, "health"@, "start_period_secs"@);
    }
    if repo_p.resources.memory is None {
        spared_part(n@, repo_p@, op, "resources"@, "memory"@);
    }
    if repo_p.resources.cpus is None {
        spared_part(n@, repo_p@, op, "resources"@, "cpus"@);
    }
    if repo_p.deploy.strategy is None {
        spared_part(n@, repo_p@, op, "deploy"@, "strategy"@);
    }
    if repo_p.deploy.drain_timeout_secs is None {
        spared_part(n@, repo_p@, op, "deploy"@, "drain_timeout_secs"@);
    }
    if repo_p.deploy.timeout_secs is None {
        spared_part(n@, repo_p@, op, "deploy"@, "timeout_secs"@);
    }
    if repo_p.routes@.len() == 0 {
        spared_field(n@, repo_p@, op, "routes"@);
    }
}

/// Mount path and mode of volumes.
pub open spec fn volume_texts(v: Seq<PushableVolume>) -> Seq<(Seq<char>, bool)> {
    v.map_values(|x: PushableVolume| (x.mount_path@, x.read_only))
}

/// A text that the repository sets and the server has otherwise, a span of
/// time that it sets and the server has not, or variables or volumes that
/// differ, make the two sides differ, so something is to change.
pub proof fn a_differing_field_is_a_change(repo_p: Pushable, server_p: Pushable)
    requires
        ({
            ||| repo_p.image is Some && !same_text(repo_p.image, server_p.image)
            ||| repo_p.domain is Some && !same_text(repo_p.domain, server_p.domain)
            ||| repo_p.health.path is Some && !same_text(repo_p.health.path, server_p.health.path)
            ||| repo_p.resources.memory is Some && !same_text(repo_p.resources.memory, server_p.resources.memory)
            ||| repo_p.resources.cpus is Some && !same_text(repo_p.resources.cpus, server_p.resources.cpus)
            ||| repo_p.deploy.strategy is Some && !same_text(repo_p.deploy.strategy, server_p.deploy.strategy)
            ||| repo_p.health.interval_secs is Some && server_p.health.interval_secs is None
            ||| repo_p.health.timeout_secs is Some && server_p.health.timeout_secs is None
            ||| repo_p.health.start_period_secs is Some && server_p.health.start_period_secs is None
            ||| repo_p.deploy.drain_timeout_secs is Some && server_p.deploy.drain_timeout_secs is None
            ||| repo_p.deploy.timeout_secs is Some && server_p.deploy.timeout_secs is None
            ||| env_view(repo_p.env@) != env_view(server_p.env@)
            ||| volume_texts(repo_p.volumes@) != volume_texts(server_p.volumes@)
        }),
    ensures
        normalized(repo_p, server_p)@ != repo_p@,
{
    let n = normalized(repo_p, server_p);
    fields_read_back(repo_p);
    fields_read_back(n);
    if volume_texts(repo_p.volumes@) != volume_texts(server_p.volumes@) {
        volumes_read_back(repo_p.volumes@, server_p.volumes@);
    }
}

/// Volumes that read the same as JSON are the same.
proof fn volumes_read_back(a: Seq<PushableVolume>, b: Seq<PushableVolume>)
    ensures
        a.map_values(|v: PushableVolume| volume_view(v.mount_path@, v.read_only)) == b.map_values(
            |v: PushableVolume| volume_view(v.mount_path@, v.read_only),
        ) ==> volume_texts(a) == volume_texts(b),
{
    let x = a.map_values(|v: PushableVolume| volume_view(v.mount_path@, v.read_only));
    let y = b.map_values(|v: PushableVolume| volume_view(v.mount_path@, v.read_only));
    reveal_strlit("mount_path");
    reveal_strlit("read_only");
    assert("mount_path"@.len() == 10 && "read_only"@.len() == 9);
    if x == y {
        assert(x.len() == a.len() && y.len() == b.len());
        assert forall|i: int| 0 <= i < a.len() implies a[i].mount_path@ == b[i].mount_path@ && a[i].read_only
            == b[i].read_only by {
            assert(x[i] == volume_view(a[i].mount_path@, a[i].read_only));
            assert(y[i] == volume_view(b[i].mount_path@, b[i].read_only));
            assert(x[i]->Object_0["mount_path"@] == y[i]->Object_0["mount_path"@]);
            assert(x[i]->Object_0["read_only"@] == y[i]->Object_0["read_only"@]);
        }
        assert(volume_texts(a) =~= volume_texts(b));
    }
}

/// The JSON object of the fields holds each under its name.
pub proof fn fields_read_back(p: Pushable)
    ensures
        p@->Object_0["image"@] == str_or_null(p.image),
        p@->Object_0["domain"@] == str_or_null(p.domain),
        p@->Object_0["port"@] == port_or_null(p.port),
        p@->Object_0["health"@] == JsonView::Object(health_map(p.health)),
        p@->Object_0["resources"@] == JsonView::Object(resource_map(p.resources)),
        p@->Object_0["deploy"@] == JsonView::Object(deploy_map(p.deploy)),
        p@->Object_0["env"@] == env_view(p.env@),
        p@->Object_0["volumes"@] == JsonView::Array(
            p.volumes@.map_values(|v: PushableVolume| volume_view(v.mount_path@, v.read_only)),
        ),
        p@->Object_0["routes"@] == JsonView::Array(
            p.routes@.map_values(|r: PushableRoute| route_view(r.hostname@, r.port)),
        ),
        health_map(p.health)["interval_secs"@] == secs_or_null(p.health.interval_secs),
        health_map(p.health)["timeout_secs"@] == secs_or_null(p.health.timeout_secs),
        health_map(p.health)["start_period_secs"@] == secs_or_null(p.health.start_period_secs),
        deploy_map(p.deploy)["drain_timeout_secs"@] == secs_or_null(p.deploy.drain_timeout_secs),
        deploy_map(p.deploy)["timeout_secs"@] == secs_or_null(p.deploy.timeout_secs),
        health_map(p.health)["path"@] == str_or_null(p.health.path),
        health_map(p.health)["retries"@] == count_or_null(p.health.retries),
        resource_map(p.resources)["memory"@] == str_or_null(p.resources.memory),
        resource_map(p.resources)["cpus"@] == str_or_null(p.resources.cpus),
        deploy_map(p.deploy)["strategy"@] == str_or_null(p.deploy.strategy),
{
    reveal_strlit("image");
    reveal_strlit("domain");
    reveal_strlit("port");
    reveal_strlit("health");
    reveal_strlit("resources");
    reveal_strlit("deploy");
    reveal_strlit("env");
    reveal_strlit("volumes");
    reveal_strlit("routes");
    assert("image"@.len() == 5 && "domain"@.len() == 6 && "port"@.len() == 4 && "health"@.len() == 6);
    assert("resources"@.len() == 9 && "deploy"@.len() == 6 && "env"@.len() == 3 && "volumes"@.len() == 7);
    assert("routes"@.len() == 6);
    assert("domain"@[1] == 'o' && "deploy"@[1] == 'e' && "health"@[0] == 'h' && "routes"@[0] == 'r');
    assert("domain"@[0] == 'd' && "deploy"@[0] == 'd');
    reveal_strlit("path");
    reveal_strlit("interval_secs");
    reveal_strlit("timeout_secs");
    reveal_strlit("retries");
    reveal_strlit("start_period_secs");
    assert("path"@.len() == 4 && "interval_secs"@.len() == 13 && "timeout_secs"@.len() == 12);
    assert("retries"@.len() == 7 && "start_period_secs"@.len() == 17);
    reveal_strlit("memory");
    reveal_strlit("cpus");
    assert("memory"@.len() == 6 && "cpus"@.len() == 4);
    reveal_strlit("strategy");
    reveal_strlit("drain_timeout_secs");
    assert("strategy"@.len() == 8 && "drain_timeout_secs"@.len() == 18);
}

// ── Display ─────────────────────────────────────────────────────────────────

/// The line of an operation. A variable that goes away gets none.
pub open spec fn op_line(op: OpView) -> Option<Seq<char>> {
    match op {
        OpView::Add { path, value } => Some("+ "@ + path + " = "@ + json_text(value)),
        OpView::Remove { path } => if starts_with(path, "/env/"@) {
            None
        } else {
            Some("- "@ + path)
        },
        OpView::Replace { path, value } => Some("~ "@ + path + " = "@ + json_text(value)),
        OpView::Other { path, .. } => Some("? "@ + path + " (unknown operation)"@),
    }
}

/// The variable that an operation removes.
pub open spec fn removed_key(op: OpView) -> Option<Seq<char>> {
    match op {
        OpView::Remove { path } => if starts_with(path, "/env/"@) {
            Some(path.skip(5))
        } else {
            None
        },
        _ => None,
    }
}

/// The lines of the operations, in order.
pub open spec fn op_lines(ops: Seq<OpView>) -> Seq<Seq<char>>
    decreases ops.len(),
{
    if ops.len() == 0 {
        seq![]
    } else {
        match op_line(ops.last()) {
            Some(l) => op_lines(ops.drop_last()).push(l),
            None => op_lines(ops.drop_last()),
        }
    }
}

/// The lines of the variables that go away, in order.
pub open spec fn removed_lines(ops: Seq<OpView>) -> Seq<Seq<char>>
    decreases ops.len(),
{
    if ops.len() == 0 {
        seq![]
    } else {
        match removed_key(ops.last()) {
            Some(k) => removed_lines(ops.drop_last()).push("  - "@ + k),
            None => removed_lines(ops.drop_last()),
        }
    }
}

/// The text of a diff: a line for each operation, then the variables that go
/// away.
pub open spec fn diff_text(changed: bool, ops: Seq<OpView>) -> Seq<char> {
    if !changed {
        "no changes \u{2014} up to date"@
    } else {
        join(
            if removed_lines(ops).len() == 0 {
                op_lines(ops)
            } else {
                op_lines(ops).push(seq![]).push("will remove env vars (not in slip.toml):"@) + removed_lines(ops)
            },
            "\n"@,
        )
    }
}

fn write_diff(d: &ApplyDiff) -> (r: String)
    ensures
        r@ == diff_text(d.changed, op_views(d.ops@)),
{
    if !d.changed {
        return "no changes \u{2014} up to date".to_owned();
    }
    let ghost all = op_views(d.ops@);
    let mut lines: Vec<String> = Vec::new();
    let mut removed: Vec<String> = Vec::new();
    let mut i: usize = 0;
    assert(texts(lines@) =~= seq![]);
    assert(texts(removed@) =~= seq![]);
    while i < d.ops.len()
        invariant
            i <= d.ops@.len(),
            all == op_views(d.ops@),
            texts(lines@) == op_lines(all.take(i as int)),
            texts(removed@) == removed_lines(all.take(i as int)),
        decreases d.ops@.len() - i,
    {
        assert(all.take(i + 1).drop_last() =~= all.take(i as int));
        assert(all.take(i + 1).last() == d.ops@[i as int]@);
        let ghost lines_before = texts(lines@);
        let ghost removed_before = texts(removed@);
        match &d.ops[i] {
            PatchOp::Add { path, value } => {
                let l = "+ ".to_owned().concat(path.as_str()).concat(" = ").concat(print(value).as_str());
                lines.push(l);
                assert(texts(lines@) =~= lines_before.push(l@));
            },
            PatchOp::Remove { path } => {
                if begins(path.as_str(), "/env/") {
                    let chars = to_chars(path.as_str());
                    proof {
                        reveal_strlit("/env/");
                    }
                    let key = from_chars(&chars, 5, chars.len());
                    assert(key@ =~= path@.skip(5));
                    let l = "  - ".to_owned().concat(key.as_str());
                    removed.push(l);
                    assert(texts(removed@) =~= removed_before.push(l@));
                } else {
                    let l = "- ".to_owned().concat(path.as_str());
                    lines.push(l);
                    assert(texts(lines@) =~= lines_before.push(l@));
                }
            },
            PatchOp::Replace { path, value } => {
                let l = "~ ".to_owned().concat(path.as_str()).concat(" = ").concat(print(value).as_str());
                lines.push(l);
                assert(texts(lines@) =~= lines_before.push(l@));
            },
            PatchOp::Other { path, .. } => {
                let l = "? ".to_owned().concat(path.as_str()).concat(" (unknown operation)");
                lines.push(l);
                assert(texts(lines@) =~= lines_before.push(l@));
            },
        }
        i = i + 1;
    }
    assert(all.take(i as int) =~= all);
    if removed.len() > 0 {
        let ghost lines_before = texts(lines@);
        let ghost tail = texts(removed@);
        let empty = String::new();
        let header = "will remove env vars (not in slip.toml):".to_owned();
        lines.push(empty);
        lines.push(header);
        lines.append(&mut removed);
        assert(empty@ =~= seq![]);
        assert(texts(lines@) =~= lines_before.push(seq![]).push(header@) + tail);
    }
    join_texts(&lines, "\n")
}

/// Writes a diff for people, with the values of variables hidden on request.
pub fn render_human_diff(diff: &ApplyDiff, redact_env: bool) -> (r: String)
    ensures
        r@ == diff_text(
            diff.changed,
            if redact_env {
                op_views(diff.ops@).map_values(|o: OpView| hidden(o))
            } else {
                op_views(diff.ops@)
            },
        ),
{
    if redact_env {
        let shown = diff.redacted();
        write_diff(&shown)
    } else {
        write_diff(diff)
    }
}

// ── Requests ────────────────────────────────────────────────────────────────

/// An object with a key set, if there is a value for it.
pub open spec fn with_opt(
    m: Map<Seq<char>, JsonView>,
    key: Seq<char>,
    value: Option<JsonView>,
) -> Map<Seq<char>, JsonView> {
    match value {
        Some(v) => m.insert(key, v),
        None => m,
    }
}

/// A text, if there is one.
pub open spec fn str_of(o: Option<String>) -> Option<JsonView> {
    match o {
        Some(s) => Some(JsonView::Str(s@)),
        None => None,
    }
}

/// A number of seconds, if there is one.
pub open spec fn secs_of(o: Option<Duration>) -> Option<JsonView> {
    match o {
        Some(d) => Some(seconds_view(d)),
        None => None,
    }
}

/// A port, if there is one.
pub open spec fn port_of(o: Option<u16>) -> Option<JsonView> {
    match o {
        Some(n) => Some(JsonView::Number(json_unsigned(n as u64))),
        None => None,
    }
}

/// A count, if there is one.
pub open spec fn count_of(o: Option<u32>) -> Option<JsonView> {
    match o {
        Some(n) => Some(JsonView::Number(json_unsigned(n as u64))),
        None => None,
    }
}

/// The health part of a request, if the repository sets any of it.
pub open spec fn health_part(h: RepoHealthConfig) -> Option<JsonView> {
    if h.path is Some || h.interval is Some || h.timeout is Some || h.retries is Some || h.start_period is Some {
        Some(
            JsonView::Object(
                with_opt(
                    with_opt(
                        with_opt(
                            with_opt(
                                with_opt(Map::empty(), "path"@, str_of(h.path)),
                                "interval"@,
                                secs_of(h.interval),
                            ),
                            "timeout"@,
                            secs_of(h.timeout),
                        ),
                        "retries"@,
                        count_of(h.retries),
                    ),
                    "start_period"@,
                    secs_of(h.start_period),
                ),
            ),
        )
    } else {
        None
    }
}

/// The resource part of a request.
pub open spec fn resource_part(o: Option<RepoResourceConfig>) -> Option<JsonView> {
    match o {
        Some(x) => Some(
            JsonView::Object(
                with_opt(with_opt(Map::empty(), "memory"@, str_of(x.memory)), "cpus"@, str_of(x.cpus)),
            ),
        ),
        None => None,
    }
}

/// The rollout part of a request.
pub open spec fn deploy_part(o: Option<RepoDeployConfig>) -> Option<JsonView> {
    match o {
        Some(d) => Some(
            JsonView::Object(
                with_opt(
                    with_opt(
                        with_opt(Map::empty(), "strategy"@, str_of(d.strategy)),
                        "drain_timeout"@,
                        secs_of(d.drain_timeout),
                    ),
                    "timeout"@,
                    secs_of(d.timeout),
                ),
            ),
        ),
        None => None,
    }
}

/// The volumes of a request.
pub open spec fn volumes_part(v: Seq<RepoVolume>) -> JsonView {
    JsonView::Array(v.map_values(|x: RepoVolume| volume_view(x.mount_path@, x.read_only)))
}

/// The parts that both requests have.
pub open spec fn common_part(m: Map<Seq<char>, JsonView>, repo: RepoConfig) -> Map<Seq<char>, JsonView> {
    with_opt(
        with_opt(
            with_opt(with_opt(m, "port"@, port_of(repo.routing.port)), "health"@, health_part(repo.health)),
            "resources"@,
            resource_part(repo.defaults.resources),
        ),
        "deploy"@,
        deploy_part(repo.deploy),
    )
}

/// The request that updates an app. Variables and volumes replace the
/// server's, also where there are none.
pub open spec fn update_view(repo: RepoConfig) -> JsonView {
    JsonView::Object(
        common_part(
            with_opt(
                with_opt(Map::empty(), "image"@, str_of(repo.app.image)),
                "domain"@,
                str_of(repo.routing.domain),
            ),
            repo,
        ).insert("env"@, env_view(repo.env@)).insert("volumes"@, volumes_part(repo.volumes@)),
    )
}

/// The request that creates an app.
pub open spec fn create_view(repo: RepoConfig, image: Seq<char>, domain: Seq<char>) -> JsonView {
    let start = Map::empty().insert("name"@, JsonView::Str(repo.app.name@)).insert(
        "image"@,
        JsonView::Str(image),
    ).insert("domain"@, JsonView::Str(domain));
    JsonView::Object(
        with_opt(
            with_opt(
                common_part(start, repo),
                "env"@,
                if repo.env@.len() > 0 {
                    Some(env_view(repo.env@))
                } else {
                    None
                },
            ),
            "volumes"@,
            if repo.volumes@.len() > 0 {
                Some(volumes_part(repo.volumes@))
            } else {
                None
            },
        ),
    )
}

fn set_opt(o: &mut Json, key: &str, value: Option<Json>)
    requires
        *old(o) is Object,
    ensures
        *final(o) is Object,
        final(o)@ == JsonView::Object(
            with_opt(
                old(o)@->Object_0,
                key@,
                match value {
                    Some(v) => Some(v@),
                    None => None,
                },
            ),
        ),
{
    proof {
        o.unfold();
    }
    match value {
        Some(v) => {
            o.set(key, v);
        },
        None => {},
    }
}

fn set_str(o: &mut Json, key: &str, value: &Option<String>)
    requires
        *old(o) is Object,
    ensures
        *final(o) is Object,
        final(o)@ == JsonView::Object(with_opt(old(o)@->Object_0, key@, str_of(*value))),
{
    match value {
        Some(s) => set_opt(o, key, Some(Json::text(s.as_str()))),
        None => set_opt(o, key, None),
    }
}

fn set_secs(o: &mut Json, key: &str, value: Option<Duration>)
    requires
        *old(o) is Object,
    ensures
        *final(o) is Object,
        final(o)@ == JsonView::Object(with_opt(old(o)@->Object_0, key@, secs_of(value))),
{
    match value {
        Some(d) => set_opt(o, key, Some(Json::seconds(d))),
        None => set_opt(o, key, None),
    }
}

fn build_volumes(v: &Vec<RepoVolume>) -> (r: Json)
    ensures
        r@ == volumes_part(v@),
{
    let mut out: Vec<Json> = Vec::new();
    let mut i: usize = 0;
    while i < v.len()
        invariant
            i <= v@.len(),
            out@.len() == i,
            forall|k: int|
                0 <= k < i ==> (#[trigger] out@[k])@ == volume_view(v@[k].mount_path@, v@[k].read_only),
        decreases v@.len() - i,
    {
        out.push(json_volume(v[i].mount_path.as_str(), v[i].read_only));
        i = i + 1;
    }
    assert(models(out@) =~= v@.map_values(|x: RepoVolume| volume_view(x.mount_path@, x.read_only)));
    let r = Json::Array(out);
    proof {
        r.unfold();
    }
    r
}

fn set_common(o: &mut Json, repo: &RepoConfig)
    requires
        *old(o) is Object,
    ensures
        *final(o) is Object,
        final(o)@ == JsonView::Object(common_part(old(o)@->Object_0, *repo)),
{
    match repo.routing.port {
        Some(p) => set_opt(o, "port", Some(Json::unsigned(p as u64))),
        None => set_opt(o, "port", None),
    }
    let h = &repo.health;
    if h.path.is_some() || h.interval.is_some() || h.timeout.is_some() || h.retries.is_some()
        || h.start_period.is_some() {
        let mut part = Json::object();
        set_str(&mut part, "path", &h.path);
        set_secs(&mut part, "interval", h.interval);
        set_secs(&mut part, "timeout", h.timeout);
        match h.retries {
            Some(n) => set_opt(&mut part, "retries", Some(Json::unsigned(n as u64))),
            None => set_opt(&mut part, "retries", None),
        }
        set_secs(&mut part, "start_period", h.start_period);
        o.set("health", part);
    }
    match &repo.defaults.resources {
        Some(x) => {
            let mut part = Json::object();
            set_str(&mut part, "memory", &x.memory);
            set_str(&mut part, "cpus", &x.cpus);
            o.set("resources", part);
        },
        None => {},
    }
    match &repo.deploy {
        Some(d) => {
            let mut part = Json::object();
            set_str(&mut part, "strategy", &d.strategy);
            set_secs(&mut part, "drain_timeout", d.drain_timeout);
            set_secs(&mut part, "timeout", d.timeout);
            o.set("deploy", part);
        },
        None => {},
    }
}

/// Builds the request that updates an app.
pub fn build_update_payload(repo: &RepoConfig) -> (r: serde_json::Value)
    ensures
        json_of(r) == update_view(*repo),
{
    let mut payload = Json::object();
    set_str(&mut payload, "image", &repo.app.image);
    set_str(&mut payload, "domain", &repo.routing.domain);
    set_common(&mut payload, repo);
    payload.set("env", json_env(&repo.env));
    payload.set("volumes", build_volumes(&repo.volumes));
    payload.to_value()
}

/// A text, empty if there is none.
pub open spec fn text_or_empty(o: Option<String>) -> Seq<char> {
    match o {
        Some(s) => s@,
        None => seq![],
    }
}

/// Builds the request that creates an app, for which image and domain must be
/// set.
pub fn build_create_payload(repo: &RepoConfig) -> (r: Result<serde_json::Value, String>)
    ensures
        match r {
            Ok(v) => {
                &&& text_or_empty(repo.app.image).len() > 0
                &&& text_or_empty(repo.routing.domain).len() > 0
                &&& json_of(v) == create_view(
                    *repo,
                    text_or_empty(repo.app.image),
                    text_or_empty(repo.routing.domain),
                )
            },
            Err(e) => if text_or_empty(repo.app.image).len() == 0 {
                e@ == "cannot create app '"@ + repo.app.name@
                    + "': slip.toml is missing [app] image \u{2014} add `image = \"ghcr.io/you/"@ + repo.app.name@
                    + "\"` (and [routing] domain) or register the app first with the API"@
            } else {
                &&& text_or_empty(repo.routing.domain).len() == 0
                &&& e@ == "cannot create app '"@ + repo.app.name@
                    + "': slip.toml is missing [routing] domain \u{2014} add `domain = \""@ + repo.app.name@
                    + ".example.com\"` under [routing] or register the app first with the API"@
            },
        },
{
    let image: String = match &repo.app.image {
        Some(s) => s.clone(),
        None => String::new(),
    };
    let domain: String = match &repo.routing.domain {
        Some(s) => s.clone(),
        None => String::new(),
    };
    if image.as_str().is_empty() {
        return Err(
            "cannot create app '".to_owned().concat(repo.app.name.as_str()).concat(
                "': slip.toml is missing [app] image \u{2014} add `image = \"ghcr.io/you/",
            ).concat(repo.app.name.as_str()).concat(
                "\"` (and [routing] domain) or register the app first with the API",
            ),
        );
    }
    if domain.as_str().is_empty() {
        return Err(
            "cannot create app '".to_owned().concat(repo.app.name.as_str()).concat(
                "': slip.toml is missing [routing] domain \u{2014} add `domain = \"",
            ).concat(repo.app.name.as_str()).concat(
                ".example.com\"` under [routing] or register the app first with the API",
            ),
        );
    }
    let mut payload = Json::object();
    payload.set("name", Json::text(repo.app.name.as_str()));
    payload.set("image", Json::text(image.as_str()));
    payload.set("domain", Json::text(domain.as_str()));
    set_common(&mut payload, repo);
    if repo.env.len() > 0 {
        payload.set("env", json_env(&repo.env));
    }
    if repo.volumes.len() > 0 {
        payload.set("volumes", build_volumes(&repo.volumes));
    }
    Ok(payload.to_value())
}

} // verus!
