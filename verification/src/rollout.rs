//! A deploy as a machine that turns outcomes into orders.
//!
//! The machine never touches a container runtime, a proxy or a disk. It holds
//! what it has decided so far, says what is to be done next, and waits for the
//! outcome. Whoever drives it records the deploy where a step says so, carries
//! out the action, and hands the outcome back until the action is `Finish`.

use crate::config::{duplicate_all, AppConfig, Duplicate, RepoConfig, ResourceConfig, RouteEntry};
use crate::deploy::{
    environment, failed_from, format_duration, format_health_reason, health_reason, image_and_tag,
    minutes_and_seconds, parse_image_ref, resolve_env_vars_for_app, route_states, AppRuntimeState, AppStatus,
    DeployContext, DeployStatus, RouteState,
};
use crate::error::{CaddyError, HealthError, RuntimeError};
use crate::manifest::{render_manifest, rendered, RenderContext};
use crate::merge::{
    declared_volumes, merge_config, merged_routes, overlaid, route_views, undeclared_volumes, volume_views,
    MergedConfig, MergedRoute, MergedVolume,
};
use crate::registry::{
    credential_for, credentials_view, registry_views, resolve_registry_credential, RegistryCredentials,
    ResolvedRegistry,
};
use crate::text::{copy_texts, join_path, joined, opt_text, same, texts};
use crate::time::{Duration, Timestamp};
use vstd::prelude::*;
use vstd::string::*;

verus! {

// ── Orders and outcomes ─────────────────────────────────────────────────────

/// A hostname and the host port that the proxy sends its requests to.
#[derive(Debug)]
pub struct Route {
    pub hostname: String,
    pub port: u16,
}

/// The hostnames and ports of routes.
pub open spec fn routes_view(v: Seq<Route>) -> Seq<(Seq<char>, u16)> {
    v.map_values(|r: Route| (r.hostname@, r.port))
}

/// A container to be created and started.
#[derive(Debug)]
pub struct CreateRequest {
    pub app: String,
    pub image: String,
    pub tag: String,
    pub container_port: u16,
    pub env_vars: Vec<String>,
    pub network: String,
    pub resources: ResourceConfig,
    pub volumes: Vec<MergedVolume>,
}

/// What is to be done next.
#[derive(Debug)]
pub enum Action {
    PullImage { image: String, tag: String, credentials: Option<RegistryCredentials> },
    /// Extract the repository's configuration from the image and parse it.
    ReadConfig { image: String, tag: String, path: String },
    /// Read the environment file, if there is one, and the app's secrets.
    ReadEnv { env_file: Option<String>, app: String },
    CreateAndStart(CreateRequest),
    ContainerIsRunning { container: String },
    CheckHealth { port: u16 },
    SetRoutes { app: String, routes: Vec<Route> },
    RemoveRoute { app: String },
    SaveState { app: String, state: AppRuntimeState },
    /// Wait out the drain time.
    Drain { wait: Duration },
    StopContainer { container: String },
    StartContainer { container: String },
    StopAndRemove { container: String },
    InspectPort { container: String, container_port: u16 },
    ExtractFile { image: String, tag: String, path: String },
    /// Create the directory, then write the file.
    WriteManifest { directory: String, path: String, text: String },
    DeployPod { manifest: String, pod: String },
    TeardownPod { manifest: String },
    PodContainerPort { pod: String, container: String, container_port: u16 },
    /// Nothing: the deploy has been recorded and goes on.
    Proceed,
    /// Nothing: the deploy has ended.
    Finish,
}

/// An action, and whether the deploy is recorded before it.
#[derive(Debug)]
pub struct Step {
    pub record: bool,
    pub action: Action,
}

/// What reading the repository's configuration came to.
#[derive(Debug)]
pub enum ConfigOutcome {
    Parsed(RepoConfig),
    ParseFailed(String),
    Absent,
    ExtractFailed(RuntimeError),
}

/// What writing a manifest came to.
#[derive(Debug)]
pub enum WriteOutcome {
    Written,
    DirectoryFailed(String),
    FileFailed(String),
}

/// The outcome of an action.
#[derive(Debug)]
pub enum Event {
    Pulled(Result<(), RuntimeError>),
    Config(ConfigOutcome),
    Env { file: Option<String>, secrets: Option<Vec<(String, String)>> },
    Created(Result<(String, u16), RuntimeError>),
    Running(Result<bool, RuntimeError>),
    Health(Result<(), HealthError>),
    RoutesSet(Result<(), CaddyError>),
    Stopped(Result<(), RuntimeError>),
    Started(Result<(), RuntimeError>),
    Port(Result<u16, RuntimeError>),
    Extracted(Result<Option<Vec<u8>>, RuntimeError>),
    Written(WriteOutcome),
    PodDeployed(Result<(), RuntimeError>),
    /// An action whose outcome does not matter is over.
    Over,
}

/// What the machine waits for.
#[derive(Debug)]
pub enum Phase {
    PullMain,
    /// The pull of the sidecar image at an index.
    PullSidecar(usize),
    ReadConfig,
    ReadEnv,
    /// Blue-green: the new container is being started.
    BlueCreate,
    BlueWorkerRunning,
    BlueHealth,
    BlueRunning,
    BlueRoutes,
    BlueSave,
    BlueDrain(String),
    BlueStopOld,
    /// The new container is being removed; the deploy has failed for a reason.
    Discard(String),
    /// Recreate: the old container is being stopped.
    RecreateStop,
    RecreateRemoveRoute,
    RecreateCreate,
    RecreateWorkerRunning { container: String, port: u16 },
    RecreateHealth { container: String, port: u16 },
    RecreateRunning { container: String, port: u16, healthy: bool },
    RecreateDiscard,
    RecreateRoutes { container: String },
    RecreateSave,
    RecreateRemoveOld,
    /// Rollback: the old container is being restarted.
    RestartOld(String),
    RestartPort,
    RestartRoutes,
    FallbackCreate(String),
    FallbackHealth { container: String, port: u16, tag: String },
    FallbackRoutes { container: String, port: u16, tag: String },
    FallbackStop,
    PodManifest,
    /// No manifest is named.
    PodUnnamed,
    PodWrite,
    PodDeploy,
    /// The pod is deployed and has no routes.
    PodBare,
    /// The worker container of a route is being looked at.
    PodWorker(usize),
    PodPort(usize),
    PodHealth { route: usize, port: u16 },
    /// The new pod is being torn down; the deploy has failed for a reason.
    PodDiscard(String),
    PodRoutes,
    PodSave,
    PodDrain(String),
    PodStopOld,
    /// The time is up; the new container is being removed.
    TimedOut,
    Done,
}

/// A deploy under way.
#[derive(Debug)]
pub struct Rollout {
    pub ctx: DeployContext,
    pub phase: Phase,
    /// The configuration in force: the server's, combined with the
    /// repository's once that is known.
    pub config: AppConfig,
    pub merged: Option<MergedConfig>,
    pub registries: Vec<ResolvedRegistry>,
    pub storage_path: String,
    pub env_vars: Vec<String>,
    /// The container and tag that ran before, as far as a strategy needs them.
    pub old_container: Option<String>,
    pub old_tag: Option<String>,
    pub old_port: Option<u16>,
    pub old_manifest: Option<String>,
    pub pod_name: String,
    pub manifest_path: String,
    /// The hostnames of the pod that answered, and their host ports.
    pub healthy_routes: Vec<Route>,
    pub http_failure: bool,
    pub last_health_error: Option<HealthError>,
}

impl Rollout {
    /// Whether an outcome is one that the phase waits for.
    pub open spec fn awaits(self, event: Event) -> bool {
        match (self.phase, event) {
            (Phase::PullMain, Event::Pulled(_)) => true,
            (Phase::PullSidecar(i), Event::Pulled(_)) => i < self.ctx.images@.len(),
            (Phase::ReadConfig, Event::Config(_)) => true,
            (Phase::ReadEnv, Event::Env { .. }) => true,
            (Phase::BlueCreate, Event::Created(_)) => true,
            (Phase::BlueWorkerRunning, Event::Running(_)) => true,
            (Phase::BlueHealth, Event::Health(_)) => true,
            (Phase::BlueRunning, Event::Running(_)) => true,
            (Phase::BlueRoutes, Event::RoutesSet(_)) => true,
            (Phase::BlueSave, Event::Over) => true,
            (Phase::BlueDrain(_), Event::Over) => true,
            (Phase::BlueStopOld, Event::Over) => true,
            (Phase::Discard(_), Event::Over) => true,
            (Phase::RecreateStop, Event::Stopped(_)) => true,
            (Phase::RecreateRemoveRoute, Event::Over) => true,
            (Phase::RecreateCreate, Event::Created(_)) => true,
            (Phase::RecreateWorkerRunning { .. }, Event::Running(_)) => true,
            (Phase::RecreateHealth { .. }, Event::Health(_)) => true,
            (Phase::RecreateRunning { .. }, Event::Running(_)) => true,
            (Phase::RecreateDiscard, Event::Over) => true,
            (Phase::RecreateRoutes { .. }, Event::RoutesSet(_)) => true,
            (Phase::RecreateSave, Event::Over) => true,
            (Phase::RecreateRemoveOld, Event::Over) => true,
            (Phase::RestartOld(_), Event::Started(_)) => true,
            (Phase::RestartPort, Event::Port(_)) => true,
            (Phase::RestartRoutes, Event::RoutesSet(_)) => true,
            (Phase::FallbackCreate(_), Event::Created(_)) => true,
            (Phase::FallbackHealth { .. }, Event::Health(_)) => true,
            (Phase::FallbackRoutes { .. }, Event::RoutesSet(_)) => true,
            (Phase::FallbackStop, Event::Over) => true,
            (Phase::PodManifest, Event::Extracted(_)) => self.merged is Some,
            (Phase::PodUnnamed, Event::Over) => true,
            (Phase::PodWrite, Event::Written(_)) => true,
            (Phase::PodDeploy, Event::PodDeployed(_)) => self.merged is Some,
            (Phase::PodBare, Event::Over) => true,
            (Phase::PodWorker(i), Event::Running(_)) => self.has_route(i),
            (Phase::PodPort(i), Event::Port(_)) => self.has_route(i),
            (Phase::PodHealth { route, .. }, Event::Health(_)) => self.has_route(route),
            (Phase::PodDiscard(_), Event::Over) => true,
            (Phase::PodRoutes, Event::RoutesSet(_)) => true,
            (Phase::PodSave, Event::Over) => true,
            (Phase::PodDrain(_), Event::Over) => true,
            (Phase::PodStopOld, Event::Over) => true,
            (Phase::TimedOut, Event::Over) => true,
            _ => false,
        }
    }

    /// Whether the parts of the machine fit its phase.
    pub open spec fn wf(self) -> bool {
        match self.phase {
            Phase::PullSidecar(i) => i < self.ctx.images@.len(),
            Phase::PodManifest => self.merged is Some,
            Phase::PodWrite => self.merged is Some,
            Phase::PodDeploy => self.merged is Some,
            Phase::PodWorker(i) => self.has_route(i),
            Phase::PodPort(i) => self.has_route(i),
            Phase::PodHealth { route, .. } => self.has_route(route),
            _ => true,
        }
    }

    /// Whether the merged configuration has a route at an index.
    pub open spec fn has_route(self, i: usize) -> bool {
        self.merged is Some && i < self.merged->0.routes@.len()
    }

    /// Whether the app is a worker, which serves no requests.
    pub open spec fn is_worker(self) -> bool {
        self.merged is Some && self.merged->0.kind@ == "worker"@
    }

    /// Whether the app is a pod.
    pub open spec fn is_pod(self) -> bool {
        self.merged is Some && self.merged->0.kind@ == "pod"@
    }
}

// ── Building blocks of the transitions ──────────────────────────────────────

/// An app's entry with its status set to failed, where there is an entry.
pub open spec fn marked_failed(before: Option<AppRuntimeState>, after: Option<AppRuntimeState>) -> bool {
    after == (match before {
        Some(s) => Some(AppRuntimeState { status: AppStatus::Failed, ..s }),
        None => None,
    })
}

/// The machine and the app's entry on both sides of a step, and the step.
pub ghost struct Turn {
    pub pre: Rollout,
    pub post: Rollout,
    pub pre_app: Option<AppRuntimeState>,
    pub post_app: Option<AppRuntimeState>,
    pub now: Timestamp,
    pub step: Step,
}

impl Turn {
    /// The deploy ends as failed for a reason: it is recorded, and the app
    /// counts as failed.
    pub open spec fn gives_up(self, reason: Seq<char>) -> bool {
        &&& failed_from(self.pre.ctx, self.post.ctx, reason, self.now)
        &&& self.post == (Rollout { ctx: self.post.ctx, phase: Phase::Done, ..self.pre })
        &&& marked_failed(self.pre_app, self.post_app)
        &&& self.step.record
        &&& self.step.action is Finish
    }

    /// The deploy ends as completed, and is recorded.
    pub open spec fn completes(self) -> bool {
        &&& self.post == (Rollout {
            ctx: DeployContext {
                status: DeployStatus::Completed,
                finished_at: Some(self.now),
                ..self.pre.ctx
            },
            phase: Phase::Done,
            ..self.pre
        })
        &&& self.post_app == self.pre_app
        &&& self.step.record
        &&& self.step.action is Finish
    }

    /// The machine goes on to a phase, with nothing else changed.
    pub open spec fn waits(self, record: bool) -> bool {
        &&& self.post == (Rollout { phase: self.post.phase, ..self.pre })
        &&& self.post_app == self.pre_app
        &&& self.step.record == record
    }

    /// The machine goes on to a phase under a new status, which is recorded.
    pub open spec fn advances(self, status: DeployStatus) -> bool {
        &&& self.post == (Rollout {
            ctx: DeployContext { status, ..self.pre.ctx },
            phase: self.post.phase,
            ..self.pre
        })
        &&& self.post_app == self.pre_app
        &&& self.step.record
    }
}

/// The volumes that a container is started with.
pub open spec fn volumes_in_force(merged: Option<MergedConfig>) -> Seq<MergedVolume> {
    match merged {
        Some(m) => m.volumes@,
        None => seq![],
    }
}

/// The port that a container is to listen on.
pub open spec fn port_in_force(config: AppConfig) -> u16 {
    match config.routing.port {
        Some(p) => p,
        None => 0,
    }
}

/// The order to start a container of the deploy's image.
pub open spec fn orders_container(action: Action, m: Rollout, tag: Seq<char>, port: u16) -> bool {
    &&& action matches Action::CreateAndStart(req) && {
        &&& req.app@ == m.ctx.app@
        &&& req.image@ == m.ctx.image@
        &&& req.tag@ == tag
        &&& req.container_port == port
        &&& req.env_vars@ == m.env_vars@
        &&& req.network@ == m.config.network.name@
        &&& req.resources == m.config.resources
        &&& req.volumes@ == volumes_in_force(m.merged)
    }
}

/// The routes of a container: the merged hostnames, or the server's domain.
pub open spec fn container_routes(
    merged: Option<MergedConfig>,
    config: AppConfig,
    port: u16,
) -> Seq<(Seq<char>, u16)> {
    match merged {
        Some(m) => m.routes@.map_values(|r: MergedRoute| (r.hostname@, port)),
        None => seq![
            (
                match config.routing.domain {
                    Some(d) => d@,
                    None => seq![],
                },
                port,
            ),
        ],
    }
}

/// The routes that an app is known by once it runs.
pub open spec fn known_routes(merged: Option<MergedConfig>, port: u16) -> Seq<(Seq<char>, u16)> {
    match merged {
        Some(m) => m.routes@.map_values(|r: MergedRoute| (r.hostname@, port)),
        None => seq![],
    }
}

/// The server's hostnames, all leading to one port.
pub open spec fn server_routes(config: AppConfig, port: u16) -> Seq<(Seq<char>, u16)> {
    config.routing.routes_in_force().map_values(|r: (Seq<char>, Option<u16>)| (r.0, port))
}

/// Whether the server has any hostname for the app.
pub open spec fn is_routed(config: AppConfig) -> bool {
    config.routing.domain is Some || config.routing.routes@.len() > 0
}

/// The order to set routes.
pub open spec fn orders_routes(action: Action, app: Seq<char>, routes: Seq<(Seq<char>, u16)>) -> bool {
    action matches Action::SetRoutes { app: a, routes: v } && a@ == app && routes_view(v@) == routes
}

/// The order to save an app's entry.
pub open spec fn orders_save(action: Action, app: Seq<char>, state: Option<AppRuntimeState>) -> bool {
    &&& action matches Action::SaveState { app: a, state: s } && a@ == app && state is Some && s.alike(&state->0)
}

/// Whether HTTP requests can reach the app: by a list of routes, or by a
/// domain with a port.
pub open spec fn has_routing(config: AppConfig) -> bool {
    ||| config.routing.routes@.len() > 0
    ||| (config.routing.domain is Some && config.routing.domain->0@.len() > 0 && config.routing.port is Some
        && config.routing.port->0 > 0)
}

// ── The common part ─────────────────────────────────────────────────────────

/// After the image is there: the pull of a sidecar, or the configuration.
pub open spec fn pulls_next(t: Turn, i: usize) -> bool {
    if i < t.pre.ctx.images@.len() {
        &&& t.waits(false)
        &&& t.post.phase == Phase::PullSidecar(i)
        &&& t.step.action matches Action::PullImage { image, tag, credentials } && {
            &&& (image@, tag@) == image_and_tag(t.pre.ctx.images@[i as int].1@)
            &&& credentials_view(credentials) == credential_for(
                t.pre.ctx.images@[i as int].1@,
                registry_views(t.pre.registries@),
            )
        }
    } else {
        &&& t.advances(DeployStatus::Configuring)
        &&& t.post.phase is ReadConfig
        &&& t.step.action matches Action::ReadConfig { image, tag, path } && {
            &&& image@ == t.pre.ctx.image@
            &&& tag@ == t.pre.ctx.tag@
            &&& path@ == "/slip/slip.toml"@
        }
    }
}

/// A pull has ended.
pub open spec fn on_pulled(t: Turn, result: Result<(), RuntimeError>) -> bool {
    match (t.pre.phase, result) {
        (Phase::PullSidecar(i), Err(e)) => t.gives_up(
            "[pull_failed] sidecar image pull failed for '"@ + t.pre.ctx.images@[i as int].0@ + "': "@ + e.text(),
        ),
        (_, Err(e)) => t.gives_up("[pull_failed] image pull failed: "@ + e.text()),
        (Phase::PullSidecar(i), Ok(_)) => pulls_next(t, (i + 1) as usize),
        (_, Ok(_)) => pulls_next(t, 0),
    }
}

/// The order to read what the environment is made of.
pub open spec fn orders_env(action: Action, m: Rollout) -> bool {
    &&& action matches Action::ReadEnv { env_file, app } && {
        &&& app@ == m.ctx.app@
        &&& opt_text(env_file) == (match m.config.env_file {
            Some(f) => Some(f.path@),
            None => None,
        })
    }
}

/// Whether a merged configuration is what combining the server's with the
/// repository's gives.
pub open spec fn merges(server: AppConfig, repo: RepoConfig, m: MergedConfig) -> bool {
    &&& declared_volumes(server.volumes@, repo.volumes@) is Ok
    &&& merged_routes(server.routing.routes_in_force(), repo.routing.routes_in_force()) is Ok
    &&& m.app.alike(&overlaid(server, repo))
    &&& m.kind == repo.app.kind
    &&& m.manifest == repo.app.manifest
    &&& m.health_container == repo.health.container
    &&& m.routing_container == repo.routing.container
    &&& m.preview == repo.preview
    &&& route_views(m.routes@) == merged_routes(
        server.routing.routes_in_force(),
        repo.routing.routes_in_force(),
    )->Ok_0
    &&& volume_views(m.volumes@) == declared_volumes(server.volumes@, repo.volumes@)->Ok_0
        + undeclared_volumes(server.volumes@, repo.volumes@)
}

/// The message of a repository's configuration that does not fit, if any.
pub open spec fn merge_failure(server: AppConfig, repo: RepoConfig) -> Option<Seq<char>> {
    match declared_volumes(server.volumes@, repo.volumes@) {
        Err(path) => Some(
            "volume mount '"@ + path
                + "' declared in repo config has no corresponding host_path in server config"@,
        ),
        Ok(_) => match merged_routes(server.routing.routes_in_force(), repo.routing.routes_in_force()) {
            Err(message) => Some("merge error: "@ + message),
            Ok(_) => None,
        },
    }
}

/// The repository's configuration has been looked for.
pub open spec fn on_config(t: Turn, outcome: ConfigOutcome) -> bool {
    match outcome {
        ConfigOutcome::Parsed(repo) => if repo.app.name@ != t.pre.ctx.app@ {
            t.gives_up(
                "[config_mismatch] repo config app name '"@ + repo.app.name@ + "' does not match deploy app '"@
                    + t.pre.ctx.app@ + "'"@,
            )
        } else {
            match merge_failure(t.pre.config, repo) {
                Some(message) => t.gives_up("[config_merge_failed] config merge failed: "@ + message),
                None => {
                    &&& t.post.merged is Some
                    &&& merges(t.pre.config, repo, t.post.merged->0)
                    &&& t.post.config.alike(&t.post.merged->0.app)
                    &&& t.post == (Rollout {
                        merged: t.post.merged,
                        config: t.post.config,
                        phase: Phase::ReadEnv,
                        ..t.pre
                    })
                    &&& t.post_app == t.pre_app
                    &&& !t.step.record
                    &&& orders_env(t.step.action, t.post)
                },
            }
        },
        ConfigOutcome::ParseFailed(e) => t.gives_up("[config_parse_failed] failed to parse repo config: "@ + e@),
        ConfigOutcome::ExtractFailed(e) => if e is Unsupported {
            t.waits(false) && t.post.phase is ReadEnv && orders_env(t.step.action, t.post)
        } else {
            t.gives_up("[config_extract_failed] failed to extract config from image: "@ + e.text())
        },
        ConfigOutcome::Absent => t.waits(false) && t.post.phase is ReadEnv && orders_env(t.step.action, t.post),
    }
}

/// The environment has been read: the strategy begins.
pub open spec fn on_env(t: Turn, file: Option<String>, secrets: Option<Vec<(String, String)>>) -> bool {
    let strategy = t.pre.config.deploy.strategy@;
    let ready = Turn { pre: Rollout { env_vars: t.post.env_vars, ..t.pre }, ..t };
    &&& texts(t.post.env_vars@) == environment(t.pre.config.env@, file, secrets)
    &&& if !t.pre.is_worker() && !has_routing(t.pre.config) {
        ready.gives_up("[routing_missing] HTTP app requires routing.domain+port or [[routing.routes]]"@)
    } else if t.pre.is_pod() && (strategy == "blue-green"@ || strategy == "recreate"@) {
        starts_pod(ready)
    } else if strategy == "blue-green"@ {
        starts_blue_green(ready)
    } else if strategy == "recreate"@ {
        starts_recreate(ready)
    } else {
        ready.gives_up("[unknown_strategy] unknown deploy strategy: "@ + strategy)
    }
}

// ── Blue-green, one container ───────────────────────────────────────────────

/// The port that a new container is asked to listen on.
pub open spec fn new_container_port(m: Rollout) -> u16 {
    if m.is_worker() {
        0
    } else {
        port_in_force(m.config)
    }
}

/// The new container is ordered beside the old one.
pub open spec fn starts_blue_green(t: Turn) -> bool {
    &&& t.advances(DeployStatus::Starting)
    &&& t.post.phase is BlueCreate
    &&& orders_container(t.step.action, t.pre, t.pre.ctx.tag@, new_container_port(t.pre))
}

/// A new container with its id and host port noted.
pub open spec fn with_container(m: Rollout, id: String, port: u16) -> DeployContext {
    DeployContext {
        status: DeployStatus::HealthChecking,
        new_container_id: Some(id),
        new_port: if m.is_worker() {
            m.ctx.new_port
        } else {
            Some(port)
        },
        ..m.ctx
    }
}

/// The new container has been started, or not.
pub open spec fn on_blue_created(t: Turn, result: Result<(String, u16), RuntimeError>) -> bool {
    match result {
        Ok((id, port)) => {
            &&& t.post == (Rollout {
                ctx: with_container(t.pre, id, port),
                phase: t.post.phase,
                ..t.pre
            })
            &&& t.post_app == t.pre_app
            &&& t.step.record
            &&& if t.pre.is_worker() {
                &&& t.post.phase is BlueWorkerRunning
                &&& t.step.action matches Action::ContainerIsRunning { container } && container@ == id@
            } else {
                &&& t.post.phase is BlueHealth
                &&& t.step.action matches Action::CheckHealth { port: p } && p == port
            }
        },
        Err(e) => t.gives_up("[container_start_failed] container start failed: "@ + e.text()),
    }
}

/// The host port of the new container, 0 for a worker.
pub open spec fn live_port(m: Rollout) -> u16 {
    if m.is_worker() {
        0
    } else {
        match m.ctx.new_port {
            Some(p) => p,
            None => 0,
        }
    }
}

/// The container that runs now, as the app's entry has it.
pub open spec fn current_container(app: Option<AppRuntimeState>) -> Option<String> {
    match app {
        Some(s) => s.current_container_id,
        None => None,
    }
}

/// An app's entry after a new container has gone live with a host port.
pub open spec fn switched(
    before: Option<AppRuntimeState>,
    after: Option<AppRuntimeState>,
    m: Rollout,
    port: u16,
    now: Timestamp,
) -> bool {
    &&& after is Some
    &&& ({
        let a = after->0;
        &&& route_states(a.current_routes@) == known_routes(m.merged, port)
        &&& a == (AppRuntimeState {
            status: AppStatus::Running,
            current_tag: Some(m.ctx.tag),
            previous_tag: match before {
                Some(s) => s.current_tag,
                None => None,
            },
            current_container_id: m.ctx.new_container_id,
            previous_container_id: current_container(before),
            current_port: if m.is_worker() {
                None
            } else {
                m.ctx.new_port
            },
            current_routes: a.current_routes,
            deployed_at: Some(now),
            deploy_id: Some(m.ctx.id),
            current_pod_name: match before {
                Some(s) => s.current_pod_name,
                None => None,
            },
            current_manifest_path: match before {
                Some(s) => s.current_manifest_path,
                None => None,
            },
            kind: match m.merged {
                Some(c) => Some(c.kind),
                None => None,
            },
            last_applied: match before {
                Some(s) => s.last_applied,
                None => None,
            },
        })
    })
}

/// The new container goes live with a host port: the app's entry says so and
/// is saved.
pub open spec fn goes_live(t: Turn, port: u16) -> bool {
    &&& switched(t.pre_app, t.post_app, t.pre, port, t.now)
    &&& orders_save(t.step.action, t.pre.ctx.app@, t.post_app)
}

/// Traffic is to go to the new container; the one that runs now is noted.
pub open spec fn switches_blue(t: Turn) -> bool {
    &&& t.post == (Rollout {
        ctx: DeployContext { status: DeployStatus::Switching, ..t.pre.ctx },
        old_container: t.post.old_container,
        phase: t.post.phase,
        ..t.pre
    })
    &&& opt_text(t.post.old_container) == opt_text(current_container(t.pre_app))
    &&& t.step.record
    &&& if t.pre.is_worker() {
        &&& t.post.phase is BlueSave
        &&& goes_live(t, live_port(t.pre))
    } else {
        &&& t.post.phase is BlueRoutes
        &&& t.post_app == t.pre_app
        &&& orders_routes(
            t.step.action,
            t.pre.ctx.app@,
            container_routes(t.pre.merged, t.pre.config, live_port(t.pre)),
        )
    }
}

/// It is known whether the new container runs.
pub open spec fn on_blue_running(t: Turn, result: Result<bool, RuntimeError>) -> bool {
    match result {
        Ok(true) => switches_blue(t),
        Ok(false) => t.gives_up(
            if t.pre.phase is BlueWorkerRunning {
                "[container_exited] worker container exited during start"@
            } else {
                "[container_exited] container exited during health check"@
            },
        ),
        Err(e) => t.gives_up(
            if t.pre.phase is BlueWorkerRunning {
                "[container_state_failed] worker container state check failed: "@ + e.text()
            } else {
                "[container_state_failed] container state check failed: "@ + e.text()
            },
        ),
    }
}

/// The new container is to be removed, and the deploy to fail for a reason.
pub open spec fn discards(t: Turn, reason: Seq<char>) -> bool {
    match t.pre.ctx.new_container_id {
        Some(id) => {
            &&& t.waits(false)
            &&& t.post.phase matches Phase::Discard(r) && r@ == reason
            &&& t.step.action matches Action::StopAndRemove { container } && container@ == id@
        },
        None => t.gives_up(reason),
    }
}

/// The health of the new container is known.
pub open spec fn on_blue_health(t: Turn, result: Result<(), HealthError>) -> bool {
    match result {
        Err(e) => discards(t, health_reason(e)),
        Ok(_) => match t.pre.ctx.new_container_id {
            Some(id) => {
                &&& t.waits(false)
                &&& t.post.phase is BlueRunning
                &&& t.step.action matches Action::ContainerIsRunning { container } && container@ == id@
            },
            None => switches_blue(t),
        },
    }
}

/// The routes have been set, or not.
pub open spec fn on_blue_routes(t: Turn, result: Result<(), CaddyError>) -> bool {
    match result {
        Err(e) => discards(t, "caddy route update failed: "@ + e.text()),
        Ok(_) => {
            &&& t.post == (Rollout { phase: Phase::BlueSave, ..t.pre })
            &&& !t.step.record
            &&& goes_live(t, live_port(t.pre))
        },
    }
}

/// The new container is live: the old one is drained and then removed.
pub open spec fn on_blue_over(t: Turn) -> bool {
    match t.pre.phase {
        Phase::BlueSave => match t.pre.old_container {
            Some(old) => {
                &&& t.waits(false)
                &&& t.post.phase matches Phase::BlueDrain(id) && id@ == old@
                &&& t.step.action matches Action::Drain { wait } && wait == t.pre.config.deploy.drain_timeout
            },
            None => t.completes(),
        },
        Phase::BlueDrain(old) => {
            &&& t.waits(false)
            &&& t.post.phase is BlueStopOld
            &&& t.step.action matches Action::StopAndRemove { container } && container@ == old@
        },
        _ => t.completes(),
    }
}

// ── Recreate, one container ─────────────────────────────────────────────────

/// The tag that runs now, as the app's entry has it.
pub open spec fn current_tag(app: Option<AppRuntimeState>) -> Option<String> {
    match app {
        Some(s) => s.current_tag,
        None => None,
    }
}

/// The old container is to be stopped, if there is one, before anything else.
pub open spec fn starts_recreate(t: Turn) -> bool {
    &&& opt_text(t.post.old_container) == opt_text(current_container(t.pre_app))
    &&& opt_text(t.post.old_tag) == opt_text(current_tag(t.pre_app))
    &&& ({
        let noted = Turn {
            pre: Rollout { old_container: t.post.old_container, old_tag: t.post.old_tag, ..t.pre },
            ..t
        };
        match t.post.old_container {
            Some(old) => {
                &&& noted.advances(DeployStatus::StoppingOld)
                &&& t.post.phase is RecreateStop
                &&& t.step.action matches Action::StopContainer { container } && container@ == old@
            },
            None => removes_route(noted),
        }
    })
}

/// The route is to be taken away during the downtime.
pub open spec fn removes_route(t: Turn) -> bool {
    &&& t.advances(DeployStatus::RemovingRoute)
    &&& t.post.phase is RecreateRemoveRoute
    &&& t.step.action matches Action::RemoveRoute { app } && app@ == t.pre.ctx.app@
}

/// The old container has been stopped, or not.
pub open spec fn on_recreate_stopped(t: Turn, result: Result<(), RuntimeError>) -> bool {
    match result {
        Ok(_) => removes_route(t),
        Err(e) => t.gives_up("[container_stop_failed] failed to stop old container: "@ + e.text()),
    }
}

/// The new container is ordered.
pub open spec fn creates_anew(t: Turn) -> bool {
    &&& t.advances(DeployStatus::Starting)
    &&& t.post.phase is RecreateCreate
    &&& orders_container(t.step.action, t.pre, t.pre.ctx.tag@, new_container_port(t.pre))
}

/// The new container has been started, or not.
pub open spec fn on_recreate_created(t: Turn, result: Result<(String, u16), RuntimeError>) -> bool {
    match result {
        Ok((id, port)) => {
            &&& t.post == (Rollout {
                ctx: with_container(t.pre, id, port),
                phase: t.post.phase,
                ..t.pre
            })
            &&& t.post_app == t.pre_app
            &&& t.step.record
            &&& if t.pre.is_worker() {
                &&& t.post.phase matches Phase::RecreateWorkerRunning { container, port: p } && container@ == id@ && p
                    == port
                &&& t.step.action matches Action::ContainerIsRunning { container } && container@ == id@
            } else {
                &&& t.post.phase matches Phase::RecreateHealth { container, port: p } && container@ == id@ && p
                    == port
                &&& t.step.action matches Action::CheckHealth { port: p } && p == port
            }
        },
        Err(_) => rolls_back(t),
    }
}

/// The new container is to be removed before rolling back.
pub open spec fn recreate_discards(t: Turn, id: Seq<char>) -> bool {
    &&& t.waits(false)
    &&& t.post.phase is RecreateDiscard
    &&& t.step.action matches Action::StopAndRemove { container } && container@ == id
}

/// Traffic is to go to the new container, which has got a host port.
pub open spec fn switches_recreate(t: Turn, id: Seq<char>, port: u16) -> bool {
    &&& t.post == (Rollout {
        ctx: DeployContext { status: DeployStatus::Switching, ..t.pre.ctx },
        phase: t.post.phase,
        ..t.pre
    })
    &&& t.step.record
    &&& if t.pre.is_worker() {
        &&& t.post.phase is RecreateSave
        &&& goes_live(t, port)
    } else {
        &&& t.post.phase matches Phase::RecreateRoutes { container } && container@ == id
        &&& t.post_app == t.pre_app
        &&& orders_routes(
            t.step.action,
            t.pre.ctx.app@,
            container_routes(t.pre.merged, t.pre.config, live_port(t.pre)),
        )
    }
}

/// It is known whether the new container runs. One whose state cannot be read
/// counts as running, unless it is a worker.
pub open spec fn on_recreate_running(t: Turn, result: Result<bool, RuntimeError>) -> bool {
    match t.pre.phase {
        Phase::RecreateWorkerRunning { container, port } => if result == Ok::<bool, RuntimeError>(true) {
            switches_recreate(t, container@, port)
        } else {
            recreate_discards(t, container@)
        },
        Phase::RecreateRunning { container, port, healthy } => if healthy && result != Ok::<bool, RuntimeError>(
            false,
        ) {
            switches_recreate(t, container@, port)
        } else {
            recreate_discards(t, container@)
        },
        _ => false,
    }
}

/// The health of the new container is known; whether it runs is asked in any
/// case.
pub open spec fn on_recreate_health(t: Turn, result: Result<(), HealthError>) -> bool {
    t.pre.phase matches Phase::RecreateHealth { container: id, port: p } && {
        &&& t.waits(false)
        &&& t.post.phase matches Phase::RecreateRunning { container, port, healthy } && {
            &&& container@ == id@
            &&& port == p
            &&& healthy == (result is Ok)
        }
        &&& t.step.action matches Action::ContainerIsRunning { container } && container@ == id@
    }
}

/// The routes have been set, or not.
pub open spec fn on_recreate_routes(t: Turn, result: Result<(), CaddyError>) -> bool {
    t.pre.phase matches Phase::RecreateRoutes { container } && match result {
        Err(_) => recreate_discards(t, container@),
        Ok(_) => {
            &&& t.post == (Rollout { phase: Phase::RecreateSave, ..t.pre })
            &&& !t.step.record
            &&& goes_live(t, live_port(t.pre))
        },
    }
}

/// Steps of the recreate strategy whose outcome does not matter.
pub open spec fn on_recreate_over(t: Turn) -> bool {
    match t.pre.phase {
        Phase::RecreateRemoveRoute => creates_anew(t),
        Phase::RecreateDiscard => rolls_back(t),
        Phase::RecreateSave => match t.pre.old_container {
            Some(old) => {
                &&& t.waits(false)
                &&& t.post.phase is RecreateRemoveOld
                &&& t.step.action matches Action::StopAndRemove { container } && container@ == old@
            },
            None => t.completes(),
        },
        _ => t.completes(),
    }
}

// ── Rollback ────────────────────────────────────────────────────────────────

/// Rolling back begins: the old container is to be restarted, if there is one;
/// else a fallback is tried.
pub open spec fn rolls_back(t: Turn) -> bool {
    let noted = Turn {
        pre: Rollout {
            old_port: match t.pre_app {
                Some(s) => s.current_port,
                None => None,
            },
            ..t.pre
        },
        ..t
    };
    match t.pre.old_container {
        Some(old) => {
            &&& noted.advances(DeployStatus::RestartingOld)
            &&& t.post.phase matches Phase::RestartOld(id) && id@ == old@
            &&& t.step.action matches Action::StartContainer { container } && container@ == old@
        },
        None => falls_back(noted),
    }
}

/// A container of the previous tag is ordered, if that tag is known; else
/// nothing is left to try.
pub open spec fn falls_back(t: Turn) -> bool {
    match t.pre.old_tag {
        Some(tag) => {
            &&& t.waits(false)
            &&& t.post.phase matches Phase::FallbackCreate(x) && x@ == tag@
            &&& orders_container(t.step.action, t.pre, tag@, port_in_force(t.pre.config))
        },
        None => is_down(t),
    }
}

/// The deploy has failed, and so has rolling back.
pub open spec fn is_down(t: Turn) -> bool {
    Turn { pre: Rollout { ctx: DeployContext { rollback_failed: true, ..t.pre.ctx }, ..t.pre }, ..t }.gives_up(
        "[rollback_failed] deploy failed, rollback failed \u{2014} manual intervention required"@,
    )
}

/// The old container has been restarted, or not.
pub open spec fn on_restarted(t: Turn, result: Result<(), RuntimeError>) -> bool {
    t.pre.phase matches Phase::RestartOld(old) && match result {
        Ok(_) => {
            &&& t.waits(false)
            &&& t.post.phase is RestartPort
            &&& t.step.action matches Action::InspectPort { container, container_port } && container@ == old@
                && container_port == port_in_force(t.pre.config)
        },
        Err(_) => falls_back(t),
    }
}

/// The old container runs again.
pub open spec fn is_restored(t: Turn) -> bool {
    t.gives_up("[rollback_tier1] deploy failed, old container restarted (Tier 1 rollback)"@)
}

/// The host port of the restarted container: the one found, else the one it
/// had.
pub open spec fn restored_port(m: Rollout, result: Result<u16, RuntimeError>) -> u16 {
    match (result, m.old_port) {
        (Ok(p), _) => p,
        (Err(_), Some(p)) => p,
        (Err(_), None) => 0,
    }
}

/// The port of the restarted container has been looked up.
pub open spec fn on_restart_port(t: Turn, result: Result<u16, RuntimeError>) -> bool {
    if is_routed(t.pre.config) {
        &&& t.waits(false)
        &&& t.post.phase is RestartRoutes
        &&& orders_routes(
            t.step.action,
            t.pre.ctx.app@,
            server_routes(t.pre.config, restored_port(t.pre, result)),
        )
    } else {
        is_restored(t)
    }
}

/// The fallback container has been started, or not.
pub open spec fn on_fallback_created(t: Turn, result: Result<(String, u16), RuntimeError>) -> bool {
    t.pre.phase matches Phase::FallbackCreate(tag) && match result {
        Ok((id, port)) => if t.pre.config.health.path is Some {
            &&& t.waits(false)
            &&& t.post.phase matches Phase::FallbackHealth { container, port: p, tag: x } && {
                &&& container@ == id@
                &&& p == port
                &&& x@ == tag@
            }
            &&& t.step.action matches Action::CheckHealth { port: p } && p == port
        } else {
            routes_fallback(t, id@, port, tag@)
        },
        Err(_) => is_down(t),
    }
}

/// The fallback is healthy: the routes are restored to it, if there are any.
pub open spec fn routes_fallback(t: Turn, id: Seq<char>, port: u16, tag: Seq<char>) -> bool {
    if is_routed(t.pre.config) {
        &&& t.waits(false)
        &&& t.post.phase matches Phase::FallbackRoutes { container, port: p, tag: x } && {
            &&& container@ == id
            &&& p == port
            &&& x@ == tag
        }
        &&& orders_routes(t.step.action, t.pre.ctx.app@, server_routes(t.pre.config, port))
    } else {
        is_replaced(t, id, port, tag)
    }
}

/// The fallback runs in place of the old container.
pub open spec fn is_replaced(t: Turn, id: Seq<char>, port: u16, tag: Seq<char>) -> bool {
    &&& failed_from(
        t.pre.ctx,
        t.post.ctx,
        "[rollback_tier2] deploy failed, fallback from previous_tag (Tier 2 rollback)"@,
        t.now,
    )
    &&& t.post == (Rollout { ctx: t.post.ctx, phase: Phase::Done, ..t.pre })
    &&& t.step.record
    &&& t.step.action is Finish
    &&& match (t.pre_app, t.post_app) {
        (Some(b), Some(a)) => {
            &&& opt_text(a.current_container_id) == Some(id)
            &&& opt_text(a.current_tag) == Some(tag)
            &&& a == (AppRuntimeState {
                status: AppStatus::Failed,
                current_container_id: a.current_container_id,
                current_port: Some(port),
                current_tag: a.current_tag,
                ..b
            })
        },
        (None, None) => true,
        _ => false,
    }
}

/// The health of the fallback is known.
pub open spec fn on_fallback_health(t: Turn, result: Result<(), HealthError>) -> bool {
    t.pre.phase matches Phase::FallbackHealth { container: id, port, tag } && match result {
        Ok(_) => routes_fallback(t, id@, port, tag@),
        Err(_) => {
            &&& t.waits(false)
            &&& t.post.phase is FallbackStop
            &&& t.step.action matches Action::StopAndRemove { container } && container@ == id@
        },
    }
}

// ── Blue-green, a pod ───────────────────────────────────────────────────────

/// The manifest is to be extracted from the image. Without one the deploy is
/// recorded as starting all the same, before it fails.
pub open spec fn starts_pod(t: Turn) -> bool {
    &&& t.advances(DeployStatus::Starting)
    &&& match t.pre.merged->0.manifest {
        Some(p) => {
            &&& t.post.phase is PodManifest
            &&& t.step.action matches Action::ExtractFile { image, tag, path } && {
                &&& image@ == t.pre.ctx.image@
                &&& tag@ == t.pre.ctx.tag@
                &&& path@ == p@
            }
        },
        None => t.post.phase is PodUnnamed && t.step.action is Proceed,
    }
}

/// What the manifest of a deploy is rendered with.
pub open spec fn renders_with(c: RenderContext, m: Rollout, suffix: Seq<char>) -> bool {
    &&& c.app_name@ == m.ctx.app@
    &&& c.tag@ == m.ctx.tag@
    &&& c.primary_image@ == m.config.app.image@
    &&& c.pod_suffix@ == suffix
    &&& c.env_vars@ == m.env_vars@
    &&& c.image_overrides@ == m.ctx.images@
    &&& c.volumes@ == volumes_in_force(m.merged)
}

/// Where the manifests of an installation lie.
pub open spec fn manifests_dir(storage: Seq<char>) -> Seq<char> {
    joined(storage, "manifests"@)
}

/// The manifest has been extracted, or not.
pub open spec fn on_manifest(
    t: Turn,
    result: Result<Option<Vec<u8>>, RuntimeError>,
    suffix: Seq<char>,
) -> bool {
    let named_path = t.pre.merged->0.manifest;
    match result {
        Ok(Some(bytes)) => exists|c: RenderContext| #[trigger]
            renders_with(c, t.pre, suffix) && match rendered(bytes@, c) {
                Ok(yaml) => {
                    &&& t.post == (Rollout {
                        phase: Phase::PodWrite,
                        pod_name: t.post.pod_name,
                        manifest_path: t.post.manifest_path,
                        ..t.pre
                    })
                    &&& t.post.pod_name@ == t.pre.ctx.app@ + "-"@ + suffix
                    &&& t.post.manifest_path@ == joined(
                        manifests_dir(t.pre.storage_path@),
                        t.pre.ctx.app@ + "-"@ + t.pre.ctx.id@ + ".yaml"@,
                    )
                    &&& t.post_app == t.pre_app
                    &&& !t.step.record
                    &&& t.step.action matches Action::WriteManifest { directory, path, text } && {
                        &&& directory@ == manifests_dir(t.pre.storage_path@)
                        &&& path@ == t.post.manifest_path@
                        &&& text@ == yaml
                    }
                },
                Err(e) => t.gives_up("[manifest_render_failed] failed to render manifest: "@ + e.text()),
            },
        Ok(None) => t.gives_up(
            "[manifest_not_found] manifest '"@ + (match named_path {
                Some(p) => p@,
                None => seq![],
            }) + "' not found in image"@,
        ),
        Err(e) => t.gives_up("[manifest_extract_failed] failed to extract manifest from image: "@ + e.text()),
    }
}

/// The manifest has been written, or not.
pub open spec fn on_written(t: Turn, outcome: WriteOutcome) -> bool {
    match outcome {
        WriteOutcome::Written => {
            &&& t.waits(false)
            &&& t.post.phase is PodDeploy
            &&& t.step.action matches Action::DeployPod { manifest, pod } && manifest@ == t.pre.manifest_path@ && pod@
                == t.pre.pod_name@
        },
        WriteOutcome::DirectoryFailed(e) => t.gives_up(
            "[manifest_dir_failed] failed to create manifests directory: "@ + e@,
        ),
        WriteOutcome::FileFailed(e) => t.gives_up("[manifest_write_failed] failed to write manifest file: "@ + e@),
    }
}

/// The container that a route leads to, `web` if none is named.
pub open spec fn route_container(r: MergedRoute) -> Seq<char> {
    match r.container {
        Some(c) => c@,
        None => "web"@,
    }
}

/// What is asked of a route: whether a worker runs, or which port an HTTP
/// container got; after the last route, what all the answers come to.
pub open spec fn asks_route(t: Turn, i: int, record: bool) -> bool {
    let routes = t.pre.merged->0.routes@;
    if i < routes.len() {
        let r = routes[i];
        &&& t.waits(record)
        &&& if r.kind@ == "worker"@ {
            &&& t.post.phase == Phase::PodWorker(i as usize)
            &&& t.step.action matches Action::ContainerIsRunning { container } && container@ == t.pre.pod_name@
                + "-"@ + route_container(r)
        } else {
            &&& t.post.phase == Phase::PodPort(i as usize)
            &&& t.step.action matches Action::PodContainerPort { pod, container, container_port } && {
                &&& pod@ == t.pre.pod_name@
                &&& container@ == route_container(r)
                &&& container_port == r.port
            }
        }
    } else {
        judges_pod(t)
    }
}

/// The pod has been deployed, or not.
pub open spec fn on_pod_deployed(t: Turn, result: Result<(), RuntimeError>) -> bool {
    match result {
        Err(e) => t.gives_up("[pod_deploy_failed] pod deploy failed: "@ + e.text()),
        Ok(_) => {
            let ctx = DeployContext {
                new_pod_name: t.post.ctx.new_pod_name,
                new_manifest_path: t.post.ctx.new_manifest_path,
                status: DeployStatus::HealthChecking,
                ..t.pre.ctx
            };
            &&& opt_text(t.post.ctx.new_pod_name) == Some(t.pre.pod_name@)
            &&& opt_text(t.post.ctx.new_manifest_path) == Some(t.pre.manifest_path@)
            &&& if t.pre.merged->0.routes@.len() > 0 {
                asks_route(Turn { pre: Rollout { ctx, ..t.pre }, ..t }, 0, true)
            } else {
                &&& Turn { pre: Rollout { ctx, ..t.pre }, ..t }.waits(true)
                &&& t.post.phase is PodBare
                &&& t.step.action is Proceed
            }
        },
    }
}

/// The machine with a failed HTTP container noted.
pub open spec fn with_failure(m: Rollout, e: Option<HealthError>) -> Rollout {
    Rollout {
        http_failure: true,
        last_health_error: if e is Some {
            e
        } else {
            m.last_health_error
        },
        ..m
    }
}

/// The port of an HTTP container is known, or cannot be found.
pub open spec fn on_pod_port(t: Turn, i: usize, result: Result<u16, RuntimeError>) -> bool {
    match result {
        Ok(port) => {
            &&& t.waits(false)
            &&& t.post.phase == (Phase::PodHealth { route: i, port })
            &&& t.step.action matches Action::CheckHealth { port: p } && p == port
        },
        Err(_) => asks_route(Turn { pre: with_failure(t.pre, None), ..t }, i + 1, false),
    }
}

/// The health of an HTTP container is known.
pub open spec fn on_pod_health(t: Turn, i: usize, port: u16, result: Result<(), HealthError>) -> bool {
    match result {
        Err(e) => asks_route(Turn { pre: with_failure(t.pre, Some(e)), ..t }, i + 1, false),
        Ok(_) => {
            let host = t.pre.merged->0.routes@[i as int].hostname@;
            let noted = Rollout { healthy_routes: t.post.healthy_routes, ..t.pre };
            &&& routes_view(t.post.healthy_routes@) == routes_view(t.pre.healthy_routes@).push((host, port))
            &&& asks_route(Turn { pre: noted, ..t }, i + 1, false)
        },
    }
}

/// The reason of a pod that is not healthy.
pub open spec fn pod_reason(m: Rollout) -> Seq<char> {
    match m.last_health_error {
        Some(e) => health_reason(e),
        None => "[health_check_failed] health check failed for one or more HTTP containers"@,
    }
}

/// The port of the first healthy route.
pub open spec fn first_port(m: Rollout) -> Option<u16> {
    if m.healthy_routes@.len() > 0 {
        Some(m.healthy_routes@[0].port)
    } else {
        None
    }
}

/// The new pod is to be torn down, and the deploy to fail for a reason.
pub open spec fn discards_pod(t: Turn, reason: Seq<char>) -> bool {
    &&& t.waits(false)
    &&& t.post.phase matches Phase::PodDiscard(r) && r@ == reason
    &&& t.step.action matches Action::TeardownPod { manifest } && manifest@ == t.pre.manifest_path@
}

/// Every route has been looked at: traffic goes to the pod if no HTTP
/// container failed.
pub open spec fn judges_pod(t: Turn) -> bool {
    if t.pre.http_failure {
        discards_pod(t, pod_reason(t.pre))
    } else {
        let ready = Rollout {
            ctx: DeployContext { new_port: first_port(t.pre), status: DeployStatus::Switching, ..t.pre.ctx },
            old_manifest: t.post.old_manifest,
            ..t.pre
        };
        &&& opt_text(t.post.old_manifest) == (match t.pre_app {
            Some(s) => opt_text(s.current_manifest_path),
            None => None,
        })
        &&& t.post == (Rollout { phase: t.post.phase, ..ready })
        &&& t.step.record
        &&& if t.pre.healthy_routes@.len() > 0 {
            &&& t.post.phase is PodRoutes
            &&& t.post_app == t.pre_app
            &&& orders_routes(t.step.action, t.pre.ctx.app@, routes_view(t.pre.healthy_routes@))
        } else {
            &&& t.post.phase is PodSave
            &&& pod_goes_live(Turn { pre: ready, ..t })
        }
    }
}

/// The pod goes live: the app's entry says so and is saved.
pub open spec fn pod_goes_live(t: Turn) -> bool {
    &&& pod_switched(t.pre_app, t.post_app, t.pre, t.now)
    &&& orders_save(t.step.action, t.pre.ctx.app@, t.post_app)
}

/// An app's entry after a new pod has gone live.
pub open spec fn pod_switched(
    before: Option<AppRuntimeState>,
    after: Option<AppRuntimeState>,
    m: Rollout,
    now: Timestamp,
) -> bool {
    &&& after is Some
    &&& ({
        let a = after->0;
        &&& route_states(a.current_routes@) == routes_view(m.healthy_routes@)
        &&& a == (AppRuntimeState {
            status: AppStatus::Running,
            current_tag: Some(m.ctx.tag),
            previous_tag: current_tag(before),
            current_container_id: current_container(before),
            previous_container_id: match before {
                Some(s) => s.previous_container_id,
                None => None,
            },
            current_port: first_port(m),
            current_routes: a.current_routes,
            deployed_at: Some(now),
            deploy_id: Some(m.ctx.id),
            current_pod_name: Some(m.pod_name),
            current_manifest_path: Some(m.manifest_path),
            kind: match m.merged {
                Some(c) => Some(c.kind),
                None => None,
            },
            last_applied: match before {
                Some(s) => s.last_applied,
                None => None,
            },
        })
    })
}

/// The routes have been set, or not.
pub open spec fn on_pod_routes(t: Turn, result: Result<(), CaddyError>) -> bool {
    match result {
        Err(e) => discards_pod(t, "[route_update_failed] caddy route update failed: "@ + e.text()),
        Ok(_) => {
            &&& t.post == (Rollout { phase: Phase::PodSave, ..t.pre })
            &&& !t.step.record
            &&& pod_goes_live(t)
        },
    }
}

/// The pod is live: the old one is drained and then torn down.
pub open spec fn on_pod_over(t: Turn) -> bool {
    match t.pre.phase {
        Phase::PodSave => match t.pre.old_manifest {
            Some(old) => {
                &&& t.waits(false)
                &&& t.post.phase matches Phase::PodDrain(x) && x@ == old@
                &&& t.step.action matches Action::Drain { wait } && wait == t.pre.config.deploy.drain_timeout
            },
            None => t.completes(),
        },
        Phase::PodDrain(old) => {
            &&& t.waits(false)
            &&& t.post.phase is PodStopOld
            &&& t.step.action matches Action::TeardownPod { manifest } && manifest@ == old@
        },
        _ => t.completes(),
    }
}

// ── All transitions ─────────────────────────────────────────────────────────

/// A step whose outcome does not matter is over.
pub open spec fn on_over(t: Turn) -> bool {
    match t.pre.phase {
        Phase::BlueSave => on_blue_over(t),
        Phase::BlueDrain(_) => on_blue_over(t),
        Phase::BlueStopOld => on_blue_over(t),
        Phase::Discard(reason) => t.gives_up(reason@),
        Phase::PodDiscard(reason) => t.gives_up(reason@),
        Phase::PodUnnamed => t.gives_up(
            "[manifest_missing] pod deploy requires [app].manifest in repo config (slip.toml)"@,
        ),
        Phase::PodBare => judges_pod(t),
        Phase::RecreateRemoveRoute => on_recreate_over(t),
        Phase::RecreateDiscard => on_recreate_over(t),
        Phase::RecreateSave => on_recreate_over(t),
        Phase::RecreateRemoveOld => on_recreate_over(t),
        Phase::FallbackStop => is_down(t),
        Phase::PodSave => on_pod_over(t),
        Phase::PodDrain(_) => on_pod_over(t),
        Phase::PodStopOld => on_pod_over(t),
        Phase::TimedOut => {
            &&& t.post == (Rollout { phase: Phase::Done, ..t.pre })
            &&& marked_failed(t.pre_app, t.post_app)
            &&& t.step.record
            &&& t.step.action is Finish
        },
        _ => false,
    }
}

/// What an outcome leads to. The suffix is the one that a new pod is named
/// with.
pub open spec fn follows(t: Turn, event: Event, suffix: Seq<char>) -> bool {
    match event {
        Event::Pulled(r) => on_pulled(t, r),
        Event::Config(c) => on_config(t, c),
        Event::Env { file, secrets } => on_env(t, file, secrets),
        Event::Created(r) => match t.pre.phase {
            Phase::BlueCreate => on_blue_created(t, r),
            Phase::RecreateCreate => on_recreate_created(t, r),
            _ => on_fallback_created(t, r),
        },
        Event::Running(r) => match t.pre.phase {
            Phase::BlueWorkerRunning => on_blue_running(t, r),
            Phase::BlueRunning => on_blue_running(t, r),
            Phase::PodWorker(i) => asks_route(t, i + 1, false),
            _ => on_recreate_running(t, r),
        },
        Event::Health(r) => match t.pre.phase {
            Phase::BlueHealth => on_blue_health(t, r),
            Phase::RecreateHealth { .. } => on_recreate_health(t, r),
            Phase::PodHealth { route, port } => on_pod_health(t, route, port, r),
            _ => on_fallback_health(t, r),
        },
        Event::RoutesSet(r) => match t.pre.phase {
            Phase::BlueRoutes => on_blue_routes(t, r),
            Phase::RecreateRoutes { .. } => on_recreate_routes(t, r),
            Phase::RestartRoutes => is_restored(t),
            Phase::FallbackRoutes { container, port, tag } => is_replaced(t, container@, port, tag@),
            _ => on_pod_routes(t, r),
        },
        Event::Stopped(r) => on_recreate_stopped(t, r),
        Event::Started(r) => on_restarted(t, r),
        Event::Port(r) => match t.pre.phase {
            Phase::PodPort(i) => on_pod_port(t, i, r),
            _ => on_restart_port(t, r),
        },
        Event::Extracted(r) => on_manifest(t, r, suffix),
        Event::Written(o) => on_written(t, o),
        Event::PodDeployed(r) => on_pod_deployed(t, r),
        Event::Over => on_over(t),
    }
}

/// The time is up: the deploy has failed, and its new container, if it has one
/// already, is to be removed.
pub open spec fn times_out(t: Turn, limit: Duration) -> bool {
    let reason = "[health_check_timeout] deploy timed out after "@ + minutes_and_seconds(limit)
        + " (health check never passed)"@;
    match t.pre.ctx.new_container_id {
        Some(id) => {
            &&& failed_from(t.pre.ctx, t.post.ctx, reason, t.now)
            &&& t.post == (Rollout { ctx: t.post.ctx, phase: Phase::TimedOut, ..t.pre })
            &&& t.post_app == t.pre_app
            &&& !t.step.record
            &&& t.step.action matches Action::StopAndRemove { container } && container@ == id@
        },
        None => t.gives_up(reason),
    }
}

/// A deploy begins: the app counts as deploying, and the image is pulled.
pub open spec fn begins(
    ctx: DeployContext,
    config: AppConfig,
    registries: Vec<ResolvedRegistry>,
    storage_path: String,
    before: Option<AppRuntimeState>,
    m: Rollout,
    after: Option<AppRuntimeState>,
    step: Step,
) -> bool {
    &&& m.ctx == (DeployContext { status: DeployStatus::Pulling, ..ctx })
    &&& m.phase is PullMain
    &&& m.config == config
    &&& m.merged is None
    &&& m.registries == registries
    &&& m.storage_path == storage_path
    &&& m.env_vars@.len() == 0
    &&& m.old_container is None
    &&& m.old_tag is None
    &&& m.old_port is None
    &&& m.old_manifest is None
    &&& m.pod_name@ == Seq::<char>::empty()
    &&& m.manifest_path@ == Seq::<char>::empty()
    &&& m.healthy_routes@.len() == 0
    &&& !m.http_failure
    &&& m.last_health_error is None
    &&& after == (match before {
        Some(s) => Some(AppRuntimeState { status: AppStatus::Deploying, ..s }),
        None => None,
    })
    &&& step.record
    &&& step.action matches Action::PullImage { image, tag, credentials } && {
        &&& image@ == ctx.image@
        &&& tag@ == ctx.tag@
        &&& credentials_view(credentials) == credential_for(ctx.image@, registry_views(registries@))
    }
}

// ── The machine ─────────────────────────────────────────────────────────────

/// `ulid::Ulid::new` makes a fresh identifier and `to_string` writes it. Every
/// one has 26 characters: digits and capital letters.
#[verifier::external_body]
fn ulid_text() -> (r: String)
    ensures
        r@.len() == 26,
        forall|i: int| 0 <= i < 26 ==> ('0' <= (#[trigger] r@[i]) && r@[i] <= '9') || ('A' <= r@[i] && r@[i] <= 'Z'),
{
    ulid::Ulid::new().to_string()
}

/// The first eight characters of an identifier, in small letters.
pub open spec fn suffix_of(id: Seq<char>) -> Seq<char> {
    crate::text::lowered(id.take(8))
}

/// Takes the suffix of an identifier.
pub fn pod_suffix_of(id: &str) -> (r: String)
    requires
        id@.len() >= 8,
    ensures
        r@ == suffix_of(id@),
{
    let v = crate::text::to_chars(id);
    let head = crate::text::from_chars(&v, 0, 8);
    assert(head@ =~= id@.take(8));
    crate::text::lower(head.as_str())
}

/// Whether a text is one that a pod is named with: eight digits or small
/// letters.
pub open spec fn is_suffix(s: Seq<char>) -> bool {
    s.len() == 8 && forall|i: int|
        0 <= i < 8 ==> ('0' <= (#[trigger] s[i]) && s[i] <= '9') || ('a' <= s[i] && s[i] <= 'z')
}

/// A fresh suffix. That no other pod has it rests on chance and is not claimed.
pub fn fresh_suffix() -> (r: String)
    ensures
        is_suffix(r@),
{
    let id = ulid_text();
    let r = pod_suffix_of(id.as_str());
    assert forall|i: int| 0 <= i < 8 implies ('0' <= (#[trigger] r@[i]) && r@[i] <= '9') || ('a' <= r@[i]
        && r@[i] <= 'z') by {
        assert(r@[i] == crate::text::lower_char(id@[i]));
        assert(('0' <= id@[i] && id@[i] <= '9') || ('A' <= id@[i] && id@[i] <= 'Z'));
    }
    r
}

fn mark_failed(app: &mut Option<AppRuntimeState>)
    ensures
        marked_failed(*old(app), *final(app)),
{
    match app {
        Some(s) => {
            s.status = AppStatus::Failed;
        },
        None => {},
    }
}

fn hostnames_at(routes: &Vec<MergedRoute>, port: u16) -> (r: Vec<Route>)
    ensures
        routes_view(r@) == routes@.map_values(|x: MergedRoute| (x.hostname@, port)),
{
    let mut out: Vec<Route> = Vec::new();
    let mut i: usize = 0;
    while i < routes.len()
        invariant
            i <= routes@.len(),
            out@.len() == i,
            forall|k: int| 0 <= k < i ==> (#[trigger] out@[k]).hostname@ == routes@[k].hostname@ && out@[k].port == port,
        decreases routes@.len() - i,
    {
        out.push(Route { hostname: routes[i].hostname.clone(), port });
        i = i + 1;
    }
    assert(routes_view(out@) =~= routes@.map_values(|x: MergedRoute| (x.hostname@, port)));
    out
}

fn entries_at(routes: &Vec<RouteEntry>, port: u16) -> (r: Vec<Route>)
    ensures
        routes_view(r@) == routes@.map_values(|x: RouteEntry| (x.hostname@, port)),
{
    let mut out: Vec<Route> = Vec::new();
    let mut i: usize = 0;
    while i < routes.len()
        invariant
            i <= routes@.len(),
            out@.len() == i,
            forall|k: int| 0 <= k < i ==> (#[trigger] out@[k]).hostname@ == routes@[k].hostname@ && out@[k].port == port,
        decreases routes@.len() - i,
    {
        out.push(Route { hostname: routes[i].hostname.clone(), port });
        i = i + 1;
    }
    assert(routes_view(out@) =~= routes@.map_values(|x: RouteEntry| (x.hostname@, port)));
    out
}

fn as_states(routes: &Vec<Route>) -> (r: Vec<RouteState>)
    ensures
        route_states(r@) == routes_view(routes@),
{
    let mut out: Vec<RouteState> = Vec::new();
    let mut i: usize = 0;
    while i < routes.len()
        invariant
            i <= routes@.len(),
            out@.len() == i,
            forall|k: int|
                0 <= k < i ==> (#[trigger] out@[k]).hostname@ == routes@[k].hostname@ && out@[k].port
                    == routes@[k].port,
        decreases routes@.len() - i,
    {
        out.push(RouteState { hostname: routes[i].hostname.clone(), port: routes[i].port });
        i = i + 1;
    }
    assert(route_states(out@) =~= routes_view(routes@));
    out
}

fn copy_routes(routes: &Vec<Route>) -> (r: Vec<Route>)
    ensures
        routes_view(r@) == routes_view(routes@),
{
    let mut out: Vec<Route> = Vec::new();
    let mut i: usize = 0;
    while i < routes.len()
        invariant
            i <= routes@.len(),
            out@.len() == i,
            forall|k: int|
                0 <= k < i ==> (#[trigger] out@[k]).hostname@ == routes@[k].hostname@ && out@[k].port
                    == routes@[k].port,
        decreases routes@.len() - i,
    {
        out.push(Route { hostname: routes[i].hostname.clone(), port: routes[i].port });
        i = i + 1;
    }
    assert(routes_view(out@) =~= routes_view(routes@));
    out
}

fn copy_opt(o: &Option<String>) -> (r: Option<String>)
    ensures
        r == *o,
{
    match o {
        Some(s) => Some(s.clone()),
        None => None,
    }
}

impl Rollout {
    /// Begins the deploy of an app that the server knows.
    pub fn begin(
        ctx: DeployContext,
        config: AppConfig,
        registries: Vec<ResolvedRegistry>,
        storage_path: String,
        app: &mut Option<AppRuntimeState>,
    ) -> (r: (Rollout, Step))
        ensures
            begins(ctx, config, registries, storage_path, *old(app), r.0, *final(app), r.1),
    {
        let mut ctx = ctx;
        match app {
            Some(s) => {
                s.status = AppStatus::Deploying;
            },
            None => {},
        }
        ctx.status = DeployStatus::Pulling;
        let credentials = resolve_registry_credential(ctx.image.as_str(), &registries);
        let step = Step {
            record: true,
            action: Action::PullImage { image: ctx.image.clone(), tag: ctx.tag.clone(), credentials },
        };
        let m = Rollout {
            ctx,
            phase: Phase::PullMain,
            config,
            merged: None,
            registries,
            storage_path,
            env_vars: Vec::new(),
            old_container: None,
            old_tag: None,
            old_port: None,
            old_manifest: None,
            pod_name: String::new(),
            manifest_path: String::new(),
            healthy_routes: Vec::new(),
            http_failure: false,
            last_health_error: None,
        };
        (m, step)
    }

    /// Ends the deploy of an app that the server does not know.
    pub fn reject_unknown(ctx: &mut DeployContext, app: &mut Option<AppRuntimeState>, now: Timestamp)
        ensures
            failed_from(
                *old(ctx),
                *final(ctx),
                "[app_not_found] app '"@ + old(ctx).app@ + "' not found in config"@,
                now,
            ),
            marked_failed(*old(app), *final(app)),
    {
        let message = "[app_not_found] app '".to_owned().concat(ctx.app.as_str()).concat("' not found in config");
        ctx.fail_at(message.as_str(), now);
        mark_failed(app);
    }

    fn worker(&self) -> (r: bool)
        ensures
            r == self.is_worker(),
    {
        match &self.merged {
            Some(m) => same(m.kind.as_str(), "worker"),
            None => false,
        }
    }

    fn pod(&self) -> (r: bool)
        ensures
            r == self.is_pod(),
    {
        match &self.merged {
            Some(m) => same(m.kind.as_str(), "pod"),
            None => false,
        }
    }

    fn give_up(&mut self, app: &mut Option<AppRuntimeState>, reason: &str, now: Timestamp) -> (step: Step)
        ensures
            (Turn { pre: *old(self), post: *final(self), pre_app: *old(app), post_app: *final(app), now, step }).gives_up(
                reason@,
            ),
    {
        self.ctx.fail_at(reason, now);
        self.phase = Phase::Done;
        mark_failed(app);
        Step { record: true, action: Action::Finish }
    }

    fn complete(&mut self, now: Timestamp) -> (step: Step)
        ensures
            *final(self) == (Rollout {
                ctx: DeployContext {
                    status: DeployStatus::Completed,
                    finished_at: Some(now),
                    ..old(self).ctx
                },
                phase: Phase::Done,
                ..*old(self)
            }),
            step.record,
            step.action is Finish,
    {
        self.ctx.status = DeployStatus::Completed;
        self.ctx.finished_at = Some(now);
        self.phase = Phase::Done;
        Step { record: true, action: Action::Finish }
    }

    fn container_order(&self, tag: &str, port: u16) -> (action: Action)
        ensures
            orders_container(action, *self, tag@, port),
    {
        Action::CreateAndStart(
            CreateRequest {
                app: self.ctx.app.clone(),
                image: self.ctx.image.clone(),
                tag: tag.to_owned(),
                container_port: port,
                env_vars: copy_texts(&self.env_vars),
                network: self.config.network.name.clone(),
                resources: self.config.resources.duplicate(),
                volumes: match &self.merged {
                    Some(m) => duplicate_all(&m.volumes),
                    None => {
                        let none: Vec<MergedVolume> = Vec::new();
                        assert(none@ =~= seq![]);
                        none
                    },
                },
            },
        )
    }

    fn configured_port(&self) -> (r: u16)
        ensures
            r == port_in_force(self.config),
    {
        match self.config.routing.port {
            Some(p) => p,
            None => 0,
        }
    }

    fn wanted_port(&self) -> (r: u16)
        ensures
            r == new_container_port(*self),
    {
        if self.worker() {
            0
        } else {
            self.configured_port()
        }
    }

    fn port_live(&self) -> (r: u16)
        ensures
            r == live_port(*self),
    {
        if self.worker() {
            0
        } else {
            match self.ctx.new_port {
                Some(p) => p,
                None => 0,
            }
        }
    }

    fn routes_order(&self) -> (action: Action)
        ensures
            orders_routes(action, self.ctx.app@, container_routes(self.merged, self.config, live_port(*self))),
    {
        let port: u16 = self.port_live();
        let routes = match &self.merged {
            Some(m) => hostnames_at(&m.routes, port),
            None => {
                let mut out: Vec<Route> = Vec::new();
                let hostname = match &self.config.routing.domain {
                    Some(d) => d.clone(),
                    None => String::new(),
                };
                out.push(Route { hostname, port });
                assert(routes_view(out@) =~= container_routes(self.merged, self.config, port));
                out
            },
        };
        Action::SetRoutes { app: self.ctx.app.clone(), routes }
    }

    fn server_routes_order(&self, port: u16) -> (action: Action)
        ensures
            orders_routes(action, self.ctx.app@, server_routes(self.config, port)),
    {
        let entries = self.config.routing.effective_routes();
        let routes = entries_at(&entries, port);
        assert(routes_view(routes@) =~= server_routes(self.config, port)) by {
            let views = entries@.map_values(|e: RouteEntry| crate::config::route_entry_view(e));
            assert(views == self.config.routing.routes_in_force());
            assert forall|i: int| 0 <= i < entries@.len() implies routes_view(routes@)[i] == server_routes(
                self.config,
                port,
            )[i] by {
                assert(views[i] == crate::config::route_entry_view(entries@[i]));
            }
        }
        Action::SetRoutes { app: self.ctx.app.clone(), routes }
    }

    fn routed(&self) -> (r: bool)
        ensures
            r == is_routed(self.config),
    {
        self.config.routing.domain.is_some() || self.config.routing.routes.len() > 0
    }

    fn env_order(&self) -> (action: Action)
        ensures
            orders_env(action, *self),
    {
        Action::ReadEnv {
            env_file: match &self.config.env_file {
                Some(f) => Some(f.path.clone()),
                None => None,
            },
            app: self.ctx.app.clone(),
        }
    }

    // ── The common part ─────────────────────────────────────────────────────

    fn pull_next(&mut self, i: usize, Ghost(app): Ghost<Option<AppRuntimeState>>, Ghost(now): Ghost<Timestamp>) -> (step: Step)
        ensures
            pulls_next(
                Turn { pre: *old(self), post: *final(self), pre_app: app, post_app: app, now, step },
                i,
            ),
    {
        if i < self.ctx.images.len() {
            let full = self.ctx.images[i].1.clone();
            let (image, tag) = parse_image_ref(full.as_str());
            let credentials = resolve_registry_credential(full.as_str(), &self.registries);
            self.phase = Phase::PullSidecar(i);
            Step { record: false, action: Action::PullImage { image, tag, credentials } }
        } else {
            self.ctx.status = DeployStatus::Configuring;
            self.phase = Phase::ReadConfig;
            Step {
                record: true,
                action: Action::ReadConfig {
                    image: self.ctx.image.clone(),
                    tag: self.ctx.tag.clone(),
                    path: "/slip/slip.toml".to_owned(),
                },
            }
        }
    }

    fn pulled(
        &mut self,
        result: Result<(), RuntimeError>,
        app: &mut Option<AppRuntimeState>,
        now: Timestamp,
    ) -> (step: Step)
        requires
            old(self).awaits(Event::Pulled(result)),
        ensures
            on_pulled(
                Turn { pre: *old(self), post: *final(self), pre_app: *old(app), post_app: *final(app), now, step },
                result,
            ),
    {
        let sidecar: Option<usize> = match self.phase {
            Phase::PullSidecar(i) => Some(i),
            _ => None,
        };
        match result {
            Ok(_) => {
                let n: usize = self.ctx.images.len();
                let next: usize = match sidecar {
                    Some(i) => i + 1,
                    None => 0,
                };
                self.pull_next(next, Ghost(*app), Ghost(now))
            },
            Err(e) => {
                let reason = match sidecar {
                    Some(i) => "[pull_failed] sidecar image pull failed for '".to_owned().concat(
                        self.ctx.images[i].0.as_str(),
                    ).concat("': ").concat(e.message().as_str()),
                    None => "[pull_failed] image pull failed: ".to_owned().concat(e.message().as_str()),
                };
                self.give_up(app, reason.as_str(), now)
            },
        }
    }

    fn configured(
        &mut self,
        outcome: ConfigOutcome,
        app: &mut Option<AppRuntimeState>,
        now: Timestamp,
    ) -> (step: Step)
        ensures
            on_config(
                Turn { pre: *old(self), post: *final(self), pre_app: *old(app), post_app: *final(app), now, step },
                outcome,
            ),
    {
        match outcome {
            ConfigOutcome::Parsed(repo) => {
                if !same(repo.app.name.as_str(), self.ctx.app.as_str()) {
                    let reason = "[config_mismatch] repo config app name '".to_owned().concat(
                        repo.app.name.as_str(),
                    ).concat("' does not match deploy app '").concat(self.ctx.app.as_str()).concat("'");
                    return self.give_up(app, reason.as_str(), now);
                }
                match merge_config(&self.config, &repo) {
                    Ok(m) => {
                        self.config = m.app.duplicate();
                        self.merged = Some(m);
                        self.phase = Phase::ReadEnv;
                        Step { record: false, action: self.env_order() }
                    },
                    Err(e) => {
                        let reason = "[config_merge_failed] config merge failed: ".to_owned().concat(
                            e.message().as_str(),
                        );
                        self.give_up(app, reason.as_str(), now)
                    },
                }
            },
            ConfigOutcome::ParseFailed(e) => {
                let reason = "[config_parse_failed] failed to parse repo config: ".to_owned().concat(e.as_str());
                self.give_up(app, reason.as_str(), now)
            },
            ConfigOutcome::Absent => {
                self.phase = Phase::ReadEnv;
                Step { record: false, action: self.env_order() }
            },
            ConfigOutcome::ExtractFailed(e) => {
                match e {
                    RuntimeError::Unsupported(_) => {
                        self.phase = Phase::ReadEnv;
                        Step { record: false, action: self.env_order() }
                    },
                    other => {
                        let reason = "[config_extract_failed] failed to extract config from image: ".to_owned().concat(
                            other.message().as_str(),
                        );
                        self.give_up(app, reason.as_str(), now)
                    },
                }
            },
        }
    }

    fn routing_set(&self) -> (r: bool)
        ensures
            r == has_routing(self.config),
    {
        if self.config.routing.routes.len() > 0 {
            return true;
        }
        let domain: bool = match &self.config.routing.domain {
            Some(d) => !d.as_str().is_empty(),
            None => false,
        };
        let port: bool = match self.config.routing.port {
            Some(p) => p > 0,
            None => false,
        };
        domain && port
    }

    fn env_read(
        &mut self,
        file: Option<String>,
        secrets: Option<Vec<(String, String)>>,
        app: &mut Option<AppRuntimeState>,
        now: Timestamp,
    ) -> (step: Step)
        ensures
            on_env(
                Turn { pre: *old(self), post: *final(self), pre_app: *old(app), post_app: *final(app), now, step },
                file,
                secrets,
            ),
    {
        self.env_vars = resolve_env_vars_for_app(&self.config, &file, &secrets);
        let pod: bool = self.pod();
        if !self.worker() && !self.routing_set() {
            return self.give_up(
                app,
                "[routing_missing] HTTP app requires routing.domain+port or [[routing.routes]]",
                now,
            );
        }
        let blue: bool = same(self.config.deploy.strategy.as_str(), "blue-green");
        let recreate: bool = same(self.config.deploy.strategy.as_str(), "recreate");
        if pod && (blue || recreate) {
            self.start_pod(app, now)
        } else if blue {
            self.start_blue_green(Ghost(*app), Ghost(now))
        } else if recreate {
            self.start_recreate(app, Ghost(now))
        } else {
            let reason = "[unknown_strategy] unknown deploy strategy: ".to_owned().concat(
                self.config.deploy.strategy.as_str(),
            );
            self.give_up(app, reason.as_str(), now)
        }
    }

    // ── Blue-green, one container ───────────────────────────────────────────

    fn start_blue_green(&mut self, Ghost(app): Ghost<Option<AppRuntimeState>>, Ghost(now): Ghost<Timestamp>) -> (step: Step)
        ensures
            starts_blue_green(
                Turn { pre: *old(self), post: *final(self), pre_app: app, post_app: app, now, step },
            ),
    {
        let port: u16 = self.wanted_port();
        let action = self.container_order(self.ctx.tag.as_str(), port);
        self.ctx.status = DeployStatus::Starting;
        self.phase = Phase::BlueCreate;
        Step { record: true, action }
    }

    fn note_container(&mut self, id: String, port: u16)
        ensures
            *final(self) == (Rollout { ctx: with_container(*old(self), id, port), ..*old(self) }),
    {
        let worker: bool = self.worker();
        self.ctx.new_container_id = Some(id);
        if !worker {
            self.ctx.new_port = Some(port);
        }
        self.ctx.status = DeployStatus::HealthChecking;
    }

    fn blue_created(
        &mut self,
        result: Result<(String, u16), RuntimeError>,
        app: &mut Option<AppRuntimeState>,
        now: Timestamp,
    ) -> (step: Step)
        ensures
            on_blue_created(
                Turn { pre: *old(self), post: *final(self), pre_app: *old(app), post_app: *final(app), now, step },
                result,
            ),
    {
        match result {
            Ok((id, port)) => {
                let container = id.clone();
                let worker: bool = self.worker();
                self.note_container(id, port);
                if worker {
                    self.phase = Phase::BlueWorkerRunning;
                    Step { record: true, action: Action::ContainerIsRunning { container } }
                } else {
                    self.phase = Phase::BlueHealth;
                    Step { record: true, action: Action::CheckHealth { port } }
                }
            },
            Err(e) => {
                let reason = "[container_start_failed] container start failed: ".to_owned().concat(
                    e.message().as_str(),
                );
                self.give_up(app, reason.as_str(), now)
            },
        }
    }

    fn go_live(&self, app: &mut Option<AppRuntimeState>, port: u16, now: Timestamp) -> (action: Action)
        ensures
            switched(*old(app), *final(app), *self, port, now),
            orders_save(action, self.ctx.app@, *final(app)),
    {
        let routes: Vec<RouteState> = match &self.merged {
            Some(m) => {
                let r = hostnames_at(&m.routes, port);
                as_states(&r)
            },
            None => {
                let none: Vec<RouteState> = Vec::new();
                assert(route_states(none@) =~= seq![]);
                none
            },
        };
        let mut state: Option<AppRuntimeState> = None;
        core::mem::swap(&mut state, app);
        let s = match state {
            Some(s) => s,
            None => AppRuntimeState::default(),
        };
        let next = AppRuntimeState {
            status: AppStatus::Running,
            current_tag: Some(self.ctx.tag.clone()),
            previous_tag: s.current_tag,
            current_container_id: copy_opt(&self.ctx.new_container_id),
            previous_container_id: s.current_container_id,
            current_port: if self.worker() {
                None
            } else {
                self.ctx.new_port
            },
            current_routes: routes,
            deployed_at: Some(now),
            deploy_id: Some(self.ctx.id.clone()),
            current_pod_name: s.current_pod_name,
            current_manifest_path: s.current_manifest_path,
            kind: match &self.merged {
                Some(m) => Some(m.kind.clone()),
                None => None,
            },
            last_applied: s.last_applied,
        };
        let saved = next.duplicate();
        *app = Some(next);
        Action::SaveState { app: self.ctx.app.clone(), state: saved }
    }

    fn switch_blue(&mut self, app: &mut Option<AppRuntimeState>, now: Timestamp) -> (step: Step)
        ensures
            switches_blue(
                Turn { pre: *old(self), post: *final(self), pre_app: *old(app), post_app: *final(app), now, step },
            ),
    {
        let old: Option<String> = match app {
            Some(s) => copy_opt(&s.current_container_id),
            None => None,
        };
        let action = if self.worker() {
            self.go_live(app, self.port_live(), now)
        } else {
            self.routes_order()
        };
        self.phase = if self.worker() {
            Phase::BlueSave
        } else {
            Phase::BlueRoutes
        };
        self.ctx.status = DeployStatus::Switching;
        self.old_container = old;
        Step { record: true, action }
    }

    fn blue_running(
        &mut self,
        result: Result<bool, RuntimeError>,
        app: &mut Option<AppRuntimeState>,
        now: Timestamp,
    ) -> (step: Step)
        ensures
            on_blue_running(
                Turn { pre: *old(self), post: *final(self), pre_app: *old(app), post_app: *final(app), now, step },
                result,
            ),
    {
        let starting: bool = matches!(self.phase, Phase::BlueWorkerRunning);
        match result {
            Ok(true) => self.switch_blue(app, now),
            Ok(false) => self.give_up(
                app,
                if starting {
                    "[container_exited] worker container exited during start"
                } else {
                    "[container_exited] container exited during health check"
                },
                now,
            ),
            Err(e) => {
                let reason = if starting {
                    "[container_state_failed] worker container state check failed: ".to_owned().concat(
                        e.message().as_str(),
                    )
                } else {
                    "[container_state_failed] container state check failed: ".to_owned().concat(
                        e.message().as_str(),
                    )
                };
                self.give_up(app, reason.as_str(), now)
            },
        }
    }

    fn discard(&mut self, reason: String, app: &mut Option<AppRuntimeState>, now: Timestamp) -> (step: Step)
        ensures
            discards(
                Turn { pre: *old(self), post: *final(self), pre_app: *old(app), post_app: *final(app), now, step },
                reason@,
            ),
    {
        match copy_opt(&self.ctx.new_container_id) {
            Some(container) => {
                self.phase = Phase::Discard(reason);
                Step { record: false, action: Action::StopAndRemove { container } }
            },
            None => self.give_up(app, reason.as_str(), now),
        }
    }

    fn blue_health(
        &mut self,
        result: Result<(), HealthError>,
        app: &mut Option<AppRuntimeState>,
        now: Timestamp,
    ) -> (step: Step)
        ensures
            on_blue_health(
                Turn { pre: *old(self), post: *final(self), pre_app: *old(app), post_app: *final(app), now, step },
                result,
            ),
    {
        match result {
            Err(e) => self.discard(format_health_reason(&e), app, now),
            Ok(_) => match copy_opt(&self.ctx.new_container_id) {
                Some(container) => {
                    self.phase = Phase::BlueRunning;
                    Step { record: false, action: Action::ContainerIsRunning { container } }
                },
                None => self.switch_blue(app, now),
            },
        }
    }

    fn blue_routes(
        &mut self,
        result: Result<(), CaddyError>,
        app: &mut Option<AppRuntimeState>,
        now: Timestamp,
    ) -> (step: Step)
        ensures
            on_blue_routes(
                Turn { pre: *old(self), post: *final(self), pre_app: *old(app), post_app: *final(app), now, step },
                result,
            ),
    {
        match result {
            Err(e) => self.discard(
                "caddy route update failed: ".to_owned().concat(e.message().as_str()),
                app,
                now,
            ),
            Ok(_) => {
                let action = self.go_live(app, self.port_live(), now);
                self.phase = Phase::BlueSave;
                Step { record: false, action }
            },
        }
    }

    fn blue_over(&mut self, Ghost(app): Ghost<Option<AppRuntimeState>>, now: Timestamp) -> (step: Step)
        ensures
            on_blue_over(
                Turn { pre: *old(self), post: *final(self), pre_app: app, post_app: app, now, step },
            ),
    {
        match &self.phase {
            Phase::BlueSave => match copy_opt(&self.old_container) {
                Some(old) => {
                    self.phase = Phase::BlueDrain(old);
                    Step { record: false, action: Action::Drain { wait: self.config.deploy.drain_timeout } }
                },
                None => self.complete(now),
            },
            Phase::BlueDrain(old) => {
                let container = old.clone();
                self.phase = Phase::BlueStopOld;
                Step { record: false, action: Action::StopAndRemove { container } }
            },
            _ => self.complete(now),
        }
    }

    // ── Recreate, one container ─────────────────────────────────────────────

    fn start_recreate(&mut self, app: &Option<AppRuntimeState>, Ghost(now): Ghost<Timestamp>) -> (step: Step)
        ensures
            starts_recreate(
                Turn { pre: *old(self), post: *final(self), pre_app: *app, post_app: *app, now, step },
            ),
    {
        match app {
            Some(s) => {
                self.old_container = copy_opt(&s.current_container_id);
                self.old_tag = copy_opt(&s.current_tag);
            },
            None => {
                self.old_container = None;
                self.old_tag = None;
            },
        }
        match copy_opt(&self.old_container) {
            Some(container) => {
                self.ctx.status = DeployStatus::StoppingOld;
                self.phase = Phase::RecreateStop;
                Step { record: true, action: Action::StopContainer { container } }
            },
            None => self.remove_route(Ghost(*app), Ghost(now)),
        }
    }

    fn remove_route(&mut self, Ghost(app): Ghost<Option<AppRuntimeState>>, Ghost(now): Ghost<Timestamp>) -> (step: Step)
        ensures
            removes_route(
                Turn { pre: *old(self), post: *final(self), pre_app: app, post_app: app, now, step },
            ),
    {
        self.ctx.status = DeployStatus::RemovingRoute;
        self.phase = Phase::RecreateRemoveRoute;
        Step { record: true, action: Action::RemoveRoute { app: self.ctx.app.clone() } }
    }

    fn recreate_stopped(
        &mut self,
        result: Result<(), RuntimeError>,
        app: &mut Option<AppRuntimeState>,
        now: Timestamp,
    ) -> (step: Step)
        ensures
            on_recreate_stopped(
                Turn { pre: *old(self), post: *final(self), pre_app: *old(app), post_app: *final(app), now, step },
                result,
            ),
    {
        match result {
            Ok(_) => self.remove_route(Ghost(*app), Ghost(now)),
            Err(e) => {
                let reason = "[container_stop_failed] failed to stop old container: ".to_owned().concat(
                    e.message().as_str(),
                );
                self.give_up(app, reason.as_str(), now)
            },
        }
    }

    fn recreate_created(
        &mut self,
        result: Result<(String, u16), RuntimeError>,
        app: &mut Option<AppRuntimeState>,
        now: Timestamp,
    ) -> (step: Step)
        ensures
            on_recreate_created(
                Turn { pre: *old(self), post: *final(self), pre_app: *old(app), post_app: *final(app), now, step },
                result,
            ),
    {
        match result {
            Ok((id, port)) => {
                let container = id.clone();
                let kept = id.clone();
                let worker: bool = self.worker();
                self.note_container(id, port);
                if worker {
                    self.phase = Phase::RecreateWorkerRunning { container: kept, port };
                    Step { record: true, action: Action::ContainerIsRunning { container } }
                } else {
                    self.phase = Phase::RecreateHealth { container: kept, port };
                    Step { record: true, action: Action::CheckHealth { port } }
                }
            },
            Err(_) => self.roll_back(app, now),
        }
    }

    fn recreate_discard(&mut self, container: String, Ghost(app): Ghost<Option<AppRuntimeState>>, Ghost(now): Ghost<Timestamp>) -> (step: Step)
        ensures
            recreate_discards(
                Turn { pre: *old(self), post: *final(self), pre_app: app, post_app: app, now, step },
                container@,
            ),
    {
        self.phase = Phase::RecreateDiscard;
        Step { record: false, action: Action::StopAndRemove { container } }
    }

    fn switch_recreate(
        &mut self,
        container: String,
        port: u16,
        app: &mut Option<AppRuntimeState>,
        now: Timestamp,
    ) -> (step: Step)
        ensures
            switches_recreate(
                Turn { pre: *old(self), post: *final(self), pre_app: *old(app), post_app: *final(app), now, step },
                container@,
                port,
            ),
    {
        let worker: bool = self.worker();
        let action = if worker {
            self.go_live(app, port, now)
        } else {
            self.routes_order()
        };
        self.phase = if worker {
            Phase::RecreateSave
        } else {
            Phase::RecreateRoutes { container }
        };
        self.ctx.status = DeployStatus::Switching;
        Step { record: true, action }
    }

    fn recreate_running(
        &mut self,
        result: Result<bool, RuntimeError>,
        app: &mut Option<AppRuntimeState>,
        now: Timestamp,
    ) -> (step: Step)
        requires
            old(self).phase is RecreateWorkerRunning || old(self).phase is RecreateRunning,
        ensures
            on_recreate_running(
                Turn { pre: *old(self), post: *final(self), pre_app: *old(app), post_app: *final(app), now, step },
                result,
            ),
    {
        let (container, port, fine): (String, u16, bool) = match &self.phase {
            Phase::RecreateWorkerRunning { container, port } => (
                container.clone(),
                *port,
                match result {
                    Ok(running) => running,
                    Err(_) => false,
                },
            ),
            Phase::RecreateRunning { container, port, healthy } => (
                container.clone(),
                *port,
                *healthy && match result {
                    Ok(running) => running,
                    Err(_) => true,
                },
            ),
            _ => (String::new(), 0, false),
        };
        if fine {
            self.switch_recreate(container, port, app, now)
        } else {
            self.recreate_discard(container, Ghost(*app), Ghost(now))
        }
    }

    fn recreate_health(
        &mut self,
        result: Result<(), HealthError>,
        Ghost(app): Ghost<Option<AppRuntimeState>>,
        Ghost(now): Ghost<Timestamp>,
    ) -> (step: Step)
        requires
            old(self).phase is RecreateHealth,
        ensures
            on_recreate_health(
                Turn { pre: *old(self), post: *final(self), pre_app: app, post_app: app, now, step },
                result,
            ),
    {
        let (id, port): (String, u16) = match &self.phase {
            Phase::RecreateHealth { container, port } => (container.clone(), *port),
            _ => (String::new(), 0),
        };
        let container = id.clone();
        self.phase = Phase::RecreateRunning { container: id, port, healthy: result.is_ok() };
        Step { record: false, action: Action::ContainerIsRunning { container } }
    }

    fn recreate_routes(
        &mut self,
        result: Result<(), CaddyError>,
        app: &mut Option<AppRuntimeState>,
        now: Timestamp,
    ) -> (step: Step)
        requires
            old(self).phase is RecreateRoutes,
        ensures
            on_recreate_routes(
                Turn { pre: *old(self), post: *final(self), pre_app: *old(app), post_app: *final(app), now, step },
                result,
            ),
    {
        let container: String = match &self.phase {
            Phase::RecreateRoutes { container } => container.clone(),
            _ => String::new(),
        };
        match result {
            Err(_) => self.recreate_discard(container, Ghost(*app), Ghost(now)),
            Ok(_) => {
                let action = self.go_live(app, self.port_live(), now);
                self.phase = Phase::RecreateSave;
                Step { record: false, action }
            },
        }
    }

    fn recreate_over(&mut self, app: &mut Option<AppRuntimeState>, now: Timestamp) -> (step: Step)
        ensures
            on_recreate_over(
                Turn { pre: *old(self), post: *final(self), pre_app: *old(app), post_app: *final(app), now, step },
            ),
    {
        match &self.phase {
            Phase::RecreateRemoveRoute => {
                let port: u16 = self.wanted_port();
                let action = self.container_order(self.ctx.tag.as_str(), port);
                self.ctx.status = DeployStatus::Starting;
                self.phase = Phase::RecreateCreate;
                Step { record: true, action }
            },
            Phase::RecreateDiscard => self.roll_back(app, now),
            Phase::RecreateSave => match copy_opt(&self.old_container) {
                Some(container) => {
                    self.phase = Phase::RecreateRemoveOld;
                    Step { record: false, action: Action::StopAndRemove { container } }
                },
                None => self.complete(now),
            },
            _ => self.complete(now),
        }
    }

    // ── Rollback ────────────────────────────────────────────────────────────

    fn roll_back(&mut self, app: &mut Option<AppRuntimeState>, now: Timestamp) -> (step: Step)
        ensures
            rolls_back(
                Turn { pre: *old(self), post: *final(self), pre_app: *old(app), post_app: *final(app), now, step },
            ),
    {
        self.old_port = match app {
            Some(s) => s.current_port,
            None => None,
        };
        match copy_opt(&self.old_container) {
            Some(container) => {
                self.ctx.status = DeployStatus::RestartingOld;
                self.phase = Phase::RestartOld(container.clone());
                Step { record: true, action: Action::StartContainer { container } }
            },
            None => self.fall_back(app, now),
        }
    }

    fn fall_back(&mut self, app: &mut Option<AppRuntimeState>, now: Timestamp) -> (step: Step)
        ensures
            falls_back(
                Turn { pre: *old(self), post: *final(self), pre_app: *old(app), post_app: *final(app), now, step },
            ),
    {
        match copy_opt(&self.old_tag) {
            Some(tag) => {
                let port: u16 = self.configured_port();
                let action = self.container_order(tag.as_str(), port);
                self.phase = Phase::FallbackCreate(tag);
                Step { record: false, action }
            },
            None => self.go_down(app, now),
        }
    }

    fn go_down(&mut self, app: &mut Option<AppRuntimeState>, now: Timestamp) -> (step: Step)
        ensures
            is_down(
                Turn { pre: *old(self), post: *final(self), pre_app: *old(app), post_app: *final(app), now, step },
            ),
    {
        self.ctx.rollback_failed = true;
        self.give_up(
            app,
            "[rollback_failed] deploy failed, rollback failed \u{2014} manual intervention required",
            now,
        )
    }

    fn restarted(
        &mut self,
        result: Result<(), RuntimeError>,
        app: &mut Option<AppRuntimeState>,
        now: Timestamp,
    ) -> (step: Step)
        requires
            old(self).phase is RestartOld,
        ensures
            on_restarted(
                Turn { pre: *old(self), post: *final(self), pre_app: *old(app), post_app: *final(app), now, step },
                result,
            ),
    {
        let container: String = match &self.phase {
            Phase::RestartOld(id) => id.clone(),
            _ => String::new(),
        };
        match result {
            Ok(_) => {
                let container_port: u16 = self.configured_port();
                self.phase = Phase::RestartPort;
                Step { record: false, action: Action::InspectPort { container, container_port } }
            },
            Err(_) => self.fall_back(app, now),
        }
    }

    fn restore(&mut self, app: &mut Option<AppRuntimeState>, now: Timestamp) -> (step: Step)
        ensures
            is_restored(
                Turn { pre: *old(self), post: *final(self), pre_app: *old(app), post_app: *final(app), now, step },
            ),
    {
        self.give_up(app, "[rollback_tier1] deploy failed, old container restarted (Tier 1 rollback)", now)
    }

    fn restart_port(
        &mut self,
        result: Result<u16, RuntimeError>,
        app: &mut Option<AppRuntimeState>,
        now: Timestamp,
    ) -> (step: Step)
        ensures
            on_restart_port(
                Turn { pre: *old(self), post: *final(self), pre_app: *old(app), post_app: *final(app), now, step },
                result,
            ),
    {
        let port: u16 = match (&result, self.old_port) {
            (Ok(p), _) => *p,
            (Err(_), Some(p)) => p,
            (Err(_), None) => 0,
        };
        if self.routed() {
            let action = self.server_routes_order(port);
            self.phase = Phase::RestartRoutes;
            Step { record: false, action }
        } else {
            self.restore(app, now)
        }
    }

    fn fallback_created(
        &mut self,
        result: Result<(String, u16), RuntimeError>,
        app: &mut Option<AppRuntimeState>,
        now: Timestamp,
    ) -> (step: Step)
        requires
            old(self).phase is FallbackCreate,
        ensures
            on_fallback_created(
                Turn { pre: *old(self), post: *final(self), pre_app: *old(app), post_app: *final(app), now, step },
                result,
            ),
    {
        let tag: String = match &self.phase {
            Phase::FallbackCreate(t) => t.clone(),
            _ => String::new(),
        };
        match result {
            Ok((container, port)) => {
                if self.config.health.path.is_some() {
                    self.phase = Phase::FallbackHealth { container, port, tag };
                    Step { record: false, action: Action::CheckHealth { port } }
                } else {
                    self.route_fallback(container, port, tag, app, now)
                }
            },
            Err(_) => self.go_down(app, now),
        }
    }

    fn route_fallback(
        &mut self,
        container: String,
        port: u16,
        tag: String,
        app: &mut Option<AppRuntimeState>,
        now: Timestamp,
    ) -> (step: Step)
        ensures
            routes_fallback(
                Turn { pre: *old(self), post: *final(self), pre_app: *old(app), post_app: *final(app), now, step },
                container@,
                port,
                tag@,
            ),
    {
        if self.routed() {
            let action = self.server_routes_order(port);
            self.phase = Phase::FallbackRoutes { container, port, tag };
            Step { record: false, action }
        } else {
            self.replace_old(container, port, tag, app, now)
        }
    }

    fn replace_old(
        &mut self,
        container: String,
        port: u16,
        tag: String,
        app: &mut Option<AppRuntimeState>,
        now: Timestamp,
    ) -> (step: Step)
        ensures
            is_replaced(
                Turn { pre: *old(self), post: *final(self), pre_app: *old(app), post_app: *final(app), now, step },
                container@,
                port,
                tag@,
            ),
    {
        match app {
            Some(s) => {
                s.current_container_id = Some(container);
                s.current_port = Some(port);
                s.current_tag = Some(tag);
            },
            None => {},
        }
        self.give_up(
            app,
            "[rollback_tier2] deploy failed, fallback from previous_tag (Tier 2 rollback)",
            now,
        )
    }

    fn fallback_health(
        &mut self,
        result: Result<(), HealthError>,
        app: &mut Option<AppRuntimeState>,
        now: Timestamp,
    ) -> (step: Step)
        requires
            old(self).phase is FallbackHealth,
        ensures
            on_fallback_health(
                Turn { pre: *old(self), post: *final(self), pre_app: *old(app), post_app: *final(app), now, step },
                result,
            ),
    {
        let (container, port, tag): (String, u16, String) = match &self.phase {
            Phase::FallbackHealth { container, port, tag } => (container.clone(), *port, tag.clone()),
            _ => (String::new(), 0, String::new()),
        };
        match result {
            Ok(_) => self.route_fallback(container, port, tag, app, now),
            Err(_) => {
                self.phase = Phase::FallbackStop;
                Step { record: false, action: Action::StopAndRemove { container } }
            },
        }
    }

    // ── Blue-green, a pod ───────────────────────────────────────────────────

    fn start_pod(&mut self, app: &mut Option<AppRuntimeState>, now: Timestamp) -> (step: Step)
        requires
            old(self).merged is Some,
        ensures
            starts_pod(
                Turn { pre: *old(self), post: *final(self), pre_app: *old(app), post_app: *final(app), now, step },
            ),
    {
        let manifest: Option<String> = match &self.merged {
            Some(m) => copy_opt(&m.manifest),
            None => None,
        };
        self.ctx.status = DeployStatus::Starting;
        match manifest {
            Some(path) => {
                self.phase = Phase::PodManifest;
                Step {
                    record: true,
                    action: Action::ExtractFile { image: self.ctx.image.clone(), tag: self.ctx.tag.clone(), path },
                }
            },
            None => {
                self.phase = Phase::PodUnnamed;
                Step { record: true, action: Action::Proceed }
            },
        }
    }

    fn manifest_extracted(
        &mut self,
        result: Result<Option<Vec<u8>>, RuntimeError>,
        suffix: &str,
        app: &mut Option<AppRuntimeState>,
        now: Timestamp,
    ) -> (step: Step)
        requires
            old(self).merged is Some,
        ensures
            on_manifest(
                Turn { pre: *old(self), post: *final(self), pre_app: *old(app), post_app: *final(app), now, step },
                result,
                suffix@,
            ),
    {
        match result {
            Ok(Some(bytes)) => {
                let render_ctx = RenderContext {
                    app_name: self.ctx.app.clone(),
                    tag: self.ctx.tag.clone(),
                    primary_image: self.config.app.image.clone(),
                    pod_suffix: suffix.to_owned(),
                    env_vars: copy_texts(&self.env_vars),
                    image_overrides: crate::config::copy_pairs(&self.ctx.images),
                    volumes: match &self.merged {
                        Some(m) => duplicate_all(&m.volumes),
                        None => Vec::new(),
                    },
                };
                assert(renders_with(render_ctx, *self, suffix@));
                match render_manifest(bytes.as_slice(), &render_ctx) {
                    Ok(text) => {
                        let directory = join_path(self.storage_path.as_str(), "manifests");
                        let file = self.ctx.app.clone().concat("-").concat(self.ctx.id.as_str()).concat(".yaml");
                        let path = join_path(directory.as_str(), file.as_str());
                        self.pod_name = self.ctx.app.clone().concat("-").concat(suffix);
                        self.manifest_path = path.clone();
                        self.phase = Phase::PodWrite;
                        Step { record: false, action: Action::WriteManifest { directory, path, text } }
                    },
                    Err(e) => {
                        let reason = "[manifest_render_failed] failed to render manifest: ".to_owned().concat(
                            e.message().as_str(),
                        );
                        self.give_up(app, reason.as_str(), now)
                    },
                }
            },
            Ok(None) => {
                let path: String = match &self.merged {
                    Some(m) => match &m.manifest {
                        Some(p) => p.clone(),
                        None => String::new(),
                    },
                    None => String::new(),
                };
                let reason = "[manifest_not_found] manifest '".to_owned().concat(path.as_str()).concat(
                    "' not found in image",
                );
                self.give_up(app, reason.as_str(), now)
            },
            Err(e) => {
                let reason = "[manifest_extract_failed] failed to extract manifest from image: ".to_owned().concat(
                    e.message().as_str(),
                );
                self.give_up(app, reason.as_str(), now)
            },
        }
    }

    fn manifest_written(
        &mut self,
        outcome: WriteOutcome,
        app: &mut Option<AppRuntimeState>,
        now: Timestamp,
    ) -> (step: Step)
        ensures
            on_written(
                Turn { pre: *old(self), post: *final(self), pre_app: *old(app), post_app: *final(app), now, step },
                outcome,
            ),
    {
        match outcome {
            WriteOutcome::Written => {
                self.phase = Phase::PodDeploy;
                Step {
                    record: false,
                    action: Action::DeployPod {
                        manifest: self.manifest_path.clone(),
                        pod: self.pod_name.clone(),
                    },
                }
            },
            WriteOutcome::DirectoryFailed(e) => {
                let reason = "[manifest_dir_failed] failed to create manifests directory: ".to_owned().concat(
                    e.as_str(),
                );
                self.give_up(app, reason.as_str(), now)
            },
            WriteOutcome::FileFailed(e) => {
                let reason = "[manifest_write_failed] failed to write manifest file: ".to_owned().concat(e.as_str());
                self.give_up(app, reason.as_str(), now)
            },
        }
    }

    fn pod_deployed(
        &mut self,
        result: Result<(), RuntimeError>,
        app: &mut Option<AppRuntimeState>,
        now: Timestamp,
    ) -> (step: Step)
        requires
            old(self).merged is Some,
        ensures
            on_pod_deployed(
                Turn { pre: *old(self), post: *final(self), pre_app: *old(app), post_app: *final(app), now, step },
                result,
            ),
    {
        match result {
            Err(e) => {
                let reason = "[pod_deploy_failed] pod deploy failed: ".to_owned().concat(e.message().as_str());
                self.give_up(app, reason.as_str(), now)
            },
            Ok(_) => {
                self.ctx.new_pod_name = Some(self.pod_name.clone());
                self.ctx.new_manifest_path = Some(self.manifest_path.clone());
                self.ctx.status = DeployStatus::HealthChecking;
                let bare: bool = match &self.merged {
                    Some(m) => m.routes.len() == 0,
                    None => true,
                };
                if bare {
                    self.phase = Phase::PodBare;
                    Step { record: true, action: Action::Proceed }
                } else {
                    self.ask_route(0, true, app, now)
                }
            },
        }
    }

    fn ask_route(
        &mut self,
        i: usize,
        record: bool,
        app: &mut Option<AppRuntimeState>,
        now: Timestamp,
    ) -> (step: Step)
        requires
            old(self).merged is Some,
        ensures
            asks_route(
                Turn { pre: *old(self), post: *final(self), pre_app: *old(app), post_app: *final(app), now, step },
                i as int,
                record,
            ),
            old(self).pod_kept(*final(self)),
    {
        let asked: Option<(bool, String, u16)> = match &self.merged {
            Some(m) => {
                if i < m.routes.len() {
                    let r = &m.routes[i];
                    let container = match &r.container {
                        Some(c) => c.clone(),
                        None => "web".to_owned(),
                    };
                    Some((same(r.kind.as_str(), "worker"), container, r.port))
                } else {
                    None
                }
            },
            None => None,
        };
        match asked {
            Some((true, container, _)) => {
                self.phase = Phase::PodWorker(i);
                let name = self.pod_name.clone().concat("-").concat(container.as_str());
                Step { record, action: Action::ContainerIsRunning { container: name } }
            },
            Some((false, container, container_port)) => {
                self.phase = Phase::PodPort(i);
                Step {
                    record,
                    action: Action::PodContainerPort { pod: self.pod_name.clone(), container, container_port },
                }
            },
            None => self.judge_pod(app, now),
        }
    }

    /// Whether the parts of a pod deploy that its routes do not change are the
    /// same in two machines.
    pub open spec fn pod_kept(self, other: Rollout) -> bool {
        &&& other.healthy_routes == self.healthy_routes
        &&& other.ctx.new_pod_name == self.ctx.new_pod_name
        &&& other.ctx.new_manifest_path == self.ctx.new_manifest_path
    }

    fn judge_pod(&mut self, app: &mut Option<AppRuntimeState>, now: Timestamp) -> (step: Step)
        ensures
            judges_pod(
                Turn { pre: *old(self), post: *final(self), pre_app: *old(app), post_app: *final(app), now, step },
            ),
            old(self).pod_kept(*final(self)),
    {
        if self.http_failure {
            let reason = match &self.last_health_error {
                Some(e) => format_health_reason(e),
                None => "[health_check_failed] health check failed for one or more HTTP containers".to_owned(),
            };
            self.phase = Phase::PodDiscard(reason);
            return Step { record: false, action: Action::TeardownPod { manifest: self.manifest_path.clone() } };
        }
        self.ctx.new_port = if self.healthy_routes.len() > 0 {
            Some(self.healthy_routes[0].port)
        } else {
            None
        };
        self.ctx.status = DeployStatus::Switching;
        self.old_manifest = match app {
            Some(s) => copy_opt(&s.current_manifest_path),
            None => None,
        };
        if self.healthy_routes.len() > 0 {
            self.phase = Phase::PodRoutes;
            Step {
                record: true,
                action: Action::SetRoutes {
                    app: self.ctx.app.clone(),
                    routes: copy_routes(&self.healthy_routes),
                },
            }
        } else {
            let action = self.pod_go_live(app, now);
            self.phase = Phase::PodSave;
            Step { record: true, action }
        }
    }

    fn pod_go_live(&self, app: &mut Option<AppRuntimeState>, now: Timestamp) -> (action: Action)
        ensures
            pod_switched(*old(app), *final(app), *self, now),
            orders_save(action, self.ctx.app@, *final(app)),
    {
        let mut state: Option<AppRuntimeState> = None;
        core::mem::swap(&mut state, app);
        let s = match state {
            Some(s) => s,
            None => AppRuntimeState::default(),
        };
        let next = AppRuntimeState {
            status: AppStatus::Running,
            current_tag: Some(self.ctx.tag.clone()),
            previous_tag: s.current_tag,
            current_container_id: s.current_container_id,
            previous_container_id: s.previous_container_id,
            current_port: if self.healthy_routes.len() > 0 {
                Some(self.healthy_routes[0].port)
            } else {
                None
            },
            current_routes: as_states(&self.healthy_routes),
            deployed_at: Some(now),
            deploy_id: Some(self.ctx.id.clone()),
            current_pod_name: Some(self.pod_name.clone()),
            current_manifest_path: Some(self.manifest_path.clone()),
            kind: match &self.merged {
                Some(m) => Some(m.kind.clone()),
                None => None,
            },
            last_applied: s.last_applied,
        };
        let saved = next.duplicate();
        *app = Some(next);
        Action::SaveState { app: self.ctx.app.clone(), state: saved }
    }

    fn pod_port(
        &mut self,
        i: usize,
        result: Result<u16, RuntimeError>,
        app: &mut Option<AppRuntimeState>,
        now: Timestamp,
    ) -> (step: Step)
        requires
            old(self).has_route(i),
        ensures
            on_pod_port(
                Turn { pre: *old(self), post: *final(self), pre_app: *old(app), post_app: *final(app), now, step },
                i,
                result,
            ),
    {
        match result {
            Ok(port) => {
                self.phase = Phase::PodHealth { route: i, port };
                Step { record: false, action: Action::CheckHealth { port } }
            },
            Err(_) => {
                self.http_failure = true;
                self.next_route(i, app, now)
            },
        }
    }

    fn next_route(&mut self, i: usize, app: &mut Option<AppRuntimeState>, now: Timestamp) -> (step: Step)
        requires
            old(self).has_route(i),
        ensures
            asks_route(
                Turn { pre: *old(self), post: *final(self), pre_app: *old(app), post_app: *final(app), now, step },
                i + 1,
                false,
            ),
            old(self).pod_kept(*final(self)),
    {
        let n: usize = match &self.merged {
            Some(m) => m.routes.len(),
            None => 0,
        };
        assert(i < n);
        self.ask_route(i + 1, false, app, now)
    }

    fn pod_health(
        &mut self,
        i: usize,
        port: u16,
        result: Result<(), HealthError>,
        app: &mut Option<AppRuntimeState>,
        now: Timestamp,
    ) -> (step: Step)
        requires
            old(self).has_route(i),
        ensures
            on_pod_health(
                Turn { pre: *old(self), post: *final(self), pre_app: *old(app), post_app: *final(app), now, step },
                i,
                port,
                result,
            ),
    {
        match result {
            Err(e) => {
                self.http_failure = true;
                self.last_health_error = Some(e);
                self.next_route(i, app, now)
            },
            Ok(_) => {
                let hostname: String = match &self.merged {
                    Some(m) => m.routes[i].hostname.clone(),
                    None => String::new(),
                };
                let ghost before = self.healthy_routes@;
                let route = Route { hostname, port };
                self.healthy_routes.push(route);
                assert(routes_view(self.healthy_routes@) =~= routes_view(before).push((route.hostname@, port)));
                self.next_route(i, app, now)
            },
        }
    }

    fn pod_routes(
        &mut self,
        result: Result<(), CaddyError>,
        app: &mut Option<AppRuntimeState>,
        now: Timestamp,
    ) -> (step: Step)
        ensures
            on_pod_routes(
                Turn { pre: *old(self), post: *final(self), pre_app: *old(app), post_app: *final(app), now, step },
                result,
            ),
    {
        match result {
            Err(e) => {
                self.phase = Phase::PodDiscard(
                    "[route_update_failed] caddy route update failed: ".to_owned().concat(e.message().as_str()),
                );
                Step { record: false, action: Action::TeardownPod { manifest: self.manifest_path.clone() } }
            },
            Ok(_) => {
                let action = self.pod_go_live(app, now);
                self.phase = Phase::PodSave;
                Step { record: false, action }
            },
        }
    }

    fn pod_over(&mut self, Ghost(app): Ghost<Option<AppRuntimeState>>, now: Timestamp) -> (step: Step)
        ensures
            on_pod_over(
                Turn { pre: *old(self), post: *final(self), pre_app: app, post_app: app, now, step },
            ),
    {
        match &self.phase {
            Phase::PodSave => match copy_opt(&self.old_manifest) {
                Some(old) => {
                    self.phase = Phase::PodDrain(old);
                    Step { record: false, action: Action::Drain { wait: self.config.deploy.drain_timeout } }
                },
                None => self.complete(now),
            },
            Phase::PodDrain(old) => {
                let manifest = old.clone();
                self.phase = Phase::PodStopOld;
                Step { record: false, action: Action::TeardownPod { manifest } }
            },
            _ => self.complete(now),
        }
    }

    // ── All transitions ─────────────────────────────────────────────────────

    fn over(&mut self, app: &mut Option<AppRuntimeState>, now: Timestamp) -> (step: Step)
        requires
            old(self).awaits(Event::Over),
        ensures
            on_over(
                Turn { pre: *old(self), post: *final(self), pre_app: *old(app), post_app: *final(app), now, step },
            ),
    {
        let reason: Option<String> = match &self.phase {
            Phase::Discard(r) => Some(r.clone()),
            Phase::PodDiscard(r) => Some(r.clone()),
            Phase::PodUnnamed => Some(
                "[manifest_missing] pod deploy requires [app].manifest in repo config (slip.toml)".to_owned(),
            ),
            _ => None,
        };
        match reason {
            Some(r) => {
                return self.give_up(app, r.as_str(), now);
            },
            None => {},
        }
        if matches!(self.phase, Phase::BlueSave | Phase::BlueDrain(_) | Phase::BlueStopOld) {
            self.blue_over(Ghost(*app), now)
        } else if matches!(self.phase, Phase::PodSave | Phase::PodDrain(_) | Phase::PodStopOld) {
            self.pod_over(Ghost(*app), now)
        } else if matches!(self.phase, Phase::PodBare) {
            self.judge_pod(app, now)
        } else if matches!(self.phase, Phase::FallbackStop) {
            self.go_down(app, now)
        } else if matches!(self.phase, Phase::TimedOut) {
            self.phase = Phase::Done;
            mark_failed(app);
            Step { record: true, action: Action::Finish }
        } else {
            self.recreate_over(app, now)
        }
    }

    /// Tests whether an outcome is one that the phase waits for.
    pub fn expects(&self, event: &Event) -> (r: bool)
        ensures
            r == self.awaits(*event),
    {
        let routes: usize = match &self.merged {
            Some(m) => m.routes.len(),
            None => 0,
        };
        match (&self.phase, event) {
            (Phase::PullMain, Event::Pulled(_)) => true,
            (Phase::PullSidecar(i), Event::Pulled(_)) => *i < self.ctx.images.len(),
            (Phase::ReadConfig, Event::Config(_)) => true,
            (Phase::ReadEnv, Event::Env { .. }) => true,
            (Phase::BlueCreate, Event::Created(_)) => true,
            (Phase::BlueWorkerRunning, Event::Running(_)) => true,
            (Phase::BlueHealth, Event::Health(_)) => true,
            (Phase::BlueRunning, Event::Running(_)) => true,
            (Phase::BlueRoutes, Event::RoutesSet(_)) => true,
            (Phase::BlueSave, Event::Over) => true,
            (Phase::BlueDrain(_), Event::Over) => true,
            (Phase::BlueStopOld, Event::Over) => true,
            (Phase::Discard(_), Event::Over) => true,
            (Phase::RecreateStop, Event::Stopped(_)) => true,
            (Phase::RecreateRemoveRoute, Event::Over) => true,
            (Phase::RecreateCreate, Event::Created(_)) => true,
            (Phase::RecreateWorkerRunning { .. }, Event::Running(_)) => true,
            (Phase::RecreateHealth { .. }, Event::Health(_)) => true,
            (Phase::RecreateRunning { .. }, Event::Running(_)) => true,
            (Phase::RecreateDiscard, Event::Over) => true,
            (Phase::RecreateRoutes { .. }, Event::RoutesSet(_)) => true,
            (Phase::RecreateSave, Event::Over) => true,
            (Phase::RecreateRemoveOld, Event::Over) => true,
            (Phase::RestartOld(_), Event::Started(_)) => true,
            (Phase::RestartPort, Event::Port(_)) => true,
            (Phase::RestartRoutes, Event::RoutesSet(_)) => true,
            (Phase::FallbackCreate(_), Event::Created(_)) => true,
            (Phase::FallbackHealth { .. }, Event::Health(_)) => true,
            (Phase::FallbackRoutes { .. }, Event::RoutesSet(_)) => true,
            (Phase::FallbackStop, Event::Over) => true,
            (Phase::PodManifest, Event::Extracted(_)) => self.merged.is_some(),
            (Phase::PodUnnamed, Event::Over) => true,
            (Phase::PodWrite, Event::Written(_)) => true,
            (Phase::PodDeploy, Event::PodDeployed(_)) => self.merged.is_some(),
            (Phase::PodBare, Event::Over) => true,
            (Phase::PodWorker(i), Event::Running(_)) => *i < routes,
            (Phase::PodPort(i), Event::Port(_)) => *i < routes,
            (Phase::PodHealth { route, .. }, Event::Health(_)) => *route < routes,
            (Phase::PodDiscard(_), Event::Over) => true,
            (Phase::PodRoutes, Event::RoutesSet(_)) => true,
            (Phase::PodSave, Event::Over) => true,
            (Phase::PodDrain(_), Event::Over) => true,
            (Phase::PodStopOld, Event::Over) => true,
            (Phase::TimedOut, Event::Over) => true,
            _ => false,
        }
    }

    /// Takes an outcome at a given time, with the suffix that a new pod would
    /// be named with, and says what is next. The app's entry is brought up to
    /// date.
    pub fn step_at(
        &mut self,
        event: Event,
        app: &mut Option<AppRuntimeState>,
        now: Timestamp,
        suffix: &str,
    ) -> (step: Step)
        requires
            old(self).awaits(event),
        ensures
            follows(
                Turn { pre: *old(self), post: *final(self), pre_app: *old(app), post_app: *final(app), now, step },
                event,
                suffix@,
            ),
    {
        match event {
            Event::Pulled(r) => self.pulled(r, app, now),
            Event::Config(c) => self.configured(c, app, now),
            Event::Env { file, secrets } => self.env_read(file, secrets, app, now),
            Event::Created(r) => if matches!(self.phase, Phase::BlueCreate) {
                self.blue_created(r, app, now)
            } else if matches!(self.phase, Phase::RecreateCreate) {
                self.recreate_created(r, app, now)
            } else {
                self.fallback_created(r, app, now)
            },
            Event::Running(r) => {
                let route: Option<usize> = match self.phase {
                    Phase::PodWorker(i) => Some(i),
                    _ => None,
                };
                match route {
                    Some(i) => self.next_route(i, app, now),
                    None => if matches!(self.phase, Phase::BlueWorkerRunning | Phase::BlueRunning) {
                        self.blue_running(r, app, now)
                    } else {
                        self.recreate_running(r, app, now)
                    },
                }
            },
            Event::Health(r) => {
                let pod: Option<(usize, u16)> = match self.phase {
                    Phase::PodHealth { route, port } => Some((route, port)),
                    _ => None,
                };
                match pod {
                    Some((route, port)) => self.pod_health(route, port, r, app, now),
                    None => if matches!(self.phase, Phase::BlueHealth) {
                        self.blue_health(r, app, now)
                    } else if matches!(self.phase, Phase::RecreateHealth { .. }) {
                        self.recreate_health(r, Ghost(*app), Ghost(now))
                    } else {
                        self.fallback_health(r, app, now)
                    },
                }
            },
            Event::RoutesSet(r) => {
                let fallback: Option<(String, u16, String)> = match &self.phase {
                    Phase::FallbackRoutes { container, port, tag } => Some((container.clone(), *port, tag.clone())),
                    _ => None,
                };
                match fallback {
                    Some((container, port, tag)) => self.replace_old(container, port, tag, app, now),
                    None => if matches!(self.phase, Phase::BlueRoutes) {
                        self.blue_routes(r, app, now)
                    } else if matches!(self.phase, Phase::RecreateRoutes { .. }) {
                        self.recreate_routes(r, app, now)
                    } else if matches!(self.phase, Phase::RestartRoutes) {
                        self.restore(app, now)
                    } else {
                        self.pod_routes(r, app, now)
                    },
                }
            },
            Event::Stopped(r) => self.recreate_stopped(r, app, now),
            Event::Started(r) => self.restarted(r, app, now),
            Event::Port(r) => {
                let route: Option<usize> = match self.phase {
                    Phase::PodPort(i) => Some(i),
                    _ => None,
                };
                match route {
                    Some(i) => self.pod_port(i, r, app, now),
                    None => self.restart_port(r, app, now),
                }
            },
            Event::Extracted(r) => self.manifest_extracted(r, suffix, app, now),
            Event::Written(o) => self.manifest_written(o, app, now),
            Event::PodDeployed(r) => self.pod_deployed(r, app, now),
            Event::Over => self.over(app, now),
        }
    }

    /// Takes an outcome and says what is next. The app's entry is brought up
    /// to date.
    pub fn step(&mut self, event: Event, app: &mut Option<AppRuntimeState>) -> (step: Step)
        requires
            old(self).awaits(event),
        ensures
            exists|now: Timestamp, suffix: Seq<char>|
                now.wf() && is_suffix(suffix) && #[trigger] follows(
                    Turn {
                        pre: *old(self),
                        post: *final(self),
                        pre_app: *old(app),
                        post_app: *final(app),
                        now,
                        step,
                    },
                    event,
                    suffix,
                ),
    {
        let now = crate::time::utc_now();
        let suffix = fresh_suffix();
        self.step_at(event, app, now, suffix.as_str())
    }

    /// Ends a deploy whose time is up.
    pub fn time_out(&mut self, limit: Duration, app: &mut Option<AppRuntimeState>, now: Timestamp) -> (step: Step)
        ensures
            times_out(
                Turn { pre: *old(self), post: *final(self), pre_app: *old(app), post_app: *final(app), now, step },
                limit,
            ),
    {
        let reason = "[health_check_timeout] deploy timed out after ".to_owned().concat(
            format_duration(limit).as_str(),
        ).concat(" (health check never passed)");
        match copy_opt(&self.ctx.new_container_id) {
            Some(container) => {
                self.ctx.fail_at(reason.as_str(), now);
                self.phase = Phase::TimedOut;
                Step { record: false, action: Action::StopAndRemove { container } }
            },
            None => self.give_up(app, reason.as_str(), now),
        }
    }
}

} // verus!
