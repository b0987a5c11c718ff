use dashmap::DashMap;
use slip_core::config::{
    AppConfig, AppInfo, DeployConfig, HealthConfig, NetworkConfig, RepoAppInfo, RepoConfig, RepoDefaults,
    RepoHealthConfig, RepoResourceConfig, RepoRoutingConfig, ResourceConfig, RoutingConfig,
};
use slip_core::deploy::{
    format_duration, record_deploy, AppRuntimeState, AppStatus, DeployContext, DeployStatus, TriggerSource,
};
use slip_core::error::{CaddyError, HealthError, RuntimeError};
use slip_core::registry::{RegistryCredSource, ResolvedRegistry};
use slip_core::rollout::{
    fresh_suffix, pod_suffix_of, Action, ConfigOutcome, Event, Rollout, WriteOutcome,
};
use slip_core::time::{Duration, Timestamp};

const NOW: Timestamp = Timestamp { secs: 1_700_000_000, nanos: 0 };

/// The world that a deploy acts on: what it answers, and what was asked of it.
struct World {
    pull_ok: bool,
    config: Option<ConfigOutcome>,
    created: Vec<Result<(String, u16), RuntimeError>>,
    running: bool,
    health: Vec<Result<(), HealthError>>,
    routes_ok: bool,
    stop_ok: bool,
    start_ok: bool,
    inspected_port: Result<u16, RuntimeError>,
    manifest: Result<Option<Vec<u8>>, RuntimeError>,
    pod_port: u16,
    /// The order at which the time runs out.
    hangs_at: &'static str,
    log: Vec<String>,
    credentials: Vec<Option<(String, String)>>,
    records: Vec<DeployStatus>,
    deploys: DashMap<String, DeployContext>,
    routes: Vec<Vec<(String, u16)>>,
    manifests: Vec<(String, String)>,
}

impl World {
    fn new() -> World {
        World {
            pull_ok: true,
            config: Some(ConfigOutcome::ExtractFailed(RuntimeError::Unsupported("mock".to_string()))),
            created: Vec::new(),
            running: true,
            health: Vec::new(),
            routes_ok: true,
            stop_ok: true,
            start_ok: true,
            inspected_port: Ok(50001),
            manifest: Ok(None),
            pod_port: 0,
            hangs_at: "",
            log: Vec::new(),
            credentials: Vec::new(),
            records: Vec::new(),
            deploys: DashMap::new(),
            routes: Vec::new(),
            manifests: Vec::new(),
        }
    }

    fn with_config(config: ConfigOutcome) -> World {
        World { config: Some(config), ..World::new() }
    }

    fn with_pod(repo: RepoConfig, port: u16) -> World {
        World {
            manifest: Ok(Some(POD_YAML_FIXTURE.as_bytes().to_vec())),
            pod_port: port,
            ..World::with_config(ConfigOutcome::Parsed(repo))
        }
    }

    fn unhealthy() -> World {
        World { health: vec![Err(unhealthy()), Err(unhealthy())], ..World::new() }
    }

    fn count(&self, what: &str) -> usize {
        self.log.iter().filter(|l| l.as_str() == what).count()
    }

    fn at(&self, what: &str) -> Option<usize> {
        self.log.iter().position(|l| l.as_str() == what)
    }

    fn act(&mut self, action: Action) -> (&'static str, Option<Event>) {
        match action {
            Action::PullImage { credentials, .. } => {
                self.credentials.push(credentials.map(|c| (c.username, c.password)));
                let result = if self.pull_ok {
                    Ok(())
                } else {
                    Err(RuntimeError::PullFailed("mock pull failure".to_string()))
                };
                ("pull_image", Some(Event::Pulled(result)))
            }
            Action::ReadConfig { path, .. } => {
                assert_eq!(path, "/slip/slip.toml");
                ("extract_file", self.config.take().map(Event::Config))
            }
            Action::ReadEnv { .. } => ("read_env", Some(Event::Env { file: None, secrets: None })),
            Action::CreateAndStart(_) => {
                let result = if self.created.is_empty() {
                    Ok(("mock-container-id".to_string(), 54321))
                } else {
                    self.created.remove(0)
                };
                ("create_and_start", Some(Event::Created(result)))
            }
            Action::ContainerIsRunning { .. } => ("container_is_running", Some(Event::Running(Ok(self.running)))),
            Action::CheckHealth { .. } => {
                let result = if self.health.is_empty() { Ok(()) } else { self.health.remove(0) };
                ("check_health", Some(Event::Health(result)))
            }
            Action::SetRoutes { routes, .. } => {
                self.routes.push(routes.into_iter().map(|r| (r.hostname, r.port)).collect());
                let result = if self.routes_ok {
                    Ok(())
                } else {
                    Err(CaddyError::RouteUpdateFailed("mock caddy failure".to_string()))
                };
                ("set_route", Some(Event::RoutesSet(result)))
            }
            Action::RemoveRoute { .. } => ("remove_route", Some(Event::Over)),
            Action::SaveState { .. } => ("save_state", Some(Event::Over)),
            Action::Drain { .. } => ("drain", Some(Event::Over)),
            Action::StopContainer { .. } => {
                let result = if self.stop_ok {
                    Ok(())
                } else {
                    Err(RuntimeError::ContainerError("mock stop_container failure".to_string()))
                };
                ("stop_container", Some(Event::Stopped(result)))
            }
            Action::StartContainer { .. } => {
                let result = if self.start_ok {
                    Ok(())
                } else {
                    Err(RuntimeError::ContainerError("mock start_container failure".to_string()))
                };
                ("start_container", Some(Event::Started(result)))
            }
            Action::StopAndRemove { .. } => ("stop_and_remove", Some(Event::Over)),
            Action::InspectPort { .. } => {
                let port = match &self.inspected_port {
                    Ok(p) => Ok(*p),
                    Err(e) => Err(RuntimeError::ContainerError(e.message())),
                };
                ("inspect_port", Some(Event::Port(port)))
            }
            Action::ExtractFile { .. } => {
                let manifest = match &self.manifest {
                    Ok(m) => Ok(m.clone()),
                    Err(e) => Err(RuntimeError::ContainerError(e.message())),
                };
                ("extract_manifest", Some(Event::Extracted(manifest)))
            }
            Action::WriteManifest { path, text, .. } => {
                self.manifests.push((path, text));
                ("write_manifest", Some(Event::Written(WriteOutcome::Written)))
            }
            Action::DeployPod { .. } => ("deploy_pod", Some(Event::PodDeployed(Ok(())))),
            Action::TeardownPod { .. } => ("teardown_pod", Some(Event::Over)),
            Action::PodContainerPort { .. } => ("pod_port", Some(Event::Port(Ok(self.pod_port)))),
            Action::Proceed => ("proceed", Some(Event::Over)),
            Action::Finish => ("finish", None),
        }
    }

    fn deploy(
        &mut self,
        ctx: DeployContext,
        config: AppConfig,
        registries: Vec<ResolvedRegistry>,
        app: &mut Option<AppRuntimeState>,
    ) -> DeployContext {
        let (mut machine, mut step) = Rollout::begin(ctx, config, registries, "/var/lib/slip".to_string(), app);
        for _ in 0..200 {
            if step.record {
                self.records.push(machine.ctx.status);
                record_deploy(&mut self.deploys, &machine.ctx);
            }
            let (name, event) = self.act(step.action);
            self.log.push(name.to_string());
            let event = match event {
                Some(e) => e,
                None => {
                    let (_, recorded) = self.deploys.remove(&machine.ctx.app).expect("deploy should be recorded");
                    return recorded;
                }
            };
            if name == self.hangs_at {
                step = machine.time_out(Duration::from_secs(1), app, NOW);
                continue;
            }
            assert!(machine.expects(&event), "{:?} in {:?}", event, machine.phase);
            step = machine.step_at(event, app, NOW, "01abc");
        }
        panic!("the deploy does not end");
    }
}

fn unhealthy() -> HealthError {
    HealthError::Unhealthy { retries: 1, url: "http://127.0.0.1:54321/health".to_string() }
}

fn test_app_config() -> AppConfig {
    AppConfig {
        app: AppInfo {
            name: "testapp".to_string(),
            image: "ghcr.io/org/testapp".to_string(),
            secret: None,
        },
        routing: RoutingConfig {
            domain: Some("testapp.example.com".to_string()),
            port: Some(3000),
            routes: vec![],
        },
        health: HealthConfig {
            // No health path — check always passes without any HTTP call.
            path: None,
            interval: Duration::from_millis(1),
            timeout: Duration::from_millis(10),
            retries: 1,
            start_period: Duration::zero(),
            expect_status: None,
        },
        deploy: DeployConfig {
            strategy: "blue-green".to_string(),
            drain_timeout: Duration::zero(),
            timeout: None,
        },
        env: Vec::new(),
        env_file: None,
        resources: ResourceConfig { memory: None, cpus: None },
        network: NetworkConfig { name: "slip".to_string() },
        preview: None,
        volumes: Vec::new(),
    }
}

fn recreate_app_config() -> AppConfig {
    let mut config = test_app_config();
    config.deploy.strategy = "recreate".to_string();
    config
}

fn context(tag: &str, triggered_by: TriggerSource) -> DeployContext {
    DeployContext::new(
        "dep_test001".to_string(),
        "testapp".to_string(),
        "ghcr.io/org/testapp".to_string(),
        tag.to_string(),
        triggered_by,
    )
}

fn test_deploy_ctx() -> DeployContext {
    context("v1.0.0", TriggerSource::Webhook)
}

fn repo(name: &str, kind: &str, manifest: Option<&str>) -> RepoConfig {
    RepoConfig {
        app: RepoAppInfo {
            name: name.to_string(),
            kind: kind.to_string(),
            manifest: manifest.map(|m| m.to_string()),
            image: None,
        },
        health: RepoHealthConfig {
            path: Some("/healthz".to_string()),
            container: None,
            interval: None,
            timeout: None,
            retries: None,
            start_period: None,
        },
        routing: RepoRoutingConfig { domain: None, port: None, container: None, routes: Vec::new() },
        defaults: RepoDefaults {
            resources: Some(RepoResourceConfig { memory: Some("256m".to_string()), cpus: None }),
        },
        preview: None,
        volumes: Vec::new(),
        env: Vec::new(),
        deploy: None,
    }
}

fn pod_repo() -> RepoConfig {
    let mut r = repo("testapp", "pod", Some("/slip/pod.yaml"));
    r.routing.container = Some("web".to_string());
    r
}

fn running(container: &str) -> Option<AppRuntimeState> {
    Some(AppRuntimeState {
        status: AppStatus::Running,
        current_tag: Some("v0.9.0".to_string()),
        current_container_id: Some(container.to_string()),
        current_port: Some(50000),
        ..Default::default()
    })
}

const POD_YAML_FIXTURE: &str = r#"apiVersion: v1
kind: Pod
metadata:
  name: testapp
  labels:
    app: testapp
spec:
  containers:
    - name: web
      image: ghcr.io/org/testapp:latest
      ports:
        - containerPort: 3000
          hostPort: 3000
"#;

fn error_of(ctx: &DeployContext) -> &str {
    ctx.error.as_deref().unwrap_or("")
}

// ── Blue-green ────────────────────────────────────────────────────────────

/// Happy path: pull → start → health → switch → complete.
#[test]
fn test_happy_path_full_deploy() {
    let mut world = World::new();
    let mut app = None;
    let recorded = world.deploy(test_deploy_ctx(), test_app_config(), Vec::new(), &mut app);

    assert_eq!(recorded.status, DeployStatus::Completed);
    assert!(recorded.finished_at.is_some());
    assert!(recorded.error.is_none());

    let app = app.expect("app state should exist");
    assert_eq!(app.status, AppStatus::Running);
    assert_eq!(app.current_tag.as_deref(), Some("v1.0.0"));
    assert_eq!(app.current_container_id.as_deref(), Some("mock-container-id"));
    assert_eq!(app.current_port, Some(54321));

    // Every status is recorded, the end among them.
    assert_eq!(world.records[0], DeployStatus::Pulling);
    assert_eq!(world.records.last(), Some(&DeployStatus::Completed));
    assert_eq!(world.routes, vec![vec![("testapp.example.com".to_string(), 54321)]]);
}

/// A main image on ghcr.io and a sidecar on localhost:5000 receive distinct
/// credentials in one deploy cycle.
#[test]
fn test_two_registries_one_deploy_cycle_distinct_creds() {
    let registries = vec![
        ResolvedRegistry {
            url: "ghcr.io".to_string(),
            username: Some("ghcr-user".to_string()),
            password: "ghcr-tok".to_string(),
            source: RegistryCredSource::Toml,
        },
        ResolvedRegistry {
            url: "localhost:5000".to_string(),
            username: Some("ci".to_string()),
            password: "local-tok".to_string(),
            source: RegistryCredSource::Toml,
        },
    ];
    let mut ctx = DeployContext::new(
        "dep_two_reg_001".to_string(),
        "testapp".to_string(),
        "ghcr.io/me/mainapp".to_string(),
        "v1.0.0".to_string(),
        TriggerSource::Webhook,
    );
    ctx.images.push(("sidecar".to_string(), "localhost:5000/internal/svc:latest".to_string()));
    let mut config = test_app_config();
    config.app.image = "ghcr.io/me/mainapp".to_string();

    let mut world = World::new();
    let recorded = world.deploy(ctx, config, registries, &mut None);
    assert_eq!(recorded.status, DeployStatus::Completed, "deploy should complete: {:?}", recorded.error);

    assert_eq!(world.credentials.len(), 2, "expected exactly two pull_image calls");
    let main_cred = world.credentials[0].as_ref().expect("main pull should have a cred");
    assert_eq!(main_cred.0, "ghcr-user");
    assert_eq!(main_cred.1, "ghcr-tok");
    let side_cred = world.credentials[1].as_ref().expect("sidecar pull should have a cred");
    assert_eq!(side_cred.0, "ci");
    assert_eq!(side_cred.1, "local-tok");
    assert_ne!(main_cred.1, side_cred.1, "distinct creds per image in one deploy cycle");
}

/// First deploy: no old container to stop.
#[test]
fn test_first_deploy_no_old_container() {
    let mut world = World::new();
    let recorded = world.deploy(test_deploy_ctx(), test_app_config(), Vec::new(), &mut None);
    assert_eq!(world.count("stop_and_remove"), 0);
    assert_eq!(recorded.status, DeployStatus::Completed);
}

/// Subsequent deploy: the old container is stopped after the new one is live.
#[test]
fn test_subsequent_deploy_stops_old_container() {
    let mut world = World::new();
    let mut app = running("old-container-id");
    world.deploy(test_deploy_ctx(), test_app_config(), Vec::new(), &mut app);
    assert_eq!(world.count("stop_and_remove"), 1);
    let app = app.unwrap();
    assert_eq!(app.current_container_id.as_deref(), Some("mock-container-id"));
    assert_eq!(app.previous_container_id.as_deref(), Some("old-container-id"));
}

/// Health check failure: new container stopped, deploy recorded as failed.
#[test]
fn test_health_check_failure_stops_new_container() {
    let mut world = World::unhealthy();
    let mut app = None;
    let recorded = world.deploy(test_deploy_ctx(), test_app_config(), Vec::new(), &mut app);
    assert_eq!(world.count("stop_and_remove"), 1, "new container should be stopped");
    assert_eq!(recorded.status, DeployStatus::Failed);
    assert!(error_of(&recorded).contains("health check failed"));
    assert!(app.is_none(), "app state should not have been set");
}

#[test]
fn test_health_unexpected_status_propagates_reason() {
    let mut world = World::new();
    world.health = vec![Err(HealthError::UnexpectedStatus {
        expected: "200".to_string(),
        actual: 307,
        url: "http://127.0.0.1:54321/health".to_string(),
        attempts: 3,
    })];
    let recorded = world.deploy(test_deploy_ctx(), test_app_config(), Vec::new(), &mut None);
    assert_eq!(world.count("stop_and_remove"), 1, "new container should be stopped");
    assert_eq!(recorded.status, DeployStatus::Failed);
    let err = error_of(&recorded);
    assert!(err.contains("[health_unexpected_status]"), "must carry health_unexpected_status tag, got: {err}");
    assert!(err.contains("expected 200"), "must carry expected: {err}");
    assert!(err.contains("got 307"), "must carry actual: {err}");
    assert!(err.contains("after 3 attempts"), "must carry attempts: {err}");
    assert!(!err.contains("body") && !err.contains("header"), "must not leak bodies or headers: {err}");
}

#[test]
fn test_image_pull_failure() {
    let mut world = World { pull_ok: false, ..World::new() };
    let mut app = None;
    let recorded = world.deploy(test_deploy_ctx(), test_app_config(), Vec::new(), &mut app);
    assert_eq!(world.count("stop_and_remove"), 0, "no container stop should occur");
    assert_eq!(recorded.status, DeployStatus::Failed);
    assert!(error_of(&recorded).contains("image pull failed"));
    assert!(app.is_none());
}

#[test]
fn test_caddy_route_failure_stops_new_container() {
    let mut world = World { routes_ok: false, ..World::new() };
    let mut app = running("old-container-keep");
    let recorded = world.deploy(test_deploy_ctx(), test_app_config(), Vec::new(), &mut app);
    assert_eq!(world.count("stop_and_remove"), 1, "only new container should be stopped");
    assert_eq!(recorded.status, DeployStatus::Failed);
    assert!(error_of(&recorded).contains("caddy route update failed"));
    assert_eq!(
        app.unwrap().current_container_id.as_deref(),
        Some("old-container-keep"),
        "old container should be preserved"
    );
}

#[test]
fn test_blue_green_unchanged_with_strategy_field() {
    let mut config = test_app_config();
    config.deploy.strategy = "blue-green".to_string();
    let mut world = World::new();
    let mut app = running("old-container-id");
    let recorded = world.deploy(test_deploy_ctx(), config, Vec::new(), &mut app);
    assert_eq!(world.count("stop_and_remove"), 1);
    assert_eq!(recorded.status, DeployStatus::Completed);
    assert!(recorded.error.is_none());
    assert_eq!(app.unwrap().current_container_id.as_deref(), Some("mock-container-id"));
}

#[test]
fn test_blue_green_starts_new_before_stopping_old() {
    let mut world = World::new();
    let recorded = world.deploy(test_deploy_ctx(), test_app_config(), Vec::new(), &mut running("old-ctr"));
    let create = world.at("create_and_start").expect("create_and_start should have been called");
    let stop = world.at("stop_and_remove").expect("stop_and_remove should have been called");
    assert!(create < stop, "create_and_start should be called before stop_and_remove in blue-green strategy");
    assert!(world.at("set_route").unwrap() < stop);
    assert_eq!(recorded.status, DeployStatus::Completed);
}

#[test]
fn a_container_that_stopped_says_so() {
    let mut world = World { running: false, ..World::unhealthy() };
    let recorded = world.deploy(test_deploy_ctx(), test_app_config(), Vec::new(), &mut None);
    assert_eq!(recorded.status, DeployStatus::Failed);
    assert!(error_of(&recorded).starts_with("["), "{}", error_of(&recorded));
}

#[test]
fn a_container_that_cannot_start_fails_the_deploy() {
    let mut world = World::new();
    world.created = vec![Err(RuntimeError::NoPortAssigned)];
    let mut app = running("old");
    let recorded = world.deploy(test_deploy_ctx(), test_app_config(), Vec::new(), &mut app);
    assert_eq!(recorded.status, DeployStatus::Failed);
    assert!(error_of(&recorded).contains("no host port assigned"), "{}", error_of(&recorded));
    assert_eq!(app.unwrap().status, AppStatus::Failed);
}

// ── The repository's configuration ────────────────────────────────────────

#[test]
fn test_deploy_with_repo_config_uses_merged_config() {
    let mut world = World::with_config(ConfigOutcome::Parsed(repo("testapp", "container", None)));
    let recorded = world.deploy(test_deploy_ctx(), test_app_config(), Vec::new(), &mut None);
    assert_eq!(recorded.status, DeployStatus::Completed);
    assert!(recorded.error.is_none());
}

#[test]
fn test_deploy_without_repo_config_uses_server_config() {
    let mut world = World::with_config(ConfigOutcome::Absent);
    let recorded = world.deploy(test_deploy_ctx(), test_app_config(), Vec::new(), &mut None);
    assert_eq!(recorded.status, DeployStatus::Completed);
    assert!(recorded.error.is_none());
}

#[test]
fn test_deploy_with_invalid_repo_config_fails() {
    let mut world = World::with_config(ConfigOutcome::ParseFailed("expected `]`".to_string()));
    let recorded = world.deploy(test_deploy_ctx(), test_app_config(), Vec::new(), &mut None);
    assert_eq!(recorded.status, DeployStatus::Failed);
    assert!(error_of(&recorded).contains("failed to parse repo config"));
}

#[test]
fn test_deploy_with_unsupported_extract_file_continues() {
    let mut world = World::new();
    let recorded = world.deploy(test_deploy_ctx(), test_app_config(), Vec::new(), &mut None);
    assert_eq!(recorded.status, DeployStatus::Completed);
    assert!(recorded.error.is_none());
}

#[test]
fn test_deploy_with_extract_file_fatal_error_fails() {
    let mut world = World::with_config(ConfigOutcome::ExtractFailed(RuntimeError::Connection(
        "network unreachable".to_string(),
    )));
    let recorded = world.deploy(test_deploy_ctx(), test_app_config(), Vec::new(), &mut None);
    assert_eq!(recorded.status, DeployStatus::Failed);
    assert!(error_of(&recorded).contains("failed to extract config from image"));
}

#[test]
fn test_deploy_repo_config_name_mismatch_fails() {
    let mut world = World::with_config(ConfigOutcome::Parsed(repo("differentapp", "container", None)));
    let recorded = world.deploy(test_deploy_ctx(), test_app_config(), Vec::new(), &mut None);
    assert_eq!(recorded.status, DeployStatus::Failed);
    assert!(error_of(&recorded).contains("does not match deploy app"));
}

/// HTTP (non-worker) app without routing must fail deploy with a clear error
/// and NO create_and_start call.
#[test]
fn test_http_app_without_routing_fails_deploy() {
    let mut config = test_app_config();
    config.routing = RoutingConfig { domain: None, port: None, routes: vec![] };
    let mut world = World::new();
    let recorded = world.deploy(test_deploy_ctx(), config, Vec::new(), &mut None);
    assert_eq!(recorded.status, DeployStatus::Failed);
    assert!(
        error_of(&recorded).contains("HTTP app requires routing"),
        "error should mention missing routing: {:?}",
        recorded.error
    );
    assert_eq!(world.count("create_and_start"), 0);
}

#[test]
fn a_worker_needs_no_routing_and_gets_no_route() {
    let mut config = test_app_config();
    config.routing = RoutingConfig { domain: None, port: None, routes: vec![] };
    let mut world = World::with_config(ConfigOutcome::Parsed(repo("testapp", "worker", None)));
    let recorded = world.deploy(test_deploy_ctx(), config, Vec::new(), &mut None);
    assert_eq!(recorded.status, DeployStatus::Completed, "{:?}", recorded.error);
    assert_eq!(world.count("set_route"), 0);
    assert_eq!(world.count("check_health"), 0);
    assert_eq!(world.count("container_is_running"), 1);
}

// ── Pods ──────────────────────────────────────────────────────────────────

fn pod_deploy_ctx() -> DeployContext {
    context("v2.0.0", TriggerSource::Webhook)
}

#[test]
fn test_pod_deploy_happy_path() {
    let mut world = World::with_pod(pod_repo(), 44444);
    let mut app = None;
    let recorded = world.deploy(pod_deploy_ctx(), test_app_config(), Vec::new(), &mut app);
    assert_eq!(recorded.status, DeployStatus::Completed, "{:?}", recorded.error);
    assert!(recorded.error.is_none());
    assert!(recorded.new_pod_name.is_some(), "pod name should be set");
    assert!(recorded.new_manifest_path.is_some(), "manifest path should be set");
    assert_eq!(recorded.new_port, Some(44444));

    let app = app.expect("app state should exist");
    assert_eq!(app.status, AppStatus::Running);
    assert_eq!(app.current_tag.as_deref(), Some("v2.0.0"));
    assert_eq!(app.current_pod_name.as_deref(), Some("testapp-01abc"));
    assert!(app.current_manifest_path.is_some(), "current_manifest_path should be set");
    assert_eq!(app.current_port, Some(44444));
    assert_eq!(world.count("teardown_pod"), 0);

    let (path, text) = &world.manifests[0];
    assert_eq!(path, "/var/lib/slip/manifests/testapp-dep_test001.yaml");
    let doc: serde_yaml::Value = serde_yaml::from_str(text).unwrap();
    assert_eq!(doc["metadata"]["name"].as_str(), Some("testapp-01abc"));
    assert_eq!(doc["spec"]["containers"][0]["image"].as_str(), Some("ghcr.io/org/testapp:v2.0.0"));
    assert_eq!(doc["spec"]["containers"][0]["ports"][0]["hostPort"].as_u64(), Some(0));
}

#[test]
fn test_pod_deploy_health_failure_tears_down_new_pod() {
    let mut world = World::with_pod(pod_repo(), 44444);
    world.health = vec![Err(unhealthy())];
    let mut app = None;
    let recorded = world.deploy(pod_deploy_ctx(), test_app_config(), Vec::new(), &mut app);
    assert_eq!(recorded.status, DeployStatus::Failed);
    assert!(error_of(&recorded).contains("health check failed"));
    assert_eq!(world.count("teardown_pod"), 1, "new pod should be torn down on health failure");
    assert!(app.is_none(), "app state should not have been set on failure");
}

#[test]
fn test_pod_deploy_missing_manifest_fails() {
    let mut no_manifest = pod_repo();
    no_manifest.app.manifest = None;
    let mut world = World::with_pod(no_manifest, 44444);
    let recorded = world.deploy(pod_deploy_ctx(), test_app_config(), Vec::new(), &mut None);
    assert_eq!(recorded.status, DeployStatus::Failed);
    assert!(error_of(&recorded).contains("manifest"), "error should mention manifest: {:?}", recorded.error);
    assert_eq!(
        world.records,
        vec![DeployStatus::Pulling, DeployStatus::Configuring, DeployStatus::Starting, DeployStatus::Failed]
    );
}

#[test]
fn test_pod_first_deploy_no_old_pod() {
    let mut world = World::with_pod(pod_repo(), 55555);
    let recorded = world.deploy(pod_deploy_ctx(), test_app_config(), Vec::new(), &mut None);
    assert_eq!(recorded.status, DeployStatus::Completed);
    assert_eq!(world.count("teardown_pod"), 0, "teardown_pod should not be called on first pod deploy");
}

#[test]
fn test_pod_subsequent_deploy_tears_down_old_pod() {
    let mut app = Some(AppRuntimeState {
        status: AppStatus::Running,
        current_tag: Some("v1.0.0".to_string()),
        current_pod_name: Some("testapp-oldpod".to_string()),
        current_manifest_path: Some("/tmp/manifests/testapp-old.yaml".to_string()),
        current_port: Some(40000),
        ..Default::default()
    });
    let mut world = World::with_pod(pod_repo(), 55556);
    let recorded = world.deploy(pod_deploy_ctx(), test_app_config(), Vec::new(), &mut app);
    assert_eq!(recorded.status, DeployStatus::Completed);
    assert_eq!(world.count("teardown_pod"), 1, "old pod should be torn down after successful deploy");
    let app = app.unwrap();
    assert_eq!(app.current_port, Some(55556));
    assert!(app.current_pod_name.is_some());
    assert_ne!(app.current_pod_name.as_deref(), Some("testapp-oldpod"), "new pod should have a different name");
}

#[test]
fn a_manifest_that_is_no_yaml_fails_the_deploy() {
    let mut world = World::with_pod(pod_repo(), 1);
    world.manifest = Ok(Some(b"kind: [Pod".to_vec()));
    let recorded = world.deploy(pod_deploy_ctx(), test_app_config(), Vec::new(), &mut None);
    assert_eq!(recorded.status, DeployStatus::Failed);
    assert_eq!(world.count("deploy_pod"), 0);
}

// ── Rollback deploys ──────────────────────────────────────────────────────

#[test]
fn test_rollback_deploy_uses_trigger_source() {
    let mut world = World::new();
    let recorded =
        world.deploy(context("v1.0.0", TriggerSource::Rollback), test_app_config(), Vec::new(), &mut None);
    assert_eq!(recorded.status, DeployStatus::Completed);
    assert!(recorded.error.is_none());
    assert_eq!(recorded.triggered_by, TriggerSource::Rollback);
}

#[test]
fn test_rollback_updates_previous_tag() {
    let mut app = Some(AppRuntimeState {
        status: AppStatus::Running,
        current_tag: Some("v2.0".to_string()),
        previous_tag: Some("v1.0".to_string()),
        current_container_id: Some("old-container".to_string()),
        current_port: Some(50000),
        ..Default::default()
    });
    let mut world = World::new();
    world.deploy(context("v1.0", TriggerSource::Rollback), test_app_config(), Vec::new(), &mut app);
    let app = app.expect("app state should exist");
    assert_eq!(app.current_tag.as_deref(), Some("v1.0"));
    assert_eq!(app.previous_tag.as_deref(), Some("v2.0"));
}

// ── Recreate ──────────────────────────────────────────────────────────────

#[test]
fn test_recreate_happy_path_full_deploy() {
    let mut world = World::new();
    let mut app = running("old-container-id");
    let recorded = world.deploy(test_deploy_ctx(), recreate_app_config(), Vec::new(), &mut app);
    assert_eq!(world.count("stop_container"), 1, "old container should be stopped");
    assert_eq!(world.count("stop_and_remove"), 1, "old container should be removed");
    assert_eq!(recorded.status, DeployStatus::Completed);
    assert!(recorded.error.is_none());
    let app = app.unwrap();
    assert_eq!(app.current_container_id.as_deref(), Some("mock-container-id"));
    assert_eq!(app.previous_container_id.as_deref(), Some("old-container-id"));
    assert!(world.at("remove_route").unwrap() < world.at("create_and_start").unwrap());
}

#[test]
fn test_recreate_first_deploy_no_old_container() {
    let mut world = World::new();
    let recorded = world.deploy(test_deploy_ctx(), recreate_app_config(), Vec::new(), &mut None);
    assert_eq!(world.count("stop_container"), 0);
    assert_eq!(world.count("stop_and_remove"), 0);
    assert_eq!(recorded.status, DeployStatus::Completed);
    assert!(recorded.error.is_none());
}

#[test]
fn test_recreate_health_check_failure_rollback() {
    let mut world = World::unhealthy();
    let mut app = running("old-container-id");
    let recorded = world.deploy(test_deploy_ctx(), recreate_app_config(), Vec::new(), &mut app);
    assert_eq!(world.count("stop_container"), 1);
    assert_eq!(world.count("start_container"), 1);
    assert_eq!(world.count("stop_and_remove"), 1);
    assert_eq!(recorded.status, DeployStatus::Failed);
    assert!(error_of(&recorded).contains("Tier 1 rollback"), "{:?}", recorded.error);
    assert!(!recorded.rollback_failed);
    assert_eq!(app.unwrap().current_container_id.as_deref(), Some("old-container-id"));
}

#[test]
fn test_recreate_old_container_wont_stop() {
    let mut world = World { stop_ok: false, ..World::new() };
    let recorded =
        world.deploy(test_deploy_ctx(), recreate_app_config(), Vec::new(), &mut running("old-container-id"));
    assert_eq!(world.count("stop_container"), 1);
    assert_eq!(recorded.status, DeployStatus::Failed);
    assert!(error_of(&recorded).contains("failed to stop old container"));
}

#[test]
fn test_recreate_no_health_check_path() {
    let mut world = World::new();
    let recorded =
        world.deploy(test_deploy_ctx(), recreate_app_config(), Vec::new(), &mut running("old-container-id"));
    assert_eq!(world.count("stop_container"), 1);
    assert_eq!(world.count("stop_and_remove"), 1);
    assert_eq!(recorded.status, DeployStatus::Completed);
    assert!(recorded.error.is_none());
}

#[test]
fn test_recreate_stops_old_before_starting_new() {
    let mut world = World::new();
    let recorded = world.deploy(test_deploy_ctx(), recreate_app_config(), Vec::new(), &mut running("old-ctr"));
    let stop = world.at("stop_container").expect("stop_container should have been called");
    let create = world.at("create_and_start").expect("create_and_start should have been called");
    assert!(stop < create, "stop_container should be called before create_and_start in recreate strategy");
    assert_eq!(recorded.status, DeployStatus::Completed);
}

#[test]
fn a_rollback_that_cannot_restart_starts_the_old_tag_anew() {
    let mut world = World { start_ok: false, ..World::new() };
    world.created = vec![
        Ok(("new".to_string(), 54321)),
        Ok(("fallback".to_string(), 54322)),
    ];
    world.health = vec![Err(unhealthy()), Ok(())];
    let mut app = running("old-container-id");
    let recorded = world.deploy(test_deploy_ctx(), recreate_app_config(), Vec::new(), &mut app);
    assert_eq!(recorded.status, DeployStatus::Failed);
    assert!(error_of(&recorded).contains("Tier 2"), "{:?}", recorded.error);
    assert!(!recorded.rollback_failed);
    assert_eq!(app.unwrap().current_container_id.as_deref(), Some("fallback"));
}

#[test]
fn a_rollback_that_fails_throughout_is_marked() {
    let mut world = World { start_ok: false, ..World::new() };
    world.created = vec![
        Ok(("new".to_string(), 54321)),
        Err(RuntimeError::ContainerError("no".to_string())),
    ];
    world.health = vec![Err(unhealthy())];
    let recorded =
        world.deploy(test_deploy_ctx(), recreate_app_config(), Vec::new(), &mut running("old-container-id"));
    assert_eq!(recorded.status, DeployStatus::Failed);
    assert!(recorded.rollback_failed);
}

// ── Time ──────────────────────────────────────────────────────────────────

#[test]
fn test_deploy_timeout_fires_and_records_failure() {
    let mut world = World { hangs_at: "pull_image", ..World::new() };
    let recorded = world.deploy(test_deploy_ctx(), test_app_config(), Vec::new(), &mut None);
    assert_eq!(recorded.status, DeployStatus::Failed);
    assert!(
        error_of(&recorded).contains("timed out"),
        "error should mention 'timed out': {:?}",
        recorded.error
    );
    assert_eq!(world.records.last(), Some(&DeployStatus::Failed));
}

#[test]
fn test_deploy_timeout_cleans_up_orphaned_container() {
    let mut world = World { hangs_at: "check_health", ..World::new() };
    let recorded = world.deploy(test_deploy_ctx(), test_app_config(), Vec::new(), &mut None);
    assert_eq!(recorded.status, DeployStatus::Failed);
    assert!(
        error_of(&recorded).contains("health_check_timeout"),
        "error should contain 'health_check_timeout': {:?}",
        recorded.error
    );
    assert_eq!(world.count("stop_and_remove"), 1, "orphaned new container should be stopped and removed");
    assert!(world.at("create_and_start").unwrap() < world.at("stop_and_remove").unwrap());
    assert_eq!(
        error_of(&recorded),
        format!(
            "[health_check_timeout] deploy timed out after {} (health check never passed)",
            format_duration(Duration::from_secs(1))
        )
    );
}

#[test]
fn test_deploy_timeout_does_not_stop_old_container() {
    let mut world = World { hangs_at: "check_health", ..World::new() };
    let mut app = running("old-container-id");
    let recorded = world.deploy(test_deploy_ctx(), test_app_config(), Vec::new(), &mut app);
    assert_eq!(recorded.status, DeployStatus::Failed);
    assert_eq!(world.count("stop_and_remove"), 1, "only the orphaned new container should be stopped");
    assert!(world.at("create_and_start").unwrap() < world.at("stop_and_remove").unwrap());
    let app = app.unwrap();
    assert_eq!(
        app.current_container_id.as_deref(),
        Some("old-container-id"),
        "old container should be preserved"
    );
    assert_eq!(app.status, AppStatus::Failed);
}

// ── Odds and ends ─────────────────────────────────────────────────────────

#[test]
fn an_app_without_configuration_is_turned_away() {
    let mut ctx = test_deploy_ctx();
    let mut app = running("old");
    Rollout::reject_unknown(&mut ctx, &mut app, NOW);
    assert_eq!(ctx.error.as_deref(), Some("[app_not_found] app 'testapp' not found in config"));
    assert_eq!(ctx.status, DeployStatus::Failed);
    assert_eq!(app.unwrap().status, AppStatus::Failed);
}

#[test]
fn the_wrong_outcome_is_not_expected() {
    let (mut machine, _) =
        Rollout::begin(test_deploy_ctx(), test_app_config(), Vec::new(), String::new(), &mut None);
    assert!(!machine.expects(&Event::Over));
    assert!(machine.expects(&Event::Pulled(Ok(()))));
    // The clock is read for what is stamped: later than the start of 2020.
    machine.step(Event::Pulled(Err(RuntimeError::NoPortAssigned)), &mut None);
    assert!(machine.ctx.finished_at.unwrap().secs > 1_577_836_800);
    assert!(!machine.expects(&Event::Pulled(Ok(()))));
}

#[test]
fn pod_suffixes_are_short_and_fresh() {
    assert_eq!(pod_suffix_of("01ARZ3NDEKTSV4RRFFQ69G5FAV"), "01arz3nd");
    let suffix = fresh_suffix();
    assert_eq!(suffix.len(), 8);
    assert!(suffix.chars().all(|c| c.is_ascii_lowercase() || c.is_ascii_digit()));
}

#[test]
fn the_latest_deploy_of_each_app_is_known() {
    let mut deploys: DashMap<String, DeployContext> = DashMap::new();
    let mut first = test_deploy_ctx();
    first.status = DeployStatus::Failed;
    record_deploy(&mut deploys, &first);
    let mut other = test_deploy_ctx();
    other.app = "other".to_string();
    record_deploy(&mut deploys, &other);
    let mut second = test_deploy_ctx();
    second.id = "dep_second".to_string();
    second.images = vec![("sidecar".to_string(), "redis:7".to_string())];
    record_deploy(&mut deploys, &second);
    assert_eq!(deploys.len(), 2);
    let known = deploys.get("testapp").unwrap();
    assert_eq!(known.id, "dep_second");
    assert_eq!(known.images, second.images);
    assert_eq!(deploys.get("other").unwrap().status, DeployStatus::Accepted);
}
