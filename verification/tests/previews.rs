use chrono::{DateTime, Duration as ChronoDuration, Utc};
use dashmap::DashMap;
use slip_core::config::{
    AppConfig, AppInfo, AppPreviewConfig, DeployConfig, HealthConfig, NetworkConfig, PreviewConfig, PreviewHooks,
    RepoAppInfo, RepoConfig, RepoDefaults, RepoHealthConfig, RepoResourceConfig, RepoRoutingConfig, RepoVolume,
    ResourceConfig, RoutingConfig, ServerPreviewConfig,
};
use slip_core::deploy::AppStatus;
use slip_core::error::{CaddyError, HealthError, RuntimeError};
use slip_core::preview::{key_for, plan_teardown, DeployError, PreviewDeployContext, PreviewState, TeardownStep};
use slip_core::preview_rollout::{PreviewAction, PreviewEvent};
use slip_core::previews::{
    begin_deploy, collect_expired_previews, find_preview, forget_preview, list_previews, reject_unknown, step_deploy,
};
use slip_core::rollout::{ConfigOutcome, WriteOutcome};
use slip_core::time::{Duration, Timestamp};

/// The world that preview deploys act on.
struct World {
    server: Option<ServerPreviewConfig>,
    app_config: Option<AppPreviewConfig>,
    previews: DashMap<String, PreviewState>,
    pull_ok: bool,
    config: Option<ConfigOutcome>,
    health_ok: bool,
    routes_ok: bool,
    exec: Vec<Result<String, RuntimeError>>,
    manifest: Option<Vec<u8>>,
    pod_port: u16,
    log: Vec<String>,
    commands: Vec<Vec<String>>,
    routes: Vec<(String, String, u16)>,
    memory: Vec<Option<String>>,
    cpus: Vec<Option<String>>,
}

fn stamp(t: DateTime<Utc>) -> Timestamp {
    Timestamp { secs: t.timestamp(), nanos: t.timestamp_subsec_nanos() }
}

fn moment(t: Timestamp) -> DateTime<Utc> {
    DateTime::from_timestamp(t.secs, t.nanos).unwrap()
}

impl World {
    fn new() -> World {
        World {
            server: Some(ServerPreviewConfig {
                domain: "preview.example.com".to_string(),
                max_per_app: None,
                default_ttl: None,
                max_memory: None,
                max_cpus: None,
            }),
            app_config: None,
            previews: DashMap::new(),
            pull_ok: true,
            config: Some(ConfigOutcome::ExtractFailed(RuntimeError::Unsupported("mock".to_string()))),
            health_ok: true,
            routes_ok: true,
            exec: Vec::new(),
            manifest: None,
            pod_port: 0,
            log: Vec::new(),
            commands: Vec::new(),
            routes: Vec::new(),
            memory: Vec::new(),
            cpus: Vec::new(),
        }
    }

    fn with(repo: RepoConfig) -> World {
        World { config: Some(ConfigOutcome::Parsed(repo)), ..World::new() }
    }

    fn count(&self, what: &str) -> usize {
        self.log.iter().filter(|l| l.as_str() == what).count()
    }

    fn find(&mut self, id: &str) -> Option<PreviewState> {
        find_preview(&mut self.previews, "testapp", id)
    }

    fn add(&mut self, p: PreviewState) {
        self.previews.insert(key_for(&p.app, &p.preview_id), p);
    }

    fn teardown(&mut self, app: &str, id: &str) {
        let entry = find_preview(&mut self.previews, app, id);
        for step in plan_teardown(&entry, app, id) {
            match step {
                TeardownStep::StopAndRemove { .. } => self.log.push("stop_and_remove".to_string()),
                TeardownStep::TeardownPod { .. } => self.log.push("teardown_pod".to_string()),
                TeardownStep::RemoveRoute { .. } => self.log.push("remove_route".to_string()),
                TeardownStep::Forget { key } => forget_preview(&mut self.previews, &key),
                TeardownStep::DeleteState { .. } => self.log.push("delete_state".to_string()),
            }
        }
    }

    fn act(&mut self, action: PreviewAction) -> Result<(String, PreviewEvent), Result<(), DeployError>> {
        let (name, event) = match action {
            PreviewAction::PullImage { .. } => {
                let result = if self.pull_ok {
                    Ok(())
                } else {
                    Err(RuntimeError::PullFailed("mock pull failure".to_string()))
                };
                ("pull_image", PreviewEvent::Pulled(result))
            }
            PreviewAction::ReadConfig { .. } => ("read_config", PreviewEvent::Config(self.config.take().unwrap())),
            PreviewAction::CompareCpus { requested, cap } => {
                let within = match (requested.map(|r| r.parse::<f64>()), cap.parse::<f64>()) {
                    (Some(Ok(r)), Ok(c)) => r <= c,
                    _ => false,
                };
                ("compare_cpus", PreviewEvent::CpusCompared(within))
            }
            PreviewAction::ListPreviews => {
                ("list_previews", PreviewEvent::Previews(list_previews(&mut self.previews)))
            }
            PreviewAction::TeardownPreview { app, preview_id } => {
                self.teardown(&app, &preview_id);
                ("teardown_preview", PreviewEvent::Over)
            }
            PreviewAction::StopAndRemove { .. } => ("stop_and_remove", PreviewEvent::Over),
            PreviewAction::TeardownPod { .. } => ("teardown_pod", PreviewEvent::Over),
            PreviewAction::RemoveRoute { .. } => ("remove_route", PreviewEvent::Over),
            PreviewAction::ExtractFile { .. } => ("extract_file", PreviewEvent::Extracted(Ok(self.manifest.clone()))),
            PreviewAction::WriteManifest { .. } => ("write_manifest", PreviewEvent::Written(WriteOutcome::Written)),
            PreviewAction::DeployPod { .. } => ("deploy_pod", PreviewEvent::PodDeployed(Ok(()))),
            PreviewAction::PodContainerPort { .. } => ("pod_port", PreviewEvent::Port(Ok(self.pod_port))),
            PreviewAction::CreateAndStart(req) => {
                self.memory.push(req.resources.memory);
                self.cpus.push(req.resources.cpus);
                ("create_and_start", PreviewEvent::Created(Ok(("preview-container-id".to_string(), 54321))))
            }
            PreviewAction::CheckHealth { .. } => {
                let result = if self.health_ok {
                    Ok(())
                } else {
                    Err(HealthError::Unhealthy { retries: 1, url: "http://127.0.0.1:54321/".to_string() })
                };
                ("check_health", PreviewEvent::Health(result))
            }
            PreviewAction::Exec { command, .. } => {
                self.commands.push(command);
                let result = if self.exec.is_empty() { Ok(String::new()) } else { self.exec.remove(0) };
                ("exec", PreviewEvent::Executed(result))
            }
            PreviewAction::SetRoute { app, domain, port } => {
                self.routes.push((app, domain, port));
                let result = if self.routes_ok {
                    Ok(())
                } else {
                    Err(CaddyError::RouteUpdateFailed("no".to_string()))
                };
                ("set_route", PreviewEvent::RouteSet(result))
            }
            PreviewAction::SaveState { .. } => ("save_state", PreviewEvent::Over),
            PreviewAction::Finish(result) => return Err(result),
        };
        Ok((name.to_string(), event))
    }

    fn deploy(&mut self) -> Result<(), DeployError> {
        let ctx = PreviewDeployContext {
            deploy_id: "dep_preview001".to_string(),
            app_name: "testapp".to_string(),
            image: "ghcr.io/org/testapp".to_string(),
            tag: "sha-abc123".to_string(),
            preview_id: "pr-42".to_string(),
            sha: "abc123".to_string(),
        };
        let mut config = test_app_config();
        config.preview = self.app_config.take();
        let (mut machine, mut action) = begin_deploy(
            &mut self.previews,
            ctx,
            self.server.take(),
            config,
            "/var/lib/slip".to_string(),
            None,
        )?;
        for _ in 0..200 {
            match self.act(action) {
                Ok((name, event)) => {
                    self.log.push(name);
                    assert!(machine.expects(&event), "{:?} in {:?}", event, machine.phase);
                    action = step_deploy(&mut self.previews, &mut machine, event);
                }
                Err(result) => return result,
            }
        }
        panic!("the deploy does not end");
    }
}

fn preview(id: &str, deployed_at: DateTime<Utc>) -> PreviewState {
    PreviewState {
        preview_id: id.to_string(),
        app: "testapp".to_string(),
        sha: "sha".to_string(),
        status: AppStatus::Running,
        container_id: Some(format!("ctr-{}", id)),
        pod_name: None,
        port: Some(51001),
        tag: Some("tag".to_string()),
        deployed_at: stamp(deployed_at),
        expires_at: None,
        domain: format!("{}.preview.example.com", id),
        manifest_path: None,
        deploy_id: None,
    }
}

fn test_app_config() -> AppConfig {
    AppConfig {
        app: AppInfo { name: "testapp".to_string(), image: "ghcr.io/org/testapp".to_string(), secret: None },
        routing: RoutingConfig {
            domain: Some("testapp.example.com".to_string()),
            port: Some(3000),
            routes: vec![],
        },
        health: HealthConfig {
            path: None,
            interval: Duration::from_millis(1),
            timeout: Duration::from_millis(10),
            retries: 1,
            start_period: Duration::zero(),
            expect_status: None,
        },
        deploy: DeployConfig {
            strategy: "blue-green".to_string(),
            drain_timeout: Duration::zero(),
            timeout: None,
        },
        env: Vec::new(),
        env_file: None,
        resources: ResourceConfig { memory: None, cpus: None },
        network: NetworkConfig { name: "slip".to_string() },
        preview: None,
        volumes: Vec::new(),
    }
}

fn repo(enabled: bool) -> RepoConfig {
    RepoConfig {
        app: RepoAppInfo {
            name: "testapp".to_string(),
            kind: "container".to_string(),
            manifest: None,
            image: None,
        },
        health: RepoHealthConfig {
            path: None,
            container: None,
            interval: None,
            timeout: None,
            retries: None,
            start_period: None,
        },
        routing: RepoRoutingConfig { domain: None, port: None, container: None, routes: Vec::new() },
        defaults: RepoDefaults { resources: None },
        preview: Some(PreviewConfig { enabled, ttl: None, max: None, resources: None, hooks: None }),
        volumes: Vec::new(),
        env: Vec::new(),
        deploy: None,
    }
}

fn repo_with_max(max: u32) -> RepoConfig {
    let mut r = repo(true);
    if let Some(p) = r.preview.as_mut() {
        p.max = Some(max);
    }
    r
}

fn repo_with_hooks(migrate: &str, seed: &str) -> RepoConfig {
    let mut r = repo(true);
    if let Some(p) = r.preview.as_mut() {
        p.hooks = Some(PreviewHooks { migrate: Some(migrate.to_string()), seed: Some(seed.to_string()) });
    }
    r
}

#[test]
fn test_preview_deploy_happy_path() {
    let mut world = World::with(repo(true));
    let result = world.deploy();
    assert!(result.is_ok(), "preview deploy should succeed: {result:?}");
    let state = world.find("pr-42").expect("state should exist");
    assert_eq!(state.status, AppStatus::Running);
    assert_eq!(state.container_id.as_deref(), Some("preview-container-id"));
    assert_eq!(state.port, Some(54321));
    assert_eq!(state.tag.as_deref(), Some("sha-abc123"));
    assert_eq!(state.preview_id, "pr-42");
    assert_eq!(state.app, "testapp");
    assert_eq!(world.count("set_route"), 1);
    assert_eq!(world.count("save_state"), 1, "preview state should be persisted to disk");
}

#[test]
fn test_preview_deploy_disabled_in_repo_config() {
    let mut world = World::with(repo(false));
    let err = world.deploy().expect_err("should fail when preview is disabled");
    assert!(err.message().contains("disabled"), "error should mention 'disabled': {}", err.message());
    assert_eq!(world.find("pr-42").expect("state should be inserted").status, AppStatus::Failed);
    assert_eq!(world.count("set_route"), 0);
}

#[test]
fn test_preview_deploy_no_repo_config() {
    let mut world = World::new();
    assert!(world.deploy().is_err(), "should fail without repo config");
    assert_eq!(world.find("pr-42").expect("state inserted").status, AppStatus::Failed);
}

#[test]
fn every_way_to_lack_a_configuration_fails() {
    for (outcome, message) in [
        (
            ConfigOutcome::Absent,
            "no /slip/slip.toml found in image \u{2014} preview requires repo config",
        ),
        (ConfigOutcome::ParseFailed("bad".to_string()), "failed to parse repo config: bad"),
        (
            ConfigOutcome::ExtractFailed(RuntimeError::NoPortAssigned),
            "failed to extract config from image: no host port assigned",
        ),
    ] {
        let mut world = World { config: Some(outcome), ..World::new() };
        assert_eq!(world.deploy().unwrap_err().message(), message);
    }
    let mut none = repo(true);
    none.preview = None;
    assert!(World::with(none).deploy().unwrap_err().message().contains("no [preview] section"));
    let mut other = repo(true);
    other.app.name = "other".to_string();
    assert_eq!(
        World::with(other).deploy().unwrap_err().message(),
        "repo config app name 'other' does not match deploy app 'testapp'"
    );
}

#[test]
fn limits_beyond_64_bits_do_not_hide_an_earlier_failure() {
    let greedy = |enabled: bool| {
        let mut r = repo(enabled);
        if let Some(p) = &mut r.preview {
            p.resources = Some(RepoResourceConfig { memory: Some("8589934592g".to_string()), cpus: None });
        }
        r
    };
    let fail = |r: RepoConfig| {
        let mut world = World::with(r);
        if let Some(s) = &mut world.server {
            s.max_memory = Some("512m".to_string());
        }
        let message = world.deploy().unwrap_err().message().to_string();
        assert_eq!(world.find("pr-42").unwrap().status, AppStatus::Failed);
        message
    };
    assert!(fail(greedy(false)).contains("disabled"));
    let mut other = greedy(true);
    other.app.name = "other".to_string();
    assert_eq!(fail(other), "repo config app name 'other' does not match deploy app 'testapp'");
    let mut unbacked = greedy(true);
    unbacked.volumes.push(RepoVolume { mount_path: "/data".to_string(), read_only: false });
    assert!(fail(unbacked).starts_with("config merge failed: "));
}

#[test]
fn test_preview_redeploy_stops_old_container() {
    let mut world = World::with(repo(true));
    let mut old = preview("pr-42", Utc::now());
    old.container_id = Some("old-container-id".to_string());
    world.add(old);
    let result = world.deploy();
    assert!(result.is_ok(), "redeploy should succeed: {result:?}");
    assert_eq!(world.count("stop_and_remove"), 1, "old container should be stopped exactly once");
    let state = world.find("pr-42").unwrap();
    assert_eq!(state.status, AppStatus::Running);
    assert_eq!(state.container_id.as_deref(), Some("preview-container-id"));
}

#[test]
fn test_preview_deploy_pull_failure() {
    let mut world = World { pull_ok: false, ..World::new() };
    let err = world.deploy().unwrap_err();
    assert!(err.message().contains("image pull failed"), "error: {}", err.message());
    assert_eq!(world.find("pr-42").unwrap().status, AppStatus::Failed);
}

#[test]
fn test_preview_deploy_health_failure() {
    let mut world = World { health_ok: false, ..World::with(repo(true)) };
    let err = world.deploy().unwrap_err();
    assert!(err.message().contains("health check failed"), "error: {}", err.message());
    assert_eq!(world.count("stop_and_remove"), 1, "container should be stopped after health failure");
    assert_eq!(world.find("pr-42").unwrap().status, AppStatus::Failed);
}

#[test]
fn a_failed_route_removes_the_container() {
    let mut world = World { routes_ok: false, ..World::with(repo(true)) };
    assert!(world.deploy().is_err());
    assert_eq!(world.count("stop_and_remove"), 1);
    assert_eq!(world.find("pr-42").unwrap().status, AppStatus::Failed);
}

#[test]
fn test_deploy_sets_correct_domain_from_server_config() {
    let mut world = World::with(repo(true));
    let result = world.deploy();
    assert!(result.is_ok(), "deploy should succeed: {result:?}");
    assert_eq!(world.find("pr-42").unwrap().domain, "pr-42.preview.example.com");
    assert_eq!(
        world.routes,
        vec![("testapp-preview-pr-42".to_string(), "pr-42.preview.example.com".to_string(), 54321)]
    );
}

#[test]
fn test_deploy_uses_app_level_domain_override() {
    let mut world = World::with(repo(true));
    world.app_config = Some(AppPreviewConfig { domain: Some("preview.app.com".to_string()), max: None });
    let result = world.deploy();
    assert!(result.is_ok(), "deploy should succeed: {result:?}");
    assert_eq!(world.find("pr-42").unwrap().domain, "pr-42.preview.app.com");
}

#[test]
fn test_deploy_fails_when_no_preview_domain_configured() {
    let mut world = World::with(repo(true));
    world.server = None;
    let err = world.deploy().expect_err("should fail when no domain configured");
    assert!(err.message().contains("domain") || err.message().contains("not configured"));
    assert_eq!(world.count("set_route"), 0);
    assert!(world.log.is_empty());
}

/// Deploying when max=2 and 2 existing previews → oldest is evicted.
#[test]
fn test_max_limit_eviction_evicts_oldest_when_at_max() {
    let mut world = World::with(repo_with_max(2));
    world.add(preview("pr-newer", Utc::now() - ChronoDuration::hours(1)));
    world.add(preview("pr-old", Utc::now() - ChronoDuration::hours(2)));
    let result = world.deploy();
    assert!(result.is_ok(), "deploy should succeed despite eviction: {result:?}");
    assert!(world.find("pr-old").is_none(), "oldest preview should be evicted");
    assert!(world.find("pr-newer").is_some());
    assert_eq!(world.find("pr-42").unwrap().status, AppStatus::Running);
    assert!(world.count("stop_and_remove") >= 1, "at least one container should be stopped for eviction");
}

/// Deploying when max=3 and only 1 existing preview → no eviction needed.
#[test]
fn test_max_limit_no_eviction_when_under_limit() {
    let mut world = World::with(repo_with_max(3));
    world.add(preview("pr-existing", Utc::now() - ChronoDuration::hours(1)));
    let result = world.deploy();
    assert!(result.is_ok(), "deploy should succeed: {result:?}");
    assert!(world.find("pr-existing").is_some());
    assert_eq!(world.find("pr-42").unwrap().status, AppStatus::Running);
    assert_eq!(world.count("stop_and_remove"), 0, "no eviction should occur when under limit");
}

/// When server default_ttl is configured, preview gets expires_at set.
#[test]
fn test_deploy_sets_expires_at_from_server_default_ttl() {
    let mut world = World::with(repo(true));
    if let Some(s) = world.server.as_mut() {
        s.default_ttl = Some("24h".to_string());
    }
    let before = Utc::now();
    let result = world.deploy();
    assert!(result.is_ok(), "deploy should succeed: {result:?}");
    let expires = world.find("pr-42").unwrap().expires_at.map(moment).expect("expires_at should be set");
    let expected = before + ChronoDuration::hours(24);
    assert!((expires - expected).num_seconds().abs() <= 5);
}

/// When no TTL is configured (repo or server), preview gets no expires_at.
#[test]
fn test_deploy_no_expires_at_when_no_ttl_configured() {
    let mut world = World::with(repo(true));
    let result = world.deploy();
    assert!(result.is_ok(), "deploy should succeed: {result:?}");
    assert!(world.find("pr-42").unwrap().expires_at.is_none());
}

#[test]
fn caps_reach_the_container() {
    let mut r = repo(true);
    if let Some(p) = r.preview.as_mut() {
        p.resources =
            Some(RepoResourceConfig { memory: Some("1g".to_string()), cpus: Some("0.5".to_string()) });
    }
    let mut world = World::with(r);
    if let Some(s) = world.server.as_mut() {
        s.max_memory = Some("512m".to_string());
        s.max_cpus = Some("1.0".to_string());
    }
    assert!(world.deploy().is_ok());
    assert_eq!(world.memory, vec![Some("512m".to_string())]);
    assert_eq!(world.cpus, vec![Some("0.5".to_string())]);
}

/// Both migrate and seed succeed → preview reaches Running.
#[test]
fn test_preview_deploy_hooks_success() {
    let mut world = World::with(repo_with_hooks("rails db:migrate", "rails db:seed"));
    world.exec = vec![Ok("Migrated OK".to_string()), Ok("Seeded OK".to_string())];
    let result = world.deploy();
    assert!(result.is_ok(), "should succeed when hooks pass: {result:?}");
    assert_eq!(world.find("pr-42").unwrap().status, AppStatus::Running);
    assert_eq!(world.count("exec"), 2, "both hooks should be executed");
}

/// Migrate hook fails → preview not Running, container stopped.
#[test]
fn test_preview_deploy_migrate_hook_failure() {
    let mut world = World::with(repo_with_hooks("rails db:migrate", "rails db:seed"));
    world.exec = vec![Err(RuntimeError::ExecFailed("migration error".to_string()))];
    let err = world.deploy().expect_err("should fail when migrate hook fails");
    assert!(matches!(err, DeployError::HookFailed(_)), "error should be HookFailed");
    assert!(err.message().contains("migrate"), "error should mention 'migrate': {}", err.message());
    assert!(world.count("stop_and_remove") >= 1, "container should be stopped after hook failure");
    assert_eq!(world.count("exec"), 1, "only migrate hook should be called");
    assert_eq!(world.find("pr-42").unwrap().status, AppStatus::Failed);
    assert_eq!(world.count("set_route"), 0);
    assert!(err.display().starts_with("hook failed: "));
}

/// Seed hook fails after migrate succeeds → preview not Running.
#[test]
fn test_preview_deploy_seed_hook_failure() {
    let mut world = World::with(repo_with_hooks("rails db:migrate", "rails db:seed"));
    world.exec =
        vec![Ok("Migrated OK".to_string()), Err(RuntimeError::ExecFailed("seed error".to_string()))];
    let err = world.deploy().expect_err("should fail when seed hook fails");
    assert!(matches!(err, DeployError::HookFailed(_)), "error should be HookFailed");
    assert!(err.message().contains("seed"), "error should mention 'seed': {}", err.message());
    assert_eq!(world.count("exec"), 2, "migrate and seed hooks should both be called");
    assert!(world.count("stop_and_remove") >= 1, "container should be stopped after seed failure");
    assert_eq!(world.count("set_route"), 0);
}

/// No hooks configured → deploy succeeds without any exec calls.
#[test]
fn test_preview_deploy_no_hooks() {
    let mut world = World::with(repo(true));
    let result = world.deploy();
    assert!(result.is_ok(), "should succeed with no hooks: {result:?}");
    assert_eq!(world.count("exec"), 0, "no exec calls when no hooks configured");
    assert_eq!(world.find("pr-42").unwrap().status, AppStatus::Running);
}

/// Migrate runs before seed (ordering guarantee).
#[test]
fn test_hook_ordering_migrate_before_seed() {
    let mut world = World::with(repo_with_hooks("migrate-cmd", "seed-cmd"));
    let result = world.deploy();
    assert!(result.is_ok(), "should succeed: {result:?}");
    assert_eq!(world.commands.len(), 2, "exactly two exec calls");
    assert_eq!(world.commands[0].last().map(|s| s.as_str()), Some("migrate-cmd"));
    assert_eq!(world.commands[1].last().map(|s| s.as_str()), Some("seed-cmd"));
    assert_eq!(world.commands[0], vec!["/bin/sh", "-c", "migrate-cmd"]);
}

#[test]
fn a_pod_preview_is_rendered_and_routed() {
    let mut r = repo(true);
    r.app.kind = "pod".to_string();
    r.app.manifest = Some("/slip/pod.yaml".to_string());
    r.routing.container = Some("web".to_string());
    let mut world = World::with(r);
    world.manifest = Some(
        b"metadata:\n  name: testapp\nspec:\n  containers:\n    - name: web\n      image: ghcr.io/org/testapp:latest\n"
            .to_vec(),
    );
    world.pod_port = 44444;
    let result = world.deploy();
    assert!(result.is_ok(), "{result:?}");
    let state = world.find("pr-42").unwrap();
    assert_eq!(state.port, Some(44444));
    assert!(state.pod_name.as_deref().unwrap().starts_with("testapp-preview-pr-42"));
    assert!(state.manifest_path.is_some());
}

// ── The table ─────────────────────────────────────────────────────────────

#[test]
fn a_deploy_leaves_other_previews_alone() {
    let mut world = World::with(repo(true));
    let t = Utc::now();
    world.add(preview("pr-7", t));
    world.health_ok = false;
    assert!(world.deploy().is_err());
    assert_eq!(world.find("pr-42").unwrap().status, AppStatus::Failed);
    let other = world.find("pr-7").unwrap();
    assert_eq!(other.status, AppStatus::Running);
    assert_eq!(other.container_id.as_deref(), Some("ctr-pr-7"));
    assert_eq!(other.deployed_at, stamp(t));
}

#[test]
fn every_preview_is_listed_once() {
    let mut world = World::new();
    for i in 0..50 {
        world.add(preview(&format!("pr-{i}"), Utc::now()));
    }
    let mut ids: Vec<String> = list_previews(&mut world.previews).into_iter().map(|p| p.preview_id).collect();
    ids.sort();
    let mut wanted: Vec<String> = (0..50).map(|i| format!("pr-{i}")).collect();
    wanted.sort();
    assert_eq!(ids, wanted);
}

#[test]
fn exactly_the_expired_previews_are_collected() {
    let mut world = World::new();
    let t = Utc::now();
    for (id, hours) in [("pr-1", -1), ("pr-2", 1), ("pr-3", -5)] {
        let mut p = preview(id, t);
        p.expires_at = Some(stamp(t + ChronoDuration::hours(hours)));
        world.add(p);
    }
    let mut found = collect_expired_previews(&mut world.previews);
    found.sort();
    assert_eq!(
        found,
        vec![
            ("testapp".to_string(), "pr-1".to_string()),
            ("testapp".to_string(), "pr-3".to_string())
        ]
    );
    assert_eq!(world.previews.len(), 3);
}

#[test]
fn a_preview_of_an_unknown_app_has_failed() {
    let mut world = World::new();
    world.add(preview("pr-42", Utc::now()));
    let ctx = PreviewDeployContext {
        deploy_id: "dep".to_string(),
        app_name: "testapp".to_string(),
        image: "image".to_string(),
        tag: "tag".to_string(),
        preview_id: "pr-42".to_string(),
        sha: "sha".to_string(),
    };
    reject_unknown(&mut world.previews, &ctx);
    assert_eq!(world.find("pr-42").unwrap().status, AppStatus::Failed);
    let missing = PreviewDeployContext { preview_id: "pr-43".to_string(), ..ctx };
    reject_unknown(&mut world.previews, &missing);
    assert!(world.find("pr-43").is_none());
}

#[test]
fn a_torn_down_preview_is_forgotten() {
    let mut world = World::new();
    world.add(preview("pr-1", Utc::now()));
    world.add(preview("pr-2", Utc::now()));
    world.teardown("testapp", "pr-1");
    assert!(world.find("pr-1").is_none());
    assert!(world.find("pr-2").is_some());
}
