use slip_core::config::{
    AppConfig, AppInfo, DeployConfig, HealthConfig, NetworkConfig, RepoAppInfo, RepoConfig, RepoDefaults,
    RepoHealthConfig, RepoResourceConfig, RepoRouteEntry, RepoRoutingConfig, RepoVolume, ResourceConfig,
    RouteEntry, RoutingConfig, VolumeConfig,
};
use slip_core::error::ConfigError;
use slip_core::merge::merge_config;
use slip_core::time::Duration;

fn base_server_config() -> AppConfig {
    AppConfig {
        app: AppInfo {
            name: "testapp".to_string(),
            image: "ghcr.io/org/testapp".to_string(),
            secret: None,
        },
        routing: RoutingConfig {
            domain: Some("testapp.example.com".to_string()),
            port: Some(3000),
            routes: vec![],
        },
        health: HealthConfig {
            path: None,
            interval: Duration::from_secs(2),
            timeout: Duration::from_secs(5),
            retries: 5,
            start_period: Duration::from_secs(10),
            expect_status: None,
        },
        deploy: DeployConfig {
            strategy: "blue-green".to_string(),
            drain_timeout: Duration::from_secs(30),
            timeout: None,
        },
        env: Vec::new(),
        env_file: None,
        resources: ResourceConfig { memory: None, cpus: None },
        network: NetworkConfig { name: "slip".to_string() },
        preview: None,
        volumes: Vec::new(),
    }
}

fn minimal_repo_config(name: &str) -> RepoConfig {
    RepoConfig {
        app: RepoAppInfo {
            name: name.to_string(),
            kind: "container".to_string(),
            manifest: None,
            image: None,
        },
        health: RepoHealthConfig {
            path: None,
            container: None,
            interval: None,
            timeout: None,
            retries: None,
            start_period: None,
        },
        routing: RepoRoutingConfig { domain: None, port: None, container: None, routes: Vec::new() },
        defaults: RepoDefaults { resources: None },
        preview: None,
        volumes: Vec::new(),
        env: Vec::new(),
        deploy: None,
    }
}

// ── Server-only (no repo config fields) ──────────────────────────────────

#[test]
fn merge_server_only_unchanged() {
    let server = base_server_config();
    let repo = minimal_repo_config("testapp");

    let merged = merge_config(&server, &repo).unwrap();

    // App config should be unchanged
    assert_eq!(
        merged.app.routing.domain.as_deref(),
        Some("testapp.example.com")
    );
    assert_eq!(merged.app.routing.port, Some(3000));
    assert!(merged.app.health.path.is_none());
    assert!(merged.app.resources.memory.is_none());
    assert!(merged.app.resources.cpus.is_none());

    // Extra fields from repo
    assert_eq!(merged.kind, "container");
    assert!(merged.manifest.is_none());
    assert!(merged.preview.is_none());
}

// ── Repo provides health path; server has none ────────────────────────────

#[test]
fn merge_repo_provides_health_path() {
    let server = base_server_config();
    let mut repo = minimal_repo_config("testapp");
    repo.health.path = Some("/healthz".to_string());

    let merged = merge_config(&server, &repo).unwrap();

    assert_eq!(merged.app.health.path.as_deref(), Some("/healthz"));
}

// ── Server has health path; repo also has one — server wins ──────────────

#[test]
fn merge_server_health_path_wins() {
    let mut server = base_server_config();
    server.health.path = Some("/server-health".to_string());

    let mut repo = minimal_repo_config("testapp");
    repo.health.path = Some("/repo-health".to_string());

    let merged = merge_config(&server, &repo).unwrap();

    // Server's path should be preserved
    assert_eq!(merged.app.health.path.as_deref(), Some("/server-health"));
}

// ── Repo provides resource defaults; server has none ─────────────────────

#[test]
fn merge_repo_provides_resource_defaults() {
    let server = base_server_config();
    let mut repo = minimal_repo_config("testapp");
    repo.defaults.resources = Some(RepoResourceConfig {
        memory: Some("512m".to_string()),
        cpus: Some("0.5".to_string()),
    });

    let merged = merge_config(&server, &repo).unwrap();

    assert_eq!(merged.app.resources.memory.as_deref(), Some("512m"));
    assert_eq!(merged.app.resources.cpus.as_deref(), Some("0.5"));
}

// ── Server has explicit resources; repo has defaults — server wins ────────

#[test]
fn merge_server_resources_win_over_repo_defaults() {
    let mut server = base_server_config();
    server.resources.memory = Some("1g".to_string());
    server.resources.cpus = Some("2.0".to_string());

    let mut repo = minimal_repo_config("testapp");
    repo.defaults.resources = Some(RepoResourceConfig {
        memory: Some("256m".to_string()),
        cpus: Some("0.25".to_string()),
    });

    let merged = merge_config(&server, &repo).unwrap();

    // Server's resources should win
    assert_eq!(merged.app.resources.memory.as_deref(), Some("1g"));
    assert_eq!(merged.app.resources.cpus.as_deref(), Some("2.0"));
}

// ── Server has memory but not cpus — repo provides cpus default ──────────

#[test]
fn merge_partial_resource_override() {
    let mut server = base_server_config();
    server.resources.memory = Some("1g".to_string());
    // server.resources.cpus is None

    let mut repo = minimal_repo_config("testapp");
    repo.defaults.resources = Some(RepoResourceConfig {
        memory: Some("256m".to_string()),
        cpus: Some("0.5".to_string()),
    });

    let merged = merge_config(&server, &repo).unwrap();

    // Server's memory wins, repo's cpus fill the gap
    assert_eq!(merged.app.resources.memory.as_deref(), Some("1g"));
    assert_eq!(merged.app.resources.cpus.as_deref(), Some("0.5"));
}

// ── Kind and manifest come through from repo ──────────────────────────────

#[test]
fn merge_pod_kind_and_manifest() {
    let server = base_server_config();
    let mut repo = minimal_repo_config("testapp");
    repo.app.kind = "pod".to_string();
    repo.app.manifest = Some("pod.yaml".to_string());
    repo.health.container = Some("web".to_string());
    repo.routing.container = Some("web".to_string());

    let merged = merge_config(&server, &repo).unwrap();

    assert_eq!(merged.kind, "pod");
    assert_eq!(merged.manifest.as_deref(), Some("pod.yaml"));
    assert_eq!(merged.health_container.as_deref(), Some("web"));
    assert_eq!(merged.routing_container.as_deref(), Some("web"));
}

// ── Volume merge tests ────────────────────────────────────────────────────

fn server_with_volumes() -> AppConfig {
    let mut cfg = base_server_config();
    cfg.volumes = vec![
        VolumeConfig {
            host_path: "/data/app".to_string(),
            mount_path: "/app/data".to_string(),
            read_only: false,
        },
        VolumeConfig {
            host_path: "/data/config".to_string(),
            mount_path: "/app/config".to_string(),
            read_only: true,
        },
        VolumeConfig {
            host_path: "/data/extra".to_string(),
            mount_path: "/app/extra".to_string(),
            read_only: false,
        },
    ];
    cfg
}

fn repo_with_volumes() -> RepoConfig {
    let mut cfg = minimal_repo_config("testapp");
    cfg.volumes = vec![
        RepoVolume {
            mount_path: "/app/data".to_string(),
            read_only: false,
        },
        RepoVolume {
            mount_path: "/app/config".to_string(),
            read_only: false, // server overrides to true
        },
    ];
    cfg
}

#[test]
fn merge_volumes_server_only() {
    let server = server_with_volumes();
    let repo = minimal_repo_config("testapp");

    let merged = merge_config(&server, &repo).unwrap();

    // All server volumes should be present (no repo volumes to match)
    assert_eq!(merged.volumes.len(), 3);
    assert_eq!(merged.volumes[0].mount_path, "/app/data");
    assert_eq!(merged.volumes[0].host_path, "/data/app");
    assert_eq!(merged.volumes[1].mount_path, "/app/config");
    assert_eq!(merged.volumes[1].host_path, "/data/config");
    assert_eq!(merged.volumes[2].mount_path, "/app/extra");
    assert_eq!(merged.volumes[2].host_path, "/data/extra");
}

#[test]
fn merge_volumes_repo_only_errors() {
    let server = base_server_config(); // no server volumes
    let repo = repo_with_volumes();

    let result = merge_config(&server, &repo);

    assert!(result.is_err());
    match result.unwrap_err() {
        ConfigError::VolumeMissingHostPath { mount_path } => {
            assert_eq!(mount_path, "/app/data");
        }
        _ => panic!("expected VolumeMissingHostPath error"),
    }
}

#[test]
fn merge_volumes_matching() {
    let server = server_with_volumes();
    let repo = repo_with_volumes();

    let merged = merge_config(&server, &repo).unwrap();

    // Two matched volumes + one server-only extra
    assert_eq!(merged.volumes.len(), 3);

    // First: /app/data — server read_only=false, repo read_only=false → false
    assert_eq!(merged.volumes[0].mount_path, "/app/data");
    assert_eq!(merged.volumes[0].host_path, "/data/app");
    assert!(!merged.volumes[0].read_only);

    // Second: /app/config — server read_only=true → true (server wins)
    assert_eq!(merged.volumes[1].mount_path, "/app/config");
    assert_eq!(merged.volumes[1].host_path, "/data/config");
    assert!(merged.volumes[1].read_only);

    // Third: /app/extra — server-only extra volume
    assert_eq!(merged.volumes[2].mount_path, "/app/extra");
    assert_eq!(merged.volumes[2].host_path, "/data/extra");
}

#[test]
fn merge_volumes_read_only_server_wins() {
    let mut server = server_with_volumes();
    // Override /app/data to be read-only on server side
    for v in &mut server.volumes {
        if v.mount_path == "/app/data" {
            v.read_only = true;
        }
    }
    let repo = repo_with_volumes();

    let merged = merge_config(&server, &repo).unwrap();

    // Server's read_only=true should win
    let data_vol = merged
        .volumes
        .iter()
        .find(|v| v.mount_path == "/app/data")
        .unwrap();
    assert!(data_vol.read_only);
}

#[test]
fn merge_volumes_multiple_mount_paths() {
    let mut server = base_server_config();
    server.volumes = vec![
        VolumeConfig {
            host_path: "/data/one".to_string(),
            mount_path: "/mnt/one".to_string(),
            read_only: false,
        },
        VolumeConfig {
            host_path: "/data/two".to_string(),
            mount_path: "/mnt/two".to_string(),
            read_only: true,
        },
    ];
    let mut repo = minimal_repo_config("testapp");
    repo.volumes = vec![
        RepoVolume {
            mount_path: "/mnt/one".to_string(),
            read_only: false,
        },
        RepoVolume {
            mount_path: "/mnt/two".to_string(),
            read_only: false,
        },
    ];

    let merged = merge_config(&server, &repo).unwrap();

    assert_eq!(merged.volumes.len(), 2);
    assert_eq!(merged.volumes[0].mount_path, "/mnt/one");
    assert_eq!(merged.volumes[0].host_path, "/data/one");
    assert!(!merged.volumes[0].read_only);
    assert_eq!(merged.volumes[1].mount_path, "/mnt/two");
    assert_eq!(merged.volumes[1].host_path, "/data/two");
    assert!(merged.volumes[1].read_only); // server wins
}

// ── Multi-route merge tests ──────────────────────────────────────────────

#[test]
fn merge_multi_route_single_route_backward_compat() {
    // Single-route backward compat: server has domain/port, repo has port/container
    let server = base_server_config();
    let mut repo = minimal_repo_config("testapp");
    repo.routing.port = Some(8080);
    repo.routing.container = Some("web".to_string());

    let merged = merge_config(&server, &repo).unwrap();

    assert_eq!(merged.routes.len(), 1);
    assert_eq!(merged.routes[0].hostname, "testapp.example.com");
    assert_eq!(merged.routes[0].port, 8080);
    assert_eq!(merged.routes[0].container.as_deref(), Some("web"));
    assert_eq!(merged.routes[0].kind, "http");
}

#[test]
fn merge_multi_route_server_port_fallback() {
    // When repo doesn't specify port, fall back to server port
    let server = base_server_config();
    let mut repo = minimal_repo_config("testapp");
    repo.routing.port = None; // repo has no port

    let merged = merge_config(&server, &repo).unwrap();

    assert_eq!(merged.routes.len(), 1);
    assert_eq!(merged.routes[0].hostname, "testapp.example.com");
    assert_eq!(merged.routes[0].port, 3000); // falls back to server port
    assert!(merged.routes[0].container.is_none());
    assert_eq!(merged.routes[0].kind, "http");
}

#[test]
fn merge_multi_route_full_multi_route() {
    let mut server = base_server_config();
    server.routing.routes = vec![
        RouteEntry {
            hostname: "api.example.com".to_string(),
            port: None,
        },
        RouteEntry {
            hostname: "admin.example.com".to_string(),
            port: None,
        },
    ];

    let mut repo = minimal_repo_config("testapp");
    repo.routing.routes = vec![
        RepoRouteEntry {
            port: Some(3000),
            container: Some("web".to_string()),
            kind: "http".to_string(),
        },
        RepoRouteEntry {
            port: Some(3001),
            container: Some("admin".to_string()),
            kind: "http".to_string(),
        },
    ];

    let merged = merge_config(&server, &repo).unwrap();

    assert_eq!(merged.routes.len(), 2);
    assert_eq!(merged.routes[0].hostname, "api.example.com");
    assert_eq!(merged.routes[0].port, 3000);
    assert_eq!(merged.routes[0].container.as_deref(), Some("web"));
    assert_eq!(merged.routes[0].kind, "http");
    assert_eq!(merged.routes[1].hostname, "admin.example.com");
    assert_eq!(merged.routes[1].port, 3001);
    assert_eq!(merged.routes[1].container.as_deref(), Some("admin"));
    assert_eq!(merged.routes[1].kind, "http");
}

#[test]
fn merge_multi_route_length_mismatch_error() {
    let mut server = base_server_config();
    server.routing.routes = vec![RouteEntry {
        hostname: "api.example.com".to_string(),
        port: None,
    }];

    let mut repo = minimal_repo_config("testapp");
    repo.routing.routes = vec![
        RepoRouteEntry {
            port: Some(3000),
            container: None,
            kind: "http".to_string(),
        },
        RepoRouteEntry {
            port: Some(3001),
            container: None,
            kind: "http".to_string(),
        },
    ];

    let err = merge_config(&server, &repo).unwrap_err();
    match err {
        ConfigError::Merge(msg) => {
            assert!(msg.contains("route count mismatch"));
        }
        _ => panic!("expected Merge error, got: {err:?}"),
    }
}

#[test]
fn merge_multi_route_repo_only_error() {
    // Server has no routes at all (worker-like), but repo declares routes
    let mut server = base_server_config();
    server.routing.domain = None;
    server.routing.port = None;
    let mut repo = minimal_repo_config("testapp");
    repo.routing.routes = vec![RepoRouteEntry {
        port: Some(3000),
        container: None,
        kind: "http".to_string(),
    }];

    let err = merge_config(&server, &repo).unwrap_err();
    match err {
        ConfigError::Merge(msg) => {
            assert!(msg.contains("repo declares"));
        }
        _ => panic!("expected Merge error, got: {err:?}"),
    }
}

#[test]
fn merge_multi_route_worker_no_routes() {
    // Worker app: no routes in either config
    let mut server = base_server_config();
    server.routing.domain = None;
    server.routing.port = None;

    let repo = minimal_repo_config("testapp");

    let merged = merge_config(&server, &repo).unwrap();
    assert!(merged.routes.is_empty());
}

#[test]
fn merge_multi_route_kind_propagation() {
    // Verify kind is propagated from repo route to merged route
    let mut server = base_server_config();
    server.routing.routes = vec![
        RouteEntry {
            hostname: "api.example.com".to_string(),
            port: None,
        },
        RouteEntry {
            hostname: "worker.example.com".to_string(),
            port: None,
        },
    ];

    let mut repo = minimal_repo_config("testapp");
    repo.routing.routes = vec![
        RepoRouteEntry {
            port: Some(3000),
            container: Some("web".to_string()),
            kind: "http".to_string(),
        },
        RepoRouteEntry {
            port: Some(0),
            container: Some("worker".to_string()),
            kind: "worker".to_string(),
        },
    ];

    let merged = merge_config(&server, &repo).unwrap();

    assert_eq!(merged.routes.len(), 2);
    assert_eq!(merged.routes[0].kind, "http");
    assert_eq!(merged.routes[0].container.as_deref(), Some("web"));
    assert_eq!(merged.routes[1].kind, "worker");
    assert_eq!(merged.routes[1].container.as_deref(), Some("worker"));
}

#[test]
fn merge_multi_route_single_route_kind_default() {
    // Single-route backward compat: kind defaults to "http"
    let server = base_server_config();
    let mut repo = minimal_repo_config("testapp");
    repo.routing.port = Some(8080);

    let merged = merge_config(&server, &repo).unwrap();

    assert_eq!(merged.routes.len(), 1);
    assert_eq!(merged.routes[0].kind, "http");
}
