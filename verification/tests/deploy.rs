use slip_core::config::{
    AppConfig, AppInfo, DeployConfig, HealthConfig, NetworkConfig, ResourceConfig, RoutingConfig, ServerDeployConfig,
    SlipConfig,
};
use slip_core::deploy::{
    format_duration, format_health_reason, parse_image_ref, resolve_deploy_timeout, resolve_env_vars_for_app,
    resolve_preview_timeout, DeployContext, DeployStatus, TriggerSource,
};
use slip_core::error::HealthError;
use slip_core::time::{Duration, Timestamp};

fn app_config(env: &[(&str, &str)]) -> AppConfig {
    AppConfig {
        app: AppInfo { name: "testapp".to_string(), image: "ghcr.io/org/testapp".to_string(), secret: None },
        routing: RoutingConfig {
            domain: Some("testapp.example.com".to_string()),
            port: Some(3000),
            routes: vec![],
        },
        health: HealthConfig {
            path: None,
            interval: Duration::from_millis(1),
            timeout: Duration::from_millis(10),
            retries: 1,
            start_period: Duration::zero(),
            expect_status: None,
        },
        deploy: DeployConfig {
            strategy: "blue-green".to_string(),
            drain_timeout: Duration::zero(),
            timeout: None,
        },
        env: env.iter().map(|(k, v)| (k.to_string(), v.to_string())).collect(),
        env_file: None,
        resources: ResourceConfig { memory: None, cpus: None },
        network: NetworkConfig { name: "slip".to_string() },
        preview: None,
        volumes: Vec::new(),
    }
}

fn pairs(list: &[(&str, &str)]) -> Vec<(String, String)> {
    list.iter().map(|(k, v)| (k.to_string(), v.to_string())).collect()
}

#[test]
fn test_resolve_env_vars_without_secrets() {
    let app_config = app_config(&[("KEY_A", "val_a"), ("KEY_B", "val_b")]);
    let vars = resolve_env_vars_for_app(&app_config, &None, &None);
    assert_eq!(vars.len(), 2);
    assert!(vars.contains(&"KEY_A=val_a".to_string()));
    assert!(vars.contains(&"KEY_B=val_b".to_string()));
}

#[test]
fn test_resolve_env_vars_with_secrets() {
    let app_config = app_config(&[("KEY_A", "val_a")]);
    let secrets = Some(pairs(&[("DB_URL", "postgres://secret/db"), ("API_KEY", "sk-secret")]));
    let vars = resolve_env_vars_for_app(&app_config, &None, &secrets);
    assert_eq!(vars.len(), 3);
    assert!(vars.contains(&"KEY_A=val_a".to_string()));
    assert!(vars.contains(&"DB_URL=postgres://secret/db".to_string()));
    assert!(vars.contains(&"API_KEY=sk-secret".to_string()));
}

#[test]
fn test_secrets_override_env() {
    let app_config = app_config(&[("DB_URL", "env-value")]);
    let secrets = Some(pairs(&[("DB_URL", "secret-value")]));
    let vars = resolve_env_vars_for_app(&app_config, &None, &secrets);
    // Only one entry for DB_URL, and it should be the secret value
    assert_eq!(vars.len(), 1);
    assert_eq!(vars[0], "DB_URL=secret-value");
}

#[test]
fn test_deploy_without_secrets_still_works() {
    let app_config = app_config(&[("KEY_A", "val_a")]);
    let vars = resolve_env_vars_for_app(&app_config, &None, &None);
    assert_eq!(vars, vec!["KEY_A=val_a"]);
}

#[test]
fn env_file_lines_are_trimmed_and_comments_skipped() {
    let app_config = app_config(&[("A", "1")]);
    let file = Some("  B=2 \r\n\n# comment\n   # another\nC=3".to_string());
    let vars = resolve_env_vars_for_app(&app_config, &file, &Some(pairs(&[("B", "secret")])));
    assert_eq!(vars, vec!["A=1", "C=3", "B=secret"]);
}

#[test]
fn parse_image_ref_standard_tag() {
    let (image, tag) = parse_image_ref("ghcr.io/org/app:v1.2.3");
    assert_eq!(image, "ghcr.io/org/app");
    assert_eq!(tag, "v1.2.3");
}

#[test]
fn parse_image_ref_digest() {
    let (image, tag) = parse_image_ref("ghcr.io/org/app@sha256:abc123def456");
    assert_eq!(image, "ghcr.io/org/app");
    assert_eq!(tag, "sha256:abc123def456");
}

#[test]
fn parse_image_ref_no_tag_defaults_latest() {
    let (image, tag) = parse_image_ref("ghcr.io/org/app");
    assert_eq!(image, "ghcr.io/org/app");
    assert_eq!(tag, "latest");
}

#[test]
fn parse_image_ref_short_name() {
    let (image, tag) = parse_image_ref("redis:7-alpine");
    assert_eq!(image, "redis");
    assert_eq!(tag, "7-alpine");
}

#[test]
fn parse_image_ref_registry_with_port() {
    // registry:5000 is a port, not a tag
    let (image, tag) = parse_image_ref("registry:5000/img:v1");
    assert_eq!(image, "registry:5000/img");
    assert_eq!(tag, "v1");
}

#[test]
fn a_port_is_no_tag() {
    let (image, tag) = parse_image_ref("registry:5000/img");
    assert_eq!(image, "registry:5000/img");
    assert_eq!(tag, "latest");
    let (image, tag) = parse_image_ref("registry:5000/org/img@sha256:abc");
    assert_eq!(image, "registry:5000/org/img");
    assert_eq!(tag, "sha256:abc");
}

#[test]
fn statuses_round_trip_and_unknown_is_failed() {
    for s in [
        DeployStatus::Accepted,
        DeployStatus::Pulling,
        DeployStatus::Configuring,
        DeployStatus::Starting,
        DeployStatus::HealthChecking,
        DeployStatus::Switching,
        DeployStatus::StoppingOld,
        DeployStatus::RemovingRoute,
        DeployStatus::RestartingOld,
        DeployStatus::Completed,
        DeployStatus::Failed,
    ] {
        assert_eq!(DeployStatus::from_name(s.as_str()), s);
    }
    assert_eq!(DeployStatus::from_name("interrupted"), DeployStatus::Failed);
}

#[test]
fn health_reasons_are_tagged() {
    let unexpected = HealthError::UnexpectedStatus {
        expected: "200".to_string(),
        actual: 307,
        url: "http://127.0.0.1:54321/health".to_string(),
        attempts: 3,
    };
    assert_eq!(
        format_health_reason(&unexpected),
        "[health_unexpected_status] health check failed: expected 200, got 307 at http://127.0.0.1:54321/health after 3 attempts"
    );
    let unhealthy = HealthError::Unhealthy { retries: 3, url: "http://127.0.0.1:54321/health".to_string() };
    assert_eq!(
        format_health_reason(&unhealthy),
        "[health_check_failed] health check failed: unhealthy after 3 attempts at http://127.0.0.1:54321/health"
    );
}

#[test]
fn time_limits_fall_back_from_app_to_server_to_ten_minutes() {
    let mut config = SlipConfig { registries: Vec::new(), preview: None, deploy: None };
    let mut app = app_config(&[]).deploy;
    assert_eq!(format_duration(resolve_deploy_timeout(&config, &app)), "10m0s");
    config.deploy = Some(ServerDeployConfig {
        timeout: Duration::from_secs(61),
        preview_timeout: Duration::from_secs(62),
    });
    assert_eq!(format_duration(resolve_deploy_timeout(&config, &app)), "1m1s");
    assert_eq!(format_duration(resolve_preview_timeout(&config, &app)), "1m2s");
    app.timeout = Some(Duration::from_secs(3));
    assert_eq!(format_duration(resolve_deploy_timeout(&config, &app)), "0m3s");
    assert_eq!(format_duration(resolve_preview_timeout(&config, &app)), "0m3s");
}

#[test]
fn failing_records_status_time_and_error() {
    let mut ctx = DeployContext::new(
        "dep_1".to_string(),
        "testapp".to_string(),
        "img".to_string(),
        "v1".to_string(),
        TriggerSource::Cli,
    );
    assert_eq!(ctx.status, DeployStatus::Accepted);
    // The clock is read: later than the start of 2020.
    assert!(ctx.started_at.secs > 1_577_836_800);
    ctx.fail_at("boom", Timestamp { secs: 7, nanos: 0 });
    assert_eq!(ctx.status, DeployStatus::Failed);
    assert_eq!(ctx.finished_at, Some(Timestamp { secs: 7, nanos: 0 }));
    assert_eq!(ctx.error.as_deref(), Some("boom"));
    ctx.fail("again");
    assert!(ctx.finished_at.unwrap().secs > 1_577_836_800);
}
