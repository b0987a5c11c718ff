use chrono::{DateTime, Duration as ChronoDuration, Utc};
use dashmap::DashMap;
use slip_core::config::{AppPreviewConfig, RepoResourceConfig, ResourceConfig, ServerPreviewConfig};
use slip_core::deploy::{AppStatus, DeployStatus};
use slip_core::error::{CaddyError, RuntimeError};
use slip_core::preview::{
    collect_expired_at, compute_expires_at, effective_preview_resources, is_datable,
    key_for, limits_are_countable, name_for, parse_ttl, pick_victims, plan_teardown, resolve_max_limit,
    resolve_preview_domain, update_preview_deploy_status, update_preview_status, DeployError, PersistedPreviewState,
    PreviewState, TeardownStep,
};
use slip_core::previews::collect_expired_previews;
use slip_core::time::{Duration, Timestamp};

fn stamp(t: DateTime<Utc>) -> Timestamp {
    Timestamp { secs: t.timestamp(), nanos: t.timestamp_subsec_nanos() }
}

fn moment(t: Timestamp) -> DateTime<Utc> {
    DateTime::from_timestamp(t.secs, t.nanos).unwrap()
}

fn table(previews: Vec<PreviewState>) -> DashMap<String, PreviewState> {
    let table = DashMap::new();
    for p in previews {
        table.insert(key_for(&p.app, &p.preview_id), p);
    }
    table
}

fn preview(app: &str, id: &str, deployed_at: DateTime<Utc>, expires_at: Option<DateTime<Utc>>) -> PreviewState {
    PreviewState {
        preview_id: id.to_string(),
        app: app.to_string(),
        sha: "sha".to_string(),
        status: AppStatus::Running,
        container_id: Some(format!("ctr-{}", id)),
        pod_name: None,
        port: Some(9001),
        tag: Some("v1".to_string()),
        deployed_at: stamp(deployed_at),
        expires_at: expires_at.map(stamp),
        domain: format!("{}.preview.example.com", id),
        manifest_path: None,
        deploy_id: None,
    }
}

fn sample_preview_state() -> PreviewState {
    PreviewState {
        preview_id: "pr-42".to_string(),
        app: "myapp".to_string(),
        sha: "abc123def456".to_string(),
        status: AppStatus::Running,
        container_id: Some("ctr-abc123".to_string()),
        pod_name: None,
        port: Some(54321),
        tag: Some("sha-abc123".to_string()),
        deployed_at: stamp(Utc::now()),
        expires_at: None,
        domain: "pr-42.preview.example.com".to_string(),
        manifest_path: None,
        deploy_id: Some("dep_transient".to_string()),
    }
}

#[test]
fn test_preview_state_to_persisted_omits_deploy_id() {
    let state = sample_preview_state();
    let persisted = PersistedPreviewState::from(&state);

    assert_eq!(persisted.preview_id, "pr-42");
    assert_eq!(persisted.app, "myapp");
    assert_eq!(persisted.sha, "abc123def456");
    assert_eq!(persisted.container_id.as_deref(), Some("ctr-abc123"));
    assert_eq!(persisted.port, Some(54321));
    assert_eq!(persisted.domain, "pr-42.preview.example.com");

    // deploy_id is NOT in PersistedPreviewState — compile-time guarantee.
}

#[test]
fn test_persisted_to_preview_state_infers_status_running() {
    let persisted = PersistedPreviewState {
        preview_id: "pr-1".to_string(),
        app: "app".to_string(),
        sha: "sha1".to_string(),
        container_id: Some("ctr-xyz".to_string()),
        pod_name: None,
        port: Some(9000),
        tag: Some("v1".to_string()),
        deployed_at: stamp(Utc::now()),
        expires_at: None,
        domain: "pr-1.preview.example.com".to_string(),
        manifest_path: None,
    };

    let state = PreviewState::from(persisted);
    assert_eq!(state.status, AppStatus::Running);
    assert!(state.deploy_id.is_none(), "deploy_id must be None after load");
}

#[test]
fn test_persisted_to_preview_state_infers_status_not_deployed() {
    let persisted = PersistedPreviewState {
        preview_id: "pr-2".to_string(),
        app: "app".to_string(),
        sha: "sha2".to_string(),
        container_id: None,
        pod_name: None,
        port: None,
        tag: None,
        deployed_at: stamp(Utc::now()),
        expires_at: None,
        domain: "pr-2.preview.example.com".to_string(),
        manifest_path: None,
    };

    let state = PreviewState::from(persisted);
    assert_eq!(state.status, AppStatus::NotDeployed);
}

#[test]
fn test_round_trip_preserves_key_fields() {
    let original = sample_preview_state();
    let persisted = PersistedPreviewState::from(&original);
    let restored = PreviewState::from(persisted);

    assert_eq!(restored.preview_id, original.preview_id);
    assert_eq!(restored.app, original.app);
    assert_eq!(restored.sha, original.sha);
    assert_eq!(restored.container_id, original.container_id);
    assert_eq!(restored.port, original.port);
    assert_eq!(restored.tag, original.tag);
    assert_eq!(restored.domain, original.domain);
    // deploy_id is transient and not persisted
    assert!(restored.deploy_id.is_none());
}

#[test]
fn a_pod_alone_counts_as_running_after_a_restart() {
    let mut state = sample_preview_state();
    state.container_id = None;
    state.pod_name = Some("pod".to_string());
    state.status = AppStatus::Deploying;
    let restored = PreviewState::from(PersistedPreviewState::from(&state));
    assert_eq!(restored.status, AppStatus::Running);
}

// ── Domain ────────────────────────────────────────────────────────────────

fn server_preview_config(domain: &str) -> Option<ServerPreviewConfig> {
    Some(ServerPreviewConfig {
        domain: domain.to_string(),
        max_per_app: None,
        default_ttl: None,
        max_memory: None,
        max_cpus: None,
    })
}

fn app_preview_config(domain: Option<&str>) -> Option<AppPreviewConfig> {
    Some(AppPreviewConfig { domain: domain.map(|d| d.to_string()), max: None })
}

/// App-level domain override takes precedence over server-level.
#[test]
fn test_resolve_domain_app_override_wins() {
    let result = resolve_preview_domain(
        "pr-42",
        "testapp",
        &server_preview_config("preview.server.com"),
        &app_preview_config(Some("preview.app.com")),
    );
    assert_eq!(result.unwrap(), "pr-42.preview.app.com");
}

/// Server-level domain is used when app has no domain override.
#[test]
fn test_resolve_domain_server_fallback() {
    let result = resolve_preview_domain(
        "pr-42",
        "testapp",
        &server_preview_config("preview.server.com"),
        &None, // no app preview config
    );
    assert_eq!(result.unwrap(), "pr-42.preview.server.com");
}

/// App-level config exists but without domain → falls back to server.
#[test]
fn test_resolve_domain_app_config_no_domain_falls_back_to_server() {
    let result = resolve_preview_domain(
        "pr-7",
        "testapp",
        &server_preview_config("preview.server.com"),
        &app_preview_config(None), // app config exists but domain is None
    );
    assert_eq!(result.unwrap(), "pr-7.preview.server.com");
}

/// Neither app nor server has preview domain → error.
#[test]
fn test_resolve_domain_neither_configured_returns_error() {
    let result = resolve_preview_domain(
        "pr-42", "testapp", &None, // no server preview config
        &None, // no app preview config
    );
    assert!(result.is_err(), "should return error when no domain configured");
    let err = result.unwrap_err().message().to_string();
    assert!(
        err.contains("not configured") || err.contains("domain"),
        "error should mention domain config: {err}"
    );
}

/// Preview ID is correctly included as subdomain prefix.
#[test]
fn test_resolve_domain_uses_preview_id_as_subdomain() {
    let result = resolve_preview_domain(
        "feature-foo-bar",
        "testapp",
        &server_preview_config("preview.example.com"),
        &None,
    );
    assert_eq!(result.unwrap(), "feature-foo-bar.preview.example.com");
}

// ── Lifetime ──────────────────────────────────────────────────────────────

#[test]
fn test_parse_ttl_hours() {
    let dur = parse_ttl("72h").unwrap();
    assert_eq!(ChronoDuration::seconds(dur), ChronoDuration::hours(72));
}

#[test]
fn test_parse_ttl_days() {
    let dur = parse_ttl("3d").unwrap();
    assert_eq!(ChronoDuration::seconds(dur), ChronoDuration::days(3));
}

#[test]
fn test_parse_ttl_minutes() {
    let dur = parse_ttl("30m").unwrap();
    assert_eq!(ChronoDuration::seconds(dur), ChronoDuration::minutes(30));
}

#[test]
fn test_parse_ttl_seconds() {
    let dur = parse_ttl("3600s").unwrap();
    assert_eq!(ChronoDuration::seconds(dur), ChronoDuration::seconds(3600));
}

#[test]
fn test_parse_ttl_invalid() {
    let err = parse_ttl("invalid").unwrap_err();
    assert!(err.message().contains("invalid TTL"), "error should mention TTL: {}", err.message());
}

#[test]
fn test_parse_ttl_no_suffix() {
    assert!(parse_ttl("42").is_err());
}

#[test]
fn ttl_bounds_are_those_of_the_time_span() {
    assert_eq!(parse_ttl(" 5m ").unwrap(), 300);
    assert_eq!(parse_ttl("-2h").unwrap(), -7200);
    assert_eq!(parse_ttl("+1d").unwrap(), 86400);
    assert!(parse_ttl("h").is_err());
    assert!(parse_ttl("").is_err());
    assert!(parse_ttl("9223372036854775807d").is_err());
    assert!(parse_ttl("9223372036854776s").is_err());
    assert_eq!(parse_ttl("9223372036854775s").unwrap(), 9223372036854775);
}

#[test]
fn test_compute_expires_at_repo_ttl_takes_priority() {
    let now = Utc::now();
    let repo_ttl = Some(Duration::from_secs(3600)); // 1 hour
    let server_ttl = Some("24h");

    let expires = compute_expires_at(stamp(now), repo_ttl, server_ttl).unwrap();

    // Should use repo TTL (1h), not server TTL (24h).
    let expected = now + ChronoDuration::hours(1);
    let expires = expires.map(moment).expect("should have expires_at");
    // Allow ±1 second for test timing.
    let diff = (expires - expected).num_seconds().abs();
    assert!(diff <= 1, "expires_at should be ~1h from now, diff: {diff}s");
    assert_eq!(expires, expected);
}

#[test]
fn test_compute_expires_at_falls_back_to_server_default() {
    let now = Utc::now();
    let repo_ttl: Option<Duration> = None; // no repo TTL
    let server_ttl = Some("24h");

    let expires = compute_expires_at(stamp(now), repo_ttl, server_ttl)
        .unwrap()
        .map(moment)
        .expect("should have expires_at from server default");

    let expected = now + ChronoDuration::hours(24);
    let diff = (expires - expected).num_seconds().abs();
    assert!(diff <= 1, "expires_at should be ~24h from now, diff: {diff}s");
}

#[test]
fn test_compute_expires_at_none_when_no_ttl_configured() {
    let now = Utc::now();
    let result = compute_expires_at(stamp(now), None, None).unwrap();
    assert!(result.is_none(), "expires_at should be None when no TTL");
}

#[test]
fn an_unreadable_ttl_is_an_error_and_a_huge_one_is_beyond_the_calendar() {
    let now = stamp(Utc::now());
    assert!(is_datable(now, None, Some("soon")));
    assert!(compute_expires_at(now, None, Some("soon")).is_err());
    // More milliseconds than a span can count.
    let eternity = Some(Duration::from_secs(u64::MAX));
    assert!(is_datable(now, eternity, None));
    let err = compute_expires_at(now, eternity, None).unwrap_err();
    assert!(err.message().starts_with("repo TTL out of range for chrono: "), "{}", err.message());
    // A span that can be counted, past the last year of the calendar.
    assert!(!is_datable(now, Some(Duration::from_secs(9_000_000_000_000_000)), None));
    // Nanoseconds carry over.
    let almost = Timestamp { secs: 10, nanos: 999_999_999 };
    let ttl = Duration::from_parts(1, 2);
    assert_eq!(
        compute_expires_at(almost, ttl, None).unwrap(),
        Some(Timestamp { secs: 12, nanos: 1 })
    );
}

// ── Expiry ────────────────────────────────────────────────────────────────

/// Expired preview (expires_at in the past) is returned by collect_expired_previews.
#[test]
fn test_collect_expired_previews_returns_expired() {
    let past = Utc::now() - ChronoDuration::hours(1);
    let mut states = table(vec![preview("app1", "pr-expired", past - ChronoDuration::hours(1), Some(past))]);

    let expired = collect_expired_previews(&mut states);
    assert_eq!(expired.len(), 1);
    assert_eq!(expired[0].0, "app1");
    assert_eq!(expired[0].1, "pr-expired");
}

/// Non-expired preview (expires_at in the future) is NOT returned.
#[test]
fn test_collect_expired_previews_keeps_non_expired() {
    let future = Utc::now() + ChronoDuration::hours(24);
    let mut states = table(vec![preview("app1", "pr-fresh", Utc::now(), Some(future))]);

    let expired = collect_expired_previews(&mut states);
    assert!(expired.is_empty(), "fresh preview should not be collected for reaping");
}

/// Preview with no expires_at (no TTL) is never expired.
#[test]
fn test_collect_expired_previews_ignores_no_expiry() {
    let mut states = table(vec![preview("app1", "pr-no-ttl", Utc::now() - ChronoDuration::days(100), None)]);

    let expired = collect_expired_previews(&mut states);
    assert!(expired.is_empty(), "preview with no TTL should never be reaped");
}

#[test]
fn a_preview_ends_at_its_very_moment() {
    let t = Utc::now();
    let states = vec![
        preview("a", "first", t, Some(t)),
        preview("a", "second", t, Some(t + ChronoDuration::nanoseconds(1))),
        preview("b", "third", t, Some(t - ChronoDuration::nanoseconds(1))),
    ];
    let ended = collect_expired_at(&states, stamp(t));
    assert_eq!(
        ended,
        vec![("a".to_string(), "first".to_string()), ("b".to_string(), "third".to_string())]
    );
}

// ── Limits ────────────────────────────────────────────────────────────────

#[test]
fn the_oldest_previews_make_room() {
    let t = Utc::now();
    let states = vec![
        preview("a", "young", t, None),
        preview("a", "oldest", t - ChronoDuration::hours(3), None),
        preview("b", "other", t - ChronoDuration::hours(9), None),
        preview("a", "middle", t - ChronoDuration::hours(2), None),
    ];
    assert_eq!(pick_victims(&states, "a", "new", 2), vec!["oldest", "middle"]);
    assert_eq!(pick_victims(&states, "a", "new", 3), vec!["oldest"]);
    assert!(pick_victims(&states, "a", "new", 4).is_empty());
    // A redeploy does not count itself.
    assert_eq!(pick_victims(&states, "a", "oldest", 2), vec!["middle"]);
    assert_eq!(pick_victims(&states, "a", "new", 0), vec!["oldest", "middle", "young"]);
}

#[test]
fn the_limit_is_the_repositorys_then_the_apps_then_the_servers() {
    let mut server = server_preview_config("d");
    let mut app = app_preview_config(None);
    assert_eq!(resolve_max_limit(None, &app, &server), None);
    if let Some(s) = server.as_mut() {
        s.max_per_app = Some(7);
    }
    assert_eq!(resolve_max_limit(None, &app, &server), Some(7));
    if let Some(a) = app.as_mut() {
        a.max = Some(5);
    }
    assert_eq!(resolve_max_limit(None, &app, &server), Some(5));
    assert_eq!(resolve_max_limit(Some(3), &app, &server), Some(3));
}

// ── Resources ─────────────────────────────────────────────────────────────

fn make_repo_resource(memory: Option<&str>, cpus: Option<&str>) -> Option<RepoResourceConfig> {
    Some(RepoResourceConfig { memory: memory.map(|s| s.to_string()), cpus: cpus.map(|s| s.to_string()) })
}

fn make_resource_config(memory: Option<&str>, cpus: Option<&str>) -> ResourceConfig {
    ResourceConfig { memory: memory.map(|s| s.to_string()), cpus: cpus.map(|s| s.to_string()) }
}

fn make_server_preview_config_with_limits(
    max_memory: Option<&str>,
    max_cpus: Option<&str>,
) -> Option<ServerPreviewConfig> {
    Some(ServerPreviewConfig {
        domain: "preview.example.com".to_string(),
        max_per_app: None,
        default_ttl: None,
        max_memory: max_memory.map(|s| s.to_string()),
        max_cpus: max_cpus.map(|s| s.to_string()),
    })
}

fn effective(
    repo: &Option<RepoResourceConfig>,
    server: &Option<ServerPreviewConfig>,
    base: &ResourceConfig,
) -> ResourceConfig {
    let repo_memory = repo.as_ref().and_then(|r| r.memory.clone());
    assert!(limits_are_countable(&repo_memory, server, &base.memory));
    let wanted = repo.as_ref().and_then(|r| r.cpus.clone()).or_else(|| base.cpus.clone());
    let cap = server.as_ref().and_then(|s| s.max_cpus.clone());
    let within = match (wanted, cap) {
        (Some(w), Some(c)) => match (w.parse::<f64>(), c.parse::<f64>()) {
            (Ok(w), Ok(c)) => w <= c,
            _ => false,
        },
        _ => false,
    };
    effective_preview_resources(repo, server, base, within)
}

/// Only repo resources set — no server caps — should use repo values.
#[test]
fn test_effective_preview_resources_repo_only() {
    let result = effective(
        &make_repo_resource(Some("256m"), Some("0.5")),
        &None, // no server caps
        &make_resource_config(Some("512m"), Some("1.0")),
    );
    assert_eq!(result.memory.as_deref(), Some("256m"));
    assert_eq!(result.cpus.as_deref(), Some("0.5"));
}

/// Repo requests more than server allows → capped at server maximum.
#[test]
fn test_effective_preview_resources_server_caps_memory() {
    let result = effective(
        &make_repo_resource(Some("1g"), Some("2.0")),
        &make_server_preview_config_with_limits(Some("512m"), Some("1.0")),
        &make_resource_config(None, None),
    );
    // 1g > 512m → capped to 512m
    assert_eq!(result.memory.as_deref(), Some("512m"));
    // 2.0 > 1.0 → capped to 1.0
    assert_eq!(result.cpus.as_deref(), Some("1.0"));
}

/// Neither repo nor server limits set → falls back to app defaults.
#[test]
fn test_effective_preview_resources_neither() {
    let app_default = make_resource_config(Some("128m"), Some("0.25"));
    let result = effective(
        &None, // no repo preview resources
        &None, // no server caps
        &app_default,
    );
    assert_eq!(result.memory.as_deref(), Some("128m"));
    assert_eq!(result.cpus.as_deref(), Some("0.25"));
}

/// Repo requests less than server cap → repo value is used (no artificial lowering).
#[test]
fn test_effective_preview_resources_repo_under_cap() {
    let result = effective(
        &make_repo_resource(Some("256m"), Some("0.5")),
        &make_server_preview_config_with_limits(Some("1g"), Some("2.0")),
        &make_resource_config(Some("512m"), Some("1.0")),
    );
    // repo (256m) < cap (1g) → use repo value
    assert_eq!(result.memory.as_deref(), Some("256m"));
    // repo (0.5) < cap (2.0) → use repo value
    assert_eq!(result.cpus.as_deref(), Some("0.5"));
}

/// No repo resources, server has a cap → cap applies to app default.
#[test]
fn test_effective_preview_resources_no_repo_cap_on_default() {
    // App default is 2g, server cap is 512m → result is 512m
    let result = effective(
        &None,
        &make_server_preview_config_with_limits(Some("512m"), None),
        &make_resource_config(Some("2g"), Some("1.0")),
    );
    assert_eq!(result.memory.as_deref(), Some("512m"));
    // No CPU cap set → keeps app default
    assert_eq!(result.cpus.as_deref(), Some("1.0"));
}

#[test]
fn a_request_counts_only_beside_a_cap_that_can_be_read() {
    let beyond = Some("8589934592g".to_string());
    let unreadable = make_server_preview_config_with_limits(Some("plenty"), None);
    assert!(limits_are_countable(&beyond, &unreadable, &None));
    let result = effective(
        &make_repo_resource(Some("8589934592g"), None),
        &unreadable,
        &make_resource_config(None, None),
    );
    assert_eq!(result.memory.as_deref(), Some("plenty"));
    let readable = make_server_preview_config_with_limits(Some("512m"), None);
    assert!(!limits_are_countable(&beyond, &readable, &None));
    assert!(limits_are_countable(&beyond, &make_server_preview_config_with_limits(None, None), &None));
}

#[test]
fn an_absent_or_unreadable_request_gets_the_cap() {
    let server = make_server_preview_config_with_limits(Some("512m"), Some("1.0"));
    let result = effective(&None, &server, &make_resource_config(None, None));
    assert_eq!(result.memory.as_deref(), Some("512m"));
    assert_eq!(result.cpus.as_deref(), Some("1.0"));
    let result = effective(&None, &server, &make_resource_config(Some("lots"), Some("many")));
    assert_eq!(result.memory.as_deref(), Some("512m"));
    assert_eq!(result.cpus.as_deref(), Some("1.0"));
}

// ── Names, status, teardown ───────────────────────────────────────────────

#[test]
fn keys_and_names_are_built_from_app_and_id() {
    assert_eq!(key_for("testapp", "pr-42"), "testapp:pr-42");
    assert_eq!(name_for("testapp", "pr-42"), "testapp-preview-pr-42");
}

#[test]
fn status_follows_the_deploy() {
    let mut entry = Some(sample_preview_state());
    update_preview_deploy_status(&mut entry, DeployStatus::Pulling);
    assert_eq!(entry.as_ref().unwrap().status, AppStatus::Deploying);
    update_preview_deploy_status(&mut entry, DeployStatus::Completed);
    assert_eq!(entry.as_ref().unwrap().status, AppStatus::Running);
    update_preview_deploy_status(&mut entry, DeployStatus::Failed);
    assert_eq!(entry.as_ref().unwrap().status, AppStatus::Failed);
    update_preview_status(&mut entry, AppStatus::NotDeployed);
    assert_eq!(entry.as_ref().unwrap().status, AppStatus::NotDeployed);
    let mut missing: Option<PreviewState> = None;
    update_preview_status(&mut missing, AppStatus::Running);
    assert!(missing.is_none());
}

#[test]
fn test_teardown_calls_remove_route_with_correct_name() {
    let mut state = sample_preview_state();
    state.pod_name = Some("pod".to_string());
    state.manifest_path = Some("/tmp/pod.yaml".to_string());
    let steps = plan_teardown(&Some(state), "testapp", "pr-42");
    assert_eq!(steps.len(), 5);
    assert!(matches!(&steps[0], TeardownStep::StopAndRemove { container } if container == "ctr-abc123"));
    assert!(matches!(&steps[1], TeardownStep::TeardownPod { manifest } if manifest == "/tmp/pod.yaml"));
    assert!(matches!(&steps[2], TeardownStep::RemoveRoute { app } if app == "testapp-preview-pr-42"));
    assert!(matches!(&steps[3], TeardownStep::Forget { key } if key == "testapp:pr-42"));
    assert!(matches!(&steps[4], TeardownStep::DeleteState { app, preview_id } if app == "testapp" && preview_id == "pr-42"));
}

#[test]
fn test_teardown_preview_happy_path() {
    let steps = plan_teardown(&Some(sample_preview_state()), "testapp", "pr-42");
    assert!(matches!(&steps[0], TeardownStep::StopAndRemove { container } if container == "ctr-abc123"));
    assert!(matches!(&steps[1], TeardownStep::RemoveRoute { app } if app == "testapp-preview-pr-42"));
    assert!(matches!(&steps[2], TeardownStep::Forget { key } if key == "testapp:pr-42"));
    assert_eq!(steps.len(), 4);
}

#[test]
fn test_teardown_preview_nonexistent_is_ok() {
    assert!(plan_teardown(&None, "testapp", "ghost").is_empty());
}

#[test]
fn errors_keep_their_words() {
    assert_eq!(DeployError::Message("boom".to_string()).message(), "boom");
    let from = DeployError::from_runtime(&RuntimeError::Unsupported("pods".to_string()));
    assert_eq!(from.message(), RuntimeError::Unsupported("pods".to_string()).message());
    let from = DeployError::from_caddy(&CaddyError::Http("x".to_string()));
    assert_eq!(from.message(), CaddyError::Http("x".to_string()).message());
}
