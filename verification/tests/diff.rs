use serde_json::Value;
use slip_core::config::{
    DeployConfig, HealthConfig, NetworkConfig, RepoAppInfo, RepoConfig, RepoDefaults, RepoDeployConfig,
    RepoHealthConfig, RepoRoutingConfig, RepoVolume, ResourceConfig, RouteEntry, VolumeConfig,
};
use slip_core::diff::{
    build_create_payload, build_update_payload, compute_diff, normalize_server_to_repo, render_human_diff,
    repo_pushable, server_pushable, AppResponse, ApplyDiff, PatchOp,
};
use slip_core::time::Duration;

fn make_repo(overrides: impl FnOnce(&mut RepoConfig)) -> RepoConfig {
    let mut cfg = RepoConfig {
        app: RepoAppInfo {
            name: "testapp".to_string(),
            kind: "container".to_string(),
            manifest: None,
            image: None,
        },
        health: RepoHealthConfig {
            path: None,
            container: None,
            interval: None,
            timeout: None,
            retries: None,
            start_period: None,
        },
        routing: RepoRoutingConfig { domain: None, port: None, container: None, routes: Vec::new() },
        defaults: RepoDefaults { resources: None },
        preview: None,
        volumes: Vec::new(),
        env: Vec::new(),
        deploy: None,
    };
    overrides(&mut cfg);
    cfg
}

fn ops_json(ops: &[PatchOp]) -> String {
    let mut list: Vec<Value> = Vec::new();
    for op in ops {
        let mut entry = serde_json::Map::new();
        entry.insert("path".to_string(), Value::String(op.path().to_string()));
        let kind = match op {
            PatchOp::Add { value, .. } => {
                entry.insert("value".to_string(), value.clone());
                "add"
            }
            PatchOp::Replace { value, .. } => {
                entry.insert("value".to_string(), value.clone());
                "replace"
            }
            PatchOp::Remove { .. } => "remove",
            PatchOp::Other { .. } => "other",
        };
        entry.insert("op".to_string(), Value::String(kind.to_string()));
        list.push(Value::Object(entry));
    }
    Value::Array(list).to_string()
}

fn make_server(overrides: impl FnOnce(&mut AppResponse)) -> AppResponse {
    let mut resp = AppResponse {
        name: "testapp".to_string(),
        image: "nginx:latest".to_string(),
        domain: "testapp.example.com".to_string(),
        port: 8080,
        secret: None,
        env: Vec::new(),
        resources: ResourceConfig { memory: None, cpus: None },
        network: NetworkConfig { name: "slip".to_string() },
        health: HealthConfig {
            path: None,
            interval: Duration::from_secs(2),
            timeout: Duration::from_secs(5),
            retries: 5,
            start_period: Duration::from_secs(10),
            expect_status: None,
        },
        deploy: DeployConfig {
            strategy: "blue-green".to_string(),
            drain_timeout: Duration::from_secs(30),
            timeout: None,
        },
        preview: None,
        volumes: Vec::new(),
        routes: Vec::new(),
    };
    overrides(&mut resp);
    resp
}

#[test]
fn identical_configs_no_changes() {
    let repo = make_repo(|_| {});
    let server = make_server(|_| {});
    let diff = compute_diff(&repo, &server).unwrap();
    if diff.changed {
        for op in &diff.ops {
            println!("  unexpected op: path={:?}", op.path());
        }
    }
    assert!(!diff.changed);
    assert!(diff.ops.is_empty());
    assert_eq!(diff.schema, "slip.apply.diff/v1");
    assert_eq!(diff.app, "testapp");
}

#[test]
fn health_path_change_shows_replace() {
    let repo = make_repo(|r| {
        r.health.path = Some("/api/healthz".to_string());
    });
    let server = make_server(|s| {
        s.health.path = Some("/".to_string());
    });
    let diff = compute_diff(&repo, &server).unwrap();
    assert!(diff.changed);
    assert!(diff.ops.iter().any(|op| {
        matches!(op, PatchOp::Replace { path, .. } if path == "/health/path")
    }));
}

#[test]
fn env_add_remove_ops() {
    let repo = make_repo(|r| {
        r.env.push(("NEW_KEY".to_string(), "new_val".to_string()));
        r.env.push(("KEPT_KEY".to_string(), "kept_val".to_string()));
    });
    let mut server_env: Vec<(String, String)> = Vec::new();
    server_env.push(("OLD_KEY".to_string(), "old_val".to_string()));
    server_env.push(("KEPT_KEY".to_string(), "kept_val".to_string()));
    let server = make_server(|s| {
        s.env = server_env;
    });
    let diff = compute_diff(&repo, &server).unwrap();
    assert!(diff.changed);

    // Should have add for NEW_KEY and remove for OLD_KEY
    let has_add = diff
        .ops
        .iter()
        .any(|op| matches!(op, PatchOp::Add { path, .. } if path == "/env/NEW_KEY"));
    let has_remove = diff.ops.iter().any(
        |op| matches!(op, PatchOp::Remove { path, .. } if path == "/env/OLD_KEY"),
    );
    assert!(has_add, "should have add for NEW_KEY");
    assert!(has_remove, "should have remove for OLD_KEY");
}

#[test]
fn port_change_detected() {
    let repo = make_repo(|r| {
        r.routing.port = Some(3000);
    });
    let server = make_server(|s| {
        s.port = 8080;
    });
    let diff = compute_diff(&repo, &server).unwrap();
    assert!(diff.changed);
    assert!(diff.ops.iter().any(|op| {
        matches!(op, PatchOp::Replace { path, .. } if path == "/port")
    }));
}

#[test]
fn redaction_on_off() {
    let repo = make_repo(|r| {
        r.env.push(("SECRET".to_string(), "s3cret!".to_string()));
    });
    let server = make_server(|_| {});
    let diff = compute_diff(&repo, &server).unwrap();
    assert!(diff.changed);

    let redacted = render_human_diff(&diff, true);
    assert!(redacted.contains("(redacted)"));
    assert!(!redacted.contains("s3cret!"));

    let unredacted = render_human_diff(&diff, false);
    assert!(unredacted.contains("s3cret!"));
}

#[test]
fn stable_ordering() {
    let repo = make_repo(|r| {
        r.env.push(("b".to_string(), "2".to_string()));
        r.env.push(("a".to_string(), "1".to_string()));
        r.health.path = Some("/healthz".to_string());
    });
    let server = make_server(|_| {});

    let diff1 = compute_diff(&repo, &server).unwrap();
    let diff2 = compute_diff(&repo, &server).unwrap();

    // Same input should produce identical patch
    let json1 = ops_json(&diff1.ops);
    let json2 = ops_json(&diff2.ops);
    assert_eq!(json1, json2, "diff should be deterministic");
}

#[test]
fn build_update_payload_contains_env() {
    let repo = make_repo(|r| {
        r.env.push(("KEY".to_string(), "val".to_string()));
    });
    let payload = build_update_payload(&repo);
    assert_eq!(payload["env"]["KEY"], "val");
}

#[test]
fn build_update_payload_contains_health() {
    let repo = make_repo(|r| {
        r.health.path = Some("/healthz".to_string());
    });
    let payload = build_update_payload(&repo);
    assert_eq!(payload["health"]["path"], "/healthz");
}

#[test]
fn build_update_payload_contains_deploy() {
    let repo = make_repo(|r| {
        r.deploy = Some(RepoDeployConfig {
            strategy: Some("blue-green".to_string()),
            drain_timeout: Some(Duration::from_secs(30)),
            timeout: None,
        });
    });
    let payload = build_update_payload(&repo);
    assert_eq!(payload["deploy"]["strategy"], "blue-green");
}

#[test]
fn build_update_payload_contains_volumes() {
    let repo = make_repo(|r| {
        r.volumes = vec![RepoVolume {
            mount_path: "/app/data".to_string(),
            read_only: true,
        }];
    });
    let payload = build_update_payload(&repo);
    assert_eq!(payload["volumes"][0]["mount_path"], "/app/data");
    assert_eq!(payload["volumes"][0]["read_only"], true);
}

#[test]
fn build_create_payload_has_name() {
    let repo = make_repo(|r| {
        r.app.image = Some("ghcr.io/org/app:latest".to_string());
        r.routing.domain = Some("app.example.com".to_string());
    });
    let payload = build_create_payload(&repo).unwrap();
    assert_eq!(payload["name"], "testapp");
}

#[test]
fn render_human_diff_empty() {
    let diff = ApplyDiff {
        schema: "slip.apply.diff/v1".to_string(),
        app: "testapp".to_string(),
        changed: false,
        ops: vec![],
        create: None,
        message: None,
        status: None,
    };
    let output = render_human_diff(&diff, true);
    assert_eq!(output, "no changes — up to date");
}

#[test]
fn render_human_diff_shows_changes() {
    let diff = ApplyDiff {
        schema: "slip.apply.diff/v1".to_string(),
        app: "testapp".to_string(),
        changed: true,
        ops: vec![PatchOp::Replace {
                path: "/port".to_string(),
                value: Value::Number(3000.into()),
            }],
        create: None,
        message: None,
        status: None,
    };
    let output = render_human_diff(&diff, true);
    assert!(output.contains("~ /port"));
}

#[test]
fn zero_port_normalized_to_none() {
    // Server port=0 should be treated as "unset" — no spurious diff
    let repo = make_repo(|r| {
        r.routing.port = None;
    });
    let server = make_server(|s| {
        s.port = 0;
    });
    let diff = compute_diff(&repo, &server).unwrap();
    assert!(!diff.changed, "port=0 should normalize to None");
}

#[test]
fn empty_domain_normalized_to_none() {
    // Server domain="" should not cause spurious diffs
    let repo = make_repo(|_| {});
    let server = make_server(|s| {
        s.domain = String::new();
    });
    // domain is not in Pushable, so this should be no diff
    let diff = compute_diff(&repo, &server).unwrap();
    assert!(!diff.changed);
}

#[test]
fn redacted_method_obscures_env_values() {
    let diff = ApplyDiff {
        schema: "slip.apply.diff/v1".to_string(),
        app: "testapp".to_string(),
        changed: true,
        ops: vec![
            PatchOp::Add {
                path: "/env/SECRET".to_string(),
                value: Value::String("s3cret!".to_string()),
            },
            PatchOp::Replace {
                path: "/env/OTHER".to_string(),
                value: Value::String("other_val".to_string()),
            },
            PatchOp::Replace {
                path: "/port".to_string(),
                value: Value::Number(3000.into()),
            },
        ],
        create: None,
        message: None,
        status: None,
    };

    let redacted = diff.redacted();
    let json = ops_json(&redacted.ops);
    assert!(
        json.contains(r#""(redacted)""#),
        "redacted JSON should contain (redacted)"
    );
    assert!(
        !json.contains("s3cret!"),
        "redacted JSON should not contain raw env value"
    );
    assert!(
        !json.contains("other_val"),
        "redacted JSON should not contain other env value"
    );
    // Non-env ops should be unchanged
    assert!(json.contains("3000"), "non-env ops should be unchanged");
}

#[test]
fn build_create_payload_missing_image_errors() {
    let repo = make_repo(|_| {});
    let result = build_create_payload(&repo);
    assert!(result.is_err());
    let err = result.unwrap_err();
    assert!(
        err.contains("[app] image"),
        "error should mention [app] image"
    );
}

#[test]
fn build_create_payload_missing_domain_errors() {
    let repo = make_repo(|r| {
        r.app.image = Some("ghcr.io/org/app:latest".to_string());
    });
    let result = build_create_payload(&repo);
    assert!(result.is_err());
    let err = result.unwrap_err();
    assert!(
        err.contains("[routing] domain"),
        "error should mention [routing] domain"
    );
}

#[test]
fn build_create_payload_with_image_and_domain_succeeds() {
    let repo = make_repo(|r| {
        r.app.image = Some("ghcr.io/org/app:latest".to_string());
        r.routing.domain = Some("app.example.com".to_string());
    });
    let payload = build_create_payload(&repo).unwrap();
    assert_eq!(payload["name"], "testapp");
    assert_eq!(payload["image"], "ghcr.io/org/app:latest");
    assert_eq!(payload["domain"], "app.example.com");
}

#[test]
fn image_and_domain_in_diff() {
    let repo = make_repo(|r| {
        r.app.image = Some("ghcr.io/org/app:v2".to_string());
        r.routing.domain = Some("new.example.com".to_string());
    });
    let server = make_server(|s| {
        s.image = "ghcr.io/org/app:v1".to_string();
        s.domain = "old.example.com".to_string();
    });
    let diff = compute_diff(&repo, &server).unwrap();
    assert!(diff.changed);
    assert!(diff.ops.iter().any(|op| {
        matches!(op, PatchOp::Replace { path, .. } if path == "/image")
    }));
    assert!(diff.ops.iter().any(|op| {
        matches!(op, PatchOp::Replace { path, .. } if path == "/domain")
    }));
}

#[test]
fn payload_numbers_and_defaults_are_exact() {
    let repo = make_repo(|r| {
        r.app.image = Some("ghcr.io/org/app:v1".to_string());
        r.routing.domain = Some("app.example.com".to_string());
        r.routing.port = Some(3000);
        r.health.interval = Some(Duration::from_millis(1500));
        r.health.retries = Some(4);
        r.deploy = Some(RepoDeployConfig {
            strategy: None,
            drain_timeout: Some(Duration::from_secs(30)),
            timeout: None,
        });
    });
    let update = build_update_payload(&repo);
    assert_eq!(
        update.to_string(),
        concat_lines(&[
            r#"{"deploy":{"drain_timeout":30.0},"domain":"app.example.com","env":{},"#,
            r#""health":{"interval":1.5,"retries":4},"image":"ghcr.io/org/app:v1","port":3000,"volumes":[]}"#,
        ])
    );
    let create = build_create_payload(&repo).unwrap();
    assert_eq!(create["name"], "testapp");
    assert!(create.get("env").is_none());
    assert!(create.get("volumes").is_none());
    assert_eq!(create["health"]["interval"], 1.5);
}

fn concat_lines(parts: &[&str]) -> String {
    let mut out = String::new();
    for p in parts {
        out.push_str(p);
    }
    out
}

#[test]
fn create_errors_are_exact() {
    let err = build_create_payload(&make_repo(|_| {})).unwrap_err();
    assert_eq!(
        err,
        "cannot create app 'testapp': slip.toml is missing [app] image — add `image = \"ghcr.io/you/testapp\"` (and [routing] domain) or register the app first with the API"
    );
    let err = build_create_payload(&make_repo(|r| r.app.image = Some("img".to_string()))).unwrap_err();
    assert_eq!(
        err,
        "cannot create app 'testapp': slip.toml is missing [routing] domain — add `domain = \"testapp.example.com\"` under [routing] or register the app first with the API"
    );
}

#[test]
fn patch_paths_and_values_are_exact() {
    let repo = make_repo(|r| {
        r.env.push(("b".to_string(), "2".to_string()));
        r.env.push(("a".to_string(), "1".to_string()));
        r.routing.port = Some(3000);
    });
    let server = make_server(|s| {
        s.env.push(("gone".to_string(), "x".to_string()));
    });
    let diff = compute_diff(&repo, &server).unwrap();
    assert_eq!(
        render_human_diff(&diff, false),
        "+ /env/a = \"1\"\n+ /env/b = \"2\"\n~ /port = 3000\n\nwill remove env vars (not in slip.toml):\n  - gone"
    );
    assert_eq!(
        render_human_diff(&diff, true),
        "+ /env/a = \"(redacted)\"\n+ /env/b = \"(redacted)\"\n~ /port = 3000\n\nwill remove env vars (not in slip.toml):\n  - gone"
    );
}

#[test]
fn unknown_operations_are_shown_as_such() {
    let moved = json_patch::PatchOperation::Move(json_patch::MoveOperation::default());
    let diff = ApplyDiff {
        schema: "slip.apply.diff/v1".to_string(),
        app: "testapp".to_string(),
        changed: true,
        ops: vec![PatchOp::Other { path: "/x".to_string(), op: moved }],
        create: None,
        message: None,
        status: None,
    };
    assert_eq!(render_human_diff(&diff, true), "? /x (unknown operation)");
}

#[test]
fn operations_make_the_server_match() {
    let repo = make_repo(|r| {
        r.env.push(("A/B".to_string(), "1".to_string()));
        r.env.push(("C~D".to_string(), "2".to_string()));
        r.routing.port = Some(9090);
        r.health.interval = Some(Duration::from_millis(1500));
        r.volumes.push(RepoVolume { mount_path: "/data".to_string(), read_only: true });
    });
    let server = make_server(|s| {
        s.env.push(("C~D".to_string(), "0".to_string()));
        s.env.push(("OLD".to_string(), "x".to_string()));
        for path in ["/a", "/b", "/c"] {
            s.volumes.push(VolumeConfig {
                host_path: "/srv".to_string(),
                mount_path: path.to_string(),
                read_only: false,
            });
        }
    });
    let diff = compute_diff(&repo, &server).unwrap();
    assert!(diff.changed);

    let wanted = repo_pushable(&repo);
    let mut given = server_pushable(&server);
    normalize_server_to_repo(&wanted, &mut given);
    let mut doc = given.to_json().to_value();
    assert_ne!(doc, wanted.to_json().to_value());
    let patch: json_patch::Patch = serde_json::from_str(&ops_json(&diff.ops)).unwrap();
    json_patch::patch(&mut doc, &patch).unwrap();
    assert_eq!(doc, wanted.to_json().to_value());
    assert!(diff.ops.iter().any(|op| op.path() == "/env/A~1B"));
    assert!(diff.ops.iter().any(|op| op.path() == "/env/C~0D"));
    assert!(diff.ops.iter().any(|op| matches!(op, PatchOp::Remove { path } if path == "/volumes/1")));
}

#[test]
fn every_set_field_that_differs_is_a_change() {
    let server = make_server(|_| {});
    let retries = make_repo(|r| r.health.retries = Some(6));
    assert!(compute_diff(&retries, &server).unwrap().changed);
    let same = make_repo(|r| r.health.retries = Some(5));
    assert!(!compute_diff(&same, &server).unwrap().changed);
    let image = make_repo(|r| r.app.image = Some("nginx:1".to_string()));
    assert!(compute_diff(&image, &server).unwrap().changed);
    let env = make_repo(|r| r.env.push(("A".to_string(), String::new())));
    assert!(compute_diff(&env, &server).unwrap().changed);
}

#[test]
fn routes_of_the_server_alone_are_no_change() {
    let server = make_server(|s| {
        s.routes.push(RouteEntry { hostname: "api.example.com".to_string(), port: None });
    });
    let diff = compute_diff(&make_repo(|_| {}), &server).unwrap();
    assert!(!diff.changed);
    assert!(diff.ops.is_empty());

    let wanted = repo_pushable(&make_repo(|_| {}));
    let mut given = server_pushable(&server);
    assert_eq!(given.routes.len(), 1);
    normalize_server_to_repo(&wanted, &mut given);
    assert!(given.routes.is_empty());

    // Routes that the repo manages are compared.
    let mut kept = server_pushable(&server);
    normalize_server_to_repo(&server_pushable(&server), &mut kept);
    assert_eq!(kept.routes.len(), 1);
    assert_eq!(kept.routes[0].hostname, "api.example.com");
}

#[test]
fn differing_durations_are_a_change() {
    let server = make_server(|_| {});
    let interval = make_repo(|r| r.health.interval = Some(Duration::from_secs(3)));
    assert!(compute_diff(&interval, &server).unwrap().changed);
    let timeout = make_repo(|r| r.health.timeout = Some(Duration::from_secs(4)));
    assert!(compute_diff(&timeout, &server).unwrap().changed);
    let start = make_repo(|r| r.health.start_period = Some(Duration::from_secs(9_007_199_254_740_991)));
    assert!(compute_diff(&start, &server).unwrap().changed);
    let part = make_repo(|r| r.health.interval = Some(Duration::from_millis(1500)));
    assert!(compute_diff(&part, &server).unwrap().changed);
    let half = make_server(|s| s.health.interval = Duration::from_millis(500));
    assert!(compute_diff(&part, &half).unwrap().changed);
    // The longest spans below 2^22 seconds, a nanosecond apart.
    let long = make_repo(|r| r.health.timeout = Duration::from_parts(4_194_303, 999_999_999));
    let near = make_server(|s| s.health.timeout = Duration::from_parts(4_194_303, 999_999_998).unwrap());
    assert!(compute_diff(&long, &near).unwrap().changed);
    let next = make_server(|s| s.health.timeout = Duration::from_secs(4_194_304));
    assert!(compute_diff(&long, &next).unwrap().changed);
    let same = make_repo(|r| {
        r.health.interval = Some(Duration::from_secs(2));
        r.health.timeout = Some(Duration::from_secs(5));
        r.health.start_period = Some(Duration::from_secs(10));
    });
    assert!(!compute_diff(&same, &server).unwrap().changed);
}

#[test]
fn differing_volumes_are_a_change() {
    let repo = make_repo(|r| r.volumes.push(RepoVolume { mount_path: "/data".to_string(), read_only: true }));
    let volume = |read_only: bool| VolumeConfig {
        host_path: "/srv/data".to_string(),
        mount_path: "/data".to_string(),
        read_only,
    };
    assert!(compute_diff(&repo, &make_server(|_| {})).unwrap().changed);
    assert!(compute_diff(&repo, &make_server(|s| s.volumes.push(volume(false)))).unwrap().changed);
    assert!(!compute_diff(&repo, &make_server(|s| s.volumes.push(volume(true)))).unwrap().changed);
}

#[test]
fn operations_stay_out_of_what_the_repo_leaves_open() {
    let repo = make_repo(|r| {
        r.health.path = Some("/up".to_string());
        r.env.push(("A".to_string(), "1".to_string()));
    });
    let server = make_server(|s| {
        s.routes.push(RouteEntry { hostname: "api.example.com".to_string(), port: Some(8081) });
    });
    let diff = compute_diff(&repo, &server).unwrap();
    assert!(diff.changed);
    for op in &diff.ops {
        let path = op.path();
        assert!(path == "/env" || path.starts_with("/env/") || path == "/health/path" || path == "/health");
        assert!(!path.starts_with("/routes") && !path.starts_with("/deploy") && !path.starts_with("/health/interval"));
    }
}
