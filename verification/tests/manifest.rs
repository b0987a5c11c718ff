use serde_yaml::Value;
use slip_core::manifest::{
    apply_sidecar_overrides, inject_volumes, render_manifest, resolve_tag_placeholders, sanitize_volume_name,
    ManifestError, RenderContext,
};
use slip_core::merge::MergedVolume;
use slip_core::yaml::Yaml;

const FIXTURE: &str = r#"
apiVersion: v1
kind: Pod
metadata:
  name: stat-stream
  labels:
    app: stat-stream
spec:
  containers:
    - name: web
      image: ghcr.io/org/stat-stream:latest
      ports:
        - containerPort: 3000
          hostPort: 3000
      env:
        - name: EXISTING_VAR
          value: "keep-me"
    - name: redis
      image: redis:7-alpine
      ports:
        - containerPort: 6379
          hostPort: 6379
"#;

fn base_ctx() -> RenderContext {
    RenderContext {
        app_name: "stat-stream".to_string(),
        tag: "abc123".to_string(),
        primary_image: "ghcr.io/org/stat-stream".to_string(),
        pod_suffix: "01abc".to_string(),
        env_vars: vec![],
        image_overrides: Vec::new(),
        volumes: Vec::new(),
    }
}

fn parse_output(yaml: &str) -> Value {
    serde_yaml::from_str(yaml).expect("output must be valid YAML")
}

fn get_containers(doc: &Value) -> &Vec<Value> {
    doc["spec"]["containers"]
        .as_sequence()
        .expect("spec.containers must be a sequence")
}

fn get_init_containers(doc: &Value) -> &Vec<Value> {
    doc["spec"]["initContainers"]
        .as_sequence()
        .expect("spec.initContainers must be a sequence")
}

// 1. Pod name gets the suffix appended.
#[test]
fn render_sets_versioned_pod_name() {
    let ctx = base_ctx();
    let yaml = render_manifest(FIXTURE.as_bytes(), &ctx).unwrap();
    let doc = parse_output(&yaml);
    assert_eq!(
        doc["metadata"]["name"].as_str().unwrap(),
        "stat-stream-01abc"
    );
}

// 2. Primary image tag is updated.
#[test]
fn render_updates_primary_image_tag() {
    let ctx = base_ctx();
    let yaml = render_manifest(FIXTURE.as_bytes(), &ctx).unwrap();
    let doc = parse_output(&yaml);
    let containers = get_containers(&doc);
    let web = containers
        .iter()
        .find(|c| c["name"].as_str() == Some("web"))
        .unwrap();
    assert_eq!(
        web["image"].as_str().unwrap(),
        "ghcr.io/org/stat-stream:abc123"
    );
}

// 3. Sidecar image is preserved when there is no override.
#[test]
fn render_preserves_sidecar_image() {
    let ctx = base_ctx();
    let yaml = render_manifest(FIXTURE.as_bytes(), &ctx).unwrap();
    let doc = parse_output(&yaml);
    let containers = get_containers(&doc);
    let redis = containers
        .iter()
        .find(|c| c["name"].as_str() == Some("redis"))
        .unwrap();
    assert_eq!(redis["image"].as_str().unwrap(), "redis:7-alpine");
}

// 4. Sidecar image is replaced when an override is provided.
#[test]
fn render_applies_sidecar_override() {
    let mut ctx = base_ctx();
    ctx.image_overrides
        .push(("redis".to_string(), "redis:8-alpine".to_string()));
    let yaml = render_manifest(FIXTURE.as_bytes(), &ctx).unwrap();
    let doc = parse_output(&yaml);
    let containers = get_containers(&doc);
    let redis = containers
        .iter()
        .find(|c| c["name"].as_str() == Some("redis"))
        .unwrap();
    assert_eq!(redis["image"].as_str().unwrap(), "redis:8-alpine");
}

// 5. All hostPorts become 0.
#[test]
fn render_sets_host_port_zero() {
    let ctx = base_ctx();
    let yaml = render_manifest(FIXTURE.as_bytes(), &ctx).unwrap();
    let doc = parse_output(&yaml);
    let containers = get_containers(&doc);
    for container in containers {
        if let Some(ports) = container["ports"].as_sequence() {
            for port in ports {
                assert_eq!(
                    port["hostPort"].as_u64().unwrap(),
                    0,
                    "hostPort must be 0 in container {:?}",
                    container["name"]
                );
            }
        }
    }
}

// 6. New env vars are injected into all containers.
#[test]
fn render_injects_env_vars() {
    let mut ctx = base_ctx();
    ctx.env_vars = vec!["SECRET_KEY=hunter2".to_string(), "PORT=3000".to_string()];
    let yaml = render_manifest(FIXTURE.as_bytes(), &ctx).unwrap();
    let doc = parse_output(&yaml);
    let containers = get_containers(&doc);

    for container in containers {
        let env = container["env"].as_sequence().expect("env must exist");
        let has_secret = env.iter().any(|e| {
            e["name"].as_str() == Some("SECRET_KEY") && e["value"].as_str() == Some("hunter2")
        });
        let has_port = env
            .iter()
            .any(|e| e["name"].as_str() == Some("PORT") && e["value"].as_str() == Some("3000"));
        assert!(
            has_secret,
            "container {:?} missing SECRET_KEY",
            container["name"]
        );
        assert!(has_port, "container {:?} missing PORT", container["name"]);
    }
}

// 7. Pre-existing env vars are not overwritten.
#[test]
fn render_no_clobber_existing_env() {
    let mut ctx = base_ctx();
    ctx.env_vars = vec!["EXISTING_VAR=new-value".to_string()];
    let yaml = render_manifest(FIXTURE.as_bytes(), &ctx).unwrap();
    let doc = parse_output(&yaml);
    let containers = get_containers(&doc);
    let web = containers
        .iter()
        .find(|c| c["name"].as_str() == Some("web"))
        .unwrap();
    let env = web["env"].as_sequence().unwrap();
    let existing: Vec<_> = env
        .iter()
        .filter(|e| e["name"].as_str() == Some("EXISTING_VAR"))
        .collect();
    assert_eq!(existing.len(), 1, "EXISTING_VAR must appear exactly once");
    assert_eq!(existing[0]["value"].as_str().unwrap(), "keep-me");
}

// 8. Env array is created when the container has none.
#[test]
fn render_creates_env_array_if_missing() {
    let mut ctx = base_ctx();
    ctx.env_vars = vec!["NEW_VAR=hello".to_string()];
    let yaml = render_manifest(FIXTURE.as_bytes(), &ctx).unwrap();
    let doc = parse_output(&yaml);
    let containers = get_containers(&doc);
    // `redis` container has no `env` in the fixture.
    let redis = containers
        .iter()
        .find(|c| c["name"].as_str() == Some("redis"))
        .unwrap();
    let env = redis["env"]
        .as_sequence()
        .expect("env array must be created");
    let has_new = env.iter().any(|e| e["name"].as_str() == Some("NEW_VAR"));
    assert!(has_new, "NEW_VAR must be injected into redis container");
}

// 9. Name > 63 chars returns NameTooLong.
#[test]
fn render_name_too_long_errors() {
    // Build a manifest whose base name is already 60 chars.
    let long_name = "a".repeat(60);
    let yaml = format!(
        "apiVersion: v1\nkind: Pod\nmetadata:\n  name: {long_name}\nspec:\n  containers: []\n"
    );
    let mut ctx = base_ctx();
    ctx.pod_suffix = "toolong".to_string(); // 60 + 1 + 7 = 68 chars
    let result = render_manifest(yaml.as_bytes(), &ctx);
    assert!(
        matches!(result, Err(ManifestError::NameTooLong { .. })),
        "expected NameTooLong, got {:?}",
        result
    );
}

// 10. Missing metadata.name returns MissingField.
#[test]
fn render_missing_metadata_errors() {
    let yaml = "apiVersion: v1\nkind: Pod\nmetadata:\n  labels:\n    app: foo\nspec:\n  containers: []\n";
    let ctx = base_ctx();
    let result = render_manifest(yaml.as_bytes(), &ctx);
    assert!(
        matches!(result, Err(ManifestError::MissingField(_))),
        "expected MissingField, got {:?}",
        result
    );
}

// 11. Empty overrides and env vars work fine.
#[test]
fn render_empty_overrides_and_env() {
    let ctx = base_ctx(); // already has empty overrides and env
    let result = render_manifest(FIXTURE.as_bytes(), &ctx);
    assert!(
        result.is_ok(),
        "empty overrides/env should succeed: {:?}",
        result
    );
}

// 12. Labels, volumes, and other fields survive rendering.
#[test]
fn render_preserves_other_fields() {
    let ctx = base_ctx();
    let yaml = render_manifest(FIXTURE.as_bytes(), &ctx).unwrap();
    let doc = parse_output(&yaml);
    assert_eq!(
        doc["metadata"]["labels"]["app"].as_str().unwrap(),
        "stat-stream"
    );
    assert_eq!(doc["apiVersion"].as_str().unwrap(), "v1");
    assert_eq!(doc["kind"].as_str().unwrap(), "Pod");
}

// 13. Transformations apply to initContainers as well.
#[test]
fn render_handles_init_containers() {
    let init_fixture = r#"
apiVersion: v1
kind: Pod
metadata:
  name: stat-stream
spec:
  initContainers:
    - name: init-migrate
      image: ghcr.io/org/stat-stream:latest
      ports:
        - containerPort: 8080
          hostPort: 8080
  containers:
    - name: web
      image: ghcr.io/org/stat-stream:latest
      ports:
        - containerPort: 3000
          hostPort: 3000
"#;
    let mut ctx = base_ctx();
    ctx.env_vars = vec!["INIT_VAR=yes".to_string()];
    let yaml = render_manifest(init_fixture.as_bytes(), &ctx).unwrap();
    let doc = parse_output(&yaml);

    // hostPort 0 in initContainers
    let init_containers = get_init_containers(&doc);
    for container in init_containers {
        if let Some(ports) = container["ports"].as_sequence() {
            for port in ports {
                assert_eq!(port["hostPort"].as_u64().unwrap(), 0);
            }
        }
    }

    // env var injected into initContainers
    let init_migrate = init_containers
        .iter()
        .find(|c| c["name"].as_str() == Some("init-migrate"))
        .unwrap();
    let env = init_migrate["env"]
        .as_sequence()
        .expect("env must exist in initContainer");
    assert!(env.iter().any(|e| e["name"].as_str() == Some("INIT_VAR")));

    // init container image should also be updated (Phase 1 fix)
    assert_eq!(
        init_migrate["image"].as_str().unwrap(),
        "ghcr.io/org/stat-stream:abc123",
        "init container image should be updated by update_primary_image"
    );
}

// ── Volume injection tests ────────────────────────────────────────────────

#[test]
fn inject_volumes_adds_to_empty_manifest() {
    let yaml = r#"
apiVersion: v1
kind: Pod
metadata:
  name: myapp
spec:
  containers:
    - name: web
      image: myapp:latest
"#;
    let mut doc = Yaml::parse(yaml.as_bytes()).unwrap();
    let ctx = RenderContext {
        app_name: "myapp".to_string(),
        tag: "abc".to_string(),
        primary_image: "myapp".to_string(),
        pod_suffix: "xyz".to_string(),
        env_vars: vec![],
        image_overrides: Vec::new(),
        volumes: vec![MergedVolume {
            host_path: "/data/myapp".to_string(),
            mount_path: "/app/data".to_string(),
            read_only: false,
        }],
    };
    inject_volumes(&mut doc, &ctx);
    let doc = parse_output(&doc.print().unwrap());

    // spec.volumes should exist with one entry
    let volumes = doc["spec"]["volumes"]
        .as_sequence()
        .expect("volumes should exist");
    assert_eq!(volumes.len(), 1);
    assert_eq!(volumes[0]["name"].as_str().unwrap(), "slip-myapp-app-data");
    assert_eq!(
        volumes[0]["hostPath"]["path"].as_str().unwrap(),
        "/data/myapp"
    );
    assert_eq!(
        volumes[0]["hostPath"]["type"].as_str().unwrap(),
        "DirectoryOrCreate"
    );

    // volumeMounts should exist on the container
    let container = &doc["spec"]["containers"][0];
    let mounts = container["volumeMounts"]
        .as_sequence()
        .expect("volumeMounts should exist");
    assert_eq!(mounts.len(), 1);
    assert_eq!(mounts[0]["name"].as_str().unwrap(), "slip-myapp-app-data");
    assert_eq!(mounts[0]["mountPath"].as_str().unwrap(), "/app/data");
    assert!(!mounts[0]["readOnly"].as_bool().unwrap());
}

#[test]
fn inject_volumes_appends_to_existing() {
    let yaml = r#"
apiVersion: v1
kind: Pod
metadata:
  name: myapp
spec:
  volumes:
    - name: existing-vol
      hostPath:
        path: /data/existing
        type: Directory
  containers:
    - name: web
      image: myapp:latest
      volumeMounts:
        - name: existing-vol
          mountPath: /data/existing
"#;
    let mut doc = Yaml::parse(yaml.as_bytes()).unwrap();
    let ctx = RenderContext {
        app_name: "myapp".to_string(),
        tag: "abc".to_string(),
        primary_image: "myapp".to_string(),
        pod_suffix: "xyz".to_string(),
        env_vars: vec![],
        image_overrides: Vec::new(),
        volumes: vec![MergedVolume {
            host_path: "/data/new".to_string(),
            mount_path: "/data/new".to_string(),
            read_only: true,
        }],
    };
    inject_volumes(&mut doc, &ctx);
    let doc = parse_output(&doc.print().unwrap());

    // Should have 2 volumes (existing + new)
    let volumes = doc["spec"]["volumes"]
        .as_sequence()
        .expect("volumes should exist");
    assert_eq!(volumes.len(), 2);
    assert_eq!(volumes[0]["name"].as_str().unwrap(), "existing-vol");
    assert_eq!(volumes[1]["name"].as_str().unwrap(), "slip-myapp-data-new");

    // Container should have 2 volumeMounts
    let container = &doc["spec"]["containers"][0];
    let mounts = container["volumeMounts"]
        .as_sequence()
        .expect("volumeMounts should exist");
    assert_eq!(mounts.len(), 2);
}

#[test]
fn inject_volumes_skips_name_collision() {
    let yaml = r#"
apiVersion: v1
kind: Pod
metadata:
  name: myapp
spec:
  volumes:
    - name: slip-myapp-app-data
      hostPath:
        path: /data/user
        type: Directory
  containers:
    - name: web
      image: myapp:latest
      volumeMounts:
        - name: slip-myapp-app-data
          mountPath: /app/data
"#;
    let mut doc = Yaml::parse(yaml.as_bytes()).unwrap();
    let ctx = RenderContext {
        app_name: "myapp".to_string(),
        tag: "abc".to_string(),
        primary_image: "myapp".to_string(),
        pod_suffix: "xyz".to_string(),
        env_vars: vec![],
        image_overrides: Vec::new(),
        volumes: vec![MergedVolume {
            host_path: "/data/slip".to_string(),
            mount_path: "/app/data".to_string(),
            read_only: false,
        }],
    };
    inject_volumes(&mut doc, &ctx);
    let doc = parse_output(&doc.print().unwrap());

    // Should still have only 1 volume (user's wins)
    let volumes = doc["spec"]["volumes"]
        .as_sequence()
        .expect("volumes should exist");
    assert_eq!(volumes.len(), 1);
    assert_eq!(
        volumes[0]["hostPath"]["path"].as_str().unwrap(),
        "/data/user"
    );
}

#[test]
fn inject_volumes_skips_mount_path_collision() {
    let yaml = r#"
apiVersion: v1
kind: Pod
metadata:
  name: myapp
spec:
  volumes:
    - name: user-vol
      hostPath:
        path: /data/user
        type: Directory
  containers:
    - name: web
      image: myapp:latest
      volumeMounts:
        - name: user-vol
          mountPath: /app/data
"#;
    let mut doc = Yaml::parse(yaml.as_bytes()).unwrap();
    let ctx = RenderContext {
        app_name: "myapp".to_string(),
        tag: "abc".to_string(),
        primary_image: "myapp".to_string(),
        pod_suffix: "xyz".to_string(),
        env_vars: vec![],
        image_overrides: Vec::new(),
        volumes: vec![MergedVolume {
            host_path: "/data/slip".to_string(),
            mount_path: "/app/data".to_string(), // same mount path
            read_only: false,
        }],
    };
    inject_volumes(&mut doc, &ctx);
    let doc = parse_output(&doc.print().unwrap());

    // Should still have only 1 volume (user's wins)
    let volumes = doc["spec"]["volumes"]
        .as_sequence()
        .expect("volumes should exist");
    assert_eq!(volumes.len(), 1);
}

#[test]
fn inject_volumes_read_only_true() {
    let yaml = r#"
apiVersion: v1
kind: Pod
metadata:
  name: myapp
spec:
  containers:
    - name: web
      image: myapp:latest
"#;
    let mut doc = Yaml::parse(yaml.as_bytes()).unwrap();
    let ctx = RenderContext {
        app_name: "myapp".to_string(),
        tag: "abc".to_string(),
        primary_image: "myapp".to_string(),
        pod_suffix: "xyz".to_string(),
        env_vars: vec![],
        image_overrides: Vec::new(),
        volumes: vec![MergedVolume {
            host_path: "/data/config".to_string(),
            mount_path: "/app/config".to_string(),
            read_only: true,
        }],
    };
    inject_volumes(&mut doc, &ctx);
    let doc = parse_output(&doc.print().unwrap());

    let container = &doc["spec"]["containers"][0];
    let mount = &container["volumeMounts"][0];
    assert!(mount["readOnly"].as_bool().unwrap());
}

#[test]
fn inject_volumes_host_path_type() {
    let yaml = r#"
apiVersion: v1
kind: Pod
metadata:
  name: myapp
spec:
  containers:
    - name: web
      image: myapp:latest
"#;
    let mut doc = Yaml::parse(yaml.as_bytes()).unwrap();
    let ctx = RenderContext {
        app_name: "myapp".to_string(),
        tag: "abc".to_string(),
        primary_image: "myapp".to_string(),
        pod_suffix: "xyz".to_string(),
        env_vars: vec![],
        image_overrides: Vec::new(),
        volumes: vec![MergedVolume {
            host_path: "/data/myapp".to_string(),
            mount_path: "/app/data".to_string(),
            read_only: false,
        }],
    };
    inject_volumes(&mut doc, &ctx);
    let doc = parse_output(&doc.print().unwrap());

    let vol = &doc["spec"]["volumes"][0];
    assert_eq!(
        vol["hostPath"]["type"].as_str().unwrap(),
        "DirectoryOrCreate"
    );
}

#[test]
fn inject_volumes_init_containers() {
    let yaml = r#"
apiVersion: v1
kind: Pod
metadata:
  name: myapp
spec:
  initContainers:
    - name: init-setup
      image: busybox:latest
  containers:
    - name: web
      image: myapp:latest
"#;
    let mut doc = Yaml::parse(yaml.as_bytes()).unwrap();
    let ctx = RenderContext {
        app_name: "myapp".to_string(),
        tag: "abc".to_string(),
        primary_image: "myapp".to_string(),
        pod_suffix: "xyz".to_string(),
        env_vars: vec![],
        image_overrides: Vec::new(),
        volumes: vec![MergedVolume {
            host_path: "/data/myapp".to_string(),
            mount_path: "/app/data".to_string(),
            read_only: false,
        }],
    };
    inject_volumes(&mut doc, &ctx);
    let doc = parse_output(&doc.print().unwrap());

    // initContainer should have volumeMounts
    let init_container = &doc["spec"]["initContainers"][0];
    let init_mounts = init_container["volumeMounts"]
        .as_sequence()
        .expect("initContainer should have volumeMounts");
    assert_eq!(init_mounts.len(), 1);
    assert_eq!(
        init_mounts[0]["name"].as_str().unwrap(),
        "slip-myapp-app-data"
    );

    // regular container should also have volumeMounts
    let container = &doc["spec"]["containers"][0];
    let mounts = container["volumeMounts"]
        .as_sequence()
        .expect("container should have volumeMounts");
    assert_eq!(mounts.len(), 1);
}

#[test]
fn sanitize_volume_name_formats_correctly() {
    assert_eq!(
        sanitize_volume_name("myapp", "/app/data"),
        "slip-myapp-app-data"
    );
    assert_eq!(
        sanitize_volume_name("my-app", "/var/lib/data"),
        "slip-my-app-var-lib-data"
    );
    assert_eq!(sanitize_volume_name("a", "/"), "slip-a-");
    // Long path should be truncated
    let long_path = format!("/{}", "a".repeat(100));
    let name = sanitize_volume_name("myapp", &long_path);
    assert!(name.len() <= 63);
    assert!(name.ends_with(|c: char| c.is_ascii_alphanumeric()));
}

// ── ${tag} placeholder tests ──────────────────────────────────────────────

#[test]
fn tag_placeholder_resolved_in_primary_container() {
    let yaml = r#"
apiVersion: v1
kind: Pod
metadata:
  name: myapp
spec:
  containers:
    - name: web
      image: ghcr.io/org/myapp:${tag}
"#;
    let mut doc = Yaml::parse(yaml.as_bytes()).unwrap();
    resolve_tag_placeholders(&mut doc, "v1.2.3");
    let doc = parse_output(&doc.print().unwrap());
    let container = &doc["spec"]["containers"][0];
    assert_eq!(
        container["image"].as_str().unwrap(),
        "ghcr.io/org/myapp:v1.2.3"
    );
}

#[test]
fn tag_placeholder_resolved_in_init_container() {
    let yaml = r#"
apiVersion: v1
kind: Pod
metadata:
  name: myapp
spec:
  initContainers:
    - name: init-setup
      image: ghcr.io/org/myapp:${tag}
  containers:
    - name: web
      image: ghcr.io/org/myapp:latest
"#;
    let mut doc = Yaml::parse(yaml.as_bytes()).unwrap();
    resolve_tag_placeholders(&mut doc, "abc123");
    let doc = parse_output(&doc.print().unwrap());
    let init_container = &doc["spec"]["initContainers"][0];
    assert_eq!(
        init_container["image"].as_str().unwrap(),
        "ghcr.io/org/myapp:abc123"
    );
    // Regular container should be unchanged (no ${tag})
    let container = &doc["spec"]["containers"][0];
    assert_eq!(
        container["image"].as_str().unwrap(),
        "ghcr.io/org/myapp:latest"
    );
}

#[test]
fn tag_placeholder_resolved_in_sidecar() {
    let yaml = r#"
apiVersion: v1
kind: Pod
metadata:
  name: myapp
spec:
  containers:
    - name: web
      image: ghcr.io/org/myapp:latest
    - name: redis
      image: redis:${tag}
"#;
    let mut doc = Yaml::parse(yaml.as_bytes()).unwrap();
    resolve_tag_placeholders(&mut doc, "7-alpine");
    let doc = parse_output(&doc.print().unwrap());
    let redis = &doc["spec"]["containers"][1];
    assert_eq!(redis["image"].as_str().unwrap(), "redis:7-alpine");
}

#[test]
fn tag_placeholder_override_wins_over_placeholder() {
    // ${tag} is resolved first, then sidecar override replaces it.
    let yaml = r#"
apiVersion: v1
kind: Pod
metadata:
  name: myapp
spec:
  containers:
    - name: web
      image: ghcr.io/org/myapp:${tag}
    - name: redis
      image: redis:${tag}
"#;
    let mut doc = Yaml::parse(yaml.as_bytes()).unwrap();
    // Simulate the full pipeline: resolve_tag_placeholders then apply_sidecar_overrides
    resolve_tag_placeholders(&mut doc, "7-alpine");
    let mut overrides: Vec<(String, String)> = Vec::new();
    overrides.push(("redis".to_string(), "redis:8-alpine".to_string()));
    apply_sidecar_overrides(&mut doc, &overrides);
    let doc = parse_output(&doc.print().unwrap());
    // redis should have the override (8-alpine), not the placeholder-resolved value
    let redis = &doc["spec"]["containers"][1];
    assert_eq!(redis["image"].as_str().unwrap(), "redis:8-alpine");
    // web should have the placeholder-resolved value
    let web = &doc["spec"]["containers"][0];
    assert_eq!(web["image"].as_str().unwrap(), "ghcr.io/org/myapp:7-alpine");
}

#[test]
fn tag_placeholder_noop_when_not_present() {
    let yaml = r#"
apiVersion: v1
kind: Pod
metadata:
  name: myapp
spec:
  containers:
    - name: web
      image: ghcr.io/org/myapp:latest
"#;
    let mut doc = Yaml::parse(yaml.as_bytes()).unwrap();
    resolve_tag_placeholders(&mut doc, "v1.0.0");
    let doc = parse_output(&doc.print().unwrap());
    let container = &doc["spec"]["containers"][0];
    assert_eq!(
        container["image"].as_str().unwrap(),
        "ghcr.io/org/myapp:latest"
    );
}

#[test]
fn tag_placeholder_integration_with_render_manifest() {
    // Full pipeline: ${tag} in primary, init, and sidecar
    let yaml = r#"
apiVersion: v1
kind: Pod
metadata:
  name: myapp
spec:
  initContainers:
    - name: init-migrate
      image: ghcr.io/org/myapp:${tag}
  containers:
    - name: web
      image: ghcr.io/org/myapp:${tag}
    - name: redis
      image: redis:${tag}
"#;
    let ctx = RenderContext {
        app_name: "myapp".to_string(),
        tag: "v2.0.0".to_string(),
        primary_image: "ghcr.io/org/myapp".to_string(),
        pod_suffix: "xyz".to_string(),
        env_vars: vec![],
        image_overrides: Vec::new(),
        volumes: Vec::new(),
    };
    let result = render_manifest(yaml.as_bytes(), &ctx).unwrap();
    let doc = parse_output(&result);

    // Primary container: ${tag} resolved, then update_primary_image sets it
    let web = &doc["spec"]["containers"][0];
    assert_eq!(web["image"].as_str().unwrap(), "ghcr.io/org/myapp:v2.0.0");

    // Init container: ${tag} resolved, then update_primary_image sets it
    let init = &doc["spec"]["initContainers"][0];
    assert_eq!(init["image"].as_str().unwrap(), "ghcr.io/org/myapp:v2.0.0");

    // Sidecar: ${tag} resolved (no override, so stays as resolved)
    let redis = &doc["spec"]["containers"][1];
    assert_eq!(redis["image"].as_str().unwrap(), "redis:v2.0.0");
}

#[test]
fn manifest_errors_are_worded() {
    let err = render_manifest(b"a: [", &base_ctx()).unwrap_err();
    assert!(matches!(&err, ManifestError::InvalidYaml(_)));
    assert!(err.message().starts_with("invalid YAML: "));
    let err = render_manifest(b"spec: {}", &base_ctx()).unwrap_err();
    assert!(matches!(&err, ManifestError::MissingField(_)));
    assert!(err.message().starts_with("manifest missing required field: "));
}

#[test]
fn documents_survive_reading_and_printing() {
    let text = "a: 1\nb:\n- x\n- 2.5\n- true\n- null\nc: !Tag\n  d: e\n";
    let doc = Yaml::parse(text.as_bytes()).unwrap();
    let printed = doc.print().unwrap();
    let before: Value = serde_yaml::from_str(text).unwrap();
    let after: Value = serde_yaml::from_str(&printed).unwrap();
    assert_eq!(before, after);
    assert_eq!(doc.copy().print().unwrap(), printed);
}

#[test]
fn volume_names_are_fit_for_labels() {
    assert_eq!(sanitize_volume_name("app", "/My_Data.v2//x"), "slip-app-mydatav2-x");
    assert_eq!(sanitize_volume_name("app", "//a--b"), "slip-app-a-b");
    let path = format!("/{}/{}", "a".repeat(53), "b".repeat(10));
    assert_eq!(sanitize_volume_name("app", &path), format!("slip-app-{}", "a".repeat(53)));
}
