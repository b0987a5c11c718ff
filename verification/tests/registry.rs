use slip_core::config::{RegistryEntry, SlipConfig};
use slip_core::registry::{
    merged_registry_table, normalize_image_ref, resolve_registry_credential, RegistryCredSource, ResolvedRegistry,
    StoreCredential,
};

fn reg(url: &str, user: Option<&str>, pass: &str) -> ResolvedRegistry {
    ResolvedRegistry {
        url: url.to_string(),
        username: user.map(|s| s.to_string()),
        password: pass.to_string(),
        source: RegistryCredSource::Toml,
    }
}

// ── normalize_image_ref ──────────────────────────────────────────────────

#[test]
fn normalize_image_ref_ghcr() {
    let (host, full) = normalize_image_ref("ghcr.io/me/app:1");
    assert_eq!(host, "ghcr.io");
    assert_eq!(full, "ghcr.io/me/app");
}

#[test]
fn normalize_image_ref_localhost_port() {
    let (host, full) = normalize_image_ref("localhost:5000/internal/svc:latest");
    assert_eq!(host, "localhost:5000");
    assert_eq!(full, "localhost:5000/internal/svc");
}

#[test]
fn normalize_image_ref_bare_name_dockerhub() {
    let (host, full) = normalize_image_ref("nginx");
    assert_eq!(host, "docker.io");
    assert_eq!(full, "docker.io/library/nginx");
}

#[test]
fn normalize_image_ref_single_seg_dockerhub() {
    // me/app → docker.io/me/app (no host given → Docker Hub).
    let (host, full) = normalize_image_ref("me/app:1");
    assert_eq!(host, "docker.io");
    assert_eq!(full, "docker.io/me/app");
}

#[test]
fn normalize_image_ref_strips_digest() {
    let (host, full) = normalize_image_ref("ghcr.io/me/app@sha256:abc123");
    assert_eq!(host, "ghcr.io");
    assert_eq!(full, "ghcr.io/me/app");
}

// ── resolve_registry_credential ──────────────────────────────────────────

#[test]
fn resolve_picks_matching_host() {
    let regs = vec![
        reg("ghcr.io", Some("u1"), "t1"),
        reg("localhost:5000", None, "t2"),
    ];
    let cred = resolve_registry_credential("ghcr.io/me/app:1", &regs).unwrap();
    assert_eq!(cred.username, "u1");
    assert_eq!(cred.password, "t1");
}

#[test]
fn resolve_two_registries_one_cycle() {
    // The two-registries-in-one-cycle assertion: main on ghcr.io, sidecar
    // on localhost:5000 — each resolves to its own cred.
    let regs = vec![
        reg("ghcr.io", Some("ghcr-user"), "ghcr-tok"),
        reg("localhost:5000", Some("ci"), "local-tok"),
    ];
    let main = resolve_registry_credential("ghcr.io/me/app:1", &regs).unwrap();
    assert_eq!(main.username, "ghcr-user");
    assert_eq!(main.password, "ghcr-tok");

    let sidecar = resolve_registry_credential("localhost:5000/internal/svc", &regs).unwrap();
    assert_eq!(sidecar.username, "ci");
    assert_eq!(sidecar.password, "local-tok");

    assert_ne!(main.password, sidecar.password, "distinct creds per image");
}

#[test]
fn resolve_bare_name_matches_docker_io() {
    let regs = vec![reg("docker.io", Some("hub"), "hub-tok")];
    let cred = resolve_registry_credential("nginx", &regs).unwrap();
    assert_eq!(cred.username, "hub");
    assert_eq!(cred.password, "hub-tok");
}

#[test]
fn resolve_host_only_matches_any_image_on_host() {
    let regs = vec![reg("ghcr.io", Some("u"), "t")];
    // Different paths on the same host both match.
    let a = resolve_registry_credential("ghcr.io/team/a:1", &regs).unwrap();
    let b = resolve_registry_credential("ghcr.io/other/b:2", &regs).unwrap();
    assert_eq!(a.password, "t");
    assert_eq!(b.password, "t");
}

#[test]
fn resolve_host_and_host_port_distinct() {
    let regs = vec![
        reg("reg.io", Some("a"), "pa"),
        reg("reg.io:443", Some("b"), "pb"),
    ];
    let plain = resolve_registry_credential("reg.io/team/app:1", &regs).unwrap();
    assert_eq!(plain.password, "pa");
    let port = resolve_registry_credential("reg.io:443/team/app:1", &regs).unwrap();
    assert_eq!(port.password, "pb");
    assert_ne!(plain.password, port.password);
}

#[test]
fn resolve_none_when_no_match() {
    let regs = vec![reg("ghcr.io", Some("u"), "t")];
    assert!(resolve_registry_credential("other.io/app:1", &regs).is_none());
}

#[test]
fn resolve_default_username_slip_when_absent() {
    let regs = vec![reg("ghcr.io", None, "t")];
    let cred = resolve_registry_credential("ghcr.io/me/app:1", &regs).unwrap();
    assert_eq!(cred.username, "slip", "absent username defaults to 'slip'");
    assert_eq!(cred.password, "t");
}

#[test]
fn the_longest_path_prefix_wins() {
    let regs = vec![
        reg("ghcr.io", Some("host"), "1"),
        reg("ghcr.io/me", Some("mine"), "2"),
        reg("ghcr.io/me/app", Some("app"), "3"),
        reg("ghcr.io/m", Some("other"), "4"),
    ];
    assert_eq!(resolve_registry_credential("ghcr.io/me/app:1", &regs).unwrap().username, "app");
    assert_eq!(resolve_registry_credential("ghcr.io/me/other", &regs).unwrap().username, "mine");
    // Whole segments count, not characters.
    assert_eq!(resolve_registry_credential("ghcr.io/men/app", &regs).unwrap().username, "host");
}

#[test]
fn the_store_shadows_what_is_declared() {
    let entry = |url: &str, token: Option<&str>| RegistryEntry {
        url: url.to_string(),
        username: None,
        token: token.map(|t| t.to_string()),
    };
    let config = SlipConfig {
        registries: vec![entry("ghcr.io", Some("declared")), entry("quay.io", Some("q")), entry("no.token", None)],
        preview: None,
        deploy: None,
    };
    let store = vec![StoreCredential {
        url: "ghcr.io".to_string(),
        username: Some("u".to_string()),
        password: "stored".to_string(),
    }];
    let table = merged_registry_table(&config, &store);
    let shown: Vec<(&str, &str, RegistryCredSource)> =
        table.iter().map(|r| (r.url.as_str(), r.password.as_str(), r.source)).collect();
    assert_eq!(
        shown,
        vec![
            ("ghcr.io", "stored", RegistryCredSource::Store),
            ("quay.io", "q", RegistryCredSource::Toml),
        ]
    );
    assert_eq!(resolve_registry_credential("ghcr.io/a/b", &table).unwrap().password, "stored");
}
