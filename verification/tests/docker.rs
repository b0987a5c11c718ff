use slip_core::config::ResourceConfig;
use slip_core::docker::{
    is_there, extract_host_port, is_countable, parse_memory_limit, plan_container, pull_goes_on, running, started,
    stopped, tag_prefix, ContainerFacts, DaemonError,
};
use slip_core::error::{DockerError, RuntimeError};
use slip_core::merge::MergedVolume;
use slip_core::rollout::CreateRequest;

fn opt(s: &str) -> Option<String> {
    Some(s.to_string())
}

// ── parse_memory_limit ───────────────────────────────────────────────────

#[test]
fn memory_none() {
    assert_eq!(parse_memory_limit(&None), None);
}

#[test]
fn memory_megabytes_lowercase() {
    assert_eq!(parse_memory_limit(&opt("512m")), Some(512 * 1024 * 1024));
}

#[test]
fn memory_megabytes_uppercase() {
    assert_eq!(parse_memory_limit(&opt("256M")), Some(256 * 1024 * 1024));
}

#[test]
fn memory_gigabytes() {
    assert_eq!(parse_memory_limit(&opt("2g")), Some(2 * 1024 * 1024 * 1024));
}

#[test]
fn memory_gigabytes_suffix_gb() {
    assert_eq!(parse_memory_limit(&opt("1gb")), Some(1024 * 1024 * 1024));
}

#[test]
fn memory_kilobytes() {
    assert_eq!(parse_memory_limit(&opt("1024k")), Some(1024 * 1024));
}

#[test]
fn memory_bare_bytes() {
    assert_eq!(parse_memory_limit(&opt("1048576")), Some(1_048_576));
}

#[test]
fn memory_invalid() {
    assert_eq!(parse_memory_limit(&opt("notanumber")), None);
}

#[test]
fn memory_empty_string() {
    assert_eq!(parse_memory_limit(&opt("")), None);
}

#[test]
fn memory_beyond_64_bits_is_not_countable() {
    assert!(is_countable(&opt("8589934591g")));
    assert!(!is_countable(&opt("8589934592g")));
    assert!(is_countable(&opt("9223372036854775807")));
    // More digits than a number can have cannot be read at all.
    assert!(is_countable(&opt("9223372036854775808")));
    assert_eq!(parse_memory_limit(&opt("9223372036854775808")), None);
    assert_eq!(parse_memory_limit(&opt(" 64 KB ")), Some(65536));
    assert_eq!(parse_memory_limit(&opt("-1m")), Some(-1_048_576));
}

#[test]
fn memory_is_read_in_any_case_with_any_space() {
    assert_eq!(parse_memory_limit(&opt("\t512M\n")), Some(512 * 1_048_576));
    assert_eq!(parse_memory_limit(&opt("1Gb")), Some(1_073_741_824));
    assert_eq!(parse_memory_limit(&opt("256KB")), Some(256 * 1024));
    assert_eq!(parse_memory_limit(&opt("3 mB")), Some(3 * 1_048_576));
    assert_eq!(parse_memory_limit(&opt("  42  ")), Some(42));
    assert_eq!(parse_memory_limit(&opt("0k")), Some(0));
    assert_eq!(parse_memory_limit(&opt("-1K")), Some(-1024));
    assert_eq!(parse_memory_limit(&opt(" NotANumber ")), None);
}

// ── What the daemon says ─────────────────────────────────────────────────

fn facts(running: Option<bool>, bindings: Option<Vec<Option<&str>>>) -> ContainerFacts {
    ContainerFacts {
        running,
        ports: Some(vec![
            ("22/tcp".to_string(), None),
            (
                "3000/tcp".to_string(),
                bindings.map(|v| v.into_iter().map(|b| b.map(|t| t.to_string())).collect()),
            ),
        ]),
    }
}

#[test]
fn host_ports_come_from_the_first_binding() {
    let info = facts(Some(true), Some(vec![Some("54321"), Some("1")]));
    assert_eq!(extract_host_port(&info, 3000).unwrap(), 54321);
    assert!(matches!(extract_host_port(&info, 22), Err(DockerError::NoPortAssigned)));
    assert!(matches!(extract_host_port(&info, 80), Err(DockerError::NoPortAssigned)));
    for bad in [None, Some(vec![]), Some(vec![None]), Some(vec![Some("65536")]), Some(vec![Some("x")])] {
        assert!(matches!(extract_host_port(&facts(None, bad), 3000), Err(DockerError::NoPortAssigned)));
    }
    let none = ContainerFacts { running: None, ports: None };
    assert!(matches!(extract_host_port(&none, 3000), Err(DockerError::NoPortAssigned)));
    assert!(!running(&none));
}

#[test]
fn a_start_needs_a_running_container_with_a_port() {
    let up = facts(Some(true), Some(vec![Some("54321")]));
    assert_eq!(started(&up, "id".to_string(), 3000, false).unwrap(), ("id".to_string(), 54321));
    assert_eq!(started(&up, "id".to_string(), 0, true).unwrap(), ("id".to_string(), 0));
    assert!(matches!(started(&up, "id".to_string(), 0, false), Err(DockerError::NoPortAssigned)));
    let down = facts(Some(false), Some(vec![Some("54321")]));
    let err = started(&down, "id".to_string(), 3000, false).unwrap_err();
    assert_eq!(err.message(), "container id is not running after start");
    let err: RuntimeError = err.into();
    assert_eq!(err.message(), "container id is not running");
}

#[test]
fn daemon_errors_are_told_apart() {
    let error = |status: Option<u16>| DaemonError { status, message: "m".to_string() };
    assert!(stopped(Ok(())).is_ok());
    assert!(stopped(Err(error(Some(304)))).is_ok());
    assert!(matches!(stopped(Err(error(Some(404)))), Err(DockerError::Api(m)) if m == "m"));
    assert!(is_there(Ok(())).unwrap());
    assert!(!is_there(Err(error(Some(404)))).unwrap());
    assert!(is_there(Err(error(None))).is_err());
    assert!(pull_goes_on(Ok(None)).is_ok());
    assert!(matches!(pull_goes_on(Ok(Some("x".to_string()))), Err(DockerError::PullFailed(m)) if m == "x"));
    assert!(matches!(pull_goes_on(Err(error(None))), Err(DockerError::PullFailed(m)) if m == "m"));
    let api: RuntimeError = DockerError::Api("x".to_string()).into();
    assert_eq!(api.message(), "container operation failed: x");
    let pull: RuntimeError = DockerError::PullFailed("x".to_string()).into();
    assert_eq!(pull.message(), "image pull failed: x");
    let port: RuntimeError = DockerError::NoPortAssigned.into();
    assert_eq!(port.message(), "no host port assigned");
}

// ── What the daemon is asked for ─────────────────────────────────────────

#[test]
fn a_container_is_planned_in_full() {
    let request = CreateRequest {
        app: "testapp".to_string(),
        image: "ghcr.io/org/testapp".to_string(),
        tag: "sha256-0123456789abcdef".to_string(),
        container_port: 3000,
        env_vars: vec!["A=1".to_string()],
        network: "slip".to_string(),
        resources: ResourceConfig { memory: opt("512m"), cpus: None },
        volumes: vec![MergedVolume {
            mount_path: "/data".to_string(),
            host_path: "/srv/data".to_string(),
            read_only: true,
        }],
    };
    let plan = plan_container(&request, "01arz3nd", false);
    assert_eq!(plan.name, "slip-testapp-sha256-01234-01arz3nd");
    assert_eq!(plan.image, "ghcr.io/org/testapp:sha256-0123456789abcdef");
    assert_eq!(plan.env, vec!["A=1"]);
    assert_eq!(plan.port_key.as_deref(), Some("3000/tcp"));
    assert_eq!(plan.host_ip, "127.0.0.1");
    assert_eq!(plan.memory, Some(536_870_912));
    assert_eq!(plan.mounts[0].source, "/srv/data");
    assert_eq!(plan.mounts[0].target, "/data");
    assert!(plan.mounts[0].read_only);
    assert_eq!(
        plan.labels,
        vec![
            ("slip.app".to_string(), "testapp".to_string()),
            ("slip.tag".to_string(), "sha256-0123456789abcdef".to_string()),
            ("slip.managed".to_string(), "true".to_string()),
        ]
    );
    assert_eq!(tag_prefix("v1"), "v1");
    assert_eq!(tag_prefix("123456789012"), "123456789012");
}
