use slip_core::error::RuntimeError;
use slip_core::docker::{BindMount, DaemonError};
use slip_core::podman::{
    exec_outcome, inspect_failure, inspect_service, is_rootful, log_stream, network_is_missing, parse_kube_play_output,
    parse_port_output, plan_logs, plan_service, play_failure, probe_outcome, show_container, socket_candidates,
    ListedContainer, LogSource, LogStream, MountFacts, NetworkFacts, ServiceContainerSpec, ServiceFacts,
    ServiceHealthcheck,
};

// ── parse_kube_play_output ────────────────────────────────────────────

#[test]
fn parse_kube_play_single_container() {
    let output = "\
Pod:
52182abcdef0123456789
Containers:
d53fabc123456789
";
    let info = parse_kube_play_output(output, "my-pod-01abc").unwrap();
    assert_eq!(info.name, "my-pod-01abc");
    assert_eq!(info.containers, vec!["d53fabc123456789"]);
}

#[test]
fn parse_kube_play_multiple_containers() {
    let output = "\
Pod:
52182abcdef0
Containers:
d53fabc12345
abc123456789
fff000111222
";
    let info = parse_kube_play_output(output, "stat-stream-01abc").unwrap();
    assert_eq!(info.name, "stat-stream-01abc");
    assert_eq!(info.containers.len(), 3);
    assert_eq!(info.containers[0], "d53fabc12345");
    assert_eq!(info.containers[1], "abc123456789");
    assert_eq!(info.containers[2], "fff000111222");
}

#[test]
fn parse_kube_play_empty_output() {
    let info = parse_kube_play_output("", "my-pod").unwrap();
    assert_eq!(info.name, "my-pod");
    assert!(info.containers.is_empty());
}

#[test]
fn parse_kube_play_with_extra_sections() {
    let output = "\
Pod:
52182abcdef0
Containers:
d53fabc12345
Volumes:

Secrets:
";
    let info = parse_kube_play_output(output, "my-pod").unwrap();
    assert_eq!(info.containers, vec!["d53fabc12345"]);
}

#[test]
fn parse_kube_play_with_whitespace() {
    let output = "  Pod:  \n  52182abc  \n  Containers:  \n  d53fabc  \n  abc123  \n";
    let info = parse_kube_play_output(output, "test").unwrap();
    assert_eq!(info.containers, vec!["d53fabc", "abc123"]);
}

// ── parse_port_output ────────────────────────────────────────────────

#[test]
fn parse_port_ipv4() {
    let port = parse_port_output("0.0.0.0:54321\n").unwrap();
    assert_eq!(port, 54321);
}

#[test]
fn parse_port_ipv6() {
    let port = parse_port_output("[::]:8080\n").unwrap();
    assert_eq!(port, 8080);
}

#[test]
fn parse_port_127001() {
    let port = parse_port_output("127.0.0.1:3000\n").unwrap();
    assert_eq!(port, 3000);
}

#[test]
fn parse_port_multiple_lines() {
    // podman port can output both IPv4 and IPv6 bindings
    let output = "0.0.0.0:54321\n[::]:54321\n";
    let port = parse_port_output(output).unwrap();
    assert_eq!(port, 54321);
}

#[test]
fn parse_port_empty_fails() {
    let result = parse_port_output("");
    assert!(matches!(result, Err(RuntimeError::NoPortAssigned)));
}

#[test]
fn parse_port_no_colon_fails() {
    let result = parse_port_output("garbage");
    assert!(matches!(result, Err(RuntimeError::NoPortAssigned)));
}

#[test]
fn parse_port_non_numeric_fails() {
    let result = parse_port_output("0.0.0.0:notaport\n");
    assert!(matches!(result, Err(RuntimeError::NoPortAssigned)));
}

// ── Sockets, lists and outcomes ───────────────────────────────────────

#[test]
fn sockets_are_tried_in_order() {
    assert_eq!(
        socket_candidates(&Some("/run/user/1000".to_string()))[0],
        "/run/user/1000/podman/podman.sock"
    );
    assert!(is_rootful("/run/podman/podman.sock"));
    assert!(is_rootful("/var/run/podman/podman.sock"));
    assert!(!is_rootful("/run/user/1000/podman/podman.sock"));
}

#[test]
fn listed_containers_are_shortened() {
    let listed = ListedContainer {
        id: Some("0123456789abcdef".to_string()),
        names: Some(vec!["/slip-app".to_string(), "/other".to_string()]),
        state: Some("running".to_string()),
        tag: Some("v1".to_string()),
    };
    let info = show_container(&listed);
    assert_eq!(info.id, "0123456789ab");
    assert_eq!(info.name.as_deref(), Some("slip-app"));
    assert_eq!(info.state, "running");
    assert_eq!(info.tag.as_deref(), Some("v1"));
    let bare = show_container(&ListedContainer { id: None, names: None, state: None, tag: None });
    assert_eq!(bare.id, "");
    assert_eq!(bare.name, None);
    assert_eq!(bare.state, "unknown");
}

#[test]
fn commands_report_their_exit() {
    assert_eq!(exec_outcome(true, Some(0), "out", "err").unwrap(), "outerr");
    let err = exec_outcome(false, Some(3), "out", "err").unwrap_err();
    assert!(matches!(err, RuntimeError::ExecFailed(m) if m == "exit code 3: outerr"));
    let err = exec_outcome(false, None, "", "").unwrap_err();
    assert!(matches!(err, RuntimeError::ExecFailed(m) if m == "exit code -1: "));
    let err = play_failure(false, Some(125), "no such file");
    assert!(matches!(err, RuntimeError::ContainerError(m) if m == "podman kube play failed (exit 125): no such file"));
    let err = play_failure(true, None, "x");
    assert!(matches!(err, RuntimeError::ContainerError(m) if m == "podman kube play --down failed (exit -1): x"));
    assert!(probe_outcome(true, Some(0)).is_ok());
    assert!(probe_outcome(false, Some(1)).is_err());
}

// ── Services ──────────────────────────────────────────────────────────

fn silent() -> ServiceFacts {
    ServiceFacts {
        id: None,
        name: None,
        hostname: None,
        labels: None,
        repo_digests: Vec::new(),
        mounts: None,
        networks: None,
        restart_policy: None,
        health_status: None,
        port_bindings: None,
        running: None,
        privileged: None,
        read_only_rootfs: None,
        memory: None,
        nano_cpus: None,
        pids_limit: None,
        cap_drop: None,
        cap_add: None,
        security_opt: None,
    }
}

#[test]
fn silence_counts_as_nothing() {
    let seen = inspect_service("asked", &silent());
    assert_eq!(seen.container_id, "asked");
    assert!(!seen.running);
    assert!(!seen.privileged);
    assert!(!seen.no_new_privileges);
    assert_eq!(seen.memory_limit, 0);
    assert!(seen.port_bindings.is_empty());
}

#[test]
fn a_service_is_read_in_full() {
    let mut facts = silent();
    facts.id = Some("real".to_string());
    facts.restart_policy = Some("UNLESS_STOPPED".to_string());
    facts.health_status = Some("HEALTHY".to_string());
    facts.mounts = Some(vec![
        MountFacts { source: Some("/a".to_string()), destination: Some("/b".to_string()), writable: Some(false) },
        MountFacts { source: None, destination: None, writable: None },
    ]);
    facts.networks = Some(vec![NetworkFacts {
        name: "slip".to_string(),
        aliases: Some(vec!["db".to_string()]),
    }]);
    facts.port_bindings = Some(vec![("5432/tcp".to_string(), Some(vec![Some("15432".to_string())]))]);
    facts.security_opt = Some(vec!["no-new-privileges:true".to_string()]);
    facts.running = Some(true);
    let seen = inspect_service("asked", &facts);
    assert_eq!(seen.container_id, "real");
    assert_eq!(seen.restart_policy, "unless-stopped");
    assert_eq!(seen.health_status, "healthy");
    assert_eq!(
        seen.mounts,
        vec![("/a".to_string(), "/b".to_string(), true), (String::new(), String::new(), false)]
    );
    assert_eq!(seen.network, "slip");
    assert_eq!(seen.network_aliases, vec!["db"]);
    assert_eq!(seen.port_bindings, vec![(5432, Some("15432".to_string()))]);
    assert!(seen.no_new_privileges);
    assert!(seen.running);
}

#[test]
fn a_service_is_planned_without_privileges() {
    let mut spec = ServiceContainerSpec {
        name: "slip-svc-db".to_string(),
        image: "postgres@sha256:abc".to_string(),
        hostname: "db".to_string(),
        network: "slip".to_string(),
        env: vec![("A".to_string(), "1".to_string())],
        labels: Vec::new(),
        mounts: vec![BindMount { source: "/a".to_string(), target: "/b".to_string(), read_only: false }],
        healthcheck: ServiceHealthcheck {
            test_cmd: vec!["CMD".to_string(), "true".to_string()],
            interval_secs: 5,
            timeout_secs: 3,
            retries: 3,
            start_period_secs: 0,
        },
        memory_bytes: None,
        nano_cpus: None,
        pids_limit: None,
        read_only_rootfs: true,
        tmpfs_mounts: Vec::new(),
    };
    let plan = plan_service(&spec);
    assert_eq!(plan.env, vec!["A=1"]);
    assert_eq!(plan.interval_nanos, 5_000_000_000);
    assert_eq!(plan.timeout_nanos, 3_000_000_000);
    assert_eq!(plan.start_period_nanos, 0);
    assert_eq!(plan.security_opt, vec!["no-new-privileges:true"]);
    assert_eq!(plan.cap_drop, vec!["ALL"]);
    assert!(plan.tmpfs.is_none());
    spec.tmpfs_mounts.push(("/tmp".to_string(), "size=64m".to_string()));
    assert_eq!(plan_service(&spec).tmpfs, Some(vec![("/tmp".to_string(), "size=64m".to_string())]));
}

#[test]
fn daemon_answers_have_a_meaning() {
    let error = |status: Option<u16>| DaemonError { status, message: "m".to_string() };
    assert!(matches!(inspect_failure(error(Some(404))), RuntimeError::ContainerError(m) if m == "container not found"));
    assert!(matches!(inspect_failure(error(None)), RuntimeError::ContainerError(m) if m == "m"));
    assert!(!network_is_missing(Ok(())).unwrap());
    assert!(network_is_missing(Err(error(Some(404)))).unwrap());
    assert!(matches!(network_is_missing(Err(error(Some(500)))), Err(RuntimeError::NetworkError(m)) if m == "m"));
}

// ── logs ──────────────────────────────────────────────────────────────

#[test]
fn logs_are_read_from_the_last_200_lines() {
    let plan = plan_logs(None, true);
    assert!(plan.follow);
    assert_eq!(plan.tail, "200");
    assert_eq!(plan.since, 0);
    assert_eq!(plan_logs(Some(1_700_000_000), false).since, 1_700_000_000);
}

#[test]
fn log_input_is_shown_as_the_consoles() {
    assert_eq!(log_stream(LogSource::StdOut), LogStream::StdOut);
    assert_eq!(log_stream(LogSource::StdErr), LogStream::StdErr);
    assert_eq!(log_stream(LogSource::StdIn), LogStream::Console);
    assert_eq!(log_stream(LogSource::Console), LogStream::Console);
}
