use slip_core::config::{HealthConfig, StatusExpectation};
use slip_core::error::HealthError;
use slip_core::health::{status_matches, HealthAction, HealthPoll};
use slip_core::time::Duration;

/// Polls a server that answers the n-th probe with `respond(n)`; without an
/// answer the probe times out.
fn check<F>(port: u16, config: &HealthConfig, respond: F) -> Result<(), HealthError>
where
    F: Fn(u32) -> Option<u16>,
{
    let (mut poll, mut action) = HealthPoll::begin(port, config);
    let mut count = 0;
    loop {
        action = match action {
            HealthAction::Sleep(_) => poll.slept(),
            HealthAction::Probe { url, .. } => {
                assert_eq!(url, format!("http://127.0.0.1:{}/health", port));
                let status = respond(count);
                count += 1;
                assert!(poll.url.is_some() && poll.attempts < poll.retries);
                poll.probed(status)
            }
            HealthAction::Finish(result) => return result,
        };
    }
}

fn fast_config(path: &str, retries: u32) -> HealthConfig {
    HealthConfig {
        path: Some(path.to_owned()),
        interval: Duration::from_millis(10),
        timeout: Duration::from_millis(100),
        retries,
        start_period: Duration::zero(),
        expect_status: None,
    }
}

fn config_with_expect(path: &str, retries: u32, expect: &str, ranges: &[(u16, u16)]) -> HealthConfig {
    let mut config = fast_config(path, retries);
    config.expect_status = Some(StatusExpectation { notation: expect.to_string(), ranges: ranges.to_vec() });
    config
}

#[test]
fn healthy_on_first_try() {
    check(54321, &fast_config("/health", 3), |_| Some(200)).expect("should be healthy");
}

#[test]
fn healthy_after_retries() {
    // First 2 calls return 500, 3rd returns 200.
    check(54321, &fast_config("/health", 3), |count| if count < 2 { Some(500) } else { Some(200) })
        .expect("should become healthy after retries");
}

#[test]
fn unexpected_status_after_all_retries() {
    let err = check(54321, &fast_config("/health", 3), |_| Some(500)).expect_err("should exhaust retries");
    match err {
        HealthError::UnexpectedStatus { expected, actual, url, attempts } => {
            assert_eq!(expected, "200-399");
            assert_eq!(actual, 500);
            assert!(url.contains("/health"), "url should contain path");
            assert_eq!(attempts, 3, "retries still apply to unexpected status");
        }
        HealthError::Unhealthy { .. } => {
            panic!("HTTP 500 response must be UnexpectedStatus, not Unhealthy")
        }
    }
}

#[test]
fn transport_failure_is_unhealthy() {
    let err = check(1, &fast_config("/health", 2), |_| None).expect_err("should fail to connect");
    match err {
        HealthError::Unhealthy { retries, url } => {
            assert_eq!(retries, 2);
            assert!(url.contains("/health"));
        }
        HealthError::UnexpectedStatus { .. } => {
            panic!("transport failure must stay Unhealthy, not UnexpectedStatus")
        }
    }
}

#[test]
fn no_health_path_returns_ok() {
    let mut config = fast_config("/health", 3);
    config.path = None;
    check(9999, &config, |_| unreachable!()).expect("no path → always Ok");
}

/// Explicit `expect_status = "200"` rejects an initial 307.
#[test]
fn explicit_200_rejects_307_no_redirect() {
    let config = config_with_expect("/health", 2, "200", &[(200, 200)]);
    let err = check(54321, &config, |_| Some(307)).expect_err("307 must not be healthy under expect_status=200");
    match err {
        HealthError::UnexpectedStatus { expected, actual, .. } => {
            assert_eq!(expected, "200");
            assert_eq!(actual, 307, "307 observed, not chased");
        }
        other => panic!("expected UnexpectedStatus, got {other:?}"),
    }
}

#[test]
fn default_accepts_307() {
    check(54321, &fast_config("/health", 2), |_| Some(307)).expect("default 200-399 must accept 307");
}

#[test]
fn explicit_list_accepts_307() {
    let config = config_with_expect("/health", 2, "200,307", &[(200, 200), (307, 307)]);
    check(54321, &config, |_| Some(307)).expect("explicit list including 307 must accept it");
}

/// Range `200-299` accepts 204; rejects 300.
#[test]
fn range_accepts_in_range_rejects_outside() {
    let config = config_with_expect("/health", 2, "200-299", &[(200, 299)]);
    check(54321, &config, |_| Some(204)).expect("204 is in 200-299");
    let err = check(54321, &config, |_| Some(300)).expect_err("300 is outside 200-299");
    match err {
        HealthError::UnexpectedStatus { actual, .. } => assert_eq!(actual, 300),
        other => panic!("expected UnexpectedStatus, got {other:?}"),
    }
}

#[test]
fn unexpected_status_retries_still_apply() {
    let config = config_with_expect("/health", 4, "200", &[(200, 200)]);
    let err = check(54321, &config, |_| Some(500)).expect_err("must exhaust");
    match err {
        HealthError::UnexpectedStatus { expected, actual, attempts, .. } => {
            assert_eq!(expected, "200");
            assert_eq!(actual, 500);
            assert_eq!(attempts, 4, "retries budget honored");
        }
        other => panic!("expected UnexpectedStatus, got {other:?}"),
    }
}

/// Mixed range + single: `200-299,503` accepts 200 and 503.
#[test]
fn mixed_range_and_single() {
    let config = config_with_expect("/health", 2, "200-299,503", &[(200, 299), (503, 503)]);
    check(54321, &config, |_| Some(200)).expect("200 in 200-299,503");
    check(54321, &config, |_| Some(503)).expect("503 explicitly accepted");
}

#[test]
fn slow_server_times_out_as_unhealthy() {
    let mut config = fast_config("/health", 1);
    config.timeout = Duration::from_millis(50);
    let err = check(54321, &config, |_| None).expect_err("must time out");
    match err {
        HealthError::Unhealthy { .. } => {}
        HealthError::UnexpectedStatus { .. } => {
            panic!("timeout (no response) must be Unhealthy, not UnexpectedStatus")
        }
    }
}

#[test]
fn policy_none_is_observed_via_307() {
    let config = config_with_expect("/health", 1, "200", &[(200, 200)]);
    let err = check(54321, &config, |_| Some(307)).expect_err("must fail");
    match err {
        HealthError::UnexpectedStatus { actual: 307, .. } => {}
        other => panic!("expected to observe the original 307, got {other:?}"),
    }
}

#[test]
fn a_status_seen_once_names_the_failure() {
    let err = check(54321, &fast_config("/health", 3), |n| if n == 0 { Some(502) } else { None }).unwrap_err();
    assert_eq!(
        err.message(),
        "health check failed: expected 200-399, got 502 at http://127.0.0.1:54321/health after 3 attempts"
    );
}

#[test]
fn no_retries_means_no_probe() {
    let err = check(54321, &fast_config("/health", 0), |_| unreachable!()).unwrap_err();
    assert!(matches!(err, HealthError::Unhealthy { retries: 0, .. }));
}

#[test]
fn the_default_range_is_inclusive() {
    assert!(!status_matches(199, &None));
    assert!(status_matches(200, &None));
    assert!(status_matches(399, &None));
    assert!(!status_matches(400, &None));
    assert!(StatusExpectation::default().accepts(399));
    assert_eq!(StatusExpectation::default().canonical(), "200-399");
}
