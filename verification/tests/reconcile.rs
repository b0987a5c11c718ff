use slip_core::config::{
    AppConfig, AppInfo, DeployConfig, HealthConfig, NetworkConfig, ResourceConfig, RouteEntry, RoutingConfig,
};
use slip_core::deploy::{AppRuntimeState, AppStatus, RouteState};
use slip_core::reconcile::{collect_routes, plan_restore, summarize, ReconcileSummary, RestorePart, RouteInfo};
use slip_core::time::Duration;

fn config(domain: Option<&str>) -> AppConfig {
    AppConfig {
        app: AppInfo { name: "app".to_string(), image: "img".to_string(), secret: None },
        routing: RoutingConfig { domain: domain.map(|d| d.to_string()), port: Some(3000), routes: Vec::new() },
        health: HealthConfig {
            path: None,
            interval: Duration::zero(),
            timeout: Duration::zero(),
            retries: 1,
            start_period: Duration::zero(),
            expect_status: None,
        },
        deploy: DeployConfig {
            strategy: "blue-green".to_string(),
            drain_timeout: Duration::zero(),
            timeout: None,
        },
        env: Vec::new(),
        env_file: None,
        resources: ResourceConfig { memory: None, cpus: None },
        network: NetworkConfig { name: "slip".to_string() },
        preview: None,
        volumes: Vec::new(),
    }
}

fn running(port: Option<u16>, routes: &[(&str, u16)]) -> AppRuntimeState {
    AppRuntimeState {
        status: AppStatus::Running,
        current_port: port,
        current_routes: routes
            .iter()
            .map(|(h, p)| RouteState { hostname: h.to_string(), port: *p })
            .collect(),
        ..Default::default()
    }
}

fn shown(routes: &[RouteInfo]) -> Vec<(String, String, u16)> {
    routes.iter().map(|r| (r.app_name.clone(), r.domain.clone(), r.port)).collect()
}

#[test]
fn routes_come_from_the_state_and_then_the_configuration() {
    let mut stopped = running(Some(1), &[("s.example.com", 1)]);
    stopped.status = AppStatus::Failed;
    let states = vec![
        ("multi".to_string(), running(Some(9), &[("a.example.com", 1001), ("b.example.com", 1002)])),
        ("single".to_string(), running(Some(2001), &[])),
        ("stopped".to_string(), stopped),
        ("unknown".to_string(), running(Some(3001), &[])),
        ("portless".to_string(), running(None, &[])),
    ];
    let mut with_routes = config(None);
    with_routes.routing.routes = vec![RouteEntry { hostname: "x.example.com".to_string(), port: None }];
    let configs = vec![
        ("single".to_string(), config(Some("single.example.com"))),
        ("portless".to_string(), config(Some("portless.example.com"))),
        ("multi".to_string(), with_routes),
    ];
    assert_eq!(
        shown(&collect_routes(&states, &configs)),
        vec![
            ("multi".to_string(), "a.example.com".to_string(), 1001),
            ("multi".to_string(), "b.example.com".to_string(), 1002),
            ("single".to_string(), "single.example.com".to_string(), 2001),
        ]
    );
}

#[test]
fn reconcile_continues_on_partial_failure() {
    let states = vec![
        ("one".to_string(), running(Some(1001), &[])),
        ("two".to_string(), running(Some(1002), &[])),
    ];
    let configs =
        vec![("one".to_string(), config(Some("one.example.com"))), ("two".to_string(), config(Some("two.example.com")))];
    let routes = collect_routes(&states, &configs);
    let summary = summarize(&routes, vec![Err("caddy down".to_string()), Ok(())]);
    assert_eq!(summary.routes_total, 2);
    assert_eq!(summary.routes_ok, 1);
    assert_eq!(summary.routes_failed, 1);
    assert_eq!(summary.failures.len(), 1);
    assert_eq!(summary.failures[0].app, "one");
    assert_eq!(summary.failures[0].route_id, "slip-one-0");
    assert_eq!(summary.failures[0].error, "caddy down");
}

#[test]
fn a_summary_counts_one_by_one() {
    let route = RouteInfo { app_name: "app".to_string(), domain: "d".to_string(), port: 1 };
    let mut summary = ReconcileSummary::new(2);
    summary.record(&route, Ok(()));
    summary.record(&route, Err("e".to_string()));
    assert_eq!((summary.routes_ok, summary.routes_failed), (1, 1));
    assert_eq!(summary.failures[0].route_id, "slip-app-0");
}

#[test]
fn only_configured_parts_are_put_right() {
    let bare = plan_restore(&None, "127.0.0.1:7890", &None, true);
    assert_eq!(bare.len(), 1);
    assert!(matches!(bare[0], RestorePart::Server));

    let webhook = Some(Some("deploy.example.com".to_string()));
    let previews = Some("preview.example.com".to_string());
    let all = plan_restore(&webhook, "127.0.0.1:7890", &previews, true);
    assert_eq!(all.len(), 3);
    assert!(matches!(
        &all[1],
        RestorePart::Webhook { host: Some(d), upstream } if d == "deploy.example.com" && upstream == "127.0.0.1:7890"
    ));
    assert!(matches!(&all[2], RestorePart::Certificates { domain } if domain == "preview.example.com"));

    let without = plan_restore(&Some(None), "127.0.0.1:7890", &previews, false);
    assert_eq!(without.len(), 2);
    assert!(matches!(&without[1], RestorePart::Webhook { host: None, .. }));
}
