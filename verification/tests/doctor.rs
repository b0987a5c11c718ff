use slip_core::doctor::{
    aggregate_exit, classify_dns_expectation, classify_ufw, dns_plugin_remedy, is_private_or_cgnat,
    module_present_exact, parse_caddy_modules, render_human, CheckStatus, DoctorAction, DoctorReport, Summary,
    VerificationCheck, CLOUDFLARE_RANGE_SNAPSHOT,
};
use slip_core::doctor::{classify_ip, ranges_from, DnsClass};
use slip_core::ip::{parse_ip, CidrSet, IpAddr};
use slip_core::time::Timestamp;

fn ip_of(text: &str) -> IpAddr {
    parse_ip(text).unwrap()
}

fn cf_set() -> CidrSet {
    CidrSet::from_cidrs(&CLOUDFLARE_RANGE_SNAPSHOT)
}

// ── aggregate_exit ──────────────────────────────────────────────────────

#[test]
fn aggregate_exit_no_fail_no_timeout_is_zero() {
    let s = Summary {
        pass: 5,
        warn: 1,
        fail: 0,
        skipped: 1,
    };
    assert_eq!(aggregate_exit(&s, false), 0);
}

#[test]
fn aggregate_exit_fail_is_one() {
    let s = Summary {
        pass: 3,
        warn: 0,
        fail: 2,
        skipped: 0,
    };
    assert_eq!(aggregate_exit(&s, false), 1);
}

#[test]
fn aggregate_exit_timeout_is_six() {
    let s = Summary {
        pass: 5,
        warn: 0,
        fail: 0,
        skipped: 0,
    };
    assert_eq!(aggregate_exit(&s, true), 6);
}

#[test]
fn aggregate_exit_timeout_overshadows_fail() {
    let s = Summary {
        pass: 0,
        warn: 0,
        fail: 3,
        skipped: 0,
    };
    assert_eq!(aggregate_exit(&s, true), 6);
}

// ── DoctorReport JSON ───────────────────────────────────────────────────

#[test]
fn detection_report_omits_actions() {
    let report = DoctorReport::detection(vec![VerificationCheck::new(
        "runtime.socket",
        "Runtime socket",
        CheckStatus::Pass,
        "ok",
        None,
    )]);
    let v = report.to_json();
    assert_eq!(v["schema"], "slip.doctor/v1");
    assert_eq!(v["summary"]["pass"], 1);
    assert_eq!(v["summary"]["fail"], 0);
    assert!(
        v.get("actions").is_none() || v["actions"].is_null(),
        "actions should be omitted"
    );
    assert_eq!(v["checks"][0]["name"], "runtime.socket");
    assert_eq!(v["checks"][0]["status"], "pass");
    // remedy omitted when None
    assert!(v["checks"][0].get("remedy").is_none());
}

#[test]
fn with_actions_report_includes_actions() {
    let report = DoctorReport::with_actions(
        vec![VerificationCheck::new(
            "ufw.bridge_dns",
            "UFW bridge DNS",
            CheckStatus::Fail,
            "rule missing",
            Some("ufw allow in on br-slip to any port 53".into()),
        )],
        vec![DoctorAction {
            name: "ufw.allow.bridge_dns".into(),
            command: "ufw allow in on br-slip to any port 53".into(),
            status: "applied".into(),
            rollback: Some("ufw delete allow in on br-slip to any port 53".into()),
        }],
    );
    let v = report.to_json();
    assert!(v.get("actions").is_some());
    assert_eq!(v["actions"][0]["status"], "applied");
    assert_eq!(
        v["actions"][0]["rollback"],
        "ufw delete allow in on br-slip to any port 53"
    );
}

// ── classify_ufw ────────────────────────────────────────────────────────

#[test]
fn classify_ufw_inactive_is_warn() {
    let out = "Status: inactive\n";
    let r = classify_ufw("br-slip", out);
    assert_eq!(r.status, CheckStatus::Warn);
}

#[test]
fn classify_ufw_active_no_rule_is_fail_with_exact_remedy() {
    let out = "Status: active\n\n     To                         Action      From\n--    ------                    ------      -----\n[ 1] 22/tcp                     ALLOW IN    Anywhere\n";
    let r = classify_ufw("br-slip", out);
    assert_eq!(r.status, CheckStatus::Fail);
    assert_eq!(
        r.remedy.as_deref(),
        Some("ufw allow in on br-slip to any port 53")
    );
}

#[test]
fn classify_ufw_active_with_rule_is_pass() {
    let out = "Status: active\n\n[ 1] 53/tcp on br-slip          ALLOW IN    Anywhere\n[ 2] 53/udp on br-slip          ALLOW IN    Anywhere\n";
    let r = classify_ufw("br-slip", out);
    assert_eq!(r.status, CheckStatus::Pass);
    assert!(r.remedy.is_none());
}

#[test]
fn only_port_53_on_the_whole_bridge_counts() {
    let judge = |rule: &str| {
        let r = classify_ufw("br-slip", &format!("Status: active\n[ 1] {rule}\n"));
        if r.status == CheckStatus::Fail {
            assert_eq!(r.remedy.as_deref(), Some("ufw allow in on br-slip to any port 53"));
        }
        r.status
    };
    assert_eq!(judge("53/tcp on br-slip          ALLOW IN    Anywhere"), CheckStatus::Pass);
    assert_eq!(judge("53/udp (v6) on BR-SLIP     ALLOW IN    Anywhere (v6)"), CheckStatus::Pass);
    assert_eq!(judge("22,53/tcp on br-slip       ALLOW IN    Anywhere"), CheckStatus::Pass);
    assert_eq!(judge("8053/tcp on br-slip        ALLOW IN    Anywhere"), CheckStatus::Fail);
    assert_eq!(judge("22/tcp on br-slip          ALLOW IN    10.0.0.53/32"), CheckStatus::Fail);
    assert_eq!(judge("53/tcp on br-slip2         ALLOW IN    Anywhere"), CheckStatus::Fail);
    assert_eq!(judge("53/tcp on xbr-slip         ALLOW IN    Anywhere"), CheckStatus::Fail);
    assert_eq!(judge("53/tcp on br-slip          DENY IN     Anywhere"), CheckStatus::Fail);
}

#[test]
fn port_53_counts_in_lists_and_ranges_and_without_a_protocol() {
    let passes = |rule: &str| {
        let r = classify_ufw("br-slip", &format!("Status: active\n[ 1] {rule}\n"));
        r.status == CheckStatus::Pass
    };
    assert!(passes("53,5353/udp on br-slip     ALLOW IN    Anywhere"));
    assert!(passes("53,80/tcp on br-slip       ALLOW IN    Anywhere"));
    assert!(passes("22,53,80/tcp on br-slip    ALLOW IN    Anywhere"));
    assert!(passes("53 on br-slip              ALLOW IN    Anywhere"));
    assert!(passes("53 (v6) on br-slip         ALLOW IN    Anywhere (v6)"));
    assert!(passes("10.0.0.1 53/udp on br-slip ALLOW IN    Anywhere"));
    assert!(passes("50:53/udp on br-slip       ALLOW IN    Anywhere"));
    assert!(passes("80,1:1024/tcp on br-slip   ALLOW IN    Anywhere"));
    assert!(!passes("54:60/udp on br-slip      ALLOW IN    Anywhere"));
    assert!(!passes("1:52/udp on br-slip       ALLOW IN    Anywhere"));
    assert!(!passes("5353,8053/udp on br-slip  ALLOW IN    Anywhere"));
    assert!(!passes("530,80/tcp on br-slip     ALLOW IN    Anywhere"));
    assert!(!passes("10.0.0.53 on br-slip      ALLOW IN    Anywhere"));
    // What follows the verdict is not the rule's port.
    assert!(!passes("80/tcp on br-slip         ALLOW IN    Anywhere # not 53 here"));
    assert!(!passes("80/tcp on br-slip         ALLOW IN    Anywhere # 80, 53, 22"));
    // Nor is the rule's number.
    let numbered = classify_ufw("br-slip", "Status: active\n[53] 80/tcp on br-slip ALLOW IN Anywhere\n");
    assert_eq!(numbered.status, CheckStatus::Fail);
}

#[test]
fn classify_ufw_empty_bridge_is_fail() {
    let r = classify_ufw("", "Status: active\n");
    assert_eq!(r.status, CheckStatus::Fail);
    assert!(r.remedy.as_deref().unwrap().contains("slip network"));
}

// ── parse_caddy_modules ─────────────────────────────────────────────────

#[test]
fn parse_caddy_modules_no_provider_is_skipped() {
    assert_eq!(parse_caddy_modules("xxx", None), CheckStatus::Skipped);
    assert_eq!(parse_caddy_modules("xxx", Some("")), CheckStatus::Skipped);
}

#[test]
fn parse_caddy_modules_present_is_pass() {
    let out = "http.handlers.reverse_proxy\ndns.providers.cloudflare\n";
    assert_eq!(
        parse_caddy_modules(out, Some("cloudflare")),
        CheckStatus::Pass
    );
}

#[test]
fn parse_caddy_modules_absent_is_fail() {
    let out = "http.handlers.reverse_proxy\n";
    assert_eq!(
        parse_caddy_modules(out, Some("cloudflare")),
        CheckStatus::Fail
    );
}

#[test]
fn dns_plugin_remedy_names_xcaddy_command() {
    let r = dns_plugin_remedy("cloudflare");
    assert!(r.contains("xcaddy build"));
    assert!(r.contains("caddy-dns/cloudflare"));
}

// ── module_present_exact ─────────────────────────────────────────────────

#[test]
fn module_present_exact_present_is_pass() {
    let out = "http.handlers.reverse_proxy\ntls.get_certificate.tailscale\n";
    assert_eq!(
        module_present_exact(out, "tls.get_certificate.tailscale"),
        CheckStatus::Pass
    );
}

#[test]
fn module_present_exact_absent_is_fail() {
    let out = "http.handlers.reverse_proxy\n";
    assert_eq!(
        module_present_exact(out, "tls.get_certificate.tailscale"),
        CheckStatus::Fail
    );
}

#[test]
fn module_present_exact_rejects_substring() {
    // A module whose ID merely contains the target as a substring must NOT
    // match; exact line/field equality is required.
    let out = "tls.get_certificate.tailscale_extras\n";
    assert_eq!(
        module_present_exact(out, "tls.get_certificate.tailscale"),
        CheckStatus::Fail
    );
    // Prefix-only also rejected.
    let out2 = "tls.get_certificate.tailscale.v2\n";
    assert_eq!(
        module_present_exact(out2, "tls.get_certificate.tailscale"),
        CheckStatus::Fail
    );
}

#[test]
fn module_present_exact_tab_packages_first_field() {
    // `caddy list-modules --packages` emits `<id>\t<package>`. The first
    // tab-separated field is the module ID; only it must match exactly.
    let out = "http.handlers.reverse_proxy\tgithub.com/caddyserver/caddy/v2\n\
               tls.get_certificate.tailscale\tgithub.com/caddyserver/caddy/v2\tv2.11.0\n";
    assert_eq!(
        module_present_exact(out, "tls.get_certificate.tailscale"),
        CheckStatus::Pass
    );
    // A package path that happens to contain the needle must not match.
    let out2 = "http.handlers.reverse_proxy\tgithub.com/x/tls.get_certificate.tailscale\n";
    assert_eq!(
        module_present_exact(out2, "tls.get_certificate.tailscale"),
        CheckStatus::Fail
    );
}

#[test]
fn module_present_exact_empty_module_id_is_skipped() {
    assert_eq!(module_present_exact("anything", ""), CheckStatus::Skipped);
    // Empty output + empty id still skipped (id check first).
    assert_eq!(module_present_exact("", ""), CheckStatus::Skipped);
}

// ── CidrSet / is_cloudflare_ip ──────────────────────────────────────────

#[test]
fn cidr_set_contains_known_cloudflare_v4() {
    let s = cf_set();
    // 104.16.0.1 is inside 104.16.0.0/13
    let ip = ip_of("104.16.0.1");
    assert!(s.contains(&ip));
}

#[test]
fn cidr_set_rejects_non_cloudflare_v4() {
    let s = cf_set();
    let ip = ip_of("8.8.8.8");
    assert!(!s.contains(&ip));
}

#[test]
fn cidr_set_contains_known_cloudflare_v6() {
    let s = cf_set();
    let ip = ip_of("2606:4700::1");
    assert!(s.contains(&ip));
}

#[test]
fn is_private_or_cgnat_rfc1918() {
    let ip = ip_of("10.0.0.1");
    assert!(is_private_or_cgnat(&ip));
    let ip = ip_of("192.168.1.1");
    assert!(is_private_or_cgnat(&ip));
    let ip = ip_of("172.16.0.1");
    assert!(is_private_or_cgnat(&ip));
}

#[test]
fn is_private_or_cgnat_cgnat_100_64() {
    let ip = ip_of("100.64.0.1");
    assert!(is_private_or_cgnat(&ip));
}

#[test]
fn is_private_or_cgnat_loopback() {
    let ip = ip_of("127.0.0.1");
    assert!(is_private_or_cgnat(&ip));
}

#[test]
fn is_private_or_cgnat_public_is_false() {
    let ip = ip_of("1.1.1.1");
    assert!(!is_private_or_cgnat(&ip));
}

#[test]
fn is_private_or_cgnat_ula_v6() {
    let ip = ip_of("fd00::1");
    assert!(is_private_or_cgnat(&ip));
}

#[test]
fn is_private_or_cgnat_link_local_v6() {
    let ip = ip_of("fe80::1");
    assert!(is_private_or_cgnat(&ip));
}

// ── classify_dns_expectation (Q5 taxonomy, all branches) ────────────────

#[test]
fn dns_expectation_dns_error_is_fail() {
    let r = classify_dns_expectation("host.example", &[], "internal", None, &cf_set(), true);
    assert_eq!(r.status, CheckStatus::Fail);
}

#[test]
fn dns_expectation_unresolved_is_warn_with_record_remedy() {
    let r = classify_dns_expectation("host.example", &[], "acme", None, &cf_set(), false);
    assert_eq!(r.status, CheckStatus::Warn);
    assert!(r.remedy.as_deref().unwrap().contains("DNS record"));
}

#[test]
fn dns_expectation_proxied_tailnet_origin_is_fail_grey_cloud() {
    // 104.16.0.1 is in CF ranges; tls=internal → orange-clouded tailnet.
    let ip = ip_of("104.16.0.1");
    let r =
        classify_dns_expectation("tailnet.example", &[ip], "internal", None, &cf_set(), false);
    assert_eq!(r.status, CheckStatus::Fail);
    assert!(r.remedy.as_deref().unwrap().contains("grey cloud"));
}

#[test]
fn dns_expectation_proxied_private_origin_is_fail() {
    let ip = ip_of("104.16.0.1");
    // private origin IP alongside the proxied one → fail (any_proxied && any_private).
    let priv_ip = ip_of("10.0.0.5");
    let r = classify_dns_expectation(
        "host.example",
        &[ip, priv_ip],
        "acme",
        None,
        &cf_set(),
        false,
    );
    assert_eq!(r.status, CheckStatus::Fail);
}

#[test]
fn dns_expectation_proxied_public_origin_is_pass() {
    let ip = ip_of("104.16.0.1");
    let r = classify_dns_expectation("host.example", &[ip], "acme", None, &cf_set(), false);
    assert_eq!(r.status, CheckStatus::Pass);
}

#[test]
fn dns_expectation_proxied_public_origin_with_dns01_is_pass() {
    // Regression: a public origin behind Cloudflare proxy with DNS-01
    // TLS is a valid, common setup. It must NOT be classified as fail
    // (the `tailnet_or_internal` set excludes `cloudflare-dns01`/`dns01`).
    let ip = ip_of("104.16.0.1");
    let r = classify_dns_expectation(
        "host.example",
        &[ip],
        "cloudflare-dns01",
        None,
        &cf_set(),
        false,
    );
    assert_eq!(r.status, CheckStatus::Pass);
}

#[test]
fn dns_expectation_proxied_public_origin_with_dns01_is_pass_generic() {
    let ip = ip_of("104.16.0.1");
    let r = classify_dns_expectation("host.example", &[ip], "dns01", None, &cf_set(), false);
    assert_eq!(r.status, CheckStatus::Pass);
}

#[test]
fn dns_expectation_proxied_private_origin_with_dns01_is_fail() {
    // Regression: even with DNS-01, a private/CGNAT origin behind an
    // orange cloud must still fail (Cloudflare proxy can't reach a
    // 100.x origin). The `any_private` check catches this independently
    // of the TLS strategy.
    let proxied_ip = ip_of("104.16.0.1");
    let private_ip = ip_of("100.64.0.1");
    let r = classify_dns_expectation(
        "tailnet.example",
        &[proxied_ip, private_ip],
        "cloudflare-dns01",
        None,
        &cf_set(),
        false,
    );
    assert_eq!(r.status, CheckStatus::Fail);
    assert!(r.remedy.as_deref().unwrap().contains("grey cloud"));
}

#[test]
fn dns_expectation_proxied_hint_false_is_fail() {
    let ip = ip_of("104.16.0.1");
    let r =
        classify_dns_expectation("host.example", &[ip], "acme", Some(false), &cf_set(), false);
    assert_eq!(r.status, CheckStatus::Fail);
    assert!(r.remedy.as_deref().unwrap().contains("grey cloud"));
}

#[test]
fn dns_expectation_private_origin_is_warn() {
    let ip = ip_of("10.0.0.5");
    let r = classify_dns_expectation("host.example", &[ip], "internal", None, &cf_set(), false);
    assert_eq!(r.status, CheckStatus::Warn);
}

#[test]
fn dns_expectation_direct_public_is_pass() {
    let ip = ip_of("1.2.3.4");
    let r = classify_dns_expectation("host.example", &[ip], "acme", None, &cf_set(), false);
    assert_eq!(r.status, CheckStatus::Pass);
}

// ── render_human ────────────────────────────────────────────────────────

#[test]
fn render_human_shows_icons_and_remedy() {
    let checks = vec![
        VerificationCheck::new("a", "A", CheckStatus::Pass, "ok", None),
        VerificationCheck::new("b", "B", CheckStatus::Fail, "bad", Some("fix me".into())),
    ];
    let s = render_human(&checks);
    assert!(s.contains("✓"));
    assert!(s.contains("✗"));
    assert!(s.contains("→ fix me"));
    assert!(s.contains("1 passed"));
    assert!(s.contains("1 failed"));
}

// ── Addresses ───────────────────────────────────────────────────────────

#[test]
fn addresses_read_as_the_standard_reads_them() {
    for text in [
        "0.0.0.0", "1.2.3.4", "255.255.255.255", "256.1.1.1", "01.2.3.4", "1.2.3", "1.2.3.4.5", "", "::", "::1", "1::",
        "fe80::1", "2001:db8::ff00:42:8329", "1:2:3:4:5:6:7:8", "1:2:3:4:5:6:7", "1:2:3:4:5:6:7:8:9", "::ffff:1.2.3.4",
        "1:2:3:4:5:6:1.2.3.4", "1::2::3", "12345::", "g::", ":1", "1:", "::1.2.3", "1:2:3:4:5:6:7::", "::2:3:4:5:6:7:8",
        "1::3:4:5:6:7:8", "FE80::ABCD", "1.2.3.4 ", " ::1", "+1.2.3.4", ":::",
    ] {
        let expected = text.parse::<core::net::IpAddr>().ok().map(|a| match a {
            core::net::IpAddr::V4(v) => (false, u32::from(v) as u128),
            core::net::IpAddr::V6(v) => (true, u128::from(v)),
        });
        let found = parse_ip(text).map(|a| match a {
            IpAddr::V4(n) => (false, n as u128),
            IpAddr::V6(n) => (true, n),
        });
        assert_eq!(found, expected, "{text}");
    }
}

#[test]
fn ranges_hold_what_shares_their_prefix() {
    let mut set = CidrSet::new();
    assert!(set.is_empty());
    assert!(set.add("10.1.0.0/16").is_ok());
    assert!(set.add("2001:db8::/32").is_ok());
    assert!(set.add("10.1.0.0").is_err());
    assert!(set.add("10.1.0.0/33").is_err());
    assert!(set.add("x/8").is_err());
    assert_eq!(set.len(), 2);
    assert!(set.contains(&ip_of("10.1.255.255")));
    assert!(!set.contains(&ip_of("10.2.0.0")));
    assert!(set.contains(&ip_of("2001:db8:ffff::")));
    assert!(!set.contains(&ip_of("2001:db9::")));
    let all = CidrSet::from_cidrs(&["0.0.0.0/0"]);
    assert!(all.contains(&ip_of("8.8.8.8")));
    assert!(!all.contains(&ip_of("::1")));
    let one = CidrSet::from_cidrs(&["8.8.8.8/32"]);
    assert!(one.contains(&ip_of("8.8.8.8")));
    assert!(!one.contains(&ip_of("8.8.8.9")));
}

#[test]
fn addresses_lead_somewhere() {
    let cf = cf_set();
    assert_eq!(classify_ip(&ip_of("104.16.1.1"), &cf), DnsClass::Proxied);
    assert_eq!(classify_ip(&ip_of("100.64.0.1"), &cf), DnsClass::PrivateOrigin);
    assert_eq!(classify_ip(&ip_of("8.8.8.8"), &cf), DnsClass::Direct);
}

#[test]
fn fetched_ranges_replace_the_bundled_ones() {
    let (set, bundled) = ranges_from(Some("1.0.0.0/8\n  2.0.0.0/8  \n\n"), Some("2001:db8::/32\n"));
    assert!(!bundled);
    assert_eq!(set.len(), 3);
    assert!(set.contains(&ip_of("2.3.4.5")));
    let (set, bundled) = ranges_from(None, Some("2001:db8::/32"));
    assert!(bundled);
    assert_eq!(set.len(), CLOUDFLARE_RANGE_SNAPSHOT.len());
    let (_, bundled) = ranges_from(Some("nothing"), Some(""));
    assert!(bundled);
}

// ── Reports ─────────────────────────────────────────────────────────────

#[test]
fn a_report_prints_exactly() {
    let checks = vec![VerificationCheck::new("a", "A", CheckStatus::Warn, "d", Some("r".to_string()))];
    let mut report = DoctorReport::detection(checks);
    report.generated_at = Timestamp { secs: 1_700_000_000, nanos: 0 };
    let json = report.to_json();
    assert_eq!(json["checks"][0]["status"], "warn");
    assert_eq!(json["checks"][0]["remedy"], "r");
    assert_eq!(json["summary"]["warn"], 1);
    assert_eq!(json["schema"], "slip.doctor/v1");
    assert_eq!(json["generated_at"], "2023-11-14T22:13:20Z");
}
