//! The daemon adapter's decisions, the reconciler, and the dashboard state
//! machine.

use ytunnel::app_core::{App, InputMode, PendingAction};
use ytunnel::cloudflare::{
    find_live_tunnel, format_errors, plan_dns_upsert, tunnel_cname, ApiError, DnsPlan, DnsRecord,
    Tunnel,
};
use ytunnel::config::{Account, Config, ZoneConfig};
use ytunnel::daemon::{
    classify_launchd_record, classify_systemd_output, find_launchd_label, find_plist_path,
    generate_plist, generate_service, launchd_label, launchd_list_running, launchd_start_fatal,
    launchd_stop_fatal, legacy_launchd_label, legacy_plist_path, parse_launchd_record, plist_path,
    resolve_ambiguous_record, service_name, service_path, should_display_log, systemd_stop_fatal,
    tail_lines,
};
use ytunnel::health::HealthStatus;
use ytunnel::history::MetricsHistory;
use ytunnel::metrics::parse_prometheus_metrics;
use ytunnel::reconcile::{
    build_managed_entries, ephemeral_entries, merge_entries, parse_ephemeral_config,
    EphemeralObservation, TunnelEntry, TunnelKind,
};
use ytunnel::state::PersistentTunnel;
use ytunnel::status::TunnelStatus;

fn tunnel(name: &str, acct: &str) -> PersistentTunnel {
    PersistentTunnel {
        name: name.to_string(),
        account_name: acct.to_string(),
        target: "localhost:3000".to_string(),
        zone_id: "z1".to_string(),
        zone_name: "example.com".to_string(),
        hostname: format!("{}.example.com", name),
        tunnel_id: format!("tid-{}", name),
        enabled: true,
        auto_start: false,
        metrics_port: None,
    }
}

fn remote(id: &str, name: &str, deleted: bool) -> Tunnel {
    Tunnel {
        id: id.to_string(),
        name: name.to_string(),
        deleted_at: if deleted { Some("2024-01-01".to_string()) } else { None },
    }
}

fn account(name: &str) -> Account {
    Account {
        name: name.to_string(),
        api_token: "SECRET-REDACTED".to_string(),
        account_id: "acc123".to_string(),
        default_zone_id: "z1".to_string(),
        default_zone_name: "example.com".to_string(),
        zones: vec![ZoneConfig { id: "z1".to_string(), name: "example.com".to_string() }],
    }
}

#[test]
fn service_names_namespace_by_account_with_legacy_form() {
    assert_eq!(launchd_label("work", "api"), "com.ytunnel.work.api");
    assert_eq!(launchd_label("", "api"), "com.ytunnel.api");
    assert_eq!(legacy_launchd_label("api"), "com.ytunnel.api");
    assert_eq!(plist_path("/agents", "work", "api"), "/agents/com.ytunnel.work.api.plist");
    assert_eq!(legacy_plist_path("/agents", "api"), "/agents/com.ytunnel.api.plist");
    assert_eq!(service_name("work", "api"), "ytunnel-work-api.service");
    assert_eq!(service_name("", "api"), "ytunnel-api.service");
    assert_eq!(service_path("/sysd", "work", "api"), "/sysd/ytunnel-work-api.service");
}

#[test]
fn lookups_fall_back_to_the_legacy_identifier() {
    // Only the legacy descriptor exists on disk: the lookup must resolve to
    // it instead of failing.
    assert_eq!(
        find_plist_path("/agents", "work", "api", false, true),
        Some("/agents/com.ytunnel.api.plist".to_string())
    );
    assert_eq!(
        find_plist_path("/agents", "work", "api", true, true),
        Some("/agents/com.ytunnel.work.api.plist".to_string())
    );
    assert_eq!(find_plist_path("/agents", "work", "api", false, false), None);
    assert_eq!(find_launchd_label("work", "api", false, true), "com.ytunnel.api");
    assert_eq!(find_launchd_label("work", "api", true, false), "com.ytunnel.work.api");
    assert_eq!(find_launchd_label("work", "api", false, false), "com.ytunnel.work.api");
}

#[test]
fn launchd_records_classify_with_a_probe_for_ambiguity() {
    let (pid, zero, any) =
        parse_launchd_record("{\n    \"PID\" = 123;\n    \"LastExitStatus\" = 0;\n}");
    assert!(pid && zero && any);
    assert_eq!(
        classify_launchd_record(false, false, false, false),
        Some(TunnelStatus::Stopped)
    );
    assert_eq!(classify_launchd_record(true, false, false, false), Some(TunnelStatus::Stopped));
    assert_eq!(classify_launchd_record(true, true, true, true), Some(TunnelStatus::Running));
    assert_eq!(classify_launchd_record(true, true, false, false), Some(TunnelStatus::Running));
    // A record with a process and a non-zero exit is ambiguous: the direct
    // liveness probe decides.
    assert_eq!(classify_launchd_record(true, true, false, true), None);
    assert_eq!(resolve_ambiguous_record(true), TunnelStatus::Running);
    assert_eq!(resolve_ambiguous_record(false), TunnelStatus::Error);
}

#[test]
fn launchd_listing_shows_running_tunnels() {
    let listing = "1\t0\tcom.apple.something\n123\t0\tcom.ytunnel.api\n-\t0\tcom.ytunnel.work.web\n";
    assert!(launchd_list_running(listing, "com.ytunnel.work.api", "com.ytunnel.api"));
    // The legacy-labelled line has a PID; the namespaced line for web does
    // not.
    assert!(!launchd_list_running(listing, "com.ytunnel.work.web", "com.ytunnel.web"));
    assert!(!launchd_list_running("", "a", "b"));
}

#[test]
fn systemd_output_classifies() {
    assert_eq!(classify_systemd_output("active\n"), TunnelStatus::Running);
    assert_eq!(classify_systemd_output("failed\n"), TunnelStatus::Error);
    assert_eq!(classify_systemd_output("inactive\n"), TunnelStatus::Stopped);
    assert_eq!(classify_systemd_output(""), TunnelStatus::Stopped);
}

#[test]
fn benign_manager_responses_are_not_fatal() {
    assert!(!launchd_start_fatal(true, ""));
    assert!(!launchd_start_fatal(false, "service already loaded"));
    assert!(!launchd_start_fatal(false, ""));
    assert!(launchd_start_fatal(false, "permission denied"));
    assert!(!launchd_stop_fatal(false, "Could not find specified service"));
    assert!(!launchd_stop_fatal(false, "not loaded"));
    assert!(launchd_stop_fatal(false, "some real failure"));
    assert!(!systemd_stop_fatal(false, "unit not loaded"));
    assert!(systemd_stop_fatal(false, "some real failure"));
}

#[test]
fn descriptors_encode_the_tunnel_command() {
    let mut t = tunnel("api", "work");
    t.metrics_port = Some(21234);
    t.auto_start = true;
    let plist = generate_plist(&t, "/cfg", "/usr/local/bin/cloudflared");
    assert!(plist.contains("<string>com.ytunnel.work.api</string>"));
    assert!(plist.contains("<string>/usr/local/bin/cloudflared</string>"));
    assert!(plist.contains("<string>/cfg/tunnel-configs/api.yml</string>"));
    assert!(plist.contains("<string>localhost:21234</string>"));
    assert!(plist.contains("<key>RunAtLoad</key>\n    <true/>"));
    assert!(plist.contains("<string>/cfg/logs/api.log</string>"));
    let unit = generate_service(&t, "/cfg", "/usr/bin/cloudflared");
    assert!(unit.contains("Description=Cloudflare Tunnel - api"));
    assert!(unit.contains(
        "ExecStart=/usr/bin/cloudflared tunnel --config /cfg/tunnel-configs/api.yml --metrics localhost:21234 run"
    ));
    assert!(unit.contains("Restart=on-failure"));
    assert!(unit.contains("StandardOutput=append:/cfg/logs/api.log"));
}

#[test]
fn log_tail_keeps_the_newest_lines() {
    let lines: Vec<String> = (0..5).map(|i| format!("line{}", i)).collect();
    assert_eq!(tail_lines(&lines, 2), vec!["line3", "line4"]);
    assert_eq!(tail_lines(&lines, 10), lines);
    assert!(should_display_log("2024 INF Connection registered"));
    assert!(!should_display_log("some noisy debug output"));
}

#[test]
fn dns_upsert_is_planned_idempotently() {
    assert_eq!(tunnel_cname("tid-1"), "tid-1.cfargotunnel.com");
    let correct = DnsRecord {
        id: "r1".to_string(),
        name: "api.example.com".to_string(),
        content: "tid-1.cfargotunnel.com".to_string(),
        record_type: "CNAME".to_string(),
    };
    assert!(matches!(
        plan_dns_upsert(Some(correct), "tid-1.cfargotunnel.com"),
        DnsPlan::AlreadyCorrect
    ));
    let wrong = DnsRecord {
        id: "r1".to_string(),
        name: "api.example.com".to_string(),
        content: "other.cfargotunnel.com".to_string(),
        record_type: "CNAME".to_string(),
    };
    match plan_dns_upsert(Some(wrong), "tid-1.cfargotunnel.com") {
        DnsPlan::Update(id) => assert_eq!(id, "r1"),
        _ => panic!("expected an update"),
    }
    assert!(matches!(plan_dns_upsert(None, "tid-1.cfargotunnel.com"), DnsPlan::Create));
}

#[test]
fn live_tunnels_found_by_name_skip_deleted_ones() {
    let tunnels = vec![
        remote("t1", "ytunnel-api", true),
        remote("t2", "ytunnel-api", false),
        remote("t3", "ytunnel-web", false),
    ];
    assert_eq!(find_live_tunnel(&tunnels, "ytunnel-api").unwrap().id, "t2");
    assert!(find_live_tunnel(&tunnels, "ytunnel-absent").is_none());
    let errors = vec![
        ApiError { message: "first".to_string() },
        ApiError { message: "second".to_string() },
    ];
    assert_eq!(format_errors(&errors), "first, second");
    assert_eq!(format_errors(&vec![]), "");
}

#[test]
fn ephemeral_artifacts_parse_tolerantly() {
    let content = "tunnel: tid-1\ningress:\n  - hostname: api.example.com\n    service: http://localhost:8080\n  - service: http_status:404\n";
    assert_eq!(
        parse_ephemeral_config(content),
        Some(("api.example.com".to_string(), "http://localhost:8080".to_string()))
    );
    // The catch-all rule alone names no target.
    assert_eq!(parse_ephemeral_config("ingress:\n  - service: http_status:404\n"), None);
    assert_eq!(parse_ephemeral_config("not yaml at all"), None);
    assert_eq!(parse_ephemeral_config(""), None);
}

#[test]
fn orphans_appear_exactly_once_as_ephemeral() {
    let remote_list = vec![
        remote("t1", "ytunnel-api", false),  // managed: excluded
        remote("t2", "ytunnel-orphan", false),  // the orphan
        remote("t3", "ytunnel-gone", true),  // soft-deleted: excluded
        remote("t4", "unrelated", false),  // no prefix: excluded
    ];
    let obs = vec![
        EphemeralObservation { config: None, config_exists: false },
        EphemeralObservation {
            config: Some(("orphan.example.com".to_string(), "localhost:9000".to_string())),
            config_exists: true,
        },
        EphemeralObservation { config: None, config_exists: false },
        EphemeralObservation { config: None, config_exists: false },
    ];
    let managed_names = vec!["api".to_string()];
    let zones = vec![ZoneConfig { id: "z1".to_string(), name: "example.com".to_string() }];
    let entries = ephemeral_entries(&remote_list, obs, &managed_names, &zones, "work");
    assert_eq!(entries.len(), 1);
    let e = &entries[0];
    assert_eq!(e.kind, TunnelKind::Ephemeral);
    assert_eq!(e.tunnel.name, "orphan");
    assert_eq!(e.tunnel.hostname, "orphan.example.com");
    assert_eq!(e.tunnel.target, "localhost:9000");
    assert_eq!(e.tunnel.zone_id, "z1");
    assert_eq!(e.tunnel.zone_name, "example.com");
    assert_eq!(e.tunnel.tunnel_id, "t2");
    // The artifact exists, so the heuristic reports it running.
    assert_eq!(e.status, TunnelStatus::Running);

    // After import its short name is managed: the next pass lists it as
    // managed and drops it from the ephemeral set.
    let obs = vec![
        EphemeralObservation { config: None, config_exists: false },
        EphemeralObservation { config: None, config_exists: true },
        EphemeralObservation { config: None, config_exists: false },
        EphemeralObservation { config: None, config_exists: false },
    ];
    let managed_names = vec!["api".to_string(), "orphan".to_string()];
    let entries = ephemeral_entries(&remote_list, obs, &managed_names, &zones, "work");
    assert_eq!(entries.len(), 0);

    let managed = build_managed_entries(
        vec![tunnel("orphan", "work")],
        &vec![TunnelStatus::Running],
        vec![None],
        &vec![],
    );
    assert_eq!(managed.len(), 1);
    assert_eq!(managed[0].kind, TunnelKind::Managed);
    assert_eq!(managed[0].tunnel.name, "orphan");
}

#[test]
fn missing_artifacts_fall_back_to_unknown_target() {
    let remote_list = vec![remote("t9", "ytunnel-bare", false)];
    let obs = vec![EphemeralObservation { config: None, config_exists: false }];
    let entries = ephemeral_entries(&remote_list, obs, &vec![], &vec![], "work");
    assert_eq!(entries.len(), 1);
    assert_eq!(entries[0].tunnel.hostname, "bare");
    assert_eq!(entries[0].tunnel.target, "unknown");
    assert_eq!(entries[0].tunnel.zone_id, "");
    assert_eq!(entries[0].status, TunnelStatus::Stopped);
}

#[test]
fn rebuilt_entries_carry_history_and_health_by_name() {
    // A previous pass with cached history and health.
    let mut history = MetricsHistory::default();
    history.record(10);
    let previous = vec![TunnelEntry {
        tunnel: tunnel("api", "work"),
        status: TunnelStatus::Running,
        kind: TunnelKind::Managed,
        metrics: None,
        metrics_history: history,
        health: HealthStatus::Healthy,
    }];
    // The rebuild sees a fresh snapshot with 25 total requests.
    let snapshot = parse_prometheus_metrics("cloudflared_tunnel_total_requests 25\n");
    let entries = build_managed_entries(
        vec![tunnel("api", "work"), tunnel("web", "work")],
        &vec![TunnelStatus::Running, TunnelStatus::Stopped],
        vec![Some(snapshot), None],
        &previous,
    );
    assert_eq!(entries.len(), 2);
    // The carried history gained the delta 25 - 10.
    assert_eq!(entries[0].metrics_history.request_samples, vec![10, 15]);
    assert_eq!(entries[0].health, HealthStatus::Healthy);
    // The unseen tunnel starts fresh.
    assert!(entries[1].metrics_history.request_samples.is_empty());
    assert_eq!(entries[1].health, HealthStatus::Unknown);

    let merged = merge_entries(entries, vec![]);
    assert_eq!(merged.len(), 2);
}

#[test]
fn dashboard_navigation_and_add_flow() {
    let cfg = Config {
        selected_account: "work".to_string(),
        accounts: vec![account("work"), account("home")],
    };
    let mut app = App::new(Some(cfg), None);
    assert_eq!(app.current_account_name(), "work");
    assert_eq!(app.selected_account_idx, 0);
    app.next_account();
    assert_eq!(app.current_account_name(), "home");
    assert_eq!(app.status_message, Some("Switched to account: home".to_string()));

    // Selection stays in bounds.
    assert!(!app.select_previous());
    assert!(!app.select_next());

    // The add flow rejects a duplicate name: the caller-side check of the
    // ledger's key discipline.
    app.tunnels.push(TunnelEntry {
        tunnel: tunnel("api", "home"),
        status: TunnelStatus::Stopped,
        kind: TunnelKind::Managed,
        metrics: None,
        metrics_history: MetricsHistory::default(),
        health: HealthStatus::Unknown,
    });
    app.start_add();
    assert_eq!(app.input_mode, InputMode::AddName);
    app.input = "api".to_string();
    app.next_add_step();
    assert_eq!(app.input_mode, InputMode::AddName);
    assert_eq!(app.status_message, Some("Tunnel 'api' already exists".to_string()));
    // A fresh name moves on to the target, then the zone.
    app.input = "fresh".to_string();
    app.next_add_step();
    assert_eq!(app.input_mode, InputMode::AddTarget);
    assert_eq!(app.new_tunnel_name, Some("fresh".to_string()));
    app.input = "localhost:3000".to_string();
    app.next_add_step();
    assert_eq!(app.input_mode, InputMode::AddZone);
    app.cancel_input();
    assert_eq!(app.input_mode, InputMode::Normal);
    assert!(app.new_tunnel_name.is_none());
}

#[test]
fn dashboard_without_configuration_points_at_setup() {
    let mut app = App::new(None, None);
    assert!(app.accounts.is_empty());
    app.start_add();
    assert_eq!(app.status_message, Some("Run 'ytunnel init' first".to_string()));
    assert_eq!(app.input_mode, InputMode::Normal);
}

#[test]
fn delete_requests_arm_a_confirmation() {
    let mut app = App::new(None, None);
    app.tunnels.push(TunnelEntry {
        tunnel: tunnel("api", "work"),
        status: TunnelStatus::Running,
        kind: TunnelKind::Managed,
        metrics: None,
        metrics_history: MetricsHistory::default(),
        health: HealthStatus::Unknown,
    });
    app.request_delete();
    assert_eq!(app.input_mode, InputMode::Confirm);
    assert_eq!(
        app.confirm_message,
        Some("Delete tunnel 'api'? This will remove the DNS record and tunnel. (y/n)".to_string())
    );
    match app.pending_action {
        Some(PendingAction::Delete(ref n)) => assert_eq!(n, "api"),
        _ => panic!("expected an armed delete"),
    }
}

#[test]
fn health_results_show_and_notify_on_edges() {
    let mut app = App::new(None, None);
    let n = app.show_health_result("api", HealthStatus::Unknown, HealthStatus::Healthy);
    assert!(n.is_none());
    assert_eq!(app.status_message, Some("\u{2713} api is healthy".to_string()));
    let n = app.show_health_result("api", HealthStatus::Healthy, HealthStatus::Unhealthy);
    let (title, body) = n.unwrap();
    assert_eq!(title, "Tunnel Down: api");
    assert_eq!(body, "The tunnel is no longer reachable");
    assert_eq!(app.status_message, Some("\u{26a0}\u{fe0f}  Tunnel 'api' is DOWN!".to_string()));
    let n = app.show_health_result("api", HealthStatus::Unhealthy, HealthStatus::Healthy);
    let (title, _) = n.unwrap();
    assert_eq!(title, "Tunnel Up: api");
}

#[test]
fn log_pane_explains_ephemeral_tunnels() {
    let mut app = App::new(None, None);
    app.refresh_logs(Ok(vec![]));
    assert_eq!(app.logs, vec!["No tunnel selected"]);
    let mut t = tunnel("orphan", "work");
    t.target = "localhost:9000".to_string();
    t.zone_name = "example.com".to_string();
    app.tunnels.push(TunnelEntry {
        tunnel: t,
        status: TunnelStatus::Running,
        kind: TunnelKind::Ephemeral,
        metrics: None,
        metrics_history: MetricsHistory::default(),
        health: HealthStatus::Unknown,
    });
    app.refresh_logs(Ok(vec![]));
    assert_eq!(app.logs.len(), 8);
    assert_eq!(app.logs[0], "Ephemeral tunnel (created with `ytunnel run`)");
    assert_eq!(app.logs[2], "Hostname: orphan.example.com");
    assert_eq!(app.logs[3], "Target:   localhost:9000");
    assert_eq!(app.logs[4], "Zone:     example.com");
    // A managed selection takes the tail the caller read.
    app.tunnels[0].kind = TunnelKind::Managed;
    app.refresh_logs(Ok(vec!["a line".to_string()]));
    assert_eq!(app.logs, vec!["a line"]);
    app.refresh_logs(Err("gone".to_string()));
    assert_eq!(app.logs, vec!["Error reading logs: gone"]);
}
