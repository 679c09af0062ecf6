//! The health and metrics monitor: metrics-page parsing, counter-delta
//! history, health classification, and the update-check decisions.

use ytunnel::cloudflare::base64_encode;
use ytunnel::health::{classify_probe, should_notify, HealthStatus};
use ytunnel::history::MetricsHistory;
use ytunnel::metrics::{
    extract_edge_location, extract_status_code, extract_value, parse_prometheus_metrics,
};
use ytunnel::update::{
    detect_install_method, is_newer, parse_version, platform_target, update_hint, InstallMethod,
    UpdateCache, UpdateHint,
};

#[test]
fn test_parse_metrics() {
    let text = "\n# HELP cloudflared_tunnel_total_requests Total requests\n# TYPE cloudflared_tunnel_total_requests counter\ncloudflared_tunnel_total_requests 42\ncloudflared_tunnel_request_errors 2\ncloudflared_tunnel_ha_connections 4\ncloudflared_tunnel_concurrent_requests_per_tunnel 1\ncloudflared_tunnel_response_by_code{status_code=\"200\"} 35\ncloudflared_tunnel_response_by_code{status_code=\"404\"} 5\ncloudflared_tunnel_server_locations{connection_id=\"0\",edge_location=\"dfw08\"} 1\ncloudflared_tunnel_server_locations{connection_id=\"1\",edge_location=\"den01\"} 1\n";

    let metrics = parse_prometheus_metrics(text);
    assert!(metrics.available);
    assert_eq!(metrics.total_requests, 42);
    assert_eq!(metrics.request_errors, 2);
    assert_eq!(metrics.ha_connections, 4);
    assert_eq!(metrics.concurrent_requests, 1);
    assert_eq!(metrics.response_codes.get(&200), Some(&35));
    assert_eq!(metrics.response_codes.get(&404), Some(&5));
    assert_eq!(metrics.edge_locations, vec!["den01", "dfw08"]);
}

#[test]
fn metric_line_pieces_parse() {
    assert_eq!(extract_value("cloudflared_tunnel_total_requests 42"), Some(42));
    assert_eq!(extract_value("name 42.0"), Some(42));
    assert_eq!(extract_value("name 42.x"), None);
    assert_eq!(extract_value("name abc"), None);
    assert_eq!(extract_value("name 99999999999999999999999999"), None);
    assert_eq!(extract_value("name"), None);
    assert_eq!(
        extract_status_code("cloudflared_tunnel_response_by_code{status_code=\"200\"} 5"),
        Some(200)
    );
    assert_eq!(
        extract_status_code("cloudflared_tunnel_response_by_code{status_code=\"99999\"} 5"),
        None
    );
    assert_eq!(extract_status_code("no label here 5"), None);
    assert_eq!(
        extract_edge_location(
            "cloudflared_tunnel_server_locations{connection_id=\"0\",edge_location=\"dfw08\"} 1"
        ),
        Some("dfw08".to_string())
    );
    assert_eq!(extract_edge_location("nothing"), None);
}

#[test]
fn duplicate_locations_listed_once_and_joined() {
    let text = "cloudflared_tunnel_server_locations{connection_id=\"0\",edge_location=\"dfw08\"} 1\ncloudflared_tunnel_server_locations{connection_id=\"1\",edge_location=\"dfw08\"} 1\ncloudflared_tunnel_server_locations{connection_id=\"2\",edge_location=\"ams01\"} 1\n";
    let metrics = parse_prometheus_metrics(text);
    assert_eq!(metrics.edge_locations, vec!["ams01", "dfw08"]);
    assert_eq!(metrics.locations_string(), "ams01, dfw08");
    let empty = parse_prometheus_metrics("");
    assert_eq!(empty.locations_string(), "None");
}

#[test]
fn history_records_deltas_never_negative() {
    let mut h = MetricsHistory::default();
    for total in [0u64, 5, 12, 12, 20] {
        h.record(total);
    }
    assert_eq!(h.request_samples, vec![0, 5, 7, 0, 8]);
    assert_eq!(h.last_total, 20);
    // A counter reset records the new absolute value, never a negative delta.
    h.record(3);
    assert_eq!(h.request_samples, vec![0, 5, 7, 0, 8, 3]);
    assert_eq!(h.last_total, 3);
}

#[test]
fn history_keeps_only_the_newest_thirty() {
    let mut h = MetricsHistory::default();
    for i in 0..31u64 {
        h.record(i);
    }
    assert_eq!(h.request_samples.len(), 30);
    // The first delta (0) was dropped; every remaining delta is 1.
    assert!(h.request_samples.iter().all(|&d| d == 1));
}

#[test]
fn sparkline_scales_to_the_largest_sample() {
    let mut h = MetricsHistory::default();
    assert_eq!(h.sparkline(), "");
    h.record(0);
    h.record(10);
    // Deltas [0, 10]: the zero maps to the lowest block, the peak to the
    // highest.
    assert_eq!(h.sparkline(), "\u{2581}\u{2588}");
}

#[test]
fn later_counter_lines_win_and_crlf_is_tolerated() {
    let text = "cloudflared_tunnel_total_requests 1\r\ncloudflared_tunnel_total_requests 7\r\n";
    let metrics = parse_prometheus_metrics(text);
    assert_eq!(metrics.total_requests, 7);
    assert_eq!(metrics.request_errors, 0);
}

#[test]
fn health_classification() {
    assert_eq!(classify_probe(Some(200)), HealthStatus::Healthy);
    assert_eq!(classify_probe(Some(301)), HealthStatus::Healthy);
    assert_eq!(classify_probe(Some(404)), HealthStatus::Healthy);
    assert_eq!(classify_probe(Some(500)), HealthStatus::Unhealthy);
    assert_eq!(classify_probe(None), HealthStatus::Unhealthy);
}

#[test]
fn repeated_classifications_notify_once() {
    // The sequence Healthy, Healthy, Unhealthy emits exactly one
    // notification: on the single Healthy-to-Unhealthy edge.
    let classifications = [HealthStatus::Healthy, HealthStatus::Healthy, HealthStatus::Unhealthy];
    let mut prev = HealthStatus::Unknown;
    let mut notifications = 0;
    for next in classifications {
        if should_notify(prev, next) {
            notifications += 1;
        }
        prev = next;
    }
    assert_eq!(notifications, 1);
    // Coming back up notifies again; repeating it does not.
    assert!(should_notify(HealthStatus::Unhealthy, HealthStatus::Healthy));
    assert!(!should_notify(HealthStatus::Healthy, HealthStatus::Healthy));
    assert!(!should_notify(HealthStatus::Unknown, HealthStatus::Healthy));
}

#[test]
fn test_parse_version() {
    assert_eq!(parse_version("0.7.1"), (0, 7, 1));
    assert_eq!(parse_version("1.0.0"), (1, 0, 0));
}

#[test]
fn test_is_newer() {
    assert!(is_newer("0.7.1", "0.7.2"));
    assert!(is_newer("0.7.1", "0.8.0"));
    assert!(is_newer("0.7.1", "1.0.0"));
    assert!(!is_newer("0.7.1", "0.7.1"));
    assert!(!is_newer("0.7.1", "0.7.0"));
}

#[test]
fn test_platform_target_is_some() {
    assert!(platform_target("linux", "x86_64").is_some());
}

#[test]
fn platform_targets_name_release_assets() {
    assert_eq!(platform_target("macos", "aarch64"), Some("darwin-aarch64".to_string()));
    assert_eq!(platform_target("macos", "x86_64"), Some("darwin-x86_64".to_string()));
    assert_eq!(platform_target("linux", "aarch64"), Some("linux-aarch64".to_string()));
    assert_eq!(platform_target("windows", "x86_64"), None);
}

#[test]
fn update_hints_follow_the_cache() {
    let fresh = UpdateCache { latest_version: "0.7.1".to_string(), checked_at: 1000 };
    assert_eq!(update_hint("0.7.1", &Some(fresh), 1500), UpdateHint::Quiet);
    let newer = UpdateCache { latest_version: "0.8.0".to_string(), checked_at: 1000 };
    assert_eq!(update_hint("0.7.1", &Some(newer), 1500), UpdateHint::Announce);
    let stale = UpdateCache { latest_version: "0.7.1".to_string(), checked_at: 1000 };
    assert_eq!(update_hint("0.7.1", &Some(stale), 1000 + 86400), UpdateHint::Refresh);
    assert_eq!(update_hint("0.7.1", &None, 0), UpdateHint::Refresh);
}

#[test]
fn install_method_is_judged_from_the_path() {
    assert_eq!(
        detect_install_method("/opt/homebrew/Cellar/ytunnel/0.7.1/bin/ytunnel"),
        InstallMethod::Homebrew
    );
    assert_eq!(detect_install_method("/home/u/.cargo/bin/ytunnel"), InstallMethod::Cargo);
    assert_eq!(detect_install_method("/usr/local/bin/ytunnel"), InstallMethod::Binary);
}

#[test]
fn base64_matches_known_vectors() {
    assert_eq!(base64_encode(&vec![]), "");
    assert_eq!(base64_encode(&b"f".to_vec()), "Zg==");
    assert_eq!(base64_encode(&b"fo".to_vec()), "Zm8=");
    assert_eq!(base64_encode(&b"foo".to_vec()), "Zm9v");
    assert_eq!(base64_encode(&b"foob".to_vec()), "Zm9vYg==");
    assert_eq!(base64_encode(&b"fooba".to_vec()), "Zm9vYmE=");
    assert_eq!(base64_encode(&b"foobar".to_vec()), "Zm9vYmFy");
}

#[test]
fn tunnel_secrets_encode_thirty_two_random_bytes() {
    let s = ytunnel::cloudflare::new_tunnel_secret();
    // 32 bytes make 44 base64 characters, the last one padding.
    assert_eq!(s.len(), 44);
    assert!(s.ends_with('='));
}
