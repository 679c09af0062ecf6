//! The configuration and tunnel-state stores: account operations, schema
//! migration, the ledger's key discipline, and name derivation.

use ytunnel::config::{
    config_path, decode_config, migrate_legacy, Account, Config, ConfigError, LegacyConfig,
    ZoneConfig,
};
use ytunnel::naming::{
    fallback_account, hostname_for, resolve_zone, strip_tool_prefix, subdomain_of,
    tunnel_resource_name,
};
use ytunnel::state::{
    generate_tunnel_config, tunnels_path, PersistentTunnel, TunnelState,
};

fn zone(id: &str, name: &str) -> ZoneConfig {
    ZoneConfig { id: id.to_string(), name: name.to_string() }
}

fn account(name: &str) -> Account {
    Account {
        name: name.to_string(),
        api_token: "SECRET-REDACTED".to_string(),
        account_id: "acc123".to_string(),
        default_zone_id: "z1".to_string(),
        default_zone_name: "example.com".to_string(),
        zones: vec![zone("z1", "example.com"), zone("z2", "dev.example.com")],
    }
}

fn tunnel(name: &str, acct: &str) -> PersistentTunnel {
    PersistentTunnel {
        name: name.to_string(),
        account_name: acct.to_string(),
        target: "localhost:3000".to_string(),
        zone_id: "z1".to_string(),
        zone_name: "example.com".to_string(),
        hostname: format!("{}.example.com", name),
        tunnel_id: format!("tid-{}", name),
        enabled: true,
        auto_start: false,
        metrics_port: None,
    }
}

#[test]
fn account_lookup_and_selection() {
    let mut cfg = Config {
        selected_account: "work".to_string(),
        accounts: vec![account("work"), account("home")],
    };
    assert_eq!(cfg.get_account(None).unwrap().name, "work");
    assert_eq!(cfg.get_account(Some("home")).unwrap().name, "home");
    assert_eq!(cfg.get_account(Some("absent")).unwrap_err(), ConfigError::NotFound);
    assert_eq!(cfg.select_account("absent").unwrap_err(), ConfigError::NotFound);
    cfg.select_account("home").unwrap();
    assert_eq!(cfg.selected_account, "home");
    assert_eq!(cfg.get_account(None).unwrap().name, "home");
}

#[test]
fn add_account_rejects_duplicate() {
    let mut cfg = Config { selected_account: "work".to_string(), accounts: vec![account("work")] };
    assert_eq!(cfg.add_account(account("work")).unwrap_err(), ConfigError::AlreadyExists);
    cfg.add_account(account("home")).unwrap();
    assert_eq!(cfg.accounts.len(), 2);
}

#[test]
fn remove_account_keeps_a_selection_and_refuses_the_last() {
    let mut cfg = Config {
        selected_account: "work".to_string(),
        accounts: vec![account("work"), account("home")],
    };
    assert_eq!(cfg.remove_account("absent").unwrap_err(), ConfigError::NotFound);
    let removed = cfg.remove_account("work").unwrap();
    assert_eq!(removed.name, "work");
    assert_eq!(cfg.selected_account, "home");
    assert_eq!(cfg.remove_account("home").unwrap_err(), ConfigError::CannotRemoveLast);
}

#[test]
fn legacy_config_migrates_once_and_losslessly() {
    let legacy = LegacyConfig {
        api_token: "SECRET-REDACTED".to_string(),
        account_id: "acc123".to_string(),
        default_zone_id: "z1".to_string(),
        default_zone_name: "example.com".to_string(),
        zones: vec![zone("z1", "example.com")],
    };
    let migrated = migrate_legacy(legacy);
    assert_eq!(migrated.selected_account, "default");
    assert_eq!(migrated.accounts.len(), 1);
    assert_eq!(migrated.accounts[0].name, "default");
    assert_eq!(migrated.accounts[0].api_token, "SECRET-REDACTED");
    assert_eq!(migrated.accounts[0].account_id, "acc123");
    assert_eq!(migrated.accounts[0].default_zone_id, "z1");
    assert_eq!(migrated.accounts[0].default_zone_name, "example.com");
    assert_eq!(migrated.accounts[0].zones.len(), 1);

    // First load: only the legacy schema parses; it migrates and must be saved.
    let legacy = LegacyConfig {
        api_token: "SECRET-REDACTED".to_string(),
        account_id: "acc123".to_string(),
        default_zone_id: "z1".to_string(),
        default_zone_name: "example.com".to_string(),
        zones: vec![zone("z1", "example.com")],
    };
    let (first, migrated_now) = decode_config(None, Some(legacy)).unwrap();
    assert!(migrated_now);
    // Second load: the saved document parses as the current schema and the
    // pass does not migrate again.
    let (second, migrated_again) = decode_config(Some(first), None).unwrap();
    assert!(!migrated_again);
    assert_eq!(second.selected_account, "default");
    // A document in neither schema is a hard error.
    assert_eq!(decode_config(None, None).unwrap_err(), ConfigError::InvalidFormat);
}

#[test]
fn ledger_find_add_remove_by_key() {
    let mut state = TunnelState::default();
    state.add(tunnel("api", "work"));
    state.add(tunnel("api", "home"));
    state.add(tunnel("web", "work"));
    assert_eq!(state.find("api").unwrap().account_name, "work");
    assert!(state.find("absent").is_none());
    assert_eq!(state.find_for_account("api", "home").unwrap().account_name, "home");
    assert!(state.find_for_account("api", "absent").is_none());
    let per_account = state.tunnels_for_account("work");
    assert_eq!(per_account.len(), 2);
    assert_eq!(per_account[0].name, "api");
    assert_eq!(per_account[1].name, "web");

    // The caller-side duplicate check: the key (name, account) is already
    // present, so the add flow rejects it instead of overwriting.
    assert!(state.find_for_account("api", "work").is_some());

    let removed = state.remove_for_account("api", "home").unwrap();
    assert_eq!(removed.account_name, "home");
    assert!(state.remove_for_account("api", "home").is_none());
    let removed = state.remove("api").unwrap();
    assert_eq!(removed.account_name, "work");
    assert_eq!(state.tunnels.len(), 1);
}

#[test]
fn find_mut_toggles_in_place() {
    let mut state = TunnelState::default();
    state.add(tunnel("api", "work"));
    if let Some(t) = state.find_for_account_mut("api", "work") {
        t.enabled = false;
    }
    assert!(!state.find("api").unwrap().enabled);
    if let Some(t) = state.find_mut("api") {
        t.auto_start = true;
    }
    assert!(state.find("api").unwrap().auto_start);
}

#[test]
fn empty_account_records_migrate_to_default_account() {
    let mut old = tunnel("legacy", "");
    old.account_name = String::new();
    let loaded = TunnelState { tunnels: vec![old, tunnel("api", "work")] };
    let (migrated, changed) = TunnelState::load_and_migrate(loaded, "work");
    assert!(changed);
    assert_eq!(migrated.tunnels[0].account_name, "work");
    assert_eq!(migrated.tunnels[1].account_name, "work");
    // A second pass changes nothing.
    let (again, changed_again) = TunnelState::load_and_migrate(migrated, "work");
    assert!(!changed_again);
    assert_eq!(again.tunnels[0].account_name, "work");
}

#[test]
fn metrics_port_is_deterministic_and_in_range() {
    let t = tunnel("api", "work");
    let p1 = t.get_metrics_port();
    let p2 = t.get_metrics_port();
    assert_eq!(p1, p2);
    assert!((21000..22000).contains(&p1));
    // One exact value: the name "a" hashes to (0 + 97) * 31 = 3007, and
    // 21000 + 3007 % 1000 = 21007.
    let ta = tunnel("a", "work");
    assert_eq!(ta.get_metrics_port(), 21007);
    // A fixed port wins over the derivation.
    let mut tf = tunnel("api", "work");
    tf.metrics_port = Some(21234);
    assert_eq!(tf.get_metrics_port(), 21234);
    assert_eq!(tf.metrics_url(), "http://localhost:21234/metrics");
}

#[test]
fn companion_paths_and_config_document() {
    let t = tunnel("api", "work");
    assert_eq!(t.credentials_path("/home/u/.config/ytunnel"), "/home/u/.config/ytunnel/tid-api.json");
    assert_eq!(
        t.config_path("/home/u/.config/ytunnel"),
        "/home/u/.config/ytunnel/tunnel-configs/api.yml"
    );
    assert_eq!(t.log_path("/home/u/.config/ytunnel"), "/home/u/.config/ytunnel/logs/api.log");
    assert_eq!(tunnels_path("/cfg"), "/cfg/tunnels.toml");
    assert_eq!(config_path("/cfg"), "/cfg/config.toml");

    let doc = generate_tunnel_config(&t, "/cfg");
    assert_eq!(
        doc,
        "tunnel: tid-api\ncredentials-file: /cfg/tid-api.json\ningress:\n  - hostname: api.example.com\n    service: http://localhost:3000\n  - service: http_status:404\n"
    );
    // A target that already names a scheme is kept as it is.
    let mut ts = tunnel("api", "work");
    ts.target = "https://localhost:8443".to_string();
    let doc = generate_tunnel_config(&ts, "/cfg");
    assert!(doc.contains("service: https://localhost:8443\n"));
}

#[test]
fn names_and_zones_resolve() {
    assert_eq!(tunnel_resource_name("api"), "ytunnel-api");
    assert_eq!(hostname_for("api", "example.com"), "api.example.com");
    assert_eq!(strip_tool_prefix("ytunnel-api"), "api");
    assert_eq!(strip_tool_prefix("api"), "api");
    assert_eq!(subdomain_of("api", "example.com"), "api");
    assert_eq!(subdomain_of("api.example.com", "example.com"), "api");
    assert_eq!(subdomain_of("api.other.net", "example.com"), "api.other.net");

    let acct = account("work");
    assert_eq!(
        resolve_zone(&acct, None),
        Some(("z1".to_string(), "example.com".to_string()))
    );
    assert_eq!(
        resolve_zone(&acct, Some("dev.example.com")),
        Some(("z2".to_string(), "dev.example.com".to_string()))
    );
    assert_eq!(resolve_zone(&acct, Some("absent.com")), None);

    assert_eq!(fallback_account("work", Some("sel")), "work");
    assert_eq!(fallback_account("", Some("sel")), "sel");
    assert_eq!(fallback_account("", None), "");
}
