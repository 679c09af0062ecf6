//! The daemon adapter's decision logic: account-namespaced service naming
//! with legacy fallback, service-descriptor generation, and the
//! interpretation of service-manager output. The service-manager calls
//! themselves live outside the library; they hand their observations in as
//! plain values.

use vstd::prelude::*;

use crate::state::PersistentTunnel;
use crate::status::TunnelStatus;
use crate::text::{
    all_digits, chars_of, dec_str, dec_val, parse_u64_range, range_eq, seq_contains, spec_lines,
    spec_split, split_char, split_lines, str_contains, str_eq, trim_bounds, trim_spec, u64_to_dec,
};

verus! {

// ------------------------------------------------------------------------
// launchd naming (macOS service manager)
// ------------------------------------------------------------------------
/// The launchd label for a tunnel: namespaced by account, or the legacy
/// un-namespaced form when the account is empty.
pub open spec fn spec_launchd_label(account: Seq<char>, tunnel: Seq<char>) -> Seq<char> {
    if account.len() == 0 {
        "com.ytunnel."@ + tunnel
    } else {
        "com.ytunnel."@ + account + "."@ + tunnel
    }
}

/// The launchd label for a tunnel under an account; an empty account name
/// yields the legacy label.
pub fn launchd_label(account_name: &str, tunnel_name: &str) -> (r: String)
    ensures
        r@ == spec_launchd_label(account_name@, tunnel_name@),
{
    let mut r = "com.ytunnel.".to_owned();
    if !account_name.is_empty() {
        r.append(account_name);
        r.append(".");
    }
    r.append(tunnel_name);
    r
}

/// The legacy un-namespaced launchd label, as written before accounts
/// existed.
pub fn legacy_launchd_label(tunnel_name: &str) -> (r: String)
    ensures
        r@ == "com.ytunnel."@ + tunnel_name@,
{
    let mut r = "com.ytunnel.".to_owned();
    r.append(tunnel_name);
    r
}

/// The descriptor path for the account-namespaced launchd label.
pub fn plist_path(agents_dir: &str, account_name: &str, tunnel_name: &str) -> (r: String)
    ensures
        r@ == agents_dir@ + "/"@ + spec_launchd_label(account_name@, tunnel_name@) + ".plist"@,
{
    let label = launchd_label(account_name, tunnel_name);
    let mut r = agents_dir.to_owned();
    r.append("/");
    r.append(label.as_str());
    r.append(".plist");
    r
}

/// The descriptor path for the legacy un-namespaced launchd label.
pub fn legacy_plist_path(agents_dir: &str, tunnel_name: &str) -> (r: String)
    ensures
        r@ == agents_dir@ + "/"@ + "com.ytunnel."@ + tunnel_name@ + ".plist"@,
{
    let label = legacy_launchd_label(tunnel_name);
    let mut r = agents_dir.to_owned();
    r.append("/");
    r.append(label.as_str());
    r.append(".plist");
    r
}

/// Picks the descriptor path a lookup must use: the account-namespaced path
/// when it exists on disk, else the legacy path when that exists, else none.
/// `new_exists` and `legacy_exists` report the two files' presence.
pub fn find_plist_path(
    agents_dir: &str,
    account_name: &str,
    tunnel_name: &str,
    new_exists: bool,
    legacy_exists: bool,
) -> (r: Option<String>)
    ensures
        match r {
            Some(p) => if new_exists {
                p@ == agents_dir@ + "/"@ + spec_launchd_label(account_name@, tunnel_name@)
                    + ".plist"@
            } else {
                legacy_exists && p@ == agents_dir@ + "/"@ + "com.ytunnel."@ + tunnel_name@
                    + ".plist"@
            },
            None => !new_exists && !legacy_exists,
        },
{
    if new_exists {
        Some(plist_path(agents_dir, account_name, tunnel_name))
    } else if legacy_exists {
        Some(legacy_plist_path(agents_dir, tunnel_name))
    } else {
        None
    }
}

/// Picks the launchd label a lookup must use: the account-namespaced label
/// when the service manager knows it, else the legacy label when it knows
/// that one, else the namespaced label for a fresh installation.
/// `new_loaded` and `legacy_loaded` report which labels the manager lists.
pub fn find_launchd_label(
    account_name: &str,
    tunnel_name: &str,
    new_loaded: bool,
    legacy_loaded: bool,
) -> (r: String)
    ensures
        new_loaded ==> r@ == spec_launchd_label(account_name@, tunnel_name@),
        !new_loaded && legacy_loaded ==> r@ == "com.ytunnel."@ + tunnel_name@,
        !new_loaded && !legacy_loaded ==> r@ == spec_launchd_label(account_name@, tunnel_name@),
{
    if new_loaded {
        launchd_label(account_name, tunnel_name)
    } else if legacy_loaded {
        legacy_launchd_label(tunnel_name)
    } else {
        launchd_label(account_name, tunnel_name)
    }
}

// ------------------------------------------------------------------------
// systemd naming (Linux service manager)
// ------------------------------------------------------------------------
/// The systemd unit name for a tunnel: namespaced by account, or the legacy
/// un-namespaced form when the account is empty.
pub open spec fn spec_service_name(account: Seq<char>, tunnel: Seq<char>) -> Seq<char> {
    if account.len() == 0 {
        "ytunnel-"@ + tunnel + ".service"@
    } else {
        "ytunnel-"@ + account + "-"@ + tunnel + ".service"@
    }
}

/// The systemd unit name for a tunnel under an account; an empty account
/// name yields the legacy name.
pub fn service_name(account_name: &str, tunnel_name: &str) -> (r: String)
    ensures
        r@ == spec_service_name(account_name@, tunnel_name@),
{
    let mut r = "ytunnel-".to_owned();
    if !account_name.is_empty() {
        r.append(account_name);
        r.append("-");
    }
    r.append(tunnel_name);
    r.append(".service");
    r
}

/// The unit-file path for a tunnel's systemd unit.
pub fn service_path(systemd_dir: &str, account_name: &str, tunnel_name: &str) -> (r: String)
    ensures
        r@ == systemd_dir@ + "/"@ + spec_service_name(account_name@, tunnel_name@),
{
    let name = service_name(account_name, tunnel_name);
    let mut r = systemd_dir.to_owned();
    r.append("/");
    r.append(name.as_str());
    r
}

// ------------------------------------------------------------------------
// Service descriptors
// ------------------------------------------------------------------------
/// The launchd property list for a tunnel: label, the tunnel-client command
/// with its config and metrics port, boot-autostart, restart-on-failure, and
/// log redirection.
pub open spec fn spec_plist(
    label: Seq<char>,
    cloudflared: Seq<char>,
    config_path: Seq<char>,
    metrics_port: int,
    run_at_load: bool,
    log_path: Seq<char>,
) -> Seq<char> {
    "<?xml version=\"1.0\" encoding=\"UTF-8\"?>\n<!DOCTYPE plist PUBLIC \"-//Apple//DTD PLIST 1.0//EN\" \"http://www.apple.com/DTDs/PropertyList-1.0.dtd\">\n<plist version=\"1.0\">\n<dict>\n    <key>Label</key>\n    <string>"@
        + label
        + "</string>\n    <key>ProgramArguments</key>\n    <array>\n        <string>"@
        + cloudflared
        + "</string>\n        <string>tunnel</string>\n        <string>--config</string>\n        <string>"@
        + config_path + "</string>\n        <string>--metrics</string>\n        <string>localhost:"@
        + dec_str(metrics_port) + "</string>\n        <string>run</string>\n    </array>\n    <key>RunAtLoad</key>\n    <"@
        + (if run_at_load {
        "true"@
    } else {
        "false"@
    }) + "/>\n    <key>KeepAlive</key>\n    <dict>\n        <key>SuccessfulExit</key>\n        <false/>\n    </dict>\n    <key>StandardOutPath</key>\n    <string>"@
        + log_path + "</string>\n    <key>StandardErrorPath</key>\n    <string>"@ + log_path
        + "</string>\n    <key>ProcessType</key>\n    <string>Background</string>\n</dict>\n</plist>\n"@
}

/// Generates the launchd property list for a tunnel, rooted at the given
/// configuration directory, running the tunnel client at `cloudflared_path`.
pub fn generate_plist(tunnel: &PersistentTunnel, config_dir: &str, cloudflared_path: &str) -> (r:
    String)
    ensures
        r@ == spec_plist(
            spec_launchd_label(tunnel.account_name@, tunnel.name@),
            cloudflared_path@,
            config_dir@ + "/tunnel-configs/"@ + tunnel.name@ + ".yml"@,
            match tunnel.metrics_port {
                Some(p) => p as int,
                None => crate::state::spec_derived_port(vstd::utf8::encode_utf8(tunnel.name@)),
            },
            tunnel.auto_start,
            config_dir@ + "/logs/"@ + tunnel.name@ + ".log"@,
        ),
{
    let label = launchd_label(tunnel.account_name.as_str(), tunnel.name.as_str());
    let config_path = tunnel.config_path(config_dir);
    let log_path = tunnel.log_path(config_dir);
    let port_digits = u64_to_dec(tunnel.get_metrics_port() as u64);
    let mut r = String::new();
    r.append(
        "<?xml version=\"1.0\" encoding=\"UTF-8\"?>\n<!DOCTYPE plist PUBLIC \"-//Apple//DTD PLIST 1.0//EN\" \"http://www.apple.com/DTDs/PropertyList-1.0.dtd\">\n<plist version=\"1.0\">\n<dict>\n    <key>Label</key>\n    <string>",
    );
    r.append(label.as_str());
    r.append("</string>\n    <key>ProgramArguments</key>\n    <array>\n        <string>");
    r.append(cloudflared_path);
    r.append(
        "</string>\n        <string>tunnel</string>\n        <string>--config</string>\n        <string>",
    );
    r.append(config_path.as_str());
    r.append("</string>\n        <string>--metrics</string>\n        <string>localhost:");
    r.append(port_digits.as_str());
    r.append(
        "</string>\n        <string>run</string>\n    </array>\n    <key>RunAtLoad</key>\n    <",
    );
    if tunnel.auto_start {
        r.append("true");
    } else {
        r.append("false");
    }
    r.append(
        "/>\n    <key>KeepAlive</key>\n    <dict>\n        <key>SuccessfulExit</key>\n        <false/>\n    </dict>\n    <key>StandardOutPath</key>\n    <string>",
    );
    r.append(log_path.as_str());
    r.append("</string>\n    <key>StandardErrorPath</key>\n    <string>");
    r.append(log_path.as_str());
    r.append(
        "</string>\n    <key>ProcessType</key>\n    <string>Background</string>\n</dict>\n</plist>\n",
    );
    proof {
        assert(r@ =~= spec_plist(
            spec_launchd_label(tunnel.account_name@, tunnel.name@),
            cloudflared_path@,
            config_dir@ + "/tunnel-configs/"@ + tunnel.name@ + ".yml"@,
            match tunnel.metrics_port {
                Some(p) => p as int,
                None => crate::state::spec_derived_port(vstd::utf8::encode_utf8(tunnel.name@)),
            },
            tunnel.auto_start,
            config_dir@ + "/logs/"@ + tunnel.name@ + ".log"@,
        ));
    }
    r
}

/// The systemd unit file for a tunnel: description, the tunnel-client command
/// with its config and metrics port, restart-on-failure, and log redirection.
pub open spec fn spec_service_unit(
    tunnel_name: Seq<char>,
    cloudflared: Seq<char>,
    config_path: Seq<char>,
    metrics_port: int,
    log_path: Seq<char>,
) -> Seq<char> {
    "[Unit]\nDescription=Cloudflare Tunnel - "@ + tunnel_name
        + "\nAfter=network-online.target\nWants=network-online.target\n\n[Service]\nType=simple\nExecStart="@
        + cloudflared + " tunnel --config "@ + config_path + " --metrics localhost:"@ + dec_str(
        metrics_port,
    ) + " run\nRestart=on-failure\nRestartSec=5\nStandardOutput=append:"@ + log_path
        + "\nStandardError=append:"@ + log_path + "\n\n[Install]\nWantedBy=default.target\n"@
}

/// Generates the systemd unit file for a tunnel, rooted at the given
/// configuration directory, running the tunnel client at `cloudflared_path`.
pub fn generate_service(tunnel: &PersistentTunnel, config_dir: &str, cloudflared_path: &str) -> (r:
    String)
    ensures
        r@ == spec_service_unit(
            tunnel.name@,
            cloudflared_path@,
            config_dir@ + "/tunnel-configs/"@ + tunnel.name@ + ".yml"@,
            match tunnel.metrics_port {
                Some(p) => p as int,
                None => crate::state::spec_derived_port(vstd::utf8::encode_utf8(tunnel.name@)),
            },
            config_dir@ + "/logs/"@ + tunnel.name@ + ".log"@,
        ),
{
    let config_path = tunnel.config_path(config_dir);
    let log_path = tunnel.log_path(config_dir);
    let port_digits = u64_to_dec(tunnel.get_metrics_port() as u64);
    let mut r = String::new();
    r.append("[Unit]\nDescription=Cloudflare Tunnel - ");
    r.append(tunnel.name.as_str());
    r.append(
        "\nAfter=network-online.target\nWants=network-online.target\n\n[Service]\nType=simple\nExecStart=",
    );
    r.append(cloudflared_path);
    r.append(" tunnel --config ");
    r.append(config_path.as_str());
    r.append(" --metrics localhost:");
    r.append(port_digits.as_str());
    r.append(" run\nRestart=on-failure\nRestartSec=5\nStandardOutput=append:");
    r.append(log_path.as_str());
    r.append("\nStandardError=append:");
    r.append(log_path.as_str());
    r.append("\n\n[Install]\nWantedBy=default.target\n");
    proof {
        assert(r@ =~= spec_service_unit(
            tunnel.name@,
            cloudflared_path@,
            config_dir@ + "/tunnel-configs/"@ + tunnel.name@ + ".yml"@,
            match tunnel.metrics_port {
                Some(p) => p as int,
                None => crate::state::spec_derived_port(vstd::utf8::encode_utf8(tunnel.name@)),
            },
            config_dir@ + "/logs/"@ + tunnel.name@ + ".log"@,
        ));
    }
    r
}

// ------------------------------------------------------------------------
// Interpreting service-manager output
// ------------------------------------------------------------------------
/// Reads the liveness facts out of a launchd record: whether it names a
/// process id, whether it reports a clean last exit, and whether it reports
/// any last exit at all.
pub fn parse_launchd_record(record: &str) -> (r: (bool, bool, bool))
    ensures
        r.0 == seq_contains(record@, "\"PID\""@),
        r.1 == seq_contains(record@, "\"LastExitStatus\" = 0"@),
        r.2 == seq_contains(record@, "\"LastExitStatus\""@),
{
    let has_pid = str_contains(record, "\"PID\"");
    let exit_zero = str_contains(record, "\"LastExitStatus\" = 0");
    let has_exit = str_contains(record, "\"LastExitStatus\"");
    (has_pid, exit_zero, has_exit)
}

/// Classifies a launchd record: `Some` when the record alone decides, `None`
/// when it is ambiguous — the record names a process but reports a non-zero
/// exit, and only a direct liveness probe can resolve it
/// ([`resolve_ambiguous_record`]).
pub fn classify_launchd_record(
    listed: bool,
    has_pid: bool,
    last_exit_zero: bool,
    has_last_exit: bool,
) -> (r: Option<TunnelStatus>)
    ensures
        !listed ==> r == Some(TunnelStatus::Stopped),
        listed && !has_pid ==> r == Some(TunnelStatus::Stopped),
        listed && has_pid && (last_exit_zero || !has_last_exit) ==> r == Some(
            TunnelStatus::Running,
        ),
        listed && has_pid && !last_exit_zero && has_last_exit ==> r is None,
{
    if !listed {
        Some(TunnelStatus::Stopped)
    } else if !has_pid {
        Some(TunnelStatus::Stopped)
    } else if last_exit_zero || !has_last_exit {
        Some(TunnelStatus::Running)
    } else {
        None
    }
}

/// Resolves an ambiguous launchd record by the outcome of a direct liveness
/// probe: the tunnel is running if the probe saw it, else it is in error.
pub fn resolve_ambiguous_record(probe_running: bool) -> (r: TunnelStatus)
    ensures
        r == if probe_running {
            TunnelStatus::Running
        } else {
            TunnelStatus::Error
        },
{
    if probe_running {
        TunnelStatus::Running
    } else {
        TunnelStatus::Error
    }
}

/// One line of `launchctl list` output shows the tunnel running: at least
/// three tab-separated fields, the third being one of the two labels and the
/// first a process id (a run of decimal digits).
pub open spec fn launchd_line_running(
    line: Seq<char>,
    new_label: Seq<char>,
    legacy_label: Seq<char>,
) -> bool {
    let parts = spec_split(line, '\t');
    &&& parts.len() >= 3
    &&& (parts[2] == new_label || parts[2] == legacy_label)
    &&& parts[0].len() > 0
    &&& all_digits(parts[0])
    &&& dec_val(parts[0]) <= u32::MAX
}

/// Whether the service manager's listing shows the tunnel running under
/// either its account-namespaced or its legacy label.
pub fn launchd_list_running(listing: &str, new_label: &str, legacy_label: &str) -> (r: bool)
    ensures
        r == exists|i: int|
            0 <= i < spec_lines(listing@).len() && launchd_line_running(
                #[trigger] spec_lines(listing@)[i],
                new_label@,
                legacy_label@,
            ),
{
    let lines = split_lines(listing);
    let mut i: usize = 0;
    while i < lines.len()
        invariant
            i <= lines@.len(),
            lines.deep_view() == spec_lines(listing@),
            forall|j: int|
                0 <= j < i ==> !launchd_line_running(
                    #[trigger] spec_lines(listing@)[j],
                    new_label@,
                    legacy_label@,
                ),
        decreases lines@.len() - i,
    {
        proof {
            assert(lines@[i as int]@ == spec_lines(listing@)[i as int]);
        }
        let parts = split_char(lines[i].as_str(), '\t');
        if parts.len() >= 3 {
            proof {
                assert(parts@[2]@ == spec_split(lines@[i as int]@, '\t')[2]);
                assert(parts@[0]@ == spec_split(lines@[i as int]@, '\t')[0]);
            }
            if str_eq(parts[2].as_str(), new_label) || str_eq(parts[2].as_str(), legacy_label) {
                let pid = chars_of(parts[0].as_str());
                proof {
                    assert(pid@.subrange(0, pid@.len() as int) =~= pid@);
                }
                match parse_u64_range(&pid, 0, pid.len()) {
                    Some(n) => if n <= 0xffff_ffff {
                        return true;
                    },
                    None => {},
                }
            }
        }
        i += 1;
    }
    false
}

/// Classifies the trimmed output of a systemd `is-active` query.
pub fn classify_systemd_output(output: &str) -> (r: TunnelStatus)
    ensures
        r == if trim_spec(output@) == "active"@ {
            TunnelStatus::Running
        } else if trim_spec(output@) == "failed"@ {
            TunnelStatus::Error
        } else {
            TunnelStatus::Stopped
        },
{
    let v = chars_of(output);
    let (a, b) = trim_bounds(&v, 0, v.len());
    proof {
        assert(v@.subrange(0, v@.len() as int) =~= v@);
    }
    if range_eq(&v, a, b, "active") {
        TunnelStatus::Running
    } else if range_eq(&v, a, b, "failed") {
        TunnelStatus::Error
    } else {
        TunnelStatus::Stopped
    }
}

// ------------------------------------------------------------------------
// Benign-failure decisions for start and stop
// ------------------------------------------------------------------------
/// Whether a launchd `load` outcome is fatal: a failure whose message is
/// neither empty nor the benign already-loaded response.
pub fn launchd_start_fatal(success: bool, stderr: &str) -> (r: bool)
    ensures
        r == (!success && !seq_contains(stderr@, "already loaded"@) && stderr@.len() > 0),
{
    !success && !str_contains(stderr, "already loaded") && !stderr.is_empty()
}

/// Whether a launchd `unload` outcome is fatal: a failure whose message is
/// neither empty nor one of the benign not-found or not-loaded responses.
pub fn launchd_stop_fatal(success: bool, stderr: &str) -> (r: bool)
    ensures
        r == (!success && !seq_contains(stderr@, "not find"@) && !seq_contains(
            stderr@,
            "not loaded"@,
        ) && stderr@.len() > 0),
{
    !success && !str_contains(stderr, "not find") && !str_contains(stderr, "not loaded")
        && !stderr.is_empty()
}

/// Whether a systemd `stop` outcome is fatal: a failure whose message is
/// neither empty nor the benign not-loaded response.
pub fn systemd_stop_fatal(success: bool, stderr: &str) -> (r: bool)
    ensures
        r == (!success && !seq_contains(stderr@, "not loaded"@) && stderr@.len() > 0),
{
    !success && !str_contains(stderr, "not loaded") && !stderr.is_empty()
}

// ------------------------------------------------------------------------
// Log tail
// ------------------------------------------------------------------------
/// The last `n` lines of a log, oldest first; all of them when there are no
/// more than `n`.
pub fn tail_lines(lines: &Vec<String>, n: usize) -> (r: Vec<String>)
    ensures
        r@ == lines@.skip(
            if lines@.len() > n {
                lines@.len() - n
            } else {
                0
            },
        ),
{
    let start = if lines.len() > n {
        lines.len() - n
    } else {
        0
    };
    let mut r: Vec<String> = Vec::new();
    let mut i: usize = start;
    while i < lines.len()
        invariant
            start <= i <= lines@.len(),
            r@ == lines@.subrange(start as int, i as int),
        decreases lines@.len() - i,
    {
        r.push(lines[i].clone());
        i += 1;
        proof {
            assert(r@ =~= lines@.subrange(start as int, i as int));
        }
    }
    proof {
        assert(lines@.subrange(start as int, lines@.len() as int) =~= lines@.skip(start as int));
    }
    r
}

/// Whether a tunnel-client log line is worth showing in the foreground run:
/// level markers, connection events and tunnel lifecycle lines pass, noisy
/// debug output does not.
pub fn should_display_log(line: &str) -> (r: bool)
    ensures
        r == (seq_contains(line@, "INF"@) || seq_contains(line@, "ERR"@) || seq_contains(
            line@,
            "WRN"@,
        ) || seq_contains(line@, "connection"@) || seq_contains(line@, "registered"@)
            || seq_contains(line@, "Tunnel"@)),
{
    str_contains(line, "INF") || str_contains(line, "ERR") || str_contains(line, "WRN")
        || str_contains(line, "connection") || str_contains(line, "registered") || str_contains(
        line,
        "Tunnel",
    )
}

} // verus!
