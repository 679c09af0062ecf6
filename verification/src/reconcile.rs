//! The reconciler: merges the desired-state ledger, the daemon-observed
//! statuses, and the tunnels discovered on the control plane into one
//! per-account view, carrying cached history and health across the rebuild
//! and classifying remotely discovered orphans as ephemeral.

use vstd::prelude::*;

use crate::cloudflare::Tunnel;
use crate::config::ZoneConfig;
use crate::health::HealthStatus;
use crate::history::{recorded_samples, MetricsHistory};
use crate::metrics::TunnelMetrics;
use crate::state::PersistentTunnel;
use crate::status::TunnelStatus;
use crate::text::{
    chars_of, drop_leading_char, drop_leading_ws, drop_trailing_ws, first_where,
    lemma_first_where_is, lemma_first_where_none, match_at, seq_contains, seq_ends_with,
    seq_starts_with, spec_lines, split_lines, str_contains, str_ends_with, str_eq,
    str_starts_with, trim_bounds, trim_spec,
};

verus! {

/// Whether a tunnel is tracked in the ledger or merely discovered remotely.
#[derive(Debug, Clone, Copy, PartialEq, Eq, Structural)]
pub enum TunnelKind {
    /// Present in the desired-state ledger.
    Managed,
    /// Discovered on the control plane, absent locally.
    Ephemeral,
}

/// One row of the reconciled view: a tunnel with everything observed about
/// it. Rebuilt from scratch on every reconciliation pass.
#[derive(Debug)]
pub struct TunnelEntry {
    pub tunnel: PersistentTunnel,
    pub status: TunnelStatus,
    pub kind: TunnelKind,
    pub metrics: Option<TunnelMetrics>,
    pub metrics_history: MetricsHistory,
    pub health: HealthStatus,
}

/// `pe` is the entry for the tunnel named `name`.
pub open spec fn entry_named(name: Seq<char>) -> spec_fn(TunnelEntry) -> bool {
    |pe: TunnelEntry| pe.tunnel.name@ == name
}

/// What carries over from the previous pass for a tunnel name: the cached
/// sample history and last health, from the first previous entry of that
/// name, or fresh values.
pub open spec fn carried(previous: Seq<TunnelEntry>, name: Seq<char>) -> (Seq<u64>, u64, HealthStatus) {
    match first_where(previous, entry_named(name)) {
        Some(pi) => (
            previous[pi].metrics_history.request_samples@,
            previous[pi].metrics_history.last_total,
            previous[pi].health,
        ),
        None => (Seq::empty(), 0u64, HealthStatus::Unknown),
    }
}

/// How a rebuilt managed entry must look: the ledger record itself, the
/// observed status, the fetched metrics, the previous pass's history (fed the
/// new total when a snapshot arrived) and its last health.
pub open spec fn managed_entry_ok(
    e: TunnelEntry,
    t: PersistentTunnel,
    status: TunnelStatus,
    m: Option<TunnelMetrics>,
    previous: Seq<TunnelEntry>,
) -> bool {
    let (base_samples, base_total, base_health) = carried(previous, t.name@);
    &&& e.tunnel == t
    &&& e.status == status
    &&& e.kind is Managed
    &&& e.metrics == m
    &&& e.health == base_health
    &&& match m {
        Some(tm) => e.metrics_history.request_samples@ == recorded_samples(
            base_samples,
            base_total,
            tm.total_requests,
        ) && e.metrics_history.last_total == tm.total_requests,
        None => e.metrics_history.request_samples@ == base_samples
            && e.metrics_history.last_total == base_total,
    }
}

/// The previous pass's entry for a tunnel name, if one exists.
fn find_previous<'a>(previous: &'a Vec<TunnelEntry>, name: &str) -> (r: Option<&'a TunnelEntry>)
    ensures
        match r {
            Some(pe) => {
                let idx = first_where(previous@, entry_named(name@));
                idx is Some && *pe == previous@[idx->0]
            },
            None => first_where(previous@, entry_named(name@)) is None,
        },
{
    let mut i: usize = 0;
    while i < previous.len()
        invariant
            i <= previous@.len(),
            forall|j: int| 0 <= j < i ==> !entry_named(name@)(#[trigger] previous@[j]),
        decreases previous@.len() - i,
    {
        if str_eq(previous[i].tunnel.name.as_str(), name) {
            proof {
                assert(entry_named(name@)(previous@[i as int]));
                lemma_first_where_is(previous@, entry_named(name@), i as int);
            }
            return Some(&previous[i]);
        }
        proof {
            assert(!entry_named(name@)(previous@[i as int]));
        }
        i += 1;
    }
    proof {
        lemma_first_where_none(previous@, entry_named(name@));
    }
    None
}

/// Rebuilds the managed entries for one pass: the account's ledger records in
/// order, each with its observed status and metrics snapshot, carrying the
/// previous pass's history and health over by tunnel name. `statuses[i]` and
/// `metrics[i]` are what the daemon and the metrics endpoint reported for
/// `tunnels[i]`; a tunnel that is not running has no snapshot.
pub fn build_managed_entries(
    tunnels: Vec<PersistentTunnel>,
    statuses: &Vec<TunnelStatus>,
    metrics: Vec<Option<TunnelMetrics>>,
    previous: &Vec<TunnelEntry>,
) -> (r: Vec<TunnelEntry>)
    requires
        statuses@.len() == tunnels@.len(),
        metrics@.len() == tunnels@.len(),
    ensures
        r@.len() == tunnels@.len(),
        forall|i: int|
            0 <= i < r@.len() ==> managed_entry_ok(
                #[trigger] r@[i],
                tunnels@[i],
                statuses@[i],
                metrics@[i],
                previous@,
            ),
{
    let ghost all_t = tunnels@;
    let ghost all_m = metrics@;
    let mut tunnels = tunnels;
    let mut metrics = metrics;
    let mut r: Vec<TunnelEntry> = Vec::new();
    let mut i: usize = 0;
    proof {
        assert(tunnels@ =~= all_t.skip(0));
        assert(metrics@ =~= all_m.skip(0));
    }
    while tunnels.len() > 0
        invariant
            i + tunnels@.len() == all_t.len(),
            tunnels@ == all_t.skip(i as int),
            metrics@ == all_m.skip(i as int),
            statuses@.len() == all_t.len(),
            all_m.len() == all_t.len(),
            r@.len() == i,
            forall|j: int|
                0 <= j < i ==> managed_entry_ok(
                    #[trigger] r@[j],
                    all_t[j],
                    statuses@[j],
                    all_m[j],
                    previous@,
                ),
        decreases tunnels@.len(),
    {
        let t = tunnels.remove(0);
        let m = metrics.remove(0);
        proof {
            assert(t == all_t[i as int]);
            assert(m == all_m[i as int]);
            assert(tunnels@ =~= all_t.skip(i + 1));
            assert(metrics@ =~= all_m.skip(i + 1));
        }
        let status = statuses[i];
        let (mut history, health) = match find_previous(previous, t.name.as_str()) {
            Some(pe) => (pe.metrics_history.clone(), pe.health),
            None => (MetricsHistory::default(), HealthStatus::Unknown),
        };
        match &m {
            Some(tm) => history.record(tm.total_requests),
            None => {},
        }
        let entry = TunnelEntry {
            tunnel: t,
            status,
            kind: TunnelKind::Managed,
            metrics: m,
            metrics_history: history,
            health,
        };
        r.push(entry);
        proof {
            assert(i < statuses@.len());
            assert(statuses.len() == statuses@.len());
        }
        i += 1;
    }
    r
}

/// The short name of a remote tunnel resource: its name without the tool's
/// prefix.
pub open spec fn short_name(name: Seq<char>) -> Seq<char> {
    name.skip("ytunnel-"@.len() as int)
}

/// A remote tunnel resource is an orphan worth showing: live (not
/// soft-deleted), bearing the tool's prefix, and its short name absent from
/// managed state.
pub open spec fn is_orphan(rt: Tunnel, managed: Seq<Seq<char>>) -> bool {
    &&& rt.deleted_at is None
    &&& seq_starts_with(rt.name@, "ytunnel-"@)
    &&& !managed.contains(short_name(rt.name@))
}

/// The indices of the orphans in a remote listing, in order.
pub open spec fn orphan_idxs(remote: Seq<Tunnel>, managed: Seq<Seq<char>>) -> Seq<int>
    decreases remote.len(),
{
    if remote.len() == 0 {
        Seq::empty()
    } else {
        let r = orphan_idxs(remote.drop_last(), managed);
        if is_orphan(remote.last(), managed) {
            r.push(remote.len() - 1)
        } else {
            r
        }
    }
}

/// The orphan indices name qualifying positions only, in strictly increasing
/// order, and name every qualifying position.
pub proof fn lemma_orphan_idxs_spec(remote: Seq<Tunnel>, managed: Seq<Seq<char>>)
    ensures
        forall|k: int|
            0 <= k < orphan_idxs(remote, managed).len() ==> 0 <= #[trigger] orphan_idxs(
                remote,
                managed,
            )[k] < remote.len() && is_orphan(remote[orphan_idxs(remote, managed)[k]], managed),
        forall|k1: int, k2: int|
            0 <= k1 < k2 < orphan_idxs(remote, managed).len() ==> #[trigger] orphan_idxs(
                remote,
                managed,
            )[k1] < #[trigger] orphan_idxs(remote, managed)[k2],
        forall|i: int|
            0 <= i < remote.len() && is_orphan(#[trigger] remote[i], managed) ==> orphan_idxs(
                remote,
                managed,
            ).contains(i),
    decreases remote.len(),
{
    if remote.len() > 0 {
        lemma_orphan_idxs_spec(remote.drop_last(), managed);
        let prev = orphan_idxs(remote.drop_last(), managed);
        let cur = orphan_idxs(remote, managed);
        assert forall|i: int|
            0 <= i < remote.len() && is_orphan(#[trigger] remote[i], managed) implies cur.contains(
            i,
        ) by {
            if i == remote.len() - 1 {
                assert(cur[cur.len() - 1] == i);
            } else {
                assert(remote.drop_last()[i] == remote[i]);
                assert(prev.contains(i));
                let k = choose|k: int| 0 <= k < prev.len() && prev[k] == i;
                assert(cur[k] == i);
            }
        }
    }
}

/// A live remote tunnel-resource bearing the tool's prefix, not in managed
/// state, appears exactly once among the orphan indices of a reconciliation
/// pass; once its short name enters managed state it no longer appears, so
/// importing it moves it from the ephemeral set to the managed set on the
/// next pass.
pub proof fn lemma_ephemeral_exactly_once(remote: Seq<Tunnel>, managed: Seq<Seq<char>>, i: int)
    requires
        0 <= i < remote.len(),
    ensures
        is_orphan(remote[i], managed) ==> exists|k: int|
            0 <= k < orphan_idxs(remote, managed).len() && orphan_idxs(remote, managed)[k] == i,
        forall|k1: int, k2: int|
            (0 <= k1 < orphan_idxs(remote, managed).len() && 0 <= k2 < orphan_idxs(
                remote,
                managed,
            ).len() && orphan_idxs(remote, managed)[k1] == i && orphan_idxs(remote, managed)[k2]
                == i) ==> k1 == k2,
        !is_orphan(remote[i], managed) ==> forall|k: int|
            0 <= k < orphan_idxs(remote, managed).len() ==> #[trigger] orphan_idxs(
                remote,
                managed,
            )[k] != i,
{
    lemma_orphan_idxs_spec(remote, managed);
    let idxs = orphan_idxs(remote, managed);
    if is_orphan(remote[i], managed) {
        assert(idxs.contains(i));
    }
}

/// What the companion artifacts on disk say about one remote tunnel: the
/// hostname and target recovered from its transient ingress-config artifact,
/// and whether that artifact exists at all, the documented heuristic for
/// whether the tunnel is running.
#[derive(Debug)]
pub struct EphemeralObservation {
    /// Hostname and target parsed from the artifact, when both were found.
    pub config: Option<(String, String)>,
    /// Whether the artifact file exists on disk.
    pub config_exists: bool,
}

/// The zone a hostname falls in: the first of the account's zones whose name
/// the hostname ends with, when the hostname has a dot at all.
pub open spec fn zone_pick(zones: Seq<ZoneConfig>, hostname: Seq<char>) -> Option<int> {
    if seq_contains(hostname, "."@) {
        first_where(zones, |z: ZoneConfig| seq_ends_with(hostname, z.name@))
    } else {
        None
    }
}

/// Infers a hostname's zone from the account's zone list: its id and name, or
/// empty strings when no zone matches.
fn infer_zone(zones: &Vec<ZoneConfig>, hostname: &str) -> (r: (String, String))
    ensures
        match zone_pick(zones@, hostname@) {
            Some(zi) => r.0 == zones@[zi].id && r.1 == zones@[zi].name,
            None => r.0@.len() == 0 && r.1@.len() == 0,
        },
{
    let ghost pred = |z: ZoneConfig| seq_ends_with(hostname@, z.name@);
    if str_contains(hostname, ".") {
        let mut i: usize = 0;
        while i < zones.len()
            invariant
                i <= zones@.len(),
                seq_contains(hostname@, "."@),
                pred == (|z: ZoneConfig| seq_ends_with(hostname@, z.name@)),
                forall|j: int| 0 <= j < i ==> !pred(#[trigger] zones@[j]),
            decreases zones@.len() - i,
        {
            if str_ends_with(hostname, zones[i].name.as_str()) {
                proof {
                    assert(pred(zones@[i as int]));
                    lemma_first_where_is(zones@, pred, i as int);
                }
                return (zones[i].id.clone(), zones[i].name.clone());
            }
            proof {
                assert(!pred(zones@[i as int]));
            }
            i += 1;
        }
        proof {
            lemma_first_where_none(zones@, pred);
        }
        (String::new(), String::new())
    } else {
        (String::new(), String::new())
    }
}

/// Whether one of the managed tunnels carries this short name.
fn names_contain(names: &Vec<String>, s: &str) -> (r: bool)
    ensures
        r == names.deep_view().contains(s@),
{
    let mut i: usize = 0;
    while i < names.len()
        invariant
            i <= names@.len(),
            forall|j: int| 0 <= j < i ==> names.deep_view()[j] != s@,
        decreases names@.len() - i,
    {
        proof {
            assert(names.deep_view()[i as int] == names@[i as int]@);
        }
        if str_eq(names[i].as_str(), s) {
            proof {
                assert(names.deep_view()[i as int] == s@);
            }
            return true;
        }
        i += 1;
    }
    proof {
        if names.deep_view().contains(s@) {
            let j = choose|j: int| 0 <= j < names.deep_view().len() && names.deep_view()[j] == s@;
        }
    }
    false
}

/// How a rebuilt ephemeral entry must look for the orphan `rt` with artifact
/// observation `ob`: its short name under the current account, the hostname
/// and target recovered from the artifact (or the short name and `unknown`),
/// the zone inferred from the hostname, running exactly when the artifact
/// exists, and nothing cached.
pub open spec fn ephemeral_entry_ok(
    e: TunnelEntry,
    rt: Tunnel,
    ob: EphemeralObservation,
    zones: Seq<ZoneConfig>,
    account: Seq<char>,
) -> bool {
    &&& e.kind is Ephemeral
    &&& e.status == if ob.config_exists {
        TunnelStatus::Running
    } else {
        TunnelStatus::Stopped
    }
    &&& e.health is Unknown
    &&& e.metrics is None
    &&& e.metrics_history.request_samples@ == Seq::<u64>::empty()
    &&& e.metrics_history.last_total == 0
    &&& e.tunnel.name@ == short_name(rt.name@)
    &&& e.tunnel.account_name@ == account
    &&& e.tunnel.tunnel_id == rt.id
    &&& !e.tunnel.enabled
    &&& !e.tunnel.auto_start
    &&& e.tunnel.metrics_port is None
    &&& match ob.config {
        Some((h, t)) => e.tunnel.hostname@ == h@ && e.tunnel.target@ == t@,
        None => e.tunnel.hostname@ == short_name(rt.name@) && e.tunnel.target@ == "unknown"@,
    }
    &&& match zone_pick(zones, e.tunnel.hostname@) {
        Some(zi) => e.tunnel.zone_id == zones[zi].id && e.tunnel.zone_name == zones[zi].name,
        None => e.tunnel.zone_id@.len() == 0 && e.tunnel.zone_name@.len() == 0,
    }
}

/// Rebuilds the ephemeral entries for one pass: every live remote tunnel
/// bearing the tool's prefix whose short name is not managed, classified from
/// its on-disk artifacts. `obs[i]` is what the artifacts said for
/// `remote[i]`.
pub fn ephemeral_entries(
    remote: &Vec<Tunnel>,
    obs: Vec<EphemeralObservation>,
    managed_names: &Vec<String>,
    zones: &Vec<ZoneConfig>,
    account_name: &str,
) -> (r: Vec<TunnelEntry>)
    requires
        obs@.len() == remote@.len(),
    ensures
        r@.len() == orphan_idxs(remote@, managed_names.deep_view()).len(),
        forall|k: int|
            0 <= k < r@.len() ==> ephemeral_entry_ok(
                #[trigger] r@[k],
                remote@[orphan_idxs(remote@, managed_names.deep_view())[k]],
                obs@[orphan_idxs(remote@, managed_names.deep_view())[k]],
                zones@,
                account_name@,
            ),
{
    let ghost managed = managed_names.deep_view();
    let ghost all_obs = obs@;
    let mut obs = obs;
    let mut r: Vec<TunnelEntry> = Vec::new();
    let mut i: usize = 0;
    proof {
        assert(obs@ =~= all_obs.skip(0));
    }
    while i < remote.len()
        invariant
            i <= remote@.len(),
            all_obs.len() == remote@.len(),
            obs@ == all_obs.skip(i as int),
            managed == managed_names.deep_view(),
            r@.len() == orphan_idxs(remote@.take(i as int), managed).len(),
            forall|k: int|
                0 <= k < r@.len() ==> ephemeral_entry_ok(
                    #[trigger] r@[k],
                    remote@.take(i as int)[orphan_idxs(remote@.take(i as int), managed)[k]],
                    all_obs[orphan_idxs(remote@.take(i as int), managed)[k]],
                    zones@,
                    account_name@,
                ),
        decreases remote@.len() - i,
    {
        let ghost pre = remote@.take(i as int);
        proof {
            assert(remote@.take(i + 1).drop_last() =~= pre);
            assert(remote@.take(i + 1).last() == remote@[i as int]);
            lemma_orphan_idxs_spec(pre, managed);
        }
        let ob = obs.remove(0);
        proof {
            assert(ob == all_obs[i as int]);
            assert(obs@ =~= all_obs.skip(i + 1));
        }
        let rt = &remote[i];
        let live = match &rt.deleted_at {
            Some(_) => false,
            None => true,
        };
        if live && str_starts_with(rt.name.as_str(), "ytunnel-") {
            let name_chars = chars_of(rt.name.as_str());
            let prefix_chars = chars_of("ytunnel-");
            let short = rt.name.as_str().substring_char(prefix_chars.len(), name_chars.len());
            proof {
                assert(short@ =~= short_name(rt.name@));
            }
            if !names_contain(managed_names, short) {
                proof {
                    assert(is_orphan(remote@[i as int], managed));
                }
                let short_string = short.to_owned();
                let (hostname, target) = match ob.config {
                    Some((h, t)) => (h, t),
                    None => (short_string.clone(), "unknown".to_owned()),
                };
                let (zone_id, zone_name) = infer_zone(zones, hostname.as_str());
                let entry = TunnelEntry {
                    tunnel: PersistentTunnel {
                        name: short_string,
                        account_name: account_name.to_owned(),
                        target,
                        zone_id,
                        zone_name,
                        hostname,
                        tunnel_id: rt.id.clone(),
                        enabled: false,
                        auto_start: false,
                        metrics_port: None,
                    },
                    status: if ob.config_exists {
                        TunnelStatus::Running
                    } else {
                        TunnelStatus::Stopped
                    },
                    kind: TunnelKind::Ephemeral,
                    metrics: None,
                    metrics_history: MetricsHistory::default(),
                    health: HealthStatus::Unknown,
                };
                r.push(entry);
                proof {
                    let cur = orphan_idxs(remote@.take(i + 1), managed);
                    assert(cur =~= orphan_idxs(pre, managed).push(i as int));
                    assert(ephemeral_entry_ok(
                        r@[r@.len() - 1],
                        remote@[i as int],
                        all_obs[i as int],
                        zones@,
                        account_name@,
                    ));
                    assert forall|k: int| 0 <= k < r@.len() implies ephemeral_entry_ok(
                        #[trigger] r@[k],
                        remote@.take(i + 1)[cur[k]],
                        all_obs[cur[k]],
                        zones@,
                        account_name@,
                    ) by {
                        if k < r@.len() - 1 {
                            assert(cur[k] == orphan_idxs(pre, managed)[k]);
                            assert(remote@.take(i + 1)[cur[k]] == pre[cur[k]]);
                        } else {
                            assert(remote@.take(i + 1)[cur[k]] == remote@[i as int]);
                        }
                    }
                }
            } else {
                proof {
                    assert(!is_orphan(remote@[i as int], managed));
                    assert(orphan_idxs(remote@.take(i + 1), managed) =~= orphan_idxs(pre, managed));
                    assert forall|k: int| 0 <= k < r@.len() implies ephemeral_entry_ok(
                        #[trigger] r@[k],
                        remote@.take(i + 1)[orphan_idxs(remote@.take(i + 1), managed)[k]],
                        all_obs[orphan_idxs(remote@.take(i + 1), managed)[k]],
                        zones@,
                        account_name@,
                    ) by {
                        assert(remote@.take(i + 1)[orphan_idxs(pre, managed)[k]] == pre[orphan_idxs(
                            pre,
                            managed,
                        )[k]]);
                    }
                }
            }
        } else {
            proof {
                assert(!is_orphan(remote@[i as int], managed));
                assert(orphan_idxs(remote@.take(i + 1), managed) =~= orphan_idxs(pre, managed));
                assert forall|k: int| 0 <= k < r@.len() implies ephemeral_entry_ok(
                    #[trigger] r@[k],
                    remote@.take(i + 1)[orphan_idxs(remote@.take(i + 1), managed)[k]],
                    all_obs[orphan_idxs(remote@.take(i + 1), managed)[k]],
                    zones@,
                    account_name@,
                ) by {
                    assert(remote@.take(i + 1)[orphan_idxs(pre, managed)[k]] == pre[orphan_idxs(
                        pre,
                        managed,
                    )[k]]);
                }
            }
        }
        i += 1;
    }
    proof {
        assert(remote@.take(remote@.len() as int) =~= remote@);
    }
    r
}

/// Merges the rebuilt managed and ephemeral entries into the unified view:
/// managed entries first, in ledger order, then the discovered orphans. When
/// the remote query failed, the pass runs with no ephemeral entries and the
/// managed half stands alone.
pub fn merge_entries(managed: Vec<TunnelEntry>, ephemeral: Vec<TunnelEntry>) -> (r: Vec<
    TunnelEntry,
>)
    ensures
        r@ == managed@ + ephemeral@,
{
    let ghost m0 = managed@;
    let mut r = managed;
    let mut e = ephemeral;
    r.append(&mut e);
    r
}

/// One trimmed ingress line: whitespace stripped, then list markers, then
/// whitespace again.
pub open spec fn eph_trimmed(line: Seq<char>) -> Seq<char> {
    drop_leading_ws(drop_trailing_ws(drop_leading_char(trim_spec(line), '-')))
}

/// What scanning the artifact's lines yields: the last hostname named by a
/// `hostname:` rule, and the first service of a `service:` rule that is not
/// the catch-all status rule.
pub open spec fn eph_scan(lines: Seq<Seq<char>>) -> (Option<Seq<char>>, Option<Seq<char>>)
    decreases lines.len(),
{
    if lines.len() == 0 {
        (None, None)
    } else {
        let (h, s) = eph_scan(lines.drop_last());
        let t = eph_trimmed(lines.last());
        if seq_starts_with(t, "hostname:"@) {
            (Some(trim_spec(t.skip("hostname:"@.len() as int))), s)
        } else if seq_starts_with(t, "service:"@) {
            let sv = trim_spec(t.skip("service:"@.len() as int));
            if !seq_contains(sv, "http_status"@) && s is None {
                (h, Some(sv))
            } else {
                (h, s)
            }
        } else {
            (h, s)
        }
    }
}

/// What a parsed artifact yields: the hostname and target of its ingress
/// rule, when the artifact names both.
pub open spec fn spec_parse_ephemeral(content: Seq<char>) -> Option<(Seq<char>, Seq<char>)> {
    let (h, s) = eph_scan(spec_lines(content));
    match (h, s) {
        (Some(hv), Some(sv)) => Some((hv, sv)),
        _ => None,
    }
}

/// The value of a prefixed rule line: the trimmed text after the prefix, when
/// the line starts with the prefix.
fn strip_prefix_trimmed(t: &str, pat: &str) -> (r: Option<String>)
    ensures
        match r {
            Some(v) => seq_starts_with(t@, pat@) && v@ == trim_spec(t@.skip(pat@.len() as int)),
            None => !seq_starts_with(t@, pat@),
        },
{
    let tv = chars_of(t);
    let pv = chars_of(pat);
    if !match_at(&tv, &pv, 0) {
        return None;
    }
    let (a, b) = trim_bounds(&tv, pv.len(), tv.len());
    proof {
        assert(tv@.subrange(pv@.len() as int, tv@.len() as int) =~= t@.skip(pat@.len() as int));
    }
    Some(t.substring_char(a, b).to_owned())
}

/// Recovers an orphan tunnel's hostname and target from the content of its
/// transient ingress-config artifact: the last `hostname:` rule and the first
/// `service:` rule that is not the catch-all. Tolerant of malformed content:
/// anything else yields nothing.
pub fn parse_ephemeral_config(content: &str) -> (r: Option<(String, String)>)
    ensures
        match r {
            Some((h, t)) => spec_parse_ephemeral(content@) == Some((h@, t@)),
            None => spec_parse_ephemeral(content@) is None,
        },
{
    let lines = split_lines(content);
    let mut hostname: Option<String> = None;
    let mut service: Option<String> = None;
    let mut i: usize = 0;
    while i < lines.len()
        invariant
            i <= lines@.len(),
            lines.deep_view() == spec_lines(content@),
            match hostname {
                Some(h) => eph_scan(spec_lines(content@).take(i as int)).0 == Some(h@),
                None => eph_scan(spec_lines(content@).take(i as int)).0 is None,
            },
            match service {
                Some(s) => eph_scan(spec_lines(content@).take(i as int)).1 == Some(s@),
                None => eph_scan(spec_lines(content@).take(i as int)).1 is None,
            },
        decreases lines@.len() - i,
    {
        proof {
            assert(spec_lines(content@).take(i + 1).drop_last() =~= spec_lines(content@).take(
                i as int,
            ));
            assert(spec_lines(content@).take(i + 1).last() == spec_lines(content@)[i as int]);
            assert(lines@[i as int]@ == spec_lines(content@)[i as int]);
        }
        let lv = chars_of(lines[i].as_str());
        let (a1, b1) = trim_bounds(&lv, 0, lv.len());
        proof {
            assert(lv@.subrange(0, lv@.len() as int) =~= lv@);
        }
        let a2 = crate::text::drop_leading_bound(&lv, a1, b1, '-');
        let (a3, b3) = trim_bounds(&lv, a2, b1);
        let t = lines[i].as_str().substring_char(a3, b3);
        proof {
            assert(t@ == eph_trimmed(spec_lines(content@)[i as int]));
        }
        match strip_prefix_trimmed(t, "hostname:") {
            Some(h) => {
                hostname = Some(h);
            },
            None => {
                match strip_prefix_trimmed(t, "service:") {
                    Some(sv) => {
                        let keep = match &service {
                            Some(_) => false,
                            None => !str_contains(sv.as_str(), "http_status"),
                        };
                        if keep {
                            service = Some(sv);
                        }
                    },
                    None => {},
                }
            },
        }
        i += 1;
    }
    proof {
        assert(spec_lines(content@).take(spec_lines(content@).len() as int) =~= spec_lines(
            content@,
        ));
    }
    match (hostname, service) {
        (Some(h), Some(s)) => Some((h, s)),
        _ => None,
    }
}

} // verus!
