//! The desired-state ledger of managed tunnels: one record per tunnel, keyed
//! by tunnel name and owning account, with read-time migration of records
//! written before accounts existed, and the derivation of each tunnel's
//! metrics port and on-disk companion paths.

use vstd::prelude::*;

use crate::text::{dec_str, first_where, lemma_first_where_is, lemma_first_where_none,
    lemma_first_where_some, seq_starts_with, str_eq, str_starts_with, u64_to_dec};

verus! {

/// A managed tunnel as stored in the desired-state ledger.
#[derive(Debug)]
pub struct PersistentTunnel {
    /// Short tunnel name; the subdomain part of the hostname.
    pub name: String,
    /// The account that owns this tunnel. Empty only in records written
    /// before accounts existed; such records are migrated on load.
    pub account_name: String,
    /// The local service the tunnel forwards to.
    pub target: String,
    /// DNS zone the hostname lives in.
    pub zone_id: String,
    pub zone_name: String,
    /// Public hostname of the tunnel.
    pub hostname: String,
    /// Remote tunnel-resource id.
    pub tunnel_id: String,
    /// Whether the tunnel is meant to be running.
    pub enabled: bool,
    /// Whether the tunnel starts at login.
    pub auto_start: bool,
    /// Fixed metrics port; derived from the name when absent.
    pub metrics_port: Option<u16>,
}

impl Clone for PersistentTunnel {
    fn clone(&self) -> (r: Self)
        ensures
            r == *self,
    {
        PersistentTunnel {
            name: self.name.clone(),
            account_name: self.account_name.clone(),
            target: self.target.clone(),
            zone_id: self.zone_id.clone(),
            zone_name: self.zone_name.clone(),
            hostname: self.hostname.clone(),
            tunnel_id: self.tunnel_id.clone(),
            enabled: self.enabled,
            auto_start: self.auto_start,
            metrics_port: self.metrics_port,
        }
    }
}

/// One step of the name hash: fold a byte in and keep the low 32 bits.
pub open spec fn hash_step(acc: int, b: u8) -> int {
    ((acc + b) * 31) % 0x1_0000_0000
}

/// The hash of a byte sequence used to derive a metrics port.
pub open spec fn name_hash(bytes: Seq<u8>) -> int
    decreases bytes.len(),
{
    if bytes.len() == 0 {
        0
    } else {
        hash_step(name_hash(bytes.drop_last()), bytes.last())
    }
}

/// The lowest port of the reserved metrics range.
pub const METRICS_PORT_BASE: u16 = 21000;

/// The metrics port derived from a tunnel name: a hash of the name's bytes
/// mapped into the thousand ports from [`METRICS_PORT_BASE`].
pub open spec fn spec_derived_port(name_bytes: Seq<u8>) -> int {
    METRICS_PORT_BASE + name_hash(name_bytes) % 1000
}

proof fn lemma_name_hash_range(bytes: Seq<u8>)
    ensures
        0 <= name_hash(bytes) < 0x1_0000_0000,
    decreases bytes.len(),
{
    if bytes.len() > 0 {
        lemma_name_hash_range(bytes.drop_last());
    }
}

/// The derived metrics port always falls within the reserved range. The
/// derivation is a function of the tunnel name alone, so it is deterministic.
pub proof fn lemma_derived_port_in_range(name_bytes: Seq<u8>)
    ensures
        METRICS_PORT_BASE <= spec_derived_port(name_bytes) < METRICS_PORT_BASE + 1000,
{
    lemma_name_hash_range(name_bytes);
}

impl PersistentTunnel {
    /// The metrics port of this tunnel: the fixed one when set, else the port
    /// derived deterministically from the tunnel name.
    pub fn get_metrics_port(&self) -> (r: u16)
        ensures
            r == match self.metrics_port {
                Some(p) => p as int,
                None => spec_derived_port(vstd::utf8::encode_utf8(self.name@)),
            },
    {
        match self.metrics_port {
            Some(p) => p,
            None => {
                let bytes = self.name.as_str().as_bytes_vec();
                let mut acc: u32 = 0;
                let mut i: usize = 0;
                while i < bytes.len()
                    invariant
                        i <= bytes@.len(),
                        acc == name_hash(bytes@.take(i as int)),
                    decreases bytes@.len() - i,
                {
                    proof {
                        assert(bytes@.take(i + 1).drop_last() =~= bytes@.take(i as int));
                    }
                    let wide: u64 = ((acc as u64) + (bytes[i] as u64)) * 31;
                    acc = (wide % 0x1_0000_0000) as u32;
                    i += 1;
                }
                proof {
                    assert(bytes@.take(bytes@.len() as int) =~= bytes@);
                }
                METRICS_PORT_BASE + (acc % 1000) as u16
            },
        }
    }

    /// The loopback URL of this tunnel's metrics endpoint.
    pub fn metrics_url(&self) -> (r: String)
        ensures
            r@ == "http://localhost:"@ + dec_str(
                match self.metrics_port {
                    Some(p) => p as int,
                    None => spec_derived_port(vstd::utf8::encode_utf8(self.name@)),
                },
            ) + "/metrics"@,
    {
        let port = self.get_metrics_port();
        let mut r = String::new();
        r.append("http://localhost:");
        let digits = u64_to_dec(port as u64);
        r.append(digits.as_str());
        r.append("/metrics");
        proof {
            assert(Seq::<char>::empty() + "http://localhost:"@ =~= "http://localhost:"@);
        }
        r
    }

    /// Path of this tunnel's secret-credential file, under the configuration
    /// directory: named by the remote tunnel-resource id.
    pub fn credentials_path(&self, config_dir: &str) -> (r: String)
        ensures
            r@ == config_dir@ + "/"@ + self.tunnel_id@ + ".json"@,
    {
        let mut r = config_dir.to_owned();
        r.append("/");
        r.append(self.tunnel_id.as_str());
        r.append(".json");
        r
    }

    /// Path of this tunnel's ingress-config artifact, under the configuration
    /// directory.
    pub fn config_path(&self, config_dir: &str) -> (r: String)
        ensures
            r@ == config_dir@ + "/tunnel-configs/"@ + self.name@ + ".yml"@,
    {
        let mut r = config_dir.to_owned();
        r.append("/tunnel-configs/");
        r.append(self.name.as_str());
        r.append(".yml");
        r
    }

    /// Path of this tunnel's log file, under the configuration directory.
    pub fn log_path(&self, config_dir: &str) -> (r: String)
        ensures
            r@ == config_dir@ + "/logs/"@ + self.name@ + ".log"@,
    {
        let mut r = config_dir.to_owned();
        r.append("/logs/");
        r.append(self.name.as_str());
        r.append(".log");
        r
    }
}

/// `t` has tunnel name `name`.
pub open spec fn named(name: Seq<char>) -> spec_fn(PersistentTunnel) -> bool {
    |t: PersistentTunnel| t.name@ == name
}

/// `t` has tunnel name `name` and owner `account`.
pub open spec fn keyed(name: Seq<char>, account: Seq<char>) -> spec_fn(PersistentTunnel) -> bool {
    |t: PersistentTunnel| t.name@ == name && t.account_name@ == account
}

/// No two records share a (name, account) key.
pub open spec fn keys_unique(s: Seq<PersistentTunnel>) -> bool {
    forall|i: int, j: int|
        0 <= i < j < s.len() ==> !(#[trigger] s[i].name@ == #[trigger] s[j].name@
            && s[i].account_name@ == s[j].account_name@)
}

/// Adding a record whose (name, account) key is absent keeps the keys of the
/// ledger unique; the caller-side duplicate check therefore preserves the
/// ledger's key invariant.
pub proof fn lemma_unique_after_add(s: Seq<PersistentTunnel>, t: PersistentTunnel)
    requires
        keys_unique(s),
        first_where(s, keyed(t.name@, t.account_name@)) is None,
    ensures
        keys_unique(s.push(t)),
{
    lemma_first_where_some(s, keyed(t.name@, t.account_name@));
    assert forall|i: int, j: int| 0 <= i < j < s.push(t).len() implies !(#[trigger] s.push(
        t,
    )[i].name@ == #[trigger] s.push(t)[j].name@ && s.push(t)[i].account_name@ == s.push(
        t,
    )[j].account_name@) by {
        if j == s.len() {
            assert(!keyed(t.name@, t.account_name@)(s[i]));
        }
    }
}

/// The desired-state ledger: every managed tunnel, in insertion order.
#[derive(Debug)]
pub struct TunnelState {
    pub tunnels: Vec<PersistentTunnel>,
}

impl Default for TunnelState {
    fn default() -> (r: Self)
        ensures
            r.tunnels@ == Seq::<PersistentTunnel>::empty(),
    {
        TunnelState { tunnels: Vec::new() }
    }
}

impl TunnelState {
    /// Finds the first tunnel with the given name, whatever its account.
    pub fn find(&self, name: &str) -> (r: Option<&PersistentTunnel>)
        ensures
            match r {
                Some(t) => {
                    let idx = first_where(self.tunnels@, named(name@));
                    idx is Some && *t == self.tunnels@[idx->0]
                },
                None => first_where(self.tunnels@, named(name@)) is None,
            },
    {
        let mut i: usize = 0;
        while i < self.tunnels.len()
            invariant
                i <= self.tunnels@.len(),
                forall|j: int| 0 <= j < i ==> !named(name@)(#[trigger] self.tunnels@[j]),
            decreases self.tunnels@.len() - i,
        {
            if str_eq(self.tunnels[i].name.as_str(), name) {
                proof {
                    assert(named(name@)(self.tunnels@[i as int]));
                    lemma_first_where_is(self.tunnels@, named(name@), i as int);
                }
                return Some(&self.tunnels[i]);
            }
            proof {
                assert(!named(name@)(self.tunnels@[i as int]));
            }
            i += 1;
        }
        proof {
            lemma_first_where_none(self.tunnels@, named(name@));
        }
        None
    }

    /// Finds the first tunnel with the given name, whatever its account,
    /// for mutation in place.
    pub fn find_mut(&mut self, name: &str) -> (r: Option<&mut PersistentTunnel>)
        ensures
            match r {
                Some(t) => {
                    let idx = first_where(old(self).tunnels@, named(name@));
                    idx is Some && *t == old(self).tunnels@[idx->0] && final(self).tunnels@ == old(
                        self,
                    ).tunnels@.update(idx->0, *final(t))
                },
                None => first_where(old(self).tunnels@, named(name@)) is None && *final(self) == *old(
                    self,
                ),
            },
    {
        let mut i: usize = 0;
        while i < self.tunnels.len()
            invariant
                i <= self.tunnels@.len(),
                *self == *old(self),
                forall|j: int| 0 <= j < i ==> !named(name@)(#[trigger] self.tunnels@[j]),
            decreases self.tunnels@.len() - i,
        {
            if str_eq(self.tunnels[i].name.as_str(), name) {
                proof {
                    assert(named(name@)(self.tunnels@[i as int]));
                    lemma_first_where_is(self.tunnels@, named(name@), i as int);
                }
                return Some(&mut self.tunnels[i]);
            }
            proof {
                assert(!named(name@)(self.tunnels@[i as int]));
            }
            i += 1;
        }
        proof {
            lemma_first_where_none(self.tunnels@, named(name@));
        }
        None
    }

    /// Finds the tunnel with the given (name, account) key.
    pub fn find_for_account(&self, name: &str, account: &str) -> (r: Option<&PersistentTunnel>)
        ensures
            match r {
                Some(t) => {
                    let idx = first_where(self.tunnels@, keyed(name@, account@));
                    idx is Some && *t == self.tunnels@[idx->0]
                },
                None => first_where(self.tunnels@, keyed(name@, account@)) is None,
            },
    {
        let mut i: usize = 0;
        while i < self.tunnels.len()
            invariant
                i <= self.tunnels@.len(),
                forall|j: int| 0 <= j < i ==> !keyed(name@, account@)(#[trigger] self.tunnels@[j]),
            decreases self.tunnels@.len() - i,
        {
            if str_eq(self.tunnels[i].name.as_str(), name) && str_eq(
                self.tunnels[i].account_name.as_str(),
                account,
            ) {
                proof {
                    assert(keyed(name@, account@)(self.tunnels@[i as int]));
                    lemma_first_where_is(self.tunnels@, keyed(name@, account@), i as int);
                }
                return Some(&self.tunnels[i]);
            }
            proof {
                assert(!keyed(name@, account@)(self.tunnels@[i as int]));
            }
            i += 1;
        }
        proof {
            lemma_first_where_none(self.tunnels@, keyed(name@, account@));
        }
        None
    }

    /// Finds the tunnel with the given (name, account) key, for mutation in
    /// place.
    pub fn find_for_account_mut(&mut self, name: &str, account: &str) -> (r: Option<
        &mut PersistentTunnel,
    >)
        ensures
            match r {
                Some(t) => {
                    let idx = first_where(old(self).tunnels@, keyed(name@, account@));
                    idx is Some && *t == old(self).tunnels@[idx->0] && final(self).tunnels@ == old(
                        self,
                    ).tunnels@.update(idx->0, *final(t))
                },
                None => first_where(old(self).tunnels@, keyed(name@, account@)) is None && *final(self)
                    == *old(self),
            },
    {
        let mut i: usize = 0;
        while i < self.tunnels.len()
            invariant
                i <= self.tunnels@.len(),
                *self == *old(self),
                forall|j: int| 0 <= j < i ==> !keyed(name@, account@)(#[trigger] self.tunnels@[j]),
            decreases self.tunnels@.len() - i,
        {
            if str_eq(self.tunnels[i].name.as_str(), name) && str_eq(
                self.tunnels[i].account_name.as_str(),
                account,
            ) {
                proof {
                    assert(keyed(name@, account@)(self.tunnels@[i as int]));
                    lemma_first_where_is(self.tunnels@, keyed(name@, account@), i as int);
                }
                return Some(&mut self.tunnels[i]);
            }
            proof {
                assert(!keyed(name@, account@)(self.tunnels@[i as int]));
            }
            i += 1;
        }
        proof {
            lemma_first_where_none(self.tunnels@, keyed(name@, account@));
        }
        None
    }

    /// All tunnels owned by `account`, in ledger order.
    pub fn tunnels_for_account(&self, account: &str) -> (r: Vec<PersistentTunnel>)
        ensures
            r@ == self.tunnels@.filter(|t: PersistentTunnel| t.account_name@ == account@),
    {
        let ghost pred = |t: PersistentTunnel| t.account_name@ == account@;
        let mut r: Vec<PersistentTunnel> = Vec::new();
        let mut i: usize = 0;
        proof {
            reveal(Seq::filter);
            assert(self.tunnels@.take(0).filter(pred) =~= Seq::<PersistentTunnel>::empty());
        }
        while i < self.tunnels.len()
            invariant
                i <= self.tunnels@.len(),
                pred == (|t: PersistentTunnel| t.account_name@ == account@),
                r@ == self.tunnels@.take(i as int).filter(pred),
            decreases self.tunnels@.len() - i,
        {
            proof {
                reveal(Seq::filter);
                assert(self.tunnels@.take(i + 1).drop_last() =~= self.tunnels@.take(i as int));
                assert(self.tunnels@.take(i + 1).last() == self.tunnels@[i as int]);
            }
            if str_eq(self.tunnels[i].account_name.as_str(), account) {
                r.push(self.tunnels[i].clone());
            }
            i += 1;
            proof {
                reveal(Seq::filter);
                let s = self.tunnels@;
                let t = s.take(i as int);
                assert(t.drop_last() =~= s.take(i - 1));
                assert(t.last() == s[i - 1]);
                if pred(s[i - 1]) {
                    assert(t.filter(pred) == t.drop_last().filter(pred).push(t.last()));
                } else {
                    assert(t.filter(pred) == t.drop_last().filter(pred));
                }
                assert(r@ =~= t.filter(pred));
            }
        }
        proof {
            assert(self.tunnels@.take(self.tunnels@.len() as int) =~= self.tunnels@);
        }
        r
    }

    /// Appends a tunnel to the ledger. Key uniqueness is the caller's duty:
    /// see [`lemma_unique_after_add`].
    pub fn add(&mut self, tunnel: PersistentTunnel)
        ensures
            final(self).tunnels@ == old(self).tunnels@.push(tunnel),
    {
        self.tunnels.push(tunnel);
    }

    /// Removes and returns the first tunnel with the given name, whatever its
    /// account.
    pub fn remove(&mut self, name: &str) -> (r: Option<PersistentTunnel>)
        ensures
            match r {
                Some(t) => {
                    let idx = first_where(old(self).tunnels@, named(name@));
                    idx is Some && t == old(self).tunnels@[idx->0] && final(self).tunnels@ == old(
                        self,
                    ).tunnels@.remove(idx->0)
                },
                None => first_where(old(self).tunnels@, named(name@)) is None && *final(self) == *old(
                    self,
                ),
            },
    {
        let mut i: usize = 0;
        while i < self.tunnels.len()
            invariant
                i <= self.tunnels@.len(),
                *self == *old(self),
                forall|j: int| 0 <= j < i ==> !named(name@)(#[trigger] self.tunnels@[j]),
            decreases self.tunnels@.len() - i,
        {
            if str_eq(self.tunnels[i].name.as_str(), name) {
                proof {
                    assert(named(name@)(self.tunnels@[i as int]));
                    lemma_first_where_is(self.tunnels@, named(name@), i as int);
                }
                return Some(self.tunnels.remove(i));
            }
            proof {
                assert(!named(name@)(self.tunnels@[i as int]));
            }
            i += 1;
        }
        proof {
            lemma_first_where_none(self.tunnels@, named(name@));
        }
        None
    }

    /// Removes and returns the tunnel with the given (name, account) key.
    pub fn remove_for_account(&mut self, name: &str, account: &str) -> (r: Option<
        PersistentTunnel,
    >)
        ensures
            match r {
                Some(t) => {
                    let idx = first_where(old(self).tunnels@, keyed(name@, account@));
                    idx is Some && t == old(self).tunnels@[idx->0] && final(self).tunnels@ == old(
                        self,
                    ).tunnels@.remove(idx->0)
                },
                None => first_where(old(self).tunnels@, keyed(name@, account@)) is None && *final(self)
                    == *old(self),
            },
    {
        let mut i: usize = 0;
        while i < self.tunnels.len()
            invariant
                i <= self.tunnels@.len(),
                *self == *old(self),
                forall|j: int| 0 <= j < i ==> !keyed(name@, account@)(#[trigger] self.tunnels@[j]),
            decreases self.tunnels@.len() - i,
        {
            if str_eq(self.tunnels[i].name.as_str(), name) && str_eq(
                self.tunnels[i].account_name.as_str(),
                account,
            ) {
                proof {
                    assert(keyed(name@, account@)(self.tunnels@[i as int]));
                    lemma_first_where_is(self.tunnels@, keyed(name@, account@), i as int);
                }
                return Some(self.tunnels.remove(i));
            }
            proof {
                assert(!keyed(name@, account@)(self.tunnels@[i as int]));
            }
            i += 1;
        }
        proof {
            lemma_first_where_none(self.tunnels@, keyed(name@, account@));
        }
        None
    }

    /// Assigns `default_account` to every record whose account is empty, and
    /// reports whether any record needed it. Records written before accounts
    /// existed carry an empty account name; the ledger is re-saved by the
    /// caller when this returns true.
    pub fn migrate_accounts(&mut self, default_account: &str) -> (changed: bool)
        ensures
            final(self).tunnels@.len() == old(self).tunnels@.len(),
            forall|i: int|
                0 <= i < old(self).tunnels@.len() ==> migrated_record(
                    old(self).tunnels@[i],
                    #[trigger] final(self).tunnels@[i],
                    default_account@,
                ),
            changed == (exists|i: int|
                0 <= i < old(self).tunnels@.len() && (#[trigger] old(
                    self,
                ).tunnels@[i].account_name@).len() == 0),
    {
        let mut changed = false;
        let mut i: usize = 0;
        while i < self.tunnels.len()
            invariant
                i <= self.tunnels@.len(),
                self.tunnels@.len() == old(self).tunnels@.len(),
                forall|j: int|
                    i <= j < self.tunnels@.len() ==> #[trigger] self.tunnels@[j] == old(
                        self,
                    ).tunnels@[j],
                forall|j: int|
                    0 <= j < i ==> migrated_record(
                        old(self).tunnels@[j],
                        #[trigger] self.tunnels@[j],
                        default_account@,
                    ),
                changed == (exists|j: int|
                    0 <= j < i && (#[trigger] old(self).tunnels@[j].account_name@).len() == 0),
            decreases self.tunnels@.len() - i,
    {
            if self.tunnels[i].account_name.as_str().is_empty() {
                self.tunnels[i].account_name = default_account.to_owned();
                changed = true;
                proof {
                    assert(old(self).tunnels@[i as int].account_name@.len() == 0);
                }
            }
            i += 1;
        }
        changed
    }

    /// Migrates a freshly loaded ledger: every record with an empty account
    /// name is assigned `default_account`. Returns the migrated ledger and
    /// whether anything changed, in which case the caller persists it before
    /// use.
    pub fn load_and_migrate(loaded: TunnelState, default_account: &str) -> (r: (TunnelState, bool))
        ensures
            r.0.tunnels@.len() == loaded.tunnels@.len(),
            forall|i: int|
                0 <= i < loaded.tunnels@.len() ==> migrated_record(
                    loaded.tunnels@[i],
                    #[trigger] r.0.tunnels@[i],
                    default_account@,
                ),
            r.1 == (exists|i: int|
                0 <= i < loaded.tunnels@.len() && (#[trigger] loaded.tunnels@[i].account_name@).len()
                    == 0),
    {
        let mut state = loaded;
        let changed = state.migrate_accounts(default_account);
        (state, changed)
    }
}

/// How a record looks after migration to `default_account`: the account name
/// is filled in when it was empty, and nothing else changes.
pub open spec fn migrated_record(
    before: PersistentTunnel,
    after: PersistentTunnel,
    default_account: Seq<char>,
) -> bool {
    &&& after.name == before.name
    &&& after.account_name@ == if before.account_name@.len() == 0 {
        default_account
    } else {
        before.account_name@
    }
    &&& after.target == before.target
    &&& after.zone_id == before.zone_id
    &&& after.zone_name == before.zone_name
    &&& after.hostname == before.hostname
    &&& after.tunnel_id == before.tunnel_id
    &&& after.enabled == before.enabled
    &&& after.auto_start == before.auto_start
    &&& after.metrics_port == before.metrics_port
}

/// Path of the ledger file under the configuration directory.
pub fn tunnels_path(config_dir: &str) -> (r: String)
    ensures
        r@ == config_dir@ + "/tunnels.toml"@,
{
    let mut r = config_dir.to_owned();
    r.append("/tunnels.toml");
    r
}

/// The target URL written into an ingress rule: the target as given when it
/// already names a scheme, else prefixed with `http://`.
pub open spec fn spec_target_url(target: Seq<char>) -> Seq<char> {
    if seq_starts_with(target, "http://"@) || seq_starts_with(target, "https://"@) {
        target
    } else {
        "http://"@ + target
    }
}

/// The ingress-config document for a tunnel: the tunnel id, its credential
/// file, one hostname-to-target rule and a catch-all 404 rule.
pub open spec fn spec_tunnel_config(
    tunnel_id: Seq<char>,
    credentials_path: Seq<char>,
    hostname: Seq<char>,
    target: Seq<char>,
) -> Seq<char> {
    "tunnel: "@ + tunnel_id + "\ncredentials-file: "@ + credentials_path + "\ningress:\n  - hostname: "@
        + hostname + "\n    service: "@ + spec_target_url(target) + "\n  - service: http_status:404\n"@
}

/// Generates the ingress-config document for a tunnel, rooted at the given
/// configuration directory.
pub fn generate_tunnel_config(tunnel: &PersistentTunnel, config_dir: &str) -> (r: String)
    ensures
        r@ == spec_tunnel_config(
            tunnel.tunnel_id@,
            config_dir@ + "/"@ + tunnel.tunnel_id@ + ".json"@,
            tunnel.hostname@,
            tunnel.target@,
        ),
{
    let credentials_path = tunnel.credentials_path(config_dir);
    let mut r = String::new();
    r.append("tunnel: ");
    r.append(tunnel.tunnel_id.as_str());
    r.append("\ncredentials-file: ");
    r.append(credentials_path.as_str());
    r.append("\ningress:\n  - hostname: ");
    r.append(tunnel.hostname.as_str());
    r.append("\n    service: ");
    if str_starts_with(tunnel.target.as_str(), "http://") || str_starts_with(
        tunnel.target.as_str(),
        "https://",
    ) {
        r.append(tunnel.target.as_str());
    } else {
        r.append("http://");
        r.append(tunnel.target.as_str());
    }
    r.append("\n  - service: http_status:404\n");
    proof {
        assert(r@ =~= spec_tunnel_config(
            tunnel.tunnel_id@,
            config_dir@ + "/"@ + tunnel.tunnel_id@ + ".json"@,
            tunnel.hostname@,
            tunnel.target@,
        ));
    }
    r
}

} // verus!
