//! The durable multi-account registry: named accounts with their credential,
//! remote account id, default zone and cached zone list, plus read-time
//! migration of the older single-account document.

use vstd::prelude::*;

use crate::text::{first_where, lemma_first_where_is, lemma_first_where_none, str_eq};

verus! {

/// A DNS zone reference cached from the control plane.
#[derive(Debug)]
pub struct ZoneConfig {
    pub id: String,
    pub name: String,
}

impl Clone for ZoneConfig {
    fn clone(&self) -> (r: Self)
        ensures
            r == *self,
    {
        ZoneConfig { id: self.id.clone(), name: self.name.clone() }
    }
}

/// Clones a zone list, element for element.
pub fn clone_zones(zones: &Vec<ZoneConfig>) -> (r: Vec<ZoneConfig>)
    ensures
        r@ == zones@,
{
    let mut r: Vec<ZoneConfig> = Vec::new();
    let mut i: usize = 0;
    while i < zones.len()
        invariant
            i <= zones@.len(),
            r@ == zones@.take(i as int),
        decreases zones@.len() - i,
    {
        r.push(zones[i].clone());
        i += 1;
        proof {
            assert(r@ =~= zones@.take(i as int));
        }
    }
    proof {
        assert(zones@.take(zones@.len() as int) =~= zones@);
    }
    r
}

/// One account: a name of the user's choosing, the credential and remote
/// account id, the default zone, and the cached zone list.
#[derive(Debug)]
pub struct Account {
    pub name: String,
    pub api_token: String,
    pub account_id: String,
    pub default_zone_id: String,
    pub default_zone_name: String,
    pub zones: Vec<ZoneConfig>,
}

impl Clone for Account {
    fn clone(&self) -> (r: Self)
        ensures
            r.name == self.name,
            r.api_token == self.api_token,
            r.account_id == self.account_id,
            r.default_zone_id == self.default_zone_id,
            r.default_zone_name == self.default_zone_name,
            r.zones@ == self.zones@,
    {
        let r = Account {
            name: self.name.clone(),
            api_token: self.api_token.clone(),
            account_id: self.account_id.clone(),
            default_zone_id: self.default_zone_id.clone(),
            default_zone_name: self.default_zone_name.clone(),
            zones: clone_zones(&self.zones),
        };
        proof {
            assert(r.zones@ =~= self.zones@);
        }
        r
    }
}

/// The whole configuration document: the selected account's name and every
/// account.
#[derive(Debug)]
pub struct Config {
    pub selected_account: String,
    pub accounts: Vec<Account>,
}

/// The older single-account document, as read from disk before migration.
#[derive(Debug)]
pub struct LegacyConfig {
    pub api_token: String,
    pub account_id: String,
    pub default_zone_id: String,
    pub default_zone_name: String,
    pub zones: Vec<ZoneConfig>,
}

/// Why a configuration-store operation failed.
#[derive(Debug, Clone, Copy, PartialEq, Eq, Structural)]
pub enum ConfigError {
    /// The named account does not exist.
    NotFound,
    /// An account of that name already exists.
    AlreadyExists,
    /// The last remaining account cannot be removed.
    CannotRemoveLast,
    /// The on-disk document matches neither the current nor the legacy
    /// schema.
    InvalidFormat,
}

impl ConfigError {
    /// A short description of the failure.
    pub fn message(&self) -> (r: &'static str)
        ensures
            *self is NotFound ==> r@ == "account not found"@,
            *self is AlreadyExists ==> r@ == "account already exists"@,
            *self is CannotRemoveLast ==> r@ == "cannot remove the last account"@,
            *self is InvalidFormat ==> r@ == "invalid config format"@,
    {
        match self {
            ConfigError::NotFound => "account not found",
            ConfigError::AlreadyExists => "account already exists",
            ConfigError::CannotRemoveLast => "cannot remove the last account",
            ConfigError::InvalidFormat => "invalid config format",
        }
    }
}

/// `a` is the account named `name`.
pub open spec fn acct_named(name: Seq<char>) -> spec_fn(Account) -> bool {
    |a: Account| a.name@ == name
}

impl Config {
    /// The account name an optional argument resolves to: the argument when
    /// given, else the selected account.
    pub open spec fn resolved_name(&self, name: Option<&str>) -> Seq<char> {
        match name {
            Some(n) => n@,
            None => self.selected_account@,
        }
    }

    /// The account with the given name, or the selected account when no name
    /// is given.
    pub fn get_account(&self, name: Option<&str>) -> (r: Result<&Account, ConfigError>)
        ensures
            match r {
                Ok(a) => {
                    let idx = first_where(self.accounts@, acct_named(self.resolved_name(name)));
                    idx is Some && *a == self.accounts@[idx->0]
                },
                Err(e) => e is NotFound && first_where(
                    self.accounts@,
                    acct_named(self.resolved_name(name)),
                ) is None,
            },
    {
        let target: &str = match name {
            Some(n) => n,
            None => self.selected_account.as_str(),
        };
        let ghost pred = acct_named(self.resolved_name(name));
        let mut i: usize = 0;
        while i < self.accounts.len()
            invariant
                i <= self.accounts@.len(),
                target@ == self.resolved_name(name),
                pred == acct_named(self.resolved_name(name)),
                forall|j: int| 0 <= j < i ==> !pred(#[trigger] self.accounts@[j]),
            decreases self.accounts@.len() - i,
        {
            if str_eq(self.accounts[i].name.as_str(), target) {
                proof {
                    assert(pred(self.accounts@[i as int]));
                    lemma_first_where_is(self.accounts@, pred, i as int);
                }
                return Ok(&self.accounts[i]);
            }
            proof {
                assert(!pred(self.accounts@[i as int]));
            }
            i += 1;
        }
        proof {
            lemma_first_where_none(self.accounts@, pred);
        }
        Err(ConfigError::NotFound)
    }

    /// The account with the given name (or the selected account), for
    /// mutation in place.
    pub fn get_account_mut(&mut self, name: Option<&str>) -> (r: Result<&mut Account, ConfigError>)
        ensures
            match r {
                Ok(a) => {
                    let idx = first_where(
                        old(self).accounts@,
                        acct_named(old(self).resolved_name(name)),
                    );
                    idx is Some && *a == old(self).accounts@[idx->0]
                        && final(self).accounts@ == old(self).accounts@.update(idx->0, *final(a))
                        && final(self).selected_account == old(self).selected_account
                },
                Err(e) => e is NotFound && first_where(
                    old(self).accounts@,
                    acct_named(old(self).resolved_name(name)),
                ) is None && *final(self) == *old(self),
            },
    {
        let target: String = match name {
            Some(n) => n.to_owned(),
            None => self.selected_account.clone(),
        };
        let ghost pred = acct_named(old(self).resolved_name(name));
        let mut i: usize = 0;
        while i < self.accounts.len()
            invariant
                i <= self.accounts@.len(),
                *self == *old(self),
                target@ == old(self).resolved_name(name),
                pred == acct_named(old(self).resolved_name(name)),
                forall|j: int| 0 <= j < i ==> !pred(#[trigger] self.accounts@[j]),
            decreases self.accounts@.len() - i,
        {
            if str_eq(self.accounts[i].name.as_str(), target.as_str()) {
                proof {
                    assert(pred(self.accounts@[i as int]));
                    lemma_first_where_is(self.accounts@, pred, i as int);
                }
                return Ok(&mut self.accounts[i]);
            }
            proof {
                assert(!pred(self.accounts@[i as int]));
            }
            i += 1;
        }
        proof {
            lemma_first_where_none(self.accounts@, pred);
        }
        Err(ConfigError::NotFound)
    }

    /// Whether an account with the given name exists.
    fn has_account(&self, name: &str) -> (r: bool)
        ensures
            r == (first_where(self.accounts@, acct_named(name@)) is Some),
    {
        let ghost pred = acct_named(name@);
        let mut i: usize = 0;
        while i < self.accounts.len()
            invariant
                i <= self.accounts@.len(),
                pred == acct_named(name@),
                forall|j: int| 0 <= j < i ==> !pred(#[trigger] self.accounts@[j]),
            decreases self.accounts@.len() - i,
        {
            if str_eq(self.accounts[i].name.as_str(), name) {
                proof {
                    assert(pred(self.accounts@[i as int]));
                    lemma_first_where_is(self.accounts@, pred, i as int);
                }
                return true;
            }
            proof {
                assert(!pred(self.accounts@[i as int]));
            }
            i += 1;
        }
        proof {
            lemma_first_where_none(self.accounts@, pred);
        }
        false
    }

    /// Adds an account; an account of the same name must not already exist.
    pub fn add_account(&mut self, account: Account) -> (r: Result<(), ConfigError>)
        ensures
            match r {
                Ok(()) => first_where(old(self).accounts@, acct_named(account.name@)) is None
                    && final(self).accounts@ == old(self).accounts@.push(account)
                    && final(self).selected_account == old(self).selected_account,
                Err(e) => e is AlreadyExists && first_where(
                    old(self).accounts@,
                    acct_named(account.name@),
                ) is Some && *final(self) == *old(self),
            },
    {
        if self.has_account(account.name.as_str()) {
            return Err(ConfigError::AlreadyExists);
        }
        self.accounts.push(account);
        Ok(())
    }

    /// Removes the named account and returns it. The last account cannot be
    /// removed; when the removed account was the selected one, the first
    /// remaining account becomes selected.
    pub fn remove_account(&mut self, name: &str) -> (r: Result<Account, ConfigError>)
        ensures
            match r {
                Ok(a) => {
                    let idx = first_where(old(self).accounts@, acct_named(name@));
                    &&& idx is Some
                    &&& old(self).accounts@.len() > 1
                    &&& a == old(self).accounts@[idx->0]
                    &&& final(self).accounts@ == old(self).accounts@.remove(idx->0)
                    &&& final(self).selected_account@ == if old(self).selected_account@ == name@ {
                        final(self).accounts@[0].name@
                    } else {
                        old(self).selected_account@
                    }
                },
                Err(e) => *final(self) == *old(self) && match e {
                    ConfigError::NotFound => first_where(
                        old(self).accounts@,
                        acct_named(name@),
                    ) is None,
                    ConfigError::CannotRemoveLast => first_where(
                        old(self).accounts@,
                        acct_named(name@),
                    ) is Some && old(self).accounts@.len() <= 1,
                    _ => false,
                },
            },
    {
        let ghost pred = acct_named(name@);
        let mut i: usize = 0;
        while i < self.accounts.len()
            invariant
                i <= self.accounts@.len(),
                *self == *old(self),
                pred == acct_named(name@),
                forall|j: int| 0 <= j < i ==> !pred(#[trigger] self.accounts@[j]),
            decreases self.accounts@.len() - i,
        {
            if str_eq(self.accounts[i].name.as_str(), name) {
                proof {
                    assert(pred(self.accounts@[i as int]));
                    lemma_first_where_is(self.accounts@, pred, i as int);
                }
                if self.accounts.len() <= 1 {
                    return Err(ConfigError::CannotRemoveLast);
                }
                let account = self.accounts.remove(i);
                if str_eq(self.selected_account.as_str(), name) {
                    self.selected_account = self.accounts[0].name.clone();
                }
                return Ok(account);
            }
            proof {
                assert(!pred(self.accounts@[i as int]));
            }
            i += 1;
        }
        proof {
            lemma_first_where_none(self.accounts@, pred);
        }
        Err(ConfigError::NotFound)
    }

    /// Makes the named account the selected one; it must exist.
    pub fn select_account(&mut self, name: &str) -> (r: Result<(), ConfigError>)
        ensures
            match r {
                Ok(()) => first_where(old(self).accounts@, acct_named(name@)) is Some
                    && final(self).accounts@ == old(self).accounts@
                    && final(self).selected_account@ == name@,
                Err(e) => e is NotFound && first_where(
                    old(self).accounts@,
                    acct_named(name@),
                ) is None && *final(self) == *old(self),
            },
    {
        if !self.has_account(name) {
            return Err(ConfigError::NotFound);
        }
        self.selected_account = name.to_owned();
        Ok(())
    }
}

/// How the migrated configuration relates to a legacy document: one account
/// named `default`, selected, carrying every legacy field unchanged.
pub open spec fn migrated_config(legacy: LegacyConfig, c: Config) -> bool {
    &&& c.selected_account@ == "default"@
    &&& c.accounts@.len() == 1
    &&& c.accounts@[0].name@ == "default"@
    &&& c.accounts@[0].api_token == legacy.api_token
    &&& c.accounts@[0].account_id == legacy.account_id
    &&& c.accounts@[0].default_zone_id == legacy.default_zone_id
    &&& c.accounts@[0].default_zone_name == legacy.default_zone_name
    &&& c.accounts@[0].zones@ == legacy.zones@
}

/// Upgrades a legacy single-account document to the current schema: one
/// account named `default`, selected, with every field carried over.
pub fn migrate_legacy(legacy: LegacyConfig) -> (c: Config)
    ensures
        migrated_config(legacy, c),
{
    let account = Account {
        name: "default".to_owned(),
        api_token: legacy.api_token,
        account_id: legacy.account_id,
        default_zone_id: legacy.default_zone_id,
        default_zone_name: legacy.default_zone_name,
        zones: legacy.zones,
    };
    let mut accounts: Vec<Account> = Vec::new();
    accounts.push(account);
    Config { selected_account: "default".to_owned(), accounts }
}

/// What loading a configuration document yields, given which schemas it
/// parses as: the current schema wins; a legacy document is migrated, and the
/// result is to be persisted at once; a document in neither schema is
/// rejected.
pub open spec fn decode_rel(
    current: Option<Config>,
    legacy: Option<LegacyConfig>,
    r: Result<(Config, bool), ConfigError>,
) -> bool {
    match current {
        Some(c) => r == Ok::<(Config, bool), ConfigError>((c, false)),
        None => match legacy {
            Some(l) => match r {
                Ok((c, migrated)) => migrated && migrated_config(l, c),
                Err(_) => false,
            },
            None => r == Err::<(Config, bool), ConfigError>(ConfigError::InvalidFormat),
        },
    }
}

/// Decides what a loaded document means: `current` and `legacy` are the
/// outcomes of reading it as the current and the legacy schema, in that
/// order of preference. Returns the configuration and whether it was
/// migrated and must be re-saved.
pub fn decode_config(current: Option<Config>, legacy: Option<LegacyConfig>) -> (r: Result<
    (Config, bool),
    ConfigError,
>)
    ensures
        decode_rel(current, legacy, r),
{
    match current {
        Some(c) => Ok((c, false)),
        None => match legacy {
            Some(l) => Ok((migrate_legacy(l), true)),
            None => Err(ConfigError::InvalidFormat),
        },
    }
}

/// A legacy document migrates losslessly, and never twice: the first load
/// migrates it to a current-schema configuration carrying every legacy field,
/// and a later load of that saved configuration returns it unchanged, without
/// migrating again.
pub proof fn lemma_legacy_round_trip(
    legacy: LegacyConfig,
    first: Result<(Config, bool), ConfigError>,
    c: Config,
    second: Result<(Config, bool), ConfigError>,
)
    requires
        decode_rel(None, Some(legacy), first),
        first == Ok::<(Config, bool), ConfigError>((c, true)),
        decode_rel(Some(c), None, second),
    ensures
        migrated_config(legacy, c),
        c.accounts@[0].api_token == legacy.api_token,
        c.accounts@[0].account_id == legacy.account_id,
        c.accounts@[0].default_zone_id == legacy.default_zone_id,
        c.accounts@[0].default_zone_name == legacy.default_zone_name,
        c.accounts@[0].zones@ == legacy.zones@,
        second == Ok::<(Config, bool), ConfigError>((c, false)),
{
}

/// Path of the configuration document under the configuration directory.
pub fn config_path(config_dir: &str) -> (r: String)
    ensures
        r@ == config_dir@ + "/config.toml"@,
{
    let mut r = config_dir.to_owned();
    r.append("/config.toml");
    r
}

} // verus!
