//! The interactive dashboard's state machine: selection and account
//! switching, the add/import input flow with its caller-side duplicate check,
//! log-pane content, and health-result reporting. All I/O stays outside; the
//! methods here decide, and their callers perform.

use vstd::prelude::*;

use crate::config::{acct_named, Account, Config, ZoneConfig};
use crate::health::HealthStatus;
use crate::history::spec_sparkline;
use crate::metrics::TunnelMetrics;
use crate::reconcile::{entry_named, TunnelEntry, TunnelKind};
use crate::status::TunnelStatus;
use crate::text::{first_where, lemma_first_where_is, lemma_first_where_none, str_eq};

verus! {

/// What kind of input the dashboard is waiting for.
#[derive(Debug, Clone, PartialEq, Eq, Structural)]
pub enum InputMode {
    Normal,
    AddName,
    AddTarget,
    AddZone,
    Confirm,
    Help,
}

/// An action armed behind a confirmation prompt.
#[derive(Debug)]
pub enum PendingAction {
    /// Delete the named tunnel.
    Delete(String),
}

/// The dashboard's whole state.
#[derive(Debug)]
pub struct App {
    /// What input is being waited for.
    pub input_mode: InputMode,
    /// The reconciled per-account view, as of the last pass.
    pub tunnels: Vec<TunnelEntry>,
    /// Index of the selected entry.
    pub selected: usize,
    /// The log pane's lines, for the selected entry.
    pub logs: Vec<String>,
    /// The input buffer of the add flow.
    pub input: String,
    /// The name gathered by the add flow.
    pub new_tunnel_name: Option<String>,
    /// The target gathered by the add flow.
    pub new_tunnel_target: Option<String>,
    /// The current account's zones, for the zone-selection step.
    pub zones: Vec<ZoneConfig>,
    /// Index of the selected zone in the zone-selection step.
    pub zone_selected: usize,
    /// The confirmation prompt on screen, if any.
    pub confirm_message: Option<String>,
    /// The action armed behind the prompt, if any.
    pub pending_action: Option<PendingAction>,
    /// The status line's message, if any.
    pub status_message: Option<String>,
    /// Whether the main loop should exit.
    pub should_quit: bool,
    /// The loaded configuration, when one exists.
    pub config: Option<Config>,
    /// Whether the input flow is importing an ephemeral tunnel rather than
    /// adding a fresh one.
    pub is_importing: bool,
    /// Every configured account.
    pub accounts: Vec<Account>,
    /// Index of the account being viewed.
    pub selected_account_idx: usize,
}

/// `b` carries `a`'s fields, member for member.
pub open spec fn account_like(a: Account, b: Account) -> bool {
    &&& b.name == a.name
    &&& b.api_token == a.api_token
    &&& b.account_id == a.account_id
    &&& b.default_zone_id == a.default_zone_id
    &&& b.default_zone_name == a.default_zone_name
    &&& b.zones@ == a.zones@
}

/// `b` lists the same accounts as `a`, member for member.
pub open spec fn accounts_like(a: Seq<Account>, b: Seq<Account>) -> bool {
    b.len() == a.len() && forall|i: int| 0 <= i < a.len() ==> account_like(a[i], #[trigger] b[i])
}

/// Clones an account list, member for member.
pub fn clone_accounts(accounts: &Vec<Account>) -> (r: Vec<Account>)
    ensures
        accounts_like(accounts@, r@),
{
    let mut r: Vec<Account> = Vec::new();
    let mut i: usize = 0;
    while i < accounts.len()
        invariant
            i <= accounts@.len(),
            r@.len() == i,
            forall|j: int| 0 <= j < i ==> account_like(accounts@[j], #[trigger] r@[j]),
        decreases accounts@.len() - i,
    {
        r.push(accounts[i].clone());
        i += 1;
    }
    r
}

/// The view data that navigation leaves alone.
pub open spec fn view_data_unchanged(a: App, b: App) -> bool {
    &&& b.tunnels == a.tunnels
    &&& b.zones == a.zones
    &&& b.accounts == a.accounts
    &&& b.config == a.config
}

/// The input-flow state, unchanged by anything outside the flow.
pub open spec fn flow_unchanged(a: App, b: App) -> bool {
    &&& b.input_mode == a.input_mode
    &&& b.input == a.input
    &&& b.new_tunnel_name == a.new_tunnel_name
    &&& b.new_tunnel_target == a.new_tunnel_target
    &&& b.zone_selected == a.zone_selected
    &&& b.is_importing == a.is_importing
    &&& b.confirm_message == a.confirm_message
    &&& b.pending_action == a.pending_action
}

/// The selection, unchanged by anything but navigation.
pub open spec fn selection_unchanged(a: App, b: App) -> bool {
    b.selected == a.selected && b.selected_account_idx == a.selected_account_idx
}

impl App {
    /// A fresh dashboard over a loaded configuration: the account named by
    /// `initial_account` is viewed when it exists, else the configuration's
    /// selected account, else the first.
    pub fn new(config: Option<Config>, initial_account: Option<&str>) -> (r: App)
        ensures
            r.input_mode is Normal,
            r.tunnels@ == Seq::<TunnelEntry>::empty(),
            r.selected == 0,
            r.logs@.len() == 1 && r.logs@[0]@ == "Select a tunnel to view logs"@,
            r.input@.len() == 0,
            r.new_tunnel_name is None,
            r.new_tunnel_target is None,
            r.zones@ == Seq::<ZoneConfig>::empty(),
            r.zone_selected == 0,
            r.confirm_message is None,
            r.pending_action is None,
            r.status_message is None,
            !r.should_quit,
            !r.is_importing,
            r.config == config,
            match config {
                Some(cfg) => accounts_like(cfg.accounts@, r.accounts@)
                    && r.selected_account_idx == {
                    let target = match initial_account {
                        Some(n) => n@,
                        None => cfg.selected_account@,
                    };
                    match first_where(cfg.accounts@, acct_named(target)) {
                        Some(i) => i,
                        None => 0,
                    }
                },
                None => r.accounts@ == Seq::<Account>::empty() && r.selected_account_idx == 0,
            },
    {
        let (config, accounts, selected_account_idx) = match config {
            Some(cfg) => {
                let accounts = clone_accounts(&cfg.accounts);
                let target: &str = match initial_account {
                    Some(n) => n,
                    None => cfg.selected_account.as_str(),
                };
                let ghost tgt = target@;
                let mut idx: usize = 0;
                let mut i: usize = 0;
                let mut found = false;
                while i < cfg.accounts.len()
                    invariant
                        i <= cfg.accounts@.len(),
                        target@ == tgt,
                        !found ==> forall|j: int|
                            0 <= j < i ==> !acct_named(tgt)(#[trigger] cfg.accounts@[j]),
                        found ==> first_where(cfg.accounts@, acct_named(tgt)) == Some(idx as int),
                        !found ==> idx == 0,
                    decreases cfg.accounts@.len() - i,
                {
                    if !found && str_eq(cfg.accounts[i].name.as_str(), target) {
                        proof {
                            assert(acct_named(tgt)(cfg.accounts@[i as int]));
                            lemma_first_where_is(cfg.accounts@, acct_named(tgt), i as int);
                        }
                        idx = i;
                        found = true;
                    } else {
                        proof {
                            if !found {
                                assert(!acct_named(tgt)(cfg.accounts@[i as int]));
                            }
                        }
                    }
                    i += 1;
                }
                proof {
                    if !found {
                        lemma_first_where_none(cfg.accounts@, acct_named(tgt));
                    }
                }
                (Some(cfg), accounts, idx)
            },
            None => (None, Vec::new(), 0usize),
        };
        let mut logs: Vec<String> = Vec::new();
        logs.push("Select a tunnel to view logs".to_owned());
        App {
            input_mode: InputMode::Normal,
            tunnels: Vec::new(),
            selected: 0,
            logs,
            input: String::new(),
            new_tunnel_name: None,
            new_tunnel_target: None,
            zones: Vec::new(),
            zone_selected: 0,
            confirm_message: None,
            pending_action: None,
            status_message: None,
            should_quit: false,
            config,
            is_importing: false,
            accounts,
            selected_account_idx,
        }
    }

    /// The name of the account being viewed, or `default` when none is.
    pub fn current_account_name(&self) -> (r: &str)
        ensures
            r@ == if self.selected_account_idx < self.accounts@.len() {
                self.accounts@[self.selected_account_idx as int].name@
            } else {
                "default"@
            },
    {
        if self.selected_account_idx < self.accounts.len() {
            self.accounts[self.selected_account_idx].name.as_str()
        } else {
            "default"
        }
    }

    /// The account being viewed, when one is.
    pub fn current_account(&self) -> (r: Option<&Account>)
        ensures
            match r {
                Some(a) => self.selected_account_idx < self.accounts@.len() && *a == self.accounts@[
                    self.selected_account_idx as int
                ],
                None => self.selected_account_idx >= self.accounts@.len(),
            },
    {
        if self.selected_account_idx < self.accounts.len() {
            Some(&self.accounts[self.selected_account_idx])
        } else {
            None
        }
    }

    /// Steps the view to the next account, wrapping around, and says so in
    /// the status line. With no accounts nothing changes.
    pub fn next_account(&mut self)
        ensures
            view_data_unchanged(*old(self), *final(self)),
            flow_unchanged(*old(self), *final(self)),
            final(self).selected == old(self).selected,
            final(self).logs == old(self).logs,
            final(self).should_quit == old(self).should_quit,
            old(self).accounts@.len() > 0 ==> {
                &&& final(self).selected_account_idx == ((old(self).selected_account_idx as int)
                    % (old(self).accounts@.len() as int) + 1) % (old(self).accounts@.len() as int)
                &&& final(self).status_message matches Some(m) && m@ == "Switched to account: "@
                    + old(self).accounts@[final(self).selected_account_idx as int].name@
            },
            old(self).accounts@.len() == 0 ==> final(self).selected_account_idx == old(
                self,
            ).selected_account_idx && final(self).status_message == old(self).status_message,
    {
        if self.accounts.len() > 0 {
            self.selected_account_idx = (self.selected_account_idx % self.accounts.len() + 1)
                % self.accounts.len();
            let mut m = "Switched to account: ".to_owned();
            m.append(self.accounts[self.selected_account_idx].name.as_str());
            self.status_message = Some(m);
        }
    }

    /// The health of the selected entry, unknown when nothing is selected.
    pub fn selected_health(&self) -> (r: HealthStatus)
        ensures
            r == if self.selected < self.tunnels@.len() {
                self.tunnels@[self.selected as int].health
            } else {
                HealthStatus::Unknown
            },
    {
        if self.selected < self.tunnels.len() {
            self.tunnels[self.selected].health
        } else {
            HealthStatus::Unknown
        }
    }

    /// The metrics of the selected entry, when it has any.
    pub fn selected_metrics(&self) -> (r: Option<&TunnelMetrics>)
        ensures
            match r {
                Some(m) => self.selected < self.tunnels@.len() && (self.tunnels@[
                    self.selected as int
                ].metrics matches Some(tm) && *m == tm),
                None => self.selected >= self.tunnels@.len() || self.tunnels@[
                    self.selected as int
                ].metrics is None,
            },
    {
        if self.selected < self.tunnels.len() {
            match &self.tunnels[self.selected].metrics {
                Some(m) => Some(m),
                None => None,
            }
        } else {
            None
        }
    }

    /// The sparkline of the selected entry's history; empty when nothing is
    /// selected.
    pub fn selected_sparkline(&self) -> (r: String)
        ensures
            r@ == if self.selected < self.tunnels@.len() {
                spec_sparkline(self.tunnels@[self.selected as int].metrics_history.request_samples@)
            } else {
                Seq::<char>::empty()
            },
    {
        if self.selected < self.tunnels.len() {
            self.tunnels[self.selected].metrics_history.sparkline()
        } else {
            String::new()
        }
    }

    /// Moves the selection up one entry; reports whether it moved. The log
    /// pane is refreshed by the caller when it did.
    pub fn select_previous(&mut self) -> (moved: bool)
        ensures
            moved == (old(self).tunnels@.len() > 0 && old(self).selected > 0),
            view_data_unchanged(*old(self), *final(self)),
            flow_unchanged(*old(self), *final(self)),
            final(self).logs == old(self).logs,
            final(self).status_message == old(self).status_message,
            final(self).should_quit == old(self).should_quit,
            final(self).selected_account_idx == old(self).selected_account_idx,
            final(self).selected == if moved {
                old(self).selected - 1
            } else {
                old(self).selected as int
            },
    {
        if self.tunnels.len() > 0 && self.selected > 0 {
            self.selected = self.selected - 1;
            true
        } else {
            false
        }
    }

    /// Moves the selection down one entry; reports whether it moved. The log
    /// pane is refreshed by the caller when it did.
    pub fn select_next(&mut self) -> (moved: bool)
        ensures
            moved == (old(self).tunnels@.len() > 0 && old(self).selected < old(
                self,
            ).tunnels@.len() - 1),
            view_data_unchanged(*old(self), *final(self)),
            flow_unchanged(*old(self), *final(self)),
            final(self).logs == old(self).logs,
            final(self).status_message == old(self).status_message,
            final(self).should_quit == old(self).should_quit,
            final(self).selected_account_idx == old(self).selected_account_idx,
            final(self).selected == if moved {
                old(self).selected + 1
            } else {
                old(self).selected as int
            },
    {
        if self.tunnels.len() > 0 && self.selected < self.tunnels.len() - 1 {
            self.selected = self.selected + 1;
            true
        } else {
            false
        }
    }

    /// Whether the selected entry wants a health probe: running, but never
    /// classified.
    pub fn selected_needs_health_check(&self) -> (r: bool)
        ensures
            r == (self.selected < self.tunnels@.len() && self.tunnels@[
                self.selected as int
            ].status is Running && self.tunnels@[self.selected as int].health is Unknown),
    {
        if self.selected < self.tunnels.len() {
            let e = &self.tunnels[self.selected];
            match (e.status, e.health) {
                (TunnelStatus::Running, HealthStatus::Unknown) => true,
                _ => false,
            }
        } else {
            false
        }
    }

    /// Whether the selected entry is an ephemeral tunnel.
    pub fn is_selected_ephemeral(&self) -> (r: bool)
        ensures
            r == (self.selected < self.tunnels@.len() && self.tunnels@[
                self.selected as int
            ].kind is Ephemeral),
    {
        if self.selected < self.tunnels.len() {
            match self.tunnels[self.selected].kind {
                TunnelKind::Ephemeral => true,
                TunnelKind::Managed => false,
            }
        } else {
            false
        }
    }

    /// Opens the add flow at its first step. Without a configuration the
    /// status line points at setup instead.
    pub fn start_add(&mut self)
        ensures
            view_data_unchanged(*old(self), *final(self)),
            selection_unchanged(*old(self), *final(self)),
            final(self).logs == old(self).logs,
            final(self).should_quit == old(self).should_quit,
            final(self).confirm_message == old(self).confirm_message,
            final(self).pending_action == old(self).pending_action,
            old(self).config is None ==> {
                &&& final(self).status_message matches Some(m) && m@ == "Run 'ytunnel init' first"@
                &&& final(self).input_mode == old(self).input_mode
                &&& final(self).input == old(self).input
                &&& final(self).new_tunnel_name == old(self).new_tunnel_name
                &&& final(self).new_tunnel_target == old(self).new_tunnel_target
                &&& final(self).zone_selected == old(self).zone_selected
                &&& final(self).is_importing == old(self).is_importing
            },
            old(self).config is Some ==> {
                &&& final(self).input_mode is AddName
                &&& final(self).input@.len() == 0
                &&& final(self).new_tunnel_name is None
                &&& final(self).new_tunnel_target is None
                &&& final(self).zone_selected == 0
                &&& !final(self).is_importing
                &&& final(self).status_message == old(self).status_message
            },
    {
        let has_config = match &self.config {
            Some(_) => true,
            None => false,
        };
        if !has_config {
            self.status_message = Some("Run 'ytunnel init' first".to_owned());
            return ;
        }
        self.input_mode = InputMode::AddName;
        self.input = String::new();
        self.new_tunnel_name = None;
        self.new_tunnel_target = None;
        self.zone_selected = 0;
        self.is_importing = false;
    }

    /// Abandons whatever input was in progress.
    pub fn cancel_input(&mut self)
        ensures
            view_data_unchanged(*old(self), *final(self)),
            selection_unchanged(*old(self), *final(self)),
            final(self).logs == old(self).logs,
            final(self).status_message == old(self).status_message,
            final(self).should_quit == old(self).should_quit,
            final(self).is_importing == old(self).is_importing,
            final(self).zone_selected == old(self).zone_selected,
            final(self).input_mode is Normal,
            final(self).input@.len() == 0,
            final(self).new_tunnel_name is None,
            final(self).new_tunnel_target is None,
            final(self).confirm_message is None,
            final(self).pending_action is None,
    {
        self.input_mode = InputMode::Normal;
        self.input = String::new();
        self.new_tunnel_name = None;
        self.new_tunnel_target = None;
        self.confirm_message = None;
        self.pending_action = None;
    }

    /// Advances the add flow one step: a non-empty name that no current entry
    /// already carries moves on to the target step — a duplicate is rejected
    /// and the ledger never silently overwritten — and a non-empty target
    /// moves on to zone selection.
    pub fn next_add_step(&mut self)
        ensures
            view_data_unchanged(*old(self), *final(self)),
            selection_unchanged(*old(self), *final(self)),
            final(self).logs == old(self).logs,
            final(self).should_quit == old(self).should_quit,
            final(self).confirm_message == old(self).confirm_message,
            final(self).pending_action == old(self).pending_action,
            final(self).is_importing == old(self).is_importing,
            final(self).zone_selected == old(self).zone_selected,
            match old(self).input_mode {
                InputMode::AddName => if old(self).input@.len() == 0 {
                    *final(self) == *old(self)
                } else if first_where(
                    old(self).tunnels@,
                    entry_named(old(self).input@),
                ) is Some {
                    &&& final(self).status_message matches Some(m) && m@ == "Tunnel '"@ + old(
                        self,
                    ).input@ + "' already exists"@
                    &&& final(self).input_mode == old(self).input_mode
                    &&& final(self).input == old(self).input
                    &&& final(self).new_tunnel_name == old(self).new_tunnel_name
                    &&& final(self).new_tunnel_target == old(self).new_tunnel_target
                } else {
                    &&& final(self).new_tunnel_name matches Some(n) && n@ == old(self).input@
                    &&& final(self).input@.len() == 0
                    &&& final(self).input_mode is AddTarget
                    &&& final(self).new_tunnel_target == old(self).new_tunnel_target
                    &&& final(self).status_message == old(self).status_message
                },
                InputMode::AddTarget => if old(self).input@.len() == 0 {
                    *final(self) == *old(self)
                } else {
                    &&& final(self).new_tunnel_target matches Some(t) && t@ == old(self).input@
                    &&& final(self).input@.len() == 0
                    &&& final(self).input_mode is AddZone
                    &&& final(self).new_tunnel_name == old(self).new_tunnel_name
                    &&& final(self).status_message == old(self).status_message
                },
                _ => *final(self) == *old(self),
            },
    {
        match self.input_mode {
            InputMode::AddName => {
                if !self.input.as_str().is_empty() {
                    let mut i: usize = 0;
                    let ghost pred = entry_named(self.input@);
                    while i < self.tunnels.len()
                        invariant
                            i <= self.tunnels@.len(),
                            *self == *old(self),
                            old(self).input_mode is AddName,
                            old(self).input@.len() > 0,
                            pred == entry_named(self.input@),
                            forall|j: int|
                                0 <= j < i ==> !pred(#[trigger] self.tunnels@[j]),
                        decreases self.tunnels@.len() - i,
                    {
                        if str_eq(self.tunnels[i].tunnel.name.as_str(), self.input.as_str()) {
                            proof {
                                assert(pred(self.tunnels@[i as int]));
                                lemma_first_where_is(self.tunnels@, pred, i as int);
                            }
                            let mut m = "Tunnel '".to_owned();
                            m.append(self.input.as_str());
                            m.append("' already exists");
                            self.status_message = Some(m);
                            return ;
                        }
                        proof {
                            assert(!pred(self.tunnels@[i as int]));
                        }
                        i += 1;
                    }
                    proof {
                        lemma_first_where_none(self.tunnels@, pred);
                    }
                    self.new_tunnel_name = Some(self.input.clone());
                    self.input = String::new();
                    self.input_mode = InputMode::AddTarget;
                }
            },
            InputMode::AddTarget => {
                if !self.input.as_str().is_empty() {
                    self.new_tunnel_target = Some(self.input.clone());
                    self.input = String::new();
                    self.input_mode = InputMode::AddZone;
                }
            },
            _ => {},
        }
    }

    /// Moves the zone selection down the list.
    pub fn select_zone_next(&mut self)
        ensures
            view_data_unchanged(*old(self), *final(self)),
            selection_unchanged(*old(self), *final(self)),
            final(self).logs == old(self).logs,
            final(self).status_message == old(self).status_message,
            final(self).should_quit == old(self).should_quit,
            final(self).input_mode == old(self).input_mode,
            final(self).input == old(self).input,
            final(self).new_tunnel_name == old(self).new_tunnel_name,
            final(self).new_tunnel_target == old(self).new_tunnel_target,
            final(self).is_importing == old(self).is_importing,
            final(self).confirm_message == old(self).confirm_message,
            final(self).pending_action == old(self).pending_action,
            final(self).zone_selected == if old(self).zones@.len() > 0 && old(self).zone_selected
                < old(self).zones@.len() - 1 {
                old(self).zone_selected + 1
            } else {
                old(self).zone_selected as int
            },
    {
        if self.zones.len() > 0 && self.zone_selected < self.zones.len() - 1 {
            self.zone_selected = self.zone_selected + 1;
        }
    }

    /// Moves the zone selection up the list.
    pub fn select_zone_prev(&mut self)
        ensures
            view_data_unchanged(*old(self), *final(self)),
            selection_unchanged(*old(self), *final(self)),
            final(self).logs == old(self).logs,
            final(self).status_message == old(self).status_message,
            final(self).should_quit == old(self).should_quit,
            final(self).input_mode == old(self).input_mode,
            final(self).input == old(self).input,
            final(self).new_tunnel_name == old(self).new_tunnel_name,
            final(self).new_tunnel_target == old(self).new_tunnel_target,
            final(self).is_importing == old(self).is_importing,
            final(self).confirm_message == old(self).confirm_message,
            final(self).pending_action == old(self).pending_action,
            final(self).zone_selected == if old(self).zone_selected > 0 {
                old(self).zone_selected - 1
            } else {
                0
            },
    {
        if self.zone_selected > 0 {
            self.zone_selected = self.zone_selected - 1;
        }
    }

    /// Arms deletion of the selected tunnel behind a confirmation prompt,
    /// worded for its kind.
    pub fn request_delete(&mut self)
        ensures
            view_data_unchanged(*old(self), *final(self)),
            selection_unchanged(*old(self), *final(self)),
            final(self).logs == old(self).logs,
            final(self).status_message == old(self).status_message,
            final(self).should_quit == old(self).should_quit,
            final(self).input == old(self).input,
            final(self).new_tunnel_name == old(self).new_tunnel_name,
            final(self).new_tunnel_target == old(self).new_tunnel_target,
            final(self).is_importing == old(self).is_importing,
            final(self).zone_selected == old(self).zone_selected,
            old(self).selected >= old(self).tunnels@.len() ==> *final(self) == *old(self),
            old(self).selected < old(self).tunnels@.len() ==> {
                let e = old(self).tunnels@[old(self).selected as int];
                &&& final(self).input_mode is Confirm
                &&& final(self).pending_action matches Some(PendingAction::Delete(n)) && n@
                    == e.tunnel.name@
                &&& final(self).confirm_message matches Some(m) && m@ == if e.kind is Ephemeral {
                    "Delete ephemeral tunnel '"@ + e.tunnel.name@
                        + "'? This will remove it from Cloudflare. (y/n)"@
                } else {
                    "Delete tunnel '"@ + e.tunnel.name@
                        + "'? This will remove the DNS record and tunnel. (y/n)"@
                }
            },
    {
        if self.selected < self.tunnels.len() {
            let e = &self.tunnels[self.selected];
            let ephemeral = match e.kind {
                TunnelKind::Ephemeral => true,
                TunnelKind::Managed => false,
            };
            let mut m = if ephemeral {
                "Delete ephemeral tunnel '".to_owned()
            } else {
                "Delete tunnel '".to_owned()
            };
            m.append(e.tunnel.name.as_str());
            if ephemeral {
                m.append("'? This will remove it from Cloudflare. (y/n)");
            } else {
                m.append("'? This will remove the DNS record and tunnel. (y/n)");
            }
            let name = e.tunnel.name.clone();
            self.confirm_message = Some(m);
            self.pending_action = Some(PendingAction::Delete(name));
            self.input_mode = InputMode::Confirm;
        }
    }

    /// Rebuilds the log pane for the selected entry. For a managed tunnel the
    /// caller hands in what reading its log tail yielded; an ephemeral tunnel
    /// gets an explanation built from its own fields, and no selection a
    /// placeholder.
    pub fn refresh_logs(&mut self, managed_log: Result<Vec<String>, String>)
        ensures
            view_data_unchanged(*old(self), *final(self)),
            selection_unchanged(*old(self), *final(self)),
            flow_unchanged(*old(self), *final(self)),
            final(self).status_message == old(self).status_message,
            final(self).should_quit == old(self).should_quit,
            old(self).selected >= old(self).tunnels@.len() ==> final(self).logs@.len() == 1
                && final(self).logs@[0]@ == "No tunnel selected"@,
            old(self).selected < old(self).tunnels@.len() && old(self).tunnels@[
                old(self).selected as int
            ].kind is Managed ==> match managed_log {
                Ok(lines) => final(self).logs == lines,
                Err(e) => final(self).logs@.len() == 1 && final(self).logs@[0]@
                    == "Error reading logs: "@ + e@,
            },
            old(self).selected < old(self).tunnels@.len() && old(self).tunnels@[
                old(self).selected as int
            ].kind is Ephemeral ==> final(self).logs.deep_view() == ephemeral_info_lines(
                old(self).tunnels@[old(self).selected as int].tunnel.hostname@,
                old(self).tunnels@[old(self).selected as int].tunnel.target@,
                old(self).tunnels@[old(self).selected as int].tunnel.zone_name@,
            ),
    {
        if self.selected >= self.tunnels.len() {
            let mut logs: Vec<String> = Vec::new();
            logs.push("No tunnel selected".to_owned());
            self.logs = logs;
            return ;
        }
        let managed = match self.tunnels[self.selected].kind {
            TunnelKind::Managed => true,
            TunnelKind::Ephemeral => false,
        };
        if managed {
            match managed_log {
                Ok(lines) => {
                    self.logs = lines;
                },
                Err(e) => {
                    let mut m = "Error reading logs: ".to_owned();
                    m.append(e.as_str());
                    let mut logs: Vec<String> = Vec::new();
                    logs.push(m);
                    self.logs = logs;
                },
            }
        } else {
            let t = &self.tunnels[self.selected].tunnel;
            let has_config = !str_eq(t.target.as_str(), "unknown") && !t.target.as_str().is_empty();
            let mut logs: Vec<String> = Vec::new();
            logs.push("Ephemeral tunnel (created with `ytunnel run`)".to_owned());
            logs.push(String::new());
            if has_config {
                let mut h = "Hostname: ".to_owned();
                h.append(t.hostname.as_str());
                logs.push(h);
                let mut g = "Target:   ".to_owned();
                g.append(t.target.as_str());
                logs.push(g);
                if !t.zone_name.as_str().is_empty() {
                    let mut z = "Zone:     ".to_owned();
                    z.append(t.zone_name.as_str());
                    logs.push(z);
                } else {
                    logs.push("Zone:     (will prompt)".to_owned());
                }
                logs.push(String::new());
                logs.push("Press [m] to import as managed tunnel".to_owned());
                logs.push("Press [d] to delete from Cloudflare".to_owned());
            } else {
                logs.push("Config not found - tunnel may not be running.".to_owned());
                logs.push(String::new());
                logs.push("Press [m] to import (will prompt for target)".to_owned());
                logs.push("Press [d] to delete from Cloudflare".to_owned());
            }
            proof {
                assert(logs.deep_view() =~= ephemeral_info_lines(
                    t.hostname@,
                    t.target@,
                    t.zone_name@,
                ));
            }
            self.logs = logs;
        }
    }

    /// Reports a health-probe outcome: writes the status line, and names the
    /// notification to send exactly on the two meaningful edges — a tunnel
    /// going down or coming back up. Repeating the same classification never
    /// notifies.
    pub fn show_health_result(&mut self, tunnel_name: &str, prev: HealthStatus, next: HealthStatus)
        -> (notify: Option<(String, String)>)
        ensures
            view_data_unchanged(*old(self), *final(self)),
            selection_unchanged(*old(self), *final(self)),
            flow_unchanged(*old(self), *final(self)),
            final(self).logs == old(self).logs,
            final(self).should_quit == old(self).should_quit,
            prev is Healthy && next is Unhealthy ==> (notify matches Some((t, b)) && t@
                == "Tunnel Down: "@ + tunnel_name@ && b@ == "The tunnel is no longer reachable"@)
                && (final(self).status_message matches Some(m) && m@
                == "\u{26a0}\u{fe0f}  Tunnel '"@ + tunnel_name@ + "' is DOWN!"@),
            prev is Unhealthy && next is Healthy ==> (notify matches Some((t, b)) && t@
                == "Tunnel Up: "@ + tunnel_name@ && b@ == "The tunnel is now reachable"@)
                && (final(self).status_message matches Some(m) && m@ == "\u{2713} Tunnel '"@
                + tunnel_name@ + "' is back UP"@),
            !((prev is Healthy && next is Unhealthy) || (prev is Unhealthy && next is Healthy))
                ==> notify is None,
            !((prev is Healthy && next is Unhealthy) || (prev is Unhealthy && next is Healthy))
                ==> match next {
                HealthStatus::Healthy => final(self).status_message matches Some(m) && m@
                    == "\u{2713} "@ + tunnel_name@ + " is healthy"@,
                HealthStatus::Unhealthy => final(self).status_message matches Some(m) && m@
                    == "\u{2717} "@ + tunnel_name@ + " is unreachable"@,
                _ => final(self).status_message == old(self).status_message,
            },
    {
        match next {
            HealthStatus::Healthy => {
                let mut m = "\u{2713} ".to_owned();
                m.append(tunnel_name);
                m.append(" is healthy");
                self.status_message = Some(m);
            },
            HealthStatus::Unhealthy => {
                let mut m = "\u{2717} ".to_owned();
                m.append(tunnel_name);
                m.append(" is unreachable");
                self.status_message = Some(m);
            },
            _ => {},
        }
        match (prev, next) {
            (HealthStatus::Healthy, HealthStatus::Unhealthy) => {
                let mut m = "\u{26a0}\u{fe0f}  Tunnel '".to_owned();
                m.append(tunnel_name);
                m.append("' is DOWN!");
                self.status_message = Some(m);
                let mut t = "Tunnel Down: ".to_owned();
                t.append(tunnel_name);
                Some((t, "The tunnel is no longer reachable".to_owned()))
            },
            (HealthStatus::Unhealthy, HealthStatus::Healthy) => {
                let mut m = "\u{2713} Tunnel '".to_owned();
                m.append(tunnel_name);
                m.append("' is back UP");
                self.status_message = Some(m);
                let mut t = "Tunnel Up: ".to_owned();
                t.append(tunnel_name);
                Some((t, "The tunnel is now reachable".to_owned()))
            },
            _ => None,
        }
    }
}

/// The log pane's explanation of an ephemeral tunnel: its recovered hostname,
/// target and zone when its artifact named a target, else a note that the
/// artifact is missing.
pub open spec fn ephemeral_info_lines(
    hostname: Seq<char>,
    target: Seq<char>,
    zone_name: Seq<char>,
) -> Seq<Seq<char>> {
    if target != "unknown"@ && target.len() > 0 {
        seq![
            "Ephemeral tunnel (created with `ytunnel run`)"@,
            Seq::<char>::empty(),
            "Hostname: "@ + hostname,
            "Target:   "@ + target,
            if zone_name.len() > 0 {
                "Zone:     "@ + zone_name
            } else {
                "Zone:     (will prompt)"@
            },
            Seq::<char>::empty(),
            "Press [m] to import as managed tunnel"@,
            "Press [d] to delete from Cloudflare"@,
        ]
    } else {
        seq![
            "Ephemeral tunnel (created with `ytunnel run`)"@,
            Seq::<char>::empty(),
            "Config not found - tunnel may not be running."@,
            Seq::<char>::empty(),
            "Press [m] to import (will prompt for target)"@,
            "Press [d] to delete from Cloudflare"@,
        ]
    }
}

} // verus!
