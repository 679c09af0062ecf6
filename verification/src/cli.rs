//! The command-line surface as plain data: what was asked for, parsed by the
//! binary and handed in as values.

use vstd::prelude::*;

verus! {

/// One invocation: an optional account override and the command, none meaning
/// the interactive dashboard.
#[derive(Debug)]
pub struct Cli {
    /// Use this account instead of the selected one.
    pub account: Option<String>,
    pub command: Option<Commands>,
}

/// Every command the tool offers.
#[derive(Debug)]
pub enum Commands {
    /// Set up credentials and zones.
    Init,
    /// Create and run an ephemeral tunnel in the foreground.
    Run {
        /// One value: the target. Two values: name, then target.
        args: Vec<String>,
        /// Zone to use instead of the default.
        zone: Option<String>,
    },
    /// Add a persistent tunnel.
    Add { name: String, target: String, zone: Option<String>, start: bool },
    /// Start a stopped tunnel.
    Start { name: String },
    /// Stop a running tunnel.
    Stop { name: String },
    /// Stop, reinstall and start a tunnel.
    Restart { name: String },
    /// Show a tunnel's log tail.
    Logs { name: String, follow: bool, lines: usize },
    /// List or configure zones.
    Zones { command: Option<ZonesCommands> },
    /// List every tunnel of the account.
    List,
    /// Delete a tunnel, with or without the tool prefix on its name.
    Delete { name: String },
    /// Remove all configuration and every tunnel.
    Reset { yes: bool },
    /// Check for a newer release, and install it unless only checking.
    Update { check: bool },
    /// List or configure accounts.
    Account { command: Option<AccountCommands> },
}

/// The account subcommands.
#[derive(Debug)]
pub enum AccountCommands {
    /// List the configured accounts.
    List,
    /// Make an account the default.
    Select { name: String },
    /// Make an account the default.
    Default { name: String },
    /// Remove an account and its tunnels.
    Remove { name: String, yes: bool },
}

/// The zone subcommands.
#[derive(Debug)]
pub enum ZonesCommands {
    /// Make a zone the default.
    Default { domain: String },
}

} // verus!
