//! Library for keeping a user-declared set of named tunnels (public hostname
//! to local service) running: a durable multi-account credential registry, a
//! desired-state ledger of managed tunnels, service-manager naming and
//! descriptor generation with legacy-name fallback, a reconciler that merges
//! desired state with daemon-observed status and remotely discovered orphan
//! tunnels, and a health/metrics monitor with counter-delta tracking.

pub mod app_core;
pub mod cli;
pub mod cloudflare;
pub mod config;
pub mod daemon;
pub mod health;
pub mod history;
pub mod metrics;
pub mod naming;
pub mod reconcile;
pub mod state;
pub mod status;
pub mod text;
pub mod update;

pub use status::TunnelStatus;
