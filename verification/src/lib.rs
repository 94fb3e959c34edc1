//! Core of a native nftables port-forwarding manager.
//!
//! Parsing and semantic checks of the configuration, DNS target selection, the
//! order of an all-or-nothing reload, the status and diagnosis texts and the
//! first-use wizard are kept here, free of I/O.

use vstd::prelude::*;

pub mod address;
pub mod commit;
pub mod config;
pub mod control;
pub mod dns;
pub mod doctor;
pub mod host;
pub mod laws;
pub mod nft;
pub mod number;
pub mod profile;
pub mod refresh;
pub mod runtime;
pub mod service;
pub mod settings;
pub mod state;
pub mod text;
pub mod time;
pub mod wizard;

verus! {

/// Where the configuration stands.
pub const DEFAULT_CONFIG_PATH: &'static str = "/etc/port-forward/config.toml";

/// Where the daemon listens.
pub const DEFAULT_SOCKET_PATH: &'static str = "/run/port-forwardd.sock";

/// Where the daemon keeps its state.
pub const DEFAULT_STATE_PATH: &'static str = "/var/lib/port-forward/state.json";

} // verus!
