//! The bridge's command line, as parsed.

use vstd::prelude::*;

verus! {

/// The parsed command line.
pub struct Cli {
    pub command: Command,
}

/// The bridge's subcommands.
pub enum Command {
    /// Install the plugin into the MiMo Code config dir (idempotent), and the
    /// opencode-identity shim with `shim`.
    Install { shim: bool },
    /// Remove the plugin, and the shim with `shim`.
    Uninstall { shim: bool },
    /// Health check, as JSON with `json`.
    Status { json: bool },
    /// Spawn a MiMo Code agent in a new Herdr tab.
    Spawn { name: Option<String>, cwd: Option<String>, workspace: Option<String>, shim: bool },
    /// End-to-end smoke test.
    Verify,
    /// Watchdog: releases the agent label when stdin reaches its end.
    Watch { pane: String, source: String, agent: String },
}

} // verus!
