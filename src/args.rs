//! The agent's settings, as the command line gives them.
use crate::session::SessionConfig;
use vstd::prelude::*;

verus! {

/// Settings of one agent process.
pub struct Args {
    /// Coordinator address, `host:port`.
    pub server: String,
    /// Bootstrap token.
    pub token: String,
    /// Declared bandwidth in Mbps.
    pub max_mbps: i32,
    pub debug: bool,
    /// Install as a service instead of running.
    pub install: bool,
    pub disable_auto_upgrade: bool,
}

impl Args {
    /// The session settings these arguments stand for, with the agent's own version.
    pub fn session_config(&self, client_version: String) -> (r: SessionConfig)
        ensures
            r.max_mbps == self.max_mbps,
            r.client_version == client_version,
            r.bootstrap_token == self.token,
            r.auto_upgrade == !self.disable_auto_upgrade,
    {
        SessionConfig {
            max_mbps: self.max_mbps,
            client_version,
            bootstrap_token: self.token.clone(),
            auto_upgrade: !self.disable_auto_upgrade,
        }
    }
}

} // verus!
