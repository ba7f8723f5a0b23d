//! A minimal coordinator that accepts a single Bootstrap, for exercising agents against.
use crate::schedule::Assignment;
use crate::session::{BootstrapRequest, BootstrapResponse};
use crate::upgrade::UpgradeResponse;
use vstd::prelude::*;

verus! {

/// The coordinator's state: its own version and the one Bootstrap it accepted, if any.
pub struct S {
    pub version: String,
    pub bootstrapped: bool,
    pub config: Option<BootstrapRequest>,
}

impl S {
    pub fn new(version: String) -> (r: S)
        ensures
            r.version == version,
            !r.bootstrapped,
            r.config is None,
    {
        S { version, bootstrapped: false, config: None }
    }

    /// Accepts the first Bootstrap, echoing its token as the session token and asking for an
    /// upgrade when the client's version differs from the coordinator's; refuses every later
    /// one.
    pub fn bootstrap(&mut self, req: BootstrapRequest) -> (r: BootstrapResponse)
        ensures
            final(self).version == old(self).version,
            final(self).bootstrapped,
            old(self).bootstrapped ==> {
                &&& !r.success
                &&& !r.should_upgrade
                &&& r.message@ == "You have already bootstrapped"@
                &&& r.session_token@.len() == 0
                &&& final(self).config == old(self).config
            },
            !old(self).bootstrapped ==> {
                &&& r.success
                &&& r.should_upgrade == (req.client_version@ != old(self).version@)
                &&& r.message@ == "Done"@
                &&& r.session_token == req.bootstrap_token
                &&& final(self).config == Some(req)
            },
    {
        if self.bootstrapped {
            return BootstrapResponse {
                success: false,
                should_upgrade: false,
                message: String::from_str("You have already bootstrapped"),
                session_token: String::new(),
            };
        }
        self.bootstrapped = true;
        let should_upgrade = !(req.client_version == self.version);
        let session_token = req.bootstrap_token.clone();
        self.config = Some(req);
        BootstrapResponse {
            success: true,
            should_upgrade,
            message: String::from_str("Done"),
            session_token,
        }
    }

    /// Hands out no work: an assignment with no ranges.
    pub fn speedtest(&self) -> (r: Assignment)
        ensures
            r.ip_ranges@.len() == 0,
            r.speed_url@.len() == 0,
            r.minimum_mbps == 0,
            r.maximum_ping == 0,
    {
        Assignment {
            ip_ranges: Vec::new(),
            speed_url: String::new(),
            minimum_mbps: 0,
            maximum_ping: 0,
        }
    }

    /// Offers no upgrade.
    pub fn upgrade(&self) -> (r: UpgradeResponse)
        ensures
            !r.success,
            r.message@.len() == 0,
            r.upgrade_url@.len() == 0,
    {
        UpgradeResponse { success: false, message: String::new(), upgrade_url: String::new() }
    }
}

} // verus!
