//! The self-upgrade trigger: where the new build is fetched from.
use vstd::prelude::*;

verus! {

/// The coordinator's answer to an upgrade request.
pub struct UpgradeResponse {
    pub success: bool,
    pub message: String,
    pub upgrade_url: String,
}

/// The download address of the build for one platform: the upgrade URL, the operating system
/// and the architecture, joined by dashes.
pub fn upgrade_download_url(upgrade_url: &str, os: &str, arch: &str) -> (r: String)
    ensures
        r@ == upgrade_url@ + "-"@ + os@ + "-"@ + arch@,
{
    let mut r = String::from_str(upgrade_url);
    r.append("-");
    r.append(os);
    r.append("-");
    r.append(arch);
    r
}

} // verus!
