//! The service unit that keeps an agent running under systemd.
use crate::args::Args;
use crate::expand::decimal;
use vstd::prelude::*;

verus! {

/// Where the installed binary lives.
pub const INSTALLED_BINARY: &'static str = "/usr/bin/CloudflareSpeedtest-Slave";

/// Signed decimal text of `n`.
pub open spec fn int_text(n: int) -> Seq<char> {
    if n < 0 {
        seq!['-'] + decimal((-n) as nat)
    } else {
        decimal(n as nat)
    }
}

/// Relies on std's `Display for i32`: a minus sign for negatives, then the decimal digits
/// without leading zeros.
#[verifier::external_body]
fn i32_string(n: i32) -> (r: String)
    ensures
        r@ == int_text(n as int),
{
    n.to_string()
}

pub open spec fn unit_head() -> Seq<char> {
    "[Unit]\nDescription=Cloudflare Speedtest Slave\nAfter=network.target\n\n[Install]\nWantedBy=multi-user.target\n\n[Service]\nType=simple\nExecStart=/usr/bin/CloudflareSpeedtest-Slave -s "@
}

/// The unit file text: the binary started with the coordinator address, the token, the
/// declared bandwidth and, when asked for, debug logging; restarted whenever it exits.
pub open spec fn unit_text(server: Seq<char>, token: Seq<char>, max_mbps: int, debug: bool) -> Seq<char> {
    unit_head() + server + " -t "@ + token + " -m "@ + int_text(max_mbps) + (if debug {
        " --debug"@
    } else {
        ""@
    }) + "\nRestart=always\n"@
}

/// The service unit for `args`.
pub fn service_unit(args: &Args) -> (r: String)
    ensures
        r@ == unit_text(args.server@, args.token@, args.max_mbps as int, args.debug),
{
    let mut r = String::from_str(
        "[Unit]\nDescription=Cloudflare Speedtest Slave\nAfter=network.target\n\n[Install]\nWantedBy=multi-user.target\n\n[Service]\nType=simple\nExecStart=/usr/bin/CloudflareSpeedtest-Slave -s ",
    );
    r.append(args.server.as_str());
    r.append(" -t ");
    r.append(args.token.as_str());
    r.append(" -m ");
    let m = i32_string(args.max_mbps);
    r.append(m.as_str());
    if args.debug {
        r.append(" --debug");
    } else {
        proof {
            reveal_strlit("");
            assert(r@ + ""@ =~= r@);
        }
    }
    r.append("\nRestart=always\n");
    r
}

} // verus!
