//! Decisions of the bandwidth probe: what to request from which host and port, when to stop
//! reading the download, and the throughput it amounts to.
use url::Url;
use vstd::prelude::*;

verus! {

/// The parts of the URL that `s` denotes: domain (when the host is a domain name), explicit
/// port and path; `None` when `s` is not a URL.
pub uninterp spec fn url_parts(s: Seq<char>) -> Option<(Option<Seq<char>>, Option<u16>, Seq<char>)>;

/// Relies on url's `Url::parse`, read back through `Url::domain`, `Url::port` and `Url::path`:
/// the outcome depends on the text alone.
#[verifier::external_body]
fn parse_url_parts(s: &str) -> (r: Option<(Option<String>, Option<u16>, String)>)
    ensures
        r is Some <==> url_parts(s@) is Some,
        r matches Some(p) ==> url_parts(s@) == Some(
            (
                match p.0 {
                    Some(d) => Some(d@),
                    None => None,
                },
                p.1,
                p.2@,
            ),
        ),
{
    match Url::parse(s) {
        Ok(u) => {
            let domain = match u.domain() {
                Some(d) => Some(d.to_string()),
                None => None,
            };
            Some((domain, u.port(), u.path().to_string()))
        },
        Err(_) => None,
    }
}

/// Port of an `https` URL that names none.
pub const DEFAULT_TLS_PORT: u16 = 443;

/// Seconds that one bandwidth probe may spend reading.
pub const PROBE_BUDGET_SECS: u32 = 10;

/// Why a bandwidth probe produced no throughput.
#[derive(Clone, Copy, Debug, PartialEq, Eq, Structural)]
pub enum BandwidthError {
    /// The speed URL is not a URL.
    BadUrl,
    /// The speed URL's host is not a domain name, so there is no name to verify TLS against.
    NoDomain,
    /// The connection, the handshake, the request or a read failed.
    Transport,
    /// Nothing was downloaded.
    Empty,
}

/// Where a download goes and what it sends: the host is the TLS server name and the `Host`
/// header, the address comes from the candidate.
#[derive(Debug)]
pub struct DownloadTarget {
    pub host: String,
    pub port: u16,
    pub path: String,
    pub request: String,
}

/// A minimal HTTP/1.1 GET of `path` from `host` that asks the server to close afterwards.
pub open spec fn request_text(path: Seq<char>, host: Seq<char>) -> Seq<char> {
    "GET "@ + path + " HTTP/1.1\r\nHost: "@ + host + "\r\nConnection: close\r\n\r\n"@
}

/// Builds the request line and headers of a download.
pub fn http_get_request(path: &str, host: &str) -> (r: String)
    ensures
        r@ == request_text(path@, host@),
{
    let mut r = String::from_str("GET ");
    r.append(path);
    r.append(" HTTP/1.1\r\nHost: ");
    r.append(host);
    r.append("\r\nConnection: close\r\n\r\n");
    r
}

/// The download target for the parts of a parsed speed URL: the domain is required, the
/// port defaults to 443.
pub fn download_target(domain: Option<&str>, port: Option<u16>, path: &str) -> (r: Result<
    DownloadTarget,
    BandwidthError,
>)
    ensures
        domain is None <==> r == Err::<DownloadTarget, BandwidthError>(BandwidthError::NoDomain),
        r is Ok <==> domain is Some,
        r matches Ok(t) ==> {
            &&& t.host@ == domain->Some_0@
            &&& t.port == (match port {
                Some(p) => p,
                None => DEFAULT_TLS_PORT,
            })
            &&& t.path@ == path@
            &&& t.request@ == request_text(path@, domain->Some_0@)
        },
{
    match domain {
        None => Err(BandwidthError::NoDomain),
        Some(d) => {
            let p = match port {
                Some(p) => p,
                None => DEFAULT_TLS_PORT,
            };
            Ok(
                DownloadTarget {
                    host: String::from_str(d),
                    port: p,
                    path: String::from_str(path),
                    request: http_get_request(path, d),
                },
            )
        },
    }
}

/// Parses the speed URL into a download target: its domain is the host, its port (443 when
/// none is given) and its path are kept. Text that is not a URL, or a URL whose host is not a
/// domain name, gives no target.
pub fn plan_download(speed_url: &str) -> (r: Result<DownloadTarget, BandwidthError>)
    ensures
        url_parts(speed_url@) is None <==> r == Err::<DownloadTarget, BandwidthError>(
            BandwidthError::BadUrl,
        ),
        url_parts(speed_url@) matches Some(p) ==> (p.0 is None <==> r == Err::<
            DownloadTarget,
            BandwidthError,
        >(BandwidthError::NoDomain)),
        r is Ok <==> (url_parts(speed_url@) matches Some(p) && p.0 is Some),
        r matches Ok(t) ==> (url_parts(speed_url@) matches Some(p) && {
            &&& p.0 == Some(t.host@)
            &&& t.port == (match p.1 {
                Some(x) => x,
                None => DEFAULT_TLS_PORT,
            })
            &&& t.path@ == p.2
            &&& t.request@ == request_text(p.2, t.host@)
        }),
{
    match parse_url_parts(speed_url) {
        None => Err(BandwidthError::BadUrl),
        Some((domain, port, path)) => match domain {
            None => Err(BandwidthError::NoDomain),
            Some(d) => download_target(Some(d.as_str()), port, path.as_str()),
        },
    }
}

/// Throughput in Mbps of `bytes` read in `elapsed_us` microseconds, rounded to the nearest
/// integer (halves up). Bits per microsecond are megabits per second; a duration under one
/// microsecond counts as one.
pub open spec fn mbps(bytes: nat, elapsed_us: nat) -> nat {
    let us = if elapsed_us == 0 {
        1
    } else {
        elapsed_us
    };
    (16 * bytes + us) / (2 * us)
}

/// The throughput of a download, or `None` when nothing was read, which points to a failed
/// transfer rather than an idle link. Saturates at `u64::MAX`.
pub fn throughput_mbps(bytes: u64, elapsed_us: u64) -> (r: Option<u64>)
    ensures
        r is None <==> bytes == 0,
        r matches Some(m) ==> m == (if mbps(bytes as nat, elapsed_us as nat) <= u64::MAX {
            mbps(bytes as nat, elapsed_us as nat)
        } else {
            u64::MAX as nat
        }),
{
    if bytes == 0 {
        return None;
    }
    let us: u128 = if elapsed_us == 0 {
        1
    } else {
        elapsed_us as u128
    };
    let m: u128 = (16 * (bytes as u128) + us) / (2 * us);
    if m <= u64::MAX as u128 {
        Some(m as u64)
    } else {
        Some(u64::MAX)
    }
}

/// Bytes counted so far by a download that reads until the peer closes or the time budget
/// is spent.
pub struct DownloadMeter {
    pub bytes: u64,
    pub budget_us: u64,
    pub finished: bool,
}

impl DownloadMeter {
    /// A meter with nothing read and a budget of `budget_secs` seconds.
    pub fn new(budget_secs: u32) -> (r: DownloadMeter)
        ensures
            r.bytes == 0,
            r.budget_us == budget_secs as nat * 1_000_000,
            !r.finished,
    {
        DownloadMeter { bytes: 0, budget_us: budget_secs as u64 * 1_000_000, finished: false }
    }

    /// Counts a read of `n` bytes that returned `elapsed_us` microseconds after the request
    /// was sent, and says whether to read again: not after end of stream (`n == 0`), nor once
    /// the budget is spent.
    pub fn on_read(&mut self, n: usize, elapsed_us: u64) -> (keep_reading: bool)
        requires
            !old(self).finished,
        ensures
            final(self).budget_us == old(self).budget_us,
            final(self).bytes == (if old(self).bytes + n <= u64::MAX {
                old(self).bytes + n
            } else {
                u64::MAX as int
            }),
            keep_reading == (n > 0 && elapsed_us < old(self).budget_us),
            final(self).finished == !keep_reading,
    {
        if n == 0 {
            self.finished = true;
            return false;
        }
        let add = n as u64;
        if self.bytes <= u64::MAX - add {
            self.bytes = self.bytes + add;
        } else {
            self.bytes = u64::MAX;
        }
        let keep = elapsed_us < self.budget_us;
        self.finished = !keep;
        keep
    }

    /// The throughput of what was read, `elapsed_us` microseconds after the request was sent.
    pub fn throughput(&self, elapsed_us: u64) -> (r: Result<u64, BandwidthError>)
        ensures
            r is Err <==> self.bytes == 0,
            r matches Err(e) ==> e == BandwidthError::Empty,
            r matches Ok(m) ==> m == (if mbps(self.bytes as nat, elapsed_us as nat) <= u64::MAX {
                mbps(self.bytes as nat, elapsed_us as nat)
            } else {
                u64::MAX as nat
            }),
    {
        match throughput_mbps(self.bytes, elapsed_us) {
            Some(m) => Ok(m),
            None => Err(BandwidthError::Empty),
        }
    }
}

} // verus!
